//! The decision logic of `devl`, the command that creates clean, contained
//! development-lab projects: command-line parsing (`cli`), project-name
//! normalization (`name`), template rendering (`templates`), the steps of
//! creating a project (`init`) and the error model (`error`).

pub mod cli;
pub mod error;
pub mod init;
pub mod name;
pub mod templates;
pub mod text;

pub use error::Error;
