# devl

`devl init [PATH]` creates a clean development-lab project in a new or empty
directory. This crate holds its logic, verified with Verus:

- `src/cli.rs`: which command a command line selects, and the texts it answers with;
- `src/name.rs`: how the destination directory's name becomes the project name;
- `src/templates.rs`: the generated files and the substitution of the project name;
- `src/init.rs`: the steps of creating a project, as a state machine whose
  operations the caller performs;
- `src/error.rs`: the error type and its exit codes;
- `src/text.rs`: the std string operations used, and decimal formatting.

`app/main.rs` is the command itself: it reads the command line and performs the
file system operations that the library asks for.

## Template texts

Of the seventeen generated files, this crate carries the text of one, the
README (`README_TEMPLATE` in `src/templates.rs`). The other sixteen
(`.containerignore`, the dev-container files, the workflow, `.gitignore`,
`AGENTS.md`, the `just` files, the `mise` files and the two workspace scripts)
are written empty: their template is `UNBUNDLED`, the empty text. The paths,
the executable bits, the substitution of the project name and the laws about it
(`no_placeholder_survives`, `generated_files_depend_only_on_project_name`) hold
for any template text, so carrying a template is a matter of replacing its
constant. `render` and `InitMachine::start` take the templates as an argument,
and their contracts say that each planned file is its template with the
project name substituted, whatever the texts are.
