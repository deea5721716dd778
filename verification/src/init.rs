//! Creating a project: the decisions of `devl init`, as a state machine.
//!
//! The file system work is done by the caller. `InitMachine::start` and
//! `InitMachine::step` say which operation comes next; the caller performs
//! it and reports how it went as an `Event`. The project is first written
//! into a staging directory beside the destination and only then moved into
//! place: renamed, if the destination did not exist, or moved entry by entry
//! into the empty destination. A destination that is not a directory, or is
//! not empty, is refused before anything is written. Once the staging
//! directory exists, every failure removes it again.

use vstd::prelude::*;

use crate::error::{Error, OPERATION_EXIT_CODE};
use crate::name::{is_ascii_alnum, is_project_name, normalize_project_name, project_name_outcome};
use crate::templates::{
    executables_of,
    paths_of,
    render,
    rendered_texts,
    texts_of,
    GeneratedFile,
    Template,
};
use crate::text::{decimal, digit_char, push_decimal};

verus! {

pub const NO_UTF8_NAME: &'static str = "destination must have a UTF-8 directory name";

pub const NOT_A_DIRECTORY: &'static str = "destination is not a directory: ";

pub const NOT_EMPTY: &'static str = "destination is not empty; no files were changed: ";

pub const NO_PARENT: &'static str = "destination has no parent: ";

pub const INSPECT_DESTINATION: &'static str = "inspect destination";

pub const CREATE_PARENT: &'static str = "create parent";

pub const CREATE_STAGING: &'static str = "create staging directory";

pub const CREATE_DIRECTORY: &'static str = "create directory";

pub const WRITE_FILE: &'static str = "write generated file";

pub const READ_MODE: &'static str = "read generated file mode";

pub const SET_MODE: &'static str = "set generated file mode";

pub const INSTALL: &'static str = "install generated project";

pub const INSPECT_STAGING: &'static str = "inspect staging directory";

pub const INSPECT_STAGING_ENTRY: &'static str = "inspect staging entry";

pub const REMOVE_STAGING: &'static str = "remove staging directory";

/// The permission bits given to generated executables.
pub const EXECUTABLE_MODE: u32 = 0o755;

/// The message of a failed file system operation.
pub open spec fn io_error_text(action: Seq<char>, path: Seq<char>, error: Seq<char>) -> Seq<char> {
    "failed to "@ + action + " "@ + path + ": "@ + error
}

/// The error for a failed file system operation: what was done, on which
/// path (as displayed), and the operating system's message.
pub fn io_error(action: &str, path: &str, error: &str) -> (e: Error)
    ensures
        e.text() == io_error_text(action@, path@, error@),
        e.code() == OPERATION_EXIT_CODE,
{
    let mut message = "failed to ".to_owned();
    message.append(action);
    message.append(" ");
    message.append(path);
    message.append(": ");
    message.append(error);
    Error::operation(message)
}

/// The name of the staging directory, made unique by process id and time.
pub open spec fn staging_name_text(project: Seq<char>, pid: nat, nonce: nat) -> Seq<char> {
    "."@ + project + ".devl-"@ + decimal(pid) + "-"@ + decimal(nonce)
}

/// The name of the staging directory for `project`, created beside the
/// destination by process `pid` at time `nonce` (nanoseconds).
pub fn staging_name(project: &str, pid: u32, nonce: u128) -> (name: String)
    ensures
        name@ == staging_name_text(project@, pid as nat, nonce as nat),
{
    let mut name = ".".to_owned();
    name.append(project);
    name.append(".devl-");
    push_decimal(&mut name, pid as u128);
    name.append("-");
    push_decimal(&mut name, nonce);
    name
}


proof fn lemma_decimal_digits(n: nat)
    ensures
        decimal(n).len() >= 1,
        forall|k: int|
            0 <= k < decimal(n).len() ==> 48 <= #[trigger] decimal(n)[k] as u32 && decimal(n)[k] as u32
                <= 57,
    decreases n,
{
    if n >= 10 {
        lemma_decimal_digits(n / 10);
        assert(digit_char(n % 10) as u32 == 48 + n % 10);
        assert forall|k: int| 0 <= k < decimal(n).len() implies 48 <= #[trigger] decimal(n)[k] as u32
            && decimal(n)[k] as u32 <= 57 by {
            if k < decimal(n / 10).len() {
                assert(decimal(n)[k] == decimal(n / 10)[k]);
            }
        }
    } else {
        assert(digit_char(n) as u32 == 48 + n);
    }
}

proof fn lemma_decimal_injective(a: nat, b: nat)
    requires
        decimal(a) == decimal(b),
    ensures
        a == b,
    decreases a,
{
    assert(digit_char(a % 10) as u32 == 48 + a % 10);
    assert(digit_char(b % 10) as u32 == 48 + b % 10);
    if a < 10 && b < 10 {
        assert(decimal(a) == seq![digit_char(a)]);
        assert(decimal(b) == seq![digit_char(b)]);
        assert(decimal(a)[0] == decimal(b)[0]);
        assert(decimal(a)[0] == digit_char(a));
        assert(decimal(b)[0] == digit_char(b));
        assert(digit_char(a) as u32 == digit_char(b) as u32);
    } else if a < 10 {
        lemma_decimal_digits(b / 10);
        assert(decimal(b).len() >= 2);
    } else if b < 10 {
        lemma_decimal_digits(a / 10);
        assert(decimal(a).len() >= 2);
    } else {
        assert(decimal(a) == decimal(a / 10).push(digit_char(a % 10)));
        assert(decimal(b) == decimal(b / 10).push(digit_char(b % 10)));
        assert(decimal(a).last() == decimal(b).last());
        assert(decimal(a).last() == digit_char(a % 10));
        assert(decimal(b).last() == digit_char(b % 10));
        assert(digit_char(a % 10) as u32 == digit_char(b % 10) as u32);
        assert(a % 10 == b % 10);
        assert(decimal(a).drop_last() =~= decimal(a / 10));
        assert(decimal(b).drop_last() =~= decimal(b / 10));
        lemma_decimal_injective(a / 10, b / 10);
        assert(a == 10 * (a / 10) + a % 10);
        assert(b == 10 * (b / 10) + b % 10);
    }
}

/// Splitting at the first occurrence of `x`.
proof fn lemma_split_at_first(a: Seq<char>, b: Seq<char>, c: Seq<char>, d: Seq<char>, x: char)
    requires
        a + seq![x] + b == c + seq![x] + d,
        forall|k: int| 0 <= k < a.len() ==> #[trigger] a[k] != x,
        forall|k: int| 0 <= k < c.len() ==> #[trigger] c[k] != x,
    ensures
        a == c,
        b == d,
{
    let s = a + seq![x] + b;
    let t = c + seq![x] + d;
    assert(forall|k: int| 0 <= k < a.len() ==> s[k] == (a + seq![x])[k] && (a + seq![x])[k] == a[k]);
    assert(forall|k: int| 0 <= k < c.len() ==> t[k] == (c + seq![x])[k] && (c + seq![x])[k] == c[k]);
    assert(s[a.len() as int] == (a + seq![x])[a.len() as int]);
    assert(t[c.len() as int] == (c + seq![x])[c.len() as int]);
    if a.len() < c.len() {
        assert(s[a.len() as int] == x);
        assert(t[a.len() as int] == c[a.len() as int]);
    } else if c.len() < a.len() {
        assert(t[c.len() as int] == x);
        assert(s[c.len() as int] == a[c.len() as int]);
    } else {
        assert forall|k: int| 0 <= k < a.len() implies a[k] == c[k] by {
            assert(s[k] == t[k]);
        }
        assert(a =~= c);
        assert(s.len() == t.len());
        assert(b.len() == d.len());
        assert forall|k: int| 0 <= k < b.len() implies b[k] == d[k] by {
            assert(s[a.len() + 1 + k] == t[a.len() + 1 + k]);
            assert(s[a.len() + 1 + k] == b[k]);
            assert(t[c.len() + 1 + k] == d[k]);
        }
        assert(b =~= d);
    }
}

/// Staging names never collide: different project names, process ids or
/// times give different staging directory names.
pub proof fn staging_names_are_unique(
    p1: Seq<char>,
    pid1: nat,
    nonce1: nat,
    p2: Seq<char>,
    pid2: nat,
    nonce2: nat,
)
    requires
        is_project_name(p1),
        is_project_name(p2),
        staging_name_text(p1, pid1, nonce1) == staging_name_text(p2, pid2, nonce2),
    ensures
        p1 == p2,
        pid1 == pid2,
        nonce1 == nonce2,
{
    reveal_strlit(".");
    reveal_strlit(".devl-");
    reveal_strlit("-");
    let r1 = seq!['d', 'e', 'v', 'l', '-'] + decimal(pid1) + seq!['-'] + decimal(nonce1);
    let r2 = seq!['d', 'e', 'v', 'l', '-'] + decimal(pid2) + seq!['-'] + decimal(nonce2);
    let s1 = staging_name_text(p1, pid1, nonce1);
    let s2 = staging_name_text(p2, pid2, nonce2);
    assert(s1 =~= seq!['.'] + (p1 + seq!['.'] + r1));
    assert(s2 =~= seq!['.'] + (p2 + seq!['.'] + r2));
    assert(s1.drop_first() =~= p1 + seq!['.'] + r1);
    assert(s2.drop_first() =~= p2 + seq!['.'] + r2);
    assert forall|k: int| 0 <= k < p1.len() implies #[trigger] p1[k] != '.' by {
        assert(p1[k] == '-' || is_ascii_alnum(p1[k]));
    }
    assert forall|k: int| 0 <= k < p2.len() implies #[trigger] p2[k] != '.' by {
        assert(p2[k] == '-' || is_ascii_alnum(p2[k]));
    }
    lemma_split_at_first(p1, r1, p2, r2, '.');
    assert(r1.skip(5) =~= decimal(pid1) + seq!['-'] + decimal(nonce1));
    assert(r2.skip(5) =~= decimal(pid2) + seq!['-'] + decimal(nonce2));
    lemma_decimal_digits(pid1);
    lemma_decimal_digits(pid2);
    assert forall|k: int| 0 <= k < decimal(pid1).len() implies #[trigger] decimal(pid1)[k] != '-' by {
        assert(48 <= decimal(pid1)[k] as u32);
    }
    assert forall|k: int| 0 <= k < decimal(pid2).len() implies #[trigger] decimal(pid2)[k] != '-' by {
        assert(48 <= decimal(pid2)[k] as u32);
    }
    lemma_split_at_first(decimal(pid1), decimal(nonce1), decimal(pid2), decimal(nonce2), '-');
    lemma_decimal_injective(pid1, pid2);
    lemma_decimal_injective(nonce1, nonce2);
}

/// What inspecting the destination found.
#[derive(Debug)]
pub enum DestinationState {
    /// Nothing exists at the destination.
    Missing,
    /// Something other than a directory exists there.
    NotDirectory,
    /// An empty directory.
    Empty,
    /// A directory with at least one entry.
    NotEmpty,
    /// The destination could not be inspected (the operating system's message).
    Unreadable(String),
}

/// A failed operation: the path it was on (as displayed) and the operating
/// system's message.
#[derive(Debug)]
pub struct IoFailure {
    pub path: String,
    pub error: String,
}

/// How the last operation went.
#[derive(Debug)]
pub enum Event {
    /// The destination was inspected.
    Inspected(DestinationState),
    /// The destination has no parent directory.
    NoParent,
    /// The operation succeeded.
    Done,
    /// No staging entry is left to move.
    Exhausted,
    /// The next staging entry could not be read.
    EntryUnreadable(IoFailure),
    /// The operation failed.
    Failed(IoFailure),
}

/// The next thing to do.
#[derive(Debug)]
pub enum Action {
    /// Inspect the destination.
    InspectDestination,
    /// Create the destination's parent directory (and its ancestors).
    CreateParent,
    /// Create the staging directory with this name beside the destination.
    CreateStaging(String),
    /// Create the directory (with ancestors) that holds this generated file.
    CreateDirectory(&'static str),
    /// Write this generated file with this text into the staging directory.
    WriteFile(&'static str, String),
    /// Read the permissions of this generated file.
    ReadMode(&'static str),
    /// Set the permission bits of this generated file.
    SetMode(&'static str, u32),
    /// Rename the staging directory to the destination.
    RenameStaging,
    /// Open the staging directory for listing.
    OpenStaging,
    /// Move the next staging entry into the destination.
    MoveNextEntry,
    /// Move back the entries moved so far, in this order (each given by the
    /// position in which it was moved), ignoring failures.
    RestoreEntries(Vec<usize>),
    /// Remove the now empty staging directory.
    RemoveStagingDirectory,
    /// Remove the staging directory and all it holds, ignoring failures.
    Discard,
    /// Stop, with the project name or the error.
    Finish(Result<String, Error>),
}

/// Where the machine is: which operation it waits on.
#[derive(Debug, Clone, Copy, PartialEq, Eq, Structural)]
pub enum Stage {
    Inspecting,
    CreatingParent,
    CreatingStaging,
    MakingDirectory,
    Writing,
    ReadingMode,
    SettingMode,
    Renaming,
    OpeningStaging,
    Moving,
    Restoring,
    RemovingStagingDirectory,
    Discarding,
    Finished,
}

pub enum DestinationStateView {
    Missing,
    NotDirectory,
    Empty,
    NotEmpty,
    Unreadable(Seq<char>),
}

pub enum EventView {
    Inspected(DestinationStateView),
    NoParent,
    Done,
    Exhausted,
    EntryUnreadable(Seq<char>, Seq<char>),
    Failed(Seq<char>, Seq<char>),
}

pub enum ActionView {
    InspectDestination,
    CreateParent,
    CreateStaging(Seq<char>),
    CreateDirectory(Seq<char>),
    WriteFile(Seq<char>, Seq<char>),
    ReadMode(Seq<char>),
    SetMode(Seq<char>, u32),
    RenameStaging,
    OpenStaging,
    MoveNextEntry,
    RestoreEntries(Seq<usize>),
    RemoveStagingDirectory,
    Discard,
    /// The project name, or the error's message and exit code.
    Finish(Result<Seq<char>, (Seq<char>, u8)>),
}

impl View for DestinationState {
    type V = DestinationStateView;

    open spec fn view(&self) -> DestinationStateView {
        match self {
            DestinationState::Missing => DestinationStateView::Missing,
            DestinationState::NotDirectory => DestinationStateView::NotDirectory,
            DestinationState::Empty => DestinationStateView::Empty,
            DestinationState::NotEmpty => DestinationStateView::NotEmpty,
            DestinationState::Unreadable(e) => DestinationStateView::Unreadable(e@),
        }
    }
}

impl View for Event {
    type V = EventView;

    open spec fn view(&self) -> EventView {
        match self {
            Event::Inspected(s) => EventView::Inspected(s@),
            Event::NoParent => EventView::NoParent,
            Event::Done => EventView::Done,
            Event::Exhausted => EventView::Exhausted,
            Event::EntryUnreadable(f) => EventView::EntryUnreadable(f.path@, f.error@),
            Event::Failed(f) => EventView::Failed(f.path@, f.error@),
        }
    }
}

impl View for Action {
    type V = ActionView;

    open spec fn view(&self) -> ActionView {
        match self {
            Action::InspectDestination => ActionView::InspectDestination,
            Action::CreateParent => ActionView::CreateParent,
            Action::CreateStaging(n) => ActionView::CreateStaging(n@),
            Action::CreateDirectory(p) => ActionView::CreateDirectory(p@),
            Action::WriteFile(p, t) => ActionView::WriteFile(p@, t@),
            Action::ReadMode(p) => ActionView::ReadMode(p@),
            Action::SetMode(p, m) => ActionView::SetMode(p@, *m),
            Action::RenameStaging => ActionView::RenameStaging,
            Action::OpenStaging => ActionView::OpenStaging,
            Action::MoveNextEntry => ActionView::MoveNextEntry,
            Action::RestoreEntries(v) => ActionView::RestoreEntries(v@),
            Action::RemoveStagingDirectory => ActionView::RemoveStagingDirectory,
            Action::Discard => ActionView::Discard,
            Action::Finish(Ok(p)) => ActionView::Finish(Ok(p@)),
            Action::Finish(Err(e)) => ActionView::Finish(Err((e.text(), e.code()))),
        }
    }
}

/// The state of a project creation.
pub struct InitView {
    pub stage: Stage,
    /// The project name.
    pub project: Seq<char>,
    /// The destination, as displayed.
    pub destination: Seq<char>,
    /// The name of the staging directory.
    pub staging: Seq<char>,
    /// The generated files: paths, texts and whether each is executable.
    pub paths: Seq<Seq<char>>,
    pub texts: Seq<Seq<char>>,
    pub executables: Seq<bool>,
    /// What inspection found: `Some(true)` an empty directory, `Some(false)`
    /// nothing; `None` before inspection.
    pub existed: Option<bool>,
    /// The generated file being written (all written, once it equals their
    /// number).
    pub next: nat,
    /// How many staging entries have been moved into the destination.
    pub moved: nat,
    /// The error reported once the staging directory is removed.
    pub pending: Option<Seq<char>>,
}

/// The staging directory exists in this stage.
pub open spec fn holds_staging(stage: Stage) -> bool {
    match stage {
        Stage::MakingDirectory | Stage::Writing | Stage::ReadingMode | Stage::SettingMode
        | Stage::Renaming | Stage::OpeningStaging | Stage::Moving | Stage::Restoring
        | Stage::RemovingStagingDirectory | Stage::Discarding => true,
        _ => false,
    }
}

/// A file of the project is being written in this stage.
pub open spec fn writes_file(stage: Stage) -> bool {
    match stage {
        Stage::MakingDirectory | Stage::Writing | Stage::ReadingMode | Stage::SettingMode => true,
        _ => false,
    }
}

/// Every file has been written and the project is being moved into place.
pub open spec fn installs(stage: Stage) -> bool {
    match stage {
        Stage::Renaming | Stage::OpeningStaging | Stage::Moving | Stage::Restoring
        | Stage::RemovingStagingDirectory => true,
        _ => false,
    }
}

/// The consistent states.
pub open spec fn is_consistent(m: InitView) -> bool {
    &&& m.texts.len() == m.paths.len()
    &&& m.executables.len() == m.paths.len()
    &&& m.next <= m.paths.len()
    &&& m.moved <= usize::MAX
    &&& (m.stage != Stage::Inspecting && m.stage != Stage::Finished) ==> m.existed is Some
    &&& m.stage == Stage::Inspecting ==> m.existed is None
    &&& writes_file(m.stage) ==> m.next < m.paths.len()
    &&& (m.stage == Stage::ReadingMode || m.stage == Stage::SettingMode) ==> m.executables[m.next as int]
    &&& installs(m.stage) ==> m.next == m.paths.len()
    &&& m.stage == Stage::Renaming ==> m.existed == Some(false)
    &&& (installs(m.stage) && m.stage != Stage::Renaming) ==> m.existed == Some(true)
    &&& (m.stage == Stage::Restoring || m.stage == Stage::Discarding) <==> m.pending is Some
}

/// The events that the operation awaited in `m` can end with.
pub open spec fn expects(m: InitView, e: EventView) -> bool {
    match m.stage {
        Stage::Inspecting => e is Inspected,
        Stage::CreatingParent => e is NoParent || e is Done || e is Failed,
        Stage::Moving => (e is Done && m.moved < usize::MAX) || e is Exhausted || e is EntryUnreadable
            || e is Failed,
        Stage::Restoring | Stage::Discarding => e is Done,
        Stage::Finished => false,
        _ => e is Done || e is Failed,
    }
}

/// Stop with an error, the staging directory not existing.
pub open spec fn fail(m: InitView, message: Seq<char>) -> (InitView, ActionView) {
    (
        InitView { stage: Stage::Finished, ..m },
        ActionView::Finish(Err((message, OPERATION_EXIT_CODE))),
    )
}

/// Remove the staging directory, then stop with an error.
pub open spec fn discard(m: InitView, message: Seq<char>) -> (InitView, ActionView) {
    (InitView { stage: Stage::Discarding, pending: Some(message), ..m }, ActionView::Discard)
}

/// Move the finished project into place.
pub open spec fn install(m: InitView) -> (InitView, ActionView) {
    if m.existed == Some(true) {
        (InitView { stage: Stage::OpeningStaging, ..m }, ActionView::OpenStaging)
    } else {
        (InitView { stage: Stage::Renaming, ..m }, ActionView::RenameStaging)
    }
}

/// Write generated file `k`, or install once all are written.
pub open spec fn write_from(m: InitView, k: nat) -> (InitView, ActionView) {
    if k < m.paths.len() {
        (
            InitView { stage: Stage::MakingDirectory, next: k, ..m },
            ActionView::CreateDirectory(m.paths[k as int]),
        )
    } else {
        install(InitView { next: k, ..m })
    }
}

/// The entries moved so far, latest first.
pub open spec fn restore_order(moved: nat) -> Seq<usize> {
    Seq::new(moved, |i: int| (moved - 1 - i) as usize)
}

/// The next state and action, from state `m` and the event `e` that ended
/// the operation it waited on.
pub open spec fn transition(m: InitView, e: EventView) -> (InitView, ActionView) {
    match m.stage {
        Stage::Inspecting => match e {
            EventView::Inspected(DestinationStateView::Missing) => (
                InitView { stage: Stage::CreatingParent, existed: Some(false), ..m },
                ActionView::CreateParent,
            ),
            EventView::Inspected(DestinationStateView::Empty) => (
                InitView { stage: Stage::CreatingParent, existed: Some(true), ..m },
                ActionView::CreateParent,
            ),
            EventView::Inspected(DestinationStateView::NotDirectory) => fail(
                m,
                NOT_A_DIRECTORY@ + m.destination,
            ),
            EventView::Inspected(DestinationStateView::NotEmpty) => fail(m, NOT_EMPTY@ + m.destination),
            EventView::Inspected(DestinationStateView::Unreadable(err)) => fail(
                m,
                io_error_text(INSPECT_DESTINATION@, m.destination, err),
            ),
            _ => (m, ActionView::Discard),
        },
        Stage::CreatingParent => match e {
            EventView::NoParent => fail(m, NO_PARENT@ + m.destination),
            EventView::Failed(path, err) => fail(m, io_error_text(CREATE_PARENT@, path, err)),
            _ => (InitView { stage: Stage::CreatingStaging, ..m }, ActionView::CreateStaging(m.staging)),
        },
        Stage::CreatingStaging => match e {
            EventView::Failed(path, err) => fail(m, io_error_text(CREATE_STAGING@, path, err)),
            _ => write_from(m, 0),
        },
        Stage::MakingDirectory => match e {
            EventView::Failed(path, err) => discard(m, io_error_text(CREATE_DIRECTORY@, path, err)),
            _ => (
                InitView { stage: Stage::Writing, ..m },
                ActionView::WriteFile(m.paths[m.next as int], m.texts[m.next as int]),
            ),
        },
        Stage::Writing => match e {
            EventView::Failed(path, err) => discard(m, io_error_text(WRITE_FILE@, path, err)),
            _ => if m.executables[m.next as int] {
                (InitView { stage: Stage::ReadingMode, ..m }, ActionView::ReadMode(m.paths[m.next as int]))
            } else {
                write_from(m, m.next + 1)
            },
        },
        Stage::ReadingMode => match e {
            EventView::Failed(path, err) => discard(m, io_error_text(READ_MODE@, path, err)),
            _ => (
                InitView { stage: Stage::SettingMode, ..m },
                ActionView::SetMode(m.paths[m.next as int], EXECUTABLE_MODE),
            ),
        },
        Stage::SettingMode => match e {
            EventView::Failed(path, err) => discard(m, io_error_text(SET_MODE@, path, err)),
            _ => write_from(m, m.next + 1),
        },
        Stage::Renaming => match e {
            EventView::Failed(path, err) => discard(m, io_error_text(INSTALL@, path, err)),
            _ => (InitView { stage: Stage::Finished, ..m }, ActionView::Finish(Ok(m.project))),
        },
        Stage::OpeningStaging => match e {
            EventView::Failed(path, err) => discard(m, io_error_text(INSPECT_STAGING@, path, err)),
            _ => (InitView { stage: Stage::Moving, moved: 0, ..m }, ActionView::MoveNextEntry),
        },
        Stage::Moving => match e {
            EventView::Exhausted => (
                InitView { stage: Stage::RemovingStagingDirectory, ..m },
                ActionView::RemoveStagingDirectory,
            ),
            EventView::EntryUnreadable(path, err) => discard(
                m,
                io_error_text(INSPECT_STAGING_ENTRY@, path, err),
            ),
            EventView::Failed(path, err) => (
                InitView {
                    stage: Stage::Restoring,
                    pending: Some(io_error_text(INSTALL@, path, err)),
                    ..m
                },
                ActionView::RestoreEntries(restore_order(m.moved)),
            ),
            _ => (InitView { moved: m.moved + 1, ..m }, ActionView::MoveNextEntry),
        },
        Stage::Restoring => (InitView { stage: Stage::Discarding, ..m }, ActionView::Discard),
        Stage::RemovingStagingDirectory => match e {
            EventView::Failed(path, err) => discard(m, io_error_text(REMOVE_STAGING@, path, err)),
            _ => (InitView { stage: Stage::Finished, ..m }, ActionView::Finish(Ok(m.project))),
        },
        Stage::Discarding => (
            InitView { stage: Stage::Finished, pending: None, ..m },
            ActionView::Finish(Err((m.pending.unwrap(), OPERATION_EXIT_CODE))),
        ),
        Stage::Finished => (m, ActionView::Discard),
    }
}

/// What stays fixed while a project is created.
struct Plan {
    project: String,
    destination: String,
    staging: String,
    files: Vec<GeneratedFile>,
}

/// A project creation in progress.
pub struct InitMachine {
    stage: Stage,
    plan: Plan,
    existed: Option<bool>,
    next: usize,
    moved: usize,
    pending: Option<Error>,
}

/// The state made of these parts.
pub open spec fn state_of(
    stage: Stage,
    project: Seq<char>,
    destination: Seq<char>,
    staging: Seq<char>,
    files: Seq<GeneratedFile>,
    existed: Option<bool>,
    next: nat,
    moved: nat,
    pending: Option<Seq<char>>,
) -> InitView {
    InitView {
        stage,
        project,
        destination,
        staging,
        paths: files.map_values(|f: GeneratedFile| f.path@),
        texts: files.map_values(|f: GeneratedFile| f.contents@),
        executables: files.map_values(|f: GeneratedFile| f.executable),
        existed,
        next,
        moved,
        pending,
    }
}

spec fn pending_text(pending: Option<Error>) -> Option<Seq<char>> {
    match pending {
        Some(e) => Some(e.text()),
        None => None,
    }
}

fn restore_order_vec(moved: usize) -> (v: Vec<usize>)
    ensures
        v@ == restore_order(moved as nat),
{
    let mut v: Vec<usize> = Vec::new();
    let mut k: usize = 0;
    while k < moved
        invariant
            0 <= k <= moved,
            v@ == restore_order(moved as nat).take(k as int),
        decreases moved - k,
    {
        v.push(moved - 1 - k);
        assert(restore_order(moved as nat).take(k + 1) =~= restore_order(moved as nat).take(
            k as int,
        ).push((moved - 1 - k) as usize));
        k = k + 1;
    }
    assert(restore_order(moved as nat).take(moved as int) =~= restore_order(moved as nat));
    v
}

impl InitMachine {
    /// The state of this creation.
    pub closed spec fn model(&self) -> InitView {
        state_of(
            self.stage,
            self.plan.project@,
            self.plan.destination@,
            self.plan.staging@,
            self.plan.files@,
            self.existed,
            self.next as nat,
            self.moved as nat,
            pending_text(self.pending),
        )
    }

    #[verifier::type_invariant]
    closed spec fn consistent(&self) -> bool {
        &&& is_consistent(self.model())
        &&& self.pending matches Some(e) ==> e.code() == OPERATION_EXIT_CODE
    }

    fn assemble(
        stage: Stage,
        plan: Plan,
        existed: Option<bool>,
        next: usize,
        moved: usize,
        pending: Option<Error>,
    ) -> (m: InitMachine)
        requires
            is_consistent(
                state_of(
                    stage,
                    plan.project@,
                    plan.destination@,
                    plan.staging@,
                    plan.files@,
                    existed,
                    next as nat,
                    moved as nat,
                    pending_text(pending),
                ),
            ),
            pending matches Some(e) ==> e.code() == OPERATION_EXIT_CODE,
        ensures
            is_consistent(m.model()),
            m.model() == state_of(
                stage,
                plan.project@,
                plan.destination@,
                plan.staging@,
                plan.files@,
                existed,
                next as nat,
                moved as nat,
                pending_text(pending),
            ),
    {
        InitMachine { stage, plan, existed, next, moved, pending }
    }

    /// Stops with an error; the staging directory does not exist.
    fn fail(self, error: Error) -> (r: (InitMachine, Action))
        requires
            error.code() == OPERATION_EXIT_CODE,
            self.model().pending is None,
        ensures
            is_consistent(r.0.model()),
            (r.0.model(), r.1@) == fail(self.model(), error.text()),
    {
        proof {
            use_type_invariant(&self);
        }
        let InitMachine { stage, plan, existed, next, moved, pending } = self;
        let m = InitMachine::assemble(Stage::Finished, plan, existed, next, moved, pending);
        (m, Action::Finish(Err(error)))
    }

    /// Removes the staging directory, then stops with the error.
    fn discard(self, error: Error) -> (r: (InitMachine, Action))
        requires
            error.code() == OPERATION_EXIT_CODE,
            self.model().pending is None,
            holds_staging(self.model().stage),
            self.model().stage != Stage::Discarding,
            self.model().stage != Stage::Restoring,
        ensures
            is_consistent(r.0.model()),
            (r.0.model(), r.1@) == discard(self.model(), error.text()),
    {
        proof {
            use_type_invariant(&self);
        }
        let InitMachine { stage, plan, existed, next, moved, pending } = self;
        let m = InitMachine::assemble(Stage::Discarding, plan, existed, next, moved, Some(error));
        (m, Action::Discard)
    }

    /// Goes on with generated file `k`, or installs once all are written.
    fn write_from(plan: Plan, existed: Option<bool>, k: usize, moved: usize) -> (r: (
        InitMachine,
        Action,
    ))
        requires
            k <= plan.files@.len(),
            existed is Some,
        ensures
            is_consistent(r.0.model()),
            (r.0.model(), r.1@) == write_from(
                state_of(
                    Stage::CreatingStaging,
                    plan.project@,
                    plan.destination@,
                    plan.staging@,
                    plan.files@,
                    existed,
                    0,
                    moved as nat,
                    None,
                ),
                k as nat,
            ),
    {
        if k < plan.files.len() {
            let path = plan.files[k].path;
            let m = InitMachine::assemble(Stage::MakingDirectory, plan, existed, k, moved, None);
            (m, Action::CreateDirectory(path))
        } else {
            match existed {
                Some(true) => {
                    let m = InitMachine::assemble(Stage::OpeningStaging, plan, existed, k, moved, None);
                    (m, Action::OpenStaging)
                },
                _ => {
                    let m = InitMachine::assemble(Stage::Renaming, plan, existed, k, moved, None);
                    (m, Action::RenameStaging)
                },
            }
        }
    }

    /// Which operation this creation waits on.
    pub fn stage(&self) -> (s: Stage)
        ensures
            s == self.model().stage,
    {
        self.stage
    }

    /// Whether `event` is one that the awaited operation can end with.
    pub fn accepts(&self, event: &Event) -> (r: bool)
        ensures
            r == expects(self.model(), event@),
    {
        match self.stage {
            Stage::Inspecting => matches!(event, Event::Inspected(_)),
            Stage::CreatingParent => matches!(event, Event::NoParent | Event::Done | Event::Failed(_)),
            Stage::Moving => match event {
                Event::Done => self.moved < usize::MAX,
                Event::Exhausted | Event::EntryUnreadable(_) | Event::Failed(_) => true,
                _ => false,
            },
            Stage::Restoring | Stage::Discarding => matches!(event, Event::Done),
            Stage::Finished => false,
            _ => matches!(event, Event::Done | Event::Failed(_)),
        }
    }
}

/// The project name that the destination's last path component gives
/// (`None` when it is missing or not UTF-8), or the message of the error.
pub open spec fn name_outcome(file_name: Option<Seq<char>>) -> Result<Seq<char>, Seq<char>> {
    match file_name {
        None => Err(NO_UTF8_NAME@),
        Some(n) => project_name_outcome(n),
    }
}

/// The state a creation starts in, for project `project` at `destination`,
/// from the templates `templates`.
pub open spec fn initial_state(
    project: Seq<char>,
    destination: Seq<char>,
    pid: nat,
    nonce: nat,
    templates: Seq<Template>,
) -> InitView {
    InitView {
        stage: Stage::Inspecting,
        project,
        destination,
        staging: staging_name_text(project, pid, nonce),
        paths: paths_of(templates),
        texts: rendered_texts(texts_of(templates), project),
        executables: executables_of(templates),
        existed: None,
        next: 0,
        moved: 0,
        pending: None,
    }
}

pub open spec fn str_option_view(s: Option<&str>) -> Option<Seq<char>> {
    match s {
        Some(t) => Some(t@),
        None => None,
    }
}

impl InitMachine {
    fn finished(destination: &str) -> (m: InitMachine)
        ensures
            is_consistent(m.model()),
            m.model().stage == Stage::Finished,
    {
        let plan = Plan {
            project: String::new(),
            destination: destination.to_owned(),
            staging: String::new(),
            files: Vec::new(),
        };
        InitMachine::assemble(Stage::Finished, plan, None, 0, 0, None)
    }

    /// Starts creating a project at `destination` (the path as displayed),
    /// whose last component is `file_name` (`None` when it is missing or not
    /// UTF-8). `pid` and `nonce` (the time in nanoseconds) make the staging
    /// directory's name unique. The project's files are made from
    /// `templates` (the library's own are `templates::templates()`).
    ///
    /// The project name is the normalized directory name; when there is
    /// none, the creation stops at once with the error. Otherwise the first
    /// step is to inspect the destination.
    pub fn start(
        file_name: Option<&str>,
        destination: &str,
        pid: u32,
        nonce: u128,
        templates: &Vec<Template>,
    ) -> (r: (InitMachine, Action))
        ensures
            is_consistent(r.0.model()),
            match name_outcome(str_option_view(file_name)) {
                Ok(p) => r.1@ == ActionView::InspectDestination && r.0.model() == initial_state(
                    p,
                    destination@,
                    pid as nat,
                    nonce as nat,
                    templates@,
                ),
                Err(message) => r.1@ == ActionView::Finish(Err((message, OPERATION_EXIT_CODE)))
                    && r.0.model().stage == Stage::Finished,
            },
    {
        let name = match file_name {
            None => {
                let e = Error::operation(NO_UTF8_NAME.to_owned());
                return (InitMachine::finished(destination), Action::Finish(Err(e)));
            },
            Some(n) => n,
        };
        match normalize_project_name(name) {
            Err(e) => (InitMachine::finished(destination), Action::Finish(Err(e))),
            Ok(project) => {
                let files = render(project.as_str(), templates);
                let staging = staging_name(project.as_str(), pid, nonce);
                let plan = Plan { project, destination: destination.to_owned(), staging, files };
                assert(plan.files@.map_values(|f: GeneratedFile| f.path@) =~= paths_of(
                    templates@,
                ));
                assert(plan.files@.map_values(|f: GeneratedFile| f.contents@) =~= rendered_texts(
                    texts_of(templates@),
                    plan.project@,
                ));
                assert(plan.files@.map_values(|f: GeneratedFile| f.executable) =~= executables_of(
                    templates@,
                ));
                let m = InitMachine::assemble(Stage::Inspecting, plan, None, 0, 0, None);
                (m, Action::InspectDestination)
            },
        }
    }

    /// The next step, once the awaited operation has ended with `event`.
    pub fn step(self, event: Event) -> (r: (InitMachine, Action))
        requires
            expects(self.model(), event@),
        ensures
            is_consistent(self.model()),
            is_consistent(r.0.model()),
            (r.0.model(), r.1@) == transition(self.model(), event@),
    {
        proof {
            use_type_invariant(&self);
        }
        match self.stage {
            Stage::Inspecting => {
                let state = match event {
                    Event::Inspected(state) => state,
                    // Ruled out by `expects`.
                    _ => {
                        return (self, Action::Discard);
                    },
                };
                match state {
                    DestinationState::Missing => {
                        let InitMachine { stage, plan, existed, next, moved, pending } = self;
                        let m = InitMachine::assemble(
                            Stage::CreatingParent,
                            plan,
                            Some(false),
                            next,
                            moved,
                            pending,
                        );
                        (m, Action::CreateParent)
                    },
                    DestinationState::Empty => {
                        let InitMachine { stage, plan, existed, next, moved, pending } = self;
                        let m = InitMachine::assemble(
                            Stage::CreatingParent,
                            plan,
                            Some(true),
                            next,
                            moved,
                            pending,
                        );
                        (m, Action::CreateParent)
                    },
                    DestinationState::NotDirectory => {
                        let mut message = NOT_A_DIRECTORY.to_owned();
                        message.append(self.plan.destination.as_str());
                        self.fail(Error::operation(message))
                    },
                    DestinationState::NotEmpty => {
                        let mut message = NOT_EMPTY.to_owned();
                        message.append(self.plan.destination.as_str());
                        self.fail(Error::operation(message))
                    },
                    DestinationState::Unreadable(err) => {
                        let e = io_error(
                            INSPECT_DESTINATION,
                            self.plan.destination.as_str(),
                            err.as_str(),
                        );
                        self.fail(e)
                    },
                }
            },
            Stage::CreatingParent => match event {
                Event::NoParent => {
                    let mut message = NO_PARENT.to_owned();
                    message.append(self.plan.destination.as_str());
                    self.fail(Error::operation(message))
                },
                Event::Failed(f) => self.fail(io_error(CREATE_PARENT, f.path.as_str(), f.error.as_str())),
                _ => {
                    let InitMachine { stage, plan, existed, next, moved, pending } = self;
                    let name = plan.staging.clone();
                    let m = InitMachine::assemble(
                        Stage::CreatingStaging,
                        plan,
                        existed,
                        next,
                        moved,
                        pending,
                    );
                    (m, Action::CreateStaging(name))
                },
            },
            Stage::CreatingStaging => match event {
                Event::Failed(f) => self.fail(
                    io_error(CREATE_STAGING, f.path.as_str(), f.error.as_str()),
                ),
                _ => {
                    let InitMachine { stage, plan, existed, next, moved, pending } = self;
                    InitMachine::write_from(plan, existed, 0, moved)
                },
            },
            Stage::MakingDirectory => match event {
                Event::Failed(f) => self.discard(
                    io_error(CREATE_DIRECTORY, f.path.as_str(), f.error.as_str()),
                ),
                _ => {
                    let InitMachine { stage, plan, existed, next, moved, pending } = self;
                    let path = plan.files[next].path;
                    let text = plan.files[next].contents.clone();
                    let m = InitMachine::assemble(Stage::Writing, plan, existed, next, moved, pending);
                    (m, Action::WriteFile(path, text))
                },
            },
            Stage::Writing => match event {
                Event::Failed(f) => self.discard(
                    io_error(WRITE_FILE, f.path.as_str(), f.error.as_str()),
                ),
                _ => {
                    let InitMachine { stage, plan, existed, next, moved, pending } = self;
                    if plan.files[next].executable {
                        let path = plan.files[next].path;
                        let m = InitMachine::assemble(
                            Stage::ReadingMode,
                            plan,
                            existed,
                            next,
                            moved,
                            pending,
                        );
                        (m, Action::ReadMode(path))
                    } else {
                        let count = plan.files.len();
                        assert(next < count);
                        InitMachine::write_from(plan, existed, next + 1, moved)
                    }
                },
            },
            Stage::ReadingMode => match event {
                Event::Failed(f) => self.discard(io_error(READ_MODE, f.path.as_str(), f.error.as_str())),
                _ => {
                    let InitMachine { stage, plan, existed, next, moved, pending } = self;
                    let path = plan.files[next].path;
                    let m = InitMachine::assemble(
                        Stage::SettingMode,
                        plan,
                        existed,
                        next,
                        moved,
                        pending,
                    );
                    (m, Action::SetMode(path, EXECUTABLE_MODE))
                },
            },
            Stage::SettingMode => match event {
                Event::Failed(f) => self.discard(io_error(SET_MODE, f.path.as_str(), f.error.as_str())),
                _ => {
                    let InitMachine { stage, plan, existed, next, moved, pending } = self;
                    let count = plan.files.len();
                    assert(next < count);
                    InitMachine::write_from(plan, existed, next + 1, moved)
                },
            },
            Stage::Renaming => match event {
                Event::Failed(f) => self.discard(io_error(INSTALL, f.path.as_str(), f.error.as_str())),
                _ => {
                    let InitMachine { stage, plan, existed, next, moved, pending } = self;
                    let project = plan.project.clone();
                    let m = InitMachine::assemble(Stage::Finished, plan, existed, next, moved, pending);
                    (m, Action::Finish(Ok(project)))
                },
            },
            Stage::OpeningStaging => match event {
                Event::Failed(f) => self.discard(
                    io_error(INSPECT_STAGING, f.path.as_str(), f.error.as_str()),
                ),
                _ => {
                    let InitMachine { stage, plan, existed, next, moved, pending } = self;
                    let m = InitMachine::assemble(Stage::Moving, plan, existed, next, 0, pending);
                    (m, Action::MoveNextEntry)
                },
            },
            Stage::Moving => match event {
                Event::Exhausted => {
                    let InitMachine { stage, plan, existed, next, moved, pending } = self;
                    let m = InitMachine::assemble(
                        Stage::RemovingStagingDirectory,
                        plan,
                        existed,
                        next,
                        moved,
                        pending,
                    );
                    (m, Action::RemoveStagingDirectory)
                },
                Event::EntryUnreadable(f) => self.discard(
                    io_error(INSPECT_STAGING_ENTRY, f.path.as_str(), f.error.as_str()),
                ),
                Event::Failed(f) => {
                    let e = io_error(INSTALL, f.path.as_str(), f.error.as_str());
                    let InitMachine { stage, plan, existed, next, moved, pending } = self;
                    let order = restore_order_vec(moved);
                    let m = InitMachine::assemble(
                        Stage::Restoring,
                        plan,
                        existed,
                        next,
                        moved,
                        Some(e),
                    );
                    (m, Action::RestoreEntries(order))
                },
                _ => {
                    let InitMachine { stage, plan, existed, next, moved, pending } = self;
                    let m = InitMachine::assemble(Stage::Moving, plan, existed, next, moved + 1, pending);
                    (m, Action::MoveNextEntry)
                },
            },
            Stage::Restoring => {
                let InitMachine { stage, plan, existed, next, moved, pending } = self;
                let m = InitMachine::assemble(Stage::Discarding, plan, existed, next, moved, pending);
                (m, Action::Discard)
            },
            Stage::RemovingStagingDirectory => match event {
                Event::Failed(f) => self.discard(
                    io_error(REMOVE_STAGING, f.path.as_str(), f.error.as_str()),
                ),
                _ => {
                    let InitMachine { stage, plan, existed, next, moved, pending } = self;
                    let project = plan.project.clone();
                    let m = InitMachine::assemble(Stage::Finished, plan, existed, next, moved, pending);
                    (m, Action::Finish(Ok(project)))
                },
            },
            Stage::Discarding => {
                let InitMachine { stage, plan, existed, next, moved, pending } = self;
                let error = pending.unwrap();
                let m = InitMachine::assemble(Stage::Finished, plan, existed, next, moved, None);
                (m, Action::Finish(Err(error)))
            },
            // A finished creation expects no event.
            Stage::Finished => (self, Action::Discard),
        }
    }
}

/// The action changes the file system.
pub open spec fn changes_files(a: ActionView) -> bool {
    !(a is InspectDestination || a is Finish)
}

proof fn lemma_write_from_is_consistent(m: InitView, k: nat)
    requires
        is_consistent(m),
        m.existed is Some,
        m.pending is None,
        k <= m.paths.len(),
    ensures
        is_consistent(write_from(m, k).0),
{
    if k >= m.paths.len() {
        match m.existed {
            Some(true) => {},
            Some(false) => {},
            None => {},
        }
    }
}

/// Every step keeps the state consistent.
pub proof fn steps_keep_consistency(m: InitView, e: EventView)
    requires
        is_consistent(m),
        expects(m, e),
    ensures
        is_consistent(transition(m, e).0),
{
    if m.stage == Stage::CreatingStaging || m.stage == Stage::Writing || m.stage
        == Stage::SettingMode {
        let k: nat = if m.stage == Stage::CreatingStaging {
            0
        } else {
            m.next + 1
        };
        lemma_write_from_is_consistent(m, k);
    }
}

/// A destination that is not a directory, or not empty, is refused as soon
/// as it is inspected, and the creation then stops: nothing is ever written.
pub proof fn occupied_destination_is_left_alone(m: InitView, e: EventView)
    requires
        is_consistent(m),
        m.stage == Stage::Inspecting,
        e == EventView::Inspected(DestinationStateView::NotEmpty) || e == EventView::Inspected(
            DestinationStateView::NotDirectory,
        ),
    ensures
        transition(m, e).1 is Finish,
        transition(m, e).1->Finish_0 is Err,
        forall|next: EventView| !expects(#[trigger] transition(m, e).0, next),
{
}

/// The file system is changed only once inspection has found the
/// destination missing or empty; the staging directory is renamed into
/// place only when the destination was missing, and entries are moved into
/// it only when it was an empty directory.
pub proof fn only_missing_or_empty_destinations_change(m: InitView, e: EventView)
    requires
        is_consistent(m),
        expects(m, e),
    ensures
        changes_files(transition(m, e).1) ==> transition(m, e).0.existed is Some,
        transition(m, e).1 is RenameStaging ==> transition(m, e).0.existed == Some(false),
        transition(m, e).1 is MoveNextEntry ==> transition(m, e).0.existed == Some(true),
        (m.existed is None && transition(m, e).0.existed is Some) ==> (m.stage == Stage::Inspecting
            && (e == EventView::Inspected(DestinationStateView::Missing) || e == EventView::Inspected(
            DestinationStateView::Empty,
        )) && transition(m, e).0.existed == Some(e == EventView::Inspected(
            DestinationStateView::Empty,
        ))),
{
}

/// No partial project is left behind: once the staging directory exists,
/// every failure removes it (after moving back what was already moved into
/// the destination), and an error is reported only where no staging
/// directory exists.
pub proof fn failures_remove_the_staging_directory(m: InitView, e: EventView)
    requires
        is_consistent(m),
        expects(m, e),
    ensures
        (holds_staging(m.stage) && (e is Failed || e is EntryUnreadable)) ==> (transition(m, e).1 is Discard
            || transition(m, e).1 is RestoreEntries),
        transition(m, e).1 is RestoreEntries ==> transition(m, e).0.stage == Stage::Restoring,
        m.stage == Stage::Restoring ==> transition(m, e).1 is Discard,
        (transition(m, e).1 is Finish && transition(m, e).1->Finish_0 is Err) ==> (!holds_staging(
            m.stage,
        ) || m.stage == Stage::Discarding),
{
}

/// A failed move into the destination moves back every entry moved so far,
/// latest first.
pub proof fn moves_are_undone_in_reverse(m: InitView, path: Seq<char>, err: Seq<char>)
    requires
        is_consistent(m),
        m.stage == Stage::Moving,
    ensures
        transition(m, EventView::Failed(path, err)).1 == ActionView::RestoreEntries(
            restore_order(m.moved),
        ),
        restore_order(m.moved).len() == m.moved,
        forall|i: int|
            0 <= i < m.moved ==> #[trigger] restore_order(m.moved)[i] as int == m.moved - 1 - i,
{
}

/// A project is reported created only when every file has been written and
/// the project has been moved into place; it is reported under its name.
pub proof fn success_comes_last(m: InitView, e: EventView)
    requires
        is_consistent(m),
        expects(m, e),
        transition(m, e).1 is Finish,
        transition(m, e).1->Finish_0 is Ok,
    ensures
        transition(m, e).1->Finish_0->Ok_0 == m.project,
        m.next == m.paths.len(),
        m.stage == Stage::Renaming || m.stage == Stage::RemovingStagingDirectory,
        e is Done,
{
}

/// Each generated file is written with its own text, and exactly the
/// executable ones get the permission bits `0o755`.
pub proof fn files_are_written_as_generated(m: InitView, e: EventView)
    requires
        is_consistent(m),
        expects(m, e),
    ensures
        transition(m, e).1 is WriteFile ==> transition(m, e).1 == ActionView::WriteFile(
            m.paths[m.next as int],
            m.texts[m.next as int],
        ),
        transition(m, e).1 is ReadMode ==> m.executables[m.next as int],
        transition(m, e).1 is SetMode ==> transition(m, e).1 == ActionView::SetMode(
            m.paths[m.next as int],
            EXECUTABLE_MODE,
        ) && m.executables[m.next as int],
{
}

/// The operation awaited in each stage, and so the events it can end with:
/// every outcome of that operation is expected, and nothing else. In
/// particular every outcome of inspecting the destination is expected, so a
/// destination that is not empty or not a directory is refused by `step`.
pub proof fn every_outcome_of_the_awaited_operation_is_expected(m: InitView)
    requires
        is_consistent(m),
    ensures
        m.stage == Stage::Inspecting ==> (forall|d: DestinationStateView|
            #[trigger] expects(m, EventView::Inspected(d))),
        m.stage == Stage::Inspecting ==> (forall|e: EventView| #[trigger] expects(m, e) ==> e is Inspected),
        m.stage == Stage::CreatingParent ==> (expects(m, EventView::NoParent) && expects(
            m,
            EventView::Done,
        ) && forall|p: Seq<char>, err: Seq<char>| #[trigger] expects(m, EventView::Failed(p, err))),
        m.stage == Stage::CreatingParent ==> (forall|e: EventView| #[trigger] expects(m, e) ==> (e
            == EventView::NoParent || e == EventView::Done || e is Failed)),
        m.stage == Stage::Moving ==> (forall|e: EventView| #[trigger] expects(m, e) ==> (e
            == EventView::Done || e == EventView::Exhausted || e is Failed || e is EntryUnreadable)),
        m.stage == Stage::Moving ==> (expects(m, EventView::Exhausted) && (m.moved < usize::MAX
            ==> expects(m, EventView::Done)) && (forall|p: Seq<char>, err: Seq<char>|
            #[trigger] expects(m, EventView::Failed(p, err))) && forall|p: Seq<char>, err: Seq<char>|
            #[trigger] expects(m, EventView::EntryUnreadable(p, err))),
        (m.stage == Stage::Restoring || m.stage == Stage::Discarding) ==> (forall|e: EventView|
            #[trigger] expects(m, e) <==> e == EventView::Done),
        (m.stage == Stage::CreatingStaging || m.stage == Stage::MakingDirectory || m.stage
            == Stage::Writing || m.stage == Stage::ReadingMode || m.stage == Stage::SettingMode
            || m.stage == Stage::Renaming || m.stage == Stage::OpeningStaging || m.stage
            == Stage::RemovingStagingDirectory) ==> (forall|e: EventView| #[trigger] expects(m, e)
            <==> (e == EventView::Done || e is Failed)),
        m.stage == Stage::Finished ==> (forall|e: EventView| #![trigger expects(m, e)] !expects(m, e)),
{
}

/// Every error a creation ends with has exit code 1 (an operation error).
pub proof fn creation_errors_have_exit_code_one(m: InitView, e: EventView)
    requires
        is_consistent(m),
        expects(m, e),
        transition(m, e).1 is Finish,
        transition(m, e).1->Finish_0 is Err,
    ensures
        transition(m, e).1->Finish_0->Err_0.1 == OPERATION_EXIT_CODE,
{
}

} // verus!

