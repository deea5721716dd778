use devl::templates::{templates, Template};
use devl::init::{
    io_error, staging_name, Action, DestinationState, Event, InitMachine, IoFailure, Stage,
};

fn failure(path: &str, error: &str) -> IoFailure {
    IoFailure {
        path: path.to_owned(),
        error: error.to_owned(),
    }
}

fn finish_error(action: Action) -> (String, u8) {
    match action {
        Action::Finish(Err(e)) => (e.message().to_owned(), e.exit_code()),
        other => panic!("expected an error, got {other:?}"),
    }
}

/// Answers every operation with success until the machine stops; returns the
/// actions in order.
fn run_to_end(file_name: &str, state: DestinationState, entries: usize) -> Vec<Action> {
    let (mut machine, first) = InitMachine::start(Some(file_name), "/work/dest", 7, 99, &templates());
    let mut actions = Vec::new();
    let mut action = first;
    let mut state = Some(state);
    let mut remaining = entries;
    loop {
        let event = match &action {
            Action::Finish(_) => {
                actions.push(action);
                return actions;
            }
            Action::InspectDestination => Event::Inspected(state.take().unwrap()),
            Action::MoveNextEntry => {
                if remaining == 0 {
                    Event::Exhausted
                } else {
                    remaining -= 1;
                    Event::Done
                }
            }
            _ => Event::Done,
        };
        actions.push(action);
        assert!(machine.accepts(&event));
        let (next_machine, next_action) = machine.step(event);
        machine = next_machine;
        action = next_action;
    }
}

#[test]
fn staging_name_is_unique_per_process_and_time() {
    assert_eq!(staging_name("my-app", 12, 345), ".my-app.devl-12-345");
    assert_eq!(
        staging_name("x", 0, u128::MAX),
        format!(".x.devl-0-{}", u128::MAX)
    );
}

#[test]
fn io_error_message() {
    let e = io_error("create parent", "/a/b", "Permission denied (os error 13)");
    assert_eq!(
        e.message(),
        "failed to create parent /a/b: Permission denied (os error 13)"
    );
    assert_eq!(e.exit_code(), 1);
}

#[test]
fn new_destination_is_created_by_renaming_staging() {
    let actions = run_to_end("My_Secure.App", DestinationState::Missing, 0);
    assert!(matches!(actions[0], Action::InspectDestination));
    assert!(matches!(actions[1], Action::CreateParent));
    match &actions[2] {
        Action::CreateStaging(name) => assert_eq!(name, ".my-secure-app.devl-7-99"),
        other => panic!("unexpected {other:?}"),
    }
    let writes: Vec<&str> = actions
        .iter()
        .filter_map(|a| match a {
            Action::WriteFile(path, _) => Some(*path),
            _ => None,
        })
        .collect();
    assert_eq!(writes.len(), 17);
    let modes: Vec<(&str, u32)> = actions
        .iter()
        .filter_map(|a| match a {
            Action::SetMode(path, mode) => Some((*path, *mode)),
            _ => None,
        })
        .collect();
    assert_eq!(
        modes,
        [
            (".devcontainer/post-create.sh", 0o755),
            ("scripts/workspace-container", 0o755),
            ("scripts/workspace-git", 0o755),
        ]
    );
    let n = actions.len();
    assert!(matches!(actions[n - 2], Action::RenameStaging));
    match &actions[n - 1] {
        Action::Finish(Ok(project)) => assert_eq!(project, "my-secure-app"),
        other => panic!("unexpected {other:?}"),
    }
    assert!(!actions.iter().any(|a| matches!(a, Action::MoveNextEntry | Action::Discard)));
}

#[test]
fn empty_destination_receives_the_entries() {
    let actions = run_to_end("sample", DestinationState::Empty, 3);
    let n = actions.len();
    assert!(!actions.iter().any(|a| matches!(a, Action::RenameStaging)));
    assert!(matches!(actions[n - 7], Action::OpenStaging));
    for k in 0..4 {
        assert!(matches!(actions[n - 6 + k], Action::MoveNextEntry));
    }
    assert!(matches!(actions[n - 2], Action::RemoveStagingDirectory));
    assert!(matches!(&actions[n - 1], Action::Finish(Ok(p)) if p == "sample"));
}

#[test]
fn refuses_nonempty_destination_without_changing_it() {
    let (machine, first) = InitMachine::start(Some("occupied"), "/tmp/occupied", 1, 2, &templates());
    assert!(matches!(first, Action::InspectDestination));
    let (machine, action) = machine.step(Event::Inspected(DestinationState::NotEmpty));
    assert_eq!(
        finish_error(action),
        (
            "destination is not empty; no files were changed: /tmp/occupied".to_owned(),
            1
        )
    );
    assert_eq!(machine.stage(), Stage::Finished);
    assert!(!machine.accepts(&Event::Done));
}

#[test]
fn other_inspection_outcomes() {
    let (machine, _) = InitMachine::start(Some("f"), "/x/f", 1, 2, &templates());
    let (_, action) = machine.step(Event::Inspected(DestinationState::NotDirectory));
    assert_eq!(
        finish_error(action),
        ("destination is not a directory: /x/f".to_owned(), 1)
    );
    let (machine, _) = InitMachine::start(Some("f"), "/x/f", 1, 2, &templates());
    let (_, action) = machine.step(Event::Inspected(DestinationState::Unreadable(
        "Permission denied (os error 13)".to_owned(),
    )));
    assert_eq!(
        finish_error(action),
        (
            "failed to inspect destination /x/f: Permission denied (os error 13)".to_owned(),
            1
        )
    );
}

#[test]
fn invalid_names_stop_before_inspection() {
    let (machine, action) = InitMachine::start(None, "/x/..", 1, 2, &templates());
    assert_eq!(
        finish_error(action),
        ("destination must have a UTF-8 directory name".to_owned(), 1)
    );
    assert_eq!(machine.stage(), Stage::Finished);
    let (_, action) = InitMachine::start(Some("a/b"), "/x/a", 1, 2, &templates());
    assert_eq!(
        finish_error(action),
        (
            "project directory name contains an unsupported character: '/'".to_owned(),
            1
        )
    );
}

#[test]
fn missing_parent_is_reported() {
    let (machine, _) = InitMachine::start(Some("lab"), "lab", 1, 2, &templates());
    let (machine, _) = machine.step(Event::Inspected(DestinationState::Missing));
    let (_, action) = machine.step(Event::NoParent);
    assert_eq!(
        finish_error(action),
        ("destination has no parent: lab".to_owned(), 1)
    );
}

#[test]
fn write_failure_discards_staging_first() {
    let (machine, _) = InitMachine::start(Some("lab"), "/w/lab", 1, 2, &templates());
    let (machine, _) = machine.step(Event::Inspected(DestinationState::Missing));
    let (machine, _) = machine.step(Event::Done);
    let (machine, action) = machine.step(Event::Done);
    assert!(matches!(action, Action::CreateDirectory(".containerignore")));
    let (machine, action) = machine.step(Event::Done);
    assert!(matches!(action, Action::WriteFile(".containerignore", _)));
    let (machine, action) = machine.step(Event::Failed(failure("/w/.s/.containerignore", "disk full")));
    assert!(matches!(action, Action::Discard));
    let (_, action) = machine.step(Event::Done);
    assert_eq!(
        finish_error(action),
        (
            "failed to write generated file /w/.s/.containerignore: disk full".to_owned(),
            1
        )
    );
}

#[test]
fn failed_move_restores_moved_entries_latest_first() {
    let (mut machine, mut action) = InitMachine::start(Some("lab"), "/w/lab", 1, 2, &templates());
    let mut inspected = false;
    while !matches!(action, Action::OpenStaging) {
        let event = if inspected {
            Event::Done
        } else {
            inspected = true;
            Event::Inspected(DestinationState::Empty)
        };
        let (m, a) = machine.step(event);
        machine = m;
        action = a;
    }
    let (machine, _) = machine.step(Event::Done);
    let (machine, _) = machine.step(Event::Done);
    let (machine, _) = machine.step(Event::Done);
    let (machine, _) = machine.step(Event::Done);
    let (machine, action) = machine.step(Event::Failed(failure("/w/lab/justfile", "exists")));
    match action {
        Action::RestoreEntries(order) => assert_eq!(order, vec![2, 1, 0]),
        other => panic!("unexpected {other:?}"),
    }
    let (machine, action) = machine.step(Event::Done);
    assert!(matches!(action, Action::Discard));
    let (_, action) = machine.step(Event::Done);
    assert_eq!(
        finish_error(action),
        (
            "failed to install generated project /w/lab/justfile: exists".to_owned(),
            1
        )
    );
}

#[test]
fn unreadable_staging_entry_discards_without_restoring() {
    let (mut machine, mut action) = InitMachine::start(Some("lab"), "/w/lab", 1, 2, &templates());
    let mut inspected = false;
    while !matches!(action, Action::OpenStaging) {
        let event = if inspected {
            Event::Done
        } else {
            inspected = true;
            Event::Inspected(DestinationState::Empty)
        };
        let (m, a) = machine.step(event);
        machine = m;
        action = a;
    }
    let (machine, _) = machine.step(Event::Done);
    let (machine, _) = machine.step(Event::Done);
    let (_, action) = machine.step(Event::EntryUnreadable(failure("/w/.s", "io")));
    assert!(matches!(action, Action::Discard));
}

#[test]
fn staging_names_differ_for_different_inputs() {
    let names = [
        staging_name("a", 1, 23),
        staging_name("a", 12, 3),
        staging_name("a-1", 2, 3),
        staging_name("a", 1, 2),
        staging_name("b", 1, 23),
    ];
    for i in 0..names.len() {
        for j in 0..i {
            assert_ne!(names[i], names[j]);
        }
    }
}

#[test]
fn planned_files_are_the_given_templates_with_the_name() {
    let sources = vec![
        Template {
            path: ".devcontainer/devcontainer.json",
            contents: "{\"name\": \"{{PROJECT_NAME}}-agent-dev\", \"volume\": \"{{PROJECT_NAME}}-codex\"}",
            executable: false,
        },
        Template {
            path: "scripts/workspace-git",
            contents: "#!/bin/sh\necho {{PROJECT_NAME}}\n",
            executable: true,
        },
    ];
    let (mut machine, mut action) =
        InitMachine::start(Some("My_Secure.App"), "/w/My_Secure.App", 3, 4, &sources);
    let mut written = Vec::new();
    let mut inspected = false;
    loop {
        let event = match &action {
            Action::Finish(result) => {
                assert!(matches!(result, Ok(p) if p == "my-secure-app"));
                break;
            }
            Action::InspectDestination => {
                inspected = true;
                Event::Inspected(DestinationState::Missing)
            }
            Action::WriteFile(path, text) => {
                written.push((path.to_string(), text.clone()));
                Event::Done
            }
            _ => Event::Done,
        };
        let (m, a) = machine.step(event);
        machine = m;
        action = a;
    }
    assert!(inspected);
    assert_eq!(
        written,
        vec![
            (
                ".devcontainer/devcontainer.json".to_owned(),
                "{\"name\": \"my-secure-app-agent-dev\", \"volume\": \"my-secure-app-codex\"}".to_owned()
            ),
            (
                "scripts/workspace-git".to_owned(),
                "#!/bin/sh\necho my-secure-app\n".to_owned()
            ),
        ]
    );
}
