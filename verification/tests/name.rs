use devl::error::Error;
use devl::name::normalize_project_name;

fn failure(name: &str) -> (String, u8) {
    let error = normalize_project_name(name).unwrap_err();
    (error.message().to_owned(), error.exit_code())
}

#[test]
fn normalizes_project_names() {
    assert_eq!(normalize_project_name("My_App.v2").unwrap(), "my-app-v2");
    assert!(normalize_project_name("project/name").is_err());
    assert!(normalize_project_name("___").is_err());
}

#[test]
fn separators_collapse_and_edges_are_trimmed() {
    assert_eq!(normalize_project_name("My_Secure.App").unwrap(), "my-secure-app");
    assert_eq!(normalize_project_name("--a__ .b--").unwrap(), "a-b");
    assert_eq!(normalize_project_name("My App").unwrap(), "my-app");
    assert_eq!(normalize_project_name("sample").unwrap(), "sample");
    assert_eq!(normalize_project_name("X9").unwrap(), "x9");
}

#[test]
fn unsupported_character_is_quoted() {
    assert_eq!(
        failure("project/name"),
        (
            "project directory name contains an unsupported character: '/'".to_owned(),
            1
        )
    );
    assert_eq!(
        failure("a'b"),
        (
            "project directory name contains an unsupported character: '\\''".to_owned(),
            1
        )
    );
    assert_eq!(
        failure("caf\u{e9}"),
        (
            "project directory name contains an unsupported character: '\u{e9}'".to_owned(),
            1
        )
    );
}

#[test]
fn first_unsupported_character_wins_over_other_errors() {
    assert_eq!(
        failure("__/"),
        (
            "project directory name contains an unsupported character: '/'".to_owned(),
            1
        )
    );
}

#[test]
fn names_without_letters_or_digits_are_refused() {
    let expected = (
        "project directory name must contain an ASCII letter or digit".to_owned(),
        1,
    );
    assert_eq!(failure("___"), expected);
    assert_eq!(failure(""), expected);
    assert_eq!(failure(" .-"), expected);
}

#[test]
fn length_limit_is_63() {
    let longest = "a".repeat(63);
    assert_eq!(normalize_project_name(&longest).unwrap(), longest);
    assert_eq!(
        failure(&"a".repeat(64)),
        (
            "normalized project name must be at most 63 characters".to_owned(),
            1
        )
    );
    // Separators collapse before the length is checked.
    let spaced = format!("{}____{}", "a".repeat(31), "b".repeat(31));
    assert_eq!(normalize_project_name(&spaced).unwrap().len(), 63);
}

#[test]
fn normalization_is_idempotent_on_examples() {
    for name in ["My_App.v2", "--a__ .b--", "Sample Project 2", "x"] {
        let once = normalize_project_name(name).unwrap();
        assert_eq!(normalize_project_name(&once).unwrap(), once);
    }
}

#[test]
fn error_constructors_set_exit_codes() {
    let usage = Error::usage("bad".to_owned());
    assert_eq!(usage.exit_code(), 2);
    assert_eq!(usage.message(), "bad");
    let operation = Error::operation("failed".to_owned());
    assert_eq!(operation.exit_code(), 1);
    assert_eq!(operation.message(), "failed");
}

#[test]
fn case_and_separator_choice_do_not_matter() {
    for (a, b) in [
        ("My_App.v2", "my app-V2"),
        ("Sample", "SAMPLE"),
        ("a/b", "A/b"),
        ("x.y", "x_y"),
    ] {
        match (normalize_project_name(a), normalize_project_name(b)) {
            (Ok(x), Ok(y)) => assert_eq!(x, y),
            (Err(x), Err(y)) => assert_eq!(x.message(), y.message()),
            _ => panic!("{a} and {b} normalize differently"),
        }
    }
}

#[test]
fn doubled_separators_do_not_matter() {
    assert_eq!(
        normalize_project_name("my__app").unwrap(),
        normalize_project_name("my_app").unwrap()
    );
    assert_eq!(
        normalize_project_name("..x").unwrap(),
        normalize_project_name(".x").unwrap()
    );
    assert_eq!(failure("--"), failure("-"));
}
