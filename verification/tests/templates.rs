use devl::templates::{render, substitute_project_name, templates, Template, PLACEHOLDER};

#[test]
fn generated_file_set() {
    let mut paths: Vec<&str> = templates().iter().map(|t| t.path).collect();
    paths.sort();
    assert_eq!(
        paths,
        [
            ".containerignore",
            ".devcontainer/Containerfile",
            ".devcontainer/devcontainer.json",
            ".devcontainer/post-create.sh",
            ".github/workflows/devcontainer.yml",
            ".gitignore",
            "AGENTS.md",
            "README.md",
            "just/agent.just",
            "just/devcontainer.just",
            "just/git.just",
            "just/human.just",
            "justfile",
            "mise.lock",
            "mise.toml",
            "scripts/workspace-container",
            "scripts/workspace-git",
        ]
    );
}

#[test]
fn exactly_the_scripts_are_executable() {
    let executables: Vec<&str> = templates()
        .iter()
        .filter(|t| t.executable)
        .map(|t| t.path)
        .collect();
    assert_eq!(
        executables,
        [
            ".devcontainer/post-create.sh",
            "scripts/workspace-container",
            "scripts/workspace-git",
        ]
    );
}

#[test]
fn substitution_replaces_every_placeholder() {
    assert_eq!(
        substitute_project_name("a {{PROJECT_NAME}} b {{PROJECT_NAME}}-codex", "lab"),
        "a lab b lab-codex"
    );
    assert_eq!(substitute_project_name("no placeholder", "lab"), "no placeholder");
    assert_eq!(substitute_project_name("", "lab"), "");
    assert_eq!(substitute_project_name("{{PROJECT_NAME", "lab"), "{{PROJECT_NAME");
    assert_eq!(
        substitute_project_name("{{{PROJECT_NAME}}}", "lab"),
        "{lab}"
    );
    assert_eq!(
        substitute_project_name("{{PROJECT_NAME}}{{PROJECT_NAME}}", "x"),
        "xx"
    );
}

#[test]
fn substitution_matches_str_replace() {
    let samples = [
        "{{PROJECT_NAME}}",
        "x{{PROJECT_NAME}}}}y",
        "{{{{PROJECT_NAME}}PROJECT_NAME}}",
        "unicode \u{e9} {{PROJECT_NAME}} \u{1f600}",
    ];
    for sample in samples {
        assert_eq!(
            substitute_project_name(sample, "my-app"),
            sample.replace(PLACEHOLDER, "my-app")
        );
    }
}

#[test]
fn rendered_readme_names_the_project() {
    let files = render("my-secure-app", &templates());
    assert_eq!(files.len(), 17);
    let readme = files.iter().find(|f| f.path == "README.md").unwrap();
    assert!(readme.contents.starts_with("# my-secure-app\n"));
    assert!(readme.contents.contains("`my-secure-app-codex` named volume"));
    for file in &files {
        assert!(!file.contents.contains("{{PROJECT_NAME}}"));
        assert!(!file.contents.contains("8180"));
        assert!(!file.contents.contains("docker.sock"));
    }
}

#[test]
fn rendering_is_deterministic() {
    let first = render("sample", &templates());
    let second = render("sample", &templates());
    assert_eq!(first.len(), second.len());
    for (a, b) in first.iter().zip(second.iter()) {
        assert_eq!(a.path, b.path);
        assert_eq!(a.contents, b.contents);
        assert_eq!(a.executable, b.executable);
    }
}

#[test]
fn rendered_devcontainer_names_the_project() {
    // An example dev-container template in the shape of the project's own.
    let sources = vec![Template {
        path: ".devcontainer/devcontainer.json",
        contents: "{\n  \"name\": \"{{PROJECT_NAME}}-agent-dev\",\n  \"mounts\": [\"source={{PROJECT_NAME}}-codex,target=/home/agent/.codex,type=volume\"]\n}\n",
        executable: false,
    }];
    let files = render("my-secure-app", &sources);
    assert_eq!(files.len(), 1);
    assert_eq!(files[0].path, ".devcontainer/devcontainer.json");
    assert!(files[0].contents.contains("my-secure-app-agent-dev"));
    assert!(files[0].contents.contains("my-secure-app-codex"));
    assert!(!files[0].contents.contains("appPort"));
    assert!(!files[0].contents.contains("8180"));
    assert!(!files[0].executable);
}
