//! The files of a generated project, and how they are made from templates.
//!
//! Each template is written to its path below the project directory, with
//! every occurrence of the placeholder `{{PROJECT_NAME}}` replaced by the
//! project name.
//!
//! Only the README's template text is carried (`README_TEMPLATE`); the other
//! sixteen files are generated from `UNBUNDLED`, the empty text, and so are
//! written empty. Everything proved here holds for any template text.

use vstd::prelude::*;

use crate::name::{ascii_lower, is_ascii_alnum, is_project_name, project_name_outcome};
use crate::text::{chars_of, push_char};

verus! {

broadcast use vstd::string::group_string_axioms;

/// The placeholder that stands for the project name in a template.
pub const PLACEHOLDER: &'static str = "{{PROJECT_NAME}}";

/// The text of the generated README.
pub const README_TEMPLATE: &'static str = "# {{PROJECT_NAME}}\n\nThis repository starts with a contained development lab for coding-agent work.\nIt uses the headless Fedora 44 `agent-dev-base` image, locked project tools, an\noffline agent clone, and rootless Podman.\n\n## Trust boundary\n\nThe container is a containment layer, not a complete security boundary. Run it\nfrom a dedicated unprivileged host account with no developer credentials.\nReview the Containerfile, lifecycle hooks, mise configuration, package scripts,\nand entrypoints as executable code before running them.\n\nThe lab does not mount the host home directory, SSH agent, credential helper,\nbrowser profile, password store, or Podman socket. Codex state is kept in the\nproject-specific `{{PROJECT_NAME}}-codex` named volume. Authenticate only from\ninside the isolated agent container.\n\n## Initial setup\n\nReview all generated files, then initialize and configure the human clone:\n\n```sh\ngit init\ngit config --local workspace.role human\nmise trust mise.toml\nmise install --locked\n```\n\nAdd the application toolchain to `mise.toml`, generate and commit `mise.lock`,\nand add the ecosystem lockfiles. Extend `just check` with the application's\nreal tests before relying on the CI workflow.\n\n## Offline agent workflow\n\nCreate a separate clone or working copy for agent work, then bootstrap it from\nthe human clone:\n\n```sh\njust human bootstrap /absolute/path/to/agent-clone\njust human to-agent\njust human container up\n```\n\nThe bootstrap removes all remotes from the agent clone, disables interactive\nGit credentials there, records its role, and switches it to `agent/codex`.\nReview the safety report and exact confirmation token before continuing.\n\nUse `just --list --list-submodules` to see the complete workflow. Destructive\ncontainer, volume, and clone operations require explicit confirmation.\n\n## Rootless Podman commands\n\nBuild the project image without starting it:\n\n```sh\njust human container build\n```\n\nCreate the container and run project checks:\n\n```sh\njust human container up\njust check\n```\n\nThe Dev Container specification retains schema and CLI option names containing\n`dockerfile` and `--docker-path`; this project passes the Podman executable to\nthat compatibility interface and does not support or mount Docker.\n\n";

/// The template of every generated file other than the README: this crate
/// does not carry their texts, so those files are written empty.
pub const UNBUNDLED: &'static str = "";

/// A file of the generated project.
pub struct Template {
    /// Where the file goes, relative to the project directory.
    pub path: &'static str,
    /// The text, with placeholders.
    pub contents: &'static str,
    /// Whether the file is made executable.
    pub executable: bool,
}

/// The paths of the generated files, in the order they are written.
pub open spec fn template_paths() -> Seq<Seq<char>> {
    seq![
        ".containerignore"@,
        ".devcontainer/Containerfile"@,
        ".devcontainer/devcontainer.json"@,
        ".devcontainer/post-create.sh"@,
        ".github/workflows/devcontainer.yml"@,
        ".gitignore"@,
        "AGENTS.md"@,
        "README.md"@,
        "justfile"@,
        "just/agent.just"@,
        "just/devcontainer.just"@,
        "just/git.just"@,
        "just/human.just"@,
        "mise.lock"@,
        "mise.toml"@,
        "scripts/workspace-container"@,
        "scripts/workspace-git"@,
    ]
}

/// Which of the generated files are made executable.
pub open spec fn template_executables() -> Seq<bool> {
    seq![false, false, false, true, false, false, false, false, false, false, false, false, false, false, false, true, true]
}

/// The template texts, in the order of `template_paths`.
pub open spec fn template_texts() -> Seq<Seq<char>> {
    seq![
        UNBUNDLED@,
        UNBUNDLED@,
        UNBUNDLED@,
        UNBUNDLED@,
        UNBUNDLED@,
        UNBUNDLED@,
        UNBUNDLED@,
        README_TEMPLATE@,
        UNBUNDLED@,
        UNBUNDLED@,
        UNBUNDLED@,
        UNBUNDLED@,
        UNBUNDLED@,
        UNBUNDLED@,
        UNBUNDLED@,
        UNBUNDLED@,
        UNBUNDLED@,
    ]
}

/// The templates of a generated project.
pub fn templates() -> (files: Vec<Template>)
    ensures
        paths_of(files@) == template_paths(),
        texts_of(files@) == template_texts(),
        executables_of(files@) == template_executables(),
        files@.len() == template_paths().len(),
        forall|i: int|
            0 <= i < files@.len() ==> {
                &&& (#[trigger] files@[i]).path@ == template_paths()[i]
                &&& files@[i].contents@ == template_texts()[i]
                &&& files@[i].executable == template_executables()[i]
            },
{
    let mut files: Vec<Template> = Vec::new();
    files.push(Template { path: ".containerignore", contents: UNBUNDLED, executable: false });
    files.push(Template { path: ".devcontainer/Containerfile", contents: UNBUNDLED, executable: false });
    files.push(Template { path: ".devcontainer/devcontainer.json", contents: UNBUNDLED, executable: false });
    files.push(Template { path: ".devcontainer/post-create.sh", contents: UNBUNDLED, executable: true });
    files.push(Template { path: ".github/workflows/devcontainer.yml", contents: UNBUNDLED, executable: false });
    files.push(Template { path: ".gitignore", contents: UNBUNDLED, executable: false });
    files.push(Template { path: "AGENTS.md", contents: UNBUNDLED, executable: false });
    files.push(Template { path: "README.md", contents: README_TEMPLATE, executable: false });
    files.push(Template { path: "justfile", contents: UNBUNDLED, executable: false });
    files.push(Template { path: "just/agent.just", contents: UNBUNDLED, executable: false });
    files.push(Template { path: "just/devcontainer.just", contents: UNBUNDLED, executable: false });
    files.push(Template { path: "just/git.just", contents: UNBUNDLED, executable: false });
    files.push(Template { path: "just/human.just", contents: UNBUNDLED, executable: false });
    files.push(Template { path: "mise.lock", contents: UNBUNDLED, executable: false });
    files.push(Template { path: "mise.toml", contents: UNBUNDLED, executable: false });
    files.push(Template { path: "scripts/workspace-container", contents: UNBUNDLED, executable: true });
    files.push(Template { path: "scripts/workspace-git", contents: UNBUNDLED, executable: true });
    files
}


/// `s` with each occurrence of the nonempty pattern `pat`, from left to
/// right and without overlap, replaced by `rep` (as `str::replace` does).
pub open spec fn replace_all(s: Seq<char>, pat: Seq<char>, rep: Seq<char>) -> Seq<char>
    decreases s.len(),
{
    if pat.len() == 0 || s.len() < pat.len() {
        s
    } else if s.take(pat.len() as int) == pat {
        rep + replace_all(s.skip(pat.len() as int), pat, rep)
    } else {
        seq![s[0]] + replace_all(s.skip(1), pat, rep)
    }
}

/// `pat` occurs somewhere in `s`.
pub open spec fn occurs_in(pat: Seq<char>, s: Seq<char>) -> bool {
    exists|k: int| 0 <= k && k + pat.len() <= s.len() && #[trigger] s.subrange(k, k + pat.len()) == pat
}

/// A generated file: where it goes, its text, and whether it is executable.
pub struct GeneratedFile {
    pub path: &'static str,
    pub contents: String,
    pub executable: bool,
}

/// The paths of a list of templates.
pub open spec fn paths_of(ts: Seq<Template>) -> Seq<Seq<char>> {
    ts.map_values(|t: Template| t.path@)
}

/// The texts of a list of templates.
pub open spec fn texts_of(ts: Seq<Template>) -> Seq<Seq<char>> {
    ts.map_values(|t: Template| t.contents@)
}

/// Which of a list of templates are executable.
pub open spec fn executables_of(ts: Seq<Template>) -> Seq<bool> {
    ts.map_values(|t: Template| t.executable)
}

/// The generated texts for project `project`: each template text with the
/// project name in place of every placeholder.
pub open spec fn rendered_texts(texts: Seq<Seq<char>>, project: Seq<char>) -> Seq<Seq<char>> {
    texts.map_values(|t: Seq<char>| replace_all(t, PLACEHOLDER@, project))
}

/// Whether `pat` occurs in `s` at position `i`.
fn occurs_at(s: &Vec<char>, i: usize, pat: &Vec<char>) -> (r: bool)
    requires
        i <= s@.len(),
    ensures
        r == (pat@.len() <= s@.len() - i && s@.skip(i as int).take(pat@.len() as int) == pat@),
{
    if pat.len() > s.len() - i {
        return false;
    }
    let mut j: usize = 0;
    while j < pat.len()
        invariant
            i + pat@.len() <= s@.len(),
            s@.len() == s.len(),
            0 <= j <= pat@.len(),
            forall|k: int| 0 <= k < j ==> s@[i + k] == pat@[k],
        decreases pat@.len() - j,
    {
        if s[i + j] != pat[j] {
            assert(s@.skip(i as int).take(pat@.len() as int)[j as int] == s@[i + j]);
            return false;
        }
        j = j + 1;
    }
    assert(s@.skip(i as int).take(pat@.len() as int) =~= pat@);
    true
}

/// `contents` with every placeholder replaced by `project`.
pub fn substitute_project_name(contents: &str, project: &str) -> (r: String)
    ensures
        r@ == replace_all(contents@, PLACEHOLDER@, project@),
{
    let s = chars_of(contents);
    let pat = chars_of(PLACEHOLDER);
    proof {
        reveal_strlit("{{PROJECT_NAME}}");
    }
    let n = s.len();
    let mut out = String::new();
    let mut i: usize = 0;
    assert(s@.skip(0) =~= s@);
    while i < n
        invariant
            n == s@.len(),
            s@ == contents@,
            pat@ == PLACEHOLDER@,
            pat@.len() == 16,
            0 <= i <= n,
            replace_all(contents@, PLACEHOLDER@, project@) == out@ + replace_all(
                s@.skip(i as int),
                pat@,
                project@,
            ),
        decreases n - i,
    {
        let ghost rest = s@.skip(i as int);
        if occurs_at(&s, i, &pat) {
            out.append(project);
            assert(rest.skip(16) =~= s@.skip(i + 16));
            i = i + 16;
        } else {
            let c = s[i];
            push_char(&mut out, c);
            assert(rest.skip(1) =~= s@.skip(i + 1));
            proof {
                if rest.len() < 16 {
                    assert(rest =~= seq![c] + rest.skip(1));
                }
            }
            i = i + 1;
        }
    }
    assert(s@.skip(n as int) =~= Seq::<char>::empty());
    out
}

/// The generated files of project `project`: every template of `sources`,
/// in order, with the project name in place of each placeholder.
pub fn render(project: &str, sources: &Vec<Template>) -> (files: Vec<GeneratedFile>)
    ensures
        files@.len() == sources@.len(),
        forall|i: int|
            0 <= i < files@.len() ==> {
                &&& (#[trigger] files@[i]).path@ == sources@[i].path@
                &&& files@[i].contents@ == replace_all(
                    sources@[i].contents@,
                    PLACEHOLDER@,
                    project@,
                )
                &&& files@[i].executable == sources@[i].executable
            },
{
    let mut files: Vec<GeneratedFile> = Vec::new();
    let mut i: usize = 0;
    while i < sources.len()
        invariant
            0 <= i <= sources@.len(),
            files@.len() == i,
            forall|k: int|
                0 <= k < i ==> {
                    &&& (#[trigger] files@[k]).path@ == sources@[k].path@
                    &&& files@[k].contents@ == replace_all(
                        sources@[k].contents@,
                        PLACEHOLDER@,
                        project@,
                    )
                    &&& files@[k].executable == sources@[k].executable
                },
        decreases sources@.len() - i,
    {
        let template = &sources[i];
        let contents = substitute_project_name(template.contents, project);
        files.push(GeneratedFile { path: template.path, contents, executable: template.executable });
        i = i + 1;
    }
    files
}

proof fn lemma_kept_prefix(t: Seq<char>, pat: Seq<char>, rep: Seq<char>, n: int)
    requires
        pat.len() > 0,
        rep.len() > 0,
        0 <= n <= replace_all(t, pat, rep).len(),
        forall|i: int| 0 <= i < n ==> #[trigger] replace_all(t, pat, rep)[i] != rep[0],
    ensures
        n <= t.len(),
        replace_all(t, pat, rep).take(n) == t.take(n),
    decreases t.len(),
{
    let out = replace_all(t, pat, rep);
    if t.len() < pat.len() {
    } else if t.take(pat.len() as int) == pat {
        if n > 0 {
            assert(out[0] == rep[0]);
        }
        assert(out.take(n) =~= t.take(n));
    } else if n > 0 {
        let r = replace_all(t.skip(1), pat, rep);
        assert forall|i: int| 0 <= i < n - 1 implies #[trigger] r[i] != rep[0] by {
            assert(out[i + 1] == r[i]);
        }
        lemma_kept_prefix(t.skip(1), pat, rep, n - 1);
        assert(out == seq![t[0]] + r);
        assert(out.take(n) =~= seq![t[0]] + r.take(n - 1));
        assert(t.take(n) =~= seq![t[0]] + t.skip(1).take(n - 1));
    } else {
        assert(out.take(n) =~= t.take(n));
    }
}

proof fn lemma_no_occurrence(t: Seq<char>, pat: Seq<char>, rep: Seq<char>)
    requires
        pat.len() > 0,
        rep.len() > 0,
        forall|i: int, j: int| 0 <= i < rep.len() && 0 <= j < pat.len() ==> rep[i] != pat[j],
    ensures
        !occurs_in(pat, replace_all(t, pat, rep)),
    decreases t.len(),
{
    let out = replace_all(t, pat, rep);
    let m = pat.len() as int;
    if t.len() < pat.len() {
        assert forall|k: int| 0 <= k && k + m <= out.len() implies #[trigger] out.subrange(k, k + m)
            != pat by {}
    } else if t.take(m) == pat {
        let r = replace_all(t.skip(m), pat, rep);
        lemma_no_occurrence(t.skip(m), pat, rep);
        assert forall|k: int| 0 <= k && k + m <= out.len() implies #[trigger] out.subrange(k, k + m)
            != pat by {
            if k < rep.len() {
                assert(out.subrange(k, k + m)[0] == rep[k]);
            } else {
                assert(out.subrange(k, k + m) =~= r.subrange(k - rep.len(), k - rep.len() + m));
            }
        }
    } else {
        let r = replace_all(t.skip(1), pat, rep);
        lemma_no_occurrence(t.skip(1), pat, rep);
        assert forall|k: int| 0 <= k && k + m <= out.len() implies #[trigger] out.subrange(k, k + m)
            != pat by {
            if k >= 1 {
                assert(out.subrange(k, k + m) =~= r.subrange(k - 1, k - 1 + m));
            } else if out.subrange(0, m) == pat {
                assert forall|i: int| 0 <= i < m - 1 implies #[trigger] r[i] != rep[0] by {
                    assert(r[i] == out.subrange(0, m)[i + 1]);
                }
                lemma_kept_prefix(t.skip(1), pat, rep, m - 1);
                assert forall|i: int| 0 <= i < m implies #[trigger] t.take(m)[i] == pat[i] by {
                    if i > 0 {
                        assert(r.take(m - 1)[i - 1] == t.skip(1).take(m - 1)[i - 1]);
                        assert(out.subrange(0, m)[i] == r[i - 1]);
                    } else {
                        assert(out.subrange(0, m)[0] == t[0]);
                    }
                }
                assert(t.take(m) =~= pat);
            }
        }
    }
}

/// Each file has its own template: `README.md` is made from the README's
/// text, and every other generated file from its own (here `UNBUNDLED`) and
/// never from the README's.
pub proof fn each_file_has_its_own_template()
    ensures
        template_texts().len() == template_paths().len(),
        forall|i: int|
            0 <= i < template_paths().len() ==> #[trigger] template_texts()[i] == (if template_paths()[i]
                == "README.md"@ {
                README_TEMPLATE@
            } else {
                UNBUNDLED@
            }),
{
    reveal_strlit("README.md");
    reveal_strlit(".containerignore");
    reveal_strlit(".devcontainer/Containerfile");
    reveal_strlit(".devcontainer/devcontainer.json");
    reveal_strlit(".devcontainer/post-create.sh");
    reveal_strlit(".github/workflows/devcontainer.yml");
    reveal_strlit(".gitignore");
    reveal_strlit("AGENTS.md");
    reveal_strlit("README.md");
    reveal_strlit("justfile");
    reveal_strlit("just/agent.just");
    reveal_strlit("just/devcontainer.just");
    reveal_strlit("just/git.just");
    reveal_strlit("just/human.just");
    reveal_strlit("mise.lock");
    reveal_strlit("mise.toml");
    reveal_strlit("scripts/workspace-container");
    reveal_strlit("scripts/workspace-git");
    assert(template_paths()[0].len() != "README.md"@.len());
    assert(template_paths()[1].len() != "README.md"@.len());
    assert(template_paths()[2].len() != "README.md"@.len());
    assert(template_paths()[3].len() != "README.md"@.len());
    assert(template_paths()[4].len() != "README.md"@.len());
    assert(template_paths()[5].len() != "README.md"@.len());
    assert(template_paths()[6][0] != "README.md"@[0]);
    assert(template_paths()[8].len() != "README.md"@.len());
    assert(template_paths()[9].len() != "README.md"@.len());
    assert(template_paths()[10].len() != "README.md"@.len());
    assert(template_paths()[11].len() != "README.md"@.len());
    assert(template_paths()[12].len() != "README.md"@.len());
    assert(template_paths()[13][0] != "README.md"@[0]);
    assert(template_paths()[14][0] != "README.md"@[0]);
    assert(template_paths()[15].len() != "README.md"@.len());
    assert(template_paths()[16].len() != "README.md"@.len());
}

/// Exactly the three scripts are made executable: the dev container's
/// post-create hook and the two workspace scripts.
pub proof fn only_the_scripts_are_executable()
    ensures
        template_executables().len() == template_paths().len(),
        forall|i: int|
            0 <= i < template_paths().len() ==> (#[trigger] template_executables()[i] <==> (
            template_paths()[i] == ".devcontainer/post-create.sh"@ || template_paths()[i]
                == "scripts/workspace-container"@ || template_paths()[i] == "scripts/workspace-git"@)),
{
    reveal_strlit(".containerignore");
    reveal_strlit(".devcontainer/Containerfile");
    reveal_strlit(".devcontainer/devcontainer.json");
    reveal_strlit(".devcontainer/post-create.sh");
    reveal_strlit(".github/workflows/devcontainer.yml");
    reveal_strlit(".gitignore");
    reveal_strlit("AGENTS.md");
    reveal_strlit("README.md");
    reveal_strlit("justfile");
    reveal_strlit("just/agent.just");
    reveal_strlit("just/devcontainer.just");
    reveal_strlit("just/git.just");
    reveal_strlit("just/human.just");
    reveal_strlit("mise.lock");
    reveal_strlit("mise.toml");
    reveal_strlit("scripts/workspace-container");
    reveal_strlit("scripts/workspace-git");
    assert forall|i: int| 0 <= i < template_paths().len() implies (#[trigger] template_executables()[i] <==> (
        template_paths()[i] == ".devcontainer/post-create.sh"@ || template_paths()[i]
            == "scripts/workspace-container"@ || template_paths()[i] == "scripts/workspace-git"@)) by {
        if i == 0 {
            assert(template_paths()[0].len() != ".devcontainer/post-create.sh"@.len());
            assert(template_paths()[0].len() != "scripts/workspace-container"@.len());
            assert(template_paths()[0].len() != "scripts/workspace-git"@.len());
        }
        if i == 1 {
            assert(template_paths()[1].len() != ".devcontainer/post-create.sh"@.len());
            assert(template_paths()[1][0] != "scripts/workspace-container"@[0]);
            assert(template_paths()[1].len() != "scripts/workspace-git"@.len());
        }
        if i == 2 {
            assert(template_paths()[2].len() != ".devcontainer/post-create.sh"@.len());
            assert(template_paths()[2].len() != "scripts/workspace-container"@.len());
            assert(template_paths()[2].len() != "scripts/workspace-git"@.len());
        }
        if i == 4 {
            assert(template_paths()[4].len() != ".devcontainer/post-create.sh"@.len());
            assert(template_paths()[4].len() != "scripts/workspace-container"@.len());
            assert(template_paths()[4].len() != "scripts/workspace-git"@.len());
        }
        if i == 5 {
            assert(template_paths()[5].len() != ".devcontainer/post-create.sh"@.len());
            assert(template_paths()[5].len() != "scripts/workspace-container"@.len());
            assert(template_paths()[5].len() != "scripts/workspace-git"@.len());
        }
        if i == 6 {
            assert(template_paths()[6].len() != ".devcontainer/post-create.sh"@.len());
            assert(template_paths()[6].len() != "scripts/workspace-container"@.len());
            assert(template_paths()[6].len() != "scripts/workspace-git"@.len());
        }
        if i == 7 {
            assert(template_paths()[7].len() != ".devcontainer/post-create.sh"@.len());
            assert(template_paths()[7].len() != "scripts/workspace-container"@.len());
            assert(template_paths()[7].len() != "scripts/workspace-git"@.len());
        }
        if i == 8 {
            assert(template_paths()[8].len() != ".devcontainer/post-create.sh"@.len());
            assert(template_paths()[8].len() != "scripts/workspace-container"@.len());
            assert(template_paths()[8].len() != "scripts/workspace-git"@.len());
        }
        if i == 9 {
            assert(template_paths()[9].len() != ".devcontainer/post-create.sh"@.len());
            assert(template_paths()[9].len() != "scripts/workspace-container"@.len());
            assert(template_paths()[9].len() != "scripts/workspace-git"@.len());
        }
        if i == 10 {
            assert(template_paths()[10].len() != ".devcontainer/post-create.sh"@.len());
            assert(template_paths()[10].len() != "scripts/workspace-container"@.len());
            assert(template_paths()[10].len() != "scripts/workspace-git"@.len());
        }
        if i == 11 {
            assert(template_paths()[11].len() != ".devcontainer/post-create.sh"@.len());
            assert(template_paths()[11].len() != "scripts/workspace-container"@.len());
            assert(template_paths()[11].len() != "scripts/workspace-git"@.len());
        }
        if i == 12 {
            assert(template_paths()[12].len() != ".devcontainer/post-create.sh"@.len());
            assert(template_paths()[12].len() != "scripts/workspace-container"@.len());
            assert(template_paths()[12].len() != "scripts/workspace-git"@.len());
        }
        if i == 13 {
            assert(template_paths()[13].len() != ".devcontainer/post-create.sh"@.len());
            assert(template_paths()[13].len() != "scripts/workspace-container"@.len());
            assert(template_paths()[13].len() != "scripts/workspace-git"@.len());
        }
        if i == 14 {
            assert(template_paths()[14].len() != ".devcontainer/post-create.sh"@.len());
            assert(template_paths()[14].len() != "scripts/workspace-container"@.len());
            assert(template_paths()[14].len() != "scripts/workspace-git"@.len());
        }
    }
}

/// No placeholder reaches the user: once a well-formed project name is
/// substituted, no template text holds the placeholder any more.
pub proof fn no_placeholder_survives(text: Seq<char>, project: Seq<char>)
    requires
        is_project_name(project),
    ensures
        !occurs_in(PLACEHOLDER@, replace_all(text, PLACEHOLDER@, project)),
{
    reveal_strlit("{{PROJECT_NAME}}");
    let pat = PLACEHOLDER@;
    assert forall|i: int, j: int| 0 <= i < project.len() && 0 <= j < pat.len() implies project[i]
        != pat[j] by {
        assert(project[i] == '-' || (is_ascii_alnum(project[i]) && ascii_lower(project[i])
            == project[i]));
    }
    lemma_no_occurrence(text, pat, project);
}

/// Two destinations whose names normalize to the same project name get the
/// same generated files, byte for byte.
pub proof fn generated_files_depend_only_on_project_name(
    texts: Seq<Seq<char>>,
    a: Seq<char>,
    b: Seq<char>,
)
    requires
        project_name_outcome(a) is Ok,
        project_name_outcome(a) == project_name_outcome(b),
    ensures
        rendered_texts(texts, project_name_outcome(a)->Ok_0) == rendered_texts(
            texts,
            project_name_outcome(b)->Ok_0,
        ),
{
}

} // verus!
