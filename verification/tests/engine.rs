//! The rule catalog, the matchers, and the traversal with pruning and
//! de-duplicating aggregation, exercised on concrete trees.

use autoenv::action::Action;
use autoenv::env::EnvBuilder;
use autoenv::fs_tree::{FsEntry, FsTree};
use autoenv::path_match::PathMatch;

const C_FLAKE: &str = "use flake \"github:the-nix-way/dev-templates?dir=c-cpp\"";
const GO_FLAKE: &str = "use flake \"github:the-nix-way/dev-templates?dir=go\"";
const PY_FLAKE: &str = "use flake \"github:the-nix-way/dev-templates?dir=python\"";
const PY_LAYOUT: &str = "layout python";
const PY_STARTUP: &str = "export PYTHONSTARTUP=~/.config/python/config.py";
const PIP_UP: &str = "direnv exec . pip install -U pip";
const PIP_REQS: &str = "direnv exec . pip install -r ~/.config/python/requirements.txt";
const PIP_DEV: &str = "direnv exec . pip install -e .";
const RUST_FLAKE: &str = "use flake \"github:the-nix-way/dev-templates?dir=rust\"";

fn entry(path: &str, name: &str, ext: Option<&str>) -> FsEntry {
    FsEntry {
        path: path.to_string(),
        name: name.to_string(),
        ext: ext.map(|e| e.to_string()),
    }
}

fn file(path: &str, name: &str, ext: Option<&str>) -> FsTree {
    FsTree { entry: entry(path, name, ext), children: Vec::new() }
}

fn dir(path: &str, name: &str, children: Vec<FsTree>) -> FsTree {
    FsTree { entry: entry(path, name, None), children }
}

#[test]
fn extension_matcher_exact_and_case_sensitive() {
    let m = PathMatch::Extension("rs".to_string());
    assert!(m.matches(&entry("main.rs", "main.rs", Some("rs"))));
    assert!(!m.matches(&entry("main.RS", "main.RS", Some("RS"))));
    assert!(!m.matches(&entry("main", "main", None)));
}

#[test]
fn name_matcher_exact_component() {
    let m = PathMatch::Name("Cargo.toml".to_string());
    assert!(m.matches(&entry("sub/Cargo.toml", "Cargo.toml", Some("toml"))));
    assert!(!m.matches(&entry("Cargo.lock", "Cargo.lock", Some("lock"))));
}

#[test]
fn glob_matcher_uses_real_glob_engine() {
    let m = PathMatch::Glob(".*".to_string());
    assert!(m.matches(&entry(".git", ".git", None)));
    assert!(m.matches(&entry(".envrc", ".envrc", None)));
    assert!(!m.matches(&entry("src", "src", None)));
    // the dot must be matched literally, so a dot elsewhere does not fire
    assert!(!m.matches(&entry("x.git", "x.git", Some("git"))));
    // a question mark matches exactly one character
    let q = PathMatch::Glob("a?c".to_string());
    assert!(q.matches(&entry("abc", "abc", None)));
    assert!(!q.matches(&entry("ac", "ac", None)));
}

#[test]
fn glob_matcher_rejects_invalid_pattern() {
    let m = PathMatch::Glob("a***".to_string());
    assert!(!m.matches(&entry("aaa", "aaa", None)));
}

#[test]
fn catalog_has_the_documented_shape() {
    let builder = EnvBuilder::new();
    assert_eq!(builder.0.len(), 25);
    let (m, acts) = &builder.0[0];
    assert!(matches!(m, PathMatch::Glob(p) if p == ".*"));
    assert_eq!(acts.len(), 1);
    assert!(matches!(&acts[0], Action::Skip));
    let (m, acts) = &builder.0[24];
    assert!(matches!(m, PathMatch::Name(n) if n == "Cargo.toml"));
    assert!(matches!(&acts[0], Action::EnvBuild(t) if t == RUST_FLAKE));
}

#[test]
fn catalog_python_dev_actions_in_fixed_order() {
    let acts = autoenv::env::python_dev_actions();
    let texts: Vec<String> = acts
        .iter()
        .map(|a| match a {
            Action::EnvBuild(t) => format!("build {}", t),
            Action::EnvRun(t) => format!("run {}", t),
            Action::Skip => "skip".to_string(),
        })
        .collect();
    assert_eq!(
        texts,
        vec![
            format!("build {}", PY_FLAKE),
            format!("build {}", PY_LAYOUT),
            format!("build {}", PY_STARTUP),
            format!("run {}", PIP_UP),
            format!("run {}", PIP_REQS),
            format!("run {}", PIP_DEV),
        ]
    );
}

#[test]
fn rust_project_yields_one_directive_and_no_runs() {
    let tree = dir(
        "demo",
        "demo",
        vec![
            file("main.rs", "main.rs", Some("rs")),
            file("Cargo.toml", "Cargo.toml", Some("toml")),
        ],
    );
    let env = EnvBuilder::new().from_fs(&tree);
    assert_eq!(env.build_steps, vec![RUST_FLAKE.to_string()]);
    assert!(env.run_steps.is_empty());
    assert_eq!(env.root, "demo");
}

#[test]
fn pyproject_yields_python_directives_and_pip_bootstrap() {
    let tree = dir(
        "demo",
        "demo",
        vec![file("pyproject.toml", "pyproject.toml", Some("toml"))],
    );
    let env = EnvBuilder::new().from_fs(&tree);
    assert_eq!(
        env.build_steps,
        vec![PY_FLAKE.to_string(), PY_LAYOUT.to_string(), PY_STARTUP.to_string()]
    );
    assert_eq!(
        env.run_steps,
        vec![PIP_UP.to_string(), PIP_REQS.to_string(), PIP_DEV.to_string()]
    );
}

#[test]
fn hidden_directory_is_pruned_with_its_subtree() {
    let tree = dir(
        "demo",
        "demo",
        vec![dir(".cache", ".cache", vec![file(".cache/build.go", "build.go", Some("go"))])],
    );
    let env = EnvBuilder::new().from_fs(&tree);
    assert!(env.build_steps.is_empty());
    assert!(env.run_steps.is_empty());
}

#[test]
fn git_directory_never_contributes() {
    let tree = dir(
        "demo",
        "demo",
        vec![
            dir(
                ".git",
                ".git",
                vec![file(".git/hooks/sample.py", "sample.py", Some("py"))],
            ),
            file("main.go", "main.go", Some("go")),
        ],
    );
    let env = EnvBuilder::new().from_fs(&tree);
    assert_eq!(env.build_steps, vec![GO_FLAKE.to_string()]);
    assert!(env.run_steps.is_empty());
}

#[test]
fn duplicate_triggers_are_suppressed_in_first_seen_order() {
    let tree = dir(
        "demo",
        "demo",
        vec![
            file("a.c", "a.c", Some("c")),
            file("b.h", "b.h", Some("h")),
            file("lib.rs", "lib.rs", Some("rs")),
            file("c.c", "c.c", Some("c")),
        ],
    );
    let env = EnvBuilder::new().from_fs(&tree);
    assert_eq!(env.build_steps, vec![C_FLAKE.to_string(), RUST_FLAKE.to_string()]);
    let mut sorted = env.build_steps.clone();
    sorted.sort();
    sorted.dedup();
    assert_eq!(sorted.len(), env.build_steps.len());
}

#[test]
fn skip_rule_beats_other_matches_on_the_same_entry() {
    // a hidden file that would otherwise trigger the Python rule
    let tree = dir("demo", "demo", vec![file(".hidden.py", ".hidden.py", Some("py"))]);
    let env = EnvBuilder::new().from_fs(&tree);
    assert!(env.build_steps.is_empty());
    assert!(env.run_steps.is_empty());
}

#[test]
fn root_entry_itself_is_evaluated() {
    let tree = file("Pipfile", "Pipfile", None);
    let env = EnvBuilder::new().from_fs(&tree);
    assert_eq!(
        env.build_steps,
        vec![PY_FLAKE.to_string(), PY_LAYOUT.to_string(), PY_STARTUP.to_string()]
    );
}

#[test]
fn steps_appear_in_first_seen_order_across_depths() {
    let tree = dir(
        "demo",
        "demo",
        vec![
            dir("src", "src", vec![file("src/lib.rs", "lib.rs", Some("rs"))]),
            file("setup.py", "setup.py", Some("py")),
            dir("native", "native", vec![file("native/ffi.c", "ffi.c", Some("c"))]),
        ],
    );
    let env = EnvBuilder::new().from_fs(&tree);
    assert_eq!(
        env.build_steps,
        vec![
            RUST_FLAKE.to_string(),
            PY_FLAKE.to_string(),
            PY_LAYOUT.to_string(),
            PY_STARTUP.to_string(),
            C_FLAKE.to_string(),
        ]
    );
    assert_eq!(
        env.run_steps,
        vec![PIP_UP.to_string(), PIP_REQS.to_string(), PIP_DEV.to_string()]
    );
}

#[test]
fn duplicates_across_depths_are_suppressed() {
    let tree = dir(
        "demo",
        "demo",
        vec![
            file("main.go", "main.go", Some("go")),
            dir("pkg", "pkg", vec![file("pkg/util.go", "util.go", Some("go"))]),
        ],
    );
    let env = EnvBuilder::new().from_fs(&tree);
    assert_eq!(env.build_steps, vec![GO_FLAKE.to_string()]);
}

#[test]
fn unrecognized_tree_yields_nothing() {
    let tree = dir(
        "demo",
        "demo",
        vec![file("README.md", "README.md", Some("md")), dir("docs", "docs", vec![])],
    );
    let env = EnvBuilder::new().from_fs(&tree);
    assert!(env.build_steps.is_empty());
    assert!(env.run_steps.is_empty());
}
