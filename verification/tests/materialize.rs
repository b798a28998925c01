//! The materialize decision: nothing to do, preview, conflict, create.

use autoenv::env::{BuildPlan, Env};
use autoenv::errors::EnvError;

fn env_with(build: Vec<&str>, run: Vec<&str>) -> Env {
    Env {
        root: "demo".to_string(),
        build_steps: build.into_iter().map(|s| s.to_string()).collect(),
        run_steps: run.into_iter().map(|s| s.to_string()).collect(),
    }
}

#[test]
fn empty_environment_reports_nothing_to_do() {
    let env = env_with(vec![], vec![]);
    for &exists in &[false, true] {
        for &mutate in &[false, true] {
            match env.build(exists, mutate) {
                Ok(plan) => {
                    assert!(matches!(plan, BuildPlan::Nothing));
                    assert!(!plan.created());
                },
                Err(_) => panic!("empty environment must not fail"),
            }
        }
    }
}

#[test]
fn preview_mode_plans_no_write() {
    let env = env_with(vec!["a", "b"], vec![]);
    for &exists in &[false, true] {
        match env.build(exists, false) {
            Ok(BuildPlan::Preview { conflict, content }) => {
                assert_eq!(conflict, exists);
                assert_eq!(content, "a\nb");
            },
            _ => panic!("preview mode must describe the write"),
        }
    }
}

#[test]
fn existing_file_makes_a_demanded_write_fail() {
    let env = env_with(vec!["a"], vec![]);
    match env.build(true, true) {
        Err(EnvError::Conflict) => {},
        _ => panic!("an existing activation file must be a conflict"),
    }
}

#[test]
fn clear_path_plans_the_file_content() {
    let env = env_with(vec!["x", "y", "z"], vec![]);
    match env.build(false, true) {
        Ok(plan) => {
            assert!(plan.created());
            match plan {
                BuildPlan::Create { content } => assert_eq!(content, "x\ny\nz"),
                _ => panic!("write mode with a clear path must create"),
            }
        },
        Err(_) => panic!("no conflict was present"),
    }
}

#[test]
fn single_step_content_has_no_separator() {
    let env = env_with(vec!["only"], vec![]);
    match env.build(false, true) {
        Ok(BuildPlan::Create { content }) => assert_eq!(content, "only"),
        _ => panic!("write mode with a clear path must create"),
    }
}
