//! The activation session: the mandatory allow command, the failure
//! policy, and command tokenization.

use autoenv::env::Env;
use autoenv::errors::EnvError;
use autoenv::run::{tokenize, CommandControl};

fn env_with_runs(run: Vec<&str>) -> Env {
    Env {
        root: "demo".to_string(),
        build_steps: vec!["a".to_string()],
        run_steps: run.into_iter().map(|s| s.to_string()).collect(),
    }
}

#[test]
fn runner_builders_set_the_flags() {
    let runner = CommandControl::new(true, false);
    assert!(!runner.check);
    assert!(runner.execute);
    assert!(!runner.output);
    let checked = runner.check();
    assert!(checked.check);
    assert!(checked.execute);
    assert!(!checked.output);
    // the first runner keeps its own flags
    assert!(!runner.check);
}

#[test]
fn setup_plans_allow_first_then_run_steps() {
    let env = env_with_runs(vec!["pip one", "pip two"]);
    let session = env.setup(CommandControl::new(true, false));
    assert_eq!(session.cmds.len(), 3);
    assert_eq!(session.cmds[0].text, "direnv allow demo");
    assert!(session.cmds[0].control.check);
    assert_eq!(session.cmds[1].text, "pip one");
    assert!(!session.cmds[1].control.check);
    assert_eq!(session.cmds[2].text, "pip two");
    assert!(!session.cmds[2].control.check);
}

#[test]
fn failed_allow_stops_the_whole_session() {
    let env = env_with_runs(vec!["pip one", "pip two"]);
    let mut session = env.setup(CommandControl::new(true, false));
    let first = session.current().expect("the allow command is offered first");
    assert_eq!(first.text, "direnv allow demo");
    session.advance(false, Some(1));
    assert!(session.current().is_none(), "no run step may be offered");
    match session.result() {
        Err(EnvError::CommandFailure { code, cmd }) => {
            assert_eq!(code, Some(1));
            assert_eq!(cmd, "direnv allow demo");
        },
        _ => panic!("a failed mandatory command must end in CommandFailure"),
    }
}

#[test]
fn failing_run_step_does_not_stop_the_rest() {
    let env = env_with_runs(vec!["pip one", "pip two"]);
    let mut session = env.setup(CommandControl::new(true, false));
    session.advance(true, Some(0));
    let step = session.current().expect("first run step");
    assert_eq!(step.text, "pip one");
    session.advance(false, Some(2));
    let step = session.current().expect("second run step follows a non-fatal failure");
    assert_eq!(step.text, "pip two");
    session.advance(true, Some(0));
    assert!(session.current().is_none());
    assert!(session.result().is_ok());
}

#[test]
fn session_with_no_run_steps_only_allows() {
    let env = env_with_runs(vec![]);
    let mut session = env.setup(CommandControl::new(false, false));
    assert_eq!(session.cmds.len(), 1);
    session.advance(true, None);
    assert!(session.current().is_none());
    assert!(session.result().is_ok());
}

#[test]
fn tokenize_splits_on_whitespace() {
    assert_eq!(
        tokenize("direnv exec . pip install -U pip"),
        vec!["direnv", "exec", ".", "pip", "install", "-U", "pip"]
    );
    assert_eq!(tokenize("a\tb"), vec!["a", "b"]);
    assert_eq!(tokenize("a \t\nb"), vec!["a", "b"]);
}

#[test]
fn tokenize_yields_no_empty_tokens() {
    assert_eq!(tokenize("a  b"), vec!["a", "b"]);
    assert_eq!(tokenize(" a "), vec!["a"]);
    assert_eq!(tokenize(""), Vec::<String>::new());
    assert_eq!(tokenize(" \t "), Vec::<String>::new());
    assert_eq!(tokenize("solo"), vec!["solo"]);
}
