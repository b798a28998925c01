//! Actions attached to path-matching rules: directives for the activation
//! file, setup commands to run afterwards, and the traversal-pruning signal.

use vstd::prelude::*;

verus! {

/// What a matched rule asks for: a line of the activation file
/// (`EnvBuild`), a post-activation shell command (`EnvRun`), or the
/// signal to prune traversal at the matched entry (`Skip`).
pub enum Action {
    EnvBuild(String),
    EnvRun(String),
    Skip,
}

/// Mathematical model of an [`Action`]: the payload text as a character
/// sequence.
pub enum ActionModel {
    EnvBuild(Seq<char>),
    EnvRun(Seq<char>),
    Skip,
}

impl View for Action {
    type V = ActionModel;

    open spec fn view(&self) -> ActionModel {
        match self {
            Action::EnvBuild(s) => ActionModel::EnvBuild(s@),
            Action::EnvRun(s) => ActionModel::EnvRun(s@),
            Action::Skip => ActionModel::Skip,
        }
    }
}

impl DeepView for Action {
    type V = ActionModel;

    open spec fn deep_view(&self) -> ActionModel {
        self.view()
    }
}

/// An ordered list of actions, as a rule carries it.
pub type Actions = Vec<Action>;

} // verus!
