//! The rule catalog, the pruning traversal over a directory snapshot, the
//! aggregation of matched actions into the two step sequences, and the two
//! commit operations: planning the activation file and planning the
//! activation command session.

use vstd::prelude::*;
use vstd::string::StringExecFns;

use crate::action::{Action, ActionModel, Actions};
use crate::errors::EnvError;
use crate::fs_tree::{FsEntry, FsTree};
use crate::path_match::{matcher_accepts, MatcherModel, PathMatch};
use crate::run::{CommandControl, PlannedCommand, Session};
use crate::steps::{
    dedup, insert_steps, lemma_dedup_no_dup, lemma_insert_steps_app,
    lemma_insert_steps_push, no_dup, StepSet,
};

verus! {

/// One rule of the catalog, as the contracts see it: a matcher model and
/// the models of the actions it asks for.
pub type RuleModel = (MatcherModel, Seq<ActionModel>);

/// The actions a C or C++ source file asks for.
pub open spec fn c_action_model() -> Seq<ActionModel> {
    seq![
        ActionModel::EnvBuild("use flake \"github:the-nix-way/dev-templates?dir=c-cpp\""@),
    ]
}

/// The actions a Go source or manifest file asks for.
pub open spec fn go_action_model() -> Seq<ActionModel> {
    seq![
        ActionModel::EnvBuild("use flake \"github:the-nix-way/dev-templates?dir=go\""@),
    ]
}

/// The actions a Perl source or manifest file asks for.
pub open spec fn perl_action_model() -> Seq<ActionModel> {
    seq![
        ActionModel::EnvBuild("use flake \"github:the-nix-way/dev-templates?dir=perl\""@),
    ]
}

/// The actions a Python source file asks for: the base toolchain directive
/// and the layout directive.
pub open spec fn python_action_model() -> Seq<ActionModel> {
    seq![
        ActionModel::EnvBuild("use flake \"github:the-nix-way/dev-templates?dir=python\""@),
        ActionModel::EnvBuild("layout python"@),
    ]
}

/// The actions a Python development manifest asks for: the base Python
/// actions, a startup-file directive, and the three pip bootstrap commands
/// in fixed order.
pub open spec fn python_dev_action_model() -> Seq<ActionModel> {
    python_action_model() + seq![
        ActionModel::EnvBuild("export PYTHONSTARTUP=~/.config/python/config.py"@),
        ActionModel::EnvRun("direnv exec . pip install -U pip"@),
        ActionModel::EnvRun("direnv exec . pip install -r ~/.config/python/requirements.txt"@),
        ActionModel::EnvRun("direnv exec . pip install -e ."@),
    ]
}

/// The actions a Rust source or manifest file asks for.
pub open spec fn rust_action_model() -> Seq<ActionModel> {
    seq![
        ActionModel::EnvBuild("use flake \"github:the-nix-way/dev-templates?dir=rust\""@),
    ]
}

/// C and C++ need the C toolchain directive.
pub fn c_actions() -> (r: Actions)
    ensures
        r.deep_view() == c_action_model(),
{
    let mut r: Actions = Vec::new();
    r.push(Action::EnvBuild(
        "use flake \"github:the-nix-way/dev-templates?dir=c-cpp\"".to_owned(),
    ));
    proof {
        assert(r.deep_view() =~= c_action_model());
    }
    r
}

/// Go needs the Go toolchain directive.
pub fn go_actions() -> (r: Actions)
    ensures
        r.deep_view() == go_action_model(),
{
    let mut r: Actions = Vec::new();
    r.push(Action::EnvBuild("use flake \"github:the-nix-way/dev-templates?dir=go\"".to_owned()));
    proof {
        assert(r.deep_view() =~= go_action_model());
    }
    r
}

/// Perl needs the Perl toolchain directive.
pub fn perl_actions() -> (r: Actions)
    ensures
        r.deep_view() == perl_action_model(),
{
    let mut r: Actions = Vec::new();
    r.push(Action::EnvBuild(
        "use flake \"github:the-nix-way/dev-templates?dir=perl\"".to_owned(),
    ));
    proof {
        assert(r.deep_view() =~= perl_action_model());
    }
    r
}

/// Python needs the Python toolchain directive and the layout directive.
pub fn python_actions() -> (r: Actions)
    ensures
        r.deep_view() == python_action_model(),
{
    let mut r: Actions = Vec::new();
    r.push(Action::EnvBuild(
        "use flake \"github:the-nix-way/dev-templates?dir=python\"".to_owned(),
    ));
    r.push(Action::EnvBuild("layout python".to_owned()));
    proof {
        assert(r.deep_view() =~= python_action_model());
    }
    r
}

/// A Python development manifest needs the base Python actions, the
/// startup-file directive, and the pip bootstrap commands.
pub fn python_dev_actions() -> (r: Actions)
    ensures
        r.deep_view() == python_dev_action_model(),
{
    let mut r = python_actions();
    r.push(Action::EnvBuild("export PYTHONSTARTUP=~/.config/python/config.py".to_owned()));
    r.push(Action::EnvRun("direnv exec . pip install -U pip".to_owned()));
    r.push(Action::EnvRun(
        "direnv exec . pip install -r ~/.config/python/requirements.txt".to_owned(),
    ));
    r.push(Action::EnvRun("direnv exec . pip install -e .".to_owned()));
    proof {
        assert(r.deep_view() =~= python_dev_action_model());
    }
    r
}

/// Rust needs the Rust toolchain directive.
pub fn rust_actions() -> (r: Actions)
    ensures
        r.deep_view() == rust_action_model(),
{
    let mut r: Actions = Vec::new();
    r.push(Action::EnvBuild(
        "use flake \"github:the-nix-way/dev-templates?dir=rust\"".to_owned(),
    ));
    proof {
        assert(r.deep_view() =~= rust_action_model());
    }
    r
}

/// The static rule catalog: the dot-glob pruning rule, then one rule per
/// recognized extension or manifest name, each mapped to its language's
/// actions.
pub open spec fn rule_table_model() -> Seq<RuleModel> {
    seq![
        (MatcherModel::Glob(".*"@), seq![ActionModel::Skip]),
        (MatcherModel::Extension("c"@), c_action_model()),
        (MatcherModel::Extension("h"@), c_action_model()),
        (MatcherModel::Extension("go"@), go_action_model()),
        (MatcherModel::Name("go.mod"@), go_action_model()),
        (MatcherModel::Name("go.sum"@), go_action_model()),
        (MatcherModel::Name("go.work"@), go_action_model()),
        (MatcherModel::Extension("pl"@), perl_action_model()),
        (MatcherModel::Extension("pm"@), perl_action_model()),
        (MatcherModel::Extension("pod"@), perl_action_model()),
        (MatcherModel::Name("Makefile.pl"@), perl_action_model()),
        (MatcherModel::Name("Build.pl"@), perl_action_model()),
        (MatcherModel::Name("cpanfile"@), perl_action_model()),
        (MatcherModel::Extension("py"@), python_action_model()),
        (MatcherModel::Extension("pyx"@), python_action_model()),
        (MatcherModel::Extension("pyw"@), python_action_model()),
        (MatcherModel::Extension("pyi"@), python_action_model()),
        (MatcherModel::Extension("ipy"@), python_action_model()),
        (MatcherModel::Extension("ipynb"@), python_action_model()),
        (MatcherModel::Name("pyproject.toml"@), python_dev_action_model()),
        (MatcherModel::Name("setup.py"@), python_dev_action_model()),
        (MatcherModel::Name("setup.cfg"@), python_dev_action_model()),
        (MatcherModel::Name("Pipfile"@), python_dev_action_model()),
        (MatcherModel::Extension("rs"@), rust_action_model()),
        (MatcherModel::Name("Cargo.toml"@), rust_action_model()),
    ]
}

/// The ordered rule catalog. Keys are unique by construction of the static
/// table; the order is the catalog order, which makes every aggregation
/// deterministic.
pub struct EnvBuilder(pub Vec<(PathMatch, Actions)>);

impl View for EnvBuilder {
    type V = Seq<RuleModel>;

    open spec fn view(&self) -> Seq<RuleModel> {
        self.0.deep_view()
    }
}

impl EnvBuilder {
    /// Build the static rule catalog.
    pub fn new() -> (r: EnvBuilder)
        ensures
            r@ == rule_table_model(),
    {
        let mut t: Vec<(PathMatch, Actions)> = Vec::new();
        let mut skip_actions: Actions = Vec::new();
        skip_actions.push(Action::Skip);
        proof {
            assert(skip_actions.deep_view() =~= seq![ActionModel::Skip]);
        }
        t.push((PathMatch::Glob(".*".to_owned()), skip_actions));
        t.push((PathMatch::Extension("c".to_owned()), c_actions()));
        t.push((PathMatch::Extension("h".to_owned()), c_actions()));
        t.push((PathMatch::Extension("go".to_owned()), go_actions()));
        t.push((PathMatch::Name("go.mod".to_owned()), go_actions()));
        t.push((PathMatch::Name("go.sum".to_owned()), go_actions()));
        t.push((PathMatch::Name("go.work".to_owned()), go_actions()));
        t.push((PathMatch::Extension("pl".to_owned()), perl_actions()));
        t.push((PathMatch::Extension("pm".to_owned()), perl_actions()));
        t.push((PathMatch::Extension("pod".to_owned()), perl_actions()));
        t.push((PathMatch::Name("Makefile.pl".to_owned()), perl_actions()));
        t.push((PathMatch::Name("Build.pl".to_owned()), perl_actions()));
        t.push((PathMatch::Name("cpanfile".to_owned()), perl_actions()));
        t.push((PathMatch::Extension("py".to_owned()), python_actions()));
        t.push((PathMatch::Extension("pyx".to_owned()), python_actions()));
        t.push((PathMatch::Extension("pyw".to_owned()), python_actions()));
        t.push((PathMatch::Extension("pyi".to_owned()), python_actions()));
        t.push((PathMatch::Extension("ipy".to_owned()), python_actions()));
        t.push((PathMatch::Extension("ipynb".to_owned()), python_actions()));
        t.push((PathMatch::Name("pyproject.toml".to_owned()), python_dev_actions()));
        t.push((PathMatch::Name("setup.py".to_owned()), python_dev_actions()));
        t.push((PathMatch::Name("setup.cfg".to_owned()), python_dev_actions()));
        t.push((PathMatch::Name("Pipfile".to_owned()), python_dev_actions()));
        t.push((PathMatch::Extension("rs".to_owned()), rust_actions()));
        t.push((PathMatch::Name("Cargo.toml".to_owned()), rust_actions()));
        let r = EnvBuilder(t);
        proof {
            assert(r@ =~= rule_table_model());
        }
        r
    }
}

/// Whether an action list contains the pruning signal.
pub open spec fn has_skip(actions: Seq<ActionModel>) -> bool {
    exists|k: int| 0 <= k < actions.len() && actions[k] is Skip
}

/// Whether some rule both matches the entry and asks to prune it.
pub open spec fn entry_skipped(rules: Seq<RuleModel>, e: FsEntry) -> bool {
    exists|i: int|
        0 <= i < rules.len() && matcher_accepts(rules[i].0, e) && has_skip(rules[i].1)
}

/// The build-step texts one action contributes.
pub open spec fn action_builds(a: ActionModel) -> Seq<Seq<char>> {
    match a {
        ActionModel::EnvBuild(t) => seq![t],
        _ => Seq::empty(),
    }
}

/// The run-step texts one action contributes.
pub open spec fn action_runs(a: ActionModel) -> Seq<Seq<char>> {
    match a {
        ActionModel::EnvRun(t) => seq![t],
        _ => Seq::empty(),
    }
}

/// The build-step texts of an action list, in order.
pub open spec fn builds_of(actions: Seq<ActionModel>) -> Seq<Seq<char>>
    decreases actions.len(),
{
    if actions.len() == 0 {
        Seq::empty()
    } else {
        builds_of(actions.drop_last()) + action_builds(actions.last())
    }
}

/// The run-step texts of an action list, in order.
pub open spec fn runs_of(actions: Seq<ActionModel>) -> Seq<Seq<char>>
    decreases actions.len(),
{
    if actions.len() == 0 {
        Seq::empty()
    } else {
        runs_of(actions.drop_last()) + action_runs(actions.last())
    }
}

/// The build-step texts one entry contributes: those of every matching
/// rule, in catalog order.
pub open spec fn entry_builds(rules: Seq<RuleModel>, e: FsEntry) -> Seq<Seq<char>>
    decreases rules.len(),
{
    if rules.len() == 0 {
        Seq::empty()
    } else {
        entry_builds(rules.drop_last(), e) + (if matcher_accepts(rules.last().0, e) {
            builds_of(rules.last().1)
        } else {
            Seq::empty()
        })
    }
}

/// The run-step texts one entry contributes.
pub open spec fn entry_runs(rules: Seq<RuleModel>, e: FsEntry) -> Seq<Seq<char>>
    decreases rules.len(),
{
    if rules.len() == 0 {
        Seq::empty()
    } else {
        entry_runs(rules.drop_last(), e) + (if matcher_accepts(rules.last().0, e) {
            runs_of(rules.last().1)
        } else {
            Seq::empty()
        })
    }
}

/// Every build-step text a tree contributes, visiting the entry before its
/// children and the children in order. A skipped entry contributes nothing,
/// and nothing below it is visited.
pub open spec fn tree_builds(rules: Seq<RuleModel>, t: FsTree) -> Seq<Seq<char>>
    decreases t,
{
    if entry_skipped(rules, t.entry) {
        Seq::empty()
    } else {
        entry_builds(rules, t.entry) + forest_builds(rules, t.children@)
    }
}

/// The build-step texts of a sequence of sibling trees, in order.
pub open spec fn forest_builds(rules: Seq<RuleModel>, ts: Seq<FsTree>) -> Seq<Seq<char>>
    decreases ts,
{
    if ts.len() == 0 {
        Seq::empty()
    } else {
        forest_builds(rules, ts.drop_last()) + tree_builds(rules, ts.last())
    }
}

/// Every run-step text a tree contributes, in the same order.
pub open spec fn tree_runs(rules: Seq<RuleModel>, t: FsTree) -> Seq<Seq<char>>
    decreases t,
{
    if entry_skipped(rules, t.entry) {
        Seq::empty()
    } else {
        entry_runs(rules, t.entry) + forest_runs(rules, t.children@)
    }
}

/// The run-step texts of a sequence of sibling trees, in order.
pub open spec fn forest_runs(rules: Seq<RuleModel>, ts: Seq<FsTree>) -> Seq<Seq<char>>
    decreases ts,
{
    if ts.len() == 0 {
        Seq::empty()
    } else {
        forest_runs(rules, ts.drop_last()) + tree_runs(rules, ts.last())
    }
}

/// An entry that a pruning rule matches contributes no step, and neither
/// does any descendant: pruning cuts off the whole subtree, whatever other
/// rules the entry or its descendants would have matched.
pub proof fn lemma_skip_prunes_subtree(rules: Seq<RuleModel>, t: FsTree)
    requires
        entry_skipped(rules, t.entry),
    ensures
        tree_builds(rules, t) == Seq::<Seq<char>>::empty(),
        tree_runs(rules, t) == Seq::<Seq<char>>::empty(),
{
}

/// One more action extends the per-entry contributions by that action's
/// texts, and the pruning signal by that action being `Skip`.
proof fn lemma_actions_take(actions: Seq<ActionModel>, k: int)
    requires
        0 <= k < actions.len(),
    ensures
        builds_of(actions.take(k + 1)) == builds_of(actions.take(k)) + action_builds(
            actions[k],
        ),
        runs_of(actions.take(k + 1)) == runs_of(actions.take(k)) + action_runs(actions[k]),
        has_skip(actions.take(k + 1)) == (has_skip(actions.take(k)) || actions[k] is Skip),
{
    assert(actions.take(k + 1).drop_last() =~= actions.take(k));
    assert(actions.take(k + 1).last() == actions[k]);
    if has_skip(actions.take(k + 1)) {
        let j = choose|j: int| 0 <= j < k + 1 && (#[trigger] actions.take(k + 1)[j]) is Skip;
        if j < k {
            assert(actions.take(k)[j] is Skip);
        }
    }
    if has_skip(actions.take(k)) {
        let j = choose|j: int| 0 <= j < k && (#[trigger] actions.take(k)[j]) is Skip;
        assert(actions.take(k + 1)[j] is Skip);
    }
    if actions[k] is Skip {
        assert(actions.take(k + 1)[k] is Skip);
    }
}

/// One more rule extends the per-entry contributions by that rule's texts
/// if it matches, and the pruning signal by that rule pruning.
proof fn lemma_entry_take(rules: Seq<RuleModel>, e: FsEntry, i: int)
    requires
        0 <= i < rules.len(),
    ensures
        entry_builds(rules.take(i + 1), e) == entry_builds(rules.take(i), e) + (
        if matcher_accepts(rules[i].0, e) {
            builds_of(rules[i].1)
        } else {
            Seq::<Seq<char>>::empty()
        }),
        entry_runs(rules.take(i + 1), e) == entry_runs(rules.take(i), e) + (
        if matcher_accepts(rules[i].0, e) {
            runs_of(rules[i].1)
        } else {
            Seq::<Seq<char>>::empty()
        }),
        entry_skipped(rules.take(i + 1), e) == (entry_skipped(rules.take(i), e) || (
        matcher_accepts(rules[i].0, e) && has_skip(rules[i].1))),
{
    assert(rules.take(i + 1).drop_last() =~= rules.take(i));
    assert(rules.take(i + 1).last() == rules[i]);
    if entry_skipped(rules.take(i + 1), e) {
        let j = choose|j: int|
            0 <= j < i + 1 && matcher_accepts((#[trigger] rules.take(i + 1)[j]).0, e)
                && has_skip(rules.take(i + 1)[j].1);
        if j < i {
            assert(matcher_accepts(rules.take(i)[j].0, e) && has_skip(rules.take(i)[j].1));
        }
    }
    if entry_skipped(rules.take(i), e) {
        let j = choose|j: int|
            0 <= j < i && matcher_accepts((#[trigger] rules.take(i)[j]).0, e) && has_skip(
                rules.take(i)[j].1,
            );
        assert(matcher_accepts(rules.take(i + 1)[j].0, e) && has_skip(rules.take(i + 1)[j].1));
    }
    if matcher_accepts(rules[i].0, e) && has_skip(rules[i].1) {
        assert(matcher_accepts(rules.take(i + 1)[i].0, e) && has_skip(rules.take(i + 1)[i].1));
    }
}

/// One more sibling extends a forest's contributions by that subtree's.
proof fn lemma_forest_take(rules: Seq<RuleModel>, ts: Seq<FsTree>, c: int)
    requires
        0 <= c < ts.len(),
    ensures
        forest_builds(rules, ts.take(c + 1)) == forest_builds(rules, ts.take(c)) + tree_builds(
            rules,
            ts[c],
        ),
        forest_runs(rules, ts.take(c + 1)) == forest_runs(rules, ts.take(c)) + tree_runs(
            rules,
            ts[c],
        ),
{
    assert(ts.take(c + 1).drop_last() =~= ts.take(c));
    assert(ts.take(c + 1).last() == ts[c]);
}

/// The scanned root together with the aggregation result: the de-duplicated
/// build-step and run-step sequences, in first-seen order. Built once by
/// [`EnvBuilder::from_fs`] and read-only afterwards.
pub struct Env {
    pub root: String,
    pub build_steps: Vec<String>,
    pub run_steps: Vec<String>,
}

/// Apply every rule to the entry of `t`; unless a matching rule prunes it,
/// commit the matched step texts and visit the children.
fn visit(rules: &Vec<(PathMatch, Actions)>, t: &FsTree, builds: &mut StepSet, runs: &mut StepSet)
    ensures
        final(builds)@ == insert_steps(old(builds)@, tree_builds(rules.deep_view(), *t)),
        final(runs)@ == insert_steps(old(runs)@, tree_runs(rules.deep_view(), *t)),
    decreases *t,
{
    let ghost rv = rules.deep_view();
    let ghost bacc0 = builds@;
    let ghost racc0 = runs@;
    let mut skip = false;
    let mut badd: Vec<String> = Vec::new();
    let mut radd: Vec<String> = Vec::new();
    let n = rules.len();
    proof {
        assert(rv.take(0) =~= Seq::<RuleModel>::empty());
        assert(badd.deep_view() =~= Seq::<Seq<char>>::empty());
        assert(radd.deep_view() =~= Seq::<Seq<char>>::empty());
    }
    let mut i: usize = 0;
    while i < n
        invariant
            n == rules@.len(),
            rv == rules.deep_view(),
            i <= n,
            skip == entry_skipped(rv.take(i as int), t.entry),
            badd.deep_view() == entry_builds(rv.take(i as int), t.entry),
            radd.deep_view() == entry_runs(rv.take(i as int), t.entry),
            builds@ == bacc0,
            runs@ == racc0,
        decreases n - i,
    {
        let rule = &rules[i];
        proof {
            assert(rv[i as int] == rules@[i as int].deep_view());
        }
        let matched = rule.0.matches(&t.entry);
        if matched {
            let acts = &rule.1;
            let ghost av = acts.deep_view();
            let ghost skip0 = skip;
            let ghost b0 = badd.deep_view();
            let ghost r0 = radd.deep_view();
            let m = acts.len();
            proof {
                assert(av.take(0) =~= Seq::<ActionModel>::empty());
                assert(b0 + builds_of(av.take(0)) =~= b0);
                assert(r0 + runs_of(av.take(0)) =~= r0);
            }
            let mut k: usize = 0;
            while k < m
                invariant
                    m == acts@.len(),
                    av == acts.deep_view(),
                    k <= m,
                    skip == (skip0 || has_skip(av.take(k as int))),
                    badd.deep_view() == b0 + builds_of(av.take(k as int)),
                    radd.deep_view() == r0 + runs_of(av.take(k as int)),
                    builds@ == bacc0,
                    runs@ == racc0,
                decreases m - k,
            {
                proof {
                    assert(av[k as int] == acts@[k as int].deep_view());
                }
                match &acts[k] {
                    Action::Skip => {
                        skip = true;
                    },
                    Action::EnvBuild(s) => {
                        let ghost bprev = badd.deep_view();
                        badd.push(s.clone());
                        proof {
                            assert(badd.deep_view() =~= bprev.push(s@));
                        }
                    },
                    Action::EnvRun(s) => {
                        let ghost rprev = radd.deep_view();
                        radd.push(s.clone());
                        proof {
                            assert(radd.deep_view() =~= rprev.push(s@));
                        }
                    },
                }
                proof {
                    lemma_actions_take(av, k as int);
                    assert(b0 + builds_of(av.take(k as int + 1)) =~= (b0 + builds_of(
                        av.take(k as int),
                    )) + action_builds(av[k as int]));
                    assert(r0 + runs_of(av.take(k as int + 1)) =~= (r0 + runs_of(
                        av.take(k as int),
                    )) + action_runs(av[k as int]));
                    if av[k as int] is EnvBuild {
                        assert(badd.deep_view() =~= (b0 + builds_of(av.take(k as int))).push(
                            av[k as int]->EnvBuild_0,
                        ));
                        assert((b0 + builds_of(av.take(k as int))) + action_builds(
                            av[k as int],
                        ) =~= (b0 + builds_of(av.take(k as int))).push(av[k as int]->EnvBuild_0));
                    }
                    if av[k as int] is EnvRun {
                        assert(radd.deep_view() =~= (r0 + runs_of(av.take(k as int))).push(
                            av[k as int]->EnvRun_0,
                        ));
                        assert((r0 + runs_of(av.take(k as int))) + action_runs(av[k as int]) =~= (
                        r0 + runs_of(av.take(k as int))).push(av[k as int]->EnvRun_0));
                    }
                    if av[k as int] is Skip {
                        assert(badd.deep_view() =~= b0 + builds_of(av.take(k as int)) + Seq::<
                            Seq<char>,
                        >::empty());
                        assert(radd.deep_view() =~= r0 + runs_of(av.take(k as int)) + Seq::<
                            Seq<char>,
                        >::empty());
                    }
                }
                k += 1;
            }
            proof {
                assert(av.take(m as int) =~= av);
                assert(rv[i as int].1 == av);
                lemma_entry_take(rv, t.entry, i as int);
                assert(badd.deep_view() == entry_builds(rv.take(i as int + 1), t.entry));
                assert(radd.deep_view() == entry_runs(rv.take(i as int + 1), t.entry));
            }
        } else {
            proof {
                lemma_entry_take(rv, t.entry, i as int);
                assert(badd.deep_view() + Seq::<Seq<char>>::empty() =~= badd.deep_view());
                assert(radd.deep_view() + Seq::<Seq<char>>::empty() =~= radd.deep_view());
            }
        }
        i += 1;
    }
    proof {
        assert(rv.take(n as int) =~= rv);
    }
    if skip {
        proof {
            lemma_skip_prunes_subtree(rv, *t);
        }
        return ;
    }
    // Commit this entry's build steps, in order.
    let ghost bdv = badd.deep_view();
    let bl = badd.len();
    proof {
        assert(bdv.take(0) =~= Seq::<Seq<char>>::empty());
    }
    let mut j: usize = 0;
    while j < bl
        invariant
            bl == badd@.len(),
            bdv == badd.deep_view(),
            j <= bl,
            builds@ == insert_steps(bacc0, bdv.take(j as int)),
            runs@ == racc0,
        decreases bl - j,
    {
        builds.insert(badd[j].clone());
        proof {
            lemma_insert_steps_push(bacc0, bdv.take(j as int), bdv[j as int]);
            assert(bdv.take(j as int + 1) =~= bdv.take(j as int).push(bdv[j as int]));
        }
        j += 1;
    }
    proof {
        assert(bdv.take(bl as int) =~= bdv);
    }
    // Commit this entry's run steps, in order.
    let ghost rdv = radd.deep_view();
    let ghost bacc1 = builds@;
    let rl = radd.len();
    proof {
        assert(rdv.take(0) =~= Seq::<Seq<char>>::empty());
    }
    let mut j2: usize = 0;
    while j2 < rl
        invariant
            rl == radd@.len(),
            rdv == radd.deep_view(),
            j2 <= rl,
            runs@ == insert_steps(racc0, rdv.take(j2 as int)),
            builds@ == bacc1,
        decreases rl - j2,
    {
        runs.insert(radd[j2].clone());
        proof {
            lemma_insert_steps_push(racc0, rdv.take(j2 as int), rdv[j2 as int]);
            assert(rdv.take(j2 as int + 1) =~= rdv.take(j2 as int).push(rdv[j2 as int]));
        }
        j2 += 1;
    }
    proof {
        assert(rdv.take(rl as int) =~= rdv);
    }
    // Visit the children in order.
    let ghost racc1 = runs@;
    let cn = t.children.len();
    proof {
        assert(t.children@.take(0) =~= Seq::<FsTree>::empty());
    }
    let mut c: usize = 0;
    while c < cn
        invariant
            cn == t.children@.len(),
            rv == rules.deep_view(),
            c <= cn,
            builds@ == insert_steps(bacc1, forest_builds(rv, t.children@.take(c as int))),
            runs@ == insert_steps(racc1, forest_runs(rv, t.children@.take(c as int))),
        decreases cn - c,
    {
        proof {
            assert(decreases_to!(*t => t.children@[c as int]));
        }
        visit(rules, &t.children[c], builds, runs);
        proof {
            lemma_forest_take(rv, t.children@, c as int);
            lemma_insert_steps_app(
                bacc1,
                forest_builds(rv, t.children@.take(c as int)),
                tree_builds(rv, t.children@[c as int]),
            );
            lemma_insert_steps_app(
                racc1,
                forest_runs(rv, t.children@.take(c as int)),
                tree_runs(rv, t.children@[c as int]),
            );
        }
        c += 1;
    }
    proof {
        assert(t.children@.take(cn as int) =~= t.children@);
        lemma_insert_steps_app(bacc0, entry_builds(rv, t.entry), forest_builds(rv, t.children@));
        lemma_insert_steps_app(racc0, entry_runs(rv, t.entry), forest_runs(rv, t.children@));
    }
}

/// The step texts joined with newline separators: the content of the
/// activation file.
pub open spec fn join_nl(steps: Seq<Seq<char>>) -> Seq<char>
    decreases steps.len(),
{
    if steps.len() == 0 {
        Seq::empty()
    } else if steps.len() == 1 {
        steps[0]
    } else {
        join_nl(steps.drop_last()) + "\n"@ + steps.last()
    }
}

/// Join the step texts with newline separators.
fn joined(steps: &Vec<String>) -> (r: String)
    ensures
        r@ == join_nl(steps.deep_view()),
{
    let ghost dv = steps.deep_view();
    let mut r = String::new();
    let n = steps.len();
    proof {
        assert(dv.take(0) =~= Seq::<Seq<char>>::empty());
    }
    let mut i: usize = 0;
    while i < n
        invariant
            n == steps@.len(),
            dv == steps.deep_view(),
            i <= n,
            r@ == join_nl(dv.take(i as int)),
        decreases n - i,
    {
        if i > 0 {
            r.append("\n");
        }
        r.append(steps[i].as_str());
        proof {
            assert(dv.take(i as int + 1).drop_last() =~= dv.take(i as int));
            assert(dv.take(i as int + 1).last() == dv[i as int]);
            if i == 0 {
                assert(r@ == dv[0]);
            }
        }
        i += 1;
    }
    proof {
        assert(dv.take(n as int) =~= dv);
    }
    r
}

/// What materializing the activation file amounts to, decided before any
/// I/O is done.
pub enum BuildPlan {
    /// No build step was found: there is nothing to do and no file is
    /// touched.
    Nothing,
    /// Preview mode: `content` is what would be written, and `conflict`
    /// warns that the file already exists and a real write would fail.
    Preview { conflict: bool, content: String },
    /// Write mode with a clear path: create the file with `content`.
    Create { content: String },
}

impl BuildPlan {
    /// Whether the plan found anything to do — the `created` result of
    /// materializing.
    pub fn created(&self) -> (b: bool)
        ensures
            b == !(self is Nothing),
    {
        match self {
            BuildPlan::Nothing => false,
            _ => true,
        }
    }
}

/// The mandatory command that allows the scanned directory, issued before
/// any run step.
pub open spec fn allow_command(root: Seq<char>) -> Seq<char> {
    "direnv allow "@ + root
}

impl Env {
    /// Decide how to materialize the activation file, given whether it
    /// already exists and whether writing is allowed. With no build step
    /// there is nothing to do; an existing file makes a demanded write fail
    /// with a conflict, and is never overwritten; preview mode plans no
    /// write at all, it only describes one.
    pub fn build(&self, exists: bool, mutate: bool) -> (r: Result<BuildPlan, EnvError>)
        ensures
            self.build_steps@.len() == 0 ==> r == Ok::<BuildPlan, EnvError>(BuildPlan::Nothing),
            self.build_steps@.len() > 0 && !mutate ==> (r matches Ok(p) && p matches
                BuildPlan::Preview { conflict, content } && conflict == exists && content@
                == join_nl(self.build_steps.deep_view())),
            self.build_steps@.len() > 0 && mutate && exists ==> r == Err::<BuildPlan, EnvError>(EnvError::Conflict),
            self.build_steps@.len() > 0 && mutate && !exists ==> (r matches Ok(p) && p matches
                BuildPlan::Create { content } && content@ == join_nl(
                self.build_steps.deep_view(),
            )),
            r is Err <==> (self.build_steps@.len() > 0 && mutate && exists),
            !mutate ==> !(r matches Ok(p) && p is Create),
    {
        if self.build_steps.len() == 0 {
            return Ok(BuildPlan::Nothing);
        }
        if exists && mutate {
            return Err(EnvError::Conflict);
        }
        let content = joined(&self.build_steps);
        if mutate {
            Ok(BuildPlan::Create { content })
        } else {
            Ok(BuildPlan::Preview { conflict: exists, content })
        }
    }

    /// Plan the activation session: the mandatory allow command for the
    /// scanned root first, under check semantics, then every run step in
    /// aggregation order under the runner's own semantics.
    pub fn setup(&self, runner: CommandControl) -> (s: Session)
        ensures
            s.wf(),
            s.next == 0,
            s.failure is None,
            s.cmds@.len() == 1 + self.run_steps@.len(),
            s.cmds@[0].text@ == allow_command(self.root@),
            s.cmds@[0].control.check,
            s.cmds@[0].control.execute == runner.execute,
            s.cmds@[0].control.output == runner.output,
            forall|i: int|
                1 <= i < s.cmds@.len() ==> (#[trigger] s.cmds@[i]).text@
                    == self.run_steps.deep_view()[i - 1] && s.cmds@[i].control == runner,
    {
        let mut cmds: Vec<PlannedCommand> = Vec::new();
        let mut allow = "direnv allow ".to_owned();
        allow.append(self.root.as_str());
        cmds.push(PlannedCommand { text: allow, control: runner.check() });
        let n = self.run_steps.len();
        let mut i: usize = 0;
        while i < n
            invariant
                n == self.run_steps@.len(),
                i <= n,
                cmds@.len() == 1 + i,
                cmds@[0].text@ == allow_command(self.root@),
                cmds@[0].control.check,
                cmds@[0].control.execute == runner.execute,
                cmds@[0].control.output == runner.output,
                forall|j: int|
                    1 <= j < cmds@.len() ==> (#[trigger] cmds@[j]).text@
                        == self.run_steps.deep_view()[j - 1] && cmds@[j].control == runner,
            decreases n - i,
        {
            cmds.push(PlannedCommand { text: self.run_steps[i].clone(), control: runner });
            i += 1;
        }
        Session { cmds, next: 0, failure: None }
    }
}

impl EnvBuilder {
    /// Scan a directory snapshot: apply every rule to every entry, prune
    /// skipped subtrees, and aggregate the matched actions into the two
    /// de-duplicated step sequences, in first-seen order. Neither sequence
    /// ever holds the same text twice.
    pub fn from_fs(&self, tree: &FsTree) -> (env: Env)
        ensures
            env.root@ == tree.entry.path@,
            env.build_steps.deep_view() == dedup(tree_builds(self@, *tree)),
            env.run_steps.deep_view() == dedup(tree_runs(self@, *tree)),
            no_dup(env.build_steps.deep_view()),
            no_dup(env.run_steps.deep_view()),
    {
        let mut builds = StepSet::new();
        let mut runs = StepSet::new();
        visit(&self.0, tree, &mut builds, &mut runs);
        proof {
            lemma_dedup_no_dup(tree_builds(self@, *tree));
            lemma_dedup_no_dup(tree_runs(self@, *tree));
        }
        Env {
            root: tree.entry.path.clone(),
            build_steps: builds.into_vec(),
            run_steps: runs.into_vec(),
        }
    }
}

} // verus!
