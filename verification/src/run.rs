//! Command execution policy: whitespace tokenization of command text, the
//! check-or-warn failure policy, and the activation session that issues a
//! mandatory allow command before the optional run steps.
//!
//! Nothing here spawns a process. The surrounding binary asks the session
//! for the next command, runs it, and hands back whether it succeeded; the
//! session decides whether the activation goes on.

use vstd::prelude::*;
use vstd::string::StrSliceExecFns;

use crate::errors::EnvError;

verus! {

/// How commands are to be run: `check` makes a failure fatal, `execute`
/// distinguishes real execution from report-only mode, and `output` asks
/// for the child's output to be captured rather than inherited.
#[derive(Clone, Copy)]
pub struct CommandControl {
    pub check: bool,
    pub execute: bool,
    pub output: bool,
}

impl CommandControl {
    /// A runner that treats command failures as non-fatal.
    pub fn new(execute: bool, output: bool) -> (r: CommandControl)
        ensures
            !r.check,
            r.execute == execute,
            r.output == output,
    {
        CommandControl { check: false, execute, output }
    }

    /// The same runner with fatal-on-failure semantics.
    pub fn check(&self) -> (r: CommandControl)
        ensures
            r.check,
            r.execute == self.execute,
            r.output == self.output,
    {
        CommandControl { check: true, execute: self.execute, output: self.output }
    }
}

/// The characters the tokenizer counts as whitespace: space, horizontal
/// tab, line feed, form feed and carriage return.
pub open spec fn is_blank(c: char) -> bool {
    c == ' ' || c == '\t' || c == '\n' || c == '\u{c}' || c == '\r'
}

/// Whether one character is tokenizer whitespace.
fn blank(c: char) -> (r: bool)
    ensures
        r == is_blank(c),
{
    c == ' ' || c == '\t' || c == '\n' || c == '\u{c}' || c == '\r'
}

/// The position of the first whitespace character of `s`, or `s.len()` if
/// there is none.
pub open spec fn first_blank(s: Seq<char>) -> nat
    decreases s.len(),
{
    if s.len() == 0 {
        0
    } else if is_blank(s[0]) {
        0
    } else {
        1 + first_blank(s.drop_first())
    }
}

/// `first_blank` stays within the text, points at whitespace, and nothing
/// before it is whitespace.
pub proof fn lemma_first_blank_props(s: Seq<char>)
    ensures
        first_blank(s) <= s.len(),
        first_blank(s) < s.len() ==> is_blank(s[first_blank(s) as int]),
        forall|k: int| 0 <= k < first_blank(s) ==> !is_blank(s[k]),
    decreases s.len(),
{
    if s.len() == 0 {
    } else if is_blank(s[0]) {
    } else {
        lemma_first_blank_props(s.drop_first());
        assert(forall|k: int| 0 <= k < first_blank(s) ==> !is_blank(s[k])) by {
            assert(forall|k: int|
                1 <= k < first_blank(s) ==> s[k] == s.drop_first()[k - 1]);
        }
    }
}

/// A position with no whitespace before it, holding whitespace or past the
/// end, is where `first_blank` points.
pub proof fn lemma_first_blank_at(s: Seq<char>, j: int)
    requires
        0 <= j <= s.len(),
        forall|k: int| 0 <= k < j ==> !is_blank(s[k]),
        j < s.len() ==> is_blank(s[j]),
    ensures
        first_blank(s) == j,
    decreases s.len(),
{
    if j == 0 {
    } else {
        assert(!is_blank(s[0]));
        lemma_first_blank_at(s.drop_first(), j - 1);
    }
}

/// The command text split on whitespace: the maximal runs of
/// non-whitespace characters, in order. Leading, trailing or repeated
/// whitespace yields no empty token, and whitespace-only text yields no
/// token at all. There is no quoting support: a quoted argument with a
/// space inside is split all the same.
pub open spec fn split_ws(s: Seq<char>) -> Seq<Seq<char>>
    decreases s.len(),
    via split_ws_decreases
{
    if s.len() == 0 {
        Seq::empty()
    } else if is_blank(s[0]) {
        split_ws(s.drop_first())
    } else {
        seq![s.take(first_blank(s) as int)] + split_ws(s.skip(first_blank(s) as int))
    }
}

#[via_fn]
proof fn split_ws_decreases(s: Seq<char>) {
    lemma_first_blank_props(s);
}

/// Split a command text on whitespace into a program name and arguments.
/// Whitespace-only text yields no tokens.
pub fn tokenize(cmd: &str) -> (r: Vec<String>)
    ensures
        r.deep_view() == split_ws(cmd@),
{
    let n = cmd.unicode_len();
    let mut toks: Vec<String> = Vec::new();
    let mut i: usize = 0;
    proof {
        assert(cmd@.skip(0) =~= cmd@);
        assert(toks.deep_view() =~= Seq::<Seq<char>>::empty());
        assert(toks.deep_view() + split_ws(cmd@) =~= split_ws(cmd@));
    }
    while i < n
        invariant
            n == cmd@.len(),
            i <= n,
            toks.deep_view() + split_ws(cmd@.skip(i as int)) == split_ws(cmd@),
        decreases n - i,
    {
        if blank(cmd.get_char(i)) {
            // whitespace between tokens contributes nothing
            proof {
                let tail = cmd@.skip(i as int);
                assert(tail[0] == cmd@[i as int]);
                assert(tail.drop_first() =~= cmd@.skip(i as int + 1));
            }
            i += 1;
        } else {
            // scan to the end of the maximal non-whitespace run
            let mut j: usize = i + 1;
            proof {
                assert(forall|k: int| i <= k < i + 1 ==> !is_blank(cmd@[k]));
            }
            while j < n
                invariant
                    n == cmd@.len(),
                    i < j <= n,
                    forall|k: int| i <= k < j ==> !is_blank(cmd@[k]),
                ensures
                    i < j <= n,
                    forall|k: int| i <= k < j ==> !is_blank(cmd@[k]),
                    j == n || is_blank(cmd@[j as int]),
                decreases n - j,
            {
                if blank(cmd.get_char(j)) {
                    break ;
                }
                j += 1;
            }
            let tok = cmd.substring_char(i, j).to_owned();
            proof {
                let tail = cmd@.skip(i as int);
                assert(forall|k: int| 0 <= k < tail.len() ==> tail[k] == cmd@[i + k]);
                lemma_first_blank_at(tail, j - i);
                assert(tail.len() > 0 && !is_blank(tail[0]));
                assert(tail.take(j - i) =~= cmd@.subrange(i as int, j as int));
                assert(tail.skip(j - i) =~= cmd@.skip(j as int));
                assert(split_ws(tail) == seq![tok@] + split_ws(cmd@.skip(j as int)));
            }
            let ghost old_toks = toks.deep_view();
            toks.push(tok);
            proof {
                assert(toks.deep_view() =~= old_toks.push(cmd@.subrange(
                    i as int,
                    j as int,
                )));
                assert(toks.deep_view() + split_ws(cmd@.skip(j as int)) =~= split_ws(cmd@));
            }
            i = j;
        }
    }
    proof {
        assert(cmd@.skip(n as int) =~= Seq::<char>::empty());
        assert(toks.deep_view() + Seq::<Seq<char>>::empty() =~= toks.deep_view());
    }
    toks
}

/// One command of an activation session: its text and the failure policy
/// it runs under.
pub struct PlannedCommand {
    pub text: String,
    pub control: CommandControl,
}

/// The activation session: the planned commands, how many have been issued,
/// and the failure that ended the session early, if any.
pub struct Session {
    pub cmds: Vec<PlannedCommand>,
    pub next: usize,
    pub failure: Option<EnvError>,
}

impl Session {
    /// The issued prefix never runs past the plan.
    pub open spec fn wf(&self) -> bool {
        self.next <= self.cmds@.len()
    }

    /// The command the session offers now: none once the plan is exhausted
    /// or a mandatory command has failed.
    pub open spec fn spec_current(&self) -> Option<PlannedCommand> {
        if self.failure is Some || self.next >= self.cmds@.len() {
            None
        } else {
            Some(self.cmds@[self.next as int])
        }
    }

    /// The next command to run, if the session still offers one.
    pub fn current(&self) -> (r: Option<&PlannedCommand>)
        ensures
            r is Some <==> self.spec_current() is Some,
            r matches Some(c) ==> self.spec_current() == Some(*c),
    {
        match &self.failure {
            Some(_) => None,
            None => {
                if self.next < self.cmds.len() {
                    Some(&self.cmds[self.next])
                } else {
                    None
                }
            },
        }
    }

    /// Record the outcome of the command just offered. A failure under
    /// check semantics ends the session with a `CommandFailure`; any other
    /// outcome moves on to the next command.
    pub fn advance(&mut self, success: bool, code: Option<i32>)
        requires
            old(self).wf(),
            old(self).spec_current() is Some,
        ensures
            final(self).wf(),
            final(self).cmds == old(self).cmds,
            ({
                let cur = old(self).cmds@[old(self).next as int];
                if cur.control.check && !success {
                    &&& final(self).next == old(self).next
                    &&& final(self).spec_current() is None
                    &&& (final(self).failure matches Some(e) && e matches EnvError::CommandFailure{
                        code: c,
                        cmd,
                    } && c == code && cmd@ == cur.text@)
                } else {
                    &&& final(self).next == old(self).next + 1
                    &&& final(self).failure is None
                }
            }),
    {
        proof {
            assert(old(self).next < old(self).cmds@.len());
        }
        let fatal = self.cmds[self.next].control.check;
        if fatal && !success {
            let cmd = self.cmds[self.next].text.clone();
            self.failure = Some(EnvError::CommandFailure { code, cmd });
        } else {
            let planned = self.cmds.len();
            proof {
                assert(self.next < planned);
            }
            self.next = self.next + 1;
        }
    }

    /// The session's verdict once no command is offered any more.
    pub fn result(self) -> (r: Result<(), EnvError>)
        ensures
            r is Err <==> self.failure is Some,
            r matches Err(e) ==> self.failure == Some(e),
    {
        match self.failure {
            Some(e) => Err(e),
            None => Ok(()),
        }
    }
}

/// Once a session has recorded a failure it offers no further command: a
/// failed mandatory command stops every remaining run step.
pub proof fn lemma_failure_stops_session(s: Session)
    requires
        s.failure is Some,
    ensures
        s.spec_current() is None,
{
}

} // verus!
