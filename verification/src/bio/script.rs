//! Fixed sequences of calls to the co-processor, made one at a time.
//!
//! A [`Script`] holds the calls and what a failure of each one means. Whoever
//! owns the co-processor makes the pending call and hands the reply to
//! [`Script::resume`], which says how it goes on.

use super::hal::{
    refusal_as_failure, BioCall, BioError, BioReply, ResourceError, ResourceGrant,
};
use vstd::prelude::*;

verus! {

/// What the failure of a call means for the script that makes it.
#[derive(Debug, Clone, Copy, PartialEq, Eq, Structural)]
pub enum OnError {
    /// The script ends and hands the error on.
    Return,
    /// The script cannot go on: a panic.
    Panic,
    /// The script goes on as if the call had worked.
    Ignore,
}

/// A call, with what its failure means.
#[derive(Debug, Clone, Copy, PartialEq, Eq)]
pub struct ScriptStep {
    pub call: BioCall,
    pub on_error: OnError,
}

/// What a reply means for a script.
#[derive(Debug, Clone, Copy, PartialEq, Eq, Structural)]
pub enum Verdict {
    /// Go on with the next call.
    Proceed,
    /// End with this error.
    Return(BioError),
    /// Panic.
    Panic,
}

/// Where a script stands after a reply.
#[derive(Debug, Clone, Copy, PartialEq, Eq)]
pub enum ScriptProgress {
    /// This call is to be made next.
    Call(BioCall),
    /// Every call has been made.
    Finished,
    /// The script ended early, with this error.
    Failed(BioError),
    /// The script ended in a panic.
    Panicked,
}

/// What an error means under `on_error`.
pub open spec fn verdict_on_error(on_error: OnError, e: BioError) -> Verdict {
    match on_error {
        OnError::Return => Verdict::Return(e),
        OnError::Panic => Verdict::Panic,
        OnError::Ignore => Verdict::Proceed,
    }
}

/// What a reply means under `on_error`. Nothing left to hand out is always a
/// panic.
pub open spec fn verdict_of(on_error: OnError, reply: BioReply) -> Verdict {
    match reply {
        BioReply::Done => Verdict::Proceed,
        BioReply::Granted(_) => Verdict::Proceed,
        BioReply::Missing => Verdict::Panic,
        BioReply::Failed(e) => verdict_on_error(on_error, e),
        BioReply::Refused(e) => verdict_on_error(on_error, refusal_as_failure(e)),
    }
}

impl OnError {
    fn judge_error(self, e: BioError) -> (v: Verdict)
        ensures
            v == verdict_on_error(self, e),
    {
        match self {
            OnError::Return => Verdict::Return(e),
            OnError::Panic => Verdict::Panic,
            OnError::Ignore => Verdict::Proceed,
        }
    }

    /// What `reply` means for a call whose failure means this.
    pub fn judge(self, reply: BioReply) -> (v: Verdict)
        ensures
            v == verdict_of(self, reply),
    {
        match reply {
            BioReply::Done => Verdict::Proceed,
            BioReply::Granted(_) => Verdict::Proceed,
            BioReply::Missing => Verdict::Panic,
            BioReply::Failed(e) => self.judge_error(e),
            BioReply::Refused(e) => self.judge_error(e.into_bio_error()),
        }
    }
}

/// A script and how many of its calls are behind it.
#[verifier::ext_equal]
pub struct ScriptView {
    pub steps: Seq<ScriptStep>,
    pub made: int,
}

impl ScriptView {
    /// The script at its first call.
    pub open spec fn start(steps: Seq<ScriptStep>) -> Self {
        ScriptView { steps, made: 0 }
    }

    /// A call is pending.
    pub open spec fn running(self) -> bool {
        0 <= self.made < self.steps.len()
    }

    /// The pending call.
    pub open spec fn pending(self) -> ScriptStep {
        self.steps[self.made]
    }

    /// The same script with one more call behind it.
    pub open spec fn advanced(self) -> Self {
        ScriptView { steps: self.steps, made: self.made + 1 }
    }

    /// How the script goes on after `reply` to its pending call.
    pub open spec fn progress(self, reply: BioReply) -> ScriptProgress {
        match verdict_of(self.pending().on_error, reply) {
            Verdict::Proceed => if self.advanced().running() {
                ScriptProgress::Call(self.advanced().pending().call)
            } else {
                ScriptProgress::Finished
            },
            Verdict::Return(e) => ScriptProgress::Failed(e),
            Verdict::Panic => ScriptProgress::Panicked,
        }
    }
}

/// A sequence of calls with one of them pending.
pub struct Script {
    steps: Vec<ScriptStep>,
    made: usize,
}

impl View for Script {
    type V = ScriptView;

    closed spec fn view(&self) -> ScriptView {
        ScriptView { steps: self.steps@, made: self.made as int }
    }
}

impl Script {
    #[verifier::type_invariant]
    spec fn inv(self) -> bool {
        self.made < self.steps@.len()
    }

    /// A script at its first call.
    pub fn new(steps: Vec<ScriptStep>) -> (s: Self)
        requires
            steps@.len() > 0,
        ensures
            s@ == ScriptView::start(steps@),
            s@.running(),
    {
        Script { steps, made: 0 }
    }

    /// The pending call.
    pub fn call(&self) -> (call: BioCall)
        ensures
            self@.running(),
            call == self@.pending().call,
    {
        proof {
            use_type_invariant(self);
        }
        self.steps[self.made].call
    }

    /// Takes the reply to the pending call. The script moves on to its next
    /// call if there is one to make, and stays where it is otherwise.
    pub fn resume(&mut self, reply: BioReply) -> (p: ScriptProgress)
        ensures
            old(self)@.running(),
            p == old(self)@.progress(reply),
            final(self)@ == if p is Call {
                old(self)@.advanced()
            } else {
                old(self)@
            },
            final(self)@.running(),
    {
        proof {
            use_type_invariant(&*self);
        }
        match self.steps[self.made].on_error.judge(reply) {
            Verdict::Proceed => {
                if self.steps.len() - self.made > 1 {
                    self.made = self.made + 1;
                    ScriptProgress::Call(self.steps[self.made].call)
                } else {
                    ScriptProgress::Finished
                }
            },
            Verdict::Return(e) => ScriptProgress::Failed(e),
            Verdict::Panic => ScriptProgress::Panicked,
        }
    }
}

/// How a run ends.
#[derive(Debug, Clone, Copy, PartialEq, Eq, Structural)]
pub enum RunEnd {
    /// The replies ran out with a call still pending.
    Pending,
    /// Every call was made.
    Finished,
    /// A call failed and ended the run.
    Failed(BioError),
    /// A call failed and made the run panic.
    Panicked,
}

/// A run of a script against given replies: the calls made, and the end.
#[verifier::ext_equal]
pub struct Run {
    pub calls: Seq<BioCall>,
    pub end: RunEnd,
}

/// What happens when the pending calls of `s` are answered by `replies`, one
/// after the other, as [`Script::resume`] goes on.
pub open spec fn run(s: ScriptView, replies: Seq<BioReply>) -> Run
    decreases replies.len(),
{
    let call = s.pending().call;
    if replies.len() == 0 {
        Run { calls: seq![call], end: RunEnd::Pending }
    } else {
        match s.progress(replies[0]) {
            ScriptProgress::Call(_) => {
                let rest = run(s.advanced(), replies.drop_first());
                Run { calls: seq![call] + rest.calls, end: rest.end }
            },
            ScriptProgress::Finished => Run { calls: seq![call], end: RunEnd::Finished },
            ScriptProgress::Failed(e) => Run { calls: seq![call], end: RunEnd::Failed(e) },
            ScriptProgress::Panicked => Run { calls: seq![call], end: RunEnd::Panicked },
        }
    }
}

/// The calls of the script from the pending one up to place `upto`.
pub open spec fn calls_until(s: ScriptView, upto: int) -> Seq<BioCall> {
    Seq::new((upto - s.made) as nat, |i: int| s.steps[s.made + i].call)
}

/// The reply to the call at place `s.made + i` lets the script go on.
pub open spec fn lets_go_on(s: ScriptView, replies: Seq<BioReply>, i: int) -> bool {
    verdict_of(s.steps[s.made + i].on_error, replies[i]) is Proceed
}

/// Where no reply stops it, a script makes each of its calls once, in order,
/// and finishes.
pub proof fn law_undisturbed_run_makes_every_call(s: ScriptView, replies: Seq<BioReply>)
    requires
        s.running(),
        replies.len() == s.steps.len() - s.made,
        forall|i: int| 0 <= i < replies.len() ==> #[trigger] lets_go_on(s, replies, i),
    ensures
        run(s, replies) == (Run {
            calls: calls_until(s, s.steps.len() as int),
            end: RunEnd::Finished,
        }),
    decreases replies.len(),
{
    assert(lets_go_on(s, replies, 0));
    let rest = replies.drop_first();
    if rest.len() > 0 {
        assert forall|i: int| 0 <= i < rest.len() implies #[trigger] lets_go_on(
            s.advanced(),
            rest,
            i,
        ) by {
            assert(lets_go_on(s, replies, i + 1));
        }
        law_undisturbed_run_makes_every_call(s.advanced(), rest);
    }
    assert(run(s, replies).calls =~= calls_until(s, s.steps.len() as int));
}

/// The first reply that stops a script is the last thing that happens: the
/// calls up to and with that one were made, no later one was, and the end is
/// the one which that call's failure means.
pub proof fn law_first_stopping_reply_ends_the_run(s: ScriptView, replies: Seq<BioReply>, k: int)
    requires
        s.running(),
        0 <= k < replies.len(),
        s.made + k < s.steps.len(),
        forall|i: int| 0 <= i < k ==> #[trigger] lets_go_on(s, replies, i),
        !lets_go_on(s, replies, k),
    ensures
        run(s, replies).calls == calls_until(s, s.made + k + 1),
        match verdict_of(s.steps[s.made + k].on_error, replies[k]) {
            Verdict::Return(e) => run(s, replies).end == RunEnd::Failed(e),
            Verdict::Panic => run(s, replies).end == RunEnd::Panicked,
            Verdict::Proceed => false,
        },
    decreases k,
{
    if k > 0 {
        assert(lets_go_on(s, replies, 0));
        let rest = replies.drop_first();
        assert forall|i: int| 0 <= i < k - 1 implies #[trigger] lets_go_on(
            s.advanced(),
            rest,
            i,
        ) by {
            assert(lets_go_on(s, replies, i + 1));
        }
        assert(!lets_go_on(s.advanced(), rest, k - 1));
        law_first_stopping_reply_ends_the_run(s.advanced(), rest, k - 1);
    }
    assert(run(s, replies).calls =~= calls_until(s, s.made + k + 1));
}

/// A failure means the same whatever it is: where failures are handed on, the
/// script ends with that very failure; where they are a panic it panics; and
/// where they do not matter it goes on. What worked lets every script go on.
pub proof fn law_failures_are_judged_alike(on_error: OnError, e: BioError, grant: ResourceGrant)
    ensures
        match on_error {
            OnError::Return => verdict_of(on_error, BioReply::Failed(e)) == Verdict::Return(e),
            OnError::Panic => verdict_of(on_error, BioReply::Failed(e)) == Verdict::Panic,
            OnError::Ignore => verdict_of(on_error, BioReply::Failed(e)) == Verdict::Proceed,
        },
        verdict_of(on_error, BioReply::Done) == Verdict::Proceed,
        verdict_of(on_error, BioReply::Granted(grant)) == Verdict::Proceed,
        verdict_of(on_error, BioReply::Missing) == Verdict::Panic,
{
}

/// A refusal is judged as the failure that it amounts to: the sentinel as the
/// sentinel, an internal error as one, and any other as a resource in use.
pub proof fn law_refusals_are_judged_as_failures(on_error: OnError, r: ResourceError)
    ensures
        verdict_of(on_error, BioReply::Refused(r)) == verdict_of(
            on_error,
            BioReply::Failed(
                if r == ResourceError::NoError {
                    BioError::NoError
                } else if r == ResourceError::InternalError {
                    BioError::InternalError
                } else {
                    BioError::ResourceInUse
                },
            ),
        ),
{
}

/// A reply moves a script by one call at most, and never to another one than
/// the next; it is finished exactly when the last call has been let through.
pub proof fn law_script_moves_one_call_at_a_time(s: ScriptView, reply: BioReply)
    requires
        s.running(),
    ensures
        s.pending() == s.steps[s.made],
        s.advanced().steps == s.steps,
        s.advanced().made == s.made + 1,
        match (verdict_of(s.steps[s.made].on_error, reply), s.progress(reply)) {
            (Verdict::Proceed, ScriptProgress::Call(call)) => s.made + 1 < s.steps.len() && call
                == s.steps[s.made + 1].call,
            (Verdict::Proceed, ScriptProgress::Finished) => s.made + 1 == s.steps.len(),
            (Verdict::Return(e), ScriptProgress::Failed(f)) => e == f,
            (Verdict::Panic, ScriptProgress::Panicked) => true,
            _ => false,
        },
{
}

} // verus!
