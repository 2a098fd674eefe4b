//! What holds of the driver over whole startups and swaps.

use super::driver::{
    bring_up_steps, brightness_word, claim_steps, handshake_words, led_resources, load_call,
    release_steps, requested_driver, set_pattern_outcome, switch_steps, DriverView,
    StartupOutcome, StartupRequest, StartupView, SwitchOutcome, SwitchView,
};
use super::hal::{
    refusal_as_failure, BioCall, BioCore, BioError, BioReply, IoConfigMode,
};
use super::pattern::{
    law_neighbours_differ, law_next_and_prev_are_inverse, next_of, prev_of, PatternKind,
};
use super::script::{
    calls_until, law_first_stopping_reply_ends_the_run, law_undisturbed_run_makes_every_call,
    lets_go_on, run, verdict_of, OnError, RunEnd, ScriptStep, ScriptView, Verdict,
};
use vstd::multiset::Multiset;
use vstd::prelude::*;

verus! {

/// The error that a reply carries, if it carries one.
pub open spec fn error_in(reply: BioReply) -> Option<BioError> {
    match reply {
        BioReply::Failed(e) => Some(e),
        BioReply::Refused(e) => Some(refusal_as_failure(e)),
        _ => None,
    }
}

/// The words that a sequence of calls writes into FIFO 1, in order.
pub open spec fn words_written(calls: Seq<BioCall>) -> Seq<u32>
    decreases calls.len(),
{
    if calls.len() == 0 {
        Seq::empty()
    } else {
        let before = words_written(calls.drop_last());
        match calls.last() {
            BioCall::WriteTx { word } => before.push(word),
            _ => before,
        }
    }
}

/// Calls made one after the other write their words one after the other.
pub proof fn law_words_follow_the_calls(a: Seq<BioCall>, b: Seq<BioCall>)
    ensures
        words_written(a + b) == words_written(a) + words_written(b),
    decreases b.len(),
{
    if b.len() == 0 {
        assert(a + b =~= a);
    } else {
        law_words_follow_the_calls(a, b.drop_last());
        assert((a + b).drop_last() =~= a + b.drop_last());
    }
}

/// Calls that write nothing write no words.
pub(crate) proof fn lemma_no_words(calls: Seq<BioCall>)
    requires
        forall|i: int| 0 <= i < calls.len() ==> !(#[trigger] calls[i] is WriteTx),
    ensures
        words_written(calls) == Seq::<u32>::empty(),
    decreases calls.len(),
{
    if calls.len() > 0 {
        lemma_no_words(calls.drop_last());
        assert(!(calls[calls.len() - 1] is WriteTx));
    }
}

/// Calls that do nothing but write `words` write them.
pub(crate) proof fn lemma_words_of_writes(calls: Seq<BioCall>, words: Seq<u32>)
    requires
        calls.len() == words.len(),
        forall|i: int|
            0 <= i < calls.len() ==> #[trigger] calls[i] == (BioCall::WriteTx { word: words[i] }),
    ensures
        words_written(calls) == words,
    decreases calls.len(),
{
    if calls.len() > 0 {
        lemma_words_of_writes(calls.drop_last(), words.drop_last());
        assert(calls.last() == calls[calls.len() - 1]);
    }
}

/// The calls of a script.
pub open spec fn calls_of(steps: Seq<ScriptStep>) -> Seq<BioCall> {
    steps.map_values(|s: ScriptStep| s.call)
}

/// What becomes of a swap when its calls are answered by `replies`.
pub open spec fn switch_after(v: SwitchView, replies: Seq<BioReply>) -> SwitchOutcome
    decreases replies.len(),
{
    if replies.len() == 0 {
        SwitchOutcome::Call(v)
    } else {
        match v.next(replies[0]) {
            SwitchOutcome::Call(w) => switch_after(w, replies.drop_first()),
            over => over,
        }
    }
}

/// What becomes of a startup when its calls are answered by `replies`.
pub open spec fn startup_after(v: StartupView, replies: Seq<BioReply>) -> StartupOutcome
    decreases replies.len(),
{
    if replies.len() == 0 {
        StartupOutcome::Call(v)
    } else {
        match v.next(replies[0]) {
            StartupOutcome::Call(w) => startup_after(w, replies.drop_first()),
            over => over,
        }
    }
}

/// A swap ends as the run of its script does.
proof fn lemma_switch_follows_its_script(v: SwitchView, replies: Seq<BioReply>)
    requires
        v.script.running(),
    ensures
        match run(v.script, replies).end {
            RunEnd::Pending => switch_after(v, replies) is Call,
            RunEnd::Finished => switch_after(v, replies) == SwitchOutcome::Done(
                v.driver.with_pattern(v.target),
                Ok(()),
            ),
            RunEnd::Failed(e) => switch_after(v, replies) == SwitchOutcome::Done(v.driver, Err(e)),
            RunEnd::Panicked => switch_after(v, replies) == SwitchOutcome::Panicked,
        },
    decreases replies.len(),
{
    if replies.len() > 0 && v.next(replies[0]) is Call {
        lemma_switch_follows_its_script(
            SwitchView { script: v.script.advanced(), ..v },
            replies.drop_first(),
        );
    }
}

/// Whatever the co-processor answers, a swap that is refused leaves the driver
/// exactly as it was, and one that succeeds changes the pattern and nothing
/// else.
pub proof fn law_switch_changes_the_pattern_or_nothing(
    d: DriverView,
    target: PatternKind,
    replies: Seq<BioReply>,
)
    ensures
        match switch_after(SwitchView::start(d, target), replies) {
            SwitchOutcome::Call(v) => v.driver == d && v.target == target,
            SwitchOutcome::Done(after, Ok(_)) => after == d.with_pattern(target),
            SwitchOutcome::Done(after, Err(_)) => after == d,
            SwitchOutcome::Panicked => true,
        },
{
    lemma_switch_keeps_its_driver(SwitchView::start(d, target), replies);
}

proof fn lemma_switch_keeps_its_driver(v: SwitchView, replies: Seq<BioReply>)
    ensures
        match switch_after(v, replies) {
            SwitchOutcome::Call(w) => w.driver == v.driver && w.target == v.target,
            SwitchOutcome::Done(after, Ok(_)) => after == v.driver.with_pattern(v.target),
            SwitchOutcome::Done(after, Err(_)) => after == v.driver,
            SwitchOutcome::Panicked => true,
        },
    decreases replies.len(),
{
    if replies.len() > 0 {
        match v.next(replies[0]) {
            SwitchOutcome::Call(w) => lemma_switch_keeps_its_driver(w, replies.drop_first()),
            _ => {},
        }
    }
}

/// A swap fails exactly when the core cannot be taken down or the new program
/// cannot be loaded, and with the error of the first of the two; it makes no
/// further call then. Any other failure is passed over.
pub proof fn law_switch_fails_only_on_take_down_or_load(
    d: DriverView,
    target: PatternKind,
    replies: Seq<BioReply>,
)
    requires
        replies.len() == switch_steps(d, target).len(),
        forall|i: int| 0 <= i < replies.len() ==> !(#[trigger] replies[i] is Missing),
    ensures
        ({
            let s = ScriptView::start(switch_steps(d, target));
            let end = switch_after(SwitchView::start(d, target), replies);
            match (error_in(replies[1]), error_in(replies[2])) {
                (Some(e), _) => {
                    &&& end == SwitchOutcome::Done(d, Err(e))
                    &&& run(s, replies).calls == calls_until(s, 2)
                },
                (None, Some(e)) => {
                    &&& end == SwitchOutcome::Done(d, Err(e))
                    &&& run(s, replies).calls == calls_until(s, 3)
                },
                (None, None) => {
                    &&& end == SwitchOutcome::Done(d.with_pattern(target), Ok(()))
                    &&& run(s, replies).calls == calls_of(switch_steps(d, target))
                },
            }
        }),
{
    let v = SwitchView::start(d, target);
    let s = v.script;
    lemma_switch_follows_its_script(v, replies);
    if error_in(replies[1]) is Some {
        assert(lets_go_on(s, replies, 0));
        law_first_stopping_reply_ends_the_run(s, replies, 1);
    } else if error_in(replies[2]) is Some {
        assert(lets_go_on(s, replies, 0));
        assert(lets_go_on(s, replies, 1));
        law_first_stopping_reply_ends_the_run(s, replies, 2);
    } else {
        assert forall|i: int| 0 <= i < replies.len() implies #[trigger] lets_go_on(
            s,
            replies,
            i,
        ) by {
            assert(!(replies[i] is Missing));
        }
        law_undisturbed_run_makes_every_call(s, replies);
        assert(calls_until(s, s.steps.len() as int) =~= calls_of(switch_steps(d, target)));
    }
}

/// A swap stops the old program before it touches the core, and starts the
/// new one only when it has been loaded and the pin routed to it; the words
/// that it writes are the handshake, with the pin, the number of LEDs and the
/// brightness that the driver had before.
pub proof fn law_switch_repeats_the_handshake(d: DriverView, target: PatternKind)
    ensures
        ({
            let calls = calls_of(switch_steps(d, target));
            &&& calls[0] == (BioCall::SetCoreRunState { grant_id: d.grant_id, run: false })
            &&& calls[2] == load_call(d, target)
            &&& calls[4] == (BioCall::SetCoreRunState { grant_id: d.grant_id, run: true })
            &&& words_written(calls) == handshake_words(d)
            &&& words_written(calls.take(5)) == Seq::<u32>::empty()
        }),
{
    let calls = calls_of(switch_steps(d, target));
    let (setup, handshake) = (calls.take(5), calls.skip(5));
    lemma_no_words(setup);
    lemma_words_of_writes(handshake, handshake_words(d));
    law_words_follow_the_calls(setup, handshake);
    assert(calls =~= setup + handshake);
}

/// Going to the next pattern and then back, with both swaps done, ends in the
/// driver that it began with.
pub proof fn law_next_then_prev_restores_the_driver(
    d: DriverView,
    there: Seq<BioReply>,
    back: Seq<BioReply>,
    between: DriverView,
    after: DriverView,
)
    requires
        switch_after(SwitchView::start(d, next_of(d.pattern)), there) == SwitchOutcome::Done(
            between,
            Ok(()),
        ),
        switch_after(SwitchView::start(between, prev_of(between.pattern)), back)
            == SwitchOutcome::Done(after, Ok(())),
    ensures
        between.pattern == next_of(d.pattern),
        after == d,
{
    law_next_and_prev_are_inverse(d.pattern);
    law_switch_changes_the_pattern_or_nothing(d, next_of(d.pattern), there);
    law_switch_changes_the_pattern_or_nothing(between, prev_of(between.pattern), back);
}

/// Going to the previous pattern and then forward, with both swaps done, ends
/// in the driver that it began with.
pub proof fn law_prev_then_next_restores_the_driver(
    d: DriverView,
    there: Seq<BioReply>,
    back: Seq<BioReply>,
    between: DriverView,
    after: DriverView,
)
    requires
        switch_after(SwitchView::start(d, prev_of(d.pattern)), there) == SwitchOutcome::Done(
            between,
            Ok(()),
        ),
        switch_after(SwitchView::start(between, next_of(between.pattern)), back)
            == SwitchOutcome::Done(after, Ok(())),
    ensures
        between.pattern == prev_of(d.pattern),
        after == d,
{
    law_next_and_prev_are_inverse(d.pattern);
    law_switch_changes_the_pattern_or_nothing(d, prev_of(d.pattern), there);
    law_switch_changes_the_pattern_or_nothing(between, next_of(between.pattern), back);
}

/// Asking for the pattern that is loaded makes no call and changes nothing;
/// the neighbours of a pattern are never that pattern, so the two buttons
/// always lead to a swap.
pub proof fn law_only_a_new_pattern_is_loaded(d: DriverView, pattern: PatternKind)
    ensures
        set_pattern_outcome(d, d.pattern) == SwitchOutcome::Done(d, Ok(())),
        pattern != d.pattern ==> set_pattern_outcome(d, pattern) == SwitchOutcome::Call(
            SwitchView::start(d, pattern),
        ),
        set_pattern_outcome(d, next_of(d.pattern)) is Call,
        set_pattern_outcome(d, prev_of(d.pattern)) is Call,
{
    law_neighbours_differ(d.pattern);
}

/// A startup that holds its grant ends as the run of its script does.
proof fn lemma_startup_follows_its_script(
    v: StartupView,
    grant_id: u32,
    cores: Seq<BioCore>,
    replies: Seq<BioReply>,
)
    requires
        v.script.running(),
        v.granted == Some((grant_id, cores)),
    ensures
        match run(v.script, replies).end {
            RunEnd::Pending => startup_after(v, replies) is Call,
            RunEnd::Finished => startup_after(v, replies) == StartupOutcome::Ready(
                requested_driver(v.request, grant_id, cores),
            ),
            RunEnd::Failed(e) => startup_after(v, replies) == StartupOutcome::Failed(e),
            RunEnd::Panicked => startup_after(v, replies) == StartupOutcome::Panicked,
        },
    decreases replies.len(),
{
    if replies.len() > 0 && v.next(replies[0]) is Call {
        lemma_startup_follows_its_script(
            StartupView { script: v.script.advanced(), ..v },
            grant_id,
            cores,
            replies.drop_first(),
        );
    }
}

/// Whatever the co-processor answers, a driver that comes up is the one that
/// was asked for, on the cores that were granted, and there is one.
pub proof fn law_startup_yields_the_requested_driver(
    request: StartupRequest,
    replies: Seq<BioReply>,
)
    ensures
        match startup_after(StartupView::start(request), replies) {
            StartupOutcome::Ready(d) => match replies[0] {
                BioReply::Granted(grant) => {
                    &&& d == requested_driver(request, grant.grant_id, grant.cores@)
                    &&& d.cores.len() > 0
                    &&& request.pin < 32 ==> d.wf()
                },
                _ => false,
            },
            _ => true,
        },
{
    let v = StartupView::start(request);
    if replies.len() > 0 {
        match (replies[0], v.next(replies[0])) {
            (BioReply::Granted(grant), StartupOutcome::Call(w)) => {
                lemma_startup_follows_its_script(
                    w,
                    grant.grant_id,
                    grant.cores@,
                    replies.drop_first(),
                );
            },
            _ => {},
        }
    }
}

/// A claim that is not granted is the end of a startup: its error comes back,
/// and no core is touched.
pub proof fn law_refused_claim_ends_the_startup(request: StartupRequest, replies: Seq<BioReply>)
    requires
        replies.len() > 0,
        error_in(replies[0]) is Some,
    ensures
        startup_after(StartupView::start(request), replies) == StartupOutcome::Failed(
            error_in(replies[0])->0,
        ),
{
}

/// With a grant that holds a core, a startup comes up exactly if no reply
/// stops the bring-up, and then every call of it has been made in order.
/// Otherwise the first reply that stops it decides, and no call follows.
pub proof fn law_startup_ends_as_its_bring_up(
    request: StartupRequest,
    grant_id: u32,
    cores: Seq<BioCore>,
    replies: Seq<BioReply>,
    k: int,
)
    requires
        cores.len() > 0,
        replies.len() == bring_up_steps(
            requested_driver(request, grant_id, cores),
            request.io_mode,
        ).len(),
        0 <= k <= replies.len(),
        ({
            let s = StartupView::granted(request, grant_id, cores).script;
            &&& forall|i: int| 0 <= i < k ==> #[trigger] lets_go_on(s, replies, i)
            &&& k < replies.len() ==> !lets_go_on(s, replies, k)
        }),
    ensures
        ({
            let d = requested_driver(request, grant_id, cores);
            let v = StartupView::granted(request, grant_id, cores);
            let end = startup_after(v, replies);
            if k == replies.len() {
                &&& end == StartupOutcome::Ready(d)
                &&& run(v.script, replies).calls == calls_of(bring_up_steps(d, request.io_mode))
            } else {
                &&& run(v.script, replies).calls == calls_until(v.script, k + 1)
                &&& match verdict_of(v.script.steps[k].on_error, replies[k]) {
                    Verdict::Return(e) => end == StartupOutcome::Failed(e),
                    Verdict::Panic => end == StartupOutcome::Panicked,
                    Verdict::Proceed => false,
                }
            }
        }),
{
    let d = requested_driver(request, grant_id, cores);
    let v = StartupView::granted(request, grant_id, cores);
    let s = v.script;
    lemma_startup_follows_its_script(v, grant_id, cores, replies);
    if k == replies.len() {
        law_undisturbed_run_makes_every_call(s, replies);
        assert(calls_until(s, s.steps.len() as int) =~= calls_of(
            bring_up_steps(d, request.io_mode),
        ));
    } else {
        law_first_stopping_reply_ends_the_run(s, replies, k);
    }
}

/// A bring-up loads the program first of all, and the words that it writes
/// are the handshake, after everything else has been set up.
pub proof fn law_bring_up_ends_with_the_handshake(
    d: DriverView,
    io_mode: IoConfigMode,
)
    ensures
        ({
            let calls = calls_of(bring_up_steps(d, io_mode));
            &&& calls[0] == load_call(d, d.pattern)
            &&& words_written(calls) == handshake_words(d)
            &&& words_written(calls.take(7)) == Seq::<u32>::empty()
        }),
{
    let calls = calls_of(bring_up_steps(d, io_mode));
    let (setup, handshake) = (calls.take(7), calls.skip(7));
    lemma_no_words(setup);
    lemma_words_of_writes(handshake, handshake_words(d));
    law_words_follow_the_calls(setup, handshake);
    assert(calls =~= setup + handshake);
}

/// What has been claimed and not been given back: how many grants, and which
/// pins in which names.
#[verifier::ext_equal]
pub struct Held {
    pub grants: int,
    pub pins: Multiset<(u8, Seq<char>)>,
}

/// Nothing is held.
pub open spec fn nothing_held() -> Held {
    Held { grants: 0, pins: Multiset::empty() }
}

/// What is held after `calls` have been made.
pub open spec fn held_after(before: Held, calls: Seq<BioCall>) -> Held
    decreases calls.len(),
{
    if calls.len() == 0 {
        before
    } else {
        let held = held_after(before, calls.drop_last());
        match calls.last() {
            BioCall::ClaimResources { .. } => Held { grants: held.grants + 1, ..held },
            BioCall::ReleaseResources { .. } => Held { grants: held.grants - 1, ..held },
            BioCall::ClaimDynamicPin { pin, claimer } => Held {
                pins: held.pins.insert((pin, claimer@)),
                ..held
            },
            BioCall::ReleaseDynamicPin { pin, claimer } => Held {
                pins: held.pins.remove((pin, claimer@)),
                ..held
            },
            _ => held,
        }
    }
}

/// The call claims nothing and gives nothing back.
pub open spec fn keeps_what_is_held(call: BioCall) -> bool {
    !(call is ClaimResources || call is ReleaseResources || call is ClaimDynamicPin
        || call is ReleaseDynamicPin)
}

proof fn lemma_held_follows_the_calls(before: Held, a: Seq<BioCall>, b: Seq<BioCall>)
    ensures
        held_after(before, a + b) == held_after(held_after(before, a), b),
    decreases b.len(),
{
    if b.len() == 0 {
        assert(a + b =~= a);
    } else {
        lemma_held_follows_the_calls(before, a, b.drop_last());
        assert((a + b).drop_last() =~= a + b.drop_last());
    }
}

proof fn lemma_held_is_kept(before: Held, calls: Seq<BioCall>)
    requires
        forall|i: int| 0 <= i < calls.len() ==> keeps_what_is_held(#[trigger] calls[i]),
    ensures
        held_after(before, calls) == before,
    decreases calls.len(),
{
    if calls.len() > 0 {
        lemma_held_is_kept(before, calls.drop_last());
        assert(keeps_what_is_held(calls[calls.len() - 1]));
    }
}

proof fn lemma_held_after_one(before: Held, call: BioCall)
    ensures
        held_after(before, seq![call]) == match call {
            BioCall::ClaimResources { .. } => Held { grants: before.grants + 1, ..before },
            BioCall::ReleaseResources { .. } => Held { grants: before.grants - 1, ..before },
            BioCall::ClaimDynamicPin { pin, claimer } => Held {
                pins: before.pins.insert((pin, claimer@)),
                ..before
            },
            BioCall::ReleaseDynamicPin { pin, claimer } => Held {
                pins: before.pins.remove((pin, claimer@)),
                ..before
            },
            _ => before,
        },
{
    reveal_with_fuel(held_after, 2);
    assert(seq![call].drop_last() =~= Seq::<BioCall>::empty());
}

/// A swap claims nothing and gives nothing back.
pub proof fn law_switch_keeps_what_is_held(d: DriverView, target: PatternKind, before: Held)
    ensures
        held_after(before, calls_of(switch_steps(d, target))) == before,
{
    lemma_held_is_kept(before, calls_of(switch_steps(d, target)));
}

/// A startup ends up with one grant and its pin, in the driver's name.
pub proof fn law_startup_holds_a_grant_and_its_pin(d: DriverView, io_mode: IoConfigMode)
    ensures
        held_after(
            nothing_held(),
            calls_of(claim_steps()) + calls_of(bring_up_steps(d, io_mode)),
        ) == (Held { grants: 1, pins: Multiset::singleton((d.pin, "LedDriver"@)) }),
{
    let claim = calls_of(claim_steps());
    let steps = calls_of(bring_up_steps(d, io_mode));
    let (load, pin, rest) = (steps.take(2), steps[2], steps.skip(3));
    let granted = Held { grants: 1, pins: Multiset::<(u8, Seq<char>)>::empty() };
    let held = Held { grants: 1, pins: granted.pins.insert((d.pin, "LedDriver"@)) };
    assert(claim =~= seq![claim[0]]);
    lemma_held_after_one(nothing_held(), claim[0]);
    lemma_held_follows_the_calls(nothing_held(), claim, steps);
    assert(steps =~= load + seq![pin] + rest);
    lemma_held_follows_the_calls(granted, load + seq![pin], rest);
    lemma_held_follows_the_calls(granted, load, seq![pin]);
    lemma_held_is_kept(granted, load);
    lemma_held_after_one(granted, pin);
    lemma_held_is_kept(held, rest);
    assert(held.pins =~= Multiset::singleton((d.pin, "LedDriver"@)));
}

/// Claims and releases balance: a driver that has come up, has made any calls
/// that claim nothing and give nothing back, and is released holds nothing.
pub proof fn law_released_driver_holds_nothing(
    d: DriverView,
    io_mode: IoConfigMode,
    between: Seq<BioCall>,
)
    requires
        forall|i: int| 0 <= i < between.len() ==> keeps_what_is_held(#[trigger] between[i]),
    ensures
        held_after(
            nothing_held(),
            calls_of(claim_steps()) + calls_of(bring_up_steps(d, io_mode)) + between + calls_of(
                release_steps(d),
            ),
        ) == nothing_held(),
{
    let up = calls_of(claim_steps()) + calls_of(bring_up_steps(d, io_mode));
    let down = calls_of(release_steps(d));
    let n = d.cores.len() as int;
    let (unload, pin, grant) = (down.take(n), down[n], down[n + 1]);
    let held = Held { grants: 1, pins: Multiset::singleton((d.pin, "LedDriver"@)) };
    let unpinned = Held { pins: held.pins.remove((d.pin, "LedDriver"@)), ..held };
    law_startup_holds_a_grant_and_its_pin(d, io_mode);
    lemma_held_follows_the_calls(nothing_held(), up, between);
    lemma_held_is_kept(held, between);
    lemma_held_follows_the_calls(nothing_held(), up + between, down);
    assert(down =~= unload + seq![pin] + seq![grant]);
    lemma_held_follows_the_calls(held, unload + seq![pin], seq![grant]);
    lemma_held_follows_the_calls(held, unload, seq![pin]);
    lemma_held_is_kept(held, unload);
    lemma_held_after_one(held, pin);
    lemma_held_after_one(unpinned, grant);
    assert(unpinned.pins =~= Multiset::empty());
}

/// The program that is loaded after `call` was answered by `reply`, when
/// `before` was loaded at first: a load counts if its reply is no failure.
pub open spec fn loaded_after(call: BioCall, reply: BioReply, before: PatternKind) -> PatternKind {
    match call {
        BioCall::InitCore { program, .. } => if error_in(reply) is None && !(reply is Missing) {
            program
        } else {
            before
        },
        _ => before,
    }
}

/// The program that was loaded last, when `calls` were answered by `replies`
/// and `before` was loaded at first.
pub open spec fn last_loaded(
    calls: Seq<BioCall>,
    replies: Seq<BioReply>,
    before: PatternKind,
) -> PatternKind
    decreases calls.len(),
{
    if calls.len() == 0 || replies.len() == 0 {
        before
    } else {
        last_loaded(
            calls.drop_first(),
            replies.drop_first(),
            loaded_after(calls[0], replies[0], before),
        )
    }
}

/// A run that has no load ahead of it leaves what is loaded.
proof fn lemma_nothing_is_loaded(s: ScriptView, replies: Seq<BioReply>, before: PatternKind)
    requires
        s.running(),
        forall|i: int| s.made <= i < s.steps.len() ==> !(#[trigger] s.steps[i].call is InitCore),
    ensures
        last_loaded(run(s, replies).calls, replies, before) == before,
    decreases replies.len(),
{
    if replies.len() > 0 {
        let rest = replies.drop_first();
        assert(!(s.steps[s.made].call is InitCore));
        if s.progress(replies[0]) is Call {
            lemma_nothing_is_loaded(s.advanced(), rest, before);
        }
        lemma_run_goes_on(s, replies, before);
    }
}

/// What is loaded after a run, from its first call on.
proof fn lemma_run_goes_on(s: ScriptView, replies: Seq<BioReply>, before: PatternKind)
    requires
        s.running(),
        replies.len() > 0,
    ensures
        ({
            let loaded = loaded_after(s.pending().call, replies[0], before);
            let rest = replies.drop_first();
            last_loaded(run(s, replies).calls, replies, before) == if s.progress(
                replies[0],
            ) is Call {
                last_loaded(run(s.advanced(), rest).calls, rest, loaded)
            } else {
                loaded
            }
        }),
{
    reveal_with_fuel(last_loaded, 2);
    let calls = run(s, replies).calls;
    assert(calls[0] == s.pending().call);
    if s.progress(replies[0]) is Call {
        assert(calls.drop_first() =~= run(s.advanced(), replies.drop_first()).calls);
    } else {
        assert(calls.drop_first() =~= Seq::<BioCall>::empty());
    }
}

/// The steps ahead cannot end a swap with an error.
proof fn lemma_swap_is_past_failing(v: SwitchView, replies: Seq<BioReply>)
    requires
        v.script.running(),
        forall|i: int|
            v.script.made <= i < v.script.steps.len() ==> #[trigger] v.script.steps[i].on_error
                == OnError::Ignore,
    ensures
        !(switch_after(v, replies) matches SwitchOutcome::Done(_, Err(_))),
    decreases replies.len(),
{
    if replies.len() > 0 {
        assert(v.script.steps[v.script.made].on_error == OnError::Ignore);
        match v.next(replies[0]) {
            SwitchOutcome::Call(w) => lemma_swap_is_past_failing(w, replies.drop_first()),
            _ => {},
        }
    }
}

/// After a swap, whether it succeeded or not, the driver reports the pattern
/// that was loaded last.
pub proof fn law_driver_reports_what_was_loaded_last(
    d: DriverView,
    target: PatternKind,
    replies: Seq<BioReply>,
)
    ensures
        match switch_after(SwitchView::start(d, target), replies) {
            SwitchOutcome::Done(after, _) => after.pattern == last_loaded(
                run(ScriptView::start(switch_steps(d, target)), replies).calls,
                replies,
                d.pattern,
            ),
            _ => true,
        },
{
    reveal_with_fuel(switch_after, 4);
    let v0 = SwitchView::start(d, target);
    let (s0, r0) = (v0.script, replies);
    if r0.len() > 0 && s0.progress(r0[0]) is Call {
        let v1 = SwitchView { script: s0.advanced(), ..v0 };
        let (s1, r1) = (v1.script, r0.drop_first());
        lemma_run_goes_on(s0, r0, d.pattern);
        if r1.len() > 0 {
            lemma_run_goes_on(s1, r1, d.pattern);
            if s1.progress(r1[0]) is Call {
                let v2 = SwitchView { script: s1.advanced(), ..v0 };
                let (s2, r2) = (v2.script, r1.drop_first());
                if r2.len() > 0 {
                    lemma_run_goes_on(s2, r2, d.pattern);
                    if s2.progress(r2[0]) is Call {
                        let v3 = SwitchView { script: s2.advanced(), ..v0 };
                        let (s3, r3) = (v3.script, r2.drop_first());
                        lemma_nothing_is_loaded(s3, r3, target);
                        lemma_swap_is_past_failing(v3, r3);
                        lemma_switch_keeps_its_driver(v3, r3);
                    }
                }
            }
        }
    }
}

/// A driver that comes up reports the pattern that was loaded last.
pub proof fn law_startup_reports_what_was_loaded(
    request: StartupRequest,
    grant_id: u32,
    cores: Seq<BioCore>,
    replies: Seq<BioReply>,
    before: PatternKind,
)
    requires
        cores.len() > 0,
    ensures
        ({
            let v = StartupView::granted(request, grant_id, cores);
            match startup_after(v, replies) {
                StartupOutcome::Ready(d) => d.pattern == last_loaded(
                    run(v.script, replies).calls,
                    replies,
                    before,
                ),
                _ => true,
            }
        }),
{
    let v = StartupView::granted(request, grant_id, cores);
    lemma_startup_follows_its_script(v, grant_id, cores, replies);
    if replies.len() > 0 {
        lemma_run_goes_on(v.script, replies, before);
        if v.script.progress(replies[0]) is Call {
            lemma_nothing_is_loaded(v.script.advanced(), replies.drop_first(), request.pattern);
        }
    }
}

/// A driver that is released unloads each of its cores once and gives back
/// the pin and the grant that its startup claimed, the pin in the name that it
/// was claimed in, the grant last.
pub proof fn law_release_gives_back_what_startup_claimed(
    request: StartupRequest,
    grant_id: u32,
    cores: Seq<BioCore>,
)
    ensures
        ({
            let d = requested_driver(request, grant_id, cores);
            let claimed = calls_of(bring_up_steps(d, request.io_mode));
            let released = calls_of(release_steps(d));
            let claimer = led_resources().claimer;
            &&& claimed.contains(BioCall::ClaimDynamicPin { pin: d.pin, claimer })
            &&& released.len() == cores.len() + 2
            &&& forall|i: int|
                0 <= i < cores.len() ==> #[trigger] released[i] == (BioCall::DeInitCore {
                    core: cores[i],
                })
            &&& released[cores.len() as int] == (BioCall::ReleaseDynamicPin {
                pin: d.pin,
                claimer,
            })
            &&& released.last() == (BioCall::ReleaseResources { grant_id })
        }),
{
    let d = requested_driver(request, grant_id, cores);
    let claimed = calls_of(bring_up_steps(d, request.io_mode));
    let claimer = led_resources().claimer;
    assert(claimed[2] == (BioCall::ClaimDynamicPin { pin: d.pin, claimer }));
}

/// A program can tell a brightness update from every word of a handshake and
/// from a control word, and reads the level from its low byte.
pub proof fn law_brightness_words_are_told_apart(level: u8, d: DriverView, i: int)
    requires
        0 <= i < handshake_words(d).len(),
    ensures
        brightness_word(level) & 0x4000_0000u32 != 0,
        brightness_word(level) & 0x8000_0000u32 == 0,
        brightness_word(level) & 0xFFu32 == level,
        handshake_words(d)[i] & 0xC000_0000u32 == 0,
{
    let bits = level as u32;
    assert((0x4000_0000u32 + bits) as u32 & 0x4000_0000u32 != 0 && (0x4000_0000u32 + bits) as u32
        & 0x8000_0000u32 == 0 && (0x4000_0000u32 + bits) as u32 & 0xFFu32 == bits) by (bit_vector)
        requires
            bits <= 0xFFu32,
    ;
    let plain = handshake_words(d)[i];
    assert(plain <= 0xFF);
    assert(plain & 0xC000_0000u32 == 0) by (bit_vector)
        requires
            plain <= 0xFFu32,
    ;
}

} // verus!
