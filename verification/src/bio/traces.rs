//! What the co-processor sees of the driver: the calls that a startup, a swap
//! and a release make, whatever it answers.

use super::driver::{
    release_steps, set_pattern_outcome, DriverView, StartupOutcome, StartupProgress,
    StartupRequest, StartupView, SwitchOutcome, SwitchProgress, SwitchView,
};
use super::hal::{
    law_pin_mask_is_one_bit, BioCall, BioCore, BioReply, CoreRequirement, Fifo, IoConfig,
    IoConfigMode,
};
use super::laws::{error_in, startup_after, switch_after, words_written};
use super::pattern::PatternKind;
use super::script::{
    law_first_stopping_reply_ends_the_run, lets_go_on, run, RunEnd, ScriptView,
};
use vstd::prelude::*;

verus! {

/// The calls that a swap makes when they are answered by `replies`.
pub open spec fn switch_calls(v: SwitchView, replies: Seq<BioReply>) -> Seq<BioCall>
    decreases replies.len(),
{
    if replies.len() == 0 {
        Seq::empty()
    } else {
        seq![v.script.pending().call] + match v.next(replies[0]) {
            SwitchOutcome::Call(w) => switch_calls(w, replies.drop_first()),
            _ => Seq::empty(),
        }
    }
}

/// The calls that a startup makes when they are answered by `replies`.
pub open spec fn startup_calls(v: StartupView, replies: Seq<BioReply>) -> Seq<BioCall>
    decreases replies.len(),
{
    if replies.len() == 0 {
        Seq::empty()
    } else {
        seq![v.script.pending().call] + match v.next(replies[0]) {
            StartupOutcome::Call(w) => startup_calls(w, replies.drop_first()),
            _ => Seq::empty(),
        }
    }
}

/// The routing maps `pin` and nothing else, and inverts, bypasses and aligns
/// nothing.
pub open spec fn routes_only(io: IoConfig, pin: u8, mode: IoConfigMode) -> bool {
    &&& io.mode == mode
    &&& forall|b: u32| b < 32 ==> (#[trigger] (io.mapped & (1u32 << b)) != 0 <==> b == pin)
    &&& io.sync_bypass == 0 && io.oe_inv == 0 && io.o_inv == 0 && io.i_inv == 0
    &&& io.snap_inputs is None && io.snap_outputs is None
}

proof fn lemma_swap_makes_its_calls(v: SwitchView, replies: Seq<BioReply>)
    requires
        v.script.running(),
    ensures
        ({
            let calls = switch_calls(v, replies);
            let ahead = v.script.steps.len() - v.script.made;
            &&& calls.len() <= ahead
            &&& forall|i: int|
                0 <= i < calls.len() ==> #[trigger] calls[i] == v.script.steps[v.script.made
                    + i].call
            &&& switch_after(v, replies) matches SwitchOutcome::Done(_, Ok(_)) ==> calls.len()
                == ahead
            &&& switch_after(v, replies) is Call ==> calls.len() == replies.len()
        }),
    decreases replies.len(),
{
    if replies.len() > 0 && v.next(replies[0]) is Call {
        let w = SwitchView { script: v.script.advanced(), ..v };
        let rest = replies.drop_first();
        lemma_swap_makes_its_calls(w, rest);
        let calls = switch_calls(v, replies);
        let later = switch_calls(w, rest);
        assert forall|i: int| 0 <= i < calls.len() implies #[trigger] calls[i]
            == v.script.steps[v.script.made + i].call by {
            if i > 0 {
                assert(calls[i] == later[i - 1]);
            }
        }
    }
}

proof fn lemma_bring_up_makes_its_calls(
    v: StartupView,
    grant_id: u32,
    cores: Seq<BioCore>,
    replies: Seq<BioReply>,
)
    requires
        v.script.running(),
        v.granted == Some((grant_id, cores)),
    ensures
        ({
            let calls = startup_calls(v, replies);
            let ahead = v.script.steps.len() - v.script.made;
            &&& calls.len() <= ahead
            &&& forall|i: int|
                0 <= i < calls.len() ==> #[trigger] calls[i] == v.script.steps[v.script.made
                    + i].call
            &&& startup_after(v, replies) is Ready ==> calls.len() == ahead
        }),
    decreases replies.len(),
{
    if replies.len() > 0 && v.next(replies[0]) is Call {
        let w = StartupView { script: v.script.advanced(), ..v };
        let rest = replies.drop_first();
        lemma_bring_up_makes_its_calls(w, grant_id, cores, rest);
        let calls = startup_calls(v, replies);
        let later = startup_calls(w, rest);
        assert forall|i: int| 0 <= i < calls.len() implies #[trigger] calls[i]
            == v.script.steps[v.script.made + i].call by {
            if i > 0 {
                assert(calls[i] == later[i - 1]);
            }
        }
    }
}

proof fn lemma_one_pin_is_routed(pin: u8)
    requires
        pin < 32,
    ensures
        forall|b: u32|
            b < 32 ==> (#[trigger] ((1u32 << (pin as u32)) & (1u32 << b)) != 0 <==> b == pin),
{
    assert forall|b: u32| b < 32 implies (#[trigger] ((1u32 << (pin as u32)) & (1u32 << b)) != 0
        <==> b == pin) by {
        law_pin_mask_is_one_bit(pin, b as u8);
    }
}

/// Whatever is answered, a swap stops the driver's core, unloads it, loads the
/// new program onto that same core at the driver's quantum, routes the
/// driver's pin, starts the core and tells the program the driver's pin, its
/// number of LEDs and its brightness, in this order; it stops earlier only
/// if it fails.
pub proof fn law_swap_reloads_the_core_of_the_driver(
    d: DriverView,
    target: PatternKind,
    replies: Seq<BioReply>,
)
    requires
        d.pin < 32,
    ensures
        ({
            let v = SwitchView::start(d, target);
            let calls = switch_calls(v, replies);
            &&& calls.len() <= 8
            &&& switch_after(v, replies) matches SwitchOutcome::Done(_, Ok(_)) ==> calls.len() == 8
            &&& calls.len() > 0 ==> calls[0] == (BioCall::SetCoreRunState {
                grant_id: d.grant_id,
                run: false,
            })
            &&& calls.len() > 1 ==> calls[1] == (BioCall::DeInitCore { core: d.cores[0] })
            &&& calls.len() > 2 ==> calls[2] == (BioCall::InitCore {
                core: d.cores[0],
                program: target,
                quantum_hz: d.quantum_hz,
            })
            &&& calls.len() > 3 ==> match calls[3] {
                BioCall::SetupIoConfig { io } => routes_only(io, d.pin, IoConfigMode::Overwrite),
                _ => false,
            }
            &&& calls.len() > 4 ==> calls[4] == (BioCall::SetCoreRunState {
                grant_id: d.grant_id,
                run: true,
            })
            &&& calls.len() > 5 ==> calls[5] == (BioCall::WriteTx { word: d.pin as u32 })
            &&& calls.len() > 6 ==> calls[6] == (BioCall::WriteTx { word: d.led_count as u32 })
            &&& calls.len() > 7 ==> calls[7] == (BioCall::WriteTx { word: d.brightness as u32 })
        }),
{
    lemma_swap_makes_its_calls(SwitchView::start(d, target), replies);
    lemma_one_pin_is_routed(d.pin);
}

/// A swap that succeeds tells the new program three words: the pin, the number
/// of LEDs and the brightness of the driver, which are those of the driver
/// afterwards too.
pub proof fn law_swap_tells_pin_count_and_brightness(
    d: DriverView,
    target: PatternKind,
    replies: Seq<BioReply>,
    after: DriverView,
)
    requires
        d.pin < 32,
        switch_after(SwitchView::start(d, target), replies) == SwitchOutcome::Done(after, Ok(())),
    ensures
        ({
            let words = words_written(switch_calls(SwitchView::start(d, target), replies));
            &&& words.len() == 3
            &&& words[0] == d.pin == after.pin
            &&& words[1] == d.led_count == after.led_count
            &&& words[2] == d.brightness == after.brightness
        }),
        after.pattern == target,
        after.grant_id == d.grant_id,
        after.cores == d.cores,
        after.quantum_hz == d.quantum_hz,
{
    let calls = switch_calls(SwitchView::start(d, target), replies);
    law_swap_reloads_the_core_of_the_driver(d, target, replies);
    super::laws::law_switch_changes_the_pattern_or_nothing(d, target, replies);
    lemma_last_three_words(calls, 5);
}

/// The words of calls that write three times at the end and not before.
proof fn lemma_last_three_words(calls: Seq<BioCall>, n: int)
    requires
        0 <= n,
        calls.len() == n + 3,
        forall|i: int| 0 <= i < n ==> !(#[trigger] calls[i] is WriteTx),
        calls[n] is WriteTx,
        calls[n + 1] is WriteTx,
        calls[n + 2] is WriteTx,
    ensures
        words_written(calls) == seq![
            calls[n]->word,
            calls[n + 1]->word,
            calls[n + 2]->word,
        ],
{
    let setup = calls.take(n);
    let rest = calls.skip(n);
    super::laws::lemma_no_words(setup);
    super::laws::lemma_words_of_writes(
        rest,
        seq![calls[n]->word, calls[n + 1]->word, calls[n + 2]->word],
    );
    super::laws::law_words_follow_the_calls(setup, rest);
    assert(calls =~= setup + rest);
}

/// A swap that is refused leaves every field of the driver, and one that
/// succeeds changes the pattern only.
pub proof fn law_swap_touches_the_pattern_only(
    d: DriverView,
    target: PatternKind,
    replies: Seq<BioReply>,
)
    ensures
        match switch_after(SwitchView::start(d, target), replies) {
            SwitchOutcome::Done(after, result) => {
                &&& after.pattern == if result is Ok {
                    target
                } else {
                    d.pattern
                }
                &&& after.pin == d.pin
                &&& after.led_count == d.led_count
                &&& after.grant_id == d.grant_id
                &&& after.cores == d.cores
                &&& after.quantum_hz == d.quantum_hz
                &&& after.brightness == d.brightness
            },
            _ => true,
        },
{
    super::laws::law_switch_changes_the_pattern_or_nothing(d, target, replies);
}

/// Asking for a pattern leads to a swap to that very pattern, from the driver
/// as it is, unless it is the one that is loaded.
pub proof fn law_asking_for_a_pattern_swaps_to_it(d: DriverView, pattern: PatternKind)
    ensures
        match set_pattern_outcome(d, pattern) {
            SwitchOutcome::Call(v) => {
                &&& pattern != d.pattern
                &&& v.driver == d
                &&& v.target == pattern
                &&& v.script.made == 0
                &&& v == SwitchView::start(d, pattern)
            },
            SwitchOutcome::Done(after, result) => pattern == d.pattern && after == d
                && result is Ok,
            SwitchOutcome::Panicked => false,
        },
{
}

/// Whatever is answered, a startup claims any one core, FIFO 1 and one pin in
/// the driver's name, loads the pattern asked for onto the first core that it
/// was granted at the nominal quantum, starts the grant, claims the pin in the
/// same name, routes it as asked, takes the two FIFOs, sets the trigger and
/// tells the program the pin, the number of LEDs and the brightness asked for,
/// in this order; it stops earlier only if it fails.
pub proof fn law_startup_brings_the_granted_core_up(
    request: StartupRequest,
    replies: Seq<BioReply>,
)
    requires
        request.pin < 32,
    ensures
        ({
            let v = StartupView::start(request);
            let calls = startup_calls(v, replies);
            let grant = replies[0]->Granted_0;
            &&& calls.len() <= 11
            &&& startup_after(v, replies) is Ready ==> calls.len() == 11
            &&& calls.len() > 0 ==> match calls[0] {
                BioCall::ClaimResources { spec } => {
                    &&& spec.claimer@ == "LedDriver"@
                    &&& spec.cores@ == seq![CoreRequirement::Any]
                    &&& spec.fifos@ == seq![Fifo::Fifo1]
                    &&& spec.static_pins@.len() == 0
                    &&& spec.dynamic_pin_count == 1
                },
                _ => false,
            }
            &&& calls.len() > 1 ==> replies[0] is Granted && grant.cores@.len() > 0 && calls[1] == (
            BioCall::InitCore {
                core: grant.cores@[0],
                program: request.pattern,
                quantum_hz: 6_666_667,
            })
            &&& calls.len() > 2 ==> calls[2] == (BioCall::SetCoreRunState {
                grant_id: grant.grant_id,
                run: true,
            })
            &&& calls.len() > 3 ==> match calls[3] {
                BioCall::ClaimDynamicPin { pin, claimer } => pin == request.pin && claimer@
                    == "LedDriver"@,
                _ => false,
            }
            &&& calls.len() > 4 ==> match calls[4] {
                BioCall::SetupIoConfig { io } => routes_only(io, request.pin, request.io_mode),
                _ => false,
            }
            &&& calls.len() > 5 ==> calls[5] == (BioCall::GetCoreHandle { fifo: Fifo::Fifo1 })
            &&& calls.len() > 6 ==> calls[6] == (BioCall::GetCoreHandle { fifo: Fifo::Fifo2 })
            &&& calls.len() > 7 ==> match calls[7] {
                BioCall::SetupFifoEventTriggers { trigger } => {
                    &&& trigger.which == Fifo::Fifo1
                    &&& trigger.trigger_slot == 0
                    &&& trigger.level == 1
                    &&& trigger.trigger_greater_than && trigger.trigger_equal_to
                    &&& !trigger.trigger_less_than
                },
                _ => false,
            }
            &&& calls.len() > 8 ==> calls[8] == (BioCall::WriteTx { word: request.pin as u32 })
            &&& calls.len() > 9 ==> calls[9] == (BioCall::WriteTx {
                word: request.led_count as u32,
            })
            &&& calls.len() > 10 ==> calls[10] == (BioCall::WriteTx {
                word: request.brightness as u32,
            })
        }),
{
    let v = StartupView::start(request);
    let calls = startup_calls(v, replies);
    lemma_one_pin_is_routed(request.pin);
    if replies.len() > 0 {
        match (replies[0], v.next(replies[0])) {
            (BioReply::Granted(grant), StartupOutcome::Call(w)) => {
                let rest = replies.drop_first();
                lemma_bring_up_makes_its_calls(w, grant.grant_id, grant.cores@, rest);
                let later = startup_calls(w, rest);
                assert(calls.len() == later.len() + 1);
                assert forall|i: int| 0 < i < calls.len() implies #[trigger] calls[i]
                    == w.script.steps[i - 1].call by {
                    assert(calls[i] == later[i - 1]);
                }
            },
            _ => {
                assert(calls.len() == 1);
            },
        }
        let spec = calls[0]->ClaimResources_spec;
        assert(spec.cores@ =~= seq![CoreRequirement::Any]);
        assert(spec.fifos@ =~= seq![Fifo::Fifo1]);
        assert(spec.static_pins@ =~= Seq::<u8>::empty());
    }
}

/// A startup that succeeds tells the program three words, and gives a driver
/// that holds what was asked for and what was granted, field by field.
pub proof fn law_startup_tells_pin_count_and_brightness(
    request: StartupRequest,
    replies: Seq<BioReply>,
    d: DriverView,
)
    requires
        request.pin < 32,
        startup_after(StartupView::start(request), replies) == StartupOutcome::Ready(d),
    ensures
        ({
            let words = words_written(startup_calls(StartupView::start(request), replies));
            &&& words.len() == 3
            &&& words[0] == request.pin == d.pin
            &&& words[1] == request.led_count == d.led_count
            &&& words[2] == request.brightness == d.brightness
        }),
        d.pattern == request.pattern,
        d.quantum_hz == 6_666_667,
        replies[0] is Granted,
        d.grant_id == replies[0]->Granted_0.grant_id,
        d.cores == replies[0]->Granted_0.cores@,
        d.cores.len() > 0,
{
    let calls = startup_calls(StartupView::start(request), replies);
    law_startup_brings_the_granted_core_up(request, replies);
    super::laws::law_startup_yields_the_requested_driver(request, replies);
    lemma_last_three_words(calls, 8);
}

/// Every core that a driver loads or unloads is one of those that it was
/// granted, in a startup, in a swap and in a release, and every run state that
/// it sets is that of its own grant.
pub proof fn law_driver_touches_its_own_cores_only(
    request: StartupRequest,
    replies: Seq<BioReply>,
    d: DriverView,
    target: PatternKind,
    swap: Seq<BioReply>,
    i: int,
)
    requires
        request.pin < 32,
        startup_after(StartupView::start(request), replies) == StartupOutcome::Ready(d),
    ensures
        ({
            let up = startup_calls(StartupView::start(request), replies);
            let swapped = switch_calls(SwitchView::start(d, target), swap);
            let down = release_steps(d);
            &&& 0 <= i < up.len() ==> touches_only(up[i], d.grant_id, d.cores)
            &&& 0 <= i < swapped.len() ==> touches_only(swapped[i], d.grant_id, d.cores)
            &&& 0 <= i < down.len() ==> touches_only(down[i].call, d.grant_id, d.cores)
        }),
{
    law_startup_brings_the_granted_core_up(request, replies);
    law_startup_tells_pin_count_and_brightness(request, replies, d);
    law_swap_reloads_the_core_of_the_driver(d, target, swap);
    assert(d.cores.contains(d.cores[0]));
    if 0 <= i < d.cores.len() {
        assert(d.cores.contains(d.cores[i]));
    }
}

/// The call loads, unloads, starts, stops or gives back nothing outside the
/// grant `grant_id` with its `cores`.
pub open spec fn touches_only(call: BioCall, grant_id: u32, cores: Seq<BioCore>) -> bool {
    match call {
        BioCall::InitCore { core, .. } => cores.contains(core),
        BioCall::DeInitCore { core } => cores.contains(core),
        BioCall::SetCoreRunState { grant_id: of, .. } => of == grant_id,
        BioCall::ReleaseResources { grant_id: of } => of == grant_id,
        _ => true,
    }
}

/// Once the grant is there, a startup comes up exactly if none of six calls
/// fails: the load, the claim of the pin, its routing, the two FIFO handles
/// and the trigger. The first of them to fail decides: the routing and the
/// trigger are a panic, and the failure of any other comes back. Whatever else
/// fails is passed over.
pub proof fn law_startup_fails_on_the_first_of_six_calls(
    request: StartupRequest,
    grant_id: u32,
    cores: Seq<BioCore>,
    replies: Seq<BioReply>,
)
    requires
        cores.len() > 0,
        replies.len() == 10,
        forall|i: int| 0 <= i < replies.len() ==> !(#[trigger] replies[i] is Missing),
    ensures
        ({
            let end = startup_after(StartupView::granted(request, grant_id, cores), replies);
            if error_in(replies[0]) is Some {
                end == StartupOutcome::Failed(error_in(replies[0])->0)
            } else if error_in(replies[2]) is Some {
                end == StartupOutcome::Failed(error_in(replies[2])->0)
            } else if error_in(replies[3]) is Some {
                end == StartupOutcome::Panicked
            } else if error_in(replies[4]) is Some {
                end == StartupOutcome::Failed(error_in(replies[4])->0)
            } else if error_in(replies[5]) is Some {
                end == StartupOutcome::Failed(error_in(replies[5])->0)
            } else if error_in(replies[6]) is Some {
                end == StartupOutcome::Panicked
            } else {
                end is Ready
            }
        }),
{
    let s = StartupView::granted(request, grant_id, cores).script;
    let k: int = if error_in(replies[0]) is Some {
        0
    } else if error_in(replies[2]) is Some {
        2
    } else if error_in(replies[3]) is Some {
        3
    } else if error_in(replies[4]) is Some {
        4
    } else if error_in(replies[5]) is Some {
        5
    } else if error_in(replies[6]) is Some {
        6
    } else {
        10
    };
    assert forall|i: int| 0 <= i < k implies #[trigger] lets_go_on(s, replies, i) by {
        assert(!(replies[i] is Missing));
    }
    super::laws::law_startup_ends_as_its_bring_up(request, grant_id, cores, replies, k);
}

/// A claim is answered by a grant with a core in it, or the startup is over:
/// by the failure if there is one, and by a panic otherwise.
pub proof fn law_startup_needs_a_grant_with_a_core(request: StartupRequest, reply: BioReply)
    ensures
        ({
            let next = StartupView::start(request).next(reply);
            match reply {
                BioReply::Granted(grant) => if grant.cores@.len() == 0 {
                    next == StartupOutcome::Panicked
                } else {
                    &&& next == StartupOutcome::Call(
                        StartupView::granted(request, grant.grant_id, grant.cores@),
                    )
                    &&& StartupView::granted(
                        request,
                        grant.grant_id,
                        grant.cores@,
                    ).script.pending().call == (BioCall::InitCore {
                        core: grant.cores@[0],
                        program: request.pattern,
                        quantum_hz: 6_666_667,
                    })
                },
                BioReply::Failed(e) => next == StartupOutcome::Failed(e),
                BioReply::Refused(_) => next == StartupOutcome::Failed(error_in(reply)->0),
                BioReply::Done => next == StartupOutcome::Panicked,
                BioReply::Missing => next == StartupOutcome::Panicked,
            }
        }),
{
}

/// A FIFO that is not there is a panic, in whichever call of a bring-up or a
/// swap.
pub proof fn law_missing_handle_is_a_panic(v: StartupView, w: SwitchView)
    requires
        v.granted is Some,
    ensures
        v.next(BioReply::Missing) == StartupOutcome::Panicked,
        w.next(BioReply::Missing) == SwitchOutcome::Panicked,
{
}

/// A release that is refused anything panics there and makes no further call.
pub proof fn law_release_panics_on_the_first_failure(
    d: DriverView,
    replies: Seq<BioReply>,
    k: int,
)
    requires
        0 <= k < replies.len(),
        k < d.cores.len() + 2,
        forall|i: int| 0 <= i < k ==> #[trigger] replies[i] is Done,
        error_in(replies[k]) is Some,
    ensures
        ({
            let r = run(ScriptView::start(release_steps(d)), replies);
            &&& r.end == RunEnd::Panicked
            &&& r.calls.len() == k + 1
        }),
{
    let s = ScriptView::start(release_steps(d));
    assert forall|i: int| 0 <= i < k implies #[trigger] lets_go_on(s, replies, i) by {
        assert(replies[i] is Done);
    }
    assert(!lets_go_on(s, replies, k));
    law_first_stopping_reply_ends_the_run(s, replies, k);
}

/// What a startup or a swap has come to is told as it is: the pending machine,
/// the driver with its result, or the error.
pub proof fn law_progress_is_told_as_it_is(p: StartupProgress, q: SwitchProgress)
    ensures
        match p {
            StartupProgress::Call(s) => p@ == StartupOutcome::Call(s@),
            StartupProgress::Ready(d) => p@ == StartupOutcome::Ready(d@),
            StartupProgress::Failed(e) => p@ == StartupOutcome::Failed(e),
            StartupProgress::Panicked => p@ == StartupOutcome::Panicked,
        },
        match q {
            SwitchProgress::Call(s) => q@ == SwitchOutcome::Call(s@),
            SwitchProgress::Done(d, r) => q@ == SwitchOutcome::Done(d@, r),
            SwitchProgress::Panicked => q@ == SwitchOutcome::Panicked,
        },
{
}

} // verus!
