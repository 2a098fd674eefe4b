//! What holds of the badge over every message, over holds, and between the
//! badge and the LED service.

use crate::badge::{
    brighter, brightness_message, dimmer, initial_state, on_key, on_message, pattern_message,
    power_off_actions, rainbow_message, Action, BadgeState, LedAppOp,
};
use crate::bio::driver::{
    DriverView, StartupOutcome, StartupRequest, StartupView, SwitchOutcome, SwitchView,
};
use crate::bio::hal::{BioCall, BioReply, IoConfigMode};
use crate::bio::laws::{
    error_in, last_loaded, law_driver_reports_what_was_loaded_last,
    law_startup_yields_the_requested_driver, law_switch_changes_the_pattern_or_nothing,
    law_switch_fails_only_on_take_down_or_load, startup_after, switch_after, words_written,
};
use crate::bio::pattern::{
    law_neighbours_differ, law_numbers_follow_the_order, law_offset_moves_the_place,
    law_offsets_add_up, law_pattern_numbers_round_trip, next_times, pattern_at_offset,
    pattern_number, place_of, PatternKind,
};
use crate::bio::script::run;
use crate::bio::traces::{
    law_startup_brings_the_granted_core_up, law_startup_tells_pin_count_and_brightness,
    law_swap_reloads_the_core_of_the_driver, law_swap_tells_pin_count_and_brightness,
    routes_only, startup_calls, switch_calls,
};
use crate::keys::{
    button_of, continues, held_ms, hold_after, law_hold_lasts_as_long_as_its_gaps,
    lemma_prefix_hold, lemma_shorter_hold, one_hold, Button, Layout,
};
use crate::leds::{
    badge_request, named_pattern, op_asked_for, service_outcome, LedCtlOp, LedMessage,
    ServiceOutcome,
};
use vstd::prelude::*;

verus! {

/// Every message keeps the invariant of the badge and its layout, and the
/// state after power-on has it.
pub proof fn law_every_message_keeps_the_invariant(
    s: BadgeState,
    op: LedAppOp,
    arg: Option<usize>,
    now: u64,
)
    ensures
        initial_state(s.layout).wf(),
        s.wf() ==> on_message(s, op, arg, now).0.wf(),
        on_message(s, op, arg, now).0.layout == s.layout,
{
}

/// While the animation owns the screen, nothing draws the background: a
/// message that draws it has ended the animation.
pub proof fn law_no_background_over_the_animation(
    s: BadgeState,
    op: LedAppOp,
    arg: Option<usize>,
    now: u64,
)
    requires
        s.wf(),
    ensures
        ({
            let (after, actions) = on_message(s, op, arg, now);
            after.nyan_active ==> !actions.contains(Action::DrawBackground)
        }),
{
}

/// The periodic redraw draws the background exactly while no animation plays
/// and the badge is on, and changes nothing.
pub proof fn law_redraw_keeps_the_background(s: BadgeState, arg: Option<usize>, now: u64)
    requires
        !s.powered_off,
    ensures
        on_message(s, LedAppOp::Redraw, arg, now) == (
            s,
            if s.nyan_active {
                Seq::<Action>::empty()
            } else {
                seq![Action::DrawBackground]
            },
        ),
{
}

/// The animation starts on one occasion only: the up button, where it changes
/// the brightness, has been held for ten seconds at full brightness and no
/// animation is latched. It comes with the rainbow pattern.
pub proof fn law_animation_starts_only_by_holding_up(s: BadgeState, k: char, now: u64)
    requires
        s.wf(),
        !s.powered_off,
    ensures
        ({
            let (after, actions) = on_key(s, k, now);
            let held = held_ms(hold_after(s.hold, k, now), now);
            let starts = button_of(s.layout, k) == Button::Up && s.brightness == 255
                && !s.easter_active && held >= 10000;
            &&& starts ==> after.nyan_active && after.easter_active
            &&& starts ==> actions == seq![rainbow_message(), Action::SetNyan(true)]
            &&& !starts ==> !actions.contains(Action::SetNyan(true))
            &&& !s.nyan_active && after.nyan_active ==> starts
        }),
{
}

/// A hold starts the animation once: as long as it is latched, the up button
/// does nothing more than go on with the hold.
pub proof fn law_latched_animation_does_not_start_again(s: BadgeState, k: char, now: u64)
    requires
        s.wf(),
        s.easter_active,
        s.brightness == 255,
        button_of(s.layout, k) == Button::Up,
    ensures
        on_key(s, k, now) == (
            BadgeState { hold: hold_after(s.hold, k, now), ..s },
            Seq::<Action>::empty(),
        ),
{
}

/// The camera and the pattern buttons end the animation and unlatch it, and
/// draw the background last of all.
pub proof fn law_camera_and_pattern_buttons_cancel_the_animation(s: BadgeState, k: char, now: u64)
    requires
        s.wf(),
        !s.powered_off,
        button_of(s.layout, k) == Button::Camera || button_of(s.layout, k) == Button::Prev
            || button_of(s.layout, k) == Button::Next,
    ensures
        ({
            let (after, actions) = on_key(s, k, now);
            &&& !after.nyan_active && !after.easter_active
            &&& after.brightness == s.brightness
            &&& actions[0] == Action::SetNyan(false)
            &&& actions.last() == Action::DrawBackground
        }),
{
}

/// A pattern button sends its operation, and no other key sends it.
pub proof fn law_pattern_buttons_send_their_operation(s: BadgeState, k: char, now: u64)
    requires
        s.wf(),
    ensures
        ({
            let actions = on_key(s, k, now).1;
            &&& actions.contains(pattern_message(LedCtlOp::Prev)) <==> button_of(s.layout, k)
                == Button::Prev
            &&& actions.contains(pattern_message(LedCtlOp::Next)) <==> button_of(s.layout, k)
                == Button::Next
        }),
{
    let actions = on_key(s, k, now).1;
    if button_of(s.layout, k) == Button::Prev {
        assert(actions[if s.nyan_active {
            2int
        } else {
            1int
        }] == pattern_message(LedCtlOp::Prev));
    }
    if button_of(s.layout, k) == Button::Next {
        assert(actions[if s.nyan_active {
            2int
        } else {
            1int
        }] == pattern_message(LedCtlOp::Next));
    }
}

/// The badge powers off on one occasion only: the down button has been held
/// long enough, and, where it changes the brightness, the LEDs are at their
/// dimmest. It then blanks the screen before it sleeps.
pub proof fn law_powers_off_only_by_holding_down(s: BadgeState, k: char, now: u64)
    requires
        s.wf(),
        !s.powered_off,
    ensures
        ({
            let (after, actions) = on_key(s, k, now);
            let held = held_ms(hold_after(s.hold, k, now), now);
            let due = button_of(s.layout, k) == Button::Down && match s.layout {
                Layout::Patterns => held >= 1500,
                Layout::Brightness => s.brightness == 26 && held >= 3000,
            };
            &&& after.powered_off <==> due
            &&& due ==> actions == power_off_actions()
            &&& !due ==> !actions.contains(Action::DeepSleep)
        }),
{
}

/// A badge that has been powered off takes no more messages.
pub proof fn law_power_off_is_final(s: BadgeState, op: LedAppOp, arg: Option<usize>, now: u64)
    requires
        s.powered_off,
    ensures
        on_message(s, op, arg, now) == (s, Seq::<Action>::empty()),
{
}

/// The level after `n` presses of the up button.
pub open spec fn brighter_times(b: u8, n: nat) -> u8
    decreases n,
{
    if n == 0 {
        b
    } else {
        brighter(brighter_times(b, (n - 1) as nat))
    }
}

/// The level after `n` presses of the down button.
pub open spec fn dimmer_times(b: u8, n: nat) -> u8
    decreases n,
{
    if n == 0 {
        b
    } else {
        dimmer(dimmer_times(b, (n - 1) as nat))
    }
}

/// A press moves the level by one step, and never out of the range from 10%
/// to 100%.
pub proof fn law_brightness_moves_by_steps_within_its_range(b: u8)
    requires
        26 <= b,
    ensures
        26 <= dimmer(b) <= b <= brighter(b) <= 255,
        b < 255 ==> b < brighter(b) && brighter(b) - b <= 26,
        26 < b ==> dimmer(b) < b && b - dimmer(b) <= 26,
        b + 26 <= 255 ==> dimmer(brighter(b)) == b,
        b - 26 >= 26 ==> brighter(dimmer(b)) == b,
{
}

/// `n` presses move the level by `n` steps, up to the end of the range.
pub proof fn law_presses_add_up(b: u8, n: nat)
    requires
        26 <= b,
    ensures
        brighter_times(b, n) == if b + 26 * n <= 255 {
            b + 26 * n
        } else {
            255
        },
        dimmer_times(b, n) == if b - 26 * n >= 26 {
            b - 26 * n
        } else {
            26
        },
    decreases n,
{
    if n > 0 {
        law_presses_add_up(b, (n - 1) as nat);
    }
}

/// There are ten levels: nine presses lead from any level to either end of
/// the range, and from one end to the other it takes all nine.
pub proof fn law_nine_presses_span_the_range(b: u8)
    requires
        26 <= b,
    ensures
        brighter_times(b, 9) == 255,
        dimmer_times(b, 9) == 26,
        brighter_times(26, 8) < 255,
        dimmer_times(255, 8) > 26,
{
    law_presses_add_up(b, 9);
    law_presses_add_up(26, 8);
    law_presses_add_up(255, 8);
}

/// The state of the badge after presses of `k` at `times`.
pub open spec fn after_presses(s: BadgeState, k: char, times: Seq<u64>) -> BadgeState
    decreases times.len(),
{
    if times.len() == 0 {
        s
    } else {
        let before = after_presses(s, k, times.drop_last());
        if before.powered_off {
            before
        } else {
            on_key(before, k, times.last()).0
        }
    }
}

/// What close presses of one key come to, as long as the badge stays on.
proof fn lemma_hold(s: BadgeState, k: char, times: Seq<u64>)
    requires
        s.wf(),
        !s.powered_off,
        times.len() > 0,
        one_hold(times),
        !continues(s.hold, k, times[0]),
    ensures
        ({
            let after = after_presses(s, k, times);
            &&& after.wf()
            &&& after.layout == s.layout
            &&& times[0] <= times.last()
            &&& !after.powered_off ==> after.hold.key == k && after.hold.first_ms == times[0]
                && after.hold.last_ms == times.last()
            &&& !after.powered_off && button_of(s.layout, k) == Button::Down ==> after.brightness
                == dimmer_times(s.brightness, times.len())
            &&& button_of(s.layout, k) == Button::Up ==> !after.powered_off && after.brightness
                == brighter_times(s.brightness, times.len())
        }),
    decreases times.len(),
{
    let before = times.drop_last();
    law_presses_add_up(s.brightness, times.len());
    law_presses_add_up(s.brightness, before.len());
    if times.len() > 1 {
        lemma_shorter_hold(times);
        lemma_hold(s, k, before);
        assert(times[times.len() - 1] <= times[times.len() - 2] + 400);
    } else {
        assert(after_presses(s, k, before) == s);
    }
}

/// Where up and down are not for the brightness, holding down powers the badge
/// off exactly from the first press that comes at least 1.5 s after the hold
/// began.
pub proof fn law_holding_down_powers_off(s: BadgeState, times: Seq<u64>)
    requires
        s.wf(),
        !s.powered_off,
        s.layout == Layout::Patterns,
        times.len() > 0,
        one_hold(times),
        !continues(s.hold, '↓', times[0]),
    ensures
        after_presses(s, '↓', times).powered_off <==> times.last() - times[0] >= 1500,
    decreases times.len(),
{
    let before = times.drop_last();
    if times.len() > 1 {
        lemma_shorter_hold(times);
        law_holding_down_powers_off(s, before);
        lemma_hold(s, '↓', before);
        assert(times[times.len() - 2] <= times[times.len() - 1]);
    } else {
        assert(after_presses(s, '↓', before) == s);
    }
}

/// It does so less than two seconds after the hold began.
pub proof fn law_power_off_comes_within_two_seconds(s: BadgeState, times: Seq<u64>, j: int)
    requires
        s.wf(),
        !s.powered_off,
        s.layout == Layout::Patterns,
        one_hold(times),
        0 < j < times.len(),
        !continues(s.hold, '↓', times[0]),
        times[j - 1] - times[0] < 1500 <= times[j] - times[0],
    ensures
        !after_presses(s, '↓', times.take(j)).powered_off,
        after_presses(s, '↓', times.take(j + 1)).powered_off,
        times[j] - times[0] < 2000,
{
    lemma_prefix_hold(times, j);
    lemma_prefix_hold(times, j + 1);
    law_holding_down_powers_off(s, times.take(j));
    law_holding_down_powers_off(s, times.take(j + 1));
    assert(times[j] <= times[j - 1] + 400);
}

/// Where up and down change the brightness, holding down never powers the
/// badge off in less than three seconds; after three seconds it does, from
/// any brightness, once nine presses have dimmed the LEDs all the way.
pub proof fn law_holding_down_dims_and_then_powers_off(s: BadgeState, times: Seq<u64>)
    requires
        s.wf(),
        !s.powered_off,
        s.layout == Layout::Brightness,
        times.len() > 0,
        one_hold(times),
        !continues(s.hold, '↓', times[0]),
    ensures
        times.last() - times[0] < 3000 ==> !after_presses(s, '↓', times).powered_off,
        times.last() - times[0] >= 3000 && times.len() > 9 ==> after_presses(
            s,
            '↓',
            times,
        ).powered_off,
        !after_presses(s, '↓', times).powered_off ==> after_presses(s, '↓', times).brightness
            == dimmer_times(s.brightness, times.len()),
    decreases times.len(),
{
    let before = times.drop_last();
    lemma_hold(s, '↓', times);
    law_presses_add_up(s.brightness, before.len());
    if times.len() > 1 {
        lemma_shorter_hold(times);
        law_holding_down_dims_and_then_powers_off(s, before);
        lemma_hold(s, '↓', before);
        assert(times[times.len() - 2] <= times[times.len() - 1]);
    } else {
        assert(after_presses(s, '↓', before) == s);
    }
}

/// Where up and down change the brightness, holding up for ten seconds leaves
/// the badge at full brightness with the animation on.
pub proof fn law_holding_up_brightens_and_then_starts_the_animation(s: BadgeState, times: Seq<u64>)
    requires
        s.wf(),
        !s.powered_off,
        s.layout == Layout::Brightness,
        times.len() > 0,
        one_hold(times),
        !continues(s.hold, '↑', times[0]),
        times.last() - times[0] >= 10000,
    ensures
        after_presses(s, '↑', times).nyan_active,
        after_presses(s, '↑', times).brightness == 255,
{
    let before = times.drop_last();
    law_hold_lasts_as_long_as_its_gaps(times);
    lemma_hold(s, '↑', times);
    lemma_shorter_hold(times);
    lemma_hold(s, '↑', before);
    law_presses_add_up(s.brightness, before.len());
    law_presses_add_up(s.brightness, times.len());
}

/// What the LED service makes of `op` with `arg`, where the co-processor does
/// not fail.
pub open spec fn driver_after_op(d: DriverView, op: LedCtlOp, arg: Option<usize>) -> DriverView {
    match service_outcome(d, op, arg) {
        ServiceOutcome::Switching(SwitchOutcome::Call(v)) => v.driver.with_pattern(v.target),
        ServiceOutcome::Switching(SwitchOutcome::Done(after, _)) => after,
        ServiceOutcome::Switching(SwitchOutcome::Panicked) => d,
        ServiceOutcome::Write(after, _) => after,
        ServiceOutcome::Unblock(after, _) => after,
        ServiceOutcome::Rejected(after) => after,
    }
}

/// What the LED service makes of a message of the badge, where the
/// co-processor does not fail.
pub open spec fn driver_after_message(d: DriverView, m: LedMessage) -> DriverView {
    driver_after_op(d, m.op, Some(m.arg))
}

/// What the LED service makes of the messages among `actions`.
pub open spec fn driver_after_actions(d: DriverView, actions: Seq<Action>) -> DriverView
    decreases actions.len(),
{
    if actions.len() == 0 {
        d
    } else {
        let before = driver_after_actions(d, actions.drop_last());
        match actions.last() {
            Action::SendLed(m) => driver_after_message(before, m),
            _ => before,
        }
    }
}

/// The LED service serves every message that the badge sends.
pub proof fn law_every_message_sent_is_served(
    s: BadgeState,
    op: LedAppOp,
    arg: Option<usize>,
    now: u64,
    d: DriverView,
    m: LedMessage,
)
    requires
        on_message(s, op, arg, now).1.contains(Action::SendLed(m)),
    ensures
        !(service_outcome(d, m.op, Some(m.arg)) is Rejected),
{
    law_pattern_numbers_round_trip(PatternKind::Rainbow, 1);
}

/// Actions without a brightness message leave the driver's brightness alone.
proof fn lemma_other_actions_keep_the_brightness(d: DriverView, actions: Seq<Action>)
    requires
        forall|i: int|
            0 <= i < actions.len() ==> match #[trigger] actions[i] {
                Action::SendLed(m) => m.op != LedCtlOp::SetBrightness,
                _ => true,
            },
    ensures
        driver_after_actions(d, actions).brightness == d.brightness,
    decreases actions.len(),
{
    if actions.len() > 0 {
        lemma_other_actions_keep_the_brightness(d, actions.drop_last());
        assert(actions.last() == actions[actions.len() - 1]);
    }
}

/// The driver starts at the brightness that the badge starts at, and keeps to
/// it: if the two agree and the messages of a step are served, they agree
/// again.
pub proof fn law_driver_keeps_the_brightness_of_the_badge(
    s: BadgeState,
    op: LedAppOp,
    arg: Option<usize>,
    now: u64,
    d: DriverView,
)
    requires
        d.brightness == s.brightness,
    ensures
        badge_request().brightness == initial_state(s.layout).brightness,
        ({
            let (after, actions) = on_message(s, op, arg, now);
            driver_after_actions(d, actions).brightness == after.brightness
        }),
{
    let (after, actions) = on_message(s, op, arg, now);
    if after.brightness == s.brightness {
        lemma_other_actions_keep_the_brightness(d, actions);
    } else {
        assert(actions[0] == brightness_message(after.brightness));
        assert(actions.take(1).drop_last() =~= actions.take(0));
        reveal_with_fuel(driver_after_actions, 2);
        assert(driver_after_actions(d, actions.take(1)).brightness == after.brightness);
        if actions.len() == 1 {
            assert(actions.take(1) =~= actions);
        } else {
            assert(actions.drop_last() =~= actions.take(1));
        }
    }
}

/// A message as the LED service takes it in, with what the co-processor
/// answers to the calls of the swap that it asks for, if it asks for one.
#[verifier::ext_equal]
pub struct Served {
    pub id: usize,
    pub arg: Option<usize>,
    pub replies: Seq<BioReply>,
}

impl Served {
    /// The operation that the message asks for.
    pub open spec fn op(self) -> LedCtlOp {
        op_asked_for(self.id)
    }

    /// The pattern that the message asks for by its number, if it does.
    pub open spec fn names(self) -> Option<PatternKind> {
        named_pattern(self.op(), self.arg)
    }
}

/// The driver after a message has been served, where nothing fails.
pub open spec fn driver_after_service(d: DriverView, m: Served) -> Option<DriverView> {
    match service_outcome(d, m.op(), m.arg) {
        ServiceOutcome::Switching(SwitchOutcome::Call(v)) => match switch_after(v, m.replies) {
            SwitchOutcome::Done(after, Ok(_)) => Some(after),
            _ => None,
        },
        _ => Some(driver_after_op(d, m.op(), m.arg)),
    }
}

/// The driver after `messages` have been served in turn, where nothing fails.
pub open spec fn driver_after_services(d: DriverView, messages: Seq<Served>) -> Option<DriverView>
    decreases messages.len(),
{
    if messages.len() == 0 {
        Some(d)
    } else {
        match driver_after_services(d, messages.drop_last()) {
            Some(before) => driver_after_service(before, messages.last()),
            None => None,
        }
    }
}

/// How many of `messages` ask for `op`.
pub open spec fn times_asked(messages: Seq<Served>, op: LedCtlOp) -> nat
    decreases messages.len(),
{
    if messages.len() == 0 {
        0
    } else {
        times_asked(messages.drop_last(), op) + if messages.last().op() == op {
            1nat
        } else {
            0nat
        }
    }
}

/// How far `op` moves the pattern through the order.
pub open spec fn step_of(op: LedCtlOp) -> int {
    match op {
        LedCtlOp::Next => 1,
        LedCtlOp::Prev => -1,
        _ => 0,
    }
}

/// How far `messages` move the pattern through the order.
pub open spec fn steps_asked(messages: Seq<Served>) -> int {
    times_asked(messages, LedCtlOp::Next) - times_asked(messages, LedCtlOp::Prev)
}

/// A message that is served without a failure comes to the same driver
/// whatever the co-processor answered.
pub proof fn law_service_without_failure_is_determined(d: DriverView, m: Served, after: DriverView)
    requires
        driver_after_service(d, m) == Some(after),
    ensures
        after == driver_after_op(d, m.op(), m.arg),
{
    match service_outcome(d, m.op(), m.arg) {
        ServiceOutcome::Switching(SwitchOutcome::Call(v)) => {
            law_switch_changes_the_pattern_or_nothing(d, v.target, m.replies);
        },
        _ => {},
    }
}

/// A message is served without a failure whenever the co-processor answers
/// each call and neither taking the core down nor loading it fails.
pub proof fn law_answered_message_is_served(d: DriverView, m: Served)
    requires
        m.replies.len() == 8,
        forall|i: int| 0 <= i < m.replies.len() ==> !(#[trigger] m.replies[i] is Missing),
        error_in(m.replies[1]) is None,
        error_in(m.replies[2]) is None,
    ensures
        driver_after_service(d, m) == Some(driver_after_op(d, m.op(), m.arg)),
{
    match service_outcome(d, m.op(), m.arg) {
        ServiceOutcome::Switching(SwitchOutcome::Call(v)) => {
            law_switch_fails_only_on_take_down_or_load(d, v.target, m.replies);
        },
        _ => {},
    }
}

/// An operation that names no pattern moves the pattern by its step, and
/// changes nothing else than the brightness.
pub proof fn law_operation_moves_the_pattern_by_its_step(
    d: DriverView,
    op: LedCtlOp,
    arg: Option<usize>,
)
    requires
        named_pattern(op, arg) is None,
    ensures
        ({
            let after = driver_after_op(d, op, arg);
            after == d.with_pattern(pattern_at_offset(d.pattern, step_of(op))).with_brightness(
                after.brightness,
            )
        }),
        op != LedCtlOp::SetBrightness ==> driver_after_op(d, op, arg).brightness == d.brightness,
{
    law_neighbours_differ(d.pattern);
    law_offsets_add_up(d.pattern, 0, 0);
}

/// Messages move the pattern one place forward for each `Next` and one place
/// back for each `Prev` among them, in whatever order they come and whatever
/// comes between, but for a message that names a pattern. They change nothing
/// else than the pattern and the brightness.
pub proof fn law_messages_walk_the_order(d: DriverView, messages: Seq<Served>, after: DriverView)
    requires
        driver_after_services(d, messages) == Some(after),
        forall|i: int| 0 <= i < messages.len() ==> #[trigger] messages[i].names() is None,
    ensures
        after == d.with_pattern(
            pattern_at_offset(d.pattern, steps_asked(messages)),
        ).with_brightness(after.brightness),
        place_of(after.pattern) == (place_of(d.pattern) + steps_asked(messages)) % 5,
        pattern_number(after.pattern) == (pattern_number(d.pattern) + steps_asked(messages)) % 5,
    decreases messages.len(),
{
    if messages.len() > 0 {
        let earlier = messages.drop_last();
        let last = messages.last();
        let before = driver_after_services(d, earlier)->0;
        assert forall|i: int| 0 <= i < earlier.len() implies
            #[trigger] earlier[i].names() is None by {
            assert(messages[i].names() is None);
        }
        assert(messages[messages.len() - 1].names() is None);
        law_messages_walk_the_order(d, earlier, before);
        law_service_without_failure_is_determined(before, last, after);
        law_operation_moves_the_pattern_by_its_step(before, last.op(), last.arg);
        law_offsets_add_up(d.pattern, steps_asked(earlier), step_of(last.op()));
        assert(steps_asked(messages) == steps_asked(earlier) + step_of(last.op()));
    } else {
        law_offsets_add_up(d.pattern, 0, 0);
    }
    law_offset_moves_the_place(d.pattern, steps_asked(messages));
    law_numbers_follow_the_order(d.pattern);
    law_numbers_follow_the_order(after.pattern);
}

/// Messages are served one after the other.
pub proof fn law_services_follow_each_other(d: DriverView, a: Seq<Served>, b: Seq<Served>)
    ensures
        driver_after_services(d, a + b) == match driver_after_services(d, a) {
            Some(between) => driver_after_services(between, b),
            None => None,
        },
    decreases b.len(),
{
    if b.len() == 0 {
        assert(a + b =~= a);
    } else {
        law_services_follow_each_other(d, a, b.drop_last());
        assert((a + b).drop_last() =~= a + b.drop_last());
    }
}

/// From a message that names a pattern on, the walk goes from that pattern,
/// whatever was before.
pub proof fn law_walk_starts_again_from_a_named_pattern(
    d: DriverView,
    earlier: Seq<Served>,
    m: Served,
    later: Seq<Served>,
    after: DriverView,
)
    requires
        driver_after_services(d, earlier + seq![m] + later) == Some(after),
        m.names() is Some,
        forall|i: int| 0 <= i < later.len() ==> #[trigger] later[i].names() is None,
    ensures
        after.pattern == pattern_at_offset(m.names()->0, steps_asked(later)),
        pattern_number(after.pattern) == (pattern_number(m.names()->0) + steps_asked(later)) % 5,
{
    let first = earlier + seq![m];
    law_services_follow_each_other(d, first, later);
    let loaded = driver_after_services(d, first)->0;
    assert(first.drop_last() =~= earlier);
    law_service_without_failure_is_determined(driver_after_services(d, earlier)->0, m, loaded);
    assert(loaded.pattern == m.names()->0);
    law_messages_walk_the_order(loaded, later, after);
}

/// After power-on the walk goes from the last pattern of the order.
pub proof fn law_walk_starts_at_the_last_pattern(
    bring_up: Seq<BioReply>,
    d: DriverView,
    messages: Seq<Served>,
    after: DriverView,
)
    requires
        startup_after(StartupView::start(badge_request()), bring_up) == StartupOutcome::Ready(d),
        driver_after_services(d, messages) == Some(after),
        forall|i: int| 0 <= i < messages.len() ==> #[trigger] messages[i].names() is None,
    ensures
        pattern_number(after.pattern) == (4 + steps_asked(messages)) % 5,
{
    law_startup_yields_the_requested_driver(badge_request(), bring_up);
    law_messages_walk_the_order(d, messages, after);
}

/// `n` messages for the next pattern and nothing else lead `n` places on in
/// the order, and change nothing else.
pub proof fn law_next_messages_walk_the_order(
    d: DriverView,
    messages: Seq<Served>,
    after: DriverView,
)
    requires
        driver_after_services(d, messages) == Some(after),
        forall|i: int| 0 <= i < messages.len() ==> #[trigger] messages[i].op() == LedCtlOp::Next,
    ensures
        after == d.with_pattern(next_times(d.pattern, messages.len())),
    decreases messages.len(),
{
    if messages.len() > 0 {
        let earlier = messages.drop_last();
        let before = driver_after_services(d, earlier)->0;
        assert forall|i: int| 0 <= i < earlier.len() implies #[trigger] earlier[i].op()
            == LedCtlOp::Next by {
            assert(messages[i].op() == LedCtlOp::Next);
        }
        assert(messages[messages.len() - 1].op() == LedCtlOp::Next);
        law_next_messages_walk_the_order(d, earlier, before);
        law_service_without_failure_is_determined(before, messages.last(), after);
        law_neighbours_differ(before.pattern);
    }
}

/// The driver after a message has been served, whether or not what it asked
/// for failed. There is none where a swap panics or is left unanswered.
pub open spec fn driver_left_by(d: DriverView, m: Served) -> Option<DriverView> {
    match service_outcome(d, m.op(), m.arg) {
        ServiceOutcome::Switching(SwitchOutcome::Call(v)) => match switch_after(v, m.replies) {
            SwitchOutcome::Done(after, _) => Some(after),
            _ => None,
        },
        _ => Some(driver_after_op(d, m.op(), m.arg)),
    }
}

/// The driver after `messages` have been served in turn.
pub open spec fn driver_left_by_all(d: DriverView, messages: Seq<Served>) -> Option<DriverView>
    decreases messages.len(),
{
    if messages.len() == 0 {
        Some(d)
    } else {
        match driver_left_by_all(d, messages.drop_last()) {
            Some(before) => driver_left_by(before, messages.last()),
            None => None,
        }
    }
}

/// The level that the last of `messages` to set one set, or `start`.
pub open spec fn last_level_set(messages: Seq<Served>, start: u8) -> u8
    decreases messages.len(),
{
    if messages.len() == 0 {
        start
    } else {
        let m = messages.last();
        match (m.op(), m.arg) {
            (LedCtlOp::SetBrightness, Some(level)) if level <= 255 => level as u8,
            _ => last_level_set(messages.drop_last(), start),
        }
    }
}

/// The pattern that was loaded last while `messages` were served.
pub open spec fn last_pattern_loaded(d: DriverView, messages: Seq<Served>) -> PatternKind
    decreases messages.len(),
{
    if messages.len() == 0 {
        d.pattern
    } else {
        let earlier = messages.drop_last();
        let m = messages.last();
        let loaded = last_pattern_loaded(d, earlier);
        match driver_left_by_all(d, earlier) {
            Some(before) => match service_outcome(before, m.op(), m.arg) {
                ServiceOutcome::Switching(SwitchOutcome::Call(v)) => last_loaded(
                    run(v.script, m.replies).calls,
                    m.replies,
                    loaded,
                ),
                _ => loaded,
            },
            None => loaded,
        }
    }
}

/// Over its whole life, through swaps that succeed and swaps that fail, the
/// driver reports the brightness that was set last and the pattern that was
/// loaded last, and keeps everything else.
pub proof fn law_driver_reports_the_last_level_and_the_last_load(
    d: DriverView,
    messages: Seq<Served>,
    after: DriverView,
)
    requires
        driver_left_by_all(d, messages) == Some(after),
    ensures
        after.brightness == last_level_set(messages, d.brightness),
        after.pattern == last_pattern_loaded(d, messages),
        after == d.with_pattern(after.pattern).with_brightness(after.brightness),
    decreases messages.len(),
{
    if messages.len() > 0 {
        let earlier = messages.drop_last();
        let m = messages.last();
        let before = driver_left_by_all(d, earlier)->0;
        law_driver_reports_the_last_level_and_the_last_load(d, earlier, before);
        match service_outcome(before, m.op(), m.arg) {
            ServiceOutcome::Switching(SwitchOutcome::Call(v)) => {
                law_switch_changes_the_pattern_or_nothing(before, v.target, m.replies);
                law_driver_reports_what_was_loaded_last(before, v.target, m.replies);
            },
            _ => {},
        }
    }
}

/// However long a driver has lived, a swap that succeeds loads its program onto
/// the first core that the startup was granted, at the nominal quantum, and
/// tells it the pin and the number of LEDs of the startup and the level that
/// was set last.
pub proof fn law_new_program_is_told_the_last_level(
    request: StartupRequest,
    bring_up: Seq<BioReply>,
    d: DriverView,
    messages: Seq<Served>,
    before: DriverView,
    m: Served,
    v: SwitchView,
    after: DriverView,
)
    requires
        request.pin < 32,
        startup_after(StartupView::start(request), bring_up) == StartupOutcome::Ready(d),
        driver_left_by_all(d, messages) == Some(before),
        service_outcome(before, m.op(), m.arg) == ServiceOutcome::Switching(SwitchOutcome::Call(v)),
        switch_after(v, m.replies) == SwitchOutcome::Done(after, Ok(())),
    ensures
        ({
            let calls = switch_calls(v, m.replies);
            let words = words_written(calls);
            let level = last_level_set(messages, request.brightness);
            let core = bring_up[0]->Granted_0.cores@[0];
            &&& words.len() == 3
            &&& words[0] == request.pin
            &&& words[1] == request.led_count
            &&& words[2] == level
            &&& after.brightness == level
            &&& calls[1] == (BioCall::DeInitCore { core })
            &&& calls[2] == (BioCall::InitCore {
                core,
                program: after.pattern,
                quantum_hz: 6_666_667,
            })
        }),
{
    law_startup_tells_pin_count_and_brightness(request, bring_up, d);
    law_driver_reports_the_last_level_and_the_last_load(d, messages, before);
    assert(v == SwitchView::start(before, v.target));
    law_swap_reloads_the_core_of_the_driver(before, v.target, m.replies);
    law_swap_tells_pin_count_and_brightness(before, v.target, m.replies, after);
}

/// Whatever is answered, the badge brings its strip of ten LEDs up on pin 15,
/// with the last pattern of the order at full brightness.
pub proof fn law_badge_brings_its_strip_up(replies: Seq<BioReply>)
    ensures
        ({
            let v = StartupView::start(badge_request());
            let calls = startup_calls(v, replies);
            &&& calls.len() > 1 ==> match calls[1] {
                BioCall::InitCore { program, .. } => pattern_number(program) == 4,
                _ => false,
            }
            &&& calls.len() > 4 ==> match calls[4] {
                BioCall::SetupIoConfig { io } => routes_only(io, 15, IoConfigMode::Overwrite),
                _ => false,
            }
            &&& match startup_after(v, replies) {
                StartupOutcome::Ready(d) => {
                    &&& words_written(calls) == seq![15u32, 10u32, 255u32]
                    &&& d.pin == 15 && d.led_count == 10 && d.brightness == 255
                    &&& pattern_number(d.pattern) == 4
                },
                _ => true,
            }
        }),
{
    let v = StartupView::start(badge_request());
    law_startup_brings_the_granted_core_up(badge_request(), replies);
    match startup_after(v, replies) {
        StartupOutcome::Ready(d) => {
            law_startup_tells_pin_count_and_brightness(badge_request(), replies, d);
            assert(words_written(startup_calls(v, replies)) =~= seq![15u32, 10u32, 255u32]);
        },
        _ => {},
    }
}

/// When the animation starts, the rainbow is loaded, whatever was before.
pub proof fn law_animation_comes_with_the_rainbow(s: BadgeState, k: char, now: u64, d: DriverView)
    requires
        s.wf(),
        !s.nyan_active,
        !s.powered_off,
        on_key(s, k, now).0.nyan_active,
    ensures
        driver_after_actions(d, on_key(s, k, now).1) == d.with_pattern(PatternKind::Rainbow),
{
    let actions = on_key(s, k, now).1;
    reveal_with_fuel(driver_after_actions, 3);
    law_pattern_numbers_round_trip(PatternKind::Rainbow, 1);
}

} // verus!
