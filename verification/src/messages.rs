//! What holds of the badge over the messages that drive it: what each one
//! leads to, and what they come to one after the other.

use crate::badge::{
    app_op_asked_for, initial_state, on_key, on_message, Action, BadgeState, LedAppOp,
};
use crate::bio::driver::DriverView;
use crate::bio::pattern::{law_numbers_below_five_stand_for_patterns, pattern_number};
use crate::keys::{
    key_of, law_actions_have_their_characters, law_low_bits_of_the_argument_are_the_key,
    law_press_goes_on_with_a_hold_or_begins_one, Hold, Layout,
};
use crate::laws::{
    after_presses, driver_after_actions, driver_after_message,
    law_driver_keeps_the_brightness_of_the_badge, law_every_message_keeps_the_invariant,
    law_holding_down_dims_and_then_powers_off, law_holding_down_powers_off,
    law_holding_up_brightens_and_then_starts_the_animation, law_presses_add_up,
};
use crate::leds::{law_neighbour_is_swapped_to, LedCtlOp, LedMessage};
use vstd::prelude::*;

verus! {

/// A message as it reaches the application, and when.
pub struct Message {
    pub id: usize,
    pub arg: Option<usize>,
    pub now: u64,
}

/// What the badge makes of a message.
pub open spec fn step(s: BadgeState, m: Message) -> (BadgeState, Seq<Action>) {
    on_message(s, app_op_asked_for(m.id), m.arg, m.now)
}

/// What the badge makes of messages that come one after the other.
pub open spec fn life(s: BadgeState, messages: Seq<Message>) -> (BadgeState, Seq<Action>)
    decreases messages.len(),
{
    if messages.len() == 0 {
        (s, Seq::empty())
    } else {
        let (before, earlier) = life(s, messages.drop_last());
        let (after, actions) = step(before, messages.last());
        (after, earlier + actions)
    }
}

/// The message is a press of `k`: it has the number 0, and its argument has
/// the number of `k` in its low 32 bits, or none of a character if `k` is
/// `'\0'`.
pub open spec fn presses(m: Message, k: char) -> bool {
    &&& m.id == 0
    &&& m.arg is Some
    &&& ({
        let low = m.arg->0 as int % 0x1_0000_0000;
        low == k as int || (k == '\0' && (0xD800 <= low && low < 0xE000 || 0x10FFFF < low))
    })
}

/// The messages of presses of `k` at `times`.
pub open spec fn presses_at(k: char, times: Seq<u64>) -> Seq<Message> {
    times.map_values(|now: u64| Message { id: 0, arg: Some(k as usize), now })
}

/// How long `k` has been held at `now`, if it is pressed then.
pub open spec fn held_at(h: Hold, k: char, now: u64) -> int {
    if k == h.key && now <= h.last_ms + 400 {
        if now >= h.first_ms {
            now - h.first_ms
        } else {
            0
        }
    } else {
        0
    }
}

/// The press of `k` at `now` is taken into account, and the layout stays.
pub open spec fn tracks(s: BadgeState, after: BadgeState, k: char, now: u64) -> bool {
    &&& after.layout == s.layout
    &&& after.hold.key == k
    &&& after.hold.last_ms == now
    &&& after.hold.first_ms == if k == s.hold.key && now <= s.hold.last_ms + 400 {
        s.hold.first_ms
    } else {
        now
    }
}

/// A message with the number 0 and an argument is the press of the key that
/// the argument is the number of, and without an argument it is nothing.
pub proof fn law_key_message_is_a_press(s: BadgeState, a: usize, now: u64)
    requires
        !s.powered_off,
    ensures
        on_message(s, LedAppOp::KeyPress, Some(a), now) == on_key(s, key_of(a), now),
        step(s, Message { id: 0, arg: Some(a), now }) == on_key(s, key_of(a), now),
        step(s, Message { id: 0, arg: None, now }) == (s, Seq::<Action>::empty()),
{
}

/// Messages are told apart by their numbers alone.
pub proof fn law_application_messages_have_their_numbers(id: usize)
    ensures
        app_op_asked_for(id) == LedAppOp::KeyPress <==> id == 0,
        app_op_asked_for(id) == LedAppOp::Redraw <==> id == 1,
        app_op_asked_for(id) == LedAppOp::Invalid <==> id >= 2,
{
}

proof fn lemma_pressed_key(s: BadgeState, m: Message, k: char)
    requires
        presses(m, k),
        !s.powered_off,
    ensures
        step(s, m) == on_key(s, k, m.now),
{
    law_low_bits_of_the_argument_are_the_key(m.arg->0);
    law_key_message_is_a_press(s, m.arg->0, m.now);
}

/// A press of down that has been held long enough powers the badge off: it
/// blanks the screen, waits three seconds and sleeps for good. Otherwise it
/// dims the LEDs by a tenth, but not below a tenth, and the LED service is
/// told the very level that the badge has from then on.
pub proof fn law_down_dims_or_powers_off(s: BadgeState, m: Message)
    requires
        !s.powered_off,
        presses(m, '↓'),
    ensures
        ({
            let (after, actions) = step(s, m);
            let held = held_at(s.hold, '↓', m.now);
            let off = if s.layout == Layout::Patterns {
                held >= 1500
            } else {
                held >= 3000 && s.brightness <= 26
            };
            &&& tracks(s, after, '↓', m.now)
            &&& after.powered_off == off
            &&& after.easter_active == s.easter_active
            &&& if off {
                &&& actions.len() == 6
                &&& actions[0] == Action::SetNyan(false)
                &&& actions[1] == Action::ClearScreen
                &&& actions[2] == Action::FlushScreen
                &&& actions[3] == Action::Sleep(3000)
                &&& actions[4] == Action::DeepSleep
                &&& actions[5] == Action::Halt
                &&& after.brightness == s.brightness
                &&& !after.nyan_active
            } else if s.brightness <= 26 {
                &&& actions.len() == 0
                &&& after.brightness == s.brightness
                &&& after.nyan_active == s.nyan_active
            } else {
                &&& after.brightness == if s.brightness >= 52 {
                    s.brightness - 26
                } else {
                    26
                }
                &&& actions[0] == Action::SendLed(
                    LedMessage { op: LedCtlOp::SetBrightness, arg: after.brightness as usize },
                )
                &&& s.nyan_active ==> actions.len() == 1
                &&& !s.nyan_active ==> actions.len() == 2 && actions[1] == Action::DrawBackground
                &&& after.nyan_active == s.nyan_active
            }
        }),
{
    lemma_pressed_key(s, m, '↓');
}

/// A press of up, where it is for the brightness, makes the LEDs brighter by a
/// tenth, but not above full brightness, and the LED service is told the very
/// level that the badge has from then on. At full brightness it does nothing,
/// but after ten seconds of holding it starts the animation and has the
/// rainbow loaded, unless the animation has been started already.
pub proof fn law_up_brightens_or_plays(s: BadgeState, m: Message)
    requires
        !s.powered_off,
        s.layout == Layout::Brightness,
        presses(m, '↑'),
    ensures
        ({
            let (after, actions) = step(s, m);
            let held = held_at(s.hold, '↑', m.now);
            &&& tracks(s, after, '↑', m.now)
            &&& !after.powered_off
            &&& if s.brightness < 255 {
                &&& after.brightness == if s.brightness <= 229 {
                    s.brightness + 26
                } else {
                    255
                }
                &&& actions[0] == Action::SendLed(
                    LedMessage { op: LedCtlOp::SetBrightness, arg: after.brightness as usize },
                )
                &&& s.nyan_active ==> actions.len() == 1
                &&& !s.nyan_active ==> actions.len() == 2 && actions[1] == Action::DrawBackground
                &&& after.nyan_active == s.nyan_active
                &&& after.easter_active == s.easter_active
            } else if held >= 10000 && !s.easter_active {
                &&& actions.len() == 2
                &&& actions[0] == Action::SendLed(
                    LedMessage { op: LedCtlOp::SetPattern, arg: 1 },
                )
                &&& actions[1] == Action::SetNyan(true)
                &&& after.nyan_active && after.easter_active
                &&& after.brightness == 255
            } else {
                &&& actions.len() == 0
                &&& after.brightness == 255
                &&& after.nyan_active == s.nyan_active
                &&& after.easter_active == s.easter_active
            }
        }),
{
    lemma_pressed_key(s, m, '↑');
}

/// The character is one of the button for the next pattern.
pub open spec fn asks_for_next(k: char) -> bool {
    k == '→' || k == 'd' || k == '3'
}

/// The character is one of the button for the previous pattern.
pub open spec fn asks_for_prev(layout: Layout, k: char) -> bool {
    k == '←' || k == 'a' || k == '1' || (layout == Layout::Patterns && k == '↑')
}

/// A press of a pattern button sends its operation to the LED service, and
/// nothing else, ends the animation and draws the background last.
pub proof fn law_pattern_button_sends_its_operation(s: BadgeState, m: Message, k: char)
    requires
        !s.powered_off,
        presses(m, k),
        asks_for_next(k) || asks_for_prev(s.layout, k),
    ensures
        ({
            let (after, actions) = step(s, m);
            let op = if asks_for_next(k) {
                LedCtlOp::Next
            } else {
                LedCtlOp::Prev
            };
            let n = if s.nyan_active {
                2int
            } else {
                1int
            };
            &&& tracks(s, after, k, m.now)
            &&& !after.powered_off
            &&& after.brightness == s.brightness
            &&& !after.nyan_active
            &&& s.nyan_active ==> !after.easter_active
            &&& !s.nyan_active ==> after.easter_active == s.easter_active
            &&& actions.len() == n + 2
            &&& actions[0] == Action::SetNyan(false)
            &&& s.nyan_active ==> actions[1] == Action::DrawBackground
            &&& actions[n] == Action::SendLed(LedMessage { op, arg: 0 })
            &&& actions[n + 1] == Action::DrawBackground
        }),
{
    lemma_pressed_key(s, m, k);
    law_actions_have_their_characters(s.layout, k);
}

/// A press of the camera button ends the animation, scans and then draws the
/// background.
pub proof fn law_camera_button_scans_and_draws(s: BadgeState, m: Message)
    requires
        !s.powered_off,
        presses(m, '🔥'),
    ensures
        ({
            let (after, actions) = step(s, m);
            &&& tracks(s, after, '🔥', m.now)
            &&& !after.powered_off && !after.nyan_active && !after.easter_active
            &&& after.brightness == s.brightness
            &&& actions.len() == 3
            &&& actions[0] == Action::SetNyan(false)
            &&& actions[1] == Action::AcquireQr
            &&& actions[2] == Action::DrawBackground
        }),
{
    lemma_pressed_key(s, m, '🔥');
}

/// A press of any other key changes nothing but the hold, and draws the
/// background unless the animation plays.
pub proof fn law_other_keys_draw_the_background(s: BadgeState, m: Message, k: char)
    requires
        !s.powered_off,
        presses(m, k),
        !asks_for_next(k) && !asks_for_prev(s.layout, k),
        k != '↑' && k != '↓' && k != '🔥',
    ensures
        ({
            let (after, actions) = step(s, m);
            &&& tracks(s, after, k, m.now)
            &&& after.brightness == s.brightness
            &&& after.nyan_active == s.nyan_active
            &&& after.easter_active == s.easter_active
            &&& !after.powered_off
            &&& s.nyan_active ==> actions.len() == 0
            &&& !s.nyan_active ==> actions.len() == 1 && actions[0] == Action::DrawBackground
        }),
{
    lemma_pressed_key(s, m, k);
    law_actions_have_their_characters(s.layout, k);
}

/// The message is a press of some key.
pub open spec fn has_key(m: Message) -> bool {
    m.id == 0 && m.arg is Some
}

/// A message that is no press leaves the badge exactly as it is. The one with
/// the number 1 draws the background unless the animation plays, and no other
/// leads to anything.
pub proof fn law_messages_without_a_key_change_nothing(s: BadgeState, m: Message)
    requires
        !s.powered_off,
        !has_key(m),
    ensures
        step(s, m).0 == s,
        m.id == 1 && !s.nyan_active ==> step(s, m).1.len() == 1 && step(s, m).1[0]
            == Action::DrawBackground,
        m.id != 1 || s.nyan_active ==> step(s, m).1.len() == 0,
{
}

/// A badge that has been powered off makes nothing of any messages.
pub proof fn law_powered_off_badge_ignores_messages(s: BadgeState, messages: Seq<Message>)
    requires
        s.powered_off,
    ensures
        life(s, messages).0 == s,
        life(s, messages).1.len() == 0,
    decreases messages.len(),
{
    if messages.len() > 0 {
        law_powered_off_badge_ignores_messages(s, messages.drop_last());
    }
}

/// After power-on the badge is on, at full brightness, with no animation and
/// nothing held.
pub proof fn law_badge_powers_on_bright_and_still(layout: Layout)
    ensures
        ({
            let s = initial_state(layout);
            &&& s.layout == layout
            &&& s.brightness == 255
            &&& !s.powered_off && !s.nyan_active && !s.easter_active
            &&& s.hold.key == '\0'
        }),
{
}

proof fn lemma_life_keeps_the_invariant(s: BadgeState, messages: Seq<Message>)
    requires
        s.wf(),
    ensures
        life(s, messages).0.wf(),
        life(s, messages).0.layout == s.layout,
    decreases messages.len(),
{
    if messages.len() > 0 {
        let before = life(s, messages.drop_last()).0;
        let m = messages.last();
        lemma_life_keeps_the_invariant(s, messages.drop_last());
        law_every_message_keeps_the_invariant(before, app_op_asked_for(m.id), m.arg, m.now);
    }
}

/// A badge that is on after messages was on all along.
proof fn lemma_on_all_along(s: BadgeState, messages: Seq<Message>)
    requires
        messages.len() > 0,
        !life(s, messages).0.powered_off,
    ensures
        !life(s, messages.drop_last()).0.powered_off,
{
}

/// Redraws and messages that ask for nothing do not matter to the badge,
/// wherever they come among the presses.
pub proof fn law_only_presses_matter(s: BadgeState, messages: Seq<Message>)
    ensures
        life(s, messages).0 == life(s, messages.filter(|m: Message| has_key(m))).0,
    decreases messages.len(),
{
    let keyed = |m: Message| has_key(m);
    reveal(Seq::filter);
    if messages.len() > 0 {
        let earlier = messages.drop_last();
        law_only_presses_matter(s, earlier);
        let before = life(s, earlier).0;
        if has_key(messages.last()) {
            assert(messages.filter(keyed) =~= earlier.filter(keyed).push(messages.last()));
            assert(earlier.filter(keyed).push(messages.last()).drop_last() =~= earlier.filter(
                keyed,
            ));
        } else if !before.powered_off {
            law_messages_without_a_key_change_nothing(before, messages.last());
        }
    }
}

/// The level after a press of `k` at the level `b`.
pub open spec fn level_after(layout: Layout, b: u8, k: char) -> int {
    if k == '↓' {
        if b >= 52 {
            b - 26
        } else {
            26
        }
    } else if k == '↑' && layout == Layout::Brightness {
        if b <= 229 {
            b + 26
        } else {
            255
        }
    } else {
        b as int
    }
}

/// The level after the presses among `messages`.
pub open spec fn level_after_messages(layout: Layout, b: u8, messages: Seq<Message>) -> u8
    decreases messages.len(),
{
    if messages.len() == 0 {
        b
    } else {
        let before = level_after_messages(layout, b, messages.drop_last());
        let m = messages.last();
        if has_key(m) {
            level_after(layout, before, key_of(m.arg->0)) as u8
        } else {
            before
        }
    }
}

proof fn lemma_press_moves_the_level(s: BadgeState, m: Message)
    requires
        s.wf(),
        !s.powered_off,
        has_key(m),
        !step(s, m).0.powered_off,
    ensures
        step(s, m).0.brightness == level_after(s.layout, s.brightness, key_of(m.arg->0)),
{
    let k = key_of(m.arg->0);
    law_low_bits_of_the_argument_are_the_key(m.arg->0);
    if k == '↓' {
        law_down_dims_or_powers_off(s, m);
    } else if k == '↑' && s.layout == Layout::Brightness {
        law_up_brightens_or_plays(s, m);
    } else if asks_for_next(k) || asks_for_prev(s.layout, k) {
        law_pattern_button_sends_its_operation(s, m, k);
    } else if k == '🔥' {
        law_camera_button_scans_and_draws(s, m);
    } else {
        law_other_keys_draw_the_background(s, m, k);
    }
}

/// As long as the badge stays on, its brightness is the one that the presses
/// of up and down have led to, whatever other messages come between.
pub proof fn law_brightness_follows_the_presses(s: BadgeState, messages: Seq<Message>)
    requires
        s.wf(),
        !life(s, messages).0.powered_off,
    ensures
        life(s, messages).0.brightness == level_after_messages(s.layout, s.brightness, messages),
    decreases messages.len(),
{
    if messages.len() > 0 {
        let earlier = messages.drop_last();
        let m = messages.last();
        let before = life(s, earlier).0;
        lemma_on_all_along(s, messages);
        law_brightness_follows_the_presses(s, earlier);
        lemma_life_keeps_the_invariant(s, earlier);
        if has_key(m) {
            lemma_press_moves_the_level(before, m);
        } else {
            law_messages_without_a_key_change_nothing(before, m);
        }
    }
}

proof fn lemma_driver_follows_the_actions(d: DriverView, a: Seq<Action>, b: Seq<Action>)
    ensures
        driver_after_actions(d, a + b) == driver_after_actions(driver_after_actions(d, a), b),
    decreases b.len(),
{
    if b.len() == 0 {
        assert(a + b =~= a);
    } else {
        lemma_driver_follows_the_actions(d, a, b.drop_last());
        assert((a + b).drop_last() =~= a + b.drop_last());
    }
}

/// Over all messages the driver keeps the brightness of the badge, if the
/// messages that the badge sends are served.
pub proof fn law_driver_and_badge_agree_over_all_messages(
    s: BadgeState,
    messages: Seq<Message>,
    d: DriverView,
)
    requires
        d.brightness == s.brightness,
    ensures
        driver_after_actions(d, life(s, messages).1).brightness == life(s, messages).0.brightness,
    decreases messages.len(),
{
    if messages.len() > 0 {
        let (before, earlier) = life(s, messages.drop_last());
        let m = messages.last();
        let between = driver_after_actions(d, earlier);
        law_driver_and_badge_agree_over_all_messages(s, messages.drop_last(), d);
        law_driver_keeps_the_brightness_of_the_badge(
            before,
            app_op_asked_for(m.id),
            m.arg,
            m.now,
            between,
        );
        lemma_driver_follows_the_actions(d, earlier, step(before, m).1);
    }
}

/// How far a message moves the pattern: one place forward if it is a press of
/// a button for the next one, and one back if of a button for the previous one.
pub open spec fn place_moved(layout: Layout, m: Message) -> int {
    let k = key_of(m.arg->0);
    if has_key(m) && asks_for_next(k) {
        1
    } else if has_key(m) && asks_for_prev(layout, k) {
        -1
    } else {
        0
    }
}

/// How far `messages` move the pattern.
pub open spec fn places_moved(layout: Layout, messages: Seq<Message>) -> int
    decreases messages.len(),
{
    if messages.len() == 0 {
        0
    } else {
        places_moved(layout, messages.drop_last()) + place_moved(layout, messages.last())
    }
}

/// The message is no operation of the LED service on the pattern.
spec fn leaves_the_pattern(a: Action) -> bool {
    match a {
        Action::SendLed(m) => m.op == LedCtlOp::SetBrightness,
        _ => true,
    }
}

proof fn lemma_pattern_is_left(d: DriverView, actions: Seq<Action>)
    requires
        forall|i: int| 0 <= i < actions.len() ==> leaves_the_pattern(#[trigger] actions[i]),
    ensures
        driver_after_actions(d, actions).pattern == d.pattern,
    decreases actions.len(),
{
    if actions.len() > 0 {
        lemma_pattern_is_left(d, actions.drop_last());
        assert(leaves_the_pattern(actions[actions.len() - 1]));
    }
}

/// A message for a neighbouring pattern moves the pattern by one place.
proof fn lemma_operation_moves_the_pattern(d: DriverView, op: LedCtlOp)
    requires
        op == LedCtlOp::Next || op == LedCtlOp::Prev,
    ensures
        pattern_number(driver_after_message(d, LedMessage { op, arg: 0 }).pattern) == (
        pattern_number(d.pattern) + if op == LedCtlOp::Next {
            1int
        } else {
            -1int
        }) % 5,
{
    law_neighbour_is_swapped_to(d, Some(0));
    law_numbers_below_five_stand_for_patterns(d.pattern, 0);
}

proof fn lemma_driver_after_one_action(d: DriverView, m: LedMessage)
    ensures
        driver_after_actions(d, seq![Action::SendLed(m)]) == driver_after_message(d, m),
{
    let one = seq![Action::SendLed(m)];
    assert(one.drop_last() =~= Seq::<Action>::empty());
    assert(driver_after_actions(d, one.drop_last()) == d);
}

/// One operation among actions that leave the pattern.
proof fn lemma_one_operation(d: DriverView, actions: Seq<Action>, n: int, op: LedCtlOp)
    requires
        0 <= n < actions.len(),
        op == LedCtlOp::Next || op == LedCtlOp::Prev,
        actions[n] == Action::SendLed(LedMessage { op, arg: 0 }),
        forall|i: int|
            0 <= i < actions.len() && i != n ==> leaves_the_pattern(#[trigger] actions[i]),
    ensures
        pattern_number(driver_after_actions(d, actions).pattern) == (pattern_number(d.pattern)
            + if op == LedCtlOp::Next {
            1int
        } else {
            -1int
        }) % 5,
{
    let (a, b) = (actions.take(n), actions.skip(n + 1));
    let m = LedMessage { op, arg: 0 };
    let before = driver_after_actions(d, a);
    let one = seq![Action::SendLed(m)];
    assert(actions =~= (a + one) + b);
    lemma_driver_follows_the_actions(d, a + one, b);
    lemma_driver_follows_the_actions(d, a, one);
    lemma_pattern_is_left(d, a);
    lemma_driver_after_one_action(before, m);
    lemma_operation_moves_the_pattern(before, op);
    lemma_pattern_is_left(driver_after_message(before, m), b);
}

proof fn lemma_step_moves_the_pattern(s: BadgeState, m: Message, d: DriverView)
    requires
        s.wf(),
        !step(s, m).0.powered_off,
        !step(s, m).1.contains(Action::SetNyan(true)),
    ensures
        pattern_number(driver_after_actions(d, step(s, m).1).pattern) == (pattern_number(d.pattern)
            + place_moved(s.layout, m)) % 5,
{
    let (after, actions) = step(s, m);
    let k = key_of(m.arg->0);
    law_numbers_below_five_stand_for_patterns(d.pattern, 0);
    if has_key(m) {
        law_low_bits_of_the_argument_are_the_key(m.arg->0);
        if asks_for_next(k) || asks_for_prev(s.layout, k) {
            law_pattern_button_sends_its_operation(s, m, k);
            let n = if s.nyan_active {
                2int
            } else {
                1int
            };
            lemma_one_operation(
                d,
                actions,
                n,
                if asks_for_next(k) {
                    LedCtlOp::Next
                } else {
                    LedCtlOp::Prev
                },
            );
        } else {
            if k == '↓' {
                law_down_dims_or_powers_off(s, m);
            } else if k == '↑' {
                law_up_brightens_or_plays(s, m);
                if actions.len() == 2 && actions[1] == Action::SetNyan(true) {
                    assert(actions.contains(Action::SetNyan(true)));
                }
            } else if k == '🔥' {
                law_camera_button_scans_and_draws(s, m);
            } else {
                law_other_keys_draw_the_background(s, m, k);
            }
            lemma_pattern_is_left(d, actions);
        }
    } else {
        law_messages_without_a_key_change_nothing(s, m);
        lemma_pattern_is_left(d, actions);
    }
}

proof fn lemma_in_neither(a: Seq<Action>, b: Seq<Action>, x: Action)
    requires
        !(a + b).contains(x),
    ensures
        !a.contains(x),
        !b.contains(x),
{
    assert forall|i: int| 0 <= i < a.len() implies a[i] != x by {
        assert((a + b)[i] == a[i]);
    }
    assert forall|i: int| 0 <= i < b.len() implies b[i] != x by {
        assert((a + b)[a.len() + i] == b[i]);
    }
}

proof fn lemma_moves_add_up(d: DriverView, a: Seq<Action>, b: Seq<Action>, x: int, y: int)
    requires
        ({
            let between = driver_after_actions(d, a);
            &&& pattern_number(between.pattern) == (pattern_number(d.pattern) + x) % 5
            &&& pattern_number(driver_after_actions(between, b).pattern) == (pattern_number(
                between.pattern,
            ) + y) % 5
        }),
    ensures
        pattern_number(driver_after_actions(d, a + b).pattern) == (pattern_number(d.pattern) + (x
            + y)) % 5,
{
    lemma_driver_follows_the_actions(d, a, b);
    let n = pattern_number(d.pattern) as int;
    assert(((n + x) % 5 + y) % 5 == (n + (x + y)) % 5);
}

/// As long as the badge stays on and starts no animation, the pattern that
/// runs has moved one place forward for each press of a button for the next
/// pattern and one back for each press of one for the previous pattern,
/// whatever other messages come between, if what the badge sends is served.
pub proof fn law_pattern_follows_the_buttons(s: BadgeState, messages: Seq<Message>, d: DriverView)
    requires
        s.wf(),
        !life(s, messages).0.powered_off,
        !life(s, messages).1.contains(Action::SetNyan(true)),
    ensures
        pattern_number(driver_after_actions(d, life(s, messages).1).pattern) == (pattern_number(
            d.pattern,
        ) + places_moved(s.layout, messages)) % 5,
    decreases messages.len(),
{
    law_numbers_below_five_stand_for_patterns(d.pattern, 0);
    if messages.len() > 0 {
        let (before, earlier) = life(s, messages.drop_last());
        let m = messages.last();
        lemma_on_all_along(s, messages);
        lemma_life_keeps_the_invariant(s, messages.drop_last());
        lemma_in_neither(earlier, step(before, m).1, Action::SetNyan(true));
        law_pattern_follows_the_buttons(s, messages.drop_last(), d);
        lemma_step_moves_the_pattern(before, m, driver_after_actions(d, earlier));
        lemma_moves_add_up(
            d,
            earlier,
            step(before, m).1,
            places_moved(s.layout, messages.drop_last()),
            place_moved(s.layout, m),
        );
    }
}

proof fn lemma_pressing_is_a_life(s: BadgeState, k: char, times: Seq<u64>)
    ensures
        life(s, presses_at(k, times)).0 == after_presses(s, k, times),
    decreases times.len(),
{
    if times.len() > 0 {
        let messages = presses_at(k, times);
        lemma_pressing_is_a_life(s, k, times.drop_last());
        assert(messages.drop_last() =~= presses_at(k, times.drop_last()));
        let before = life(s, messages.drop_last()).0;
        if !before.powered_off {
            lemma_pressed_key(before, messages.last(), k);
        }
    }
}

/// Where up is for the patterns, messages of down that is held power the badge
/// off exactly from the first one on that comes at least 1.5 s after the hold
/// began.
pub proof fn law_messages_of_down_held_power_off(s: BadgeState, times: Seq<u64>)
    requires
        s.wf(),
        !s.powered_off,
        s.layout == Layout::Patterns,
        times.len() > 0,
        forall|i: int|
            0 < i < times.len() ==> times[i - 1] <= #[trigger] times[i] <= times[i - 1] + 400,
        s.hold.key != '↓' || times[0] > s.hold.last_ms + 400,
    ensures
        life(s, presses_at('↓', times)).0.powered_off <==> times.last() - times[0] >= 1500,
{
    lemma_pressing_is_a_life(s, '↓', times);
    law_press_goes_on_with_a_hold_or_begins_one(s.hold, '↓', times[0], 0);
    law_holding_down_powers_off(s, times);
}

/// Where up and down are for the brightness, messages of down that is held
/// never power the badge off within three seconds, and have done so after
/// three seconds and ten presses; until then each one dims.
pub proof fn law_messages_of_down_held_dim_and_then_power_off(s: BadgeState, times: Seq<u64>)
    requires
        s.wf(),
        !s.powered_off,
        s.layout == Layout::Brightness,
        times.len() > 0,
        forall|i: int|
            0 < i < times.len() ==> times[i - 1] <= #[trigger] times[i] <= times[i - 1] + 400,
        s.hold.key != '↓' || times[0] > s.hold.last_ms + 400,
    ensures
        ({
            let after = life(s, presses_at('↓', times)).0;
            &&& times.last() - times[0] < 3000 ==> !after.powered_off
            &&& times.last() - times[0] >= 3000 && times.len() > 9 ==> after.powered_off
            &&& !after.powered_off ==> after.brightness == if s.brightness - 26 * times.len()
                >= 26 {
                s.brightness - 26 * times.len()
            } else {
                26
            }
        }),
{
    lemma_pressing_is_a_life(s, '↓', times);
    law_press_goes_on_with_a_hold_or_begins_one(s.hold, '↓', times[0], 0);
    law_holding_down_dims_and_then_powers_off(s, times);
    law_presses_add_up(s.brightness, times.len());
}

/// Where up is for the brightness, messages of up that is held for ten seconds
/// leave the badge at full brightness with the animation on.
pub proof fn law_messages_of_up_held_start_the_animation(s: BadgeState, times: Seq<u64>)
    requires
        s.wf(),
        !s.powered_off,
        s.layout == Layout::Brightness,
        times.len() > 0,
        forall|i: int|
            0 < i < times.len() ==> times[i - 1] <= #[trigger] times[i] <= times[i - 1] + 400,
        s.hold.key != '↑' || times[0] > s.hold.last_ms + 400,
        times.last() - times[0] >= 10000,
    ensures
        life(s, presses_at('↑', times)).0.nyan_active,
        life(s, presses_at('↑', times)).0.brightness == 255,
{
    lemma_pressing_is_a_life(s, '↑', times);
    law_press_goes_on_with_a_hold_or_begins_one(s.hold, '↑', times[0], 0);
    law_holding_up_brightens_and_then_starts_the_animation(s, times);
}

/// Whether the animation plays after `actions`.
pub open spec fn plays_after(actions: Seq<Action>, before: bool) -> bool
    decreases actions.len(),
{
    if actions.len() == 0 {
        before
    } else {
        match actions.last() {
            Action::SetNyan(on) => on,
            _ => plays_after(actions.drop_last(), before),
        }
    }
}

/// The player does what the badge takes it to do: after each message the
/// animation plays exactly if the badge counts it as playing.
pub proof fn law_player_follows_the_badge(s: BadgeState, m: Message)
    requires
        s.wf(),
    ensures
        plays_after(step(s, m).1, s.nyan_active) == step(s, m).0.nyan_active,
{
    reveal_with_fuel(plays_after, 7);
}

} // verus!
