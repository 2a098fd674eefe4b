//! The badge buttons: which characters they send, and how long one is held.

use vstd::prelude::*;

verus! {

/// A character that the right button sends.
pub const RIGHT_KEY: char = '→';

/// A character that the left button sends.
pub const LEFT_KEY: char = '←';

/// The character that the up button sends.
pub const UP_KEY: char = '↑';

/// The character that the down button sends.
pub const DOWN_KEY: char = '↓';

/// The character that the PROG button sends.
pub const CAMERA_KEY: char = '🔥';

/// Presses of one key that come at most this far apart are one hold.
pub const HOLD_REPEAT_GAP_MS: u64 = 400;

/// What the up and down buttons are for.
#[derive(Debug, Clone, Copy, PartialEq, Eq, Structural)]
pub enum Layout {
    /// Up is one more button for the previous pattern, and holding down
    /// powers the badge off.
    Patterns,
    /// Up makes the LEDs brighter and down makes them dimmer. What holding
    /// them does starts at the end of the range.
    Brightness,
}

/// What a key means.
#[derive(Debug, Clone, Copy, PartialEq, Eq, Structural)]
pub enum Button {
    /// Previous pattern.
    Prev,
    /// Next pattern.
    Next,
    /// Brighter.
    Up,
    /// Dimmer, and power off.
    Down,
    /// Camera.
    Camera,
    /// Nothing.
    Other,
}

/// What the key `k` means. Several characters are accepted for an action.
pub open spec fn button_of(layout: Layout, k: char) -> Button {
    if k == '↑' {
        match layout {
            Layout::Patterns => Button::Prev,
            Layout::Brightness => Button::Up,
        }
    } else if k == '↓' {
        Button::Down
    } else if k == '🔥' {
        Button::Camera
    } else if k == '←' || k == 'a' || k == '1' {
        Button::Prev
    } else if k == '→' || k == 'd' || k == '3' {
        Button::Next
    } else {
        Button::Other
    }
}

impl Layout {
    /// What the key `k` means.
    pub fn button(self, k: char) -> (b: Button)
        ensures
            b == button_of(self, k),
    {
        if k == UP_KEY {
            match self {
                Layout::Patterns => Button::Prev,
                Layout::Brightness => Button::Up,
            }
        } else if k == DOWN_KEY {
            Button::Down
        } else if k == CAMERA_KEY {
            Button::Camera
        } else if k == LEFT_KEY || k == 'a' || k == '1' {
            Button::Prev
        } else if k == RIGHT_KEY || k == 'd' || k == '3' {
            Button::Next
        } else {
            Button::Other
        }
    }
}

/// `v` is the number of a character: a Unicode scalar value.
pub open spec fn is_scalar_value(v: int) -> bool {
    0 <= v <= 0xD7FF || 0xE000 <= v <= 0x10FFFF
}

/// `char::from_u32` gives the character with the number `v` if `v` is a
/// Unicode scalar value, and nothing otherwise.
pub assume_specification[ char::from_u32 ](v: u32) -> (r: Option<char>)
    ensures
        r == if is_scalar_value(v as int) {
            Some(v as char)
        } else {
            None::<char>
        },
;

/// The character that a key event carries in its argument. Only the low 32
/// bits count, and what is no character counts as `'\0'`.
pub open spec fn key_of(arg: usize) -> char {
    let code = arg as int % 0x1_0000_0000;
    if is_scalar_value(code) {
        code as char
    } else {
        '\0'
    }
}

/// The character that a key event carries in its argument.
pub fn decode_key(arg: usize) -> (k: char)
    ensures
        k == key_of(arg),
{
    let wide: u64 = arg as u64;
    let code: u32 = #[verifier::truncate] (wide as u32);
    assert(wide as u32 == wide % 0x1_0000_0000u64) by (bit_vector);
    match char::from_u32(code) {
        Some(k) => k,
        None => '\0',
    }
}

/// A key and how long it has been pressed again and again.
#[derive(Debug, Clone, Copy, PartialEq, Eq, Structural)]
pub struct Hold {
    pub key: char,
    /// When the key was first pressed.
    pub first_ms: u64,
    /// When it was last pressed.
    pub last_ms: u64,
}

/// `a - b`, or zero where `b` is the later of the two.
pub open spec fn elapsed(a: u64, b: u64) -> u64 {
    if a >= b {
        (a - b) as u64
    } else {
        0
    }
}

/// A press of `k` at `now` goes on with the hold `h`.
pub open spec fn continues(h: Hold, k: char, now: u64) -> bool {
    k == h.key && elapsed(now, h.last_ms) <= 400
}

/// The hold after a press of `k` at `now`.
pub open spec fn hold_after(h: Hold, k: char, now: u64) -> Hold {
    Hold {
        key: k,
        first_ms: if continues(h, k, now) {
            h.first_ms
        } else {
            now
        },
        last_ms: now,
    }
}

/// How long the key of `h` has been held by `now`.
pub open spec fn held_ms(h: Hold, now: u64) -> u64 {
    elapsed(now, h.first_ms)
}

/// The hold before any key was pressed.
pub open spec fn no_hold() -> Hold {
    Hold { key: '\0', first_ms: 0, last_ms: 0 }
}

impl Hold {
    /// No key has been pressed yet.
    pub fn new() -> (h: Self)
        ensures
            h == no_hold(),
    {
        Hold { key: '\0', first_ms: 0, last_ms: 0 }
    }

    /// Takes a press of `k` at `now`, and says how long it has been held.
    pub fn press(&mut self, k: char, now: u64) -> (held: u64)
        ensures
            *final(self) == hold_after(*old(self), k, now),
            held == held_ms(*final(self), now),
    {
        if !(k == self.key && now.saturating_sub(self.last_ms) <= HOLD_REPEAT_GAP_MS) {
            self.key = k;
            self.first_ms = now;
        }
        self.last_ms = now;
        now.saturating_sub(self.first_ms)
    }
}

/// The presses of one key at `times` follow each other closely enough to be
/// one hold.
pub open spec fn one_hold(times: Seq<u64>) -> bool {
    forall|i: int|
        0 < i < times.len() ==> times[i - 1] <= #[trigger] times[i] <= times[i - 1] + 400
}

/// The hold after presses of `k` at `times`.
pub open spec fn hold_after_presses(h: Hold, k: char, times: Seq<u64>) -> Hold
    decreases times.len(),
{
    if times.len() == 0 {
        h
    } else {
        hold_after(hold_after_presses(h, k, times.drop_last()), k, times.last())
    }
}

/// The first presses of a hold are a hold.
pub(crate) proof fn lemma_prefix_hold(times: Seq<u64>, n: int)
    requires
        0 < n <= times.len(),
        one_hold(times),
    ensures
        one_hold(times.take(n)),
        times.take(n)[0] == times[0],
        times.take(n).last() == times[n - 1],
{
    let before = times.take(n);
    assert forall|i: int| 0 < i < before.len() implies before[i - 1] <= #[trigger] before[i]
        <= before[i - 1] + 400 by {
        assert(times[i - 1] <= times[i] <= times[i - 1] + 400);
    }
}

/// All but the last press of a hold are a hold.
pub(crate) proof fn lemma_shorter_hold(times: Seq<u64>)
    requires
        times.len() > 1,
        one_hold(times),
    ensures
        one_hold(times.drop_last()),
        times.drop_last()[0] == times[0],
{
    lemma_prefix_hold(times, times.len() - 1);
    assert(times.take(times.len() - 1) =~= times.drop_last());
}

/// A hold of `n` presses lasts no longer than the `n - 1` gaps between them
/// can.
pub proof fn law_hold_lasts_as_long_as_its_gaps(times: Seq<u64>)
    requires
        times.len() > 0,
        one_hold(times),
    ensures
        times[0] <= times.last() <= times[0] + 400 * (times.len() - 1),
    decreases times.len(),
{
    if times.len() > 1 {
        lemma_shorter_hold(times);
        law_hold_lasts_as_long_as_its_gaps(times.drop_last());
        assert(times[times.len() - 1] <= times[times.len() - 2] + 400);
    }
}

/// Close presses of one key are held since the first of them.
pub proof fn law_close_presses_are_one_hold(h: Hold, k: char, times: Seq<u64>)
    requires
        times.len() > 0,
        one_hold(times),
        !continues(h, k, times[0]),
    ensures
        ({
            let after = hold_after_presses(h, k, times);
            &&& after == (Hold { key: k, first_ms: times[0], last_ms: times.last() })
            &&& times[0] <= times.last()
            &&& held_ms(after, times.last()) == times.last() - times[0]
        }),
    decreases times.len(),
{
    if times.len() > 1 {
        lemma_shorter_hold(times);
        law_close_presses_are_one_hold(h, k, times.drop_last());
        assert(times[times.len() - 1] <= times[times.len() - 2] + 400);
    } else {
        reveal_with_fuel(hold_after_presses, 2);
        assert(times.drop_last().len() == 0);
    }
}

/// Another key, or a pause longer than the gap, begins a new hold.
pub proof fn law_other_key_or_pause_restarts_the_hold(h: Hold, k: char, now: u64)
    requires
        k != h.key || now > h.last_ms + 400,
    ensures
        hold_after(h, k, now) == (Hold { key: k, first_ms: now, last_ms: now }),
        held_ms(hold_after(h, k, now), now) == 0,
{
}

/// Every character that has an action keeps it in both layouts, but for the
/// up key.
pub proof fn law_layouts_differ_in_the_up_key_only(k: char)
    ensures
        k != '↑' ==> button_of(Layout::Patterns, k) == button_of(Layout::Brightness, k),
        button_of(Layout::Patterns, '↑') == Button::Prev,
        button_of(Layout::Brightness, '↑') == Button::Up,
{
}

/// A key event whose argument is the number of a character is a press of that
/// character, so no two characters are taken for the same key.
pub proof fn law_characters_are_decoded_from_their_numbers(c: char, other: char)
    ensures
        key_of(c as usize) == c,
        c != other ==> key_of(c as usize) != key_of(other as usize),
{
}

/// An argument is a press of the character whose number its low 32 bits are,
/// and of `'\0'` if there is no such character.
pub proof fn law_low_bits_of_the_argument_are_the_key(arg: usize)
    ensures
        ({
            let low = arg as int % 0x1_0000_0000;
            if low <= 0xD7FF || (0xE000 <= low && low <= 0x10FFFF) {
                key_of(arg) as int == low
            } else {
                key_of(arg) == '\0'
            }
        }),
{
}

/// Each action has its characters, and every other character has none.
pub proof fn law_actions_have_their_characters(layout: Layout, k: char)
    ensures
        button_of(layout, k) == Button::Next <==> k == '→' || k == 'd' || k == '3',
        button_of(layout, k) == Button::Prev <==> k == '←' || k == 'a' || k == '1' || (k == '↑'
            && layout == Layout::Patterns),
        button_of(layout, k) == Button::Up <==> k == '↑' && layout == Layout::Brightness,
        button_of(layout, k) == Button::Down <==> k == '↓',
        button_of(layout, k) == Button::Camera <==> k == '🔥',
{
}

/// A press goes on with a hold of the same key if it comes no more than 400 ms
/// after the last press, or before it, and begins a new hold otherwise; the
/// hold lasts from its first press on.
pub proof fn law_press_goes_on_with_a_hold_or_begins_one(h: Hold, k: char, now: u64, later: u64)
    ensures
        ({
            let after = hold_after(h, k, now);
            let goes_on = k == h.key && now <= h.last_ms + 400;
            &&& after.key == k
            &&& after.last_ms == now
            &&& goes_on ==> after.first_ms == h.first_ms
            &&& !goes_on ==> after.first_ms == now
            &&& later >= after.first_ms ==> held_ms(after, later) == later - after.first_ms
            &&& later < after.first_ms ==> held_ms(after, later) == 0
        }),
{
}

/// Before any press nothing is held, and no key goes on with it but `'\0'`.
pub proof fn law_nothing_is_held_at_first(k: char, now: u64)
    ensures
        held_ms(no_hold(), 0) == 0,
        k != '\0' ==> hold_after(no_hold(), k, now) == (Hold {
            key: k,
            first_ms: now,
            last_ms: now,
        }),
{
}

} // verus!
