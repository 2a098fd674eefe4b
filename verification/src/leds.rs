//! The LED control service: it owns the driver and serves the operations that
//! the badge application and the BIO server send to it.

use crate::bio::driver::{
    brightness_word, set_pattern_outcome, DriverView, LedDriver, Startup, StartupRequest,
    StartupView, SwitchOutcome, SwitchProgress, SwitchView,
};
use crate::bio::hal::IoConfigMode;
use crate::bio::pattern::{
    law_neighbours_differ, law_neighbours_have_neighbouring_numbers,
    law_numbers_below_five_stand_for_patterns, law_pattern_numbers_round_trip, next_of,
    pattern_number, pattern_of_number, prev_of, PatternKind,
};
use vstd::prelude::*;

verus! {

/// The name that the LED control server is registered under.
///
/// It is fixed: the BIO server waits for a server of this name before it
/// registers itself, so without it no driver would ever come up.
pub const LEDS_CTL_SERVER: &'static str = "_oem_led_";

/// Number of WS2812 LEDs on the badge.
pub const LED_COUNT: u8 = 10;

/// The pin that the strip is wired to.
pub const LED_PIN: u8 = 15;

/// The pattern that the badge starts with.
pub const INITIAL_PATTERN: PatternKind = PatternKind::BrRunner;

/// The brightness that the badge starts with: full.
pub const INITIAL_BRIGHTNESS: u8 = 255;

/// Operations of the LED control server.
#[derive(Debug, Clone, Copy, PartialEq, Eq, Structural)]
pub enum LedCtlOp {
    /// Advance to the next pattern in the ordered list.
    Next,
    /// Go back to the previous pattern in the ordered list.
    Prev,
    /// Anything that is not an operation.
    Invalid,
    /// Load the pattern that the argument is the number of.
    SetPattern,
    /// Change the brightness to the argument, 0..255.
    SetBrightness,
    /// Sent by the BIO server around clock changes, which waits for the reply.
    /// Its number is fixed by that server.
    Pause,
}

/// The number of an operation in a message.
pub open spec fn opcode_of(op: LedCtlOp) -> usize {
    match op {
        LedCtlOp::Next => 0,
        LedCtlOp::Prev => 1,
        LedCtlOp::Invalid => 2,
        LedCtlOp::SetPattern => 3,
        LedCtlOp::SetBrightness => 4,
        LedCtlOp::Pause => 128,
    }
}

/// The operation with the number `id`, if there is one.
pub open spec fn op_with_code(id: usize) -> Option<LedCtlOp> {
    if id == 0 {
        Some(LedCtlOp::Next)
    } else if id == 1 {
        Some(LedCtlOp::Prev)
    } else if id == 2 {
        Some(LedCtlOp::Invalid)
    } else if id == 3 {
        Some(LedCtlOp::SetPattern)
    } else if id == 4 {
        Some(LedCtlOp::SetBrightness)
    } else if id == 128 {
        Some(LedCtlOp::Pause)
    } else {
        None
    }
}

/// The operation that a message with the number `id` asks for.
pub open spec fn op_asked_for(id: usize) -> LedCtlOp {
    match op_with_code(id) {
        Some(op) => op,
        None => LedCtlOp::Invalid,
    }
}

impl LedCtlOp {
    /// The operation with the number `id`, if there is one.
    pub fn from_usize(id: usize) -> (r: Option<Self>)
        ensures
            r == op_with_code(id),
    {
        match id {
            0 => Some(LedCtlOp::Next),
            1 => Some(LedCtlOp::Prev),
            2 => Some(LedCtlOp::Invalid),
            3 => Some(LedCtlOp::SetPattern),
            4 => Some(LedCtlOp::SetBrightness),
            128 => Some(LedCtlOp::Pause),
            _ => None,
        }
    }

    /// The operation that a message with the number `id` asks for; an unknown
    /// number asks for none.
    pub fn decode(id: usize) -> (op: Self)
        ensures
            op == op_asked_for(id),
    {
        match LedCtlOp::from_usize(id) {
            Some(op) => op,
            None => LedCtlOp::Invalid,
        }
    }

    /// The number of this operation.
    pub fn as_usize(self) -> (id: usize)
        ensures
            id == opcode_of(self),
    {
        match self {
            LedCtlOp::Next => 0,
            LedCtlOp::Prev => 1,
            LedCtlOp::Invalid => 2,
            LedCtlOp::SetPattern => 3,
            LedCtlOp::SetBrightness => 4,
            LedCtlOp::Pause => 128,
        }
    }
}

/// A message to the LED control server.
#[derive(Debug, Clone, Copy, PartialEq, Eq, Structural)]
pub struct LedMessage {
    pub op: LedCtlOp,
    pub arg: usize,
}

/// The pattern that the argument of a message is the number of.
pub open spec fn pattern_of_arg(arg: usize) -> Option<PatternKind> {
    if arg <= u32::MAX {
        pattern_of_number(arg as u32)
    } else {
        None
    }
}

/// What serving an operation comes to.
#[verifier::ext_equal]
pub enum ServiceOutcome {
    Switching(SwitchOutcome),
    Write(DriverView, u32),
    Unblock(DriverView, usize),
    Rejected(DriverView),
}

/// The pattern that a message asks for by its number, if it does.
pub open spec fn named_pattern(op: LedCtlOp, arg: Option<usize>) -> Option<PatternKind> {
    match (op, arg) {
        (LedCtlOp::SetPattern, Some(v)) => pattern_of_arg(v),
        _ => None,
    }
}

/// What serving `op` with `arg` comes to. A message that carries no scalars
/// has no argument.
pub open spec fn service_outcome(
    d: DriverView,
    op: LedCtlOp,
    arg: Option<usize>,
) -> ServiceOutcome {
    match op {
        LedCtlOp::Next => ServiceOutcome::Switching(set_pattern_outcome(d, next_of(d.pattern))),
        LedCtlOp::Prev => ServiceOutcome::Switching(set_pattern_outcome(d, prev_of(d.pattern))),
        LedCtlOp::SetPattern => match named_pattern(op, arg) {
            Some(p) => ServiceOutcome::Switching(set_pattern_outcome(d, p)),
            None => ServiceOutcome::Rejected(d),
        },
        LedCtlOp::SetBrightness => match arg {
            Some(level) if level <= u8::MAX => ServiceOutcome::Write(
                d.with_brightness(level as u8),
                brightness_word(level as u8),
            ),
            _ => ServiceOutcome::Rejected(d),
        },
        LedCtlOp::Pause => ServiceOutcome::Unblock(d, 0),
        LedCtlOp::Invalid => ServiceOutcome::Rejected(d),
    }
}

/// What is left to do for an operation.
pub enum ServiceProgress {
    /// A swap has begun, or was not needed.
    Switching(SwitchProgress),
    /// This word is to be written into FIFO 1 once there is room.
    Write(LedDriver, u32),
    /// The sender waits: this scalar is to be returned to it at once, and the
    /// message must not be replied to again.
    Unblock(LedDriver, usize),
    /// The message asked for nothing that can be served.
    Rejected(LedDriver),
}

impl View for ServiceProgress {
    type V = ServiceOutcome;

    open spec fn view(&self) -> ServiceOutcome {
        match *self {
            ServiceProgress::Switching(p) => ServiceOutcome::Switching(p@),
            ServiceProgress::Write(d, word) => ServiceOutcome::Write(d@, word),
            ServiceProgress::Unblock(d, value) => ServiceOutcome::Unblock(d@, value),
            ServiceProgress::Rejected(d) => ServiceOutcome::Rejected(d@),
        }
    }
}

/// What the driver of the badge is asked to start with.
pub open spec fn badge_request() -> StartupRequest {
    StartupRequest {
        pin: 15,
        led_count: 10,
        io_mode: IoConfigMode::Overwrite,
        pattern: PatternKind::BrRunner,
        brightness: 255,
    }
}

/// Starts to bring up the driver of the badge.
pub fn start_driver() -> (s: Startup)
    ensures
        s@ == StartupView::start(badge_request()),
{
    LedDriver::new(LED_PIN, LED_COUNT, None, INITIAL_PATTERN, INITIAL_BRIGHTNESS)
}

/// Serves one operation.
pub fn serve(driver: LedDriver, op: LedCtlOp, arg: Option<usize>) -> (p: ServiceProgress)
    ensures
        p@ == service_outcome(driver@, op, arg),
{
    match op {
        LedCtlOp::Next => ServiceProgress::Switching(driver.next_pattern()),
        LedCtlOp::Prev => ServiceProgress::Switching(driver.prev_pattern()),
        LedCtlOp::SetPattern => {
            let asked_for = match arg {
                Some(v) => if v <= u32::MAX as usize {
                    PatternKind::from_u32(v as u32)
                } else {
                    None
                },
                None => None,
            };
            match asked_for {
                Some(p) => ServiceProgress::Switching(driver.set_pattern(p)),
                None => ServiceProgress::Rejected(driver),
            }
        },
        LedCtlOp::SetBrightness => {
            match arg {
                Some(level) => if level <= u8::MAX as usize {
                    let mut driver = driver;
                    let word: u32 = driver.set_brightness(level as u8);
                    ServiceProgress::Write(driver, word)
                } else {
                    ServiceProgress::Rejected(driver)
                },
                None => ServiceProgress::Rejected(driver),
            }
        },
        LedCtlOp::Pause => ServiceProgress::Unblock(driver, 0),
        LedCtlOp::Invalid => ServiceProgress::Rejected(driver),
    }
}

/// Serves one message, given by its number and its first argument, if it
/// carries one.
pub fn serve_message(driver: LedDriver, id: usize, arg: Option<usize>) -> (p: ServiceProgress)
    ensures
        p@ == service_outcome(driver@, op_asked_for(id), arg),
{
    serve(driver, LedCtlOp::decode(id), arg)
}

/// Every operation is told from its number, no two share one, and every other
/// number asks for nothing.
pub proof fn law_opcodes_round_trip(op: LedCtlOp, other: LedCtlOp, id: usize)
    ensures
        op_with_code(opcode_of(op)) == Some(op),
        op_asked_for(opcode_of(op)) == op,
        opcode_of(op) == opcode_of(other) <==> op == other,
        op_with_code(id) == Some(op) <==> id == opcode_of(op),
        op_with_code(id) is None ==> op_asked_for(id) == LedCtlOp::Invalid,
{
}

/// A pause and a message that asks for nothing leave the driver as it is, and
/// only a pause is answered at once.
pub proof fn law_pause_and_rejects_leave_the_driver(
    d: DriverView,
    op: LedCtlOp,
    arg: Option<usize>,
)
    ensures
        service_outcome(d, LedCtlOp::Pause, arg) == ServiceOutcome::Unblock(d, 0),
        service_outcome(d, LedCtlOp::Invalid, arg) == ServiceOutcome::Rejected(d),
        service_outcome(d, op, arg) is Unblock ==> op == LedCtlOp::Pause,
        match service_outcome(d, op, arg) {
            ServiceOutcome::Rejected(after) => after == d,
            _ => true,
        },
{
}

/// A pattern or a brightness that is not given, or not one, is not set.
pub proof fn law_only_given_values_are_set(d: DriverView, op: LedCtlOp, arg: Option<usize>)
    ensures
        op == LedCtlOp::SetPattern && named_pattern(op, arg) is None ==> service_outcome(d, op, arg)
            == ServiceOutcome::Rejected(d),
        op == LedCtlOp::SetBrightness && (arg is None || arg->0 > 255) ==> service_outcome(
            d,
            op,
            arg,
        ) == ServiceOutcome::Rejected(d),
{
}

/// Every level from 0 to 255 that is set is the brightness of the driver from
/// then on, and the running program is told that very level; nothing else of
/// the driver changes.
pub proof fn law_level_that_is_set_is_told_and_kept(d: DriverView, level: usize)
    ensures
        match service_outcome(d, LedCtlOp::SetBrightness, Some(level)) {
            ServiceOutcome::Write(after, word) => {
                &&& level <= 255
                &&& after.brightness == level
                &&& word == 0x4000_0000 + level
                &&& word & 0xFF == level
                &&& after.pattern == d.pattern
                &&& after.pin == d.pin
                &&& after.led_count == d.led_count
                &&& after.grant_id == d.grant_id
                &&& after.cores == d.cores
                &&& after.quantum_hz == d.quantum_hz
            },
            ServiceOutcome::Rejected(after) => level > 255 && after == d,
            _ => false,
        },
{
    if level <= 255 {
        let bits = level as u32;
        assert((0x4000_0000u32 + bits) as u32 & 0xFFu32 == bits) by (bit_vector)
            requires
                bits <= 0xFFu32,
        ;
    }
}

/// A running program is told nothing but brightness, and always the one that
/// the driver reports from then on.
pub proof fn law_words_tell_the_brightness_reported(d: DriverView, op: LedCtlOp, arg: Option<usize>)
    ensures
        match service_outcome(d, op, arg) {
            ServiceOutcome::Write(after, word) => {
                &&& op == LedCtlOp::SetBrightness
                &&& arg == Some(after.brightness as usize)
                &&& word & 0xFF == after.brightness
                &&& word - 0x4000_0000 == after.brightness
            },
            _ => true,
        },
{
    match arg {
        Some(level) => law_level_that_is_set_is_told_and_kept(d, level),
        None => {},
    }
}

/// A pattern that is asked for by its number is swapped to, from the driver as
/// it is, unless it is loaded; a number without a pattern is rejected.
pub proof fn law_pattern_with_the_number_is_loaded(d: DriverView, number: usize)
    ensures
        match service_outcome(d, LedCtlOp::SetPattern, Some(number)) {
            ServiceOutcome::Switching(SwitchOutcome::Call(v)) => {
                &&& number < 5
                &&& pattern_number(v.target) == number
                &&& v.target != d.pattern
                &&& v == SwitchView::start(d, v.target)
                &&& v.driver == d
            },
            ServiceOutcome::Switching(SwitchOutcome::Done(after, result)) => {
                &&& pattern_number(d.pattern) == number
                &&& after == d
                &&& result is Ok
            },
            ServiceOutcome::Rejected(after) => number >= 5 && after == d,
            _ => false,
        },
{
    if number < 5 {
        law_numbers_below_five_stand_for_patterns(d.pattern, number as u32);
        law_pattern_numbers_round_trip(d.pattern, number as u32);
    } else if number <= u32::MAX {
        law_numbers_below_five_stand_for_patterns(d.pattern, number as u32);
    }
}

/// `Next` and `Prev` always swap, from the driver as it is, to the pattern
/// with the number after or before, whatever argument comes along.
pub proof fn law_neighbour_is_swapped_to(d: DriverView, arg: Option<usize>)
    ensures
        match service_outcome(d, LedCtlOp::Next, arg) {
            ServiceOutcome::Switching(SwitchOutcome::Call(v)) => {
                &&& v == SwitchView::start(d, v.target)
                &&& v.driver == d
                &&& pattern_number(v.target) == (pattern_number(d.pattern) + 1) % 5
            },
            _ => false,
        },
        match service_outcome(d, LedCtlOp::Prev, arg) {
            ServiceOutcome::Switching(SwitchOutcome::Call(v)) => {
                &&& v == SwitchView::start(d, v.target)
                &&& v.driver == d
                &&& pattern_number(v.target) == (pattern_number(d.pattern) + 4) % 5
            },
            _ => false,
        },
{
    law_neighbours_have_neighbouring_numbers(d.pattern);
    law_neighbours_differ(d.pattern);
    law_numbers_below_five_stand_for_patterns(d.pattern, 0);
}

/// A message is an operation by its number alone, and a number that belongs to
/// none asks for nothing.
pub proof fn law_messages_have_their_numbers(id: usize)
    ensures
        op_asked_for(id) == LedCtlOp::Next <==> id == 0,
        op_asked_for(id) == LedCtlOp::Prev <==> id == 1,
        op_asked_for(id) == LedCtlOp::SetPattern <==> id == 3,
        op_asked_for(id) == LedCtlOp::SetBrightness <==> id == 4,
        op_asked_for(id) == LedCtlOp::Pause <==> id == 128,
        op_with_code(id) is Some <==> id < 5 || id == 128,
{
}

/// What is left to do for an operation is told as it is.
pub proof fn law_service_is_told_as_it_is(p: ServiceProgress)
    ensures
        match p {
            ServiceProgress::Switching(s) => p@ == ServiceOutcome::Switching(s@),
            ServiceProgress::Write(d, word) => p@ == ServiceOutcome::Write(d@, word),
            ServiceProgress::Unblock(d, value) => p@ == ServiceOutcome::Unblock(d@, value),
            ServiceProgress::Rejected(d) => p@ == ServiceOutcome::Rejected(d@),
        },
{
}

} // verus!
