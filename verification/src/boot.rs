//! What the badge application does after power-on, before it takes messages.

use crate::badge::{LedAppOp, SERVER_NAME_LEDS};
use crate::leds::LEDS_CTL_SERVER;
use vstd::prelude::*;

verus! {

/// How often the watchdog is fed that the boot stage leaves running.
pub const WATCHDOG_PERIOD_MS: u64 = 2000;

/// How often the application asks itself to draw the background again, so
/// that it survives what others draw.
pub const REDRAW_PERIOD_MS: u64 = 2000;

/// How long USB takes to come up.
pub const USB_SETTLE_MS: u64 = 500;

/// How long the graphics server takes to set the display up. A frame that is
/// drawn earlier is lost.
pub const DISPLAY_SETTLE_MS: u64 = 1500;

/// One step of the way up.
#[derive(Debug, Clone, Copy, PartialEq, Eq)]
pub enum BootStep {
    /// Start to feed the watchdog, once in this many milliseconds.
    FeedWatchdog(u64),
    /// Set the USB serial device up.
    StartUsb,
    /// Wait this many milliseconds.
    Sleep(u64),
    /// Have the log output mirrored to USB, as a
    /// [`MirrorHook`](crate::mirror::MirrorHook) says.
    HookLogMirror,
    /// Register the application's server under this name.
    RegisterServer(&'static str),
    /// Connect to the graphics server.
    ConnectScreen,
    /// Draw the background.
    DrawBackground,
    /// Have key events sent to the server of this name, as messages with this
    /// number.
    ListenForKeys(&'static str, usize),
    /// Start the LED control service.
    StartLeds,
    /// Wait for the server of this name, and connect to it.
    ConnectLeds(&'static str),
    /// Start to send the application a message with this number, once in this
    /// many milliseconds.
    TickRedraw(usize, u64),
    /// Start the animation player.
    StartPlayer,
}

/// The way up. The watchdog comes first: it waits for nothing.
pub open spec fn boot_sequence() -> Seq<BootStep> {
    seq![
        BootStep::FeedWatchdog(2000),
        BootStep::StartUsb,
        BootStep::Sleep(500),
        BootStep::HookLogMirror,
        BootStep::RegisterServer("_dc34_leds_"),
        BootStep::Sleep(1500),
        BootStep::ConnectScreen,
        BootStep::DrawBackground,
        BootStep::ListenForKeys("_dc34_leds_", 0),
        BootStep::StartLeds,
        BootStep::ConnectLeds("_oem_led_"),
        BootStep::TickRedraw(1, 2000),
        BootStep::StartPlayer,
    ]
}

/// The steps of the way up, in order.
pub fn boot_steps() -> (steps: Vec<BootStep>)
    ensures
        steps@ == boot_sequence(),
{
    let steps = vec![
        BootStep::FeedWatchdog(WATCHDOG_PERIOD_MS),
        BootStep::StartUsb,
        BootStep::Sleep(USB_SETTLE_MS),
        BootStep::HookLogMirror,
        BootStep::RegisterServer(SERVER_NAME_LEDS),
        BootStep::Sleep(DISPLAY_SETTLE_MS),
        BootStep::ConnectScreen,
        BootStep::DrawBackground,
        BootStep::ListenForKeys(SERVER_NAME_LEDS, LedAppOp::KeyPress.as_usize()),
        BootStep::StartLeds,
        BootStep::ConnectLeds(LEDS_CTL_SERVER),
        BootStep::TickRedraw(LedAppOp::Redraw.as_usize(), REDRAW_PERIOD_MS),
        BootStep::StartPlayer,
    ];
    assert(steps@ =~= boot_sequence());
    steps
}

} // verus!
