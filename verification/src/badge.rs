//! The badge application: what a button press or a redraw request leads to.
//!
//! [`Badge`] decides, and hands out the [`Action`]s that are to be carried
//! out in order.

use crate::bio::pattern::{pattern_number, PatternKind};
use crate::keys::{
    button_of, decode_key, held_ms, hold_after, key_of, no_hold, Button, Hold, Layout,
};
use crate::leds::{LedCtlOp, LedMessage, INITIAL_BRIGHTNESS};
use vstd::prelude::*;

verus! {

/// The name that the application is registered under.
pub const SERVER_NAME_LEDS: &'static str = "_dc34_leds_";

/// The dimmest level, about 10%: dimming never turns the LEDs off.
pub const BRIGHTNESS_MIN: u8 = 26;

/// The brightest level, 100%.
pub const BRIGHTNESS_MAX: u8 = 255;

/// One press, about 10%.
pub const BRIGHTNESS_STEP: u8 = 26;

/// Down held this long powers off, where up and down change the brightness
/// and the LEDs are at their dimmest.
pub const POWEROFF_HOLD_AT_MIN_MS: u64 = 3000;

/// Down held this long powers off, where up is for the patterns. The presses
/// of a hold come at most 400 ms apart, so the badge powers off after one and
/// a half to two seconds.
pub const POWEROFF_HOLD_MS: u64 = 1500;

/// Up held this long at full brightness starts the animation.
pub const EASTER_HOLD_MS: u64 = 10000;

/// How long the badge waits for the button to be let go before it sleeps: any
/// button that is down would wake it again.
pub const RELEASE_WAIT_MS: u64 = 3000;

/// The controls of the badge.
pub const BADGE_LAYOUT: Layout = Layout::Patterns;

/// Messages that the application handles.
#[derive(Debug, Clone, Copy, PartialEq, Eq, Structural)]
pub enum LedAppOp {
    /// A key was pressed.
    KeyPress,
    /// The background is due to be drawn again.
    Redraw,
    /// Anything else.
    Invalid,
}

/// The message with the number `id`.
pub open spec fn app_op_asked_for(id: usize) -> LedAppOp {
    if id == 0 {
        LedAppOp::KeyPress
    } else if id == 1 {
        LedAppOp::Redraw
    } else {
        LedAppOp::Invalid
    }
}

impl LedAppOp {
    /// The message with the number `id`; an unknown number asks for nothing.
    pub fn decode(id: usize) -> (op: Self)
        ensures
            op == app_op_asked_for(id),
    {
        match id {
            0 => LedAppOp::KeyPress,
            1 => LedAppOp::Redraw,
            _ => LedAppOp::Invalid,
        }
    }

    /// The number of this message.
    pub fn as_usize(self) -> (id: usize)
        ensures
            id == match self {
                LedAppOp::KeyPress => 0usize,
                LedAppOp::Redraw => 1usize,
                LedAppOp::Invalid => 2usize,
            },
            app_op_asked_for(id) == self,
    {
        match self {
            LedAppOp::KeyPress => 0,
            LedAppOp::Redraw => 1,
            LedAppOp::Invalid => 2,
        }
    }
}

/// Something that is to be done.
#[derive(Debug, Clone, Copy, PartialEq, Eq, Structural)]
pub enum Action {
    /// Send a message to the LED control server.
    SendLed(LedMessage),
    /// Draw the background.
    DrawBackground,
    /// Start or stop the animation on the screen.
    SetNyan(bool),
    /// Scan a QR code with the camera.
    AcquireQr,
    /// Blank the frame buffer.
    ClearScreen,
    /// Bring the frame buffer to the screen.
    FlushScreen,
    /// Wait this many milliseconds.
    Sleep(u64),
    /// Put the badge to sleep.
    DeepSleep,
    /// Do nothing ever after.
    Halt,
}

/// What the application knows.
#[derive(Debug, Clone, Copy, PartialEq, Eq, Structural)]
pub struct BadgeState {
    pub layout: Layout,
    pub brightness: u8,
    pub hold: Hold,
    /// The animation has been started and not been cancelled since.
    pub easter_active: bool,
    /// The animation owns the screen.
    pub nyan_active: bool,
    pub powered_off: bool,
}

/// The state after power-on.
pub open spec fn initial_state(layout: Layout) -> BadgeState {
    BadgeState {
        layout,
        brightness: 255,
        hold: no_hold(),
        easter_active: false,
        nyan_active: false,
        powered_off: false,
    }
}

impl BadgeState {
    /// The brightness is in range; the animation owns the screen exactly
    /// while it is latched, and never when the badge is off.
    pub open spec fn wf(self) -> bool {
        &&& BRIGHTNESS_MIN <= self.brightness <= BRIGHTNESS_MAX
        &&& self.powered_off ==> !self.nyan_active
        &&& !self.powered_off ==> self.nyan_active == self.easter_active
    }
}

/// The level one press brighter.
pub open spec fn brighter(b: u8) -> u8 {
    if b + 26 <= 255 {
        (b + 26) as u8
    } else {
        255
    }
}

/// The level one press dimmer.
pub open spec fn dimmer(b: u8) -> u8 {
    if b - 26 >= 26 {
        (b - 26) as u8
    } else {
        26
    }
}

/// Draw the background, unless the animation owns the screen.
pub open spec fn refresh(s: BadgeState) -> Seq<Action> {
    if s.nyan_active {
        Seq::empty()
    } else {
        seq![Action::DrawBackground]
    }
}

/// The message that sets the brightness.
pub open spec fn brightness_message(level: u8) -> Action {
    Action::SendLed(LedMessage { op: LedCtlOp::SetBrightness, arg: level as usize })
}

/// The message that loads the rainbow.
pub open spec fn rainbow_message() -> Action {
    Action::SendLed(
        LedMessage {
            op: LedCtlOp::SetPattern,
            arg: pattern_number(PatternKind::Rainbow) as usize,
        },
    )
}

/// The message that moves to a neighbouring pattern.
pub open spec fn pattern_message(op: LedCtlOp) -> Action {
    Action::SendLed(LedMessage { op, arg: 0 })
}

/// A new brightness, with its message, and the background.
pub open spec fn change_brightness(s: BadgeState, level: u8) -> (BadgeState, Seq<Action>) {
    (
        BadgeState { brightness: level, ..s },
        seq![brightness_message(level)] + refresh(s),
    )
}

/// The up button, held for `held`.
pub open spec fn on_up(s: BadgeState, held: u64) -> (BadgeState, Seq<Action>) {
    if s.brightness < 255 {
        change_brightness(s, brighter(s.brightness))
    } else if !s.easter_active && held >= 10000 {
        (
            BadgeState { easter_active: true, nyan_active: true, ..s },
            seq![rainbow_message(), Action::SetNyan(true)],
        )
    } else {
        (s, Seq::empty())
    }
}

/// Holding the down button for `held` powers the badge off.
pub open spec fn power_off_due(s: BadgeState, held: u64) -> bool {
    match s.layout {
        Layout::Patterns => held >= 1500,
        Layout::Brightness => s.brightness <= 26 && held >= 3000,
    }
}

/// Blank the screen, wait for the button to be let go, sleep.
pub open spec fn power_off_actions() -> Seq<Action> {
    seq![
        Action::SetNyan(false),
        Action::ClearScreen,
        Action::FlushScreen,
        Action::Sleep(3000),
        Action::DeepSleep,
        Action::Halt,
    ]
}

/// The down button, held for `held`.
pub open spec fn on_down(s: BadgeState, held: u64) -> (BadgeState, Seq<Action>) {
    if power_off_due(s, held) {
        (BadgeState { nyan_active: false, powered_off: true, ..s }, power_off_actions())
    } else if s.brightness > 26 {
        change_brightness(s, dimmer(s.brightness))
    } else {
        (s, Seq::empty())
    }
}

/// The camera button.
pub open spec fn on_camera(s: BadgeState) -> (BadgeState, Seq<Action>) {
    (
        BadgeState { easter_active: false, nyan_active: false, ..s },
        seq![Action::SetNyan(false), Action::AcquireQr, Action::DrawBackground],
    )
}

/// A pattern button: it cancels the animation, and the background returns.
pub open spec fn on_pattern(s: BadgeState, op: LedCtlOp) -> (BadgeState, Seq<Action>) {
    if s.nyan_active {
        (
            BadgeState { easter_active: false, nyan_active: false, ..s },
            seq![
                Action::SetNyan(false),
                Action::DrawBackground,
                pattern_message(op),
                Action::DrawBackground,
            ],
        )
    } else {
        (s, seq![Action::SetNyan(false), pattern_message(op), Action::DrawBackground])
    }
}

/// A press of the key `k` at `now`.
pub open spec fn on_key(s: BadgeState, k: char, now: u64) -> (BadgeState, Seq<Action>) {
    let hold = hold_after(s.hold, k, now);
    let held = held_ms(hold, now);
    let t = BadgeState { hold, ..s };
    match button_of(s.layout, k) {
        Button::Up => on_up(t, held),
        Button::Down => on_down(t, held),
        Button::Camera => on_camera(t),
        Button::Prev => on_pattern(t, LedCtlOp::Prev),
        Button::Next => on_pattern(t, LedCtlOp::Next),
        Button::Other => (t, refresh(t)),
    }
}

/// A message, with the argument of a key event if it has one, at `now`. A
/// badge that has been powered off takes none.
pub open spec fn on_message(s: BadgeState, op: LedAppOp, arg: Option<usize>, now: u64) -> (
    BadgeState,
    Seq<Action>,
) {
    if s.powered_off {
        (s, Seq::empty())
    } else {
        match (op, arg) {
            (LedAppOp::KeyPress, Some(a)) => on_key(s, key_of(a), now),
            (LedAppOp::Redraw, _) => (s, refresh(s)),
            _ => (s, Seq::empty()),
        }
    }
}

/// The badge application.
pub struct Badge {
    state: BadgeState,
}

impl View for Badge {
    type V = BadgeState;

    closed spec fn view(&self) -> BadgeState {
        self.state
    }
}

impl Badge {
    #[verifier::type_invariant]
    spec fn inv(self) -> bool {
        self.state.wf()
    }

    /// The badge after power-on, with the controls that it has.
    pub fn power_on() -> (b: Self)
        ensures
            b@ == initial_state(Layout::Patterns),
            b@.wf(),
    {
        Badge::new(BADGE_LAYOUT)
    }

    /// A badge after power-on, with the controls of `layout`.
    pub fn new(layout: Layout) -> (b: Self)
        ensures
            b@ == initial_state(layout),
            b@.wf(),
    {
        Badge {
            state: BadgeState {
                layout,
                brightness: INITIAL_BRIGHTNESS,
                hold: Hold::new(),
                easter_active: false,
                nyan_active: false,
                powered_off: false,
            },
        }
    }

    /// What the badge knows.
    pub fn state(&self) -> (s: BadgeState)
        ensures
            s == self@,
            s.wf(),
    {
        proof {
            use_type_invariant(self);
        }
        self.state
    }

    /// Takes a message: its number, its argument if it is a scalar message,
    /// and the time.
    pub fn handle_message(&mut self, id: usize, arg: Option<usize>, now: u64) -> (actions: Vec<
        Action,
    >)
        ensures
            (final(self)@, actions@) == on_message(old(self)@, app_op_asked_for(id), arg, now),
            final(self)@.wf(),
    {
        self.handle(LedAppOp::decode(id), arg, now)
    }

    /// Takes a message whose number has been decoded.
    pub fn handle(&mut self, op: LedAppOp, arg: Option<usize>, now: u64) -> (actions: Vec<Action>)
        ensures
            (final(self)@, actions@) == on_message(old(self)@, op, arg, now),
            final(self)@.wf(),
    {
        proof {
            use_type_invariant(&*self);
        }
        if self.state.powered_off {
            return Vec::new();
        }
        match op {
            LedAppOp::KeyPress => match arg {
                Some(a) => self.key_press(decode_key(a), now),
                None => Vec::new(),
            },
            LedAppOp::Redraw => self.refreshed(),
            LedAppOp::Invalid => Vec::new(),
        }
    }

    /// Takes a press of the key `k` at `now`.
    pub fn key_press(&mut self, k: char, now: u64) -> (actions: Vec<Action>)
        requires
            !old(self)@.powered_off,
        ensures
            (final(self)@, actions@) == on_key(old(self)@, k, now),
            final(self)@.wf(),
    {
        proof {
            use_type_invariant(&*self);
        }
        let mut hold = self.state.hold;
        let held: u64 = hold.press(k, now);
        self.state.hold = hold;
        match self.state.layout.button(k) {
            Button::Up => self.up(held),
            Button::Down => self.down(held),
            Button::Camera => self.camera(),
            Button::Prev => self.pattern(LedCtlOp::Prev),
            Button::Next => self.pattern(LedCtlOp::Next),
            Button::Other => self.refreshed(),
        }
    }

    fn refreshed(&self) -> (actions: Vec<Action>)
        ensures
            actions@ == refresh(self@),
    {
        let mut actions: Vec<Action> = Vec::new();
        if !self.state.nyan_active {
            actions.push(Action::DrawBackground);
        }
        assert(actions@ =~= refresh(self@));
        actions
    }

    fn set_level(&mut self, level: u8) -> (actions: Vec<Action>)
        requires
            BRIGHTNESS_MIN <= level,
        ensures
            (final(self)@, actions@) == change_brightness(old(self)@, level),
    {
        proof {
            use_type_invariant(&*self);
        }
        self.state.brightness = level;
        let mut actions: Vec<Action> = Vec::new();
        actions.push(
            Action::SendLed(LedMessage { op: LedCtlOp::SetBrightness, arg: level as usize }),
        );
        if !self.state.nyan_active {
            actions.push(Action::DrawBackground);
        }
        assert(actions@ =~= change_brightness(old(self)@, level).1);
        actions
    }

    fn up(&mut self, held: u64) -> (actions: Vec<Action>)
        requires
            !old(self)@.powered_off,
        ensures
            (final(self)@, actions@) == on_up(old(self)@, held),
    {
        proof {
            use_type_invariant(&*self);
        }
        let brightness: u8 = self.state.brightness;
        if brightness >= BRIGHTNESS_MAX {
            if !self.state.easter_active && held >= EASTER_HOLD_MS {
                let mut state = self.state;
                state.easter_active = true;
                state.nyan_active = true;
                self.state = state;
                let rainbow: usize = PatternKind::Rainbow.as_u32() as usize;
                let actions = vec![
                    Action::SendLed(LedMessage { op: LedCtlOp::SetPattern, arg: rainbow }),
                    Action::SetNyan(true),
                ];
                assert(actions@ =~= on_up(old(self)@, held).1);
                actions
            } else {
                Vec::new()
            }
        } else {
            let level: u8 = if brightness <= BRIGHTNESS_MAX - BRIGHTNESS_STEP {
                brightness + BRIGHTNESS_STEP
            } else {
                BRIGHTNESS_MAX
            };
            self.set_level(level)
        }
    }

    fn down(&mut self, held: u64) -> (actions: Vec<Action>)
        requires
            !old(self)@.powered_off,
        ensures
            (final(self)@, actions@) == on_down(old(self)@, held),
    {
        proof {
            use_type_invariant(&*self);
        }
        let brightness: u8 = self.state.brightness;
        let power_off = match self.state.layout {
            Layout::Patterns => held >= POWEROFF_HOLD_MS,
            Layout::Brightness => brightness <= BRIGHTNESS_MIN && held >= POWEROFF_HOLD_AT_MIN_MS,
        };
        if power_off {
            let mut state = self.state;
            state.nyan_active = false;
            state.powered_off = true;
            self.state = state;
            let actions = vec![
                Action::SetNyan(false),
                Action::ClearScreen,
                Action::FlushScreen,
                Action::Sleep(RELEASE_WAIT_MS),
                Action::DeepSleep,
                Action::Halt,
            ];
            assert(actions@ =~= power_off_actions());
            actions
        } else if brightness > BRIGHTNESS_MIN {
            let level: u8 = if brightness >= BRIGHTNESS_MIN + BRIGHTNESS_STEP {
                brightness - BRIGHTNESS_STEP
            } else {
                BRIGHTNESS_MIN
            };
            self.set_level(level)
        } else {
            Vec::new()
        }
    }

    fn camera(&mut self) -> (actions: Vec<Action>)
        ensures
            (final(self)@, actions@) == on_camera(old(self)@),
    {
        proof {
            use_type_invariant(&*self);
        }
        let mut state = self.state;
        state.easter_active = false;
        state.nyan_active = false;
        self.state = state;
        let actions = vec![Action::SetNyan(false), Action::AcquireQr, Action::DrawBackground];
        assert(actions@ =~= on_camera(old(self)@).1);
        actions
    }

    fn pattern(&mut self, op: LedCtlOp) -> (actions: Vec<Action>)
        ensures
            (final(self)@, actions@) == on_pattern(old(self)@, op),
    {
        proof {
            use_type_invariant(&*self);
        }
        let mut actions: Vec<Action> = Vec::new();
        actions.push(Action::SetNyan(false));
        if self.state.nyan_active {
            let mut state = self.state;
            state.easter_active = false;
            state.nyan_active = false;
            self.state = state;
            actions.push(Action::DrawBackground);
        }
        actions.push(Action::SendLed(LedMessage { op, arg: 0 }));
        actions.push(Action::DrawBackground);
        assert(actions@ =~= on_pattern(old(self)@, op).1);
        actions
    }
}

} // verus!
