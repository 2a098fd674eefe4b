//! The LED driver: it brings a BIO core up with an animation program, swaps
//! the program at runtime, and dims it.
//!
//! The driver decides which call comes next; the owner of the co-processor
//! makes it and hands the reply back. While calls are outstanding the driver
//! lives inside a [`Startup`] or a [`Switch`].

use super::hal::{
    claim_pin, map_pin, pin_io_config, refusal_as_failure, release_pin, write_pin, BioCall,
    BioCore, BioError, BioReply, CoreRequirement, Fifo, FifoEventConfig, IoConfigMode,
    ResourceGrant, ResourceSpec,
};
use super::pattern::{next, next_of, prev, prev_of, PatternKind};
use super::script::{OnError, Script, ScriptProgress, ScriptStep, ScriptView};
use vstd::prelude::*;

verus! {

/// Quanta per second that a program runs with: 150 ns nominal.
pub const QUANTUM_HZ: u32 = 6_666_667;

/// The most words that may wait in FIFO 1 before another one is written.
pub const TX_FIFO_LIMIT: u32 = 7;

/// The bit that marks a word as a brightness update. Bit 31 marks control
/// words; the words of the handshake have neither bit.
pub const BRIGHTNESS_TAG: u32 = 0x4000_0000;

/// What a driver is asked to start with.
#[derive(Debug, Clone, Copy, PartialEq, Eq, Structural)]
pub struct StartupRequest {
    pub pin: u8,
    pub led_count: u8,
    pub io_mode: IoConfigMode,
    pub pattern: PatternKind,
    pub brightness: u8,
}

/// What a running driver knows.
#[verifier::ext_equal]
pub struct DriverView {
    pub pin: u8,
    pub led_count: u8,
    pub grant_id: u32,
    pub cores: Seq<BioCore>,
    pub quantum_hz: u32,
    pub pattern: PatternKind,
    pub brightness: u8,
}

impl DriverView {
    /// The pin is one of the 32 pins, the grant holds a core to run on, and the
    /// quantum is the nominal one.
    pub open spec fn wf(self) -> bool {
        self.pin < 32 && self.cores.len() > 0 && self.quantum_hz == 6_666_667
    }

    /// The same driver with another pattern loaded.
    pub open spec fn with_pattern(self, pattern: PatternKind) -> Self {
        DriverView { pattern, ..self }
    }

    /// The same driver at another brightness.
    pub open spec fn with_brightness(self, brightness: u8) -> Self {
        DriverView { brightness, ..self }
    }
}

/// The driver that `request` asks for, on a grant.
pub open spec fn requested_driver(
    request: StartupRequest,
    grant_id: u32,
    cores: Seq<BioCore>,
) -> DriverView {
    DriverView {
        pin: request.pin,
        led_count: request.led_count,
        grant_id,
        cores,
        quantum_hz: QUANTUM_HZ,
        pattern: request.pattern,
        brightness: request.brightness,
    }
}

/// A step whose failure ends the script with its error.
pub open spec fn returning(call: BioCall) -> ScriptStep {
    ScriptStep { call, on_error: OnError::Return }
}

/// A step whose failure is a panic.
pub open spec fn panicking(call: BioCall) -> ScriptStep {
    ScriptStep { call, on_error: OnError::Panic }
}

/// A step that cannot fail, or whose failure does not matter.
pub open spec fn ignoring(call: BioCall) -> ScriptStep {
    ScriptStep { call, on_error: OnError::Ignore }
}

/// What a freshly loaded program waits for: its pin, then the number of LEDs,
/// then the brightness.
pub open spec fn handshake_words(d: DriverView) -> Seq<u32> {
    seq![d.pin as u32, d.led_count as u32, d.brightness as u32]
}

/// The call that loads the program of `pattern` onto the driver's core.
pub open spec fn load_call(d: DriverView, pattern: PatternKind) -> BioCall {
    BioCall::InitCore { core: d.cores[0], program: pattern, quantum_hz: d.quantum_hz }
}

/// The trigger that raises the event of FIFO 1 as soon as it holds a word.
pub open spec fn fifo_trigger() -> FifoEventConfig {
    FifoEventConfig {
        which: Fifo::Fifo1,
        trigger_slot: 0,
        level: 1,
        trigger_less_than: false,
        trigger_greater_than: true,
        trigger_equal_to: true,
    }
}

/// What the driver claims: any one core, FIFO 1 and one pin that it names
/// later, in its own name.
pub open spec fn led_resources() -> ResourceSpec {
    ResourceSpec {
        claimer: "LedDriver",
        cores: [CoreRequirement::Any],
        fifos: [Fifo::Fifo1],
        static_pins: [],
        dynamic_pin_count: 1,
    }
}

/// The claim that comes before everything else.
pub open spec fn claim_steps() -> Seq<ScriptStep> {
    seq![returning(BioCall::ClaimResources { spec: led_resources() })]
}

/// The calls that bring `d` up once its resources have been granted.
pub open spec fn bring_up_steps(d: DriverView, io_mode: IoConfigMode) -> Seq<ScriptStep> {
    seq![
        returning(load_call(d, d.pattern)),
        ignoring(BioCall::SetCoreRunState { grant_id: d.grant_id, run: true }),
        returning(BioCall::ClaimDynamicPin { pin: d.pin, claimer: led_resources().claimer }),
        panicking(BioCall::SetupIoConfig { io: pin_io_config(d.pin, io_mode) }),
        returning(BioCall::GetCoreHandle { fifo: Fifo::Fifo1 }),
        returning(BioCall::GetCoreHandle { fifo: Fifo::Fifo2 }),
        panicking(BioCall::SetupFifoEventTriggers { trigger: fifo_trigger() }),
        ignoring(BioCall::WriteTx { word: handshake_words(d)[0] }),
        ignoring(BioCall::WriteTx { word: handshake_words(d)[1] }),
        ignoring(BioCall::WriteTx { word: handshake_words(d)[2] }),
    ]
}

/// The calls that take the running program of `d` down and bring the one of
/// `target` up in its place.
pub open spec fn switch_steps(d: DriverView, target: PatternKind) -> Seq<ScriptStep> {
    seq![
        ignoring(BioCall::SetCoreRunState { grant_id: d.grant_id, run: false }),
        returning(BioCall::DeInitCore { core: d.cores[0] }),
        returning(load_call(d, target)),
        ignoring(BioCall::SetupIoConfig { io: pin_io_config(d.pin, IoConfigMode::Overwrite) }),
        ignoring(BioCall::SetCoreRunState { grant_id: d.grant_id, run: true }),
        ignoring(BioCall::WriteTx { word: handshake_words(d)[0] }),
        ignoring(BioCall::WriteTx { word: handshake_words(d)[1] }),
        ignoring(BioCall::WriteTx { word: handshake_words(d)[2] }),
    ]
}

/// The calls that unload every core of `d` and give back what it holds.
pub open spec fn release_steps(d: DriverView) -> Seq<ScriptStep> {
    d.cores.map_values(|core: BioCore| panicking(BioCall::DeInitCore { core })) + seq![
        panicking(BioCall::ReleaseDynamicPin { pin: d.pin, claimer: led_resources().claimer }),
        panicking(BioCall::ReleaseResources { grant_id: d.grant_id }),
    ]
}

/// The word that tells a running program its brightness.
pub open spec fn brightness_word(level: u8) -> u32 {
    (0x4000_0000 + level) as u32
}

fn step_returning(call: BioCall) -> (s: ScriptStep)
    ensures
        s == returning(call),
{
    ScriptStep { call, on_error: OnError::Return }
}

fn step_panicking(call: BioCall) -> (s: ScriptStep)
    ensures
        s == panicking(call),
{
    ScriptStep { call, on_error: OnError::Panic }
}

fn step_ignoring(call: BioCall) -> (s: ScriptStep)
    ensures
        s == ignoring(call),
{
    ScriptStep { call, on_error: OnError::Ignore }
}

/// The driver of the LED strip, with a program running.
pub struct LedDriver {
    pin: u8,
    led_count: u8,
    grant_id: u32,
    cores: Vec<BioCore>,
    quantum_hz: u32,
    pattern: PatternKind,
    brightness: u8,
}

impl View for LedDriver {
    type V = DriverView;

    closed spec fn view(&self) -> DriverView {
        DriverView {
            pin: self.pin,
            led_count: self.led_count,
            grant_id: self.grant_id,
            cores: self.cores@,
            quantum_hz: self.quantum_hz,
            pattern: self.pattern,
            brightness: self.brightness,
        }
    }
}

impl LedDriver {
    #[verifier::type_invariant]
    spec fn inv(self) -> bool {
        self.pin < 32 && self.cores@.len() > 0 && self.quantum_hz == QUANTUM_HZ
    }

    /// What the driver claims: any one core, FIFO 1 and one dynamic pin.
    pub fn resource_spec() -> (spec: ResourceSpec)
        ensures
            spec == led_resources(),
            spec.claimer@ == "LedDriver"@,
            spec.cores@ == seq![CoreRequirement::Any],
            spec.fifos@ == seq![Fifo::Fifo1],
            spec.static_pins@ == Seq::<u8>::empty(),
            spec.dynamic_pin_count == 1,
    {
        let spec = ResourceSpec {
            claimer: "LedDriver",
            cores: [CoreRequirement::Any],
            fifos: [Fifo::Fifo1],
            static_pins: [],
            dynamic_pin_count: 1,
        };
        assert(spec.cores@ =~= seq![CoreRequirement::Any]);
        assert(spec.fifos@ =~= seq![Fifo::Fifo1]);
        assert(spec.static_pins@ =~= Seq::<u8>::empty());
        spec
    }

    /// Starts to bring a driver up: first its resources are claimed, then the
    /// program of `initial_pattern` is loaded and told its pin, the number of
    /// LEDs and the brightness.
    pub fn new(
        bio_pin: u8,
        led_count: u8,
        io_mode: Option<IoConfigMode>,
        initial_pattern: PatternKind,
        initial_brightness: u8,
    ) -> (s: Startup)
        requires
            bio_pin < 32,
        ensures
            s@ == StartupView::start(
                StartupRequest {
                    pin: bio_pin,
                    led_count,
                    io_mode: match io_mode {
                        Some(mode) => mode,
                        None => IoConfigMode::Overwrite,
                    },
                    pattern: initial_pattern,
                    brightness: initial_brightness,
                },
            ),
    {
        let request = StartupRequest {
            pin: bio_pin,
            led_count,
            io_mode: match io_mode {
                Some(mode) => mode,
                None => IoConfigMode::Overwrite,
            },
            pattern: initial_pattern,
            brightness: initial_brightness,
        };
        let claim = BioCall::ClaimResources { spec: LedDriver::resource_spec() };
        let steps = vec![step_returning(claim)];
        assert(steps@ =~= claim_steps());
        Startup { request, granted: None, script: Script::new(steps) }
    }

    /// The pattern currently loaded on the BIO core.
    pub fn pattern(&self) -> (p: PatternKind)
        ensures
            p == self@.pattern,
            self@.wf(),
    {
        proof {
            use_type_invariant(self);
        }
        self.pattern
    }

    /// Current brightness, 0..255.
    pub fn brightness(&self) -> (b: u8)
        ensures
            b == self@.brightness,
            self@.wf(),
    {
        proof {
            use_type_invariant(self);
        }
        self.brightness
    }

    /// Starts to swap the running program for the one of `pattern`. There is
    /// nothing to do if that one is already loaded.
    ///
    /// A core runs the one program it was brought up with, so it is taken
    /// down and brought up again; the new program then waits for the same
    /// handshake as the first one did.
    pub fn set_pattern(self, pattern: PatternKind) -> (p: SwitchProgress)
        ensures
            p@ == set_pattern_outcome(self@, pattern),
    {
        if pattern == self.pattern {
            return SwitchProgress::Done(self, Ok(()));
        }
        let script = self.switch_script(pattern);
        SwitchProgress::Call(Switch { driver: self, target: pattern, script })
    }

    /// Moves to the next pattern in the order, wrapping around.
    pub fn next_pattern(self) -> (p: SwitchProgress)
        ensures
            p@ == set_pattern_outcome(self@, next_of(self@.pattern)),
    {
        let p = next(self.pattern);
        self.set_pattern(p)
    }

    /// Moves to the previous pattern in the order, wrapping around.
    pub fn prev_pattern(self) -> (p: SwitchProgress)
        ensures
            p@ == set_pattern_outcome(self@, prev_of(self@.pattern)),
    {
        let p = prev(self.pattern);
        self.set_pattern(p)
    }

    /// Changes the brightness, 0..255, and gives the word that tells the
    /// running program so. It is to be written by [`write_when_room`].
    pub fn set_brightness(&mut self, level: u8) -> (word: u32)
        ensures
            word == brightness_word(level),
            word == 0x4000_0000 + level,
            final(self)@ == old(self)@.with_brightness(level),
            final(self)@.brightness == level,
            final(self)@.pattern == old(self)@.pattern,
    {
        proof {
            use_type_invariant(&*self);
        }
        self.brightness = level;
        let bits: u32 = level as u32;
        assert(0x4000_0000u32 | (bits & 0xFFu32) == (0x4000_0000u32 + bits) as u32) by (bit_vector)
            requires
                bits <= 0xFFu32,
        ;
        BRIGHTNESS_TAG | (bits & 0xFF)
    }

    /// The calls that unload the driver's cores and give back what it holds.
    pub fn release(self) -> (s: Script)
        ensures
            s@ == ScriptView::start(release_steps(self@)),
    {
        proof {
            use_type_invariant(&self);
        }
        let mut steps: Vec<ScriptStep> = Vec::new();
        let mut i: usize = 0;
        while i < self.cores.len()
            invariant
                i <= self.cores@.len(),
                steps@ == release_steps(self@).take(i as int),
            decreases self.cores@.len() - i,
        {
            steps.push(step_panicking(BioCall::DeInitCore { core: self.cores[i] }));
            i = i + 1;
            assert(steps@ =~= release_steps(self@).take(i as int));
        }
        steps.push(step_panicking(release_pin(self.pin, LedDriver::resource_spec().claimer)));
        steps.push(step_panicking(BioCall::ReleaseResources { grant_id: self.grant_id }));
        assert(steps@ =~= release_steps(self@));
        Script::new(steps)
    }

    /// The calls that swap the program.
    fn switch_script(&self, target: PatternKind) -> (s: Script)
        ensures
            s@ == ScriptView::start(switch_steps(self@, target)),
    {
        proof {
            use_type_invariant(self);
        }
        let core = self.cores[0];
        let grant_id: u32 = self.grant_id;
        let load = BioCall::InitCore { core, program: target, quantum_hz: self.quantum_hz };
        let steps = vec![
            step_ignoring(BioCall::SetCoreRunState { grant_id, run: false }),
            step_returning(BioCall::DeInitCore { core }),
            step_returning(load),
            step_ignoring(
                BioCall::SetupIoConfig { io: map_pin(self.pin, IoConfigMode::Overwrite) },
            ),
            step_ignoring(BioCall::SetCoreRunState { grant_id, run: true }),
            step_ignoring(write_pin(self.pin)),
            step_ignoring(BioCall::WriteTx { word: self.led_count as u32 }),
            step_ignoring(BioCall::WriteTx { word: self.brightness as u32 }),
        ];
        assert(steps@ =~= switch_steps(self@, target));
        Script::new(steps)
    }
}

/// The call that writes `word`, once FIFO 1 holds few enough words to take
/// it; until it does, its fill level is to be read again.
pub fn write_when_room(word: u32, fifo_level: u32) -> (call: Option<BioCall>)
    ensures
        call == if fifo_level <= TX_FIFO_LIMIT {
            Some(BioCall::WriteTx { word })
        } else {
            None::<BioCall>
        },
        call is Some <==> fifo_level < 8,
        call is Some ==> call->0 == (BioCall::WriteTx { word }),
{
    if fifo_level > TX_FIFO_LIMIT {
        None
    } else {
        Some(BioCall::WriteTx { word })
    }
}

/// What [`LedDriver::set_pattern`] leads to.
pub open spec fn set_pattern_outcome(d: DriverView, pattern: PatternKind) -> SwitchOutcome {
    if pattern == d.pattern {
        SwitchOutcome::Done(d, Ok(()))
    } else {
        SwitchOutcome::Call(SwitchView::start(d, pattern))
    }
}

/// A driver that is swapping its program.
#[verifier::ext_equal]
pub struct SwitchView {
    pub driver: DriverView,
    pub target: PatternKind,
    pub script: ScriptView,
}

impl SwitchView {
    /// The first call of the swap is pending.
    pub open spec fn start(driver: DriverView, target: PatternKind) -> Self {
        SwitchView { driver, target, script: ScriptView::start(switch_steps(driver, target)) }
    }

    /// How the swap goes on after `reply` to its pending call. The driver
    /// counts the new pattern as loaded only when every call has been made.
    pub open spec fn next(self, reply: BioReply) -> SwitchOutcome {
        match self.script.progress(reply) {
            ScriptProgress::Call(_) => SwitchOutcome::Call(
                SwitchView { script: self.script.advanced(), ..self },
            ),
            ScriptProgress::Finished => SwitchOutcome::Done(
                self.driver.with_pattern(self.target),
                Ok(()),
            ),
            ScriptProgress::Failed(e) => SwitchOutcome::Done(self.driver, Err(e)),
            ScriptProgress::Panicked => SwitchOutcome::Panicked,
        }
    }
}

/// What becomes of a swap.
#[verifier::ext_equal]
pub enum SwitchOutcome {
    Call(SwitchView),
    Done(DriverView, Result<(), BioError>),
    Panicked,
}

/// A driver that is swapping its program, with a call pending.
pub struct Switch {
    driver: LedDriver,
    target: PatternKind,
    script: Script,
}

impl View for Switch {
    type V = SwitchView;

    closed spec fn view(&self) -> SwitchView {
        SwitchView { driver: self.driver@, target: self.target, script: self.script@ }
    }
}

/// Where a swap stands.
pub enum SwitchProgress {
    /// The next call is pending.
    Call(Switch),
    /// The swap is over, for better or worse.
    Done(LedDriver, Result<(), BioError>),
    /// The badge cannot go on.
    Panicked,
}

impl View for SwitchProgress {
    type V = SwitchOutcome;

    open spec fn view(&self) -> SwitchOutcome {
        match *self {
            SwitchProgress::Call(s) => SwitchOutcome::Call(s@),
            SwitchProgress::Done(d, r) => SwitchOutcome::Done(d@, r),
            SwitchProgress::Panicked => SwitchOutcome::Panicked,
        }
    }
}

impl Switch {
    /// The pending call.
    pub fn call(&self) -> (call: BioCall)
        ensures
            self@.script.running(),
            call == self@.script.pending().call,
    {
        self.script.call()
    }

    /// Takes the reply to the pending call.
    pub fn resume(self, reply: BioReply) -> (p: SwitchProgress)
        ensures
            p@ == self@.next(reply),
    {
        let mut driver = self.driver;
        let target = self.target;
        let mut script = self.script;
        match script.resume(reply) {
            ScriptProgress::Call(_) => SwitchProgress::Call(Switch { driver, target, script }),
            ScriptProgress::Finished => {
                proof {
                    use_type_invariant(&driver);
                }
                driver.pattern = target;
                SwitchProgress::Done(driver, Ok(()))
            },
            ScriptProgress::Failed(e) => SwitchProgress::Done(driver, Err(e)),
            ScriptProgress::Panicked => SwitchProgress::Panicked,
        }
    }
}

/// A driver on its way up.
#[verifier::ext_equal]
pub struct StartupView {
    pub request: StartupRequest,
    /// The grant and its cores, once there is one.
    pub granted: Option<(u32, Seq<BioCore>)>,
    pub script: ScriptView,
}

impl StartupView {
    /// The claim is pending.
    pub open spec fn start(request: StartupRequest) -> Self {
        StartupView { request, granted: None, script: ScriptView::start(claim_steps()) }
    }

    /// The grant is there, and the bring-up is at its first call.
    pub open spec fn granted(request: StartupRequest, grant_id: u32, cores: Seq<BioCore>) -> Self {
        StartupView {
            request,
            granted: Some((grant_id, cores)),
            script: ScriptView::start(
                bring_up_steps(requested_driver(request, grant_id, cores), request.io_mode),
            ),
        }
    }

    /// How the startup goes on after `reply` to its pending call.
    pub open spec fn next(self, reply: BioReply) -> StartupOutcome {
        match self.granted {
            None => match reply {
                BioReply::Granted(grant) => if grant.cores@.len() > 0 {
                    StartupOutcome::Call(
                        StartupView::granted(self.request, grant.grant_id, grant.cores@),
                    )
                } else {
                    StartupOutcome::Panicked
                },
                BioReply::Failed(e) => StartupOutcome::Failed(e),
                BioReply::Refused(e) => StartupOutcome::Failed(refusal_as_failure(e)),
                BioReply::Done => StartupOutcome::Panicked,
                BioReply::Missing => StartupOutcome::Panicked,
            },
            Some((grant_id, cores)) => match self.script.progress(reply) {
                ScriptProgress::Call(_) => StartupOutcome::Call(
                    StartupView { script: self.script.advanced(), ..self },
                ),
                ScriptProgress::Finished => StartupOutcome::Ready(
                    requested_driver(self.request, grant_id, cores),
                ),
                ScriptProgress::Failed(e) => StartupOutcome::Failed(e),
                ScriptProgress::Panicked => StartupOutcome::Panicked,
            },
        }
    }
}

/// What becomes of a startup on a reply.
#[verifier::ext_equal]
pub enum StartupOutcome {
    Call(StartupView),
    Ready(DriverView),
    Failed(BioError),
    Panicked,
}

/// A driver on its way up, with a call pending.
pub struct Startup {
    request: StartupRequest,
    granted: Option<ResourceGrant>,
    script: Script,
}

impl View for Startup {
    type V = StartupView;

    closed spec fn view(&self) -> StartupView {
        StartupView {
            request: self.request,
            granted: match self.granted {
                Some(grant) => Some((grant.grant_id, grant.cores@)),
                None => None,
            },
            script: self.script@,
        }
    }
}

/// Where a startup stands after a reply.
pub enum StartupProgress {
    /// The next call is pending.
    Call(Startup),
    /// The driver is up.
    Ready(LedDriver),
    /// There is no driver; what was claimed so far stays claimed.
    Failed(BioError),
    /// The badge cannot go on.
    Panicked,
}

impl View for StartupProgress {
    type V = StartupOutcome;

    open spec fn view(&self) -> StartupOutcome {
        match *self {
            StartupProgress::Call(s) => StartupOutcome::Call(s@),
            StartupProgress::Ready(d) => StartupOutcome::Ready(d@),
            StartupProgress::Failed(e) => StartupOutcome::Failed(e),
            StartupProgress::Panicked => StartupOutcome::Panicked,
        }
    }
}

impl Startup {
    #[verifier::type_invariant]
    spec fn inv(self) -> bool {
        &&& self.request.pin < 32
        &&& match self.granted {
            Some(grant) => grant.cores@.len() > 0,
            None => true,
        }
    }

    /// The pending call.
    pub fn call(&self) -> (call: BioCall)
        ensures
            self@.script.running(),
            call == self@.script.pending().call,
    {
        self.script.call()
    }

    /// Takes the reply to the pending call.
    pub fn resume(self, reply: BioReply) -> (p: StartupProgress)
        ensures
            p@ == self@.next(reply),
    {
        proof {
            use_type_invariant(&self);
        }
        let request = self.request;
        match self.granted {
            None => match reply {
                BioReply::Granted(grant) => if grant.cores.len() > 0 {
                    let script = bring_up(request, &grant);
                    StartupProgress::Call(Startup { request, granted: Some(grant), script })
                } else {
                    StartupProgress::Panicked
                },
                BioReply::Failed(e) => StartupProgress::Failed(e),
                BioReply::Refused(e) => StartupProgress::Failed(e.into_bio_error()),
                BioReply::Done => StartupProgress::Panicked,
                BioReply::Missing => StartupProgress::Panicked,
            },
            Some(grant) => {
                let mut script = self.script;
                match script.resume(reply) {
                    ScriptProgress::Call(_) => StartupProgress::Call(
                        Startup { request, granted: Some(grant), script },
                    ),
                    ScriptProgress::Finished => StartupProgress::Ready(
                        LedDriver {
                            pin: request.pin,
                            led_count: request.led_count,
                            grant_id: grant.grant_id,
                            cores: grant.cores,
                            quantum_hz: QUANTUM_HZ,
                            pattern: request.pattern,
                            brightness: request.brightness,
                        },
                    ),
                    ScriptProgress::Failed(e) => StartupProgress::Failed(e),
                    ScriptProgress::Panicked => StartupProgress::Panicked,
                }
            },
        }
    }
}

/// The bring-up of the driver that `request` asks for.
fn bring_up(request: StartupRequest, grant: &ResourceGrant) -> (s: Script)
    requires
        request.pin < 32,
        grant.cores@.len() > 0,
    ensures
        s@ == StartupView::granted(request, grant.grant_id, grant.cores@).script,
{
    let trigger = FifoEventConfig {
        which: Fifo::Fifo1,
        trigger_slot: 0,
        level: 1,
        trigger_less_than: false,
        trigger_greater_than: true,
        trigger_equal_to: true,
    };
    let load = BioCall::InitCore {
        core: grant.cores[0],
        program: request.pattern,
        quantum_hz: QUANTUM_HZ,
    };
    let steps = vec![
        step_returning(load),
        step_ignoring(BioCall::SetCoreRunState { grant_id: grant.grant_id, run: true }),
        step_returning(claim_pin(request.pin, LedDriver::resource_spec().claimer)),
        step_panicking(BioCall::SetupIoConfig { io: map_pin(request.pin, request.io_mode) }),
        step_returning(BioCall::GetCoreHandle { fifo: Fifo::Fifo1 }),
        step_returning(BioCall::GetCoreHandle { fifo: Fifo::Fifo2 }),
        step_panicking(BioCall::SetupFifoEventTriggers { trigger }),
        step_ignoring(write_pin(request.pin)),
        step_ignoring(BioCall::WriteTx { word: request.led_count as u32 }),
        step_ignoring(BioCall::WriteTx { word: request.brightness as u32 }),
    ];
    assert(steps@ =~= bring_up_steps(
        requested_driver(request, grant.grant_id, grant.cores@),
        request.io_mode,
    ));
    Script::new(steps)
}

} // verus!
