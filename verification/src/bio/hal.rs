//! The vocabulary of the BIO co-processor: what a driver asks of it, and what
//! it answers.

use super::pattern::PatternKind;
use vstd::prelude::*;

verus! {

/// One of the four cores of the co-processor.
#[derive(Debug, Clone, Copy, PartialEq, Eq, Structural)]
pub enum BioCore {
    Core0,
    Core1,
    Core2,
    Core3,
}

/// One of the four FIFOs between the host and the cores.
#[derive(Debug, Clone, Copy, PartialEq, Eq, Structural)]
pub enum Fifo {
    Fifo0,
    Fifo1,
    Fifo2,
    Fifo3,
}

/// How an [`IoConfig`] is merged with the one in force.
#[derive(Debug, Clone, Copy, PartialEq, Eq, Structural)]
pub enum IoConfigMode {
    /// Every bit is overwritten.
    Overwrite,
    /// Bits that are `1` are set, the others stay.
    SetOnly,
    /// Bits that are `1` are cleared, the others stay.
    ClearOnly,
}

/// The routing of the pins, one bit per pin in each mask.
#[derive(Debug, Clone, Copy, PartialEq, Eq, Structural)]
pub struct IoConfig {
    pub mode: IoConfigMode,
    /// Pins that belong to the co-processor instead of the GPIO block.
    pub mapped: u32,
    /// Inputs that bypass the synchroniser.
    pub sync_bypass: u32,
    /// Outputs with inverted output enable.
    pub oe_inv: u32,
    /// Inverted outputs.
    pub o_inv: u32,
    /// Inverted inputs.
    pub i_inv: u32,
    /// The number of the core whose clock aligns the inputs.
    pub snap_inputs: Option<u8>,
    /// The number of the core whose clock aligns the outputs.
    pub snap_outputs: Option<u8>,
}

/// When a FIFO raises its event bit.
#[derive(Debug, Clone, Copy, PartialEq, Eq, Structural)]
pub struct FifoEventConfig {
    pub which: Fifo,
    /// Which of the two trigger slots of the FIFO is set up.
    pub trigger_slot: u8,
    /// The fill level that the comparisons below refer to.
    pub level: u8,
    pub trigger_less_than: bool,
    pub trigger_greater_than: bool,
    pub trigger_equal_to: bool,
}

/// A demand for one core.
#[derive(Debug, Clone, Copy, PartialEq, Eq, Structural)]
pub enum CoreRequirement {
    /// Any free core.
    Any,
    /// This core and no other.
    Specific(BioCore),
}

/// What a driver claims before it may touch the co-processor: a core, a FIFO,
/// no pin that is known beforehand, and a number of pins that it names later.
#[derive(Debug, Clone, Copy, PartialEq, Eq)]
pub struct ResourceSpec {
    /// The name that the claim is made in.
    pub claimer: &'static str,
    pub cores: [CoreRequirement; 1],
    pub fifos: [Fifo; 1],
    pub static_pins: [u8; 0],
    pub dynamic_pin_count: u8,
}

/// What was granted on a claim.
pub struct ResourceGrant {
    /// Names the grant when it is given back.
    pub grant_id: u32,
    /// The cores, in the order in which they were asked for.
    pub cores: Vec<BioCore>,
}

/// A failure of the co-processor.
#[derive(Debug, Clone, Copy, PartialEq, Eq, Structural)]
pub enum BioError {
    Uninit,
    NoError,
    InvalidCore,
    Oom,
    NoFreeMachines,
    ResourceInUse,
    CodeCheck(usize),
    InternalError,
}

/// A refusal by the resource manager.
#[derive(Debug, Clone, Copy, PartialEq, Eq, Structural)]
pub enum ResourceError {
    /// The "no error" sentinel.
    NoError,
    /// A core that was asked for belongs to someone else.
    CoreUnavailable,
    /// There are not enough free cores.
    InsufficientCores,
    /// A FIFO belongs to someone else.
    FifoUnavailable,
    /// A pin belongs to someone else.
    PinUnavailable,
    /// More dynamic pins would be reserved than there are pins.
    DynamicPinOverflow,
    /// The grant was released before, or never given.
    InvalidGrantId,
    /// A dynamic pin was claimed or released under another name.
    ClaimerMismatch,
    InternalError,
}

/// The failure that a refusal amounts to: apart from the sentinel and an
/// internal error, something is in use.
pub open spec fn refusal_as_failure(e: ResourceError) -> BioError {
    match e {
        ResourceError::NoError => BioError::NoError,
        ResourceError::InternalError => BioError::InternalError,
        _ => BioError::ResourceInUse,
    }
}

impl ResourceError {
    /// The [`BioError`] that stands for this refusal.
    pub fn into_bio_error(self) -> (r: BioError)
        ensures
            r == refusal_as_failure(self),
    {
        match self {
            ResourceError::NoError => BioError::NoError,
            ResourceError::CoreUnavailable => BioError::ResourceInUse,
            ResourceError::InsufficientCores => BioError::ResourceInUse,
            ResourceError::FifoUnavailable => BioError::ResourceInUse,
            ResourceError::PinUnavailable => BioError::ResourceInUse,
            ResourceError::DynamicPinOverflow => BioError::ResourceInUse,
            ResourceError::InvalidGrantId => BioError::ResourceInUse,
            ResourceError::ClaimerMismatch => BioError::ResourceInUse,
            ResourceError::InternalError => BioError::InternalError,
        }
    }
}

/// One call to the co-processor.
#[derive(Debug, Clone, Copy, PartialEq, Eq)]
pub enum BioCall {
    /// Claim what `spec` lists.
    ClaimResources { spec: ResourceSpec },
    /// Load the program of a pattern onto a core, with this many quanta per
    /// second, integer clock dividers only.
    InitCore { core: BioCore, program: PatternKind, quantum_hz: u32 },
    /// Stop a core and unload its program.
    DeInitCore { core: BioCore },
    /// Start or stop the cores of a grant. It cannot fail.
    SetCoreRunState { grant_id: u32, run: bool },
    /// Claim a pin in the name of `claimer`.
    ClaimDynamicPin { pin: u8, claimer: &'static str },
    /// Give a pin back, in the name that it was claimed in.
    ReleaseDynamicPin { pin: u8, claimer: &'static str },
    /// Route the pins.
    SetupIoConfig { io: IoConfig },
    /// Get a handle on a FIFO.
    GetCoreHandle { fifo: Fifo },
    /// Set up the event trigger of a FIFO.
    SetupFifoEventTriggers { trigger: FifoEventConfig },
    /// Write a word into FIFO 1. It cannot fail.
    WriteTx { word: u32 },
    /// Give back what was granted.
    ReleaseResources { grant_id: u32 },
}

/// What came back from a [`BioCall`].
pub enum BioReply {
    /// It was done.
    Done,
    /// The claim was granted.
    Granted(ResourceGrant),
    /// It was accepted, but there was nothing left to hand out.
    Missing,
    /// The co-processor failed.
    Failed(BioError),
    /// The resource manager refused.
    Refused(ResourceError),
}

/// The routing in which no pin is mapped and nothing is inverted, bypassed or
/// aligned.
pub open spec fn blank_io_config() -> IoConfig {
    IoConfig {
        mode: IoConfigMode::Overwrite,
        mapped: 0,
        sync_bypass: 0,
        oe_inv: 0,
        o_inv: 0,
        i_inv: 0,
        snap_inputs: None,
        snap_outputs: None,
    }
}

/// `bao1x_api::bio::IoConfig::default`, field by field: it overwrites, and
/// every mask is zero and no core aligns anything.
#[verifier::external_body]
fn default_io_config() -> (config: IoConfig)
    ensures
        config == blank_io_config(),
{
    let d = bao1x_api::bio::IoConfig::default();
    let mode = match d.mode {
        bao1x_api::bio::IoConfigMode::Overwrite => IoConfigMode::Overwrite,
        bao1x_api::bio::IoConfigMode::SetOnly => IoConfigMode::SetOnly,
        bao1x_api::bio::IoConfigMode::ClearOnly => IoConfigMode::ClearOnly,
    };
    let snap_inputs = match d.snap_inputs { Some(c) => Some(c as u8), None => None };
    let snap_outputs = match d.snap_outputs { Some(c) => Some(c as u8), None => None };
    let (mapped, sync_bypass, oe_inv) = (d.mapped, d.sync_bypass, d.oe_inv);
    let (o_inv, i_inv) = (d.o_inv, d.i_inv);
    IoConfig { mode, mapped, sync_bypass, oe_inv, o_inv, i_inv, snap_inputs, snap_outputs }
}

/// `arbitrary_int::u5::new` followed by `Number::as_u8`: the five-bit number
/// as a byte. Building it panics on a value over 31.
#[verifier::external_body]
fn u5_as_u8(number: u8) -> (r: u8)
    requires
        number < 32,
    ensures
        r == number,
{
    arbitrary_int::Number::as_u8(&arbitrary_int::u5::new(number))
}

/// `arbitrary_int::u5::new` followed by `Number::as_u32`: the five-bit number
/// as a word. Building it panics on a value over 31.
#[verifier::external_body]
fn u5_as_u32(number: u8) -> (r: u32)
    requires
        number < 32,
    ensures
        r == number,
{
    arbitrary_int::Number::as_u32(&arbitrary_int::u5::new(number))
}

/// The mask in which only the bit of `pin` is set.
pub open spec fn pin_mask(pin: u8) -> u32 {
    1u32 << (pin as u32)
}

/// The routing that maps `pin`, and no other pin, to the co-processor.
pub open spec fn pin_io_config(pin: u8, mode: IoConfigMode) -> IoConfig {
    IoConfig { mapped: pin_mask(pin), mode, ..blank_io_config() }
}

/// The routing that maps `pin` to the co-processor.
pub(crate) fn map_pin(pin: u8, mode: IoConfigMode) -> (config: IoConfig)
    requires
        pin < 32,
    ensures
        config == pin_io_config(pin, mode),
{
    let mut config = default_io_config();
    config.mapped = 1u32 << u5_as_u32(pin);
    config.mode = mode;
    config
}

/// The call that claims `pin` in the name of `claimer`.
pub(crate) fn claim_pin(pin: u8, claimer: &'static str) -> (call: BioCall)
    requires
        pin < 32,
    ensures
        call == (BioCall::ClaimDynamicPin { pin, claimer }),
{
    BioCall::ClaimDynamicPin { pin: u5_as_u8(pin), claimer }
}

/// The call that gives `pin` back in the name of `claimer`.
pub(crate) fn release_pin(pin: u8, claimer: &'static str) -> (call: BioCall)
    requires
        pin < 32,
    ensures
        call == (BioCall::ReleaseDynamicPin { pin, claimer }),
{
    BioCall::ReleaseDynamicPin { pin: u5_as_u8(pin), claimer }
}

/// The call that tells a program its pin.
pub(crate) fn write_pin(pin: u8) -> (call: BioCall)
    requires
        pin < 32,
    ensures
        call == (BioCall::WriteTx { word: pin as u32 }),
{
    BioCall::WriteTx { word: u5_as_u32(pin) }
}

/// The mask of a pin has the bit of that pin and no other.
pub proof fn law_pin_mask_is_one_bit(pin: u8, other: u8)
    requires
        pin < 32,
        other < 32,
    ensures
        pin_mask(pin) & pin_mask(other) != 0 <==> pin == other,
{
    let a = pin as u32;
    let b = other as u32;
    assert((1u32 << a) & (1u32 << b) != 0 <==> a == b) by (bit_vector)
        requires
            a < 32,
            b < 32,
    ;
}

} // verus!
