use bao1x_api::bio_resources::ResourceError as Refusal;
use badge_leds::bio::driver::{
    write_when_room, LedDriver, Startup, StartupProgress, SwitchProgress, QUANTUM_HZ,
};
use badge_leds::bio::hal::{
    BioCall, BioCore, BioError, BioReply, CoreRequirement, Fifo, FifoEventConfig, IoConfig,
    IoConfigMode, ResourceError, ResourceGrant, ResourceSpec,
};
use badge_leds::bio::pattern::PatternKind;
use badge_leds::bio::script::{OnError, Script, ScriptProgress, ScriptStep, Verdict};

/// What the driver claims.
const SPEC: ResourceSpec = ResourceSpec {
    claimer: "LedDriver",
    cores: [CoreRequirement::Any],
    fifos: [Fifo::Fifo1],
    static_pins: [],
    dynamic_pin_count: 1,
};

fn grant() -> BioReply {
    BioReply::Granted(ResourceGrant { grant_id: 77, cores: vec![BioCore::Core2] })
}

fn routed(pin: u32, mode: IoConfigMode) -> IoConfig {
    IoConfig {
        mode,
        mapped: 1 << pin,
        sync_bypass: 0,
        oe_inv: 0,
        o_inv: 0,
        i_inv: 0,
        snap_inputs: None,
        snap_outputs: None,
    }
}

fn start() -> Startup {
    LedDriver::new(15, 10, None, PatternKind::BrRunner, 255)
}

fn ready(startup: Startup) -> LedDriver {
    let mut progress = startup.resume(grant());
    loop {
        match progress {
            StartupProgress::Call(s) => progress = s.resume(BioReply::Done),
            StartupProgress::Ready(d) => return d,
            _ => panic!("the driver did not come up"),
        }
    }
}

/// Answers the pending calls by `replies`, then by `Done`, and lists them.
fn run_startup(startup: Startup, replies: Vec<BioReply>) -> (Vec<BioCall>, StartupProgress) {
    let mut calls = vec![startup.call()];
    let mut replies = replies.into_iter();
    let mut progress = startup.resume(replies.next().unwrap_or(BioReply::Done));
    loop {
        match progress {
            StartupProgress::Call(s) => {
                calls.push(s.call());
                progress = s.resume(replies.next().unwrap_or(BioReply::Done));
            }
            over => return (calls, over),
        }
    }
}

fn run_switch(
    progress: SwitchProgress,
    replies: Vec<BioReply>,
) -> (Vec<BioCall>, SwitchProgress) {
    let mut calls = vec![];
    let mut replies = replies.into_iter();
    let mut progress = progress;
    loop {
        match progress {
            SwitchProgress::Call(s) => {
                calls.push(s.call());
                progress = s.resume(replies.next().unwrap_or(BioReply::Done));
            }
            over => return (calls, over),
        }
    }
}

fn done(progress: SwitchProgress) -> (LedDriver, Result<(), BioError>) {
    match progress {
        SwitchProgress::Done(d, r) => (d, r),
        _ => panic!("the swap is not over"),
    }
}

#[test]
fn driver_claims_one_core_one_fifo_and_one_pin() {
    let spec = LedDriver::resource_spec();
    assert_eq!(spec.claimer, "LedDriver");
    assert_eq!(spec.cores, [CoreRequirement::Any]);
    assert_eq!(spec.fifos, [Fifo::Fifo1]);
    assert!(spec.static_pins.is_empty());
    assert_eq!(spec.dynamic_pin_count, 1);
}

#[test]
fn startup_makes_every_call_in_order() {
    let (calls, end) = run_startup(start(), vec![grant()]);
    assert_eq!(
        calls,
        vec![
            BioCall::ClaimResources { spec: SPEC },
            BioCall::InitCore {
                core: BioCore::Core2,
                program: PatternKind::BrRunner,
                quantum_hz: 6_666_667,
            },
            BioCall::SetCoreRunState { grant_id: 77, run: true },
            BioCall::ClaimDynamicPin { pin: 15, claimer: "LedDriver" },
            BioCall::SetupIoConfig { io: routed(15, IoConfigMode::Overwrite) },
            BioCall::GetCoreHandle { fifo: Fifo::Fifo1 },
            BioCall::GetCoreHandle { fifo: Fifo::Fifo2 },
            BioCall::SetupFifoEventTriggers {
                trigger: FifoEventConfig {
                    which: Fifo::Fifo1,
                    trigger_slot: 0,
                    level: 1,
                    trigger_less_than: false,
                    trigger_greater_than: true,
                    trigger_equal_to: true,
                },
            },
            BioCall::WriteTx { word: 15 },
            BioCall::WriteTx { word: 10 },
            BioCall::WriteTx { word: 255 },
        ]
    );
    match end {
        StartupProgress::Ready(d) => {
            assert_eq!(d.pattern(), PatternKind::BrRunner);
            assert_eq!(d.brightness(), 255);
        }
        _ => panic!("the driver did not come up"),
    }
}

#[test]
fn startup_routes_the_highest_pin_in_the_mode_asked_for() {
    let startup =
        LedDriver::new(31, 3, Some(IoConfigMode::SetOnly), PatternKind::Police, 26);
    let (calls, _) = run_startup(startup, vec![grant()]);
    assert_eq!(calls[3], BioCall::ClaimDynamicPin { pin: 31, claimer: "LedDriver" });
    assert_eq!(
        calls[4],
        BioCall::SetupIoConfig { io: routed(31, IoConfigMode::SetOnly) }
    );
    assert_eq!(calls[8], BioCall::WriteTx { word: 31 });
    assert_eq!(calls[9], BioCall::WriteTx { word: 3 });
    assert_eq!(calls[10], BioCall::WriteTx { word: 26 });
}

#[test]
fn blank_routing_is_the_one_of_the_bio_api() {
    let d = bao1x_api::bio::IoConfig::default();
    let (calls, _) = run_startup(LedDriver::new(0, 1, None, PatternKind::Police, 26), vec![grant()]);
    match calls[4] {
        BioCall::SetupIoConfig { io } => {
            assert_eq!(d.mode, bao1x_api::bio::IoConfigMode::Overwrite);
            assert_eq!(io.mode, IoConfigMode::Overwrite);
            assert_eq!(io.mapped, d.mapped | 1);
            assert_eq!(io.sync_bypass, d.sync_bypass);
            assert_eq!(io.oe_inv, d.oe_inv);
            assert_eq!(io.o_inv, d.o_inv);
            assert_eq!(io.i_inv, d.i_inv);
            assert_eq!(io.snap_inputs, d.snap_inputs.map(|c| c as u8));
            assert_eq!(io.snap_outputs, d.snap_outputs.map(|c| c as u8));
        }
        _ => panic!("the pin is not routed"),
    }
}

#[test]
fn refused_claim_ends_the_startup() {
    let (calls, end) = run_startup(start(), vec![BioReply::Refused(ResourceError::FifoUnavailable)]);
    assert_eq!(calls, vec![BioCall::ClaimResources { spec: SPEC }]);
    assert!(matches!(end, StartupProgress::Failed(BioError::ResourceInUse)));

    let (_, end) = run_startup(start(), vec![BioReply::Refused(ResourceError::InternalError)]);
    assert!(matches!(end, StartupProgress::Failed(BioError::InternalError)));

    let (_, end) = run_startup(start(), vec![BioReply::Refused(ResourceError::NoError)]);
    assert!(matches!(end, StartupProgress::Failed(BioError::NoError)));

    let (_, end) = run_startup(start(), vec![BioReply::Failed(BioError::Uninit)]);
    assert!(matches!(end, StartupProgress::Failed(BioError::Uninit)));
}

#[test]
fn refusals_convert_as_in_the_bio_api() {
    let me = || String::from("me");
    let refusals = [
        (Refusal::None, ResourceError::NoError),
        (
            Refusal::CoreUnavailable { core: bao1x_api::bio::BioCore::Core2, claimed_by: me() },
            ResourceError::CoreUnavailable,
        ),
        (
            Refusal::InsufficientCores { requested: 1, available: 0 },
            ResourceError::InsufficientCores,
        ),
        (
            Refusal::FifoUnavailable { fifo: bao1x_api::bio::Fifo::Fifo1, claimed_by: me() },
            ResourceError::FifoUnavailable,
        ),
        (Refusal::PinUnavailable { pin: 15, claimed_by: me() }, ResourceError::PinUnavailable),
        (
            Refusal::DynamicPinOverflow {
                requested: 1,
                already_reserved: 32,
                static_pins_used: 0,
            },
            ResourceError::DynamicPinOverflow,
        ),
        (Refusal::InvalidGrantId(3), ResourceError::InvalidGrantId),
        (
            Refusal::ClaimerMismatch { expected: me(), provided: String::new() },
            ResourceError::ClaimerMismatch,
        ),
        (Refusal::InternalError, ResourceError::InternalError),
    ];
    for (theirs, ours) in refusals {
        let expected = match bao1x_api::bio::BioError::from(theirs) {
            bao1x_api::bio::BioError::None => BioError::NoError,
            bao1x_api::bio::BioError::InternalError => BioError::InternalError,
            bao1x_api::bio::BioError::ResourceInUse => BioError::ResourceInUse,
            _ => panic!("{:?} converts otherwise", ours),
        };
        assert_eq!(ours.into_bio_error(), expected);
    }
    assert_eq!(ResourceError::NoError.into_bio_error(), BioError::NoError);
    assert_eq!(ResourceError::InternalError.into_bio_error(), BioError::InternalError);
    assert_eq!(ResourceError::InvalidGrantId.into_bio_error(), BioError::ResourceInUse);
}

#[test]
fn grant_without_a_core_is_a_panic() {
    let empty = BioReply::Granted(ResourceGrant { grant_id: 1, cores: vec![] });
    let (calls, end) = run_startup(start(), vec![empty]);
    assert_eq!(calls.len(), 1);
    assert!(matches!(end, StartupProgress::Panicked));
}

#[test]
fn failed_load_and_failed_pin_claim_come_back_as_errors() {
    let (calls, end) =
        run_startup(start(), vec![grant(), BioReply::Failed(BioError::CodeCheck(9))]);
    assert_eq!(calls.len(), 2);
    assert!(matches!(end, StartupProgress::Failed(BioError::CodeCheck(9))));

    let (calls, end) = run_startup(
        start(),
        vec![
            grant(),
            BioReply::Done,
            BioReply::Done,
            BioReply::Refused(ResourceError::PinUnavailable),
        ],
    );
    assert_eq!(calls.len(), 4);
    assert!(matches!(end, StartupProgress::Failed(BioError::ResourceInUse)));
}

#[test]
fn failed_routing_trigger_or_missing_handle_is_a_panic() {
    for place in [3usize, 6] {
        let mut replies = vec![grant()];
        for _ in 0..place {
            replies.push(BioReply::Done);
        }
        replies.push(BioReply::Failed(BioError::InternalError));
        let (calls, end) = run_startup(start(), replies);
        assert_eq!(calls.len(), place + 2);
        assert!(matches!(end, StartupProgress::Panicked));
    }
    for place in [4usize, 5] {
        let mut replies = vec![grant()];
        for _ in 0..place {
            replies.push(BioReply::Done);
        }
        replies.push(BioReply::Missing);
        let (calls, end) = run_startup(start(), replies);
        assert_eq!(calls.len(), place + 2);
        assert!(matches!(end, StartupProgress::Panicked));

        let mut replies = vec![grant()];
        for _ in 0..place {
            replies.push(BioReply::Done);
        }
        replies.push(BioReply::Failed(BioError::NoFreeMachines));
        let (_, end) = run_startup(start(), replies);
        assert!(matches!(end, StartupProgress::Failed(BioError::NoFreeMachines)));
    }
}

#[test]
fn swap_takes_the_core_down_and_repeats_the_handshake() {
    let mut driver = ready(start());
    driver.set_brightness(99);
    let (calls, end) = run_switch(driver.set_pattern(PatternKind::Cylon), vec![]);
    assert_eq!(
        calls,
        vec![
            BioCall::SetCoreRunState { grant_id: 77, run: false },
            BioCall::DeInitCore { core: BioCore::Core2 },
            BioCall::InitCore {
                core: BioCore::Core2,
                program: PatternKind::Cylon,
                quantum_hz: QUANTUM_HZ,
            },
            BioCall::SetupIoConfig { io: routed(15, IoConfigMode::Overwrite) },
            BioCall::SetCoreRunState { grant_id: 77, run: true },
            BioCall::WriteTx { word: 15 },
            BioCall::WriteTx { word: 10 },
            BioCall::WriteTx { word: 99 },
        ]
    );
    let (driver, result) = done(end);
    assert_eq!(result, Ok(()));
    assert_eq!(driver.pattern(), PatternKind::Cylon);
    assert_eq!(driver.brightness(), 99);
}

#[test]
fn loaded_pattern_is_not_loaded_again() {
    let driver = ready(start());
    let (calls, end) = run_switch(driver.set_pattern(PatternKind::BrRunner), vec![]);
    assert!(calls.is_empty());
    let (driver, result) = done(end);
    assert_eq!(result, Ok(()));
    assert_eq!(driver.pattern(), PatternKind::BrRunner);
}

#[test]
fn failed_swap_leaves_the_pattern() {
    let driver = ready(start());
    let (calls, end) = run_switch(
        driver.set_pattern(PatternKind::Police),
        vec![BioReply::Done, BioReply::Failed(BioError::InvalidCore)],
    );
    assert_eq!(calls.len(), 2);
    let (driver, result) = done(end);
    assert_eq!(result, Err(BioError::InvalidCore));
    assert_eq!(driver.pattern(), PatternKind::BrRunner);

    let (calls, end) = run_switch(
        driver.next_pattern(),
        vec![BioReply::Done, BioReply::Done, BioReply::Failed(BioError::Oom)],
    );
    assert_eq!(calls.len(), 3);
    let (driver, result) = done(end);
    assert_eq!(result, Err(BioError::Oom));
    assert_eq!(driver.pattern(), PatternKind::BrRunner);
}

#[test]
fn failed_routing_does_not_matter_to_a_swap() {
    let driver = ready(start());
    let (calls, end) = run_switch(
        driver.prev_pattern(),
        vec![
            BioReply::Done,
            BioReply::Done,
            BioReply::Done,
            BioReply::Failed(BioError::InternalError),
        ],
    );
    assert_eq!(calls.len(), 8);
    let (driver, result) = done(end);
    assert_eq!(result, Ok(()));
    assert_eq!(driver.pattern(), PatternKind::Breathing);
}

#[test]
fn next_and_prev_patterns_lead_back() {
    let driver = ready(start());
    let (driver, _) = done(run_switch(driver.next_pattern(), vec![]).1);
    assert_eq!(driver.pattern(), PatternKind::Police);
    let (driver, _) = done(run_switch(driver.prev_pattern(), vec![]).1);
    assert_eq!(driver.pattern(), PatternKind::BrRunner);
}

#[test]
fn brightness_updates_are_tagged() {
    let mut driver = ready(start());
    assert_eq!(driver.set_brightness(0), 0x4000_0000);
    assert_eq!(driver.set_brightness(26), 0x4000_001A);
    assert_eq!(driver.set_brightness(255), 0x4000_00FF);
    assert_eq!(driver.brightness(), 255);
}

#[test]
fn words_wait_for_room_in_the_fifo() {
    assert_eq!(write_when_room(5, 8), None);
    assert_eq!(write_when_room(5, 7), Some(BioCall::WriteTx { word: 5 }));
    assert_eq!(write_when_room(5, 0), Some(BioCall::WriteTx { word: 5 }));
}

#[test]
fn release_gives_everything_back() {
    let two = BioReply::Granted(ResourceGrant {
        grant_id: 5,
        cores: vec![BioCore::Core0, BioCore::Core3],
    });
    let (_, end) = run_startup(start(), vec![two]);
    let driver = match end {
        StartupProgress::Ready(d) => d,
        _ => panic!("the driver did not come up"),
    };
    let mut script = driver.release();
    let mut calls = vec![script.call()];
    loop {
        match script.resume(BioReply::Done) {
            ScriptProgress::Call(c) => calls.push(c),
            end => {
                assert_eq!(end, ScriptProgress::Finished);
                break;
            }
        }
    }
    assert_eq!(
        calls,
        vec![
            BioCall::DeInitCore { core: BioCore::Core0 },
            BioCall::DeInitCore { core: BioCore::Core3 },
            BioCall::ReleaseDynamicPin { pin: 15, claimer: "LedDriver" },
            BioCall::ReleaseResources { grant_id: 5 },
        ]
    );
}

#[test]
fn claims_and_releases_balance() {
    let (mut calls, end) = run_startup(start(), vec![grant()]);
    let driver = match end {
        StartupProgress::Ready(d) => d,
        _ => panic!("the driver did not come up"),
    };
    let (swap, end) = run_switch(driver.next_pattern(), vec![]);
    calls.extend(swap);
    let mut script = done(end).0.release();
    calls.push(script.call());
    while let ScriptProgress::Call(c) = script.resume(BioReply::Done) {
        calls.push(c);
    }
    let mut grants = 0i32;
    let mut pins: Vec<(u8, &str)> = vec![];
    for call in calls {
        match call {
            BioCall::ClaimResources { .. } => grants += 1,
            BioCall::ReleaseResources { grant_id } => {
                assert_eq!(grant_id, 77);
                grants -= 1;
            }
            BioCall::ClaimDynamicPin { pin, claimer } => pins.push((pin, claimer)),
            BioCall::ReleaseDynamicPin { pin, claimer } => {
                assert_eq!(pins.pop(), Some((pin, claimer)));
            }
            _ => {}
        }
    }
    assert_eq!(grants, 0);
    assert!(pins.is_empty());
}

#[test]
fn failed_load_leaves_the_pattern_that_was_loaded_last() {
    let driver = ready(start());
    let replies = vec![BioReply::Done, BioReply::Done, BioReply::Failed(BioError::Oom)];
    let (_, end) = run_switch(driver.next_pattern(), replies);
    let (driver, result) = done(end);
    assert_eq!(result, Err(BioError::Oom));
    assert_eq!(driver.pattern(), PatternKind::BrRunner);
    let (_, end) = run_switch(driver.prev_pattern(), vec![]);
    let (driver, result) = done(end);
    assert_eq!(result, Ok(()));
    assert_eq!(driver.pattern(), PatternKind::Breathing);
    assert_eq!(driver.brightness(), 255);
}

#[test]
fn failed_release_is_a_panic() {
    let mut script = ready(start()).release();
    assert_eq!(
        script.resume(BioReply::Refused(ResourceError::ClaimerMismatch)),
        ScriptProgress::Panicked
    );
}

#[test]
fn replies_are_judged_by_what_a_failure_means() {
    let e = BioError::Oom;
    assert_eq!(OnError::Return.judge(BioReply::Failed(e)), Verdict::Return(e));
    assert_eq!(OnError::Panic.judge(BioReply::Failed(e)), Verdict::Panic);
    assert_eq!(OnError::Ignore.judge(BioReply::Failed(e)), Verdict::Proceed);
    assert_eq!(OnError::Ignore.judge(BioReply::Missing), Verdict::Panic);
    assert_eq!(OnError::Panic.judge(BioReply::Done), Verdict::Proceed);
    assert_eq!(OnError::Return.judge(grant()), Verdict::Proceed);
}

#[test]
fn script_stops_at_the_first_reply_that_stops_it() {
    let step = |word: u32, on_error: OnError| ScriptStep {
        call: BioCall::WriteTx { word },
        on_error,
    };
    let mut script = Script::new(vec![
        step(1, OnError::Ignore),
        step(2, OnError::Return),
        step(3, OnError::Return),
    ]);
    assert_eq!(
        script.resume(BioReply::Failed(BioError::Oom)),
        ScriptProgress::Call(BioCall::WriteTx { word: 2 })
    );
    assert_eq!(
        script.resume(BioReply::Failed(BioError::Oom)),
        ScriptProgress::Failed(BioError::Oom)
    );
    assert_eq!(script.call(), BioCall::WriteTx { word: 2 });
}
