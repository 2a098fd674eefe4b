use badge_leds::bio::driver::{LedDriver, StartupProgress, SwitchProgress};
use badge_leds::bio::hal::{
    BioCall, BioCore, BioReply, CoreRequirement, Fifo, ResourceGrant, ResourceSpec,
};
use badge_leds::bio::pattern::PatternKind;
use badge_leds::leds::{
    serve, serve_message, start_driver, LedCtlOp, ServiceProgress, LEDS_CTL_SERVER, LED_COUNT,
    LED_PIN,
};

/// What the driver claims.
const SPEC: ResourceSpec = ResourceSpec {
    claimer: "LedDriver",
    cores: [CoreRequirement::Any],
    fifos: [Fifo::Fifo1],
    static_pins: [],
    dynamic_pin_count: 1,
};

fn driver() -> LedDriver {
    let grant = ResourceGrant { grant_id: 1, cores: vec![BioCore::Core1] };
    let mut progress = start_driver().resume(BioReply::Granted(grant));
    loop {
        match progress {
            StartupProgress::Call(s) => progress = s.resume(BioReply::Done),
            StartupProgress::Ready(d) => return d,
            _ => panic!("the driver did not come up"),
        }
    }
}

fn finish(progress: ServiceProgress) -> LedDriver {
    let mut progress = match progress {
        ServiceProgress::Switching(p) => p,
        _ => panic!("no swap"),
    };
    loop {
        match progress {
            SwitchProgress::Call(s) => progress = s.resume(BioReply::Done),
            SwitchProgress::Done(d, _) => return d,
            SwitchProgress::Panicked => panic!("panicked"),
        }
    }
}

#[test]
fn badge_starts_with_br_runner_at_full_brightness() {
    assert_eq!(LED_COUNT, 10);
    assert_eq!(LED_PIN, 15);
    assert_eq!(LEDS_CTL_SERVER, "_oem_led_");
    assert_eq!(start_driver().call(), BioCall::ClaimResources { spec: SPEC });
    let d = driver();
    assert_eq!(d.pattern(), PatternKind::BrRunner);
    assert_eq!(d.brightness(), 255);
}

#[test]
fn opcodes_round_trip() {
    let ops = [
        (LedCtlOp::Next, 0),
        (LedCtlOp::Prev, 1),
        (LedCtlOp::Invalid, 2),
        (LedCtlOp::SetPattern, 3),
        (LedCtlOp::SetBrightness, 4),
        (LedCtlOp::Pause, 128),
    ];
    for (op, id) in ops {
        assert_eq!(op.as_usize(), id);
        assert_eq!(LedCtlOp::from_usize(id), Some(op));
        assert_eq!(LedCtlOp::decode(id), op);
    }
    assert_eq!(LedCtlOp::from_usize(5), None);
    assert_eq!(LedCtlOp::decode(5), LedCtlOp::Invalid);
    assert_eq!(LedCtlOp::decode(127), LedCtlOp::Invalid);
    assert_eq!(LedCtlOp::decode(usize::MAX), LedCtlOp::Invalid);
}

#[test]
fn next_and_prev_swap_the_pattern() {
    let d = finish(serve_message(driver(), 0, Some(0)));
    assert_eq!(d.pattern(), PatternKind::Police);
    let d = finish(serve_message(d, 1, Some(0)));
    assert_eq!(d.pattern(), PatternKind::BrRunner);
}

#[test]
fn pattern_is_set_by_its_number() {
    let d = finish(serve(driver(), LedCtlOp::SetPattern, Some(1)));
    assert_eq!(d.pattern(), PatternKind::Rainbow);
    match serve(d, LedCtlOp::SetPattern, Some(5)) {
        ServiceProgress::Rejected(d) => assert_eq!(d.pattern(), PatternKind::Rainbow),
        _ => panic!("not rejected"),
    }
}

#[test]
fn brightness_is_set_by_its_level() {
    match serve(driver(), LedCtlOp::SetBrightness, Some(52)) {
        ServiceProgress::Write(d, word) => {
            assert_eq!(d.brightness(), 52);
            assert_eq!(word, 0x4000_0034);
        }
        _ => panic!("nothing to write"),
    }
    match serve(driver(), LedCtlOp::SetBrightness, Some(256)) {
        ServiceProgress::Rejected(d) => assert_eq!(d.brightness(), 255),
        _ => panic!("not rejected"),
    }
}

#[test]
fn pattern_or_brightness_that_is_not_given_is_rejected() {
    for id in [3usize, 4] {
        match serve_message(driver(), id, None) {
            ServiceProgress::Rejected(d) => {
                assert_eq!(d.pattern(), PatternKind::BrRunner);
                assert_eq!(d.brightness(), 255);
            }
            _ => panic!("not rejected"),
        }
    }
    let d = finish(serve_message(driver(), 0, None));
    assert_eq!(d.pattern(), PatternKind::Police);
    assert!(matches!(serve_message(d, 128, None), ServiceProgress::Unblock(_, 0)));
}

/// Serves a message to its end.
fn settle(progress: ServiceProgress) -> LedDriver {
    match progress {
        ServiceProgress::Switching(_) => finish(progress),
        ServiceProgress::Write(d, _) => d,
        ServiceProgress::Unblock(d, _) => d,
        ServiceProgress::Rejected(d) => d,
    }
}

#[test]
fn messages_walk_the_order_in_any_mixture() {
    let mut d = driver();
    let (mut forward, mut back) = (0i64, 0i64);
    let messages = [
        (0usize, Some(0usize)),
        (4, Some(26)),
        (0, None),
        (1, Some(7)),
        (128, Some(1)),
        (2, Some(0)),
        (3, Some(5)),
        (3, None),
        (1, None),
        (1, None),
        (99, Some(3)),
        (1, None),
        (4, Some(256)),
        (0, None),
    ];
    for (id, arg) in messages {
        d = settle(serve_message(d, id, arg));
        if id == 0 {
            forward += 1;
        }
        if id == 1 {
            back += 1;
        }
        assert_eq!(d.pattern().as_u32() as i64, (4 + forward - back).rem_euclid(5));
    }
    assert_eq!((forward, back), (3, 4));
    assert_eq!(d.pattern(), PatternKind::Breathing);
    assert_eq!(d.brightness(), 26);
}

#[test]
fn walk_starts_again_from_a_named_pattern() {
    let mut d = driver();
    let messages =
        [(0usize, None), (0, None), (3, Some(2usize)), (0, None), (0, None), (0, None)];
    for (id, arg) in messages {
        d = settle(serve_message(d, id, arg));
    }
    assert_eq!(d.pattern(), PatternKind::Police);
}

#[test]
fn pause_is_answered_and_changes_nothing() {
    match serve_message(driver(), 128, Some(1)) {
        ServiceProgress::Unblock(d, value) => {
            assert_eq!(value, 0);
            assert_eq!(d.pattern(), PatternKind::BrRunner);
            assert_eq!(d.brightness(), 255);
        }
        _ => panic!("not answered"),
    }
}

#[test]
fn unknown_message_is_rejected() {
    assert!(matches!(serve_message(driver(), 2, Some(0)), ServiceProgress::Rejected(_)));
    assert!(matches!(serve_message(driver(), 99, Some(0)), ServiceProgress::Rejected(_)));
}
