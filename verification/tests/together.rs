use badge_leds::badge::{Action, Badge};
use badge_leds::bio::driver::{LedDriver, StartupProgress, SwitchProgress};
use badge_leds::bio::hal::{BioCore, BioReply, ResourceGrant};
use badge_leds::bio::pattern::PatternKind;
use badge_leds::keys::Layout;
use badge_leds::leds::{serve_message, start_driver, ServiceProgress};

fn driver() -> LedDriver {
    let grant = ResourceGrant { grant_id: 1, cores: vec![BioCore::Core0] };
    let mut progress = start_driver().resume(BioReply::Granted(grant));
    loop {
        match progress {
            StartupProgress::Call(s) => progress = s.resume(BioReply::Done),
            StartupProgress::Ready(d) => return d,
            _ => panic!("the driver did not come up"),
        }
    }
}

/// Serves the messages among `actions`, none of which may be rejected.
fn deliver(driver: LedDriver, actions: Vec<Action>) -> LedDriver {
    let mut driver = driver;
    for action in actions {
        if let Action::SendLed(m) = action {
            driver = match serve_message(driver, m.op.as_usize(), Some(m.arg)) {
                ServiceProgress::Switching(p) => {
                    let mut p = p;
                    loop {
                        match p {
                            SwitchProgress::Call(s) => p = s.resume(BioReply::Done),
                            SwitchProgress::Done(d, _) => break d,
                            SwitchProgress::Panicked => panic!("panicked"),
                        }
                    }
                }
                ServiceProgress::Write(d, _) => d,
                _ => panic!("not served"),
            };
        }
    }
    driver
}

#[test]
fn driver_keeps_the_brightness_of_the_badge() {
    let mut badge = Badge::new(Layout::Brightness);
    let mut led = driver();
    assert_eq!(led.brightness(), badge.state().brightness);
    let keys = ['↓', '↓', '→', '↓', '↑', 'x', '←', '↑', '↑', '↑', '↓', '🔥', '↓'];
    for (i, k) in keys.iter().enumerate() {
        let actions = badge.key_press(*k, 1000 * i as u64);
        led = deliver(led, actions);
        assert_eq!(led.brightness(), badge.state().brightness);
    }
    assert_eq!(led.brightness(), 203);
}

#[test]
fn next_button_walks_the_order() {
    let mut badge = Badge::new(Layout::Patterns);
    let mut led = driver();
    let expected = [
        PatternKind::Police,
        PatternKind::Rainbow,
        PatternKind::Cylon,
        PatternKind::Breathing,
        PatternKind::BrRunner,
        PatternKind::Police,
    ];
    for (i, p) in expected.iter().enumerate() {
        led = deliver(led, badge.key_press('d', i as u64));
        assert_eq!(led.pattern(), *p);
    }
    led = deliver(led, badge.key_press('↑', 10));
    assert_eq!(led.pattern(), PatternKind::BrRunner);
}

#[test]
fn animation_comes_with_the_rainbow() {
    let mut badge = Badge::new(Layout::Brightness);
    let mut led = driver();
    for i in 0..=100u64 {
        led = deliver(led, badge.key_press('↑', 5000 + 100 * i));
    }
    assert!(badge.state().nyan_active);
    assert_eq!(led.pattern(), PatternKind::Rainbow);
    assert_eq!(led.brightness(), 255);
}
