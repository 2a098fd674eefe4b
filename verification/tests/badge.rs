use badge_leds::badge::{Action, Badge, LedAppOp, BRIGHTNESS_MAX, BRIGHTNESS_MIN};
use badge_leds::keys::{decode_key, Button, Hold, Layout};
use badge_leds::leds::{LedCtlOp, LedMessage};

fn send(op: LedCtlOp, arg: usize) -> Action {
    Action::SendLed(LedMessage { op, arg })
}

fn set_brightness(level: usize) -> Action {
    send(LedCtlOp::SetBrightness, level)
}

fn power_off() -> Vec<Action> {
    vec![
        Action::SetNyan(false),
        Action::ClearScreen,
        Action::FlushScreen,
        Action::Sleep(3000),
        Action::DeepSleep,
        Action::Halt,
    ]
}

/// A badge on which the animation has just been started.
fn animated() -> Badge {
    let mut badge = Badge::new(Layout::Brightness);
    let mut now = 1000;
    while now < 11_000 {
        assert_eq!(badge.key_press('↑', now), vec![]);
        now += 400;
    }
    assert_eq!(
        badge.key_press('↑', 11_000),
        vec![send(LedCtlOp::SetPattern, 1), Action::SetNyan(true)]
    );
    badge
}

#[test]
fn keys_are_decoded() {
    assert_eq!(decode_key(0x61), 'a');
    assert_eq!(decode_key(0x2190), '←');
    assert_eq!(decode_key(0x1F525), '🔥');
    assert_eq!(decode_key(0xD7FF), '\u{D7FF}');
    assert_eq!(decode_key(0xD800), '\0');
    assert_eq!(decode_key(0xDFFF), '\0');
    assert_eq!(decode_key(0xE000), '\u{E000}');
    assert_eq!(decode_key(0x10FFFF), '\u{10FFFF}');
    assert_eq!(decode_key(0x110000), '\0');
}

#[test]
fn buttons_of_the_brightness_layout() {
    let b = |k: char| Layout::Brightness.button(k);
    for k in ['←', 'a', '1'] {
        assert_eq!(b(k), Button::Prev);
    }
    for k in ['→', 'd', '3'] {
        assert_eq!(b(k), Button::Next);
    }
    assert_eq!(b('↑'), Button::Up);
    assert_eq!(b('↓'), Button::Down);
    assert_eq!(b('🔥'), Button::Camera);
    assert_eq!(b('x'), Button::Other);
    assert_eq!(b('\0'), Button::Other);
}

#[test]
fn buttons_of_the_pattern_layout() {
    let b = |k: char| Layout::Patterns.button(k);
    for k in ['←', '↑', 'a', '1'] {
        assert_eq!(b(k), Button::Prev);
    }
    for k in ['→', 'd', '3'] {
        assert_eq!(b(k), Button::Next);
    }
    assert_eq!(b('↓'), Button::Down);
    assert_eq!(b('🔥'), Button::Camera);
    assert_eq!(b('x'), Button::Other);
}

#[test]
fn close_presses_of_one_key_are_one_hold() {
    let mut hold = Hold::new();
    assert_eq!(hold.press('↓', 5000), 0);
    assert_eq!(hold.press('↓', 5400), 400);
    assert_eq!(hold.press('↓', 5500), 500);
    assert_eq!(hold.press('↓', 5901), 0);
    assert_eq!(hold.press('↓', 6000), 99);
    assert_eq!(hold.press('↑', 6001), 0);
    assert_eq!(hold.press('↓', 6002), 0);
}

#[test]
fn time_that_runs_backward_counts_as_none() {
    let mut hold = Hold::new();
    assert_eq!(hold.press('↓', 5000), 0);
    assert_eq!(hold.press('↓', 4000), 0);
    assert_eq!(hold, Hold { key: '↓', first_ms: 5000, last_ms: 4000 });
}

#[test]
fn app_messages_are_decoded() {
    assert_eq!(LedAppOp::decode(0), LedAppOp::KeyPress);
    assert_eq!(LedAppOp::decode(1), LedAppOp::Redraw);
    assert_eq!(LedAppOp::decode(2), LedAppOp::Invalid);
    assert_eq!(LedAppOp::decode(77), LedAppOp::Invalid);
    assert_eq!(LedAppOp::KeyPress.as_usize(), 0);
    assert_eq!(LedAppOp::Redraw.as_usize(), 1);
    assert_eq!(LedAppOp::Invalid.as_usize(), 2);
}

#[test]
fn down_dims_in_nine_presses_to_the_floor() {
    let mut badge = Badge::new(Layout::Brightness);
    let mut levels = vec![];
    for i in 0..9 {
        let actions = badge.key_press('↓', 10_000 + 1000 * i);
        let level = badge.state().brightness as usize;
        assert_eq!(actions, vec![set_brightness(level), Action::DrawBackground]);
        levels.push(level);
    }
    assert_eq!(levels, vec![229, 203, 177, 151, 125, 99, 73, 47, 26]);
    assert_eq!(badge.key_press('↓', 30_000), vec![]);
    assert_eq!(badge.state().brightness, BRIGHTNESS_MIN);
}

#[test]
fn up_brightens_in_nine_presses_to_the_top() {
    let mut badge = Badge::new(Layout::Brightness);
    for i in 0..9 {
        badge.key_press('↓', 10_000 + 1000 * i);
    }
    let mut levels = vec![];
    for i in 0..9 {
        let actions = badge.key_press('↑', 30_000 + 1000 * i);
        let level = badge.state().brightness as usize;
        assert_eq!(actions, vec![set_brightness(level), Action::DrawBackground]);
        levels.push(level);
    }
    assert_eq!(levels, vec![52, 78, 104, 130, 156, 182, 208, 234, 255]);
    assert_eq!(badge.key_press('↑', 50_000), vec![]);
    assert_eq!(badge.state().brightness, BRIGHTNESS_MAX);
}

#[test]
fn pattern_buttons_send_and_redraw() {
    for layout in [Layout::Patterns, Layout::Brightness] {
        let mut badge = Badge::new(layout);
        assert_eq!(
            badge.key_press('→', 1),
            vec![Action::SetNyan(false), send(LedCtlOp::Next, 0), Action::DrawBackground]
        );
        assert_eq!(
            badge.key_press('1', 2),
            vec![Action::SetNyan(false), send(LedCtlOp::Prev, 0), Action::DrawBackground]
        );
    }
}

#[test]
fn up_goes_back_where_it_is_for_the_patterns() {
    let mut badge = Badge::new(Layout::Patterns);
    for i in 0..40 {
        assert_eq!(
            badge.key_press('↑', 400 * i),
            vec![Action::SetNyan(false), send(LedCtlOp::Prev, 0), Action::DrawBackground]
        );
    }
    assert!(!badge.state().nyan_active);
}

#[test]
fn camera_scans_and_redraws() {
    let mut badge = Badge::new(Layout::Patterns);
    assert_eq!(
        badge.key_press('🔥', 1),
        vec![Action::SetNyan(false), Action::AcquireQr, Action::DrawBackground]
    );
}

#[test]
fn other_keys_and_redraws_draw_the_background() {
    let mut badge = Badge::new(Layout::Patterns);
    assert_eq!(badge.key_press('x', 1), vec![Action::DrawBackground]);
    assert_eq!(badge.handle_message(1, None, 2), vec![Action::DrawBackground]);
    assert_eq!(badge.handle_message(0, Some(0x78), 2), vec![Action::DrawBackground]);
    assert_eq!(badge.handle_message(0, None, 2), vec![]);
    assert_eq!(badge.handle_message(2, Some(1), 2), vec![]);
    assert_eq!(badge.handle_message(9, None, 2), vec![]);
}

#[test]
fn holding_down_at_the_floor_powers_off_after_three_seconds() {
    let mut badge = Badge::new(Layout::Brightness);
    for i in 0..9 {
        badge.key_press('↓', 1000 * i);
    }
    let mut now = 100_000;
    while now < 103_000 {
        assert_eq!(badge.key_press('↓', now), vec![]);
        now += 300;
    }
    assert_eq!(badge.key_press('↓', 103_000), power_off());
    assert!(badge.state().powered_off);
}

#[test]
fn holding_down_dims_first_and_powers_off_then() {
    let mut badge = Badge::new(Layout::Brightness);
    for i in 0..30u64 {
        let actions = badge.key_press('↓', 50_000 + 100 * i);
        if i < 9 {
            assert_eq!(actions.len(), 2);
        } else {
            assert_eq!(actions, vec![]);
        }
    }
    assert_eq!(badge.key_press('↓', 53_000), power_off());
}

#[test]
fn slow_hold_from_full_brightness_waits_for_the_floor() {
    let mut badge = Badge::new(Layout::Brightness);
    for i in 0..9u64 {
        assert_eq!(badge.key_press('↓', 10_000 + 400 * i).len(), 2);
    }
    assert_eq!(badge.key_press('↓', 13_600), power_off());
}

#[test]
fn interrupted_hold_does_not_power_off() {
    let mut badge = Badge::new(Layout::Brightness);
    for i in 0..9 {
        badge.key_press('↓', 1000 * i);
    }
    for i in 0..10u64 {
        assert_eq!(badge.key_press('↓', 20_000 + 299 * i), vec![]);
    }
    badge.key_press('x', 22_700);
    assert_eq!(badge.key_press('↓', 23_000), vec![]);
    assert_eq!(badge.key_press('↓', 23_401), vec![]);
    assert!(!badge.state().powered_off);
}

#[test]
fn holding_down_powers_off_within_two_seconds_in_the_pattern_layout() {
    let mut badge = Badge::new(Layout::Patterns);
    for now in [7000u64, 7400, 7800, 8200] {
        assert_eq!(badge.key_press('↓', now).len(), 2);
    }
    assert_eq!(badge.key_press('↓', 8600), power_off());

    let mut badge = Badge::new(Layout::Patterns);
    let mut now = 7000;
    while now < 8500 {
        assert_ne!(badge.key_press('↓', now), power_off());
        now += 50;
    }
    assert_eq!(badge.key_press('↓', 8500), power_off());
}

#[test]
fn powered_off_badge_takes_no_messages() {
    let mut badge = Badge::new(Layout::Patterns);
    for now in [7000u64, 7400, 7800, 8200, 8600] {
        badge.key_press('↓', now);
    }
    let before = badge.state();
    assert!(before.powered_off);
    assert_eq!(badge.handle_message(0, Some(0x61), 9000), vec![]);
    assert_eq!(badge.handle_message(1, None, 9000), vec![]);
    assert_eq!(badge.state(), before);
}

#[test]
fn animation_starts_once_per_hold() {
    let mut badge = animated();
    assert!(badge.state().nyan_active);
    assert!(badge.state().easter_active);
    assert_eq!(badge.key_press('↑', 11_300), vec![]);
    assert_eq!(badge.key_press('↑', 11_600), vec![]);
}

#[test]
fn hold_that_is_too_short_starts_no_animation() {
    let mut badge = Badge::new(Layout::Brightness);
    let mut now = 1000;
    while now <= 10_999 {
        assert_eq!(badge.key_press('↑', now), vec![]);
        now += 399;
    }
    assert!(!badge.state().nyan_active);
}

#[test]
fn animation_keeps_the_background_away() {
    let mut badge = animated();
    assert_eq!(badge.handle(LedAppOp::Redraw, None, 12_000), vec![]);
    assert_eq!(badge.key_press('x', 12_100), vec![]);
    assert_eq!(badge.key_press('↓', 12_200), vec![set_brightness(229)]);
    assert_eq!(badge.key_press('↑', 12_300), vec![set_brightness(255)]);
}

#[test]
fn pattern_buttons_cancel_the_animation() {
    for (key, op) in [('a', LedCtlOp::Prev), ('d', LedCtlOp::Next)] {
        let mut badge = animated();
        assert_eq!(
            badge.key_press(key, 12_000),
            vec![
                Action::SetNyan(false),
                Action::DrawBackground,
                send(op, 0),
                Action::DrawBackground,
            ]
        );
        assert!(!badge.state().nyan_active);
        assert!(!badge.state().easter_active);
    }
}

#[test]
fn camera_cancels_the_animation_and_it_can_start_again() {
    let mut badge = animated();
    badge.key_press('🔥', 12_000);
    assert!(!badge.state().nyan_active);
    assert!(!badge.state().easter_active);
    let mut now = 20_000;
    while now < 30_000 {
        assert_eq!(badge.key_press('↑', now), vec![]);
        now += 250;
    }
    assert_eq!(
        badge.key_press('↑', 30_000),
        vec![send(LedCtlOp::SetPattern, 1), Action::SetNyan(true)]
    );
}

#[test]
fn sparsest_hold_of_ten_seconds_brightens_and_starts_the_animation() {
    let mut badge = Badge::new(Layout::Brightness);
    for i in 0..9u64 {
        badge.key_press('↓', 1000 * i);
    }
    assert_eq!(badge.state().brightness, 26);
    for i in 0..26u64 {
        assert!(!badge.state().nyan_active);
        badge.key_press('↑', 20000 + 400 * i);
    }
    assert_eq!(badge.state().brightness, 255);
    assert!(badge.state().nyan_active);
}

#[test]
fn badge_powers_on_with_the_buttons_for_patterns() {
    let mut badge = Badge::power_on();
    assert_eq!(badge.state(), Badge::new(Layout::Patterns).state());
    assert_eq!(badge.state().layout, Layout::Patterns);
    assert!(badge.key_press('↑', 0).contains(&send(LedCtlOp::Prev, 0)));
}
