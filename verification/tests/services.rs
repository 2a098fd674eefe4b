use badge_leds::boot::{boot_steps, BootStep};
use badge_leds::mirror::{HookAction, HookEvent, HookReply, HookState, MirrorHook};
use badge_leds::screen::{draw_background_ops, draw_frame_ops, GfxOp, NyanPlayer, NyanTurn};

#[test]
fn frame_ends_the_dry_run_before_it_is_drawn() {
    assert_eq!(
        draw_frame_ops(),
        vec![GfxOp::DryRun(false), GfxOp::Clear, GfxOp::Bitmap, GfxOp::Flush]
    );
}

#[test]
fn background_is_drawn_after_a_probe() {
    assert_eq!(
        draw_background_ops(),
        vec![
            GfxOp::ScreenSize,
            GfxOp::DryRun(false),
            GfxOp::Clear,
            GfxOp::Bitmap,
            GfxOp::Flush,
        ]
    );
}

#[test]
fn animation_cycles_and_starts_over() {
    let mut player = NyanPlayer::new(3);
    for i in [0usize, 1, 2, 0, 1] {
        assert_eq!(player.turn(true), NyanTurn { frame: Some(i), sleep_ms: 100 });
    }
    assert_eq!(player.turn(false), NyanTurn { frame: None, sleep_ms: 150 });
    assert_eq!(player.turn(true), NyanTurn { frame: Some(0), sleep_ms: 100 });

    let mut player = NyanPlayer::new(1);
    for _ in 0..3 {
        assert_eq!(player.turn(true).frame, Some(0));
    }
}

#[test]
fn mirror_is_hooked_by_the_scalar_one() {
    let mut hook = MirrorHook::new();
    assert_eq!(hook.action(), HookAction::Connect("xous-log-server "));
    hook.advance(HookEvent::Connected);
    assert_eq!(hook.action(), HookAction::Send(4));
    hook.advance(HookEvent::Replied(HookReply::Scalar1(0)));
    assert_eq!(hook.action(), HookAction::Sleep(500));
    hook.advance(HookEvent::Waited);
    assert_eq!(hook.state(), HookState::Sending(1));
    hook.advance(HookEvent::Replied(HookReply::Scalar1(1)));
    assert_eq!(hook.state(), HookState::Hooked(1));
    assert_eq!(hook.action(), HookAction::Stop(true));
}

#[test]
fn mirror_is_given_up_after_five_requests() {
    let mut hook = MirrorHook::new();
    hook.advance(HookEvent::Connected);
    let mut sent = 0;
    loop {
        match hook.action() {
            HookAction::Send(_) => {
                sent += 1;
                let reply = if sent % 2 == 0 { HookReply::Failed } else { HookReply::Other };
                hook.advance(HookEvent::Replied(reply));
            }
            HookAction::Sleep(ms) => {
                assert_eq!(ms, 500);
                hook.advance(HookEvent::Waited);
            }
            other => {
                assert_eq!(other, HookAction::Stop(false));
                break;
            }
        }
    }
    assert_eq!(sent, 5);
    assert_eq!(hook.state(), HookState::GaveUp);
}

#[test]
fn mirror_needs_a_connection() {
    let mut hook = MirrorHook::new();
    hook.advance(HookEvent::ConnectFailed);
    assert_eq!(hook.state(), HookState::Unreachable);
    assert_eq!(hook.action(), HookAction::Stop(false));
    hook.advance(HookEvent::Waited);
    assert_eq!(hook.state(), HookState::Unreachable);
}

#[test]
fn badge_boots_in_order() {
    assert_eq!(
        boot_steps(),
        vec![
            BootStep::FeedWatchdog(2000),
            BootStep::StartUsb,
            BootStep::Sleep(500),
            BootStep::HookLogMirror,
            BootStep::RegisterServer("_dc34_leds_"),
            BootStep::Sleep(1500),
            BootStep::ConnectScreen,
            BootStep::DrawBackground,
            BootStep::ListenForKeys("_dc34_leds_", 0),
            BootStep::StartLeds,
            BootStep::ConnectLeds("_oem_led_"),
            BootStep::TickRedraw(1, 2000),
            BootStep::StartPlayer,
        ]
    );
}
