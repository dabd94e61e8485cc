//! Render-scheduler behaviour: coalescing, power transitions and
//! vblank pacing.

use pinnacle::output::{BlankingState, Mode, Output, OutputName, OutputState, Transform};
use pinnacle::registry::{DeviceNode, Udev};
use pinnacle::scheduler::{
    ClearColor, FrameSubmittedResult, PowerOutcome, RenderDecision, RenderOutcome, VblankMeta,
};
use pinnacle::state::{Config, LockState, Pinnacle};
use pinnacle::surface::{
    PendingGammaChange, RenderState, RenderSurface, ScheduleOutcome, ScreencopyCommitState,
};
use pinnacle::geometry::{Point, Size};

fn test_surface(device_id: u64, crtc: u64) -> RenderSurface {
    RenderSurface {
        device_id,
        render_node: device_id,
        crtc,
        render_state: RenderState::Idle,
        screencopy_commit_state: ScreencopyCommitState::start(),
        previous_gamma: None,
        pending_gamma_change: PendingGammaChange::Idle,
    }
}

fn test_backend() -> Udev {
    Udev {
        seat: "seat0".to_string(),
        primary_gpu: 7,
        next_token: 0,
        devices: vec![DeviceNode {
            id: 7,
            render_node: 7,
            registration_token: 11,
            paused: false,
            surfaces: vec![test_surface(7, 42)],
        }],
    }
}

fn test_output(device_id: u64, crtc: u64) -> Output {
    Output {
        name: OutputName("HDMI-A-1".to_string()),
        device_id,
        crtc,
        make: "Unknown".to_string(),
        model: "Unknown".to_string(),
        physical_size: Size { w: 600, h: 340 },
        transform: Transform::Normal,
        current_mode: Some(Mode {
            size: Size { w: 1920, h: 1080 },
            refresh: 60000,
        }),
        preferred_mode: None,
        scale_millis: 1000,
        loc: Point { x: 0, y: 0 },
        mapped: true,
        state: OutputState::new(),
    }
}

fn test_pinnacle(device_id: u64, crtc: u64) -> Pinnacle {
    Pinnacle {
        outputs: vec![test_output(device_id, crtc)],
        config: Config {
            connector_saved_states: Vec::new(),
        },
        lock_state: LockState::Unlocked,
    }
}

fn surface_state(udev: &Udev) -> RenderState {
    udev.devices[0].surfaces[0].render_state
}

#[test]
fn schedule_idle_surface_gets_token() {
    let mut udev = test_backend();
    let output = test_output(7, 42);
    let r = udev.schedule_render(&output);
    assert_eq!(r, Some(ScheduleOutcome::NewlyScheduled { token: 0 }));
    assert_eq!(surface_state(&udev), RenderState::Scheduled { token: 0 });
    assert_eq!(udev.next_token, 1);
}

#[test]
fn second_schedule_without_vblank_is_noop() {
    let mut udev = test_backend();
    let output = test_output(7, 42);
    let first = udev.schedule_render(&output);
    let second = udev.schedule_render(&output);
    assert_eq!(first, Some(ScheduleOutcome::NewlyScheduled { token: 0 }));
    assert_eq!(second, Some(ScheduleOutcome::AlreadyScheduled));
    // Exactly one scheduled callback exists, under the first token.
    assert_eq!(surface_state(&udev), RenderState::Scheduled { token: 0 });
    assert_eq!(udev.next_token, 1);
}

#[test]
fn schedule_on_unknown_pipeline_is_none() {
    let mut udev = test_backend();
    let output = test_output(9, 42);
    assert_eq!(udev.schedule_render(&output), None);
}

#[test]
fn burst_while_waiting_coalesces_into_one_render() {
    let mut udev = test_backend();
    udev.devices[0].surfaces[0].render_state = RenderState::WaitingForVblank { dirty: false };
    let output = test_output(7, 42);
    for _ in 0..5 {
        let r = udev.schedule_render(&output);
        assert_eq!(r, Some(ScheduleOutcome::Coalesced));
        assert_eq!(
            surface_state(&udev),
            RenderState::WaitingForVblank { dirty: true }
        );
    }
    // The vblank then schedules exactly one follow-up render.
    let mut pinnacle = test_pinnacle(7, 42);
    let actions = udev
        .on_vblank(
            &mut pinnacle,
            7,
            42,
            None,
            FrameSubmittedResult::Submitted {
                has_feedback: false,
            },
            1000,
            None,
        )
        .unwrap();
    assert_eq!(
        actions.scheduled,
        Some(ScheduleOutcome::NewlyScheduled { token: 0 })
    );
    assert!(!actions.send_frame_callbacks);
    assert_eq!(surface_state(&udev), RenderState::Scheduled { token: 0 });
}

#[test]
fn clean_vblank_sends_frame_callbacks() {
    let mut udev = test_backend();
    udev.devices[0].surfaces[0].render_state = RenderState::WaitingForVblank { dirty: false };
    let mut pinnacle = test_pinnacle(7, 42);
    let actions = udev
        .on_vblank(
            &mut pinnacle,
            7,
            42,
            None,
            FrameSubmittedResult::Submitted {
                has_feedback: false,
            },
            1000,
            None,
        )
        .unwrap();
    assert!(actions.send_frame_callbacks);
    assert_eq!(actions.scheduled, None);
    assert_eq!(surface_state(&udev), RenderState::Idle);
}

#[test]
fn vblank_feedback_uses_hardware_timestamp() {
    let mut udev = test_backend();
    udev.devices[0].surfaces[0].render_state = RenderState::WaitingForVblank { dirty: false };
    let mut pinnacle = test_pinnacle(7, 42);
    let actions = udev
        .on_vblank(
            &mut pinnacle,
            7,
            42,
            Some(VblankMeta {
                time_ns: Some(123456789),
                sequence: 77,
            }),
            FrameSubmittedResult::Submitted { has_feedback: true },
            555,
            None,
        )
        .unwrap();
    let fb = actions.presentation.unwrap();
    assert_eq!(fb.clock_ns, 123456789);
    assert_eq!(fb.sequence, 77);
    // 60 Hz (60000 mHz) is a 16666666 ns refresh interval.
    assert_eq!(fb.refresh_ns, 16_666_666);
    assert!(fb.flags.vsync && fb.flags.hw_clock && fb.flags.hw_completion);
}

#[test]
fn vblank_feedback_falls_back_to_clock() {
    let mut udev = test_backend();
    udev.devices[0].surfaces[0].render_state = RenderState::WaitingForVblank { dirty: false };
    let mut pinnacle = test_pinnacle(7, 42);
    let actions = udev
        .on_vblank(
            &mut pinnacle,
            7,
            42,
            None,
            FrameSubmittedResult::Submitted { has_feedback: true },
            555,
            None,
        )
        .unwrap();
    let fb = actions.presentation.unwrap();
    assert_eq!(fb.clock_ns, 555);
    assert_eq!(fb.sequence, 0);
    assert!(fb.flags.vsync && !fb.flags.hw_clock && !fb.flags.hw_completion);
}

#[test]
fn context_loss_on_vblank_is_fatal() {
    let mut udev = test_backend();
    udev.devices[0].surfaces[0].render_state = RenderState::WaitingForVblank { dirty: false };
    let mut pinnacle = test_pinnacle(7, 42);
    let actions = udev
        .on_vblank(
            &mut pinnacle,
            7,
            42,
            None,
            FrameSubmittedResult::SubmitError { context_lost: true },
            0,
            None,
        )
        .unwrap();
    assert!(actions.fatal);
}

#[test]
fn anomalous_vblank_schedules_defensively() {
    let mut udev = test_backend();
    // Idle is not a state a vblank should find; it is handled by a
    // fresh defensive schedule.
    let mut pinnacle = test_pinnacle(7, 42);
    let actions = udev
        .on_vblank(
            &mut pinnacle,
            7,
            42,
            None,
            FrameSubmittedResult::Submitted {
                has_feedback: false,
            },
            0,
            None,
        )
        .unwrap();
    assert_eq!(
        actions.scheduled,
        Some(ScheduleOutcome::NewlyScheduled { token: 0 })
    );
    assert!(matches!(
        surface_state(&udev),
        RenderState::Scheduled { .. }
    ));
}

#[test]
fn power_off_mid_scheduled_cancels_and_power_on_reschedules() {
    let mut udev = test_backend();
    let output = test_output(7, 42);
    let mut pinnacle = test_pinnacle(7, 42);

    let r = udev.schedule_render(&output);
    assert_eq!(r, Some(ScheduleOutcome::NewlyScheduled { token: 0 }));

    // Power off mid-`Scheduled`: the token is canceled and the surface
    // forced idle.
    let off = udev.set_output_powered(&mut pinnacle, 0, false);
    assert_eq!(off, PowerOutcome::PoweredOff { canceled: Some(0) });
    assert_eq!(surface_state(&udev), RenderState::Idle);
    assert!(!pinnacle.outputs[0].state.powered);

    // No render fires for the off period.
    let decision = udev.render_surface(&mut pinnacle, 7, 42);
    assert_eq!(decision, RenderDecision::PoweredOff);
    assert_eq!(surface_state(&udev), RenderState::Idle);

    // Power on, then a schedule transitions cleanly Idle -> Scheduled.
    let on = udev.set_output_powered(&mut pinnacle, 0, true);
    assert_eq!(on, PowerOutcome::PoweredOn);
    let r2 = udev.schedule_render(&pinnacle.outputs[0]);
    assert_eq!(r2, Some(ScheduleOutcome::NewlyScheduled { token: 1 }));
    assert_eq!(surface_state(&udev), RenderState::Scheduled { token: 1 });
}

#[test]
fn render_callback_for_a_removed_output_goes_idle() {
    let mut udev = test_backend();
    let mut pinnacle = test_pinnacle(7, 42);
    udev.schedule_render(&test_output(7, 42));
    // The output vanishes before the callback fires.
    pinnacle.outputs.clear();
    let decision = udev.render_surface(&mut pinnacle, 7, 42);
    assert_eq!(decision, RenderDecision::OutputGone);
    assert_eq!(surface_state(&udev), RenderState::Idle);
    // A callback for a pipeline with no surface does nothing.
    assert_eq!(udev.render_surface(&mut pinnacle, 9, 9), RenderDecision::NoSurface);
}

#[test]
fn power_change_on_an_unknown_device_is_refused() {
    let mut udev = test_backend();
    let mut pinnacle = test_pinnacle(9, 42);
    let r = udev.set_output_powered(&mut pinnacle, 0, false);
    assert_eq!(r, PowerOutcome::NoDevice);
    assert!(pinnacle.outputs[0].state.powered);
}

#[test]
fn render_pass_lifecycle() {
    let mut udev = test_backend();
    let mut pinnacle = test_pinnacle(7, 42);
    udev.schedule_render(&test_output(7, 42));

    let decision = udev.render_surface(&mut pinnacle, 7, 42);
    assert_eq!(
        decision,
        RenderDecision::Render {
            blank: false,
            clear_color: ClearColor::Normal
        }
    );
    // A submitted frame waits for vblank, not dirty.
    let r = udev.render_complete(&mut pinnacle, 7, 42, RenderOutcome::Rendered);
    assert_eq!(r, None);
    assert_eq!(
        surface_state(&udev),
        RenderState::WaitingForVblank { dirty: false }
    );
}

#[test]
fn empty_or_failed_render_returns_to_idle() {
    let mut udev = test_backend();
    let mut pinnacle = test_pinnacle(7, 42);
    udev.schedule_render(&test_output(7, 42));
    udev.render_surface(&mut pinnacle, 7, 42);
    udev.render_complete(&mut pinnacle, 7, 42, RenderOutcome::Empty);
    assert_eq!(surface_state(&udev), RenderState::Idle);

    udev.schedule_render(&test_output(7, 42));
    udev.render_surface(&mut pinnacle, 7, 42);
    udev.render_complete(&mut pinnacle, 7, 42, RenderOutcome::Failed);
    assert_eq!(surface_state(&udev), RenderState::Idle);
}

#[test]
fn finished_layout_transaction_triggers_followup_render() {
    let mut udev = test_backend();
    let mut pinnacle = test_pinnacle(7, 42);
    udev.schedule_render(&test_output(7, 42));
    pinnacle.outputs[0]
        .state
        .new_wait_layout_transaction(Vec::new(), Vec::new());
    pinnacle.outputs[0].state.layout_transaction.as_mut().unwrap().ready = true;

    udev.render_surface(&mut pinnacle, 7, 42);
    let r = udev.render_complete(&mut pinnacle, 7, 42, RenderOutcome::Rendered);
    // The transaction is retired and the follow-up render coalesces
    // into the frame that is already in flight.
    assert!(pinnacle.outputs[0].state.layout_transaction.is_none());
    assert_eq!(r, Some(ScheduleOutcome::Coalesced));
    assert_eq!(
        surface_state(&udev),
        RenderState::WaitingForVblank { dirty: true }
    );
}

#[test]
fn session_lock_blanks_frame() {
    let mut udev = test_backend();
    let mut pinnacle = test_pinnacle(7, 42);
    pinnacle.lock_state = LockState::Locking;
    udev.schedule_render(&test_output(7, 42));
    let decision = udev.render_surface(&mut pinnacle, 7, 42);
    assert_eq!(
        decision,
        RenderDecision::Render {
            blank: true,
            clear_color: ClearColor::Locked
        }
    );
    assert_eq!(
        pinnacle.outputs[0].state.blanking_state,
        BlankingState::Blanking
    );
    // The blanked frame's vblank completes the blanking.
    udev.render_complete(&mut pinnacle, 7, 42, RenderOutcome::Rendered);
    udev.on_vblank(
        &mut pinnacle,
        7,
        42,
        None,
        FrameSubmittedResult::Submitted {
            has_feedback: false,
        },
        0,
        None,
    );
    assert_eq!(
        pinnacle.outputs[0].state.blanking_state,
        BlankingState::Blanked
    );
}
