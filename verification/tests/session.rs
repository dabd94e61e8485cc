//! Session pause/resume: idempotent pausing, registry reconciliation
//! on resume, and the tri-state gamma policy.

use pinnacle::geometry::Size;
use pinnacle::output::Mode;
use pinnacle::registry::{ConnectorInfo, ConnectorMode, ScanEvent, Udev};
use pinnacle::session::DeviceScan;
use pinnacle::state::{Config, LockState, Pinnacle};
use pinnacle::surface::{GammaTables, PendingGammaChange, RenderState, ScheduleOutcome};

fn blank_pinnacle() -> Pinnacle {
    Pinnacle {
        outputs: Vec::new(),
        config: Config {
            connector_saved_states: Vec::new(),
        },
        lock_state: LockState::Unlocked,
    }
}

fn connector(interface: &str, id: u32) -> ConnectorInfo {
    ConnectorInfo {
        connector: 1,
        interface: interface.to_string(),
        interface_id: id,
        modes: vec![ConnectorMode {
            mode: Mode {
                size: Size { w: 1920, h: 1080 },
                refresh: 60000,
            },
            preferred: true,
        }],
        physical_size: None,
        edid: None,
    }
}

fn tables(v: u16) -> GammaTables {
    GammaTables {
        red: vec![v],
        green: vec![v],
        blue: vec![v],
    }
}

#[test]
fn pause_is_idempotent() {
    let mut udev = Udev::new("seat0".to_string(), 1);
    udev.device_added(1, 1, 100);
    udev.device_added(2, 2, 200);
    udev.pause();
    assert!(udev.devices.iter().all(|d| d.paused));
    let ids: Vec<u64> = udev.devices.iter().map(|d| d.id).collect();
    udev.pause();
    assert!(udev.devices.iter().all(|d| d.paused));
    assert_eq!(ids, udev.devices.iter().map(|d| d.id).collect::<Vec<u64>>());
}

#[test]
fn resume_after_unplug_keeps_exactly_the_enumerated_device() {
    let mut udev = Udev::new("seat0".to_string(), 1);
    let mut pinnacle = blank_pinnacle();
    udev.device_added(1, 1, 100);
    udev.device_added(2, 2, 200);
    udev.connector_connected(&mut pinnacle, 1, &connector("HDMI-A", 1), 41, true);
    udev.connector_connected(&mut pinnacle, 2, &connector("DP", 1), 42, true);
    assert_eq!(pinnacle.outputs.len(), 2);

    udev.pause();
    // Device 2 was unplugged during the pause; device 1 re-scans and
    // picks up a second connector.
    let scans = vec![DeviceScan {
        id: 1,
        render_node: 1,
        registration_token: 100,
        events: vec![ScanEvent::Connected {
            connector: connector("DP", 2),
            crtc: Some(43),
            pipeline_ok: true,
        }],
    }];
    let report = udev.resume(&mut pinnacle, &scans);

    // Registry afterward contains exactly one device node, rescanned.
    assert_eq!(udev.devices.len(), 1);
    assert_eq!(udev.devices[0].id, 1);
    assert!(!udev.devices[0].paused);
    assert_eq!(udev.devices[0].surfaces.len(), 2);
    assert_eq!(report.removed_tokens, vec![200]);
    // The vanished device's output is gone; the survivor's outputs
    // remain and a render was scheduled for each mapped one.
    assert_eq!(pinnacle.outputs.len(), 2);
    assert!(pinnacle.outputs.iter().all(|o| o.device_id == 1));
    assert_eq!(report.scheduled.len(), 2);
    assert!(report
        .scheduled
        .iter()
        .all(|s| matches!(s, Some(ScheduleOutcome::NewlyScheduled { .. }))));
    assert!(udev
        .devices[0]
        .surfaces
        .iter()
        .all(|s| matches!(s.render_state, RenderState::Scheduled { .. })));
}

#[test]
fn resume_registers_new_devices() {
    let mut udev = Udev::new("seat0".to_string(), 1);
    let mut pinnacle = blank_pinnacle();
    udev.device_added(1, 1, 100);
    udev.pause();
    let scans = vec![
        DeviceScan {
            id: 1,
            render_node: 1,
            registration_token: 100,
            events: Vec::new(),
        },
        DeviceScan {
            id: 3,
            render_node: 3,
            registration_token: 300,
            events: vec![ScanEvent::Connected {
                connector: connector("HDMI-A", 1),
                crtc: Some(50),
                pipeline_ok: true,
            }],
        },
    ];
    udev.resume(&mut pinnacle, &scans);
    assert_eq!(udev.devices.len(), 2);
    assert!(udev.devices.iter().any(|d| d.id == 3));
    assert!(udev.devices.iter().all(|d| !d.paused));
    assert_eq!(pinnacle.outputs.len(), 1);
}

#[test]
fn gamma_change_applied_on_success() {
    let mut udev = Udev::new("seat0".to_string(), 1);
    let mut pinnacle = blank_pinnacle();
    udev.device_added(1, 1, 100);
    udev.connector_connected(&mut pinnacle, 1, &connector("HDMI-A", 1), 41, true);
    udev.devices[0].surfaces[0].pending_gamma_change = PendingGammaChange::Change(tables(9));

    assert!(udev.finish_gamma_for(1, 41, true));
    let s = &udev.devices[0].surfaces[0];
    assert_eq!(s.pending_gamma_change, PendingGammaChange::Idle);
    assert_eq!(s.previous_gamma, Some(tables(9)));
}

#[test]
fn gamma_failure_clears_pending_state() {
    let mut udev = Udev::new("seat0".to_string(), 1);
    let mut pinnacle = blank_pinnacle();
    udev.device_added(1, 1, 100);
    udev.connector_connected(&mut pinnacle, 1, &connector("HDMI-A", 1), 41, true);
    udev.devices[0].surfaces[0].previous_gamma = Some(tables(4));
    udev.devices[0].surfaces[0].pending_gamma_change = PendingGammaChange::Change(tables(9));

    assert!(udev.finish_gamma_for(1, 41, false));
    let s = &udev.devices[0].surfaces[0];
    // Not retried indefinitely: pending consumed, last-known cleared.
    assert_eq!(s.pending_gamma_change, PendingGammaChange::Idle);
    assert_eq!(s.previous_gamma, None);
}

#[test]
fn gamma_restore_clears_previous() {
    let mut udev = Udev::new("seat0".to_string(), 1);
    let mut pinnacle = blank_pinnacle();
    udev.device_added(1, 1, 100);
    udev.connector_connected(&mut pinnacle, 1, &connector("HDMI-A", 1), 41, true);
    udev.devices[0].surfaces[0].previous_gamma = Some(tables(4));
    udev.devices[0].surfaces[0].pending_gamma_change = PendingGammaChange::Restore;

    assert!(udev.finish_gamma_for(1, 41, true));
    let s = &udev.devices[0].surfaces[0];
    assert_eq!(s.previous_gamma, None);
}

#[test]
fn gamma_reapply_keeps_previous_on_success() {
    let mut udev = Udev::new("seat0".to_string(), 1);
    let mut pinnacle = blank_pinnacle();
    udev.device_added(1, 1, 100);
    udev.connector_connected(&mut pinnacle, 1, &connector("HDMI-A", 1), 41, true);
    udev.devices[0].surfaces[0].previous_gamma = Some(tables(4));

    assert!(udev.finish_gamma_for(1, 41, true));
    assert_eq!(
        udev.devices[0].surfaces[0].previous_gamma,
        Some(tables(4))
    );
    // A failed re-apply clears the remembered tables.
    udev.devices[0].surfaces[0].previous_gamma = Some(tables(4));
    assert!(udev.finish_gamma_for(1, 41, false));
    assert_eq!(udev.devices[0].surfaces[0].previous_gamma, None);
}

#[test]
fn gamma_target_reflects_pending_state() {
    let mut udev = Udev::new("seat0".to_string(), 1);
    let mut pinnacle = blank_pinnacle();
    udev.device_added(1, 1, 100);
    udev.connector_connected(&mut pinnacle, 1, &connector("HDMI-A", 1), 41, true);

    // A fresh surface re-applies its (absent) last-known gamma.
    match udev.gamma_to_apply_for(1, 41) {
        Some(pinnacle::surface::GammaTarget::Reapply(None)) => {}
        other => panic!("unexpected target {:?}", other),
    }
    udev.devices[0].surfaces[0].pending_gamma_change = PendingGammaChange::Change(tables(2));
    match udev.gamma_to_apply_for(1, 41) {
        Some(pinnacle::surface::GammaTarget::Apply(g)) => assert_eq!(*g, tables(2)),
        other => panic!("unexpected target {:?}", other),
    }
    udev.devices[0].surfaces[0].pending_gamma_change = PendingGammaChange::Restore;
    assert!(matches!(
        udev.gamma_to_apply_for(1, 41),
        Some(pinnacle::surface::GammaTarget::Reset)
    ));
    // No surface, no target.
    assert!(udev.gamma_to_apply_for(1, 99).is_none());
}

#[test]
fn seat_name_reports_the_session_seat() {
    let udev = Udev::new("seat7".to_string(), 1);
    assert_eq!(udev.seat_name(), "seat7");
}
