//! Device and connector hotplug: idempotent adds, connect/disconnect
//! lifecycles and fresh surfaces on reconnect.

use pinnacle::geometry::{Point, Size};
use pinnacle::output::Mode;
use pinnacle::registry::{ConnectOutcome, ConnectorInfo, ConnectorMode, EdidInfo, ScanEvent, Udev};
use pinnacle::state::{Config, ConnectorSavedState, LockState, Pinnacle};
use pinnacle::surface::{GammaTables, PendingGammaChange, RenderState};

fn empty_pinnacle() -> Pinnacle {
    Pinnacle {
        outputs: Vec::new(),
        config: Config {
            connector_saved_states: Vec::new(),
        },
        lock_state: LockState::Unlocked,
    }
}

fn hdmi_connector() -> ConnectorInfo {
    ConnectorInfo {
        connector: 5,
        interface: "HDMI-A".to_string(),
        interface_id: 1,
        modes: vec![
            ConnectorMode {
                mode: Mode {
                    size: Size { w: 1280, h: 720 },
                    refresh: 60000,
                },
                preferred: false,
            },
            ConnectorMode {
                mode: Mode {
                    size: Size { w: 1920, h: 1080 },
                    refresh: 60000,
                },
                preferred: true,
            },
        ],
        physical_size: Some(Size { w: 600, h: 340 }),
        edid: Some(EdidInfo {
            make: "TestMake".to_string(),
            model: "TestModel".to_string(),
            serial: Some(4242),
        }),
    }
}

#[test]
fn add_device_twice_is_idempotent() {
    let mut udev = Udev::new("seat0".to_string(), 1);
    assert!(udev.device_added(1, 1, 100));
    assert!(!udev.device_added(1, 1, 100));
    assert_eq!(udev.devices.len(), 1);
    assert_eq!(udev.devices[0].id, 1);
    assert_eq!(udev.devices[0].registration_token, 100);
}

#[test]
fn connector_connected_creates_fresh_surface_and_output() {
    let mut udev = Udev::new("seat0".to_string(), 1);
    let mut pinnacle = empty_pinnacle();
    udev.device_added(1, 1, 100);
    let r = udev.connector_connected(&mut pinnacle, 1, &hdmi_connector(), 42, true);
    let signal = match r {
        ConnectOutcome::Connected { connect_signal, .. } => connect_signal,
        _ => panic!("expected a connection"),
    };
    // A brand-new connector announces itself.
    assert_eq!(signal.unwrap().output_name, "HDMI-A-1");

    assert_eq!(udev.devices[0].surfaces.len(), 1);
    let s = &udev.devices[0].surfaces[0];
    assert_eq!(s.render_state, RenderState::Idle);
    assert_eq!(s.screencopy_commit_state.primary_plane_swapchain, 0);
    assert_eq!(s.screencopy_commit_state.cursor, 0);
    assert!(s.previous_gamma.is_none());

    assert_eq!(pinnacle.outputs.len(), 1);
    let o = &pinnacle.outputs[0];
    assert_eq!(o.name.0, "HDMI-A-1");
    // The hardware-preferred mode wins over the first listed one.
    assert_eq!(
        o.current_mode,
        Some(Mode {
            size: Size { w: 1920, h: 1080 },
            refresh: 60000
        })
    );
    assert!(o.mapped);
    assert_eq!(o.state.serial, Some(4242));
    assert_eq!(o.make, "TestMake");
}

#[test]
fn duplicate_pipeline_is_refused() {
    let mut udev = Udev::new("seat0".to_string(), 1);
    let mut pinnacle = empty_pinnacle();
    udev.device_added(1, 1, 100);
    udev.connector_connected(&mut pinnacle, 1, &hdmi_connector(), 42, true);
    let r = udev.connector_connected(&mut pinnacle, 1, &hdmi_connector(), 42, true);
    assert!(matches!(r, ConnectOutcome::AlreadyConnected));
    assert_eq!(pinnacle.outputs.len(), 1);
}

#[test]
fn failed_pipeline_changes_nothing() {
    let mut udev = Udev::new("seat0".to_string(), 1);
    let mut pinnacle = empty_pinnacle();
    udev.device_added(1, 1, 100);
    let r = udev.connector_connected(&mut pinnacle, 1, &hdmi_connector(), 42, false);
    assert!(matches!(r, ConnectOutcome::PipelineFailed));
    assert!(pinnacle.outputs.is_empty());
    assert!(udev.devices[0].surfaces.is_empty());
}

#[test]
fn reconnect_yields_fresh_surface() {
    let mut udev = Udev::new("seat0".to_string(), 1);
    let mut pinnacle = empty_pinnacle();
    udev.device_added(1, 1, 100);
    udev.connector_connected(&mut pinnacle, 1, &hdmi_connector(), 42, true);

    // Dirty the surface as a frame and a capture would.
    {
        let s = &mut udev.devices[0].surfaces[0];
        s.render_state = RenderState::WaitingForVblank { dirty: true };
        s.screencopy_commit_state.primary_plane_swapchain = 9;
        s.screencopy_commit_state.cursor = 3;
        s.previous_gamma = Some(GammaTables {
            red: vec![1],
            green: vec![2],
            blue: vec![3],
        });
        s.pending_gamma_change = PendingGammaChange::Restore;
    }

    udev.connector_disconnected(&mut pinnacle, 1, 42);
    assert!(udev.devices[0].surfaces.is_empty());
    assert!(pinnacle.outputs.is_empty());

    udev.connector_connected(&mut pinnacle, 1, &hdmi_connector(), 42, true);
    let s = &udev.devices[0].surfaces[0];
    // No residual damage counters or gamma state from the prior
    // instance; scheduling starts at Idle.
    assert_eq!(s.render_state, RenderState::Idle);
    assert_eq!(s.screencopy_commit_state.primary_plane_swapchain, 0);
    assert_eq!(s.screencopy_commit_state.primary_plane_element, 0);
    assert_eq!(s.screencopy_commit_state.cursor, 0);
    assert!(s.previous_gamma.is_none());
    assert_eq!(s.pending_gamma_change, PendingGammaChange::Idle);
}

#[test]
fn saved_connector_state_is_restored() {
    let mut udev = Udev::new("seat0".to_string(), 1);
    let mut pinnacle = empty_pinnacle();
    pinnacle.config.connector_saved_states.push((
        pinnacle::output::OutputName("HDMI-A-1".to_string()),
        ConnectorSavedState {
            loc: Point { x: 500, y: 250 },
            tags: vec![pinnacle::output::Tag {
                id: 3,
                active: true,
            }],
            scale: Some(2000),
        },
    ));
    udev.device_added(1, 1, 100);
    let r = udev.connector_connected(&mut pinnacle, 1, &hdmi_connector(), 42, true);
    match r {
        ConnectOutcome::Connected { connect_signal, .. } => {
            // A known connector is restored, not announced as new.
            assert!(connect_signal.is_none());
        }
        _ => panic!("expected a connection"),
    }
    let o = &pinnacle.outputs[0];
    assert_eq!(o.loc, Point { x: 500, y: 250 });
    assert_eq!(o.scale_millis, 2000);
    assert_eq!(o.state.tags.len(), 1);
    assert_eq!(o.state.tags[0].id, 3);
}

#[test]
fn device_removed_tears_down_outputs() {
    let mut udev = Udev::new("seat0".to_string(), 1);
    let mut pinnacle = empty_pinnacle();
    udev.device_added(1, 1, 100);
    udev.connector_connected(&mut pinnacle, 1, &hdmi_connector(), 42, true);
    let token = udev.device_removed(&mut pinnacle, 1);
    assert_eq!(token, Some(100));
    assert!(udev.devices.is_empty());
    assert!(pinnacle.outputs.is_empty());
    // Removing an unknown device is a no-op.
    assert_eq!(udev.device_removed(&mut pinnacle, 1), None);
}

#[test]
fn device_changed_applies_scan_diff() {
    let mut udev = Udev::new("seat0".to_string(), 1);
    let mut pinnacle = empty_pinnacle();
    udev.device_added(1, 1, 100);
    let events = vec![
        ScanEvent::Connected {
            connector: hdmi_connector(),
            crtc: Some(42),
            pipeline_ok: true,
        },
        ScanEvent::Disconnected { crtc: None },
    ];
    udev.device_changed(&mut pinnacle, 1, &events);
    assert_eq!(udev.devices[0].surfaces.len(), 1);
    assert_eq!(pinnacle.outputs.len(), 1);

    // An empty re-scan creates and destroys nothing.
    udev.device_changed(&mut pinnacle, 1, &Vec::new());
    assert_eq!(udev.devices[0].surfaces.len(), 1);
    assert_eq!(pinnacle.outputs.len(), 1);

    let events = vec![ScanEvent::Disconnected { crtc: Some(42) }];
    udev.device_changed(&mut pinnacle, 1, &events);
    assert!(udev.devices[0].surfaces.is_empty());
    assert!(pinnacle.outputs.is_empty());
}

#[test]
fn connecting_on_an_unknown_device_changes_nothing() {
    let mut udev = Udev::new("seat0".to_string(), 1);
    let mut pinnacle = empty_pinnacle();
    let r = udev.connector_connected(&mut pinnacle, 9, &hdmi_connector(), 42, true);
    assert!(matches!(r, ConnectOutcome::NoDevice));
    assert!(udev.devices.is_empty());
    assert!(pinnacle.outputs.is_empty());
}

#[test]
fn connector_names_are_interface_dash_id() {
    assert_eq!(pinnacle::strfmt::connector_name("HDMI-A", 1), "HDMI-A-1");
    assert_eq!(pinnacle::strfmt::connector_name("DP", 0), "DP-0");
    assert_eq!(
        pinnacle::strfmt::connector_name("eDP", 1234567890),
        "eDP-1234567890"
    );
}
