//! Output state changes: mode/scale/location updates with their
//! signals, tag filtering, mode setting and format tranches.

use pinnacle::geometry::{Point, Size};
use pinnacle::modeset::ModeChoice;
use pinnacle::output::{LockSurface, Mode, Output, OutputName, OutputState, Tag, Transform};
use pinnacle::registry::Udev;
use pinnacle::state::{Config, LockState, Pinnacle};

fn output(name: &str) -> Output {
    Output {
        name: OutputName(name.to_string()),
        device_id: 1,
        crtc: 7,
        make: String::new(),
        model: String::new(),
        physical_size: Size { w: 0, h: 0 },
        transform: Transform::Normal,
        current_mode: None,
        preferred_mode: None,
        scale_millis: 1000,
        loc: Point { x: 0, y: 0 },
        mapped: false,
        state: OutputState::new(),
    }
}

fn compositor(outputs: Vec<Output>) -> Pinnacle {
    Pinnacle {
        outputs,
        config: Config {
            connector_saved_states: Vec::new(),
        },
        lock_state: LockState::Unlocked,
    }
}

fn mode(w: i32, h: i32) -> Mode {
    Mode {
        size: Size { w, h },
        refresh: 60000,
    }
}

#[test]
fn change_output_state_maps_and_signals() {
    let mut pinnacle = compositor(vec![output("HDMI-A-1")]);
    let r = pinnacle.change_output_state(
        0,
        Some(mode(3000, 2000)),
        None,
        Some(2000),
        Some(Point { x: 100, y: 50 }),
    );
    let o = &pinnacle.outputs[0];
    assert!(o.mapped);
    assert_eq!(o.current_mode, Some(mode(3000, 2000)));
    assert_eq!(o.scale_millis, 2000);
    assert_eq!(o.loc, Point { x: 100, y: 50 });
    assert_eq!(o.state.modes, vec![mode(3000, 2000)]);

    let mv = r.move_signal.unwrap();
    assert_eq!(mv.output_name, "HDMI-A-1");
    assert_eq!((mv.x, mv.y), (100, 50));
    // 3000x2000 at double scale is logically 1500x1000.
    let rs = r.resize_signal.unwrap();
    assert_eq!(rs.logical_width, Some(1500));
    assert_eq!(rs.logical_height, Some(1000));
}

#[test]
fn change_output_state_without_changes_signals_nothing() {
    let mut pinnacle = compositor(vec![output("HDMI-A-1")]);
    let r = pinnacle.change_output_state(0, None, None, None, None);
    assert!(r.move_signal.is_none());
    assert!(r.resize_signal.is_none());
    assert!(r.lock_configure.is_none());
    assert!(!pinnacle.outputs[0].mapped);
}

#[test]
fn change_output_state_reconfigures_lock_surface() {
    let mut pinnacle = compositor(vec![output("HDMI-A-1")]);
    pinnacle.outputs[0].state.lock_surface = Some(LockSurface { size: None });
    pinnacle.change_output_state(0, Some(mode(1920, 1080)), None, None, Some(Point { x: 0, y: 0 }));
    let r = pinnacle.change_output_state(0, Some(mode(1280, 720)), None, None, None);
    assert_eq!(r.lock_configure, Some(Size { w: 1280, h: 720 }));
    assert_eq!(
        pinnacle.outputs[0].state.lock_surface,
        Some(LockSurface {
            size: Some(Size { w: 1280, h: 720 })
        })
    );
}

#[test]
fn focused_tags_filters_active_tags() {
    let mut state = OutputState::new();
    state.tags = vec![
        Tag { id: 1, active: true },
        Tag { id: 2, active: false },
        Tag { id: 3, active: true },
    ];
    let focused = state.focused_tags();
    assert_eq!(
        focused,
        vec![Tag { id: 1, active: true }, Tag { id: 3, active: true }]
    );
}

#[test]
fn layout_transaction_rearms_instead_of_replacing() {
    let mut state = OutputState::new();
    state.new_wait_layout_transaction(
        vec![pinnacle::output::SnapshotTarget { window_id: 1 }],
        Vec::new(),
    );
    state.layout_transaction.as_mut().unwrap().ready = true;
    // A second wait re-arms the in-flight transaction and keeps its
    // snapshots rather than replacing them.
    state.new_wait_layout_transaction(
        vec![pinnacle::output::SnapshotTarget { window_id: 9 }],
        Vec::new(),
    );
    let ts = state.layout_transaction.as_ref().unwrap();
    assert!(!ts.ready);
    assert_eq!(ts.fullscreen_and_up_snapshots.len(), 1);
    assert_eq!(ts.fullscreen_and_up_snapshots[0].window_id, 1);
}

#[test]
fn set_output_mode_failure_retains_previous_mode() {
    let udev = Udev::new("seat0".to_string(), 1);
    let mut pinnacle = compositor(vec![output("HDMI-A-1")]);
    pinnacle.outputs[0].current_mode = Some(mode(1920, 1080));
    let ok = udev.set_output_mode(&mut pinnacle, 0, mode(1280, 720), false);
    assert!(!ok);
    assert_eq!(pinnacle.outputs[0].current_mode, Some(mode(1920, 1080)));
}

#[test]
fn set_output_mode_learns_custom_modes() {
    let udev = Udev::new("seat0".to_string(), 1);
    let mut pinnacle = compositor(vec![output("HDMI-A-1")]);
    pinnacle.outputs[0].state.modes = vec![mode(1920, 1080)];

    // A mode the output advertises is used as-is.
    assert_eq!(
        pinnacle.choose_mode(0, mode(1920, 1080)),
        ModeChoice::Advertised(mode(1920, 1080))
    );
    // An unknown one is synthesized, and learned on success.
    assert_eq!(
        pinnacle.choose_mode(0, mode(1280, 720)),
        ModeChoice::Custom(mode(1280, 720))
    );
    let ok = udev.set_output_mode(&mut pinnacle, 0, mode(1280, 720), true);
    assert!(ok);
    assert_eq!(pinnacle.outputs[0].current_mode, Some(mode(1280, 720)));
    assert_eq!(
        pinnacle.outputs[0].state.modes,
        vec![mode(1920, 1080), mode(1280, 720)]
    );
}

#[test]
fn reset_buffers_reports_surface_presence() {
    let mut udev = Udev::new("seat0".to_string(), 1);
    udev.device_added(1, 1, 100);
    assert!(!udev.reset_buffers(1, 7));
}

#[test]
fn output_lookup_by_name() {
    let pinnacle = compositor(vec![output("HDMI-A-1"), output("DP-1")]);
    let name = OutputName("DP-1".to_string());
    assert_eq!(name.output(&pinnacle), Some(1));
    let missing = OutputName("DP-9".to_string());
    assert_eq!(missing.output(&pinnacle), None);
}

#[test]
fn scanout_tranche_keeps_only_renderable_plane_formats() {
    let primary = vec![(1u64, 0u64), (4, 0)];
    let render = vec![(2u64, 0u64)];
    let planes = vec![(1u64, 0u64), (2, 0), (2, 0), (3, 0), (1, 0)];
    let tranche = pinnacle::formats::scanout_tranche_formats(&primary, &render, &planes);
    // Deduplicated, and format 3 is dropped: nothing could render it
    // as a fallback. Format 4 is renderable but on no plane.
    assert_eq!(tranche, vec![(1, 0), (2, 0)]);
}
