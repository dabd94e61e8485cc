//! Screen-capture synchronization: damage-only policy, buffer
//! validation, copy-path selection and commit-counter advancement.

use pinnacle::geometry::{Point, Rect, Size};
use pinnacle::output::OutputState;
use pinnacle::screencopy::{
    handle_pending_screencopy, screencopy_copy_result, BufferKind, BufferSpec, CopyOutcome,
    CopyPath, CursorPlane, DamageEntry, DropReason, PlaneDamageLog, RenderFrameInfo, Screencopy,
    ScreencopyDecision, SubmitAction, FOURCC_ARGB8888,
};
use pinnacle::surface::ScreencopyCommitState;

fn output_size() -> Size {
    Size { w: 1920, h: 1080 }
}

fn full_region() -> Rect {
    Rect {
        loc: Point { x: 0, y: 0 },
        size: output_size(),
    }
}

fn dmabuf_for(region: Rect) -> BufferSpec {
    BufferSpec {
        kind: BufferKind::Dmabuf,
        fourcc: FOURCC_ARGB8888,
        width: region.size.w,
        height: region.size.h,
        stride: 0,
        len: 0,
    }
}

fn shm_for(region: Rect) -> BufferSpec {
    BufferSpec {
        kind: BufferKind::Shm,
        fourcc: FOURCC_ARGB8888,
        width: region.size.w,
        height: region.size.h,
        stride: region.size.w * 4,
        len: (region.size.w * 4 * region.size.h) as usize,
    }
}

fn capture(with_damage: bool, region: Rect, buffer: BufferSpec) -> Screencopy {
    Screencopy {
        output_name: pinnacle::output::OutputName("HDMI-A-1".to_string()),
        with_damage,
        overlay_cursor: false,
        physical_region: region,
        buffer,
    }
}

fn frame_with_damage(rects: Vec<(u64, Rect)>, current: u64) -> RenderFrameInfo {
    RenderFrameInfo {
        is_empty: false,
        primary_is_swapchain: true,
        primary: PlaneDamageLog {
            current_commit: current,
            floor: 0,
            entries: rects
                .into_iter()
                .map(|(commit, rect)| DamageEntry { commit, rect })
                .collect(),
        },
        cursor: None,
    }
}

fn small_rect() -> Rect {
    Rect {
        loc: Point { x: 10, y: 10 },
        size: Size { w: 100, h: 50 },
    }
}

#[test]
fn attach_capture_replaces_earlier_request() {
    let mut state = OutputState::new();
    let first = capture(true, full_region(), dmabuf_for(full_region()));
    let second = capture(false, full_region(), shm_for(full_region()));
    assert_eq!(state.attach_capture(first.clone()), None);
    // At most one outstanding per output: the earlier request is
    // handed back to its sender.
    assert_eq!(state.attach_capture(second.clone()), Some(first));
    assert_eq!(state.screencopy, Some(second));
}

#[test]
fn no_pending_capture_is_a_noop() {
    let cc = ScreencopyCommitState::start();
    let mut state = OutputState::new();
    let frame = frame_with_damage(vec![(1, small_rect())], 1);
    let d = handle_pending_screencopy(&cc, &mut state, output_size(), &frame);
    assert_eq!(d, ScreencopyDecision::NonePending);
}

#[test]
fn damage_only_capture_requeues_on_empty_frame() {
    let cc = ScreencopyCommitState::start();
    let mut state = OutputState::new();
    state.screencopy = Some(capture(true, full_region(), dmabuf_for(full_region())));
    let mut frame = frame_with_damage(Vec::new(), 0);
    frame.is_empty = true;
    let d = handle_pending_screencopy(&cc, &mut state, output_size(), &frame);
    assert_eq!(d, ScreencopyDecision::Requeued);
    // The request stays attached and is retried on the next render.
    assert!(state.screencopy.is_some());
}

#[test]
fn damage_only_capture_requeues_on_empty_damage() {
    // The frame rendered something, but everything it touched was
    // already copied out (counters are current).
    let cc = ScreencopyCommitState {
        primary_plane_swapchain: 4,
        primary_plane_element: 0,
        cursor: 0,
    };
    let mut state = OutputState::new();
    state.screencopy = Some(capture(true, full_region(), dmabuf_for(full_region())));
    let frame = frame_with_damage(vec![(3, small_rect()), (4, small_rect())], 4);
    let d = handle_pending_screencopy(&cc, &mut state, output_size(), &frame);
    assert_eq!(d, ScreencopyDecision::Requeued);
    assert!(state.screencopy.is_some());
}

#[test]
fn damage_only_capture_never_completes_empty() {
    let cc = ScreencopyCommitState::start();
    let mut state = OutputState::new();
    state.screencopy = Some(capture(true, full_region(), dmabuf_for(full_region())));
    let frame = frame_with_damage(vec![(1, small_rect())], 1);
    let d = handle_pending_screencopy(&cc, &mut state, output_size(), &frame);
    match d {
        ScreencopyDecision::Proceed(task) => {
            assert!(!task.damage.is_empty());
            assert_eq!(task.damage, vec![small_rect()]);
            assert_eq!(task.new_commits.primary_plane_swapchain, 1);
        }
        other => panic!("expected the capture to proceed, got {:?}", other),
    }
    assert!(state.screencopy.is_none());
}

#[test]
fn stale_counter_damages_whole_output() {
    // The damage history no longer reaches back to the last copied
    // commit: the whole output is damaged.
    let cc = ScreencopyCommitState {
        primary_plane_swapchain: 1,
        primary_plane_element: 0,
        cursor: 0,
    };
    let mut state = OutputState::new();
    state.screencopy = Some(capture(true, full_region(), dmabuf_for(full_region())));
    let frame = RenderFrameInfo {
        is_empty: false,
        primary_is_swapchain: true,
        primary: PlaneDamageLog {
            current_commit: 9,
            floor: 5,
            entries: vec![DamageEntry {
                commit: 9,
                rect: small_rect(),
            }],
        },
        cursor: None,
    };
    let d = handle_pending_screencopy(&cc, &mut state, output_size(), &frame);
    match d {
        ScreencopyDecision::Proceed(task) => {
            assert_eq!(task.damage, vec![full_region()]);
        }
        other => panic!("expected the capture to proceed, got {:?}", other),
    }
}

#[test]
fn cursor_movement_alone_damages_cursor_geometry() {
    let cc = ScreencopyCommitState {
        primary_plane_swapchain: 2,
        primary_plane_element: 0,
        cursor: 5,
    };
    let cursor_geo = Rect {
        loc: Point { x: 800, y: 600 },
        size: Size { w: 24, h: 24 },
    };
    let mut state = OutputState::new();
    state.screencopy = Some(capture(true, full_region(), dmabuf_for(full_region())));
    let frame = RenderFrameInfo {
        is_empty: false,
        primary_is_swapchain: true,
        primary: PlaneDamageLog {
            current_commit: 2,
            floor: 0,
            entries: Vec::new(),
        },
        cursor: Some(CursorPlane {
            log: PlaneDamageLog {
                current_commit: 5,
                floor: 0,
                entries: Vec::new(),
            },
            geometry: cursor_geo,
        }),
    };
    let d = handle_pending_screencopy(&cc, &mut state, output_size(), &frame);
    match d {
        ScreencopyDecision::Proceed(task) => {
            assert_eq!(task.damage, vec![cursor_geo]);
        }
        other => panic!("expected the capture to proceed, got {:?}", other),
    }
}

#[test]
fn incompatible_buffer_is_dropped_silently() {
    let cc = ScreencopyCommitState::start();
    let mut state = OutputState::new();
    let mut bad = dmabuf_for(full_region());
    bad.fourcc = 0x3231_5258; // a format the capture path refuses
    state.screencopy = Some(capture(false, full_region(), bad));
    let frame = frame_with_damage(vec![(1, small_rect())], 1);
    let d = handle_pending_screencopy(&cc, &mut state, output_size(), &frame);
    assert_eq!(d, ScreencopyDecision::Dropped(DropReason::DmabufMismatch));
    assert!(state.screencopy.is_none());

    // No effect on subsequent frames: a valid capture still works.
    state.screencopy = Some(capture(false, full_region(), dmabuf_for(full_region())));
    let d2 = handle_pending_screencopy(&cc, &mut state, output_size(), &frame);
    assert!(matches!(d2, ScreencopyDecision::Proceed(_)));
}

#[test]
fn wrong_size_dmabuf_is_dropped() {
    let cc = ScreencopyCommitState::start();
    let mut state = OutputState::new();
    let mut bad = dmabuf_for(full_region());
    bad.width = 640;
    state.screencopy = Some(capture(false, full_region(), bad));
    let frame = frame_with_damage(vec![(1, small_rect())], 1);
    let d = handle_pending_screencopy(&cc, &mut state, output_size(), &frame);
    assert_eq!(d, ScreencopyDecision::Dropped(DropReason::DmabufMismatch));
}

#[test]
fn bad_shm_layout_is_dropped() {
    let cc = ScreencopyCommitState::start();
    let mut state = OutputState::new();
    let mut bad = shm_for(full_region());
    bad.stride = 1920; // must be width * 4
    state.screencopy = Some(capture(false, full_region(), bad));
    let frame = frame_with_damage(vec![(1, small_rect())], 1);
    let d = handle_pending_screencopy(&cc, &mut state, output_size(), &frame);
    assert_eq!(d, ScreencopyDecision::Dropped(DropReason::ShmMismatch));
}

#[test]
fn unknown_buffer_kind_is_dropped() {
    let cc = ScreencopyCommitState::start();
    let mut state = OutputState::new();
    let mut bad = dmabuf_for(full_region());
    bad.kind = BufferKind::Other;
    state.screencopy = Some(capture(false, full_region(), bad));
    let frame = frame_with_damage(vec![(1, small_rect())], 1);
    let d = handle_pending_screencopy(&cc, &mut state, output_size(), &frame);
    assert_eq!(d, ScreencopyDecision::Dropped(DropReason::NotShm));
}

#[test]
fn copy_path_selection() {
    let cc = ScreencopyCommitState::start();
    let frame = frame_with_damage(vec![(1, small_rect())], 1);

    // Full-output dmabuf: direct blit.
    let mut state = OutputState::new();
    state.screencopy = Some(capture(false, full_region(), dmabuf_for(full_region())));
    match handle_pending_screencopy(&cc, &mut state, output_size(), &frame) {
        ScreencopyDecision::Proceed(task) => {
            assert_eq!(task.path, CopyPath::DmabufDirect);
        }
        other => panic!("unexpected decision {:?}", other),
    }

    // Sub-region dmabuf: via an intermediate target.
    let sub = Rect {
        loc: Point { x: 100, y: 100 },
        size: Size { w: 400, h: 300 },
    };
    state.screencopy = Some(capture(false, sub, dmabuf_for(sub)));
    match handle_pending_screencopy(&cc, &mut state, output_size(), &frame) {
        ScreencopyDecision::Proceed(task) => {
            assert_eq!(task.path, CopyPath::DmabufViaOffscreen);
        }
        other => panic!("unexpected decision {:?}", other),
    }

    // Shm always goes through the intermediate target.
    state.screencopy = Some(capture(false, sub, shm_for(sub)));
    match handle_pending_screencopy(&cc, &mut state, output_size(), &frame) {
        ScreencopyDecision::Proceed(task) => {
            assert_eq!(task.path, CopyPath::ShmViaOffscreen);
        }
        other => panic!("unexpected decision {:?}", other),
    }
}

#[test]
fn counters_advance_only_on_successful_copy() {
    let mut cc = ScreencopyCommitState::start();
    let new_commits = ScreencopyCommitState {
        primary_plane_swapchain: 7,
        primary_plane_element: 0,
        cursor: 2,
    };
    // A failed copy leaves the counters alone, so the missed damage
    // window is still covered by the next capture.
    let a = screencopy_copy_result(&mut cc, &new_commits, CopyOutcome::Failed);
    assert_eq!(a, SubmitAction::Dropped);
    assert_eq!(cc, ScreencopyCommitState::start());

    // A finished copy whose fence already signaled submits right away.
    let a = screencopy_copy_result(
        &mut cc,
        &new_commits,
        CopyOutcome::Copied {
            sync_reached: true,
            export_ok: true,
        },
    );
    assert_eq!(a, SubmitAction::SubmitNow);
    assert_eq!(cc, new_commits);
}

#[test]
fn unsignaled_fence_defers_submission() {
    let mut cc = ScreencopyCommitState::start();
    let new_commits = ScreencopyCommitState {
        primary_plane_swapchain: 1,
        primary_plane_element: 0,
        cursor: 0,
    };
    let a = screencopy_copy_result(
        &mut cc,
        &new_commits,
        CopyOutcome::Copied {
            sync_reached: false,
            export_ok: true,
        },
    );
    assert_eq!(a, SubmitAction::AwaitFence);
    assert_eq!(cc, new_commits);

    // A fence that cannot be exported falls back to immediate
    // submission.
    let mut cc2 = ScreencopyCommitState::start();
    let a2 = screencopy_copy_result(
        &mut cc2,
        &new_commits,
        CopyOutcome::Copied {
            sync_reached: false,
            export_ok: false,
        },
    );
    assert_eq!(a2, SubmitAction::SubmitNow);
}

#[test]
fn non_damage_capture_ignores_damage_and_keeps_counters() {
    let cc = ScreencopyCommitState {
        primary_plane_swapchain: 3,
        primary_plane_element: 1,
        cursor: 2,
    };
    let mut state = OutputState::new();
    state.screencopy = Some(capture(false, full_region(), dmabuf_for(full_region())));
    let mut frame = frame_with_damage(Vec::new(), 3);
    frame.is_empty = true;
    // Even an empty frame serves a capture that did not ask for damage.
    match handle_pending_screencopy(&cc, &mut state, output_size(), &frame) {
        ScreencopyDecision::Proceed(task) => {
            assert!(task.damage.is_empty());
            assert_eq!(task.new_commits, cc);
        }
        other => panic!("unexpected decision {:?}", other),
    }
}
