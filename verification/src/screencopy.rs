//! Screen capture synchronization: one pending capture per output,
//! damage-only policy driven by per-plane commit counters, buffer
//! validation and copy-path selection.
//!
//! The commit counters advance only when a frame is actually copied,
//! never on a mere render, so no damage window is ever skipped.

use vstd::prelude::*;

use crate::geometry::{Point, Rect, Size};
use crate::output::{OutputName, OutputState};
use crate::surface::ScreencopyCommitState;

verus! {

/// The drm fourcc code of the ARGB8888 pixel format, the only format
/// capture buffers are accepted in.
pub const FOURCC_ARGB8888: u32 = 0x34325241;

/// What kind of buffer a capture client supplied.
#[derive(Debug, Clone, Copy, PartialEq, Eq, Structural)]
pub enum BufferKind {
    Dmabuf,
    Shm,
    Other,
}

/// The client-supplied capture buffer, by its plain properties.
#[derive(Debug, Clone, Copy, PartialEq, Eq, Structural)]
pub struct BufferSpec {
    pub kind: BufferKind,
    /// Pixel format as a drm fourcc code.
    pub fourcc: u32,
    pub width: i32,
    pub height: i32,
    /// Bytes per row; meaningful for shm buffers.
    pub stride: i32,
    /// Total length in bytes; meaningful for shm buffers.
    pub len: usize,
}

/// A pending capture request, attached to an output until it is served.
#[derive(Debug, Clone, PartialEq, Eq)]
pub struct Screencopy {
    pub output_name: OutputName,
    /// Only complete once there is damage to report.
    pub with_damage: bool,
    /// Whether the cursor should be composited into the copy.
    pub overlay_cursor: bool,
    /// The requested sub-region of the output, in physical coordinates.
    pub physical_region: Rect,
    pub buffer: BufferSpec,
}

/// One damage rect produced by one commit of a plane.
#[derive(Debug, Clone, Copy, PartialEq, Eq, Structural)]
pub struct DamageEntry {
    pub commit: u64,
    pub rect: Rect,
}

/// The damage history of one plane. `entries` holds the damage of every
/// commit after `floor` up to `current_commit`; how much damage older
/// commits produced is no longer known.
#[derive(Debug, Clone, PartialEq, Eq)]
pub struct PlaneDamageLog {
    pub current_commit: u64,
    /// "Damage since c" is known only for c at or above this value.
    pub floor: u64,
    pub entries: Vec<DamageEntry>,
}

impl PlaneDamageLog {
    /// Well-formed: the window is ordered and every entry lies in it.
    pub open spec fn wf(&self) -> bool {
        &&& self.floor <= self.current_commit
        &&& forall|i: int|
            0 <= i < self.entries@.len() ==> self.floor < (#[trigger] self.entries@[i]).commit
                <= self.current_commit
    }

    /// The damage accumulated since commit `c`, or `None` when `c` is
    /// older than the tracked window.
    pub open spec fn damage_since_spec(&self, c: u64) -> Option<Seq<Rect>> {
        if c < self.floor {
            None
        } else {
            Some(
                self.entries@.filter(|e: DamageEntry| e.commit > c).map_values(
                    |e: DamageEntry| e.rect,
                ),
            )
        }
    }

    /// Collect the damage of all commits after `c`, or `None` when the
    /// history does not reach back that far.
    pub fn damage_since(&self, c: u64) -> (r: Option<Vec<Rect>>)
        ensures
            r is Some <==> self.damage_since_spec(c) is Some,
            r matches Some(v) ==> self.damage_since_spec(c) matches Some(s) && v@ == s,
    {
        if c < self.floor {
            return None;
        }
        let mut out: Vec<Rect> = Vec::new();
        let mut i: usize = 0;
        while i < self.entries.len()
            invariant
                i <= self.entries.len(),
                out@ == self.entries@.take(i as int).filter(|e: DamageEntry| e.commit > c)
                    .map_values(|e: DamageEntry| e.rect),
            decreases self.entries.len() - i,
        {
            proof {
                reveal_with_fuel(Seq::filter, 2);
                assert(self.entries@.take(i + 1).drop_last() =~= self.entries@.take(i as int));
                assert(self.entries@.take(i + 1).last() == self.entries@[i as int]);
                if self.entries@[i as int].commit > c {
                    assert(self.entries@.take(i + 1).filter(|e: DamageEntry| e.commit > c)
                        =~= self.entries@.take(i as int).filter(|e: DamageEntry| e.commit > c)
                        .push(self.entries@[i as int]));
                }
            }
            if self.entries[i].commit > c {
                out.push(self.entries[i].rect);
                proof {
                    assert(out@ =~= self.entries@.take(i + 1).filter(
                        |e: DamageEntry| e.commit > c,
                    ).map_values(|e: DamageEntry| e.rect));
                }
            }
            i = i + 1;
        }
        proof {
            assert(self.entries@.take(self.entries@.len() as int) =~= self.entries@);
        }
        Some(out)
    }
}

/// The cursor plane of a rendered frame.
#[derive(Debug, Clone, PartialEq, Eq)]
pub struct CursorPlane {
    pub log: PlaneDamageLog,
    /// Where the cursor element sits on the output.
    pub geometry: Rect,
}

/// What one render pass produced, as far as capture cares: whether
/// anything was rendered at all, and the damage history of the primary
/// and cursor planes.
#[derive(Debug, Clone, PartialEq, Eq)]
pub struct RenderFrameInfo {
    /// True when the pass produced no damage at all.
    pub is_empty: bool,
    /// Whether the primary plane was composited into the swapchain
    /// (as opposed to direct scanout of a single element).
    pub primary_is_swapchain: bool,
    pub primary: PlaneDamageLog,
    pub cursor: Option<CursorPlane>,
}

/// How the requested region is copied out.
#[derive(Debug, Clone, Copy, PartialEq, Eq, Structural)]
pub enum CopyPath {
    /// The request covers the whole output and the buffer can be
    /// scanned out directly: blit the frame straight into the dmabuf.
    DmabufDirect,
    /// Blit the full output into an intermediate target, then blit the
    /// requested sub-region into the dmabuf.
    DmabufViaOffscreen,
    /// Blit the full output into an intermediate target, then copy the
    /// requested sub-region into the shm buffer.
    ShmViaOffscreen,
}

/// Why a capture request was dropped without being served.
#[derive(Debug, Clone, Copy, PartialEq, Eq, Structural)]
pub enum DropReason {
    /// The dmabuf's format or size does not match the requested region.
    DmabufMismatch,
    /// The buffer is neither a dmabuf nor an shm buffer.
    NotShm,
    /// The shm buffer's format, stride, height or length is wrong.
    ShmMismatch,
}

/// A capture that is ready to be copied out.
#[derive(Debug, Clone, PartialEq, Eq)]
pub struct CopyTask {
    pub request: Screencopy,
    /// The damage to report to the client; empty for captures that did
    /// not ask for damage tracking.
    pub damage: Vec<Rect>,
    pub path: CopyPath,
    /// Whether cursor elements are left out of the copy.
    pub exclude_cursor: bool,
    /// The counters to record once the copy succeeds.
    pub new_commits: ScreencopyCommitState,
}

/// The decision taken for the capture attached to an output after one
/// render pass.
#[derive(Debug, Clone, PartialEq, Eq)]
pub enum ScreencopyDecision {
    /// No capture was pending.
    NonePending,
    /// The capture asked for damage and there was none: it stays
    /// attached to the output and is retried on the next render.
    Requeued,
    /// The buffer cannot receive the output content: the request is
    /// dropped silently.
    Dropped(DropReason),
    /// The capture proceeds; the carried task says how.
    Proceed(CopyTask),
}

/// The primary-plane damage since the recorded counter, falling back to
/// the full output when the history does not reach back far enough.
pub open spec fn primary_damage_spec(
    cc: ScreencopyCommitState,
    frame: RenderFrameInfo,
    output_size: Size,
) -> Seq<Rect> {
    let counter = if frame.primary_is_swapchain {
        cc.primary_plane_swapchain
    } else {
        cc.primary_plane_element
    };
    match frame.primary.damage_since_spec(counter) {
        Some(r) => r,
        None => seq![Rect { loc: Point { x: 0, y: 0 }, size: output_size }],
    }
}

/// The cursor-plane damage since the recorded counter; a history miss
/// damages the cursor's whole geometry, and a frame without a cursor
/// plane contributes nothing.
pub open spec fn cursor_damage_spec(cc: ScreencopyCommitState, frame: RenderFrameInfo) -> Seq<
    Rect,
> {
    match frame.cursor {
        None => Seq::<Rect>::empty(),
        Some(cp) => match cp.log.damage_since_spec(cc.cursor) {
            Some(r) => r,
            None => seq![cp.geometry],
        },
    }
}

/// All damage a damage-only capture would report: primary plane, then
/// cursor plane; if both are clean but something was rendered, it must
/// have been the cursor moving, so its geometry is damaged.
pub open spec fn computed_damage_spec(
    cc: ScreencopyCommitState,
    frame: RenderFrameInfo,
    output_size: Size,
) -> Seq<Rect> {
    let d = primary_damage_spec(cc, frame, output_size) + cursor_damage_spec(cc, frame);
    if d.len() == 0 && frame.cursor is Some {
        seq![frame.cursor->Some_0.geometry]
    } else {
        d
    }
}

/// The counters a successful copy of this frame will record: only the
/// planes present in the frame advance.
pub open spec fn advanced_commits_spec(
    cc: ScreencopyCommitState,
    frame: RenderFrameInfo,
) -> ScreencopyCommitState {
    ScreencopyCommitState {
        primary_plane_swapchain: if frame.primary_is_swapchain {
            frame.primary.current_commit
        } else {
            cc.primary_plane_swapchain
        },
        primary_plane_element: if !frame.primary_is_swapchain {
            frame.primary.current_commit
        } else {
            cc.primary_plane_element
        },
        cursor: match frame.cursor {
            Some(cp) => cp.log.current_commit,
            None => cc.cursor,
        },
    }
}

/// Whether the buffer can receive the requested region, and if not, why.
pub open spec fn buffer_check_spec(b: BufferSpec, region: Rect) -> Option<DropReason> {
    match b.kind {
        BufferKind::Dmabuf => if b.fourcc == FOURCC_ARGB8888 && b.width == region.size.w
            && b.height == region.size.h {
            None
        } else {
            Some(DropReason::DmabufMismatch)
        },
        BufferKind::Other => Some(DropReason::NotShm),
        BufferKind::Shm => if b.fourcc == FOURCC_ARGB8888 && b.stride == region.size.w * 4
            && b.height == region.size.h && b.len == b.stride * b.height {
            None
        } else {
            Some(DropReason::ShmMismatch)
        },
    }
}

/// The copy path for a valid buffer: a dmabuf covering exactly the full
/// output is blitted directly, everything else goes through an
/// intermediate full-output target.
pub open spec fn copy_path_spec(b: BufferSpec, region: Rect, output_size: Size) -> CopyPath {
    match b.kind {
        BufferKind::Shm => CopyPath::ShmViaOffscreen,
        _ => if region == (Rect { loc: Point { x: 0, y: 0 }, size: output_size }) {
            CopyPath::DmabufDirect
        } else {
            CopyPath::DmabufViaOffscreen
        },
    }
}

/// Check the capture buffer against the requested region.
pub fn check_buffer(b: &BufferSpec, region: &Rect) -> (r: Option<DropReason>)
    ensures
        r == buffer_check_spec(*b, *region),
{
    match b.kind {
        BufferKind::Dmabuf => {
            if b.fourcc == FOURCC_ARGB8888 && b.width == region.size.w && b.height
                == region.size.h {
                None
            } else {
                Some(DropReason::DmabufMismatch)
            }
        }
        BufferKind::Other => Some(DropReason::NotShm),
        BufferKind::Shm => {
            let stride_ok = b.stride as i64 == region.size.w as i64 * 4;
            let height_ok = b.height == region.size.h;
            let s: i128 = b.stride as i128;
            let h: i128 = b.height as i128;
            proof {
                assert(-0x4000_0000_0000_0000 <= s * h <= 0x4000_0000_0000_0000)
                    by (nonlinear_arith)
                    requires
                        -0x8000_0000 <= s <= 0x7FFF_FFFF,
                        -0x8000_0000 <= h <= 0x7FFF_FFFF,
                ;
            }
            let product: i128 = s * h;
            let len_ok = product >= 0 && (b.len as u128) == (product as u128);
            if b.fourcc == FOURCC_ARGB8888 && stride_ok && height_ok && len_ok {
                None
            } else {
                Some(DropReason::ShmMismatch)
            }
        }
    }
}

/// Compute the damage a damage-only capture reports for this frame.
fn compute_damage(
    cc: &ScreencopyCommitState,
    frame: &RenderFrameInfo,
    output_size: Size,
) -> (r: Vec<Rect>)
    ensures
        r@ == computed_damage_spec(*cc, *frame, output_size),
{
    let counter = if frame.primary_is_swapchain {
        cc.primary_plane_swapchain
    } else {
        cc.primary_plane_element
    };
    let mut damage: Vec<Rect> = match frame.primary.damage_since(counter) {
        Some(v) => v,
        None => {
            let mut v: Vec<Rect> = Vec::new();
            v.push(Rect { loc: Point { x: 0, y: 0 }, size: output_size });
            proof {
                assert(v@ =~= seq![Rect { loc: Point { x: 0, y: 0 }, size: output_size }]);
            }
            v
        }
    };
    let mut cursor_damage: Vec<Rect> = match &frame.cursor {
        None => Vec::new(),
        Some(cp) => match cp.log.damage_since(cc.cursor) {
            Some(v) => v,
            None => {
                let mut v: Vec<Rect> = Vec::new();
                v.push(cp.geometry);
                proof {
                    assert(v@ =~= seq![cp.geometry]);
                }
                v
            }
        },
    };
    proof {
        assert(cursor_damage@ == cursor_damage_spec(*cc, *frame));
    }
    damage.append(&mut cursor_damage);
    if damage.len() == 0 {
        if let Some(cp) = &frame.cursor {
            damage.push(cp.geometry);
            proof {
                assert(damage@ =~= seq![cp.geometry]);
            }
        }
    }
    damage
}

/// Whether a pending capture must stay attached and be retried: it
/// asked for damage and this render pass gives none to report.
pub open spec fn must_requeue(
    sc: Screencopy,
    cc: ScreencopyCommitState,
    frame: RenderFrameInfo,
    output_size: Size,
) -> bool {
    sc.with_damage && (frame.is_empty || computed_damage_spec(cc, frame, output_size).len() == 0)
}

/// Serve the capture attached to `output_state` after one render pass.
///
/// A damage-only capture is requeued, not consumed, whenever the frame
/// or its computed damage is empty, so it is never completed with an
/// empty damage set. An invalid buffer drops the request silently. A
/// capture that proceeds carries the damage to report, the copy path,
/// and the counters to record once the copy succeeds.
pub fn handle_pending_screencopy(
    cc: &ScreencopyCommitState,
    output_state: &mut OutputState,
    output_size: Size,
    frame: &RenderFrameInfo,
) -> (d: ScreencopyDecision)
    ensures
        old(output_state).screencopy is None ==> d == ScreencopyDecision::NonePending
            && final(output_state).screencopy is None,
        old(output_state).screencopy matches Some(sc) ==> {
            &&& must_requeue(sc, *cc, *frame, output_size) ==> d == ScreencopyDecision::Requeued
                && final(output_state).screencopy == old(output_state).screencopy
            &&& !must_requeue(sc, *cc, *frame, output_size) ==> (buffer_check_spec(
                sc.buffer,
                sc.physical_region,
            ) matches Some(why) ==> d == ScreencopyDecision::Dropped(why)
                && final(output_state).screencopy is None)
            &&& (!must_requeue(sc, *cc, *frame, output_size) && buffer_check_spec(
                sc.buffer,
                sc.physical_region,
            ) is None) ==> {
                &&& d matches ScreencopyDecision::Proceed(task)
                &&& (sc.with_damage ==> task.damage@.len() > 0)
                &&& task.request == sc
                &&& task.damage@ == (if sc.with_damage {
                    computed_damage_spec(*cc, *frame, output_size)
                } else {
                    Seq::<Rect>::empty()
                })
                &&& task.path == copy_path_spec(sc.buffer, sc.physical_region, output_size)
                &&& task.exclude_cursor == (task.path == CopyPath::DmabufDirect
                    || !sc.overlay_cursor)
                &&& task.new_commits == (if sc.with_damage {
                    advanced_commits_spec(*cc, *frame)
                } else {
                    *cc
                })
                &&& final(output_state).screencopy is None
            }
        },
        final(output_state).tags == old(output_state).tags,
        final(output_state).serial == old(output_state).serial,
        final(output_state).modes == old(output_state).modes,
        final(output_state).lock_surface == old(output_state).lock_surface,
        final(output_state).blanking_state == old(output_state).blanking_state,
        final(output_state).powered == old(output_state).powered,
        final(output_state).layout_transaction == old(output_state).layout_transaction,
{
    let mut pending: Option<Screencopy> = None;
    core::mem::swap(&mut pending, &mut output_state.screencopy);
    let screencopy = match pending {
        None => {
            return ScreencopyDecision::NonePending;
        }
        Some(sc) => sc,
    };

    let mut damage: Vec<Rect> = Vec::new();
    if screencopy.with_damage {
        if frame.is_empty {
            output_state.screencopy = Some(screencopy);
            return ScreencopyDecision::Requeued;
        }
        damage = compute_damage(cc, frame, output_size);
        if damage.len() == 0 {
            output_state.screencopy = Some(screencopy);
            return ScreencopyDecision::Requeued;
        }
    }

    if let Some(why) = check_buffer(&screencopy.buffer, &screencopy.physical_region) {
        return ScreencopyDecision::Dropped(why);
    }

    let path = match screencopy.buffer.kind {
        BufferKind::Shm => CopyPath::ShmViaOffscreen,
        _ => {
            if screencopy.physical_region.is_full_output(output_size) {
                CopyPath::DmabufDirect
            } else {
                CopyPath::DmabufViaOffscreen
            }
        }
    };
    let exclude_cursor = match path {
        CopyPath::DmabufDirect => true,
        _ => !screencopy.overlay_cursor,
    };
    let new_commits = if screencopy.with_damage {
        ScreencopyCommitState {
            primary_plane_swapchain: if frame.primary_is_swapchain {
                frame.primary.current_commit
            } else {
                cc.primary_plane_swapchain
            },
            primary_plane_element: if !frame.primary_is_swapchain {
                frame.primary.current_commit
            } else {
                cc.primary_plane_element
            },
            cursor: match &frame.cursor {
                Some(cp) => cp.log.current_commit,
                None => cc.cursor,
            },
        }
    } else {
        *cc
    };
    ScreencopyDecision::Proceed(
        CopyTask { request: screencopy, damage, path, exclude_cursor, new_commits },
    )
}

/// How the copy of a capture went.
#[derive(Debug, Clone, Copy, PartialEq, Eq, Structural)]
pub enum CopyOutcome {
    /// The copy was performed. `sync_reached` says whether its hardware
    /// synchronization point has already signaled; `export_ok` whether
    /// that point could be exported as a pollable handle.
    Copied { sync_reached: bool, export_ok: bool },
    /// The renderer failed; the request is dropped and the counters
    /// stay where they were, so the missed window is still covered by
    /// the next capture.
    Failed,
}

/// What the event loop must now do with the served capture.
#[derive(Debug, Clone, Copy, PartialEq, Eq, Structural)]
pub enum SubmitAction {
    /// Send the completion to the client right away.
    SubmitNow,
    /// Register the exported handle one-shot in the event loop and
    /// complete the request when it signals.
    AwaitFence,
    /// The copy failed; nothing is sent.
    Dropped,
}

/// Record the outcome of a capture copy on the surface's commit
/// counters: they advance to the served frame exactly when the copy
/// succeeded.
pub fn screencopy_copy_result(
    cc: &mut ScreencopyCommitState,
    new_commits: &ScreencopyCommitState,
    outcome: CopyOutcome,
) -> (a: SubmitAction)
    ensures
        outcome matches CopyOutcome::Copied { sync_reached, export_ok } ==> {
            &&& *final(cc) == *new_commits
            &&& a == (if sync_reached || !export_ok {
                SubmitAction::SubmitNow
            } else {
                SubmitAction::AwaitFence
            })
        },
        outcome == CopyOutcome::Failed ==> *final(cc) == *old(cc) && a == SubmitAction::Dropped,
{
    match outcome {
        CopyOutcome::Copied { sync_reached, export_ok } => {
            *cc = *new_commits;
            if sync_reached || !export_ok {
                SubmitAction::SubmitNow
            } else {
                SubmitAction::AwaitFence
            }
        }
        CopyOutcome::Failed => SubmitAction::Dropped,
    }
}

} // verus!
