//! Compositor-side state the backend operates on: the output side table,
//! session-lock state and saved per-connector configuration.

use vstd::prelude::*;

use crate::geometry::{Point, Rect, Size};
use crate::output::{Mode, Output, OutputName, Tag, Transform};

verus! {

/// Session lock progression.
#[derive(Debug, Clone, Copy, PartialEq, Eq, Structural)]
pub enum LockState {
    Unlocked,
    /// Lock requested; outputs are being blanked.
    Locking,
    Locked,
}

impl LockState {
    pub fn is_unlocked(&self) -> (r: bool)
        ensures
            r == (*self == LockState::Unlocked),
    {
        matches!(self, LockState::Unlocked)
    }

    pub fn is_locking(&self) -> (r: bool)
        ensures
            r == (*self == LockState::Locking),
    {
        matches!(self, LockState::Locking)
    }

    pub fn is_locked(&self) -> (r: bool)
        ensures
            r == (*self == LockState::Locked),
    {
        matches!(self, LockState::Locked)
    }
}

/// Configuration remembered for a connector that was plugged in before:
/// restored instead of treating the reconnect as a brand-new output.
pub struct ConnectorSavedState {
    pub loc: Point,
    pub tags: Vec<Tag>,
    /// Saved fractional scale in thousandths, if any.
    pub scale: Option<u32>,
}

/// Compositor configuration the backend consults.
pub struct Config {
    pub connector_saved_states: Vec<(OutputName, ConnectorSavedState)>,
}

/// Signal sent to consumers when an output was moved.
#[derive(Debug, Clone, PartialEq, Eq)]
pub struct OutputMoveSignal {
    pub output_name: String,
    pub x: i32,
    pub y: i32,
}

/// Signal sent to consumers when an output's logical size changed.
#[derive(Debug, Clone, PartialEq, Eq)]
pub struct OutputResizeSignal {
    pub output_name: String,
    pub logical_width: Option<u32>,
    pub logical_height: Option<u32>,
}

/// Signal sent to consumers when a brand-new output was connected.
#[derive(Debug, Clone, PartialEq, Eq)]
pub struct OutputConnectSignal {
    pub output_name: String,
}

/// Interactive-resize bookkeeping for one client surface.
#[derive(Debug, Clone, Copy, PartialEq, Eq, Structural)]
pub enum ResizeSurfaceState {
    /// Not being resized.
    Idle,
    /// A resize grab is in progress from the given starting geometry;
    /// `edges` is the bitfield of grabbed edges.
    Resizing { edges: u32, initial_rect: Rect },
    /// The grab ended; waiting for the client's final commit at the
    /// given geometry.
    WaitingForLastCommit { edges: u32, initial_rect: Rect },
}

/// Per-surface state kept for client surfaces.
#[derive(Debug, Clone, Copy, PartialEq, Eq, Structural)]
pub struct WlSurfaceState {
    pub resize_state: ResizeSurfaceState,
}

impl WlSurfaceState {
    /// State of a surface nothing has touched yet.
    pub fn new() -> (s: WlSurfaceState)
        ensures
            s.resize_state == ResizeSurfaceState::Idle,
    {
        WlSurfaceState { resize_state: ResizeSurfaceState::Idle }
    }
}

/// The compositor state this backend reads and maintains: the explicit
/// output side table and the session-lock state.
pub struct Pinnacle {
    pub outputs: Vec<Output>,
    pub config: Config,
    pub lock_state: LockState,
}

/// The logical length of physical length `w` under scale `scale` (in
/// thousandths), rounded down and clamped into `u32`; 0 when the scale
/// is 0 or the length is not positive.
pub open spec fn logical_len(w: int, scale: nat) -> u32 {
    if scale == 0 || w <= 0 {
        0u32
    } else if w * 1000 / (scale as int) > 0xFFFF_FFFF {
        0xFFFF_FFFFu32
    } else {
        (w * 1000 / (scale as int)) as u32
    }
}

/// The logical size of a mapped output with a known mode.
pub open spec fn logical_size_spec(o: Output) -> Option<(u32, u32)> {
    if o.mapped {
        match o.current_mode {
            Some(m) => Some(
                (
                    logical_len(m.size.w as int, o.scale_millis as nat),
                    logical_len(m.size.h as int, o.scale_millis as nat),
                ),
            ),
            None => None,
        }
    } else {
        None
    }
}

/// Compute the logical length of a physical length, as `logical_len`.
pub fn logical_len_exec(w: i32, scale: u32) -> (r: u32)
    ensures
        r == logical_len(w as int, scale as nat),
{
    if scale == 0 || w <= 0 {
        0
    } else {
        let q: i64 = (w as i64) * 1000 / (scale as i64);
        if q > 0xFFFF_FFFFi64 {
            0xFFFF_FFFFu32
        } else {
            q as u32
        }
    }
}

impl Pinnacle {
    /// The index of the output with the given name, if any.
    pub fn output_index(&self, name: &OutputName) -> (r: Option<usize>)
        ensures
            r matches Some(i) ==> i < self.outputs@.len() && self.outputs@[i as int].name.0@
                == name.0@,
            r is None ==> forall|i: int|
                0 <= i < self.outputs@.len() ==> (#[trigger] self.outputs@[i]).name.0@ != name.0@,
    {
        let mut i: usize = 0;
        while i < self.outputs.len()
            invariant
                i <= self.outputs.len(),
                forall|j: int|
                    0 <= j < i ==> (#[trigger] self.outputs@[j]).name.0@ != name.0@,
            decreases self.outputs.len() - i,
        {
            if self.outputs[i].name.0 == name.0 {
                return Some(i);
            }
            i = i + 1;
        }
        None
    }

    /// Whether an output is bound to the given (device, crtc) pair.
    pub open spec fn has_pipeline_output(&self, device_id: u64, crtc: u64) -> bool {
        exists|i: int|
            0 <= i < self.outputs@.len() && (#[trigger] self.outputs@[i]).device_id == device_id
                && self.outputs@[i].crtc == crtc
    }

    /// Whether `oi` is the first output bound to the given pipeline.
    pub open spec fn is_first_pipeline_output(&self, device_id: u64, crtc: u64, oi: int) -> bool {
        &&& 0 <= oi < self.outputs@.len()
        &&& self.outputs@[oi].device_id == device_id
        &&& self.outputs@[oi].crtc == crtc
        &&& forall|j: int|
            0 <= j < oi ==> !((#[trigger] self.outputs@[j]).device_id == device_id
                && self.outputs@[j].crtc == crtc)
    }

    /// The index of the output bound to (device, crtc), if any.
    pub fn output_index_for_pipeline(&self, device_id: u64, crtc: u64) -> (r: Option<usize>)
        ensures
            r matches Some(i) ==> i < self.outputs@.len() && self.outputs@[i as int].device_id
                == device_id && self.outputs@[i as int].crtc == crtc && self.has_pipeline_output(
                device_id,
                crtc,
            ) && self.is_first_pipeline_output(device_id, crtc, i as int),
            r is None ==> forall|i: int|
                0 <= i < self.outputs@.len() ==> !((#[trigger] self.outputs@[i]).device_id
                    == device_id && self.outputs@[i].crtc == crtc),
            r is None ==> !self.has_pipeline_output(device_id, crtc),
    {
        let mut i: usize = 0;
        while i < self.outputs.len()
            invariant
                i <= self.outputs.len(),
                forall|j: int|
                    0 <= j < i ==> !((#[trigger] self.outputs@[j]).device_id == device_id
                        && self.outputs@[j].crtc == crtc),
            decreases self.outputs.len() - i,
        {
            if self.outputs[i].device_id == device_id && self.outputs[i].crtc == crtc {
                return Some(i);
            }
            i = i + 1;
        }
        None
    }
}

} // verus!
