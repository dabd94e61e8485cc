//! Logical outputs: identity, modes, blanking for session lock, tags and
//! the per-output bookkeeping the render pipeline reads.

use vstd::prelude::*;

use crate::geometry::{Point, Size};
use crate::screencopy::Screencopy;
use crate::state::{logical_len, OutputMoveSignal, OutputResizeSignal, Pinnacle};
use crate::vec_index_mut;

verus! {

/// A unique identifier for an output.
///
/// An empty string represents an invalid output.
#[derive(Debug, Clone, PartialEq, Eq)]
pub struct OutputName(pub String);

impl OutputName {
    /// Get the index of the output with this name, if one exists.
    pub fn output(&self, pinnacle: &Pinnacle) -> (r: Option<usize>)
        ensures
            r matches Some(i) ==> i < pinnacle.outputs@.len() && pinnacle.outputs@[i as int].name.0@
                == self.0@,
            r is None ==> forall|i: int|
                0 <= i < pinnacle.outputs@.len() ==> (#[trigger] pinnacle.outputs@[i]).name.0@
                    != self.0@,
    {
        pinnacle.output_index(self)
    }
}

/// A display mode: resolution plus refresh rate in millihertz.
#[derive(Debug, Clone, Copy, PartialEq, Eq, Structural)]
pub struct Mode {
    pub size: Size,
    /// Refresh rate in mHz (60 Hz is 60000).
    pub refresh: i32,
}

/// How the output image is transformed before scanout.
#[derive(Debug, Clone, Copy, PartialEq, Eq, Structural)]
pub enum Transform {
    Normal,
    Rotated90,
    Rotated180,
    Rotated270,
    Flipped,
    Flipped90,
    Flipped180,
    Flipped270,
}

/// State of an output's blanking status for session lock.
#[derive(Debug, Clone, Copy, PartialEq, Eq, Structural)]
pub enum BlankingState {
    /// The output is not blanked and is displaying normal content.
    NotBlanked,
    /// A blank frame has been queued up.
    Blanking,
    /// A blank frame has been displayed.
    Blanked,
}

/// A workspace tag shown on an output.
#[derive(Debug, Clone, Copy, PartialEq, Eq, Structural)]
pub struct Tag {
    pub id: u32,
    pub active: bool,
}

impl Tag {
    /// Whether this tag is currently active on its output.
    pub fn active(&self) -> (r: bool)
        ensures
            r == self.active,
    {
        self.active
    }
}

/// The surface a session-lock client shows while the session is locked.
#[derive(Debug, Clone, Copy, PartialEq, Eq, Structural)]
pub struct LockSurface {
    /// The size last configured for the lock surface, if any.
    pub size: Option<Size>,
}

/// A window snapshot held while a layout change is in flight.
#[derive(Debug, Clone, Copy, PartialEq, Eq, Structural)]
pub struct SnapshotTarget {
    pub window_id: u32,
}

/// A pending layout transaction: rendering keeps showing the held
/// snapshots until the transaction becomes ready.
pub struct LayoutTransaction {
    pub fullscreen_and_up_snapshots: Vec<SnapshotTarget>,
    pub under_fullscreen_snapshots: Vec<SnapshotTarget>,
    /// Whether every client involved has committed to the new layout.
    pub ready: bool,
}

impl LayoutTransaction {
    /// Whether the transaction has completed and may be retired.
    pub fn ready(&self) -> (r: bool)
        ensures
            r == self.ready,
    {
        self.ready
    }

    /// Keep waiting on this transaction for a further layout change.
    pub fn wait(&mut self)
        ensures
            final(self).ready == false,
            final(self).fullscreen_and_up_snapshots == old(self).fullscreen_and_up_snapshots,
            final(self).under_fullscreen_snapshots == old(self).under_fullscreen_snapshots,
    {
        self.ready = false;
    }
}

/// The state of an output.
pub struct OutputState {
    pub tags: Vec<Tag>,
    pub screencopy: Option<Screencopy>,
    pub serial: Option<u32>,
    pub modes: Vec<Mode>,
    pub lock_surface: Option<LockSurface>,
    pub blanking_state: BlankingState,
    /// Whether the output is powered; renders are refused while it is not.
    pub powered: bool,
    /// A pending layout transaction.
    pub layout_transaction: Option<LayoutTransaction>,
}

impl OutputState {
    /// State of a freshly connected output: no pending capture, no lock
    /// surface, not blanked, powered, and no layout transaction.
    pub fn new() -> (s: OutputState)
        ensures
            s.tags@ == Seq::<Tag>::empty(),
            s.screencopy is None,
            s.serial is None,
            s.modes@ == Seq::<Mode>::empty(),
            s.lock_surface is None,
            s.blanking_state == BlankingState::NotBlanked,
            s.powered == true,
            s.layout_transaction is None,
    {
        OutputState {
            tags: Vec::new(),
            screencopy: None,
            serial: None,
            modes: Vec::new(),
            lock_surface: None,
            blanking_state: BlankingState::NotBlanked,
            powered: true,
            layout_transaction: None,
        }
    }

    /// The tags currently active on this output, in order.
    pub fn focused_tags(&self) -> (r: Vec<Tag>)
        ensures
            r@ == self.tags@.filter(|t: Tag| t.active),
    {
        let mut r: Vec<Tag> = Vec::new();
        let mut i: usize = 0;
        while i < self.tags.len()
            invariant
                i <= self.tags.len(),
                r@ == self.tags@.take(i as int).filter(|t: Tag| t.active),
            decreases self.tags.len() - i,
        {
            proof {
                reveal_with_fuel(Seq::filter, 2);
                assert(self.tags@.take(i + 1).drop_last() =~= self.tags@.take(i as int));
                assert(self.tags@.take(i + 1).last() == self.tags@[i as int]);
            }
            if self.tags[i].active {
                r.push(self.tags[i]);
            }
            i = i + 1;
        }
        proof {
            assert(self.tags@.take(self.tags@.len() as int) =~= self.tags@);
        }
        r
    }

    /// Attach a capture request to this output, to be served by the
    /// next render pass. At most one capture is outstanding per
    /// output: an earlier unserved request is returned to its sender.
    pub fn attach_capture(&mut self, sc: Screencopy) -> (prev: Option<Screencopy>)
        ensures
            final(self).screencopy == Some(sc),
            prev == old(self).screencopy,
            final(self).tags == old(self).tags,
            final(self).serial == old(self).serial,
            final(self).modes == old(self).modes,
            final(self).lock_surface == old(self).lock_surface,
            final(self).blanking_state == old(self).blanking_state,
            final(self).powered == old(self).powered,
            final(self).layout_transaction == old(self).layout_transaction,
    {
        let mut prev = Some(sc);
        core::mem::swap(&mut prev, &mut self.screencopy);
        prev
    }

    /// Begin waiting on a layout transaction, either by re-arming the
    /// transaction already in flight or by starting a new one holding
    /// the given snapshots.
    pub fn new_wait_layout_transaction(
        &mut self,
        fullscreen_and_up_snapshots: Vec<SnapshotTarget>,
        under_fullscreen_snapshots: Vec<SnapshotTarget>,
    )
        ensures
            final(self).layout_transaction matches Some(ts) && ts.ready == false,
            old(self).layout_transaction matches Some(prior) ==> {
                &&& final(self).layout_transaction matches Some(ts)
                &&& ts.fullscreen_and_up_snapshots == prior.fullscreen_and_up_snapshots
                &&& ts.under_fullscreen_snapshots == prior.under_fullscreen_snapshots
            },
            old(self).layout_transaction is None ==> {
                &&& final(self).layout_transaction matches Some(ts)
                &&& ts.fullscreen_and_up_snapshots == fullscreen_and_up_snapshots
                &&& ts.under_fullscreen_snapshots == under_fullscreen_snapshots
            },
            final(self).tags == old(self).tags,
            final(self).screencopy == old(self).screencopy,
            final(self).serial == old(self).serial,
            final(self).modes == old(self).modes,
            final(self).lock_surface == old(self).lock_surface,
            final(self).blanking_state == old(self).blanking_state,
            final(self).powered == old(self).powered,
    {
        match &mut self.layout_transaction {
            Some(ts) => {
                ts.wait();
            }
            None => {
                self.layout_transaction = Some(
                    LayoutTransaction {
                        fullscreen_and_up_snapshots,
                        under_fullscreen_snapshots,
                        ready: false,
                    },
                );
            }
        }
    }
}

/// What a `change_output_state` call asks the event loop to relay.
pub struct ChangeOutputResult {
    pub move_signal: Option<OutputMoveSignal>,
    pub resize_signal: Option<OutputResizeSignal>,
    /// A new size to configure on the session-lock surface, if any.
    pub lock_configure: Option<Size>,
}

/// A logical display bound 1:1 to a render surface via its
/// (device id, pipeline id) key.
pub struct Output {
    pub name: OutputName,
    /// The device that drives this output.
    pub device_id: u64,
    /// The hardware pipeline (crtc) that scans it out.
    pub crtc: u64,
    pub make: String,
    pub model: String,
    pub physical_size: Size,
    pub transform: Transform,
    pub current_mode: Option<Mode>,
    pub preferred_mode: Option<Mode>,
    /// Fractional scale in thousandths (1000 is scale 1).
    pub scale_millis: u32,
    pub loc: Point,
    /// Whether the output is mapped into the global space.
    pub mapped: bool,
    pub state: OutputState,
}

impl Pinnacle {
    /// Change the mode, transform, scale or location of the output at
    /// index `i`, mapping it when a location is given, and report the
    /// move/resize signals and lock-surface reconfiguration the event
    /// loop must relay.
    pub fn change_output_state(
        &mut self,
        i: usize,
        mode: Option<Mode>,
        transform: Option<Transform>,
        scale: Option<u32>,
        location: Option<Point>,
    ) -> (r: ChangeOutputResult)
        requires
            i < old(self).outputs@.len(),
        ensures
            final(self).outputs@.len() == old(self).outputs@.len(),
            forall|j: int|
                0 <= j < old(self).outputs@.len() && j != i ==> final(self).outputs@[j] == old(
                    self,
                ).outputs@[j],
            ({
                let o_old = old(self).outputs@[i as int];
                let o = final(self).outputs@[i as int];
                &&& o.current_mode == (if mode is Some {
                    mode
                } else {
                    o_old.current_mode
                })
                &&& o.preferred_mode == (if mode is Some {
                    mode
                } else {
                    o_old.preferred_mode
                })
                &&& o.transform == (match transform {
                    Some(t) => t,
                    None => o_old.transform,
                })
                &&& o.scale_millis == (match scale {
                    Some(s) => s,
                    None => o_old.scale_millis,
                })
                &&& o.loc == (match location {
                    Some(l) => l,
                    None => o_old.loc,
                })
                &&& o.mapped == (o_old.mapped || location is Some)
                &&& o.state.modes@ == (match mode {
                    Some(m) => o_old.state.modes@.push(m),
                    None => o_old.state.modes@,
                })
                &&& o.state.lock_surface == (match o_old.state.lock_surface {
                    Some(_) => (match crate::state::logical_size_spec(o) {
                        Some(sz) => Some(
                            LockSurface {
                                size: Some(Size { w: sz.0 as i32, h: sz.1 as i32 }),
                            },
                        ),
                        None => o_old.state.lock_surface,
                    }),
                    None => None::<LockSurface>,
                })
                &&& o.state.tags == o_old.state.tags
                &&& o.state.screencopy == o_old.state.screencopy
                &&& o.state.serial == o_old.state.serial
                &&& o.state.blanking_state == o_old.state.blanking_state
                &&& o.state.powered == o_old.state.powered
                &&& o.state.layout_transaction == o_old.state.layout_transaction
                &&& o.name == o_old.name
                &&& o.device_id == o_old.device_id
                &&& o.crtc == o_old.crtc
                &&& o.make == o_old.make
                &&& o.model == o_old.model
                &&& o.physical_size == o_old.physical_size
                &&& r.move_signal == (match location {
                    Some(l) => Some(
                        OutputMoveSignal {
                            output_name: o_old.name.0,
                            x: l.x,
                            y: l.y,
                        },
                    ),
                    None => None::<OutputMoveSignal>,
                })
                &&& r.resize_signal == (if mode is Some || transform is Some || scale is Some {
                    Some(
                        OutputResizeSignal {
                            output_name: o_old.name.0,
                            logical_width: (match crate::state::logical_size_spec(o) {
                                Some(sz) => Some(sz.0),
                                None => None,
                            }),
                            logical_height: (match crate::state::logical_size_spec(o) {
                                Some(sz) => Some(sz.1),
                                None => None,
                            }),
                        },
                    )
                } else {
                    None::<OutputResizeSignal>
                })
                &&& r.lock_configure == (match o_old.state.lock_surface {
                    Some(_) => (match crate::state::logical_size_spec(o) {
                        Some(sz) => Some(Size { w: sz.0 as i32, h: sz.1 as i32 }),
                        None => None,
                    }),
                    None => None::<Size>,
                })
            }),
            final(self).config == old(self).config,
            final(self).lock_state == old(self).lock_state,
    {
        let o = vec_index_mut(&mut self.outputs, i);

        if let Some(m) = mode {
            o.current_mode = Some(m);
        }
        if let Some(t) = transform {
            o.transform = t;
        }
        if let Some(s) = scale {
            o.scale_millis = s;
        }
        let move_signal = match location {
            Some(l) => {
                o.loc = l;
                o.mapped = true;
                Some(OutputMoveSignal { output_name: o.name.0.clone(), x: l.x, y: l.y })
            }
            None => None,
        };

        let logical: Option<(u32, u32)> = if o.mapped {
            match &o.current_mode {
                Some(m) => {
                    let lw = crate::state::logical_len_exec(m.size.w, o.scale_millis);
                    let lh = crate::state::logical_len_exec(m.size.h, o.scale_millis);
                    Some((lw, lh))
                }
                None => None,
            }
        } else {
            None
        };

        let resize_signal = if mode.is_some() || transform.is_some() || scale.is_some() {
            Some(
                OutputResizeSignal {
                    output_name: o.name.0.clone(),
                    logical_width: (match logical {
                        Some(sz) => Some(sz.0),
                        None => None,
                    }),
                    logical_height: (match logical {
                        Some(sz) => Some(sz.1),
                        None => None,
                    }),
                },
            )
        } else {
            None
        };

        if let Some(m) = mode {
            o.preferred_mode = Some(m);
            o.state.modes.push(m);
        }

        let lock_configure = match &o.state.lock_surface {
            Some(_) => {
                match logical {
                    Some(sz) => {
                        let size = Size { w: sz.0 as i32, h: sz.1 as i32 };
                        o.state.lock_surface = Some(LockSurface { size: Some(size) });
                        Some(size)
                    }
                    None => None,
                }
            }
            None => None,
        };

        ChangeOutputResult { move_signal, resize_signal, lock_configure }
    }
}

} // verus!
