//! Per-output render surface: scheduling state, capture commit counters
//! and gamma bookkeeping.
//!
//! A `RenderSurface` exists for exactly one connected (device, pipeline)
//! pair. Its `RenderState` is the heart of the render scheduler: it
//! guarantees at most one in-flight frame per surface and coalesces
//! bursts of damage into a single follow-up render.

use vstd::prelude::*;

verus! {

/// The scheduling state of a render surface.
///
/// `Scheduled` carries the cancelable token handed out when the deferred
/// render callback was queued; the token is checked before the callback
/// fires, so canceling it is always safe.
#[derive(Clone, Copy, Debug, PartialEq, Eq, Structural)]
pub enum RenderState {
    /// No render is scheduled.
    Idle,
    /// A deferred render callback is queued under the given token.
    Scheduled { token: u64 },
    /// A frame was submitted and the surface waits for its vblank.
    /// `dirty` records that another render was requested meanwhile.
    WaitingForVblank { dirty: bool },
}

/// Commit counters recording, per plane, the last frame that was
/// actually copied out by a screen capture. They advance only on a
/// successful copy, never on a mere render, so no damage window is
/// ever skipped.
#[derive(Clone, Copy, Debug, PartialEq, Eq, Structural)]
pub struct ScreencopyCommitState {
    pub primary_plane_swapchain: u64,
    pub primary_plane_element: u64,
    pub cursor: u64,
}

impl ScreencopyCommitState {
    /// Counters of a freshly created surface: nothing copied yet.
    pub fn start() -> (r: ScreencopyCommitState)
        ensures
            r == (ScreencopyCommitState {
                primary_plane_swapchain: 0,
                primary_plane_element: 0,
                cursor: 0,
            }),
    {
        ScreencopyCommitState { primary_plane_swapchain: 0, primary_plane_element: 0, cursor: 0 }
    }
}

/// One gamma lookup table per color channel.
#[derive(Debug, PartialEq, Eq)]
pub struct GammaTables {
    pub red: Vec<u16>,
    pub green: Vec<u16>,
    pub blue: Vec<u16>,
}

/// A gamma request that arrived while it could not be applied (for
/// example during a session pause). Tri-state, so that a request issued
/// while paused is never silently dropped.
#[derive(Debug, PartialEq, Eq)]
pub enum PendingGammaChange {
    /// Nothing pending: on resume, re-apply the last known gamma.
    Idle,
    /// Revert to the default gamma.
    Restore,
    /// Apply these tables.
    Change(GammaTables),
}

/// What the hardware should be asked to do about gamma on resume.
/// Borrows the tables from the surface it was derived from.
#[derive(Debug, PartialEq, Eq)]
pub enum GammaTarget<'a> {
    /// Re-apply the last known gamma; `None` means the default tables.
    Reapply(&'a Option<GammaTables>),
    /// Reset to the default tables.
    Reset,
    /// Apply new tables.
    Apply(&'a GammaTables),
}

/// Render surface for one output: the present-pipeline bookkeeping the
/// scheduler and the capture synchronizer operate on.
pub struct RenderSurface {
    /// The device this surface belongs to.
    pub device_id: u64,
    /// The node that renders for this surface.
    pub render_node: u64,
    /// The hardware pipeline (crtc) driving the connector.
    pub crtc: u64,
    pub render_state: RenderState,
    pub screencopy_commit_state: ScreencopyCommitState,
    /// Last gamma tables known to be applied, if any.
    pub previous_gamma: Option<GammaTables>,
    pub pending_gamma_change: PendingGammaChange,
}

/// The render-state transition performed by a `schedule_render` request.
pub open spec fn schedule_transition(s: RenderState, token: u64) -> RenderState {
    match s {
        RenderState::Idle => RenderState::Scheduled { token },
        RenderState::Scheduled { token: t } => RenderState::Scheduled { token: t },
        RenderState::WaitingForVblank { dirty: _ } => RenderState::WaitingForVblank { dirty: true },
    }
}

/// What a `schedule_render` request did to a surface.
#[derive(Clone, Copy, Debug, PartialEq, Eq, Structural)]
pub enum ScheduleOutcome {
    /// The surface was idle; a deferred render callback must now be
    /// queued under the returned token.
    NewlyScheduled { token: u64 },
    /// A callback is already queued; nothing to do.
    AlreadyScheduled,
    /// The surface waits for vblank; the request was coalesced into the
    /// next frame.
    Coalesced,
}

impl RenderSurface {
    /// A fresh surface for a newly connected (device, pipeline) pair:
    /// idle, with zeroed capture counters and no gamma state carried
    /// over from any prior instance.
    pub fn new(device_id: u64, render_node: u64, crtc: u64) -> (s: RenderSurface)
        ensures
            s.device_id == device_id,
            s.render_node == render_node,
            s.crtc == crtc,
            s.render_state == RenderState::Idle,
            s.screencopy_commit_state == (ScreencopyCommitState {
                primary_plane_swapchain: 0,
                primary_plane_element: 0,
                cursor: 0,
            }),
            s.previous_gamma is None,
            s.pending_gamma_change == PendingGammaChange::Idle,
    {
        RenderSurface {
            device_id,
            render_node,
            crtc,
            render_state: RenderState::Idle,
            screencopy_commit_state: ScreencopyCommitState::start(),
            previous_gamma: None,
            pending_gamma_change: PendingGammaChange::Idle,
        }
    }

    /// Request a render on this surface. Idle surfaces move to
    /// `Scheduled` under `token`; an already scheduled surface is left
    /// alone; a surface waiting for vblank records the request in its
    /// dirty flag instead of rescheduling early.
    pub fn schedule(&mut self, token: u64) -> (r: ScheduleOutcome)
        ensures
            final(self).render_state == schedule_transition(old(self).render_state, token),
            final(self).device_id == old(self).device_id,
            final(self).render_node == old(self).render_node,
            final(self).crtc == old(self).crtc,
            final(self).screencopy_commit_state == old(self).screencopy_commit_state,
            final(self).previous_gamma == old(self).previous_gamma,
            final(self).pending_gamma_change == old(self).pending_gamma_change,
            r == (ScheduleOutcome::NewlyScheduled { token }) <==> old(
                self,
            ).render_state is Idle,
            r == ScheduleOutcome::AlreadyScheduled <==> old(self).render_state is Scheduled,
            r == ScheduleOutcome::Coalesced <==> old(self).render_state is WaitingForVblank,
    {
        match self.render_state {
            RenderState::Idle => {
                self.render_state = RenderState::Scheduled { token };
                ScheduleOutcome::NewlyScheduled { token }
            }
            RenderState::Scheduled { token: _ } => ScheduleOutcome::AlreadyScheduled,
            RenderState::WaitingForVblank { dirty: _ } => {
                self.render_state = RenderState::WaitingForVblank { dirty: true };
                ScheduleOutcome::Coalesced
            }
        }
    }

    /// Force the surface back to `Idle`, returning the token of a
    /// canceled deferred callback if one was queued. Used on power-off
    /// so that no scheduled work survives it.
    pub fn force_idle(&mut self) -> (t: Option<u64>)
        ensures
            final(self).render_state == RenderState::Idle,
            final(self).device_id == old(self).device_id,
            final(self).render_node == old(self).render_node,
            final(self).crtc == old(self).crtc,
            final(self).screencopy_commit_state == old(self).screencopy_commit_state,
            final(self).previous_gamma == old(self).previous_gamma,
            final(self).pending_gamma_change == old(self).pending_gamma_change,
            t == (match old(self).render_state {
                RenderState::Scheduled { token } => Some(token),
                _ => None::<u64>,
            }),
    {
        let prior = self.render_state;
        self.render_state = RenderState::Idle;
        match prior {
            RenderState::Scheduled { token } => Some(token),
            _ => None,
        }
    }

    /// Take the current render state, leaving the surface idle: the
    /// first step of handling a vblank, where the previous frame's
    /// scheduling state is consumed.
    pub fn take_render_state(&mut self) -> (s: RenderState)
        ensures
            s == old(self).render_state,
            final(self).render_state == RenderState::Idle,
            final(self).device_id == old(self).device_id,
            final(self).render_node == old(self).render_node,
            final(self).crtc == old(self).crtc,
            final(self).screencopy_commit_state == old(self).screencopy_commit_state,
            final(self).previous_gamma == old(self).previous_gamma,
            final(self).pending_gamma_change == old(self).pending_gamma_change,
    {
        let s = self.render_state;
        self.render_state = RenderState::Idle;
        s
    }

    /// The gamma operation to attempt for this surface, derived from
    /// its pending tri-state request (typically on session resume).
    pub fn gamma_to_apply(&self) -> (t: GammaTarget<'_>)
        ensures
            t == (match self.pending_gamma_change {
                PendingGammaChange::Idle => GammaTarget::Reapply(&self.previous_gamma),
                PendingGammaChange::Restore => GammaTarget::Reset,
                PendingGammaChange::Change(ref g) => GammaTarget::Apply(g),
            }),
    {
        match &self.pending_gamma_change {
            PendingGammaChange::Idle => GammaTarget::Reapply(&self.previous_gamma),
            PendingGammaChange::Restore => GammaTarget::Reset,
            PendingGammaChange::Change(g) => GammaTarget::Apply(g),
        }
    }

    /// Record the outcome of applying `gamma_to_apply`. The pending
    /// request is always consumed; the last-known gamma is kept only
    /// when a re-apply succeeded or new tables were applied, and is
    /// cleared on failure or on an explicit restore, so a failed apply
    /// is not retried indefinitely.
    pub fn finish_gamma(&mut self, ok: bool)
        ensures
            final(self).pending_gamma_change == PendingGammaChange::Idle,
            final(self).previous_gamma == (match old(self).pending_gamma_change {
                PendingGammaChange::Idle => if ok {
                    old(self).previous_gamma
                } else {
                    None::<GammaTables>
                },
                PendingGammaChange::Restore => None::<GammaTables>,
                PendingGammaChange::Change(g) => if ok {
                    Some(g)
                } else {
                    None::<GammaTables>
                },
            }),
            final(self).render_state == old(self).render_state,
            final(self).device_id == old(self).device_id,
            final(self).render_node == old(self).render_node,
            final(self).crtc == old(self).crtc,
            final(self).screencopy_commit_state == old(self).screencopy_commit_state,
    {
        let mut pending = PendingGammaChange::Idle;
        core::mem::swap(&mut pending, &mut self.pending_gamma_change);
        match pending {
            PendingGammaChange::Idle => {
                if !ok {
                    self.previous_gamma = None;
                }
            }
            PendingGammaChange::Restore => {
                self.previous_gamma = None;
            }
            PendingGammaChange::Change(g) => {
                if ok {
                    self.previous_gamma = Some(g);
                } else {
                    self.previous_gamma = None;
                }
            }
        }
    }
}

} // verus!
