//! The per-output render scheduler: deciding when a render pass runs,
//! pacing it by vblank completion, and powering outputs on and off
//! without leaking scheduled work.

use vstd::prelude::*;

use crate::output::{BlankingState, Mode, Output};
use crate::registry::Udev;
use crate::state::{LockState, Pinnacle};
use crate::surface::{schedule_transition, RenderState, ScheduleOutcome};
use crate::vec_index_mut;

verus! {

impl Udev {
    /// Whether a render surface exists for the given pipeline.
    pub open spec fn has_surface_for(&self, device_id: u64, crtc: u64) -> bool {
        exists|di: int|
            0 <= di < self.devices@.len() && (#[trigger] self.devices@[di]).id == device_id
                && self.devices@[di].has_surface(crtc)
    }

    /// The surface index for `crtc` within the device at `di`.
    pub open spec fn surface_idx_in(&self, di: int, crtc: u64) -> int {
        choose|si: int|
            0 <= si < self.devices@[di].surfaces@.len() && (#[trigger] self.devices@[di].surfaces@[
                si
            ]).crtc == crtc
    }

    /// The render state of the surface for the given pipeline.
    pub open spec fn surface_state_of(&self, device_id: u64, crtc: u64) -> RenderState {
        let di = self.device_idx_of(device_id);
        let si = self.surface_idx_in(di, crtc);
        self.devices@[di].surfaces@[si].render_state
    }

    /// Find the (device, surface) indices of the pipeline's surface.
    pub(crate) fn surface_loc(&self, device_id: u64, crtc: u64) -> (r: Option<(usize, usize)>)
        requires
            self.wf(),
        ensures
            r matches Some((di, si)) ==> {
                &&& di < self.devices@.len()
                &&& self.devices@[di as int].id == device_id
                &&& si < self.devices@[di as int].surfaces@.len()
                &&& self.devices@[di as int].surfaces@[si as int].crtc == crtc
                &&& di as int == self.device_idx_of(device_id)
                &&& si as int == self.surface_idx_in(di as int, crtc)
                &&& self.has_surface_for(device_id, crtc)
            },
            r is None ==> !self.has_surface_for(device_id, crtc),
    {
        let di = match self.device_index(device_id) {
            Some(di) => di,
            None => {
                proof {
                    assert(!self.has_device(device_id));
                    assert forall|dj: int|
                        0 <= dj < self.devices@.len() && (#[trigger] self.devices@[dj]).id
                            == device_id implies false by {
                        assert(self.has_device(device_id));
                    }
                }
                return None;
            }
        };
        proof {
            assert(self.devices@[di as int].id == device_id);
            assert(self.devices@[di as int].wf());
            assert(self.device_idx_of(device_id) == di as int) by {
                let w = self.device_idx_of(device_id);
                assert(0 <= w < self.devices@.len() && self.devices@[w].id == device_id);
                if w != di as int {
                    assert(false);
                }
            }
        }
        let dev = &self.devices[di];
        let mut si: usize = 0;
        while si < dev.surfaces.len()
            invariant
                si <= dev.surfaces@.len(),
                forall|j: int| 0 <= j < si ==> (#[trigger] dev.surfaces@[j]).crtc != crtc,
                *dev == self.devices@[di as int],
                di < self.devices@.len(),
                self.wf(),
                self.devices@[di as int].id == device_id,
                di as int == self.device_idx_of(device_id),
            decreases dev.surfaces@.len() - si,
        {
            if dev.surfaces[si].crtc == crtc {
                proof {
                    assert(self.devices@[di as int].surfaces@[si as int].crtc == crtc);
                    assert(self.devices@[di as int].has_surface(crtc));
                    assert((#[trigger] self.devices@[di as int]).id == device_id
                        && self.devices@[di as int].has_surface(crtc));
                    assert(self.has_surface_for(device_id, crtc));
                    assert(self.devices@[di as int].wf());
                    assert(self.surface_idx_in(di as int, crtc) == si as int) by {
                        let w = self.surface_idx_in(di as int, crtc);
                        assert(0 <= w < self.devices@[di as int].surfaces@.len() && self.devices@[
                            di as int].surfaces@[w].crtc == crtc);
                        if w != si as int {
                            assert(false);
                        }
                    }
                }
                return Some((di, si));
            }
            si = si + 1;
        }
        proof {
            assert(!self.devices@[di as int].has_surface(crtc));
            assert forall|dj: int|
                0 <= dj < self.devices@.len() && (#[trigger] self.devices@[dj]).id == device_id
                    implies !self.devices@[dj].has_surface(crtc) by {
                if dj != di as int {
                    assert(false);
                }
            }
        }
        None
    }

    /// The render state of the pipeline's surface, if one exists.
    pub fn render_state_of(&self, device_id: u64, crtc: u64) -> (r: Option<RenderState>)
        requires
            self.wf(),
        ensures
            r is Some <==> self.has_surface_for(device_id, crtc),
            r matches Some(s) ==> s == self.surface_state_of(device_id, crtc),
    {
        match self.surface_loc(device_id, crtc) {
            Some((di, si)) => Some(self.devices[di].surfaces[si].render_state),
            None => None,
        }
    }

    /// Schedule a render on the output's surface: an idle surface gets
    /// a deferred callback under a fresh token, an already scheduled
    /// one is left alone, and one waiting for vblank only turns dirty,
    /// coalescing however many requests arrive before that vblank into
    /// a single follow-up render.
    pub fn schedule_render(&mut self, output: &Output) -> (r: Option<ScheduleOutcome>)
        requires
            old(self).wf(),
        ensures
            final(self).wf(),
            r is None <==> !old(self).has_surface_for(output.device_id, output.crtc),
            r is None ==> *final(self) == *old(self),
            r is Some ==> ({
                let di = old(self).device_idx_of(output.device_id);
                let si = old(self).surface_idx_in(di, output.crtc);
                let s_old = old(self).devices@[di].surfaces@[si];
                let s_new = final(self).devices@[di].surfaces@[si];
                &&& final(self).devices@.len() == old(self).devices@.len()
                &&& forall|j: int|
                    0 <= j < old(self).devices@.len() && j != di ==> final(self).devices@[j]
                        == old(self).devices@[j]
                &&& final(self).devices@[di].id == old(self).devices@[di].id
                &&& final(self).devices@[di].render_node == old(self).devices@[di].render_node
                &&& final(self).devices@[di].registration_token == old(
                    self,
                ).devices@[di].registration_token
                &&& final(self).devices@[di].paused == old(self).devices@[di].paused
                &&& final(self).devices@[di].surfaces@.len() == old(
                    self,
                ).devices@[di].surfaces@.len()
                &&& forall|k: int|
                    0 <= k < old(self).devices@[di].surfaces@.len() && k != si ==> final(self).devices@[di].surfaces@[k] == old(self).devices@[di].surfaces@[k]
                &&& s_new.render_state == schedule_transition(
                    s_old.render_state,
                    old(self).next_token,
                )
                &&& s_new.device_id == s_old.device_id
                &&& s_new.render_node == s_old.render_node
                &&& s_new.crtc == s_old.crtc
                &&& s_new.screencopy_commit_state == s_old.screencopy_commit_state
                &&& s_new.previous_gamma == s_old.previous_gamma
                &&& s_new.pending_gamma_change == s_old.pending_gamma_change
                &&& r == Some(
                    match s_old.render_state {
                        RenderState::Idle => ScheduleOutcome::NewlyScheduled {
                            token: old(self).next_token,
                        },
                        RenderState::Scheduled { .. } => ScheduleOutcome::AlreadyScheduled,
                        RenderState::WaitingForVblank { .. } => ScheduleOutcome::Coalesced,
                    },
                )
                &&& final(self).next_token == (if s_old.render_state is Idle {
                    old(self).next_token.wrapping_add(1)
                } else {
                    old(self).next_token
                })
            }),
            final(self).seat@ == old(self).seat@,
            final(self).primary_gpu == old(self).primary_gpu,
    {
        let (di, si) = match self.surface_loc(output.device_id, output.crtc) {
            Some(loc) => loc,
            None => {
                return None;
            }
        };
        let token = self.next_token;
        let dev = vec_index_mut(&mut self.devices, di);
        let surface = vec_index_mut(&mut dev.surfaces, si);
        let outcome = surface.schedule(token);
        if let ScheduleOutcome::NewlyScheduled { .. } = outcome {
            self.next_token = token.wrapping_add(1);
        }
        proof {
            assert(final(self).devices@[di as int] == *final(dev));
            assert(final(dev).surfaces@ == old(self).devices@[di as int].surfaces@.update(
                si as int,
                *final(surface),
            ));
            assert(final(self).devices@[di as int].surfaces@[si as int] == *final(surface));
            assert(old(self).devices@[di as int].wf());
            let news = final(self).devices@[di as int].surfaces@;
            let olds = old(self).devices@[di as int].surfaces@;
            assert forall|i2: int, j2: int|
                0 <= i2 < j2 < news.len() implies (#[trigger] news[i2]).crtc != (
            #[trigger] news[j2]).crtc by {
                assert(news[i2].crtc == olds[i2].crtc && news[j2].crtc == olds[j2].crtc);
            }
            assert forall|i2: int|
                0 <= i2 < news.len() implies (#[trigger] news[i2]).device_id == final(self).devices@[di as int].id by {
                assert(news[i2].device_id == olds[i2].device_id);
            }
            assert(final(self).devices@[di as int].wf());
            assert(final(self).wf());
            let di_g = old(self).device_idx_of(output.device_id);
            let si_g = old(self).surface_idx_in(di_g, output.crtc);
            assert(di_g == di as int && si_g == si as int);
            let s_old = old(self).devices@[di_g].surfaces@[si_g];
            let s_new = final(self).devices@[di_g].surfaces@[si_g];
            assert(final(self).devices@.len() == old(self).devices@.len());
            assert(forall|j: int|
                0 <= j < old(self).devices@.len() && j != di_g ==> final(self).devices@[j] == old(
                    self,
                ).devices@[j]);
            assert(final(self).devices@[di_g].id == old(self).devices@[di_g].id);
            assert(final(self).devices@[di_g].surfaces@.len() == old(
                self,
            ).devices@[di_g].surfaces@.len());
            assert(forall|k: int|
                0 <= k < old(self).devices@[di_g].surfaces@.len() && k != si_g ==> final(self).devices@[di_g].surfaces@[k] == old(self).devices@[di_g].surfaces@[k]);
            assert(s_new.render_state == schedule_transition(
                s_old.render_state,
                old(self).next_token,
            ));
            assert(outcome == (match s_old.render_state {
                RenderState::Idle => ScheduleOutcome::NewlyScheduled {
                    token: old(self).next_token,
                },
                RenderState::Scheduled { .. } => ScheduleOutcome::AlreadyScheduled,
                RenderState::WaitingForVblank { .. } => ScheduleOutcome::Coalesced,
            }));
            assert(final(self).next_token == (if s_old.render_state is Idle {
                old(self).next_token.wrapping_add(1)
            } else {
                old(self).next_token
            }));
        }
        Some(outcome)
    }

    /// Power the output's pipeline on or off. Powering off cancels any
    /// scheduled deferred render (its token is returned for the event
    /// loop to drop) and forces the surface idle, so no scheduled work
    /// survives a power-off; renders are refused again only through
    /// `render_surface`'s power check until power-on.
    pub fn set_output_powered(
        &mut self,
        pinnacle: &mut Pinnacle,
        output_index: usize,
        powered: bool,
    ) -> (r: PowerOutcome)
        requires
            old(self).wf(),
            output_index < old(pinnacle).outputs@.len(),
        ensures
            final(self).wf(),
            ({
                let o = old(pinnacle).outputs@[output_index as int];
                &&& !old(self).has_device(o.device_id) ==> r == PowerOutcome::NoDevice && *final(self) == *old(self) && *final(pinnacle) == *old(pinnacle)
                &&& (old(self).has_device(o.device_id) && powered) ==> {
                    &&& r == PowerOutcome::PoweredOn
                    &&& *final(self) == *old(self)
                    &&& final(pinnacle).outputs@[output_index as int].state.powered == true
                }
                &&& (old(self).has_device(o.device_id) && !powered) ==> {
                    &&& final(pinnacle).outputs@[output_index as int].state.powered == false
                    &&& (old(self).has_surface_for(o.device_id, o.crtc) ==> ({
                        let di = old(self).device_idx_of(o.device_id);
                        let si = old(self).surface_idx_in(di, o.crtc);
                        let s_old = old(self).devices@[di].surfaces@[si];
                        &&& final(self).devices@[di].surfaces@[si].render_state
                            == RenderState::Idle
                        &&& r == PowerOutcome::PoweredOff {
                            canceled: match s_old.render_state {
                                RenderState::Scheduled { token } => Some(token),
                                _ => None::<u64>,
                            },
                        }
                    }))
                    &&& (!old(self).has_surface_for(o.device_id, o.crtc) ==> r == (
                    PowerOutcome::PoweredOff { canceled: None }) && *final(self) == *old(self))
                }
            }),
            final(pinnacle).outputs@.len() == old(pinnacle).outputs@.len(),
            forall|j: int|
                0 <= j < old(pinnacle).outputs@.len() && j != output_index ==> final(pinnacle).outputs@[j] == old(pinnacle).outputs@[j],
            final(pinnacle).config == old(pinnacle).config,
            final(pinnacle).lock_state == old(pinnacle).lock_state,
            final(self).seat@ == old(self).seat@,
            final(self).primary_gpu == old(self).primary_gpu,
            final(self).next_token == old(self).next_token,
    {
        let device_id = pinnacle.outputs[output_index].device_id;
        let crtc = pinnacle.outputs[output_index].crtc;
        if self.device_index(device_id).is_none() {
            return PowerOutcome::NoDevice;
        }
        proof {
            let w = choose|i: int|
                0 <= i < self.devices@.len() && (#[trigger] self.devices@[i]).id == device_id;
        }
        if powered {
            let o = vec_index_mut(&mut pinnacle.outputs, output_index);
            o.state.powered = true;
            return PowerOutcome::PoweredOn;
        }
        let o = vec_index_mut(&mut pinnacle.outputs, output_index);
        o.state.powered = false;
        let canceled = match self.surface_loc(device_id, crtc) {
            Some((di, si)) => {
                let dev = vec_index_mut(&mut self.devices, di);
                let surface = vec_index_mut(&mut dev.surfaces, si);
                let t = surface.force_idle();
                proof {
                    assert(final(self).devices@[di as int].surfaces@[si as int] == *final(surface));
                }
                t
            }
            None => None,
        };
        PowerOutcome::PoweredOff { canceled }
    }
}

/// The render state after a whole burst of `schedule_render` requests,
/// one per token, arrives with no intervening vblank.
pub open spec fn schedule_transition_many(s: RenderState, tokens: Seq<u64>) -> RenderState
    decreases tokens.len(),
{
    if tokens.len() == 0 {
        s
    } else {
        schedule_transition_many(schedule_transition(s, tokens[0]), tokens.skip(1))
    }
}

/// Law: however many (at least one) render requests arrive while a
/// surface waits for vblank, they coalesce into the single dirty flag:
/// the surface still waits, marked dirty, and the vblank handler then
/// schedules exactly one follow-up render.
pub proof fn lemma_schedule_coalesces_while_waiting(d: bool, tokens: Seq<u64>)
    requires
        tokens.len() >= 1,
    ensures
        schedule_transition_many(RenderState::WaitingForVblank { dirty: d }, tokens) == (
        RenderState::WaitingForVblank { dirty: true }),
    decreases tokens.len(),
{
    if tokens.len() == 1 {
        assert(tokens.skip(1).len() == 0);
    } else {
        lemma_schedule_coalesces_while_waiting(true, tokens.skip(1));
    }
}

/// Law: once a render is scheduled, further render requests with no
/// intervening vblank leave the one scheduled callback in place, so
/// exactly one render fires for the whole burst.
pub proof fn lemma_schedule_idempotent_when_scheduled(t: u64, tokens: Seq<u64>)
    ensures
        schedule_transition_many(RenderState::Scheduled { token: t }, tokens) == (
        RenderState::Scheduled { token: t }),
    decreases tokens.len(),
{
    if tokens.len() > 0 {
        lemma_schedule_idempotent_when_scheduled(t, tokens.skip(1));
    }
}

/// Law: a burst of render requests on an idle surface schedules
/// exactly one render, under the first request's token; the rest are
/// no-ops.
pub proof fn lemma_second_schedule_coalesced(tokens: Seq<u64>)
    requires
        tokens.len() >= 1,
    ensures
        schedule_transition_many(RenderState::Idle, tokens) == (RenderState::Scheduled {
            token: tokens[0],
        }),
{
    lemma_schedule_idempotent_when_scheduled(tokens[0], tokens.skip(1));
}

/// Hardware metadata delivered with a vblank event.
#[derive(Debug, Clone, Copy, PartialEq, Eq, Structural)]
pub struct VblankMeta {
    /// The vblank timestamp on the monotonic clock, when the hardware
    /// provided one.
    pub time_ns: Option<u64>,
    /// The hardware frame counter.
    pub sequence: u32,
}

/// What retiring the previous frame on this vblank reported.
#[derive(Debug, Clone, Copy, PartialEq, Eq, Structural)]
pub enum FrameSubmittedResult {
    /// The frame was retired; `has_feedback` says whether presentation
    /// feedback was attached to it.
    Submitted { has_feedback: bool },
    /// Retiring failed. Losing the rendering context is fatal to the
    /// whole process: no compositor-level recovery is possible.
    SubmitError { context_lost: bool },
}

/// The flags reported with presentation feedback.
#[derive(Debug, Clone, Copy, PartialEq, Eq, Structural)]
pub struct FeedbackFlags {
    pub vsync: bool,
    pub hw_clock: bool,
    pub hw_completion: bool,
}

/// Presentation feedback relayed to content owners once per
/// successfully submitted frame.
#[derive(Debug, Clone, Copy, PartialEq, Eq, Structural)]
pub struct PresentationFeedback {
    pub clock_ns: u64,
    /// The duration of one refresh cycle, in nanoseconds.
    pub refresh_ns: u64,
    pub sequence: u64,
    pub flags: FeedbackFlags,
}

/// Everything the event loop must do after a vblank was handled.
#[derive(Debug, Clone, Copy, PartialEq, Eq, Structural)]
pub struct VblankActions {
    /// Feedback to relay, when the retired frame carried any.
    pub presentation: Option<PresentationFeedback>,
    /// The rendering context was lost; terminate.
    pub fatal: bool,
    /// No new render is due: tell content owners a frame period
    /// elapsed.
    pub send_frame_callbacks: bool,
    /// A follow-up render was scheduled.
    pub scheduled: Option<ScheduleOutcome>,
    /// Re-trigger rendering when the next animated cursor frame is due.
    pub cursor_timer: Option<u64>,
}

/// The duration of one refresh cycle in nanoseconds, or 0 when no mode
/// (or no meaningful refresh rate) is known.
pub open spec fn refresh_interval_ns(mode: Option<Mode>) -> u64 {
    match mode {
        Some(m) => if m.refresh > 0 {
            (1_000_000_000_000int / (m.refresh as int)) as u64
        } else {
            0
        },
        None => 0,
    }
}

/// Compute the refresh interval, as `refresh_interval_ns`.
fn refresh_interval_ns_exec(mode: &Option<Mode>) -> (r: u64)
    ensures
        r == refresh_interval_ns(*mode),
{
    match mode {
        Some(m) => {
            if m.refresh > 0 {
                1_000_000_000_000u64 / (m.refresh as u64)
            } else {
                0
            }
        }
        None => 0,
    }
}

impl Udev {
    /// Handle a vblank completion on a pipeline: retire the previous
    /// frame (relaying its presentation feedback), finish blanking if
    /// one was queued, and either schedule the coalesced follow-up
    /// render (dirty) or tell content owners that a frame period
    /// elapsed. A vblank in any state other than waiting is an anomaly
    /// and defensively schedules a fresh render.
    pub fn on_vblank(
        &mut self,
        pinnacle: &mut Pinnacle,
        node: u64,
        crtc: u64,
        metadata: Option<VblankMeta>,
        submit_result: FrameSubmittedResult,
        now_ns: u64,
        cursor_frame_due_ns: Option<u64>,
    ) -> (r: Option<VblankActions>)
        requires
            old(self).wf(),
        ensures
            final(self).wf(),
            r is None <==> !(old(self).has_surface_for(node, crtc) && old(
                pinnacle,
            ).has_pipeline_output(node, crtc)),
            r is None ==> *final(self) == *old(self) && *final(pinnacle) == *old(pinnacle),
            r matches Some(a) ==> ({
                let di = old(self).device_idx_of(node);
                let si = old(self).surface_idx_in(di, crtc);
                let s_old = old(self).devices@[di].surfaces@[si];
                let s_new = final(self).devices@[di].surfaces@[si];
                &&& exists|oi: int|
                    #[trigger] old(pinnacle).is_first_pipeline_output(node, crtc, oi) && ({
                        let o_old = old(pinnacle).outputs@[oi];
                        let o_new = final(pinnacle).outputs@[oi];
                        &&& final(pinnacle).outputs@.len() == old(pinnacle).outputs@.len()
                        &&& (forall|j: int|
                            0 <= j < old(pinnacle).outputs@.len() && j != oi ==> final(pinnacle).outputs@[j] == old(pinnacle).outputs@[j])
                        &&& o_new.state.blanking_state == (if submit_result is Submitted
                            && o_old.state.blanking_state == BlankingState::Blanking {
                            BlankingState::Blanked
                        } else {
                            o_old.state.blanking_state
                        })
                        &&& a.presentation == (match submit_result {
                            FrameSubmittedResult::Submitted { has_feedback: true } => Some(
                                PresentationFeedback {
                                    clock_ns: (match metadata {
                                        Some(md) => (match md.time_ns {
                                            Some(t) => t,
                                            None => now_ns,
                                        }),
                                        None => now_ns,
                                    }),
                                    refresh_ns: refresh_interval_ns(o_old.current_mode),
                                    sequence: (match metadata {
                                        Some(md) => md.sequence as u64,
                                        None => 0u64,
                                    }),
                                    flags: FeedbackFlags {
                                        vsync: true,
                                        hw_clock: (metadata matches Some(md) && md.time_ns is Some),
                                        hw_completion: (metadata matches Some(md)
                                            && md.time_ns is Some),
                                    },
                                },
                            ),
                            _ => None::<PresentationFeedback>,
                        })
                    })
                &&& a.fatal == (submit_result == (FrameSubmittedResult::SubmitError {
                    context_lost: true,
                }))
                &&& (s_old.render_state matches RenderState::WaitingForVblank { dirty } ==> {
                    &&& (dirty ==> s_new.render_state == (RenderState::Scheduled {
                        token: old(self).next_token,
                    }) && a.scheduled == Some(
                        ScheduleOutcome::NewlyScheduled { token: old(self).next_token },
                    ) && !a.send_frame_callbacks)
                    &&& (!dirty ==> s_new.render_state == RenderState::Idle && a.scheduled is None
                        && a.send_frame_callbacks)
                    &&& a.cursor_timer == cursor_frame_due_ns
                })
                &&& (!(s_old.render_state is WaitingForVblank) ==> s_new.render_state == (
                RenderState::Scheduled { token: old(self).next_token }) && a.scheduled == Some(
                    ScheduleOutcome::NewlyScheduled { token: old(self).next_token },
                ) && !a.send_frame_callbacks && a.cursor_timer is None)
                &&& s_new.screencopy_commit_state == s_old.screencopy_commit_state
                &&& s_new.previous_gamma == s_old.previous_gamma
                &&& s_new.pending_gamma_change == s_old.pending_gamma_change
            }),
            final(self).seat@ == old(self).seat@,
            final(self).primary_gpu == old(self).primary_gpu,
            final(pinnacle).config == old(pinnacle).config,
            final(pinnacle).lock_state == old(pinnacle).lock_state,
    {
        let loc = self.surface_loc(node, crtc);
        let (di, si) = match loc {
            Some(loc) => loc,
            None => {
                return None;
            }
        };
        let oi = match pinnacle.output_index_for_pipeline(node, crtc) {
            Some(oi) => oi,
            None => {
                return None;
            }
        };

        let mut fatal = false;
        let mut presentation: Option<PresentationFeedback> = None;
        match submit_result {
            FrameSubmittedResult::Submitted { has_feedback } => {
                if has_feedback {
                    let refresh_ns = refresh_interval_ns_exec(&pinnacle.outputs[oi].current_mode);
                    let (clock_ns, hw) = match metadata {
                        Some(md) => match md.time_ns {
                            Some(t) => (t, true),
                            None => (now_ns, false),
                        },
                        None => (now_ns, false),
                    };
                    let sequence = match metadata {
                        Some(md) => md.sequence as u64,
                        None => 0u64,
                    };
                    presentation = Some(
                        PresentationFeedback {
                            clock_ns,
                            refresh_ns,
                            sequence,
                            flags: FeedbackFlags { vsync: true, hw_clock: hw, hw_completion: hw },
                        },
                    );
                }
                let o = vec_index_mut(&mut pinnacle.outputs, oi);
                if matches!(o.state.blanking_state, BlankingState::Blanking) {
                    o.state.blanking_state = BlankingState::Blanked;
                }
            }
            FrameSubmittedResult::SubmitError { context_lost } => {
                fatal = context_lost;
            }
        }

        let prior = {
            let dev = vec_index_mut(&mut self.devices, di);
            let surface = vec_index_mut(&mut dev.surfaces, si);
            surface.take_render_state()
        };
        proof {
            lemma_surface_update_wf(*old(self), *self, di as int, si as int);
            assert(self.has_surface_for(node, crtc)) by {
                assert((#[trigger] self.devices@[di as int]).id == node);
                assert(self.devices@[di as int].surfaces@[si as int].crtc == crtc);
                assert(self.devices@[di as int].has_surface(crtc));
            }
            assert(self.device_idx_of(node) == di as int) by {
                let w = self.device_idx_of(node);
                assert(0 <= w < self.devices@.len() && self.devices@[w].id == node);
                if w != di as int {
                    assert(false);
                }
            }
            assert(self.surface_idx_in(di as int, crtc) == si as int) by {
                assert(self.devices@[di as int].wf());
                let w = self.surface_idx_in(di as int, crtc);
                assert(0 <= w < self.devices@[di as int].surfaces@.len() && self.devices@[
                    di as int].surfaces@[w].crtc == crtc);
                if w != si as int {
                    assert(false);
                }
            }
        }

        let (scheduled, send_frame_callbacks, cursor_timer) = match prior {
            RenderState::WaitingForVblank { dirty } => {
                if dirty {
                    let sched = self.schedule_render(&pinnacle.outputs[oi]);
                    (sched, false, cursor_frame_due_ns)
                } else {
                    (None, true, cursor_frame_due_ns)
                }
            }
            _ => {
                let sched = self.schedule_render(&pinnacle.outputs[oi]);
                (sched, false, None)
            }
        };

        proof {
            assert(old(pinnacle).is_first_pipeline_output(node, crtc, oi as int));
        }

        Some(
            VblankActions { presentation, fatal, send_frame_callbacks, scheduled, cursor_timer },
        )
    }
}

/// What the deferred render callback decided before any drawing.
#[derive(Debug, Clone, Copy, PartialEq, Eq, Structural)]
pub enum RenderDecision {
    /// The pipeline has no surface; nothing to do.
    NoSurface,
    /// The output is gone from the side table; the surface went idle
    /// without rendering.
    OutputGone,
    /// The output is powered off; the surface went idle without
    /// rendering. No renders are accepted until power-on.
    PoweredOff,
    /// Build and render the frame.
    Render {
        /// Show a blank frame instead of content (session lock).
        blank: bool,
        clear_color: ClearColor,
    },
}

/// The clear color of a frame, depending on session-lock state.
#[derive(Debug, Clone, Copy, PartialEq, Eq, Structural)]
pub enum ClearColor {
    Normal,
    Locked,
}

/// Whether the frame must be blanked for session lock: the session is
/// locking, or locked without a lock surface on this output.
pub open spec fn should_blank(lock_state: LockState, has_lock_surface: bool) -> bool {
    lock_state == LockState::Locking || (lock_state == LockState::Locked && !has_lock_surface)
}

/// How the render pass for a deferred callback went.
#[derive(Debug, Clone, Copy, PartialEq, Eq, Structural)]
pub enum RenderOutcome {
    /// A frame was composed and queued to the hardware.
    Rendered,
    /// The frame had no damage; nothing was queued.
    Empty,
    /// Rendering or queueing failed; the frame is dropped and the next
    /// damage event retries.
    Failed,
}

impl Udev {
    /// The deferred render callback fired: decide whether to render.
    /// An unmapped or powered-off output returns the surface to idle
    /// without rendering; otherwise the frame is built, honoring
    /// session-lock blanking, and the surface stays scheduled until
    /// `render_complete` reports the result.
    pub fn render_surface(
        &mut self,
        pinnacle: &mut Pinnacle,
        node: u64,
        crtc: u64,
    ) -> (d: RenderDecision)
        requires
            old(self).wf(),
            (old(self).has_surface_for(node, crtc) && old(pinnacle).has_pipeline_output(node, crtc)
                && (exists|oi: int|
                #[trigger] old(pinnacle).is_first_pipeline_output(node, crtc, oi) && old(
                    pinnacle,
                ).outputs@[oi].state.powered)) ==> old(self).surface_state_of(
                node,
                crtc,
            ) is Scheduled,
        ensures
            final(self).wf(),
            d == RenderDecision::NoSurface <==> !old(self).has_surface_for(node, crtc),
            d == RenderDecision::NoSurface ==> *final(self) == *old(self) && *final(pinnacle)
                == *old(pinnacle),
            d != RenderDecision::NoSurface ==> ({
                let di = old(self).device_idx_of(node);
                let si = old(self).surface_idx_in(di, crtc);
                let s_old = old(self).devices@[di].surfaces@[si];
                let s_new = final(self).devices@[di].surfaces@[si];
                &&& (d == RenderDecision::OutputGone <==> !old(pinnacle).has_pipeline_output(
                    node,
                    crtc,
                ))
                &&& (d == RenderDecision::OutputGone ==> s_new.render_state == RenderState::Idle
                    && *final(pinnacle) == *old(pinnacle))
                &&& (old(pinnacle).has_pipeline_output(node, crtc) ==> exists|oi: int|
                    #[trigger] old(pinnacle).is_first_pipeline_output(node, crtc, oi) && ({
                        let o_old = old(pinnacle).outputs@[oi];
                        let o_new = final(pinnacle).outputs@[oi];
                        &&& (d == RenderDecision::PoweredOff <==> !o_old.state.powered)
                        &&& (d == RenderDecision::PoweredOff ==> s_new.render_state
                            == RenderState::Idle && *final(pinnacle) == *old(pinnacle))
                        &&& (o_old.state.powered ==> {
                            &&& d == (RenderDecision::Render {
                                blank: should_blank(
                                    old(pinnacle).lock_state,
                                    o_old.state.lock_surface is Some,
                                ),
                                clear_color: (if old(pinnacle).lock_state == LockState::Unlocked {
                                    ClearColor::Normal
                                } else {
                                    ClearColor::Locked
                                }),
                            })
                            &&& s_new == s_old
                            &&& final(pinnacle).outputs@.len() == old(pinnacle).outputs@.len()
                            &&& (forall|j: int|
                                0 <= j < old(pinnacle).outputs@.len() && j != oi ==> final(pinnacle).outputs@[j] == old(pinnacle).outputs@[j])
                            &&& o_new.state.blanking_state == (if should_blank(
                                old(pinnacle).lock_state,
                                o_old.state.lock_surface is Some,
                            ) && o_old.state.blanking_state == BlankingState::NotBlanked {
                                BlankingState::Blanking
                            } else {
                                o_old.state.blanking_state
                            })
                        })
                    }))
                &&& s_new.crtc == s_old.crtc
                &&& s_new.device_id == s_old.device_id
                &&& s_new.render_node == s_old.render_node
                &&& s_new.screencopy_commit_state == s_old.screencopy_commit_state
                &&& s_new.previous_gamma == s_old.previous_gamma
                &&& s_new.pending_gamma_change == s_old.pending_gamma_change
                &&& final(self).devices@.len() == old(self).devices@.len()
                &&& (forall|j: int|
                    0 <= j < old(self).devices@.len() && j != di ==> final(self).devices@[j]
                        == old(self).devices@[j])
                &&& (forall|k: int|
                    0 <= k < old(self).devices@[di].surfaces@.len() && k != si ==> final(self).devices@[di].surfaces@[k] == old(self).devices@[di].surfaces@[k])
            }),
            final(self).seat@ == old(self).seat@,
            final(self).primary_gpu == old(self).primary_gpu,
            final(self).next_token == old(self).next_token,
            final(pinnacle).config == old(pinnacle).config,
            final(pinnacle).lock_state == old(pinnacle).lock_state,
    {
        let (di, si) = match self.surface_loc(node, crtc) {
            Some(loc) => loc,
            None => {
                return RenderDecision::NoSurface;
            }
        };

        let oi = match pinnacle.output_index_for_pipeline(node, crtc) {
            Some(oi) => oi,
            None => {
                {
                    let dev = vec_index_mut(&mut self.devices, di);
                    let surface = vec_index_mut(&mut dev.surfaces, si);
                    surface.take_render_state();
                }
                proof {
                    lemma_surface_update_wf(*old(self), *self, di as int, si as int);
                }
                return RenderDecision::OutputGone;
            }
        };

        if !pinnacle.outputs[oi].state.powered {
            {
                let dev = vec_index_mut(&mut self.devices, di);
                let surface = vec_index_mut(&mut dev.surfaces, si);
                surface.take_render_state();
            }
            proof {
                lemma_surface_update_wf(*old(self), *self, di as int, si as int);
            }
            return RenderDecision::PoweredOff;
        }

        let blank = match pinnacle.lock_state {
            LockState::Locking => true,
            LockState::Locked => {
                match &pinnacle.outputs[oi].state.lock_surface {
                    Some(_) => false,
                    None => true,
                }
            }
            LockState::Unlocked => false,
        };
        let clear_color = if pinnacle.lock_state.is_unlocked() {
            ClearColor::Normal
        } else {
            ClearColor::Locked
        };
        if blank {
            let o = vec_index_mut(&mut pinnacle.outputs, oi);
            if matches!(o.state.blanking_state, BlankingState::NotBlanked) {
                o.state.blanking_state = BlankingState::Blanking;
            }
        }
        RenderDecision::Render { blank, clear_color }
    }

    /// Record the result of the render pass the deferred callback ran:
    /// a submitted frame waits for its vblank, an empty or failed one
    /// returns the surface to idle so the next damage event retries.
    /// A layout transaction that completed meanwhile is retired and a
    /// follow-up render is scheduled, so the completed layout reaches
    /// the screen within one frame period.
    pub fn render_complete(
        &mut self,
        pinnacle: &mut Pinnacle,
        node: u64,
        crtc: u64,
        outcome: RenderOutcome,
    ) -> (r: Option<ScheduleOutcome>)
        requires
            old(self).wf(),
        ensures
            final(self).wf(),
            !old(self).has_surface_for(node, crtc) ==> *final(self) == *old(self) && *final(pinnacle) == *old(pinnacle) && r is None,
            old(self).has_surface_for(node, crtc) ==> ({
                let di = old(self).device_idx_of(node);
                let si = old(self).surface_idx_in(di, crtc);
                let s_old = old(self).devices@[di].surfaces@[si];
                let s_new = final(self).devices@[di].surfaces@[si];
                let after = (if outcome == RenderOutcome::Rendered {
                    RenderState::WaitingForVblank { dirty: false }
                } else {
                    RenderState::Idle
                });
                &&& (!old(pinnacle).has_pipeline_output(node, crtc) ==> s_new.render_state
                    == after && *final(pinnacle) == *old(pinnacle) && r is None)
                &&& (old(pinnacle).has_pipeline_output(node, crtc) ==> exists|oi: int|
                    #[trigger] old(pinnacle).is_first_pipeline_output(node, crtc, oi) && ({
                        let o_old = old(pinnacle).outputs@[oi];
                        let o_new = final(pinnacle).outputs@[oi];
                        let finish = (o_old.state.layout_transaction matches Some(ts)
                            && ts.ready);
                        &&& (!finish ==> s_new.render_state == after && *final(pinnacle) == *old(
                            pinnacle,
                        ) && r is None)
                        &&& (finish ==> {
                            &&& o_new.state.layout_transaction is None
                            &&& s_new.render_state == schedule_transition(
                                after,
                                old(self).next_token,
                            )
                            &&& r is Some
                            &&& final(pinnacle).outputs@.len() == old(pinnacle).outputs@.len()
                            &&& (forall|j: int|
                                0 <= j < old(pinnacle).outputs@.len() && j != oi ==> final(pinnacle).outputs@[j] == old(pinnacle).outputs@[j])
                        })
                    }))
                &&& s_new.screencopy_commit_state == s_old.screencopy_commit_state
                &&& s_new.previous_gamma == s_old.previous_gamma
                &&& s_new.pending_gamma_change == s_old.pending_gamma_change
            }),
            final(self).seat@ == old(self).seat@,
            final(self).primary_gpu == old(self).primary_gpu,
            final(pinnacle).config == old(pinnacle).config,
            final(pinnacle).lock_state == old(pinnacle).lock_state,
    {
        let (di, si) = match self.surface_loc(node, crtc) {
            Some(loc) => loc,
            None => {
                return None;
            }
        };

        {
            let dev = vec_index_mut(&mut self.devices, di);
            let surface = vec_index_mut(&mut dev.surfaces, si);
            surface.take_render_state();
            if matches!(outcome, RenderOutcome::Rendered) {
                surface.render_state = RenderState::WaitingForVblank { dirty: false };
            }
        }
        proof {
            lemma_surface_update_wf(*old(self), *self, di as int, si as int);
            assert(self.has_surface_for(node, crtc)) by {
                assert((#[trigger] self.devices@[di as int]).id == node);
                assert(self.devices@[di as int].surfaces@[si as int].crtc == crtc);
                assert(self.devices@[di as int].has_surface(crtc));
            }
            assert(self.device_idx_of(node) == di as int) by {
                let w = self.device_idx_of(node);
                assert(0 <= w < self.devices@.len() && self.devices@[w].id == node);
                if w != di as int {
                    assert(false);
                }
            }
            assert(self.surface_idx_in(di as int, crtc) == si as int) by {
                assert(self.devices@[di as int].wf());
                let w = self.surface_idx_in(di as int, crtc);
                assert(0 <= w < self.devices@[di as int].surfaces@.len() && self.devices@[
                    di as int].surfaces@[w].crtc == crtc);
                if w != si as int {
                    assert(false);
                }
            }
        }

        let oi = match pinnacle.output_index_for_pipeline(node, crtc) {
            Some(oi) => oi,
            None => {
                return None;
            }
        };

        let finish = match &pinnacle.outputs[oi].state.layout_transaction {
            Some(ts) => ts.ready,
            None => false,
        };
        if finish {
            {
                let o = vec_index_mut(&mut pinnacle.outputs, oi);
                o.state.layout_transaction = None;
            }
            let sched = self.schedule_render(&pinnacle.outputs[oi]);
            proof {
                assert(old(pinnacle).is_first_pipeline_output(node, crtc, oi as int));
            }
            sched
        } else {
            None
        }
    }
}

/// After replacing the surface at (di, si) with one of the same
/// pipeline and owner, the registry is still well-formed.
pub(crate) proof fn lemma_surface_update_wf(pre: Udev, post: Udev, di: int, si: int)
    requires
        pre.wf(),
        0 <= di < pre.devices@.len(),
        post.devices@.len() == pre.devices@.len(),
        forall|j: int| 0 <= j < pre.devices@.len() && j != di ==> post.devices@[j] == pre.devices@[j],
        0 <= si < pre.devices@[di].surfaces@.len(),
        post.devices@[di].surfaces@.len() == pre.devices@[di].surfaces@.len(),
        forall|k: int|
            0 <= k < pre.devices@[di].surfaces@.len() && k != si ==> post.devices@[di].surfaces@[k]
                == pre.devices@[di].surfaces@[k],
        post.devices@[di].surfaces@[si].crtc == pre.devices@[di].surfaces@[si].crtc,
        post.devices@[di].surfaces@[si].device_id == pre.devices@[di].surfaces@[si].device_id,
        post.devices@[di].id == pre.devices@[di].id,
        post.devices@[di].render_node == pre.devices@[di].render_node,
        post.devices@[di].registration_token == pre.devices@[di].registration_token,
        post.devices@[di].paused == pre.devices@[di].paused,
    ensures
        post.wf(),
{
    assert(pre.devices@[di].wf());
    let news = post.devices@[di].surfaces@;
    let olds = pre.devices@[di].surfaces@;
    assert forall|i2: int, j2: int|
        0 <= i2 < j2 < news.len() implies (#[trigger] news[i2]).crtc != (
    #[trigger] news[j2]).crtc by {
        assert(news[i2].crtc == olds[i2].crtc && news[j2].crtc == olds[j2].crtc);
    }
    assert forall|i2: int|
        0 <= i2 < news.len() implies (#[trigger] news[i2]).device_id == post.devices@[di].id by {
        assert(news[i2].device_id == olds[i2].device_id);
    }
    assert(post.devices@[di].wf());
    assert forall|i2: int| 0 <= i2 < post.devices@.len() implies (
    #[trigger] post.devices@[i2]).wf() by {
        if i2 != di {
            assert(post.devices@[i2] == pre.devices@[i2]);
            assert(pre.devices@[i2].wf());
        }
    }
    assert forall|i2: int, j2: int|
        0 <= i2 < j2 < post.devices@.len() implies (#[trigger] post.devices@[i2]).id != (
    #[trigger] post.devices@[j2]).id by {
        assert(post.devices@[i2].id == pre.devices@[i2].id);
        assert(post.devices@[j2].id == pre.devices@[j2].id);
    }
}

/// What a power change did.
#[derive(Debug, Clone, Copy, PartialEq, Eq, Structural)]
pub enum PowerOutcome {
    /// The output's device is not registered; nothing changed.
    NoDevice,
    /// The output is powered and schedules renders normally again.
    PoweredOn,
    /// The pipeline was turned off; a canceled deferred-render token is
    /// returned so the event loop can drop the callback.
    PoweredOff { canceled: Option<u64> },
}

} // verus!
