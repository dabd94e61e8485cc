//! The backend-contract mode change: pick a supported display mode or
//! synthesize a custom one, and record the outcome of applying it.

use vstd::prelude::*;

use crate::output::Mode;
use crate::registry::Udev;
use crate::state::Pinnacle;
use crate::vec_index_mut;

verus! {

/// The hardware mode chosen for a request: a mode the connector
/// already advertises, or a custom mode synthesized from the request.
#[derive(Debug, Clone, Copy, PartialEq, Eq, Structural)]
pub enum ModeChoice {
    Advertised(Mode),
    Custom(Mode),
}

impl Pinnacle {
    /// Choose the hardware mode for setting `mode` on the output at
    /// `output_index`: the advertised mode when the output knows it,
    /// else a custom mode with the same geometry and refresh rate.
    pub fn choose_mode(&self, output_index: usize, mode: Mode) -> (r: ModeChoice)
        requires
            output_index < self.outputs@.len(),
        ensures
            r == (if self.outputs@[output_index as int].state.modes@.contains(mode) {
                ModeChoice::Advertised(mode)
            } else {
                ModeChoice::Custom(mode)
            }),
    {
        let modes = &self.outputs[output_index].state.modes;
        let mut i: usize = 0;
        while i < modes.len()
            invariant
                i <= modes@.len(),
                forall|j: int| 0 <= j < i ==> modes@[j] != mode,
                modes@ == self.outputs@[output_index as int].state.modes@,
            decreases modes@.len() - i,
        {
            if modes[i] == mode {
                proof {
                    assert(modes@.contains(mode));
                }
                return ModeChoice::Advertised(mode);
            }
            i = i + 1;
        }
        proof {
            if modes@.contains(mode) {
                let w = choose|w: int| 0 <= w < modes@.len() && modes@[w] == mode;
            }
        }
        ModeChoice::Custom(mode)
    }
}

impl Udev {
    /// Record the outcome of reconfiguring the present pipeline to a
    /// new mode. On success the output carries the new mode and learns
    /// it if it was custom; on failure everything stays as it was, and
    /// the previous mode is retained.
    pub fn set_output_mode(
        &self,
        pinnacle: &mut Pinnacle,
        output_index: usize,
        mode: Mode,
        use_mode_ok: bool,
    ) -> (r: bool)
        requires
            output_index < old(pinnacle).outputs@.len(),
        ensures
            r == use_mode_ok,
            !use_mode_ok ==> *final(pinnacle) == *old(pinnacle),
            use_mode_ok ==> ({
                let o_old = old(pinnacle).outputs@[output_index as int];
                let o = final(pinnacle).outputs@[output_index as int];
                &&& o.current_mode == Some(mode)
                &&& o.state.modes@ == (if o_old.state.modes@.contains(mode) {
                    o_old.state.modes@
                } else {
                    o_old.state.modes@.push(mode)
                })
                &&& o.name == o_old.name
                &&& o.device_id == o_old.device_id
                &&& o.crtc == o_old.crtc
                &&& o.preferred_mode == o_old.preferred_mode
                &&& o.transform == o_old.transform
                &&& o.scale_millis == o_old.scale_millis
                &&& o.loc == o_old.loc
                &&& o.mapped == o_old.mapped
                &&& o.state.tags == o_old.state.tags
                &&& o.state.screencopy == o_old.state.screencopy
                &&& o.state.serial == o_old.state.serial
                &&& o.state.lock_surface == o_old.state.lock_surface
                &&& o.state.blanking_state == o_old.state.blanking_state
                &&& o.state.powered == o_old.state.powered
                &&& o.state.layout_transaction == o_old.state.layout_transaction
                &&& final(pinnacle).outputs@.len() == old(pinnacle).outputs@.len()
                &&& (forall|j: int|
                    0 <= j < old(pinnacle).outputs@.len() && j != output_index ==> final(pinnacle).outputs@[j] == old(pinnacle).outputs@[j])
            }),
            final(pinnacle).config == old(pinnacle).config,
            final(pinnacle).lock_state == old(pinnacle).lock_state,
    {
        if !use_mode_ok {
            return false;
        }
        let known = match pinnacle.choose_mode(output_index, mode) {
            ModeChoice::Advertised(_) => true,
            ModeChoice::Custom(_) => false,
        };
        let o = vec_index_mut(&mut pinnacle.outputs, output_index);
        o.current_mode = Some(mode);
        if !known {
            o.state.modes.push(mode);
        }
        true
    }

    /// Whether the output's pipeline has a surface whose buffers can be
    /// reset (the reset itself is a hardware call made by the caller).
    pub fn reset_buffers(&self, device_id: u64, crtc: u64) -> (r: bool)
        requires
            self.wf(),
        ensures
            r == self.has_surface_for(device_id, crtc),
    {
        let mut di: usize = 0;
        while di < self.devices.len()
            invariant
                di <= self.devices@.len(),
                self.wf(),
                forall|j: int|
                    0 <= j < di ==> !((#[trigger] self.devices@[j]).id == device_id
                        && self.devices@[j].has_surface(crtc)),
            decreases self.devices@.len() - di,
        {
            if self.devices[di].id == device_id {
                let dev = &self.devices[di];
                let mut si: usize = 0;
                while si < dev.surfaces.len()
                    invariant
                        si <= dev.surfaces@.len(),
                        forall|j: int| 0 <= j < si ==> (#[trigger] dev.surfaces@[j]).crtc != crtc,
                        *dev == self.devices@[di as int],
                        di < self.devices@.len(),
                        self.devices@[di as int].id == device_id,
                    decreases dev.surfaces@.len() - si,
                {
                    if dev.surfaces[si].crtc == crtc {
                        proof {
                            assert(self.devices@[di as int].has_surface(crtc));
                            assert((#[trigger] self.devices@[di as int]).id == device_id
                                && self.devices@[di as int].has_surface(crtc));
                        }
                        return true;
                    }
                    si = si + 1;
                }
                proof {
                    assert(!self.devices@[di as int].has_surface(crtc));
                }
            }
            di = di + 1;
        }
        false
    }
}

} // verus!
