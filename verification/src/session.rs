//! Session lifecycle: pausing every device's present pipeline on a
//! session pause, and reconciling the device registry on resume.

use vstd::prelude::*;

use crate::registry::{DeviceNode, ScanEvent, Udev};
use crate::state::Pinnacle;
use crate::surface::{GammaTarget, ScheduleOutcome};
use crate::vec_index_mut;

verus! {

/// What the resume reconciliation found for one currently enumerable
/// device: its id, what a fresh device registration needs, and the
/// connector-scan diff to apply.
pub struct DeviceScan {
    pub id: u64,
    /// The render node, used when the device is newly registered.
    pub render_node: u64,
    /// The event-source registration, used when the device is newly
    /// registered.
    pub registration_token: u64,
    pub events: Vec<ScanEvent>,
}

/// What the event loop must do after a resume.
pub struct ResumeReport {
    /// Event-source registrations of devices that vanished while the
    /// session was paused.
    pub removed_tokens: Vec<u64>,
    /// The outcome of scheduling a render on each mapped output, in
    /// output order.
    pub scheduled: Vec<Option<ScheduleOutcome>>,
}

/// Whether the scan list names this device id.
pub open spec fn scan_ids_contain(scans: Seq<DeviceScan>, id: u64) -> bool {
    exists|i: int| 0 <= i < scans.len() && (#[trigger] scans[i]).id == id
}

/// The paused flag of the device with this id in a device list.
pub open spec fn devices_paused_as(devs: Seq<DeviceNode>, id: u64) -> bool {
    let w = choose|i: int| 0 <= i < devs.len() && (#[trigger] devs[i]).id == id;
    devs[w].paused
}

/// Whether the scan list names this device id.
fn scans_contain(scans: &Vec<DeviceScan>, id: u64) -> (r: bool)
    ensures
        r == scan_ids_contain(scans@, id),
{
    let mut i: usize = 0;
    while i < scans.len()
        invariant
            i <= scans@.len(),
            forall|j: int| 0 <= j < i ==> (#[trigger] scans@[j]).id != id,
        decreases scans@.len() - i,
    {
        if scans[i].id == id {
            proof {
                assert(scan_ids_contain(scans@, id));
            }
            return true;
        }
        i = i + 1;
    }
    false
}

impl Udev {
    /// Pause the session: every device's present pipeline is paused.
    /// Pausing an already paused backend changes nothing further, so
    /// the operation is idempotent.
    pub fn pause(&mut self)
        requires
            old(self).wf(),
        ensures
            final(self).wf(),
            final(self).devices@.len() == old(self).devices@.len(),
            forall|i: int|
                0 <= i < old(self).devices@.len() ==> ({
                    let d_old = old(self).devices@[i];
                    let d = #[trigger] final(self).devices@[i];
                    &&& d.paused == true
                    &&& d.id == d_old.id
                    &&& d.render_node == d_old.render_node
                    &&& d.registration_token == d_old.registration_token
                    &&& d.surfaces == d_old.surfaces
                }),
            final(self).seat@ == old(self).seat@,
            final(self).primary_gpu == old(self).primary_gpu,
            final(self).next_token == old(self).next_token,
    {
        let mut i: usize = 0;
        while i < self.devices.len()
            invariant
                i <= self.devices@.len(),
                self.devices@.len() == old(self).devices@.len(),
                forall|j: int|
                    0 <= j < self.devices@.len() ==> ({
                        let d_old = old(self).devices@[j];
                        let d = #[trigger] self.devices@[j];
                        &&& d.id == d_old.id
                        &&& d.render_node == d_old.render_node
                        &&& d.registration_token == d_old.registration_token
                        &&& d.surfaces == d_old.surfaces
                        &&& (j < i ==> d.paused == true)
                        &&& (j >= i ==> d.paused == d_old.paused)
                    }),
                self.wf(),
                old(self).wf(),
                self.seat@ == old(self).seat@,
                self.primary_gpu == old(self).primary_gpu,
                self.next_token == old(self).next_token,
            decreases self.devices@.len() - i,
        {
            let dev = vec_index_mut(&mut self.devices, i);
            dev.paused = true;
            proof {
                assert(self.devices@[i as int] == *final(dev));
                assert forall|i2: int| 0 <= i2 < self.devices@.len() implies (
                #[trigger] self.devices@[i2]).wf() by {
                    assert(old(self).devices@[i2].wf());
                    assert(self.devices@[i2].surfaces == old(self).devices@[i2].surfaces);
                    assert(self.devices@[i2].id == old(self).devices@[i2].id);
                }
            }
            i = i + 1;
        }
    }

    /// Resume the session: diff the currently enumerable devices
    /// against the tracked set. Vanished devices are fully torn down,
    /// retained devices are reactivated and rescanned, and newly
    /// observed devices follow the standard add path; afterwards the
    /// registry holds exactly the enumerated devices, none of them
    /// paused, and a render is scheduled for every mapped output.
    pub fn resume(&mut self, pinnacle: &mut Pinnacle, scans: &Vec<DeviceScan>) -> (r: ResumeReport)
        requires
            old(self).wf(),
            forall|i: int, j: int|
                0 <= i < j < scans@.len() ==> (#[trigger] scans@[i]).id != (
                #[trigger] scans@[j]).id,
        ensures
            final(self).wf(),
            forall|k: int|
                0 <= k < scans@.len() ==> final(self).has_device((#[trigger] scans@[k]).id),
            forall|id: u64|
                #[trigger] final(self).has_device(id) ==> exists|k: int|
                    0 <= k < scans@.len() && (#[trigger] scans@[k]).id == id,
            forall|i: int|
                0 <= i < final(self).devices@.len() ==> (#[trigger] final(self).devices@[i]).paused == false,
            r.scheduled@.len() == final(pinnacle).outputs@.len(),
            forall|oi: int|
                0 <= oi < final(pinnacle).outputs@.len() && !(#[trigger] final(pinnacle).outputs@[oi]).mapped ==> r.scheduled@[oi] is None,
            forall|oi: int|
                0 <= oi < final(pinnacle).outputs@.len() && (#[trigger] final(pinnacle).outputs@[oi]).mapped && final(self).has_surface_for(
                    final(pinnacle).outputs@[oi].device_id,
                    final(pinnacle).outputs@[oi].crtc,
                ) ==> r.scheduled@[oi] is Some,
            final(pinnacle).config == old(pinnacle).config,
            final(pinnacle).lock_state == old(pinnacle).lock_state,
            final(self).seat@ == old(self).seat@,
            final(self).primary_gpu == old(self).primary_gpu,
    {
        // Which tracked devices are no longer enumerable.
        let mut vanished: Vec<u64> = Vec::new();
        let mut di: usize = 0;
        while di < self.devices.len()
            invariant
                di <= self.devices@.len(),
                forall|j: int|
                    0 <= j < di && !scan_ids_contain(scans@, (#[trigger] self.devices@[j]).id)
                        ==> vanished@.contains(self.devices@[j].id),
                forall|k: int|
                    0 <= k < vanished@.len() ==> !scan_ids_contain(
                        scans@,
                        #[trigger] vanished@[k],
                    ),
            decreases self.devices@.len() - di,
        {
            let id = self.devices[di].id;
            let ghost pre_v = vanished@;
            if !scans_contain(scans, id) {
                vanished.push(id);
                proof {
                    assert(vanished@ == pre_v.push(id));
                    assert(vanished@[pre_v.len() as int] == id);
                    assert(vanished@.contains(id));
                    assert forall|j: int|
                        0 <= j < di + 1 && !scan_ids_contain(
                            scans@,
                            (#[trigger] self.devices@[j]).id,
                        ) implies vanished@.contains(self.devices@[j].id) by {
                        if j < di {
                            assert(pre_v.contains(self.devices@[j].id));
                            let w = choose|w: int|
                                0 <= w < pre_v.len() && pre_v[w] == self.devices@[j].id;
                            assert(vanished@[w] == self.devices@[j].id);
                        } else {
                            assert(self.devices@[j].id == id);
                        }
                    }
                    assert forall|w: int| 0 <= w < vanished@.len() implies !scan_ids_contain(
                        scans@,
                        #[trigger] vanished@[w],
                    ) by {
                        if w < pre_v.len() {
                            assert(vanished@[w] == pre_v[w]);
                        } else {
                            assert(vanished@[w] == id);
                        }
                    }
                }
            } else {
                proof {
                    assert forall|j: int|
                        0 <= j < di + 1 && !scan_ids_contain(
                            scans@,
                            (#[trigger] self.devices@[j]).id,
                        ) implies vanished@.contains(self.devices@[j].id) by {}
                }
            }
            di = di + 1;
        }

        // Tear the vanished devices down.
        let mut removed_tokens: Vec<u64> = Vec::new();
        let mut vi: usize = 0;
        while vi < vanished.len()
            invariant
                vi <= vanished@.len(),
                self.wf(),
                forall|id: u64|
                    #[trigger] self.has_device(id) ==> old(self).has_device(id),
                forall|k: int| 0 <= k < vi ==> !self.has_device(#[trigger] vanished@[k]),
                forall|id: u64|
                    old(self).has_device(id) && #[trigger] scan_ids_contain(scans@, id)
                        ==> self.has_device(id),
                forall|j: int|
                    0 <= j < self.devices@.len() ==> old(self).has_device(
                        (#[trigger] self.devices@[j]).id,
                    ) && self.devices@[j].paused == devices_paused_as(
                        old(self).devices@,
                        self.devices@[j].id,
                    ),
                forall|k: int|
                    0 <= k < vanished@.len() ==> !scan_ids_contain(
                        scans@,
                        #[trigger] vanished@[k],
                    ),
                forall|j: int|
                    0 <= j < old(self).devices@.len() && !scan_ids_contain(
                        scans@,
                        (#[trigger] old(self).devices@[j]).id,
                    ) ==> vanished@.contains(old(self).devices@[j].id),
                pinnacle.config == old(pinnacle).config,
                pinnacle.lock_state == old(pinnacle).lock_state,
                self.seat@ == old(self).seat@,
                self.primary_gpu == old(self).primary_gpu,
            decreases vanished@.len() - vi,
        {
            let v = vanished[vi];
            let ghost pre = *self;
            let token = self.device_removed(pinnacle, v);
            if let Some(t) = token {
                removed_tokens.push(t);
            }
            proof {
                if pre.has_device(v) {
                    let filtered = crate::registry::devices_without(pre.devices@, v);
                    assert(self.devices@ == filtered);
                    crate::registry::lemma_filter_devices_unique(pre.devices@, v);
                    assert forall|id: u64| #[trigger] self.has_device(id) implies pre.has_device(
                        id,
                    ) by {
                        let w = choose|i: int|
                            0 <= i < self.devices@.len() && (#[trigger] self.devices@[i]).id
                                == id;
                        assert(filtered[w] == self.devices@[w]);
                        assert(pre.devices@.contains(filtered[w]));
                        let w2 = choose|w2: int|
                            0 <= w2 < pre.devices@.len() && pre.devices@[w2] == filtered[w];
                        assert(pre.devices@[w2].id == id);
                    }
                    assert forall|id: u64|
                        pre.has_device(id) && id != v implies #[trigger] self.has_device(id) by {
                        crate::registry::lemma_devices_without_has(pre.devices@, v, id);
                        let w = choose|i: int|
                            0 <= i < filtered.len() && (#[trigger] filtered[i]).id == id;
                        assert(self.devices@[w].id == id);
                    }
                    assert forall|j: int|
                        0 <= j < self.devices@.len() implies old(self).has_device(
                            (#[trigger] self.devices@[j]).id,
                        ) && self.devices@[j].paused == devices_paused_as(
                            old(self).devices@,
                            self.devices@[j].id,
                        ) by {
                        assert(filtered[j] == self.devices@[j]);
                        assert(pre.devices@.contains(filtered[j]));
                        let w = choose|w: int|
                            0 <= w < pre.devices@.len() && pre.devices@[w] == self.devices@[j];
                        assert(pre.devices@[w].id == self.devices@[j].id);
                        assert(pre.has_device(self.devices@[j].id));
                    }
                    assert forall|k2: int| 0 <= k2 < vi + 1 implies !self.has_device(
                        #[trigger] vanished@[k2],
                    ) by {
                        if k2 < vi {
                            if self.has_device(vanished@[k2]) {
                                assert(pre.has_device(vanished@[k2]));
                                assert(false);
                            }
                        } else {
                            assert(vanished@[k2] == v);
                            if self.has_device(v) {
                                let w = choose|i: int|
                                    0 <= i < self.devices@.len() && (
                                    #[trigger] self.devices@[i]).id == v;
                                assert(filtered[w] == self.devices@[w]);
                                pre.devices@.lemma_filter_pred(|d: DeviceNode| d.id != v, w);
                                assert(false);
                            }
                        }
                    }
                } else {
                    assert(*self == pre);
                    assert forall|k2: int| 0 <= k2 < vi + 1 implies !self.has_device(
                        #[trigger] vanished@[k2],
                    ) by {
                        if k2 == vi {
                            assert(vanished@[k2] == v);
                            assert(!pre.has_device(v));
                        }
                    }
                }
            }
            vi = vi + 1;
        }

        proof {
            assert forall|id: u64| #[trigger] self.has_device(id) implies scan_ids_contain(
                scans@,
                id,
            ) by {
                if !scan_ids_contain(scans@, id) {
                    assert(old(self).has_device(id));
                    let w = choose|i: int|
                        0 <= i < old(self).devices@.len() && (#[trigger] old(self).devices@[i]).id == id;
                    assert(vanished@.contains(id));
                    let k = choose|k: int| 0 <= k < vanished@.len() && vanished@[k] == id;
                    assert(!self.has_device(vanished@[k]));
                    assert(false);
                }
            }
        }

        // Reactivate retained devices, register new ones, and apply the
        // connector diffs.
        let ghost mid = *self;
        let mut k: usize = 0;
        while k < scans.len()
            invariant
                k <= scans@.len(),
                self.wf(),
                forall|i: int, j: int|
                    0 <= i < j < scans@.len() ==> (#[trigger] scans@[i]).id != (
                    #[trigger] scans@[j]).id,
                forall|j: int| 0 <= j < k ==> self.has_device((#[trigger] scans@[j]).id),
                forall|id: u64|
                    #[trigger] self.has_device(id) ==> mid.has_device(id) || scan_ids_contain(
                        scans@,
                        id,
                    ),
                forall|id: u64| #[trigger] mid.has_device(id) ==> scan_ids_contain(scans@, id),
                forall|id: u64| #[trigger] mid.has_device(id) ==> self.has_device(id),
                forall|j: int|
                    0 <= j < self.devices@.len() && (#[trigger] self.devices@[j]).paused
                        ==> exists|m: int|
                        k <= m < scans@.len() && (#[trigger] scans@[m]).id == self.devices@[j].id,
                pinnacle.config == old(pinnacle).config,
                pinnacle.lock_state == old(pinnacle).lock_state,
                self.seat@ == old(self).seat@,
                self.primary_gpu == old(self).primary_gpu,
            decreases scans@.len() - k,
        {
            let id = scans[k].id;
            let ghost pre = *self;
            match self.device_index(id) {
                Some(dix) => {
                    let dev = vec_index_mut(&mut self.devices, dix);
                    dev.paused = false;
                    proof {
                        assert(self.devices@[dix as int] == *final(dev));
                        assert forall|i2: int| 0 <= i2 < self.devices@.len() implies (
                        #[trigger] self.devices@[i2]).wf() by {
                            assert(pre.devices@[i2].wf());
                            assert(self.devices@[i2].surfaces == pre.devices@[i2].surfaces);
                            assert(self.devices@[i2].id == pre.devices@[i2].id);
                        }
                        assert(self.wf());
                    }
                }
                None => {
                    self.device_added(id, scans[k].render_node, scans[k].registration_token);
                }
            }
            let ghost pre2 = *self;
            self.device_changed(pinnacle, id, &scans[k].events);
            proof {
                // The processed device and the intermediate states line
                // up pointwise in ids and paused flags.
                assert(pre2.devices@.len() >= pre.devices@.len());
                assert forall|i2: int| 0 <= i2 < pre.devices@.len() implies (
                #[trigger] pre2.devices@[i2]).id == pre.devices@[i2].id by {
                    if pre2.devices@.len() > pre.devices@.len() {
                        assert(pre2.devices@.subrange(0, pre.devices@.len() as int)[i2]
                            == pre2.devices@[i2]);
                    }
                }
                assert forall|j: int| 0 <= j < k + 1 implies self.has_device(
                    (#[trigger] scans@[j]).id,
                ) by {
                    if j < k {
                        assert(pre.has_device(scans@[j].id));
                        let w = choose|i: int|
                            0 <= i < pre.devices@.len() && (#[trigger] pre.devices@[i]).id
                                == scans@[j].id;
                        assert(pre2.devices@[w].id == scans@[j].id);
                        assert(self.devices@[w].id == scans@[j].id);
                    } else {
                        assert(pre2.has_device(id));
                        let w = choose|i: int|
                            0 <= i < pre2.devices@.len() && (#[trigger] pre2.devices@[i]).id
                                == id;
                        assert(self.devices@[w].id == id);
                    }
                }
                assert forall|idx: u64| #[trigger] self.has_device(idx) implies mid.has_device(
                    idx,
                ) || scan_ids_contain(scans@, idx) by {
                    let w = choose|i: int|
                        0 <= i < self.devices@.len() && (#[trigger] self.devices@[i]).id == idx;
                    assert(pre2.devices@[w].id == idx);
                    if w < pre.devices@.len() {
                        assert(pre.devices@[w].id == idx);
                        assert(pre.has_device(idx));
                    } else {
                        assert(pre2.devices@[w].id == id);
                        assert((#[trigger] scans@[k as int]).id == id);
                        assert(scan_ids_contain(scans@, idx));
                    }
                }
                assert forall|idx: u64| #[trigger] mid.has_device(idx) implies self.has_device(
                    idx,
                ) by {
                    assert(pre.has_device(idx));
                    let w = choose|i: int|
                        0 <= i < pre.devices@.len() && (#[trigger] pre.devices@[i]).id == idx;
                    assert(pre2.devices@[w].id == idx);
                    assert(self.devices@[w].id == idx);
                }
                assert forall|j: int|
                    0 <= j < self.devices@.len() && (#[trigger] self.devices@[j]).paused
                        implies exists|m: int|
                        k + 1 <= m < scans@.len() && (#[trigger] scans@[m]).id
                            == self.devices@[j].id by {
                    assert(self.devices@[j].paused == pre2.devices@[j].paused);
                    assert(self.devices@[j].id == pre2.devices@[j].id);
                    if j < pre.devices@.len() {
                        assert(pre2.devices@[j].id == pre.devices@[j].id);
                        assert(pre.devices@[j].paused);
                        let m = choose|m: int|
                            k <= m < scans@.len() && (#[trigger] scans@[m]).id
                                == pre.devices@[j].id;
                        assert(m != k) by {
                            if m == k {
                                assert(pre.devices@[j].id == id);
                                assert(!pre2.devices@[j].paused);
                                assert(false);
                            }
                        }
                        assert(k + 1 <= m < scans@.len() && scans@[m].id == self.devices@[j].id);
                    } else {
                        assert(!pre2.devices@[j].paused);
                        assert(false);
                    }
                }
            }
            k = k + 1;
        }

        // Guarantee visual consistency: schedule a render for every
        // mapped output.
        let mut scheduled: Vec<Option<ScheduleOutcome>> = Vec::new();
        let mut oi: usize = 0;
        while oi < pinnacle.outputs.len()
            invariant
                oi <= pinnacle.outputs@.len(),
                scheduled@.len() == oi,
                self.wf(),
                forall|j: int|
                    0 <= j < oi && !(#[trigger] pinnacle.outputs@[j]).mapped
                        ==> scheduled@[j] is None,
                forall|j: int|
                    0 <= j < oi && (#[trigger] pinnacle.outputs@[j]).mapped
                        && self.has_surface_for(
                        pinnacle.outputs@[j].device_id,
                        pinnacle.outputs@[j].crtc,
                    ) ==> scheduled@[j] is Some,
                forall|k2: int|
                    0 <= k2 < scans@.len() ==> self.has_device((#[trigger] scans@[k2]).id),
                forall|id: u64|
                    #[trigger] self.has_device(id) ==> exists|k2: int|
                        0 <= k2 < scans@.len() && (#[trigger] scans@[k2]).id == id,
                forall|i: int|
                    0 <= i < self.devices@.len() ==> (#[trigger] self.devices@[i]).paused
                        == false,
                pinnacle.config == old(pinnacle).config,
                pinnacle.lock_state == old(pinnacle).lock_state,
                self.seat@ == old(self).seat@,
                self.primary_gpu == old(self).primary_gpu,
            decreases pinnacle.outputs@.len() - oi,
        {
            let ghost pre = *self;
            if pinnacle.outputs[oi].mapped {
                let outcome = self.schedule_render(&pinnacle.outputs[oi]);
                scheduled.push(outcome);
            } else {
                scheduled.push(None);
            }
            proof {
                // A schedule request changes no device id and no
                // surface pipeline, so surface existence is untouched.
                assert forall|x: u64, y: u64|
                    #[trigger] self.has_surface_for(x, y) == pre.has_surface_for(x, y) by {
                    assert(self.devices@.len() == pre.devices@.len());
                    if pre.has_surface_for(x, y) {
                        let di2 = choose|di2: int|
                            0 <= di2 < pre.devices@.len() && (#[trigger] pre.devices@[di2]).id
                                == x && pre.devices@[di2].has_surface(y);
                        let si2 = choose|si2: int|
                            0 <= si2 < pre.devices@[di2].surfaces@.len() && (
                            #[trigger] pre.devices@[di2].surfaces@[si2]).crtc == y;
                        assert(self.devices@[di2].id == x);
                        assert(self.devices@[di2].surfaces@[si2].crtc == y);
                        assert(self.devices@[di2].has_surface(y));
                        assert(self.has_surface_for(x, y));
                    }
                    if self.has_surface_for(x, y) {
                        let di2 = choose|di2: int|
                            0 <= di2 < self.devices@.len() && (#[trigger] self.devices@[di2]).id
                                == x && self.devices@[di2].has_surface(y);
                        let si2 = choose|si2: int|
                            0 <= si2 < self.devices@[di2].surfaces@.len() && (
                            #[trigger] self.devices@[di2].surfaces@[si2]).crtc == y;
                        assert(pre.devices@[di2].id == x);
                        assert(pre.devices@[di2].surfaces@[si2].crtc == y);
                        assert(pre.devices@[di2].has_surface(y));
                        assert(pre.has_surface_for(x, y));
                    }
                }
                assert forall|k2: int| 0 <= k2 < scans@.len() implies self.has_device(
                    (#[trigger] scans@[k2]).id,
                ) by {
                    assert(pre.has_device(scans@[k2].id));
                    let w = choose|i: int|
                        0 <= i < pre.devices@.len() && (#[trigger] pre.devices@[i]).id
                            == scans@[k2].id;
                    assert(self.devices@[w].id == scans@[k2].id);
                }
                assert forall|id: u64| #[trigger] self.has_device(id) implies exists|k2: int|
                    0 <= k2 < scans@.len() && (#[trigger] scans@[k2]).id == id by {
                    let w = choose|i: int|
                        0 <= i < self.devices@.len() && (#[trigger] self.devices@[i]).id == id;
                    assert(pre.devices@[w].id == id);
                    assert(pre.has_device(id));
                }
                assert forall|i: int|
                    0 <= i < self.devices@.len() implies (#[trigger] self.devices@[i]).paused
                        == false by {
                    assert(pre.devices@[i].paused == false);
                }
            }
            oi = oi + 1;
        }

        ResumeReport { removed_tokens, scheduled }
    }

    /// The gamma operation pending on the surface of the given
    /// pipeline, if that surface exists.
    pub fn gamma_to_apply_for(&self, node: u64, crtc: u64) -> (t: Option<GammaTarget<'_>>)
        requires
            self.wf(),
        ensures
            t is Some <==> self.has_surface_for(node, crtc),
            t matches Some(g) ==> ({
                let di = self.device_idx_of(node);
                let si = self.surface_idx_in(di, crtc);
                let s = self.devices@[di].surfaces@[si];
                match g {
                    GammaTarget::Reapply(p) => s.pending_gamma_change
                        == crate::surface::PendingGammaChange::Idle && *p == s.previous_gamma,
                    GammaTarget::Reset => s.pending_gamma_change
                        == crate::surface::PendingGammaChange::Restore,
                    GammaTarget::Apply(gt) => (match s.pending_gamma_change {
                        crate::surface::PendingGammaChange::Change(c) => *gt == c,
                        _ => false,
                    }),
                }
            }),
    {
        let (di, si) = match self.surface_loc(node, crtc) {
            Some(loc) => loc,
            None => {
                return None;
            }
        };
        Some(self.devices[di].surfaces[si].gamma_to_apply())
    }

    /// Record the outcome of applying the pending gamma of the given
    /// pipeline's surface, per the tri-state policy: the pending
    /// request is consumed, and the last-known gamma is kept only when
    /// the apply succeeded (and was not an explicit restore).
    pub fn finish_gamma_for(&mut self, node: u64, crtc: u64, ok: bool) -> (found: bool)
        requires
            old(self).wf(),
        ensures
            final(self).wf(),
            found == old(self).has_surface_for(node, crtc),
            !found ==> *final(self) == *old(self),
            found ==> ({
                let di = old(self).device_idx_of(node);
                let si = old(self).surface_idx_in(di, crtc);
                let s_old = old(self).devices@[di].surfaces@[si];
                let s_new = final(self).devices@[di].surfaces@[si];
                &&& s_new.pending_gamma_change == crate::surface::PendingGammaChange::Idle
                &&& s_new.previous_gamma == (match s_old.pending_gamma_change {
                    crate::surface::PendingGammaChange::Idle => if ok {
                        s_old.previous_gamma
                    } else {
                        None
                    },
                    crate::surface::PendingGammaChange::Restore => None,
                    crate::surface::PendingGammaChange::Change(g) => if ok {
                        Some(g)
                    } else {
                        None
                    },
                })
                &&& s_new.render_state == s_old.render_state
                &&& s_new.screencopy_commit_state == s_old.screencopy_commit_state
                &&& s_new.crtc == s_old.crtc
                &&& s_new.device_id == s_old.device_id
                &&& s_new.render_node == s_old.render_node
                &&& final(self).devices@.len() == old(self).devices@.len()
                &&& (forall|j: int|
                    0 <= j < old(self).devices@.len() && j != di ==> final(self).devices@[j]
                        == old(self).devices@[j])
                &&& (forall|k: int|
                    0 <= k < old(self).devices@[di].surfaces@.len() && k != si ==> final(self).devices@[di].surfaces@[k] == old(self).devices@[di].surfaces@[k])
            }),
            final(self).seat@ == old(self).seat@,
            final(self).primary_gpu == old(self).primary_gpu,
            final(self).next_token == old(self).next_token,
    {
        let (di, si) = match self.surface_loc(node, crtc) {
            Some(loc) => loc,
            None => {
                return false;
            }
        };
        {
            let dev = vec_index_mut(&mut self.devices, di);
            let surface = vec_index_mut(&mut dev.surfaces, si);
            surface.finish_gamma(ok);
        }
        proof {
            crate::scheduler::lemma_surface_update_wf(*old(self), *self, di as int, si as int);
        }
        true
    }
}

} // verus!
