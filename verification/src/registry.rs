//! The device registry: GPU device nodes tracked by opaque id, each
//! owning the render surfaces of its connected outputs. Hotplug events
//! (device add/change/remove, connector connect/disconnect) mutate it.

use vstd::prelude::*;

use crate::geometry::{Point, Size};
use crate::output::{ChangeOutputResult, Mode, Output, OutputState, Transform};
use crate::state::{OutputConnectSignal, Pinnacle};
use crate::surface::{PendingGammaChange, RenderState, RenderSurface};
use crate::vec_index_mut;

verus! {

/// One mode a connector advertises.
#[derive(Debug, Clone, Copy, PartialEq, Eq, Structural)]
pub struct ConnectorMode {
    pub mode: Mode,
    /// Whether the hardware marks this mode as preferred.
    pub preferred: bool,
}

/// Display identity parsed from a connector's EDID block.
#[derive(Debug, Clone, PartialEq, Eq)]
pub struct EdidInfo {
    pub make: String,
    pub model: String,
    pub serial: Option<u32>,
}

/// Everything the connector scanner reports about a connected connector.
#[derive(Debug, Clone, PartialEq, Eq)]
pub struct ConnectorInfo {
    /// The connector's handle.
    pub connector: u64,
    /// The connector interface, such as "HDMI-A".
    pub interface: String,
    /// The per-interface index of the connector.
    pub interface_id: u32,
    pub modes: Vec<ConnectorMode>,
    pub physical_size: Option<Size>,
    pub edid: Option<EdidInfo>,
}

/// One diff produced by re-scanning a device's connectors.
pub enum ScanEvent {
    /// A connector was plugged in, and which pipeline (crtc) drives it,
    /// if one could be assigned. `pipeline_ok` reports whether the
    /// present pipeline for it could be created on the hardware.
    Connected { connector: ConnectorInfo, crtc: Option<u64>, pipeline_ok: bool },
    /// A connector was unplugged from the given pipeline.
    Disconnected { crtc: Option<u64> },
}

/// A GPU device tracked by the registry.
pub struct DeviceNode {
    /// The device's opaque id.
    pub id: u64,
    /// The node that renders for this device.
    pub render_node: u64,
    /// The event-loop registration of the device's event source, to be
    /// removed when the device is.
    pub registration_token: u64,
    /// Whether the device's present pipeline is paused (session pause).
    pub paused: bool,
    /// The render surfaces of this device's connected outputs, at most
    /// one per pipeline (crtc).
    pub surfaces: Vec<RenderSurface>,
}

impl DeviceNode {
    /// Well-formed: one surface per pipeline, each owned by this device.
    pub open spec fn wf(&self) -> bool {
        &&& forall|i: int, j: int|
            0 <= i < j < self.surfaces@.len() ==> (#[trigger] self.surfaces@[i]).crtc != (
            #[trigger] self.surfaces@[j]).crtc
        &&& forall|i: int|
            0 <= i < self.surfaces@.len() ==> (#[trigger] self.surfaces@[i]).device_id == self.id
    }

    /// Whether a surface exists for the given pipeline.
    pub open spec fn has_surface(&self, crtc: u64) -> bool {
        exists|i: int| 0 <= i < self.surfaces@.len() && (#[trigger] self.surfaces@[i]).crtc == crtc
    }
}

/// The hardware backend: the registry of GPU devices and the token
/// allocator for deferred render callbacks.
pub struct Udev {
    /// The seat this backend session owns.
    pub seat: String,
    /// The gpu that renders by default.
    pub primary_gpu: u64,
    /// Next cancelable token handed out when a render is scheduled.
    pub next_token: u64,
    pub devices: Vec<DeviceNode>,
}

impl Udev {
    /// Well-formed: device ids are unique and every device is.
    pub open spec fn wf(&self) -> bool {
        &&& forall|i: int, j: int|
            0 <= i < j < self.devices@.len() ==> (#[trigger] self.devices@[i]).id != (
            #[trigger] self.devices@[j]).id
        &&& forall|i: int| 0 <= i < self.devices@.len() ==> (#[trigger] self.devices@[i]).wf()
    }

    /// Whether a device with this id is registered.
    pub open spec fn has_device(&self, id: u64) -> bool {
        exists|i: int| 0 <= i < self.devices@.len() && (#[trigger] self.devices@[i]).id == id
    }

    /// How many registered devices carry this id; 1 at most when
    /// well-formed.
    pub open spec fn device_count(&self, id: u64) -> nat {
        self.devices@.filter(|d: DeviceNode| d.id == id).len()
    }

    /// A fresh backend for the given seat, with no devices yet.
    pub fn new(seat: String, primary_gpu: u64) -> (u: Udev)
        ensures
            u.wf(),
            u.seat@ == seat@,
            u.primary_gpu == primary_gpu,
            u.devices@.len() == 0,
            u.next_token == 0,
    {
        Udev { seat, primary_gpu, next_token: 0, devices: Vec::new() }
    }

    /// The name of the seat this backend runs on.
    pub fn seat_name(&self) -> (r: String)
        ensures
            r@ == self.seat@,
    {
        self.seat.clone()
    }

    /// The index of the device with this id, if it is registered.
    pub fn device_index(&self, id: u64) -> (r: Option<usize>)
        ensures
            r matches Some(i) ==> i < self.devices@.len() && self.devices@[i as int].id == id,
            r is None ==> !self.has_device(id),
    {
        let mut i: usize = 0;
        while i < self.devices.len()
            invariant
                i <= self.devices.len(),
                forall|j: int| 0 <= j < i ==> (#[trigger] self.devices@[j]).id != id,
            decreases self.devices.len() - i,
        {
            if self.devices[i].id == id {
                return Some(i);
            }
            i = i + 1;
        }
        None
    }

    /// Register a newly plugged-in GPU. Adding an id that is already
    /// registered changes nothing, so exactly one device node exists
    /// per id however often it is announced. Connector scanning follows
    /// as a separate step.
    pub fn device_added(
        &mut self,
        id: u64,
        render_node: u64,
        registration_token: u64,
    ) -> (added: bool)
        requires
            old(self).wf(),
        ensures
            final(self).wf(),
            added == !old(self).has_device(id),
            final(self).has_device(id),
            final(self).device_count(id) == 1,
            !added ==> *final(self) == *old(self),
            added ==> {
                &&& final(self).devices@.len() == old(self).devices@.len() + 1
                &&& final(self).devices@.subrange(0, old(self).devices@.len() as int) == old(
                    self,
                ).devices@
                &&& final(self).devices@.last().id == id
                &&& final(self).devices@.last().render_node == render_node
                &&& final(self).devices@.last().registration_token == registration_token
                &&& final(self).devices@.last().paused == false
                &&& final(self).devices@.last().surfaces@.len() == 0
            },
            final(self).seat@ == old(self).seat@,
            final(self).primary_gpu == old(self).primary_gpu,
            final(self).next_token == old(self).next_token,
    {
        match self.device_index(id) {
            Some(i) => {
                proof {
                    assert(self.devices@[i as int].id == id);
                    assert(self.has_device(id));
                    lemma_filter_count_one(self.devices@, id);
                }
                false
            }
            None => {
                let node = DeviceNode {
                    id,
                    render_node,
                    registration_token,
                    paused: false,
                    surfaces: Vec::new(),
                };
                self.devices.push(node);
                proof {
                    let prior = old(self).devices@;
                    let now = self.devices@;
                    assert(now.subrange(0, prior.len() as int) =~= prior);
                    assert(now[prior.len() as int].id == id);
                    assert(self.has_device(id));
                    assert(forall|i: int, j: int|
                        0 <= i < j < now.len() ==> (#[trigger] now[i]).id != (
                        #[trigger] now[j]).id);
                    lemma_filter_count_one(now, id);
                }
                true
            }
        }
    }
}

impl Udev {
    /// The index of the device with this id; meaningful only when the
    /// device is registered.
    pub open spec fn device_idx_of(&self, id: u64) -> int {
        choose|i: int| 0 <= i < self.devices@.len() && (#[trigger] self.devices@[i]).id == id
    }

    /// A display was unplugged: drop the surface of its pipeline and
    /// remove the output bound to it.
    pub fn connector_disconnected(&mut self, pinnacle: &mut Pinnacle, node: u64, crtc: u64)
        requires
            old(self).wf(),
        ensures
            final(self).wf(),
            !old(self).has_device(node) ==> *final(self) == *old(self) && *final(pinnacle)
                == *old(pinnacle),
            old(self).has_device(node) ==> ({
                let di = old(self).device_idx_of(node);
                &&& final(self).devices@.len() == old(self).devices@.len()
                &&& forall|j: int|
                    0 <= j < old(self).devices@.len() && j != di ==> final(self).devices@[j]
                        == old(self).devices@[j]
                &&& final(self).devices@[di].id == old(self).devices@[di].id
                &&& final(self).devices@[di].render_node == old(self).devices@[di].render_node
                &&& final(self).devices@[di].registration_token == old(
                    self,
                ).devices@[di].registration_token
                &&& final(self).devices@[di].paused == old(self).devices@[di].paused
                &&& final(self).devices@[di].surfaces@ == old(self).devices@[di].surfaces@.filter(
                    |s: RenderSurface| s.crtc != crtc,
                )
                &&& !final(self).devices@[di].has_surface(crtc)
                &&& final(pinnacle).outputs@ == old(pinnacle).outputs@.filter(
                    |o: Output| !(o.device_id == node && o.crtc == crtc),
                )
            }),
            final(self).seat@ == old(self).seat@,
            final(self).primary_gpu == old(self).primary_gpu,
            final(self).next_token == old(self).next_token,
            final(pinnacle).config == old(pinnacle).config,
            final(pinnacle).lock_state == old(pinnacle).lock_state,
    {
        let di = match self.device_index(node) {
            Some(di) => di,
            None => {
                return ;
            }
        };
        proof {
            assert(self.devices@[di as int].id == node);
            assert(self.has_device(node));
            assert(self.device_idx_of(node) == di as int) by {
                let w = self.device_idx_of(node);
                assert(0 <= w < self.devices@.len() && self.devices@[w].id == node);
                if w != di as int {
                    assert(false);
                }
            }
        }
        let dev = vec_index_mut(&mut self.devices, di);
        retain_surfaces_not_crtc(&mut dev.surfaces, crtc);
        proof {
            let olds = old(self).devices@[di as int].surfaces@;
            let news = final(dev).surfaces@;
            lemma_filter_surfaces_unique(olds, crtc);
            assert forall|k: int| 0 <= k < news.len() implies (#[trigger] news[k]).crtc
                != crtc by {
                olds.lemma_filter_pred(|s: RenderSurface| s.crtc != crtc, k);
            }
            assert(!final(dev).has_surface(crtc));
            assert forall|k: int| 0 <= k < news.len() implies (#[trigger] news[k]).device_id
                == old(self).devices@[di as int].id by {
                assert(olds.filter(|s: RenderSurface| s.crtc != crtc).contains(news[k]));
                let w = choose|w: int| 0 <= w < olds.len() && olds[w] == news[k];
            }
        }
        retain_outputs_not_pipeline(&mut pinnacle.outputs, node, crtc);
    }
}

impl Udev {
    /// A GPU was unplugged: tear down every owned surface and output as
    /// a connector disconnect would, then deregister the device. The
    /// returned token is the device's event-source registration, to be
    /// removed from the event loop.
    pub fn device_removed(&mut self, pinnacle: &mut Pinnacle, node: u64) -> (token: Option<u64>)
        requires
            old(self).wf(),
        ensures
            final(self).wf(),
            !final(self).has_device(node),
            !old(self).has_device(node) ==> *final(self) == *old(self) && *final(pinnacle)
                == *old(pinnacle) && token is None,
            old(self).has_device(node) ==> {
                &&& token == Some(
                    old(self).devices@[old(self).device_idx_of(node)].registration_token,
                )
                &&& final(self).devices@ == old(self).devices@.filter(
                    |d: DeviceNode| d.id != node,
                )
                &&& final(pinnacle).outputs@ == old(pinnacle).outputs@.filter(
                    |o: Output| o.device_id != node,
                )
            },
            final(self).seat@ == old(self).seat@,
            final(self).primary_gpu == old(self).primary_gpu,
            final(self).next_token == old(self).next_token,
            final(pinnacle).config == old(pinnacle).config,
            final(pinnacle).lock_state == old(pinnacle).lock_state,
    {
        let di = match self.device_index(node) {
            Some(di) => di,
            None => {
                return None;
            }
        };
        proof {
            assert(self.devices@[di as int].id == node);
            assert(self.has_device(node));
            assert(self.device_idx_of(node) == di as int) by {
                let w = self.device_idx_of(node);
                assert(0 <= w < self.devices@.len() && self.devices@[w].id == node);
                if w != di as int {
                    assert(false);
                }
            }
        }
        let token = self.devices[di].registration_token;
        retain_outputs_not_device(&mut pinnacle.outputs, node);
        retain_devices_not_id(&mut self.devices, node);
        proof {
            lemma_filter_devices_unique(old(self).devices@, node);
            let news = final(self).devices@;
            let filtered = devices_without(old(self).devices@, node);
            assert(news == filtered);
            assert forall|k: int| 0 <= k < news.len() implies (#[trigger] news[k]).id != node by {
                old(self).devices@.lemma_filter_pred(|d: DeviceNode| d.id != node, k);
                assert(filtered[k] == news[k]);
            }
            assert(!final(self).has_device(node));
            assert forall|k: int| 0 <= k < news.len() implies (#[trigger] news[k]).wf() by {
                assert(filtered[k] == news[k]);
                assert(old(self).devices@.contains(filtered[k]));
                let w = choose|w: int|
                    0 <= w < old(self).devices@.len() && old(self).devices@[w] == news[k];
                assert(old(self).devices@[w].wf());
            }
            assert forall|i2: int, j2: int|
                0 <= i2 < j2 < news.len() implies (#[trigger] news[i2]).id != (
            #[trigger] news[j2]).id by {
                assert(filtered[i2] == news[i2] && filtered[j2] == news[j2]);
            }
        }
        Some(token)
    }

    /// Apply one connector-scan diff list to a device, connecting and
    /// disconnecting surfaces as the hardware reports. Applying an
    /// empty diff (a re-scan with no hardware change) changes nothing,
    /// and the set of registered devices is never altered. For every
    /// pipeline the diff names exactly once, the diff settles it: a
    /// disconnect leaves neither surface nor output, and a workable
    /// connect leaves a fresh surface.
    pub fn device_changed(&mut self, pinnacle: &mut Pinnacle, node: u64, events: &Vec<ScanEvent>)
        requires
            old(self).wf(),
        ensures
            final(self).wf(),
            events@.len() == 0 ==> *final(self) == *old(self) && *final(pinnacle) == *old(
                pinnacle,
            ),
            final(self).devices@.len() == old(self).devices@.len(),
            forall|j: int|
                0 <= j < old(self).devices@.len() ==> (#[trigger] final(self).devices@[j]).id
                    == old(self).devices@[j].id && final(self).devices@[j].paused == old(
                    self,
                ).devices@[j].paused && final(self).devices@[j].registration_token == old(
                    self,
                ).devices@[j].registration_token && final(self).devices@[j].render_node == old(
                    self,
                ).devices@[j].render_node,
            old(self).has_device(node) ==> (forall|ei: int|
                0 <= ei < events@.len() && crtc_unique_in(events@, ei) ==> scan_event_settled(
                    *final(self),
                    *final(pinnacle),
                    *old(pinnacle),
                    node,
                    old(self).device_idx_of(node),
                    #[trigger] events@[ei],
                )),
            final(self).seat@ == old(self).seat@,
            final(self).primary_gpu == old(self).primary_gpu,
            final(self).next_token == old(self).next_token,
            final(pinnacle).config == old(pinnacle).config,
            final(pinnacle).lock_state == old(pinnacle).lock_state,
    {
        proof {
            if old(self).has_device(node) {
                let di = old(self).device_idx_of(node);
                assert(0 <= di < old(self).devices@.len() && old(self).devices@[di].id == node);
            }
        }
        let mut i: usize = 0;
        while i < events.len()
            invariant
                i <= events@.len(),
                self.wf(),
                self.devices@.len() == old(self).devices@.len(),
                forall|j: int|
                    0 <= j < old(self).devices@.len() ==> (#[trigger] self.devices@[j]).id == old(
                        self,
                    ).devices@[j].id && self.devices@[j].paused == old(self).devices@[j].paused
                        && self.devices@[j].registration_token == old(
                        self,
                    ).devices@[j].registration_token && self.devices@[j].render_node == old(
                        self,
                    ).devices@[j].render_node,
                old(self).has_device(node) ==> ({
                    let di = old(self).device_idx_of(node);
                    &&& 0 <= di < old(self).devices@.len()
                    &&& old(self).devices@[di].id == node
                    &&& (forall|ei: int|
                        0 <= ei < i && crtc_unique_in(events@, ei) ==> scan_event_settled(
                            *self,
                            *pinnacle,
                            *old(pinnacle),
                            node,
                            di,
                            #[trigger] events@[ei],
                        ))
                    &&& (forall|c: u64|
                        (forall|j: int|
                            0 <= j < i ==> event_crtc(#[trigger] events@[j]) != Some(c))
                            ==> #[trigger] pinnacle.has_output_with_crtc(c) == old(
                            pinnacle,
                        ).has_output_with_crtc(c))
                }),
                self.seat@ == old(self).seat@,
                self.primary_gpu == old(self).primary_gpu,
                self.next_token == old(self).next_token,
                pinnacle.config == old(pinnacle).config,
                pinnacle.lock_state == old(pinnacle).lock_state,
                i == 0 ==> *self == *old(self) && *pinnacle == *old(pinnacle),
            decreases events.len() - i,
        {
            let ghost pre_u = *self;
            let ghost pre_p = *pinnacle;
            match &events[i] {
                ScanEvent::Connected { connector, crtc: Some(crtc), pipeline_ok } => {
                    let c = *crtc;
                    let ok = *pipeline_ok;
                    if connector.modes.len() > 0 {
                        let r = self.connector_connected(pinnacle, node, connector, c, ok);
                        proof {
                            if old(self).has_device(node) {
                                let di = old(self).device_idx_of(node);
                                assert(pre_u.devices@[di].id == node);
                                assert(pre_u.has_device(node));
                                assert(pre_u.device_idx_of(node) == di) by {
                                    let w = pre_u.device_idx_of(node);
                                    assert(0 <= w < pre_u.devices@.len() && pre_u.devices@[w].id
                                        == node);
                                    if w != di {
                                        assert(pre_u.devices@[w].id == old(self).devices@[w].id);
                                        assert(false);
                                    }
                                }
                                if r is Connected {
                                    lemma_surfaces_without_same_members(
                                        self.devices@[di].surfaces@,
                                        pre_u.devices@[di].surfaces@,
                                        c,
                                    );
                                    assert(pinnacle.outputs@.len() == pre_p.outputs@.len() + 1);
                                    assert(pinnacle.outputs@.last().crtc == c);
                                    assert(forall|j: int|
                                        0 <= j < pre_p.outputs@.len() ==> pinnacle.outputs@[j]
                                            == pre_p.outputs@[j]);
                                } else {
                                    assert(*self == pre_u && *pinnacle == pre_p);
                                }
                                lemma_scan_step_common(
                                    pre_u,
                                    *self,
                                    pre_p,
                                    *pinnacle,
                                    *old(pinnacle),
                                    node,
                                    di,
                                    events@,
                                    i as int,
                                    c,
                                );
                                // The event itself, when it is the only
                                // one for its pipeline and workable.
                                if crtc_unique_in(events@, i as int) && ok
                                    && connector.modes@.len() > 0 && !old(
                                    pinnacle,
                                ).has_output_with_crtc(c) {
                                    assert(forall|j: int|
                                        0 <= j < i ==> event_crtc(#[trigger] events@[j]) != Some(
                                            c,
                                        ));
                                    assert(pre_p.has_output_with_crtc(c) == old(
                                        pinnacle,
                                    ).has_output_with_crtc(c));
                                    assert(r is Connected);
                                    assert(scan_event_settled(
                                        *self,
                                        *pinnacle,
                                        *old(pinnacle),
                                        node,
                                        di,
                                        events@[i as int],
                                    ));
                                }
                            }
                        }
                    }
                }
                ScanEvent::Disconnected { crtc: Some(crtc) } => {
                    let c = *crtc;
                    self.connector_disconnected(pinnacle, node, c);
                    proof {
                        if old(self).has_device(node) {
                            let di = old(self).device_idx_of(node);
                            assert(pre_u.devices@[di].id == node);
                            assert(pre_u.has_device(node));
                            assert(pre_u.device_idx_of(node) == di) by {
                                let w = pre_u.device_idx_of(node);
                                assert(0 <= w < pre_u.devices@.len() && pre_u.devices@[w].id
                                    == node);
                                if w != di {
                                    assert(pre_u.devices@[w].id == old(self).devices@[w].id);
                                    assert(false);
                                }
                            }
                            lemma_filter_surfaces_unique(pre_u.devices@[di].surfaces@, c);
                            lemma_outputs_without_pipeline_contains(pre_p.outputs@, node, c);
                            assert(pinnacle.outputs@ == outputs_without_pipeline(
                                pre_p.outputs@,
                                node,
                                c,
                            ));
                            lemma_scan_step_common(
                                pre_u,
                                *self,
                                pre_p,
                                *pinnacle,
                                *old(pinnacle),
                                node,
                                di,
                                events@,
                                i as int,
                                c,
                            );
                            // The event itself: its pipeline keeps
                            // neither surface nor output.
                            assert(!self.devices@[di].has_surface(c));
                            assert(!pinnacle.has_pipeline_output(node, c)) by {
                                if pinnacle.has_pipeline_output(node, c) {
                                    let w = choose|w: int|
                                        0 <= w < pinnacle.outputs@.len() && (
                                        #[trigger] pinnacle.outputs@[w]).device_id == node
                                            && pinnacle.outputs@[w].crtc == c;
                                    pre_p.outputs@.lemma_filter_pred(
                                        |o: Output| !(o.device_id == node && o.crtc == c),
                                        w,
                                    );
                                    assert(false);
                                }
                            }
                            assert(scan_event_settled(
                                *self,
                                *pinnacle,
                                *old(pinnacle),
                                node,
                                di,
                                events@[i as int],
                            ));
                        }
                    }
                }
                _ => {}
            }
            i = i + 1;
        }
    }
}

/// Drop every output of the given device, keeping the rest in order.
fn retain_outputs_not_device(v: &mut Vec<Output>, device_id: u64)
    ensures
        final(v)@ == old(v)@.filter(|o: Output| o.device_id != device_id),
{
    let mut rest: Vec<Output> = Vec::new();
    core::mem::swap(&mut rest, v);
    let ghost orig = rest@;
    while rest.len() > 0
        invariant
            rest@.len() <= orig.len(),
            rest@ =~= orig.skip(orig.len() - rest@.len()),
            v@ == orig.take(orig.len() - rest@.len()).filter(|o: Output| o.device_id != device_id),
        decreases rest.len(),
    {
        let ghost k = orig.len() - rest@.len();
        let ghost pre = rest@;
        let o = rest.remove(0);
        proof {
            assert(pre == orig.skip(k as int));
            assert(o == pre[0] && pre[0] == orig[k as int]);
            assert(rest@ =~= orig.skip(k + 1));
            reveal_with_fuel(Seq::filter, 2);
            Seq::filter_distributes_over_add(
                orig.take(k as int),
                seq![o],
                |x: Output| x.device_id != device_id,
            );
            assert(orig.take(k + 1) =~= orig.take(k as int) + seq![o]);
            assert(seq![o].drop_last() =~= Seq::<Output>::empty());
        }
        if o.device_id != device_id {
            v.push(o);
        }
        proof {
            assert(v@ =~= orig.take(k + 1).filter(|x: Output| x.device_id != device_id));
        }
    }
    proof {
        assert(orig.take(orig.len() as int) =~= orig);
    }
}

/// Drop the device with the given id, keeping the rest in order.
fn retain_devices_not_id(v: &mut Vec<DeviceNode>, id: u64)
    ensures
        final(v)@ == old(v)@.filter(|d: DeviceNode| d.id != id),
{
    let mut rest: Vec<DeviceNode> = Vec::new();
    core::mem::swap(&mut rest, v);
    let ghost orig = rest@;
    while rest.len() > 0
        invariant
            rest@.len() <= orig.len(),
            rest@ =~= orig.skip(orig.len() - rest@.len()),
            v@ == orig.take(orig.len() - rest@.len()).filter(|d: DeviceNode| d.id != id),
        decreases rest.len(),
    {
        let ghost k = orig.len() - rest@.len();
        let ghost pre = rest@;
        let d = rest.remove(0);
        proof {
            assert(pre == orig.skip(k as int));
            assert(d == pre[0] && pre[0] == orig[k as int]);
            assert(rest@ =~= orig.skip(k + 1));
            reveal_with_fuel(Seq::filter, 2);
            Seq::filter_distributes_over_add(
                orig.take(k as int),
                seq![d],
                |x: DeviceNode| x.id != id,
            );
            assert(orig.take(k + 1) =~= orig.take(k as int) + seq![d]);
            assert(seq![d].drop_last() =~= Seq::<DeviceNode>::empty());
        }
        if d.id != id {
            v.push(d);
        }
        proof {
            assert(v@ =~= orig.take(k + 1).filter(|x: DeviceNode| x.id != id));
        }
    }
    proof {
        assert(orig.take(orig.len() as int) =~= orig);
    }
}

/// The registered devices with the given id removed.
pub open spec fn devices_without(s: Seq<DeviceNode>, id: u64) -> Seq<DeviceNode> {
    s.filter(|x: DeviceNode| x.id != id)
}

/// Filtering a device list keeps its well-formedness: ids stay unique
/// and each kept device was a device before.
pub(crate) proof fn lemma_filter_devices_unique(s: Seq<DeviceNode>, id: u64)
    ensures
        forall|k: int|
            0 <= k < devices_without(s, id).len() ==> s.contains(
                #[trigger] devices_without(s, id)[k],
            ),
        (forall|i: int, j: int|
            0 <= i < j < s.len() ==> (#[trigger] s[i]).id != (#[trigger] s[j]).id) ==> (
        forall|i: int, j: int|
            0 <= i < j < devices_without(s, id).len() ==> (#[trigger] devices_without(
                s,
                id,
            )[i]).id != (#[trigger] devices_without(s, id)[j]).id),
    decreases s.len(),
{
    reveal_with_fuel(Seq::filter, 2);
    let p = |x: DeviceNode| x.id != id;
    if s.len() == 0 {
    } else {
        let prefix = s.drop_last();
        lemma_filter_devices_unique(prefix, id);
        assert forall|k: int| 0 <= k < devices_without(prefix, id).len() implies s.contains(
            #[trigger] devices_without(prefix, id)[k],
        ) by {
            assert(prefix.contains(devices_without(prefix, id)[k]));
            let w = choose|w: int|
                0 <= w < prefix.len() && prefix[w] == devices_without(prefix, id)[k];
            assert(s[w] == devices_without(prefix, id)[k]);
        }
        if forall|i: int, j: int|
            0 <= i < j < s.len() ==> (#[trigger] s[i]).id != (#[trigger] s[j]).id {
            assert forall|i: int, j: int|
                0 <= i < j < prefix.len() implies (#[trigger] prefix[i]).id != (
            #[trigger] prefix[j]).id by {
                assert(s[i] == prefix[i] && s[j] == prefix[j]);
            }
            if p(s.last()) {
                assert(devices_without(s, id) == devices_without(prefix, id).push(s.last()));
                assert forall|i: int, j: int|
                    0 <= i < j < devices_without(s, id).len() implies (#[trigger] devices_without(
                    s,
                    id,
                )[i]).id != (#[trigger] devices_without(s, id)[j]).id by {
                    if j < devices_without(s, id).len() - 1 {
                    } else {
                        assert(devices_without(s, id)[j] == s.last());
                        assert(prefix.contains(devices_without(prefix, id)[i]));
                        let w = choose|w: int|
                            0 <= w < prefix.len() && prefix[w] == devices_without(prefix, id)[i];
                        assert(s[w].id != s.last().id);
                    }
                }
            } else {
                assert(devices_without(s, id) == devices_without(prefix, id));
            }
        }
    }
}

/// What a connector-connected event produced.
pub enum ConnectOutcome {
    /// The device is not registered; nothing changed.
    NoDevice,
    /// The present pipeline (drm surface or compositor) could not be
    /// created; nothing changed.
    PipelineFailed,
    /// An output already drives this pipeline; nothing changed.
    AlreadyConnected,
    /// A fresh surface and output were created.
    Connected {
        /// Sent when the connector had no saved configuration, so
        /// consumers learn of a brand-new output.
        connect_signal: Option<OutputConnectSignal>,
        /// Signals from placing the output at its initial position.
        initial_change: ChangeOutputResult,
        /// Signals from restoring the saved location and scale, when
        /// the connector was known.
        restored_change: Option<ChangeOutputResult>,
    },
}

/// The width an output occupies in the global space: its logical width
/// when mapped with a known mode, else nothing.
pub open spec fn mapped_width(o: Output) -> int {
    if o.mapped {
        match o.current_mode {
            Some(m) => crate::state::logical_len(m.size.w as int, o.scale_millis as nat) as int,
            None => 0,
        }
    } else {
        0
    }
}

/// The total width occupied by the given outputs.
pub open spec fn total_mapped_width(s: Seq<Output>) -> int
    decreases s.len(),
{
    if s.len() == 0 {
        0
    } else {
        total_mapped_width(s.drop_last()) + mapped_width(s.last())
    }
}

/// Where the next output is placed: to the right of everything mapped,
/// clamped into `i32`.
pub open spec fn next_output_x(s: Seq<Output>) -> i32 {
    if total_mapped_width(s) > 0x7FFF_FFFF {
        0x7FFF_FFFFi32
    } else {
        total_mapped_width(s) as i32
    }
}

impl Pinnacle {
    /// Whether any output is driven by the given pipeline, on any
    /// device.
    pub open spec fn has_output_with_crtc(&self, crtc: u64) -> bool {
        exists|i: int|
            0 <= i < self.outputs@.len() && (#[trigger] self.outputs@[i]).crtc == crtc
    }

    fn output_index_for_crtc(&self, crtc: u64) -> (r: Option<usize>)
        ensures
            r matches Some(i) ==> i < self.outputs@.len() && self.outputs@[i as int].crtc == crtc,
            r is None ==> !self.has_output_with_crtc(crtc),
    {
        let mut i: usize = 0;
        while i < self.outputs.len()
            invariant
                i <= self.outputs.len(),
                forall|j: int| 0 <= j < i ==> (#[trigger] self.outputs@[j]).crtc != crtc,
            decreases self.outputs.len() - i,
        {
            if self.outputs[i].crtc == crtc {
                return Some(i);
            }
            i = i + 1;
        }
        None
    }

    /// The x coordinate where a new output goes, as `next_output_x`.
    fn next_output_position(&self) -> (x: i32)
        ensures
            x == next_output_x(self.outputs@),
    {
        let mut acc: i128 = 0;
        let mut i: usize = 0;
        while i < self.outputs.len()
            invariant
                i <= self.outputs.len(),
                acc == total_mapped_width(self.outputs@.take(i as int)),
                0 <= acc <= i * 0xFFFF_FFFFi128,
            decreases self.outputs.len() - i,
        {
            proof {
                assert(self.outputs@.take(i + 1).drop_last() =~= self.outputs@.take(i as int));
                assert(self.outputs@.take(i + 1).last() == self.outputs@[i as int]);
            }
            let o = &self.outputs[i];
            if o.mapped {
                match &o.current_mode {
                    Some(m) => {
                        let w = crate::state::logical_len_exec(m.size.w, o.scale_millis);
                        acc = acc + w as i128;
                    }
                    None => {}
                }
            }
            i = i + 1;
        }
        proof {
            assert(self.outputs@.take(self.outputs@.len() as int) =~= self.outputs@);
        }
        if acc > 0x7FFF_FFFFi128 {
            0x7FFF_FFFFi32
        } else {
            acc as i32
        }
    }
}

/// The index of the mode the hardware prefers, or 0 when none is
/// marked preferred.
fn preferred_mode_index(modes: &Vec<ConnectorMode>) -> (r: usize)
    requires
        modes@.len() > 0,
    ensures
        r < modes@.len(),
        modes@[r as int].preferred || (r == 0 && forall|j: int|
            0 <= j < modes@.len() ==> !(#[trigger] modes@[j]).preferred),
        forall|j: int| 0 <= j < r ==> !(#[trigger] modes@[j]).preferred,
    {
    let mut i: usize = 0;
    while i < modes.len()
        invariant
            i <= modes.len(),
            forall|j: int| 0 <= j < i ==> !(#[trigger] modes@[j]).preferred,
        decreases modes.len() - i,
    {
        if modes[i].preferred {
            return i;
        }
        i = i + 1;
    }
    0
}

/// The plain mode list a connector advertises.
fn connector_mode_list(modes: &Vec<ConnectorMode>) -> (r: Vec<Mode>)
    ensures
        r@ == modes@.map_values(|cm: ConnectorMode| cm.mode),
{
    let mut r: Vec<Mode> = Vec::new();
    let mut i: usize = 0;
    while i < modes.len()
        invariant
            i <= modes.len(),
            r@ == modes@.take(i as int).map_values(|cm: ConnectorMode| cm.mode),
        decreases modes.len() - i,
    {
        r.push(modes[i].mode);
        proof {
            assert(r@ =~= modes@.take(i + 1).map_values(|cm: ConnectorMode| cm.mode));
        }
        i = i + 1;
    }
    proof {
        assert(modes@.take(modes@.len() as int) =~= modes@);
    }
    r
}

/// Copy a tag list.
fn copy_tags(tags: &Vec<crate::output::Tag>) -> (r: Vec<crate::output::Tag>)
    ensures
        r@ == tags@,
{
    let mut r: Vec<crate::output::Tag> = Vec::new();
    let mut i: usize = 0;
    while i < tags.len()
        invariant
            i <= tags.len(),
            r@ == tags@.take(i as int),
        decreases tags.len() - i,
    {
        r.push(tags[i]);
        proof {
            assert(r@ =~= tags@.take(i + 1));
        }
        i = i + 1;
    }
    proof {
        assert(tags@.take(tags@.len() as int) =~= tags@);
    }
    r
}

/// The index of the surface for the given pipeline, if one exists.
fn surface_index(surfaces: &Vec<RenderSurface>, crtc: u64) -> (r: Option<usize>)
    ensures
        r matches Some(i) ==> i < surfaces@.len() && surfaces@[i as int].crtc == crtc,
        r is None ==> forall|j: int|
            0 <= j < surfaces@.len() ==> (#[trigger] surfaces@[j]).crtc != crtc,
{
    let mut i: usize = 0;
    while i < surfaces.len()
        invariant
            i <= surfaces.len(),
            forall|j: int| 0 <= j < i ==> (#[trigger] surfaces@[j]).crtc != crtc,
        decreases surfaces.len() - i,
    {
        if surfaces[i].crtc == crtc {
            return Some(i);
        }
        i = i + 1;
    }
    None
}

/// The mode chosen for a new output: the first hardware-preferred mode,
/// or the first mode when none is marked preferred.
pub open spec fn preferred_mode_of(modes: Seq<ConnectorMode>) -> Mode {
    let pm = choose|pm: int|
        0 <= pm < modes.len() && ((#[trigger] modes[pm]).preferred || (pm == 0 && forall|j: int|
            0 <= j < modes.len() ==> !(#[trigger] modes[j]).preferred)) && (forall|j: int|
            0 <= j < pm ==> !(#[trigger] modes[j]).preferred);
    modes[pm].mode
}

/// Whether the saved-state entry at `i` is for the given output name.
pub open spec fn saved_match(c: crate::state::Config, name: Seq<char>, i: int) -> bool {
    0 <= i < c.connector_saved_states@.len() && c.connector_saved_states@[i].0.0@ == name
}

/// Whether any saved state exists for the given output name.
pub open spec fn has_saved(c: crate::state::Config, name: Seq<char>) -> bool {
    exists|i: int| saved_match(c, name, i)
}

/// The first saved-state entry for `name`, if any.
fn find_saved_state(c: &crate::state::Config, name: &String) -> (r: Option<usize>)
    ensures
        r matches Some(ci) ==> saved_match(*c, name@, ci as int) && (forall|j: int|
            0 <= j < ci ==> !saved_match(*c, name@, j)),
        r is None ==> !has_saved(*c, name@),
{
    let mut i: usize = 0;
    while i < c.connector_saved_states.len()
        invariant
            i <= c.connector_saved_states@.len(),
            forall|j: int| 0 <= j < i ==> !saved_match(*c, name@, j),
        decreases c.connector_saved_states@.len() - i,
    {
        if c.connector_saved_states[i].0.0 == *name {
            return Some(i);
        }
        i = i + 1;
    }
    None
}

impl Udev {
    /// A display was plugged in: create a fresh render surface for its
    /// pipeline, a logical output bound to it, and either restore the
    /// connector's saved configuration or announce a new output.
    pub fn connector_connected(
        &mut self,
        pinnacle: &mut Pinnacle,
        node: u64,
        connector: &ConnectorInfo,
        crtc: u64,
        pipeline_ok: bool,
    ) -> (r: ConnectOutcome)
        requires
            old(self).wf(),
            connector.modes@.len() > 0,
        ensures
            final(self).wf(),
            r is Connected <==> (old(self).has_device(node) && pipeline_ok && !old(
                pinnacle,
            ).has_output_with_crtc(crtc)),
            !(r is Connected) ==> *final(self) == *old(self) && *final(pinnacle) == *old(
                pinnacle,
            ),
            r is Connected ==> ({
                let di = old(self).device_idx_of(node);
                let dev_old = old(self).devices@[di];
                let dev = final(self).devices@[di];
                &&& final(self).devices@.len() == old(self).devices@.len()
                &&& forall|j: int|
                    0 <= j < old(self).devices@.len() && j != di ==> final(self).devices@[j]
                        == old(self).devices@[j]
                &&& dev.id == dev_old.id
                &&& dev.render_node == dev_old.render_node
                &&& dev.registration_token == dev_old.registration_token
                &&& dev.paused == dev_old.paused
                &&& dev.has_surface(crtc)
                &&& surfaces_without(dev.surfaces@, crtc) == surfaces_without(
                    dev_old.surfaces@,
                    crtc,
                )
                &&& exists|si: int|
                    0 <= si < dev.surfaces@.len() && is_fresh_surface(
                        #[trigger] dev.surfaces@[si],
                        node,
                        dev_old.render_node,
                        crtc,
                    )
            }),
            r is Connected ==> ({
                let o = final(pinnacle).outputs@.last();
                let nm = connector.interface@ + seq!['-'] + crate::strfmt::decimal_seq(
                    connector.interface_id as nat,
                );
                let m = preferred_mode_of(connector.modes@);
                &&& final(pinnacle).outputs@.len() == old(pinnacle).outputs@.len() + 1
                &&& forall|j: int|
                    0 <= j < old(pinnacle).outputs@.len() ==> final(pinnacle).outputs@[j] == old(
                        pinnacle,
                    ).outputs@[j]
                &&& o.name.0@ == nm
                &&& o.device_id == node
                &&& o.crtc == crtc
                &&& o.mapped == true
                &&& o.current_mode == Some(m)
                &&& o.preferred_mode == Some(m)
                &&& o.state.modes@ == connector.modes@.map_values(|cm: ConnectorMode| cm.mode).push(
                    m,
                )
                &&& o.state.serial == (match connector.edid {
                    Some(e) => e.serial,
                    None => None::<u32>,
                })
                &&& o.state.blanking_state == crate::output::BlankingState::NotBlanked
                &&& o.state.powered == true
                &&& o.state.screencopy is None
                &&& o.state.layout_transaction is None
                &&& o.state.lock_surface is None
                &&& (r matches ConnectOutcome::Connected { connect_signal, .. } ==> (
                connect_signal is Some <==> !has_saved(old(pinnacle).config, nm)))
                &&& (!has_saved(old(pinnacle).config, nm) ==> o.state.tags@.len() == 0 && o.loc
                    == (Point { x: next_output_x(old(pinnacle).outputs@), y: 0 })
                    && o.scale_millis == 1000)
                &&& (has_saved(old(pinnacle).config, nm) ==> exists|ci: int|
                    #[trigger] saved_match(old(pinnacle).config, nm, ci) && (forall|j: int|
                        0 <= j < ci ==> !saved_match(old(pinnacle).config, nm, j)) && ({
                        let entry = old(pinnacle).config.connector_saved_states@[ci].1;
                        &&& o.state.tags@ == entry.tags@
                        &&& o.loc == entry.loc
                        &&& o.scale_millis == (match entry.scale {
                            Some(s) => s,
                            None => 1000u32,
                        })
                    }))
            }),
            final(self).seat@ == old(self).seat@,
            final(self).primary_gpu == old(self).primary_gpu,
            final(self).next_token == old(self).next_token,
            final(pinnacle).config == old(pinnacle).config,
            final(pinnacle).lock_state == old(pinnacle).lock_state,
    {
        let di = match self.device_index(node) {
            Some(di) => di,
            None => {
                return ConnectOutcome::NoDevice;
            }
        };
        proof {
            assert(self.devices@[di as int].id == node);
            assert(self.has_device(node));
            assert(self.device_idx_of(node) == di as int) by {
                let w = self.device_idx_of(node);
                assert(0 <= w < self.devices@.len() && self.devices@[w].id == node);
                if w != di as int {
                    assert(false);
                }
            }
        }
        if !pipeline_ok {
            return ConnectOutcome::PipelineFailed;
        }
        if self.output_index_for_crtc_check(pinnacle, crtc) {
            return ConnectOutcome::AlreadyConnected;
        }

        let pm = preferred_mode_index(&connector.modes);
        let wl_mode = connector.modes[pm].mode;
        proof {
            assert(wl_mode == preferred_mode_of(connector.modes@)) by {
                let ms = connector.modes@;
                assert(0 <= pm < ms.len() && ((ms[pm as int]).preferred || (pm == 0
                    && forall|j: int| 0 <= j < ms.len() ==> !(#[trigger] ms[j]).preferred)) && (
                forall|j: int| 0 <= j < pm ==> !(#[trigger] ms[j]).preferred));
                let w = choose|pm2: int|
                    0 <= pm2 < ms.len() && ((#[trigger] ms[pm2]).preferred || (pm2 == 0 && forall|
                        j: int,
                    | 0 <= j < ms.len() ==> !(#[trigger] ms[j]).preferred)) && (forall|j: int|
                        0 <= j < pm2 ==> !(#[trigger] ms[j]).preferred);
                assert(0 <= w < ms.len() && ((ms[w]).preferred || (w == 0 && forall|j: int|
                    0 <= j < ms.len() ==> !(#[trigger] ms[j]).preferred)) && (forall|j: int|
                    0 <= j < w ==> !(#[trigger] ms[j]).preferred));
                if w < pm as int {
                    assert(!ms[w].preferred);
                    assert(w == 0 && forall|j: int| 0 <= j < ms.len() ==> !(#[trigger] ms[j]).preferred);
                    assert(!ms[pm as int].preferred);
                    assert(pm == 0);
                    assert(false);
                } else if w > pm as int {
                    assert(!ms[pm as int].preferred);
                    assert(pm == 0 && forall|j: int| 0 <= j < ms.len() ==> !(#[trigger] ms[j]).preferred);
                    assert(!ms[w].preferred);
                    assert(w == 0);
                    assert(false);
                }
            }
        }

        let name_string = crate::strfmt::connector_name(
            connector.interface.as_str(),
            connector.interface_id,
        );
        let lookup_name = name_string.clone();

        let (make, model, serial) = match &connector.edid {
            Some(e) => (e.make.clone(), e.model.clone(), e.serial),
            None => {
                let m = "Unknown";
                (m.to_owned(), m.to_owned(), None)
            }
        };

        let mode_list = connector_mode_list(&connector.modes);
        let x = pinnacle.next_output_position();

        let mut state = OutputState::new();
        state.serial = serial;
        state.modes = mode_list;

        let output = Output {
            name: crate::output::OutputName(name_string),
            device_id: node,
            crtc,
            make,
            model,
            physical_size: match connector.physical_size {
                Some(s) => s,
                None => Size { w: 0, h: 0 },
            },
            transform: Transform::Normal,
            current_mode: None,
            preferred_mode: Some(wl_mode),
            scale_millis: 1000,
            loc: Point { x: 0, y: 0 },
            mapped: false,
            state,
        };

        let saved = find_saved_state(&pinnacle.config, &lookup_name);
        let (saved_data, saved_tags): (Option<(Point, Option<u32>)>, Option<
            Vec<crate::output::Tag>,
        >) = match saved {
            Some(ci) => {
                let entry = &pinnacle.config.connector_saved_states[ci].1;
                (Some((entry.loc, entry.scale)), Some(copy_tags(&entry.tags)))
            }
            None => (None, None),
        };

        let oi = pinnacle.outputs.len();
        pinnacle.outputs.push(output);

        // Fresh surface for the pipeline.
        let render_node = self.devices[di].render_node;
        let fresh = RenderSurface::new(node, render_node, crtc);
        let ghost old_surfaces = self.devices@[di as int].surfaces@;
        let dev = vec_index_mut(&mut self.devices, di);
        match surface_index(&dev.surfaces, crtc) {
            Some(si) => {
                let slot = vec_index_mut(&mut dev.surfaces, si);
                *slot = fresh;
                proof {
                    lemma_surfaces_without_update(
                        old_surfaces,
                        si as int,
                        final(dev).surfaces@[si as int],
                        crtc,
                    );
                    assert(is_fresh_surface(
                        final(dev).surfaces@[si as int],
                        node,
                        render_node,
                        crtc,
                    ));
                }
            }
            None => {
                dev.surfaces.push(fresh);
                proof {
                    Seq::filter_distributes_over_add(
                        old_surfaces,
                        seq![final(dev).surfaces@.last()],
                        |x: RenderSurface| x.crtc != crtc,
                    );
                    reveal_with_fuel(Seq::filter, 2);
                    assert(seq![final(dev).surfaces@.last()].drop_last()
                        =~= Seq::<RenderSurface>::empty());
                    assert(old_surfaces + seq![final(dev).surfaces@.last()]
                        =~= final(dev).surfaces@);
                    assert(is_fresh_surface(
                        final(dev).surfaces@.last(),
                        node,
                        render_node,
                        crtc,
                    ));
                }
            }
        }
        proof {
            let news = final(dev).surfaces@;
            assert(surfaces_without(news, crtc) == surfaces_without(old_surfaces, crtc));
            assert(forall|i2: int, j2: int|
                0 <= i2 < j2 < news.len() ==> (#[trigger] news[i2]).crtc != (
                #[trigger] news[j2]).crtc);
            assert(forall|i2: int|
                0 <= i2 < news.len() ==> (#[trigger] news[i2]).device_id == node);
            assert(final(dev).has_surface(crtc));
        }

        let initial_change = pinnacle.change_output_state(
            oi,
            Some(wl_mode),
            None,
            None,
            Some(Point { x, y: 0 }),
        );

        let (connect_signal, restored_change) = match (saved_data, saved_tags) {
            (Some((loc, scale)), Some(tags)) => {
                let o = vec_index_mut(&mut pinnacle.outputs, oi);
                o.state.tags = tags;
                let scale_arg = match scale {
                    Some(s) => Some(s),
                    None => Some(1000u32),
                };
                let rc = pinnacle.change_output_state(oi, None, None, scale_arg, Some(loc));
                (None, Some(rc))
            }
            _ => (Some(OutputConnectSignal { output_name: lookup_name }), None),
        };

        proof {
            let di_g = old(self).device_idx_of(node);
            let dev_old = old(self).devices@[di_g];
            let dev_f = final(self).devices@[di_g];
            assert(di_g == di as int);
            assert(final(self).devices@.len() == old(self).devices@.len());
            assert(forall|j: int|
                0 <= j < old(self).devices@.len() && j != di_g ==> final(self).devices@[j] == old(
                    self,
                ).devices@[j]);
            assert(dev_f == *final(dev));
            assert(dev_f.id == dev_old.id);
            assert(dev_f.render_node == dev_old.render_node);
            assert(dev_f.registration_token == dev_old.registration_token);
            assert(dev_f.paused == dev_old.paused);
            assert(dev_f.has_surface(crtc));
            assert(surfaces_without(dev_f.surfaces@, crtc) == surfaces_without(
                dev_old.surfaces@,
                crtc,
            ));
            assert(exists|si: int|
                0 <= si < dev_f.surfaces@.len() && is_fresh_surface(
                    #[trigger] dev_f.surfaces@[si],
                    node,
                    dev_old.render_node,
                    crtc,
                ));
            assert(final(self).wf());
        }
        ConnectOutcome::Connected { connect_signal, initial_change, restored_change }
    }

    /// Whether any output is already driven by this pipeline.
    fn output_index_for_crtc_check(&self, pinnacle: &Pinnacle, crtc: u64) -> (r: bool)
        ensures
            r == pinnacle.has_output_with_crtc(crtc),
    {
        let mut i: usize = 0;
        while i < pinnacle.outputs.len()
            invariant
                i <= pinnacle.outputs.len(),
                forall|j: int| 0 <= j < i ==> (#[trigger] pinnacle.outputs@[j]).crtc != crtc,
            decreases pinnacle.outputs.len() - i,
        {
            if pinnacle.outputs[i].crtc == crtc {
                proof {
                    assert(pinnacle.has_output_with_crtc(crtc));
                }
                return true;
            }
            i = i + 1;
        }
        false
    }
}

/// Whether a surface is exactly as `RenderSurface::new` creates it for
/// the given pipeline: idle, with zeroed capture counters and no gamma
/// state.
pub open spec fn is_fresh_surface(
    s: RenderSurface,
    device_id: u64,
    render_node: u64,
    crtc: u64,
) -> bool {
    &&& s.device_id == device_id
    &&& s.render_node == render_node
    &&& s.crtc == crtc
    &&& s.render_state == RenderState::Idle
    &&& s.screencopy_commit_state == (crate::surface::ScreencopyCommitState {
        primary_plane_swapchain: 0,
        primary_plane_element: 0,
        cursor: 0,
    })
    &&& s.previous_gamma is None
    &&& s.pending_gamma_change == PendingGammaChange::Idle
}

/// Replacing the surface of a pipeline with another surface of the same
/// pipeline leaves the other pipelines' surfaces untouched.
proof fn lemma_surfaces_without_update(s: Seq<RenderSurface>, si: int, x: RenderSurface, crtc: u64)
    requires
        0 <= si < s.len(),
        s[si].crtc == crtc,
        x.crtc == crtc,
    ensures
        surfaces_without(s.update(si, x), crtc) == surfaces_without(s, crtc),
{
    let p = |y: RenderSurface| y.crtc != crtc;
    reveal_with_fuel(Seq::filter, 2);
    let a = s.take(si);
    let b_old = seq![s[si]];
    let b_new = seq![x];
    let c = s.skip(si + 1);
    assert(s =~= (a + b_old) + c);
    assert(s.update(si, x) =~= (a + b_new) + c);
    Seq::filter_distributes_over_add(a + b_old, c, p);
    Seq::filter_distributes_over_add(a, b_old, p);
    Seq::filter_distributes_over_add(a + b_new, c, p);
    Seq::filter_distributes_over_add(a, b_new, p);
    assert(b_old.drop_last() =~= Seq::<RenderSurface>::empty());
    assert(b_new.drop_last() =~= Seq::<RenderSurface>::empty());
    assert(b_old.filter(p) =~= Seq::<RenderSurface>::empty());
    assert(b_new.filter(p) =~= Seq::<RenderSurface>::empty());
    assert(surfaces_without(s.update(si, x), crtc) =~= surfaces_without(s, crtc));
}


/// The surfaces of a device with the given pipeline's surface removed.
pub open spec fn surfaces_without(s: Seq<RenderSurface>, crtc: u64) -> Seq<RenderSurface> {
    s.filter(|x: RenderSurface| x.crtc != crtc)
}

/// Filtering a surface list keeps its per-pipeline uniqueness, and an
/// element of the filtered list was an element before.
proof fn lemma_filter_surfaces_unique(s: Seq<RenderSurface>, crtc: u64)
    ensures
        forall|k: int|
            0 <= k < surfaces_without(s, crtc).len() ==> s.contains(
                #[trigger] surfaces_without(s, crtc)[k],
            ),
        (forall|i: int, j: int|
            0 <= i < j < s.len() ==> (#[trigger] s[i]).crtc != (#[trigger] s[j]).crtc) ==> (
        forall|i: int, j: int|
            0 <= i < j < surfaces_without(s, crtc).len() ==> (#[trigger] surfaces_without(
                s,
                crtc,
            )[i]).crtc != (#[trigger] surfaces_without(s, crtc)[j]).crtc),
    decreases s.len(),
{
    reveal_with_fuel(Seq::filter, 2);
    let p = |x: RenderSurface| x.crtc != crtc;
    if s.len() == 0 {
    } else {
        let prefix = s.drop_last();
        lemma_filter_surfaces_unique(prefix, crtc);
        assert forall|k: int| 0 <= k < surfaces_without(prefix, crtc).len() implies s.contains(
            #[trigger] surfaces_without(prefix, crtc)[k],
        ) by {
            assert(prefix.contains(surfaces_without(prefix, crtc)[k]));
            let w = choose|w: int|
                0 <= w < prefix.len() && prefix[w] == surfaces_without(prefix, crtc)[k];
            assert(s[w] == surfaces_without(prefix, crtc)[k]);
        }
        if forall|i: int, j: int|
            0 <= i < j < s.len() ==> (#[trigger] s[i]).crtc != (#[trigger] s[j]).crtc {
            assert forall|i: int, j: int|
                0 <= i < j < prefix.len() implies (#[trigger] prefix[i]).crtc != (
            #[trigger] prefix[j]).crtc by {
                assert(s[i] == prefix[i] && s[j] == prefix[j]);
            }
            if p(s.last()) {
                assert(surfaces_without(s, crtc) == surfaces_without(prefix, crtc).push(s.last()));
                assert forall|i: int, j: int|
                    0 <= i < j < surfaces_without(s, crtc).len() implies (
                #[trigger] surfaces_without(s, crtc)[i]).crtc != (#[trigger] surfaces_without(
                    s,
                    crtc,
                )[j]).crtc by {
                    if j < surfaces_without(s, crtc).len() - 1 {
                    } else {
                        assert(surfaces_without(s, crtc)[j] == s.last());
                        assert(prefix.contains(surfaces_without(prefix, crtc)[i]));
                        let w = choose|w: int|
                            0 <= w < prefix.len() && prefix[w] == surfaces_without(prefix, crtc)[i];
                        assert(s[w].crtc != s.last().crtc);
                    }
                }
            } else {
                assert(surfaces_without(s, crtc) == surfaces_without(prefix, crtc));
            }
        }
    }
}

/// Drop every surface of the given pipeline, keeping the rest in order.
fn retain_surfaces_not_crtc(v: &mut Vec<RenderSurface>, crtc: u64)
    ensures
        final(v)@ == old(v)@.filter(|s: RenderSurface| s.crtc != crtc),
{
    let mut rest: Vec<RenderSurface> = Vec::new();
    core::mem::swap(&mut rest, v);
    let ghost orig = rest@;
    let ghost p = |s: RenderSurface| s.crtc != crtc;
    while rest.len() > 0
        invariant
            rest@.len() <= orig.len(),
            rest@ =~= orig.skip(orig.len() - rest@.len()),
            v@ == orig.take(orig.len() - rest@.len()).filter(|s: RenderSurface| s.crtc != crtc),
        decreases rest.len(),
    {
        let ghost k = orig.len() - rest@.len();
        let ghost pre = rest@;
        let s = rest.remove(0);
        proof {
            assert(pre == orig.skip(k as int));
            assert(s == pre[0] && pre[0] == orig[k as int]);
            assert(rest@ =~= orig.skip(k + 1));
            reveal_with_fuel(Seq::filter, 2);
            Seq::filter_distributes_over_add(
                orig.take(k as int),
                seq![s],
                |x: RenderSurface| x.crtc != crtc,
            );
            assert(orig.take(k + 1) =~= orig.take(k as int) + seq![s]);
            assert(seq![s].drop_last() =~= Seq::<RenderSurface>::empty());
        }
        if s.crtc != crtc {
            v.push(s);
        }
        proof {
            assert(v@ =~= orig.take(k + 1).filter(|x: RenderSurface| x.crtc != crtc));
        }
    }
    proof {
        assert(orig.take(orig.len() as int) =~= orig);
    }
}

/// Drop every output bound to the given (device, pipeline) pair.
fn retain_outputs_not_pipeline(v: &mut Vec<Output>, device_id: u64, crtc: u64)
    ensures
        final(v)@ == old(v)@.filter(|o: Output| !(o.device_id == device_id && o.crtc == crtc)),
{
    let mut rest: Vec<Output> = Vec::new();
    core::mem::swap(&mut rest, v);
    let ghost orig = rest@;
    while rest.len() > 0
        invariant
            rest@.len() <= orig.len(),
            rest@ =~= orig.skip(orig.len() - rest@.len()),
            v@ == orig.take(orig.len() - rest@.len()).filter(
                |o: Output| !(o.device_id == device_id && o.crtc == crtc),
            ),
        decreases rest.len(),
    {
        let ghost k = orig.len() - rest@.len();
        let ghost pre = rest@;
        let o = rest.remove(0);
        proof {
            assert(pre == orig.skip(k as int));
            assert(o == pre[0] && pre[0] == orig[k as int]);
            assert(rest@ =~= orig.skip(k + 1));
            reveal_with_fuel(Seq::filter, 2);
            Seq::filter_distributes_over_add(
                orig.take(k as int),
                seq![o],
                |x: Output| !(x.device_id == device_id && x.crtc == crtc),
            );
            assert(orig.take(k + 1) =~= orig.take(k as int) + seq![o]);
            assert(seq![o].drop_last() =~= Seq::<Output>::empty());
        }
        if !(o.device_id == device_id && o.crtc == crtc) {
            v.push(o);
        }
        proof {
            assert(v@ =~= orig.take(k + 1).filter(
                |x: Output| !(x.device_id == device_id && x.crtc == crtc),
            ));
        }
    }
    proof {
        assert(orig.take(orig.len() as int) =~= orig);
    }
}

/// Removing one device's id from a device list leaves every other
/// id's registration unchanged.
pub proof fn lemma_devices_without_has(s: Seq<DeviceNode>, node: u64, x: u64)
    requires
        x != node,
    ensures
        (exists|i: int| 0 <= i < s.len() && (#[trigger] s[i]).id == x) <==> (exists|i: int|
            0 <= i < devices_without(s, node).len() && (#[trigger] devices_without(s, node)[i]).id
                == x),
{
    let f = devices_without(s, node);
    if exists|i: int| 0 <= i < s.len() && (#[trigger] s[i]).id == x {
        let w = choose|i: int| 0 <= i < s.len() && (#[trigger] s[i]).id == x;
        s.lemma_filter_contains(|d: DeviceNode| d.id != node, w);
        assert(f.contains(s[w]));
        let k = choose|k: int| 0 <= k < f.len() && f[k] == s[w];
        assert(f[k].id == x);
    }
    if exists|i: int| 0 <= i < f.len() && (#[trigger] f[i]).id == x {
        let k = choose|i: int| 0 <= i < f.len() && (#[trigger] f[i]).id == x;
        lemma_filter_devices_unique(s, node);
        assert(s.contains(f[k]));
        let w = choose|w: int| 0 <= w < s.len() && s[w] == f[k];
        assert(s[w].id == x);
    }
}

/// Law: a well-formed registry holds exactly one device node per
/// registered id, however often the device was announced.
pub proof fn lemma_one_node_per_device(u: &Udev, id: u64)
    requires
        u.wf(),
        u.has_device(id),
    ensures
        u.device_count(id) == 1,
{
    lemma_filter_count_one(u.devices@, id);
}

/// The pipeline a scan event is about, if it names one.
pub open spec fn event_crtc(e: ScanEvent) -> Option<u64> {
    match e {
        ScanEvent::Connected { crtc, .. } => crtc,
        ScanEvent::Disconnected { crtc } => crtc,
    }
}

/// Whether the event at `ei` is the only one of the list for its
/// pipeline.
pub open spec fn crtc_unique_in(events: Seq<ScanEvent>, ei: int) -> bool {
    forall|j: int|
        0 <= j < events.len() && j != ei ==> event_crtc(#[trigger] events[j]) != event_crtc(
            events[ei],
        )
}

/// What one scan event leaves behind once the whole diff is applied:
/// a disconnect leaves neither a surface nor an output on its
/// pipeline; a workable connect (pipeline created, modes known, no
/// output already on the pipeline) leaves a fresh surface.
pub open spec fn scan_event_settled(
    u: Udev,
    p: Pinnacle,
    old_p: Pinnacle,
    node: u64,
    di: int,
    e: ScanEvent,
) -> bool {
    match e {
        ScanEvent::Disconnected { crtc: Some(c) } => !u.devices@[di].has_surface(c)
            && !p.has_pipeline_output(node, c),
        ScanEvent::Connected { connector, crtc: Some(c), pipeline_ok } => (pipeline_ok
            && connector.modes@.len() > 0 && !old_p.has_output_with_crtc(c)) ==> exists|si: int|
            0 <= si < u.devices@[di].surfaces@.len() && is_fresh_surface(
                #[trigger] u.devices@[di].surfaces@[si],
                node,
                u.devices@[di].render_node,
                c,
            ),
        _ => true,
    }
}

/// Applying one scan event for pipeline `c` preserves what earlier,
/// uniquely-named events settled on their own pipelines, and leaves
/// output presence on untouched pipelines as it was.
proof fn lemma_scan_step_common(
    pre_u: Udev,
    post_u: Udev,
    pre_p: Pinnacle,
    post_p: Pinnacle,
    old_p: Pinnacle,
    node: u64,
    di: int,
    events: Seq<ScanEvent>,
    i: int,
    c: u64,
)
    requires
        0 <= i < events.len(),
        event_crtc(events[i]) == Some(c),
        0 <= di < pre_u.devices@.len(),
        post_u.devices@.len() == pre_u.devices@.len(),
        post_u.devices@[di].render_node == pre_u.devices@[di].render_node,
        forall|v: RenderSurface|
            v.crtc != c ==> ((#[trigger] pre_u.devices@[di].surfaces@.contains(v))
                <==> post_u.devices@[di].surfaces@.contains(v)),
        (post_p.outputs@ == pre_p.outputs@) || (post_p.outputs@.len() == pre_p.outputs@.len() + 1
            && post_p.outputs@.last().crtc == c && (forall|j: int|
            0 <= j < pre_p.outputs@.len() ==> post_p.outputs@[j] == pre_p.outputs@[j])) || (
        post_p.outputs@ == outputs_without_pipeline(pre_p.outputs@, node, c)),
        forall|ei: int|
            0 <= ei < i && crtc_unique_in(events, ei) ==> scan_event_settled(
                pre_u,
                pre_p,
                old_p,
                node,
                di,
                #[trigger] events[ei],
            ),
        forall|c2: u64|
            (forall|j: int| 0 <= j < i ==> event_crtc(#[trigger] events[j]) != Some(c2))
                ==> #[trigger] pre_p.has_output_with_crtc(c2) == old_p.has_output_with_crtc(c2),
    ensures
        forall|ei: int|
            0 <= ei < i && crtc_unique_in(events, ei) ==> scan_event_settled(
                post_u,
                post_p,
                old_p,
                node,
                di,
                #[trigger] events[ei],
            ),
        forall|c2: u64|
            (forall|j: int| 0 <= j < i + 1 ==> event_crtc(#[trigger] events[j]) != Some(c2))
                ==> #[trigger] post_p.has_output_with_crtc(c2) == old_p.has_output_with_crtc(c2),
{
    lemma_outputs_without_pipeline_contains(pre_p.outputs@, node, c);

    // Output presence on any pipeline other than `c` is unchanged.
    assert forall|d2: u64, c2: u64|
        c2 != c implies (pre_p.has_pipeline_output(d2, c2) == post_p.has_pipeline_output(
        d2,
        c2,
    )) by {
        if pre_p.has_pipeline_output(d2, c2) {
            let w = choose|w: int|
                0 <= w < pre_p.outputs@.len() && (#[trigger] pre_p.outputs@[w]).device_id == d2
                    && pre_p.outputs@[w].crtc == c2;
            if post_p.outputs@ == outputs_without_pipeline(pre_p.outputs@, node, c) {
                pre_p.outputs@.lemma_filter_contains(
                    |o: Output| !(o.device_id == node && o.crtc == c),
                    w,
                );
                assert(outputs_without_pipeline(pre_p.outputs@, node, c).contains(
                    pre_p.outputs@[w],
                ));
                let k = choose|k: int|
                    0 <= k < post_p.outputs@.len() && post_p.outputs@[k] == pre_p.outputs@[w];
                assert((#[trigger] post_p.outputs@[k]).device_id == d2 && post_p.outputs@[k].crtc
                    == c2);
            } else {
                assert((#[trigger] post_p.outputs@[w]).device_id == d2 && post_p.outputs@[w].crtc
                    == c2);
            }
            assert(post_p.has_pipeline_output(d2, c2));
        }
        if post_p.has_pipeline_output(d2, c2) {
            let w = choose|w: int|
                0 <= w < post_p.outputs@.len() && (#[trigger] post_p.outputs@[w]).device_id == d2
                    && post_p.outputs@[w].crtc == c2;
            if post_p.outputs@ == outputs_without_pipeline(pre_p.outputs@, node, c) {
                assert(pre_p.outputs@.contains(post_p.outputs@[w]));
                let k = choose|k: int|
                    0 <= k < pre_p.outputs@.len() && pre_p.outputs@[k] == post_p.outputs@[w];
                assert((#[trigger] pre_p.outputs@[k]).device_id == d2 && pre_p.outputs@[k].crtc
                    == c2);
            } else if post_p.outputs@.len() == pre_p.outputs@.len() + 1 {
                if w == pre_p.outputs@.len() {
                    assert(post_p.outputs@[w] == post_p.outputs@.last());
                    assert(false);
                }
                assert((#[trigger] pre_p.outputs@[w]).device_id == d2 && pre_p.outputs@[w].crtc
                    == c2);
            } else {
                assert((#[trigger] pre_p.outputs@[w]).device_id == d2 && pre_p.outputs@[w].crtc
                    == c2);
            }
            assert(pre_p.has_pipeline_output(d2, c2));
        }
    }

    // Likewise for presence by crtc alone.
    assert forall|c2: u64|
        c2 != c implies (pre_p.has_output_with_crtc(c2) == post_p.has_output_with_crtc(c2)) by {
        if pre_p.has_output_with_crtc(c2) {
            let w = choose|w: int|
                0 <= w < pre_p.outputs@.len() && (#[trigger] pre_p.outputs@[w]).crtc == c2;
            if post_p.outputs@ == outputs_without_pipeline(pre_p.outputs@, node, c) {
                pre_p.outputs@.lemma_filter_contains(
                    |o: Output| !(o.device_id == node && o.crtc == c),
                    w,
                );
                assert(outputs_without_pipeline(pre_p.outputs@, node, c).contains(
                    pre_p.outputs@[w],
                ));
                let k = choose|k: int|
                    0 <= k < post_p.outputs@.len() && post_p.outputs@[k] == pre_p.outputs@[w];
                assert((#[trigger] post_p.outputs@[k]).crtc == c2);
            } else {
                assert((#[trigger] post_p.outputs@[w]).crtc == c2);
            }
            assert(post_p.has_output_with_crtc(c2));
        }
        if post_p.has_output_with_crtc(c2) {
            let w = choose|w: int|
                0 <= w < post_p.outputs@.len() && (#[trigger] post_p.outputs@[w]).crtc == c2;
            if post_p.outputs@ == outputs_without_pipeline(pre_p.outputs@, node, c) {
                assert(pre_p.outputs@.contains(post_p.outputs@[w]));
                let k = choose|k: int|
                    0 <= k < pre_p.outputs@.len() && pre_p.outputs@[k] == post_p.outputs@[w];
                assert((#[trigger] pre_p.outputs@[k]).crtc == c2);
            } else if post_p.outputs@.len() == pre_p.outputs@.len() + 1 {
                if w == pre_p.outputs@.len() {
                    assert(false);
                }
                assert((#[trigger] pre_p.outputs@[w]).crtc == c2);
            } else {
                assert((#[trigger] pre_p.outputs@[w]).crtc == c2);
            }
            assert(pre_p.has_output_with_crtc(c2));
        }
    }

    // Surface presence on any pipeline other than `c` is unchanged.
    assert forall|c2: u64|
        c2 != c implies (pre_u.devices@[di].has_surface(c2) == post_u.devices@[di].has_surface(
        c2,
    )) by {
        if pre_u.devices@[di].has_surface(c2) {
            let w = choose|w: int|
                0 <= w < pre_u.devices@[di].surfaces@.len() && (
                #[trigger] pre_u.devices@[di].surfaces@[w]).crtc == c2;
            let v = pre_u.devices@[di].surfaces@[w];
            assert(pre_u.devices@[di].surfaces@.contains(v));
            assert(post_u.devices@[di].surfaces@.contains(v));
            let k = choose|k: int|
                0 <= k < post_u.devices@[di].surfaces@.len() && post_u.devices@[di].surfaces@[k]
                    == v;
            assert((#[trigger] post_u.devices@[di].surfaces@[k]).crtc == c2);
        }
        if post_u.devices@[di].has_surface(c2) {
            let w = choose|w: int|
                0 <= w < post_u.devices@[di].surfaces@.len() && (
                #[trigger] post_u.devices@[di].surfaces@[w]).crtc == c2;
            let v = post_u.devices@[di].surfaces@[w];
            assert(post_u.devices@[di].surfaces@.contains(v));
            assert(pre_u.devices@[di].surfaces@.contains(v));
            let k = choose|k: int|
                0 <= k < pre_u.devices@[di].surfaces@.len() && pre_u.devices@[di].surfaces@[k]
                    == v;
            assert((#[trigger] pre_u.devices@[di].surfaces@[k]).crtc == c2);
        }
    }

    // Settled events stay settled: their pipelines differ from `c`.
    assert forall|ei: int| 0 <= ei < i && crtc_unique_in(events, ei) implies scan_event_settled(
        post_u,
        post_p,
        old_p,
        node,
        di,
        #[trigger] events[ei],
    ) by {
        assert(event_crtc(events[i]) != event_crtc(events[ei]));
        assert(scan_event_settled(pre_u, pre_p, old_p, node, di, events[ei]));
        match events[ei] {
            ScanEvent::Disconnected { crtc: Some(ce) } => {
                assert(ce != c);
            }
            ScanEvent::Connected { connector, crtc: Some(ce), pipeline_ok } => {
                assert(ce != c);
                if pipeline_ok && connector.modes@.len() > 0 && !old_p.has_output_with_crtc(ce) {
                    let si = choose|si: int|
                        0 <= si < pre_u.devices@[di].surfaces@.len() && is_fresh_surface(
                            #[trigger] pre_u.devices@[di].surfaces@[si],
                            node,
                            pre_u.devices@[di].render_node,
                            ce,
                        );
                    let v = pre_u.devices@[di].surfaces@[si];
                    assert(pre_u.devices@[di].surfaces@.contains(v));
                    assert(v.crtc == ce);
                    assert(post_u.devices@[di].surfaces@.contains(v));
                    let k = choose|k: int|
                        0 <= k < post_u.devices@[di].surfaces@.len()
                            && post_u.devices@[di].surfaces@[k] == v;
                    assert(is_fresh_surface(
                        #[trigger] post_u.devices@[di].surfaces@[k],
                        node,
                        post_u.devices@[di].render_node,
                        ce,
                    ));
                }
            }
            _ => {}
        }
    }
}

/// The outputs of a pipeline removed from an output list.
pub open spec fn outputs_without_pipeline(s: Seq<Output>, node: u64, c: u64) -> Seq<Output> {
    s.filter(|o: Output| !(o.device_id == node && o.crtc == c))
}

/// Every output kept by a pipeline removal was an output before.
proof fn lemma_outputs_without_pipeline_contains(s: Seq<Output>, node: u64, c: u64)
    ensures
        forall|k: int|
            0 <= k < outputs_without_pipeline(s, node, c).len() ==> s.contains(
                #[trigger] outputs_without_pipeline(s, node, c)[k],
            ),
    decreases s.len(),
{
    reveal_with_fuel(Seq::filter, 2);
    if s.len() == 0 {
    } else {
        let prefix = s.drop_last();
        lemma_outputs_without_pipeline_contains(prefix, node, c);
        assert forall|k: int|
            0 <= k < outputs_without_pipeline(prefix, node, c).len() implies s.contains(
            #[trigger] outputs_without_pipeline(prefix, node, c)[k],
        ) by {
            assert(prefix.contains(outputs_without_pipeline(prefix, node, c)[k]));
            let w = choose|w: int|
                0 <= w < prefix.len() && prefix[w] == outputs_without_pipeline(prefix, node, c)[k];
            assert(s[w] == outputs_without_pipeline(prefix, node, c)[k]);
        }
    }
}

/// When two surface lists agree outside one pipeline, membership of
/// any other pipeline's surface agrees too.
proof fn lemma_surfaces_without_same_members(
    s1: Seq<RenderSurface>,
    s2: Seq<RenderSurface>,
    cx: u64,
)
    requires
        surfaces_without(s1, cx) == surfaces_without(s2, cx),
    ensures
        forall|v: RenderSurface|
            v.crtc != cx ==> ((#[trigger] s1.contains(v)) <==> s2.contains(v)),
{
    lemma_filter_surfaces_unique(s1, cx);
    lemma_filter_surfaces_unique(s2, cx);
    assert forall|v: RenderSurface| v.crtc != cx implies ((#[trigger] s1.contains(v))
        <==> s2.contains(v)) by {
        if s1.contains(v) {
            let w = choose|w: int| 0 <= w < s1.len() && s1[w] == v;
            s1.lemma_filter_contains(|x: RenderSurface| x.crtc != cx, w);
            assert(surfaces_without(s2, cx).contains(v));
            let k = choose|k: int|
                0 <= k < surfaces_without(s2, cx).len() && surfaces_without(s2, cx)[k] == v;
            assert(s2.contains(surfaces_without(s2, cx)[k]));
        }
        if s2.contains(v) {
            let w = choose|w: int| 0 <= w < s2.len() && s2[w] == v;
            s2.lemma_filter_contains(|x: RenderSurface| x.crtc != cx, w);
            assert(surfaces_without(s1, cx).contains(v));
            let k = choose|k: int|
                0 <= k < surfaces_without(s1, cx).len() && surfaces_without(s1, cx)[k] == v;
            assert(s1.contains(surfaces_without(s1, cx)[k]));
        }
    }
}

/// In a device list with unique ids that contains `id`, filtering for
/// `id` finds exactly one node; without it, none.
proof fn lemma_filter_count_one(devs: Seq<DeviceNode>, id: u64)
    requires
        forall|i: int, j: int|
            0 <= i < j < devs.len() ==> (#[trigger] devs[i]).id != (#[trigger] devs[j]).id,
    ensures
        (exists|i: int| 0 <= i < devs.len() && (#[trigger] devs[i]).id == id) ==> devs.filter(
            |d: DeviceNode| d.id == id,
        ).len() == 1,
        !(exists|i: int| 0 <= i < devs.len() && (#[trigger] devs[i]).id == id) ==> devs.filter(
            |d: DeviceNode| d.id == id,
        ).len() == 0,
    decreases devs.len(),
{
    reveal_with_fuel(Seq::filter, 2);
    if devs.len() == 0 {
    } else {
        let prefix = devs.drop_last();
        lemma_filter_count_one(prefix, id);
        assert(forall|i: int|
            0 <= i < prefix.len() ==> (#[trigger] prefix[i]).id == devs[i].id);
        if devs.last().id == id {
            assert(!(exists|i: int|
                0 <= i < prefix.len() && (#[trigger] prefix[i]).id == id));
        } else {
            if exists|i: int| 0 <= i < devs.len() && (#[trigger] devs[i]).id == id {
                let w = choose|i: int| 0 <= i < devs.len() && (#[trigger] devs[i]).id == id;
                assert(0 <= w < prefix.len() && prefix[w].id == id);
            }
        }
    }
}

} // verus!
