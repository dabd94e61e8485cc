//! The layout service of the configuration API: deciding what a layout
//! request means for the compositor.

use vstd::prelude::*;

use crate::geometry::Rect;
use crate::output::OutputName;
use crate::state::Pinnacle;

verus! {

/// Where one window goes under a computed layout.
#[derive(Debug, Clone, Copy, PartialEq, Eq, Structural)]
pub struct WindowGeometry {
    pub window_id: u32,
    pub geo: Rect,
}

/// The body of one layout request from the layout client.
pub enum LayoutRequestBody {
    /// Computed geometries to apply.
    Geometries(Vec<WindowGeometry>),
    /// Lay out the named output, or the focused one when none is named.
    ExplicitLayout(Option<String>),
}

/// What the compositor does with a layout request.
pub enum LayoutDecision {
    /// Apply these window geometries.
    ApplyGeometries(Vec<WindowGeometry>),
    /// Run a layout on the output at this index.
    RequestLayout(usize),
    /// No output could be resolved; nothing happens.
    Ignored,
}

/// The layout service: handles the layout client's request stream.
pub struct LayoutService {
    /// Requests handled so far.
    pub handled: u64,
}

impl LayoutService {
    /// A fresh service that has handled nothing yet.
    pub fn new() -> (s: LayoutService)
        ensures
            s.handled == 0,
    {
        LayoutService { handled: 0 }
    }

    /// Decide what one layout request means: geometries pass through to
    /// be applied; an explicit layout resolves its output by name,
    /// falling back to the focused output, and is ignored when neither
    /// resolves.
    pub fn handle_request(
        &mut self,
        pinnacle: &Pinnacle,
        body: LayoutRequestBody,
        focused: Option<usize>,
    ) -> (d: LayoutDecision)
        requires
            match focused {
                Some(f) => f < pinnacle.outputs@.len(),
                None => true,
            },
        ensures
            final(self).handled == old(self).handled.wrapping_add(1),
            body matches LayoutRequestBody::Geometries(geos) ==> d
                == LayoutDecision::ApplyGeometries(geos),
            body matches LayoutRequestBody::ExplicitLayout(name_opt) ==> (match name_opt {
                Some(nm) => {
                    &&& ((exists|i: int|
                        0 <= i < pinnacle.outputs@.len() && (#[trigger] pinnacle.outputs@[i]).name.0@
                            == nm@) ==> (d matches LayoutDecision::RequestLayout(oi)
                        && pinnacle.outputs@[oi as int].name.0@ == nm@))
                    &&& ((forall|i: int|
                        0 <= i < pinnacle.outputs@.len() ==> (#[trigger] pinnacle.outputs@[i]).name.0@
                            != nm@) ==> d == (match focused {
                        Some(f) => LayoutDecision::RequestLayout(f),
                        None => LayoutDecision::Ignored,
                    }))
                },
                None => d == (match focused {
                    Some(f) => LayoutDecision::RequestLayout(f),
                    None => LayoutDecision::Ignored,
                }),
            }),
    {
        self.handled = self.handled.wrapping_add(1);
        match body {
            LayoutRequestBody::Geometries(geos) => LayoutDecision::ApplyGeometries(geos),
            LayoutRequestBody::ExplicitLayout(name_opt) => {
                let by_name = match &name_opt {
                    Some(nm) => pinnacle.output_index(&OutputName(nm.clone())),
                    None => None,
                };
                match by_name {
                    Some(oi) => LayoutDecision::RequestLayout(oi),
                    None => match focused {
                        Some(f) => LayoutDecision::RequestLayout(f),
                        None => LayoutDecision::Ignored,
                    },
                }
            }
        }
    }
}

} // verus!
