//! Hardware display backend core for a Wayland-style compositor.
//!
//! The crate models the device hotplug lifecycle, the per-output render
//! scheduling state machine, and the screen-capture synchronization
//! protocol. Hardware events (vblank completion, device add/remove,
//! session pause/resume) arrive as plain values; every decision the
//! backend makes about them is verified.

pub mod api;
pub mod formats;
pub mod geometry;
pub mod modeset;
pub mod output;
pub mod registry;
pub mod scheduler;
pub mod screencopy;
pub mod session;
pub mod state;
pub mod strfmt;
pub mod surface;

use vstd::prelude::*;

verus! {

/// Mutable access to one element of a vector, with the final vector
/// related to whatever the caller writes through the reference.
pub(crate) fn vec_index_mut<T>(v: &mut Vec<T>, i: usize) -> (e: &mut T)
    requires
        i < old(v).len(),
    ensures
        *e == old(v)@[i as int],
        final(v)@ == old(v)@.update(i as int, *final(e)),
{
    &mut v[i]
}

} // verus!
