//! Per-kind registry instances: one shared registry for each resource kind,
//! grouped in a single value that is created once, at process start, and
//! threaded through call sites.
//!
//! The kinds never share a table or a lock, so contention on one kind's
//! registry never blocks operations on another kind.

use crate::shared::SharedRegistry;
use vstd::prelude::*;

verus! {

/// The set of per-kind registries, one per resource kind, each generic over
/// the value type stored for that kind.
#[verifier::reject_recursive_types(A)]
#[verifier::reject_recursive_types(B)]
#[verifier::reject_recursive_types(C)]
#[verifier::reject_recursive_types(D)]
#[verifier::reject_recursive_types(I)]
#[verifier::reject_recursive_types(S)]
pub struct Hub<A, B, C, D, I, S> {
    pub adapters: SharedRegistry<A>,
    pub bind_group_layouts: SharedRegistry<B>,
    pub command_buffers: SharedRegistry<C>,
    pub devices: SharedRegistry<D>,
    pub instances: SharedRegistry<I>,
    pub shader_modules: SharedRegistry<S>,
}

impl<A, B, C, D, I, S> Hub<A, B, C, D, I, S> {
    /// Every per-kind registry is well formed.
    pub open spec fn wf(&self) -> bool {
        &&& self.adapters.wf()
        &&& self.bind_group_layouts.wf()
        &&& self.command_buffers.wf()
        &&& self.devices.wf()
        &&& self.instances.wf()
        &&& self.shader_modules.wf()
    }

    /// A fresh hub: one empty registry per resource kind.
    pub fn new() -> (r: Self)
        ensures
            r.wf(),
    {
        Hub {
            adapters: SharedRegistry::new(),
            bind_group_layouts: SharedRegistry::new(),
            command_buffers: SharedRegistry::new(),
            devices: SharedRegistry::new(),
            instances: SharedRegistry::new(),
            shader_modules: SharedRegistry::new(),
        }
    }
}

} // verus!
