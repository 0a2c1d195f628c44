//! Code generation backends: what a backend can compile for, and how the
//! Vulkan backend chooses its GPU and derives its capabilities.

use vstd::prelude::*;

verus! {

/// Backend capability flags.
#[derive(Debug, Clone, Copy, PartialEq, Eq, Structural)]
pub struct BackendCapabilities {
    pub supports_fp64: bool,
    pub supports_fp16: bool,
    pub supports_int64: bool,
    pub supports_int16: bool,
    pub supports_int8: bool,
    pub supports_async: bool,
    pub unified_memory: bool,
    pub shared_memory: bool,
}

/// Common trait for all code generation backends.
pub trait Backend {
    /// What the backend can compile for.
    fn capabilities(&self) -> BackendCapabilities;

    /// Whether the backend is available on this system.
    fn is_available(&self) -> bool;

    /// The backend's name.
    fn name(&self) -> &'static str;
}

/// Shader features enabled on a GPU.
#[derive(Debug, Clone, Copy, PartialEq, Eq, Structural)]
pub struct EnabledFeatures {
    pub shader_float64: bool,
    pub shader_float16: bool,
    pub shader_int64: bool,
    pub shader_int16: bool,
    pub shader_int8: bool,
}

/// What the Vulkan backend compiles for on a GPU with `features`: the
/// enabled shader types, asynchronous execution, memory separate from the
/// host's, and shared memory.
pub open spec fn vulkan_capabilities_of(features: EnabledFeatures) -> BackendCapabilities {
    BackendCapabilities {
        supports_fp64: features.shader_float64,
        supports_fp16: features.shader_float16,
        supports_int64: features.shader_int64,
        supports_int16: features.shader_int16,
        supports_int8: features.shader_int8,
        supports_async: true,
        unified_memory: false,
        shared_memory: true,
    }
}

/// What the Vulkan backend compiles for on a GPU with `features`.
pub fn vulkan_capabilities(features: EnabledFeatures) -> (c: BackendCapabilities)
    ensures
        c == vulkan_capabilities_of(features),
{
    BackendCapabilities {
        supports_fp64: features.shader_float64,
        supports_fp16: features.shader_float16,
        supports_int64: features.shader_int64,
        supports_int16: features.shader_int16,
        supports_int8: features.shader_int8,
        supports_async: true,
        unified_memory: false,
        shared_memory: true,
    }
}

/// Index of the first queue family that runs compute work, if any does.
pub open spec fn compute_queue_of(families: Seq<bool>) -> Option<int> {
    crate::device::vulkan::first_compute(families)
}

/// The GPU that the Vulkan code generation backend uses: the first one
/// (in enumeration order) with a queue family that runs compute work,
/// with the index of that family. Each GPU is described by which of its
/// queue families run compute work.
pub fn select_compute_device(devices: &Vec<Vec<bool>>) -> (r: Option<(usize, u32)>)
    requires
        forall|i: int| 0 <= i < devices@.len() ==> (compute_queue_of(#[trigger] devices@[i]@) matches Some(q) ==> q <= u32::MAX),
    ensures
        match r {
            Some((d, q)) => d < devices@.len() && compute_queue_of(devices@[d as int]@) == Some(q as int)
                && forall|e: int| 0 <= e < d ==> compute_queue_of((#[trigger] devices@[e])@) is None,
            None => forall|e: int| 0 <= e < devices@.len() ==> compute_queue_of((#[trigger] devices@[e])@) is None,
        },
{
    let mut d: usize = 0;
    while d < devices.len()
        invariant
            d <= devices@.len(),
            forall|i: int| 0 <= i < devices@.len() ==> (compute_queue_of(#[trigger] devices@[i]@) matches Some(q) ==> q <= u32::MAX),
            forall|e: int| 0 <= e < d ==> compute_queue_of((#[trigger] devices@[e])@) is None,
        decreases devices@.len() - d,
    {
        match crate::device::vulkan::compute_queue_index(&devices[d]) {
            Some(q) => {
                return Some((d, q));
            },
            None => {},
        }
        d = d + 1;
    }
    None
}

} // verus!
