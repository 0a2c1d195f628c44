//! Device abstraction layer: device kinds, capability descriptions and the
//! rule that decides whether a device meets a set of requirements.

use vstd::prelude::*;
use std::sync::Arc;
use crate::device::cpu::{host_capabilities, CpuBackend, HostInfo};
use crate::memory::MemoryManager;
use crate::{RuntimeError, SupportedRuntime};

pub mod array_bytes;
pub mod cpu;
pub mod host_memory;
pub mod cuda;
pub mod metal;
pub mod rocm;
pub mod tpu;
pub mod coral;
pub mod vulkan;

verus! {

/// `n` GiB in bytes.
pub open spec fn gib(n: nat) -> nat {
    n * 1024 * 1024 * 1024
}

/// `n` GiB in bytes, as a `usize` (exact on the 64-bit targets that the
/// device descriptions are written for).
pub fn gib_bytes(n: u64) -> (b: usize)
    requires
        n <= 16,
    ensures
        b == gib(n as nat) as usize,
{
    let bytes: u64 = n * 1024 * 1024 * 1024;
    #[verifier::truncate]
    (bytes as usize)
}

/// Operating systems a host may run.
#[derive(Debug, Clone, Copy, PartialEq, Eq, Structural)]
pub enum TargetOs {
    Linux,
    Windows,
    MacOs,
    Other,
}

/// Kinds of compute devices.
#[derive(Debug, Clone, Copy, PartialEq, Eq, Structural)]
pub enum DeviceType {
    Cpu,
    Cuda,
    Hip,
    Metal,
    Vulkan,
    Rocm,
    Tpu,
    Coral,
    Custom,
}

/// What a device offers, or what a computation requires of a device.
#[derive(Debug, Clone, Copy, PartialEq, Eq, Structural)]
pub struct DeviceCapabilities {
    pub compute_units: usize,
    pub max_work_group_size: usize,
    pub local_memory_size: usize,
    pub global_memory_size: usize,
    pub supports_fp64: bool,
    pub supports_fp16: bool,
    pub supports_async: bool,
    pub unified_memory: bool,
    pub shared_memory: bool,
}

impl DeviceCapabilities {
    /// `self` meets `requirement`: every size is at least the required one,
    /// and every feature that is required is offered.
    pub open spec fn meets(self, requirement: Self) -> bool {
        &&& requirement.compute_units <= self.compute_units
        &&& requirement.max_work_group_size <= self.max_work_group_size
        &&& requirement.local_memory_size <= self.local_memory_size
        &&& requirement.global_memory_size <= self.global_memory_size
        &&& (requirement.supports_fp64 ==> self.supports_fp64)
        &&& (requirement.supports_fp16 ==> self.supports_fp16)
        &&& (requirement.supports_async ==> self.supports_async)
        &&& (requirement.unified_memory ==> self.unified_memory)
        &&& (requirement.shared_memory ==> self.shared_memory)
    }

    /// The requirement that every device meets: no sizes, no features.
    pub open spec fn nothing_required() -> Self {
        DeviceCapabilities {
            compute_units: 0,
            max_work_group_size: 0,
            local_memory_size: 0,
            global_memory_size: 0,
            supports_fp64: false,
            supports_fp16: false,
            supports_async: false,
            unified_memory: false,
            shared_memory: false,
        }
    }

    /// Whether these capabilities meet `requirement`.
    pub fn satisfies(&self, requirement: &Self) -> (r: bool)
        ensures
            r == self.meets(*requirement),
    {
        if self.compute_units < requirement.compute_units {
            return false;
        }
        if self.max_work_group_size < requirement.max_work_group_size {
            return false;
        }
        if self.local_memory_size < requirement.local_memory_size {
            return false;
        }
        if self.global_memory_size < requirement.global_memory_size {
            return false;
        }
        if requirement.supports_fp64 && !self.supports_fp64 {
            return false;
        }
        if requirement.supports_fp16 && !self.supports_fp16 {
            return false;
        }
        if requirement.supports_async && !self.supports_async {
            return false;
        }
        if requirement.unified_memory && !self.unified_memory {
            return false;
        }
        if requirement.shared_memory && !self.shared_memory {
            return false;
        }
        true
    }
}

/// Every set of capabilities meets itself as a requirement.
pub proof fn lemma_satisfies_reflexive(caps: DeviceCapabilities)
    ensures
        caps.meets(caps),
{
}

/// Meeting requirements is transitive: a device that meets `b`, where `b`
/// meets `c`, meets `c`.
pub proof fn lemma_satisfies_transitive(a: DeviceCapabilities, b: DeviceCapabilities, c: DeviceCapabilities)
    requires
        a.meets(b),
        b.meets(c),
    ensures
        a.meets(c),
{
}

/// Two capability sets that meet each other are the same capabilities.
pub proof fn lemma_satisfies_antisymmetric(a: DeviceCapabilities, b: DeviceCapabilities)
    requires
        a.meets(b),
        b.meets(a),
    ensures
        a == b,
{
}

/// Every device meets the empty requirement.
pub proof fn lemma_nothing_required_is_met(caps: DeviceCapabilities)
    ensures
        caps.meets(DeviceCapabilities::nothing_required()),
{
}

/// Offering more never loses a requirement: a device whose every size is
/// at least that of `caps`, and which has every feature that `caps` has,
/// meets every requirement that `caps` meets.
pub proof fn lemma_meets_monotone(caps: DeviceCapabilities, more: DeviceCapabilities, req: DeviceCapabilities)
    requires
        caps.meets(req),
        caps.compute_units <= more.compute_units,
        caps.max_work_group_size <= more.max_work_group_size,
        caps.local_memory_size <= more.local_memory_size,
        caps.global_memory_size <= more.global_memory_size,
        caps.supports_fp64 ==> more.supports_fp64,
        caps.supports_fp16 ==> more.supports_fp16,
        caps.supports_async ==> more.supports_async,
        caps.unified_memory ==> more.unified_memory,
        caps.shared_memory ==> more.shared_memory,
    ensures
        more.meets(req),
{
}

/// Asking less never fails a device: a device that meets `req` meets every
/// requirement that asks, in every size and feature, for no more than
/// `req` does.
pub proof fn lemma_meets_weaker_requirement(caps: DeviceCapabilities, req: DeviceCapabilities, less: DeviceCapabilities)
    requires
        caps.meets(req),
        less.compute_units <= req.compute_units,
        less.max_work_group_size <= req.max_work_group_size,
        less.local_memory_size <= req.local_memory_size,
        less.global_memory_size <= req.global_memory_size,
        less.supports_fp64 ==> req.supports_fp64,
        less.supports_fp16 ==> req.supports_fp16,
        less.supports_async ==> req.supports_async,
        less.unified_memory ==> req.unified_memory,
        less.shared_memory ==> req.shared_memory,
    ensures
        caps.meets(less),
{
}

/// A device fails a requirement only by offering less: when the device
/// falls short of a requirement, some required size exceeds what it offers
/// or some required feature is missing.
pub proof fn lemma_unmet_has_a_shortfall(caps: DeviceCapabilities, req: DeviceCapabilities)
    requires
        !caps.meets(req),
    ensures
        caps.compute_units < req.compute_units || caps.max_work_group_size < req.max_work_group_size
            || caps.local_memory_size < req.local_memory_size || caps.global_memory_size
            < req.global_memory_size || (req.supports_fp64 && !caps.supports_fp64) || (req.supports_fp16
            && !caps.supports_fp16) || (req.supports_async && !caps.supports_async) || (req.unified_memory
            && !caps.unified_memory) || (req.shared_memory && !caps.shared_memory),
{
}


/// A family of devices that can be discovered on the host.
pub trait Backend {
    /// The devices this backend discovers.
    type Device;

    /// The kind of device this backend drives.
    fn backend_type() -> DeviceType;

    /// The devices of this backend that meet `required_capabilities`.
    fn discover_devices(&self, required_capabilities: DeviceCapabilities) -> Vec<Arc<Self::Device>>;
}

/// Abstract device interface.
pub trait Device: Send + Sync + MemoryManager {
    type Backend: Backend;

    /// The kind of device.
    fn device_type() -> DeviceType;

    /// What the device offers.
    fn capabilities(&self) -> DeviceCapabilities;

    /// Whether the device can be used.
    fn is_available(&self) -> bool;

    /// The device's name.
    fn name(&self) -> &str;
}

/// The devices of the host that meet `requirements`: the host CPU when it
/// meets them, and nothing else.
pub open spec fn devices_meeting(host: HostInfo, requirements: DeviceCapabilities, devices: Seq<SupportedRuntime>) -> bool {
    if host_capabilities(host).meets(requirements) {
        &&& devices.len() == 1
        &&& devices[0] matches SupportedRuntime::Cpu(d) && d.spec_capabilities() == host_capabilities(host)
    } else {
        devices.len() == 0
    }
}

/// All available devices of the host described by `host` that meet
/// `requirements`.
pub fn enumerate_devices(host: HostInfo, requirements: DeviceCapabilities) -> (r: Result<Vec<SupportedRuntime>, RuntimeError>)
    ensures
        r matches Ok(devices) && devices_meeting(host, requirements, devices@),
{
    let mut devices: Vec<SupportedRuntime> = Vec::new();
    let cpus = CpuBackend::new(host).discover_devices(requirements);
    let mut i: usize = 0;
    while i < cpus.len()
        invariant
            i <= cpus@.len(),
            devices@.len() == i,
            forall|j: int| 0 <= j < i ==> (#[trigger] devices@[j]) == SupportedRuntime::Cpu(cpus@[j]),
        decreases cpus@.len() - i,
    {
        devices.push(SupportedRuntime::from(cpus[i].clone()));
        i = i + 1;
    }
    Ok(devices)
}

} // verus!
