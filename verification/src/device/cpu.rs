//! The host CPU as a compute device.

use vstd::prelude::*;
use std::sync::atomic::AtomicUsize;
use std::sync::Arc;
use crate::device::{Backend, Device, DeviceCapabilities, DeviceType};
use crate::memory::{Buffer, BufferProperties, DeviceBuffer, MemoryManager};
use crate::types::{DType, Shape};
use crate::RuntimeError;

verus! {

/// What the host reports about itself: the parallelism the OS makes
/// available (if it reports any), the size of system memory in bytes, and
/// whether the target architecture computes in half precision.
#[derive(Debug, Clone, Copy, PartialEq, Eq, Structural)]
pub struct HostInfo {
    pub available_parallelism: Option<usize>,
    pub system_memory: usize,
    pub supports_fp16: bool,
}

/// CPU device implementation.
pub struct CpuDevice {
    capabilities: DeviceCapabilities,
    next_buffer_id: AtomicUsize,
}

/// Backend that discovers the host CPU.
pub struct CpuBackend {
    pub host: HostInfo,
}

/// Capabilities of the host CPU: one compute unit per available thread
/// (one when the OS reports none), work groups of up to 1024, 32 MiB of
/// cache-like local memory, all of system memory, double precision, half
/// precision where the architecture has it, synchronous operation, unified
/// memory and no special shared memory.
pub open spec fn host_capabilities(host: HostInfo) -> DeviceCapabilities {
    DeviceCapabilities {
        compute_units: match host.available_parallelism {
            Some(n) => n,
            None => 1,
        },
        max_work_group_size: 1024,
        local_memory_size: (32 * 1024 * 1024) as usize,
        global_memory_size: host.system_memory,
        supports_fp64: true,
        supports_fp16: host.supports_fp16,
        supports_async: false,
        unified_memory: true,
        shared_memory: false,
    }
}

/// Message of the error that devices without staging give.
pub open spec fn no_staging_message() -> Seq<char> {
    "This device does not require staging records"@
}

impl CpuDevice {
    /// What the device offers.
    pub closed spec fn spec_capabilities(&self) -> DeviceCapabilities {
        self.capabilities
    }

    /// The host CPU as described by `host`.
    pub fn new(host: HostInfo) -> (d: Self)
        ensures
            d.spec_capabilities() == host_capabilities(host),
    {
        let compute_units = match host.available_parallelism {
            Some(n) => n,
            None => 1,
        };
        let capabilities = DeviceCapabilities {
            compute_units,
            max_work_group_size: 1024,
            local_memory_size: 32 * 1024 * 1024,
            global_memory_size: host.system_memory,
            supports_fp64: true,
            supports_fp16: host.supports_fp16,
            supports_async: false,
            unified_memory: true,
            shared_memory: false,
        };
        CpuDevice { capabilities, next_buffer_id: AtomicUsize::new(0) }
    }
}

impl CpuBackend {
    /// Backend for the host described by `host`.
    pub fn new(host: HostInfo) -> (b: Self)
        ensures
            b.host == host,
    {
        CpuBackend { host }
    }
}

impl Backend for CpuBackend {
    type Device = CpuDevice;

    fn backend_type() -> (t: DeviceType)
        ensures
            t == DeviceType::Cpu,
    {
        DeviceType::Cpu
    }

    /// The host CPU, when it meets the requirements; nothing otherwise.
    fn discover_devices(&self, required_capabilities: DeviceCapabilities) -> (r: Vec<Arc<CpuDevice>>)
        ensures
            host_capabilities(self.host).meets(required_capabilities) ==> r@.len() == 1
                && (*r@[0]).spec_capabilities() == host_capabilities(self.host),
            !host_capabilities(self.host).meets(required_capabilities) ==> r@.len() == 0,
    {
        let cpu = CpuDevice::new(self.host);
        if !cpu.capabilities.satisfies(&required_capabilities) {
            Vec::new()
        } else {
            let mut v: Vec<Arc<CpuDevice>> = Vec::new();
            v.push(Arc::new(cpu));
            v
        }
    }
}

impl Device for CpuDevice {
    type Backend = CpuBackend;

    fn device_type() -> (t: DeviceType)
        ensures
            t == DeviceType::Cpu,
    {
        DeviceType::Cpu
    }

    fn capabilities(&self) -> (c: DeviceCapabilities)
        ensures
            c == self.spec_capabilities(),
    {
        self.capabilities
    }

    fn is_available(&self) -> (r: bool)
        ensures
            r,
    {
        true
    }

    fn name(&self) -> (n: &str)
        ensures
            n@ == "CPU"@,
    {
        "CPU"
    }
}

impl MemoryManager for CpuDevice {
    type Device = CpuDevice;
    type Storage = Vec<u8>;
    type FlushTarget = ();

    /// Host memory of the tensor's size in bytes, filled with zeros.
    fn allocate(self: Arc<Self>, shape: Shape, dtype: DType, properties: BufferProperties) -> (r: crate::Result<Buffer<Vec<u8>>>)
        ensures
            r matches Ok(b) && b.data@.len() == shape.num_elements() * dtype.size_bytes()
                && forall|i: int| 0 <= i < b.data@.len() ==> b.data@[i] == 0u8,
            r matches Ok(b) && *b.device == *self,
    {
        let id = self.next_buffer_id.fetch_add(1, std::sync::atomic::Ordering::SeqCst);
        proof {
            shape.lemma_product_le_bytes(dtype);
        }
        let size_bytes = shape.len() * dtype.dtype_size_bytes();
        let data = Arc::new(vec![0u8; size_bytes]);
        let device = self.clone();
        Ok(Buffer { id, shape, dtype, device, data })
    }

    fn deallocate(self: Arc<Self>, buffer: &Buffer<Vec<u8>>) -> (r: crate::Result<()>)
        ensures
            r is Ok,
    {
        Ok(())
    }

    fn copy(self: Arc<Self>, src: &Buffer<Vec<u8>>, dst: &Buffer<Vec<u8>>) -> (r: crate::Result<()>)
        ensures
            r is Ok,
    {
        Ok(())
    }

    fn require_staging(&self) -> (r: bool)
        ensures
            !r,
    {
        false
    }

    fn stage(&self, data: Vec<u8>, target: &Buffer<Vec<u8>>) -> (r: crate::Result<()>)
        ensures
            r matches Err(RuntimeError::Device(msg)) && msg@ == no_staging_message(),
    {
        Err(RuntimeError::Device(String::from_str("This device does not require staging records")))
    }

    fn flush(&self, flush_to: &mut ()) -> (r: crate::Result<()>)
        ensures
            r matches Err(RuntimeError::Device(msg)) && msg@ == no_staging_message(),
    {
        Err(RuntimeError::Device(String::from_str("This device does not require staging records")))
    }
}

impl DeviceBuffer for Vec<u8> {
    type Backend = CpuBackend;
}

} // verus!
