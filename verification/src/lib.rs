//! Runtime support for heterogeneous tensor computation: device
//! descriptions and their capability matching, host-memory buffers,
//! computational graphs with execution planning, and the checks that decide
//! whether a physical GPU can serve a set of requirements.

pub mod codegen;
pub mod device;
pub mod graph;
pub mod memory;
pub mod types;

use vstd::prelude::*;
use std::sync::Arc;
use crate::device::cpu::{host_capabilities, CpuDevice, HostInfo};

pub use crate::device::{
    cpu, devices_meeting, enumerate_devices, Backend, Device, DeviceCapabilities, DeviceType, TargetOs,
};
pub use crate::graph::{ComputationGraph, Edge, ExecutionPlan, Node};
pub use crate::memory::{Buffer, MemoryManager};

verus! {
/// Runtime error types.
#[derive(Debug, PartialEq, Eq)]
pub enum RuntimeError {
    /// A device failed internally.
    Device(String),
    /// Memory failure such as double free or out of memory.
    Memory(String),
    /// Invalid graph topology.
    Graph(String),
    /// The requested operation was illegal.
    Execution(String),
    /// Compilation failed.
    Compilation(String),
}

/// Results of runtime operations.
pub type Result<T> = std::result::Result<T, RuntimeError>;


impl RuntimeError {
    /// The message that describes this error.
    pub open spec fn spec_message(&self) -> Seq<char> {
        match self {
            RuntimeError::Device(msg) => "Device error: "@ + msg@,
            RuntimeError::Memory(msg) => "Memory error: "@ + msg@,
            RuntimeError::Graph(msg) => "Graph error: "@ + msg@,
            RuntimeError::Execution(msg) => "Execution error: "@ + msg@,
            RuntimeError::Compilation(msg) => "Compilation error: "@ + msg@,
        }
    }

    /// The message that describes this error, such as
    /// `Device error: <detail>`.
    pub fn message(&self) -> (s: String)
        ensures
            s@ == self.spec_message(),
    {
        match self {
            RuntimeError::Device(msg) => String::from_str("Device error: ").concat(msg.as_str()),
            RuntimeError::Memory(msg) => String::from_str("Memory error: ").concat(msg.as_str()),
            RuntimeError::Graph(msg) => String::from_str("Graph error: ").concat(msg.as_str()),
            RuntimeError::Execution(msg) => String::from_str("Execution error: ").concat(msg.as_str()),
            RuntimeError::Compilation(msg) => String::from_str("Compilation error: ").concat(msg.as_str()),
        }
    }
}

/// A device that the runtime can execute on.
pub enum SupportedRuntime {
    Cpu(Arc<CpuDevice>),
}

impl From<Arc<CpuDevice>> for SupportedRuntime {
    fn from(value: Arc<CpuDevice>) -> (r: Self) {
        SupportedRuntime::Cpu(value)
    }
}

impl vstd::std_specs::convert::FromSpecImpl<Arc<CpuDevice>> for SupportedRuntime {
    open spec fn obeys_from_spec() -> bool {
        true
    }

    open spec fn from_spec(v: Arc<CpuDevice>) -> Self {
        SupportedRuntime::Cpu(v)
    }
}

/// Every device that the host offers for a requirement meets it.
pub proof fn lemma_offered_devices_meet(host: HostInfo, requirements: DeviceCapabilities, devices: Seq<SupportedRuntime>)
    requires
        devices_meeting(host, requirements, devices),
    ensures
        forall|i: int| 0 <= i < devices.len() ==> ((#[trigger] devices[i]) matches SupportedRuntime::Cpu(d)
            && d.spec_capabilities().meets(requirements)),
{
}

/// A runtime has a host device exactly when the host meets the
/// requirements it was created with.
pub proof fn lemma_host_device_iff_requirements_met(host: HostInfo, requirements: DeviceCapabilities, devices: Seq<SupportedRuntime>)
    requires
        devices_meeting(host, requirements, devices),
    ensures
        (exists|i: int| 0 <= i < devices.len() && devices[i] is Cpu) <==> host_capabilities(host).meets(requirements),
{
    if host_capabilities(host).meets(requirements) {
        assert(devices[0] is Cpu);
    }
}

/// Main runtime context: the devices it can execute on.
pub struct Runtime {
    supported: Vec<SupportedRuntime>,
}

impl View for Runtime {
    type V = Seq<SupportedRuntime>;

    closed spec fn view(&self) -> Seq<SupportedRuntime> {
        self.supported@
    }
}

impl Runtime {
    /// A runtime over the devices of the host that meet `requirements`.
    pub fn new(host: HostInfo, requirements: DeviceCapabilities) -> (r: Result<Self>)
        ensures
            r matches Ok(rt) && devices_meeting(host, requirements, rt@),
    {
        let devices = enumerate_devices(host, requirements)?;
        Ok(Runtime { supported: devices })
    }

    /// All available devices.
    pub fn devices(&self) -> (d: &[SupportedRuntime])
        ensures
            d@ == self@,
    {
        self.supported.as_slice()
    }

    /// The first CPU device, if there is one.
    pub fn host_device(&self) -> (d: Option<&Arc<CpuDevice>>)
        ensures
            match d {
                Some(dev) => exists|i: int| 0 <= i < self@.len() && self@[i] == SupportedRuntime::Cpu(*dev)
                    && forall|j: int| 0 <= j < i ==> !(self@[j] is Cpu),
                None => forall|j: int| 0 <= j < self@.len() ==> !(self@[j] is Cpu),
            },
    {
        if self.supported.len() == 0 {
            return None;
        }
        match &self.supported[0] {
            SupportedRuntime::Cpu(d) => {
                assert(self@[0] == SupportedRuntime::Cpu(*d));
                Some(d)
            },
        }
    }
}

} // verus!
