use laminax_runtime::device::cpu::{CpuBackend, CpuDevice, HostInfo};
use laminax_runtime::device::{Backend, Device, DeviceCapabilities, DeviceType};
use laminax_runtime::{enumerate_devices, Runtime, RuntimeError, SupportedRuntime};

fn nothing() -> DeviceCapabilities {
    DeviceCapabilities {
        compute_units: 0,
        max_work_group_size: 0,
        local_memory_size: 0,
        global_memory_size: 0,
        supports_fp64: false,
        supports_fp16: false,
        supports_async: false,
        unified_memory: false,
        shared_memory: false,
    }
}

fn host() -> HostInfo {
    HostInfo { available_parallelism: Some(8), system_memory: 16 * 1024 * 1024 * 1024, supports_fp16: true }
}

#[test]
fn satisfies_is_reflexive_on_a_gpu_profile() {
    let caps = DeviceCapabilities {
        compute_units: 80,
        max_work_group_size: 1024,
        local_memory_size: 48 * 1024,
        global_memory_size: 8 << 30,
        supports_fp64: true,
        supports_fp16: true,
        supports_async: true,
        unified_memory: false,
        shared_memory: true,
    };
    assert!(caps.satisfies(&caps));
    assert!(caps.satisfies(&nothing()));
}

#[test]
fn satisfies_checks_each_size_and_feature() {
    let offered = DeviceCapabilities { compute_units: 4, max_work_group_size: 256, local_memory_size: 1024, global_memory_size: 4096, ..nothing() };
    let mut req = nothing();
    assert!(offered.satisfies(&req));
    req.compute_units = 5;
    assert!(!offered.satisfies(&req));
    req = nothing();
    req.max_work_group_size = 257;
    assert!(!offered.satisfies(&req));
    req = nothing();
    req.local_memory_size = 1025;
    assert!(!offered.satisfies(&req));
    req = nothing();
    req.global_memory_size = 4097;
    assert!(!offered.satisfies(&req));
    for flag in 0..5 {
        let mut r = nothing();
        match flag {
            0 => r.supports_fp64 = true,
            1 => r.supports_fp16 = true,
            2 => r.supports_async = true,
            3 => r.unified_memory = true,
            _ => r.shared_memory = true,
        }
        assert!(!offered.satisfies(&r));
    }
    // offering a feature that is not required is fine
    let rich = DeviceCapabilities { supports_fp64: true, shared_memory: true, ..offered };
    assert!(rich.satisfies(&offered));
    assert!(!offered.satisfies(&rich));
}

#[test]
fn cpu_device_capabilities_follow_the_host() {
    let d = CpuDevice::new(host());
    let c = d.capabilities();
    assert_eq!(c.compute_units, 8);
    assert_eq!(c.max_work_group_size, 1024);
    assert_eq!(c.local_memory_size, 32 * 1024 * 1024);
    assert_eq!(c.global_memory_size, 16 * 1024 * 1024 * 1024);
    assert!(c.supports_fp64 && c.supports_fp16 && !c.supports_async && c.unified_memory && !c.shared_memory);
    assert_eq!(d.name(), "CPU");
    assert!(d.is_available());
    assert_eq!(CpuDevice::device_type(), DeviceType::Cpu);
    let single = CpuDevice::new(HostInfo { available_parallelism: None, system_memory: 1, supports_fp16: false });
    assert_eq!(single.capabilities().compute_units, 1);
    assert!(!single.capabilities().supports_fp16);
}

#[test]
fn cpu_backend_discovers_the_host_only_when_it_meets_requirements() {
    let backend = CpuBackend::new(host());
    assert_eq!(CpuBackend::backend_type(), DeviceType::Cpu);
    assert_eq!(backend.discover_devices(nothing()).len(), 1);
    let too_many = DeviceCapabilities { compute_units: 9, ..nothing() };
    assert_eq!(backend.discover_devices(too_many).len(), 0);
    let async_needed = DeviceCapabilities { supports_async: true, ..nothing() };
    assert!(backend.discover_devices(async_needed).is_empty());
}

#[test]
fn enumerate_and_runtime_expose_the_host_device() {
    let devices = enumerate_devices(host(), nothing()).unwrap();
    assert_eq!(devices.len(), 1);
    match &devices[0] {
        SupportedRuntime::Cpu(d) => assert_eq!(d.capabilities().compute_units, 8),
    }
    let rt = Runtime::new(host(), nothing()).unwrap();
    assert_eq!(rt.devices().len(), 1);
    assert!(rt.host_device().is_some());
    let picky = DeviceCapabilities { shared_memory: true, ..nothing() };
    let rt = Runtime::new(host(), picky).unwrap();
    assert!(rt.devices().is_empty());
    assert!(rt.host_device().is_none());
}

#[test]
fn runtime_error_messages_name_their_kind() {
    assert_eq!(RuntimeError::Device("x".to_string()).message(), "Device error: x");
    assert_eq!(RuntimeError::Memory("m".to_string()).message(), "Memory error: m");
    assert_eq!(RuntimeError::Graph("g".to_string()).message(), "Graph error: g");
    assert_eq!(RuntimeError::Execution("e".to_string()).message(), "Execution error: e");
    assert_eq!(RuntimeError::Compilation("c".to_string()).message(), "Compilation error: c");
}
