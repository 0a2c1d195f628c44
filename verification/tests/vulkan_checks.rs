use laminax_runtime::codegen::{select_compute_device, vulkan_capabilities, EnabledFeatures};
use laminax_runtime::device::vulkan::{
    instance_setup, is_at_least, ApiVersion, InstanceSetup, buffer_usage, check_flush, check_stage, buffer_element_type, required_memory_flags, verify_device, verify_devices, DeviceRejection,
    ElementType, MemoryTypeInfo, PhysicalDeviceInfo, VerificationReport,
};
use laminax_runtime::device::{DeviceCapabilities, TargetOs};
use laminax_runtime::memory::BufferProperties;
use laminax_runtime::types::DType;
use laminax_runtime::RuntimeError;

fn requirement() -> DeviceCapabilities {
    DeviceCapabilities {
        compute_units: 0,
        max_work_group_size: 0,
        local_memory_size: 0,
        global_memory_size: 0,
        supports_fp64: true,
        supports_fp16: false,
        supports_async: false,
        unified_memory: false,
        shared_memory: false,
    }
}

fn gpu() -> PhysicalDeviceInfo {
    PhysicalDeviceInfo {
        queue_family_compute: vec![false, true, true],
        max_compute_work_group_invocations: 1024,
        max_work_group_size: Some([1024, 1024, 64]),
        max_compute_shared_memory_size: 49152,
        max_memory_allocation_size: None,
        memory_heap_sizes: vec![8 << 30, 256 << 20],
        memory_types: vec![
            MemoryTypeInfo { host_visible: false, device_local: true },
            MemoryTypeInfo { host_visible: true, device_local: false },
        ],
        shader_float64: true,
        shader_float16: false,
    }
}

#[test]
fn a_gpu_with_fp64_serves_the_fp64_requirement() {
    let r = verify_device(&gpu(), requirement()).unwrap();
    assert_eq!(r, VerificationReport { compute_queue_index: 1, needs_staging: true });
}

#[test]
fn each_failed_requirement_is_reported() {
    let mut g = gpu();
    g.queue_family_compute = vec![false];
    assert_eq!(verify_device(&g, requirement()), Err(DeviceRejection::NoComputeQueue));

    let req = DeviceCapabilities { compute_units: 2048, max_work_group_size: 7, ..requirement() };
    assert_eq!(verify_device(&gpu(), req), Err(DeviceRejection::TooFewInvocations { supported: 1024, required: 2048 }));

    let mut g = gpu();
    g.max_work_group_size = Some([4, 4, 4]);
    let req = DeviceCapabilities { max_work_group_size: 65, ..requirement() };
    assert_eq!(verify_device(&g, req), Err(DeviceRejection::WorkGroupTooSmall { supported: [4, 4, 4], required: 65 }));

    let req = DeviceCapabilities { local_memory_size: 49153, ..requirement() };
    assert_eq!(verify_device(&gpu(), req), Err(DeviceRejection::SharedMemoryTooSmall { supported: 49152, required: 49153 }));

    let total = (8usize << 30) + (256 << 20);
    let req = DeviceCapabilities { global_memory_size: total + 1, ..requirement() };
    assert_eq!(verify_device(&gpu(), req), Err(DeviceRejection::NotEnoughMemory { reported: total, required: total + 1 }));
    let mut g = gpu();
    g.max_memory_allocation_size = Some(1 << 30);
    let req = DeviceCapabilities { global_memory_size: 2 << 30, ..requirement() };
    assert_eq!(verify_device(&g, req), Err(DeviceRejection::NotEnoughMemory { reported: 1 << 30, required: 2 << 30 }));

    let mut g = gpu();
    g.shader_float64 = false;
    assert_eq!(verify_device(&g, requirement()), Err(DeviceRejection::NoFloat64));
    let req = DeviceCapabilities { supports_fp16: true, ..requirement() };
    assert_eq!(verify_device(&gpu(), req), Err(DeviceRejection::NoFloat16));

    // gpu() has host-visible memory outside the device; g's host-visible
    // memory is all on the device
    let mut g = gpu();
    g.memory_types = vec![MemoryTypeInfo { host_visible: true, device_local: true }];
    let req = DeviceCapabilities { unified_memory: true, ..requirement() };
    assert_eq!(verify_device(&gpu(), req), Err(DeviceRejection::NoUnifiedMemory));
    assert_eq!(verify_device(&g, req), Ok(VerificationReport { compute_queue_index: 1, needs_staging: false }));
    let req = DeviceCapabilities { shared_memory: true, ..requirement() };
    assert_eq!(verify_device(&g, req), Err(DeviceRejection::NoHostSharedMemory));
    assert_eq!(verify_device(&gpu(), req), Ok(VerificationReport { compute_queue_index: 1, needs_staging: true }));
}

#[test]
fn device_only_memory_passes_every_memory_requirement() {
    let mut g = gpu();
    g.memory_types = vec![MemoryTypeInfo { host_visible: false, device_local: true }];
    g.shader_float16 = true;
    let req = DeviceCapabilities { supports_fp16: true, unified_memory: true, shared_memory: true, ..requirement() };
    assert_eq!(verify_device(&g, req), Ok(VerificationReport { compute_queue_index: 1, needs_staging: true }));
}

#[test]
fn verify_devices_answers_in_order() {
    let mut bad = gpu();
    bad.queue_family_compute = vec![];
    let r = verify_devices(&vec![bad, gpu()], requirement());
    assert_eq!(r.len(), 2);
    assert_eq!(r[0], Err(DeviceRejection::NoComputeQueue));
    assert!(r[1].is_ok());
}

#[test]
fn element_types_of_buffer_types() {
    assert_eq!(buffer_element_type(DType::F32), Ok(ElementType::F32));
    assert_eq!(buffer_element_type(DType::F64), Ok(ElementType::F64));
    assert_eq!(buffer_element_type(DType::Bool), Ok(ElementType::U8));
    assert_eq!(buffer_element_type(DType::QU8), Ok(ElementType::U8));
    assert_eq!(buffer_element_type(DType::BF16), Ok(ElementType::BF16));
    assert_eq!(buffer_element_type(DType::QI4), Err(RuntimeError::Device("4 bit types are not supported".to_string())));
    assert_eq!(buffer_element_type(DType::Complex64), Err(RuntimeError::Device("complex types are not supported".to_string())));
    assert_eq!(buffer_element_type(DType::F8E5M2), Err(RuntimeError::Device("8 bit float types are not supported".to_string())));
}

#[test]
fn buffer_usage_and_memory_follow_requested_properties() {
    let p = BufferProperties { copy_source: Some(true), copy_destination: Some(false), device_local: None, device_write: Some(true), host_visible: Some(true) };
    let u = buffer_usage(p);
    assert!(u.transfer_src && !u.transfer_dst && u.storage_buffer);
    let m = required_memory_flags(p);
    assert!(!m.device_local && m.host_visible);
    let none = buffer_usage(BufferProperties::default());
    assert!(!none.transfer_src && !none.transfer_dst && !none.storage_buffer);
}

#[test]
fn eight_bit_data_is_refused_for_staging() {
    let only8 = Err(RuntimeError::Device("Only 8 bit data types are supported for now".to_string()));
    assert_eq!(check_stage(true, DType::U8, &[1, 2]), only8);
    assert_eq!(check_stage(true, DType::I8, &[]), only8);
    assert_eq!(check_stage(true, DType::QU8, &[7]), only8);
    assert_eq!(check_stage(true, DType::F32, &[]), Ok(()));
    assert_eq!(check_stage(false, DType::U8, &[1]), Err(RuntimeError::Device("This device does not require staging records".to_string())));
}

#[test]
fn codegen_backend_picks_first_gpu_with_compute_queue() {
    assert_eq!(select_compute_device(&vec![vec![false], vec![false, false, true], vec![true]]), Some((1, 2)));
    assert_eq!(select_compute_device(&vec![vec![], vec![false]]), None);
    let c = vulkan_capabilities(EnabledFeatures { shader_float64: true, shader_float16: false, shader_int64: true, shader_int16: false, shader_int8: true });
    assert!(c.supports_fp64 && !c.supports_fp16 && c.supports_int64 && !c.supports_int16 && c.supports_int8);
    assert!(c.supports_async && !c.unified_memory && c.shared_memory);
}

#[test]
fn flushing_needs_staging_records() {
    assert_eq!(check_flush(true), Ok(()));
    assert_eq!(check_flush(false), Err(RuntimeError::Device("This device does not require staging records".to_string())));
}

#[test]
fn api_versions_compare_by_major_minor_patch() {
    let min = ApiVersion { major: 1, minor: 3, patch: 216 };
    assert!(is_at_least(ApiVersion { major: 1, minor: 3, patch: 216 }, min));
    assert!(is_at_least(ApiVersion { major: 1, minor: 4, patch: 0 }, min));
    assert!(is_at_least(ApiVersion { major: 2, minor: 0, patch: 0 }, min));
    assert!(!is_at_least(ApiVersion { major: 1, minor: 3, patch: 215 }, min));
    assert!(!is_at_least(ApiVersion { major: 1, minor: 2, patch: 300 }, min));
    assert!(!is_at_least(ApiVersion { major: 0, minor: 9, patch: 999 }, min));
}

#[test]
fn instance_setup_follows_build_and_platform() {
    let recent = ApiVersion { major: 1, minor: 3, patch: 280 };
    let old = ApiVersion { major: 1, minor: 2, patch: 0 };
    assert_eq!(
        instance_setup(true, true, TargetOs::MacOs, recent),
        InstanceSetup { debug_utils: true, validation_layer: true, portability: true }
    );
    assert_eq!(
        instance_setup(true, false, TargetOs::MacOs, old),
        InstanceSetup { debug_utils: true, validation_layer: false, portability: false }
    );
    assert_eq!(
        instance_setup(false, true, TargetOs::Linux, recent),
        InstanceSetup { debug_utils: false, validation_layer: false, portability: false }
    );
}
