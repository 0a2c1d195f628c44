use std::sync::Arc;
use laminax_runtime::device::cpu::{CpuDevice, HostInfo};
use laminax_runtime::device::host_memory::{get_system_memory, meminfo_total_kib, memory_from_sysctl, memory_from_wmic, white_space, MemoryReport};
use laminax_runtime::memory::{BufferProperties, MemoryManager, ShallowClone};
use laminax_runtime::types::{DType, Shape};
use laminax_runtime::RuntimeError;

#[test]
fn shape_counts_elements_with_numina() {
    let s = Shape::from(vec![2, 3, 4]);
    assert_eq!(s.len(), 24);
    assert_eq!(s.ndim(), 3);
    assert_eq!(s.dim(1), 3);
    assert_eq!(Shape::from(vec![7]).len(), 7);
}

#[test]
fn dtype_sizes_follow_numina() {
    assert_eq!(DType::F32.dtype_size_bytes(), 4);
    assert_eq!(DType::F64.dtype_size_bytes(), 8);
    assert_eq!(DType::BF16.dtype_size_bytes(), 2);
    assert_eq!(DType::Complex128.dtype_size_bytes(), 16);
    assert_eq!(DType::QI4.dtype_size_bytes(), 1);
    assert_eq!(DType::Bool.dtype_size_bytes(), 1);
}

const MEMINFO: &str = "MemFree:         1234 kB\nMemTotal:       16316932 kB\nMemAvailable:   9000 kB\n";

#[test]
fn meminfo_total_is_read_from_its_line() {
    assert_eq!(meminfo_total_kib(MEMINFO), Some(16316932));
    assert_eq!(get_system_memory(&MemoryReport::ProcMeminfo(MEMINFO.to_string())), 16316932 * 1024);
}

#[test]
fn meminfo_lines_that_do_not_parse_are_skipped() {
    let text = "MemTotal: lots kB\r\nMemTotal:\t+42 kB\r\n";
    assert_eq!(meminfo_total_kib(text), Some(42));
    assert_eq!(meminfo_total_kib("MemTotal:"), None);
    assert_eq!(meminfo_total_kib("MemTotal: -5 kB"), None);
    assert_eq!(meminfo_total_kib("MemTotal: 99999999999999999999999 kB"), None);
    assert_eq!(meminfo_total_kib(" MemTotal: 5 kB"), None);
    assert_eq!(meminfo_total_kib("MemTotal:\u{3000}77\u{a0}kB"), Some(77));
    assert_eq!(meminfo_total_kib(""), None);
}

#[test]
fn system_memory_falls_back_to_eight_gib() {
    assert_eq!(get_system_memory(&MemoryReport::Unavailable), 8 * 1024 * 1024 * 1024);
    assert_eq!(get_system_memory(&MemoryReport::ProcMeminfo("SwapTotal: 1 kB\n".to_string())), 8 * 1024 * 1024 * 1024);
    assert_eq!(get_system_memory(&MemoryReport::Sysctl("oops".to_string())), 8 * 1024 * 1024 * 1024);
}

#[test]
fn sysctl_and_wmic_outputs_give_bytes() {
    assert_eq!(memory_from_sysctl("17179869184\n"), Some(17179869184));
    assert_eq!(memory_from_sysctl("  42  "), Some(42));
    assert_eq!(memory_from_sysctl("4 2"), None);
    assert_eq!(memory_from_sysctl(""), None);
    let wmic = "TotalPhysicalMemory  \r\n34359738368  \r\n\r\n";
    assert_eq!(memory_from_wmic(wmic), Some(34359738368));
    assert_eq!(memory_from_wmic("123\n"), None);
    assert_eq!(memory_from_wmic("123"), None);
    assert_eq!(memory_from_wmic("Header\n\nx\n 7\n"), Some(7));
    assert_eq!(get_system_memory(&MemoryReport::Wmic(wmic.to_string())), 34359738368);
    assert_eq!(get_system_memory(&MemoryReport::Sysctl("1024".to_string())), 1024);
}

#[test]
fn white_space_is_unicode_white_space() {
    for c in [' ', '\t', '\n', '\r', '\u{b}', '\u{c}', '\u{85}', '\u{a0}', '\u{2009}', '\u{3000}'] {
        assert!(white_space(c));
        assert!(c.is_whitespace());
    }
    for c in ['a', '0', '_', '\u{200b}'] {
        assert!(!white_space(c));
        assert!(!c.is_whitespace());
    }
}

fn cpu() -> Arc<CpuDevice> {
    Arc::new(CpuDevice::new(HostInfo { available_parallelism: Some(2), system_memory: 1 << 20, supports_fp16: false }))
}

#[test]
fn cpu_allocation_is_zeroed_host_memory_of_the_tensor_size() {
    let dev = cpu();
    let b = dev.clone().allocate(Shape::from(vec![3, 5]), DType::I16, BufferProperties::default()).unwrap();
    assert_eq!(b.data.len(), 30);
    assert!(b.data.iter().all(|&x| x == 0));
    assert_eq!(b.shape.dims(), &vec![3, 5]);
    assert_eq!(b.dtype, DType::I16);
    let b2 = dev.clone().allocate(Shape::from(vec![1]), DType::U8, BufferProperties::default()).unwrap();
    assert_ne!(b.id, b2.id);
    assert!(dev.clone().deallocate(&b).is_ok());
    assert!(dev.clone().copy(&b, &b2).is_ok());
    assert!(!dev.require_staging());
    let msg = "This device does not require staging records".to_string();
    assert_eq!(dev.stage(vec![1], &b), Err(RuntimeError::Device(msg.clone())));
    assert_eq!(dev.flush(&mut ()), Err(RuntimeError::Device(msg)));
}

fn shallow<T: ShallowClone>(t: &T) -> T {
    t.clone()
}

#[test]
fn buffers_clone_shallowly() {
    let dev = cpu();
    let b = dev.allocate(Shape::from(vec![2]), DType::F32, BufferProperties::default()).unwrap();
    let c = shallow(&b);
    assert!(Arc::ptr_eq(&b.data, &c.data));
    assert_eq!(c.id, b.id);
}
