use std::sync::Arc;
use laminax_runtime::device::coral::{CoralArray, CoralDevice};
use laminax_runtime::device::cuda::{CudaArray, CudaDevice};
use laminax_runtime::device::metal::{MetalArray, MetalDevice};
use laminax_runtime::device::rocm::{RocmArray, RocmDevice};
use laminax_runtime::device::tpu::{TpuArray, TpuDevice, TpuShardingType};
use laminax_runtime::device::{DeviceType, TargetOs};
use laminax_runtime::types::{DType, Shape};

const GIB: usize = 1024 * 1024 * 1024;

#[test]
fn cuda_device_profile() {
    let d = CudaDevice::new(3).unwrap();
    assert_eq!(d.device_id(), 3);
    assert_eq!(d.device_type(), DeviceType::Cuda);
    let c = d.capabilities();
    assert_eq!((c.compute_units, c.max_work_group_size, c.local_memory_size, c.global_memory_size), (80, 1024, 48 * 1024, 8 * GIB));
    assert!(c.supports_fp64 && c.supports_fp16 && c.supports_async && !c.unified_memory && c.shared_memory);
    assert!(d.is_available(TargetOs::Linux));
    assert!(d.is_available(TargetOs::Windows));
    assert!(!d.is_available(TargetOs::MacOs));
}

#[test]
fn rocm_device_profile() {
    let d = RocmDevice::new(-1).unwrap();
    assert_eq!(d.device_id(), -1);
    assert_eq!(d.device_type(), DeviceType::Rocm);
    let c = d.capabilities();
    assert_eq!((c.compute_units, c.local_memory_size, c.global_memory_size), (60, 64 * 1024, 16 * GIB));
    assert!(d.is_available(TargetOs::Linux));
    assert!(!d.is_available(TargetOs::Windows));
}

#[test]
fn metal_device_memory_scales_with_threads() {
    let d = MetalDevice::new(0, Some(4)).unwrap();
    assert_eq!(d.capabilities().global_memory_size, 32 * GIB);
    assert_eq!(MetalDevice::new(1, None).unwrap().capabilities().global_memory_size, 8 * GIB);
    assert!(!d.capabilities().supports_fp64);
    assert!(d.is_available(TargetOs::MacOs));
    assert!(!d.is_available(TargetOs::Linux));
    let a = MetalArray::new(Shape::from(vec![2]), DType::F32, Arc::new(d)).unwrap();
    assert!(a.uses_unified_memory());
}

#[test]
fn tpu_and_coral_profiles() {
    let t = TpuDevice::new(2).unwrap();
    assert_eq!((t.device_id(), t.core_count()), (2, 8));
    assert_eq!(t.capabilities().max_work_group_size, 2048);
    assert_eq!(t.capabilities().global_memory_size, 16 * GIB);
    assert!(!t.is_available());
    let c = CoralDevice::new(5).unwrap();
    assert_eq!(c.device_id(), 5);
    assert_eq!(c.capabilities().compute_units, 1);
    assert_eq!(c.capabilities().global_memory_size, 0);
    assert_eq!(c.device_type(), DeviceType::Coral);
    assert!(!c.is_available());
}

fn cuda() -> Arc<CudaDevice> {
    Arc::new(CudaDevice::new(0).unwrap())
}

#[test]
fn from_slice_checks_the_element_count() {
    let data = [1.0f32, 2.0, 3.0, 4.0, 5.0, 6.0];
    let bytes: Vec<u8> = data.iter().flat_map(|x| x.to_ne_bytes()).collect();
    let a = CudaArray::from_slice(&bytes, data.len(), Shape::from(vec![2, 3]), cuda()).unwrap();
    assert_eq!(a.len(), 6);
    assert_eq!(a.dtype(), DType::F32);
    let err = CudaArray::from_slice(&bytes[..20], 5, Shape::from(vec![2, 3]), cuda()).unwrap_err();
    assert_eq!(err, "Data length doesn't match shape");
    let r = RocmArray::from_slice(&[1u8, 2, 3], 3, Shape::from(vec![3]), Arc::new(RocmDevice::new(0).unwrap())).unwrap();
    assert_eq!(r.shape().dims(), &vec![3]);
    // the three bytes fill the first of twelve bytes of memory
    assert_eq!(r.to_host_vec().unwrap(), vec![1, 2, 3, 0, 0, 0, 0, 0, 0, 0, 0, 0]);
}

#[test]
fn host_data_comes_back_from_the_device() {
    let data = [1.5f32, -2.0, 7.25];
    let bytes: Vec<u8> = data.iter().flat_map(|x| x.to_ne_bytes()).collect();
    let a = CudaArray::from_slice(&bytes, 3, Shape::from(vec![3]), cuda()).unwrap();
    assert_eq!(a.to_host_vec().unwrap(), bytes);
    let m = MetalArray::from_slice(&bytes, 3, Shape::from(vec![3]), Arc::new(MetalDevice::new(0, Some(2)).unwrap())).unwrap();
    assert_eq!(m.to_host_vec().unwrap(), bytes);
    let mut out = [0u8; 12];
    a.copy_to_host_async(&mut out).unwrap();
    assert_eq!(out.to_vec(), bytes);
    let back: Vec<f32> = out.chunks(4).map(|c| f32::from_ne_bytes(c.try_into().unwrap())).collect();
    assert_eq!(back, data.to_vec());
}

#[test]
fn to_host_vec_has_the_byte_size() {
    let a = CudaArray::new(Shape::from(vec![2, 3]), DType::F64, cuda()).unwrap();
    let v = a.to_host_vec().unwrap();
    assert_eq!(v.len(), 48);
    assert!(v.iter().all(|&b| b == 0));
    let mut a = a;
    assert!(a.copy_from_host_async(&[1, 2]).is_ok());
    let mut out = [7u8; 3];
    assert!(a.copy_to_host_async(&mut out).is_ok());
    assert_eq!(out, [1, 2, 0]);
    let mut long = [9u8; 50];
    a.copy_to_host_async(&mut long).unwrap();
    assert_eq!(&long[..3], &[1, 2, 0]);
    assert_eq!(&long[48..], &[9, 9]);
}

#[test]
fn reshape_preserves_element_count() {
    let mut a = CudaArray::new(Shape::from(vec![2, 6]), DType::I32, cuda()).unwrap();
    a.copy_from_host_async(&[5, 6]).unwrap();
    let b = a.reshape(Shape::from(vec![3, 4])).unwrap();
    assert_eq!(b.shape().dims(), &vec![3, 4]);
    assert_eq!(b.dtype(), DType::I32);
    assert_eq!(b.to_host_vec().unwrap(), a.to_host_vec().unwrap());
    assert_eq!(a.reshape(Shape::from(vec![5])).unwrap_err(), "Reshape must preserve element count");
}

#[test]
fn transpose_swaps_two_dimensions_and_twice_is_identity() {
    let mut a = RocmArray::new(Shape::from(vec![2, 3]), DType::U16, Arc::new(RocmDevice::new(1).unwrap())).unwrap();
    // rows [0 1 2] and [3 4 5], two bytes each
    a.copy_from_host_async(&[0, 0, 1, 0, 2, 0, 3, 0, 4, 0, 5, 0]).unwrap();
    let t = a.transpose().unwrap();
    assert_eq!(t.shape().dims(), &vec![3, 2]);
    assert_eq!(t.to_host_vec().unwrap(), vec![0, 0, 3, 0, 1, 0, 4, 0, 2, 0, 5, 0]);
    let tt = t.transpose().unwrap();
    assert_eq!(tt.shape().dims(), &vec![2, 3]);
    assert_eq!(tt.to_host_vec().unwrap(), a.to_host_vec().unwrap());
    let v = RocmArray::new(Shape::from(vec![2, 5, 7]), DType::F32, Arc::new(RocmDevice::new(1).unwrap())).unwrap();
    assert_eq!(v.transpose().unwrap_err(), "Transpose only supported for 2D arrays");
}

#[test]
fn zeros_ones_and_new_array_stay_on_the_device() {
    let a = CudaArray::new(Shape::from(vec![4]), DType::U16, cuda()).unwrap();
    let z = a.zeros(Shape::from(vec![2, 2])).unwrap();
    assert_eq!(z.dtype(), DType::U16);
    assert_eq!(z.len(), 4);
    assert!(Arc::ptr_eq(z.device(), a.device()));
    let o = a.ones(Shape::from(vec![1])).unwrap();
    assert_eq!(o.len(), 1);
    let n = a.new_array(Shape::from(vec![3]), DType::Bool).unwrap();
    assert_eq!(n.dtype(), DType::Bool);
    let c = a.clone_array();
    assert_eq!(c.shape(), a.shape());
}

#[test]
fn tpu_arrays_need_tpu_types() {
    let dev = Arc::new(TpuDevice::new(0).unwrap());
    let a = TpuArray::new(Shape::from(vec![8, 8]), DType::BF16, dev.clone()).unwrap();
    assert!(a.uses_bfloat16());
    assert!(a.sharding_info().is_none());
    assert_eq!(a.execute_xla("HloModule m").unwrap_err(), "XLA execution not yet implemented");
    assert_eq!(TpuArray::new(Shape::from(vec![1]), DType::F64, dev.clone()).unwrap_err(), "TPU requires F32, BF16, or I32 data types");
    let s = TpuArray::new_sharded(Shape::from(vec![4]), DType::I32, dev.clone(), "split:0").unwrap();
    assert!(!s.uses_bfloat16());
    assert_eq!(s.new_array(Shape::from(vec![4]), DType::U8).unwrap_err(), "TPU requires F32, BF16, or I32 data types");
    assert_eq!(s.transpose().unwrap_err(), "Transpose only supported for 2D arrays");
    assert_eq!(a.transpose().unwrap().shape().dims(), &vec![8, 8]);
    assert_eq!(TpuShardingType::Split(1), TpuShardingType::Split(1));
}

#[test]
fn coral_arrays_are_quantized_and_precompiled() {
    let dev = Arc::new(CoralDevice::new(0).unwrap());
    let a = CoralArray::new(Shape::from(vec![16]), DType::QU8, dev.clone()).unwrap();
    assert_eq!(a.len(), 16);
    assert_eq!(CoralArray::new(Shape::from(vec![16]), DType::F32, dev.clone()).unwrap_err(), "Coral TPU requires quantized data types (QI4, QU8, I8)");
    assert_eq!(CoralArray::from_compiled_model("model.tflite", dev.clone()).unwrap_err(), "Coral model loading not yet implemented");
    assert_eq!(a.run_inference(&[1, 2]).unwrap_err(), "Coral inference not yet implemented");
    assert_eq!(a.reshape(Shape::from(vec![4, 4])).unwrap_err(), "Coral TPU reshape not supported - use model compilation instead");
    assert_eq!(a.reshape(Shape::from(vec![3])).unwrap_err(), "Reshape must preserve element count");
    assert_eq!(a.transpose().unwrap_err(), "Coral TPU transpose not supported - use model compilation instead");
    assert_eq!(a.zeros(Shape::from(vec![2])).unwrap_err(), "Coral TPU zeros not supported - arrays are pre-compiled");
    assert_eq!(a.ones(Shape::from(vec![2])).unwrap_err(), "Coral TPU ones not supported - arrays are pre-compiled");
    assert_eq!(a.new_array(Shape::from(vec![2]), DType::I8).unwrap_err(), "Coral TPU new_array not supported - use compiled models");
}
