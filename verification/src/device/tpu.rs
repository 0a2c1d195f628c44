//! Google Cloud TPU devices and the arrays they hold.

use vstd::prelude::*;
use std::sync::Arc;
use crate::device::{gib, gib_bytes, DeviceCapabilities, DeviceType};
use crate::types::{product, transposed, DType, Shape};

verus! {

/// Google Cloud TPU device.
#[derive(Debug)]
pub struct TpuDevice {
    capabilities: DeviceCapabilities,
    device_id: usize,
    core_count: usize,
}

impl Clone for TpuDevice {
    fn clone(&self) -> (c: Self)
        ensures
            c == *self,
    {
        proof {
            use_type_invariant(self);
        }
        TpuDevice { capabilities: self.capabilities, device_id: self.device_id, core_count: self.core_count }
    }
}

/// Capabilities of a TPU chip: 8 cores, vector units of 2048, 8 MiB of
/// memory per core, 16 GiB of high-bandwidth memory, half but not double
/// precision, asynchronous operation, dedicated (not unified) memory, and
/// memory shared between cores.
pub open spec fn tpu_capabilities() -> DeviceCapabilities {
    DeviceCapabilities {
        compute_units: 8,
        max_work_group_size: 2048,
        local_memory_size: (8 * 1024 * 1024) as usize,
        global_memory_size: gib(16) as usize,
        supports_fp64: false,
        supports_fp16: true,
        supports_async: true,
        unified_memory: false,
        shared_memory: true,
    }
}

impl TpuDevice {
    /// The chip's cores are its compute units.
    #[verifier::type_invariant]
    spec fn cores_are_compute_units(self) -> bool {
        self.core_count == self.capabilities.compute_units
    }

    /// The device's index.
    pub closed spec fn spec_device_id(&self) -> usize {
        self.device_id
    }

    /// Number of cores of the chip.
    pub closed spec fn spec_core_count(&self) -> usize {
        self.core_count
    }

    /// What the device offers.
    pub closed spec fn spec_capabilities(&self) -> DeviceCapabilities {
        self.capabilities
    }

    /// The TPU with index `device_id`: a chip of 8 cores with the
    /// capabilities of `tpu_capabilities`.
    pub fn new(device_id: usize) -> (r: Result<Self, String>)
        ensures
            r matches Ok(d) && d.spec_device_id() == device_id && d.spec_core_count() == 8
                && d.spec_capabilities() == tpu_capabilities(),
    {
        let core_count: usize = 8;
        let capabilities = DeviceCapabilities {
            compute_units: core_count,
            max_work_group_size: 2048,
            local_memory_size: 8 * 1024 * 1024,
            global_memory_size: gib_bytes(16),
            supports_fp64: false,
            supports_fp16: true,
            supports_async: true,
            unified_memory: false,
            shared_memory: true,
        };
        Ok(TpuDevice { capabilities, device_id, core_count })
    }

    /// The device's index.
    pub fn device_id(&self) -> (id: usize)
        ensures
            id == self.spec_device_id(),
    {
        self.device_id
    }

    /// Number of cores of the chip: its compute units.
    pub fn core_count(&self) -> (n: usize)
        ensures
            n == self.spec_core_count(),
            n == self.spec_capabilities().compute_units,
    {
        proof {
            use_type_invariant(self);
        }
        self.core_count
    }

    /// The kind of device.
    pub fn device_type(&self) -> (t: DeviceType)
        ensures
            t == DeviceType::Tpu,
    {
        DeviceType::Tpu
    }

    /// What the device offers.
    pub fn capabilities(&self) -> (c: &DeviceCapabilities)
        ensures
            *c == self.spec_capabilities(),
    {
        &self.capabilities
    }

    /// Whether the device can be used: never, as no TPU runtime is
    /// detected.
    pub fn is_available(&self) -> (r: bool)
        ensures
            !r,
    {
        false
    }
}

/// How a TPU array is spread over cores.
#[derive(Debug, Clone)]
pub struct TpuShardingInfo {
    pub cores: Vec<usize>,
    pub axis: usize,
    pub sharding_type: TpuShardingType,
}

/// Kinds of TPU sharding.
#[derive(Debug, Clone, Copy, PartialEq, Eq, Structural)]
pub enum TpuShardingType {
    /// Every core holds all of the array.
    Replicated,
    /// Split along an axis.
    Split(usize),
    /// Sharded across cores.
    Sharded(usize),
}

/// Element types that a TPU computes with.
pub open spec fn tpu_dtype(dtype: DType) -> bool {
    dtype == DType::F32 || dtype == DType::BF16 || dtype == DType::I32
}

/// Message of the error for element types a TPU does not compute with.
pub open spec fn tpu_dtype_message() -> Seq<char> {
    "TPU requires F32, BF16, or I32 data types"@
}

/// Array held by a TPU.
#[derive(Debug)]
pub struct TpuArray {
    shape: Shape,
    dtype: DType,
    device: Arc<TpuDevice>,
}

impl TpuArray {
    /// The array's shape.
    pub closed spec fn spec_shape(&self) -> Seq<usize> {
        self.shape@
    }

    /// The array's element type.
    pub closed spec fn spec_dtype(&self) -> DType {
        self.dtype
    }

    /// The device that holds the array.
    pub closed spec fn spec_device(&self) -> Arc<TpuDevice> {
        self.device
    }

    /// Number of elements of the array.
    pub open spec fn num_elements(&self) -> nat {
        product(self.spec_shape())
    }

    /// A new array of `shape` and `dtype` on `device`; the type must be
    /// `F32`, `BF16` or `I32`.
    pub fn new(shape: Shape, dtype: DType, device: Arc<TpuDevice>) -> (r: Result<Self, String>)
        ensures
            if tpu_dtype(dtype) {
                r matches Ok(a) && a.spec_shape() == shape@ && a.spec_dtype() == dtype && a.spec_device() == device
            } else {
                r matches Err(msg) && msg@ == tpu_dtype_message()
            },
    {
        match dtype {
            DType::F32 | DType::BF16 | DType::I32 => {},
            _ => {
                return Err(String::from_str("TPU requires F32, BF16, or I32 data types"));
            },
        }
        Ok(TpuArray { shape, dtype, device })
    }

    /// A new array that is to be spread over cores as `sharding_spec`
    /// says; as `new`.
    pub fn new_sharded(shape: Shape, dtype: DType, device: Arc<TpuDevice>, sharding_spec: &str) -> (r: Result<Self, String>)
        ensures
            if tpu_dtype(dtype) {
                r matches Ok(a) && a.spec_shape() == shape@ && a.spec_dtype() == dtype && a.spec_device() == device
            } else {
                r matches Err(msg) && msg@ == tpu_dtype_message()
            },
    {
        let array = Self::new(shape, dtype, device)?;
        Ok(array)
    }

    /// Runs an XLA program on the array; there is no XLA runtime, so this
    /// always fails.
    pub fn execute_xla(&self, xla_program: &str) -> (r: Result<TpuArray, String>)
        ensures
            r matches Err(msg) && msg@ == "XLA execution not yet implemented"@,
    {
        Err(String::from_str("XLA execution not yet implemented"))
    }

    /// How the array is spread over cores: not recorded.
    pub fn sharding_info(&self) -> (r: Option<TpuShardingInfo>)
        ensures
            r is None,
    {
        None
    }

    /// Whether the array holds bfloat16 values.
    pub fn uses_bfloat16(&self) -> (r: bool)
        ensures
            r == (self.spec_dtype() == DType::BF16),
    {
        self.dtype == DType::BF16
    }

    /// The device that holds the array.
    pub fn device(&self) -> (d: &Arc<TpuDevice>)
        ensures
            *d == self.spec_device(),
    {
        &self.device
    }

    /// The array's shape.
    pub fn shape(&self) -> (s: &Shape)
        ensures
            s@ == self.spec_shape(),
    {
        &self.shape
    }

    /// Number of elements.
    pub fn len(&self) -> (n: usize)
        requires
            self.num_elements() <= usize::MAX,
        ensures
            n == self.num_elements(),
    {
        self.shape.len()
    }

    /// Element type.
    pub fn dtype(&self) -> (d: DType)
        ensures
            d == self.spec_dtype(),
    {
        self.dtype
    }

    /// Another array with the same shape and type on the same device.
    pub fn clone_array(&self) -> (a: Self)
        ensures
            a.spec_shape() == self.spec_shape(),
            a.spec_dtype() == self.spec_dtype(),
            a.spec_device() == self.spec_device(),
    {
        TpuArray { shape: self.shape.clone(), dtype: self.dtype, device: self.device.clone() }
    }

    /// The array with another shape of the same number of elements.
    pub fn reshape(&self, new_shape: Shape) -> (r: Result<Self, String>)
        requires
            self.num_elements() <= usize::MAX,
            new_shape.num_elements() <= usize::MAX,
        ensures
            if new_shape.num_elements() == self.num_elements() {
                r matches Ok(a) && a.spec_shape() == new_shape@ && a.spec_dtype() == self.spec_dtype()
                    && a.spec_device() == self.spec_device()
            } else {
                r matches Err(msg) && msg@ == "Reshape must preserve element count"@
            },
    {
        if new_shape.len() != self.shape.len() {
            return Err(String::from_str("Reshape must preserve element count"));
        }
        Ok(TpuArray { shape: new_shape, dtype: self.dtype, device: self.device.clone() })
    }

    /// The transpose of a two-dimensional array.
    pub fn transpose(&self) -> (r: Result<Self, String>)
        ensures
            if self.spec_shape().len() == 2 {
                r matches Ok(a) && a.spec_shape() == transposed(self.spec_shape())
                    && a.spec_dtype() == self.spec_dtype() && a.spec_device() == self.spec_device()
            } else {
                r matches Err(msg) && msg@ == "Transpose only supported for 2D arrays"@
            },
    {
        if self.shape.ndim() != 2 {
            return Err(String::from_str("Transpose only supported for 2D arrays"));
        }
        let new_shape = self.shape.swapped_pair();
        Ok(TpuArray { shape: new_shape, dtype: self.dtype, device: self.device.clone() })
    }

    /// A new array of `shape` with this array's type on the same device.
    pub fn zeros(&self, shape: Shape) -> (r: Result<Self, String>)
        ensures
            if tpu_dtype(self.spec_dtype()) {
                r matches Ok(a) && a.spec_shape() == shape@ && a.spec_dtype() == self.spec_dtype()
                    && a.spec_device() == self.spec_device()
            } else {
                r matches Err(msg) && msg@ == tpu_dtype_message()
            },
    {
        let array = Self::new(shape, self.dtype, self.device.clone())?;
        Ok(array)
    }

    /// A new array of `shape` with this array's type on the same device.
    pub fn ones(&self, shape: Shape) -> (r: Result<Self, String>)
        ensures
            if tpu_dtype(self.spec_dtype()) {
                r matches Ok(a) && a.spec_shape() == shape@ && a.spec_dtype() == self.spec_dtype()
                    && a.spec_device() == self.spec_device()
            } else {
                r matches Err(msg) && msg@ == tpu_dtype_message()
            },
    {
        let array = Self::new(shape, self.dtype, self.device.clone())?;
        Ok(array)
    }

    /// A new array of `shape` and `dtype` on the same device.
    pub fn new_array(&self, shape: Shape, dtype: DType) -> (r: Result<Self, String>)
        ensures
            if tpu_dtype(dtype) {
                r matches Ok(a) && a.spec_shape() == shape@ && a.spec_dtype() == dtype
                    && a.spec_device() == self.spec_device()
            } else {
                r matches Err(msg) && msg@ == tpu_dtype_message()
            },
    {
        Self::new(shape, dtype, self.device.clone())
    }
}

} // verus!
