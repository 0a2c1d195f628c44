//! Google Coral edge TPU devices and the arrays they hold, which serve
//! 8-bit quantized inference with models compiled ahead of time.

use vstd::prelude::*;
use std::sync::Arc;
use crate::device::{DeviceCapabilities, DeviceType};
use crate::types::{product, DType, Shape};

verus! {

/// Coral edge TPU device.
#[derive(Debug, Clone)]
pub struct CoralDevice {
    capabilities: DeviceCapabilities,
    device_id: usize,
}

/// Backend for Coral edge TPUs.
pub struct CoralBackend;

/// Capabilities of a Coral TPU: a single core, batches rather than work
/// groups, 8 MiB of internal memory, no general-purpose memory, and none
/// of the optional features.
pub open spec fn coral_capabilities() -> DeviceCapabilities {
    DeviceCapabilities {
        compute_units: 1,
        max_work_group_size: 1,
        local_memory_size: (8 * 1024 * 1024) as usize,
        global_memory_size: 0,
        supports_fp64: false,
        supports_fp16: false,
        supports_async: false,
        unified_memory: false,
        shared_memory: false,
    }
}

impl CoralDevice {
    /// The device's index.
    pub closed spec fn spec_device_id(&self) -> usize {
        self.device_id
    }

    /// What the device offers.
    pub closed spec fn spec_capabilities(&self) -> DeviceCapabilities {
        self.capabilities
    }

    /// The Coral TPU with index `device_id`.
    pub fn new(device_id: usize) -> (r: Result<Self, String>)
        ensures
            r matches Ok(d) && d.spec_device_id() == device_id && d.spec_capabilities() == coral_capabilities(),
    {
        let capabilities = DeviceCapabilities {
            compute_units: 1,
            max_work_group_size: 1,
            local_memory_size: 8 * 1024 * 1024,
            global_memory_size: 0,
            supports_fp64: false,
            supports_fp16: false,
            supports_async: false,
            unified_memory: false,
            shared_memory: false,
        };
        Ok(CoralDevice { capabilities, device_id })
    }

    /// The device's index.
    pub fn device_id(&self) -> (id: usize)
        ensures
            id == self.spec_device_id(),
    {
        self.device_id
    }

    /// The kind of device.
    pub fn device_type(&self) -> (t: DeviceType)
        ensures
            t == DeviceType::Coral,
    {
        DeviceType::Coral
    }

    /// What the device offers.
    pub fn capabilities(&self) -> (c: &DeviceCapabilities)
        ensures
            *c == self.spec_capabilities(),
    {
        &self.capabilities
    }

    /// Whether the device can be used: never, as the Edge TPU runtime is
    /// not detected.
    pub fn is_available(&self) -> (r: bool)
        ensures
            !r,
    {
        false
    }
}

/// Element types that a Coral TPU computes with: quantized ones.
pub open spec fn coral_dtype(dtype: DType) -> bool {
    dtype == DType::QI4 || dtype == DType::QU8 || dtype == DType::I8
}

/// Array held by a Coral TPU (typically model weights).
#[derive(Debug)]
pub struct CoralArray {
    shape: Shape,
    dtype: DType,
    device: Arc<CoralDevice>,
}

impl CoralArray {
    /// The array's shape.
    pub closed spec fn spec_shape(&self) -> Seq<usize> {
        self.shape@
    }

    /// The array's element type.
    pub closed spec fn spec_dtype(&self) -> DType {
        self.dtype
    }

    /// The device that holds the array.
    pub closed spec fn spec_device(&self) -> Arc<CoralDevice> {
        self.device
    }

    /// Number of elements of the array.
    pub open spec fn num_elements(&self) -> nat {
        product(self.spec_shape())
    }

    /// A new array of `shape` and `dtype` on `device`; the type must be a
    /// quantized one (`QI4`, `QU8` or `I8`).
    pub fn new(shape: Shape, dtype: DType, device: Arc<CoralDevice>) -> (r: Result<Self, String>)
        ensures
            if coral_dtype(dtype) {
                r matches Ok(a) && a.spec_shape() == shape@ && a.spec_dtype() == dtype && a.spec_device() == device
            } else {
                r matches Err(msg) && msg@ == "Coral TPU requires quantized data types (QI4, QU8, I8)"@
            },
    {
        match dtype {
            DType::QI4 | DType::QU8 | DType::I8 => {},
            _ => {
                return Err(String::from_str("Coral TPU requires quantized data types (QI4, QU8, I8)"));
            },
        }
        Ok(CoralArray { shape, dtype, device })
    }

    /// Loads a compiled model; there is no model loader, so this always
    /// fails.
    pub fn from_compiled_model(model_path: &str, device: Arc<CoralDevice>) -> (r: Result<Self, String>)
        ensures
            r matches Err(msg) && msg@ == "Coral model loading not yet implemented"@,
    {
        Err(String::from_str("Coral model loading not yet implemented"))
    }

    /// Runs inference on input data; there is no inference runtime, so this
    /// always fails.
    pub fn run_inference(&self, input_data: &[u8]) -> (r: Result<Vec<u8>, String>)
        ensures
            r matches Err(msg) && msg@ == "Coral inference not yet implemented"@,
    {
        Err(String::from_str("Coral inference not yet implemented"))
    }

    /// The device that holds the array.
    pub fn device(&self) -> (d: &Arc<CoralDevice>)
        ensures
            *d == self.spec_device(),
    {
        &self.device
    }

    /// The array's shape.
    pub fn shape(&self) -> (s: &Shape)
        ensures
            s@ == self.spec_shape(),
    {
        &self.shape
    }

    /// Number of elements.
    pub fn len(&self) -> (n: usize)
        requires
            self.num_elements() <= usize::MAX,
        ensures
            n == self.num_elements(),
    {
        self.shape.len()
    }

    /// Element type.
    pub fn dtype(&self) -> (d: DType)
        ensures
            d == self.spec_dtype(),
    {
        self.dtype
    }

    /// Another array with the same shape and type on the same device.
    pub fn clone_array(&self) -> (a: Self)
        ensures
            a.spec_shape() == self.spec_shape(),
            a.spec_dtype() == self.spec_dtype(),
            a.spec_device() == self.spec_device(),
    {
        CoralArray { shape: self.shape.clone(), dtype: self.dtype, device: self.device.clone() }
    }

    /// Reshaping is left to model compilation: this fails, saying why.
    pub fn reshape(&self, new_shape: Shape) -> (r: Result<Self, String>)
        requires
            self.num_elements() <= usize::MAX,
            new_shape.num_elements() <= usize::MAX,
        ensures
            if new_shape.num_elements() == self.num_elements() {
                r matches Err(msg) && msg@ == "Coral TPU reshape not supported - use model compilation instead"@
            } else {
                r matches Err(msg) && msg@ == "Reshape must preserve element count"@
            },
    {
        if new_shape.len() != self.shape.len() {
            return Err(String::from_str("Reshape must preserve element count"));
        }
        Err(String::from_str("Coral TPU reshape not supported - use model compilation instead"))
    }

    /// Transposing is left to model compilation: this fails.
    pub fn transpose(&self) -> (r: Result<Self, String>)
        ensures
            r matches Err(msg) && msg@ == "Coral TPU transpose not supported - use model compilation instead"@,
    {
        Err(String::from_str("Coral TPU transpose not supported - use model compilation instead"))
    }

    /// Arrays are compiled ahead of time: this fails.
    pub fn zeros(&self, shape: Shape) -> (r: Result<Self, String>)
        ensures
            r matches Err(msg) && msg@ == "Coral TPU zeros not supported - arrays are pre-compiled"@,
    {
        Err(String::from_str("Coral TPU zeros not supported - arrays are pre-compiled"))
    }

    /// Arrays are compiled ahead of time: this fails.
    pub fn ones(&self, shape: Shape) -> (r: Result<Self, String>)
        ensures
            r matches Err(msg) && msg@ == "Coral TPU ones not supported - arrays are pre-compiled"@,
    {
        Err(String::from_str("Coral TPU ones not supported - arrays are pre-compiled"))
    }

    /// Arrays come from compiled models: this fails.
    pub fn new_array(&self, shape: Shape, dtype: DType) -> (r: Result<Self, String>)
        ensures
            r matches Err(msg) && msg@ == "Coral TPU new_array not supported - use compiled models"@,
    {
        Err(String::from_str("Coral TPU new_array not supported - use compiled models"))
    }
}

} // verus!
