//! Apple Metal GPU devices and the arrays they hold.

use vstd::prelude::*;
use std::sync::Arc;
use crate::device::{gib, DeviceCapabilities, DeviceType, TargetOs};
use crate::device::array_bytes::{copied, copied_into, duplicate, is_transpose_of, transpose_bytes, zero_bytes, zeroed};
use crate::types::{lemma_product_of_pair, product, transposed, DType, Shape};

verus! {

/// Apple Metal GPU device.
#[derive(Debug, Clone)]
pub struct MetalDevice {
    capabilities: DeviceCapabilities,
    device_id: usize,
}

/// Capabilities of a Metal device on a host with `parallelism` available
/// threads (one when the OS reports none): 8 GPU cores, work groups of up
/// to 1024, 32 KiB of threadgroup memory, 8 GiB of unified memory per
/// thread, half but not double precision, asynchronous operation, unified
/// and shared memory.
pub open spec fn metal_capabilities(parallelism: Option<usize>) -> DeviceCapabilities {
    DeviceCapabilities {
        compute_units: 8,
        max_work_group_size: 1024,
        local_memory_size: (32 * 1024) as usize,
        global_memory_size: (threads(parallelism) * gib(8)) as usize,
        supports_fp64: false,
        supports_fp16: true,
        supports_async: true,
        unified_memory: true,
        shared_memory: true,
    }
}

/// The available parallelism, one when the OS reports none.
pub open spec fn threads(parallelism: Option<usize>) -> nat {
    match parallelism {
        Some(n) => n as nat,
        None => 1,
    }
}

impl MetalDevice {
    /// The device's index.
    pub closed spec fn spec_device_id(&self) -> usize {
        self.device_id
    }

    /// What the device offers.
    pub closed spec fn spec_capabilities(&self) -> DeviceCapabilities {
        self.capabilities
    }

    /// The Metal device with index `device_id` on a host with
    /// `available_parallelism` threads; its memory in bytes must fit in a
    /// `usize`.
    pub fn new(device_id: usize, available_parallelism: Option<usize>) -> (r: Result<Self, String>)
        requires
            threads(available_parallelism) * gib(8) <= usize::MAX,
        ensures
            r matches Ok(d) && d.spec_device_id() == device_id && d.spec_capabilities() == metal_capabilities(
                available_parallelism,
            ),
    {
        let n = match available_parallelism {
            Some(n) => n,
            None => 1,
        };
        proof {
            let m = n as int;
            assert(m * 8 <= m * 8 * 1024 && m * 8 * 1024 <= m * 8 * 1024 * 1024
                && m * 8 * 1024 * 1024 <= m * 8 * 1024 * 1024 * 1024
                && m * 8 * 1024 * 1024 * 1024 == m * (8 * 1024 * 1024 * 1024)) by (nonlinear_arith)
                requires
                    m >= 0,
            ;
        }
        let capabilities = DeviceCapabilities {
            compute_units: 8,
            max_work_group_size: 1024,
            local_memory_size: 32 * 1024,
            global_memory_size: n * 8 * 1024 * 1024 * 1024,
            supports_fp64: false,
            supports_fp16: true,
            supports_async: true,
            unified_memory: true,
            shared_memory: true,
        };
        Ok(MetalDevice { capabilities, device_id })
    }

    /// The device's index.
    pub fn device_id(&self) -> (id: usize)
        ensures
            id == self.spec_device_id(),
    {
        self.device_id
    }

    /// The kind of device.
    pub fn device_type(&self) -> (t: DeviceType)
        ensures
            t == DeviceType::Metal,
    {
        DeviceType::Metal
    }

    /// What the device offers.
    pub fn capabilities(&self) -> (c: &DeviceCapabilities)
        ensures
            *c == self.spec_capabilities(),
    {
        &self.capabilities
    }

    /// Whether the device can be used on a host running `os`: on macOS.
    pub fn is_available(&self, os: TargetOs) -> (r: bool)
        ensures
            r == (os == TargetOs::MacOs),
    {
        os == TargetOs::MacOs
    }
}

/// Array held by a Metal device, with the bytes of its device memory.
#[derive(Debug)]
pub struct MetalArray {
    shape: Shape,
    dtype: DType,
    device: Arc<MetalDevice>,
    data: Vec<u8>,
}

impl MetalArray {
    /// The device memory holds one element of the array's type for each
    /// element of its shape.
    #[verifier::type_invariant]
    spec fn holds_its_elements(self) -> bool {
        self.data@.len() == product(self.shape@) * self.dtype.size_bytes()
    }

    /// The array's shape.
    pub closed spec fn spec_shape(&self) -> Seq<usize> {
        self.shape@
    }

    /// The array's element type.
    pub closed spec fn spec_dtype(&self) -> DType {
        self.dtype
    }

    /// The device that holds the array.
    pub closed spec fn spec_device(&self) -> Arc<MetalDevice> {
        self.device
    }

    /// The bytes of the array's device memory, its elements in row-major
    /// order.
    pub closed spec fn spec_data(&self) -> Seq<u8> {
        self.data@
    }

    /// Number of elements of the array.
    pub open spec fn num_elements(&self) -> nat {
        product(self.spec_shape())
    }

    /// A new array of `shape` and `dtype` on `device`, its memory zeroed;
    /// the size of that memory in bytes must fit in a `usize`.
    pub fn new(shape: Shape, dtype: DType, device: Arc<MetalDevice>) -> (r: Result<Self, String>)
        requires
            shape.num_elements() * dtype.size_bytes() <= usize::MAX,
        ensures
            r matches Ok(a) && a.spec_shape() == shape@ && a.spec_dtype() == dtype && a.spec_device() == device
                && a.spec_data() == zero_bytes(shape.num_elements() * dtype.size_bytes()),
    {
        proof {
            shape.lemma_product_le_bytes(dtype);
        }
        let size = shape.len() * dtype.dtype_size_bytes();
        let data = zeroed(size);
        Ok(MetalArray { shape, dtype, device, data })
    }

    /// An array of `shape` and type `F32` for host data of `element_count`
    /// values, given as its bytes, which must be one value per element of
    /// the shape: the bytes are copied into the array's memory (as far as
    /// that memory reaches; the rest stays zero).
    pub fn from_slice(data: &[u8], element_count: usize, shape: Shape, device: Arc<MetalDevice>) -> (r: Result<Self, String>)
        requires
            shape.num_elements() * DType::F32.size_bytes() <= usize::MAX,
        ensures
            if element_count == shape.num_elements() {
                r matches Ok(a) && a.spec_shape() == shape@ && a.spec_dtype() == DType::F32
                    && a.spec_device() == device
                    && a.spec_data() == copied_into(zero_bytes(shape.num_elements() * DType::F32.size_bytes()), data@)
            } else {
                r matches Err(msg) && msg@ == "Data length doesn't match shape"@
            },
    {
        proof {
            shape.lemma_product_le_bytes(DType::F32);
        }
        if element_count != shape.len() {
            return Err(String::from_str("Data length doesn't match shape"));
        }
        let size = shape.len() * DType::F32.dtype_size_bytes();
        let filled = copied(&zeroed(size), data);
        Ok(MetalArray { shape, dtype: DType::F32, device, data: filled })
    }

    /// The array's contents, copied to the host.
    pub fn to_host_vec(&self) -> (r: Result<Vec<u8>, String>)
        ensures
            r matches Ok(v) && v@ == self.spec_data(),
    {
        Ok(duplicate(&self.data))
    }

    /// Whether the array lives in memory shared with the host: whether its
    /// device has unified memory.
    pub fn uses_unified_memory(&self) -> (r: bool)
        ensures
            r == self.spec_device().spec_capabilities().unified_memory,
    {
        self.device.capabilities().unified_memory
    }

    /// The device that holds the array.
    pub fn device(&self) -> (d: &Arc<MetalDevice>)
        ensures
            *d == self.spec_device(),
    {
        &self.device
    }

    /// The array's shape.
    pub fn shape(&self) -> (s: &Shape)
        ensures
            s@ == self.spec_shape(),
    {
        &self.shape
    }

    /// Number of elements.
    pub fn len(&self) -> (n: usize)
        ensures
            n == self.num_elements(),
    {
        proof {
            use_type_invariant(self);
            self.shape.lemma_product_le_bytes(self.dtype);
            assert(self.data@.len() == self.data.len());
        }
        self.shape.len()
    }

    /// Element type.
    pub fn dtype(&self) -> (d: DType)
        ensures
            d == self.spec_dtype(),
    {
        self.dtype
    }

    /// A copy of the array, with its own memory, on the same device.
    pub fn clone_array(&self) -> (a: Self)
        ensures
            a.spec_shape() == self.spec_shape(),
            a.spec_dtype() == self.spec_dtype(),
            a.spec_device() == self.spec_device(),
            a.spec_data() == self.spec_data(),
    {
        proof {
            use_type_invariant(self);
        }
        MetalArray { shape: self.shape.clone(), dtype: self.dtype, device: self.device.clone(), data: duplicate(&self.data) }
    }

    /// The array with another shape of the same number of elements, and
    /// the same elements in the same order.
    pub fn reshape(&self, new_shape: Shape) -> (r: Result<Self, String>)
        requires
            new_shape.num_elements() <= usize::MAX,
        ensures
            if new_shape.num_elements() == self.num_elements() {
                r matches Ok(a) && a.spec_shape() == new_shape@ && a.spec_dtype() == self.spec_dtype()
                    && a.spec_device() == self.spec_device() && a.spec_data() == self.spec_data()
            } else {
                r matches Err(msg) && msg@ == "Reshape must preserve element count"@
            },
    {
        proof {
            use_type_invariant(self);
            self.shape.lemma_product_le_bytes(self.dtype);
            assert(self.data@.len() == self.data.len());
        }
        if new_shape.len() != self.shape.len() {
            return Err(String::from_str("Reshape must preserve element count"));
        }
        Ok(MetalArray { shape: new_shape, dtype: self.dtype, device: self.device.clone(), data: duplicate(&self.data) })
    }

    /// The transpose of a two-dimensional array: its dimensions exchanged,
    /// and element (j, i) of the result is element (i, j) of the array.
    pub fn transpose(&self) -> (r: Result<Self, String>)
        ensures
            if self.spec_shape().len() == 2 {
                r matches Ok(a) && a.spec_shape() == transposed(self.spec_shape())
                    && a.spec_dtype() == self.spec_dtype() && a.spec_device() == self.spec_device()
                    && is_transpose_of(a.spec_data(), self.spec_data(), self.spec_shape()[0] as nat,
                        self.spec_shape()[1] as nat, self.spec_dtype().size_bytes())
            } else {
                r matches Err(msg) && msg@ == "Transpose only supported for 2D arrays"@
            },
    {
        if self.shape.ndim() != 2 {
            return Err(String::from_str("Transpose only supported for 2D arrays"));
        }
        proof {
            use_type_invariant(self);
        }
        self.shape.check_valid();
        let rows = self.shape.dim(0);
        let cols = self.shape.dim(1);
        let b = self.dtype.dtype_size_bytes();
        proof {
            lemma_product_of_pair(self.shape@);
            lemma_product_of_pair(transposed(self.shape@));
            assert(rows * cols * b == product(self.shape@) * b) by (nonlinear_arith)
                requires
                    product(self.shape@) == rows * cols,
            ;
            assert(product(transposed(self.shape@)) * b == rows * cols * b) by (nonlinear_arith)
                requires
                    product(transposed(self.shape@)) == cols * rows,
            ;
        }
        let data = transpose_bytes(&self.data, rows, cols, b);
        let new_shape = self.shape.swapped_pair();
        Ok(MetalArray { shape: new_shape, dtype: self.dtype, device: self.device.clone(), data })
    }

    /// A new array of `shape` with this array's type on the same device,
    /// its memory zeroed; its size in bytes must fit in a `usize`.
    pub fn zeros(&self, shape: Shape) -> (r: Result<Self, String>)
        requires
            shape.num_elements() * self.spec_dtype().size_bytes() <= usize::MAX,
        ensures
            r matches Ok(a) && a.spec_shape() == shape@ && a.spec_dtype() == self.spec_dtype()
                && a.spec_device() == self.spec_device()
                && a.spec_data() == zero_bytes(shape.num_elements() * self.spec_dtype().size_bytes()),
    {
        let array = Self::new(shape, self.dtype, self.device.clone())?;
        Ok(array)
    }

    /// A new array of `shape` with this array's type on the same device;
    /// its values are not set, and its memory is zeroed; its size in bytes
    /// must fit in a `usize`.
    pub fn ones(&self, shape: Shape) -> (r: Result<Self, String>)
        requires
            shape.num_elements() * self.spec_dtype().size_bytes() <= usize::MAX,
        ensures
            r matches Ok(a) && a.spec_shape() == shape@ && a.spec_dtype() == self.spec_dtype()
                && a.spec_device() == self.spec_device()
                && a.spec_data() == zero_bytes(shape.num_elements() * self.spec_dtype().size_bytes()),
    {
        let array = Self::new(shape, self.dtype, self.device.clone())?;
        Ok(array)
    }

    /// A new array of `shape` and `dtype` on the same device, its memory
    /// zeroed; its size in bytes must fit in a `usize`.
    pub fn new_array(&self, shape: Shape, dtype: DType) -> (r: Result<Self, String>)
        requires
            shape.num_elements() * dtype.size_bytes() <= usize::MAX,
        ensures
            r matches Ok(a) && a.spec_shape() == shape@ && a.spec_dtype() == dtype
                && a.spec_device() == self.spec_device()
                && a.spec_data() == zero_bytes(shape.num_elements() * dtype.size_bytes()),
    {
        Self::new(shape, dtype, self.device.clone())
    }
}

} // verus!
