//! Device memory: buffers, the properties a buffer is requested with, and
//! the interface through which devices allocate and transfer buffers.

use vstd::prelude::*;
use std::rc::Rc;
use std::sync::Arc;
use crate::device::Backend;
use crate::types::{DType, Shape};
use crate::Result;

verus! {

/// Handle of a buffer that lives on a device.
pub struct Buffer<B: DeviceBuffer> {
    pub id: usize,
    pub shape: Shape,
    pub dtype: DType,
    pub device: Arc<<B::Backend as Backend>::Device>,
    pub data: Arc<B>,
}

impl<B: DeviceBuffer> Clone for Buffer<B> {
    /// Another handle of the same buffer: the device and the data are
    /// shared, not copied.
    fn clone(&self) -> (c: Self)
        ensures
            c.id == self.id,
            c.shape@ == self.shape@,
            c.dtype == self.dtype,
            c.device == self.device,
            c.data == self.data,
    {
        Buffer {
            id: self.id,
            shape: self.shape.clone(),
            dtype: self.dtype,
            device: self.device.clone(),
            data: self.data.clone(),
        }
    }
}

/// What a buffer is requested for; `None` leaves the choice to the device.
#[derive(Default, Clone, Copy, Eq, PartialEq, Debug, Structural)]
pub struct BufferProperties {
    pub copy_source: Option<bool>,
    pub copy_destination: Option<bool>,
    pub device_local: Option<bool>,
    pub device_write: Option<bool>,
    pub host_visible: Option<bool>,
}

/// Allocation, release and transfer of buffers on a device.
pub trait MemoryManager {
    /// The device that owns the memory.
    type Device;
    type Storage: DeviceBuffer;
    type FlushTarget;

    /// Allocates a buffer for a tensor of `shape` and `dtype`, whose size in
    /// bytes must fit in a `usize`.
    fn allocate(self: Arc<Self>, shape: Shape, dtype: DType, properties: BufferProperties) -> (r: Result<Buffer<Self::Storage>>)
        requires
            shape.num_elements() * dtype.size_bytes() <= usize::MAX,
        ensures
            r matches Ok(b) ==> b.shape@ == shape@ && b.dtype == dtype;

    fn deallocate(self: Arc<Self>, buffer: &Buffer<Self::Storage>) -> Result<()>;

    fn copy(self: Arc<Self>, src: &Buffer<Self::Storage>, dst: &Buffer<Self::Storage>) -> Result<()>;

    /// Whether host data reaches this device's buffers through staging.
    fn require_staging(&self) -> bool;

    /// Records `data` to be copied into `target` at the next flush.
    fn stage(&self, data: Vec<u8>, target: &Buffer<Self::Storage>) -> Result<()>;

    /// Issues the recorded copies into `flush_to`.
    fn flush(&self, flush_to: &mut Self::FlushTarget) -> Result<()>;
}

/// Storage of a buffer on the devices of one backend.
pub trait DeviceBuffer: Send + Sync {
    type Backend: Backend;
}

/// Types whose clone shares the underlying data rather than copying it.
pub trait ShallowClone: Clone {
}

impl<T> ShallowClone for Arc<T> {
}

impl<T> ShallowClone for Rc<T> {
}

impl<B: DeviceBuffer> ShallowClone for Buffer<B> where Buffer<B>: Clone {
}

} // verus!
