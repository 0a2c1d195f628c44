//! Decisions of the Vulkan backend: whether a physical GPU can serve a set
//! of requirements, which element type and usage a buffer gets, and which
//! host data can be staged. The GPU itself is reached through the vulkano
//! library by the program that uses these decisions.

use vstd::prelude::*;
use crate::device::{DeviceCapabilities, TargetOs};
use crate::memory::BufferProperties;
use crate::types::DType;
use crate::RuntimeError;

verus! {

/// A kind of memory that a GPU offers.
#[derive(Debug, Clone, Copy, PartialEq, Eq, Structural)]
pub struct MemoryTypeInfo {
    pub host_visible: bool,
    pub device_local: bool,
}

/// What a physical GPU reports about itself.
#[derive(Debug, Clone)]
pub struct PhysicalDeviceInfo {
    /// For each queue family, whether it runs compute work.
    pub queue_family_compute: Vec<bool>,
    pub max_compute_work_group_invocations: u32,
    pub max_work_group_size: Option<[u32; 3]>,
    pub max_compute_shared_memory_size: u32,
    pub max_memory_allocation_size: Option<u64>,
    pub memory_heap_sizes: Vec<u64>,
    pub memory_types: Vec<MemoryTypeInfo>,
    pub shader_float64: bool,
    pub shader_float16: bool,
}

/// What the verification of a usable GPU found: the queue family that runs
/// compute work, and whether host data must be staged to reach memory that
/// only the device sees.
#[derive(Debug, Clone, Copy, PartialEq, Eq, Structural)]
pub struct VerificationReport {
    pub compute_queue_index: u32,
    pub needs_staging: bool,
}

/// Why a GPU cannot serve the requirements.
#[derive(Debug, Clone, Copy, PartialEq, Eq)]
pub enum DeviceRejection {
    /// No queue family runs compute work.
    NoComputeQueue,
    /// Too few invocations per work group for the required compute units.
    TooFewInvocations { supported: u32, required: usize },
    /// Work groups smaller than required.
    WorkGroupTooSmall { supported: [u32; 3], required: usize },
    /// Less shared memory per work group than required.
    SharedMemoryTooSmall { supported: u32, required: usize },
    /// Less memory than required.
    NotEnoughMemory { reported: usize, required: usize },
    /// Double precision is required but not supported.
    NoFloat64,
    /// Half precision is required but not supported.
    NoFloat16,
    /// Unified memory is required, and some memory that the host sees is
    /// not local to the device.
    NoUnifiedMemory,
    /// Memory shared with the host is required, and some memory is both
    /// local to the device and seen by the host.
    NoHostSharedMemory,
}

/// Index of the first queue family from `i` on that runs compute work.
pub open spec fn first_compute_from(families: Seq<bool>, i: int) -> Option<int>
    decreases families.len() - i,
{
    if i < 0 || i >= families.len() {
        None
    } else if families[i] {
        Some(i)
    } else {
        first_compute_from(families, i + 1)
    }
}

/// Index of the first queue family that runs compute work.
pub open spec fn first_compute(families: Seq<bool>) -> Option<int> {
    first_compute_from(families, 0)
}

/// Sum of memory heap sizes.
pub open spec fn heap_total(heaps: Seq<u64>) -> nat
    decreases heaps.len(),
{
    if heaps.len() == 0 {
        0
    } else {
        heap_total(heaps.drop_last()) + heaps.last() as nat
    }
}

/// Some memory type is host-visible and, as `device_local` says, local to
/// the device or not.
pub open spec fn has_memory_type(types: Seq<MemoryTypeInfo>, host_visible: bool, device_local: bool) -> bool {
    exists|i: int| 0 <= i < types.len() && types[i].host_visible == host_visible && types[i].device_local == device_local
}

/// Some memory that the host sees is not local to the device; a GPU with
/// such memory is refused where unified memory is required.
pub open spec fn has_host_memory_off_device(types: Seq<MemoryTypeInfo>) -> bool {
    has_memory_type(types, true, false)
}

/// Some memory is both local to the device and seen by the host; a GPU with
/// such memory is refused where memory shared with the host is required.
pub open spec fn has_host_visible_device_memory(types: Seq<MemoryTypeInfo>) -> bool {
    has_memory_type(types, true, true)
}

/// Host data must be staged: some memory is local to the device and not
/// seen by the host.
pub open spec fn spec_needs_staging(types: Seq<MemoryTypeInfo>) -> bool {
    has_memory_type(types, false, true)
}

/// Product of the three work-group dimensions.
pub open spec fn work_group_product(d: [u32; 3]) -> nat {
    d@[0] as nat * d@[1] as nat * d@[2] as nat
}

/// Memory the GPU can allocate: the reported maximum allocation, or else
/// the total of its heaps.
pub open spec fn memory_size(info: PhysicalDeviceInfo) -> nat {
    match info.max_memory_allocation_size {
        Some(m) => m as nat,
        None => heap_total(info.memory_heap_sizes@),
    }
}

/// The checks of `verify_device` that run before the work-group size is
/// read pass: there is a compute queue and enough invocations.
pub open spec fn reaches_work_group_check(info: PhysicalDeviceInfo, required: DeviceCapabilities) -> bool {
    first_compute(info.queue_family_compute@) is Some && required.compute_units
        <= info.max_compute_work_group_invocations as usize
}

/// The checks of `verify_device` that run before the memory size is read
/// pass.
pub open spec fn reaches_memory_check(info: PhysicalDeviceInfo, required: DeviceCapabilities) -> bool {
    &&& reaches_work_group_check(info, required)
    &&& info.max_work_group_size matches Some(d) && required.max_work_group_size <= work_group_product(d) as u32 as usize
    &&& required.local_memory_size <= info.max_compute_shared_memory_size as usize
}

/// What `verify_device` answers for a GPU and requirements.
pub open spec fn verification(info: PhysicalDeviceInfo, required: DeviceCapabilities) -> Result<VerificationReport, DeviceRejection> {
    match first_compute(info.queue_family_compute@) {
        None => Err(DeviceRejection::NoComputeQueue),
        Some(q) => if (info.max_compute_work_group_invocations as usize) < required.compute_units {
            Err(DeviceRejection::TooFewInvocations {
                supported: info.max_compute_work_group_invocations,
                required: required.compute_units,
            })
        } else {
            let d = info.max_work_group_size->Some_0;
            if (work_group_product(d) as u32 as usize) < required.max_work_group_size {
                Err(DeviceRejection::WorkGroupTooSmall { supported: d, required: required.max_work_group_size })
            } else if (info.max_compute_shared_memory_size as usize) < required.local_memory_size {
                Err(DeviceRejection::SharedMemoryTooSmall {
                    supported: info.max_compute_shared_memory_size,
                    required: required.local_memory_size,
                })
            } else if (memory_size(info) as u64 as usize) < required.global_memory_size {
                Err(DeviceRejection::NotEnoughMemory {
                    reported: memory_size(info) as u64 as usize,
                    required: required.global_memory_size,
                })
            } else if required.supports_fp64 && !info.shader_float64 {
                Err(DeviceRejection::NoFloat64)
            } else if required.supports_fp16 && !info.shader_float16 {
                Err(DeviceRejection::NoFloat16)
            } else if required.unified_memory && has_host_memory_off_device(info.memory_types@) {
                Err(DeviceRejection::NoUnifiedMemory)
            } else if required.shared_memory && has_host_visible_device_memory(info.memory_types@) {
                Err(DeviceRejection::NoHostSharedMemory)
            } else {
                Ok(VerificationReport {
                    compute_queue_index: q as u32,
                    needs_staging: spec_needs_staging(info.memory_types@),
                })
            }
        },
    }
}

/// What a GPU must report for `verify_device` to run to its end: the index
/// of its first compute queue family fits in a `u32`, a GPU with a compute queue and enough
/// invocations reports its work-group size, whose product (taken left to
/// right) fits in a `u32`,
/// and a GPU that reports no maximum allocation has heaps whose total fits
/// in a `u64`.
pub open spec fn well_reported(info: PhysicalDeviceInfo, required: DeviceCapabilities) -> bool {
    &&& first_compute(info.queue_family_compute@) matches Some(q) ==> q <= u32::MAX
    &&& reaches_work_group_check(info, required) ==> (info.max_work_group_size matches Some(d)
        && d@[0] as nat * d@[1] as nat <= u32::MAX && work_group_product(d) <= u32::MAX)
    &&& reaches_memory_check(info, required) && info.max_memory_allocation_size is None ==> heap_total(
        info.memory_heap_sizes@,
    ) <= u64::MAX
}

proof fn lemma_first_compute_found(families: Seq<bool>, i: int, j: int)
    requires
        0 <= i <= j < families.len(),
        families[j],
        forall|k: int| i <= k < j ==> !families[k],
    ensures
        first_compute_from(families, i) == Some(j),
    decreases j - i,
{
    if i < j {
        lemma_first_compute_found(families, i + 1, j);
    }
}

proof fn lemma_first_compute_none(families: Seq<bool>, i: int)
    requires
        0 <= i <= families.len(),
        forall|k: int| i <= k < families.len() ==> !families[k],
    ensures
        first_compute_from(families, i) is None,
    decreases families.len() - i,
{
    if i < families.len() {
        lemma_first_compute_none(families, i + 1);
    }
}

proof fn lemma_first_compute_from_least(families: Seq<bool>, i: int)
    requires
        0 <= i,
    ensures
        first_compute_from(families, i) matches Some(q) ==> i <= q < families.len() && families[q]
            && forall|k: int| i <= k < q ==> !families[k],
        first_compute_from(families, i) is None ==> forall|k: int| i <= k < families.len() ==> !families[k],
    decreases families.len() - i,
{
    if i < families.len() && !families[i] {
        lemma_first_compute_from_least(families, i + 1);
        assert forall|k: int| i <= k < families.len() && first_compute_from(families, i) is None implies !families[k] by {
            if k > i {
            }
        }
    }
}

/// The compute queue family found is the first one that runs compute work:
/// `q` is found exactly when family `q` runs compute work and no family
/// before it does, and none is found exactly when no family runs compute
/// work.
pub proof fn lemma_first_compute_is_least(families: Seq<bool>, q: int)
    ensures
        (first_compute(families) == Some(q)) <==> (0 <= q < families.len() && families[q] && forall|k: int|
            0 <= k < q ==> !families[k]),
        (first_compute(families) is None) <==> (forall|k: int| 0 <= k < families.len() ==> !families[k]),
{
    lemma_first_compute_from_least(families, 0);
    if 0 <= q < families.len() && families[q] && forall|k: int| 0 <= k < q ==> !families[k] {
        lemma_first_compute_found(families, 0, q);
    }
    if forall|k: int| 0 <= k < families.len() ==> !families[k] {
        lemma_first_compute_none(families, 0);
    }
}

/// What a GPU's verification reports when it accepts the GPU: the first
/// queue family that runs compute work, and staging exactly when some kind
/// of its memory is local to the device and not seen by the host. It
/// refuses for want of a compute queue exactly when no family runs compute
/// work.
pub proof fn lemma_verification_report(info: PhysicalDeviceInfo, required: DeviceCapabilities)
    requires
        well_reported(info, required),
    ensures
        verification(info, required) matches Ok(r) ==> {
            &&& (r.needs_staging <==> exists|i: int|
                0 <= i < info.memory_types@.len() && !info.memory_types@[i].host_visible
                    && info.memory_types@[i].device_local)
            &&& 0 <= r.compute_queue_index < info.queue_family_compute@.len()
            &&& info.queue_family_compute@[r.compute_queue_index as int]
            &&& forall|k: int| 0 <= k < r.compute_queue_index ==> !info.queue_family_compute@[k]
        },
        (verification(info, required) == Err::<VerificationReport, DeviceRejection>(DeviceRejection::NoComputeQueue))
            <==> (forall|k: int| 0 <= k < info.queue_family_compute@.len() ==> !info.queue_family_compute@[k]),
{
    let f = info.queue_family_compute@;
    match first_compute(f) {
        Some(q) => {
            lemma_first_compute_is_least(f, q);
            if forall|k: int| 0 <= k < f.len() ==> !f[k] {
                assert(!f[q]);
            }
        },
        None => {
            lemma_first_compute_is_least(f, 0);
        },
    }
}

/// Index of the first queue family that runs compute work.
fn find_compute_queue(families: &Vec<bool>) -> (r: Option<usize>)
    ensures
        match r {
            Some(q) => q < families@.len() && first_compute(families@) == Some(q as int),
            None => first_compute(families@) is None,
        },
{
    let mut i: usize = 0;
    while i < families.len()
        invariant
            i <= families@.len(),
            forall|k: int| 0 <= k < i ==> !families@[k],
        decreases families@.len() - i,
    {
        if families[i] {
            proof {
                lemma_first_compute_found(families@, 0, i as int);
            }
            return Some(i);
        }
        i = i + 1;
    }
    proof {
        lemma_first_compute_none(families@, 0);
    }
    None
}

/// Index of the first queue family that runs compute work, as a `u32`.
pub fn compute_queue_index(families: &Vec<bool>) -> (r: Option<u32>)
    requires
        first_compute(families@) matches Some(q) ==> q <= u32::MAX,
    ensures
        match first_compute(families@) {
            Some(q) => r == Some(q as u32),
            None => r is None,
        },
        r matches Some(q) ==> first_compute(families@) == Some(q as int),
{
    match find_compute_queue(families) {
        Some(q) => Some(q as u32),
        None => None,
    }
}

/// Whether some memory type has the given visibility and locality.
fn find_memory_type(types: &Vec<MemoryTypeInfo>, host_visible: bool, device_local: bool) -> (r: bool)
    ensures
        r == has_memory_type(types@, host_visible, device_local),
{
    let mut i: usize = 0;
    while i < types.len()
        invariant
            i <= types@.len(),
            forall|k: int| 0 <= k < i ==> !(types@[k].host_visible == host_visible && types@[k].device_local == device_local),
        decreases types@.len() - i,
    {
        if types[i].host_visible == host_visible && types[i].device_local == device_local {
            return true;
        }
        i = i + 1;
    }
    false
}

/// Total size of the memory heaps, which must fit in a `u64`.
fn sum_heaps(heaps: &Vec<u64>) -> (total: u64)
    requires
        heap_total(heaps@) <= u64::MAX,
    ensures
        total == heap_total(heaps@),
{
    let mut total: u64 = 0;
    let mut i: usize = 0;
    while i < heaps.len()
        invariant
            i <= heaps@.len(),
            heap_total(heaps@) <= u64::MAX,
            total == heap_total(heaps@.take(i as int)),
        decreases heaps@.len() - i,
    {
        assert(heaps@.take(i + 1).drop_last() =~= heaps@.take(i as int));
        proof {
            lemma_heap_total_prefix(heaps@, i + 1);
        }
        total = total + heaps[i];
        i = i + 1;
    }
    assert(heaps@.take(i as int) =~= heaps@);
    total
}

proof fn lemma_heap_total_prefix(heaps: Seq<u64>, k: int)
    requires
        0 <= k <= heaps.len(),
    ensures
        heap_total(heaps.take(k)) <= heap_total(heaps),
    decreases heaps.len() - k,
{
    if k < heaps.len() {
        lemma_heap_total_prefix(heaps, k + 1);
        assert(heaps.take(k + 1).drop_last() =~= heaps.take(k));
    } else {
        assert(heaps.take(k) =~= heaps);
    }
}

/// Whether a GPU can serve `required`, and if so on which compute queue and
/// whether it needs staging; otherwise the first requirement it fails, in
/// the order: a compute queue, invocations per work group for the compute
/// units, work-group size, shared memory, memory, double and half
/// precision where required, then unified memory and memory shared with the
/// host where required, each refused when the GPU has memory of the kind
/// that the requirement excludes.
pub fn verify_device(info: &PhysicalDeviceInfo, required: DeviceCapabilities) -> (r: Result<VerificationReport, DeviceRejection>)
    requires
        well_reported(*info, required),
    ensures
        r == verification(*info, required),
{
    let q = match find_compute_queue(&info.queue_family_compute) {
        Some(q) => q,
        None => {
            return Err(DeviceRejection::NoComputeQueue);
        },
    };
    let compute_queue_index = q as u32;
    if (info.max_compute_work_group_invocations as usize) < required.compute_units {
        return Err(DeviceRejection::TooFewInvocations {
            supported: info.max_compute_work_group_invocations,
            required: required.compute_units,
        });
    }
    let d = match info.max_work_group_size {
        Some(d) => d,
        None => {
            return Err(DeviceRejection::NoComputeQueue);
        },
    };
    let product = d[0] * d[1] * d[2];
    if (product as usize) < required.max_work_group_size {
        return Err(DeviceRejection::WorkGroupTooSmall { supported: d, required: required.max_work_group_size });
    }
    if (info.max_compute_shared_memory_size as usize) < required.local_memory_size {
        return Err(DeviceRejection::SharedMemoryTooSmall {
            supported: info.max_compute_shared_memory_size,
            required: required.local_memory_size,
        });
    }
    let max_memory_size = match info.max_memory_allocation_size {
        Some(m) => m,
        None => sum_heaps(&info.memory_heap_sizes),
    } as usize;
    if max_memory_size < required.global_memory_size {
        return Err(DeviceRejection::NotEnoughMemory {
            reported: max_memory_size,
            required: required.global_memory_size,
        });
    }
    if required.supports_fp64 && !info.shader_float64 {
        return Err(DeviceRejection::NoFloat64);
    }
    if required.supports_fp16 && !info.shader_float16 {
        return Err(DeviceRejection::NoFloat16);
    }
    if required.unified_memory && find_memory_type(&info.memory_types, true, false) {
        return Err(DeviceRejection::NoUnifiedMemory);
    }
    if required.shared_memory && find_memory_type(&info.memory_types, true, true) {
        return Err(DeviceRejection::NoHostSharedMemory);
    }
    let needs_staging = find_memory_type(&info.memory_types, false, true);
    Ok(VerificationReport { compute_queue_index, needs_staging })
}


/// The answers of `verify_device` for each GPU, in order.
pub fn verify_devices(infos: &Vec<PhysicalDeviceInfo>, required: DeviceCapabilities) -> (r: Vec<Result<VerificationReport, DeviceRejection>>)
    requires
        forall|i: int| 0 <= i < infos@.len() ==> well_reported(#[trigger] infos@[i], required),
    ensures
        r@.len() == infos@.len(),
        forall|i: int| 0 <= i < infos@.len() ==> #[trigger] r@[i] == verification(infos@[i], required),
{
    let mut r: Vec<Result<VerificationReport, DeviceRejection>> = Vec::new();
    let mut i: usize = 0;
    while i < infos.len()
        invariant
            i <= infos@.len(),
            r@.len() == i,
            forall|k: int| 0 <= k < infos@.len() ==> well_reported(#[trigger] infos@[k], required),
            forall|k: int| 0 <= k < i ==> #[trigger] r@[k] == verification(infos@[k], required),
        decreases infos@.len() - i,
    {
        r.push(verify_device(&infos[i], required));
        i = i + 1;
    }
    r
}

/// The Rust type that holds one element of a GPU buffer; its layout in the
/// buffer is the one that vulkano gives that type.
#[derive(Debug, Clone, Copy, PartialEq, Eq, Structural)]
pub enum ElementType {
    F16,
    BF16,
    F32,
    F64,
    I8,
    I16,
    I32,
    I64,
    U8,
    U16,
    U32,
    U64,
}

impl ElementType {
    /// Bytes that one value of the type takes.
    pub open spec fn width(self) -> nat {
        match self {
            ElementType::F16 => 2,
            ElementType::BF16 => 2,
            ElementType::F32 => 4,
            ElementType::F64 => 8,
            ElementType::I8 => 1,
            ElementType::I16 => 2,
            ElementType::I32 => 4,
            ElementType::I64 => 8,
            ElementType::U8 => 1,
            ElementType::U16 => 2,
            ElementType::U32 => 4,
            ElementType::U64 => 8,
        }
    }
}

/// The integer element types are as wide as the Rust integers they name.
pub proof fn lemma_element_type_widths()
    ensures
        ElementType::I8.width() == vstd::layout::size_of::<i8>(),
        ElementType::I16.width() == vstd::layout::size_of::<i16>(),
        ElementType::I32.width() == vstd::layout::size_of::<i32>(),
        ElementType::I64.width() == vstd::layout::size_of::<i64>(),
        ElementType::U8.width() == vstd::layout::size_of::<u8>(),
        ElementType::U16.width() == vstd::layout::size_of::<u16>(),
        ElementType::U32.width() == vstd::layout::size_of::<u32>(),
        ElementType::U64.width() == vstd::layout::size_of::<u64>(),
{
    broadcast use vstd::layout::layout_of_primitives;
}

/// A GPU buffer holds each element in a type exactly as wide as the
/// element: whenever an element type is chosen for a dtype, its width is
/// the dtype's size in bytes.
pub proof fn lemma_element_type_fits(dtype: DType)
    ensures
        element_type_of(dtype) matches Some(e) ==> e.width() == dtype.size_bytes(),
{
}

/// Each numeric dtype is held in the Rust type of the same name, booleans
/// and quantized bytes in bytes; 4-bit, 8-bit float and complex dtypes
/// have no element type.
pub proof fn lemma_element_type_names()
    ensures
        element_type_of(DType::F16) == Some(ElementType::F16),
        element_type_of(DType::BF16) == Some(ElementType::BF16),
        element_type_of(DType::F32) == Some(ElementType::F32),
        element_type_of(DType::F64) == Some(ElementType::F64),
        element_type_of(DType::I8) == Some(ElementType::I8),
        element_type_of(DType::I16) == Some(ElementType::I16),
        element_type_of(DType::I32) == Some(ElementType::I32),
        element_type_of(DType::I64) == Some(ElementType::I64),
        element_type_of(DType::U8) == Some(ElementType::U8),
        element_type_of(DType::U16) == Some(ElementType::U16),
        element_type_of(DType::U32) == Some(ElementType::U32),
        element_type_of(DType::U64) == Some(ElementType::U64),
        element_type_of(DType::Bool) == Some(ElementType::U8),
        element_type_of(DType::QU8) == Some(ElementType::U8),
        element_type_of(DType::QI4) is None,
        element_type_of(DType::BF8) is None,
        element_type_of(DType::F8E4M3FN) is None,
        element_type_of(DType::F8E5M2) is None,
        element_type_of(DType::Complex32) is None,
        element_type_of(DType::Complex64) is None,
        element_type_of(DType::Complex128) is None,
{
}

/// The type that holds an element of a GPU buffer of `dtype`: the type of
/// the same name, with booleans and quantized bytes held as bytes; none for
/// 4-bit, 8-bit float and complex types.
pub open spec fn element_type_of(dtype: DType) -> Option<ElementType> {
    match dtype {
        DType::F32 => Some(ElementType::F32),
        DType::F64 => Some(ElementType::F64),
        DType::F16 => Some(ElementType::F16),
        DType::I8 => Some(ElementType::I8),
        DType::I16 => Some(ElementType::I16),
        DType::I32 => Some(ElementType::I32),
        DType::I64 => Some(ElementType::I64),
        DType::U8 => Some(ElementType::U8),
        DType::U16 => Some(ElementType::U16),
        DType::U32 => Some(ElementType::U32),
        DType::U64 => Some(ElementType::U64),
        DType::Bool => Some(ElementType::U8),
        DType::BF16 => Some(ElementType::BF16),
        DType::QU8 => Some(ElementType::U8),
        _ => None,
    }
}

/// Message of the error for element types that GPU buffers do not hold.
pub open spec fn layout_error_message(dtype: DType) -> Seq<char> {
    match dtype {
        DType::QI4 => "4 bit types are not supported"@,
        DType::Complex32 | DType::Complex64 | DType::Complex128 => "complex types are not supported"@,
        _ => "8 bit float types are not supported"@,
    }
}

/// The type that holds an element of a GPU buffer of `dtype`, or a device
/// error for types that GPU buffers do not hold.
pub fn buffer_element_type(dtype: DType) -> (r: Result<ElementType, RuntimeError>)
    ensures
        r matches Ok(e) ==> e.width() == dtype.size_bytes(),
        match element_type_of(dtype) {
            Some(e) => r == Ok::<ElementType, RuntimeError>(e),
            None => r matches Err(RuntimeError::Device(msg)) && msg@ == layout_error_message(dtype),
        },
{
    match dtype {
        DType::F32 => Ok(ElementType::F32),
        DType::F64 => Ok(ElementType::F64),
        DType::F16 => Ok(ElementType::F16),
        DType::I8 => Ok(ElementType::I8),
        DType::I16 => Ok(ElementType::I16),
        DType::I32 => Ok(ElementType::I32),
        DType::I64 => Ok(ElementType::I64),
        DType::U8 => Ok(ElementType::U8),
        DType::U16 => Ok(ElementType::U16),
        DType::U32 => Ok(ElementType::U32),
        DType::U64 => Ok(ElementType::U64),
        DType::Bool => Ok(ElementType::U8),
        DType::BF16 => Ok(ElementType::BF16),
        DType::QU8 => Ok(ElementType::U8),
        DType::QI4 => Err(RuntimeError::Device(String::from_str("4 bit types are not supported"))),
        DType::Complex32 | DType::Complex64 | DType::Complex128 => Err(
            RuntimeError::Device(String::from_str("complex types are not supported")),
        ),
        DType::BF8 | DType::F8E4M3FN | DType::F8E5M2 => Err(
            RuntimeError::Device(String::from_str("8 bit float types are not supported")),
        ),
    }
}

/// How a GPU buffer is used.
#[derive(Debug, Clone, Copy, PartialEq, Eq, Structural)]
pub struct BufferUsageFlags {
    pub transfer_src: bool,
    pub transfer_dst: bool,
    pub storage_buffer: bool,
}

/// Properties that the memory of a GPU buffer must have.
#[derive(Debug, Clone, Copy, PartialEq, Eq, Structural)]
pub struct MemoryFlags {
    pub device_local: bool,
    pub host_visible: bool,
}

/// `Some(true)` requests a property; `None` and `Some(false)` do not.
pub open spec fn requested(p: Option<bool>) -> bool {
    p == Some(true)
}

fn is_requested(p: Option<bool>) -> (r: bool)
    ensures
        r == requested(p),
{
    match p {
        Some(b) => b,
        None => false,
    }
}

/// The usage of a buffer with `properties`: a transfer source if copied
/// from, a transfer destination if copied to, a storage buffer if the
/// device writes it.
pub fn buffer_usage(properties: BufferProperties) -> (u: BufferUsageFlags)
    ensures
        u.transfer_src == requested(properties.copy_source),
        u.transfer_dst == requested(properties.copy_destination),
        u.storage_buffer == requested(properties.device_write),
{
    BufferUsageFlags {
        transfer_src: is_requested(properties.copy_source),
        transfer_dst: is_requested(properties.copy_destination),
        storage_buffer: is_requested(properties.device_write),
    }
}

/// The memory a buffer with `properties` must have: device-local and
/// host-visible as requested.
pub fn required_memory_flags(properties: BufferProperties) -> (m: MemoryFlags)
    ensures
        m.device_local == requested(properties.device_local),
        m.host_visible == requested(properties.host_visible),
{
    MemoryFlags {
        device_local: is_requested(properties.device_local),
        host_visible: is_requested(properties.host_visible),
    }
}

/// The 8-bit element types.
pub open spec fn is_eight_bit(dtype: DType) -> bool {
    dtype == DType::I8 || dtype == DType::U8 || dtype == DType::QU8
}

/// Whether host data `data` for a buffer of `dtype` can be recorded for
/// staging on a device that keeps staging records (`has_staging_records`):
/// a device error when it keeps none, and a device error for the 8-bit
/// types. Other types are recorded; their copy of the data is made empty,
/// so the data must be empty too.
pub fn check_stage(has_staging_records: bool, dtype: DType, data: &[u8]) -> (r: crate::Result<()>)
    requires
        has_staging_records && !is_eight_bit(dtype) ==> data@.len() == 0,
    ensures
        if !has_staging_records {
            r matches Err(RuntimeError::Device(msg)) && msg@ == crate::device::cpu::no_staging_message()
        } else if is_eight_bit(dtype) {
            r matches Err(RuntimeError::Device(msg)) && msg@ == "Only 8 bit data types are supported for now"@
        } else {
            r is Ok
        },
{
    if !has_staging_records {
        return Err(RuntimeError::Device(String::from_str("This device does not require staging records")));
    }
    let eight_bit = match dtype {
        DType::I8 | DType::U8 | DType::QU8 => true,
        _ => false,
    };
    if eight_bit {
        return Err(RuntimeError::Device(String::from_str("Only 8 bit data types are supported for now")));
    }
    Ok(())
}

/// Whether recorded copies can be flushed on a device that keeps staging
/// records (`has_staging_records`): a device error when it keeps none.
pub fn check_flush(has_staging_records: bool) -> (r: crate::Result<()>)
    ensures
        if has_staging_records {
            r is Ok
        } else {
            r matches Err(RuntimeError::Device(msg)) && msg@ == crate::device::cpu::no_staging_message()
        },
{
    if !has_staging_records {
        return Err(RuntimeError::Device(String::from_str("This device does not require staging records")));
    }
    Ok(())
}

/// A Vulkan API version.
#[derive(Debug, Clone, Copy, PartialEq, Eq, Structural)]
pub struct ApiVersion {
    pub major: u32,
    pub minor: u32,
    pub patch: u32,
}

/// `v` is `min` or a later version: versions compare by major number, then
/// minor number, then patch number.
pub open spec fn version_at_least(v: ApiVersion, min: ApiVersion) -> bool {
    ||| v.major > min.major
    ||| v.major == min.major && v.minor > min.minor
    ||| v.major == min.major && v.minor == min.minor && v.patch >= min.patch
}

/// Whether `v` is `min` or a later version.
pub fn is_at_least(v: ApiVersion, min: ApiVersion) -> (r: bool)
    ensures
        r == version_at_least(v, min),
{
    if v.major != min.major {
        v.major > min.major
    } else if v.minor != min.minor {
        v.minor > min.minor
    } else {
        v.patch >= min.patch
    }
}

/// The oldest Vulkan version from which a macOS instance enumerates
/// portability devices.
pub open spec fn min_mac_version() -> ApiVersion {
    ApiVersion { major: 1, minor: 3, patch: 216 }
}

/// How a Vulkan instance is created.
#[derive(Debug, Clone, Copy, PartialEq, Eq, Structural)]
pub struct InstanceSetup {
    /// The debug-utils extension is enabled.
    pub debug_utils: bool,
    /// The validation layer is enabled, with its debug-printf feature.
    pub validation_layer: bool,
    /// Portability devices are enumerated, with the extensions that this
    /// needs.
    pub portability: bool,
}

/// How to create a Vulkan instance: debug utilities in debug builds, the
/// validation layer in debug builds that find it, and portability
/// enumeration on macOS with a recent enough Vulkan library.
pub fn instance_setup(debug: bool, validation_layer_found: bool, os: TargetOs, library_version: ApiVersion) -> (s: InstanceSetup)
    ensures
        s.debug_utils == debug,
        s.validation_layer == (debug && validation_layer_found),
        s.portability == (os == TargetOs::MacOs && version_at_least(library_version, min_mac_version())),
{
    let min_mac = ApiVersion { major: 1, minor: 3, patch: 216 };
    let on_mac = match os {
        TargetOs::MacOs => true,
        _ => false,
    };
    InstanceSetup {
        debug_utils: debug,
        validation_layer: debug && validation_layer_found,
        portability: on_mac && is_at_least(library_version, min_mac),
    }
}

} // verus!
