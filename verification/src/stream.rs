//! What the stream operations hand to the driver: the addresses, byte counts and
//! routes of allocations, fills and copies, worked out from the buffers involved.
use crate::driver::{contexts_equal, ctx_eq, stream_context, stream_ctx_of};
use crate::pointer::{byte_offset, elements_to_bytes, ClowViewable, ClowViewableMut};
use cudarc::driver::CudaStream;
use vstd::prelude::*;

verus! {

/// Whether device memory is allocated and freed in stream order.
pub const HAS_ASYNC_ALLOC: bool = true;

/// The number of bytes an allocation of `len` elements of `T` asks for.
pub fn alloc_bytes<T>(len: usize) -> (r: usize)
    requires
        byte_offset::<T>(len as int) <= usize::MAX,
    ensures
        r == byte_offset::<T>(len as int),
{
    elements_to_bytes::<T>(len)
}

/// A byte fill of device memory.
#[derive(Debug, Clone, Copy, PartialEq, Eq, Structural)]
pub struct Memset {
    pub dst: u64,
    pub value: u8,
    pub num_bytes: usize,
}

/// The fill that zeroes all of `dst`: every byte of its elements set to zero.
pub fn memset_zeros_op<T, Dst: ClowViewableMut<T>>(dst: &Dst) -> (r: Memset)
    requires
        byte_offset::<T>(dst.elem_count() as int) <= usize::MAX,
    ensures
        r == (Memset {
            dst: dst.device_addr(),
            value: 0,
            num_bytes: byte_offset::<T>(dst.elem_count() as int) as usize,
        }),
{
    let num_bytes = dst.num_bytes();
    let p = dst.as_device_ptr();
    Memset { dst: p.as_raw(), value: 0, num_bytes }
}

/// The device address a host-to-device copy of `src_len` elements writes to.
/// The destination has to hold at least as many elements as the source.
pub fn memcpy_htod_dst<T, Dst: ClowViewableMut<T>>(src_len: usize, dst: &Dst) -> (r: u64)
    requires
        src_len <= dst.elem_count(),
    ensures
        r == dst.device_addr(),
{
    let p = dst.as_device_ptr();
    p.as_raw()
}

/// The device address a device-to-host copy into `dst_len` elements reads from.
/// The destination has to hold at least as many elements as the source.
pub fn memcpy_dtoh_src<T, Src: ClowViewable<T>>(src: &Src, dst_len: usize) -> (r: u64)
    requires
        src.elem_count() <= dst_len,
    ensures
        r == src.device_addr(),
{
    let p = src.as_device_ptr();
    p.as_raw()
}

/// A device-to-device copy: from `src` to `dst`, `num_bytes` bytes, across
/// contexts (`peer`) or within one.
#[derive(Debug, Clone, Copy, PartialEq, Eq, Structural)]
pub struct DeviceCopy {
    pub dst: u64,
    pub src: u64,
    pub num_bytes: usize,
    pub peer: bool,
}

/// The device-to-device copy of all of `src` into `dst`, given whether the two
/// streams share their context. The destination has to hold at least as many
/// elements as the source.
pub fn memcpy_dtod_route<T, Src: ClowViewable<T>, Dst: ClowViewableMut<T>>(
    same_context: bool,
    src: &Src,
    dst: &Dst,
) -> (r: DeviceCopy)
    requires
        src.elem_count() <= dst.elem_count(),
        byte_offset::<T>(src.elem_count() as int) <= usize::MAX,
    ensures
        r == (DeviceCopy {
            dst: dst.device_addr(),
            src: src.device_addr(),
            num_bytes: byte_offset::<T>(src.elem_count() as int) as usize,
            peer: !same_context,
        }),
{
    let num_bytes = src.num_bytes();
    let s = src.as_device_ptr();
    let d = dst.as_device_ptr();
    DeviceCopy { dst: d.as_raw(), src: s.as_raw(), num_bytes, peer: !same_context }
}

/// The device-to-device copy of all of `src` (on `src_stream`) into `dst` (on
/// `dst_stream`): a peer copy exactly where the two streams' contexts do not
/// compare equal.
pub fn memcpy_dtod_op<T, Src: ClowViewable<T>, Dst: ClowViewableMut<T>>(
    dst_stream: &CudaStream,
    src_stream: &CudaStream,
    src: &Src,
    dst: &Dst,
) -> (r: DeviceCopy)
    requires
        src.elem_count() <= dst.elem_count(),
        byte_offset::<T>(src.elem_count() as int) <= usize::MAX,
    ensures
        r.dst == dst.device_addr(),
        r.src == src.device_addr(),
        r.num_bytes == byte_offset::<T>(src.elem_count() as int),
        r.peer == !ctx_eq(*stream_ctx_of(*src_stream), *stream_ctx_of(*dst_stream)),
{
    let src_ctx = stream_context(src_stream);
    let dst_ctx = stream_context(dst_stream);
    let same = contexts_equal(src_ctx, dst_ctx);
    memcpy_dtod_route(same, src, dst)
}

} // verus!
