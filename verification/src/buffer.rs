//! Device buffers that carry no synchronization of their own.
use crate::driver::{context_ordinal, ordinal_of, stream_context, stream_ctx_of};
use crate::pointer::{
    byte_offset, elements_to_bytes, ClowPointable, ClowPtr, ClowSized, ClowView, ClowViewMut,
    ClowViewable, ClowViewableMut,
};
use crate::stream::HAS_ASYNC_ALLOC;
use cudarc::driver::{CudaContext, CudaStream};
use std::sync::Arc;
use vstd::prelude::*;

verus! {

/// A device buffer of `len` elements of `T`, allocated on `stream`.
///
/// It does no event tracking or synchronization: that is left to the user.
#[derive(Debug)]
pub struct ClowSlice<T: ?Sized> {
    pub(crate) ptr: ClowPtr<T>,
    pub(crate) len: usize,
    pub(crate) stream: Arc<CudaStream>,
}

/// What releasing a buffer hands to the driver.
#[derive(Debug, Clone, Copy, PartialEq, Eq, Structural)]
pub enum Release {
    /// Nothing is freed.
    Keep,
    /// The address is freed in stream order.
    FreeAsync { ptr: u64 },
    /// The stream is synchronized, then the address is freed.
    SyncThenFree { ptr: u64 },
}

/// The release a drop of a buffer at `addr` spanning `len` elements performs.
///
/// A null buffer is left alone. An empty one frees nothing. Otherwise the
/// pointer is reset to null first; with stream-ordered allocation the address
/// handed to the asynchronous free is then read from the reset pointer, so it is
/// null. Without it, the stream is synchronized and the old address freed.
pub open spec fn spec_release(addr: u64, len: usize) -> Release {
    if addr == 0 || len == 0 {
        Release::Keep
    } else if HAS_ASYNC_ALLOC {
        Release::FreeAsync { ptr: 0 }
    } else {
        Release::SyncThenFree { ptr: addr }
    }
}

/// The decisions of dropping a buffer that starts at `ptr` and spans `len`
/// elements: what to free, and the state the buffer is left in. A null buffer is
/// not touched; otherwise the length is reset to zero, and where the buffer held
/// elements the pointer is reset to null as well.
pub fn release_buffer<T: ?Sized>(ptr: &mut ClowPtr<T>, len: &mut usize) -> (r: Release)
    ensures
        r == spec_release(old(ptr).addr(), *old(len)),
        (old(ptr).addr() == 0 || *old(len) == 0) ==> r == Release::Keep,
        old(ptr).addr() != 0 && *old(len) > 0 && HAS_ASYNC_ALLOC ==> r == (Release::FreeAsync {
            ptr: 0,
        }),
        old(ptr).addr() != 0 && *old(len) > 0 && !HAS_ASYNC_ALLOC ==> r == (Release::SyncThenFree {
            ptr: old(ptr).addr(),
        }),
        old(ptr).addr() == 0 ==> *final(ptr) == *old(ptr) && *final(len) == *old(len),
        old(ptr).addr() != 0 ==> *final(len) == 0,
        old(ptr).addr() != 0 && *old(len) > 0 ==> final(ptr).addr() == 0,
        old(ptr).addr() != 0 && *old(len) == 0 ==> *final(ptr) == *old(ptr),
{
    if ptr.is_null() {
        return Release::Keep;
    }
    let mut r = Release::Keep;
    if *len > 0 {
        let old_ptr = *ptr;
        *ptr = ClowPtr::null();
        if HAS_ASYNC_ALLOC {
            r = Release::FreeAsync { ptr: ptr.as_raw() };
        } else {
            r = Release::SyncThenFree { ptr: old_ptr.as_raw() };
        }
    }
    *len = 0;
    r
}

impl<T: ?Sized> ClowSlice<T> {
    /// Where the buffer starts.
    pub closed spec fn base(self) -> ClowPtr<T> {
        self.ptr
    }

    /// The number of elements in the buffer.
    pub closed spec fn length(self) -> usize {
        self.len
    }

    /// The stream the buffer belongs to.
    pub closed spec fn stream_of(self) -> Arc<CudaStream> {
        self.stream
    }

    /// The ordinal of the device the buffer's stream runs on.
    pub fn ordinal(&self) -> (r: usize)
        ensures
            r == ordinal_of(*stream_ctx_of(*self.stream_of())),
    {
        context_ordinal(stream_context(&self.stream))
    }

    /// The context of the buffer's stream.
    pub fn context(&self) -> (r: &Arc<CudaContext>)
        ensures
            *r == stream_ctx_of(*self.stream_of()),
    {
        stream_context(&self.stream)
    }

    pub fn stream(&self) -> (r: &Arc<CudaStream>)
        ensures
            *r == self.stream_of(),
    {
        &self.stream
    }

    /// The decisions of dropping the buffer: what to free, and the state the
    /// buffer is left in (see [`release_buffer`]).
    pub fn release(&mut self) -> (r: Release)
        ensures
            r == spec_release(old(self).base().addr(), old(self).length()),
            final(self).stream_of() == old(self).stream_of(),
            old(self).base().addr() == 0 ==> *final(self) == *old(self),
            old(self).base().addr() != 0 ==> final(self).length() == 0,
            old(self).base().addr() != 0 && old(self).length() > 0 ==> final(self).base().addr()
                == 0,
            old(self).base().addr() != 0 && old(self).length() == 0 ==> final(self).base()
                == old(self).base(),
    {
        release_buffer(&mut self.ptr, &mut self.len)
    }

    /// The address an asynchronous drop frees: the buffer's own, unless it is null.
    pub fn async_release(&self) -> (r: Option<u64>)
        ensures
            r == (if self.base().addr() == 0 {
                None
            } else {
                Some(self.base().addr())
            }),
    {
        if self.ptr.is_null() {
            None
        } else {
            Some(self.ptr.as_raw())
        }
    }
}

impl<T> ClowSlice<T> {
    pub fn len(&self) -> (r: usize)
        ensures
            r == self.length(),
    {
        self.len
    }

    pub fn num_bytes(&self) -> (r: usize)
        requires
            byte_offset::<T>(self.length() as int) <= usize::MAX,
        ensures
            r == byte_offset::<T>(self.length() as int),
    {
        elements_to_bytes::<T>(self.len)
    }

    pub fn is_empty(&self) -> (r: bool)
        ensures
            r == (self.length() == 0),
    {
        self.len == 0
    }

    /// The number of bytes that an uninitialized buffer of `len` elements asks
    /// the driver for: `len` itself (the count is not scaled by the element
    /// size), or no allocation at all, with a null pointer, where `len` or the
    /// element size is zero.
    pub fn uninit_bytes(len: usize) -> (r: Option<usize>)
        ensures
            r == (if len > 0 && vstd::layout::size_of::<T>() > 0 {
                Some(len)
            } else {
                None
            }),
    {
        if len > 0 && core::mem::size_of::<T>() > 0 {
            Some(len)
        } else {
            None
        }
    }

    pub fn from_raw_parts(ptr: ClowPtr<T>, len: usize, stream: Arc<CudaStream>) -> (r: Self)
        ensures
            r.base() == ptr,
            r.length() == len,
            r.stream_of() == stream,
    {
        ClowSlice { ptr, len, stream }
    }
}

impl<T: ?Sized> ClowPointable<T> for ClowSlice<T> {
    open spec fn device_addr(&self) -> u64 {
        self.base().addr()
    }

    fn as_device_ptr(&self) -> (r: ClowPtr<T>) {
        self.ptr
    }
}

impl<T> ClowSized<T> for ClowSlice<T> {
    open spec fn elem_count(&self) -> nat {
        self.length() as nat
    }

    fn num_bytes(&self) -> (r: usize)
        ensures
            r == self.length() * vstd::layout::size_of::<T>(),
    {
        elements_to_bytes::<T>(self.len)
    }

    fn len(&self) -> (r: usize)
        ensures
            r == self.length(),
    {
        self.len
    }
}

impl<T> ClowViewable<T> for ClowSlice<T> {
    fn get_view(&self) -> (r: ClowView<T>)
        ensures
            r.base() == self.base(),
            r.length() == self.length() as u64,
    {
        ClowView::from_ptr(self.ptr, self.len)
    }
}

impl<T> ClowViewableMut<T> for ClowSlice<T> {
    fn get_view_mut(&mut self) -> (r: ClowViewMut<T>)
        ensures
            *final(self) == *old(self),
            r.as_spec_view().base() == old(self).base(),
            r.as_spec_view().length() == old(self).length() as u64,
    {
        ClowViewMut::from_ptr(self.ptr, self.len)
    }
}

/// Through the sizing trait a buffer spans exactly the elements it was made
/// with: its element count is its length, its byte size that many elements of
/// `T`, and a view of it spans the same elements from the same address.
pub proof fn lemma_slice_sized_as_built<T>(s: ClowSlice<T>)
    ensures
        s.elem_count() == s.length(),
        s.device_addr() == s.base().addr(),
        byte_offset::<T>(s.elem_count() as int) == s.length() * vstd::layout::size_of::<T>(),
        ClowView::<T>::from_parts(s.base().addr(), s.length() as u64).elem_count()
            == s.elem_count(),
{
    ClowView::<T>::lemma_from_parts(s.base().addr(), s.length() as u64);
}

/// Dropping a buffer that holds memory hands a free to the driver, never
/// nothing; and a null or empty buffer frees nothing.
pub proof fn lemma_release_frees_held_memory(addr: u64, len: usize)
    ensures
        addr != 0 && len > 0 ==> spec_release(addr, len) != Release::Keep,
        addr != 0 && len > 0 && HAS_ASYNC_ALLOC ==> spec_release(addr, len) is FreeAsync,
        addr != 0 && len > 0 && !HAS_ASYNC_ALLOC ==> spec_release(addr, len) == (
        Release::SyncThenFree { ptr: addr }),
        addr == 0 || len == 0 ==> spec_release(addr, len) == Release::Keep,
{
}

/// Dropping a buffer a second time does nothing: from any state a release can
/// leave a buffer at `addr` with `len` elements in, a further release frees nothing.
pub proof fn lemma_release_once(addr: u64, len: usize, addr_after: u64, len_after: usize)
    requires
        addr == 0 ==> addr_after == addr && len_after == len,
        addr != 0 ==> len_after == 0,
    ensures
        spec_release(addr_after, len_after) == Release::Keep,
{
}

} // verus!
