use std::marker::PhantomData;
use std::ops::Range;
use vstd::prelude::*;

verus! {

/// 2^64: the number of distinct device addresses.
pub open spec fn address_space() -> int {
    0x1_0000_0000_0000_0000
}

/// Number of bytes that `count` elements of `T` take, as a mathematical integer.
pub open spec fn byte_offset<T>(count: int) -> int {
    count * vstd::layout::size_of::<T>()
}

/// A typed device pointer: the raw device address, tagged with the element type.
#[derive(Debug, PartialEq, Eq, PartialOrd, Ord, Hash)]
pub struct ClowPtr<T: ?Sized> {
    pub(crate) ptr: u64,
    pub(crate) _t: PhantomData<T>,
}

impl<T: ?Sized> Clone for ClowPtr<T> {
    fn clone(&self) -> (r: Self)
        ensures
            r == *self,
    {
        ClowPtr { ptr: self.ptr, _t: PhantomData }
    }
}

impl<T: ?Sized> Copy for ClowPtr<T> {

}

impl<T: ?Sized> ClowPtr<T> {
    /// The raw device address held by the pointer.
    pub closed spec fn addr(self) -> u64 {
        self.ptr
    }

    /// Two pointers to the same element type are equal exactly when their addresses are.
    pub proof fn lemma_addr_determines(a: Self, b: Self)
        ensures
            (a == b) <==> (a.addr() == b.addr()),
    {
    }

    pub fn from_raw_parts(ptr: u64) -> (r: Self)
        ensures
            r.addr() == ptr,
    {
        ClowPtr { ptr, _t: PhantomData }
    }

    pub fn null() -> (r: Self)
        ensures
            r.addr() == 0,
    {
        ClowPtr { ptr: 0, _t: PhantomData }
    }

    /// The raw device address, as the driver takes it.
    pub fn as_raw(&self) -> (r: u64)
        ensures
            r == self.addr(),
    {
        self.ptr
    }

    pub fn is_null(&self) -> (r: bool)
        ensures
            r == (self.addr() == 0),
    {
        self.ptr == 0
    }

    /// Reinterprets the pointer as one to another element type; the address is kept.
    pub fn cast<U: ?Sized>(self) -> (r: ClowPtr<U>)
        ensures
            r.addr() == self.addr(),
    {
        ClowPtr { ptr: self.ptr, _t: PhantomData }
    }
}

impl<T> ClowPtr<T> {
    /// Moves the pointer by `count` elements of `T`.
    ///
    /// The byte offset `count * size_of::<T>()` has to fit in an `isize`, and the
    /// resulting address has to be a device address.
    pub fn offset(self, count: isize) -> (r: Self)
        requires
            isize::MIN <= byte_offset::<T>(count as int) <= isize::MAX,
            0 <= self.addr() + byte_offset::<T>(count as int) < address_space(),
        ensures
            r.addr() == self.addr() + byte_offset::<T>(count as int),
    {
        let size: usize = core::mem::size_of::<T>();
        let bytes: i128 = (count as i128) * (size as i128);
        let addr: i128 = (self.ptr as i128) + bytes;
        ClowPtr { ptr: addr as u64, _t: PhantomData }
    }

    /// Moves the pointer by `count` elements of `T`, wrapping around the device
    /// address space instead of failing.
    pub fn wrapping_offset(self, count: isize) -> (r: Self)
        ensures
            r.addr() == (self.addr() + byte_offset::<T>(count as int)) % address_space(),
    {
        vstd::layout::layout_for_type_is_valid::<T>();
        let size: usize = core::mem::size_of::<T>();
        proof {
            assert(0 <= size <= isize::MAX);
            assert(-0x8000_0000_0000_0000 * 0x7fff_ffff_ffff_ffff <= count as int * size as int
                <= 0x7fff_ffff_ffff_ffff * 0x7fff_ffff_ffff_ffff) by (nonlinear_arith)
                requires
                    -0x8000_0000_0000_0000 <= count <= 0x7fff_ffff_ffff_ffff,
                    0 <= size <= 0x7fff_ffff_ffff_ffff,
            ;
        }
        let bytes: i128 = (count as i128) * (size as i128);
        // shift by a multiple of 2^64 so that the sum is non-negative
        let shifted: u128 = ((bytes + 0x4000_0000_0000_0000_0000_0000_0000_0000i128) as u128) + (
        self.ptr as u128);
        let wrapped: u128 = shifted % 0x1_0000_0000_0000_0000u128;
        proof {
            let x = self.ptr as int + bytes as int;
            assert(shifted as int == address_space() * 0x4000_0000_0000_0000 + x);
            vstd::arithmetic::div_mod::lemma_mod_multiples_vanish(
                0x4000_0000_0000_0000,
                x,
                address_space(),
            );
        }
        ClowPtr { ptr: wrapped as u64, _t: PhantomData }
    }
}

/// A device pointer with an element count: a fat pointer into device memory.
#[derive(Debug, PartialEq, Eq, PartialOrd, Ord)]
pub struct ClowView<T: ?Sized> {
    ptr: ClowPtr<T>,
    len: u64,
}

impl<T: ?Sized> Clone for ClowView<T> {
    fn clone(&self) -> (r: Self)
        ensures
            r == *self,
    {
        ClowView { ptr: self.ptr, len: self.len }
    }
}

impl<T: ?Sized> Copy for ClowView<T> {

}

/// Number of elements `a..b` covers: `b - a`, or none where `b <= a`.
pub open spec fn range_len(r: Range<usize>) -> int {
    if r.start < r.end {
        r.end - r.start
    } else {
        0
    }
}

/// The element count of a range, as `Range::len` computes it.
fn range_count(r: &Range<usize>) -> (n: usize)
    ensures
        n == range_len(*r),
{
    if r.start < r.end {
        r.end - r.start
    } else {
        0
    }
}

impl<T: ?Sized> ClowView<T> {
    /// Where the view starts.
    pub closed spec fn base(self) -> ClowPtr<T> {
        self.ptr
    }

    /// The number of elements the view spans.
    pub closed spec fn length(self) -> u64 {
        self.len
    }

    /// Two views are equal exactly when they start at the same address and span
    /// the same number of elements.
    pub proof fn lemma_fields_determine(a: Self, b: Self)
        ensures
            (a == b) <==> (a.base().addr() == b.base().addr() && a.length() == b.length()),
    {
    }

    pub fn from_ptr(ptr: ClowPtr<T>, len: usize) -> (r: Self)
        ensures
            r.base() == ptr,
            r.length() == len as u64,
    {
        ClowView { ptr, len: len as u64 }
    }
}

/// Whether `v.index(range)` returns a view.
pub open spec fn index_in_bounds<T: ?Sized>(v: ClowView<T>, range: Range<usize>) -> bool {
    range.end <= (v.length() as usize)
}

/// The byte offset at which `index` places the start of the sub-view: the start
/// index is first scaled to bytes, and `offset` then scales that count by the
/// element size once more.
pub open spec fn index_shift<T>(range: Range<usize>) -> int {
    byte_offset::<T>(byte_offset::<T>(range.start as int))
}

/// The inputs on which `index` is defined: where the range is in bounds, the
/// shifted start has to be a representable offset and a device address.
pub open spec fn index_defined<T>(v: ClowView<T>, range: Range<usize>) -> bool {
    index_in_bounds(v, range) ==> {
        &&& index_shift::<T>(range) <= isize::MAX
        &&& v.base().addr() + index_shift::<T>(range) < address_space()
    }
}

/// What `index` returns for `range`.
pub open spec fn index_result<T>(v: ClowView<T>, range: Range<usize>) -> Option<(u64, u64)> {
    if index_in_bounds(v, range) {
        Some(((v.base().addr() + index_shift::<T>(range)) as u64, range_len(range) as u64))
    } else {
        None
    }
}

proof fn lemma_index_bytes_fit(start: int, size: int)
    requires
        0 <= start,
        0 <= size,
        start * size * size <= isize::MAX,
    ensures
        start * size <= isize::MAX,
{
    if size > 0 {
        assert(start * size <= start * size * size) by (nonlinear_arith)
            requires
                0 <= start,
                1 <= size,
        ;
    } else {
        assert(start * size == 0) by (nonlinear_arith)
            requires
                size == 0,
        ;
    }
}

impl<T> ClowView<T> {
    /// The sub-view for `range`, or `None` where `range.end` is past the view's end.
    pub fn index(&self, range: Range<usize>) -> (r: Option<Self>)
        requires
            index_defined(*self, range),
        ensures
            match index_result(*self, range) {
                Some((addr, len)) => r matches Some(w) && w.base().addr() == addr && w.length()
                    == len,
                None => r is None,
            },
    {
        if range.end <= self.len as usize {
            let size: usize = core::mem::size_of::<T>();
            proof {
                lemma_index_bytes_fit(range.start as int, size as int);
                assert(0 <= range.start as int * size as int) by (nonlinear_arith)
                    requires
                        0 <= range.start,
                        0 <= size,
                ;
                assert(0 <= range.start as int * size as int * size as int) by (nonlinear_arith)
                    requires
                        0 <= range.start,
                        0 <= size,
                ;
            }
            let count: usize = range.start * size;
            let ptr = self.ptr.offset(count as isize);
            let n: usize = range_count(&range);
            Some(ClowView { ptr, len: n as u64 })
        } else {
            None
        }
    }
}

/// A view through which the device memory may be written.
#[derive(Debug, PartialEq, Eq, PartialOrd, Ord)]
pub struct ClowViewMut<T: ?Sized>(ClowView<T>);

impl<T: ?Sized> Clone for ClowViewMut<T> {
    fn clone(&self) -> (r: Self)
        ensures
            r == *self,
    {
        ClowViewMut(self.0.clone())
    }
}

impl<T: ?Sized> Copy for ClowViewMut<T> {

}

impl<T: ?Sized> ClowViewMut<T> {
    /// The same memory seen as a read-only view.
    pub closed spec fn as_spec_view(self) -> ClowView<T> {
        self.0
    }

    /// Two writable views are equal exactly when the views they give are.
    pub proof fn lemma_view_determines(a: Self, b: Self)
        ensures
            (a == b) <==> (a.as_spec_view() == b.as_spec_view()),
    {
    }

    pub fn from_ptr(ptr: ClowPtr<T>, len: usize) -> (r: Self)
        ensures
            r.as_spec_view().base() == ptr,
            r.as_spec_view().length() == len as u64,
    {
        ClowViewMut(ClowView::from_ptr(ptr, len))
    }

    /// Borrows the read-only view of the same memory.
    pub fn as_view(&self) -> (r: &ClowView<T>)
        ensures
            *r == self.as_spec_view(),
    {
        &self.0
    }

    /// Borrows the read-only view of the same memory, for modification.
    pub fn as_view_mut(&mut self) -> (r: &mut ClowView<T>)
        ensures
            *r == old(self).as_spec_view(),
            final(self).as_spec_view() == *final(r),
    {
        &mut self.0
    }
}

impl<T> ClowViewMut<T> {
    /// The writable sub-view for `range`; see [`ClowView::index`].
    pub fn index_mut(&mut self, range: Range<usize>) -> (r: Option<Self>)
        requires
            index_defined(old(self).as_spec_view(), range),
        ensures
            *final(self) == *old(self),
            match index_result(old(self).as_spec_view(), range) {
                Some((addr, len)) => r matches Some(w) && w.as_spec_view().base().addr() == addr
                    && w.as_spec_view().length() == len,
                None => r is None,
            },
    {
        match self.0.index(range) {
            Some(va) => Some(ClowViewMut(va)),
            None => None,
        }
    }
}

impl<T: ?Sized> core::ops::Deref for ClowViewMut<T> {
    type Target = ClowView<T>;

    fn deref(&self) -> (r: &ClowView<T>)
        ensures
            *r == self.as_spec_view(),
    {
        &self.0
    }
}

impl<T: ?Sized> From<ClowView<T>> for ClowPtr<T> {
    fn from(value: ClowView<T>) -> (r: Self) {
        value.ptr
    }
}

impl<T: ?Sized> vstd::std_specs::convert::FromSpecImpl<ClowView<T>> for ClowPtr<T> {
    open spec fn obeys_from_spec() -> bool {
        true
    }

    open spec fn from_spec(v: ClowView<T>) -> Self {
        v.base()
    }
}

impl<T: ?Sized> From<ClowViewMut<T>> for ClowPtr<T> {
    fn from(value: ClowViewMut<T>) -> (r: Self) {
        value.0.ptr
    }
}

impl<T: ?Sized> vstd::std_specs::convert::FromSpecImpl<ClowViewMut<T>> for ClowPtr<T> {
    open spec fn obeys_from_spec() -> bool {
        true
    }

    open spec fn from_spec(v: ClowViewMut<T>) -> Self {
        v.as_spec_view().base()
    }
}

impl<T> From<u64> for ClowPtr<T> {
    fn from(value: u64) -> (r: Self) {
        ClowPtr { ptr: value, _t: PhantomData }
    }
}

impl<T> vstd::std_specs::convert::FromSpecImpl<u64> for ClowPtr<T> {
    open spec fn obeys_from_spec() -> bool {
        true
    }

    open spec fn from_spec(v: u64) -> Self {
        ClowPtr::<T>::from_addr(v)
    }
}

impl<T: ?Sized> ClowPtr<T> {
    /// The pointer holding the address `a`.
    pub closed spec fn from_addr(a: u64) -> Self {
        ClowPtr { ptr: a, _t: PhantomData }
    }

    pub proof fn lemma_from_addr(a: u64)
        ensures
            Self::from_addr(a).addr() == a,
    {
    }
}


/// Something that can hand out a device pointer to its data.
pub trait ClowPointable<T: ?Sized> {
    /// The device address the object's data starts at.
    spec fn device_addr(&self) -> u64;

    /// Returns a device pointer to the underlying data from the object.
    fn as_device_ptr(&self) -> (r: ClowPtr<T>)
        ensures
            r.addr() == self.device_addr(),
    ;
}

/// Something that spans a number of elements of `T` in device memory.
pub trait ClowSized<T>: ClowPointable<T> {
    /// The number of elements spanned.
    spec fn elem_count(&self) -> nat;

    /// Returns the size of the data in bytes.
    fn num_bytes(&self) -> (r: usize)
        requires
            byte_offset::<T>(self.elem_count() as int) <= usize::MAX,
        ensures
            r == byte_offset::<T>(self.elem_count() as int),
    ;

    /// Returns the number of elements.
    fn len(&self) -> (r: usize)
        ensures
            r == self.elem_count(),
    ;
}

/// Something a read-only view of can be taken.
pub trait ClowViewable<T>: ClowPointable<T> + ClowSized<T> {
    fn get_view(&self) -> (r: ClowView<T>)
        ensures
            r.base().addr() == self.device_addr(),
            r.elem_count() == self.elem_count(),
    ;
}

/// Something a writable view of can be taken.
pub trait ClowViewableMut<T>: ClowPointable<T> + ClowSized<T> {
    fn get_view_mut(&mut self) -> (r: ClowViewMut<T>)
        ensures
            final(self).device_addr() == old(self).device_addr(),
            final(self).elem_count() == old(self).elem_count(),
            r.as_spec_view().base().addr() == old(self).device_addr(),
            r.elem_count() == old(self).elem_count(),
    ;
}

impl<T: ?Sized> ClowPointable<T> for ClowPtr<T> {
    open spec fn device_addr(&self) -> u64 {
        self.addr()
    }

    fn as_device_ptr(&self) -> (r: ClowPtr<T>) {
        *self
    }
}

impl<T> ClowPointable<T> for ClowView<T> {
    open spec fn device_addr(&self) -> u64 {
        self.base().addr()
    }

    fn as_device_ptr(&self) -> (r: ClowPtr<T>) {
        self.ptr
    }
}

impl<T> ClowViewable<T> for ClowView<T> {
    fn get_view(&self) -> (r: ClowView<T>)
        ensures
            r == *self,
    {
        *self
    }
}

impl<T> ClowViewableMut<T> for ClowViewMut<T> {
    fn get_view_mut(&mut self) -> (r: ClowViewMut<T>)
        ensures
            r == *old(self),
            *final(self) == *old(self),
    {
        *self
    }
}

/// Number of bytes in `len` elements of `T`, computed in `usize`.
pub(crate) fn elements_to_bytes<T>(len: usize) -> (r: usize)
    requires
        byte_offset::<T>(len as int) <= usize::MAX,
    ensures
        r == byte_offset::<T>(len as int),
{
    let size: usize = core::mem::size_of::<T>();
    len * size
}

impl<T> ClowSized<T> for ClowView<T> {
    open spec fn elem_count(&self) -> nat {
        (self.length() as usize) as nat
    }

    fn num_bytes(&self) -> (r: usize) {
        elements_to_bytes::<T>(self.len as usize)
    }

    fn len(&self) -> (r: usize) {
        self.len as usize
    }
}

impl<T> ClowPointable<T> for ClowViewMut<T> {
    open spec fn device_addr(&self) -> u64 {
        self.as_spec_view().base().addr()
    }

    fn as_device_ptr(&self) -> (r: ClowPtr<T>) {
        self.0.ptr
    }
}

impl<T> ClowSized<T> for ClowViewMut<T> {
    open spec fn elem_count(&self) -> nat {
        (self.as_spec_view().length() as usize) as nat
    }

    fn num_bytes(&self) -> (r: usize) {
        elements_to_bytes::<T>(self.0.len as usize)
    }

    fn len(&self) -> (r: usize) {
        self.0.len as usize
    }
}


impl<T: ?Sized> ClowView<T> {
    /// The view that starts at `addr` and spans `len` elements.
    pub closed spec fn from_parts(addr: u64, len: u64) -> Self {
        ClowView { ptr: ClowPtr::from_addr(addr), len }
    }

    pub proof fn lemma_from_parts(addr: u64, len: u64)
        ensures
            Self::from_parts(addr, len).base().addr() == addr,
            Self::from_parts(addr, len).length() == len,
    {
    }
}

/// Moving a pointer by `a` elements and then by `b` elements lands where moving it
/// by `a + b` elements does.
pub proof fn lemma_offset_composes<T>(addr: int, a: int, b: int)
    ensures
        addr + byte_offset::<T>(a) + byte_offset::<T>(b) == addr + byte_offset::<T>(a + b),
{
    assert(a * vstd::layout::size_of::<T>() + b * vstd::layout::size_of::<T>() == (a + b)
        * vstd::layout::size_of::<T>()) by (nonlinear_arith);
}

/// Moving a pointer by zero elements keeps it where it is.
pub proof fn lemma_offset_zero<T>(addr: int)
    ensures
        addr + byte_offset::<T>(0) == addr,
{
}

/// Wrapping moves compose too: moving by `a` and then by `b` elements, each
/// wrapping around the address space, lands where one wrapping move by `a + b` does.
pub proof fn lemma_wrapping_offset_composes<T>(addr: u64, a: int, b: int)
    ensures
        ((addr + byte_offset::<T>(a)) % address_space() + byte_offset::<T>(b)) % address_space()
            == (addr + byte_offset::<T>(a + b)) % address_space(),
{
    lemma_offset_composes::<T>(addr as int, a, b);
    vstd::arithmetic::div_mod::lemma_add_mod_noop(
        addr + byte_offset::<T>(a),
        byte_offset::<T>(b),
        address_space(),
    );
    vstd::arithmetic::div_mod::lemma_mod_twice(addr + byte_offset::<T>(a), address_space());
    vstd::arithmetic::div_mod::lemma_add_mod_noop(
        (addr + byte_offset::<T>(a)) % address_space(),
        byte_offset::<T>(b),
        address_space(),
    );
}

/// Where the exact move is defined, the wrapping move gives the same address.
pub proof fn lemma_wrapping_offset_agrees<T>(addr: u64, count: int)
    requires
        0 <= addr + byte_offset::<T>(count) < address_space(),
    ensures
        (addr + byte_offset::<T>(count)) % address_space() == addr + byte_offset::<T>(count),
{
    vstd::arithmetic::div_mod::lemma_small_mod(
        (addr + byte_offset::<T>(count)) as nat,
        address_space() as nat,
    );
}

/// Taking the range `0..len` of a view gives the view itself.
pub proof fn lemma_index_whole<T>(v: ClowView<T>)
    ensures
        index_result(v, 0..(v.length() as usize)) == Some(
            (v.base().addr(), (v.length() as usize) as u64),
        ),
{
    assert(byte_offset::<T>(0) == 0);
    assert(byte_offset::<T>(byte_offset::<T>(0)) == 0);
}

/// Slicing a slice: taking `c..d` of the sub-view `a..b` of a view gives what
/// taking `a + c..a + d` of the view gives, where `a <= b` and `c <= d`.
pub proof fn lemma_index_composes<T>(v: ClowView<T>, a: usize, b: usize, c: usize, d: usize)
    requires
        a <= b,
        c <= d,
        a + d <= usize::MAX,
        index_in_bounds(v, a..b),
        index_defined(v, a..b),
        index_in_bounds(
            ClowView::<T>::from_parts(index_result(v, a..b).unwrap().0, index_result(v, a..b).unwrap().1),
            c..d,
        ),
        index_defined(
            ClowView::<T>::from_parts(index_result(v, a..b).unwrap().0, index_result(v, a..b).unwrap().1),
            c..d,
        ),
    ensures
        ({
            let (addr1, len1) = index_result(v, a..b).unwrap();
            let w = ClowView::<T>::from_parts(addr1, len1);
            index_result(v, (a + c) as usize..(a + d) as usize) == index_result(w, c..d)
        }),
{
    let size = vstd::layout::size_of::<T>();
    let (addr1, len1) = index_result(v, a..b).unwrap();
    let w = ClowView::<T>::from_parts(addr1, len1);
    assert(byte_offset::<T>(byte_offset::<T>(a as int)) + byte_offset::<T>(
        byte_offset::<T>(c as int),
    ) == byte_offset::<T>(byte_offset::<T>((a + c) as int))) by {
        assert(a * size * size + c * size * size == (a + c) * size * size) by (nonlinear_arith);
    }
    assert(0 <= byte_offset::<T>(byte_offset::<T>(a as int))) by {
        assert(0 <= a * size * size) by (nonlinear_arith)
            requires
                0 <= a,
                0 <= size,
        ;
    }
    assert(0 <= byte_offset::<T>(byte_offset::<T>(c as int))) by {
        assert(0 <= c * size * size) by (nonlinear_arith)
            requires
                0 <= c,
                0 <= size,
        ;
    }
    assert(len1 == b - a);
    assert((len1 as usize) == b - a);
}

/// The pointer a view converts into is the one it was made from.
pub proof fn lemma_view_into_ptr<T: ?Sized>(p: ClowPtr<T>, len: usize)
    ensures
        <ClowPtr<T> as vstd::std_specs::convert::FromSpec<ClowView<T>>>::from_spec(
            ClowView::<T>::from_parts(p.addr(), len as u64),
        ) == p,
{
}

} // verus!
