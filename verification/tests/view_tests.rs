use clow::pointer::{ClowPointable, ClowPtr, ClowSized, ClowView, ClowViewMut};

fn view_u32(addr: u64, len: usize) -> ClowView<u32> {
    ClowView::from_ptr(ClowPtr::from_raw_parts(addr), len)
}

#[test]
fn view_len_and_bytes() {
    let v = view_u32(0x1000, 100);
    assert_eq!(v.len(), 100);
    assert_eq!(v.num_bytes(), 400);
    assert_eq!(v.as_device_ptr().as_raw(), 0x1000);
}

#[test]
fn index_out_of_bounds_is_none() {
    let v = view_u32(0x1000, 10);
    assert!(v.index(0..11).is_none());
    assert!(v.index(12..20).is_none());
}

#[test]
fn index_from_zero() {
    let v = view_u32(0x1000, 10);
    let w = v.index(0..5).unwrap();
    assert_eq!(w.as_device_ptr().as_raw(), 0x1000);
    assert_eq!(w.len(), 5);
    assert_eq!(v.index(0..10).unwrap(), v);
}

#[test]
fn index_start_is_scaled_twice() {
    // the start index is turned into bytes (2 * 4) and offset scales that
    // count by the element size again (8 * 4)
    let v = view_u32(0x1000, 10);
    let w = v.index(2..6).unwrap();
    assert_eq!(w.as_device_ptr().as_raw(), 0x1000 + 32);
    assert_eq!(w.len(), 4);
    let bytes = ClowView::from_ptr(ClowPtr::<u8>::from_raw_parts(0x1000), 10);
    let b = bytes.index(2..6).unwrap();
    assert_eq!(b.as_device_ptr().as_raw(), 0x1002);
}

#[test]
fn index_with_reversed_range_is_empty() {
    let v = view_u32(0x1000, 10);
    let w = v.index(5..3).unwrap();
    assert_eq!(w.len(), 0);
    assert_eq!(w.as_device_ptr().as_raw(), 0x1000 + 5 * 4 * 4);
}

#[test]
fn index_composes() {
    let v = ClowView::from_ptr(ClowPtr::<u16>::from_raw_parts(0x2000), 64);
    let w = v.index(8..40).unwrap();
    let x = w.index(4..20).unwrap();
    assert_eq!(v.index(12..28).unwrap(), x);
}

#[test]
fn view_mut_index_matches_view() {
    let mut m = ClowViewMut::from_ptr(ClowPtr::<u32>::from_raw_parts(0x3000), 16);
    let before = m;
    let sub = m.index_mut(1..9).unwrap();
    assert_eq!(m, before);
    let v = view_u32(0x3000, 16);
    assert_eq!(*sub, v.index(1..9).unwrap());
    assert!(m.index_mut(3..17).is_none());
    assert_eq!(m.len(), 16);
    assert_eq!(m.num_bytes(), 64);
    assert_eq!(m.as_device_ptr().as_raw(), 0x3000);
}

#[test]
fn view_mut_derefs_to_view() {
    let mut m = ClowViewMut::from_ptr(ClowPtr::<u32>::from_raw_parts(0x3000), 16);
    let v: &ClowView<u32> = &m;
    assert_eq!(*v, view_u32(0x3000, 16));
    assert_eq!(*m.as_view(), view_u32(0x3000, 16));
    *m.as_view_mut() = view_u32(0x5000, 2);
    assert_eq!(m.as_device_ptr().as_raw(), 0x5000);
    assert_eq!(m.len(), 2);
}

#[test]
fn views_convert_into_their_pointer() {
    let p = ClowPtr::<u32>::from_raw_parts(0x4444);
    let v = ClowView::from_ptr(p, 3);
    let q: ClowPtr<u32> = v.into();
    assert_eq!(q, p);
    let m = ClowViewMut::from_ptr(p, 3);
    let r: ClowPtr<u32> = m.into();
    assert_eq!(r, p);
}
