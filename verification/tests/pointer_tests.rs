use clow::pointer::{ClowPointable, ClowPtr};

#[test]
fn null_pointer_is_null() {
    let p = ClowPtr::<f32>::null();
    assert!(p.is_null());
    assert_eq!(p.as_raw(), 0);
    let q = ClowPtr::<f32>::from_raw_parts(0x1000);
    assert!(!q.is_null());
    assert_eq!(q.as_raw(), 0x1000);
}

#[test]
fn offset_counts_elements() {
    let p = ClowPtr::<f32>::from_raw_parts(0x1000);
    // 512 elements of 4 bytes
    assert_eq!(p.offset(512).as_raw(), 0x1000 + 2048);
    assert_eq!(p.offset(0), p);
    assert_eq!(p.offset(-4).as_raw(), 0x1000 - 16);
    let b = ClowPtr::<u8>::from_raw_parts(7);
    assert_eq!(b.offset(3).as_raw(), 10);
}

#[test]
fn offset_of_zero_sized_type_stays() {
    let p = ClowPtr::<()>::from_raw_parts(0x40);
    assert_eq!(p.offset(1_000_000).as_raw(), 0x40);
    assert_eq!(p.wrapping_offset(-5).as_raw(), 0x40);
}

#[test]
fn offset_composes() {
    let p = ClowPtr::<u64>::from_raw_parts(0x10_0000);
    assert_eq!(p.offset(10).offset(-3), p.offset(7));
    assert_eq!(p.offset(-10).offset(25), p.offset(15));
}

#[test]
fn wrapping_offset_wraps_around() {
    let p = ClowPtr::<u32>::from_raw_parts(8);
    assert_eq!(p.wrapping_offset(-3).as_raw(), u64::MAX - 3);
    let top = ClowPtr::<u32>::from_raw_parts(u64::MAX - 3);
    assert_eq!(top.wrapping_offset(2).as_raw(), 4);
    assert_eq!(p.wrapping_offset(5), p.offset(5));
    let wide = ClowPtr::<u64>::from_raw_parts(0);
    assert_eq!(wide.wrapping_offset(isize::MIN).as_raw(), 0);
    assert_eq!(wide.wrapping_offset(isize::MAX).as_raw(), (isize::MAX as u64).wrapping_mul(8));
}

#[test]
fn wrapping_offset_composes() {
    let p = ClowPtr::<u16>::from_raw_parts(3);
    assert_eq!(p.wrapping_offset(-7).wrapping_offset(2), p.wrapping_offset(-5));
}

#[test]
fn cast_keeps_address() {
    let p = ClowPtr::<f32>::from_raw_parts(0xabc0);
    let q: ClowPtr<u32> = p.cast::<u32>();
    assert_eq!(q.as_raw(), 0xabc0);
    assert_eq!(q.cast::<f32>(), p);
    assert_eq!(q.offset(1).as_raw(), 0xabc4);
}

#[test]
fn from_raw_address() {
    let p: ClowPtr<u8> = ClowPtr::from(0x77u64);
    assert_eq!(p, ClowPtr::from_raw_parts(0x77));
    assert_eq!(p.as_device_ptr(), p);
    let c = p.clone();
    assert_eq!(c, p);
}

#[test]
fn pointers_order_by_address() {
    let a = ClowPtr::<u8>::from_raw_parts(1);
    let b = ClowPtr::<u8>::from_raw_parts(2);
    assert!(a < b);
    assert_ne!(a, b);
}
