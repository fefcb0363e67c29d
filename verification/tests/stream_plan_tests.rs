use clow::pointer::{ClowPtr, ClowView, ClowViewMut};
use clow::stream::{
    alloc_bytes, memcpy_dtoh_src, memcpy_dtod_route, memcpy_htod_dst, memset_zeros_op,
    DeviceCopy, Memset,
};

fn view(addr: u64, len: usize) -> ClowView<u32> {
    ClowView::from_ptr(ClowPtr::from_raw_parts(addr), len)
}

fn view_mut(addr: u64, len: usize) -> ClowViewMut<u32> {
    ClowViewMut::from_ptr(ClowPtr::from_raw_parts(addr), len)
}

#[test]
fn allocation_size_in_bytes() {
    assert_eq!(alloc_bytes::<f32>(10000), 40000);
    assert_eq!(alloc_bytes::<u8>(10000), 10000);
    assert_eq!(alloc_bytes::<()>(10000), 0);
}

#[test]
fn zero_fill_covers_the_buffer() {
    let dst = view_mut(0x9000, 10);
    assert_eq!(memset_zeros_op(&dst), Memset { dst: 0x9000, value: 0, num_bytes: 40 });
    let empty = view_mut(0x9000, 0);
    assert_eq!(memset_zeros_op(&empty).num_bytes, 0);
}

#[test]
fn host_copies_target_the_buffer() {
    let dst = view_mut(0x9100, 10);
    assert_eq!(memcpy_htod_dst(10, &dst), 0x9100);
    assert_eq!(memcpy_htod_dst(3, &dst), 0x9100);
    let src = view(0x9200, 10);
    assert_eq!(memcpy_dtoh_src(&src, 12), 0x9200);
}

#[test]
fn device_copy_route() {
    let src = view(0x1000, 8);
    let dst = view_mut(0x2000, 9);
    assert_eq!(
        memcpy_dtod_route(true, &src, &dst),
        DeviceCopy { dst: 0x2000, src: 0x1000, num_bytes: 32, peer: false }
    );
    assert_eq!(
        memcpy_dtod_route(false, &src, &dst),
        DeviceCopy { dst: 0x2000, src: 0x1000, num_bytes: 32, peer: true }
    );
}
