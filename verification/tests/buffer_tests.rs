use clow::buffer::{release_buffer, ClowSlice, Release};
use clow::pointer::ClowPtr;

#[test]
fn release_of_null_buffer_keeps_it() {
    let mut p = ClowPtr::<u32>::null();
    let mut len = 5usize;
    assert_eq!(release_buffer(&mut p, &mut len), Release::Keep);
    assert!(p.is_null());
    assert_eq!(len, 5);
}

#[test]
fn release_of_empty_buffer_frees_nothing() {
    let mut p = ClowPtr::<u32>::from_raw_parts(0x7000);
    let mut len = 0usize;
    assert_eq!(release_buffer(&mut p, &mut len), Release::Keep);
    assert_eq!(p.as_raw(), 0x7000);
    assert_eq!(len, 0);
}

#[test]
fn release_of_full_buffer_resets_it() {
    let mut p = ClowPtr::<u32>::from_raw_parts(0x7000);
    let mut len = 8usize;
    // the asynchronous free is handed the pointer after it was reset
    assert_eq!(release_buffer(&mut p, &mut len), Release::FreeAsync { ptr: 0 });
    assert!(p.is_null());
    assert_eq!(len, 0);
    // a second release frees nothing
    assert_eq!(release_buffer(&mut p, &mut len), Release::Keep);
}

#[test]
fn uninit_request_is_the_element_count() {
    assert_eq!(ClowSlice::<u32>::uninit_bytes(10), Some(10));
    assert_eq!(ClowSlice::<u8>::uninit_bytes(10), Some(10));
    assert_eq!(ClowSlice::<u32>::uninit_bytes(0), None);
    assert_eq!(ClowSlice::<()>::uninit_bytes(10), None);
}
