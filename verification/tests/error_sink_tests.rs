use clow::context::ErrorSink;
use clow::error_stack::{check_slot, pop_counter, record_slot, ERR_STACK_SIZE};
use cudarc::driver::sys::cudaError_enum;
use cudarc::driver::DriverError;

#[test]
fn empty_sink_reports_nothing() {
    let mut sink = ErrorSink::new();
    assert_eq!(sink.check_err(), Ok(()));
}

#[test]
fn ok_results_are_ignored() {
    let mut sink = ErrorSink::new();
    sink.record_err::<u8>(Ok(3));
    assert_eq!(sink.check_err(), Ok(()));
}

#[test]
fn recorded_error_comes_back() {
    let mut sink = ErrorSink::new();
    sink.record_err::<()>(Err(DriverError(cudaError_enum::CUDA_ERROR_OUT_OF_MEMORY)));
    assert_eq!(sink.check_err(), Err(2));
    assert_eq!(sink.check_err(), Ok(()));
}

#[test]
fn most_recent_error_first() {
    let mut sink = ErrorSink::new();
    sink.record_err::<()>(Err(DriverError(cudaError_enum::CUDA_ERROR_INVALID_VALUE)));
    sink.record_err::<()>(Err(DriverError(cudaError_enum::CUDA_ERROR_NOT_INITIALIZED)));
    sink.record_code(700);
    assert_eq!(sink.check_err(), Err(700));
    assert_eq!(sink.check_err(), Err(3));
    assert_eq!(sink.check_err(), Err(1));
    assert_eq!(sink.check_err(), Ok(()));
}

#[test]
fn errors_past_capacity_are_dropped() {
    let mut sink = ErrorSink::new();
    for i in 0..20u32 {
        sink.record_code(100 + i);
    }
    for i in (0..16u32).rev() {
        assert_eq!(sink.check_err(), Err(100 + i));
    }
    assert_eq!(sink.check_err(), Ok(()));
}

#[test]
fn stack_bookkeeping() {
    assert_eq!(ERR_STACK_SIZE, 16);
    assert_eq!(record_slot(0), Some(0));
    assert_eq!(record_slot(15), Some(15));
    assert_eq!(record_slot(16), None);
    assert_eq!(pop_counter(0), None);
    assert_eq!(pop_counter(1), Some(0));
    assert_eq!(pop_counter(16), Some(15));
    assert_eq!(pop_counter(1000), Some(15));
    assert_eq!(check_slot(1), 0);
    assert_eq!(check_slot(7), 6);
    assert_eq!(check_slot(16), 15);
    assert_eq!(check_slot(u32::MAX), 15);
}

#[test]
fn record_then_check_restores_the_sink() {
    let mut sink = ErrorSink::new();
    sink.record_code(5);
    sink.record_code(6);
    assert_eq!(sink.check_err(), Err(6));
    sink.record_code(7);
    assert_eq!(sink.check_err(), Err(7));
    assert_eq!(sink.check_err(), Err(5));
    assert_eq!(sink.check_err(), Ok(()));
}

#[test]
fn overflow_is_reported() {
    let mut sink = ErrorSink::new();
    for i in 0..15u32 {
        sink.record_code(i + 1);
    }
    assert!(!sink.overflowed());
    sink.record_code(99);
    assert!(sink.overflowed());
    sink.record_code(100);
    assert!(sink.overflowed());
    assert_eq!(sink.check_err(), Err(99));
    assert!(!sink.overflowed());
}
