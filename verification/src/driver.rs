//! The CUDA driver objects the library holds on to, and the few calls into the
//! driver crate that only compute.
use cudarc::driver::{CudaContext, CudaStream, DriverError};
use std::sync::Arc;
use vstd::prelude::*;

verus! {

/// A stream of the driver crate; carried through, never looked into.
#[verifier::external_type_specification]
#[verifier::external_body]
pub struct ExCudaStream(CudaStream);

/// A context of the driver crate; carried through, never looked into.
#[verifier::external_type_specification]
#[verifier::external_body]
pub struct ExCudaContext(CudaContext);

/// An error of the driver crate; its code is read through [`driver_error_code`].
#[verifier::external_type_specification]
#[verifier::external_body]
pub struct ExDriverError(DriverError);

/// The context a stream belongs to: the stream's `ctx` field, as
/// `CudaStream::context` hands it out.
pub uninterp spec fn stream_ctx_of(stream: CudaStream) -> Arc<CudaContext>;

/// The device ordinal a context was created on: its `ordinal` field, as
/// `CudaContext::ordinal` hands it out.
pub uninterp spec fn ordinal_of(ctx: CudaContext) -> usize;

/// Whether two contexts compare equal under `CudaContext`'s `PartialEq`, which
/// compares the device, the driver context handle and the ordinal.
pub uninterp spec fn ctx_eq(a: CudaContext, b: CudaContext) -> bool;

/// The driver's result code an error holds: its field, an enum of the driver's
/// result codes, taken as its `u32` value.
pub uninterp spec fn error_code_of(err: DriverError) -> u32;

/// Calls `CudaStream::context`, which returns a reference to the stream's
/// `ctx` field. Claimed: the result is [`stream_ctx_of`] of the stream.
#[verifier::external_body]
pub(crate) fn stream_context(stream: &CudaStream) -> (r: &Arc<CudaContext>)
    ensures
        *r == stream_ctx_of(*stream),
{
    stream.context()
}

/// Calls `CudaContext::ordinal`, which returns the context's `ordinal` field.
/// Claimed: the result is [`ordinal_of`] of the context.
#[verifier::external_body]
pub(crate) fn context_ordinal(ctx: &CudaContext) -> (r: usize)
    ensures
        r == ordinal_of(*ctx),
{
    ctx.ordinal()
}

/// Calls `CudaContext`'s `PartialEq::eq`, which compares the device, the
/// driver context handle and the ordinal. Claimed: the result is [`ctx_eq`] of
/// the two contexts, and a context equals itself (equal values have equal fields).
#[verifier::external_body]
pub(crate) fn contexts_equal(a: &CudaContext, b: &CudaContext) -> (r: bool)
    ensures
        r == ctx_eq(*a, *b),
        *a == *b ==> r,
{
    a == b
}

/// Reads the driver's error code out of a `DriverError` (its field, an enum of
/// the driver's result codes, taken as its `u32` value). Claimed: the result is
/// [`error_code_of`] of the error.
#[verifier::external_body]
pub(crate) fn driver_error_code(err: &DriverError) -> (r: u32)
    ensures
        r == error_code_of(*err),
{
    err.0 as u32
}

} // verus!
