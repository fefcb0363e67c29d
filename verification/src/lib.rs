//! Device pointers, views and buffers for CUDA memory, with the arithmetic on
//! them proved in Verus.

pub mod buffer;
pub mod context;
pub mod driver;
pub mod error_stack;
pub mod pointer;
pub mod prelude;
pub mod stream;
