pub use crate::buffer::{ClowSlice, Release};
pub use crate::context::ErrorSink;
pub use crate::pointer::{
    ClowPointable, ClowPtr, ClowSized, ClowView, ClowViewMut, ClowViewable, ClowViewableMut,
};
