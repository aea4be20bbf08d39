//! A minimal, pluggable storage abstraction: a growable buffer (`RawVec`)
//! decoupled from the mechanism that supplies its backing storage through
//! the `Storage` contract, with two inline backends (a shared bump arena
//! and a single self-contained handle).

pub mod raw_vec;
pub mod inline_bump;
pub mod inline_handle;
pub mod traits;
pub mod utils;

pub use raw_vec::{RawVec, VecError};
pub use inline_bump::{InlineBumpContext, InlineBumpHandle, InlineBumpStorage};
pub use inline_handle::{InlineHandle, InlineHandleStorage};
pub use traits::{allocate_contextless, AllocError, Storage};
pub use utils::{layout_for, Element, Layout};
