//! Head–tail decomposition of a borrowed slice.
//!
//! [`HeadTailIter`] walks a slice and, at each step, yields its first
//! remaining element together with everything after it, borrowing both from
//! the original storage. The [`model`] module gives the mathematical meaning
//! of each step and the laws that repeated steps obey.
pub mod head_tail;
pub mod model;

pub use head_tail::{HeadTailIter, HeadTailIterator};
