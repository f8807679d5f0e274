//! Scans directory entries for large files that look worth compressing:
//! plain text, or data that deflates well. The library holds the
//! classification engine: the classifier protocol with its two variants,
//! the bounded-read driver's decision logic, the per-extension throttle,
//! and the size-string parser. Reading directories and files is left to
//! the caller, which hands the library plain values.

use vstd::prelude::*;

mod args;
pub mod criteria;
pub mod error;
pub mod processor;

verus! {

pub use crate::args::CriteriaArg;
pub use crate::args::SizeError;
pub use crate::args::parse_size;
pub use crate::args::spec_parse_size;
pub use crate::criteria::is_text;

} // verus!
