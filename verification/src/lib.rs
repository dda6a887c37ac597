//! Allocation-free jobs: a callable held by value in the job, admitted only
//! if its layout fits a capacity bound, and run once to produce a value.

pub mod job;
pub mod storage;

pub use job::{closure_fits, Job, NoContext};
pub use storage::{fits_inline, lemma_placement_within_capacity, padding_for, spec_padding, spec_required_capacity, INLINE_ALIGN};
