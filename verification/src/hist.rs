//! Declaration of the histogram crate's value type.
//!
//! Relies on `histogram::Histogram`, the bucketed-distribution type of the
//! histogram crate.  It is carried through snapshots opaquely: nothing in
//! this crate reads inside it or calls its methods.

use histogram::Histogram as RawHistogram;
use vstd::prelude::*;

verus! {

#[verifier::external_type_specification]
#[verifier::external_body]
pub struct ExHistogram(RawHistogram);

} // verus!
