//! Outside types that the library carries through without looking inside.
use jiff::civil::DateTime as JiffDateTime;
use jiff::Error as JiffError;
use jiff::Span as JiffSpan;
use vstd::prelude::*;

verus! {

/// The full range `..`, which carries no value.
#[verifier::external_type_specification]
#[verifier::external_body]
pub struct ExRangeFull(core::ops::RangeFull);

/// `jiff`'s civil datetime, carried through opaquely.
#[verifier::external_type_specification]
#[verifier::external_body]
pub struct ExJiffDateTime(JiffDateTime);

/// `jiff`'s span, carried through opaquely.
#[verifier::external_type_specification]
#[verifier::external_body]
pub struct ExJiffSpan(JiffSpan);

/// `jiff`'s error type, carried through opaquely.
#[verifier::external_type_specification]
#[verifier::external_body]
pub struct ExJiffError(JiffError);

} // verus!
