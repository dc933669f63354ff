use vstd::prelude::*;

verus! {

/// The failures this library reports.
///
/// A lookup miss is a caller-input error and carries the offending code; a
/// grouping rule that does not parse indicates corrupted reference data and
/// carries the raw encoded rule.
#[derive(Debug, Clone, PartialEq, Eq)]
pub enum CurrencyError {
    /// The looked-up code names no currency in the registry.
    UnknownCurrency { code: String },
    /// A record's encoded digit-grouping rule is not a delimited list of
    /// integers that fit in `usize`.
    MalformedGroupingRule { raw: String },
}

} // verus!
