//! The `Currency` record: immutable metadata about one ISO-4217 currency.

use vstd::prelude::*;

use crate::dataset::spec_dataset;
use crate::errors::CurrencyError;
use crate::grouping::decode_grouping_rule;
use crate::grouping::group_value;
use crate::grouping::rule_groups;
use crate::grouping::rule_wf;
use crate::grouping::split_groups;
use crate::registry::norm;
use crate::registry::spec_lookup;
use crate::registry::Registry;

verus! {

/// Mathematical model of a currency record: every textual field as a
/// sequence of characters.
pub ghost struct CurrencyModel {
    pub digit_separator: char,
    pub digit_separator_sequence: Seq<char>,
    pub exponent: u32,
    pub exponent_separator: char,
    pub iso_alpha_code: Seq<char>,
    pub iso_numeric_code: Seq<char>,
    pub symbol: Seq<char>,
    pub symbol_first: bool,
}

/// Metadata about an ISO-4217 currency: an immutable, copyable value.
///
/// Records are handed out by value on every successful lookup, so callers
/// never share storage with the registry or with each other.
#[derive(Debug, Clone, Copy, PartialEq, Eq)]
pub struct Currency {
    /// Character between digit groups, such as a thousands separator.
    pub digit_separator: char,
    /// Compact encoded digit-grouping rule, such as `"3"` or `"3, 2"`:
    /// not yet decoded into group widths.
    pub digit_separator_sequence: &'static str,
    /// Number of minor-unit decimal digits, such as 2 for cents.
    pub exponent: u32,
    /// Character between major and minor units.
    pub exponent_separator: char,
    /// Three-letter upper-case alphabetic code: the stable identifier.
    pub iso_alpha_code: &'static str,
    /// Numeric ISO code, informational only.
    pub iso_numeric_code: &'static str,
    /// Display symbol; may be multi-character or empty.
    pub symbol: &'static str,
    /// Whether the symbol precedes the numeric amount.
    pub symbol_first: bool,
}

impl View for Currency {
    type V = CurrencyModel;

    open spec fn view(&self) -> CurrencyModel {
        CurrencyModel {
            digit_separator: self.digit_separator,
            digit_separator_sequence: self.digit_separator_sequence@,
            exponent: self.exponent,
            exponent_separator: self.exponent_separator,
            iso_alpha_code: self.iso_alpha_code@,
            iso_numeric_code: self.iso_numeric_code@,
            symbol: self.symbol@,
            symbol_first: self.symbol_first,
        }
    }
}

/// The models of a sequence of records, element by element.
pub open spec fn models_of(v: Seq<Currency>) -> Seq<CurrencyModel> {
    v.map_values(|c: Currency| c@)
}

/// A well-formed record, as the registry's dataset guarantees: the
/// alphabetic code is three ASCII upper-case letters, and the encoded
/// grouping rule decodes to positive group widths.
pub open spec fn model_wf(m: CurrencyModel) -> bool {
    &&& m.iso_alpha_code.len() == 3
    &&& forall|j: int|
        0 <= j < m.iso_alpha_code.len() ==> 65 <= (#[trigger] m.iso_alpha_code[j]) as u32 <= 90
    &&& rule_wf(m.digit_separator_sequence)
    &&& forall|k: int|
        0 <= k < split_groups(m.digit_separator_sequence).len() ==> group_value(
            #[trigger] split_groups(m.digit_separator_sequence)[k],
        ) > 0
}

impl Currency {
    /// Finds a currency by its alphabetic ISO-4217 code, case-insensitively,
    /// in the bundled registry.
    ///
    /// Returns the matching record by value, or reports the unknown code;
    /// no default or placeholder record is ever returned.
    pub fn find(name: String) -> (r: Result<Currency, CurrencyError>)
        ensures
            (match spec_lookup(spec_dataset(), norm(name@)) {
                Some(m) => r matches Ok(c) && c@ == m,
                None => r matches Err(e) && (e matches CurrencyError::UnknownCurrency { code: q }
                    && q@ == name@),
            }),
            (r is Ok) <==> exists|i: int|
                0 <= i < spec_dataset().len() && norm(
                    #[trigger] spec_dataset()[i].iso_alpha_code,
                ) == norm(name@),
    {
        let registry = Registry::new();
        registry.find(name.as_str())
    }

    /// Decodes this record's digit-grouping rule into the group widths it
    /// lists, in field order.
    ///
    /// Fails only on a rule that is not a `", "`-delimited list of integers
    /// fitting in `usize`; records handed out by the registry always decode.
    pub fn digit_separator_sequence(self) -> (r: Result<Vec<usize>, CurrencyError>)
        ensures
            rule_wf(self@.digit_separator_sequence) ==> (r matches Ok(v) && v@ == rule_groups(
                self@.digit_separator_sequence,
            )),
            !rule_wf(self@.digit_separator_sequence) ==> (r matches Err(e) && (e matches CurrencyError::MalformedGroupingRule {
                raw: q,
            } && q@ == self@.digit_separator_sequence)),
    {
        decode_grouping_rule(self.digit_separator_sequence)
    }

    /// A short human-readable label for the record: its alphabetic code.
    pub fn to_display_string(&self) -> (r: String)
        ensures
            r@ == self@.iso_alpha_code,
    {
        self.iso_alpha_code.to_owned()
    }
}

} // verus!
