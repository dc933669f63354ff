//! A static reference registry for ISO-4217-style currency metadata.
//!
//! Given a three-letter alphabetic currency code, the registry returns the
//! canonical formatting attributes of that currency: decimal exponent,
//! display symbol, symbol placement, separator characters, and the encoded
//! digit-grouping rule. A derived accessor decodes the grouping rule into a
//! usable sequence of group widths.

mod currency;
mod dataset;
mod errors;
mod grouping;
mod registry;

pub use currency::Currency;
pub use currency::CurrencyModel;
pub use currency::model_wf;
pub use currency::models_of;
pub use dataset::lemma_spec_dataset_codes_unique;
pub use dataset::lemma_spec_dataset_wf;
pub use dataset::spec_dataset;
pub use errors::CurrencyError;
pub use grouping::decode_grouping_rule;
pub use grouping::group_ok;
pub use grouping::group_value;
pub use grouping::is_digit_char;
pub use grouping::lemma_decode_idempotent;
pub use grouping::lemma_split_groups_nonempty;
pub use grouping::rule_groups;
pub use grouping::rule_wf;
pub use grouping::split_groups;
pub use registry::lemma_find_canonical;
pub use registry::lemma_found_record_wf;
pub use registry::lemma_lookup_case_insensitive;
pub use registry::lemma_lookup_characterization;
pub use registry::lemma_lookups_consistent;
pub use registry::lower_u32;
pub use registry::norm;
pub use registry::Registry;
pub use registry::spec_lookup;
