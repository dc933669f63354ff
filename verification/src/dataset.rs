//! The bundled dataset: the canonical currency records the registry serves,
//! embedded at build time, together with its integrity guarantees.

use vstd::prelude::*;

use crate::currency::model_wf;
use crate::currency::models_of;
use crate::currency::Currency;
use crate::currency::CurrencyModel;
use crate::grouping::group_ok;
use crate::grouping::is_digit_char;
use crate::grouping::group_value;
use crate::grouping::rule_wf;
use crate::grouping::split_groups;
use crate::registry::norm;

verus! {

/// United States dollar.
pub open spec fn usd() -> CurrencyModel {
    CurrencyModel {
        digit_separator: ',',
        digit_separator_sequence: "3"@,
        exponent: 2,
        exponent_separator: '.',
        iso_alpha_code: "USD"@,
        iso_numeric_code: "840"@,
        symbol: "$"@,
        symbol_first: true,
    }
}

/// Euro.
pub open spec fn eur() -> CurrencyModel {
    CurrencyModel {
        digit_separator: '.',
        digit_separator_sequence: "3"@,
        exponent: 2,
        exponent_separator: ',',
        iso_alpha_code: "EUR"@,
        iso_numeric_code: "978"@,
        symbol: "€"@,
        symbol_first: true,
    }
}

/// Pound sterling.
pub open spec fn gbp() -> CurrencyModel {
    CurrencyModel {
        digit_separator: ',',
        digit_separator_sequence: "3"@,
        exponent: 2,
        exponent_separator: '.',
        iso_alpha_code: "GBP"@,
        iso_numeric_code: "826"@,
        symbol: "£"@,
        symbol_first: true,
    }
}

/// Japanese yen.
pub open spec fn jpy() -> CurrencyModel {
    CurrencyModel {
        digit_separator: ',',
        digit_separator_sequence: "3"@,
        exponent: 0,
        exponent_separator: '.',
        iso_alpha_code: "JPY"@,
        iso_numeric_code: "392"@,
        symbol: "¥"@,
        symbol_first: true,
    }
}

/// Swiss franc.
pub open spec fn chf() -> CurrencyModel {
    CurrencyModel {
        digit_separator: ',',
        digit_separator_sequence: "3"@,
        exponent: 2,
        exponent_separator: '.',
        iso_alpha_code: "CHF"@,
        iso_numeric_code: "756"@,
        symbol: "CHF"@,
        symbol_first: true,
    }
}

/// Canadian dollar.
pub open spec fn cad() -> CurrencyModel {
    CurrencyModel {
        digit_separator: ',',
        digit_separator_sequence: "3"@,
        exponent: 2,
        exponent_separator: '.',
        iso_alpha_code: "CAD"@,
        iso_numeric_code: "124"@,
        symbol: "$"@,
        symbol_first: true,
    }
}

/// Australian dollar.
pub open spec fn aud() -> CurrencyModel {
    CurrencyModel {
        digit_separator: ',',
        digit_separator_sequence: "3"@,
        exponent: 2,
        exponent_separator: '.',
        iso_alpha_code: "AUD"@,
        iso_numeric_code: "036"@,
        symbol: "$"@,
        symbol_first: true,
    }
}

/// Chinese renminbi yuan.
pub open spec fn cny() -> CurrencyModel {
    CurrencyModel {
        digit_separator: ',',
        digit_separator_sequence: "3"@,
        exponent: 2,
        exponent_separator: '.',
        iso_alpha_code: "CNY"@,
        iso_numeric_code: "156"@,
        symbol: "¥"@,
        symbol_first: true,
    }
}

/// Indian rupee: grouped by three once, then by two, from the decimal
/// point outward, the last width repeating.
pub open spec fn inr() -> CurrencyModel {
    CurrencyModel {
        digit_separator: ',',
        digit_separator_sequence: "3, 2"@,
        exponent: 2,
        exponent_separator: '.',
        iso_alpha_code: "INR"@,
        iso_numeric_code: "356"@,
        symbol: "₹"@,
        symbol_first: true,
    }
}

/// Swedish krona.
pub open spec fn sek() -> CurrencyModel {
    CurrencyModel {
        digit_separator: ' ',
        digit_separator_sequence: "3"@,
        exponent: 2,
        exponent_separator: ',',
        iso_alpha_code: "SEK"@,
        iso_numeric_code: "752"@,
        symbol: "kr"@,
        symbol_first: false,
    }
}

/// New Zealand dollar.
pub open spec fn nzd() -> CurrencyModel {
    CurrencyModel {
        digit_separator: ',',
        digit_separator_sequence: "3"@,
        exponent: 2,
        exponent_separator: '.',
        iso_alpha_code: "NZD"@,
        iso_numeric_code: "554"@,
        symbol: "$"@,
        symbol_first: true,
    }
}

/// Mexican peso.
pub open spec fn mxn() -> CurrencyModel {
    CurrencyModel {
        digit_separator: ',',
        digit_separator_sequence: "3"@,
        exponent: 2,
        exponent_separator: '.',
        iso_alpha_code: "MXN"@,
        iso_numeric_code: "484"@,
        symbol: "$"@,
        symbol_first: true,
    }
}

/// The dataset the registry is built from, in canonical order.
pub open spec fn spec_dataset() -> Seq<CurrencyModel> {
    seq![
        usd(),
        eur(),
        gbp(),
        jpy(),
        chf(),
        cad(),
        aud(),
        cny(),
        inr(),
        sek(),
        nzd(),
        mxn(),
    ]
}

/// The bundled dataset as executable records, in canonical order.
pub fn currency_records() -> (v: Vec<Currency>)
    ensures
        models_of(v@) == spec_dataset(),
{
    let mut v: Vec<Currency> = Vec::new();
    v.push(
        Currency {
            digit_separator: ',',
            digit_separator_sequence: "3",
            exponent: 2,
            exponent_separator: '.',
            iso_alpha_code: "USD",
            iso_numeric_code: "840",
            symbol: "$",
            symbol_first: true,
        },
    );
    v.push(
        Currency {
            digit_separator: '.',
            digit_separator_sequence: "3",
            exponent: 2,
            exponent_separator: ',',
            iso_alpha_code: "EUR",
            iso_numeric_code: "978",
            symbol: "€",
            symbol_first: true,
        },
    );
    v.push(
        Currency {
            digit_separator: ',',
            digit_separator_sequence: "3",
            exponent: 2,
            exponent_separator: '.',
            iso_alpha_code: "GBP",
            iso_numeric_code: "826",
            symbol: "£",
            symbol_first: true,
        },
    );
    v.push(
        Currency {
            digit_separator: ',',
            digit_separator_sequence: "3",
            exponent: 0,
            exponent_separator: '.',
            iso_alpha_code: "JPY",
            iso_numeric_code: "392",
            symbol: "¥",
            symbol_first: true,
        },
    );
    v.push(
        Currency {
            digit_separator: ',',
            digit_separator_sequence: "3",
            exponent: 2,
            exponent_separator: '.',
            iso_alpha_code: "CHF",
            iso_numeric_code: "756",
            symbol: "CHF",
            symbol_first: true,
        },
    );
    v.push(
        Currency {
            digit_separator: ',',
            digit_separator_sequence: "3",
            exponent: 2,
            exponent_separator: '.',
            iso_alpha_code: "CAD",
            iso_numeric_code: "124",
            symbol: "$",
            symbol_first: true,
        },
    );
    v.push(
        Currency {
            digit_separator: ',',
            digit_separator_sequence: "3",
            exponent: 2,
            exponent_separator: '.',
            iso_alpha_code: "AUD",
            iso_numeric_code: "036",
            symbol: "$",
            symbol_first: true,
        },
    );
    v.push(
        Currency {
            digit_separator: ',',
            digit_separator_sequence: "3",
            exponent: 2,
            exponent_separator: '.',
            iso_alpha_code: "CNY",
            iso_numeric_code: "156",
            symbol: "¥",
            symbol_first: true,
        },
    );
    v.push(
        Currency {
            digit_separator: ',',
            digit_separator_sequence: "3, 2",
            exponent: 2,
            exponent_separator: '.',
            iso_alpha_code: "INR",
            iso_numeric_code: "356",
            symbol: "₹",
            symbol_first: true,
        },
    );
    v.push(
        Currency {
            digit_separator: ' ',
            digit_separator_sequence: "3",
            exponent: 2,
            exponent_separator: ',',
            iso_alpha_code: "SEK",
            iso_numeric_code: "752",
            symbol: "kr",
            symbol_first: false,
        },
    );
    v.push(
        Currency {
            digit_separator: ',',
            digit_separator_sequence: "3",
            exponent: 2,
            exponent_separator: '.',
            iso_alpha_code: "NZD",
            iso_numeric_code: "554",
            symbol: "$",
            symbol_first: true,
        },
    );
    v.push(
        Currency {
            digit_separator: ',',
            digit_separator_sequence: "3",
            exponent: 2,
            exponent_separator: '.',
            iso_alpha_code: "MXN",
            iso_numeric_code: "484",
            symbol: "$",
            symbol_first: true,
        },
    );
    proof {
        assert forall|i: int| 0 <= i < v@.len() implies models_of(v@)[i] == spec_dataset()[i] by {
            assert(models_of(v@)[i] == v@[i]@);
        }
        assert(models_of(v@) =~= spec_dataset());
    }
    v
}

/// The split and value of the one-field rule `"3"`.
proof fn lemma_rule_three()
    ensures
        rule_wf("3"@),
        split_groups("3"@) == seq![seq!['3']],
        group_value(seq!['3']) == 3,
{
    reveal_strlit("3");
    reveal_with_fuel(split_groups, 3);
    reveal_with_fuel(group_value, 3);
    let e = Seq::<char>::empty();
    let s1 = seq!['3'];
    assert("3"@ =~= s1);
    assert(s1.subrange(1, 1) =~= e);
    assert(split_groups(e) == seq![e]);
    assert(seq![s1[0]] + e =~= s1);
    assert((seq![e]).subrange(1, 1) =~= Seq::<Seq<char>>::empty());
    assert(split_groups(s1) =~= seq![s1]);
    assert(s1.drop_last() =~= e);
    assert(group_value(e) == 0);
    assert(group_value(s1) == 3);
    assert forall|k: int|
        0 <= k < split_groups("3"@).len() implies group_ok(#[trigger] split_groups("3"@)[k]) by {
        assert(split_groups("3"@)[k] == seq!['3']);
        assert forall|j: int|
            0 <= j < seq!['3'].len() implies is_digit_char(#[trigger] seq!['3'][j]) by {
            assert(seq!['3'][j] == '3');
        }
    }
}

/// The split and values of the two-field rule `"3, 2"`.
proof fn lemma_rule_three_two()
    ensures
        rule_wf("3, 2"@),
        split_groups("3, 2"@) == seq![seq!['3'], seq!['2']],
        group_value(seq!['3']) == 3,
        group_value(seq!['2']) == 2,
{
    reveal_strlit("3, 2");
    reveal_with_fuel(split_groups, 5);
    reveal_with_fuel(group_value, 3);
    let e = Seq::<char>::empty();
    let s = seq!['3', ',', ' ', '2'];
    let t1 = seq![',', ' ', '2'];
    let s1 = seq!['3'];
    let s2 = seq!['2'];
    assert("3, 2"@ =~= s);
    assert(s.subrange(1, 4) =~= t1);
    assert(t1.subrange(2, 3) =~= s2);
    assert(s2.subrange(1, 1) =~= e);
    assert(split_groups(e) == seq![e]);
    assert(seq![s2[0]] + e =~= s2);
    assert((seq![e]).subrange(1, 1) =~= Seq::<Seq<char>>::empty());
    assert(split_groups(s2) =~= seq![s2]);
    assert(split_groups(t1) =~= seq![e, s2]);
    assert(seq![s[0]] + e =~= s1);
    assert((seq![e, s2]).subrange(1, 2) =~= seq![s2]);
    assert(split_groups(s) =~= seq![s1, s2]);
    assert(s1.drop_last() =~= e);
    assert(s2.drop_last() =~= e);
    assert(group_value(e) == 0);
    assert(group_value(s1) == 3);
    assert(group_value(s2) == 2);
    assert forall|k: int|
        0 <= k < split_groups("3, 2"@).len() implies group_ok(
        #[trigger] split_groups("3, 2"@)[k],
    ) by {
        if k == 0 {
            assert(split_groups("3, 2"@)[k] == seq!['3']);
            assert forall|j: int|
                0 <= j < seq!['3'].len() implies is_digit_char(#[trigger] seq!['3'][j]) by {
                assert(seq!['3'][j] == '3');
            }
        } else {
            assert(split_groups("3, 2"@)[k] == seq!['2']);
            assert forall|j: int|
                0 <= j < seq!['2'].len() implies is_digit_char(#[trigger] seq!['2'][j]) by {
                assert(seq!['2'][j] == '2');
            }
        }
    }
}

/// Every record of the bundled dataset is well-formed: a three-letter
/// upper-case alphabetic code, and a grouping rule that decodes to a
/// non-empty sequence of positive group widths.
pub proof fn lemma_spec_dataset_wf()
    ensures
        forall|i: int| 0 <= i < spec_dataset().len() ==> model_wf(#[trigger] spec_dataset()[i]),
{
    lemma_rule_three();
    lemma_rule_three_two();
    reveal_strlit("USD");
    reveal_strlit("EUR");
    reveal_strlit("GBP");
    reveal_strlit("JPY");
    reveal_strlit("CHF");
    reveal_strlit("CAD");
    reveal_strlit("AUD");
    reveal_strlit("CNY");
    reveal_strlit("INR");
    reveal_strlit("SEK");
    reveal_strlit("NZD");
    reveal_strlit("MXN");
    assert forall|k: int|
        0 <= k < split_groups("3"@).len() implies group_value(
        #[trigger] split_groups("3"@)[k],
    ) > 0 by {
        assert(split_groups("3"@)[k] == seq!['3']);
    }
    assert forall|k: int|
        0 <= k < split_groups("3, 2"@).len() implies group_value(
        #[trigger] split_groups("3, 2"@)[k],
    ) > 0 by {
        if k == 0 {
            assert(split_groups("3, 2"@)[k] == seq!['3']);
        } else {
            assert(split_groups("3, 2"@)[k] == seq!['2']);
        }
    }
    assert forall|i: int|
        0 <= i < spec_dataset().len() implies model_wf(#[trigger] spec_dataset()[i]) by {}
}

/// No two records of the bundled dataset share a normalized code: the
/// registry holds exactly one record per case-normalized alphabetic code.
#[verifier::rlimit(50)]
pub proof fn lemma_spec_dataset_codes_unique()
    ensures
        forall|i: int, j: int|
            0 <= i < spec_dataset().len() && 0 <= j < spec_dataset().len() && i != j ==> norm(
                (#[trigger] spec_dataset()[i]).iso_alpha_code,
            ) != norm((#[trigger] spec_dataset()[j]).iso_alpha_code),
{
    reveal_strlit("USD");
    reveal_strlit("EUR");
    reveal_strlit("GBP");
    reveal_strlit("JPY");
    reveal_strlit("CHF");
    reveal_strlit("CAD");
    reveal_strlit("AUD");
    reveal_strlit("CNY");
    reveal_strlit("INR");
    reveal_strlit("SEK");
    reveal_strlit("NZD");
    reveal_strlit("MXN");
    assert(norm("USD"@).len() == 3 && norm("USD"@)[0] == 117 && norm("USD"@)[1] == 115 && norm(
        "USD"@,
    )[2] == 100);
    assert(norm("EUR"@).len() == 3 && norm("EUR"@)[0] == 101 && norm("EUR"@)[1] == 117 && norm(
        "EUR"@,
    )[2] == 114);
    assert(norm("GBP"@).len() == 3 && norm("GBP"@)[0] == 103 && norm("GBP"@)[1] == 98 && norm(
        "GBP"@,
    )[2] == 112);
    assert(norm("JPY"@).len() == 3 && norm("JPY"@)[0] == 106 && norm("JPY"@)[1] == 112 && norm(
        "JPY"@,
    )[2] == 121);
    assert(norm("CHF"@).len() == 3 && norm("CHF"@)[0] == 99 && norm("CHF"@)[1] == 104 && norm(
        "CHF"@,
    )[2] == 102);
    assert(norm("CAD"@).len() == 3 && norm("CAD"@)[0] == 99 && norm("CAD"@)[1] == 97 && norm(
        "CAD"@,
    )[2] == 100);
    assert(norm("AUD"@).len() == 3 && norm("AUD"@)[0] == 97 && norm("AUD"@)[1] == 117 && norm(
        "AUD"@,
    )[2] == 100);
    assert(norm("CNY"@).len() == 3 && norm("CNY"@)[0] == 99 && norm("CNY"@)[1] == 110 && norm(
        "CNY"@,
    )[2] == 121);
    assert(norm("INR"@).len() == 3 && norm("INR"@)[0] == 105 && norm("INR"@)[1] == 110 && norm(
        "INR"@,
    )[2] == 114);
    assert(norm("SEK"@).len() == 3 && norm("SEK"@)[0] == 115 && norm("SEK"@)[1] == 101 && norm(
        "SEK"@,
    )[2] == 107);
    assert(norm("NZD"@).len() == 3 && norm("NZD"@)[0] == 110 && norm("NZD"@)[1] == 122 && norm(
        "NZD"@,
    )[2] == 100);
    assert(norm("MXN"@).len() == 3 && norm("MXN"@)[0] == 109 && norm("MXN"@)[1] == 120 && norm(
        "MXN"@,
    )[2] == 110);
    assert forall|i: int, j: int|
        0 <= i < spec_dataset().len() && 0 <= j < spec_dataset().len() && i != j implies norm(
        (#[trigger] spec_dataset()[i]).iso_alpha_code,
    ) != norm((#[trigger] spec_dataset()[j]).iso_alpha_code) by {}
}

} // verus!
