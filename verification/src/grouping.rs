//! Decoding of the compact digit-grouping rule.
//!
//! A rule is text such as `"3"` or `"3, 2"`: group widths written in decimal
//! and separated by `", "`. Decoding splits the text on that delimiter and
//! parses every field as a non-negative integer, in field order.

use vstd::prelude::*;
use vstd::string::StrSliceExecFns;

use crate::errors::CurrencyError;

verus! {

/// True of the ten ASCII decimal digits.
pub open spec fn is_digit_char(c: char) -> bool {
    48 <= c as u32 && c as u32 <= 57
}

/// Numeric value of an ASCII decimal digit.
pub open spec fn digit_value(c: char) -> int {
    c as u32 - 48
}

/// Value of a group field read as a decimal numeral, most significant digit
/// first.
pub open spec fn group_value(g: Seq<char>) -> int
    decreases g.len(),
{
    if g.len() == 0 {
        0
    } else {
        group_value(g.drop_last()) * 10 + digit_value(g.last())
    }
}

/// The two-character field delimiter `", "` starts at position `i` of `s`.
pub open spec fn delim_at(s: Seq<char>, i: int) -> bool {
    0 <= i && i + 1 < s.len() && s[i] == ',' && s[i + 1] == ' '
}

/// No field delimiter occurs anywhere in `g`.
pub open spec fn delim_free(g: Seq<char>) -> bool {
    forall|j: int| !delim_at(g, j)
}

/// The fields of `s`, split on the leftmost occurrences of `", "`.
///
/// The result always has at least one element; empty text yields one empty
/// field, exactly as splitting does.
pub open spec fn split_groups(s: Seq<char>) -> Seq<Seq<char>>
    decreases s.len(),
{
    if s.len() == 0 {
        seq![Seq::<char>::empty()]
    } else if s.len() >= 2 && s[0] == ',' && s[1] == ' ' {
        seq![Seq::<char>::empty()] + split_groups(s.subrange(2, s.len() as int))
    } else {
        let rest = split_groups(s.subrange(1, s.len() as int));
        seq![seq![s[0]] + rest[0]] + rest.subrange(1, rest.len() as int)
    }
}

/// A single field parses: it is non-empty, all digits, and its value fits in
/// `usize`.
pub open spec fn group_ok(g: Seq<char>) -> bool {
    &&& g.len() > 0
    &&& forall|j: int| 0 <= j < g.len() ==> is_digit_char(#[trigger] g[j])
    &&& group_value(g) <= usize::MAX
}

/// Every field of the encoded rule parses.
pub open spec fn rule_wf(s: Seq<char>) -> bool {
    forall|k: int| 0 <= k < split_groups(s).len() ==> group_ok(#[trigger] split_groups(s)[k])
}

/// The decoded group widths, in field order.
pub open spec fn rule_groups(s: Seq<char>) -> Seq<usize> {
    split_groups(s).map_values(|g: Seq<char>| group_value(g) as usize)
}

/// Splitting always yields at least one field.
pub proof fn lemma_split_groups_nonempty(s: Seq<char>)
    ensures
        split_groups(s).len() >= 1,
    decreases s.len(),
{
    if s.len() == 0 {
    } else if s.len() >= 2 && s[0] == ',' && s[1] == ' ' {
        lemma_split_groups_nonempty(s.subrange(2, s.len() as int));
    } else {
        lemma_split_groups_nonempty(s.subrange(1, s.len() as int));
    }
}

/// Text without a delimiter is a single field.
pub proof fn lemma_split_whole(g: Seq<char>)
    requires
        delim_free(g),
    ensures
        split_groups(g) == seq![g],
    decreases g.len(),
{
    if g.len() == 0 {
        assert(g =~= Seq::<char>::empty());
        assert(split_groups(g) =~= seq![g]);
    } else if g.len() >= 2 && g[0] == ',' && g[1] == ' ' {
        assert(delim_at(g, 0));
    } else {
        let tail = g.subrange(1, g.len() as int);
        assert forall|j: int| !delim_at(tail, j) by {
            if delim_at(tail, j) {
                assert(g[j + 1] == tail[j]);
                assert(g[j + 2] == tail[j + 1]);
                assert(delim_at(g, j + 1));
            }
        }
        lemma_split_whole(tail);
        let rest = split_groups(tail);
        assert(rest[0] == tail);
        assert(seq![g[0]] + tail =~= g);
        assert(rest.subrange(1, rest.len() as int) =~= Seq::<Seq<char>>::empty());
        assert(split_groups(g) =~= seq![g]);
    }
}

/// Splitting text that starts with a delimiter-free field `g` followed by a
/// delimiter yields `g` and then the split of the remainder.
pub proof fn lemma_split_concat(g: Seq<char>, t: Seq<char>)
    requires
        delim_free(g),
    ensures
        split_groups(g + seq![',', ' '] + t) == seq![g] + split_groups(t),
    decreases g.len(),
{
    let s = g + seq![',', ' '] + t;
    assert(s.len() == g.len() + 2 + t.len());
    if g.len() == 0 {
        assert(s[0] == ',');
        assert(s[1] == ' ');
        assert(s.subrange(2, s.len() as int) =~= t);
        assert(g =~= Seq::<char>::empty());
        assert(seq![Seq::<char>::empty()] =~~= seq![g]);
        assert(split_groups(s) == seq![g] + split_groups(t));
    } else {
        assert(s[0] == g[0]);
        // The head of `s` does not start a delimiter: if `g` has at least two
        // characters that would be a delimiter inside `g`; if `g` has exactly
        // one, the next character of `s` is the comma of the delimiter itself.
        if s.len() >= 2 && s[0] == ',' && s[1] == ' ' {
            if g.len() >= 2 {
                assert(s[1] == g[1]);
                assert(delim_at(g, 0));
            } else {
                assert(s[1] == ',');
            }
            assert(false);
        }
        let gt = g.subrange(1, g.len() as int);
        assert forall|j: int| !delim_at(gt, j) by {
            if delim_at(gt, j) {
                assert(g[j + 1] == gt[j]);
                assert(g[j + 2] == gt[j + 1]);
                assert(delim_at(g, j + 1));
            }
        }
        lemma_split_concat(gt, t);
        assert(s.subrange(1, s.len() as int) =~= gt + seq![',', ' '] + t);
        let rest = split_groups(s.subrange(1, s.len() as int));
        assert(rest == seq![gt] + split_groups(t));
        assert(rest[0] == gt);
        assert(seq![s[0]] + gt =~= g);
        assert(rest.subrange(1, rest.len() as int) =~= split_groups(t));
        assert(split_groups(s) =~= seq![g] + split_groups(t));
    }
}

/// Decodes a compact digit-grouping rule such as `"3"` or `"3, 2"` into the
/// group widths it lists, in field order.
///
/// Splits the text on `", "` and parses every field as a non-negative
/// integer. Text on which some field is empty, holds a character other than
/// an ASCII digit, or names a value beyond `usize::MAX` is rejected as
/// corrupted reference data.
pub fn decode_grouping_rule(raw: &str) -> (r: Result<Vec<usize>, CurrencyError>)
    ensures
        rule_wf(raw@) ==> (r matches Ok(v) && v@ == rule_groups(raw@)),
        !rule_wf(raw@) ==> (r matches Err(e) && e matches CurrencyError::MalformedGroupingRule {
            raw: q,
        } && q@ == raw@),
{
    let n = raw.unicode_len();
    let ghost total = split_groups(raw@);
    proof {
        lemma_split_groups_nonempty(raw@);
        assert(raw@.subrange(0, n as int) =~= raw@);
        assert(total.subrange(0, total.len() as int) =~= total);
    }
    let mut out: Vec<usize> = Vec::new();
    let mut start: usize = 0;
    let mut pending = true;
    while pending
        invariant
            n == raw@.len(),
            start <= n,
            total == split_groups(raw@),
            out@.len() <= total.len(),
            pending ==> out@.len() < total.len() && total.subrange(
                out@.len() as int,
                total.len() as int,
            ) == split_groups(raw@.subrange(start as int, n as int)),
            !pending ==> out@.len() == total.len(),
            forall|i: int|
                0 <= i < out@.len() ==> group_ok(#[trigger] total[i]) && out@[i] == group_value(
                    total[i],
                ) as usize,
        decreases n - start + (if pending { 1int } else { 0int }),
    {
        let ghost done = out@.len() as int;
        // Find the end of the current field: the first ", " or the end of the text.
        let mut end: usize = start;
        while end < n && !(end + 1 < n && raw.get_char(end) == ',' && raw.get_char(end + 1) == ' ')
            invariant
                n == raw@.len(),
                start <= end <= n,
                forall|j: int| start <= j < end ==> !delim_at(raw@, j),
            decreases n - end,
        {
            end = end + 1;
        }
        let ghost g = raw@.subrange(start as int, end as int);
        proof {
            assert forall|j: int| !delim_at(g, j) by {
                if delim_at(g, j) {
                    assert(raw@[start + j] == g[j]);
                    assert(raw@[start + j + 1] == g[j + 1]);
                    assert(delim_at(raw@, start + j));
                }
            }
            let suffix = raw@.subrange(start as int, n as int);
            if end < n {
                assert(delim_at(raw@, end as int));
                let next = raw@.subrange(end + 2, n as int);
                assert(suffix =~= g + seq![',', ' '] + next);
                lemma_split_concat(g, next);
                lemma_split_groups_nonempty(next);
                let tail = total.subrange(done, total.len() as int);
                assert(tail == seq![g] + split_groups(next));
                assert(total[done] == tail[0]);
                assert(tail[0] == g);
                assert forall|i: int|
                    0 <= i < split_groups(next).len() implies total.subrange(
                    done + 1,
                    total.len() as int,
                )[i] == split_groups(next)[i] by {
                    assert(total.subrange(done + 1, total.len() as int)[i] == total[done + 1 + i]);
                    assert(tail[1 + i] == total[done + 1 + i]);
                    assert(tail[1 + i] == split_groups(next)[i]);
                }
                assert(total.subrange(done + 1, total.len() as int) =~= split_groups(next));
            } else {
                assert(suffix =~= g);
                lemma_split_whole(g);
                let tail = total.subrange(done, total.len() as int);
                assert(tail == seq![g]);
                assert(total[done] == tail[0]);
                assert(tail[0] == g);
                assert(total.len() == done + 1);
            }
        }
        // Parse the field as a decimal numeral.
        let mut ok = end > start;
        let mut acc: usize = 0;
        let mut k: usize = start;
        while k < end
            invariant
                n == raw@.len(),
                start <= k <= end <= n,
                g == raw@.subrange(start as int, end as int),
                ok <==> (end > start && (forall|j: int|
                    start <= j < k ==> is_digit_char(#[trigger] raw@[j])) && group_value(
                    raw@.subrange(start as int, k as int),
                ) <= usize::MAX),
                ok ==> acc == group_value(raw@.subrange(start as int, k as int)),
            decreases end - k,
        {
            let c = raw.get_char(k);
            let cu = c as u32;
            let ghost p = raw@.subrange(start as int, k as int);
            let ghost p2 = raw@.subrange(start as int, k as int + 1);
            proof {
                assert(p2.drop_last() =~= p);
                assert(p2.last() == raw@[k as int]);
                assert(group_value(p2) == group_value(p) * 10 + digit_value(raw@[k as int]));
            }
            if ok {
                if 48 <= cu && cu <= 57 {
                    let d = (cu - 48) as usize;
                    if acc <= (usize::MAX - d) / 10 {
                        proof {
                            assert(acc * 10 <= ((usize::MAX - d) / 10) * 10);
                            assert(((usize::MAX - d) / 10) * 10 <= usize::MAX - d);
                        }
                        acc = acc * 10 + d;
                    } else {
                        proof {
                            assert(acc * 10 >= ((usize::MAX - d) / 10) * 10 + 10);
                            assert(((usize::MAX - d) / 10) * 10 + 10 > usize::MAX - d);
                            assert(group_value(p2) > usize::MAX);
                        }
                        ok = false;
                    }
                } else {
                    proof {
                        assert(!is_digit_char(raw@[k as int]));
                    }
                    ok = false;
                }
            } else {
                proof {
                    // Once a field has failed, any extension of it fails too.
                    if (forall|j: int| start <= j < k + 1 ==> is_digit_char(#[trigger] raw@[j])) {
                        assert(group_value(p) > usize::MAX);
                        assert(digit_value(raw@[k as int]) >= 0);
                        assert(group_value(p2) >= group_value(p));
                    }
                }
            }
            k = k + 1;
        }
        proof {
            assert(g == raw@.subrange(start as int, end as int));
            if ok {
                assert forall|j: int| 0 <= j < g.len() implies is_digit_char(#[trigger] g[j]) by {
                    assert(g[j] == raw@[start + j]);
                }
                assert(group_ok(g));
            } else {
                if end == start {
                    assert(g.len() == 0);
                    assert(!group_ok(g));
                } else {
                    if (forall|j: int| start <= j < end ==> is_digit_char(#[trigger] raw@[j])) {
                        assert(!group_ok(g));
                    } else {
                        let j = choose|j: int|
                            start <= j < end && !is_digit_char(#[trigger] raw@[j]);
                        assert(g[j - start] == raw@[j]);
                        assert(!group_ok(g));
                    }
                }
            }
        }
        if ok {
            out.push(acc);
        } else {
            proof {
                assert(!group_ok(total[done]));
                assert(!rule_wf(raw@));
            }
            return Err(CurrencyError::MalformedGroupingRule { raw: raw.to_owned() });
        }
        if end < n {
            start = end + 2;
        } else {
            pending = false;
        }
    }
    proof {
        assert(rule_wf(raw@));
        assert forall|i: int| 0 <= i < out@.len() implies out@[i] == rule_groups(raw@)[i] by {
            assert(rule_groups(raw@)[i] == group_value(total[i]) as usize);
        }
        assert(out@ =~= rule_groups(raw@));
    }
    Ok(out)
}

/// Decoding is a pure function of the encoded rule: two successful decodes
/// of the same record's rule yield the same sequence of group widths.
pub proof fn lemma_decode_idempotent(s: Seq<char>, v1: Seq<usize>, v2: Seq<usize>)
    requires
        v1 == rule_groups(s),
        v2 == rule_groups(s),
    ensures
        v1 == v2,
{
}

} // verus!
