//! The registry: an immutable code-to-record table built from the bundled
//! dataset, probed case-insensitively.

use vstd::prelude::*;
use vstd::string::StrSliceExecFns;

use crate::currency::models_of;
use crate::currency::Currency;
use crate::currency::CurrencyModel;
use crate::dataset::currency_records;
use crate::dataset::spec_dataset;
use crate::errors::CurrencyError;

verus! {

/// Lower-cased code unit of a character: ASCII upper-case letters fold to
/// their lower-case counterparts; every other character stands as it is.
pub open spec fn lower_u32(c: char) -> u32 {
    if 65 <= c as u32 && c as u32 <= 90 {
        ((c as u32) + 32) as u32
    } else {
        c as u32
    }
}

/// Case-normalized form of a code: its characters' lower-cased code units.
pub open spec fn norm(s: Seq<char>) -> Seq<u32> {
    s.map_values(|c: char| lower_u32(c))
}

/// The first record of `t` whose normalized code equals `key`, if any.
pub open spec fn spec_lookup(t: Seq<CurrencyModel>, key: Seq<u32>) -> Option<CurrencyModel>
    decreases t.len(),
{
    if t.len() == 0 {
        None
    } else if norm(t[0].iso_alpha_code) == key {
        Some(t[0])
    } else {
        spec_lookup(t.subrange(1, t.len() as int), key)
    }
}

/// A lookup misses exactly when no record's normalized code equals the key,
/// and a hit returns a stored record whose normalized code equals the key.
pub proof fn lemma_lookup_characterization(t: Seq<CurrencyModel>, key: Seq<u32>)
    ensures
        (spec_lookup(t, key) is None) <==> (forall|i: int|
            0 <= i < t.len() ==> norm(#[trigger] t[i].iso_alpha_code) != key),
        (spec_lookup(t, key) matches Some(m) ==> exists|i: int|
            0 <= i < t.len() && m == t[i] && norm(#[trigger] t[i].iso_alpha_code) == key),
    decreases t.len(),
{
    if t.len() == 0 {
    } else if norm(t[0].iso_alpha_code) == key {
    } else {
        let tail = t.subrange(1, t.len() as int);
        lemma_lookup_characterization(tail, key);
        assert forall|i: int| 1 <= i < t.len() implies tail[i - 1] == t[i] by {}
        if spec_lookup(t, key) is None {
            assert forall|i: int|
                0 <= i < t.len() implies norm(#[trigger] t[i].iso_alpha_code) != key by {
                if i >= 1 {
                    assert(tail[i - 1] == t[i]);
                }
            }
        }
        match spec_lookup(t, key) {
            Some(m) => {
                let i0 = choose|i0: int|
                    0 <= i0 < tail.len() && m == tail[i0] && norm(
                        #[trigger] tail[i0].iso_alpha_code,
                    ) == key;
                assert(t[i0 + 1] == tail[i0]);
                assert(norm(t[i0 + 1].iso_alpha_code) == key);
            },
            None => {},
        }
    }
}

/// Lookup is case-insensitive: two spellings of a code that normalize alike
/// find the same record, or miss alike.
pub proof fn lemma_lookup_case_insensitive(t: Seq<CurrencyModel>, s1: Seq<char>, s2: Seq<char>)
    requires
        norm(s1) == norm(s2),
    ensures
        spec_lookup(t, norm(s1)) == spec_lookup(t, norm(s2)),
{
}

/// Registries built from the bundled dataset serve identical results: no
/// matter how many times, or from how many callers, construction ran, two
/// lookups of the same key agree. The one-time construction a surrounding
/// application performs therefore cannot change what any caller observes.
pub proof fn lemma_lookups_consistent(
    t1: Seq<CurrencyModel>,
    t2: Seq<CurrencyModel>,
    key: Seq<u32>,
)
    requires
        t1 == spec_dataset(),
        t2 == spec_dataset(),
    ensures
        spec_lookup(t1, key) == spec_lookup(t2, key),
{
}

/// Any spelling that normalizes to a stored code finds exactly that stored
/// record: a lookup on any case variant of a code returns the one record
/// whose alphabetic code field is the canonical stored value.
pub proof fn lemma_find_canonical(s: Seq<char>, i: int)
    requires
        0 <= i < spec_dataset().len(),
        norm(s) == norm(spec_dataset()[i].iso_alpha_code),
    ensures
        spec_lookup(spec_dataset(), norm(s)) == Some(spec_dataset()[i]),
{
    crate::dataset::lemma_spec_dataset_codes_unique();
    lemma_lookup_characterization(spec_dataset(), norm(s));
    match spec_lookup(spec_dataset(), norm(s)) {
        Some(m) => {
            let i0 = choose|i0: int|
                0 <= i0 < spec_dataset().len() && m == spec_dataset()[i0] && norm(
                    #[trigger] spec_dataset()[i0].iso_alpha_code,
                ) == norm(s);
            if i0 != i {
                assert(norm(spec_dataset()[i0].iso_alpha_code) != norm(
                    spec_dataset()[i].iso_alpha_code,
                ));
            }
            assert(m == spec_dataset()[i]);
        },
        None => {
            assert(norm(spec_dataset()[i].iso_alpha_code) == norm(s));
            assert(false);
        },
    }
}

/// Every record a lookup on the bundled registry can return is well-formed:
/// in particular its grouping rule decodes, so the derived accessor never
/// fails on a record the registry handed out.
pub proof fn lemma_found_record_wf(key: Seq<u32>, m: CurrencyModel)
    requires
        spec_lookup(spec_dataset(), key) == Some(m),
    ensures
        crate::currency::model_wf(m),
{
    lemma_lookup_characterization(spec_dataset(), key);
    crate::dataset::lemma_spec_dataset_wf();
    let i0 = choose|i0: int|
        0 <= i0 < spec_dataset().len() && m == spec_dataset()[i0] && norm(
            #[trigger] spec_dataset()[i0].iso_alpha_code,
        ) == key;
    assert(crate::currency::model_wf(spec_dataset()[i0]));
}

/// True exactly when the two texts are the same code up to ASCII case.
fn code_matches(a: &str, b: &str) -> (r: bool)
    ensures
        r == (norm(a@) == norm(b@)),
{
    let la = a.unicode_len();
    let lb = b.unicode_len();
    if la != lb {
        proof {
            assert(norm(a@).len() == a@.len());
            assert(norm(b@).len() == b@.len());
        }
        return false;
    }
    let mut i: usize = 0;
    while i < la
        invariant
            la == a@.len(),
            la == lb,
            lb == b@.len(),
            i <= la,
            forall|j: int| 0 <= j < i ==> lower_u32(a@[j]) == lower_u32(b@[j]),
        decreases la - i,
    {
        let ua = a.get_char(i) as u32;
        let ub = b.get_char(i) as u32;
        let fa = if 65 <= ua && ua <= 90 {
            ua + 32
        } else {
            ua
        };
        let fb = if 65 <= ub && ub <= 90 {
            ub + 32
        } else {
            ub
        };
        if fa != fb {
            proof {
                assert(norm(a@)[i as int] == lower_u32(a@[i as int]));
                assert(norm(b@)[i as int] == lower_u32(b@[i as int]));
            }
            return false;
        }
        i = i + 1;
    }
    proof {
        assert forall|j: int| 0 <= j < a@.len() implies norm(a@)[j] == norm(b@)[j] by {
            assert(norm(a@)[j] == lower_u32(a@[j]));
            assert(norm(b@)[j] == lower_u32(b@[j]));
        }
        assert(norm(a@) =~= norm(b@));
    }
    true
}

/// The registry: owns the canonical mapping from currency code to record.
///
/// It is built in one step from the bundled dataset and offers no write
/// operation afterwards, so a value of it never changes once constructed.
pub struct Registry {
    records: Vec<Currency>,
}

impl View for Registry {
    type V = Seq<CurrencyModel>;

    closed spec fn view(&self) -> Seq<CurrencyModel> {
        models_of(self.records@)
    }
}

impl Registry {
    /// Builds the registry from the bundled dataset.
    pub fn new() -> (r: Registry)
        ensures
            r@ == spec_dataset(),
    {
        let records = currency_records();
        Registry { records }
    }

    /// Looks up a currency by its alphabetic code, case-insensitively.
    ///
    /// On a hit, returns an independent copy of the stored record; on a
    /// miss, reports the unknown code. No default or placeholder record is
    /// ever returned.
    pub fn find(&self, code: &str) -> (r: Result<Currency, CurrencyError>)
        ensures
            (match spec_lookup(self@, norm(code@)) {
                Some(m) => r matches Ok(c) && c@ == m,
                None => r matches Err(e) && (e matches CurrencyError::UnknownCurrency { code: q }
                    && q@ == code@),
            }),
            (r is Ok) <==> exists|i: int|
                0 <= i < self@.len() && norm(#[trigger] self@[i].iso_alpha_code) == norm(code@),
    {
        let ghost key = norm(code@);
        proof {
            assert(self@.subrange(0, self@.len() as int) =~= self@);
        }
        let mut i: usize = 0;
        while i < self.records.len()
            invariant
                self@ == models_of(self.records@),
                self@.len() == self.records@.len(),
                i <= self.records.len(),
                key == norm(code@),
                spec_lookup(self@, key) == spec_lookup(
                    self@.subrange(i as int, self@.len() as int),
                    key,
                ),
                forall|j: int| 0 <= j < i ==> norm(#[trigger] self@[j].iso_alpha_code) != key,
            decreases self.records.len() - i,
        {
            let c = self.records[i];
            proof {
                assert(self@[i as int] == self.records@[i as int]@);
            }
            let ghost sub = self@.subrange(i as int, self@.len() as int);
            if code_matches(code, c.iso_alpha_code) {
                proof {
                    assert(sub[0] == self@[i as int]);
                    assert(norm(sub[0].iso_alpha_code) == key);
                    assert(spec_lookup(sub, key) == Some(sub[0]));
                    assert(norm(self@[i as int].iso_alpha_code) == key);
                }
                return Ok(c);
            }
            proof {
                let sub2 = self@.subrange(i as int + 1, self@.len() as int);
                assert(sub[0] == self@[i as int]);
                assert(norm(sub[0].iso_alpha_code) != key);
                assert(sub.subrange(1, sub.len() as int) =~= sub2);
                assert(spec_lookup(sub, key) == spec_lookup(sub2, key));
            }
            i = i + 1;
        }
        proof {
            assert(self@.subrange(self@.len() as int, self@.len() as int) =~= Seq::<
                CurrencyModel,
            >::empty());
            assert(spec_lookup(self@, key) is None);
        }
        Err(CurrencyError::UnknownCurrency { code: code.to_owned() })
    }
}

} // verus!
