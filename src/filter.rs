use vstd::prelude::*;
use vstd::string::StringExecFns;
use crate::order::chars_of;

verus! {

/// One alias of the instrument filter: a filter equal to `token` also
/// accepts every instrument name that contains `phrase`. Both are compared
/// in lower case.
pub struct InstrumentAlias {
    pub token: String,
    pub phrase: String,
}

/// The alias table, as pairs of token and phrase.
pub open spec fn alias_rules() -> Seq<(Seq<char>, Seq<char>)> {
    seq![("tbl"@, "test beamline"@)]
}

/// `p` occurs in `s` as a contiguous run.
pub open spec fn contains_seq(s: Seq<char>, p: Seq<char>) -> bool {
    exists|i: int| 0 <= i && i + p.len() <= s.len() && #[trigger] s.subrange(i, i + p.len()) == p
}

/// Whether a lower-case instrument name passes a lower-case filter: the two
/// are equal, or the filter is the token of an alias whose phrase the name
/// contains.
pub open spec fn folded_match(actual: Seq<char>, filter: Seq<char>) -> bool {
    actual == filter || exists|k: int|
        0 <= k < alias_rules().len() && (#[trigger] alias_rules()[k]).0 == filter
            && contains_seq(actual, alias_rules()[k].1)
}

/// Lower-case form of a string, as std's Unicode case mapping gives it.
pub uninterp spec fn lower_of(s: Seq<char>) -> Seq<char>;

/// Whether instrument name `actual` passes the optional filter.
pub open spec fn instrument_match(actual: Seq<char>, filter: Option<String>) -> bool {
    match filter {
        None => true,
        Some(f) => folded_match(lower_of(actual), lower_of(f@)),
    }
}

/// Without a filter every instrument name passes.
pub proof fn lemma_no_filter_matches_all(actual: Seq<char>)
    ensures
        instrument_match(actual, None),
{
}

/// Relies on str::to_lowercase: the result depends on the characters alone.
#[verifier::external_body]
fn lowercase(s: &str) -> (r: String)
    ensures
        r@ == lower_of(s@),
{
    s.to_lowercase()
}

/// The alias table of the instrument filter.
pub fn instrument_aliases() -> (r: Vec<InstrumentAlias>)
    ensures
        r@.len() == alias_rules().len(),
        forall|k: int|
            0 <= k < r@.len() ==> ((#[trigger] r@[k]).token@, r@[k].phrase@) == alias_rules()[k],
{
    let mut r: Vec<InstrumentAlias> = Vec::new();
    r.push(
        InstrumentAlias { token: String::from_str("tbl"), phrase: String::from_str("test beamline") },
    );
    r
}

fn chars_eq(a: &Vec<char>, b: &Vec<char>) -> (r: bool)
    ensures
        r == (a@ == b@),
{
    if a.len() != b.len() {
        return false;
    }
    let mut i: usize = 0;
    while i < a.len()
        invariant
            a@.len() == b@.len(),
            i <= a@.len(),
            a@.subrange(0, i as int) == b@.subrange(0, i as int),
        decreases a.len() - i,
    {
        if a[i] != b[i] {
            assert(a@[i as int] != b@[i as int]);
            return false;
        }
        assert(a@.subrange(0, i + 1) =~= a@.subrange(0, i as int).push(a@[i as int]));
        assert(b@.subrange(0, i + 1) =~= b@.subrange(0, i as int).push(b@[i as int]));
        i = i + 1;
    }
    assert(a@ =~= a@.subrange(0, i as int));
    assert(b@ =~= b@.subrange(0, i as int));
    true
}

/// Whether `p` occurs at position `at` of `s`.
fn occurs_at(s: &Vec<char>, p: &Vec<char>, at: usize) -> (r: bool)
    requires
        at + p.len() <= s.len(),
    ensures
        r == (s@.subrange(at as int, at + p@.len()) == p@),
{
    let mut i: usize = 0;
    while i < p.len()
        invariant
            at + p.len() <= s.len(),
            i <= p@.len(),
            s@.subrange(at as int, at + i) == p@.subrange(0, i as int),
        decreases p.len() - i,
    {
        assert(at + i < s@.len());
        if s[at + i] != p[i] {
            assert(s@.subrange(at as int, at + p@.len())[i as int] != p@[i as int]);
            return false;
        }
        assert(s@.subrange(at as int, at + i + 1) =~= s@.subrange(at as int, at + i).push(
            s@[at + i],
        ));
        assert(p@.subrange(0, i + 1) =~= p@.subrange(0, i as int).push(p@[i as int]));
        i = i + 1;
    }
    assert(p@ =~= p@.subrange(0, i as int));
    true
}

fn contains_chars(s: &Vec<char>, p: &Vec<char>) -> (r: bool)
    ensures
        r == contains_seq(s@, p@),
{
    if p.len() > s.len() {
        return false;
    }
    let last: usize = s.len() - p.len();
    let mut at: usize = 0;
    loop
        invariant
            last + p@.len() == s@.len(),
            at <= last,
            forall|i: int| 0 <= i < at ==> #[trigger] s@.subrange(i, i + p@.len()) != p@,
        decreases last - at,
    {
        if occurs_at(s, p, at) {
            return true;
        }
        if at == last {
            assert forall|i: int| 0 <= i && i + p@.len() <= s@.len() implies #[trigger] s@.subrange(
                i,
                i + p@.len(),
            ) != p@ by {
                if i == at {
                }
            }
            return false;
        }
        at = at + 1;
    }
}

/// Whether a lower-case instrument name passes a lower-case filter.
pub fn matches_folded(actual: &str, filter: &str) -> (r: bool)
    ensures
        r == folded_match(actual@, filter@),
{
    let a = chars_of(actual);
    let f = chars_of(filter);
    if chars_eq(&a, &f) {
        return true;
    }
    let aliases = instrument_aliases();
    let mut k: usize = 0;
    while k < aliases.len()
        invariant
            a@ == actual@,
            f@ == filter@,
            actual@ != filter@,
            aliases@.len() == alias_rules().len(),
            forall|j: int|
                0 <= j < aliases@.len() ==> ((#[trigger] aliases@[j]).token@, aliases@[j].phrase@)
                    == alias_rules()[j],
            forall|j: int|
                0 <= j < k ==> !((#[trigger] alias_rules()[j]).0 == filter@ && contains_seq(
                    actual@,
                    alias_rules()[j].1,
                )),
        decreases aliases.len() - k,
    {
        let token = chars_of(aliases[k].token.as_str());
        let phrase = chars_of(aliases[k].phrase.as_str());
        assert(alias_rules()[k as int] == (aliases@[k as int].token@, aliases@[k as int].phrase@));
        if chars_eq(&token, &f) && contains_chars(&a, &phrase) {
            return true;
        }
        k = k + 1;
    }
    false
}

/// Whether instrument name `actual` passes the optional filter: always
/// without one; otherwise the two are compared in lower case, aliases
/// included.
pub fn matches_instrument(actual: &str, filter: &Option<String>) -> (r: bool)
    ensures
        r == instrument_match(actual@, *filter),
{
    match filter {
        None => true,
        Some(f) => {
            let a = lowercase(actual);
            let fl = lowercase(f.as_str());
            matches_folded(a.as_str(), fl.as_str())
        },
    }
}

} // verus!
