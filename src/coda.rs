use vstd::prelude::*;
use vstd::string::StringExecFns;

verus! {

/// The facility's data root; proposals of a year sit under `<root>/<year>`.
pub open spec fn data_root() -> Seq<char> {
    "/ess/data/coda"@
}

/// The decimal digits of a natural number, most significant first.
pub open spec fn decimal_digits(n: nat) -> Seq<char>
    decreases n,
{
    let d = seq![char_of_digit(n % 10)];
    if n < 10 {
        d
    } else {
        decimal_digits(n / 10) + d
    }
}

pub open spec fn char_of_digit(d: nat) -> char {
    if d == 0 { '0' }
    else if d == 1 { '1' }
    else if d == 2 { '2' }
    else if d == 3 { '3' }
    else if d == 4 { '4' }
    else if d == 5 { '5' }
    else if d == 6 { '6' }
    else if d == 7 { '7' }
    else if d == 8 { '8' }
    else { '9' }
}

/// An integer written in decimal, with a leading `-` when negative.
pub open spec fn decimal_text(n: int) -> Seq<char> {
    if n < 0 {
        seq!['-'] + decimal_digits((-n) as nat)
    } else {
        decimal_digits(n as nat)
    }
}

/// The directory that holds the proposals of `year`.
pub open spec fn base_dir_path(year: int) -> Seq<char> {
    data_root() + "/"@ + decimal_text(year)
}

/// The raw-data directory of a proposal of `year`.
pub open spec fn raw_dir_path(year: int, proposal: Seq<char>) -> Seq<char> {
    base_dir_path(year) + "/"@ + proposal + "/raw"@
}

/// The text of one decimal digit.
fn digit_text(d: u64) -> (r: &'static str)
    requires
        d < 10,
    ensures
        r@ == seq![char_of_digit(d as nat)],
{
    proof {
        reveal_strlit("0");
        reveal_strlit("1");
        reveal_strlit("2");
        reveal_strlit("3");
        reveal_strlit("4");
        reveal_strlit("5");
        reveal_strlit("6");
        reveal_strlit("7");
        reveal_strlit("8");
        reveal_strlit("9");
    }
    let r = if d == 0 {
        "0"
    } else if d == 1 {
        "1"
    } else if d == 2 {
        "2"
    } else if d == 3 {
        "3"
    } else if d == 4 {
        "4"
    } else if d == 5 {
        "5"
    } else if d == 6 {
        "6"
    } else if d == 7 {
        "7"
    } else if d == 8 {
        "8"
    } else {
        "9"
    };
    assert(r@ =~= seq![char_of_digit(d as nat)]);
    r
}

/// A natural number written in decimal.
fn digits_text(n: u64) -> (r: String)
    ensures
        r@ == decimal_digits(n as nat),
    decreases n,
{
    let d = digit_text(n % 10);
    if n < 10 {
        String::from_str(d)
    } else {
        let mut r = digits_text(n / 10);
        r.append(d);
        r
    }
}

/// A year written in decimal, with a leading `-` when negative.
fn year_text(year: i32) -> (r: String)
    ensures
        r@ == decimal_text(year as int),
{
    if year < 0 {
        let magnitude: i64 = -(year as i64);
        let mut r = String::from_str("-");
        let digits = digits_text(magnitude as u64);
        r.append(digits.as_str());
        proof {
            reveal_strlit("-");
        }
        assert(r@ =~= decimal_text(year as int));
        r
    } else {
        digits_text(year as u64)
    }
}

/// The year given, or else `current`, the calendar year of the local clock.
pub fn resolve_year(year: Option<i32>, current: i32) -> (r: i32)
    ensures
        r == (match year {
            Some(y) => y,
            None => current,
        }),
{
    match year {
        Some(y) => y,
        None => current,
    }
}

/// The directory that holds the proposals of `year`.
pub fn coda_base_dir(year: i32) -> (r: String)
    ensures
        r@ == base_dir_path(year as int),
{
    let mut p = String::from_str("/ess/data/coda");
    p.append("/");
    let y = year_text(year);
    p.append(y.as_str());
    p
}

/// The raw-data directory of `proposal_number` in `year`.
pub fn coda_raw_dir(proposal_number: &str, year: i32) -> (r: String)
    ensures
        r@ == raw_dir_path(year as int, proposal_number@),
{
    let mut p = coda_base_dir(year);
    p.append("/");
    p.append(proposal_number);
    p.append("/raw");
    p
}

/// A subdirectory of the year's root, seen by the proposal locator.
pub struct ProposalEntry {
    /// The subdirectory's name.
    pub name: String,
    /// Modification time of its `raw` child, in nanoseconds since the Unix
    /// epoch (times before the epoch count as the epoch); `None` when that
    /// child cannot be read.
    pub raw_modified: Option<u128>,
}

/// Why no active proposal was found.
#[derive(Clone, Copy, Debug, PartialEq, Eq, Structural)]
pub enum LocateError {
    /// The year's root directory cannot be listed.
    RootUnreadable,
    /// No subdirectory has a `raw` child modified after the epoch.
    NoCandidate,
}

/// The activity signal of an entry: the `raw` modification time, or zero.
pub open spec fn raw_time(e: ProposalEntry) -> int {
    match e.raw_modified {
        Some(t) => t as int,
        None => 0,
    }
}

/// Entry `i` is the one the locator picks: its `raw` time is after the
/// epoch, strictly greater than that of every entry before it, and at least
/// that of every entry after it.
pub open spec fn is_selected(s: Seq<ProposalEntry>, i: int) -> bool {
    &&& 0 <= i < s.len()
    &&& raw_time(s[i]) > 0
    &&& forall|j: int| 0 <= j < i ==> raw_time(#[trigger] s[j]) < raw_time(s[i])
    &&& forall|j: int| i < j < s.len() ==> raw_time(#[trigger] s[j]) <= raw_time(s[i])
}

/// The name of the proposal whose `raw` subdirectory was modified last; on a
/// tie the first such entry wins.
pub fn find_proposal(entries: &Vec<ProposalEntry>) -> (r: Result<String, LocateError>)
    ensures
        match r {
            Ok(name) => exists|i: int| is_selected(entries@, i) && name@ == entries@[i].name@,
            Err(e) => e == LocateError::NoCandidate && forall|i: int|
                0 <= i < entries@.len() ==> raw_time(#[trigger] entries@[i]) == 0,
        },
{
    let mut best: Option<usize> = None;
    let mut best_time: u128 = 0;
    let mut i: usize = 0;
    while i < entries.len()
        invariant
            i <= entries@.len(),
            match best {
                Some(b) => b < i && best_time as int == raw_time(entries@[b as int]) && best_time
                    > 0 && forall|j: int| 0 <= j < b ==> raw_time(#[trigger] entries@[j])
                    < best_time,
                None => best_time == 0,
            },
            forall|j: int| 0 <= j < i ==> raw_time(#[trigger] entries@[j]) <= best_time,
        decreases entries.len() - i,
    {
        if let Some(t) = entries[i].raw_modified {
            if t > best_time {
                best = Some(i);
                best_time = t;
            }
        }
        i = i + 1;
    }
    match best {
        Some(b) => {
            assert(is_selected(entries@, b as int));
            Ok(entries[b].name.clone())
        },
        None => Err(LocateError::NoCandidate),
    }
}

/// Where several entries qualify, the one whose `raw` subdirectory was
/// modified strictly last is the one picked, in whatever order the entries
/// are listed.
pub proof fn lemma_latest_proposal_selected(s: Seq<ProposalEntry>, k: int)
    requires
        0 <= k < s.len(),
        raw_time(s[k]) > 0,
        forall|j: int| 0 <= j < s.len() && j != k ==> raw_time(#[trigger] s[j]) < raw_time(s[k]),
    ensures
        is_selected(s, k),
        forall|i: int| #[trigger] is_selected(s, i) ==> i == k,
{
    assert forall|i: int| #[trigger] is_selected(s, i) implies i == k by {
        if i < k {
            assert(raw_time(s[i]) < raw_time(s[k]));
        } else if i > k {
            assert(raw_time(s[k]) < raw_time(s[i]));
        }
    }
}

} // verus!
