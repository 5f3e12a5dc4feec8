use vstd::prelude::*;
use vstd::multiset::Multiset;
use vstd::std_specs::iter::IteratorSpec;

verus! {

broadcast use vstd::seq_lib::group_to_multiset_ensures;

/// Lexicographic order on character sequences, comparing characters by
/// their scalar values; a proper prefix sorts first.
pub open spec fn lex_le(a: Seq<char>, b: Seq<char>) -> bool
    decreases a.len(),
{
    if a.len() == 0 {
        true
    } else if b.len() == 0 {
        false
    } else if a[0] != b[0] {
        a[0] < b[0]
    } else {
        lex_le(a.drop_first(), b.drop_first())
    }
}

/// The paths are in ascending order.
pub open spec fn is_sorted_paths(s: Seq<String>) -> bool {
    forall|i: int, j: int| 0 <= i < j < s.len() ==> lex_le(#[trigger] s[i]@, #[trigger] s[j]@)
}

/// Any two paths are comparable.
pub proof fn lemma_lex_total(a: Seq<char>, b: Seq<char>)
    ensures
        lex_le(a, b) || lex_le(b, a),
    decreases a.len(),
{
    if a.len() > 0 && b.len() > 0 && a[0] == b[0] {
        lemma_lex_total(a.drop_first(), b.drop_first());
    }
}

/// Every path sorts before or equal to itself.
pub proof fn lemma_lex_refl(a: Seq<char>)
    ensures
        lex_le(a, a),
    decreases a.len(),
{
    if a.len() > 0 {
        lemma_lex_refl(a.drop_first());
    }
}

/// Paths that sort before or equal to each other are the same text.
pub proof fn lemma_lex_antisym(a: Seq<char>, b: Seq<char>)
    requires
        lex_le(a, b),
        lex_le(b, a),
    ensures
        a == b,
    decreases a.len(),
{
    if a.len() > 0 && b.len() > 0 {
        if a[0] == b[0] {
            lemma_lex_antisym(a.drop_first(), b.drop_first());
            assert(a =~= seq![a[0]] + a.drop_first());
            assert(b =~= seq![b[0]] + b.drop_first());
        }
    } else {
        assert(a =~= b);
    }
}

/// The path order is transitive.
pub proof fn lemma_lex_trans(a: Seq<char>, b: Seq<char>, c: Seq<char>)
    requires
        lex_le(a, b),
        lex_le(b, c),
    ensures
        lex_le(a, c),
    decreases a.len(),
{
    if a.len() > 0 && b.len() > 0 && c.len() > 0 && a[0] == b[0] && b[0] == c[0] {
        lemma_lex_trans(a.drop_first(), b.drop_first(), c.drop_first());
    }
}

/// Characters of a string, in order.
pub(crate) fn chars_of(s: &str) -> (r: Vec<char>)
    ensures
        r@ == s@,
{
    broadcast use vstd::string::axiom_spec_iter, vstd::string::next_postcondition;

    let mut it = s.chars();
    let mut r: Vec<char> = Vec::new();
    loop
        invariant
            r@ + it.remaining() == s@,
            it.decrease() is Some,
        ensures
            r@ == s@,
        decreases it.decrease()->0,
    {
        match it.next() {
            Some(c) => {
                assert(r@.push(c) + it.remaining() =~= s@);
                r.push(c);
            },
            None => {
                assert(r@ =~= s@);
                break;
            },
        }
    }
    r
}

fn chars_le(a: &Vec<char>, b: &Vec<char>) -> (r: bool)
    ensures
        r == lex_le(a@, b@),
{
    let mut i: usize = 0;
    assert(a@.skip(0) =~= a@);
    assert(b@.skip(0) =~= b@);
    while i < a.len() && i < b.len() && a[i] == b[i]
        invariant
            i <= a.len(),
            i <= b.len(),
            lex_le(a@, b@) == lex_le(a@.skip(i as int), b@.skip(i as int)),
        decreases a.len() - i,
    {
        assert(a@.skip(i as int).drop_first() =~= a@.skip(i + 1));
        assert(b@.skip(i as int).drop_first() =~= b@.skip(i + 1));
        i = i + 1;
    }
    if i == a.len() {
        true
    } else if i == b.len() {
        false
    } else {
        a[i] < b[i]
    }
}

/// Whether path `a` sorts before or equal to path `b`.
pub fn path_le(a: &str, b: &str) -> (r: bool)
    ensures
        r == lex_le(a@, b@),
{
    let ca = chars_of(a);
    let cb = chars_of(b);
    chars_le(&ca, &cb)
}

/// Sorts paths ascending; paths that compare equal keep their input order.
fn sort_paths(files: Vec<String>) -> (r: Vec<String>)
    ensures
        is_sorted_paths(r@),
        r@.len() == files@.len(),
        r@.to_multiset() == files@.to_multiset(),
{
    let mut rest = files;
    let mut sorted: Vec<String> = Vec::new();
    let mut keys: Vec<Vec<char>> = Vec::new();
    while rest.len() > 0
        invariant
            is_sorted_paths(sorted@),
            keys@.len() == sorted@.len(),
            forall|k: int| 0 <= k < keys@.len() ==> (#[trigger] keys@[k])@ == sorted@[k]@,
            sorted@.to_multiset().add(rest@.to_multiset()) == files@.to_multiset(),
        decreases rest.len(),
    {
        let ghost before = rest@;
        let f = rest.pop().unwrap();
        assert(before =~= rest@.push(f));
        let key = chars_of(f.as_str());
        let mut pos: usize = 0;
        while pos < keys.len() && chars_le(&keys[pos], &key)
            invariant
                pos <= keys@.len(),
                key@ == f@,
                keys@.len() == sorted@.len(),
                forall|k: int| 0 <= k < keys@.len() ==> (#[trigger] keys@[k])@ == sorted@[k]@,
                forall|k: int| 0 <= k < pos ==> lex_le((#[trigger] sorted@[k])@, f@),
            decreases keys.len() - pos,
        {
            pos = pos + 1;
        }
        proof {
            if pos < sorted@.len() {
                lemma_lex_total(f@, sorted@[pos as int]@);
            }
            assert forall|i: int, j: int|
                0 <= i < j < sorted@.len() + 1 implies lex_le(
                #[trigger] sorted@.insert(pos as int, f)[i]@,
                #[trigger] sorted@.insert(pos as int, f)[j]@,
            ) by {
                let s = sorted@;
                if j == pos {
                } else if i == pos {
                    lemma_lex_refl(s[pos as int]@);
                    lemma_lex_trans(f@, s[pos as int]@, s[j - 1]@);
                } else if i < pos && j > pos {
                    assert(lex_le(s[i]@, s[j - 1]@));
                } else if i > pos {
                    assert(lex_le(s[i - 1]@, s[j - 1]@));
                } else {
                    assert(lex_le(s[i]@, s[j]@));
                }
            }
            let s2 = sorted@.insert(pos as int, f);
            assert(s2.remove(pos as int) =~= sorted@);
            assert(s2.to_multiset() =~= sorted@.to_multiset().insert(f));
        }
        sorted.insert(pos, f);
        keys.insert(pos, key);
    }
    assert(rest@.to_multiset() =~= Multiset::empty());
    assert(sorted@.to_multiset() =~= files@.to_multiset());
    assert(sorted@.len() == files@.len()) by {
        assert(sorted@.to_multiset().len() == files@.to_multiset().len());
    }
    sorted
}

/// `s` holds the paths of `files` in ascending order.
pub open spec fn is_sorted_arrangement(s: Seq<String>, files: Seq<String>) -> bool {
    is_sorted_paths(s) && s.to_multiset() == files.to_multiset()
}

/// Two ascending arrangements of the same paths agree position by position:
/// sorting fixes the sequence of path texts.
pub proof fn lemma_sorted_arrangements_agree(s1: Seq<String>, s2: Seq<String>)
    requires
        is_sorted_paths(s1),
        is_sorted_paths(s2),
        s1.to_multiset() == s2.to_multiset(),
    ensures
        s1.len() == s2.len(),
        forall|i: int| 0 <= i < s1.len() ==> (#[trigger] s1[i])@ == s2[i]@,
    decreases s1.len(),
{
    s1.to_multiset_ensures();
    s2.to_multiset_ensures();
    if s1.len() > 0 {
        let x = s1[0];
        assert(s1.contains(x));
        assert(s2.to_multiset().count(x) > 0);
        let j = choose|j: int| 0 <= j < s2.len() && s2[j] == x;
        assert(s2.contains(s2[0]));
        assert(s1.to_multiset().count(s2[0]) > 0);
        let k = choose|k: int| 0 <= k < s1.len() && s1[k] == s2[0];
        if j > 0 {
            assert(lex_le(s2[0]@, s2[j]@));
        } else {
            lemma_lex_refl(x@);
        }
        if k > 0 {
            assert(lex_le(s1[0]@, s1[k]@));
        } else {
            lemma_lex_refl(x@);
        }
        lemma_lex_antisym(s2[0]@, x@);
        assert forall|i: int| 0 <= i <= j implies (#[trigger] s2[i])@ == x@ by {
            if 0 < i {
                assert(lex_le(s2[0]@, s2[i]@));
            } else {
                lemma_lex_refl(x@);
            }
            if i < j {
                assert(lex_le(s2[i]@, s2[j]@));
            } else {
                lemma_lex_refl(x@);
            }
            lemma_lex_trans(s2[i]@, s2[j]@, s2[0]@);
            lemma_lex_antisym(s2[i]@, s2[0]@);
        }
        let t1 = s1.drop_first();
        let t2 = s2.remove(j);
        assert(s1.remove(0) =~= t1);
        assert(t1.to_multiset() =~= s1.to_multiset().remove(x));
        assert(t2.to_multiset() =~= s2.to_multiset().remove(x));
        assert forall|a: int, b: int| 0 <= a < b < t2.len() implies lex_le(
            #[trigger] t2[a]@,
            #[trigger] t2[b]@,
        ) by {
            let a2 = if a < j { a } else { a + 1 };
            let b2 = if b < j { b } else { b + 1 };
            assert(lex_le(s2[a2]@, s2[b2]@));
        }
        assert forall|a: int, b: int| 0 <= a < b < t1.len() implies lex_le(
            #[trigger] t1[a]@,
            #[trigger] t1[b]@,
        ) by {
            assert(lex_le(s1[a + 1]@, s1[b + 1]@));
        }
        lemma_sorted_arrangements_agree(t1, t2);
        assert forall|i: int| 0 <= i < s1.len() implies (#[trigger] s1[i])@ == s2[i]@ by {
            if i > 0 {
                assert(s1[i] == t1[i - 1]);
                if i <= j {
                    assert(t2[i - 1] == s2[i - 1]);
                    assert(s2[i - 1]@ == x@);
                    assert(s2[i]@ == x@);
                } else {
                    assert(t2[i - 1] == s2[i]);
                }
            }
        }
    }
}

/// The files of a directory that a scan bounded by `max` keeps: all of them
/// sorted ascending, or, where there are more than `max`, the `max`
/// greatest, still ascending.
pub fn list_bounded_files(files: Vec<String>, max: usize) -> (r: Vec<String>)
    ensures
        is_sorted_paths(r@),
        r@.len() == if files@.len() <= max { files@.len() } else { max as nat },
        files@.len() <= max ==> r@.to_multiset() == files@.to_multiset(),
        r@.to_multiset().subset_of(files@.to_multiset()),
        forall|x: String|
            files@.to_multiset().count(x) > r@.to_multiset().count(x) ==> forall|j: int|
                0 <= j < r@.len() ==> lex_le(x@, #[trigger] r@[j]@),
        exists|s: Seq<String>|
            #[trigger] is_sorted_arrangement(s, files@) && r@ == s.subrange(
                s.len() - r@.len(),
                s.len() as int,
            ),
        forall|s: Seq<String>| #[trigger]
            is_sorted_arrangement(s, files@) ==> forall|j: int|
                0 <= j < r@.len() ==> (#[trigger] r@[j])@ == s[s.len() - r@.len() + j]@,
{
    let mut sorted = sort_paths(files);
    let start: usize = if max > sorted.len() {
        0
    } else {
        sorted.len() - max
    };
    let ghost s = sorted@;
    let r = sorted.split_off(start);
    proof {
        let pre = s.subrange(0, start as int);
        assert(s =~= pre + r@);
        vstd::seq_lib::lemma_multiset_commutative(pre, r@);
        assert forall|x: String|
            files@.to_multiset().count(x) > r@.to_multiset().count(x) implies forall|j: int|
                0 <= j < r@.len() ==> lex_le(x@, #[trigger] r@[j]@) by {
            assert(pre.to_multiset().count(x) > 0);
            assert(pre.contains(x));
            let i = choose|i: int| 0 <= i < pre.len() && pre[i] == x;
            assert forall|j: int| 0 <= j < r@.len() implies lex_le(x@, #[trigger] r@[j]@) by {
                assert(s[i] == x);
                assert(s[start + j] == r@[j]);
            }
        }
        assert(is_sorted_arrangement(s, files@));
        assert(r@ == s.subrange(s.len() - r@.len(), s.len() as int));
        assert forall|s2: Seq<String>| #[trigger]
            is_sorted_arrangement(s2, files@) implies forall|j: int|
                0 <= j < r@.len() ==> (#[trigger] r@[j])@ == s2[s2.len() - r@.len() + j]@ by {
            lemma_sorted_arrangements_agree(s, s2);
            assert forall|j: int| 0 <= j < r@.len() implies (#[trigger] r@[j])@ == s2[s2.len()
                - r@.len() + j]@ by {
                assert(r@[j] == s[start + j]);
            }
        }
        if files@.len() <= max {
            assert(pre =~= Seq::<String>::empty());
            assert(pre.to_multiset() =~= Multiset::empty());
        }
    }
    r
}

} // verus!
