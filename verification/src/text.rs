//! Substring search and replacement over character sequences.
//!
//! The user-agent parser is built from a handful of text primitives:
//! first/last occurrence of a needle, containment, prefix test, and
//! replace-all. vstd specifies no search on `str`, so each primitive is
//! defined here as a spec function over `Seq<char>` together with a verified
//! executable counterpart, the "find-or-fallback" steps the parser chains.

use vstd::prelude::*;

verus! {

/// The needle `n` occurs in `s` starting exactly at index `i`.
pub open spec fn match_at(s: Seq<char>, n: Seq<char>, i: int) -> bool {
    0 <= i && i + n.len() <= s.len() && s.subrange(i, i + n.len()) == n
}

/// The index of the first occurrence of `n` in `s` at or after `i`, if any.
pub open spec fn find_from(s: Seq<char>, n: Seq<char>, i: int) -> Option<int>
    decreases s.len() - i + 1,
{
    if i < 0 || i + n.len() > s.len() {
        None
    } else if match_at(s, n, i) {
        Some(i)
    } else {
        find_from(s, n, i + 1)
    }
}

/// The index of the first occurrence of `n` in `s`, if any.
pub open spec fn find(s: Seq<char>, n: Seq<char>) -> Option<int> {
    find_from(s, n, 0)
}

/// The index of the last occurrence of `n` in `s` at or before `i`, if any.
pub open spec fn rfind_before(s: Seq<char>, n: Seq<char>, i: int) -> Option<int>
    decreases i + 1,
{
    if i < 0 || i + n.len() > s.len() {
        None
    } else if match_at(s, n, i) {
        Some(i)
    } else {
        rfind_before(s, n, i - 1)
    }
}

/// The index of the last occurrence of `n` in `s`, if any.
pub open spec fn rfind(s: Seq<char>, n: Seq<char>) -> Option<int> {
    rfind_before(s, n, s.len() - n.len())
}

/// Whether `n` occurs somewhere in `s`.
pub open spec fn contains(s: Seq<char>, n: Seq<char>) -> bool {
    find(s, n) is Some
}

/// `s` with every occurrence of `from` replaced by `to`, scanning left to
/// right and never rescanning replaced text, as `str::replace` does.
pub open spec fn replace_all(s: Seq<char>, from: Seq<char>, to: Seq<char>) -> Seq<char>
    decreases s.len(),
{
    if from.len() == 0 || s.len() < from.len() {
        s
    } else if match_at(s, from, 0) {
        to + replace_all(s.skip(from.len() as int), from, to)
    } else {
        seq![s[0]] + replace_all(s.skip(1), from, to)
    }
}

/// A first occurrence is an occurrence, and nothing matches before it.
pub proof fn lemma_find_from_some(s: Seq<char>, n: Seq<char>, i: int, j: int)
    requires
        find_from(s, n, i) == Some(j),
    ensures
        i <= j,
        match_at(s, n, j),
        forall|k: int| i <= k < j ==> !match_at(s, n, k),
    decreases s.len() - i + 1,
{
    if i < 0 || i + n.len() > s.len() {
    } else if match_at(s, n, i) {
    } else {
        lemma_find_from_some(s, n, i + 1, j);
    }
}

/// A last occurrence is an occurrence, and nothing matches beyond it.
pub proof fn lemma_rfind_before_some(s: Seq<char>, n: Seq<char>, i: int, j: int)
    requires
        rfind_before(s, n, i) == Some(j),
    ensures
        j <= i,
        match_at(s, n, j),
        forall|k: int| j < k <= i ==> !match_at(s, n, k),
    decreases i + 1,
{
    if i < 0 || i + n.len() > s.len() {
    } else if match_at(s, n, i) {
    } else {
        lemma_rfind_before_some(s, n, i - 1, j);
    }
}

/// A reported last occurrence of `n` in `s` is a genuine occurrence.
pub proof fn lemma_rfind_some(s: Seq<char>, n: Seq<char>, j: int)
    requires
        rfind(s, n) == Some(j),
    ensures
        match_at(s, n, j),
        j + n.len() <= s.len(),
{
    lemma_rfind_before_some(s, n, s.len() - n.len(), j);
}

/// A reported first occurrence of `n` in `s` is a genuine occurrence.
pub proof fn lemma_find_some(s: Seq<char>, n: Seq<char>, j: int)
    requires
        find(s, n) == Some(j),
    ensures
        0 <= j,
        match_at(s, n, j),
        j + n.len() <= s.len(),
{
    lemma_find_from_some(s, n, 0, j);
}

/// Whether `n` occurs in `s` at exactly position `i`.
pub fn occurs_at(s: &str, n: &str, i: usize) -> (r: bool)
    requires
        i + n@.len() <= s@.len(),
    ensures
        r == match_at(s@, n@, i as int),
{
    let sl = s.unicode_len();
    let nl = n.unicode_len();
    let mut j: usize = 0;
    while j < nl
        invariant
            j <= nl,
            sl == s@.len(),
            nl == n@.len(),
            i + nl <= sl,
            forall|k: int| 0 <= k < j ==> s@[i + k] == n@[k],
        decreases nl - j,
    {
        if s.get_char(i + j) != n.get_char(j) {
            proof {
                assert(s@.subrange(i as int, i + nl)[j as int] == s@[i + j]);
            }
            return false;
        }
        j += 1;
    }
    proof {
        assert(s@.subrange(i as int, i + nl) =~= n@);
    }
    true
}

/// The first occurrence of `n` in `s`, as `str::find` reports it.
pub fn find_str(s: &str, n: &str) -> (r: Option<usize>)
    ensures
        match r {
            Some(i) => find(s@, n@) == Some(i as int),
            None => find(s@, n@) is None,
        },
{
    let sl = s.unicode_len();
    let nl = n.unicode_len();
    if nl > sl {
        return None;
    }
    if nl == 0 {
        proof {
            assert(s@.subrange(0, 0) =~= n@);
        }
        return Some(0);
    }
    let mut i: usize = 0;
    while i <= sl - nl
        invariant
            1 <= nl <= sl,
            sl == s@.len(),
            nl == n@.len(),
            i <= sl - nl + 1,
            find_from(s@, n@, 0) == find_from(s@, n@, i as int),
        decreases sl - i,
    {
        if occurs_at(s, n, i) {
            return Some(i);
        }
        i += 1;
    }
    None
}

/// The last occurrence of `n` in `s`, as `str::rfind` reports it.
pub fn rfind_str(s: &str, n: &str) -> (r: Option<usize>)
    ensures
        match r {
            Some(i) => rfind(s@, n@) == Some(i as int),
            None => rfind(s@, n@) is None,
        },
{
    let sl = s.unicode_len();
    let nl = n.unicode_len();
    if nl > sl {
        return None;
    }
    let mut i: usize = sl - nl;
    loop
        invariant
            nl <= sl,
            sl == s@.len(),
            nl == n@.len(),
            i <= sl - nl,
            rfind_before(s@, n@, sl - nl) == rfind_before(s@, n@, i as int),
        decreases i,
    {
        if occurs_at(s, n, i) {
            return Some(i);
        }
        if i == 0 {
            proof {
                assert(rfind_before(s@, n@, -1) is None);
            }
            return None;
        }
        i -= 1;
    }
}

/// Whether `n` occurs anywhere in `s`, as `str::contains` reports it.
pub fn contains_str(s: &str, n: &str) -> (r: bool)
    ensures
        r == contains(s@, n@),
{
    find_str(s, n).is_some()
}

/// Whether `s` begins with `n`, as `str::starts_with` reports it.
pub fn starts_with_str(s: &str, n: &str) -> (r: bool)
    ensures
        r == match_at(s@, n@, 0),
{
    let sl = s.unicode_len();
    let nl = n.unicode_len();
    if nl > sl {
        return false;
    }
    occurs_at(s, n, 0)
}

/// A match inside the whole string is a match at the front of its tail.
proof fn lemma_replace_step_match(s: Seq<char>, f: Seq<char>, t: Seq<char>, i: int)
    requires
        f.len() > 0,
        0 <= i,
        match_at(s, f, i),
    ensures
        replace_all(s.skip(i), f, t) == t + replace_all(s.skip(i + f.len()), f, t),
{
    let tail = s.skip(i);
    assert(tail.subrange(0, f.len() as int) =~= s.subrange(i, i + f.len()));
    assert(match_at(tail, f, 0));
    assert(tail.skip(f.len() as int) =~= s.skip(i + f.len()));
}

/// With no match at position `i`, replacement copies that character over.
proof fn lemma_replace_step_char(s: Seq<char>, f: Seq<char>, t: Seq<char>, i: int)
    requires
        f.len() > 0,
        0 <= i < s.len(),
        !(i + f.len() <= s.len() && match_at(s, f, i)),
    ensures
        replace_all(s.skip(i), f, t) == seq![s[i]] + replace_all(s.skip(i + 1), f, t),
{
    let tail = s.skip(i);
    if tail.len() < f.len() {
        assert(s.skip(i + 1).len() < f.len());
        assert(tail =~= seq![s[i]] + s.skip(i + 1));
        assert(replace_all(s.skip(i + 1), f, t) == s.skip(i + 1));
    } else {
        assert(tail.subrange(0, f.len() as int) =~= s.subrange(i, i + f.len()));
        assert(!match_at(tail, f, 0));
        assert(tail.skip(1) =~= s.skip(i + 1));
        assert(seq![tail[0]] =~= seq![s[i]]);
    }
}

/// `s` with every occurrence of `from` replaced by `to`, as `str::replace`.
pub fn replace_all_str(s: &str, from: &str, to: &str) -> (r: String)
    requires
        from@.len() > 0,
    ensures
        r@ == replace_all(s@, from@, to@),
{
    let sl = s.unicode_len();
    let fl = from.unicode_len();
    let mut r = String::new();
    let mut i: usize = 0;
    proof {
        assert(s@.skip(0) =~= s@);
        assert(Seq::<char>::empty() + replace_all(s@, from@, to@) =~= replace_all(
            s@,
            from@,
            to@,
        ));
    }
    while i < sl
        invariant
            sl == s@.len(),
            fl == from@.len(),
            fl > 0,
            i <= sl,
            replace_all(s@, from@, to@) == r@ + replace_all(s@.skip(i as int), from@, to@),
        decreases sl - i,
    {
        if fl <= sl - i && occurs_at(s, from, i) {
            proof {
                lemma_replace_step_match(s@, from@, to@, i as int);
                assert(r@ + (to@ + replace_all(s@.skip(i + fl), from@, to@)) =~= (r@ + to@)
                    + replace_all(s@.skip(i + fl), from@, to@));
            }
            r.append(to);
            i += fl;
        } else {
            let c = s.substring_char(i, i + 1);
            proof {
                lemma_replace_step_char(s@, from@, to@, i as int);
                assert(c@ =~= seq![s@[i as int]]);
                assert(r@ + (c@ + replace_all(s@.skip(i + 1), from@, to@)) =~= (r@ + c@)
                    + replace_all(s@.skip(i + 1), from@, to@));
            }
            r.append(c);
            i += 1;
        }
    }
    proof {
        assert(s@.skip(sl as int) =~= Seq::<char>::empty());
        assert(r@ + Seq::<char>::empty() =~= r@);
    }
    r
}

} // verus!
