//! Verified substring search and substring replacement over `&str`,
//! the lexical core of descriptor derivation and node-address handling.
use vstd::prelude::*;

verus! {

/// The pattern `p` occurs in `s` starting at index `i`.
pub open spec fn match_at(s: Seq<char>, p: Seq<char>, i: int) -> bool {
    &&& 0 <= i
    &&& i + p.len() <= s.len()
    &&& s.subrange(i, i + p.len() as int) == p
}

/// The pattern `p` occurs somewhere in `s`.
pub open spec fn contains_seq(s: Seq<char>, p: Seq<char>) -> bool {
    exists|i: int| match_at(s, p, i)
}

/// The pattern `p` occurs at `i` and nowhere earlier: `i` is the first match.
pub open spec fn found_at(s: Seq<char>, p: Seq<char>, i: int) -> bool {
    &&& match_at(s, p, i)
    &&& forall|j: int| 0 <= j < i ==> !match_at(s, p, j)
}

/// The index of the first occurrence of `p` in `s` (meaningful only when
/// `contains_seq(s, p)` holds; see `lemma_first_match`).
pub open spec fn first_match(s: Seq<char>, p: Seq<char>) -> int {
    choose|i: int| found_at(s, p, i)
}

/// `s` with every occurrence of `p` replaced by `t`, scanning left to right
/// and never rescanning replaced text, as `str::replace` does.
pub open spec fn replace_seq(s: Seq<char>, p: Seq<char>, t: Seq<char>) -> Seq<char>
    decreases s.len(),
{
    if p.len() == 0 || s.len() < p.len() {
        s
    } else if s.subrange(0, p.len() as int) == p {
        t + replace_seq(s.skip(p.len() as int), p, t)
    } else {
        seq![s[0]] + replace_seq(s.skip(1), p, t)
    }
}

/// A first match exists whenever any match exists.
pub proof fn lemma_exists_first_match(s: Seq<char>, p: Seq<char>, i: int)
    requires
        match_at(s, p, i),
    ensures
        found_at(s, p, first_match(s, p)),
    decreases i,
{
    if exists|j: int| 0 <= j < i && match_at(s, p, j) {
        let j = choose|j: int| 0 <= j < i && match_at(s, p, j);
        lemma_exists_first_match(s, p, j);
    } else {
        assert(found_at(s, p, i));
        let w = choose|w: int| found_at(s, p, w);
        assert(found_at(s, p, w));
    }
}

/// The first match is unique.
pub proof fn lemma_found_at_unique(s: Seq<char>, p: Seq<char>, i: int, j: int)
    requires
        found_at(s, p, i),
        found_at(s, p, j),
    ensures
        i == j,
{
}

/// Whether `p` occurs in `s` at position `i`; false when the tail is too short.
pub fn is_match_at(s: &str, p: &str, i: usize) -> (r: bool)
    ensures
        r == match_at(s@, p@, i as int),
{
    let slen = s.unicode_len();
    let plen = p.unicode_len();
    if plen > slen || i > slen - plen {
        assert(!match_at(s@, p@, i as int));
        return false;
    }
    let mut j: usize = 0;
    while j < plen
        invariant
            0 <= j <= plen,
            plen == p@.len(),
            slen == s@.len(),
            i + plen <= slen,
            forall|k: int| 0 <= k < j ==> s@[i + k] == p@[k],
        decreases plen - j,
    {
        if s.get_char(i + j) != p.get_char(j) {
            assert(s@.subrange(i as int, i + plen as int)[j as int] != p@[j as int]);
            return false;
        }
        j += 1;
    }
    assert(s@.subrange(i as int, i + plen as int) =~= p@);
    true
}

/// Whether `p` occurs anywhere in `s`, as `str::contains` decides it.
pub fn contains_str(s: &str, p: &str) -> (r: bool)
    ensures
        r == contains_seq(s@, p@),
{
    let slen = s.unicode_len();
    let plen = p.unicode_len();
    if plen > slen {
        assert(forall|i: int| !match_at(s@, p@, i));
        return false;
    }
    if plen == 0 {
        assert(s@.subrange(0, 0) =~= p@);
        assert(match_at(s@, p@, 0));
        return true;
    }
    let mut i: usize = 0;
    while i <= slen - plen
        invariant
            0 < plen <= slen,
            plen == p@.len(),
            slen == s@.len(),
            0 <= i <= slen - plen + 1,
            forall|k: int| 0 <= k < i ==> !match_at(s@, p@, k),
        decreases slen - i,
    {
        if is_match_at(s, p, i) {
            return true;
        }
        i += 1;
    }
    assert(forall|k: int| i <= k ==> !match_at(s@, p@, k));
    false
}

/// The index of the first occurrence of `p` in `s`, or `None` when absent.
pub fn find_str(s: &str, p: &str) -> (r: Option<usize>)
    ensures
        match r {
            Some(i) => found_at(s@, p@, i as int),
            None => !contains_seq(s@, p@),
        },
{
    let slen = s.unicode_len();
    let plen = p.unicode_len();
    if plen > slen {
        assert(forall|i: int| !match_at(s@, p@, i));
        return None;
    }
    if plen == 0 {
        assert(s@.subrange(0, 0) =~= p@);
        assert(match_at(s@, p@, 0));
        return Some(0);
    }
    let mut i: usize = 0;
    while i <= slen - plen
        invariant
            0 < plen <= slen,
            plen == p@.len(),
            slen == s@.len(),
            0 <= i <= slen - plen + 1,
            forall|k: int| 0 <= k < i ==> !match_at(s@, p@, k),
        decreases slen - i,
    {
        if is_match_at(s, p, i) {
            return Some(i);
        }
        i += 1;
    }
    assert(forall|k: int| i <= k ==> !match_at(s@, p@, k));
    None
}

/// Unfolding step of `replace_seq` at a match.
proof fn lemma_replace_step_match(s: Seq<char>, p: Seq<char>, t: Seq<char>, i: int)
    requires
        p.len() > 0,
        match_at(s, p, i),
    ensures
        replace_seq(s.skip(i), p, t) == t + replace_seq(s.skip(i + p.len() as int), p, t),
{
    let u = s.skip(i);
    assert(u.subrange(0, p.len() as int) =~= s.subrange(i, i + p.len() as int));
    assert(u.skip(p.len() as int) =~= s.skip(i + p.len() as int));
}

/// Unfolding step of `replace_seq` where no replacement happens.
proof fn lemma_replace_step_no_match(s: Seq<char>, p: Seq<char>, t: Seq<char>, i: int)
    requires
        p.len() > 0,
        0 <= i < s.len(),
        !match_at(s, p, i),
    ensures
        replace_seq(s.skip(i), p, t) == seq![s[i]] + replace_seq(s.skip(i + 1), p, t),
{
    let u = s.skip(i);
    assert(u.skip(1) =~= s.skip(i + 1));
    if u.len() < p.len() {
        assert(replace_seq(u, p, t) == u);
        assert(replace_seq(u.skip(1), p, t) == u.skip(1));
        assert(u =~= seq![s[i]] + u.skip(1));
    } else {
        assert(u.subrange(0, p.len() as int) =~= s.subrange(i, i + p.len() as int));
        assert(u.subrange(0, p.len() as int) != p);
        assert(u[0] == s[i]);
        assert(replace_seq(u, p, t) == seq![u[0]] + replace_seq(u.skip(1), p, t));
    }
}

/// `s` with every occurrence of `p` replaced by `t`, as `str::replace`
/// computes it.
pub fn replace_str(s: &str, p: &str, t: &str) -> (r: String)
    requires
        p@.len() > 0,
    ensures
        r@ == replace_seq(s@, p@, t@),
{
    let slen = s.unicode_len();
    let plen = p.unicode_len();
    let mut result = String::new();
    let mut i: usize = 0;
    proof {
        assert(s@.skip(0) =~= s@);
    }
    while i < slen
        invariant
            plen == p@.len(),
            plen > 0,
            slen == s@.len(),
            0 <= i <= slen,
            replace_seq(s@, p@, t@) == result@ + replace_seq(s@.skip(i as int), p@, t@),
        decreases slen - i,
    {
        if is_match_at(s, p, i) {
            result.append(t);
            proof {
                lemma_replace_step_match(s@, p@, t@, i as int);
            }
            i += plen;
        } else {
            let c = s.substring_char(i, i + 1);
            result.append(c);
            proof {
                lemma_replace_step_no_match(s@, p@, t@, i as int);
                assert(c@ =~= seq![s@[i as int]]);
            }
            i += 1;
        }
    }
    proof {
        assert(s@.skip(i as int) =~= Seq::<char>::empty());
        assert(replace_seq(Seq::<char>::empty(), p@, t@) =~= Seq::<char>::empty());
        assert(result@ =~= result@ + Seq::<char>::empty());
    }
    result
}

/// If no match of `p` starts anywhere in `s`, replacement leaves `s` unchanged.
pub proof fn lemma_replace_no_occurrence(s: Seq<char>, p: Seq<char>, t: Seq<char>)
    requires
        p.len() > 0,
        !contains_seq(s, p),
    ensures
        replace_seq(s, p, t) == s,
    decreases s.len(),
{
    if s.len() == 0 {
    } else if s.len() < p.len() {
    } else {
        assert(!match_at(s, p, 0));
        assert(s.subrange(0, p.len() as int) != p);
        assert(forall|j: int| match_at(s.skip(1), p, j) ==> match_at(s, p, j + 1)) by {
            assert forall|j: int| match_at(s.skip(1), p, j) implies match_at(s, p, j + 1) by {
                assert(s.subrange(j + 1, j + 1 + p.len() as int) =~= s.skip(1).subrange(
                    j,
                    j + p.len() as int,
                ));
            }
        }
        lemma_replace_no_occurrence(s.skip(1), p, t);
        assert(replace_seq(s, p, t) == seq![s[0]] + s.skip(1));
        assert(seq![s[0]] + s.skip(1) =~= s);
    }
}

/// If `p` occurs exactly once in `s`, at `i`, replacement yields the text
/// before the match, followed by `t`, followed by the text after the match.
pub proof fn lemma_replace_single_occurrence(s: Seq<char>, p: Seq<char>, t: Seq<char>, i: int)
    requires
        p.len() > 0,
        match_at(s, p, i),
        forall|j: int| match_at(s, p, j) ==> j == i,
    ensures
        replace_seq(s, p, t) == s.subrange(0, i) + t + s.skip(i + p.len() as int),
    decreases i,
{
    if i == 0 {
        let tail = s.skip(p.len() as int);
        assert(forall|j: int| match_at(tail, p, j) ==> match_at(s, p, j + p.len() as int)) by {
            assert forall|j: int| match_at(tail, p, j) implies match_at(
                s,
                p,
                j + p.len() as int,
            ) by {
                assert(s.subrange(
                    j + p.len(),
                    j + p.len() + p.len(),
                ) =~= tail.subrange(j, j + p.len() as int));
            }
        }
        assert(!contains_seq(tail, p)) by {
            if exists|j: int| match_at(tail, p, j) {
                let j = choose|j: int| match_at(tail, p, j);
                assert(match_at(s, p, j + p.len() as int));
            }
        }
        lemma_replace_no_occurrence(tail, p, t);
        assert(s.subrange(0, p.len() as int) == p);
        assert(replace_seq(s, p, t) == t + tail);
        assert(s.subrange(0, 0) =~= Seq::<char>::empty());
        assert(s.subrange(0, 0) + t + tail =~= t + tail);
    } else {
        assert(!match_at(s, p, 0));
        assert(s.len() >= p.len());
        assert(s.subrange(0, p.len() as int) != p);
        let s1 = s.skip(1);
        assert(forall|j: int| match_at(s1, p, j) ==> match_at(s, p, j + 1)) by {
            assert forall|j: int| match_at(s1, p, j) implies match_at(s, p, j + 1) by {
                assert(s.subrange(j + 1, j + 1 + p.len() as int) =~= s1.subrange(
                    j,
                    j + p.len() as int,
                ));
            }
        }
        assert(match_at(s1, p, i - 1)) by {
            assert(s1.subrange(i - 1, i - 1 + p.len() as int) =~= s.subrange(
                i,
                i + p.len() as int,
            ));
        }
        lemma_replace_single_occurrence(s1, p, t, i - 1);
        assert(replace_seq(s, p, t) == seq![s[0]] + (s1.subrange(0, i - 1) + t + s1.skip(
            i - 1 + p.len() as int,
        )));
        assert(s1.subrange(0, i - 1) =~= s.subrange(1, i));
        assert(s1.skip(i - 1 + p.len() as int) =~= s.skip(i + p.len() as int));
        assert(seq![s[0]] + (s.subrange(1, i) + t + s.skip(i + p.len() as int)) =~= s.subrange(
            0,
            i,
        ) + t + s.skip(i + p.len() as int));
    }
}

/// Extracts the substring of `s` from `from` (inclusive) to `to` (exclusive),
/// counted in characters.
pub fn substring(s: &str, from: usize, to: usize) -> (r: String)
    requires
        from <= to <= s@.len(),
    ensures
        r@ == s@.subrange(from as int, to as int),
{
    let piece = s.substring_char(from, to);
    piece.to_owned()
}

} // verus!
