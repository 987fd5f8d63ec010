//! Character-level text utilities: first/last occurrence search, substring
//! search and replacement, all specified over character sequences.

use vstd::prelude::*;
use vstd::string::*;

verus! {

/// The first index at which `c` occurs in `s` is `i`.
pub proof fn lemma_first_index(s: Seq<char>, c: char, i: int)
    requires
        0 <= i < s.len(),
        s[i] == c,
        forall|j: int| 0 <= j < i ==> s[j] != c,
    ensures
        s.index_of_first(c) == Some(i),
{
    s.index_of_first_ensures(c);
}

/// A character that occurs nowhere in `s` has no first index.
pub proof fn lemma_no_first_index(s: Seq<char>, c: char)
    requires
        forall|j: int| 0 <= j < s.len() ==> s[j] != c,
    ensures
        s.index_of_first(c) is None,
{
    s.index_of_first_ensures(c);
}

/// The last index at which `c` occurs in `s` is `i`.
pub proof fn lemma_last_index(s: Seq<char>, c: char, i: int)
    requires
        0 <= i < s.len(),
        s[i] == c,
        forall|j: int| i < j < s.len() ==> s[j] != c,
    ensures
        s.index_of_last(c) == Some(i),
{
    s.index_of_last_ensures(c);
}

/// Index of the first occurrence of `c` in `s`, if any.
pub fn find_char(s: &str, c: char) -> (r: Option<usize>)
    ensures
        match r {
            Some(i) => s@.index_of_first(c) == Some(i as int),
            None => s@.index_of_first(c) is None,
        },
{
    let n = s.unicode_len();
    let mut i: usize = 0;
    while i < n
        invariant
            n == s@.len(),
            0 <= i <= n,
            forall|j: int| 0 <= j < i ==> s@[j] != c,
        decreases n - i,
    {
        if s.get_char(i) == c {
            proof {
                lemma_first_index(s@, c, i as int);
            }
            return Some(i);
        }
        i = i + 1;
    }
    proof {
        lemma_no_first_index(s@, c);
    }
    None
}

/// Index of the last occurrence of `c` in `s`, if any.
pub fn rfind_char(s: &str, c: char) -> (r: Option<usize>)
    ensures
        match r {
            Some(i) => s@.index_of_last(c) == Some(i as int),
            None => s@.index_of_last(c) is None,
        },
{
    let n = s.unicode_len();
    let mut i: usize = n;
    while i > 0
        invariant
            n == s@.len(),
            0 <= i <= n,
            forall|j: int| i <= j < n ==> s@[j] != c,
        decreases i,
    {
        i = i - 1;
        if s.get_char(i) == c {
            proof {
                lemma_last_index(s@, c, i as int);
            }
            return Some(i);
        }
    }
    proof {
        s@.index_of_last_ensures(c);
    }
    None
}

/// Text equality at the character level.
pub fn str_eq(a: &str, b: &str) -> (r: bool)
    ensures
        r == (a@ == b@),
{
    let n = a.unicode_len();
    if n != b.unicode_len() {
        return false;
    }
    let mut i: usize = 0;
    while i < n
        invariant
            n == a@.len(),
            n == b@.len(),
            0 <= i <= n,
            forall|j: int| 0 <= j < i ==> a@[j] == b@[j],
        decreases n - i,
    {
        if a.get_char(i) != b.get_char(i) {
            return false;
        }
        i = i + 1;
    }
    proof {
        assert(a@ =~= b@);
    }
    true
}

/// `p` occurs in `s` starting at position `k`.
pub open spec fn match_at(s: Seq<char>, p: Seq<char>, k: int) -> bool {
    &&& 0 <= k
    &&& k + p.len() <= s.len()
    &&& s.subrange(k, k + p.len() as int) == p
}

/// `p` occurs somewhere in `s`.
pub open spec fn contains_seq(s: Seq<char>, p: Seq<char>) -> bool {
    exists|k: int| match_at(s, p, k)
}

/// Whether `p` occurs in `s` starting at `k` (an executable `match_at`).
pub(crate) fn match_at_exec(s: &str, p: &str, k: usize) -> (r: bool)
    requires
        k + p@.len() <= s@.len(),
    ensures
        r == match_at(s@, p@, k as int),
{
    let n = s.unicode_len();
    let plen = p.unicode_len();
    let mut i: usize = 0;
    while i < plen
        invariant
            n == s@.len(),
            plen == p@.len(),
            k + plen <= n,
            0 <= i <= plen,
            forall|j: int| 0 <= j < i ==> s@[k + j] == p@[j],
        decreases plen - i,
    {
        if s.get_char(k + i) != p.get_char(i) {
            assert(s@.subrange(k as int, k + p@.len() as int)[i as int] != p@[i as int]);
            return false;
        }
        i = i + 1;
    }
    proof {
        assert(s@.subrange(k as int, k + p@.len() as int) =~= p@);
    }
    true
}

/// Whether `s` begins with `p`.
pub fn starts_with(s: &str, p: &str) -> (r: bool)
    ensures
        r == match_at(s@, p@, 0),
{
    let n = s.unicode_len();
    let pl = p.unicode_len();
    if pl > n {
        return false;
    }
    match_at_exec(s, p, 0)
}

/// Index of the first occurrence of `p` in `s`, if any.
pub fn find_substr(s: &str, p: &str) -> (r: Option<usize>)
    ensures
        match r {
            Some(i) => match_at(s@, p@, i as int) && forall|k: int|
                0 <= k < i ==> !match_at(s@, p@, k),
            None => !contains_seq(s@, p@),
        },
{
    let n = s.unicode_len();
    let plen = p.unicode_len();
    if plen > n {
        return None;
    }
    if plen == 0 {
        proof {
            assert(s@.subrange(0, 0) =~= p@);
        }
        return Some(0);
    }
    let mut i: usize = 0;
    while i <= n - plen
        invariant
            n == s@.len(),
            plen == p@.len(),
            0 < plen <= n,
            0 <= i <= n - plen + 1,
            forall|k: int| 0 <= k < i ==> !match_at(s@, p@, k),
        decreases n - i,
    {
        if match_at_exec(s, p, i) {
            return Some(i);
        }
        i = i + 1;
    }
    None
}

/// `p` occurs somewhere in `s`.
pub fn contains_substr(s: &str, p: &str) -> (r: bool)
    ensures
        r == contains_seq(s@, p@),
{
    find_substr(s, p).is_some()
}

/// The first position at or after `k` where `p` occurs in `s`, if any.
pub open spec fn find_from(s: Seq<char>, p: Seq<char>, k: int) -> Option<int>
    decreases s.len() - k,
{
    if k < 0 || k + p.len() > s.len() {
        None
    } else if p.len() == 0 {
        Some(k)
    } else if s.subrange(k, k + p.len() as int) == p {
        Some(k)
    } else {
        find_from(s, p, k + 1)
    }
}

/// Where `p` first occurs at `i` and nowhere in `[k, i)`, the scan from `k`
/// finds `i`.
proof fn lemma_find_from_at(s: Seq<char>, p: Seq<char>, k: int, i: int)
    requires
        0 <= k <= i,
        match_at(s, p, i),
        forall|j: int| k <= j < i ==> !match_at(s, p, j),
    ensures
        find_from(s, p, k) == Some(i),
    decreases i - k,
{
    if k < i {
        assert(!match_at(s, p, k));
        if p.len() == 0 {
            assert(s.subrange(k, k) =~= p);
            assert(match_at(s, p, k));
        }
        assert(k + p.len() <= s.len());
        assert(s.subrange(k, k + p.len() as int) != p);
        lemma_find_from_at(s, p, k + 1, i);
        assert(find_from(s, p, k) == find_from(s, p, k + 1));
    }
}

/// Where `p` occurs nowhere at or after `k`, the scan finds nothing.
proof fn lemma_find_from_none(s: Seq<char>, p: Seq<char>, k: int)
    requires
        forall|j: int| k <= j ==> !match_at(s, p, j),
    ensures
        find_from(s, p, k) is None,
    decreases s.len() - k,
{
    if p.len() == 0 {
        if 0 <= k && k <= s.len() {
            assert(s.subrange(k, k) =~= p);
            assert(match_at(s, p, k));
        }
    } else {
        if 0 <= k && k + p.len() <= s.len() {
            assert(!match_at(s, p, k));
            assert(s.subrange(k, k + p.len() as int) != p);
            lemma_find_from_none(s, p, k + 1);
            assert(find_from(s, p, k) == find_from(s, p, k + 1));
        }
    }
}

/// A found position lies within the text, with room for the pattern.
pub proof fn lemma_find_from_bounds(s: Seq<char>, p: Seq<char>, k: int)
    ensures
        match find_from(s, p, k) {
            Some(i) => k <= i && 0 <= i && i + p.len() <= s.len(),
            None => true,
        },
    decreases s.len() - k,
{
    if !(k < 0 || k + p.len() > s.len()) {
        if p.len() == 0 {
        } else if s.subrange(k, k + p.len() as int) == p {
        } else {
            lemma_find_from_bounds(s, p, k + 1);
        }
    }
}

/// The position of the first occurrence of `p` in `s`, if any.
pub fn find_seq(s: &str, p: &str) -> (r: Option<usize>)
    ensures
        match r {
            Some(i) => find_from(s@, p@, 0) == Some(i as int),
            None => find_from(s@, p@, 0) is None,
        },
{
    match find_substr(s, p) {
        Some(i) => {
            proof {
                lemma_find_from_at(s@, p@, 0, i as int);
            }
            Some(i)
        },
        None => {
            proof {
                assert forall|j: int| 0 <= j implies !match_at(s@, p@, j) by {
                    if match_at(s@, p@, j) {
                        assert(contains_seq(s@, p@));
                    }
                }
                lemma_find_from_none(s@, p@, 0);
            }
            None
        },
    }
}

/// The text `s` with every non-overlapping occurrence of `p`, taken left to
/// right, replaced by `r`. An empty pattern leaves the text unchanged.
pub open spec fn spec_replace(s: Seq<char>, p: Seq<char>, r: Seq<char>) -> Seq<char>
    decreases s.len(),
{
    if p.len() == 0 || s.len() < p.len() {
        s
    } else if s.subrange(0, p.len() as int) == p {
        r + spec_replace(s.subrange(p.len() as int, s.len() as int), p, r)
    } else {
        seq![s[0]] + spec_replace(s.subrange(1, s.len() as int), p, r)
    }
}

/// Replace every occurrence of `p` in `s` by `r`, left to right without
/// overlap.
pub fn replace_all(s: &str, p: &str, r: &str) -> (out: String)
    requires
        p@.len() > 0,
    ensures
        out@ == spec_replace(s@, p@, r@),
{
    let n = s.unicode_len();
    let plen = p.unicode_len();
    let mut out = String::new();
    let mut run_start: usize = 0;
    let mut i: usize = 0;
    proof {
        assert(s@.subrange(0, n as int) =~= s@);
        assert(out@ + s@.subrange(0, 0) + spec_replace(s@, p@, r@) =~= spec_replace(s@, p@, r@));
    }
    while i < n
        invariant
            n == s@.len(),
            plen == p@.len(),
            plen > 0,
            0 <= run_start <= i <= n,
            spec_replace(s@, p@, r@) == out@ + s@.subrange(run_start as int, i as int)
                + spec_replace(s@.subrange(i as int, n as int), p@, r@),
        decreases n - i,
    {
        let ghost prev_out = out@;
        let ghost tail = s@.subrange(i as int, n as int);
        if plen <= n - i && match_at_exec(s, p, i) {
            proof {
                assert(tail.subrange(0, plen as int) =~= s@.subrange(i as int, i + plen as int));
                assert(tail.subrange(plen as int, tail.len() as int) =~= s@.subrange(
                    i + plen as int,
                    n as int,
                ));
                assert(tail.subrange(0, plen as int) == p@);
                assert(spec_replace(tail, p@, r@) == r@ + spec_replace(
                    s@.subrange(i + plen as int, n as int),
                    p@,
                    r@,
                ));
            }
            let run = s.substring_char(run_start, i);
            out.append(run);
            out.append(r);
            proof {
                assert(out@ + s@.subrange(i + plen as int, i + plen as int) + spec_replace(
                    s@.subrange(i + plen as int, n as int),
                    p@,
                    r@,
                ) =~= prev_out + s@.subrange(run_start as int, i as int) + spec_replace(
                    tail,
                    p@,
                    r@,
                ));
            }
            i = i + plen;
            run_start = i;
        } else {
            proof {
                if tail.len() >= plen {
                    assert(tail.subrange(0, plen as int) =~= s@.subrange(
                        i as int,
                        i + plen as int,
                    ));
                    if tail.subrange(0, plen as int) == p@ {
                        assert(match_at(s@, p@, i as int));
                    }
                }
                assert(tail.subrange(1, tail.len() as int) =~= s@.subrange(i + 1, n as int));
                assert(spec_replace(tail, p@, r@) == seq![tail[0]] + spec_replace(
                    s@.subrange(i + 1, n as int),
                    p@,
                    r@,
                ));
                assert(s@.subrange(run_start as int, i + 1) =~= s@.subrange(
                    run_start as int,
                    i as int,
                ) + seq![tail[0]]);
                assert(out@ + s@.subrange(run_start as int, i + 1) + spec_replace(
                    s@.subrange(i + 1, n as int),
                    p@,
                    r@,
                ) =~= out@ + s@.subrange(run_start as int, i as int) + spec_replace(
                    tail,
                    p@,
                    r@,
                ));
            }
            i = i + 1;
        }
    }
    let run = s.substring_char(run_start, n);
    let ghost prev_out = out@;
    out.append(run);
    proof {
        assert(s@.subrange(i as int, n as int) =~= Seq::<char>::empty());
        assert(spec_replace(Seq::<char>::empty(), p@, r@) =~= Seq::<char>::empty());
        assert(out@ =~= prev_out + s@.subrange(run_start as int, n as int) + spec_replace(
            s@.subrange(i as int, n as int),
            p@,
            r@,
        ));
    }
    out
}

} // verus!
