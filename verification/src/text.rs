//! Verified text primitives used across the crate: substring search, prefix
//! tests, equality, placeholder replacement and trailing-character trimming,
//! each proved against a direct specification over character sequences.

use vstd::prelude::*;
use vstd::string::*;

verus! {

/// The characters of `needle` occur in `hay` starting at position `at`.
pub open spec fn matches_at(hay: Seq<char>, needle: Seq<char>, at: int) -> bool {
    &&& 0 <= at
    &&& at + needle.len() <= hay.len()
    &&& hay.subrange(at, at + needle.len() as int) == needle
}

/// `needle` occurs somewhere in `hay`; the empty sequence occurs in anything.
pub open spec fn seq_contains(hay: Seq<char>, needle: Seq<char>) -> bool {
    exists|at: int| matches_at(hay, needle, at)
}

/// `pre` is a prefix of `s`.
pub open spec fn seq_starts_with(s: Seq<char>, pre: Seq<char>) -> bool {
    matches_at(s, pre, 0)
}

/// Compare `needle` against the characters of `hay` starting at `at`.
fn eq_at(hay: &str, needle: &str, at: usize) -> (r: bool)
    requires
        at + needle@.len() <= hay@.len(),
    ensures
        r == matches_at(hay@, needle@, at as int),
{
    let h = hay.unicode_len();
    let n = needle.unicode_len();
    let mut j: usize = 0;
    while j < n
        invariant
            h == hay@.len(),
            n == needle@.len(),
            at + n <= h,
            j <= n,
            forall|k: int| 0 <= k < j ==> hay@[at + k] == needle@[k],
        decreases n - j,
    {
        if hay.get_char(at + j) != needle.get_char(j) {
            proof {
                assert(hay@.subrange(at as int, at + needle@.len() as int)[j as int]
                    == hay@[at + j]);
            }
            return false;
        }
        j += 1;
    }
    proof {
        assert(hay@.subrange(at as int, at + needle@.len() as int) =~= needle@);
    }
    true
}

/// Substring test: does `hay` contain `needle`?
pub fn str_contains(hay: &str, needle: &str) -> (r: bool)
    ensures
        r == seq_contains(hay@, needle@),
{
    let h = hay.unicode_len();
    let n = needle.unicode_len();
    if n == 0 {
        proof {
            assert(hay@.subrange(0, 0) =~= needle@);
            assert(matches_at(hay@, needle@, 0));
        }
        return true;
    }
    if n > h {
        return false;
    }
    let mut at: usize = 0;
    while at <= h - n
        invariant
            h == hay@.len(),
            n == needle@.len(),
            1 <= n <= h,
            at <= h - n + 1,
            forall|k: int| 0 <= k < at ==> !matches_at(hay@, needle@, k),
        decreases h - n + 1 - at,
    {
        if eq_at(hay, needle, at) {
            return true;
        }
        at += 1;
    }
    proof {
        assert forall|k: int| !matches_at(hay@, needle@, k) by {
            if 0 <= k < at as int {
            } else if k >= at as int {
                assert(k + needle@.len() > hay@.len());
            }
        }
    }
    false
}

/// Prefix test: does `s` start with `pre`?
pub fn str_starts_with(s: &str, pre: &str) -> (r: bool)
    ensures
        r == seq_starts_with(s@, pre@),
{
    let h = s.unicode_len();
    let n = pre.unicode_len();
    if n > h {
        return false;
    }
    eq_at(s, pre, 0)
}

/// Equality of the character sequences of two string slices.
pub fn str_eq(a: &str, b: &str) -> (r: bool)
    ensures
        r == (a@ == b@),
{
    let ha = a.unicode_len();
    let hb = b.unicode_len();
    if ha != hb {
        return false;
    }
    let r = eq_at(a, b, 0);
    proof {
        if r {
            assert(a@.subrange(0, a@.len() as int) =~= a@);
        } else {
            if a@ == b@ {
                assert(a@.subrange(0, b@.len() as int) =~= b@);
            }
        }
    }
    r
}

/// Left-to-right, non-overlapping replacement of `pat` by `rep` in `s`.
/// An empty pattern leaves `s` unchanged.
pub open spec fn replace_seq(s: Seq<char>, pat: Seq<char>, rep: Seq<char>) -> Seq<char>
    decreases s.len(),
{
    if pat.len() == 0 || s.len() < pat.len() {
        s
    } else if s.subrange(0, pat.len() as int) == pat {
        rep + replace_seq(s.subrange(pat.len() as int, s.len() as int), pat, rep)
    } else {
        seq![s[0]] + replace_seq(s.subrange(1, s.len() as int), pat, rep)
    }
}

/// Replace every non-overlapping occurrence of `pat` in `s` by `rep`,
/// scanning left to right.
pub fn str_replace(s: &str, pat: &str, rep: &str) -> (r: String)
    ensures
        r@ == replace_seq(s@, pat@, rep@),
{
    let h = s.unicode_len();
    let n = pat.unicode_len();
    if n == 0 {
        return s.to_owned();
    }
    let mut out = String::new();
    let mut i: usize = 0;
    proof {
        assert(s@.subrange(0, h as int) =~= s@);
        assert(Seq::<char>::empty() + replace_seq(s@, pat@, rep@)
            =~= replace_seq(s@, pat@, rep@));
    }
    while i < h
        invariant
            h == s@.len(),
            n == pat@.len(),
            n >= 1,
            i <= h,
            replace_seq(s@, pat@, rep@)
                == out@ + replace_seq(s@.subrange(i as int, h as int), pat@, rep@),
        decreases h - i,
    {
        let ghost rest = s@.subrange(i as int, h as int);
        if n <= h - i && eq_at(s, pat, i) {
            out.append(rep);
            proof {
                assert(rest.subrange(0, pat@.len() as int)
                    =~= s@.subrange(i as int, i + pat@.len() as int));
                assert(rest.subrange(pat@.len() as int, rest.len() as int)
                    =~= s@.subrange(i + pat@.len() as int, h as int));
                assert(replace_seq(rest, pat@, rep@)
                    == rep@ + replace_seq(s@.subrange(i + n as int, h as int), pat@, rep@));
            }
            i += n;
        } else {
            let piece = s.substring_char(i, i + 1);
            out.append(piece);
            proof {
                if rest.len() >= pat@.len() {
                    // no match at position i
                    assert(!matches_at(s@, pat@, i as int));
                    if rest.subrange(0, pat@.len() as int) == pat@ {
                        assert(rest.subrange(0, pat@.len() as int)
                            =~= s@.subrange(i as int, i + pat@.len() as int));
                        assert(matches_at(s@, pat@, i as int));
                    }
                }
                assert(rest.subrange(1, rest.len() as int)
                    =~= s@.subrange(i + 1, h as int));
                assert(seq![rest[0]] =~= s@.subrange(i as int, i + 1));
                assert(replace_seq(rest, pat@, rep@)
                    == s@.subrange(i as int, i + 1)
                        + replace_seq(s@.subrange(i + 1, h as int), pat@, rep@));
            }
            i += 1;
        }
    }
    proof {
        assert(s@.subrange(h as int, h as int) =~= Seq::<char>::empty());
        assert(out@ + Seq::<char>::empty() =~= out@);
    }
    out
}

/// Relies on String::push, which appends exactly the given character to the
/// end of the string.
#[verifier::external_body]
pub fn push_char(s: &mut String, c: char)
    ensures
        final(s)@ == old(s)@.push(c),
{
    s.push(c);
}

/// Relies on String::pop, which removes and returns the last character and
/// returns nothing on an empty string.
#[verifier::external_body]
pub fn pop_char(s: &mut String) -> (r: Option<char>)
    ensures
        old(s)@.len() == 0 ==> r is None && final(s)@ == old(s)@,
        old(s)@.len() > 0 ==> r == Some(old(s)@.last()) && final(s)@ == old(s)@.drop_last(),
{
    s.pop()
}

/// The length of the leading run of non-space characters.
pub open spec fn word_end(s: Seq<char>) -> int
    decreases s.len(),
{
    if s.len() == 0 {
        0
    } else if s[0] == ' ' {
        0
    } else {
        1 + word_end(s.skip(1))
    }
}

pub proof fn lemma_word_end_bounds(s: Seq<char>)
    ensures
        0 <= word_end(s) <= s.len(),
        s.len() > 0 && s[0] != ' ' ==> word_end(s) >= 1,
    decreases s.len(),
{
    if s.len() > 0 && s[0] != ' ' {
        lemma_word_end_bounds(s.skip(1));
    }
}

/// The space-separated words of `s`, empty pieces dropped.
pub open spec fn words_of(s: Seq<char>) -> Seq<Seq<char>>
    decreases s.len(),
    via words_of_decreases
{
    if s.len() == 0 {
        Seq::empty()
    } else if s[0] == ' ' {
        words_of(s.skip(1))
    } else {
        seq![s.take(word_end(s))] + words_of(s.skip(word_end(s)))
    }
}

#[via_fn]
proof fn words_of_decreases(s: Seq<char>) {
    lemma_word_end_bounds(s);
}

/// Split `s` at spaces, dropping empty pieces.
pub fn split_words(s: &str) -> (r: Vec<String>)
    ensures
        r@.map_values(|w: String| w@) == words_of(s@),
{
    let n = s.unicode_len();
    let mut out: Vec<String> = Vec::new();
    let mut i: usize = 0;
    proof {
        assert(s@.skip(0) =~= s@);
        assert(out@.map_values(|w: String| w@) + words_of(s@) =~= words_of(s@));
    }
    while i < n
        invariant
            n == s@.len(),
            i <= n,
            words_of(s@) == out@.map_values(|w: String| w@) + words_of(s@.skip(i as int)),
        decreases n - i,
    {
        if s.get_char(i) == ' ' {
            proof {
                assert(s@.skip(i as int)[0] == s@[i as int]);
                assert(s@.skip(i as int).skip(1) =~= s@.skip(i + 1));
            }
            i += 1;
        } else {
            let start = i;
            let mut j = i;
            while j < n && s.get_char(j) != ' '
                invariant
                    n == s@.len(),
                    start <= j <= n,
                    start == i,
                    i < n,
                    forall|k: int| start <= k < j ==> s@[k] != ' ',
                decreases n - j,
            {
                j += 1;
            }
            proof {
                let rest = s@.skip(start as int);
                lemma_word_end_bounds(rest);
                assert forall|k: int| 0 <= k < j - start implies rest[k] != ' ' by {
                    assert(rest[k] == s@[start + k]);
                }
                lemma_word_end_value(rest, j - start);
                assert(rest.take(j - start) =~= s@.subrange(start as int, j as int));
                assert(rest.skip(j - start) =~= s@.skip(j as int));
            }
            let word = s.substring_char(start, j).to_owned();
            let ghost o0 = out@;
            out.push(word);
            proof {
                assert(out@.map_values(|w: String| w@)
                    =~= o0.map_values(|w: String| w@) + seq![s@.subrange(start as int, j as int)]);
                assert(words_of(s@.skip(start as int))
                    == seq![s@.subrange(start as int, j as int)] + words_of(s@.skip(j as int)));
                assert(out@.map_values(|w: String| w@) + words_of(s@.skip(j as int))
                    =~= o0.map_values(|w: String| w@) + words_of(s@.skip(start as int)));
            }
            i = j;
        }
    }
    proof {
        assert(s@.skip(n as int) =~= Seq::<char>::empty());
        assert(out@.map_values(|w: String| w@) + Seq::<Seq<char>>::empty()
            =~= out@.map_values(|w: String| w@));
    }
    out
}

/// The leading non-space run of `s` has exactly length `k` when the first
/// `k` characters are non-spaces and position `k` is a space or the end.
proof fn lemma_word_end_value(s: Seq<char>, k: int)
    requires
        0 <= k <= s.len(),
        forall|j: int| 0 <= j < k ==> s[j] != ' ',
        k < s.len() ==> s[k] == ' ',
    ensures
        word_end(s) == k,
    decreases k,
{
    if k == 0 {
    } else {
        assert(s[0] != ' ');
        assert forall|j: int| 0 <= j < k - 1 implies s.skip(1)[j] != ' ' by {
            assert(s.skip(1)[j] == s[j + 1]);
        }
        assert(k - 1 < s.skip(1).len() ==> s.skip(1)[k - 1] == ' ');
        lemma_word_end_value(s.skip(1), k - 1);
    }
}

/// Remove every trailing occurrence of `c` from the end of `s`.
pub open spec fn trim_trailing(s: Seq<char>, c: char) -> Seq<char>
    decreases s.len(),
{
    if s.len() > 0 && s.last() == c {
        trim_trailing(s.drop_last(), c)
    } else {
        s
    }
}

/// Trim every trailing occurrence of `c` from `s`.
pub fn str_trim_trailing(s: &str, c: char) -> (r: String)
    ensures
        r@ == trim_trailing(s@, c),
{
    let h = s.unicode_len();
    let mut end = h;
    proof {
        assert(s@.subrange(0, h as int) =~= s@);
    }
    while end > 0 && s.get_char(end - 1) == c
        invariant
            h == s@.len(),
            end <= h,
            trim_trailing(s@, c) == trim_trailing(s@.subrange(0, end as int), c),
        decreases end,
    {
        proof {
            let cur = s@.subrange(0, end as int);
            assert(cur.last() == s@[end - 1]);
            assert(cur.drop_last() =~= s@.subrange(0, end - 1));
        }
        end -= 1;
    }
    proof {
        let cur = s@.subrange(0, end as int);
        if end > 0 {
            assert(cur.last() == s@[end - 1]);
        }
        assert(trim_trailing(cur, c) == cur);
    }
    let kept = s.substring_char(0, end);
    kept.to_owned()
}

} // verus!
