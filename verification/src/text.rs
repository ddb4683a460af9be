use vstd::prelude::*;
use vstd::seq_lib::*;
use vstd::string::*;

verus! {

/// Relies on String::push: appends exactly one character at the end of the string.
#[verifier::external_body]
pub fn push_char(s: &mut String, c: char)
    ensures
        final(s)@ == old(s)@.push(c),
{
    s.push(c);
}

/// Strict lexicographic order on character sequences, comparing code points
/// from the front; a proper prefix sorts before its extensions.
pub open spec fn lex_lt(a: Seq<char>, b: Seq<char>) -> bool
    decreases a.len(),
{
    if b.len() == 0 {
        false
    } else if a.len() == 0 {
        true
    } else if a[0] != b[0] {
        (a[0] as int) < (b[0] as int)
    } else {
        lex_lt(a.drop_first(), b.drop_first())
    }
}

pub open spec fn lex_le(a: Seq<char>, b: Seq<char>) -> bool {
    lex_lt(a, b) || a == b
}

pub proof fn lemma_lex_trichotomy(a: Seq<char>, b: Seq<char>)
    ensures
        lex_lt(a, b) || lex_lt(b, a) || a == b,
    decreases a.len(),
{
    if a.len() == 0 && b.len() == 0 {
        assert(a =~= b);
    } else if a.len() > 0 && b.len() > 0 && a[0] == b[0] {
        lemma_lex_trichotomy(a.drop_first(), b.drop_first());
        if a.drop_first() == b.drop_first() {
            assert(a.drop_first().len() == a.len() - 1);
            assert(b.drop_first().len() == b.len() - 1);
            assert(a.len() == b.len());
            assert forall|i: int| 0 <= i < a.len() implies a[i] == b[i] by {
                if i > 0 {
                    assert(a[i] == a.drop_first()[i - 1]);
                    assert(b[i] == b.drop_first()[i - 1]);
                }
            }
            assert(a =~= b);
        }
    }
}

pub proof fn lemma_lex_transitive(a: Seq<char>, b: Seq<char>, c: Seq<char>)
    requires
        lex_lt(a, b),
        lex_lt(b, c),
    ensures
        lex_lt(a, c),
    decreases a.len(),
{
    if a.len() > 0 && b.len() > 0 && c.len() > 0 && a[0] == b[0] && b[0] == c[0] {
        lemma_lex_transitive(a.drop_first(), b.drop_first(), c.drop_first());
    }
}

/// Appending anything to both sides of a strict comparison of equal-length
/// sequences keeps the comparison.
pub proof fn lemma_lex_append_decided(a: Seq<char>, b: Seq<char>, s: Seq<char>, t: Seq<char>)
    requires
        a.len() == b.len(),
        lex_lt(a, b),
    ensures
        lex_lt(a + s, b + t),
    decreases a.len(),
{
    if a.len() > 0 {
        assert((a + s)[0] == a[0]);
        assert((b + t)[0] == b[0]);
        if a[0] == b[0] {
            lemma_lex_append_decided(a.drop_first(), b.drop_first(), s, t);
            assert((a + s).drop_first() =~= a.drop_first() + s);
            assert((b + t).drop_first() =~= b.drop_first() + t);
        } else {
            assert(lex_lt(a + s, b + t));
        }
    }
}

/// A shared prefix does not affect the comparison of what follows it.
pub proof fn lemma_lex_common_prefix(p: Seq<char>, s: Seq<char>, t: Seq<char>)
    ensures
        lex_lt(p + s, p + t) == lex_lt(s, t),
    decreases p.len(),
{
    if p.len() == 0 {
        assert(p + s =~= s);
        assert(p + t =~= t);
    } else {
        assert((p + s)[0] == p[0]);
        assert((p + t)[0] == p[0]);
        assert((p + s).len() > 0 && (p + t).len() > 0);
        lemma_lex_common_prefix(p.drop_first(), s, t);
        assert((p + s).drop_first() =~= p.drop_first() + s);
        assert((p + t).drop_first() =~= p.drop_first() + t);
    }
}

/// Whether the strict order holds between two strings.
pub fn str_lex_lt(a: &str, b: &str) -> (r: bool)
    ensures
        r == lex_lt(a@, b@),
{
    let a_len: usize = a.unicode_len();
    let b_len: usize = b.unicode_len();
    let mut i: usize = 0;
    proof {
        assert(a@.skip(0) =~= a@);
        assert(b@.skip(0) =~= b@);
    }
    while i < a_len && i < b_len
        invariant
            i <= a_len,
            i <= b_len,
            a_len == a@.len(),
            b_len == b@.len(),
            lex_lt(a@, b@) == lex_lt(a@.skip(i as int), b@.skip(i as int)),
        decreases a_len - i,
    {
        let ca = a.get_char(i);
        let cb = b.get_char(i);
        if ca != cb {
            proof {
                assert(a@.skip(i as int)[0] == a@[i as int]);
                assert(b@.skip(i as int)[0] == b@[i as int]);
            }
            return (ca as u32) < (cb as u32);
        }
        proof {
            assert(a@.skip(i as int).drop_first() =~= a@.skip(i + 1));
            assert(b@.skip(i as int).drop_first() =~= b@.skip(i + 1));
            assert(a@.skip(i as int)[0] == a@[i as int]);
            assert(b@.skip(i as int)[0] == b@[i as int]);
        }
        i = i + 1;
    }
    proof {
        assert(a@.skip(i as int).len() == a@.len() - i);
        assert(b@.skip(i as int).len() == b@.len() - i);
    }
    i == a_len && i < b_len
}

/// The pattern `pat` occurs in `s` at position `i`.
pub open spec fn match_at(s: Seq<char>, pat: Seq<char>, i: int) -> bool {
    0 <= i && i + pat.len() <= s.len() && s.subrange(i, i + pat.len() as int) == pat
}

/// Position of the first occurrence of `pat` in `s`, if any.
pub open spec fn find_sub(s: Seq<char>, pat: Seq<char>) -> Option<int>
    decreases s.len(),
{
    if pat.len() <= s.len() && s.take(pat.len() as int) == pat {
        Some(0)
    } else if s.len() == 0 {
        None
    } else {
        match find_sub(s.drop_first(), pat) {
            Some(i) => Some(i + 1),
            None => None,
        }
    }
}

pub open spec fn contains_sub(s: Seq<char>, pat: Seq<char>) -> bool {
    find_sub(s, pat) is Some
}

pub proof fn lemma_find_sub_characterization(s: Seq<char>, pat: Seq<char>)
    ensures
        match find_sub(s, pat) {
            Some(i) => match_at(s, pat, i) && (forall|j: int| 0 <= j < i ==> !match_at(s, pat, j)),
            None => forall|j: int| !match_at(s, pat, j),
        },
    decreases s.len(),
{
    if pat.len() <= s.len() && s.take(pat.len() as int) == pat {
        assert(s.subrange(0, pat.len() as int) =~= s.take(pat.len() as int));
    } else if s.len() == 0 {
        assert forall|j: int| !match_at(s, pat, j) by {
            if 0 <= j && j + pat.len() <= s.len() {
                assert(j == 0 && pat.len() == 0);
                assert(s.take(0) =~= pat);
            }
        }
    } else {
        let d = s.drop_first();
        lemma_find_sub_characterization(d, pat);
        assert forall|j: int| 0 <= j && j + 1 + pat.len() <= s.len() implies
            (match_at(s, pat, j + 1) == match_at(d, pat, j)) by {
            assert(s.subrange(j + 1, j + 1 + pat.len() as int) =~= d.subrange(
                j,
                j + pat.len() as int,
            ));
        }
        assert(!match_at(s, pat, 0)) by {
            if match_at(s, pat, 0) {
                assert(s.take(pat.len() as int) =~= s.subrange(0, pat.len() as int));
            }
        }
        match find_sub(d, pat) {
            Some(i) => {
                assert(find_sub(s, pat) == Some(i + 1));
                assert(match_at(s, pat, i + 1));
                assert forall|j: int| 0 <= j < i + 1 implies !match_at(s, pat, j) by {
                    if j >= 1 {
                        assert(!match_at(d, pat, j - 1));
                    }
                }
            },
            None => {
                assert forall|j: int| !match_at(s, pat, j) implies true by {}
                assert forall|j: int| 0 <= j implies !match_at(s, pat, j) by {
                    if j >= 1 {
                        assert(!match_at(d, pat, j - 1));
                    }
                }
            },
        }
    }
}

/// Whether `pat` occurs in `s` at position `i`, checked character by character.
pub fn match_at_str(s: &str, pat: &str, i: usize) -> (r: bool)
    requires
        i + pat@.len() <= s@.len(),
    ensures
        r == match_at(s@, pat@, i as int),
{
    let s_len = s.unicode_len();
    let p_len = pat.unicode_len();
    let mut t: usize = 0;
    while t < p_len
        invariant
            t <= p_len,
            p_len == pat@.len(),
            s_len == s@.len(),
            i + p_len <= s_len,
            forall|k: int| 0 <= k < t ==> s@[i + k] == pat@[k],
        decreases p_len - t,
    {
        if s.get_char(i + t) != pat.get_char(t) {
            proof {
                if match_at(s@, pat@, i as int) {
                    assert(s@.subrange(i as int, i + p_len)[t as int] == s@[i + t]);
                }
            }
            return false;
        }
        t = t + 1;
    }
    proof {
        assert(s@.subrange(i as int, i + p_len) =~= pat@);
    }
    true
}

/// Position of the first occurrence of `pat` in `s`, if any.
pub fn find_sub_str(s: &str, pat: &str) -> (r: Option<usize>)
    ensures
        match r {
            Some(i) => find_sub(s@, pat@) == Some(i as int),
            None => find_sub(s@, pat@) is None,
        },
{
    proof {
        lemma_find_sub_characterization(s@, pat@);
    }
    let s_len = s.unicode_len();
    let p_len = pat.unicode_len();
    if p_len > s_len {
        return None;
    }
    let mut i: usize = 0;
    while i <= s_len - p_len
        invariant
            p_len <= s_len,
            s_len == s@.len(),
            p_len == pat@.len(),
            i <= s_len - p_len + 1,
            forall|j: int| 0 <= j < i ==> !match_at(s@, pat@, j),
        decreases s_len + 1 - p_len - i,
    {
        if match_at_str(s, pat, i) {
            proof {
                lemma_find_sub_characterization(s@, pat@);
                match find_sub(s@, pat@) {
                    Some(k) => {
                        if k < i {
                            assert(match_at(s@, pat@, k));
                            assert(false);
                        }
                        if k > i {
                            assert(match_at(s@, pat@, i as int));
                            assert(false);
                        }
                    },
                    None => {
                        assert(match_at(s@, pat@, i as int));
                        assert(false);
                    },
                }
            }
            return Some(i);
        }
        proof {
            if p_len == 0 {
                assert(s@.subrange(i as int, i as int) =~= pat@);
                assert(match_at(s@, pat@, i as int));
            }
        }
        i = i + 1;
    }
    proof {
        if let Some(k) = find_sub(s@, pat@) {
            assert(match_at(s@, pat@, k));
            assert(!match_at(s@, pat@, k));
        }
    }
    None
}

pub fn contains_str(s: &str, pat: &str) -> (r: bool)
    ensures
        r == contains_sub(s@, pat@),
{
    match find_sub_str(s, pat) {
        Some(_) => true,
        None => false,
    }
}

/// The sequence `s` ends with the suffix `suf`.
pub open spec fn ends_with(s: Seq<char>, suf: Seq<char>) -> bool {
    suf.len() <= s.len() && s.skip(s.len() - suf.len()) == suf
}

pub fn ends_with_str(s: &str, suf: &str) -> (r: bool)
    ensures
        r == ends_with(s@, suf@),
{
    let s_len = s.unicode_len();
    let f_len = suf.unicode_len();
    if f_len > s_len {
        return false;
    }
    let r = match_at_str(s, suf, s_len - f_len);
    proof {
        assert(s@.subrange(s_len - f_len, s_len as int) =~= s@.skip(s@.len() - suf@.len()));
    }
    r
}

/// An owned copy of the characters of `s` from `from` (inclusive) to `to` (exclusive).
pub fn substr_copy(s: &str, from: usize, to: usize) -> (r: String)
    requires
        from <= to <= s@.len(),
    ensures
        r@ == s@.subrange(from as int, to as int),
{
    let piece = s.substring_char(from, to);
    String::from_str(piece)
}

} // verus!
