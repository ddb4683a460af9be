use vstd::prelude::*;
use vstd::seq_lib::*;
use vstd::multiset::Multiset;
use vstd::string::*;
use crate::digits::{padded3, pad3, lemma_dec_len_4, lemma_dec_digits_len, lemma_dec_digits_order, dec_digits, digit_char};
use crate::text::{lex_lt, lex_le, lemma_lex_common_prefix, lemma_lex_append_decided, lemma_lex_trichotomy, lemma_lex_transitive, ends_with, ends_with_str, contains_sub, contains_str, str_lex_lt};

verus! {

/// The file name that fixed-duration segmentation gives chunk number `i`:
/// a fixed stem, the zero-padded chunk number, and the audio extension.
pub open spec fn chunk_file_name_spec(i: nat) -> Seq<char> {
    "chunk_"@ + padded3(i) + ".mp3"@
}

pub fn chunk_file_name(i: u64) -> (r: String)
    ensures
        r@ == chunk_file_name_spec(i as nat),
{
    let mut s = String::from_str("chunk_");
    let num = pad3(i);
    s.append(num.as_str());
    s.append(".mp3");
    proof {
        assert(s@ =~= chunk_file_name_spec(i as nat));
    }
    s
}

/// The leading digit of the numeral of a number between 1000 and 1999 is '1',
/// so dropping it leaves the three-digit zero-padded tail.
proof fn lemma_dec_digits_head_one(m: nat)
    requires
        1000 <= m < 2000,
    ensures
        dec_digits(m).len() == 4,
        dec_digits(m)[0] == '1',
{
    lemma_dec_len_4(m);
    assert(m / 10 >= 100 && m / 10 < 200) by (nonlinear_arith)
        requires 1000 <= m < 2000;
    assert(m / 10 / 10 >= 10 && m / 10 / 10 < 20) by (nonlinear_arith)
        requires 100 <= m / 10 < 200;
    assert(m / 10 / 10 / 10 == 1) by (nonlinear_arith)
        requires 10 <= m / 10 / 10 < 20;
    lemma_dec_digits_len(m / 10);
    lemma_dec_digits_len(m / 10 / 10);
    lemma_dec_digits_len(m / 10 / 10 / 10);
    assert(dec_digits(m / 10 / 10 / 10) =~= seq![digit_char(1)]);
    assert(dec_digits(m / 10 / 10)[0] == dec_digits(m / 10 / 10 / 10)[0]);
    assert(dec_digits(m / 10)[0] == dec_digits(m / 10 / 10)[0]);
    assert(dec_digits(m)[0] == dec_digits(m / 10)[0]);
}

/// While the chunk count stays within the three-digit padding width, the
/// lexical order of chunk file names equals the temporal order of the chunks.
pub proof fn lemma_chunk_names_ordered(i: nat, j: nat)
    requires
        i < j,
        j < 1000,
    ensures
        lex_lt(chunk_file_name_spec(i), chunk_file_name_spec(j)),
{
    let a = (1000 + i) as nat;
    let b = (1000 + j) as nat;
    lemma_dec_digits_head_one(a);
    lemma_dec_digits_head_one(b);
    lemma_dec_digits_order(a, b);
    let x = dec_digits(a);
    let y = dec_digits(b);
    assert(lex_lt(x.drop_first(), y.drop_first()));
    assert(padded3(i) == x.drop_first());
    assert(padded3(j) == y.drop_first());
    assert(padded3(i).len() == 3 && padded3(j).len() == 3);
    lemma_lex_append_decided(padded3(i), padded3(j), ".mp3"@, ".mp3"@);
    lemma_lex_common_prefix("chunk_"@, padded3(i) + ".mp3"@, padded3(j) + ".mp3"@);
    assert(chunk_file_name_spec(i) =~= "chunk_"@ + (padded3(i) + ".mp3"@));
    assert(chunk_file_name_spec(j) =~= "chunk_"@ + (padded3(j) + ".mp3"@));
}

/// A directory entry counts as a produced chunk when it carries the audio
/// extension and is not the literal naming template handed to the tool.
pub open spec fn is_chunk_listing_name(s: Seq<char>) -> bool {
    ends_with(s, ".mp3"@) && s.len() > ".mp3"@.len() && !contains_sub(s, "%03d"@)
}

pub fn chunk_listing_name_matches(s: &str) -> (r: bool)
    ensures
        r == is_chunk_listing_name(s@),
{
    proof {
        reveal_strlit(".mp3");
    }
    let has_ext = ends_with_str(s, ".mp3");
    let long_enough = s.unicode_len() > 4;
    let is_template = contains_str(s, "%03d");
    has_ext && long_enough && !is_template
}

/// The listing names, in the order given, that count as produced chunks.
pub fn select_chunk_names(listing: Vec<String>) -> (r: Vec<String>)
    ensures
        r@ == listing@.filter(|s: String| is_chunk_listing_name(s@)),
{
    let mut r: Vec<String> = Vec::new();
    let mut rest = listing;
    let ghost orig = rest@;
    let ghost mut i: int = 0;
    proof {
        reveal(Seq::filter);
        assert(orig.take(0).filter(|s: String| is_chunk_listing_name(s@)) =~= Seq::<
            String,
        >::empty());
        assert(rest@ =~= orig.skip(0));
    }
    while rest.len() > 0
        invariant
            0 <= i <= orig.len(),
            rest@ == orig.skip(i),
            r@ == orig.take(i).filter(|s: String| is_chunk_listing_name(s@)),
        decreases rest@.len(),
    {
        let name = rest.remove(0);
        proof {
            assert(orig.skip(i)[0] == orig[i]);
            assert(orig.skip(i).remove(0) =~= orig.skip(i + 1));
            assert(orig.take(i + 1).drop_last() =~= orig.take(i));
            assert(orig.take(i + 1).last() == orig[i]);
            reveal(Seq::filter);
        }
        let keep = chunk_listing_name_matches(name.as_str());
        if keep {
            r.push(name);
            proof {
                assert(orig.take(i + 1).filter(|s: String| is_chunk_listing_name(s@))
                    =~= orig.take(i).filter(|s: String| is_chunk_listing_name(s@)).push(orig[i]));
            }
        } else {
            proof {
                assert(orig.take(i + 1).filter(|s: String| is_chunk_listing_name(s@))
                    =~= orig.take(i).filter(|s: String| is_chunk_listing_name(s@)));
            }
        }
        proof {
            i = i + 1;
        }
    }
    proof {
        assert(orig.skip(i).len() == 0);
        assert(i == orig.len());
        assert(orig.take(orig.len() as int) =~= orig);
    }
    r
}

/// The names stand in ascending lexical order.
pub open spec fn lex_sorted(s: Seq<String>) -> bool {
    forall|i: int, j: int| 0 <= i < j < s.len() ==> lex_le(#[trigger] s[i]@, #[trigger] s[j]@)
}

proof fn lemma_lex_le_transitive(a: Seq<char>, b: Seq<char>, c: Seq<char>)
    requires
        lex_le(a, b),
        lex_le(b, c),
    ensures
        lex_le(a, c),
{
    if lex_lt(a, b) && lex_lt(b, c) {
        lemma_lex_transitive(a, b, c);
    }
}

proof fn lemma_insert_to_multiset(s: Seq<String>, i: int, x: String)
    requires
        0 <= i <= s.len(),
    ensures
        s.insert(i, x).to_multiset() =~= s.to_multiset().insert(x),
{
    let t = s.insert(i, x);
    assert(t =~= s.take(i).push(x) + s.skip(i));
    lemma_multiset_commutative(s.take(i).push(x), s.skip(i));
    s.take(i).to_multiset_ensures();
    assert(s =~= s.take(i) + s.skip(i));
    lemma_multiset_commutative(s.take(i), s.skip(i));
}

/// Puts one name into an ascending vector, keeping the order.
fn insert_sorted(r: &mut Vec<String>, x: String)
    requires
        lex_sorted(old(r)@),
    ensures
        lex_sorted(final(r)@),
        final(r)@.to_multiset() == old(r)@.to_multiset().insert(x),
        final(r)@.len() == old(r)@.len() + 1,
{
    let n = r.len();
    let mut idx: usize = 0;
    while idx < n
        invariant
            idx <= n,
            n == r@.len(),
            r@ == old(r)@,
            forall|k: int| 0 <= k < idx ==> lex_lt(#[trigger] r@[k]@, x@),
        ensures
            idx <= n,
            r@ == old(r)@,
            forall|k: int| 0 <= k < idx ==> lex_lt(#[trigger] r@[k]@, x@),
            idx < n ==> !lex_lt(r@[idx as int]@, x@),
        decreases n - idx,
    {
        let cur: &String = &r[idx];
        if !str_lex_lt(cur.as_str(), x.as_str()) {
            break;
        }
        idx = idx + 1;
    }
    let ghost before = r@;
    r.insert(idx, x);
    proof {
        lemma_insert_to_multiset(before, idx as int, x);
        let now = r@;
        assert forall|p: int, q: int| 0 <= p < q < now.len() implies lex_le(
            #[trigger] now[p]@,
            #[trigger] now[q]@,
        ) by {
            if idx < before.len() {
                lemma_lex_trichotomy(before[idx as int]@, x@);
            }
            if p < idx && q == idx {
                assert(now[p] == before[p]);
                assert(lex_lt(before[p]@, x@));
            } else if p == idx {
                if idx < before.len() {
                    assert(now[q] == before[q - 1]);
                    assert(lex_le(x@, before[idx as int]@));
                    assert(lex_le(before[idx as int]@, before[q - 1]@));
                    lemma_lex_le_transitive(x@, before[idx as int]@, before[q - 1]@);
                }
            } else if p < idx && q > idx {
                assert(now[p] == before[p]);
                assert(now[q] == before[q - 1]);
                assert(lex_lt(before[p]@, x@));
                if q - 1 == p {
                    assert(false);
                } else {
                    assert(lex_le(before[p]@, before[q - 1]@));
                }
            } else if p > idx && q > idx {
                assert(now[p] == before[p - 1]);
                assert(now[q] == before[q - 1]);
                assert(lex_le(before[p - 1]@, before[q - 1]@));
            } else if p < idx && q < idx {
                assert(now[p] == before[p]);
                assert(now[q] == before[q]);
                assert(lex_le(before[p]@, before[q]@));
            }
        }
    }
}

/// The same names rearranged into ascending lexical order; with the temporal
/// naming law above, sorting recovered chunk names recovers temporal order.
pub fn sort_names(names: Vec<String>) -> (r: Vec<String>)
    ensures
        r@.to_multiset() == names@.to_multiset(),
        lex_sorted(r@),
        r@.len() == names@.len(),
{
    let mut rest = names;
    let ghost orig = rest@;
    let mut r: Vec<String> = Vec::new();
    proof {
        orig.to_multiset_ensures();
        r@.to_multiset_ensures();
        assert(r@.to_multiset() =~= Multiset::<String>::empty());
    }
    while rest.len() > 0
        invariant
            lex_sorted(r@),
            r@.to_multiset().add(rest@.to_multiset()) == orig.to_multiset(),
            r@.len() + rest@.len() == orig.len(),
        decreases rest@.len(),
    {
        let ghost rest_before = rest@;
        let x = rest.remove(0);
        proof {
            assert(rest_before =~= rest_before.remove(0).insert(0, rest_before[0]));
            lemma_insert_to_multiset(rest_before.remove(0), 0, rest_before[0]);
        }
        insert_sorted(&mut r, x);
        proof {
            assert(r@.to_multiset().add(rest@.to_multiset()) =~= orig.to_multiset());
        }
    }
    proof {
        rest@.to_multiset_ensures();
        assert(rest@.to_multiset().len() == 0);
        assert forall|a: String| rest@.to_multiset().count(a) == 0 by {
            if rest@.to_multiset().count(a) > 0 {
                assert(rest@.contains(a));
            }
        }
        assert(rest@.to_multiset() =~= Multiset::<String>::empty());
        assert(r@.to_multiset() =~= orig.to_multiset());
    }
    r
}

} // verus!
