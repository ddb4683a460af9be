use vstd::prelude::*;
use vstd::seq_lib::*;
use vstd::string::*;
use crate::text::{lex_lt, lemma_lex_common_prefix, lemma_lex_append_decided, substr_copy};

verus! {

/// The character for one decimal digit.
pub open spec fn digit_char(d: nat) -> char {
    if d == 0 {
        '0'
    } else if d == 1 {
        '1'
    } else if d == 2 {
        '2'
    } else if d == 3 {
        '3'
    } else if d == 4 {
        '4'
    } else if d == 5 {
        '5'
    } else if d == 6 {
        '6'
    } else if d == 7 {
        '7'
    } else if d == 8 {
        '8'
    } else {
        '9'
    }
}

/// The decimal numeral of `n`, most significant digit first, no leading zeros
/// (a single zero for `n == 0`).
pub open spec fn dec_digits(n: nat) -> Seq<char>
    decreases n,
{
    if n < 10 {
        seq![digit_char(n)]
    } else {
        dec_digits(n / 10).push(digit_char(n % 10))
    }
}

pub proof fn lemma_digit_char_val(d: nat)
    requires
        d < 10,
    ensures
        digit_char(d) as int == 48 + d,
{
}

pub proof fn lemma_dec_digits_len(n: nat)
    ensures
        dec_digits(n).len() >= 1,
        n < 10 ==> dec_digits(n).len() == 1,
        n >= 10 ==> dec_digits(n).len() == dec_digits(n / 10).len() + 1,
{
}

/// Numerals of four-digit numbers have exactly four characters.
pub proof fn lemma_dec_len_4(m: nat)
    requires
        1000 <= m < 10000,
    ensures
        dec_digits(m).len() == 4,
{
    assert(m / 10 < 1000 && m / 10 >= 100) by (nonlinear_arith)
        requires 1000 <= m < 10000;
    assert(m / 10 / 10 < 100 && m / 10 / 10 >= 10) by (nonlinear_arith)
        requires 100 <= m / 10 < 1000;
    assert(m / 10 / 10 / 10 < 10) by (nonlinear_arith)
        requires 10 <= m / 10 / 10 < 100;
    lemma_dec_digits_len(m);
    lemma_dec_digits_len(m / 10);
    lemma_dec_digits_len(m / 10 / 10);
    lemma_dec_digits_len(m / 10 / 10 / 10);
}

/// Equal-length decimal numerals compare lexicographically as the numbers do.
pub proof fn lemma_dec_digits_order(a: nat, b: nat)
    requires
        a < b,
        dec_digits(a).len() == dec_digits(b).len(),
    ensures
        lex_lt(dec_digits(a), dec_digits(b)),
    decreases b,
{
    if b < 10 {
        lemma_digit_char_val(a);
        lemma_digit_char_val(b);
        assert(lex_lt(seq![digit_char(a)], seq![digit_char(b)]));
    } else {
        lemma_dec_digits_len(a);
        lemma_dec_digits_len(b);
        if a < 10 {
            assert(dec_digits(b).len() >= 2);
            assert(false);
        }
        let x = dec_digits(a / 10);
        let y = dec_digits(b / 10);
        let ca = digit_char(a % 10);
        let cb = digit_char(b % 10);
        assert(dec_digits(a) =~= x + seq![ca]);
        assert(dec_digits(b) =~= y + seq![cb]);
        assert(a / 10 <= b / 10) by (nonlinear_arith)
            requires a < b;
        if a / 10 == b / 10 {
            assert(a % 10 < b % 10) by (nonlinear_arith)
                requires a < b, a / 10 == b / 10;
            lemma_digit_char_val((a % 10) as nat);
            lemma_digit_char_val((b % 10) as nat);
            assert(x =~= y);
            lemma_lex_common_prefix(x, seq![ca], seq![cb]);
            assert(lex_lt(seq![ca], seq![cb]));
        } else {
            lemma_dec_digits_order(a / 10, b / 10);
            lemma_lex_append_decided(x, y, seq![ca], seq![cb]);
        }
    }
}

fn digit_str(d: u64) -> (r: &'static str)
    requires
        d < 10,
    ensures
        r@ == seq![digit_char(d as nat)],
{
    if d == 0 {
        proof { reveal_strlit("0"); assert("0"@ =~= seq![digit_char(d as nat)]); }
        "0"
    } else if d == 1 {
        proof { reveal_strlit("1"); assert("1"@ =~= seq![digit_char(d as nat)]); }
        "1"
    } else if d == 2 {
        proof { reveal_strlit("2"); assert("2"@ =~= seq![digit_char(d as nat)]); }
        "2"
    } else if d == 3 {
        proof { reveal_strlit("3"); assert("3"@ =~= seq![digit_char(d as nat)]); }
        "3"
    } else if d == 4 {
        proof { reveal_strlit("4"); assert("4"@ =~= seq![digit_char(d as nat)]); }
        "4"
    } else if d == 5 {
        proof { reveal_strlit("5"); assert("5"@ =~= seq![digit_char(d as nat)]); }
        "5"
    } else if d == 6 {
        proof { reveal_strlit("6"); assert("6"@ =~= seq![digit_char(d as nat)]); }
        "6"
    } else if d == 7 {
        proof { reveal_strlit("7"); assert("7"@ =~= seq![digit_char(d as nat)]); }
        "7"
    } else if d == 8 {
        proof { reveal_strlit("8"); assert("8"@ =~= seq![digit_char(d as nat)]); }
        "8"
    } else {
        proof { reveal_strlit("9"); assert("9"@ =~= seq![digit_char(d as nat)]); }
        "9"
    }
}

/// The decimal numeral of `n` as a string.
pub fn u64_to_dec(n: u64) -> (r: String)
    ensures
        r@ == dec_digits(n as nat),
    decreases n,
{
    if n < 10 {
        String::from_str(digit_str(n))
    } else {
        proof {
            assert(n / 10 < n) by (nonlinear_arith)
                requires n >= 10;
        }
        let mut s = u64_to_dec(n / 10);
        s.append(digit_str(n % 10));
        proof {
            assert(dec_digits((n as nat) / 10).push(digit_char((n as nat) % 10)) =~= dec_digits(
                (n as nat) / 10,
            ) + seq![digit_char((n as nat) % 10)]);
        }
        s
    }
}

/// The numeral of `n` left-padded with zeros to at least three digits, as the
/// fixed-width naming template of segmentation output files prints it.
pub open spec fn padded3(n: nat) -> Seq<char> {
    if n < 1000 {
        dec_digits((1000 + n) as nat).drop_first()
    } else {
        dec_digits(n)
    }
}

pub fn pad3(n: u64) -> (r: String)
    ensures
        r@ == padded3(n as nat),
{
    if n < 1000 {
        let s = u64_to_dec(1000 + n);
        proof {
            lemma_dec_len_4((1000 + n) as nat);
            assert(s@.subrange(1, 4) =~= s@.drop_first());
        }
        substr_copy(s.as_str(), 1, 4)
    } else {
        u64_to_dec(n)
    }
}

/// A count of milliseconds printed as seconds with three decimal places,
/// the form handed to the external tool for time offsets and durations.
pub open spec fn ms_text(ms: nat) -> Seq<char> {
    dec_digits(ms / 1000) + seq!['.'] + padded3(ms % 1000)
}

pub fn format_ms(ms: u64) -> (r: String)
    ensures
        r@ == ms_text(ms as nat),
{
    let mut s = u64_to_dec(ms / 1000);
    s.append(".");
    let frac = pad3(ms % 1000);
    s.append(frac.as_str());
    proof {
        reveal_strlit(".");
        assert("."@ =~= seq!['.']);
        assert(s@ =~= ms_text(ms as nat));
    }
    s
}

} // verus!
