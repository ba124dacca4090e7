//! Rendering of unsigned integers as decimal text.
//!
//! `dec_str` is the mathematical form: the usual base-10 numeral of a natural
//! number, most significant digit first, with no leading zeros (and the
//! single digit `0` for zero). `u32_to_string` produces exactly that numeral.

use vstd::prelude::*;

verus! {

/// The character for one decimal digit.
pub open spec fn digit_char(d: int) -> char {
    if d == 0 {
        '0'
    } else if d == 1 {
        '1'
    } else if d == 2 {
        '2'
    } else if d == 3 {
        '3'
    } else if d == 4 {
        '4'
    } else if d == 5 {
        '5'
    } else if d == 6 {
        '6'
    } else if d == 7 {
        '7'
    } else if d == 8 {
        '8'
    } else {
        '9'
    }
}

/// The decimal numeral of `n`, most significant digit first.
pub open spec fn dec_str(n: nat) -> Seq<char>
    decreases n,
{
    if n < 10 {
        seq![digit_char(n as int)]
    } else {
        dec_str(n / 10).push(digit_char((n % 10) as int))
    }
}

/// The digits of `ds` as characters, in reverse order: `ds` holds a numeral
/// least significant digit first, the result reads most significant first.
pub open spec fn rev_digit_chars(ds: Seq<u8>) -> Seq<char> {
    Seq::new(ds.len(), |i: int| digit_char(ds[ds.len() - 1 - i] as int))
}

proof fn lemma_rev_digit_chars_push(ds: Seq<u8>, d: u8)
    ensures
        rev_digit_chars(ds.push(d)) == seq![digit_char(d as int)] + rev_digit_chars(ds),
{
    assert(rev_digit_chars(ds.push(d)) =~= seq![digit_char(d as int)] + rev_digit_chars(ds));
}

fn digit_str(d: u8) -> (s: &'static str)
    requires
        d < 10,
    ensures
        s@ == seq![digit_char(d as int)],
{
    proof {
        reveal_strlit("0");
        reveal_strlit("1");
        reveal_strlit("2");
        reveal_strlit("3");
        reveal_strlit("4");
        reveal_strlit("5");
        reveal_strlit("6");
        reveal_strlit("7");
        reveal_strlit("8");
        reveal_strlit("9");
    }
    let s: &'static str = if d == 0 {
        "0"
    } else if d == 1 {
        "1"
    } else if d == 2 {
        "2"
    } else if d == 3 {
        "3"
    } else if d == 4 {
        "4"
    } else if d == 5 {
        "5"
    } else if d == 6 {
        "6"
    } else if d == 7 {
        "7"
    } else if d == 8 {
        "8"
    } else {
        "9"
    };
    proof {
        assert(s@ =~= seq![digit_char(d as int)]);
    }
    s
}

/// The decimal numeral of `n` as a string, e.g. `0` renders as `"0"` and
/// `1234` as `"1234"`.
pub fn u32_to_string(n: u32) -> (s: String)
    ensures
        s@ == dec_str(n as nat),
{
    let mut digits: Vec<u8> = Vec::new();
    let mut m: u32 = n;
    proof {
        assert(dec_str(n as nat) =~= dec_str(m as nat) + rev_digit_chars(digits@));
    }
    while m >= 10
        invariant
            forall|j: int| 0 <= j < digits@.len() ==> digits@[j] < 10,
            dec_str(n as nat) == dec_str(m as nat) + rev_digit_chars(digits@),
        decreases m,
    {
        let d: u8 = (m % 10) as u8;
        proof {
            lemma_rev_digit_chars_push(digits@, d);
            assert(dec_str(m as nat) == dec_str((m / 10) as nat).push(digit_char((m % 10) as int)));
            assert(dec_str((m / 10) as nat).push(digit_char(d as int)) + rev_digit_chars(digits@) =~= dec_str((m / 10) as nat) + rev_digit_chars(digits@.push(d)));
        }
        digits.push(d);
        m = m / 10;
    }
    proof {
        lemma_rev_digit_chars_push(digits@, m as u8);
        assert(seq![digit_char(m as int)] + rev_digit_chars(digits@) =~= dec_str(m as nat) + rev_digit_chars(digits@));
    }
    digits.push(m as u8);
    let ghost ds = digits@;
    let mut s = String::new();
    let mut i: usize = digits.len();
    proof {
        assert(s@ =~= rev_digit_chars(ds).take(ds.len() - i));
    }
    while i > 0
        invariant
            digits@ == ds,
            i <= ds.len(),
            forall|j: int| 0 <= j < ds.len() ==> ds[j] < 10,
            dec_str(n as nat) == rev_digit_chars(ds),
            s@ == rev_digit_chars(ds).take(ds.len() - i),
        decreases i,
    {
        i -= 1;
        let t = digit_str(digits[i]);
        s.append(t);
        proof {
            assert(s@ =~= rev_digit_chars(ds).take(ds.len() - i));
        }
    }
    proof {
        assert(rev_digit_chars(ds).take(ds.len() - 0) =~= rev_digit_chars(ds));
    }
    s
}

} // verus!
