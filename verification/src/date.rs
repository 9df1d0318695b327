//! Rendering of the year component of a citekey.
use vstd::prelude::*;
use vstd::string::StringExecFns;

use crate::text::chars_to_string;

verus! {

/// The ASCII digit for a value in 0..9.
pub open spec fn digit_to_char(d: int) -> char {
    ((48 + d) as u32) as char
}

/// The decimal digits of `n`, most significant first, no leading zeros
/// (a single '0' for zero).
pub open spec fn dec_digits(n: nat) -> Seq<char>
    decreases n,
{
    if n < 10 {
        seq![digit_to_char(n as int)]
    } else {
        dec_digits(n / 10) + seq![digit_to_char((n % 10) as int)]
    }
}

/// The decimal rendering of an integer: a leading '-' for negative values.
pub open spec fn dec_int(y: int) -> Seq<char> {
    if y < 0 {
        seq!['-'] + dec_digits((-y) as nat)
    } else {
        dec_digits(y as nat)
    }
}

/// The year component of a citekey: the issued year stringified in decimal,
/// or the sentinel "xxxx" when the record carries no issued date.
pub open spec fn year_str(year: Option<i64>) -> Seq<char> {
    match year {
        Option::None => seq!['x', 'x', 'x', 'x'],
        Option::Some(y) => dec_int(y as int),
    }
}

/// Every character of a rendered year is a word character or a hyphen:
/// decimal digits, a leading '-' for negative years, or the "xxxx"
/// sentinel.
pub proof fn lemma_year_str_safe(year: Option<i64>)
    ensures
        crate::text::safe_seq(year_str(year)),
{
    match year {
        Option::None => {
            assert(crate::text::safe_seq(seq!['x', 'x', 'x', 'x']));
        },
        Option::Some(y) => {
            if y < 0 {
                lemma_dec_digits_safe((-(y as int)) as nat);
                crate::text::lemma_concat_safe(seq!['-'], dec_digits((-(y as int)) as nat));
            } else {
                lemma_dec_digits_safe(y as nat);
            }
        },
    }
}

proof fn lemma_dec_digits_safe(n: nat)
    ensures
        crate::text::safe_seq(dec_digits(n)),
    decreases n,
{
    if n < 10 {
        assert(crate::text::is_word_char(digit_to_char(n as int)));
    } else {
        lemma_dec_digits_safe(n / 10);
        assert(crate::text::is_word_char(digit_to_char((n % 10) as int)));
        crate::text::lemma_concat_safe(dec_digits(n / 10), seq![digit_to_char((n % 10) as int)]);
    }
}

fn digit_char_of(d: u64) -> (c: char)
    requires
        d < 10,
    ensures
        c == digit_to_char(d as int),
{
    match d {
        0 => '0',
        1 => '1',
        2 => '2',
        3 => '3',
        4 => '4',
        5 => '5',
        6 => '6',
        7 => '7',
        8 => '8',
        _ => '9',
    }
}

fn dec_u64(n: u64) -> (v: Vec<char>)
    ensures
        v@ == dec_digits(n as nat),
    decreases n,
{
    if n < 10 {
        let mut v: Vec<char> = Vec::new();
        v.push(digit_char_of(n));
        assert(v@ =~= dec_digits(n as nat));
        v
    } else {
        let mut v = dec_u64(n / 10);
        v.push(digit_char_of(n % 10));
        assert(v@ =~= dec_digits(n as nat));
        v
    }
}

/// Stringifies the issued year of a record, falling back to "xxxx" when it
/// is absent.
pub fn get_year(year: Option<i64>) -> (r: String)
    ensures
        r@ == year_str(year),
{
    match year {
        Option::None => {
            let r = String::from_str("xxxx");
            proof {
                reveal_strlit("xxxx");
                assert(r@ =~= year_str(year));
            }
            r
        },
        Option::Some(y) => {
            let mag: u64 = if y >= 0 {
                y as u64
            } else {
                ((-(y + 1)) as u64) + 1
            };
            assert(mag == if y >= 0 { y as int } else { -(y as int) });
            let mut v: Vec<char> = Vec::new();
            if y < 0 {
                v.push('-');
            }
            let mut digs = dec_u64(mag);
            v.append(&mut digs);
            assert(v@ =~= year_str(year));
            chars_to_string(&v)
        },
    }
}

} // verus!
