//! Decimal representations of unsigned integers, and their inverses.
//!
//! Offsets, byte counts and ports travel through HTTP headers as decimal
//! strings; ETags embed two such numbers. Everything here is proved against
//! one spec-level representation, `dec_rep`, so that string-level facts
//! (such as ETag injectivity) reduce to arithmetic.

use vstd::prelude::*;

verus! {

/// The character for one decimal digit value.
pub open spec fn dec_digit(d: nat) -> char
    recommends
        d < 10,
{
    ((d + 48) as u8) as char
}

/// Whether a character is a decimal digit.
pub open spec fn is_dec_digit(c: char) -> bool {
    48 <= c as int <= 57
}

/// The numeric value of a decimal digit character.
pub open spec fn digit_val(c: char) -> nat
    recommends
        is_dec_digit(c),
{
    (c as int - 48) as nat
}

/// Whether every character of a sequence is a decimal digit.
pub open spec fn all_dec_digits(s: Seq<char>) -> bool {
    forall|i: int| 0 <= i < s.len() ==> is_dec_digit(#[trigger] s[i])
}

/// The canonical decimal representation of a number, most significant
/// digit first, with no leading zeros (and "0" for zero).
pub open spec fn dec_rep(n: nat) -> Seq<char>
    decreases n,
{
    if n < 10 {
        seq![dec_digit(n)]
    } else {
        dec_rep(n / 10).push(dec_digit(n % 10))
    }
}

/// The numeric value of a digit string (most significant digit first).
pub open spec fn dec_val(s: Seq<char>) -> nat
    decreases s.len(),
{
    if s.len() == 0 {
        0
    } else {
        dec_val(s.drop_last()) * 10 + digit_val(s.last())
    }
}

/// `dec_rep` emits only digits, and at least one of them.
pub proof fn lemma_dec_rep_digits(n: nat)
    ensures
        dec_rep(n).len() >= 1,
        all_dec_digits(dec_rep(n)),
    decreases n,
{
    if n < 10 {
        assert(dec_rep(n) =~= seq![dec_digit(n)]);
    } else {
        lemma_dec_rep_digits(n / 10);
        let prefix = dec_rep(n / 10);
        let whole = prefix.push(dec_digit(n % 10));
        assert forall|i: int| 0 <= i < whole.len() implies is_dec_digit(#[trigger] whole[i]) by {
            if i < prefix.len() {
                assert(whole[i] == prefix[i]);
            }
        }
    }
}

/// A digit character decodes back to the digit it was made from.
pub proof fn lemma_dec_digit_val(d: nat)
    requires
        d < 10,
    ensures
        is_dec_digit(dec_digit(d)),
        digit_val(dec_digit(d)) == d,
{
    assert(dec_digit(d) as int == d + 48);
}

/// Reading back the decimal representation recovers the number; hence the
/// representation is injective.
pub proof fn lemma_dec_rep_val(n: nat)
    ensures
        dec_val(dec_rep(n)) == n,
    decreases n,
{
    lemma_dec_digit_val(n % 10);
    if n < 10 {
        let s = dec_rep(n);
        assert(s =~= seq![dec_digit(n)]);
        assert(s.drop_last() =~= Seq::<char>::empty());
        assert(dec_val(Seq::<char>::empty()) == 0);
        assert(s.last() == dec_digit(n));
        lemma_dec_digit_val(n);
        assert(dec_val(s) == dec_val(s.drop_last()) * 10 + digit_val(s.last()));
        assert(dec_val(s) == n);
    } else {
        lemma_dec_rep_val(n / 10);
        let prefix = dec_rep(n / 10);
        let s = prefix.push(dec_digit(n % 10));
        assert(s.drop_last() =~= prefix);
        assert(s.last() == dec_digit(n % 10));
        assert(dec_val(s) == dec_val(prefix) * 10 + digit_val(dec_digit(n % 10)));
        assert(dec_val(s) == (n / 10) * 10 + n % 10);
    }
}

/// Two numbers with the same decimal representation are equal.
pub proof fn lemma_dec_rep_injective(a: nat, b: nat)
    requires
        dec_rep(a) == dec_rep(b),
    ensures
        a == b,
{
    lemma_dec_rep_val(a);
    lemma_dec_rep_val(b);
}

/// The value of a prefix never exceeds the value of the whole string.
pub proof fn lemma_dec_val_prefix_le(s: Seq<char>, i: int)
    requires
        0 <= i <= s.len(),
    ensures
        dec_val(s.subrange(0, i)) <= dec_val(s),
    decreases s.len() - i,
{
    if i == s.len() {
        assert(s.subrange(0, i) =~= s);
    } else {
        lemma_dec_val_prefix_le(s, i + 1);
        let shorter = s.subrange(0, i);
        let longer = s.subrange(0, i + 1);
        assert(longer.drop_last() =~= shorter);
        assert(dec_val(longer) == dec_val(shorter) * 10 + digit_val(longer.last()));
    }
}

/// One decimal digit as a static string.
fn dec_digit_str(d: u64) -> (s: &'static str)
    requires
        d < 10,
    ensures
        s@ =~= seq![dec_digit(d as nat)],
{
    proof {
        reveal_strlit("0");
        reveal_strlit("1");
        reveal_strlit("2");
        reveal_strlit("3");
        reveal_strlit("4");
        reveal_strlit("5");
        reveal_strlit("6");
        reveal_strlit("7");
        reveal_strlit("8");
        reveal_strlit("9");
    }
    if d == 0 {
        "0"
    } else if d == 1 {
        "1"
    } else if d == 2 {
        "2"
    } else if d == 3 {
        "3"
    } else if d == 4 {
        "4"
    } else if d == 5 {
        "5"
    } else if d == 6 {
        "6"
    } else if d == 7 {
        "7"
    } else if d == 8 {
        "8"
    } else {
        "9"
    }
}

/// Renders a number as its canonical decimal string.
pub fn u64_to_dec(n: u64) -> (s: String)
    ensures
        s@ == dec_rep(n as nat),
    decreases n,
{
    if n < 10 {
        dec_digit_str(n).to_owned()
    } else {
        let mut s = u64_to_dec(n / 10);
        s.append(dec_digit_str(n % 10));
        proof {
            assert(dec_rep(n as nat) =~= dec_rep((n / 10) as nat) + seq![
                dec_digit((n % 10) as nat),
            ]);
        }
        s
    }
}

/// Whether a character sequence is a well-formed decimal numeral that fits
/// in a `u64`.
pub open spec fn is_u64_numeral(s: Seq<char>) -> bool {
    s.len() > 0 && all_dec_digits(s) && dec_val(s) <= u64::MAX
}

/// Parses a string of decimal digits into a number. Returns `None` when the
/// string is empty, holds any non-digit, or encodes a value above `u64::MAX`.
pub fn parse_u64(s: &str) -> (r: Option<u64>)
    ensures
        r is Some <==> is_u64_numeral(s@),
        r is Some ==> r->0 as nat == dec_val(s@),
{
    let len = s.unicode_len();
    if len == 0 {
        return None;
    }
    let mut acc: u64 = 0;
    let mut i: usize = 0;
    while i < len
        invariant
            0 <= i <= len,
            len == s@.len(),
            all_dec_digits(s@.subrange(0, i as int)),
            acc as nat == dec_val(s@.subrange(0, i as int)),
        decreases len - i,
    {
        let c = s.get_char(i);
        let v = c as u32;
        if v < 48 || v > 57 {
            return None;
        }
        let d: u64 = (v - 48) as u64;
        let wide: u128 = acc as u128 * 10 + d as u128;
        proof {
            assert(s@.subrange(0, i as int + 1).drop_last() =~= s@.subrange(0, i as int));
            assert(dec_val(s@.subrange(0, i as int + 1)) == dec_val(s@.subrange(0, i as int)) * 10
                + digit_val(s@[i as int]));
        }
        if wide > u64::MAX as u128 {
            proof {
                lemma_dec_val_prefix_le(s@, i as int + 1);
            }
            return None;
        }
        acc = wide as u64;
        i = i + 1;
    }
    proof {
        assert(s@.subrange(0, len as int) =~= s@);
    }
    Some(acc)
}

/// Parses an optional textual port number, falling back to a default when the
/// text is absent, non-numeric, or out of the 16-bit range.
pub fn parse_port(value: Option<String>, fallback: u16) -> (r: u16)
    ensures
        match value {
            Some(v) => {
                if v@.len() > 0 && all_dec_digits(v@) && dec_val(v@) <= u16::MAX {
                    r as nat == dec_val(v@)
                } else {
                    r == fallback
                }
            },
            None => r == fallback,
        },
{
    match value {
        Some(v) => {
            match parse_u64(v.as_str()) {
                Some(n) => {
                    if n <= u16::MAX as u64 {
                        n as u16
                    } else {
                        fallback
                    }
                },
                None => fallback,
            }
        },
        None => fallback,
    }
}

} // verus!
