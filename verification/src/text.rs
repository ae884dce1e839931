//! Small text utilities shared by the format and protocol modules:
//! character classes, decimal rendering and parsing of integers.

use vstd::prelude::*;

verus! {

/// Relies on `String::push`: appends the given character to the end of the
/// string.
pub assume_specification[ String::push ](s: &mut String, c: char)
    ensures
        final(s)@ == old(s)@.push(c),
;

/// Relies on `char::from_u32`: yields the character with the given code
/// point exactly when the value is a Unicode scalar value (not a
/// surrogate, not beyond the last code point).
pub assume_specification[ char::from_u32 ](u: u32) -> (r: Option<char>)
    ensures
        match r {
            Some(c) => c as u32 == u,
            None => (0xD800 <= u && u <= 0xDFFF) || u > 0x10FFFF,
        },
;

/// Whether `c` is an ASCII letter or digit.
pub open spec fn spec_is_alnum(c: char) -> bool {
    ('a' <= c && c <= 'z') || ('A' <= c && c <= 'Z') || ('0' <= c && c <= '9')
}

/// Exec check for [`spec_is_alnum`].
#[verifier::when_used_as_spec(spec_is_alnum)]
pub fn is_alnum(c: char) -> (r: bool)
    ensures
        r == spec_is_alnum(c),
{
    ('a' <= c && c <= 'z') || ('A' <= c && c <= 'Z') || ('0' <= c && c <= '9')
}

/// Whether `c` is an ASCII decimal digit.
pub open spec fn spec_is_digit(c: char) -> bool {
    '0' <= c && c <= '9'
}

/// Exec check for [`spec_is_digit`].
#[verifier::when_used_as_spec(spec_is_digit)]
pub fn is_digit(c: char) -> (r: bool)
    ensures
        r == spec_is_digit(c),
{
    '0' <= c && c <= '9'
}

/// The numeric value of a digit character.
pub open spec fn digit_val(c: char) -> int {
    c as int - '0' as int
}

/// The digit character for a value below ten.
pub open spec fn digit_char(d: int) -> char
    recommends
        0 <= d < 10,
{
    if d == 0 {
        '0'
    } else if d == 1 {
        '1'
    } else if d == 2 {
        '2'
    } else if d == 3 {
        '3'
    } else if d == 4 {
        '4'
    } else if d == 5 {
        '5'
    } else if d == 6 {
        '6'
    } else if d == 7 {
        '7'
    } else if d == 8 {
        '8'
    } else {
        '9'
    }
}

/// Exec table for [`digit_char`].
pub fn digit_char_of(d: u64) -> (c: char)
    requires
        d < 10,
    ensures
        c == digit_char(d as int),
{
    if d == 0 {
        '0'
    } else if d == 1 {
        '1'
    } else if d == 2 {
        '2'
    } else if d == 3 {
        '3'
    } else if d == 4 {
        '4'
    } else if d == 5 {
        '5'
    } else if d == 6 {
        '6'
    } else if d == 7 {
        '7'
    } else if d == 8 {
        '8'
    } else {
        '9'
    }
}

/// The canonical decimal rendering of `n`, most significant digit first.
pub open spec fn dec_rep(n: nat) -> Seq<char>
    decreases n,
{
    if n < 10 {
        seq![digit_char(n as int)]
    } else {
        dec_rep(n / 10).push(digit_char((n % 10) as int))
    }
}

/// The value of a sequence of digit characters, most significant first.
pub open spec fn digits_val(s: Seq<char>) -> int
    decreases s.len(),
{
    if s.len() == 0 {
        0
    } else {
        digits_val(s.drop_last()) * 10 + digit_val(s.last())
    }
}

/// Whether every character of `s` is a decimal digit.
pub open spec fn all_digits(s: Seq<char>) -> bool {
    forall|i: int| 0 <= i < s.len() ==> spec_is_digit(#[trigger] s[i])
}

/// Every canonical decimal rendering consists of digits and reads back as
/// the number it renders.
pub proof fn lemma_dec_rep_val(n: nat)
    ensures
        all_digits(dec_rep(n)),
        dec_rep(n).len() >= 1,
        digits_val(dec_rep(n)) == n,
    decreases n,
{
    if n < 10 {
        let s = dec_rep(n);
        assert(s.drop_last() =~= Seq::<char>::empty());
        assert(s.last() == digit_char(n as int));
        assert(digits_val(s.drop_last()) == 0);
        assert(digits_val(s) == digits_val(s.drop_last()) * 10 + digit_val(s.last()));
        assert(digit_val(digit_char(n as int)) == n);
    } else {
        lemma_dec_rep_val(n / 10);
        let p = dec_rep(n / 10);
        let s = dec_rep(n);
        assert(s.drop_last() =~= p);
        assert(digit_val(digit_char((n % 10) as int)) == n % 10);
        assert(digits_val(s) == digits_val(p) * 10 + n % 10);
        assert(n / 10 * 10 + n % 10 == n) by (nonlinear_arith);
        assert(forall|i: int| 0 <= i < s.len() ==> spec_is_digit(#[trigger] s[i])) by {
            assert(forall|i: int| 0 <= i < p.len() ==> spec_is_digit(#[trigger] p[i]));
            assert(s[s.len() - 1] == digit_char((n % 10) as int));
        }
    }
}

/// The lowercase hex digit character for a value below sixteen.
pub open spec fn hex_char(d: int) -> char
    recommends
        0 <= d < 16,
{
    if d < 10 {
        digit_char(d)
    } else if d == 10 {
        'a'
    } else if d == 11 {
        'b'
    } else if d == 12 {
        'c'
    } else if d == 13 {
        'd'
    } else if d == 14 {
        'e'
    } else {
        'f'
    }
}

/// The value of a hex digit character, upper or lower case, or -1.
pub open spec fn hex_val(c: char) -> int {
    if '0' <= c && c <= '9' {
        c as int - '0' as int
    } else if 'a' <= c && c <= 'f' {
        c as int - 'a' as int + 10
    } else if 'A' <= c && c <= 'F' {
        c as int - 'A' as int + 10
    } else {
        -1
    }
}

/// Exec table for [`hex_char`].
pub fn hex_char_of(d: u32) -> (c: char)
    requires
        d < 16,
    ensures
        c == hex_char(d as int),
{
    if d < 10 {
        digit_char_of(d as u64)
    } else if d == 10 {
        'a'
    } else if d == 11 {
        'b'
    } else if d == 12 {
        'c'
    } else if d == 13 {
        'd'
    } else if d == 14 {
        'e'
    } else {
        'f'
    }
}

/// Exec evaluation of [`hex_val`].
pub fn hex_val_of(c: char) -> (r: i32)
    ensures
        r == hex_val(c),
        -1 <= r < 16,
{
    if '0' <= c && c <= '9' {
        (c as u32 - '0' as u32) as i32
    } else if 'a' <= c && c <= 'f' {
        (c as u32 - 'a' as u32) as i32 + 10
    } else if 'A' <= c && c <= 'F' {
        (c as u32 - 'A' as u32) as i32 + 10
    } else {
        -1i32
    }
}

/// Hex digits read back as the value they render, and are printable.
pub proof fn lemma_hex_char(d: int)
    requires
        0 <= d < 16,
    ensures
        hex_val(hex_char(d)) == d,
        hex_char(d) as int >= 32,
        hex_char(d) != '"' && hex_char(d) != '\\',
{
}

/// Append the decimal rendering of `n` to `out`.
pub fn push_decimal(out: &mut String, n: u64)
    ensures
        final(out)@ == old(out)@ + dec_rep(n as nat),
{
    let mut digits: Vec<char> = Vec::new();
    let mut m: u64 = n;
    loop
        invariant_except_break
            dec_rep(n as nat) =~= dec_rep(m as nat) + digits@.reverse(),
        ensures
            dec_rep(n as nat) =~= digits@.reverse(),
        decreases m,
    {
        let ghost pre = digits@;
        let d: u64 = m % 10;
        let c: char = digit_char_of(d);
        digits.push(c);
        proof {
            assert(digits@.reverse() =~= seq![digit_char(d as int)] + pre.reverse());
        }
        if m < 10 {
            proof {
                assert(dec_rep(m as nat) =~= seq![digit_char(m as int)]);
                assert(dec_rep(m as nat) + pre.reverse() =~= digits@.reverse());
            }
            break;
        }
        proof {
            assert(dec_rep(m as nat) =~= dec_rep((m / 10) as nat).push(
                digit_char((m % 10) as int),
            ));
            assert(dec_rep((m / 10) as nat) + digits@.reverse() =~= dec_rep(m as nat)
                + pre.reverse());
        }
        m = m / 10;
    }
    let ghost rendered = dec_rep(n as nat);
    let mut i: usize = digits.len();
    while i > 0
        invariant
            i <= digits@.len(),
            rendered == digits@.reverse(),
            out@ == old(out)@ + rendered.take(rendered.len() as int - i as int),
        decreases i,
    {
        i = i - 1;
        let c = digits[i];
        proof {
            let k = rendered.len() as int - i - 1;
            assert(rendered[k] == digits@[i as int]);
            assert(rendered.take(k + 1) =~= rendered.take(k).push(digits@[i as int]));
        }
        out.push(c);
    }
    assert(rendered.take(rendered.len() as int) =~= rendered);
}

} // verus!
