//! Numbers as text: whole numbers, ratios with three decimals, and colours
//! as hexadecimal.

use vstd::prelude::*;

verus! {

/// `String::push` of std appends one character to the string. Trusted: the
/// string afterwards is the string before with `c` at its end.
pub assume_specification[ String::push ](s: &mut String, c: char)
    ensures
        final(s)@ == old(s)@.push(c),
;

/// The character for the decimal digit `d`.
pub open spec fn digit(d: int) -> char {
    ((48 + d) as u8) as char
}

/// Whether `c` is a decimal digit.
pub open spec fn is_digit(c: char) -> bool {
    '0' <= c <= '9'
}

/// The character for the hexadecimal digit `d`, in lower case.
pub open spec fn hex_digit(d: int) -> char {
    if d < 10 {
        ((48 + d) as u8) as char
    } else {
        ((87 + d) as u8) as char
    }
}

/// Whether `c` is a hexadecimal digit in lower case.
pub open spec fn is_hex_digit(c: char) -> bool {
    '0' <= c <= '9' || 'a' <= c <= 'f'
}

/// The whole number `n` in decimal, without leading zeros.
pub open spec fn decimal_text(n: nat) -> Seq<char>
    decreases n,
{
    if n < 10 {
        seq![digit(n as int)]
    } else {
        decimal_text(n / 10).push(digit((n % 10) as int))
    }
}

/// The three decimal digits of `m`, a number below 1000.
pub open spec fn three_digits(m: int) -> Seq<char> {
    seq![digit(m / 100), digit(m / 10 % 10), digit(m % 10)]
}

/// `num / den` in thousandths, rounded to the nearest whole number and, of
/// two that are equally near, to the even one; for `num` from 0 on and a
/// positive `den`.
pub open spec fn thousandths(num: int, den: int) -> int {
    let n = num * 1000;
    let q = n / den;
    let r = n % den;
    if 2 * r > den || (2 * r == den && q % 2 == 1) {
        q + 1
    } else {
        q
    }
}

/// The ratio `num / den`, for a positive `den`, as text with exactly three
/// decimals: a minus sign where the ratio is negative, the whole part, a
/// point, and three digits.
pub open spec fn ratio_text(num: int, den: int) -> Seq<char> {
    let m = thousandths(
        if num < 0 {
            -num
        } else {
            num
        },
        den,
    );
    let sign = if num < 0 {
        seq!['-']
    } else {
        Seq::<char>::empty()
    };
    sign + decimal_text((m / 1000) as nat) + seq!['.'] + three_digits(m % 1000)
}

/// A colour as `#rrggbb`.
pub open spec fn hex_text(r: u8, g: u8, b: u8) -> Seq<char> {
    seq![
        '#',
        hex_digit(r as int / 16),
        hex_digit(r as int % 16),
        hex_digit(g as int / 16),
        hex_digit(g as int % 16),
        hex_digit(b as int / 16),
        hex_digit(b as int % 16),
    ]
}

/// The decimal text of a number has at least one character, and digits
/// only.
pub proof fn lemma_decimal_text_is_digits(n: nat)
    ensures
        decimal_text(n).len() >= 1,
        forall|i: int| 0 <= i < decimal_text(n).len() ==> is_digit(#[trigger] decimal_text(n)[i]),
        n < 10 ==> decimal_text(n).len() == 1,
    decreases n,
{
    if n >= 10 {
        lemma_decimal_text_is_digits(n / 10);
    }
}

/// Rounding to thousandths gives a number from 0 on, and at most 1000
/// where the ratio is at most 1.
pub proof fn lemma_thousandths_range(num: int, den: int)
    requires
        0 <= num,
        0 < den,
    ensures
        0 <= thousandths(num, den),
        num <= den ==> thousandths(num, den) <= 1000,
{
    let n = num * 1000;
    vstd::arithmetic::div_mod::lemma_fundamental_div_mod(n, den);
    vstd::arithmetic::div_mod::lemma_mod_bound(n, den);
    vstd::arithmetic::div_mod::lemma_div_pos_is_pos(n, den);
    if num <= den {
        let q = n / den;
        let r = n % den;
        assert(den * q <= den * 1000) by (nonlinear_arith)
            requires
                n == den * q + r,
                0 <= r,
                n == num * 1000,
                num <= den,
        ;
        assert(q <= 1000) by (nonlinear_arith)
            requires
                den * q <= den * 1000,
                0 < den,
        ;
        if q == 1000 {
            assert(r == 0) by (nonlinear_arith)
                requires
                    n == den * q + r,
                    q == 1000,
                    0 <= r,
                    n == num * 1000,
                    num <= den,
            ;
        }
    }
}

/// The text of a ratio ends in a point and exactly three digits; before the
/// point stand digits only, at least one, after a minus sign where the
/// ratio is negative.
pub proof fn lemma_ratio_text_shape(num: int, den: int)
    requires
        0 < den,
    ensures
        ({
            let t = ratio_text(num, den);
            let lead: int = if num < 0 {
                1
            } else {
                0
            };
            &&& t.len() >= lead + 5
            &&& t[t.len() - 4] == '.'
            &&& is_digit(t[t.len() - 3]) && is_digit(t[t.len() - 2]) && is_digit(t[t.len() - 1])
            &&& forall|i: int| lead <= i < t.len() - 4 ==> is_digit(#[trigger] t[i])
            &&& num < 0 ==> t[0] == '-'
        }),
{
    let magnitude = if num < 0 {
        -num
    } else {
        num
    };
    let m = thousandths(magnitude, den);
    lemma_thousandths_range(magnitude, den);
    lemma_decimal_text_is_digits((m / 1000) as nat);
}

/// `digit` in executable form.
fn digit_char(d: u8) -> (c: char)
    requires
        d < 10,
    ensures
        c == digit(d as int),
{
    (48 + d) as char
}

/// `hex_digit` in executable form.
fn hex_digit_char(d: u8) -> (c: char)
    requires
        d < 16,
    ensures
        c == hex_digit(d as int),
{
    if d < 10 {
        (48 + d) as char
    } else {
        (87 + d) as char
    }
}

/// Appends `n` in decimal to `s`.
pub fn push_decimal(s: &mut String, n: u128)
    ensures
        final(s)@ == old(s)@ + decimal_text(n as nat),
    decreases n,
{
    if n >= 10 {
        push_decimal(s, n / 10);
    }
    s.push(digit_char((n % 10) as u8));
    assert(s@ =~= old(s)@ + decimal_text(n as nat));
}

/// `n` in decimal.
pub fn format_decimal(n: u128) -> (s: String)
    ensures
        s@ == decimal_text(n as nat),
{
    let mut s = String::new();
    push_decimal(&mut s, n);
    assert(s@ =~= decimal_text(n as nat));
    s
}

/// Appends the ratio `num / den`, with three decimals, to `s`.
pub fn push_ratio(s: &mut String, num: i128, den: i128)
    requires
        0 < den,
        -0x1_0000_0000_0000_0000_0000_0000 <= num <= 0x1_0000_0000_0000_0000_0000_0000,
    ensures
        final(s)@ == old(s)@ + ratio_text(num as int, den as int),
{
    let magnitude: i128 = if num < 0 {
        -num
    } else {
        num
    };
    let n: i128 = magnitude * 1000;
    let q: i128 = n / den;
    let r: i128 = n % den;
    proof {
        vstd::arithmetic::div_mod::lemma_fundamental_div_mod(n as int, den as int);
        vstd::arithmetic::div_mod::lemma_mod_bound(n as int, den as int);
        vstd::arithmetic::div_mod::lemma_div_pos_is_pos(n as int, den as int);
        vstd::arithmetic::div_mod::lemma_div_is_ordered_by_denominator(n as int, 1, den as int);
    }
    let up: bool = r > den - r || (r == den - r && q % 2 == 1);
    let m: i128 = if up {
        q + 1
    } else {
        q
    };
    assert(m == thousandths(magnitude as int, den as int));
    if num < 0 {
        s.push('-');
    }
    push_decimal(s, (m / 1000) as u128);
    s.push('.');
    let low: u32 = (m % 1000) as u32;
    s.push(digit_char((low / 100) as u8));
    s.push(digit_char((low / 10 % 10) as u8));
    s.push(digit_char((low % 10) as u8));
    assert(s@ =~= old(s)@ + ratio_text(num as int, den as int));
}

/// The ratio `num / den` with three decimals.
pub fn format_ratio(num: i128, den: i128) -> (s: String)
    requires
        0 < den,
        -0x1_0000_0000_0000_0000_0000_0000 <= num <= 0x1_0000_0000_0000_0000_0000_0000,
    ensures
        s@ == ratio_text(num as int, den as int),
{
    let mut s = String::new();
    push_ratio(&mut s, num, den);
    assert(s@ =~= ratio_text(num as int, den as int));
    s
}

/// The colour (`r`, `g`, `b`) as `#rrggbb`.
pub fn format_hex(r: u8, g: u8, b: u8) -> (s: String)
    ensures
        s@ == hex_text(r, g, b),
{
    let mut s = String::new();
    s.push('#');
    s.push(hex_digit_char(r / 16));
    s.push(hex_digit_char(r % 16));
    s.push(hex_digit_char(g / 16));
    s.push(hex_digit_char(g % 16));
    s.push(hex_digit_char(b / 16));
    s.push(hex_digit_char(b % 16));
    assert(s@ =~= hex_text(r, g, b));
    s
}

} // verus!
