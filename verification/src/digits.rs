//! Numbers as text: decimal and hexadecimal digits, and sizes in binary units.

use vstd::prelude::*;
use crate::text::chars_of;

verus! {

broadcast use vstd::seq_lib::group_seq_properties;

/// The digit for `d`, with letters from ten up.
pub open spec fn digit(d: int, upper: bool) -> char {
    if d < 10 {
        (48 + d) as char
    } else if upper {
        (55 + d) as char
    } else {
        (87 + d) as char
    }
}

/// The digits of `n` in `radix`, without leading zeros; `0` for zero.
pub open spec fn digits(n: nat, radix: nat, upper: bool) -> Seq<char>
    decreases n,
    via digits_shrink
{
    if radix < 2 || n < radix {
        seq![digit(n as int, upper)]
    } else {
        digits(n / radix, radix, upper).push(digit((n % radix) as int, upper))
    }
}

#[via_fn]
proof fn digits_shrink(n: nat, radix: nat, upper: bool) {
    assert(radix >= 2 && n >= radix ==> n / radix < n) by (nonlinear_arith);
}

/// `n` in decimal.
pub open spec fn dec(n: nat) -> Seq<char> {
    digits(n, 10, false)
}

/// `i` in decimal, with a minus sign below zero.
pub open spec fn dec_int(i: int) -> Seq<char> {
    if i < 0 {
        seq!['-'] + dec((-i) as nat)
    } else {
        dec(i as nat)
    }
}

/// `n` zeros.
pub open spec fn zeros(n: nat) -> Seq<char> {
    Seq::new(n, |i: int| '0')
}

/// `n` in hexadecimal with at least `width` digits.
pub open spec fn hex_pad(n: nat, width: nat, upper: bool) -> Seq<char> {
    let d = digits(n, 16, upper);
    zeros((if d.len() < width { width - d.len() } else { 0 }) as nat) + d
}

/// The value of a digit in `radix`, in either letter case.
pub open spec fn digit_value(c: char, radix: nat) -> Option<nat> {
    let u = c as u32;
    let v: int = if 48 <= u <= 57 {
        u - 48
    } else if 97 <= u <= 122 {
        u - 87
    } else if 65 <= u <= 90 {
        u - 55
    } else {
        99
    };
    if v < radix {
        Some(v as nat)
    } else {
        None
    }
}

/// The number that a run of digits writes in `radix`; `None` where some character is no digit.
pub open spec fn digits_value(s: Seq<char>, radix: nat) -> Option<nat>
    decreases s.len(),
{
    if s.len() == 0 {
        Some(0)
    } else {
        match (digits_value(s.drop_last(), radix), digit_value(s.last(), radix)) {
            (Some(h), Some(d)) => Some(h * radix + d),
            _ => None,
        }
    }
}

/// What an unsigned number of at most `max` is read from: digits, after one `+` at most.
pub open spec fn parsed(s: Seq<char>, radix: nat, max: nat) -> Option<nat> {
    let t = if s.len() > 0 && s[0] == '+' {
        s.drop_first()
    } else {
        s
    };
    if t.len() == 0 {
        None
    } else {
        match digits_value(t, radix) {
            Some(v) => if v <= max {
                Some(v)
            } else {
                None
            },
            None => None,
        }
    }
}

/// What an unsigned number of at most `max` is read from where no sign may stand: digits alone.
pub open spec fn bare_parsed(s: Seq<char>, radix: nat, max: nat) -> Option<nat> {
    if s.len() > 0 && s[0] == '+' {
        None
    } else {
        parsed(s, radix, max)
    }
}

fn digit_char(d: u8, upper: bool) -> (c: char)
    requires
        d < 16,
    ensures
        c == digit(d as int, upper),
{
    if d < 10 {
        (48 + d) as char
    } else if upper {
        (55 + d) as char
    } else {
        (87 + d) as char
    }
}

/// Appends `n` in `radix`.
pub fn push_digits(s: &mut String, n: u64, radix: u64, upper: bool)
    requires
        2 <= radix <= 16,
    ensures
        final(s)@ == old(s)@ + digits(n as nat, radix as nat, upper),
    decreases n,
{
    if n >= radix {
        assert(n / radix < n) by (nonlinear_arith)
            requires
                n >= radix,
                radix >= 2,
        ;
        push_digits(s, n / radix, radix, upper);
    }
    assert(n % radix < radix);
    let d: u8 = (n % radix) as u8;
    s.push(digit_char(d, upper));
    assert(n < radix ==> n % radix == n) by (nonlinear_arith)
        requires
            radix >= 2,
            n >= 0,
    ;
    assert(s@ =~= old(s)@ + digits(n as nat, radix as nat, upper));
}

/// `n` in decimal.
pub fn dec_text(n: u64) -> (r: String)
    ensures
        r@ == dec(n as nat),
{
    let mut s = String::new();
    push_digits(&mut s, n, 10, false);
    s
}

/// `n` in decimal.
pub fn dec_usize(n: usize) -> (r: String)
    ensures
        r@ == dec(n as nat),
{
    dec_text(n as u64)
}

/// `i` in decimal, with a minus sign below zero.
pub fn dec_i64(i: i64) -> (r: String)
    ensures
        r@ == dec_int(i as int),
{
    if i < 0 {
        let m: u64 = if i == i64::MIN {
            0x8000_0000_0000_0000
        } else {
            (-i) as u64
        };
        let mut s = String::new();
        s.push('-');
        push_digits(&mut s, m, 10, false);
        assert(Seq::<char>::empty().push('-') =~= seq!['-']);
        s
    } else {
        dec_text(i as u64)
    }
}

/// Appends `n` in hexadecimal with at least `width` digits.
pub fn push_hex(s: &mut String, n: u64, width: usize, upper: bool)
    ensures
        final(s)@ == old(s)@ + hex_pad(n as nat, width as nat, upper),
{
    let mut d = String::new();
    push_digits(&mut d, n, 16, upper);
    let dv = chars_of(d.as_str());
    let mut k: usize = dv.len();
    let ghost s0 = s@;
    assert(zeros(0) =~= Seq::<char>::empty());
    while k < width
        invariant
            dv.len() <= k,
            k <= width || k == dv.len(),
            s@ == s0 + zeros((k - dv.len()) as nat),
        decreases width - k,
    {
        s.push('0');
        k = k + 1;
        assert(s@ =~= s0 + zeros((k - dv.len()) as nat));
    }
    s.push_str(d.as_str());
    assert(s@ =~= s0 + hex_pad(n as nat, width as nat, upper));
}

fn digit_of(c: char, radix: u64) -> (r: Option<u64>)
    requires
        2 <= radix <= 36,
    ensures
        match r {
            Some(d) => digit_value(c, radix as nat) == Some(d as nat) && d < radix,
            None => digit_value(c, radix as nat) is None,
        },
{
    let u: u32 = c as u32;
    let v: u64 = if 48 <= u && u <= 57 {
        (u - 48) as u64
    } else if 97 <= u && u <= 122 {
        (u - 87) as u64
    } else if 65 <= u && u <= 90 {
        (u - 55) as u64
    } else {
        99
    };
    if v < radix {
        Some(v)
    } else {
        None
    }
}

/// A prefix's value bounds the value of the whole from below; a prefix that is
/// no number makes the whole no number.
proof fn lemma_digits_value_prefix(s: Seq<char>, i: int, radix: nat)
    requires
        0 <= i <= s.len(),
        radix >= 1,
    ensures
        match digits_value(s, radix) {
            Some(v) => digits_value(s.take(i), radix) matches Some(h) && h <= v,
            None => true,
        },
    decreases s.len(),
{
    if i == s.len() {
        assert(s.take(i) =~= s);
    } else {
        lemma_digits_value_prefix(s.drop_last(), i, radix);
        assert(s.drop_last().take(i) =~= s.take(i));
        if let Some(h) = digits_value(s.drop_last(), radix) {
            assert(h <= h * radix) by (nonlinear_arith)
                requires
                    radix >= 1,
            ;
        }
    }
}

fn digits_from(v: &Vec<char>, start: usize, radix: u64, max: u64) -> (r: Option<u64>)
    requires
        2 <= radix <= 36,
        start <= v.len(),
    ensures
        match r {
            Some(n) => digits_value(v@.skip(start as int), radix as nat) == Some(n as nat) && n
                <= max,
            None => match digits_value(v@.skip(start as int), radix as nat) {
                Some(m) => m > max,
                None => true,
            },
        },
{
    let ghost s = v@.skip(start as int);
    let mut acc: u64 = 0;
    let mut i: usize = start;
    assert(s.take(0) =~= Seq::empty());
    while i < v.len()
        invariant
            2 <= radix <= 36,
            start <= i <= v.len(),
            s == v@.skip(start as int),
            digits_value(s.take(i - start), radix as nat) == Some(acc as nat),
            acc <= max,
        decreases v.len() - i,
    {
        let ghost k = i - start;
        assert(s.take(k + 1).drop_last() =~= s.take(k));
        assert(s.take(k + 1).last() == v@[i as int]);
        proof {
            lemma_digits_value_prefix(s, k + 1, radix as nat);
        }
        match digit_of(v[i], radix) {
            None => {
                return None;
            },
            Some(d) => {
                assert(0 <= acc * radix <= 0xffff_ffff_ffff_ffff * 36) by (nonlinear_arith)
                    requires
                        0 <= acc <= 0xffff_ffff_ffff_ffff,
                        0 <= radix <= 36,
                ;
                let wide: u128 = acc as u128 * radix as u128 + d as u128;
                assert(digits_value(s.take(k + 1), radix as nat) == Some(wide as nat));
                if wide > max as u128 {
                    return None;
                }
                acc = wide as u64;
            },
        }
        i = i + 1;
    }
    assert(s.take(v.len() - start) =~= s);
    Some(acc)
}

/// Reads an unsigned number of at most `max` from digits alone.
pub fn parse_bare(s: &str, radix: u64, max: u64) -> (r: Option<u64>)
    requires
        2 <= radix <= 36,
    ensures
        match r {
            Some(n) => bare_parsed(s@, radix as nat, max as nat) == Some(n as nat),
            None => bare_parsed(s@, radix as nat, max as nat) is None,
        },
{
    let v = chars_of(s);
    if v.len() > 0 && v[0] == '+' {
        None
    } else {
        parse_unsigned(s, radix, max)
    }
}

/// Reads an unsigned number of at most `max`, as the `from_str_radix` of the
/// unsigned integers does.
pub fn parse_unsigned(s: &str, radix: u64, max: u64) -> (r: Option<u64>)
    requires
        2 <= radix <= 36,
    ensures
        match r {
            Some(n) => parsed(s@, radix as nat, max as nat) == Some(n as nat),
            None => parsed(s@, radix as nat, max as nat) is None,
        },
{
    let v = chars_of(s);
    let start: usize = if v.len() > 0 && v[0] == '+' {
        1
    } else {
        0
    };
    assert(start == 0 ==> v@.skip(0) =~= v@);
    assert(start == 1 ==> v@.skip(1) =~= v@.drop_first());
    if start >= v.len() {
        return None;
    }
    digits_from(&v, start, radix, max)
}

/// The decimal and hexadecimal digits of a number read back as that number.
pub proof fn law_digits_read_back(n: nat, radix: nat, upper: bool)
    requires
        2 <= radix <= 16,
    ensures
        digits_value(digits(n, radix, upper), radix) == Some(n),
        digits(n, radix, upper).len() >= 1,
    decreases n,
{
    if n < radix {
        let s = digits(n, radix, upper);
        assert(s.drop_last() =~= Seq::empty());
        assert(digits_value(s.drop_last(), radix) == Some(0nat));
        assert(0 * radix + n == n);
        assert(digit_value(s.last(), radix) == Some(n));
    } else {
        assert(n / radix < n) by (nonlinear_arith)
            requires
                n >= radix,
                radix >= 2,
        ;
        law_digits_read_back(n / radix, radix, upper);
        let s = digits(n, radix, upper);
        assert(s.drop_last() =~= digits(n / radix, radix, upper));
        assert(n % radix < radix) by (nonlinear_arith)
            requires
                radix >= 2,
        ;
        assert(digit_value(s.last(), radix) == Some(n % radix));
        assert((n / radix) * radix + n % radix == n) by (nonlinear_arith)
            requires
                radix >= 2,
        ;
    }
}

proof fn lemma_first_digit_no_sign(n: nat, radix: nat, upper: bool)
    requires
        2 <= radix <= 16,
    ensures
        digits(n, radix, upper).len() >= 1,
        digits(n, radix, upper)[0] != '+',
    decreases n,
{
    if n >= radix {
        assert(n / radix < n) by (nonlinear_arith)
            requires
                n >= radix,
                radix >= 2,
        ;
        lemma_first_digit_no_sign(n / radix, radix, upper);
    }
}

/// A number that is printed and read again comes back.
pub proof fn law_print_parse(n: nat, radix: nat, upper: bool, max: nat)
    requires
        2 <= radix <= 16,
        n <= max,
    ensures
        parsed(digits(n, radix, upper), radix, max) == Some(n),
{
    law_digits_read_back(n, radix, upper);
    lemma_first_digit_no_sign(n, radix, upper);
}

proof fn lemma_all_digits(s: Seq<char>, radix: nat, i: int)
    requires
        digits_value(s, radix) is Some,
        0 <= i < s.len(),
    ensures
        digit_value(s[i], radix) is Some,
    decreases s.len(),
{
    if i < s.len() - 1 {
        lemma_all_digits(s.drop_last(), radix, i);
    }
}

proof fn lemma_leading_zeros(k: nat, s: Seq<char>, radix: nat)
    requires
        radix >= 1,
    ensures
        digits_value(zeros(k) + s, radix) == digits_value(s, radix),
    decreases k + s.len(),
{
    let t = zeros(k) + s;
    if s.len() > 0 {
        assert(t.drop_last() =~= zeros(k) + s.drop_last());
        lemma_leading_zeros(k, s.drop_last(), radix);
    } else if k > 0 {
        assert(t.drop_last() =~= zeros((k - 1) as nat) + s);
        lemma_leading_zeros((k - 1) as nat, s, radix);
        assert(t.last() == '0');
        assert(0 * radix + 0 == 0) by (nonlinear_arith);
    } else {
        assert(t =~= s);
    }
}

/// What is printed in hexadecimal with leading zeros reads back, and holds
/// nothing but digits.
pub proof fn law_padded_hex_reads_back(n: nat, width: nat, upper: bool, max: nat)
    requires
        n <= max,
    ensures
        parsed(hex_pad(n, width, upper), 16, max) == Some(n),
        hex_pad(n, width, upper).len() >= width,
        hex_pad(n, width, upper).len() >= 1,
        forall|i: int|
            0 <= i < hex_pad(n, width, upper).len() ==> digit_value(
                #[trigger] hex_pad(n, width, upper)[i],
                16,
            ) is Some,
{
    let s = hex_pad(n, width, upper);
    let d = digits(n, 16, upper);
    law_digits_read_back(n, 16, upper);
    lemma_leading_zeros((s.len() - d.len()) as nat, d, 16);
    assert(digits_value(s, 16) == Some(n));
    assert forall|i: int| 0 <= i < s.len() implies digit_value(#[trigger] s[i], 16) is Some by {
        lemma_all_digits(s, 16, i);
    }
    assert(digit_value(s[0], 16) is Some);
    assert(digit_value('+', 16) is None);
}

} // verus!
