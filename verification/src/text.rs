//! Characters and numbers in log tokens.

use vstd::prelude::*;
use vstd::string::*;

verus! {

/// The value of `c` as a digit: decimal, or hexadecimal (either case) when `hex`.
pub open spec fn digit_value(c: char, hex: bool) -> Option<nat> {
    if '0' <= c <= '9' {
        Some((c as int - '0' as int) as nat)
    } else if hex && 'a' <= c <= 'f' {
        Some((c as int - 'a' as int + 10) as nat)
    } else if hex && 'A' <= c <= 'F' {
        Some((c as int - 'A' as int + 10) as nat)
    } else {
        None
    }
}

/// 10 or 16.
pub open spec fn radix(hex: bool) -> nat {
    if hex { 16 } else { 10 }
}

/// How many digits stand in a row in `s` from `pos` on.
pub open spec fn digit_run(s: Seq<char>, pos: int, hex: bool) -> nat
    decreases s.len() - pos,
{
    if 0 <= pos < s.len() && digit_value(s[pos], hex) is Some {
        1 + digit_run(s, pos + 1, hex)
    } else {
        0
    }
}

/// The number that the digits of `s` write, most significant first. A
/// character that is no digit counts as zero.
pub open spec fn number_value(s: Seq<char>, hex: bool) -> nat
    decreases s.len(),
{
    if s.len() == 0 {
        0
    } else {
        let d = match digit_value(s.last(), hex) {
            Some(d) => d,
            None => 0,
        };
        number_value(s.drop_last(), hex) * radix(hex) + d
    }
}

/// The number that starts at `pos`: the whole run of digits there, if it has
/// between one and `max_digits` digits and writes a value of at most `max`.
/// The second component is the position behind the run.
pub open spec fn number_at(s: Seq<char>, pos: int, hex: bool, max_digits: nat, max: nat) -> Option<(nat, int)> {
    let n = digit_run(s, pos, hex);
    let v = number_value(s.subrange(pos, pos + n), hex);
    if n == 0 || n > max_digits || v > max {
        None
    } else {
        Some((v, pos + n))
    }
}

/// What parsing `s` as an unsigned decimal integer of at most `max` gives: an
/// optional `+`, then one or more ASCII digits and nothing else.
pub open spec fn parse_unsigned_spec(s: Seq<char>, max: nat) -> Option<nat> {
    let start: int = if s.len() > 0 && s[0] == '+' { 1 } else { 0 };
    match number_at(s, start, false, s.len(), max) {
        Some((v, end)) => if end == s.len() { Some(v) } else { None },
        None => None,
    }
}

/// The character that writes the digit `d`.
pub open spec fn digit_char(d: nat) -> char {
    ('0' as int + d) as char
}

/// `n` in decimal digits, without a sign or leading zeros.
pub open spec fn decimal_text(n: nat) -> Seq<char>
    decreases n,
{
    if n < 10 {
        seq![digit_char(n)]
    } else {
        decimal_text(n / 10).push(digit_char(n % 10))
    }
}

/// Whether every character of `s` is a decimal digit.
pub open spec fn all_decimal(s: Seq<char>) -> bool {
    forall|i: int| 0 <= i < s.len() ==> digit_value(#[trigger] s[i], false) is Some
}

/// A run of digits ends within `s`.
pub proof fn lemma_digit_run_bound(s: Seq<char>, pos: int, hex: bool)
    requires
        0 <= pos <= s.len(),
    ensures
        pos + digit_run(s, pos, hex) <= s.len(),
    decreases s.len() - pos,
{
    if pos < s.len() && digit_value(s[pos], hex) is Some {
        lemma_digit_run_bound(s, pos + 1, hex);
    }
}

/// A longer prefix of a run writes no smaller number.
pub proof fn lemma_number_value_grows(s: Seq<char>, pos: int, a: int, b: int, hex: bool)
    requires
        0 <= pos,
        0 <= a <= b,
        pos + b <= s.len(),
    ensures
        number_value(s.subrange(pos, pos + a), hex) <= number_value(s.subrange(pos, pos + b), hex),
    decreases b - a,
{
    if a < b {
        lemma_number_value_grows(s, pos, a, b - 1, hex);
        assert(s.subrange(pos, pos + b).drop_last() =~= s.subrange(pos, pos + b - 1));
        let shorter = number_value(s.subrange(pos, pos + b - 1), hex);
        assert(shorter * radix(hex) >= shorter) by (nonlinear_arith)
            requires
                radix(hex) >= 1,
                shorter >= 0,
        ;
    }
}

/// A run of digits that reaches the end of `s` has all the characters from `pos` on.
pub proof fn lemma_digit_run_to_end(s: Seq<char>, pos: int)
    requires
        0 <= pos <= s.len(),
        forall|i: int| pos <= i < s.len() ==> digit_value(#[trigger] s[i], false) is Some,
    ensures
        digit_run(s, pos, false) == s.len() - pos,
    decreases s.len() - pos,
{
    if pos < s.len() {
        lemma_digit_run_to_end(s, pos + 1);
    }
}

/// The decimal text of `n` is one or more digits that write `n`.
pub proof fn lemma_decimal_text_writes(n: nat)
    ensures
        decimal_text(n).len() >= 1,
        all_decimal(decimal_text(n)),
        number_value(decimal_text(n), false) == n,
    decreases n,
{
    let t = decimal_text(n);
    if n < 10 {
        assert(t.len() == 1);
        assert(t[0] == digit_char(n));
        assert(t.drop_last() =~= Seq::<char>::empty());
        assert(number_value(t.drop_last(), false) == 0);
    } else {
        lemma_decimal_text_writes(n / 10);
        let shorter = decimal_text(n / 10);
        assert(t.drop_last() =~= shorter);
        assert(t.last() == digit_char(n % 10));
        assert forall|i: int| 0 <= i < t.len() implies digit_value(#[trigger] t[i], false) is Some by {
            if i < shorter.len() {
                assert(t[i] == shorter[i]);
            }
        }
    }
}

/// A number written in decimal is read back as itself.
pub proof fn lemma_decimal_text_parses_back(n: nat, max: nat)
    requires
        n <= max,
    ensures
        parse_unsigned_spec(decimal_text(n), max) == Some(n),
{
    let t = decimal_text(n);
    lemma_decimal_text_writes(n);
    lemma_digit_run_to_end(t, 0);
    assert(t.subrange(0, t.len() as int) =~= t);
    assert(digit_value(t[0], false) is Some);
}

/// A run of digits is as long as the digits that stand before a character
/// that is none, or before the end.
pub proof fn lemma_digit_run_exact(s: Seq<char>, pos: int, len: int, hex: bool)
    requires
        0 <= pos,
        0 <= len,
        pos + len <= s.len(),
        forall|i: int| pos <= i < pos + len ==> digit_value(#[trigger] s[i], hex) is Some,
        pos + len == s.len() || digit_value(s[pos + len], hex) is None,
    ensures
        digit_run(s, pos, hex) == len,
    decreases len,
{
    if len > 0 {
        lemma_digit_run_exact(s, pos + 1, len - 1, hex);
    }
}

/// The decimal text of a number under 1000 has at most three digits, and a
/// number above zero does not begin with a zero.
pub proof fn lemma_decimal_text_shape(n: nat)
    ensures
        n < 1000 ==> decimal_text(n).len() <= 3,
        n >= 1 ==> decimal_text(n).len() >= 1 && decimal_text(n)[0] != '0',
        n == 0 ==> decimal_text(n).len() == 1,
    decreases n,
{
    if n >= 10 {
        lemma_decimal_text_shape(n / 10);
        let shorter = decimal_text(n / 10);
        assert(decimal_text(n)[0] == shorter[0]);
        if n < 1000 {
            if n / 10 >= 10 {
                lemma_decimal_text_shape(n / 10 / 10);
                assert(decimal_text(n / 10 / 10).len() == 1);
            }
        }
    }
}

/// The characters of `s`, in order.
pub fn chars_of(s: &str) -> (chars: Vec<char>)
    ensures
        chars@ == s@,
{
    let ascii = s.is_ascii();
    let n: usize = s.unicode_len();
    let mut chars: Vec<char> = Vec::new();
    let mut i: usize = 0;
    while i < n
        invariant
            n == s@.len(),
            i <= n,
            ascii == is_ascii(s),
            chars@ == s@.subrange(0, i as int),
        decreases n - i,
    {
        let c = if ascii {
            s.get_ascii(i) as char
        } else {
            s.get_char(i)
        };
        chars.push(c);
        i += 1;
        assert(chars@ =~= s@.subrange(0, i as int));
    }
    assert(s@.subrange(0, n as int) =~= s@);
    chars
}

/// The digit that `c` writes, if any.
pub fn digit_of(c: char, hex: bool) -> (d: Option<u8>)
    ensures
        match d {
            Some(v) => digit_value(c, hex) == Some(v as nat),
            None => digit_value(c, hex) is None,
        },
{
    if '0' <= c && c <= '9' {
        Some(((c as u32) - ('0' as u32)) as u8)
    } else if hex && 'a' <= c && c <= 'f' {
        Some(((c as u32) - ('a' as u32) + 10) as u8)
    } else if hex && 'A' <= c && c <= 'F' {
        Some(((c as u32) - ('A' as u32) + 10) as u8)
    } else {
        None
    }
}

/// Reads the number that starts at `pos`, with the position behind it.
pub fn read_number(s: &Vec<char>, pos: usize, hex: bool, max_digits: usize, max: u64) -> (r: Option<(u64, usize)>)
    requires
        pos <= s@.len(),
    ensures
        match r {
            Some((v, next)) => number_at(s@, pos as int, hex, max_digits as nat, max as nat) == Some((v as nat, next as int))
                && pos < next <= s@.len(),
            None => number_at(s@, pos as int, hex, max_digits as nat, max as nat) is None,
        },
{
    let mut i: usize = pos;
    let mut count: usize = 0;
    let mut acc: u64 = 0;
    proof {
        assert(s@.subrange(pos as int, pos as int) =~= Seq::<char>::empty());
    }
    while i < s.len()
        invariant
            pos <= i <= s@.len(),
            i == pos + count,
            count <= max_digits,
            acc <= max,
            acc == number_value(s@.subrange(pos as int, i as int), hex),
            digit_run(s@, pos as int, hex) == count + digit_run(s@, i as int, hex),
        ensures
            digit_run(s@, i as int, hex) == 0,
        decreases s@.len() - i,
    {
        match digit_of(s[i], hex) {
            None => {
                break;
            },
            Some(d) => {
                proof {
                    lemma_digit_run_bound(s@, i as int + 1, hex);
                    let n = digit_run(s@, pos as int, hex) as int;
                    assert(n >= count + 1);
                    assert(pos + n <= s@.len());
                    lemma_number_value_grows(s@, pos as int, count as int + 1, n, hex);
                    assert(s@.subrange(pos as int, i as int + 1).drop_last() =~= s@.subrange(
                        pos as int,
                        i as int,
                    ));
                }
                if count == max_digits {
                    return None;
                }
                let next: u128 = if hex {
                    (acc as u128) * 16 + (d as u128)
                } else {
                    (acc as u128) * 10 + (d as u128)
                };
                if next > max as u128 {
                    return None;
                }
                acc = next as u64;
                count += 1;
                i += 1;
            },
        }
    }
    if count == 0 {
        None
    } else {
        Some((acc, i))
    }
}

/// Parses `s` as an unsigned decimal integer of at most `max`.
pub fn parse_unsigned(s: &str, max: u64) -> (r: Option<u64>)
    ensures
        match r {
            Some(v) => parse_unsigned_spec(s@, max as nat) == Some(v as nat),
            None => parse_unsigned_spec(s@, max as nat) is None,
        },
{
    let chars = chars_of(s);
    let start: usize = if chars.len() > 0 && chars[0] == '+' { 1 } else { 0 };
    match read_number(&chars, start, false, chars.len(), max) {
        Some((v, end)) => if end == chars.len() { Some(v) } else { None },
        None => None,
    }
}

/// Parses `s` as a `u64`, as `str::parse::<u64>` reads decimal text.
pub fn parse_u64(s: &str) -> (r: Option<u64>)
    ensures
        match r {
            Some(v) => parse_unsigned_spec(s@, u64::MAX as nat) == Some(v as nat),
            None => parse_unsigned_spec(s@, u64::MAX as nat) is None,
        },
{
    parse_unsigned(s, u64::MAX)
}

/// Parses `s` as a `u32`, as `str::parse::<u32>` reads decimal text.
pub fn parse_u32(s: &str) -> (r: Option<u32>)
    ensures
        match r {
            Some(v) => parse_unsigned_spec(s@, u32::MAX as nat) == Some(v as nat),
            None => parse_unsigned_spec(s@, u32::MAX as nat) is None,
        },
{
    match parse_unsigned(s, 0xffff_ffff) {
        Some(v) => Some(v as u32),
        None => None,
    }
}

/// The text of one decimal digit.
fn digit_str(d: usize) -> (r: &'static str)
    requires
        d < 10,
    ensures
        r@ == seq![digit_char(d as nat)],
{
    proof {
        reveal_strlit("0");
        reveal_strlit("1");
        reveal_strlit("2");
        reveal_strlit("3");
        reveal_strlit("4");
        reveal_strlit("5");
        reveal_strlit("6");
        reveal_strlit("7");
        reveal_strlit("8");
        reveal_strlit("9");
    }
    let r = if d == 0 {
        "0"
    } else if d == 1 {
        "1"
    } else if d == 2 {
        "2"
    } else if d == 3 {
        "3"
    } else if d == 4 {
        "4"
    } else if d == 5 {
        "5"
    } else if d == 6 {
        "6"
    } else if d == 7 {
        "7"
    } else if d == 8 {
        "8"
    } else {
        "9"
    };
    assert(r@ =~= seq![digit_char(d as nat)]);
    r
}

/// Writes `n` in decimal digits, without a sign or leading zeros.
pub fn decimal_string(n: usize) -> (r: String)
    ensures
        r@ == decimal_text(n as nat),
    decreases n,
{
    if n < 10 {
        digit_str(n).to_owned()
    } else {
        let mut r = decimal_string(n / 10);
        r.append(digit_str(n % 10));
        r
    }
}

} // verus!
