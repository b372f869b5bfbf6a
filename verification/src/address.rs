//! Internet addresses as they stand in log lines.

use vstd::prelude::*;
use crate::text::{
    chars_of, decimal_text, digit_run, digit_value, lemma_decimal_text_shape, lemma_decimal_text_writes,
    lemma_digit_run_exact, number_at, number_value, read_number,
};

verus! {

/// An IPv4 address by its four octets, or an IPv6 address by its eight
/// sixteen-bit groups, most significant first.
#[derive(Clone, Copy, Debug, PartialEq, Eq, Structural)]
pub enum IpAddress {
    V4(u8, u8, u8, u8),
    V6(u16, u16, u16, u16, u16, u16, u16, u16),
}

/// A decimal octet at `pos`: one to three digits, at most 255, and no leading
/// zero before another digit.
pub open spec fn octet_at(s: Seq<char>, pos: int) -> Option<(u8, int)> {
    match number_at(s, pos, false, 3, 255) {
        Some((v, next)) => if next - pos > 1 && s[pos] == '0' {
            None
        } else {
            Some((v as u8, next))
        },
        None => None,
    }
}

/// A dot at `pos` and an octet behind it.
pub open spec fn dotted_octet_at(s: Seq<char>, pos: int) -> Option<(u8, int)> {
    if 0 <= pos < s.len() && s[pos] == '.' {
        octet_at(s, pos + 1)
    } else {
        None
    }
}

/// Four octets with dots between them, starting at `pos`.
pub open spec fn ipv4_at(s: Seq<char>, pos: int) -> Option<((u8, u8, u8, u8), int)> {
    match octet_at(s, pos) {
        None => None,
        Some((a, at1)) => match dotted_octet_at(s, at1) {
            None => None,
            Some((b, at2)) => match dotted_octet_at(s, at2) {
                None => None,
                Some((c, at3)) => match dotted_octet_at(s, at3) {
                    None => None,
                    Some((d, at4)) => Some(((a, b, c, d), at4)),
                },
            },
        },
    }
}

/// Two octets as one sixteen-bit group.
pub open spec fn join_octets(hi: u8, lo: u8) -> u16 {
    (hi as int * 256 + lo as int) as u16
}

/// The groups of an IPv6 address read from `pos` on, behind the groups `acc`
/// already read, up to `limit` in all: hexadecimal groups of one to four digits
/// with a colon before each but the first; the last two may be written as
/// an IPv4 address, which ends the reading. The result holds the groups, the
/// position behind them, and whether an IPv4 address closed them.
pub open spec fn scan_groups(s: Seq<char>, pos: int, limit: nat, acc: Seq<u16>) -> (Seq<u16>, int, bool)
    decreases limit - acc.len(),
{
    if acc.len() >= limit {
        (acc, pos, false)
    } else {
        let start: Option<int> = if acc.len() == 0 {
            Some(pos)
        } else if 0 <= pos < s.len() && s[pos] == ':' {
            Some(pos + 1)
        } else {
            None
        };
        match start {
            None => (acc, pos, false),
            Some(p) => {
                if acc.len() + 1 < limit && ipv4_at(s, p) is Some {
                    let (o, next) = ipv4_at(s, p).unwrap();
                    (acc.push(join_octets(o.0, o.1)).push(join_octets(o.2, o.3)), next, true)
                } else {
                    match number_at(s, p, true, 4, 0xffff) {
                        None => (acc, pos, false),
                        Some((g, next)) => scan_groups(s, next, limit, acc.push(g as u16)),
                    }
                }
            },
        }
    }
}

/// `n` groups of zero.
pub open spec fn zero_groups(n: nat) -> Seq<u16> {
    Seq::new(n, |i: int| 0u16)
}

/// The eight groups that `s` writes as an IPv6 address: eight groups, or fewer
/// with one `::` that stands for the missing groups, all zero, and at least one.
/// No IPv4 form may stand before the `::`.
pub open spec fn parse_ipv6_spec(s: Seq<char>) -> Option<Seq<u16>> {
    let (head, p, head_v4) = scan_groups(s, 0, 8, Seq::empty());
    if head.len() == 8 {
        if p == s.len() {
            Some(head)
        } else {
            None
        }
    } else if head_v4 {
        None
    } else if !(0 <= p && p + 1 < s.len() && s[p] == ':' && s[p + 1] == ':') {
        None
    } else {
        let (tail, q, tail_v4) = scan_groups(s, p + 2, (7 - head.len()) as nat, Seq::empty());
        if q == s.len() {
            Some(head + zero_groups((8 - head.len() - tail.len()) as nat) + tail)
        } else {
            None
        }
    }
}

/// The IPv6 address with the groups `g`.
pub open spec fn address_of_groups(g: Seq<u16>) -> IpAddress {
    IpAddress::V6(g[0], g[1], g[2], g[3], g[4], g[5], g[6], g[7])
}

/// The address that `s` writes: an IPv4 address in dotted decimal, or else an
/// IPv6 address; `None` where it writes neither.
pub open spec fn parse_ip_spec(s: Seq<char>) -> Option<IpAddress> {
    match ipv4_at(s, 0) {
        Some((o, end)) => if end == s.len() {
            Some(IpAddress::V4(o.0, o.1, o.2, o.3))
        } else {
            None
        },
        None => match parse_ipv6_spec(s) {
            Some(g) => Some(address_of_groups(g)),
            None => None,
        },
    }
}

/// Four octets in decimal with dots between them.
pub open spec fn dotted_text(a: u8, b: u8, c: u8, d: u8) -> Seq<char> {
    decimal_text(a as nat) + seq!['.'] + decimal_text(b as nat) + seq!['.'] + decimal_text(c as nat) + seq!['.']
        + decimal_text(d as nat)
}

/// An octet written in decimal at `pos`, with no digit behind it, is read as itself.
pub proof fn lemma_octet_reads_back(s: Seq<char>, pos: int, n: u8)
    requires
        0 <= pos,
        pos + decimal_text(n as nat).len() <= s.len(),
        s.subrange(pos, pos + decimal_text(n as nat).len()) == decimal_text(n as nat),
        pos + decimal_text(n as nat).len() == s.len() || digit_value(
            s[pos + decimal_text(n as nat).len()],
            false,
        ) is None,
    ensures
        octet_at(s, pos) == Some((n, pos + decimal_text(n as nat).len())),
{
    let t = decimal_text(n as nat);
    lemma_decimal_text_writes(n as nat);
    lemma_decimal_text_shape(n as nat);
    assert forall|i: int| pos <= i < pos + t.len() implies digit_value(#[trigger] s[i], false) is Some by {
        assert(s[i] == s.subrange(pos, pos + t.len())[i - pos]);
        assert(digit_value(t[i - pos], false) is Some);
    }
    lemma_digit_run_exact(s, pos, t.len() as int, false);
    assert(s[pos] == s.subrange(pos, pos + t.len())[0]);
}

/// What stands in the middle of three texts put together.
pub proof fn lemma_middle_of_three(pre: Seq<char>, mid: Seq<char>, post: Seq<char>)
    ensures
        (pre + mid + post).len() == pre.len() + mid.len() + post.len(),
        (pre + mid + post).subrange(pre.len() as int, (pre.len() + mid.len()) as int) == mid,
        post.len() > 0 ==> (pre + mid + post)[(pre.len() + mid.len()) as int] == post[0],
{
    assert((pre + mid + post).subrange(pre.len() as int, (pre.len() + mid.len()) as int) =~= mid);
}

/// An IPv4 address written in dotted decimal is read as itself.
pub proof fn lemma_dotted_text_reads_back(a: u8, b: u8, c: u8, d: u8)
    ensures
        parse_ip_spec(dotted_text(a, b, c, d)) == Some(IpAddress::V4(a, b, c, d)),
{
    let s = dotted_text(a, b, c, d);
    let ta = decimal_text(a as nat);
    let tb = decimal_text(b as nat);
    let tc = decimal_text(c as nat);
    let td = decimal_text(d as nat);
    let dot = seq!['.'];
    let at_b: int = ta.len() as int + 1;
    let at_c: int = at_b + tb.len() + 1;
    let at_d: int = at_c + tc.len() + 1;
    assert(s =~= Seq::<char>::empty() + ta + (dot + tb + dot + tc + dot + td));
    lemma_middle_of_three(Seq::empty(), ta, dot + tb + dot + tc + dot + td);
    lemma_octet_reads_back(s, 0, a);
    assert(s =~= (ta + dot) + tb + (dot + tc + dot + td));
    lemma_middle_of_three(ta + dot, tb, dot + tc + dot + td);
    lemma_octet_reads_back(s, at_b, b);
    assert(s =~= (ta + dot + tb + dot) + tc + (dot + td));
    lemma_middle_of_three(ta + dot + tb + dot, tc, dot + td);
    lemma_octet_reads_back(s, at_c, c);
    assert(s =~= (ta + dot + tb + dot + tc + dot) + td + Seq::<char>::empty());
    lemma_middle_of_three(ta + dot + tb + dot + tc + dot, td, Seq::empty());
    lemma_octet_reads_back(s, at_d, d);
    assert(s[at_b - 1] == '.');
    assert(s[at_c - 1] == '.');
    assert(s[at_d - 1] == '.');
}

/// The character that writes the hexadecimal digit `d`, in lower case.
pub open spec fn hex_char(d: nat) -> char {
    if d < 10 {
        ('0' as int + d) as char
    } else {
        ('a' as int + d - 10) as char
    }
}

/// `n` in hexadecimal digits, in lower case and without leading zeros.
pub open spec fn hex_text(n: nat) -> Seq<char>
    decreases n,
{
    if n < 16 {
        seq![hex_char(n)]
    } else {
        hex_text(n / 16).push(hex_char(n % 16))
    }
}

/// The groups `g` in hexadecimal with colons between them.
pub open spec fn colon_text(g: Seq<u16>) -> Seq<char>
    decreases g.len(),
{
    if g.len() == 0 {
        Seq::empty()
    } else if g.len() == 1 {
        hex_text(g[0] as nat)
    } else {
        hex_text(g[0] as nat) + seq![':'] + colon_text(g.drop_first())
    }
}

/// What stands behind the groups read so far: nothing, or the groups to come
/// with a colon before them unless they are the first.
pub open spec fn text_to_come(read: nat, rest: Seq<u16>) -> Seq<char> {
    if rest.len() == 0 {
        Seq::empty()
    } else if read == 0 {
        colon_text(rest)
    } else {
        seq![':'] + colon_text(rest)
    }
}

/// The hexadecimal text of `n` is one or more hexadecimal digits that write `n`.
pub proof fn lemma_hex_text_writes(n: nat)
    ensures
        hex_text(n).len() >= 1,
        forall|i: int| 0 <= i < hex_text(n).len() ==> digit_value(#[trigger] hex_text(n)[i], true) is Some,
        number_value(hex_text(n), true) == n,
    decreases n,
{
    let t = hex_text(n);
    if n < 16 {
        assert(t.len() == 1);
        assert(t[0] == hex_char(n));
        assert(t.drop_last() =~= Seq::<char>::empty());
        assert(number_value(t.drop_last(), true) == 0);
    } else {
        lemma_hex_text_writes(n / 16);
        let shorter = hex_text(n / 16);
        assert(t.drop_last() =~= shorter);
        assert(t.last() == hex_char(n % 16));
        assert forall|i: int| 0 <= i < t.len() implies digit_value(#[trigger] t[i], true) is Some by {
            if i < shorter.len() {
                assert(t[i] == shorter[i]);
            }
        }
    }
}

/// The hexadecimal text of a group has at most four digits.
pub proof fn lemma_hex_text_of_group(n: nat)
    requires
        n <= 0xffff,
    ensures
        hex_text(n).len() <= 4,
{
    if n >= 16 {
        if n / 16 >= 16 {
            if n / 16 / 16 >= 16 {
                assert(n / 16 / 16 / 16 < 16);
                assert(hex_text(n / 16 / 16 / 16).len() == 1);
                assert(hex_text(n / 16 / 16).len() == 2);
            } else {
                assert(hex_text(n / 16 / 16).len() == 1);
            }
            assert(hex_text(n / 16).len() <= 3);
        } else {
            assert(hex_text(n / 16).len() == 1);
        }
    }
}

/// The decimal digits at the start of hexadecimal digits that a colon or
/// nothing follows end before a character that is no dot, or at the end.
pub proof fn lemma_no_dot_behind_decimal_run(s: Seq<char>, pos: int, len: int)
    requires
        0 <= pos,
        0 <= len,
        pos + len <= s.len(),
        forall|i: int| pos <= i < pos + len ==> digit_value(#[trigger] s[i], true) is Some,
        pos + len == s.len() || s[pos + len] == ':',
    ensures
        pos + digit_run(s, pos, false) <= s.len(),
        pos + digit_run(s, pos, false) == s.len() || s[pos + digit_run(s, pos, false)] != '.',
    decreases len,
{
    if len > 0 {
        if digit_value(s[pos], false) is Some {
            lemma_no_dot_behind_decimal_run(s, pos + 1, len - 1);
        } else {
            assert(digit_value(s[pos], true) is Some);
        }
    }
}

/// A group written in hexadecimal at `pos`, with a colon or nothing behind
/// it, is read as itself, and is not the start of an IPv4 address.
pub proof fn lemma_group_reads_back(s: Seq<char>, pos: int, n: u16)
    requires
        0 <= pos,
        pos + hex_text(n as nat).len() <= s.len(),
        s.subrange(pos, pos + hex_text(n as nat).len()) == hex_text(n as nat),
        pos + hex_text(n as nat).len() == s.len() || s[pos + hex_text(n as nat).len()] == ':',
    ensures
        number_at(s, pos, true, 4, 0xffff) == Some((n as nat, pos + hex_text(n as nat).len())),
        ipv4_at(s, pos) is None,
{
    let t = hex_text(n as nat);
    lemma_hex_text_writes(n as nat);
    lemma_hex_text_of_group(n as nat);
    assert forall|i: int| pos <= i < pos + t.len() implies digit_value(#[trigger] s[i], true) is Some by {
        assert(s[i] == s.subrange(pos, pos + t.len())[i - pos]);
        assert(digit_value(t[i - pos], true) is Some);
    }
    lemma_digit_run_exact(s, pos, t.len() as int, true);
    lemma_no_dot_behind_decimal_run(s, pos, t.len() as int);
}

/// Whether the reading of groups ends at `end`: at the end of `s`, or before
/// two colons.
pub open spec fn stops_at(s: Seq<char>, end: int) -> bool {
    end == s.len() || (0 <= end && end + 1 < s.len() && s[end] == ':' && s[end + 1] == ':')
}

/// Groups written in hexadecimal with colons between them, no more than
/// `limit` with those read before, and then the end of `s` or two colons, are
/// read as themselves, up to that place.
pub proof fn lemma_scan_reads_groups(s: Seq<char>, pos: int, limit: nat, acc: Seq<u16>, rest: Seq<u16>)
    requires
        0 <= pos,
        pos + text_to_come(acc.len(), rest).len() <= s.len(),
        acc.len() + rest.len() <= limit,
        s.subrange(pos, pos + text_to_come(acc.len(), rest).len()) == text_to_come(acc.len(), rest),
        stops_at(s, pos + text_to_come(acc.len(), rest).len()),
    ensures
        scan_groups(s, pos, limit, acc) == (acc + rest, pos + text_to_come(acc.len(), rest).len(), false),
    decreases rest.len(),
{
    let come = text_to_come(acc.len(), rest);
    let end = pos + come.len();
    if rest.len() == 0 {
        assert(acc + rest =~= acc);
        if acc.len() < limit {
            if pos < s.len() {
                assert(digit_value(s[pos], true) is None);
                assert(digit_value(s[pos + 1], true) is None);
                assert(digit_run(s, pos, true) == 0);
                assert(digit_run(s, pos, false) == 0);
                assert(digit_run(s, pos + 1, true) == 0);
                assert(digit_run(s, pos + 1, false) == 0);
            } else {
                assert(digit_run(s, pos, true) == 0);
                assert(digit_run(s, pos, false) == 0);
            }
        }
    } else {
        let first = hex_text(rest[0] as nat);
        let later = rest.drop_first();
        let lead: int = if acc.len() == 0 {
            0
        } else {
            1
        };
        let at = pos + lead;
        let behind = if rest.len() == 1 {
            Seq::<char>::empty()
        } else {
            seq![':'] + colon_text(later)
        };
        assert(colon_text(rest) =~= first + behind);
        assert(come.len() == lead + first.len() + behind.len());
        assert forall|i: int| 0 <= i < come.len() implies s[pos + i] == come[i] by {
            assert(s.subrange(pos, end)[i] == s[pos + i]);
        }
        if lead == 1 {
            assert(s[pos] == come[0]);
            assert(s[pos] == ':');
        }
        assert(s.subrange(at, at + first.len()) =~= first) by {
            assert forall|i: int| 0 <= i < first.len() implies s[at + i] == first[i] by {
                assert(s[pos + (lead + i)] == come[lead + i]);
            }
        }
        if rest.len() > 1 {
            assert(s[pos + (lead + first.len())] == come[lead + first.len()]);
            assert(s[at + first.len()] == ':');
        }
        lemma_group_reads_back(s, at, rest[0]);
        let next = at + first.len();
        assert(text_to_come((acc.len() + 1) as nat, later) =~= behind);
        assert(s.subrange(next, next + behind.len()) =~= behind) by {
            assert forall|i: int| 0 <= i < behind.len() implies s[next + i] == behind[i] by {
                assert(s[pos + (lead + first.len() + i)] == come[lead + first.len() + i]);
            }
        }
        lemma_scan_reads_groups(s, next, limit, acc.push(rest[0]), later);
        assert(acc.push(rest[0]) + later =~= acc + rest);
    }
}

/// An IPv6 address written as eight hexadecimal groups with colons between
/// them is read as itself.
pub proof fn lemma_colon_text_reads_back(g: Seq<u16>)
    requires
        g.len() == 8,
    ensures
        parse_ip_spec(colon_text(g)) == Some(address_of_groups(g)),
{
    let s = colon_text(g);
    let first = hex_text(g[0] as nat);
    assert(s =~= first + (seq![':'] + colon_text(g.drop_first())));
    assert(s.subrange(0, first.len() as int) =~= first);
    assert(s[first.len() as int] == ':');
    lemma_group_reads_back(s, 0, g[0]);
    assert(s.subrange(0, s.len() as int) =~= s);
    lemma_scan_reads_groups(s, 0, 8, Seq::empty(), g);
    assert(Seq::<u16>::empty() + g =~= g);
}

/// An IPv6 address written with two colons for the groups of zero that it
/// leaves out, at least one, is read as the groups before the two colons, the
/// zeros, and the groups behind.
pub proof fn lemma_compressed_text_reads_back(head: Seq<u16>, tail: Seq<u16>)
    requires
        head.len() + tail.len() <= 7,
    ensures
        parse_ip_spec(colon_text(head) + seq![':', ':'] + colon_text(tail)) == Some(
            address_of_groups(head + zero_groups((8 - head.len() - tail.len()) as nat) + tail),
        ),
{
    let front = colon_text(head);
    let back = colon_text(tail);
    let s = front + seq![':', ':'] + back;
    let gap = front.len() as int;
    assert(s[gap] == ':');
    assert(s[gap + 1] == ':');
    assert(s.subrange(0, gap) =~= front);
    assert(s.subrange(gap + 2, s.len() as int) =~= back);
    if head.len() == 0 {
        assert(digit_value(s[0], false) is None);
        assert(digit_run(s, 0, false) == 0);
    } else {
        let first = hex_text(head[0] as nat);
        if head.len() == 1 {
            assert(front =~= first);
        } else {
            assert(front =~= first + (seq![':'] + colon_text(head.drop_first())));
            assert(s[first.len() as int] == front[first.len() as int]);
        }
        assert(s.subrange(0, first.len() as int) =~= first);
        lemma_group_reads_back(s, 0, head[0]);
    }
    lemma_scan_reads_groups(s, 0, 8, Seq::empty(), head);
    assert(Seq::<u16>::empty() + head =~= head);
    lemma_scan_reads_groups(s, gap + 2, (7 - head.len()) as nat, Seq::empty(), tail);
    assert(Seq::<u16>::empty() + tail =~= tail);
}

/// No more than `limit` groups are read.
pub proof fn lemma_scan_groups_bounds(s: Seq<char>, pos: int, limit: nat, acc: Seq<u16>)
    requires
        acc.len() <= limit,
    ensures
        scan_groups(s, pos, limit, acc).0.len() <= limit,
    decreases limit - acc.len(),
{
    if acc.len() < limit {
        let start: Option<int> = if acc.len() == 0 {
            Some(pos)
        } else if 0 <= pos < s.len() && s[pos] == ':' {
            Some(pos + 1)
        } else {
            None
        };
        if let Some(p) = start {
            if !(acc.len() + 1 < limit && ipv4_at(s, p) is Some) {
                if let Some((g, next)) = number_at(s, p, true, 4, 0xffff) {
                    lemma_scan_groups_bounds(s, next, limit, acc.push(g as u16));
                }
            }
        }
    }
}

/// Reads a decimal octet at `pos`.
fn read_octet(s: &Vec<char>, pos: usize) -> (r: Option<(u8, usize)>)
    requires
        pos <= s@.len(),
    ensures
        match r {
            Some((v, next)) => octet_at(s@, pos as int) == Some((v, next as int)) && pos < next
                <= s@.len(),
            None => octet_at(s@, pos as int) is None,
        },
{
    match read_number(s, pos, false, 3, 255) {
        Some((v, next)) => if next - pos > 1 && s[pos] == '0' {
            None
        } else {
            Some((v as u8, next))
        },
        None => None,
    }
}

/// Reads a dot at `pos` and the octet behind it.
fn read_dotted_octet(s: &Vec<char>, pos: usize) -> (r: Option<(u8, usize)>)
    requires
        pos <= s@.len(),
    ensures
        match r {
            Some((v, next)) => dotted_octet_at(s@, pos as int) == Some((v, next as int)) && pos
                < next <= s@.len(),
            None => dotted_octet_at(s@, pos as int) is None,
        },
{
    if pos < s.len() && s[pos] == '.' {
        read_octet(s, pos + 1)
    } else {
        None
    }
}

/// Reads four dotted octets from `pos` on, with the position behind them.
pub fn read_ipv4(s: &Vec<char>, pos: usize) -> (r: Option<((u8, u8, u8, u8), usize)>)
    requires
        pos <= s@.len(),
    ensures
        match r {
            Some((o, next)) => ipv4_at(s@, pos as int) == Some((o, next as int)) && pos < next
                <= s@.len(),
            None => ipv4_at(s@, pos as int) is None,
        },
{
    match read_octet(s, pos) {
        None => None,
        Some((a, at1)) => match read_dotted_octet(s, at1) {
            None => None,
            Some((b, at2)) => match read_dotted_octet(s, at2) {
                None => None,
                Some((c, at3)) => match read_dotted_octet(s, at3) {
                    None => None,
                    Some((d, at4)) => Some(((a, b, c, d), at4)),
                },
            },
        },
    }
}

/// Two octets as one group.
fn join(hi: u8, lo: u8) -> (g: u16)
    ensures
        g == join_octets(hi, lo),
{
    (hi as u16) * 256 + (lo as u16)
}

/// Reads up to `limit` groups of an IPv6 address from `pos` on.
pub fn read_groups(s: &Vec<char>, pos: usize, limit: usize) -> (r: (Vec<u16>, usize, bool))
    requires
        pos <= s@.len(),
        limit <= 8,
    ensures
        (r.0@, r.1 as int, r.2) == scan_groups(s@, pos as int, limit as nat, Seq::empty()),
        r.0@.len() <= limit,
        r.1 <= s@.len(),
{
    let mut acc: Vec<u16> = Vec::new();
    let mut at: usize = pos;
    proof {
        lemma_scan_groups_bounds(s@, pos as int, limit as nat, Seq::empty());
    }
    while acc.len() < limit
        invariant
            at <= s@.len(),
            limit <= 8,
            acc@.len() <= limit,
            scan_groups(s@, pos as int, limit as nat, Seq::empty()) == scan_groups(
                s@,
                at as int,
                limit as nat,
                acc@,
            ),
        decreases limit - acc@.len(),
    {
        let start: usize = if acc.len() == 0 {
            at
        } else if at < s.len() && s[at] == ':' {
            at + 1
        } else {
            return (acc, at, false);
        };
        if acc.len() + 1 < limit {
            if let Some((o, next)) = read_ipv4(s, start) {
                acc.push(join(o.0, o.1));
                acc.push(join(o.2, o.3));
                return (acc, next, true);
            }
        }
        match read_number(s, start, true, 4, 0xffff) {
            None => {
                return (acc, at, false);
            },
            Some((g, next)) => {
                acc.push(g as u16);
                at = next;
            },
        }
    }
    (acc, at, false)
}

/// Parses `s` as an IPv6 address.
pub fn parse_ipv6(s: &Vec<char>) -> (r: Option<IpAddress>)
    ensures
        r == match parse_ipv6_spec(s@) {
            Some(g) => Some(address_of_groups(g)),
            None => None,
        },
{
    let (head, p, head_v4) = read_groups(s, 0, 8);
    if head.len() == 8 {
        if p == s.len() {
            return Some(
                IpAddress::V6(head[0], head[1], head[2], head[3], head[4], head[5], head[6], head[7]),
            );
        } else {
            return None;
        }
    }
    if head_v4 {
        return None;
    }
    if !(p < s.len() && s[p] == ':' && p + 1 < s.len() && s[p + 1] == ':') {
        return None;
    }
    let (tail, q, tail_v4) = read_groups(s, p + 2, 7 - head.len());
    if q != s.len() {
        return None;
    }
    let mut g: Vec<u16> = Vec::new();
    let mut j: usize = 0;
    let ghost want = head@ + zero_groups((8 - head@.len() - tail@.len()) as nat) + tail@;
    while j < 8
        invariant
            j <= 8,
            head@.len() + tail@.len() <= 7,
            want == head@ + zero_groups((8 - head@.len() - tail@.len()) as nat) + tail@,
            g@ == want.subrange(0, j as int),
        decreases 8 - j,
    {
        let v: u16 = if j < head.len() {
            head[j]
        } else if j >= 8 - tail.len() {
            tail[j - (8 - tail.len())]
        } else {
            0
        };
        g.push(v);
        j += 1;
        assert(g@ =~= want.subrange(0, j as int));
    }
    assert(g@ =~= want);
    Some(IpAddress::V6(g[0], g[1], g[2], g[3], g[4], g[5], g[6], g[7]))
}

/// Parses `s` as an IP address, IPv4 or IPv6.
pub fn parse_ip(s: &str) -> (r: Option<IpAddress>)
    ensures
        r == parse_ip_spec(s@),
{
    let chars = chars_of(s);
    match read_ipv4(&chars, 0) {
        Some((o, end)) => if end == chars.len() {
            Some(IpAddress::V4(o.0, o.1, o.2, o.3))
        } else {
            None
        },
        None => parse_ipv6(&chars),
    }
}

} // verus!
