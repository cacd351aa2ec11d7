use vstd::prelude::*;

use crate::net::IpAddress;
use crate::text::{split_on, split_text, views};

verus! {

// ---------------------------------------------------------------------------
// Digits.

/// The value of `c` as a digit in `radix` (10 or 16, either case), where it
/// is one.
pub open spec fn digit_value(c: char, radix: u32) -> Option<u32> {
    let u = c as u32;
    if 48 <= u && u <= 57 {
        Some((u - 48) as u32)
    } else if radix == 16 && 97 <= u && u <= 102 {
        Some((u - 87) as u32)
    } else if radix == 16 && 65 <= u && u <= 70 {
        Some((u - 55) as u32)
    } else {
        None
    }
}

/// Every character of `p` is a digit in `radix`.
pub open spec fn all_digits(p: Seq<char>, radix: u32) -> bool {
    forall|i: int| 0 <= i < p.len() ==> (#[trigger] digit_value(p[i], radix)) is Some
}

/// The number that the digits of `p` write in `radix`.
pub open spec fn digits_value(p: Seq<char>, radix: u32) -> nat
    decreases p.len(),
{
    if p.len() == 0 {
        0
    } else {
        digits_value(p.drop_last(), radix) * radix as nat + match digit_value(p.last(), radix) {
            Some(d) => d as nat,
            None => 0,
        }
    }
}

/// An octet of a dotted quad: one to three decimal digits, without a leading
/// zero, worth at most 255.
pub open spec fn dec_octet(p: Seq<char>) -> Option<u8> {
    if 1 <= p.len() <= 3 && all_digits(p, 10) && !(p.len() > 1 && p[0] == '0') && digits_value(
        p,
        10,
    ) <= 255 {
        Some(digits_value(p, 10) as u8)
    } else {
        None
    }
}

/// A group of an IPv6 address: one to four hexadecimal digits.
pub open spec fn hex_group(p: Seq<char>) -> Option<u16> {
    if 1 <= p.len() <= 4 && all_digits(p, 16) {
        Some(digits_value(p, 16) as u16)
    } else {
        None
    }
}

spec fn pow16(n: nat) -> nat
    decreases n,
{
    if n == 0 {
        1
    } else {
        16 * pow16((n - 1) as nat)
    }
}

proof fn lemma_pow16_bound(n: nat)
    requires
        n <= 4,
    ensures
        pow16(n) <= 65536,
    decreases 4 - n,
{
    reveal_with_fuel(pow16, 5);
    if n < 4 {
        lemma_pow16_bound(n + 1);
    }
}

fn digit_of(c: char, radix: u32) -> (r: Option<u32>)
    ensures
        r == digit_value(c, radix),
{
    let u = c as u32;
    if 48 <= u && u <= 57 {
        Some(u - 48)
    } else if radix == 16 && 97 <= u && u <= 102 {
        Some(u - 87)
    } else if radix == 16 && 65 <= u && u <= 70 {
        Some(u - 55)
    } else {
        None
    }
}

/// Reads `p` as one to `max_len` digits in `radix`.
fn read_digits(p: &str, radix: u32, max_len: usize) -> (r: Option<u32>)
    requires
        radix == 10 || radix == 16,
        max_len <= 4,
    ensures
        r == if 1 <= p@.len() <= max_len && all_digits(p@, radix) {
            Some(digits_value(p@, radix) as u32)
        } else {
            None::<u32>
        },
        r is Some ==> r->0 < 65536 && r->0 as nat == digits_value(p@, radix),
{
    let n = p.unicode_len();
    if n < 1 || n > max_len {
        return None;
    }
    let mut v: u32 = 0;
    let mut i: usize = 0;
    while i < n
        invariant
            n == p@.len(),
            1 <= n <= 4,
            i <= n,
            radix == 10 || radix == 16,
            all_digits(p@.subrange(0, i as int), radix),
            v as nat == digits_value(p@.subrange(0, i as int), radix),
            v < pow16(i as nat),
        decreases n - i,
    {
        let c = p.get_char(i);
        let ghost pre = p@.subrange(0, i as int);
        let ghost post = p@.subrange(0, i + 1);
        assert(post.drop_last() =~= pre);
        assert(post.last() == c);
        let d = match digit_of(c, radix) {
            Some(d) => d,
            None => {
                assert(digit_value(p@[i as int], radix) is None);
                return None;
            },
        };
        proof {
            lemma_pow16_bound((i + 1) as nat);
            let pw = pow16(i as nat);
            assert(pow16((i + 1) as nat) == 16 * pw);
            assert(v * radix + d < 16 * pw) by (nonlinear_arith)
                requires
                    v < pw,
                    radix <= 16,
                    d < radix,
            ;
        }
        v = v * radix + d;
        i = i + 1;
        assert(all_digits(post, radix)) by {
            assert forall|k: int| 0 <= k < post.len() implies (#[trigger] digit_value(
                post[k],
                radix,
            )) is Some by {
                if k < i - 1 {
                    assert(post[k] == pre[k]);
                }
            }
        }
    }
    assert(p@.subrange(0, n as int) =~= p@);
    proof {
        lemma_pow16_bound(n as nat);
    }
    Some(v)
}

fn read_dec_octet(p: &str) -> (r: Option<u8>)
    ensures
        r == dec_octet(p@),
{
    let n = p.unicode_len();
    if n < 1 || n > 3 {
        return None;
    }
    let v = match read_digits(p, 10, 3) {
        Some(v) => v,
        None => {
            return None;
        },
    };
    if n > 1 && p.get_char(0) == '0' {
        return None;
    }
    if v > 255 {
        return None;
    }
    Some(v as u8)
}

fn read_hex_group(p: &str) -> (r: Option<u16>)
    ensures
        r == hex_group(p@),
{
    match read_digits(p, 16, 4) {
        Some(v) => Some(v as u16),
        None => None,
    }
}

// ---------------------------------------------------------------------------
// IPv4.

/// The octets of a dotted quad: four decimal octets separated by dots.
pub open spec fn ipv4_octets(s: Seq<char>) -> Option<Seq<u8>> {
    let parts = split_on(s, '.');
    if parts.len() == 4 && (forall|i: int| 0 <= i < 4 ==> (#[trigger] dec_octet(parts[i])) is Some) {
        Some(Seq::new(4, |i: int| dec_octet(parts[i])->0))
    } else {
        None
    }
}

/// The 32-bit value of four octets, the first most significant.
pub open spec fn octets_value(o: Seq<u8>) -> u32 {
    (o[0] as int * 16777216 + o[1] as int * 65536 + o[2] as int * 256 + o[3] as int) as u32
}

fn read_ipv4_octets(s: &str) -> (r: Option<Vec<u8>>)
    ensures
        match (r, ipv4_octets(s@)) {
            (Some(v), Some(o)) => v@ == o,
            (None, None) => true,
            _ => false,
        },
{
    let parts = split_text(s, '.');
    if parts.len() != 4 {
        return None;
    }
    let ghost pv = views(parts@);
    let mut out: Vec<u8> = Vec::new();
    let mut i: usize = 0;
    while i < 4
        invariant
            parts@.len() == 4,
            pv == views(parts@),
            pv == split_on(s@, '.'),
            i <= 4,
            out@.len() == i,
            forall|k: int| 0 <= k < i ==> #[trigger] dec_octet(pv[k]) == Some(out@[k]),
        decreases 4 - i,
    {
        match read_dec_octet(parts[i].as_str()) {
            Some(o) => {
                out.push(o);
            },
            None => {
                assert(dec_octet(pv[i as int]) is None);
                return None;
            },
        }
        i = i + 1;
    }
    assert(out@ =~= Seq::new(4, |k: int| dec_octet(pv[k])->0));
    Some(out)
}

// ---------------------------------------------------------------------------
// IPv6.

/// The two groups that an embedded dotted quad stands for.
pub open spec fn embedded_groups(o: Seq<u8>) -> Seq<u16> {
    seq![(o[0] as int * 256 + o[1] as int) as u16, (o[2] as int * 256 + o[3] as int) as u16]
}

/// The groups that a run of colon-separated pieces writes: each piece a
/// hexadecimal group, but for the last, which may be a dotted quad where
/// `v4_last` allows it.
pub open spec fn groups_of(pieces: Seq<Seq<char>>, v4_last: bool) -> Option<Seq<u16>>
    decreases pieces.len(),
{
    if pieces.len() == 0 {
        Some(Seq::empty())
    } else {
        match groups_of(pieces.drop_last(), false) {
            None => None,
            Some(g) => match hex_group(pieces.last()) {
                Some(h) => Some(g.push(h)),
                None => if v4_last {
                    match ipv4_octets(pieces.last()) {
                        Some(o) => Some(g + embedded_groups(o)),
                        None => None,
                    }
                } else {
                    None
                },
            },
        }
    }
}

/// The colon-separated pieces of one side of `::`; none where it is empty.
pub open spec fn side_pieces(s: Seq<char>) -> Seq<Seq<char>> {
    if s.len() == 0 {
        Seq::empty()
    } else {
        split_on(s, ':')
    }
}

/// Where the first `::` at or after `from` starts.
pub open spec fn first_double_colon(s: Seq<char>, from: int) -> Option<int>
    decreases s.len() - from,
{
    if from < 0 || from + 1 >= s.len() {
        None
    } else if s[from] == ':' && s[from + 1] == ':' {
        Some(from)
    } else {
        first_double_colon(s, from + 1)
    }
}

/// The eight groups of an IPv6 address: eight groups separated by colons,
/// or groups before and after one `::` that stands for at least one zero
/// group; the last group pair may be written as a dotted quad.
pub open spec fn ipv6_groups(s: Seq<char>) -> Option<Seq<u16>> {
    match first_double_colon(s, 0) {
        Some(k) => match (
            groups_of(side_pieces(s.subrange(0, k)), false),
            groups_of(side_pieces(s.subrange(k + 2, s.len() as int)), true),
        ) {
            (Some(h), Some(t)) => if h.len() + t.len() <= 7 {
                Some(h + Seq::new((8 - h.len() - t.len()) as nat, |i: int| 0u16) + t)
            } else {
                None
            },
            _ => None,
        },
        None => match groups_of(split_on(s, ':'), true) {
            Some(g) => if g.len() == 8 {
                Some(g)
            } else {
                None
            },
            None => None,
        },
    }
}

/// The value of a run of groups, the first most significant.
pub open spec fn groups_value(g: Seq<u16>) -> nat
    decreases g.len(),
{
    if g.len() == 0 {
        0
    } else {
        groups_value(g.drop_last()) * 65536 + g.last() as nat
    }
}

/// The address that `s` writes: a dotted quad, else an IPv6 address.
pub open spec fn address_of(s: Seq<char>) -> Option<IpAddress> {
    match ipv4_octets(s) {
        Some(o) => Some(IpAddress::V4(octets_value(o))),
        None => match ipv6_groups(s) {
            Some(g) => Some(IpAddress::V6(groups_value(g) as u128)),
            None => None,
        },
    }
}

fn find_double_colon(s: &str) -> (r: Option<usize>)
    ensures
        match (r, first_double_colon(s@, 0)) {
            (Some(a), Some(b)) => a as int == b && b + 1 < s@.len(),
            (None, None) => true,
            _ => false,
        },
{
    let n = s.unicode_len();
    let mut i: usize = 0;
    while i < n && i + 1 < n
        invariant
            n == s@.len(),
            i <= n,
            first_double_colon(s@, 0) == first_double_colon(s@, i as int),
        decreases n - i,
    {
        if s.get_char(i) == ':' && s.get_char(i + 1) == ':' {
            return Some(i);
        }
        i = i + 1;
    }
    None
}

proof fn lemma_groups_none_extends(t: Seq<Seq<char>>, j: int, b: bool)
    requires
        0 <= j <= t.len(),
        groups_of(t.subrange(0, j), false) is None,
        j < t.len() || !b,
    ensures
        groups_of(t, b) is None,
    decreases t.len(),
{
    if j == t.len() {
        assert(t.subrange(0, j) =~= t);
    } else {
        assert(t.drop_last().subrange(0, j) =~= t.subrange(0, j));
        lemma_groups_none_extends(t.drop_last(), j, false);
    }
}

fn read_groups(pieces: &Vec<String>, v4_last: bool) -> (r: Option<Vec<u16>>)
    ensures
        match (r, groups_of(views(pieces@), v4_last)) {
            (Some(v), Some(g)) => v@ == g,
            (None, None) => true,
            _ => false,
        },
{
    let ghost vs = views(pieces@);
    let n = pieces.len();
    let mut acc: Vec<u16> = Vec::new();
    if n == 0 {
        assert(vs =~= Seq::<Seq<char>>::empty());
        return Some(acc);
    }
    let mut i: usize = 0;
    assert(vs.subrange(0, 0) =~= Seq::<Seq<char>>::empty());
    while i + 1 < n
        invariant
            n == pieces@.len(),
            n >= 1,
            i < n,
            vs == views(pieces@),
            groups_of(vs.subrange(0, i as int), false) == Some(acc@),
        decreases n - i,
    {
        assert(vs.subrange(0, i + 1).drop_last() =~= vs.subrange(0, i as int));
        assert(vs.subrange(0, i + 1).last() == pieces@[i as int]@);
        match read_hex_group(pieces[i].as_str()) {
            Some(h) => {
                acc.push(h);
            },
            None => {
                proof {
                    lemma_groups_none_extends(vs, i + 1, v4_last);
                }
                return None;
            },
        }
        i = i + 1;
    }
    assert(vs.drop_last() =~= vs.subrange(0, n - 1));
    assert(vs.last() == pieces@[n - 1]@);
    match read_hex_group(pieces[n - 1].as_str()) {
        Some(h) => {
            acc.push(h);
            Some(acc)
        },
        None => {
            if v4_last {
                match read_ipv4_octets(pieces[n - 1].as_str()) {
                    Some(o) => {
                        let ghost before = acc@;
                        acc.push((o[0] as u16) * 256 + o[1] as u16);
                        acc.push((o[2] as u16) * 256 + o[3] as u16);
                        assert(acc@ =~= before + embedded_groups(o@));
                        Some(acc)
                    },
                    None => None,
                }
            } else {
                None
            }
        },
    }
}

fn side_text_pieces(s: &str) -> (r: Vec<String>)
    ensures
        views(r@) == side_pieces(s@),
{
    if s.unicode_len() == 0 {
        let r: Vec<String> = Vec::new();
        assert(views(r@) =~= Seq::<Seq<char>>::empty());
        r
    } else {
        split_text(s, ':')
    }
}

spec fn pow65536(n: nat) -> nat
    decreases n,
{
    if n == 0 {
        1
    } else {
        65536 * pow65536((n - 1) as nat)
    }
}

proof fn lemma_pow65536_bound(n: nat)
    requires
        n <= 8,
    ensures
        pow65536(n) <= 0x1_0000_0000_0000_0000_0000_0000_0000_0000,
    decreases 8 - n,
{
    reveal_with_fuel(pow65536, 9);
    if n < 8 {
        lemma_pow65536_bound(n + 1);
    }
}

fn groups_to_u128(g: &Vec<u16>) -> (r: u128)
    requires
        g@.len() == 8,
    ensures
        r as nat == groups_value(g@),
{
    let mut v: u128 = 0;
    let mut i: usize = 0;
    assert(g@.subrange(0, 0) =~= Seq::<u16>::empty());
    while i < 8
        invariant
            g@.len() == 8,
            i <= 8,
            v as nat == groups_value(g@.subrange(0, i as int)),
            v < pow65536(i as nat),
        decreases 8 - i,
    {
        let x = g[i];
        proof {
            lemma_pow65536_bound((i + 1) as nat);
            let pw = pow65536(i as nat);
            assert(pow65536((i + 1) as nat) == 65536 * pw);
            assert(v * 65536 + x < 65536 * pw) by (nonlinear_arith)
                requires
                    v < pw,
                    x < 65536,
            ;
        }
        assert(g@.subrange(0, i + 1).drop_last() =~= g@.subrange(0, i as int));
        v = v * 65536 + x as u128;
        i = i + 1;
    }
    assert(g@.subrange(0, 8) =~= g@);
    v
}

fn read_ipv6_groups(s: &str) -> (r: Option<Vec<u16>>)
    ensures
        match (r, ipv6_groups(s@)) {
            (Some(v), Some(g)) => v@ == g,
            (None, None) => true,
            _ => false,
        },
{
    match find_double_colon(s) {
        Some(k) => {
            let n = s.unicode_len();
            let head = s.substring_char(0, k);
            let tail = s.substring_char(k + 2, n);
            let h = read_groups(&side_text_pieces(head), false);
            let t = read_groups(&side_text_pieces(tail), true);
            match (h, t) {
                (Some(h), Some(t)) => {
                    if h.len() > 7 || t.len() > 7 - h.len() {
                        return None;
                    }
                    let zeros: usize = 8 - h.len() - t.len();
                    let ghost hv = h@;
                    let mut out: Vec<u16> = h;
                    let mut j: usize = 0;
                    while j < zeros
                        invariant
                            j <= zeros,
                            out@ == hv + Seq::new(j as nat, |i: int| 0u16),
                        decreases zeros - j,
                    {
                        out.push(0);
                        j = j + 1;
                        assert(out@ =~= hv + Seq::new(j as nat, |i: int| 0u16));
                    }
                    let ghost mid = out@;
                    let mut j: usize = 0;
                    while j < t.len()
                        invariant
                            j <= t@.len(),
                            out@ == mid + t@.subrange(0, j as int),
                        decreases t@.len() - j,
                    {
                        out.push(t[j]);
                        j = j + 1;
                        assert(out@ =~= mid + t@.subrange(0, j as int));
                    }
                    assert(t@.subrange(0, t@.len() as int) =~= t@);
                    Some(out)
                },
                _ => None,
            }
        },
        None => match read_groups(&split_text(s, ':'), true) {
            Some(g) => {
                if g.len() == 8 {
                    Some(g)
                } else {
                    None
                }
            },
            None => None,
        },
    }
}

/// Reads an IP address written as std writes them: a dotted quad of decimal
/// octets without leading zeros, or an IPv6 address of hexadecimal groups,
/// with at most one `::` and possibly a dotted quad for the last two groups.
pub fn parse_address(s: &str) -> (r: Option<IpAddress>)
    ensures
        r == address_of(s@),
{
    match read_ipv4_octets(s) {
        Some(o) => Some(
            IpAddress::V4(
                (o[0] as u32) * 16777216 + (o[1] as u32) * 65536 + (o[2] as u32) * 256 + o[3] as u32,
            ),
        ),
        None => match read_ipv6_groups(s) {
            Some(g) => Some(IpAddress::V6(groups_to_u128(&g))),
            None => None,
        },
    }
}

} // verus!
