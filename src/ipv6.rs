use vstd::prelude::*;
use vstd::string::*;
use crate::interfaces::{hex_val, hex_value};
use crate::ip::{
    double_colon, hex_group, ipv4_string, ipv4_text, is_hex, is_hex_group, is_ipv6,
    parse_ipv4, parse_ipv4_text, side_count,
};
use crate::text::{chars_of, pieces, split_char, substring, views};

verus! {

/// The two 16-bit groups that a dotted quad stands for.
pub open spec fn v4_pair(t: Seq<char>) -> Seq<u16> {
    let a = parse_ipv4(t)->0;
    seq![(a / 0x10000) as u16, (a % 0x10000) as u16]
}

pub open spec fn group_value(t: Seq<char>) -> u16 {
    hex_value(t) as u16
}

/// The values of the colon-separated pieces `p` of one side of an address.
pub open spec fn group_vals(p: Seq<Seq<char>>) -> Seq<u16> {
    if hex_group(p.last()) {
        p.map_values(|t: Seq<char>| group_value(t))
    } else {
        p.drop_last().map_values(|t: Seq<char>| group_value(t)) + v4_pair(p.last())
    }
}

/// The values written on one side of `::`.
pub open spec fn side_vals(t: Seq<char>) -> Seq<u16> {
    if t.len() == 0 {
        seq![]
    } else {
        group_vals(pieces(t, ':'))
    }
}

/// The eight 16-bit groups of an IPv6 address, `::` standing for as many
/// zero groups as are missing.
pub open spec fn ipv6_segments(s: Seq<char>) -> Seq<u16> {
    match double_colon(s) {
        None => side_vals(s),
        Some(k) => {
            let h = side_vals(s.subrange(0, k));
            let t = side_vals(s.subrange(k + 2, s.len() as int));
            h + Seq::new((8 - h.len() - t.len()) as nat, |i: int| 0u16) + t
        },
    }
}

/// The lowercase hex digit for `d`.
pub open spec fn hex_digit(d: nat) -> char {
    if d < 10 {
        ('0' as u32 + d) as char
    } else {
        ('a' as u32 + d - 10) as char
    }
}

/// The lowercase hex text of `n`, without leading zeros.
pub open spec fn hex_text(n: nat) -> Seq<char>
    decreases n,
{
    if n < 16 {
        seq![hex_digit(n)]
    } else {
        hex_text(n / 16).push(hex_digit(n % 16))
    }
}

/// The groups in hex, separated by colons.
pub open spec fn hex_join(s: Seq<u16>) -> Seq<char>
    decreases s.len(),
{
    if s.len() == 0 {
        seq![]
    } else if s.len() == 1 {
        hex_text(s[0] as nat)
    } else {
        hex_join(s.drop_last()) + ":"@ + hex_text(s.last() as nat)
    }
}

/// The longest run of zero groups from `i` on (the first of several as
/// long), given the run under way and the longest so far, as start and
/// length.
pub open spec fn zero_run_from(
    s: Seq<u16>,
    i: int,
    cur_start: int,
    cur_len: int,
    best_start: int,
    best_len: int,
) -> (int, int)
    decreases s.len() - i,
{
    if i < 0 || i >= s.len() {
        (best_start, best_len)
    } else if s[i] == 0 {
        let cs = if cur_len == 0 {
            i
        } else {
            cur_start
        };
        if cur_len + 1 > best_len {
            zero_run_from(s, i + 1, cs, cur_len + 1, cs, cur_len + 1)
        } else {
            zero_run_from(s, i + 1, cs, cur_len + 1, best_start, best_len)
        }
    } else {
        zero_run_from(s, i + 1, 0, 0, best_start, best_len)
    }
}

/// Whether the groups are those of an IPv4-mapped address (`::ffff:a.b.c.d`).
pub open spec fn is_v4_mapped(s: Seq<u16>) -> bool {
    s.len() == 8 && s[0] == 0 && s[1] == 0 && s[2] == 0 && s[3] == 0 && s[4] == 0 && s[5]
        == 0xffff
}

/// The text of an IPv6 address in the form `Ipv6Addr`'s `Display` writes:
/// a mapped IPv4 address as `::ffff:` and its dotted quad; otherwise the
/// groups in lowercase hex, the longest run of two or more zero groups
/// written `::`.
pub open spec fn ipv6_display(s: Seq<u16>) -> Seq<char> {
    if is_v4_mapped(s) {
        "::ffff:"@ + ipv4_text(
            (s[6] / 256) as u8,
            (s[6] % 256) as u8,
            (s[7] / 256) as u8,
            (s[7] % 256) as u8,
        )
    } else {
        let (st, ln) = zero_run_from(s, 0, 0, 0, 0, 0);
        if ln > 1 {
            hex_join(s.subrange(0, st)) + "::"@ + hex_join(s.subrange(st + ln, s.len() as int))
        } else {
            hex_join(s)
        }
    }
}

/// The dotted-quad text of a 32-bit IPv4 address.
pub open spec fn ipv4_display(a: u32) -> Seq<char> {
    ipv4_text(
        (a / 0x1000000) as u8,
        ((a / 0x10000) % 0x100) as u8,
        ((a / 0x100) % 0x100) as u8,
        (a % 0x100) as u8,
    )
}

/// The text `IpAddr`'s `Display` writes for the address that `s` names.
pub open spec fn ip_display(s: Seq<char>) -> Seq<char> {
    match parse_ipv4(s) {
        Some(a) => ipv4_display(a),
        None => ipv6_display(ipv6_segments(s)),
    }
}

/// The value of a group of one to four hex digits.
fn group_value_exec(t: &str) -> (r: u16)
    requires
        hex_group(t@),
    ensures
        r as nat == hex_value(t@),
{
    let cs = chars_of(t);
    let n = cs.len();
    let mut v: u32 = 0;
    let mut i: usize = 0;
    while i < n
        invariant
            cs@ == t@,
            n == t@.len(),
            1 <= n <= 4,
            hex_group(t@),
            i <= n,
            v == hex_value(t@.subrange(0, i as int)),
            i <= 1 ==> v < 16,
            i <= 2 ==> v < 256,
            i <= 3 ==> v < 4096,
            v < 65536,
        decreases n - i,
    {
        let c = cs[i];
        assert(is_hex(t@[i as int]));
        let u = c as u32;
        let d: u32 = if '0' as u32 <= u && u <= '9' as u32 {
            u - '0' as u32
        } else if 'a' as u32 <= u && u <= 'f' as u32 {
            u - 'a' as u32 + 10
        } else {
            u - 'A' as u32 + 10
        };
        assert(d == hex_val(c));
        let ghost pre = t@.subrange(0, i as int);
        v = v * 16 + d;
        i += 1;
        assert(t@.subrange(0, i as int).drop_last() =~= pre);
    }
    assert(t@.subrange(0, n as int) =~= t@);
    v as u16
}

/// The values written on one side of `::`, which must be well formed.
fn side_values(t: &str, v4_last: bool) -> (r: Vec<u16>)
    requires
        side_count(t@, v4_last) is Some,
    ensures
        r@ == side_vals(t@),
        r@.len() == side_count(t@, v4_last)->0,
{
    let mut out: Vec<u16> = Vec::new();
    if t.unicode_len() == 0 {
        return out;
    }
    let p = split_char(t, ':');
    let ghost ps = views(p@);
    let n = p.len();
    assert(ps.len() == n);
    assert(ps.last() == p@[n - 1]@);
    let last_hex = is_hex_group(p[n - 1].as_str());
    let m = if last_hex {
        n
    } else {
        n - 1
    };
    let mut k: usize = 0;
    while k < m
        invariant
            ps == views(p@),
            ps == pieces(t@, ':'),
            ps.len() == n,
            n >= 1,
            m <= n,
            last_hex == hex_group(ps.last()),
            m == if last_hex {
                n
            } else {
                (n - 1) as usize
            },
            side_count(t@, v4_last) is Some,
            t@.len() > 0,
            k <= m,
            out@ == ps.subrange(0, k as int).map_values(|x: Seq<char>| group_value(x)),
        decreases m - k,
    {
        assert(ps[k as int] == p@[k as int]@);
        assert(hex_group(ps[k as int]));
        let g = group_value_exec(p[k].as_str());
        out.push(g);
        k += 1;
        assert(out@ =~= ps.subrange(0, k as int).map_values(|x: Seq<char>| group_value(x)));
    }
    if last_hex {
        assert(ps.subrange(0, m as int) =~= ps);
    } else {
        assert(ps.subrange(0, m as int) =~= ps.drop_last());
        let a = parse_ipv4_text(p[n - 1].as_str()).unwrap();
        let ghost before = out@;
        out.push((a / 0x10000) as u16);
        out.push((a % 0x10000) as u16);
        assert(out@ =~= before + v4_pair(ps.last()));
    }
    out
}

/// The eight groups of an IPv6 address.
pub fn ipv6_segments_exec(s: &str) -> (r: Vec<u16>)
    requires
        is_ipv6(s@),
    ensures
        r@ == ipv6_segments(s@),
        r@.len() == 8,
{
    let cs = chars_of(s);
    let n = cs.len();
    let mut k: usize = 0;
    let mut found = false;
    while n > 0 && k < n - 1 && !found
        invariant
            cs@ == s@,
            n == s@.len(),
            k <= n,
            !found ==> double_colon(s@) == crate::ip::double_colon_from(s@, k as int),
            found ==> double_colon(s@) == Some(k as int) && k + 1 < n,
        decreases n - k + (if found { 0int } else { 1 }),
    {
        if cs[k] == ':' && cs[k + 1] == ':' {
            found = true;
        } else {
            k += 1;
        }
    }
    if !found {
        return side_values(s, true);
    }
    let head = substring(s, 0, k);
    let tail = substring(s, k + 2, n);
    let h = side_values(head.as_str(), false);
    let t = side_values(tail.as_str(), true);
    let fill = 8 - h.len() - t.len();
    let mut out = h;
    let ghost hv = out@;
    let mut i: usize = 0;
    while i < fill
        invariant
            out@ == hv + Seq::new(i as nat, |j: int| 0u16),
            i <= fill,
        decreases fill - i,
    {
        out.push(0);
        i += 1;
        assert(out@ =~= hv + Seq::new(i as nat, |j: int| 0u16));
    }
    let ghost mid = out@;
    let mut j: usize = 0;
    while j < t.len()
        invariant
            out@ == mid + t@.subrange(0, j as int),
            j <= t.len(),
        decreases t.len() - j,
    {
        out.push(t[j]);
        j += 1;
        assert(out@ =~= mid + t@.subrange(0, j as int));
    }
    assert(t@.subrange(0, j as int) =~= t@);
    out
}

/// The one-character string holding the lowercase hex digit `d`.
fn hex_digit_string(d: u16) -> (r: String)
    requires
        d < 16,
    ensures
        r@ == seq![hex_digit(d as nat)],
{
    let all = "0123456789abcdef";
    proof {
        reveal_strlit("0123456789abcdef");
    }
    let r = String::from_str(all.substring_char(d as usize, d as usize + 1));
    assert(r@ =~= seq![hex_digit(d as nat)]);
    r
}

/// The lowercase hex text of `n`.
fn u16_hex(n: u16) -> (r: String)
    ensures
        r@ == hex_text(n as nat),
{
    if n < 16 {
        return hex_digit_string(n);
    }
    let mut s = if n < 256 {
        hex_digit_string(n / 16)
    } else if n < 4096 {
        let mut s = hex_digit_string(n / 256);
        s.append(hex_digit_string((n / 16) % 16).as_str());
        assert(hex_text((n / 16) as nat) == hex_text((n / 256) as nat).push(
            hex_digit(((n / 16) % 16) as nat),
        ));
        s
    } else {
        let mut s = hex_digit_string(n / 4096);
        s.append(hex_digit_string((n / 256) % 16).as_str());
        s.append(hex_digit_string((n / 16) % 16).as_str());
        assert(hex_text((n / 256) as nat) == hex_text((n / 4096) as nat).push(
            hex_digit(((n / 256) % 16) as nat),
        ));
        assert(hex_text((n / 16) as nat) == hex_text((n / 256) as nat).push(
            hex_digit(((n / 16) % 16) as nat),
        ));
        s
    };
    assert(s@ =~= hex_text((n / 16) as nat));
    s.append(hex_digit_string(n % 16).as_str());
    assert(s@ =~= hex_text(n as nat));
    s
}

/// Appends the groups `from..to` of `segs`, in hex, separated by colons.
fn push_hex_join(out: &mut String, segs: &Vec<u16>, from: usize, to: usize)
    requires
        from <= to <= segs@.len(),
    ensures
        final(out)@ == old(out)@ + hex_join(segs@.subrange(from as int, to as int)),
{
    let ghost start = out@;
    let mut k: usize = from;
    while k < to
        invariant
            from <= k <= to,
            to <= segs@.len(),
            out@ == start + hex_join(segs@.subrange(from as int, k as int)),
        decreases to - k,
    {
        let ghost before = out@;
        let ghost sub = segs@.subrange(from as int, k + 1);
        assert(sub.drop_last() =~= segs@.subrange(from as int, k as int));
        if k > from {
            out.append(":");
        }
        out.append(u16_hex(segs[k]).as_str());
        if k == from {
            assert(out@ =~= start + hex_join(sub));
        } else {
            assert(out@ =~= start + hex_join(sub));
        }
        k += 1;
    }
}

/// The longest run of zero groups, as start and length.
fn zero_run(segs: &Vec<u16>) -> (r: (usize, usize))
    ensures
        r.0 as int == zero_run_from(segs@, 0, 0, 0, 0, 0).0,
        r.1 as int == zero_run_from(segs@, 0, 0, 0, 0, 0).1,
        r.1 <= segs@.len(),
        r.0 + r.1 <= segs@.len(),
{
    let mut cur_start: usize = 0;
    let mut cur_len: usize = 0;
    let mut best_start: usize = 0;
    let mut best_len: usize = 0;
    let mut i: usize = 0;
    while i < segs.len()
        invariant
            i <= segs@.len(),
            cur_len <= i,
            cur_start + cur_len <= i,
            best_start + best_len <= i,
            cur_len > 0 ==> cur_start + cur_len == i,
            zero_run_from(segs@, 0, 0, 0, 0, 0) == zero_run_from(
                segs@,
                i as int,
                cur_start as int,
                cur_len as int,
                best_start as int,
                best_len as int,
            ),
        decreases segs.len() - i,
    {
        if segs[i] == 0 {
            if cur_len == 0 {
                cur_start = i;
            }
            cur_len += 1;
            if cur_len > best_len {
                best_start = cur_start;
                best_len = cur_len;
            }
        } else {
            cur_start = 0;
            cur_len = 0;
        }
        i += 1;
    }
    (best_start, best_len)
}

/// The text of an IPv6 address given by its groups.
pub fn ipv6_display_exec(segs: &Vec<u16>) -> (r: String)
    ensures
        r@ == ipv6_display(segs@),
{
    if segs.len() == 8 && segs[0] == 0 && segs[1] == 0 && segs[2] == 0 && segs[3] == 0 && segs[4]
        == 0 && segs[5] == 0xffff {
        let mut r = String::from_str("::ffff:");
        let v4 = ipv4_string(
            (segs[6] / 256) as u8,
            (segs[6] % 256) as u8,
            (segs[7] / 256) as u8,
            (segs[7] % 256) as u8,
        );
        r.append(v4.as_str());
        return r;
    }
    let (st, ln) = zero_run(segs);
    let mut r = String::new();
    if ln > 1 {
        push_hex_join(&mut r, segs, 0, st);
        r.append("::");
        push_hex_join(&mut r, segs, st + ln, segs.len());
        assert(r@ =~= ipv6_display(segs@));
    } else {
        push_hex_join(&mut r, segs, 0, segs.len());
        assert(segs@.subrange(0, segs@.len() as int) =~= segs@);
    }
    r
}

/// The text `IpAddr`'s `Display` writes for the address that `s` names.
pub fn display_address(s: &str) -> (r: String)
    requires
        crate::ip::is_ip(s@),
    ensures
        r@ == ip_display(s@),
{
    match parse_ipv4_text(s) {
        Some(a) => ipv4_string(
            (a / 0x1000000) as u8,
            ((a / 0x10000) % 0x100) as u8,
            ((a / 0x100) % 0x100) as u8,
            (a % 0x100) as u8,
        ),
        None => {
            let segs = ipv6_segments_exec(s);
            ipv6_display_exec(&segs)
        },
    }
}

} // verus!
