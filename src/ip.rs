use vstd::prelude::*;
use vstd::string::*;
use crate::text::{chars_of, pieces, pieces_from, split_char, substring, views};

verus! {

pub open spec fn is_digit(c: char) -> bool {
    '0' as u32 <= c as u32 <= '9' as u32
}

pub open spec fn digit_val(c: char) -> nat {
    (c as u32 - '0' as u32) as nat
}

/// The decimal value of a run of digits.
pub open spec fn dec_value(t: Seq<char>) -> nat
    decreases t.len(),
{
    if t.len() == 0 {
        0
    } else {
        dec_value(t.drop_last()) * 10 + digit_val(t.last())
    }
}

pub open spec fn all_digits(t: Seq<char>) -> bool {
    forall|i: int| 0 <= i < t.len() ==> is_digit(#[trigger] t[i])
}

/// One octet of a dotted quad: one to three digits, no leading zero, at most 255.
pub open spec fn octet_value(t: Seq<char>) -> Option<u8> {
    if 1 <= t.len() <= 3 && all_digits(t) && (t.len() == 1 || t[0] != '0') && dec_value(t)
        <= 255 {
        Some(dec_value(t) as u8)
    } else {
        None
    }
}

/// The address, as a 32-bit number, that `s` writes in dotted-quad form.
pub open spec fn parse_ipv4(s: Seq<char>) -> Option<u32> {
    let p = pieces(s, '.');
    if p.len() == 4 && octet_value(p[0]) is Some && octet_value(p[1]) is Some && octet_value(
        p[2],
    ) is Some && octet_value(p[3]) is Some {
        Some(
            quad(
                octet_value(p[0])->0,
                octet_value(p[1])->0,
                octet_value(p[2])->0,
                octet_value(p[3])->0,
            ),
        )
    } else {
        None
    }
}

/// The 32-bit address with the given four octets, most significant first.
pub open spec fn quad(a: u8, b: u8, c: u8, d: u8) -> u32 {
    (a as int * 0x1000000 + b as int * 0x10000 + c as int * 0x100 + d as int) as u32
}

/// Whether `a` lies in the block of `size` addresses that begins at `net`.
pub open spec fn in_block(a: u32, net: u32, size: int) -> bool {
    net as int <= a as int && (a as int) < net as int + size
}

/// An address that is no plausible public VPN endpoint: private, loopback,
/// link-local, unspecified, `128.0.0.0`, broadcast or multicast.
pub open spec fn is_reserved(a: u32) -> bool {
    ||| a == 0
    ||| a == 0x80000000
    ||| in_block(a, 0x0A000000, 0x1000000)
    ||| in_block(a, 0xAC100000, 0x100000)
    ||| in_block(a, 0xC0A80000, 0x10000)
    ||| in_block(a, 0x7F000000, 0x1000000)
    ||| in_block(a, 0xA9FE0000, 0x10000)
    ||| a == 0xFFFFFFFF
    ||| a >= 0xE0000000
}

/// Whether the text `s` names a plausible public VPN endpoint: an IPv4
/// address outside every reserved block.
pub open spec fn is_endpoint(s: Seq<char>) -> bool {
    match parse_ipv4(s) {
        Some(a) => !is_reserved(a),
        None => false,
    }
}

/// The decimal digit for `d`.
pub open spec fn digit_char(d: nat) -> char {
    ('0' as u32 + d) as char
}

/// The decimal text of `n`, without leading zeros.
pub open spec fn dec_text(n: nat) -> Seq<char>
    decreases n,
{
    if n < 10 {
        seq![digit_char(n)]
    } else {
        dec_text(n / 10).push(digit_char(n % 10))
    }
}

/// The dotted-quad text of an address, as `Ipv4Addr`'s `Display` writes it.
pub open spec fn ipv4_text(a: u8, b: u8, c: u8, d: u8) -> Seq<char> {
    dec_text(a as nat) + seq!['.'] + dec_text(b as nat) + seq!['.'] + dec_text(c as nat) + seq![
        '.',
    ] + dec_text(d as nat)
}

pub open spec fn is_hex(c: char) -> bool {
    ||| is_digit(c)
    ||| 'a' as u32 <= c as u32 <= 'f' as u32
    ||| 'A' as u32 <= c as u32 <= 'F' as u32
}

/// One group of an IPv6 address: one to four hex digits.
pub open spec fn hex_group(t: Seq<char>) -> bool {
    1 <= t.len() <= 4 && forall|i: int| 0 <= i < t.len() ==> is_hex(#[trigger] t[i])
}

/// How many 16-bit groups the colon-separated pieces `p` make up, if each is a
/// hex group; where `v4_last` holds, the last piece may be a dotted quad,
/// which makes two.
pub open spec fn group_count(p: Seq<Seq<char>>, v4_last: bool) -> Option<nat> {
    if p.len() == 0 {
        None
    } else if !(forall|i: int| 0 <= i < p.len() - 1 ==> hex_group(#[trigger] p[i])) {
        None
    } else if hex_group(p.last()) {
        Some(p.len())
    } else if v4_last && parse_ipv4(p.last()) is Some {
        Some(p.len() + 1)
    } else {
        None
    }
}

/// The groups written on one side of `::` (none for an empty side).
pub open spec fn side_count(t: Seq<char>, v4_last: bool) -> Option<nat> {
    if t.len() == 0 {
        Some(0)
    } else {
        group_count(pieces(t, ':'), v4_last)
    }
}

/// The position of the first `::` in `s` at `k` or later, if any.
pub open spec fn double_colon_from(s: Seq<char>, k: int) -> Option<int>
    decreases s.len() - k,
{
    if k < 0 || k + 1 >= s.len() {
        None
    } else if s[k] == ':' && s[k + 1] == ':' {
        Some(k)
    } else {
        double_colon_from(s, k + 1)
    }
}

pub open spec fn double_colon(s: Seq<char>) -> Option<int> {
    double_colon_from(s, 0)
}

/// Whether `s` is an IPv6 address in the text form that std accepts: eight
/// groups, or fewer around one `::`, the last two of which may be written
/// as a dotted quad.
pub open spec fn is_ipv6(s: Seq<char>) -> bool {
    match double_colon(s) {
        None => group_count(pieces(s, ':'), true) == Some(8nat),
        Some(k) => {
            let head = side_count(s.subrange(0, k), false);
            let tail = side_count(s.subrange(k + 2, s.len() as int), true);
            head is Some && tail is Some && head->0 + tail->0 <= 7
        },
    }
}

/// Whether `s` is an IPv4 or IPv6 address.
pub open spec fn is_ip(s: Seq<char>) -> bool {
    parse_ipv4(s) is Some || is_ipv6(s)
}

fn is_hex_char(c: char) -> (r: bool)
    ensures
        r == is_hex(c),
{
    let u = c as u32;
    ('0' as u32 <= u && u <= '9' as u32) || ('a' as u32 <= u && u <= 'f' as u32) || ('A' as u32
        <= u && u <= 'F' as u32)
}

pub fn is_hex_group(t: &str) -> (r: bool)
    ensures
        r == hex_group(t@),
{
    let cs = chars_of(t);
    if cs.len() < 1 || cs.len() > 4 {
        return false;
    }
    let mut i: usize = 0;
    while i < cs.len()
        invariant
            cs@ == t@,
            i <= cs.len(),
            forall|k: int| 0 <= k < i ==> is_hex(#[trigger] t@[k]),
        decreases cs.len() - i,
    {
        if !is_hex_char(cs[i]) {
            return false;
        }
        i += 1;
    }
    true
}

/// For a side of `::` (or a whole address), the number of colon-separated
/// pieces and whether the last is a dotted quad, when they make up groups.
fn count_groups(t: &str, v4_last: bool) -> (r: Option<(usize, bool)>)
    ensures
        match side_count(t@, v4_last) {
            Some(g) => r matches Some((n, q)) && g == n + (if q { 1int } else { 0 }) && (q
                ==> v4_last),
            None => r is None,
        },
{
    if t.unicode_len() == 0 {
        return Some((0, false));
    }
    let p = split_char(t, ':');
    let ghost ps = views(p@);
    let n = p.len();
    assert(ps.len() == n);
    assert(t@.len() != 0);
    assert(side_count(t@, v4_last) == group_count(ps, v4_last));
    let mut i: usize = 0;
    while i < n - 1
        invariant
            ps == views(p@),
            ps.len() == n,
            side_count(t@, v4_last) == group_count(ps, v4_last),
            n >= 1,
            i < n,
            forall|k: int| 0 <= k < i ==> hex_group(#[trigger] ps[k]),
        decreases n - i,
    {
        assert(ps[i as int] == p@[i as int]@);
        if !is_hex_group(p[i].as_str()) {
            assert(!hex_group(ps[i as int]));
            assert(group_count(ps, v4_last) is None);
            return None;
        }
        i += 1;
    }
    assert(ps.last() == p@[n - 1]@);
    if is_hex_group(p[n - 1].as_str()) {
        Some((n, false))
    } else if v4_last && parse_ipv4_text(p[n - 1].as_str()).is_some() {
        Some((n, true))
    } else {
        None
    }
}

/// The position of the first `::` in `cs`.
fn find_double_colon(cs: &Vec<char>) -> (r: Option<usize>)
    ensures
        match double_colon(cs@) {
            Some(k) => r == Some(k as usize) && 0 <= k && k + 1 < cs@.len(),
            None => r is None,
        },
{
    let n = cs.len();
    let mut k: usize = 0;
    while n > 0 && k < n - 1
        invariant
            n == cs@.len(),
            k <= n,
            double_colon(cs@) == double_colon_from(cs@, k as int),
        decreases n - k,
    {
        if cs[k] == ':' && cs[k + 1] == ':' {
            return Some(k);
        }
        k += 1;
    }
    None
}

/// Whether `s` is an IPv6 address.
pub fn is_ipv6_text(s: &str) -> (r: bool)
    ensures
        r == is_ipv6(s@),
{
    let n = s.unicode_len();
    let found = find_double_colon(&chars_of(s));
    if found.is_none() {
        if n == 0 {
            assert(group_count(pieces(s@, ':'), true) != Some(8nat)) by {
                assert(pieces(s@, ':') == seq![s@.subrange(0, 0)]);
                assert(!hex_group(s@.subrange(0, 0)));
            }
            return false;
        }
        assert(side_count(s@, true) == group_count(pieces(s@, ':'), true));
        return match count_groups(s, true) {
            Some((g, q)) => if q {
                g == 7
            } else {
                g == 8
            },
            None => false,
        };
    }
    let k = found.unwrap();
    let head = substring(s, 0, k);
    let tail = substring(s, k + 2, n);
    match (count_groups(head.as_str(), false), count_groups(tail.as_str(), true)) {
        (Some((a, _)), Some((b, q))) => a <= 7 && b <= 7 - a && (!q || b < 7 - a),
        _ => false,
    }
}

/// Whether `s` is an IPv4 or IPv6 address.
pub fn is_ip_text(s: &str) -> (r: bool)
    ensures
        r == is_ip(s@),
{
    parse_ipv4_text(s).is_some() || is_ipv6_text(s)
}

/// The value of an octet written in decimal.
pub fn parse_octet(t: &str) -> (r: Option<u8>)
    ensures
        r == octet_value(t@),
{
    let cs = chars_of(t);
    let n = cs.len();
    if n < 1 || n > 3 {
        return None;
    }
    if n > 1 && cs[0] == '0' {
        return None;
    }
    let mut v: u32 = 0;
    let mut i: usize = 0;
    while i < n
        invariant
            cs@ == t@,
            n == t@.len(),
            1 <= n <= 3,
            i <= n,
            forall|k: int| 0 <= k < i ==> is_digit(#[trigger] t@[k]),
            v == dec_value(t@.subrange(0, i as int)),
            i <= 1 ==> v < 10,
            i <= 2 ==> v < 100,
            v < 1000,
        decreases n - i,
    {
        let c = cs[i] as u32;
        if !('0' as u32 <= c && c <= '9' as u32) {
            assert(!is_digit(t@[i as int]));
            assert(!all_digits(t@));
            return None;
        }
        let ghost pre = t@.subrange(0, i as int);
        v = v * 10 + (c - '0' as u32);
        i += 1;
        assert(t@.subrange(0, i as int).drop_last() =~= pre);
    }
    assert(t@.subrange(0, n as int) =~= t@);
    if v > 255 {
        None
    } else {
        Some(v as u8)
    }
}

/// The address that `s` writes as a dotted quad, if it is one.
pub fn parse_ipv4_text(s: &str) -> (r: Option<u32>)
    ensures
        r == parse_ipv4(s@),
{
    let p = split_char(s, '.');
    if p.len() != 4 {
        return None;
    }
    assert(views(p@)[0] == p@[0]@);
    assert(views(p@)[1] == p@[1]@);
    assert(views(p@)[2] == p@[2]@);
    assert(views(p@)[3] == p@[3]@);
    let a = match parse_octet(p[0].as_str()) {
        Some(x) => x,
        None => return None,
    };
    let b = match parse_octet(p[1].as_str()) {
        Some(x) => x,
        None => return None,
    };
    let c = match parse_octet(p[2].as_str()) {
        Some(x) => x,
        None => return None,
    };
    let d = match parse_octet(p[3].as_str()) {
        Some(x) => x,
        None => return None,
    };
    Some(a as u32 * 0x1000000 + b as u32 * 0x10000 + c as u32 * 0x100 + d as u32)
}

/// Whether the text names a plausible public VPN endpoint. Every detection
/// strategy passes its candidates through this one check.
pub fn is_vpn_gateway(ip: &str) -> (r: bool)
    ensures
        r == is_endpoint(ip@),
{
    let a = match parse_ipv4_text(ip) {
        Some(a) => a,
        None => return false,
    };
    !(a == 0 || a == 0x80000000 || (0x0A000000 <= a && a <= 0x0AFFFFFF) || (0xAC100000 <= a && a
        <= 0xAC1FFFFF) || (0xC0A80000 <= a && a <= 0xC0A8FFFF) || (0x7F000000 <= a && a
        <= 0x7FFFFFFF) || (0xA9FE0000 <= a && a <= 0xA9FEFFFF) || a == 0xFFFFFFFF || a
        >= 0xE0000000)
}

/// The one-character string holding the decimal digit `d`.
fn digit_string(d: u8) -> (r: String)
    requires
        d < 10,
    ensures
        r@ == seq![digit_char(d as nat)],
{
    let all = "0123456789";
    proof {
        reveal_strlit("0123456789");
    }
    let r = String::from_str(all.substring_char(d as usize, d as usize + 1));
    assert(r@ =~= seq![digit_char(d as nat)]);
    r
}

/// The decimal text of `n`.
pub fn u8_text(n: u8) -> (r: String)
    ensures
        r@ == dec_text(n as nat),
{
    if n < 10 {
        digit_string(n)
    } else if n < 100 {
        let mut s = digit_string(n / 10);
        let t = digit_string(n % 10);
        s.append(t.as_str());
        assert(dec_text((n / 10) as nat) == seq![digit_char((n / 10) as nat)]);
        assert(s@ =~= dec_text(n as nat));
        s
    } else {
        let mut s = digit_string(n / 100);
        let t = digit_string((n / 10) % 10);
        let u = digit_string(n % 10);
        s.append(t.as_str());
        s.append(u.as_str());
        assert(dec_text((n / 10) as nat) == dec_text((n / 100) as nat).push(
            digit_char(((n / 10) % 10) as nat),
        ));
        assert(s@ =~= dec_text(n as nat));
        s
    }
}

/// The dotted-quad text of the address with the four given octets.
pub fn ipv4_string(a: u8, b: u8, c: u8, d: u8) -> (r: String)
    ensures
        r@ == ipv4_text(a, b, c, d),
{
    let dot = ".";
    proof {
        reveal_strlit(".");
    }
    let mut s = u8_text(a);
    s.append(dot);
    s.append(u8_text(b).as_str());
    s.append(dot);
    s.append(u8_text(c).as_str());
    s.append(dot);
    s.append(u8_text(d).as_str());
    assert(s@ =~= ipv4_text(a, b, c, d));
    s
}

/// Addresses in the private blocks `10/8`, `172.16/12` and `192.168/16`, in
/// loopback `127/8` and in link-local `169.254/16` are refused.
pub proof fn lemma_private_rejected(s: Seq<char>, a: u32)
    requires
        parse_ipv4(s) == Some(a),
        in_block(a, 0x0A000000, 0x1000000) || in_block(a, 0xAC100000, 0x100000) || in_block(
            a,
            0xC0A80000,
            0x10000,
        ) || in_block(a, 0x7F000000, 0x1000000) || in_block(a, 0xA9FE0000, 0x10000),
    ensures
        !is_endpoint(s),
{
}

/// An address from `1.0.0.0` up to below `224.0.0.0` that lies in none of
/// those blocks is accepted, `128.0.0.0` excepted.
pub proof fn lemma_public_accepted(s: Seq<char>, a: u32)
    requires
        parse_ipv4(s) == Some(a),
        0x01000000 <= a < 0xE0000000,
        a != 0x80000000,
        !in_block(a, 0x0A000000, 0x1000000),
        !in_block(a, 0xAC100000, 0x100000),
        !in_block(a, 0xC0A80000, 0x10000),
        !in_block(a, 0x7F000000, 0x1000000),
        !in_block(a, 0xA9FE0000, 0x10000),
    ensures
        is_endpoint(s),
{
}

/// `0.0.0.0`, `128.0.0.0`, `255.255.255.255` and every address from
/// `224.0.0.0` up are refused.
pub proof fn lemma_special_rejected(s: Seq<char>, a: u32)
    requires
        parse_ipv4(s) == Some(a),
        a == 0 || a == 0x80000000 || a == 0xFFFFFFFF || a >= 0xE0000000,
    ensures
        !is_endpoint(s),
{
}

/// A character of `s` other than `sep`, at or after `start`, lies in one of
/// the pieces from `i` on.
proof fn lemma_char_in_piece(s: Seq<char>, sep: char, i: int, start: int, k: int)
    requires
        0 <= start <= i <= s.len(),
        start <= k < s.len(),
        s[k] != sep,
        forall|j: int| start <= j < i ==> s[j] != sep,
    ensures
        exists|j: int, m: int|
            0 <= j < pieces_from(s, sep, i, start).len() && 0 <= m < pieces_from(
                s,
                sep,
                i,
                start,
            )[j].len() && #[trigger] pieces_from(s, sep, i, start)[j][m] == s[k],
    decreases s.len() - i,
{
    let p = pieces_from(s, sep, i, start);
    if i >= s.len() {
        assert(p[0][k - start] == s[k]);
    } else if s[i] == sep {
        if k < i {
            assert(p[0][k - start] == s[k]);
        } else {
            lemma_char_in_piece(s, sep, i + 1, i + 1, k);
            let q = pieces_from(s, sep, i + 1, i + 1);
            let (j, m) = choose|j: int, m: int|
                0 <= j < q.len() && 0 <= m < q[j].len() && #[trigger] q[j][m] == s[k];
            assert(p[j + 1][m] == s[k]);
        }
    } else {
        lemma_char_in_piece(s, sep, i + 1, start, k);
    }
}

/// A dotted quad holds no colon.
proof fn lemma_ipv4_has_no_colon(s: Seq<char>, k: int)
    requires
        parse_ipv4(s) is Some,
        0 <= k < s.len(),
    ensures
        s[k] != ':',
{
    if s[k] == ':' {
        lemma_char_in_piece(s, '.', 0, 0, k);
        let p = pieces(s, '.');
        let (j, m) = choose|j: int, m: int|
            0 <= j < p.len() && 0 <= m < p[j].len() && #[trigger] p[j][m] == s[k];
        assert(all_digits(p[j]));
        assert(is_digit(p[j][m]));
    }
}

/// Text without `sep` from `i` on makes one piece.
proof fn lemma_one_piece(s: Seq<char>, sep: char, i: int, start: int)
    requires
        0 <= start <= i <= s.len(),
        forall|j: int| i <= j < s.len() ==> s[j] != sep,
    ensures
        pieces_from(s, sep, i, start).len() == 1,
    decreases s.len() - i,
{
    if i < s.len() {
        lemma_one_piece(s, sep, i + 1, start);
    }
}

/// The first `::` found from `k` on is one.
proof fn lemma_double_colon_at(s: Seq<char>, k: int)
    requires
        double_colon_from(s, k) is Some,
    ensures
        0 <= double_colon_from(s, k)->0 < s.len(),
        s[double_colon_from(s, k)->0] == ':',
    decreases s.len() - k,
{
    if !(k < 0 || k + 1 >= s.len()) && !(s[k] == ':' && s[k + 1] == ':') {
        lemma_double_colon_at(s, k + 1);
    }
}

/// Every IPv6 address is refused: its text holds a colon, which no dotted
/// quad does.
pub proof fn lemma_ipv6_rejected(s: Seq<char>)
    requires
        is_ipv6(s),
    ensures
        !is_endpoint(s),
{
    if parse_ipv4(s) is Some {
        match double_colon(s) {
            Some(k) => {
                lemma_double_colon_at(s, 0);
                lemma_ipv4_has_no_colon(s, k);
            },
            None => {
                assert forall|j: int| 0 <= j < s.len() implies s[j] != ':' by {
                    lemma_ipv4_has_no_colon(s, j);
                }
                lemma_one_piece(s, ':', 0, 0);
            },
        }
    }
}

} // verus!
