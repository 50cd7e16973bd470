use vstd::prelude::*;
use vstd::string::*;
use crate::ip::{dec_text, is_hex, u8_text};
use crate::network::word_after;
use crate::text::{
    after, chars_of, contains, contains_str, lines, lines_of, pieces, split_char, split_words,
    starts_with, starts_with_str, substring, trim, trim_str, views, words,
};

verus! {

/// One active network interface: its name, its MAC address (empty when it
/// has none), its first IPv4 address (as `address/prefix` on a physical
/// interface, bare on a point-to-point one) and whether it is point-to-point.
#[derive(Debug, Clone, PartialEq, Eq)]
pub struct InterfaceInfo {
    pub name: String,
    pub mac: String,
    pub ip: String,
    pub is_p2p: bool,
}

/// An interface as plain values: name, MAC address, address and whether
/// it is point-to-point.
pub open spec fn iface_view(i: InterfaceInfo) -> (Seq<char>, Seq<char>, Seq<char>, bool) {
    (i.name@, i.mac@, i.ip@, i.is_p2p)
}

pub open spec fn iface_views(v: Seq<InterfaceInfo>) -> Seq<(Seq<char>, Seq<char>, Seq<char>, bool)> {
    v.map_values(|i: InterfaceInfo| iface_view(i))
}

/// The value of a hex digit.
pub open spec fn hex_val(c: char) -> nat {
    let u = c as u32;
    if '0' as u32 <= u <= '9' as u32 {
        (u - '0' as u32) as nat
    } else if 'a' as u32 <= u <= 'f' as u32 {
        (u - 'a' as u32 + 10) as nat
    } else {
        (u - 'A' as u32 + 10) as nat
    }
}

/// The value of a run of hex digits.
pub open spec fn hex_value(t: Seq<char>) -> nat
    decreases t.len(),
{
    if t.len() == 0 {
        0
    } else {
        hex_value(t.drop_last()) * 16 + hex_val(t.last())
    }
}

pub open spec fn all_hex(d: Seq<char>) -> bool {
    forall|i: int| 0 <= i < d.len() ==> is_hex(#[trigger] d[i])
}

/// The 32-bit number that `t` writes in hex, as `u32::from_str_radix` with
/// radix 16 reads it: an optional `+`, then at least one hex digit, the
/// value below `2^32`.
pub open spec fn parse_hex_u32(t: Seq<char>) -> Option<u32> {
    let d = if t.len() > 0 && t[0] == '+' {
        t.drop_first()
    } else {
        t
    };
    if d.len() > 0 && all_hex(d) && hex_value(d) < 0x1_0000_0000 {
        Some(hex_value(d) as u32)
    } else {
        None
    }
}

/// The number of one bits among the low `n` bits of `v`.
pub open spec fn ones(v: nat, n: nat) -> nat
    decreases n,
{
    if n == 0 {
        0
    } else {
        ones(v / 2, (n - 1) as nat) + v % 2
    }
}

/// The prefix length of a subnet mask written `0x` and hex digits: the
/// number of its one bits.
pub open spec fn mask_prefix(s: Seq<char>) -> Option<u8> {
    if s.len() >= 2 && s[0] == '0' && s[1] == 'x' {
        match parse_hex_u32(after(s, 2)) {
            Some(v) => Some(ones(v as nat, 32) as u8),
            None => None,
        }
    } else {
        None
    }
}

fn hex_digit_value(c: char) -> (r: u64)
    requires
        is_hex(c),
    ensures
        r == hex_val(c),
        r < 16,
{
    let u = c as u32;
    if '0' as u32 <= u && u <= '9' as u32 {
        (u - '0' as u32) as u64
    } else if 'a' as u32 <= u && u <= 'f' as u32 {
        (u - 'a' as u32 + 10) as u64
    } else {
        (u - 'A' as u32 + 10) as u64
    }
}

/// The number that `t` writes in hex, if it is one that fits in 32 bits.
pub fn parse_hex(t: &str) -> (r: Option<u32>)
    ensures
        r == parse_hex_u32(t@),
{
    let cs = chars_of(t);
    let n = cs.len();
    let first: usize = if n > 0 && cs[0] == '+' {
        1
    } else {
        0
    };
    let ghost d = if t@.len() > 0 && t@[0] == '+' {
        t@.drop_first()
    } else {
        t@
    };
    assert(d =~= t@.subrange(first as int, n as int));
    if first >= n {
        return None;
    }
    let cap: u64 = 0x1_0000_0000;
    let mut v: u64 = 0;
    let mut i: usize = first;
    while i < n
        invariant
            cs@ == t@,
            n == t@.len(),
            first <= i <= n,
            d == t@.subrange(first as int, n as int),
            d == if t@.len() > 0 && t@[0] == '+' {
                t@.drop_first()
            } else {
                t@
            },
            cap == 0x1_0000_0000,
            forall|k: int| first <= k < i ==> is_hex(#[trigger] t@[k]),
            v == if hex_value(t@.subrange(first as int, i as int)) < cap {
                hex_value(t@.subrange(first as int, i as int))
            } else {
                cap as nat
            },
        decreases n - i,
    {
        let c = cs[i];
        if !is_hex_char(c) {
            assert(d[i - first] == t@[i as int]);
            assert(!is_hex(d[i - first]));
            assert(!all_hex(d));
            return None;
        }
        let ghost pre = t@.subrange(first as int, i as int);
        let x = v * 16 + hex_digit_value(c);
        v = if x < cap {
            x
        } else {
            cap
        };
        i += 1;
        assert(t@.subrange(first as int, i as int).drop_last() =~= pre);
    }
    assert(all_hex(d)) by {
        assert forall|k: int| 0 <= k < d.len() implies is_hex(#[trigger] d[k]) by {
            assert(d[k] == t@[first + k]);
        }
    }
    if v < cap {
        Some(v as u32)
    } else {
        None
    }
}

fn is_hex_char(c: char) -> (r: bool)
    ensures
        r == is_hex(c),
{
    let u = c as u32;
    ('0' as u32 <= u && u <= '9' as u32) || ('a' as u32 <= u && u <= 'f' as u32) || ('A' as u32
        <= u && u <= 'F' as u32)
}

/// The number of one bits of `v`.
pub fn count_ones(v: u32) -> (r: u32)
    ensures
        r == ones(v as nat, 32),
        r <= 32,
{
    let mut x: u32 = v;
    let mut c: u32 = 0;
    let mut i: u32 = 0;
    while i < 32
        invariant
            i <= 32,
            c <= i,
            c + ones(x as nat, (32 - i) as nat) == ones(v as nat, 32),
        decreases 32 - i,
    {
        c = c + x % 2;
        x = x / 2;
        i += 1;
    }
    c
}

/// The prefix length of a subnet mask written as `0x` and hex digits (the
/// population count of its bits); `None` where the text is no such mask.
pub fn hex_to_cidr(hex: &str) -> (r: Option<u8>)
    ensures
        r == mask_prefix(hex@),
{
    let n = hex.unicode_len();
    if n < 2 || hex.get_char(0) != '0' || hex.get_char(1) != 'x' {
        return None;
    }
    let digits = substring(hex, 2, n);
    match parse_hex(digits.as_str()) {
        Some(v) => Some(count_ones(v) as u8),
        None => None,
    }
}

/// What opens the line that holds an interface's MAC address.
pub const ETHER_PREFIX: &'static str = "ether ";

/// Whether an interface-listing line opens the block of an interface.
pub open spec fn is_header(l: Seq<char>) -> bool {
    !starts_with(l, "\t"@) && !starts_with(l, " "@) && contains(l, ": flags="@)
}

/// The name an interface block stands under: empty where the interface is
/// down or is the loopback, whose lines are then passed over.
pub open spec fn header_name(l: Seq<char>) -> Seq<char> {
    if contains(l, "UP"@) && !contains(l, "LOOPBACK"@) {
        pieces(l, ':')[0]
    } else {
        seq![]
    }
}

/// The address to show for a trimmed `inet` line: bare on a point-to-point
/// interface, else with the prefix length of its netmask where that reads.
/// Loopback addresses give none.
pub open spec fn inet_entry(t: Seq<char>, p2p: bool) -> Option<Seq<char>> {
    let ws = words(t);
    if starts_with(t, "inet "@) && ws.len() > 1 && !starts_with(ws[1], "127."@) {
        if p2p {
            Some(ws[1])
        } else {
            match word_after(ws, "netmask"@) {
                Some(m) => match mask_prefix(m) {
                    Some(c) => Some(ws[1] + "/"@ + dec_text(c as nat)),
                    None => Some(ws[1]),
                },
                None => Some(ws[1]),
            }
        }
    } else {
        None
    }
}

/// The MAC address after a trimmed line, given the one known before it.
pub open spec fn mac_after(t: Seq<char>, mac: Seq<char>) -> Seq<char> {
    if starts_with(t, ETHER_PREFIX@) {
        trim(after(t, ETHER_PREFIX@.len() as int))
    } else {
        mac
    }
}

/// The entry a block gives once it ends: one, with the block's name, MAC
/// address, first address and kind, where the block is kept and shows an
/// address; none otherwise.
pub open spec fn block_entry(name: Seq<char>, mac: Seq<char>, p2p: bool, ip: Option<Seq<char>>) -> Seq<
    (Seq<char>, Seq<char>, Seq<char>, bool),
> {
    if name.len() > 0 && ip is Some {
        seq![(name, mac, ip->0, p2p)]
    } else {
        seq![]
    }
}

/// The interfaces that the listing lines `ls` show from `i` on, where the
/// block under way belongs to `name` (empty: one passed over), with the MAC
/// address `mac` seen so far, point-to-point where `p2p` holds, and with
/// `ip` its first address found so far. Each block gives at most one entry,
/// when it ends: later addresses of the block are passed over, and an
/// `ether` line anywhere in the block gives its MAC address.
pub open spec fn ifaces_from(
    ls: Seq<Seq<char>>,
    i: int,
    name: Seq<char>,
    mac: Seq<char>,
    p2p: bool,
    ip: Option<Seq<char>>,
) -> Seq<(Seq<char>, Seq<char>, Seq<char>, bool)>
    decreases ls.len() - i,
{
    if i < 0 || i >= ls.len() {
        block_entry(name, mac, p2p, ip)
    } else if is_header(ls[i]) {
        block_entry(name, mac, p2p, ip) + ifaces_from(
            ls,
            i + 1,
            header_name(ls[i]),
            seq![],
            contains(ls[i], "POINTOPOINT"@),
            None,
        )
    } else if name.len() == 0 {
        ifaces_from(ls, i + 1, name, mac, p2p, ip)
    } else {
        let t = trim(ls[i]);
        let found = if ip is Some {
            ip
        } else {
            inet_entry(t, p2p)
        };
        ifaces_from(ls, i + 1, name, mac_after(t, mac), p2p, found)
    }
}

/// The active interfaces that an interface listing shows, one per block.
pub open spec fn listed_interfaces(out: Seq<char>) -> Seq<(Seq<char>, Seq<char>, Seq<char>, bool)> {
    ifaces_from(lines(out), 0, seq![], seq![], false, None)
}

/// The number of lines from `i` on that open an interface block.
pub open spec fn headers_from(ls: Seq<Seq<char>>, i: int) -> nat
    decreases ls.len() - i,
{
    if i < 0 || i >= ls.len() {
        0
    } else if is_header(ls[i]) {
        1 + headers_from(ls, i + 1)
    } else {
        headers_from(ls, i + 1)
    }
}

/// Each interface block gives at most one entry: the listing's interfaces
/// are no more than its blocks.
pub proof fn lemma_one_entry_per_block(out: Seq<char>)
    ensures
        listed_interfaces(out).len() <= headers_from(lines(out), 0),
{
    lemma_entries_bounded(lines(out), 0, seq![], seq![], false, None);
}

proof fn lemma_entries_bounded(
    ls: Seq<Seq<char>>,
    i: int,
    name: Seq<char>,
    mac: Seq<char>,
    p2p: bool,
    ip: Option<Seq<char>>,
)
    requires
        0 <= i,
        name.len() == 0 ==> ip is None,
    ensures
        ifaces_from(ls, i, name, mac, p2p, ip).len() <= headers_from(ls, i) + if name.len() > 0 {
            1int
        } else {
            0
        },
    decreases ls.len() - i,
{
    if i < ls.len() {
        if is_header(ls[i]) {
            lemma_entries_bounded(
                ls,
                i + 1,
                header_name(ls[i]),
                seq![],
                contains(ls[i], "POINTOPOINT"@),
                None,
            );
        } else if name.len() == 0 {
            lemma_entries_bounded(ls, i + 1, name, mac, p2p, ip);
        } else {
            let t = trim(ls[i]);
            let found = if ip is Some {
                ip
            } else {
                inet_entry(t, p2p)
            };
            lemma_entries_bounded(ls, i + 1, name, mac_after(t, mac), p2p, found);
        }
    }
}

/// The entry for a trimmed `inet` line.
fn inet_entry_exec(t: &str, p2p: bool) -> (r: Option<String>)
    ensures
        match r {
            Some(s) => inet_entry(t@, p2p) == Some(s@),
            None => inet_entry(t@, p2p) is None,
        },
{
    if !starts_with_str(t, "inet ") {
        return None;
    }
    let ws = split_words(t);
    assert(views(ws@).len() == ws@.len());
    if ws.len() <= 1 {
        return None;
    }
    assert(views(ws@)[1] == ws@[1]@);
    let ip = ws[1].as_str();
    if starts_with_str(ip, "127.") {
        return None;
    }
    if p2p {
        return Some(ws[1].clone());
    }
    match find_word_after(&ws, "netmask") {
        Some(m) => match hex_to_cidr(m.as_str()) {
            Some(c) => {
                let mut s = ws[1].clone();
                s.append("/");
                s.append(u8_text(c).as_str());
                Some(s)
            },
            None => Some(ws[1].clone()),
        },
        None => Some(ws[1].clone()),
    }
}

fn find_word_after(ws: &Vec<String>, t: &str) -> (r: Option<String>)
    ensures
        match r {
            Some(s) => word_after(views(ws@), t@) == Some(s@),
            None => word_after(views(ws@), t@) is None,
        },
{
    assert(views(ws@).len() == ws@.len());
    match crate::text::find_word(ws, t) {
        Some(p) => if p < ws.len() - 1 {
            assert(views(ws@)[p + 1] == ws@[p + 1]@);
            Some(ws[p + 1].clone())
        } else {
            None
        },
        None => None,
    }
}

/// Appends the entry of a block that has ended.
fn push_block(
    out: &mut Vec<InterfaceInfo>,
    name: &String,
    mac: &String,
    p2p: bool,
    ip: &Option<String>,
)
    ensures
        iface_views(final(out)@) == iface_views(old(out)@) + block_entry(
            name@,
            mac@,
            p2p,
            crate::text::opt_view(*ip),
        ),
{
    let ghost before = iface_views(out@);
    if name.as_str().unicode_len() > 0 {
        if let Some(a) = ip {
            let entry = InterfaceInfo { name: name.clone(), mac: mac.clone(), ip: a.clone(), is_p2p: p2p };
            out.push(entry);
            assert(iface_views(out@) =~= before.push(iface_view(entry)));
            assert(iface_views(out@) =~= before + block_entry(
                name@,
                mac@,
                p2p,
                crate::text::opt_view(*ip),
            ));
            return;
        }
    }
    assert(before + block_entry(name@, mac@, p2p, crate::text::opt_view(*ip)) =~= before);
}

/// The active interfaces (up, not the loopback, with an IPv4 address other
/// than a loopback one) that the text of an interface listing shows, in
/// order, one per interface with its first such address.
pub fn parse_interfaces(listing: &str) -> (r: Vec<InterfaceInfo>)
    ensures
        iface_views(r@) == listed_interfaces(listing@),
{
    let ls = lines_of(listing);
    let ghost v = views(ls@);
    let mut out: Vec<InterfaceInfo> = Vec::new();
    let mut name = String::new();
    let mut mac = String::new();
    let mut p2p = false;
    let mut ip: Option<String> = None;
    let mut i: usize = 0;
    while i < ls.len()
        invariant
            v == views(ls@),
            v == lines(listing@),
            i <= ls.len(),
            listed_interfaces(listing@) == iface_views(out@) + ifaces_from(
                v,
                i as int,
                name@,
                mac@,
                p2p,
                crate::text::opt_view(ip),
            ),
        decreases ls.len() - i,
    {
        let l = ls[i].as_str();
        assert(v[i as int] == l@);
        if !starts_with_str(l, "\t") && !starts_with_str(l, " ") && contains_str(l, ": flags=") {
            let ghost before = iface_views(out@);
            let ghost rest = ifaces_from(v, i + 1, header_name(l@), seq![], contains(l@, "POINTOPOINT"@), None);
            push_block(&mut out, &name, &mac, p2p, &ip);
            assert(before + (block_entry(name@, mac@, p2p, crate::text::opt_view(ip)) + rest)
                =~= iface_views(out@) + rest);
            let parts = split_char(l, ':');
            assert(views(parts@)[0] == parts@[0]@);
            name = if contains_str(l, "UP") && !contains_str(l, "LOOPBACK") {
                parts[0].clone()
            } else {
                String::new()
            };
            mac = String::new();
            p2p = contains_str(l, "POINTOPOINT");
            ip = None;
            assert(name@ == header_name(l@));
            assert(mac@ =~= Seq::<char>::empty());
        } else if name.as_str().unicode_len() > 0 {
            let t = trim_str(l);
            let ghost mac0 = mac@;
            if starts_with_str(t.as_str(), ETHER_PREFIX) {
                let rest_of_line = substring(
                    t.as_str(),
                    ETHER_PREFIX.unicode_len(),
                    t.as_str().unicode_len(),
                );
                mac = trim_str(rest_of_line.as_str());
            }
            assert(mac@ == mac_after(t@, mac0));
            if ip.is_none() {
                ip = inet_entry_exec(t.as_str(), p2p);
            }
        }
        i += 1;
    }
    push_block(&mut out, &name, &mac, p2p, &ip);
    out
}

} // verus!
