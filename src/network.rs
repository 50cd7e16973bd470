use vstd::prelude::*;
use vstd::slice::slice_subrange;
use vstd::string::*;
use crate::ip::{ipv4_string, ipv4_text, is_endpoint, is_ip, is_ip_text, is_vpn_gateway};
use crate::text::{
    after, contains, contains_str, find_word, lines, lines_of, opt_view, pieces, position,
    split_char, split_words, starts_with, starts_with_str, strip_cr, strip_cr_string, substring,
    trim, trim_str, views, words,
};

verus! {

/// Route flags of a host route that a VPN client installs: up, gateway,
/// static and host.
pub const ROUTE_UGSH: u32 = 0x807;

/// Route flags of a cloning route that a VPN client installs: up, gateway,
/// static and cloning.
pub const ROUTE_UGSC: u32 = 0x10803;

/// The address-family tag of an IPv4 socket address in a routing message
/// (`AF_INET` of the BSD routing-socket format).
pub const SOCKADDR_FAMILY_INET: u8 = 2;

/// Where the socket addresses begin in a routing message.
pub const ROUTE_HEADER_LEN: usize = 92;

/// A 16-bit field in little-endian byte order.
pub open spec fn le16(b: Seq<u8>, i: int) -> nat {
    b[i] as nat + b[i + 1] as nat * 0x100
}

/// A 32-bit field in little-endian byte order.
pub open spec fn le32(b: Seq<u8>, i: int) -> u32 {
    (b[i] as int + b[i + 1] as int * 0x100 + b[i + 2] as int * 0x10000 + b[i + 3] as int
        * 0x1000000) as u32
}

/// Whether a route carries the flags of a VPN-installed route.
pub open spec fn vpn_route_flags(flags: u32) -> bool {
    flags & ROUTE_UGSH == ROUTE_UGSH || flags & ROUTE_UGSC == ROUTE_UGSC
}

/// The IPv4 address held by a socket address structure: a length byte, a
/// family byte that must be the IPv4 tag, a port, then the address.
pub open spec fn sockaddr_ipv4(sa: Seq<u8>) -> Option<Seq<char>> {
    if sa.len() < 2 || sa[1] != SOCKADDR_FAMILY_INET || sa[0] < 8 || sa.len() < 8 {
        None
    } else {
        Some(ipv4_text(sa[4], sa[5], sa[6], sa[7]))
    }
}

/// The destination address of one routing message, when the message says
/// it holds one.
pub open spec fn msg_destination(msg: Seq<u8>) -> Option<Seq<char>> {
    if msg.len() < 20 || le32(msg, 8) & 1 == 0 || ROUTE_HEADER_LEN >= msg.len() {
        None
    } else {
        sockaddr_ipv4(msg.subrange(ROUTE_HEADER_LEN as int, msg.len() as int))
    }
}

/// The first public endpoint among the VPN routes of the message stream
/// `data` from byte `off` on. A record of length zero, or one that runs past
/// the end, ends the stream.
pub open spec fn table_gateway_from(data: Seq<u8>, off: int) -> Option<Seq<char>>
    decreases data.len() - off,
{
    if off < 0 || off + 4 > data.len() {
        None
    } else {
        let len = le16(data, off);
        if len == 0 || off + len > data.len() {
            None
        } else {
            let here = if off + 16 <= data.len() && vpn_route_flags(le32(data, off + 12)) {
                match msg_destination(data.subrange(off, off + len)) {
                    Some(g) => if is_endpoint(g) {
                        Some(g)
                    } else {
                        None
                    },
                    None => None,
                }
            } else {
                None
            };
            match here {
                Some(g) => Some(g),
                None => table_gateway_from(data, off + len),
            }
        }
    }
}

/// The IPv4 address of a socket address structure, if it holds one.
pub fn extract_ipv4_from_sockaddr(sa: &[u8]) -> (r: Option<String>)
    ensures
        opt_view(r) == sockaddr_ipv4(sa@),
{
    if sa.len() < 2 {
        return None;
    }
    if sa[1] != SOCKADDR_FAMILY_INET {
        return None;
    }
    if sa[0] < 8 || sa.len() < 8 {
        return None;
    }
    Some(ipv4_string(sa[4], sa[5], sa[6], sa[7]))
}

/// The destination address of one routing message.
pub fn extract_gateway_from_msg(msg: &[u8]) -> (r: Option<String>)
    ensures
        opt_view(r) == msg_destination(msg@),
{
    if msg.len() < 20 {
        return None;
    }
    let addrs: u32 = msg[8] as u32 + msg[9] as u32 * 0x100 + msg[10] as u32 * 0x10000
        + msg[11] as u32 * 0x1000000;
    if addrs & 1 == 0 {
        return None;
    }
    if ROUTE_HEADER_LEN >= msg.len() {
        return None;
    }
    extract_ipv4_from_sockaddr(slice_subrange(msg, ROUTE_HEADER_LEN, msg.len()))
}

/// The VPN server's public address, read from the kernel's routing messages:
/// the destination of the first route flagged up, gateway and static, with
/// host or cloning, that passes the endpoint check.
pub fn parse_routing_table(data: &[u8]) -> (r: Option<String>)
    ensures
        opt_view(r) == table_gateway_from(data@, 0),
{
    let n = data.len();
    let mut off: usize = 0;
    while n >= 4 && off <= n - 4
        invariant
            n == data@.len(),
            off <= n,
            table_gateway_from(data@, 0) == table_gateway_from(data@, off as int),
        decreases n - off,
    {
        let len: usize = data[off] as usize + data[off + 1] as usize * 0x100;
        if len == 0 || len > n - off {
            return None;
        }
        if n - off >= 16 {
            let flags: u32 = data[off + 12] as u32 + data[off + 13] as u32 * 0x100 + data[off
                + 14] as u32 * 0x10000 + data[off + 15] as u32 * 0x1000000;
            if flags & ROUTE_UGSH == ROUTE_UGSH || flags & ROUTE_UGSC == ROUTE_UGSC {
                let msg = slice_subrange(data, off, off + len);
                if let Some(g) = extract_gateway_from_msg(msg) {
                    if is_vpn_gateway(g.as_str()) {
                        return Some(g);
                    }
                }
            }
        }
        off += len;
    }
    None
}

/// The destination column of a routing-table line, when it is an address.
pub open spec fn destination_of(line: Seq<char>) -> Option<Seq<char>> {
    let ws = words(line);
    if ws.len() > 0 && is_ip(ws[0]) {
        Some(ws[0])
    } else {
        None
    }
}

/// The destination of a routing-table line (`Destination Gateway Flags
/// Netif Expire`): for a VPN host route it is the server's address.
pub fn extract_gateway(line: &str) -> (r: Option<String>)
    ensures
        opt_view(r) == destination_of(line@),
{
    let ws = split_words(line);
    if ws.len() == 0 {
        return None;
    }
    assert(views(ws@)[0] == ws@[0]@);
    if is_ip_text(ws[0].as_str()) {
        Some(ws[0].clone())
    } else {
        None
    }
}

/// Whether a routing-table line carries the flag codes of a VPN route.
pub open spec fn vpn_route_line(l: Seq<char>) -> bool {
    contains(l, "UGSH"@) || contains(l, "UGSc"@)
}

/// The first public endpoint among the routing-table lines from `i` on.
pub open spec fn route_text_from(ls: Seq<Seq<char>>, i: int) -> Option<Seq<char>>
    decreases ls.len() - i,
{
    if i < 0 || i >= ls.len() {
        None
    } else if vpn_route_line(ls[i]) && destination_of(ls[i]) is Some && is_endpoint(
        destination_of(ls[i])->0,
    ) {
        destination_of(ls[i])
    } else {
        route_text_from(ls, i + 1)
    }
}

/// The VPN server's address, read from the text of an IPv4 routing-table
/// listing: the destination of the first VPN route that passes the endpoint check.
pub fn gateway_from_netstat(listing: &str) -> (r: Option<String>)
    ensures
        opt_view(r) == route_text_from(lines(listing@), 0),
{
    let ls = lines_of(listing);
    let ghost v = views(ls@);
    let mut i: usize = 0;
    while i < ls.len()
        invariant
            v == views(ls@),
            v == lines(listing@),
            i <= ls.len(),
            route_text_from(v, 0) == route_text_from(v, i as int),
        decreases ls.len() - i,
    {
        let l = ls[i].as_str();
        assert(v[i as int] == l@);
        if contains_str(l, "UGSH") || contains_str(l, "UGSc") {
            if let Some(g) = extract_gateway(l) {
                if is_vpn_gateway(g.as_str()) {
                    return Some(g);
                }
            }
        }
        i += 1;
    }
    None
}

/// The word after the first occurrence of `t` among `ws`.
pub open spec fn word_after(ws: Seq<Seq<char>>, t: Seq<char>) -> Option<Seq<char>> {
    match position(ws, t) {
        Some(p) => if p + 1 < ws.len() {
            Some(ws[p + 1])
        } else {
            None
        },
        None => None,
    }
}

/// The peer address of an interface's `inet` line, written either
/// `inet A --> B` or `inet A peer B`.
pub open spec fn peer_of(line: Seq<char>) -> Option<Seq<char>> {
    let ws = words(line);
    if contains(line, "inet"@) && contains(line, "-->"@) && word_after(ws, "-->"@) is Some {
        word_after(ws, "-->"@)
    } else if contains(line, "inet"@) && contains(line, "peer"@) {
        word_after(ws, "peer"@)
    } else {
        None
    }
}

/// The word of `ws` after the first that equals `t`.
fn word_after_exec(ws: &Vec<String>, t: &str) -> (r: Option<String>)
    ensures
        opt_view(r) == word_after(views(ws@), t@),
{
    assert(views(ws@).len() == ws@.len());
    match find_word(ws, t) {
        Some(p) => if p < ws.len() - 1 {
            assert(views(ws@)[p + 1] == ws@[p + 1]@);
            Some(ws[p + 1].clone())
        } else {
            None
        },
        None => None,
    }
}

/// The peer address of an interface's `inet` line, if it shows one.
pub fn extract_peer_address(line: &str) -> (r: Option<String>)
    ensures
        opt_view(r) == peer_of(line@),
{
    let ws = split_words(line);
    let has_inet = contains_str(line, "inet");
    if has_inet && contains_str(line, "-->") {
        let p = word_after_exec(&ws, "-->");
        if p.is_some() {
            return p;
        }
    }
    if has_inet && contains_str(line, "peer") {
        return word_after_exec(&ws, "peer");
    }
    None
}

/// The identifier of a VPN service on its line of the service listing
/// (`* (Connected)  <id> ...`): its third word.
pub open spec fn service_id(l: Seq<char>) -> Option<Seq<char>> {
    let ws = words(l);
    if ws.len() > 2 {
        Some(ws[2])
    } else {
        None
    }
}

/// The identifiers of the connected services from line `i` on, in order;
/// a connected line that shows no identifier is passed over.
pub open spec fn connected_from(ls: Seq<Seq<char>>, i: int) -> Seq<Seq<char>>
    decreases ls.len() - i,
{
    if i < 0 || i >= ls.len() {
        seq![]
    } else if contains(ls[i], "(Connected)"@) && service_id(ls[i]) is Some {
        seq![service_id(ls[i])->0] + connected_from(ls, i + 1)
    } else {
        connected_from(ls, i + 1)
    }
}

/// The views of a sequence of optional strings.
pub open spec fn opt_views(v: Seq<Option<String>>) -> Seq<Option<Seq<char>>> {
    v.map_values(|o: Option<String>| opt_view(o))
}

/// The identifiers of the connected VPN services of a service listing, in
/// order.
pub fn connected_services(listing: &str) -> (r: Vec<String>)
    ensures
        views(r@) == connected_from(lines(listing@), 0),
{
    let ls = lines_of(listing);
    let ghost v = views(ls@);
    let mut out: Vec<String> = Vec::new();
    let mut i: usize = 0;
    while i < ls.len()
        invariant
            v == views(ls@),
            v == lines(listing@),
            i <= ls.len(),
            connected_from(v, 0) == views(out@) + connected_from(v, i as int),
        decreases ls.len() - i,
    {
        let l = ls[i].as_str();
        assert(v[i as int] == l@);
        if contains_str(l, "(Connected)") {
            let ws = split_words(l);
            assert(views(ws@).len() == ws@.len());
            if ws.len() > 2 {
                assert(views(ws@)[2] == ws@[2]@);
                let id = ws[2].clone();
                let ghost before = views(out@);
                assert(before + (seq![id@] + connected_from(v, i + 1)) =~= before.push(id@)
                    + connected_from(v, i + 1));
                out.push(id);
                assert(views(out@) =~= before.push(id@));
            }
        }
        i += 1;
    }
    assert(views(out@) + connected_from(v, i as int) =~= views(out@));
    out
}

/// What opens the line of a service's detail record that holds its
/// server address.
pub const REMOTE_PREFIX: &'static str = "RemoteAddress : ";

/// The address on a `RemoteAddress : <ip>` line, whitespace trimmed, when
/// the line is one.
pub open spec fn remote_of(l: Seq<char>) -> Option<Seq<char>> {
    let t = trim(l);
    if starts_with(t, REMOTE_PREFIX@) {
        Some(trim(after(t, REMOTE_PREFIX@.len() as int)))
    } else {
        None
    }
}

/// The first remote address from line `i` on that passes the endpoint check.
pub open spec fn remote_from(ls: Seq<Seq<char>>, i: int) -> Option<Seq<char>>
    decreases ls.len() - i,
{
    if i < 0 || i >= ls.len() {
        None
    } else if remote_of(ls[i]) is Some && is_endpoint(remote_of(ls[i])->0) {
        remote_of(ls[i])
    } else {
        remote_from(ls, i + 1)
    }
}

/// The VPN server's address in the detail record of one service.
pub fn remote_address(detail: &str) -> (r: Option<String>)
    ensures
        opt_view(r) == remote_from(lines(detail@), 0),
{
    let ls = lines_of(detail);
    let ghost v = views(ls@);
    let mut i: usize = 0;
    while i < ls.len()
        invariant
            v == views(ls@),
            v == lines(detail@),
            i <= ls.len(),
            remote_from(v, 0) == remote_from(v, i as int),
        decreases ls.len() - i,
    {
        assert(v[i as int] == ls@[i as int]@);
        let t = trim_str(ls[i].as_str());
        assert(t@ == trim(v[i as int]));
        if starts_with_str(t.as_str(), REMOTE_PREFIX) {
            let rest = substring(t.as_str(), REMOTE_PREFIX.unicode_len(), t.as_str().unicode_len());
            assert(rest@ == after(t@, REMOTE_PREFIX@.len() as int));
            let ip = trim_str(rest.as_str());
            assert(remote_of(v[i as int]) == Some(ip@));
            if is_vpn_gateway(ip.as_str()) {
                return Some(ip);
            }
        } else {
            assert(remote_of(v[i as int]) is None);
        }
        i += 1;
    }
    None
}

/// The first address that passes the endpoint check over the detail records
/// of the services from `k` on, in order; `None` stands for a service whose
/// record could not be read, which is passed over.
pub open spec fn services_remote_from(ds: Seq<Option<Seq<char>>>, k: int) -> Option<Seq<char>>
    decreases ds.len() - k,
{
    if k < 0 || k >= ds.len() {
        None
    } else if ds[k] is Some && remote_from(lines(ds[k]->0), 0) is Some {
        remote_from(lines(ds[k]->0), 0)
    } else {
        services_remote_from(ds, k + 1)
    }
}

/// The VPN server's address from the detail records of the connected
/// services, taken in the order the listing gives them.
pub fn first_remote_address(details: &Vec<Option<String>>) -> (r: Option<String>)
    ensures
        opt_view(r) == services_remote_from(opt_views(details@), 0),
{
    let ghost ds = opt_views(details@);
    let mut k: usize = 0;
    while k < details.len()
        invariant
            ds == opt_views(details@),
            k <= details.len(),
            services_remote_from(ds, 0) == services_remote_from(ds, k as int),
        decreases details.len() - k,
    {
        assert(ds[k as int] == opt_view(details@[k as int]));
        match &details[k] {
            Some(d) => {
                let found = remote_address(d.as_str());
                if found.is_some() {
                    return found;
                }
            },
            None => {},
        }
        k += 1;
    }
    None
}

/// Whether an interface-listing line opens the block of a tunnel-like
/// interface.
pub open spec fn is_tunnel_header(l: Seq<char>) -> bool {
    starts_with(l, "utun"@) || starts_with(l, "tun"@) || starts_with(l, "ppp"@)
}

/// The first of the pieces `p` from `j` on that begins with `hdr`.
pub open spec fn block_start_from(p: Seq<Seq<char>>, hdr: Seq<char>, j: int) -> int
    decreases p.len() - j,
{
    if j < 0 || j >= p.len() {
        p.len() as int
    } else if starts_with(p[j], hdr) {
        j
    } else {
        block_start_from(p, hdr, j + 1)
    }
}

/// Whether piece `k` still belongs to the block opened by `hdr`.
pub open spec fn in_iface_block(p: Seq<Seq<char>>, hdr: Seq<char>, k: int) -> bool {
    p[k].len() > 0 && (starts_with(p[k], "\t"@) || starts_with(p[k], hdr))
}

/// Piece `k` as a line of the block once the block's pieces are joined by
/// line breaks and split into lines again: a carriage return before a line
/// break goes, while the block's last piece keeps its own.
pub open spec fn block_line(p: Seq<Seq<char>>, hdr: Seq<char>, k: int) -> Seq<char> {
    if k + 1 < p.len() && in_iface_block(p, hdr, k + 1) {
        strip_cr(p[k])
    } else {
        p[k]
    }
}

/// The first peer address that passes the endpoint check in the block opened by
/// `hdr`, from piece `k` on.
pub open spec fn block_peer_from(p: Seq<Seq<char>>, hdr: Seq<char>, k: int) -> Option<Seq<char>>
    decreases p.len() - k,
{
    if k < 0 || k >= p.len() || !in_iface_block(p, hdr, k) {
        None
    } else if peer_of(block_line(p, hdr, k)) is Some && is_endpoint(
        peer_of(block_line(p, hdr, k))->0,
    ) {
        peer_of(block_line(p, hdr, k))
    } else {
        block_peer_from(p, hdr, k + 1)
    }
}

/// Whether piece `k` belongs to the block opened by `hdr`.
fn in_block_exec(p: &Vec<String>, hdr: &str, k: usize) -> (r: bool)
    requires
        k < p@.len(),
    ensures
        r == in_iface_block(views(p@), hdr@, k as int),
{
    assert(views(p@)[k as int] == p@[k as int]@);
    let l = p[k].as_str();
    l.unicode_len() > 0 && (starts_with_str(l, "\t") || starts_with_str(l, hdr))
}

/// The first peer address that passes the endpoint check in the block of a
/// tunnel-like interface, over the listing lines `ls` from `i` on, the
/// listing's pieces between line breaks being `p`.
pub open spec fn tunnel_peer_from(ls: Seq<Seq<char>>, p: Seq<Seq<char>>, i: int) -> Option<
    Seq<char>,
>
    decreases ls.len() - i,
{
    if i < 0 || i >= ls.len() {
        None
    } else if is_tunnel_header(ls[i]) && block_peer_from(
        p,
        ls[i],
        block_start_from(p, ls[i], 0),
    ) is Some {
        block_peer_from(p, ls[i], block_start_from(p, ls[i], 0))
    } else {
        tunnel_peer_from(ls, p, i + 1)
    }
}

/// The peer address in the block that the listing pieces `p` give the
/// interface whose header is `hdr`.
fn block_peer(p: &Vec<String>, hdr: &str) -> (r: Option<String>)
    ensures
        opt_view(r) == block_peer_from(views(p@), hdr@, block_start_from(views(p@), hdr@, 0)),
{
    let ghost v = views(p@);
    let mut j: usize = 0;
    while j < p.len() && !starts_with_str(p[j].as_str(), hdr)
        invariant
            v == views(p@),
            j <= p.len(),
            block_start_from(v, hdr@, 0) == block_start_from(v, hdr@, j as int),
        decreases p.len() - j,
    {
        assert(v[j as int] == p@[j as int]@);
        j += 1;
    }
    if j < p.len() {
        assert(v[j as int] == p@[j as int]@);
    }
    let mut k: usize = j;
    while k < p.len()
        invariant
            v == views(p@),
            j <= k <= p.len(),
            block_start_from(v, hdr@, 0) == j,
            block_peer_from(v, hdr@, j as int) == block_peer_from(v, hdr@, k as int),
        decreases p.len() - k,
    {
        assert(v[k as int] == p@[k as int]@);
        if !in_block_exec(p, hdr, k) {
            return None;
        }
        let line = if k + 1 < p.len() && in_block_exec(p, hdr, k + 1) {
            strip_cr_string(&p[k])
        } else {
            p[k].clone()
        };
        assert(line@ == block_line(v, hdr@, k as int));
        if let Some(peer) = extract_peer_address(line.as_str()) {
            if is_vpn_gateway(peer.as_str()) {
                return Some(peer);
            }
        }
        k += 1;
    }
    None
}

/// Last resort: the peer address of a tunnel-like interface in the text of
/// the interface listing. This is the local end of the tunnel's peer link,
/// and is accepted only where it passes the same check as the rest.
pub fn gateway_from_ifconfig(listing: &str) -> (r: Option<String>)
    ensures
        opt_view(r) == tunnel_peer_from(lines(listing@), pieces(listing@, '\n'), 0),
{
    let ls = lines_of(listing);
    let p = split_char(listing, '\n');
    let ghost v = views(ls@);
    let mut i: usize = 0;
    while i < ls.len()
        invariant
            v == views(ls@),
            v == lines(listing@),
            views(p@) == pieces(listing@, '\n'),
            i <= ls.len(),
            tunnel_peer_from(v, views(p@), 0) == tunnel_peer_from(v, views(p@), i as int),
        decreases ls.len() - i,
    {
        let l = ls[i].as_str();
        assert(v[i as int] == l@);
        if starts_with_str(l, "utun") || starts_with_str(l, "tun") || starts_with_str(l, "ppp") {
            let found = block_peer(&p, l);
            if found.is_some() {
                return found;
            }
        }
        i += 1;
    }
    None
}

/// The detection strategies, most trustworthy first.
#[derive(Debug, Clone, Copy, PartialEq, Eq, Structural)]
pub enum Strategy {
    /// The kernel routing table, read directly.
    RoutingTable,
    /// The text of the IPv4 routing-table listing.
    RouteText,
    /// The connected services of the VPN service manager.
    VpnService,
    /// The peer address of a tunnel-like interface.
    InterfacePeer,
}

/// The strategy that follows `s`, if any.
pub open spec fn next_strategy(s: Strategy) -> Option<Strategy> {
    match s {
        Strategy::RoutingTable => Some(Strategy::RouteText),
        Strategy::RouteText => Some(Strategy::VpnService),
        Strategy::VpnService => Some(Strategy::InterfacePeer),
        Strategy::InterfacePeer => None,
    }
}

/// What the detector does after a strategy has run.
#[derive(Debug, Clone, PartialEq, Eq)]
pub enum DetectStep {
    /// Run this strategy next.
    Run(Strategy),
    /// Stop: this endpoint was found.
    Found(String),
    /// Stop: every strategy ran without a candidate.
    Exhausted,
}

/// The strategy the detector begins with.
pub fn first_strategy() -> (r: Strategy)
    ensures
        r == Strategy::RoutingTable,
{
    Strategy::RoutingTable
}

/// The step after `current` ran with `outcome` (a candidate that passed the
/// endpoint check, or none, a failure of the strategy included). The first candidate
/// wins; otherwise the next strategy runs, until none is left.
pub fn detect_step(current: Strategy, outcome: Option<String>) -> (r: DetectStep)
    ensures
        outcome matches Some(g) ==> r == DetectStep::Found(g),
        outcome is None ==> r == match next_strategy(current) {
            Some(n) => DetectStep::Run(n),
            None => DetectStep::Exhausted,
        },
{
    match outcome {
        Some(g) => DetectStep::Found(g),
        None => match current {
            Strategy::RoutingTable => DetectStep::Run(Strategy::RouteText),
            Strategy::RouteText => DetectStep::Run(Strategy::VpnService),
            Strategy::VpnService => DetectStep::Run(Strategy::InterfacePeer),
            Strategy::InterfacePeer => DetectStep::Exhausted,
        },
    }
}

} // verus!
