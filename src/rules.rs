use vstd::prelude::*;
use vstd::string::*;
use crate::error::KillswitchError;
use crate::interfaces::InterfaceInfo;
use crate::ip::{is_ip, is_ip_text};
use crate::ipv6::{display_address, ip_display};
use crate::text::contains;

verus! {

/// The rule line that frames the header.
pub open spec fn separator_line() -> Seq<char> {
    "# --------------------------------------------------------------\n"@
}

/// The header line that carries the generation time.
pub open spec fn stamp_line(stamp: Seq<char>) -> Seq<char> {
    "# "@ + stamp + "\n"@
}

/// The header line that shows how to load the file.
pub open spec fn load_hint() -> Seq<char> {
    "# sudo pfctl -Fa -f /tmp/killswitch.pf.conf -e\n"@
}

/// The macro that names one interface.
pub open spec fn macro_line(i: InterfaceInfo) -> Seq<char> {
    if i.is_p2p {
        "vpn_"@ + i.name@ + " = \""@ + i.name@ + "\"\n"@
    } else {
        "int_"@ + i.name@ + " = \""@ + i.name@ + "\"\n"@
    }
}

/// One macro per interface, in order.
pub open spec fn macros(ifs: Seq<InterfaceInfo>) -> Seq<char>
    decreases ifs.len(),
{
    if ifs.len() == 0 {
        seq![]
    } else {
        macros(ifs.drop_last()) + macro_line(ifs.last())
    }
}

/// The macro that binds the endpoint address, written as `IpAddr`'s
/// `Display` writes it.
pub open spec fn endpoint_macro(peer: Seq<char>) -> Seq<char> {
    "vpn_ip = \""@ + ip_display(peer) + "\"\n\n"@
}

/// Global options, then the default deny and the block on outbound IPv6.
pub open spec fn policy_lines() -> Seq<char> {
    "set block-policy drop\nset ruleset-optimization basic\nset skip on lo0\n\nblock all\nblock out inet6\n\n"@
}

/// The leak exception for DNS.
pub open spec fn dns_lines() -> Seq<char> {
    "# dns\npass quick proto {tcp, udp} from any to any port 53 keep state\n\n"@
}

/// Broadcast and multicast, both ways.
pub open spec fn broadcast_lines() -> Seq<char> {
    "# Allow broadcasts on internal interface\npass from any to 255.255.255.255 keep state\npass from 255.255.255.255 to any keep state\n\n# Allow multicast\npass proto udp from any to 224.0.0.0/4 keep state\npass proto udp from 224.0.0.0/4 to any keep state\n\n"@
}

/// The leak exception for ping on one physical interface.
pub open spec fn ping_lines(name: Seq<char>) -> Seq<char> {
    "# Allow ping\npass on $int_"@ + name + " inet proto icmp all icmp-type 8 code 0 keep state\n\n"@
}

/// DHCP on one physical interface.
pub open spec fn dhcp_lines(name: Seq<char>) -> Seq<char> {
    "# Allow dhcp\npass on $int_"@ + name
        + " proto {tcp,udp} from any port 67:68 to any port 67:68 keep state\n\n"@
}

/// Traffic within the subnet of one physical interface.
pub open spec fn local_line(name: Seq<char>) -> Seq<char> {
    "pass from $int_"@ + name + ":network to $int_"@ + name + ":network\n"@
}

/// The rule that confines one physical interface to the endpoint.
pub open spec fn confine_lines(name: Seq<char>) -> Seq<char> {
    "# use only the vpn\npass on $int_"@ + name + " proto {tcp, udp} from any to $vpn_ip\n"@
}

/// The rules for one physical interface, the confining rule last.
pub open spec fn physical_lines(name: Seq<char>, leak: bool, local: bool) -> Seq<char> {
    (if leak {
        ping_lines(name)
    } else {
        seq![]
    }) + dhcp_lines(name) + (if local {
        local_line(name)
    } else {
        seq![]
    }) + confine_lines(name)
}

/// The rules of every physical interface, in order.
pub open spec fn physical_rules(ifs: Seq<InterfaceInfo>, leak: bool, local: bool) -> Seq<char>
    decreases ifs.len(),
{
    if ifs.len() == 0 {
        seq![]
    } else {
        physical_rules(ifs.drop_last(), leak, local) + if ifs.last().is_p2p {
            seq![]
        } else {
            physical_lines(ifs.last().name@, leak, local)
        }
    }
}

/// The rule that trusts one tunnel interface.
pub open spec fn tunnel_line(name: Seq<char>) -> Seq<char> {
    "pass on $vpn_"@ + name + " all\n"@
}

/// The rules of every point-to-point interface, in order.
pub open spec fn tunnel_rules(ifs: Seq<InterfaceInfo>) -> Seq<char>
    decreases ifs.len(),
{
    if ifs.len() == 0 {
        seq![]
    } else {
        tunnel_rules(ifs.drop_last()) + if ifs.last().is_p2p {
            tunnel_line(ifs.last().name@)
        } else {
            seq![]
        }
    }
}

/// Everything after the timestamp line.
pub open spec fn rules_body(ifs: Seq<InterfaceInfo>, peer: Seq<char>, leak: bool, local: bool) -> Seq<
    char,
> {
    load_hint() + separator_line() + macros(ifs) + endpoint_macro(peer) + policy_lines() + (if leak {
        dns_lines()
    } else {
        seq![]
    }) + broadcast_lines() + physical_rules(ifs, leak, local) + tunnel_rules(ifs)
}

/// The whole rule file.
pub open spec fn rules_text(
    ifs: Seq<InterfaceInfo>,
    peer: Seq<char>,
    leak: bool,
    local: bool,
    stamp: Seq<char>,
) -> Seq<char> {
    separator_line() + stamp_line(stamp) + rules_body(ifs, peer, leak, local)
}

/// Two rule files built from the same interfaces, endpoint and options agree
/// in everything but the timestamp line: each is the same separator, then its
/// own timestamp line, then the same remainder; a stamp of the shape chrono
/// writes holds no line break, so that line is one line.
pub proof fn lemma_rules_deterministic(
    ifs: Seq<InterfaceInfo>,
    peer: Seq<char>,
    leak: bool,
    local: bool,
    stamp1: Seq<char>,
    stamp2: Seq<char>,
)
    ensures
        rules_text(ifs, peer, leak, local, stamp1) == separator_line() + stamp_line(stamp1)
            + rules_body(ifs, peer, leak, local),
        rules_text(ifs, peer, leak, local, stamp2) == separator_line() + stamp_line(stamp2)
            + rules_body(ifs, peer, leak, local),
        stamp1 == stamp2 ==> rules_text(ifs, peer, leak, local, stamp1) == rules_text(
            ifs,
            peer,
            leak,
            local,
            stamp2,
        ),
        stamp_form(stamp1) ==> forall|i: int| 0 <= i < stamp1.len() ==> #[trigger] stamp1[i] != '\n',
        stamp_form(stamp2) ==> forall|i: int| 0 <= i < stamp2.len() ==> #[trigger] stamp2[i] != '\n',
{
    if stamp_form(stamp1) {
        lemma_stamp_one_line(stamp1);
    }
    if stamp_form(stamp2) {
        lemma_stamp_one_line(stamp2);
    }
}

/// `b` occurs in `a + b`.
proof fn lemma_contains_suffix(a: Seq<char>, b: Seq<char>)
    ensures
        contains(a + b, b),
{
    assert((a + b).subrange(a.len() as int, (a.len() + b.len()) as int) =~= b);
}

/// What occurs in `x` occurs in `x + y`.
proof fn lemma_contains_extend(x: Seq<char>, y: Seq<char>, b: Seq<char>)
    requires
        contains(x, b),
    ensures
        contains(x + y, b),
{
    let i = choose|i: int| 0 <= i <= x.len() - b.len() && #[trigger] x.subrange(i, i + b.len()) == b;
    assert((x + y).subrange(i, i + b.len()) =~= x.subrange(i, i + b.len()));
}

/// What occurs in `y` occurs in `x + y`.
proof fn lemma_contains_prepend(x: Seq<char>, y: Seq<char>, b: Seq<char>)
    requires
        contains(y, b),
    ensures
        contains(x + y, b),
{
    let i = choose|i: int| 0 <= i <= y.len() - b.len() && #[trigger] y.subrange(i, i + b.len()) == b;
    assert((x + y).subrange(x.len() + i, x.len() + i + b.len()) =~= y.subrange(i, i + b.len()));
}

/// Every rule file binds the endpoint macro, holds the default deny and the
/// block on outbound IPv6, and allows broadcast and multicast; with leak
/// exceptions it also holds the DNS exception.
pub proof fn lemma_rules_content(
    ifs: Seq<InterfaceInfo>,
    peer: Seq<char>,
    leak: bool,
    local: bool,
    stamp: Seq<char>,
)
    ensures
        contains(rules_text(ifs, peer, leak, local, stamp), endpoint_macro(peer)),
        contains(rules_text(ifs, peer, leak, local, stamp), policy_lines()),
        contains(rules_text(ifs, peer, leak, local, stamp), broadcast_lines()),
        leak ==> contains(rules_text(ifs, peer, leak, local, stamp), dns_lines()),
{
    let h = load_hint() + separator_line() + macros(ifs);
    let e = endpoint_macro(peer);
    let p = policy_lines();
    let d = if leak {
        dns_lines()
    } else {
        seq![]
    };
    let b = broadcast_lines();
    let pr = physical_rules(ifs, leak, local);
    let tr = tunnel_rules(ifs);
    let top = separator_line() + stamp_line(stamp);
    let body = rules_body(ifs, peer, leak, local);
    assert(body == h + e + p + d + b + pr + tr);
    assert(rules_text(ifs, peer, leak, local, stamp) == top + body);
    let targets = seq![e, p, b];
    lemma_contains_suffix(h, e);
    lemma_contains_extend(h + e, p, e);
    lemma_contains_suffix(h + e, p);
    lemma_contains_extend(h + e + p, d, e);
    lemma_contains_extend(h + e + p, d, p);
    lemma_contains_extend(h + e + p + d, b, e);
    lemma_contains_extend(h + e + p + d, b, p);
    lemma_contains_suffix(h + e + p + d, b);
    if leak {
        lemma_contains_suffix(h + e + p, d);
        lemma_contains_extend(h + e + p + d, b, d);
        lemma_contains_extend(h + e + p + d + b, pr, d);
        lemma_contains_extend(h + e + p + d + b + pr, tr, d);
        lemma_contains_prepend(top, body, d);
    }
    assert forall|k: int| 0 <= k < 3 implies contains(
        rules_text(ifs, peer, leak, local, stamp),
        #[trigger] targets[k],
    ) by {
        let x = targets[k];
        lemma_contains_extend(h + e + p + d + b, pr, x);
        lemma_contains_extend(h + e + p + d + b + pr, tr, x);
        lemma_contains_prepend(top, body, x);
    }
    assert(targets[0] == e && targets[1] == p && targets[2] == b);
}

/// The rules of each physical interface stand among those of all of them.
proof fn lemma_physical_rules_hold(ifs: Seq<InterfaceInfo>, leak: bool, local: bool, k: int)
    requires
        0 <= k < ifs.len(),
        !ifs[k].is_p2p,
    ensures
        contains(physical_rules(ifs, leak, local), physical_lines(ifs[k].name@, leak, local)),
    decreases ifs.len(),
{
    let rest = physical_rules(ifs.drop_last(), leak, local);
    if k == ifs.len() - 1 {
        lemma_contains_suffix(rest, physical_lines(ifs[k].name@, leak, local));
    } else {
        assert(ifs.drop_last()[k] == ifs[k]);
        lemma_physical_rules_hold(ifs.drop_last(), leak, local, k);
        let own = if ifs.last().is_p2p {
            seq![]
        } else {
            physical_lines(ifs.last().name@, leak, local)
        };
        lemma_contains_extend(rest, own, physical_lines(ifs[k].name@, leak, local));
    }
}

/// Occurrence is transitive.
proof fn lemma_contains_trans(a: Seq<char>, b: Seq<char>, c: Seq<char>)
    requires
        contains(a, b),
        contains(b, c),
    ensures
        contains(a, c),
{
    let i = choose|i: int| 0 <= i <= a.len() - b.len() && #[trigger] a.subrange(i, i + b.len()) == b;
    let w = choose|w: int| 0 <= w <= b.len() - c.len() && #[trigger] b.subrange(w, w + c.len()) == c;
    assert(a.subrange(i + w, i + w + c.len()) =~= c);
}

/// The pieces of the rules of one physical interface occur in them.
proof fn lemma_physical_lines_parts(n: Seq<char>, leak: bool, local: bool)
    ensures
        contains(physical_lines(n, leak, local), dhcp_lines(n)),
        contains(physical_lines(n, leak, local), confine_lines(n)),
        leak ==> contains(physical_lines(n, leak, local), ping_lines(n)),
{
    let ping = if leak {
        ping_lines(n)
    } else {
        seq![]
    };
    let loc = if local {
        local_line(n)
    } else {
        seq![]
    };
    assert(physical_lines(n, leak, local) == ping + dhcp_lines(n) + loc + confine_lines(n));
    lemma_contains_suffix(ping, dhcp_lines(n));
    lemma_contains_extend(ping + dhcp_lines(n), loc, dhcp_lines(n));
    lemma_contains_extend(ping + dhcp_lines(n) + loc, confine_lines(n), dhcp_lines(n));
    lemma_contains_suffix(ping + dhcp_lines(n) + loc, confine_lines(n));
    if leak {
        lemma_contains_suffix(seq![], ping);
        assert(seq![] + ping =~= ping);
        lemma_contains_extend(ping, dhcp_lines(n), ping);
        lemma_contains_extend(ping + dhcp_lines(n), loc, ping);
        lemma_contains_extend(ping + dhcp_lines(n) + loc, confine_lines(n), ping);
    }
}

/// What occurs in the rules of the physical interfaces occurs in the file.
proof fn lemma_physical_in_file(
    ifs: Seq<InterfaceInfo>,
    peer: Seq<char>,
    leak: bool,
    local: bool,
    stamp: Seq<char>,
    x: Seq<char>,
)
    requires
        contains(physical_rules(ifs, leak, local), x),
    ensures
        contains(rules_text(ifs, peer, leak, local, stamp), x),
{
    let pr = physical_rules(ifs, leak, local);
    let h = load_hint() + separator_line() + macros(ifs) + endpoint_macro(peer) + policy_lines() + (
    if leak {
        dns_lines()
    } else {
        seq![]
    }) + broadcast_lines();
    let tr = tunnel_rules(ifs);
    let top = separator_line() + stamp_line(stamp);
    assert(rules_body(ifs, peer, leak, local) == h + pr + tr);
    lemma_contains_prepend(h, pr, x);
    lemma_contains_extend(h + pr, tr, x);
    lemma_contains_prepend(top, h + pr + tr, x);
}

/// Every physical interface keeps DHCP, and has its traffic confined to the
/// endpoint; with leak exceptions it also answers ping.
pub proof fn lemma_physical_content(
    ifs: Seq<InterfaceInfo>,
    peer: Seq<char>,
    leak: bool,
    local: bool,
    stamp: Seq<char>,
    k: int,
)
    requires
        0 <= k < ifs.len(),
        !ifs[k].is_p2p,
    ensures
        contains(rules_text(ifs, peer, leak, local, stamp), dhcp_lines(ifs[k].name@)),
        contains(rules_text(ifs, peer, leak, local, stamp), confine_lines(ifs[k].name@)),
        leak ==> contains(rules_text(ifs, peer, leak, local, stamp), ping_lines(ifs[k].name@)),
{
    let n = ifs[k].name@;
    let pr = physical_rules(ifs, leak, local);
    let whole = physical_lines(n, leak, local);
    lemma_physical_rules_hold(ifs, leak, local, k);
    lemma_physical_lines_parts(n, leak, local);
    lemma_contains_trans(pr, whole, dhcp_lines(n));
    lemma_physical_in_file(ifs, peer, leak, local, stamp, dhcp_lines(n));
    lemma_contains_trans(pr, whole, confine_lines(n));
    lemma_physical_in_file(ifs, peer, leak, local, stamp, confine_lines(n));
    if leak {
        lemma_contains_trans(pr, whole, ping_lines(n));
        lemma_physical_in_file(ifs, peer, leak, local, stamp, ping_lines(n));
    }
}

/// Appends the macro of every interface.
fn push_macros(r: &mut String, ifs: &Vec<InterfaceInfo>)
    ensures
        final(r)@ == old(r)@ + macros(ifs@),
{
    let ghost start = r@;
    let mut k: usize = 0;
    while k < ifs.len()
        invariant
            k <= ifs.len(),
            r@ == start + macros(ifs@.subrange(0, k as int)),
        decreases ifs.len() - k,
    {
        let i = &ifs[k];
        let ghost before = r@;
        if i.is_p2p {
            r.append("vpn_");
        } else {
            r.append("int_");
        }
        r.append(i.name.as_str());
        r.append(" = \"");
        r.append(i.name.as_str());
        r.append("\"\n");
        assert(r@ =~= before + macro_line(ifs@[k as int]));
        assert(ifs@.subrange(0, k + 1).drop_last() =~= ifs@.subrange(0, k as int));
        k += 1;
    }
    assert(ifs@.subrange(0, k as int) =~= ifs@);
}

/// Appends the rules of one physical interface.
fn push_physical(r: &mut String, name: &str, leak: bool, local: bool)
    ensures
        final(r)@ == old(r)@ + physical_lines(name@, leak, local),
{
    let ghost start = r@;
    if leak {
        r.append("# Allow ping\npass on $int_");
        r.append(name);
        r.append(" inet proto icmp all icmp-type 8 code 0 keep state\n\n");
    }
    let ghost after_ping = r@;
    r.append("# Allow dhcp\npass on $int_");
    r.append(name);
    r.append(" proto {tcp,udp} from any port 67:68 to any port 67:68 keep state\n\n");
    let ghost after_dhcp = r@;
    if local {
        r.append("pass from $int_");
        r.append(name);
        r.append(":network to $int_");
        r.append(name);
        r.append(":network\n");
    }
    let ghost after_local = r@;
    r.append("# use only the vpn\npass on $int_");
    r.append(name);
    r.append(" proto {tcp, udp} from any to $vpn_ip\n");
    assert(after_ping =~= start + if leak {
        ping_lines(name@)
    } else {
        seq![]
    });
    assert(after_dhcp =~= after_ping + dhcp_lines(name@));
    assert(after_local =~= after_dhcp + if local {
        local_line(name@)
    } else {
        seq![]
    });
    assert(r@ =~= after_local + confine_lines(name@));
    assert(r@ =~= start + physical_lines(name@, leak, local));
}

/// Appends the rules of every physical interface.
fn push_physical_rules(r: &mut String, ifs: &Vec<InterfaceInfo>, leak: bool, local: bool)
    ensures
        final(r)@ == old(r)@ + physical_rules(ifs@, leak, local),
{
    let ghost start = r@;
    let mut k: usize = 0;
    while k < ifs.len()
        invariant
            k <= ifs.len(),
            r@ == start + physical_rules(ifs@.subrange(0, k as int), leak, local),
        decreases ifs.len() - k,
    {
        let i = &ifs[k];
        let ghost before = r@;
        if !i.is_p2p {
            push_physical(r, i.name.as_str(), leak, local);
        }
        assert(ifs@.subrange(0, k + 1).drop_last() =~= ifs@.subrange(0, k as int));
        assert(r@ =~= start + physical_rules(ifs@.subrange(0, k + 1), leak, local));
        k += 1;
    }
    assert(ifs@.subrange(0, k as int) =~= ifs@);
}

/// Appends the rule of every tunnel interface.
fn push_tunnel_rules(r: &mut String, ifs: &Vec<InterfaceInfo>)
    ensures
        final(r)@ == old(r)@ + tunnel_rules(ifs@),
{
    let ghost start = r@;
    let mut k: usize = 0;
    while k < ifs.len()
        invariant
            k <= ifs.len(),
            r@ == start + tunnel_rules(ifs@.subrange(0, k as int)),
        decreases ifs.len() - k,
    {
        let i = &ifs[k];
        let ghost before = r@;
        if i.is_p2p {
            r.append("pass on $vpn_");
            r.append(i.name.as_str());
            r.append(" all\n");
            assert(r@ =~= before + tunnel_line(i.name@));
        }
        assert(ifs@.subrange(0, k + 1).drop_last() =~= ifs@.subrange(0, k as int));
        assert(r@ =~= start + tunnel_rules(ifs@.subrange(0, k + 1)));
        k += 1;
    }
    assert(ifs@.subrange(0, k as int) =~= ifs@);
}

/// The rule file for the given interfaces and endpoint, with `stamp` as its
/// generation time. Fails only when the endpoint is no IP address.
#[verifier::rlimit(60)]
pub fn render_rules(
    vpn_peer: &str,
    interfaces: &Vec<InterfaceInfo>,
    leak: bool,
    local: bool,
    stamp: &str,
) -> (r: Result<String, KillswitchError>)
    ensures
        is_ip(vpn_peer@) ==> (r matches Ok(t) && t@ == rules_text(
            interfaces@,
            vpn_peer@,
            leak,
            local,
            stamp@,
        )),
        !is_ip(vpn_peer@) ==> r == Err::<String, KillswitchError>(KillswitchError::Validation),
{
    if !is_ip_text(vpn_peer) {
        return Err(KillswitchError::Validation);
    }
    let mut r = String::new();
    r.append("# --------------------------------------------------------------\n");
    r.append("# ");
    r.append(stamp);
    r.append("\n");
    let ghost head = r@;
    r.append("# sudo pfctl -Fa -f /tmp/killswitch.pf.conf -e\n");
    r.append("# --------------------------------------------------------------\n");
    let ghost before_macros = r@;
    push_macros(&mut r, interfaces);
    let ghost after_macros = r@;
    r.append("vpn_ip = \"");
    r.append(display_address(vpn_peer).as_str());
    r.append("\"\n\n");
    r.append(
        "set block-policy drop\nset ruleset-optimization basic\nset skip on lo0\n\nblock all\nblock out inet6\n\n",
    );
    let ghost after_policy = r@;
    if leak {
        r.append("# dns\npass quick proto {tcp, udp} from any to any port 53 keep state\n\n");
    }
    r.append(
        "# Allow broadcasts on internal interface\npass from any to 255.255.255.255 keep state\npass from 255.255.255.255 to any keep state\n\n# Allow multicast\npass proto udp from any to 224.0.0.0/4 keep state\npass proto udp from 224.0.0.0/4 to any keep state\n\n",
    );
    let ghost before_physical = r@;
    push_physical_rules(&mut r, interfaces, leak, local);
    let ghost after_physical = r@;
    push_tunnel_rules(&mut r, interfaces);
    assert(head =~= separator_line() + stamp_line(stamp@));
    assert(before_macros =~= head + load_hint() + separator_line());
    assert(after_policy =~= after_macros + endpoint_macro(vpn_peer@) + policy_lines());
    assert(before_physical =~= after_policy + (if leak {
        dns_lines()
    } else {
        seq![]
    }) + broadcast_lines());
    assert(r@ =~= rules_text(interfaces@, vpn_peer@, leak, local, stamp@));
    Ok(r)
}

/// Whether the characters `a..b` of `s` are ASCII letters.
pub open spec fn letters(s: Seq<char>, a: int, b: int) -> bool {
    forall|k: int|
        a <= k < b ==> ('A' as u32 <= #[trigger] s[k] as u32 <= 'Z' as u32 || 'a' as u32
            <= s[k] as u32 <= 'z' as u32)
}

/// Whether the characters `a..b` of `s` are ASCII digits.
pub open spec fn digits(s: Seq<char>, a: int, b: int) -> bool {
    forall|k: int| a <= k < b ==> '0' as u32 <= #[trigger] s[k] as u32 <= '9' as u32
}

/// A year as chrono's `%Y` writes it: four digits, or a sign and at least
/// four digits outside `0..=9999`.
pub open spec fn year_form(y: Seq<char>) -> bool {
    ||| y.len() == 4 && digits(y, 0, 4)
    ||| y.len() >= 5 && (y[0] == '+' || y[0] == '-') && digits(y, 1, y.len() as int)
}

/// The shape of a timestamp written `%a, %d %b %Y %H:%M:%S %z`: a
/// three-letter weekday, a comma, the two-digit day, the three-letter
/// month, the year, the time as `hh:mm:ss`, and the offset as a sign and
/// four digits, separated by single spaces.
pub open spec fn stamp_form(s: Seq<char>) -> bool {
    let n = s.len() as int;
    &&& n >= 31
    &&& letters(s, 0, 3)
    &&& s[3] == ','
    &&& s[4] == ' '
    &&& digits(s, 5, 7)
    &&& s[7] == ' '
    &&& letters(s, 8, 11)
    &&& s[11] == ' '
    &&& year_form(s.subrange(12, n - 15))
    &&& s[n - 15] == ' '
    &&& digits(s, n - 14, n - 12)
    &&& s[n - 12] == ':'
    &&& digits(s, n - 11, n - 9)
    &&& s[n - 9] == ':'
    &&& digits(s, n - 8, n - 6)
    &&& s[n - 6] == ' '
    &&& (s[n - 5] == '+' || s[n - 5] == '-')
    &&& digits(s, n - 4, n)
}

/// A timestamp of that shape holds no line break, so it takes exactly one
/// line of the header.
pub proof fn lemma_stamp_one_line(s: Seq<char>)
    requires
        stamp_form(s),
    ensures
        forall|i: int| 0 <= i < s.len() ==> #[trigger] s[i] != '\n' && s[i] != '\r',
{
    let n = s.len() as int;
    let y = s.subrange(12, n - 15);
    assert forall|i: int| 0 <= i < s.len() implies #[trigger] s[i] != '\n' && s[i] != '\r' by {
        if 12 <= i < n - 15 {
            assert(y[i - 12] == s[i]);
            if y.len() == 4 {
                assert(digits(y, 0, 4));
            }
        }
    }
}

/// Relies on chrono's `Local::now` and `DateTime::format`: the local time
/// written `%a, %d %b %Y %H:%M:%S %z`, whose fields chrono writes as the
/// shape above (three-letter names, zero-padded numbers, the year signed
/// only outside `0..=9999`, the offset as `+hhmm` or `-hhmm`). Which time
/// it shows depends on the clock and the time zone.
#[verifier::external_body]
fn local_timestamp() -> (r: String)
    ensures
        stamp_form(r@),
{
    chrono::Local::now().format("%a, %d %b %Y %H:%M:%S %z").to_string()
}

/// The rule file for the given interfaces and endpoint, stamped with the
/// local time. Fails only when the endpoint is no IP address. The stamp is
/// the only part the inputs leave open, and it has the shape above.
pub fn generate(vpn_peer: &str, interfaces: &Vec<InterfaceInfo>, leak: bool, local: bool) -> (r:
    Result<String, KillswitchError>)
    ensures
        is_ip(vpn_peer@) ==> (r matches Ok(t) && exists|stamp: Seq<char>|
            stamp_form(stamp) && t@ == #[trigger] rules_text(
                interfaces@,
                vpn_peer@,
                leak,
                local,
                stamp,
            )),
        !is_ip(vpn_peer@) ==> r == Err::<String, KillswitchError>(KillswitchError::Validation),
{
    if !is_ip_text(vpn_peer) {
        return Err(KillswitchError::Validation);
    }
    let stamp = local_timestamp();
    render_rules(vpn_peer, interfaces, leak, local, stamp.as_str())
}

} // verus!
