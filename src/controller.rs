use vstd::prelude::*;
use vstd::string::*;
use crate::error::KillswitchError;
use crate::interfaces::InterfaceInfo;
use crate::ip::{is_endpoint, is_ip, is_vpn_gateway};
use crate::network::{next_strategy, Strategy};
use crate::rules::{generate, rules_text, stamp_form};
use crate::text::{contains, contains_str, lines, lines_of, views};

verus! {

/// Where the generated rule file is written.
pub const PF_RULES_PATH: &'static str = "/tmp/killswitch.pf.conf";

/// The system's default packet-filter configuration.
pub const PF_SYSTEM_CONF: &'static str = "/etc/pf.conf";

/// The marker of lines that older versions left in the system configuration.
pub const LEGACY_MARKER: &'static str = "killswitch";

/// The endpoint the rules are built for: the one supplied, or else the one
/// detected; either must pass the endpoint check.
pub open spec fn endpoint_choice(explicit: Option<Seq<char>>, detected: Option<Seq<char>>) -> Result<
    Seq<char>,
    KillswitchError,
> {
    match explicit {
        Some(ip) => if is_endpoint(ip) {
            Ok(ip)
        } else {
            Err(KillswitchError::Validation)
        },
        None => match detected {
            Some(g) => if is_endpoint(g) {
                Ok(g)
            } else {
                Err(KillswitchError::Detection)
            },
            None => Err(KillswitchError::Detection),
        },
    }
}

/// The endpoint to build rules for. A supplied endpoint that fails the
/// check is refused, never replaced; without one, a failed detection fails.
pub fn resolve_endpoint(explicit: Option<String>, detected: Option<String>) -> (r: Result<
    String,
    KillswitchError,
>)
    ensures
        match endpoint_choice(crate::text::opt_view(explicit), crate::text::opt_view(detected)) {
            Ok(ip) => r matches Ok(s) && s@ == ip,
            Err(e) => r == Err::<String, KillswitchError>(e),
        },
{
    match explicit {
        Some(ip) => if is_vpn_gateway(ip.as_str()) {
            Ok(ip)
        } else {
            Err(KillswitchError::Validation)
        },
        None => match detected {
            Some(g) => if is_vpn_gateway(g.as_str()) {
                Ok(g)
            } else {
                Err(KillswitchError::Detection)
            },
            None => Err(KillswitchError::Detection),
        },
    }
}

/// The rule file for the chosen endpoint. Where no endpoint can be had the
/// error comes back and no rules are built, so nothing reaches the filter.
pub fn rules_for(
    explicit: Option<String>,
    detected: Option<String>,
    interfaces: &Vec<InterfaceInfo>,
    leak: bool,
    local: bool,
) -> (r: Result<String, KillswitchError>)
    ensures
        match endpoint_choice(crate::text::opt_view(explicit), crate::text::opt_view(detected)) {
            Ok(ip) => r matches Ok(t) && exists|stamp: Seq<char>|
                stamp_form(stamp) && t@ == #[trigger] rules_text(interfaces@, ip, leak, local, stamp),
            Err(e) => r == Err::<String, KillswitchError>(e),
        },
{
    let ep = match resolve_endpoint(explicit, detected) {
        Ok(ep) => ep,
        Err(e) => return Err(e),
    };
    proof {
        lemma_endpoint_is_ip(ep@);
    }
    generate(ep.as_str(), interfaces, leak, local)
}

/// What the detector ends with when the strategies from `s` on yield
/// `outcomes` in turn: the first candidate, or none once no strategy is left.
pub open spec fn chain_from(s: Strategy, outcomes: Seq<Option<Seq<char>>>) -> Option<Seq<char>>
    decreases outcomes.len(),
{
    if outcomes.len() == 0 {
        None
    } else {
        match outcomes[0] {
            Some(g) => Some(g),
            None => match next_strategy(s) {
                Some(n) => chain_from(n, outcomes.drop_first()),
                None => None,
            },
        }
    }
}

/// With no active VPN route, no connected VPN service and no tunnel-like
/// interface, every strategy comes back empty: detection ends without an
/// endpoint, and building rules without a supplied endpoint fails with the
/// detection error, so no rules reach the filter.
pub proof fn lemma_nothing_detected(outcomes: Seq<Option<Seq<char>>>)
    requires
        outcomes.len() == 4,
        forall|i: int| 0 <= i < 4 ==> #[trigger] outcomes[i] is None,
    ensures
        chain_from(Strategy::RoutingTable, outcomes) is None,
        endpoint_choice(None, chain_from(Strategy::RoutingTable, outcomes)) == Err::<
            Seq<char>,
            KillswitchError,
        >(KillswitchError::Detection),
{
    let o1 = outcomes.drop_first();
    let o2 = o1.drop_first();
    let o3 = o2.drop_first();
    assert(o1[0] == outcomes[1]);
    assert(o2[0] == outcomes[2]);
    assert(o3[0] == outcomes[3]);
    assert(chain_from(Strategy::InterfacePeer, o3) is None);
    assert(chain_from(Strategy::VpnService, o2) is None);
    assert(chain_from(Strategy::RouteText, o1) is None);
}

/// An address that passes the endpoint check is an IP address.
pub proof fn lemma_endpoint_is_ip(s: Seq<char>)
    requires
        is_endpoint(s),
    ensures
        is_ip(s),
{
}

/// The failure, if any, that enabling the filter ends in: success, or a
/// failure whose message says that it was already enabled, is none; any
/// other failure is fatal, with the command's own text.
pub open spec fn enable_failure(success: bool, stderr: Seq<char>) -> Option<Seq<char>> {
    if success || contains(stderr, "already enabled"@) {
        None
    } else {
        Some("Failed to enable pf: "@ + stderr)
    }
}

/// The message of a failed command: what failed, then the command's own text.
fn prefixed(prefix: &str, text: &str) -> (r: String)
    ensures
        r@ == prefix@ + text@,
{
    let mut m = String::from_str(prefix);
    m.append(text);
    m
}

/// What the enable command's outcome means for the operation under way.
pub fn enable_filter_result(success: bool, stderr: &str) -> (r: Result<(), KillswitchError>)
    ensures
        match enable_failure(success, stderr@) {
            None => r is Ok,
            Some(m) => r matches Err(KillswitchError::Apply(t)) && t@ == m,
        },
{
    if success || contains_str(stderr, "already enabled") {
        Ok(())
    } else {
        Err(KillswitchError::Apply(prefixed("Failed to enable pf: ", stderr)))
    }
}

/// What the outcome of loading the new rules means.
pub fn load_result(success: bool, stderr: &str) -> (r: Result<(), KillswitchError>)
    ensures
        success ==> r is Ok,
        !success ==> (r matches Err(KillswitchError::Apply(t)) && t@ == "Failed to load rules: "@
            + stderr@),
{
    if success {
        Ok(())
    } else {
        Err(KillswitchError::Apply(prefixed("Failed to load rules: ", stderr)))
    }
}

/// What the outcome of reloading the system rules means.
pub fn restore_result(success: bool, stderr: &str) -> (r: Result<(), KillswitchError>)
    ensures
        success ==> r is Ok,
        !success ==> (r matches Err(KillswitchError::Restore(t)) && t@
            == "Failed to restore system rules: "@ + stderr@),
{
    if success {
        Ok(())
    } else {
        Err(KillswitchError::Restore(prefixed("Failed to restore system rules: ", stderr)))
    }
}

/// Applying the rules goes through once enabling the filter reports either
/// success or that it was already enabled, and loading succeeds. So a second
/// application, made while the filter is already enabled, succeeds as the
/// first did.
pub proof fn lemma_apply_twice(second_enable_stderr: Seq<char>)
    requires
        contains(second_enable_stderr, "already enabled"@),
    ensures
        enable_failure(true, seq![]) is None,
        enable_failure(false, second_enable_stderr) is None,
{
}

/// Whether a line of the active-rule dump is a rule: not empty, and no line
/// of queue statistics.
pub open spec fn is_rule_line(l: Seq<char>) -> bool {
    l.len() > 0 && !contains(l, "ALTQ"@)
}

/// The status report: enabled, with the active rules, when the generated
/// rule file exists and the dump holds a rule; disabled otherwise.
pub open spec fn status_text(rules_file_exists: bool, active: Seq<char>) -> Seq<char> {
    if rules_file_exists && exists|i: int| 0 <= i < lines(active).len() && is_rule_line(
        #[trigger] lines(active)[i],
    ) {
        "VPN kill switch: ENABLED\n\n"@ + active
    } else {
        "VPN kill switch: DISABLED"@
    }
}

/// Whether the dump of the active rules holds a rule.
fn has_rule_line(active: &str) -> (r: bool)
    ensures
        r == exists|i: int| 0 <= i < lines(active@).len() && is_rule_line(
            #[trigger] lines(active@)[i],
        ),
{
    let ls = lines_of(active);
    let ghost v = views(ls@);
    let mut i: usize = 0;
    while i < ls.len()
        invariant
            v == views(ls@),
            v == lines(active@),
            i <= ls.len(),
            forall|k: int| 0 <= k < i ==> !is_rule_line(#[trigger] v[k]),
        decreases ls.len() - i,
    {
        let l = ls[i].as_str();
        assert(v[i as int] == l@);
        if l.unicode_len() > 0 && !contains_str(l, "ALTQ") {
            return true;
        }
        i += 1;
    }
    false
}

/// The status report for the dump of the active rules.
pub fn status_report(rules_file_exists: bool, active: &str) -> (r: String)
    ensures
        r@ == status_text(rules_file_exists, active@),
{
    if rules_file_exists && has_rule_line(active) {
        prefixed("VPN kill switch: ENABLED\n\n", active)
    } else {
        String::from_str("VPN kill switch: DISABLED")
    }
}

/// The lines of `ls` that do not hold the legacy marker.
pub open spec fn kept_lines(ls: Seq<Seq<char>>) -> Seq<Seq<char>>
    decreases ls.len(),
{
    if ls.len() == 0 {
        seq![]
    } else if contains(ls.last(), LEGACY_MARKER@) {
        kept_lines(ls.drop_last())
    } else {
        kept_lines(ls.drop_last()).push(ls.last())
    }
}

/// The lines joined with line breaks between them.
pub open spec fn join_lines(ls: Seq<Seq<char>>) -> Seq<char>
    decreases ls.len(),
{
    if ls.len() == 0 {
        seq![]
    } else if ls.len() == 1 {
        ls[0]
    } else {
        join_lines(ls.drop_last()) + "\n"@ + ls.last()
    }
}

/// The system configuration without the lines older versions left in it,
/// closed by a line break; `None` where it holds no marker and stays as it is.
pub open spec fn cleaned_config(conf: Seq<char>) -> Option<Seq<char>> {
    if contains(conf, LEGACY_MARKER@) {
        Some(join_lines(kept_lines(lines(conf))) + "\n"@)
    } else {
        None
    }
}

/// The system configuration to write back once the legacy lines are gone,
/// or `None` where nothing is to be written.
pub fn cleanup_legacy_anchor(conf: &str) -> (r: Option<String>)
    ensures
        crate::text::opt_view(r) == cleaned_config(conf@),
{
    if !contains_str(conf, LEGACY_MARKER) {
        return None;
    }
    let ls = lines_of(conf);
    let ghost v = views(ls@);
    let mut out = String::new();
    let mut n_kept: usize = 0;
    let mut i: usize = 0;
    while i < ls.len()
        invariant
            v == views(ls@),
            v == lines(conf@),
            i <= ls.len(),
            n_kept == kept_lines(v.subrange(0, i as int)).len(),
            n_kept <= i,
            out@ == join_lines(kept_lines(v.subrange(0, i as int))),
        decreases ls.len() - i,
    {
        let l = ls[i].as_str();
        assert(v[i as int] == l@);
        assert(v.subrange(0, i + 1).drop_last() =~= v.subrange(0, i as int));
        if !contains_str(l, LEGACY_MARKER) {
            let ghost k = kept_lines(v.subrange(0, i as int));
            if n_kept > 0 {
                out.append("\n");
            }
            out.append(l);
            assert(kept_lines(v.subrange(0, i + 1)) == k.push(l@));
            assert(k.push(l@).drop_last() =~= k);
            if n_kept == 0 {
                assert(out@ =~= join_lines(k.push(l@)));
            } else {
                assert(out@ =~= join_lines(k.push(l@)));
            }
            n_kept += 1;
        }
        i += 1;
    }
    assert(v.subrange(0, i as int) =~= v);
    out.append("\n");
    Some(out)
}

} // verus!
