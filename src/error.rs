use vstd::prelude::*;

verus! {

/// Why a kill-switch operation failed.
#[derive(Debug, Clone, PartialEq, Eq)]
pub enum KillswitchError {
    /// The caller lacks the privileges that changing the packet filter needs.
    Privilege,
    /// A supplied endpoint is not an address the kill switch can use.
    Validation,
    /// Every detection strategy ran without yielding a public endpoint.
    Detection,
    /// The interface listing could not be obtained.
    Enumeration,
    /// The packet filter refused to be enabled or to load the new rules; the
    /// message carries its own diagnostic text.
    Apply(String),
    /// The packet filter refused to restore the system rules; the message
    /// carries its own diagnostic text.
    Restore(String),
    /// The active rules could not be queried; the message carries the
    /// filter's own diagnostic text.
    Status(String),
}

impl KillswitchError {
    /// The message shown to the user.
    pub fn message(&self) -> (r: String)
        ensures
            self is Privilege ==> r@ == "This operation requires root privileges. Run it with sudo."@,
            self is Validation ==> r@ == "The VPN peer must be a public IPv4 address"@,
            self is Detection ==> r@
                == "Could not detect VPN gateway. Please specify it manually with --ipv4"@,
            self is Enumeration ==> r@ == "Failed to list network interfaces"@,
            self matches KillswitchError::Apply(t) ==> r@ == t@,
            self matches KillswitchError::Restore(t) ==> r@ == t@,
            self matches KillswitchError::Status(t) ==> r@ == t@,
    {
        match self {
            KillswitchError::Privilege => String::from_str(
                "This operation requires root privileges. Run it with sudo.",
            ),
            KillswitchError::Validation => String::from_str(
                "The VPN peer must be a public IPv4 address",
            ),
            KillswitchError::Detection => String::from_str(
                "Could not detect VPN gateway. Please specify it manually with --ipv4",
            ),
            KillswitchError::Enumeration => String::from_str("Failed to list network interfaces"),
            KillswitchError::Apply(t) => t.clone(),
            KillswitchError::Restore(t) => t.clone(),
            KillswitchError::Status(t) => t.clone(),
        }
    }
}

} // verus!
