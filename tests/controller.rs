use killswitch::controller::{
    cleanup_legacy_anchor, enable_filter_result, load_result, resolve_endpoint, restore_result,
    status_report,
};
use killswitch::error::KillswitchError;

#[test]
fn enabling_twice_is_not_an_error() {
    assert_eq!(enable_filter_result(true, ""), Ok(()));
    assert_eq!(enable_filter_result(false, "pfctl: pf already enabled\n"), Ok(()));
    assert_eq!(load_result(true, ""), Ok(()));
}

#[test]
fn other_enable_failures_are_fatal() {
    assert_eq!(
        enable_filter_result(false, "pfctl: /dev/pf: Permission denied"),
        Err(KillswitchError::Apply(
            "Failed to enable pf: pfctl: /dev/pf: Permission denied".to_string()
        ))
    );
}

#[test]
fn load_and_restore_failures_keep_diagnostics() {
    let e = load_result(false, "syntax error").unwrap_err();
    assert_eq!(e, KillswitchError::Apply("Failed to load rules: syntax error".to_string()));
    assert_eq!(e.message(), "Failed to load rules: syntax error");
    let e = restore_result(false, "no such file").unwrap_err();
    assert_eq!(
        e,
        KillswitchError::Restore("Failed to restore system rules: no such file".to_string())
    );
    assert_eq!(restore_result(true, "ignored"), Ok(()));
}

#[test]
fn status_reports() {
    let dump = "ALTQ related messages\nblock drop all\n";
    assert_eq!(
        status_report(true, dump),
        format!("VPN kill switch: ENABLED\n\n{dump}")
    );
    assert_eq!(status_report(false, dump), "VPN kill switch: DISABLED");
    assert_eq!(
        status_report(true, "\nNo ALTQ support in kernel\n"),
        "VPN kill switch: DISABLED"
    );
    assert_eq!(status_report(true, ""), "VPN kill switch: DISABLED");
}

#[test]
fn legacy_lines_are_removed() {
    let conf = "scrub-anchor \"com.apple/*\"\nanchor \"killswitch\"\nload anchor \"com.apple\" from \"/etc/pf.anchors/com.apple\"\n";
    assert_eq!(
        cleanup_legacy_anchor(conf),
        Some(
            "scrub-anchor \"com.apple/*\"\nload anchor \"com.apple\" from \"/etc/pf.anchors/com.apple\"\n"
                .to_string()
        )
    );
    assert_eq!(cleanup_legacy_anchor("anchor killswitch\n"), Some("\n".to_string()));
    assert_eq!(cleanup_legacy_anchor("set skip on lo0\n"), None);
}

#[test]
fn supplied_endpoint_is_validated() {
    assert_eq!(
        resolve_endpoint(Some("203.0.113.1".to_string()), None),
        Ok("203.0.113.1".to_string())
    );
    assert_eq!(
        resolve_endpoint(Some("10.8.0.1".to_string()), Some("52.1.2.3".to_string())),
        Err(KillswitchError::Validation)
    );
    assert_eq!(
        resolve_endpoint(Some("::1".to_string()), None),
        Err(KillswitchError::Validation)
    );
    assert_eq!(resolve_endpoint(None, None), Err(KillswitchError::Detection));
    assert_eq!(
        resolve_endpoint(None, Some("52.1.2.3".to_string())),
        Ok("52.1.2.3".to_string())
    );
}

#[test]
fn error_messages() {
    assert!(KillswitchError::Privilege.message().contains("root privileges"));
    assert!(KillswitchError::Detection.message().contains("--ipv4"));
    assert!(!KillswitchError::Validation.message().is_empty());
    assert!(!KillswitchError::Enumeration.message().is_empty());
    assert_eq!(KillswitchError::Status("x".to_string()).message(), "x");
}
