use desktop_service::data::{DNSStatus, DnsBody, ServiceError};
use desktop_service::dns::{
    confirm_dns_restored, normalize_dns_output, restore_pending, set_dns, unset_dns,
};
use desktop_service::json::response_json;
use desktop_service::router::envelope;
use desktop_service::text::{find_sub, split_lines, trim_str};

fn dns_body(v: &str) -> DnsBody {
    DnsBody { dns: v.to_string() }
}

#[test]
fn save_once_preserves_original() {
    let mut status = DNSStatus::default();

    let cmd = set_dns(
        &mut status,
        &dns_body("9.9.9.9"),
        "Wi-Fi".to_string(),
        Some("1.1.1.1\n8.8.8.8\n".to_string()),
    )
    .unwrap();
    assert_eq!(cmd.service, "Wi-Fi");
    assert_eq!(cmd.servers, "9.9.9.9");
    assert_eq!(status.dns.as_deref(), Some("1.1.1.1 8.8.8.8"));

    // A second override must not overwrite the pending save.
    let cmd = set_dns(
        &mut status,
        &dns_body("4.4.4.4"),
        "Wi-Fi".to_string(),
        Some("9.9.9.9".to_string()),
    )
    .unwrap();
    assert_eq!(cmd.servers, "4.4.4.4");
    assert_eq!(status.dns.as_deref(), Some("1.1.1.1 8.8.8.8"));
}

#[test]
fn restore_then_clear() {
    let mut status = DNSStatus::default();
    set_dns(
        &mut status,
        &dns_body("9.9.9.9"),
        "Wi-Fi".to_string(),
        Some("1.1.1.1".to_string()),
    )
    .unwrap();

    assert!(restore_pending(&status));
    let cmd = unset_dns(&status, Ok("Wi-Fi".to_string())).unwrap().unwrap();
    assert_eq!(cmd.service, "Wi-Fi");
    assert_eq!(cmd.servers, "1.1.1.1");
    // The save stands until the command's success is confirmed.
    assert_eq!(status.dns.as_deref(), Some("1.1.1.1"));
    confirm_dns_restored(&mut status);
    assert!(status.dns.is_none());
    assert!(!restore_pending(&status));

    // Nothing is left to restore: no second set command is planned.
    let r = unset_dns(&status, Ok("Wi-Fi".to_string())).unwrap();
    assert!(r.is_none());
    assert!(status.dns.is_none());
}

#[test]
fn failed_restore_can_be_retried() {
    let mut status = DNSStatus::default();
    set_dns(&mut status, &dns_body("x"), "Wi-Fi".to_string(), Some("1.1.1.1".to_string()))
        .unwrap();

    // The restore command could not be run: no confirmation, so the next
    // call plans the same restore again.
    let first = unset_dns(&status, Ok("Wi-Fi".to_string())).unwrap().unwrap();
    let again = unset_dns(&status, Ok("Wi-Fi".to_string())).unwrap().unwrap();
    assert_eq!(first.servers, "1.1.1.1");
    assert_eq!(again.servers, "1.1.1.1");
    assert_eq!(status.dns.as_deref(), Some("1.1.1.1"));
}

#[test]
fn unset_with_nothing_saved_is_a_no_op() {
    let status = DNSStatus::default();
    let r = unset_dns(&status, Err(ServiceError::NoNetworkService)).unwrap();
    assert!(r.is_none());
}

#[test]
fn unset_propagates_resolution_failure_only_when_restoring() {
    let mut status = DNSStatus::default();
    set_dns(&mut status, &dns_body("x"), "Wi-Fi".to_string(), Some("1.1.1.1".to_string()))
        .unwrap();
    let r = unset_dns(&status, Err(ServiceError::NoNetworkService));
    assert!(matches!(r, Err(ServiceError::NoNetworkService)));
    // The save survives a failed resolution.
    assert_eq!(status.dns.as_deref(), Some("1.1.1.1"));
}

#[test]
fn set_dns_needs_query_output_for_first_save() {
    let mut status = DNSStatus::default();
    let r = set_dns(&mut status, &dns_body("x"), "Wi-Fi".to_string(), None);
    assert!(matches!(r, Err(ServiceError::Io(_))));
    assert!(status.dns.is_none());
}

#[test]
fn no_dns_notice_becomes_empty_sentinel() {
    let raw = "There aren't any DNS Servers set on Wi-Fi.\n";
    assert_eq!(normalize_dns_output(raw), "Empty");
    let mut status = DNSStatus::default();
    set_dns(&mut status, &dns_body("x"), "Wi-Fi".to_string(), Some(raw.to_string())).unwrap();
    assert_eq!(status.dns.as_deref(), Some("Empty"));
}

#[test]
fn normalize_flattens_and_trims() {
    assert_eq!(normalize_dns_output("  8.8.8.8\n1.1.1.1\n"), "8.8.8.8 1.1.1.1");
    assert_eq!(normalize_dns_output("\n\t \n"), "");
}

#[test]
fn failure_envelopes_carry_the_error_text() {
    let r = response_json(&envelope(Err(ServiceError::Io("failed to open log".to_string()))));
    assert_eq!(r, "{\"code\":400,\"msg\":\"failed to open log\",\"data\":null}");

    let r = response_json(&envelope(Err(ServiceError::Spawn(
        "No such file or directory (os error 2)".to_string(),
    ))));
    assert_eq!(
        r,
        "{\"code\":400,\"msg\":\"No such file or directory (os error 2)\",\"data\":null}"
    );

    let r = response_json(&envelope(Err(ServiceError::NoNetworkService)));
    assert_eq!(r, "{\"code\":400,\"msg\":\"No network service found\",\"data\":null}");

    let r = response_json(&envelope(Err(ServiceError::ExternalCommand("bad output".to_string()))));
    assert_eq!(r, "{\"code\":400,\"msg\":\"bad output\",\"data\":null}");
}

#[test]
fn envelope_escapes_message_text() {
    let r = response_json(&envelope(Err(ServiceError::Io(
        "a\"b\\c\nd\te\r\u{1}".to_string(),
    ))));
    assert_eq!(
        r,
        "{\"code\":400,\"msg\":\"a\\\"b\\\\c\\nd\\te\\r\\u0001\",\"data\":null}"
    );
}

#[test]
fn text_helpers_behave_like_their_contracts_say() {
    assert_eq!(find_sub("Hardware Port: Wi-Fi", "Port:"), Some(9));
    assert_eq!(find_sub("abc", "zz"), None);
    assert_eq!(find_sub("aaa", "aa"), Some(0));
    assert_eq!(trim_str("  x y \t"), "x y");
    assert_eq!(trim_str(" \n "), "");
    let lines = split_lines("a\nb\n");
    assert_eq!(lines, vec!["a".to_string(), "b".to_string(), "".to_string()]);
    let lines = split_lines("");
    assert_eq!(lines, vec!["".to_string()]);
}
