use webview_cli::bridge::{bridge_script, parse_message, AppEvent};
use webview_cli::cli::VERSION;

#[test]
fn parses_resolve() {
    assert_eq!(
        parse_message("ok:{\"ok\":1}"),
        Some(AppEvent::Resolve("{\"ok\":1}".to_string()))
    );
}

#[test]
fn parses_reject() {
    assert_eq!(
        parse_message("err:nope"),
        Some(AppEvent::Reject("nope".to_string()))
    );
}

#[test]
fn resolve_payload_may_contain_colons() {
    // The split stops at the first colon, so JSON with colons is intact.
    assert_eq!(
        parse_message("ok:{\"a\":\"b:c\"}"),
        Some(AppEvent::Resolve("{\"a\":\"b:c\"}".to_string()))
    );
}

#[test]
fn empty_resolve_is_a_resolve_with_empty_payload() {
    assert_eq!(parse_message("ok:"), Some(AppEvent::Resolve(String::new())));
}

#[test]
fn unrecognized_messages_are_ignored() {
    assert_eq!(parse_message("garbage"), None);
    assert_eq!(parse_message("info:something"), None);
    assert_eq!(parse_message(""), None);
}

#[test]
fn tags_are_exact_and_case_sensitive() {
    assert_eq!(parse_message("OK:1"), None);
    assert_eq!(parse_message("ok :1"), None);
    assert_eq!(parse_message("okay:1"), None);
    assert_eq!(parse_message(":ok:1"), None);
    assert_eq!(parse_message("err:"), Some(AppEvent::Reject(String::new())));
    assert_eq!(
        parse_message("err:a:b"),
        Some(AppEvent::Reject("a:b".to_string()))
    );
}

#[test]
fn payload_is_kept_verbatim_with_unicode_and_newlines() {
    assert_eq!(
        parse_message("ok:\"héllo\"\n ✓ "),
        Some(AppEvent::Resolve("\"héllo\"\n ✓ ".to_string()))
    );
}

#[test]
fn bridge_script_defines_the_channel() {
    let expected = format!(
        r#"
  window.webview = {{
    version: "{}",
    resolve: (v) => window.ipc.postMessage("ok:"  + JSON.stringify(v ?? null)),
    reject:  (e) => window.ipc.postMessage("err:" + String(e)),
  }};
"#,
        VERSION
    );
    assert_eq!(bridge_script(), expected);
    assert_eq!(VERSION, "0.2.0");
}
