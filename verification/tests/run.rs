use webview_cli::bridge::{parse_message, AppEvent};
use webview_cli::assets::{percent_decode, relative_request_path};
use webview_cli::input::InputError;
use webview_cli::run::exit;
use webview_cli::run::{
    on_event, on_input_error, page_url, timer_to_arm, url_encode, user_agent, LoopEvent, Step,
};

#[test]
fn exit_code_table() {
    assert_eq!(exit::RESOLVE, 0);
    assert_eq!(exit::REJECT, 1);
    assert_eq!(exit::CLOSED, 2);
    assert_eq!(exit::TIMEOUT, 3);
    assert_eq!(exit::USAGE, 64);
}

#[test]
fn resolve_prints_payload_on_stdout_and_exits_zero() {
    let ev = parse_message("ok:{\"ok\":1}").unwrap();
    assert_eq!(
        on_event(LoopEvent::App(ev)),
        Step::Exit { code: 0, stdout: Some("{\"ok\":1}".to_string()), stderr: None }
    );
}

#[test]
fn reject_prints_payload_on_stderr_and_exits_one() {
    let ev = parse_message("err:nope").unwrap();
    assert_eq!(
        on_event(LoopEvent::App(ev)),
        Step::Exit { code: 1, stdout: None, stderr: Some("nope".to_string()) }
    );
}

#[test]
fn close_timeout_and_other_events() {
    assert_eq!(
        on_event(LoopEvent::CloseRequested),
        Step::Exit { code: 2, stdout: None, stderr: None }
    );
    assert_eq!(
        on_event(LoopEvent::App(AppEvent::Timeout)),
        Step::Exit { code: 3, stdout: None, stderr: None }
    );
    assert_eq!(on_event(LoopEvent::Other), Step::Wait);
}

#[test]
fn input_errors_are_usage_errors() {
    assert_eq!(
        on_input_error(InputError::NoInput),
        Step::Exit {
            code: 64,
            stdout: None,
            stderr: Some(
                "webview: no HTML to render. Pass a file path or http(s) URL, or pipe HTML on stdin.\nTry 'webview --help' for usage."
                    .to_string()
            ),
        }
    );
    assert_eq!(
        on_input_error(InputError::StdinRead("boom".to_string())),
        Step::Exit {
            code: 64,
            stdout: None,
            stderr: Some("webview: failed to read stdin: boom".to_string()),
        }
    );
}

#[test]
fn url_encode_escapes_all_but_unreserved_bytes() {
    assert_eq!(url_encode("my file.html"), "my%20file.html");
    assert_eq!(url_encode("a-b_c.d~E9"), "a-b_c.d~E9");
    assert_eq!(url_encode("a/b?c#d%"), "a%2Fb%3Fc%23d%25");
    assert_eq!(url_encode("é"), "%C3%A9");
    assert_eq!(url_encode(""), "");
}

#[test]
fn page_url_uses_the_custom_scheme() {
    assert_eq!(page_url(Some("my page.html")), "wv://localhost/my%20page.html");
    assert_eq!(page_url(None), "wv://localhost/index.html");
}

#[test]
fn encoded_names_decode_back() {
    for name in ["my file.html", "100%done", "café ☕.html", "a/b", "", "%41"] {
        assert_eq!(percent_decode(&url_encode(name)), name);
    }
}

#[test]
fn page_request_leads_back_to_the_file() {
    let name = "my report (final).html";
    let request = format!("/{}", url_encode(name));
    assert_eq!(relative_request_path(&request), Some(name.to_string()));
    let request = format!("/{}", url_encode(""));
    assert_eq!(relative_request_path(&request), Some("index.html".to_string()));
}

#[test]
fn user_agent_names_the_tool_and_version() {
    assert_eq!(user_agent(), "webview-cli/0.2.0");
}

#[test]
fn timer_is_armed_only_with_a_timeout() {
    let mut cli = webview_cli::cli::Cli {
        path: None,
        title: "webview".to_string(),
        width: 800,
        height: 600,
        devtools: false,
        icon: None,
        timeout_ms: None,
    };
    assert_eq!(timer_to_arm(&cli), None);
    cli.timeout_ms = Some(400);
    assert_eq!(timer_to_arm(&cli), Some(400));
}
