use std::io;

use webview_cli::input::{choose_load, is_blank_text, is_web_url_text, resolve, InputError, Load};
use webview_cli::text::is_white_space_char;

#[test]
fn piped_stdin_is_read_as_inline_html() {
    let got = resolve(false, None, || Ok("<h1>hi</h1>".to_string()));
    assert_eq!(got, Ok(Load::Html("<h1>hi</h1>".to_string())));
}

#[test]
fn piped_stdin_takes_precedence_over_path() {
    let got = resolve(false, Some("page.html".to_string()), || {
        Ok("<h1>piped</h1>".to_string())
    });
    assert_eq!(got, Ok(Load::Html("<h1>piped</h1>".to_string())));
}

#[test]
fn tty_with_path_loads_the_file() {
    let got = resolve(true, Some("page.html".to_string()), || {
        panic!("stdin should not be read when it's a tty")
    });
    assert_eq!(got, Ok(Load::File("page.html".to_string())));
}

#[test]
fn empty_stdin_falls_through_to_path() {
    let got = resolve(false, Some("page.html".to_string()), || Ok(String::new()));
    assert_eq!(got, Ok(Load::File("page.html".to_string())));
}

#[test]
fn empty_stdin_without_path_is_no_input() {
    let got = resolve(false, None, || Ok("   \n".to_string()));
    assert_eq!(got, Err(InputError::NoInput));
}

#[test]
fn tty_without_path_is_no_input() {
    let got = resolve(true, None, || panic!("stdin should not be read"));
    assert_eq!(got, Err(InputError::NoInput));
}

#[test]
fn stdin_read_failure_is_surfaced() {
    let got = resolve(false, None, || Err(io::Error::other("boom")));
    assert!(matches!(got, Err(InputError::StdinRead(_))));
}

#[test]
fn stdin_read_failure_carries_the_reason() {
    let got = resolve(false, Some("page.html".to_string()), || {
        Err(io::Error::other("boom"))
    });
    assert_eq!(got, Err(InputError::StdinRead("boom".to_string())));
}

#[test]
fn web_urls_are_detected_case_insensitively() {
    let got = resolve(true, Some("HTTPS://example.com/a".to_string()), || {
        panic!("stdin should not be read")
    });
    assert_eq!(got, Ok(Load::Url("HTTPS://example.com/a".to_string())));
    assert_eq!(
        choose_load(None, Some("http://x".to_string())),
        Ok(Load::Url("http://x".to_string()))
    );
    assert_eq!(
        choose_load(None, Some("httpx://x".to_string())),
        Ok(Load::File("httpx://x".to_string()))
    );
    assert_eq!(
        choose_load(None, Some("./http://x".to_string())),
        Ok(Load::File("./http://x".to_string()))
    );
}

#[test]
fn piped_html_wins_over_a_url_argument() {
    assert_eq!(
        choose_load(Some("<p>x</p>".to_string()), Some("https://e.com".to_string())),
        Ok(Load::Html("<p>x</p>".to_string()))
    );
    assert_eq!(
        choose_load(Some(" \t\r\n".to_string()), Some("https://e.com".to_string())),
        Ok(Load::Url("https://e.com".to_string()))
    );
}

#[test]
fn blank_text_is_whitespace_only() {
    assert!(is_blank_text(""));
    assert!(is_blank_text(" \t\n\r\u{0b}\u{0c}"));
    assert!(is_blank_text("\u{a0}\u{3000}"));
    assert!(!is_blank_text(" x "));
    assert!(is_web_url_text("hTtP://a"));
    assert!(!is_web_url_text("http:/a"));
    assert!(!is_web_url_text("http"));
}

#[test]
fn white_space_matches_char_is_whitespace() {
    for c in (0u32..=0x10FFFF).filter_map(char::from_u32) {
        assert_eq!(is_white_space_char(c), c.is_whitespace(), "for U+{:04X}", c as u32);
    }
}
