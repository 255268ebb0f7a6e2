use webview_cli::cli::{Cli, DEFAULT_HEIGHT, DEFAULT_TITLE, DEFAULT_WIDTH};

#[test]
fn defaults_match_the_flag_table() {
    assert_eq!(DEFAULT_TITLE, "webview");
    assert_eq!(DEFAULT_WIDTH, 800);
    assert_eq!(DEFAULT_HEIGHT, 600);
    let cli = Cli {
        path: None,
        title: DEFAULT_TITLE.to_string(),
        width: DEFAULT_WIDTH,
        height: DEFAULT_HEIGHT,
        devtools: false,
        icon: None,
        timeout_ms: Some(5000),
    };
    assert_eq!(cli.clone(), cli);
}
