use webview_cli::assets::{
    content_type, content_type_for_name, hex_digit_value, percent_decode, percent_decode_bytes,
    relative_request_path,
};
use webview_cli::paths::{confine_to_root, only_normal_parts, PathPart};

#[test]
fn content_type_is_case_insensitive() {
    assert_eq!(content_type("a.CSS"), "text/css");
    assert_eq!(content_type("a.Js"), "text/javascript");
    assert_eq!(content_type("noext"), "application/octet-stream");
}

#[test]
fn percent_decode_handles_spaces_and_passthrough() {
    assert_eq!(percent_decode("my%20file.html"), "my file.html");
    assert_eq!(percent_decode("plain.css"), "plain.css");
    // Malformed escapes are left untouched.
    assert_eq!(percent_decode("100%done"), "100%done");
}

#[test]
fn content_type_table_covers_each_extension() {
    let cases = [
        ("index.html", "text/html"),
        ("index.HTM", "text/html"),
        ("app.mjs", "text/javascript"),
        ("data.json", "application/json"),
        ("logo.svg", "image/svg+xml"),
        ("logo.PNG", "image/png"),
        ("photo.jpg", "image/jpeg"),
        ("photo.JPEG", "image/jpeg"),
        ("anim.gif", "image/gif"),
        ("pic.webp", "image/webp"),
        ("favicon.ico", "image/x-icon"),
        ("font.woff2", "font/woff2"),
        ("font.woff", "font/woff"),
        ("font.ttf", "font/ttf"),
        ("mod.wasm", "application/wasm"),
        ("notes.txt", "text/plain"),
        ("archive.tar.gz", "application/octet-stream"),
    ];
    for (name, expected) in cases {
        assert_eq!(content_type(name), expected, "for {name}");
    }
}

#[test]
fn content_type_uses_the_last_dot_of_the_file_name() {
    assert_eq!(content_type("sub.dir/page.min.CSS"), "text/css");
    assert_eq!(content_type("/srv/site/index.html"), "text/html");
    // A leading dot alone is not an extension.
    assert_eq!(content_type(".css"), "application/octet-stream");
    // A trailing dot gives an empty extension.
    assert_eq!(content_type("file."), "application/octet-stream");
    assert_eq!(content_type(""), "application/octet-stream");
}

#[test]
fn content_type_for_name_reads_the_given_name() {
    assert_eq!(content_type_for_name(Some("x.Html".to_string())), "text/html");
    assert_eq!(content_type_for_name(None), "application/octet-stream");
}

#[test]
fn hex_digits_of_both_cases() {
    assert_eq!(hex_digit_value(b'0'), Some(0));
    assert_eq!(hex_digit_value(b'9'), Some(9));
    assert_eq!(hex_digit_value(b'a'), Some(10));
    assert_eq!(hex_digit_value(b'F'), Some(15));
    assert_eq!(hex_digit_value(b'g'), None);
    assert_eq!(hex_digit_value(b'%'), None);
}

#[test]
fn percent_decode_bytes_exact_values() {
    assert_eq!(percent_decode_bytes(b"%41%2f%2F"), b"A//".to_vec());
    // An escape needs two digits after the `%`.
    assert_eq!(percent_decode_bytes(b"%4"), b"%4".to_vec());
    assert_eq!(percent_decode_bytes(b"a%41"), b"aA".to_vec());
    assert_eq!(percent_decode_bytes(b"%zz%41"), b"%zzA".to_vec());
    assert_eq!(percent_decode_bytes(b"%%41"), b"%A".to_vec());
}

#[test]
fn percent_decode_reads_utf8_and_replaces_invalid_bytes() {
    assert_eq!(percent_decode("caf%C3%A9"), "café");
    assert_eq!(percent_decode("%FF"), "\u{FFFD}");
}

#[test]
fn traversal_request_paths_are_refused() {
    assert_eq!(relative_request_path("/../Cargo.toml"), None);
    assert_eq!(relative_request_path("/../../etc/passwd"), None);
    assert_eq!(relative_request_path("/sub/../../x"), None);
    // An encoded slash cannot re-anchor the path.
    assert_eq!(relative_request_path("/%2Fetc/passwd"), None);
    // Nor can an encoded `..`.
    assert_eq!(relative_request_path("/%2E%2E/secret"), None);
}

#[test]
fn request_paths_resolve_to_relative_names() {
    assert_eq!(relative_request_path("/resolve.html"), Some("resolve.html".to_string()));
    assert_eq!(relative_request_path("/sub/app.css"), Some("sub/app.css".to_string()));
    assert_eq!(relative_request_path("///my%20file.html"), Some("my file.html".to_string()));
    assert_eq!(relative_request_path("/"), Some("index.html".to_string()));
    assert_eq!(relative_request_path(""), Some("index.html".to_string()));
}

#[test]
fn only_normal_parts_checks_every_part() {
    assert!(only_normal_parts(&vec![]));
    assert!(only_normal_parts(&vec![PathPart::Normal, PathPart::Normal]));
    assert!(!only_normal_parts(&vec![PathPart::Normal, PathPart::ParentDir]));
    assert!(!only_normal_parts(&vec![PathPart::RootDir]));
    assert!(!only_normal_parts(&vec![PathPart::CurDir, PathPart::Normal]));
    assert!(!only_normal_parts(&vec![PathPart::Prefix]));
}

#[test]
fn content_type_reads_the_file_name_of_a_path() {
    assert_eq!(content_type("dist/jquery.min.JS"), "text/javascript");
    assert_eq!(content_type("/srv/site/css/app.Css"), "text/css");
    assert_eq!(content_type("a/b.png/"), "image/png");
    assert_eq!(content_type("a/page.html/."), "text/html");
    assert_eq!(content_type("a/.."), "application/octet-stream");
    assert_eq!(content_type("/"), "application/octet-stream");
    assert_eq!(content_type("site.d/readme"), "application/octet-stream");
}

#[test]
fn interior_current_dir_pieces_are_accepted() {
    assert_eq!(relative_request_path("/a/./b.css"), Some("a/./b.css".to_string()));
    assert_eq!(relative_request_path("/./x"), None);
    assert_eq!(relative_request_path("/%2E"), None);
}

#[test]
fn confine_to_root_compares_whole_components() {
    assert_eq!(
        confine_to_root("/srv/site", "/srv/site/a.html".to_string()),
        Some("/srv/site/a.html".to_string())
    );
    assert_eq!(
        confine_to_root("/srv/site", "/srv/site".to_string()),
        Some("/srv/site".to_string())
    );
    assert_eq!(confine_to_root("/srv/site", "/srv/site2/a.html".to_string()), None);
    assert_eq!(confine_to_root("/srv/site", "/etc/passwd".to_string()), None);
    assert_eq!(
        confine_to_root("/srv/site/", "/srv//site/./a".to_string()),
        Some("/srv//site/./a".to_string())
    );
}
