//! Serving file pages: content types, percent-decoding of request paths, and
//! turning a request path into a relative path that cannot leave the page's
//! directory.

use vstd::prelude::*;
use vstd::string::{StrSliceExecFns, StringExecFns};
use vstd::utf8::*;

use crate::paths::{
    all_normal, component_kinds, components, final_name, has_clear_extension, has_parent_segment,
    is_file_name_result, is_last_dot, is_plainly_relative, is_portable_path, name_extension, name_has_extension, only_normal_parts, path_file_name, path_parts, starts_with_slash,
};
use crate::text::{
    ascii_lower, ascii_lowercase, chars_of, lower_ascii_char, string_from_utf8_lossy,
    string_option_view, utf8_lossy,
};

verus! {

// ---------------------------------------------------------------------------
// Content types
// ---------------------------------------------------------------------------

/// The content type for a lower-case extension.
pub open spec fn mime_for_lower_extension(e: Seq<char>) -> Seq<char> {
    if e == "html"@ || e == "htm"@ {
        "text/html"@
    } else if e == "css"@ {
        "text/css"@
    } else if e == "js"@ || e == "mjs"@ {
        "text/javascript"@
    } else if e == "json"@ {
        "application/json"@
    } else if e == "svg"@ {
        "image/svg+xml"@
    } else if e == "png"@ {
        "image/png"@
    } else if e == "jpg"@ || e == "jpeg"@ {
        "image/jpeg"@
    } else if e == "gif"@ {
        "image/gif"@
    } else if e == "webp"@ {
        "image/webp"@
    } else if e == "ico"@ {
        "image/x-icon"@
    } else if e == "woff2"@ {
        "font/woff2"@
    } else if e == "woff"@ {
        "font/woff"@
    } else if e == "ttf"@ {
        "font/ttf"@
    } else if e == "wasm"@ {
        "application/wasm"@
    } else if e == "txt"@ {
        "text/plain"@
    } else {
        "application/octet-stream"@
    }
}

/// The lower-cased extension of a file name, if it has one.
pub open spec fn lower_extension_of(name: Option<Seq<char>>) -> Option<Seq<char>> {
    match name {
        Some(n) => match name_extension(n) {
            Some(e) => Some(ascii_lowercase(e)),
            None => None,
        },
        None => None,
    }
}

/// The content type for a file name (or for no name at all): looked up by
/// the extension, compared without regard to ASCII case.
pub open spec fn mime_for_file_name(name: Option<Seq<char>>) -> Seq<char> {
    match lower_extension_of(name) {
        Some(e) => mime_for_lower_extension(e),
        None => "application/octet-stream"@,
    }
}

/// The content type depends on nothing but the lower-cased extension: not on
/// the stem, the directories or the case of the letters.
pub proof fn lemma_content_type_by_lower_extension(a: Option<Seq<char>>, b: Option<Seq<char>>)
    requires
        lower_extension_of(a) == lower_extension_of(b),
    ensures
        mime_for_file_name(a) == mime_for_file_name(b),
{
}

/// Lower-casing keeps `.` where it is and puts no new `.` anywhere.
proof fn lemma_lower_keeps_dots(c: char)
    ensures
        (ascii_lower(c) == '.') == (c == '.'),
        ascii_lower(ascii_lower(c)) == ascii_lower(c),
{
    if 'A' <= c && c <= 'Z' {
        assert((c as u8) as u32 == c as u32);
        assert((((c as u8) + 32) as u8 as char) as u32 == (c as u32) + 32);
    }
}

/// The content type of a file name does not depend on the ASCII case of its
/// letters.
pub proof fn lemma_content_type_ignores_case(n: Seq<char>)
    ensures
        mime_for_file_name(Some(n)) == mime_for_file_name(Some(ascii_lowercase(n))),
{
    let l = ascii_lowercase(n);
    assert forall|j: int| 0 <= j < n.len() implies (l[j] == '.') == (n[j] == '.') by {
        lemma_lower_keeps_dots(n[j]);
    }
    assert forall|k: int| is_last_dot(n, k) <==> is_last_dot(l, k) by {}
    if exists|k: int| is_last_dot(n, k) {
        let k = choose|k: int| is_last_dot(n, k);
        assert(is_last_dot(l, k));
        let k2 = choose|k: int| is_last_dot(l, k);
        assert(k2 == k) by {
            if k2 < k {
                assert(l[k] == '.');
            } else if k2 > k {
                assert(n[k2] != '.');
            }
        }
        if k != 0 {
            let e = n.skip(k + 1);
            assert(l.skip(k + 1) =~= ascii_lowercase(e));
            assert forall|j: int| 0 <= j < e.len() implies ascii_lowercase(ascii_lowercase(e))[j]
                == ascii_lowercase(e)[j] by {
                lemma_lower_keeps_dots(e[j]);
            }
            assert(ascii_lowercase(ascii_lowercase(e)) =~= ascii_lowercase(e));
        }
    } else {
        assert(!exists|k: int| is_last_dot(l, k));
    }
}

/// Whether `v` holds exactly the characters of `w`.
pub fn chars_equal(v: &Vec<char>, w: &str) -> (r: bool)
    ensures
        r == (v@ == w@),
{
    let wc = chars_of(w);
    if v.len() != wc.len() {
        return false;
    }
    let mut i: usize = 0;
    while i < v.len()
        invariant
            i <= v@.len(),
            v@.len() == wc@.len(),
            wc@ == w@,
            forall|j: int| 0 <= j < i ==> v@[j] == wc@[j],
        decreases v@.len() - i,
    {
        if v[i] != wc[i] {
            return false;
        }
        i = i + 1;
    }
    assert(v@ =~= wc@);
    true
}

/// The extension of a file name (see [`name_extension`]), lower-cased.
fn lower_extension(name: &Vec<char>) -> (r: Option<Vec<char>>)
    ensures
        match name_extension(name@) {
            Some(e) => r matches Some(l) && l@ == ascii_lowercase(e),
            None => r is None,
        },
{
    let n = name.len();
    let mut k: usize = n;
    while k > 0 && name[k - 1] != '.'
        invariant
            k <= n,
            n == name@.len(),
            forall|j: int| k <= j < n ==> name@[j] != '.',
        decreases k,
    {
        k = k - 1;
    }
    if k == 0 {
        assert(!exists|d: int| is_last_dot(name@, d));
        return None;
    }
    let dot = k - 1;
    assert(is_last_dot(name@, dot as int));
    assert forall|d: int| is_last_dot(name@, d) implies d == dot by {
        if d < dot {
            assert(name@[dot as int] == '.');
        } else if d > dot {
            assert(name@[d] != '.');
        }
    }
    if dot == 0 {
        return None;
    }
    let ghost ext = name@.skip(k as int);
    let mut lower: Vec<char> = Vec::new();
    let mut i: usize = k;
    while i < n
        invariant
            k <= i <= n,
            n == name@.len(),
            ext == name@.skip(k as int),
            lower@ == ascii_lowercase(ext.take(i - k)),
        decreases n - i,
    {
        let c = name[i];
        lower.push(lower_ascii_char(c));
        i = i + 1;
        assert(ext.take(i - k) =~= ext.take(i - k - 1).push(c));
        assert(lower@ =~= ascii_lowercase(ext.take(i - k)));
    }
    assert(ext.take(n - k) =~= ext);
    Some(lower)
}

/// The content type for a lower-case extension.
fn mime_for_extension(e: &Vec<char>) -> (r: &'static str)
    ensures
        r@ == mime_for_lower_extension(e@),
{
    if chars_equal(e, "html") || chars_equal(e, "htm") {
        "text/html"
    } else if chars_equal(e, "css") {
        "text/css"
    } else if chars_equal(e, "js") || chars_equal(e, "mjs") {
        "text/javascript"
    } else if chars_equal(e, "json") {
        "application/json"
    } else if chars_equal(e, "svg") {
        "image/svg+xml"
    } else if chars_equal(e, "png") {
        "image/png"
    } else if chars_equal(e, "jpg") || chars_equal(e, "jpeg") {
        "image/jpeg"
    } else if chars_equal(e, "gif") {
        "image/gif"
    } else if chars_equal(e, "webp") {
        "image/webp"
    } else if chars_equal(e, "ico") {
        "image/x-icon"
    } else if chars_equal(e, "woff2") {
        "font/woff2"
    } else if chars_equal(e, "woff") {
        "font/woff"
    } else if chars_equal(e, "ttf") {
        "font/ttf"
    } else if chars_equal(e, "wasm") {
        "application/wasm"
    } else if chars_equal(e, "txt") {
        "text/plain"
    } else {
        "application/octet-stream"
    }
}

/// The content type for a file name: a small table by extension, compared
/// without regard to ASCII case; `application/octet-stream` for anything else.
pub fn content_type_for_name(name: Option<String>) -> (r: &'static str)
    ensures
        r@ == mime_for_file_name(string_option_view(name)),
{
    match name {
        Some(n) => {
            let chars = chars_of(n.as_str());
            match lower_extension(&chars) {
                Some(l) => mime_for_extension(&l),
                None => "application/octet-stream",
            }
        },
        None => "application/octet-stream",
    }
}

/// Guess a content type from the extension of a path's file name.
pub fn content_type(path: &str) -> (r: &'static str)
    ensures
        is_portable_path(path@) ==> r@ == mime_for_file_name(final_name(path@)),
        forall|ext: Seq<char>|
            #[trigger] has_clear_extension(path@, ext) ==> r@ == mime_for_lower_extension(
                ascii_lowercase(ext),
            ),
        exists|name: Option<Seq<char>>|
            is_file_name_result(name) && r@ == #[trigger] mime_for_file_name(name),
{
    let name = path_file_name(path);
    let ghost v = string_option_view(name);
    let r = content_type_for_name(name);
    assert(is_file_name_result(v));
    assert(r@ == mime_for_file_name(v));
    assert forall|ext: Seq<char>| #[trigger] has_clear_extension(path@, ext) implies r@
        == mime_for_lower_extension(ascii_lowercase(ext)) by {
        assert(name_has_extension(v, ext));
    }
    r
}

// ---------------------------------------------------------------------------
// Percent-decoding
// ---------------------------------------------------------------------------

/// The value of an ASCII hexadecimal digit (either case), as
/// `char::to_digit(16)` gives it for a byte read as a character.
pub open spec fn hex_value(b: u8) -> Option<u8> {
    if 0x30 <= b && b <= 0x39 {
        Some((b - 0x30) as u8)
    } else if 0x61 <= b && b <= 0x66 {
        Some((b - 0x61 + 10) as u8)
    } else if 0x41 <= b && b <= 0x46 {
        Some((b - 0x41 + 10) as u8)
    } else {
        None
    }
}

/// `s` starts with a well-formed `%XX` escape.
pub open spec fn starts_with_escape(s: Seq<u8>) -> bool {
    &&& s.len() >= 3
    &&& s[0] == 0x25
    &&& hex_value(s[1]) is Some
    &&& hex_value(s[2]) is Some
}

/// The byte a well-formed escape at the front of `s` stands for.
pub open spec fn escaped_byte(s: Seq<u8>) -> u8 {
    (hex_value(s[1])->0 * 16 + hex_value(s[2])->0) as u8
}

/// Percent-decoding of a byte string, left to right: each well-formed `%XX`
/// becomes the byte it names; every other byte, a malformed `%` included, is
/// kept as it is.
pub open spec fn percent_decoded(s: Seq<u8>) -> Seq<u8>
    decreases s.len(),
{
    if s.len() == 0 {
        Seq::empty()
    } else if starts_with_escape(s) {
        seq![escaped_byte(s)] + percent_decoded(s.skip(3))
    } else {
        seq![s[0]] + percent_decoded(s.skip(1))
    }
}

/// The characters `percent_decode` gives for `s`: its UTF-8 bytes,
/// percent-decoded, then read back as UTF-8; where the decoded bytes are not
/// valid UTF-8 they are read the way `String::from_utf8_lossy` reads them.
pub open spec fn percent_decode_view(s: Seq<char>) -> Seq<char> {
    let decoded = percent_decoded(encode_utf8(s));
    if valid_utf8(decoded) {
        decode_utf8(decoded)
    } else {
        utf8_lossy(decoded)
    }
}

/// The value of a hexadecimal digit byte, if it is one.
pub fn hex_digit_value(b: u8) -> (r: Option<u8>)
    ensures
        r == hex_value(b),
{
    if 0x30 <= b && b <= 0x39 {
        Some(b - 0x30)
    } else if 0x61 <= b && b <= 0x66 {
        Some(b - 0x61 + 10)
    } else if 0x41 <= b && b <= 0x46 {
        Some(b - 0x41 + 10)
    } else {
        None
    }
}

/// Bytes with no well-formed escape anywhere decode to themselves: plain
/// names pass through, and malformed escapes are left untouched.
pub proof fn lemma_percent_decoded_without_escapes(b: Seq<u8>)
    requires
        forall|i: int| 0 <= i < b.len() ==> !starts_with_escape(#[trigger] b.skip(i)),
    ensures
        percent_decoded(b) == b,
    decreases b.len(),
{
    if b.len() > 0 {
        assert(b.skip(0) =~= b);
        assert forall|i: int| 0 <= i < b.skip(1).len() implies !starts_with_escape(
            #[trigger] b.skip(1).skip(i),
        ) by {
            assert(b.skip(1).skip(i) =~= b.skip(i + 1));
        }
        lemma_percent_decoded_without_escapes(b.skip(1));
        assert(b =~= seq![b[0]] + b.skip(1));
    }
}

/// A path whose UTF-8 bytes hold no well-formed `%XX` escape decodes to
/// itself.
pub proof fn lemma_percent_decode_without_escapes(s: Seq<char>)
    requires
        forall|i: int|
            0 <= i < encode_utf8(s).len() ==> !starts_with_escape(#[trigger] encode_utf8(s).skip(i)),
    ensures
        percent_decode_view(s) == s,
{
    lemma_percent_decoded_without_escapes(encode_utf8(s));
    encode_utf8_valid_utf8(s);
    encode_utf8_decode_utf8(s);
}

/// Percent-decode a byte string (see [`percent_decoded`]).
pub fn percent_decode_bytes(bytes: &[u8]) -> (out: Vec<u8>)
    ensures
        out@ == percent_decoded(bytes@),
{
    let n = bytes.len();
    let mut out: Vec<u8> = Vec::new();
    let mut i: usize = 0;
    assert(bytes@.skip(0) =~= bytes@);
    assert(out@ + percent_decoded(bytes@) =~= percent_decoded(bytes@));
    while i < n
        invariant
            i <= n,
            n == bytes@.len(),
            out@ + percent_decoded(bytes@.skip(i as int)) == percent_decoded(bytes@),
        decreases n - i,
    {
        let ghost rest = bytes@.skip(i as int);
        if bytes[i] == 0x25 && n - i > 2 {
            let hi = hex_digit_value(bytes[i + 1]);
            let lo = hex_digit_value(bytes[i + 2]);
            if hi.is_some() && lo.is_some() {
                let h = hi.unwrap();
                let l = lo.unwrap();
                assert(starts_with_escape(rest));
                assert(rest.skip(3) =~= bytes@.skip(i + 3));
                out.push(h * 16 + l);
                i = i + 3;
                assert(out@ + percent_decoded(bytes@.skip(i as int)) =~= percent_decoded(bytes@)) by {
                    assert(out@ =~= out@.drop_last() + seq![escaped_byte(rest)]);
                }
                continue;
            }
        }
        assert(!starts_with_escape(rest));
        assert(rest.skip(1) =~= bytes@.skip(i + 1));
        out.push(bytes[i]);
        i = i + 1;
        assert(out@ + percent_decoded(bytes@.skip(i as int)) =~= percent_decoded(bytes@)) by {
            assert(out@ =~= out@.drop_last() + seq![rest[0]]);
        }
    }
    assert(bytes@.skip(n as int) =~= Seq::<u8>::empty());
    assert(out@ + percent_decoded(bytes@.skip(n as int)) =~= out@);
    out
}

/// Percent-decode a path: each well-formed `%XX` becomes the byte it names,
/// malformed escapes are left untouched, and the bytes are read back as UTF-8
/// (invalid sequences become replacement characters).
pub fn percent_decode(s: &str) -> (r: String)
    ensures
        r@ == percent_decode_view(s@),
{
    let bytes = s.as_bytes();
    let decoded = percent_decode_bytes(bytes);
    string_from_utf8_lossy(decoded.as_slice())
}

// ---------------------------------------------------------------------------
// Request paths
// ---------------------------------------------------------------------------

/// `s` with every leading `/` removed.
pub open spec fn strip_leading_slashes(s: Seq<char>) -> Seq<char>
    decreases s.len(),
{
    if s.len() > 0 && s[0] == '/' {
        strip_leading_slashes(s.skip(1))
    } else {
        s
    }
}

/// The relative path a request path names: leading `/` removed,
/// percent-decoded, and `index.html` when nothing is left.
pub open spec fn request_relative_path(req: Seq<char>) -> Seq<char> {
    let decoded = percent_decode_view(strip_leading_slashes(req));
    if decoded.len() == 0 {
        "index.html"@
    } else {
        decoded
    }
}

/// The number of leading `/` characters.
proof fn lemma_strip_leading_slashes(s: Seq<char>, k: int)
    requires
        0 <= k <= s.len(),
        forall|j: int| 0 <= j < k ==> s[j] == '/',
        k == s.len() || s[k] != '/',
    ensures
        strip_leading_slashes(s) == s.skip(k),
    decreases k,
{
    if k == 0 {
        assert(s.skip(0) =~= s);
    } else {
        lemma_strip_leading_slashes(s.skip(1), k - 1);
        assert(s.skip(1).skip(k - 1) =~= s.skip(k));
    }
}

/// Turn a request path (e.g. `/sub/app.css`) into a path relative to the
/// page's directory, refusing anything that could climb out of it or
/// re-anchor it: the result, when there is one, is the decoded request path,
/// does not begin with `/` and has no `..` piece. A portable relative path is
/// accepted exactly when all its components are normal ones.
pub fn relative_request_path(req_path: &str) -> (r: Option<String>)
    ensures
        r matches Some(p) ==> p@ == request_relative_path(req_path@),
        r matches Some(p) ==> !starts_with_slash(p@) && !has_parent_segment(p@),
        is_portable_path(request_relative_path(req_path@)) ==> (r is Some <==> all_normal(
            component_kinds(request_relative_path(req_path@)),
        )),
        is_plainly_relative(request_relative_path(req_path@)) ==> r is Some,
{
    let chars = chars_of(req_path);
    let n = chars.len();
    let mut k: usize = 0;
    while k < n && chars[k] == '/'
        invariant
            k <= n,
            n == chars@.len(),
            chars@ == req_path@,
            forall|j: int| 0 <= j < k ==> chars@[j] == '/',
        decreases n - k,
    {
        k = k + 1;
    }
    proof {
        lemma_strip_leading_slashes(req_path@, k as int);
    }
    let trimmed = req_path.substring_char(k, n);
    let decoded = percent_decode(trimmed);
    let rel = if decoded.as_str().is_empty() {
        String::from_str("index.html")
    } else {
        decoded
    };
    assert(rel@ == request_relative_path(req_path@));
    let parts = path_parts(rel.as_str());
    if only_normal_parts(&parts) {
        Some(rel)
    } else {
        None
    }
}

} // verus!
