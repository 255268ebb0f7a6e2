//! Input resolution: where does the page come from?
//!
//! Precedence:
//!   1. stdin is not a terminal and holds more than whitespace -> inline HTML.
//!   2. a positional argument was given -> an `http(s)` URL, or else a file.
//!   3. neither -> usage error.

use vstd::prelude::*;
use vstd::string::to_string_from_display_ensures;

use crate::text::{
    ascii_lower, chars_of, is_white_space, is_white_space_char, lower_ascii_char,
    string_option_view,
};

verus! {

#[verifier::external_type_specification]
#[verifier::external_body]
pub struct ExIoError(std::io::Error);

/// What the webview should load.
#[derive(Debug, Clone, PartialEq, Eq)]
pub enum Load {
    /// Inline HTML.
    Html(String),
    /// A remote page, by its `http://` or `https://` URL.
    Url(String),
    /// A file on disk, by its path.
    File(String),
}

/// Why no input could be resolved.
#[derive(Debug, Clone, PartialEq, Eq)]
pub enum InputError {
    /// No HTML piped on stdin and no path argument given.
    NoInput,
    /// stdin was piped but reading it failed; the message says why.
    StdinRead(String),
}

/// The mathematical value of a [`Load`].
pub enum LoadView {
    Html(Seq<char>),
    Url(Seq<char>),
    File(Seq<char>),
}

/// The mathematical value of an [`InputError`].
pub enum InputErrorView {
    NoInput,
    StdinRead(Seq<char>),
}

impl View for Load {
    type V = LoadView;

    open spec fn view(&self) -> LoadView {
        match self {
            Load::Html(h) => LoadView::Html(h@),
            Load::Url(u) => LoadView::Url(u@),
            Load::File(p) => LoadView::File(p@),
        }
    }
}

impl View for InputError {
    type V = InputErrorView;

    open spec fn view(&self) -> InputErrorView {
        match self {
            InputError::NoInput => InputErrorView::NoInput,
            InputError::StdinRead(m) => InputErrorView::StdinRead(m@),
        }
    }
}

/// The view of a resolution result.
pub open spec fn input_result_view(r: Result<Load, InputError>) -> Result<LoadView, InputErrorView> {
    match r {
        Ok(l) => Ok(l@),
        Err(e) => Err(e@),
    }
}

/// Every character is white space: such input does not count as a page.
pub open spec fn is_blank(s: Seq<char>) -> bool {
    forall|i: int| 0 <= i < s.len() ==> is_white_space(s[i])
}

/// `s` begins with `prefix` when ASCII letters are compared without regard to
/// case (`prefix` is lower case).
pub open spec fn starts_with_ignoring_case(s: Seq<char>, prefix: Seq<char>) -> bool {
    &&& s.len() >= prefix.len()
    &&& forall|i: int| 0 <= i < prefix.len() ==> ascii_lower(s[i]) == prefix[i]
}

/// `s` is an `http://` or `https://` URL, the scheme in any case.
pub open spec fn is_web_url(s: Seq<char>) -> bool {
    starts_with_ignoring_case(s, "http://"@) || starts_with_ignoring_case(s, "https://"@)
}

/// What a positional argument names: a URL when it has a web scheme,
/// otherwise a file.
pub open spec fn argument_load(arg: Seq<char>) -> LoadView {
    if is_web_url(arg) {
        LoadView::Url(arg)
    } else {
        LoadView::File(arg)
    }
}

/// The resolution, given what was piped on stdin (if stdin was piped and read)
/// and the positional argument: non-blank piped text wins, then the argument,
/// else there is nothing to render.
pub open spec fn load_for(piped: Option<Seq<char>>, arg: Option<Seq<char>>) -> Result<
    LoadView,
    InputErrorView,
> {
    if piped matches Some(h) && !is_blank(h) {
        Ok(LoadView::Html(piped->0))
    } else {
        match arg {
            Some(a) => Ok(argument_load(a)),
            None => Err(InputErrorView::NoInput),
        }
    }
}

/// Piped text with any character that is not white space, anywhere in it,
/// is the page, whatever the argument; piped text made of white space only
/// counts as nothing piped at all.
pub proof fn lemma_piped_text_decides(h: Seq<char>, arg: Option<Seq<char>>)
    ensures
        (exists|i: int| 0 <= i < h.len() && !is_white_space(#[trigger] h[i])) ==> load_for(
            Some(h),
            arg,
        ) == Ok::<LoadView, InputErrorView>(LoadView::Html(h)),
        (forall|i: int| 0 <= i < h.len() ==> is_white_space(#[trigger] h[i])) ==> load_for(
            Some(h),
            arg,
        ) == load_for(None, arg),
{
}

/// Whether `s` holds white space only.
pub fn is_blank_text(s: &str) -> (r: bool)
    ensures
        r == is_blank(s@),
{
    let chars = chars_of(s);
    let mut i: usize = 0;
    while i < chars.len()
        invariant
            i <= chars@.len(),
            chars@ == s@,
            forall|j: int| 0 <= j < i ==> is_white_space(s@[j]),
        decreases chars@.len() - i,
    {
        if !is_white_space_char(chars[i]) {
            return false;
        }
        i = i + 1;
    }
    true
}

/// Whether `s` begins with the lower-case `prefix`, ASCII case ignored.
fn starts_with_lower(s: &Vec<char>, prefix: &str) -> (r: bool)
    ensures
        r == starts_with_ignoring_case(s@, prefix@),
{
    let p = chars_of(prefix);
    if s.len() < p.len() {
        return false;
    }
    let mut i: usize = 0;
    while i < p.len()
        invariant
            i <= p@.len() <= s@.len(),
            p@ == prefix@,
            forall|j: int| 0 <= j < i ==> ascii_lower(s@[j]) == p@[j],
        decreases p@.len() - i,
    {
        if lower_ascii_char(s[i]) != p[i] {
            return false;
        }
        i = i + 1;
    }
    true
}

/// Whether an argument is an `http://` or `https://` URL (scheme in any case).
pub fn is_web_url_text(arg: &str) -> (r: bool)
    ensures
        r == is_web_url(arg@),
{
    let chars = chars_of(arg);
    starts_with_lower(&chars, "http://") || starts_with_lower(&chars, "https://")
}

/// Decide what to load from what was piped on stdin (`Some` when stdin was
/// piped and read) and the positional argument.
pub fn choose_load(piped: Option<String>, path: Option<String>) -> (r: Result<Load, InputError>)
    ensures
        input_result_view(r) == load_for(string_option_view(piped), string_option_view(path)),
{
    if let Some(html) = piped {
        if !is_blank_text(html.as_str()) {
            return Ok(Load::Html(html));
        }
    }
    match path {
        Some(p) => {
            if is_web_url_text(p.as_str()) {
                Ok(Load::Url(p))
            } else {
                Ok(Load::File(p))
            }
        },
        None => Err(InputError::NoInput),
    }
}

/// `r` is what [`resolve`] answers when reading stdin gave `out`: the text
/// decides as piped input does, and a failed read is a `StdinRead` error
/// carrying the read error's `to_string()` text.
pub open spec fn read_outcome_matches(
    out: Result<String, std::io::Error>,
    path: Option<Seq<char>>,
    r: Result<Load, InputError>,
) -> bool {
    match out {
        Ok(h) => input_result_view(r) == load_for(Some(h@), path),
        Err(e) => r matches Err(InputError::StdinRead(m)) && to_string_from_display_ensures::<
            std::io::Error,
        >(&e, m),
    }
}

/// Resolve the input from whether stdin is a terminal and an optional path.
///
/// `stdin_is_tty` is passed in, and `read_stdin` defers the actual read: stdin
/// is read (once) only when it is not a terminal. A failed read is surfaced as
/// [`InputError::StdinRead`]; blank piped input falls through to the path.
pub fn resolve<F>(stdin_is_tty: bool, path: Option<String>, read_stdin: F) -> (r: Result<
    Load,
    InputError,
>) where F: FnOnce() -> Result<String, std::io::Error>
    requires
        !stdin_is_tty ==> read_stdin.requires(()),
    ensures
        stdin_is_tty ==> input_result_view(r) == load_for(None, string_option_view(path)),
        !stdin_is_tty ==> exists|out: Result<String, std::io::Error>|
            #[trigger] read_stdin.ensures((), out) && read_outcome_matches(
                out,
                string_option_view(path),
                r,
            ),
{
    if !stdin_is_tty {
        let out = read_stdin();
        match out {
            Ok(html) => {
                let r = choose_load(Some(html), path);
                assert(read_outcome_matches(Ok(html), string_option_view(path), r));
                return r;
            },
            Err(e) => {
                let r = Err(InputError::StdinRead(e.to_string()));
                return r;
            },
        }
    }
    choose_load(None, path)
}

} // verus!
