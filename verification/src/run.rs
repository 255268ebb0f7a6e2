//! What the event loop decides, and the URL a file page is loaded from.
//!
//! The loop itself (window, webview, timer) runs outside this library: it
//! hands each event to [`on_event`] and performs the step it gets back.

pub mod exit;

use vstd::prelude::*;
use vstd::string::StringExecFns;
use vstd::utf8::*;

use crate::bridge::{
    lemma_reject_message_round_trip, lemma_resolve_message_round_trip, message_event,
    reject_message, resolve_message, AppEvent, EventView,
};
use crate::assets::{
    escaped_byte, hex_value, percent_decode_view, percent_decoded, request_relative_path,
    starts_with_escape, strip_leading_slashes,
};
use crate::paths::{
    all_normal, component_kinds, is_plain_file_name, is_portable_path,
    lemma_plain_file_name_components, starts_with_slash,
};
use crate::cli::{Cli, VERSION};
use crate::input::{InputError, InputErrorView};
use crate::text::{all_ascii, ascii_chars, lemma_ascii_bytes_decode, string_from_utf8_lossy};

verus! {

// ---------------------------------------------------------------------------
// Page URLs
// ---------------------------------------------------------------------------

/// The custom scheme file pages are served under.
pub const FILE_SCHEME: &'static str = "wv";

/// Bytes that stand for themselves in a path segment.
pub open spec fn is_unreserved(b: u8) -> bool {
    ||| (0x41 <= b && b <= 0x5a)
    ||| (0x61 <= b && b <= 0x7a)
    ||| (0x30 <= b && b <= 0x39)
    ||| b == 0x2d
    ||| b == 0x5f
    ||| b == 0x2e
    ||| b == 0x7e
}

/// The upper-case hexadecimal digit for a value below 16.
pub open spec fn hex_upper_digit(v: u8) -> u8 {
    if v < 10 {
        (0x30 + v) as u8
    } else {
        (0x41 + v - 10) as u8
    }
}

/// One byte of a segment, encoded: itself when unreserved, else `%XX` in
/// upper-case hexadecimal.
pub open spec fn encode_byte(b: u8) -> Seq<u8> {
    if is_unreserved(b) {
        seq![b]
    } else {
        seq![0x25u8, hex_upper_digit(b / 16), hex_upper_digit(b % 16)]
    }
}

/// Percent-encoding of a byte string, byte by byte.
pub open spec fn percent_encoded(s: Seq<u8>) -> Seq<u8>
    decreases s.len(),
{
    if s.len() == 0 {
        Seq::empty()
    } else {
        encode_byte(s[0]) + percent_encoded(s.skip(1))
    }
}

/// The characters `url_encode` gives for a segment: its UTF-8 bytes,
/// percent-encoded, read as ASCII.
pub open spec fn url_encode_view(segment: Seq<char>) -> Seq<char> {
    ascii_chars(percent_encoded(encode_utf8(segment)))
}

/// An encoded segment is ASCII.
pub proof fn lemma_percent_encoded_ascii(s: Seq<u8>)
    ensures
        all_ascii(percent_encoded(s)),
    decreases s.len(),
{
    if s.len() > 0 {
        lemma_percent_encoded_ascii(s.skip(1));
        let e = encode_byte(s[0]);
        assert(all_ascii(e));
        assert forall|i: int| 0 <= i < percent_encoded(s).len() implies percent_encoded(s)[i]
            < 128 by {
            if i < e.len() {
                assert(percent_encoded(s)[i] == e[i]);
            } else {
                assert(percent_encoded(s)[i] == percent_encoded(s.skip(1))[i - e.len()]);
            }
        }
    }
}

/// The upper-case hexadecimal digit for a value below 16.
fn hex_upper(v: u8) -> (r: u8)
    requires
        v < 16,
    ensures
        r == hex_upper_digit(v),
{
    if v < 10 {
        0x30 + v
    } else {
        0x41 + v - 10
    }
}

/// Percent-encode the bytes of a single path segment that would otherwise
/// break a URL: ASCII letters, digits and `-_.~` stand for themselves, every
/// other byte becomes `%XX` in upper-case hexadecimal.
pub fn url_encode(segment: &str) -> (r: String)
    ensures
        r@ == url_encode_view(segment@),
{
    let bytes = segment.as_bytes();
    let n = bytes.len();
    let mut out: Vec<u8> = Vec::new();
    let mut i: usize = 0;
    assert(bytes@.skip(0) =~= bytes@);
    assert(out@ + percent_encoded(bytes@) =~= percent_encoded(bytes@));
    while i < n
        invariant
            i <= n,
            n == bytes@.len(),
            out@ + percent_encoded(bytes@.skip(i as int)) == percent_encoded(bytes@),
        decreases n - i,
    {
        let b = bytes[i];
        let ghost rest = bytes@.skip(i as int);
        let ghost before = out@;
        assert(rest.skip(1) =~= bytes@.skip(i + 1));
        if (0x41 <= b && b <= 0x5a) || (0x61 <= b && b <= 0x7a) || (0x30 <= b && b <= 0x39) || b
            == 0x2d || b == 0x5f || b == 0x2e || b == 0x7e {
            out.push(b);
        } else {
            out.push(0x25);
            out.push(hex_upper(b / 16));
            out.push(hex_upper(b % 16));
        }
        assert(out@ =~= before + encode_byte(b));
        i = i + 1;
        assert(out@ + percent_encoded(bytes@.skip(i as int)) =~= percent_encoded(bytes@));
    }
    assert(bytes@.skip(n as int) =~= Seq::<u8>::empty());
    assert(out@ =~= percent_encoded(bytes@));
    proof {
        lemma_percent_encoded_ascii(bytes@);
        lemma_ascii_bytes_decode(out@);
    }
    string_from_utf8_lossy(out.as_slice())
}

/// The URL a file page is loaded from.
pub open spec fn page_url_view(file_name: Option<Seq<char>>) -> Seq<char> {
    let name = match file_name {
        Some(n) => n,
        None => "index.html"@,
    };
    "wv://localhost/"@ + url_encode_view(name)
}

/// The URL a file page is loaded from: the page's file name (or
/// `index.html` when it has none), encoded, under the custom scheme.
pub fn page_url(file_name: Option<&str>) -> (r: String)
    ensures
        r@ == page_url_view(
            match file_name {
                Some(n) => Some(n@),
                None => None,
            },
        ),
{
    let encoded = match file_name {
        Some(n) => url_encode(n),
        None => url_encode("index.html"),
    };
    let mut url = String::from_str("wv://localhost/");
    url.append(encoded.as_str());
    url
}

/// The User-Agent the webview identifies itself with: `webview-cli/` and the
/// version.
pub open spec fn user_agent_view(version: Seq<char>) -> Seq<char> {
    "webview-cli/"@ + version
}

/// The User-Agent for this build, so a server can tell the page runs here.
pub fn user_agent() -> (r: String)
    ensures
        r@ == user_agent_view(VERSION@),
{
    let mut agent = String::from_str("webview-cli/");
    agent.append(VERSION);
    agent
}

// ---------------------------------------------------------------------------
// The event loop's decisions
// ---------------------------------------------------------------------------

/// What the event loop hands over.
#[derive(Debug, Clone, PartialEq, Eq)]
pub enum LoopEvent {
    /// An event from the page or the timer.
    App(AppEvent),
    /// The user asked to close the window.
    CloseRequested,
    /// Anything else the windowing system reports.
    Other,
}

/// What the event loop does next.
#[derive(Debug, Clone, PartialEq, Eq)]
pub enum Step {
    /// Keep waiting.
    Wait,
    /// Print `stdout` (to standard output) and `stderr` (to standard error),
    /// each on a line of its own where present, then exit with `code`.
    Exit { code: i32, stdout: Option<String>, stderr: Option<String> },
}

/// The mathematical value of a [`LoopEvent`].
pub enum LoopEventView {
    App(EventView),
    CloseRequested,
    Other,
}

/// The mathematical value of a [`Step`].
pub enum StepView {
    Wait,
    Exit { code: i32, stdout: Option<Seq<char>>, stderr: Option<Seq<char>> },
}

impl View for LoopEvent {
    type V = LoopEventView;

    open spec fn view(&self) -> LoopEventView {
        match self {
            LoopEvent::App(e) => LoopEventView::App(e@),
            LoopEvent::CloseRequested => LoopEventView::CloseRequested,
            LoopEvent::Other => LoopEventView::Other,
        }
    }
}

impl View for Step {
    type V = StepView;

    open spec fn view(&self) -> StepView {
        match self {
            Step::Wait => StepView::Wait,
            Step::Exit { code, stdout, stderr } => StepView::Exit {
                code: *code,
                stdout: match stdout {
                    Some(s) => Some(s@),
                    None => None,
                },
                stderr: match stderr {
                    Some(s) => Some(s@),
                    None => None,
                },
            },
        }
    }
}

/// The exit-code table: a resolve prints its payload verbatim on stdout and
/// exits 0; a reject prints its payload on stderr and exits 1; closing the
/// window exits 2; the timeout exits 3; every other event keeps the loop
/// waiting.
pub open spec fn event_step(e: LoopEventView) -> StepView {
    match e {
        LoopEventView::App(EventView::Resolve(v)) => StepView::Exit {
            code: exit::RESOLVE,
            stdout: Some(v),
            stderr: None,
        },
        LoopEventView::App(EventView::Reject(m)) => StepView::Exit {
            code: exit::REJECT,
            stdout: None,
            stderr: Some(m),
        },
        LoopEventView::App(EventView::Timeout) => StepView::Exit {
            code: exit::TIMEOUT,
            stdout: None,
            stderr: None,
        },
        LoopEventView::CloseRequested => StepView::Exit {
            code: exit::CLOSED,
            stdout: None,
            stderr: None,
        },
        LoopEventView::Other => StepView::Wait,
    }
}

/// Decide what the event loop does with one event. The first event that
/// settles the run ends it.
pub fn on_event(event: LoopEvent) -> (s: Step)
    ensures
        s@ == event_step(event@),
{
    match event {
        LoopEvent::App(AppEvent::Resolve(v)) => Step::Exit {
            code: exit::RESOLVE,
            stdout: Some(v),
            stderr: None,
        },
        LoopEvent::App(AppEvent::Reject(m)) => Step::Exit {
            code: exit::REJECT,
            stdout: None,
            stderr: Some(m),
        },
        LoopEvent::App(AppEvent::Timeout) => Step::Exit {
            code: exit::TIMEOUT,
            stdout: None,
            stderr: None,
        },
        LoopEvent::CloseRequested => Step::Exit { code: exit::CLOSED, stdout: None, stderr: None },
        LoopEvent::Other => Step::Wait,
    }
}

/// Every event from the page or the timer settles the run: none of them
/// leaves the loop waiting.
pub proof fn lemma_page_events_end_the_run(e: EventView)
    ensures
        event_step(LoopEventView::App(e)) is Exit,
{
}

/// The timer the run arms: `Some(ms)` sends the timeout event after `ms`
/// milliseconds; `None` arms no timer, and then no timeout event ever
/// reaches the loop.
pub fn timer_to_arm(cli: &Cli) -> (r: Option<u64>)
    ensures
        r == cli.timeout_ms,
{
    cli.timeout_ms
}

/// What reaches the run, in the order it arrives: a message the page posted
/// (before parsing), the timer's timeout, a request to close the window, or
/// anything else the windowing system reports.
pub enum IncomingView {
    Message(Seq<char>),
    Timeout,
    CloseRequested,
    Other,
}

/// What one arrival makes the run do: a message goes through
/// [`message_event`] and, when it is no event, is ignored.
pub open spec fn incoming_step(e: IncomingView) -> StepView {
    match e {
        IncomingView::Message(body) => match message_event(body) {
            Some(ev) => event_step(LoopEventView::App(ev)),
            None => StepView::Wait,
        },
        IncomingView::Timeout => event_step(LoopEventView::App(EventView::Timeout)),
        IncomingView::CloseRequested => event_step(LoopEventView::CloseRequested),
        IncomingView::Other => event_step(LoopEventView::Other),
    }
}

/// How a run over a sequence of arrivals ends: with the step of the first
/// arrival that settles it, or not at all while none does. Nothing after
/// that arrival is handled.
pub open spec fn run_outcome(events: Seq<IncomingView>) -> Option<StepView>
    decreases events.len(),
{
    if events.len() == 0 {
        None
    } else if incoming_step(events[0]) is Exit {
        Some(incoming_step(events[0]))
    } else {
        run_outcome(events.skip(1))
    }
}

/// The first settling arrival wins: whatever comes after it, and whatever
/// unsettling arrivals (ignored messages, other window events) come before
/// it, the run ends with its step alone.
pub proof fn lemma_first_settling_event_wins(
    before: Seq<IncomingView>,
    first: IncomingView,
    after: Seq<IncomingView>,
)
    requires
        forall|i: int| 0 <= i < before.len() ==> incoming_step(#[trigger] before[i]) is Wait,
        incoming_step(first) is Exit,
    ensures
        run_outcome(before + seq![first] + after) == Some(incoming_step(first)),
    decreases before.len(),
{
    let events = before + seq![first] + after;
    if before.len() == 0 {
        assert(events[0] == first);
    } else {
        assert(events[0] == before[0]);
        assert(events.skip(1) =~= before.skip(1) + seq![first] + after);
        assert forall|i: int| 0 <= i < before.skip(1).len() implies incoming_step(
            #[trigger] before.skip(1)[i],
        ) is Wait by {
            assert(before.skip(1)[i] == before[i + 1]);
        }
        lemma_first_settling_event_wins(before.skip(1), first, after);
    }
}

/// A message that is no `ok:` / `err:` message has no effect on the run.
pub proof fn lemma_ignored_message_has_no_effect(body: Seq<char>, rest: Seq<IncomingView>)
    requires
        message_event(body) is None,
    ensures
        run_outcome(seq![IncomingView::Message(body)] + rest) == run_outcome(rest),
{
    let events = seq![IncomingView::Message(body)] + rest;
    assert(events.skip(1) =~= rest);
}

/// Without a timeout arrival (no timer armed) a run never ends with the
/// timeout code.
pub proof fn lemma_no_timeout_exit_without_timer(events: Seq<IncomingView>)
    requires
        forall|i: int| 0 <= i < events.len() ==> !(#[trigger] events[i] is Timeout),
    ensures
        run_outcome(events) matches Some(StepView::Exit { code, .. }) ==> code != exit::TIMEOUT,
    decreases events.len(),
{
    if events.len() > 0 {
        assert(!(events[0] is Timeout));
        if !(incoming_step(events[0]) is Exit) {
            assert forall|i: int| 0 <= i < events.skip(1).len() implies !(
            #[trigger] events.skip(1)[i] is Timeout) by {
                assert(events.skip(1)[i] == events[i + 1]);
            }
            lemma_no_timeout_exit_without_timer(events.skip(1));
        }
    }
}

/// The usage message when there is nothing to render.
pub open spec fn no_input_message() -> Seq<char> {
    "webview: no HTML to render. Pass a file path or http(s) URL, or pipe HTML on stdin.\nTry 'webview --help' for usage."@
}

/// The message when reading stdin failed.
pub open spec fn stdin_read_message(reason: Seq<char>) -> Seq<char> {
    "webview: failed to read stdin: "@ + reason
}

/// What happens when no input could be resolved: a message on stderr and the
/// usage exit code.
pub open spec fn input_error_step(e: InputErrorView) -> StepView {
    StepView::Exit {
        code: exit::USAGE,
        stdout: None,
        stderr: Some(
            match e {
                InputErrorView::NoInput => no_input_message(),
                InputErrorView::StdinRead(reason) => stdin_read_message(reason),
            },
        ),
    }
}

/// Decide what to do when no input could be resolved.
pub fn on_input_error(err: InputError) -> (s: Step)
    ensures
        s@ == input_error_step(err@),
{
    let message = match err {
        InputError::NoInput => String::from_str(
            "webview: no HTML to render. Pass a file path or http(s) URL, or pipe HTML on stdin.\nTry 'webview --help' for usage.",
        ),
        InputError::StdinRead(reason) => {
            let mut m = String::from_str("webview: failed to read stdin: ");
            m.append(reason.as_str());
            m
        },
    };
    Step::Exit { code: exit::USAGE, stdout: None, stderr: Some(message) }
}

/// Whatever the page passes to `resolve`, the run prints exactly that payload
/// on stdout and exits 0.
pub proof fn lemma_resolve_prints_payload_verbatim(payload: Seq<char>)
    ensures
        message_event(resolve_message(payload)) == Some(EventView::Resolve(payload)),
        event_step(LoopEventView::App(EventView::Resolve(payload))) == (StepView::Exit {
            code: exit::RESOLVE,
            stdout: Some(payload),
            stderr: None,
        }),
{
    lemma_resolve_message_round_trip(payload);
}

/// Whatever the page passes to `reject`, the run prints exactly that payload
/// on stderr, nothing on stdout, and exits 1.
pub proof fn lemma_reject_prints_payload_verbatim(payload: Seq<char>)
    ensures
        message_event(reject_message(payload)) == Some(EventView::Reject(payload)),
        event_step(LoopEventView::App(EventView::Reject(payload))) == (StepView::Exit {
            code: exit::REJECT,
            stdout: None,
            stderr: Some(payload),
        }),
{
    lemma_reject_message_round_trip(payload);
}

// ---------------------------------------------------------------------------
// Encoding and decoding undo each other
// ---------------------------------------------------------------------------

/// Decoding reads back the value a hexadecimal digit was written for.
proof fn lemma_hex_digit_round_trip(v: u8)
    requires
        v < 16,
    ensures
        hex_value(hex_upper_digit(v)) == Some(v),
{
}

/// Percent-decoding undoes percent-encoding, for every byte string.
pub proof fn lemma_percent_decoded_encoded(b: Seq<u8>)
    ensures
        percent_decoded(percent_encoded(b)) == b,
    decreases b.len(),
{
    if b.len() == 0 {
        assert(percent_encoded(b) =~= Seq::<u8>::empty());
    } else {
        let b0 = b[0];
        let tail = percent_encoded(b.skip(1));
        let e = percent_encoded(b);
        lemma_percent_decoded_encoded(b.skip(1));
        assert(e == encode_byte(b0) + tail);
        if is_unreserved(b0) {
            assert(e[0] == b0);
            assert(!starts_with_escape(e));
            assert(e.skip(1) =~= tail);
        } else {
            lemma_hex_digit_round_trip(b0 / 16);
            lemma_hex_digit_round_trip(b0 % 16);
            assert(starts_with_escape(e));
            assert(escaped_byte(e) == b0);
            assert(e.skip(3) =~= tail);
        }
        assert(b =~= seq![b0] + b.skip(1));
    }
}

/// ASCII bytes read as characters encode back to the same bytes.
proof fn lemma_ascii_chars_encode(e: Seq<u8>)
    requires
        all_ascii(e),
    ensures
        encode_utf8(ascii_chars(e)) == e,
{
    lemma_ascii_bytes_decode(e);
    decode_utf8_encode_utf8(e);
}

/// Decoding a URL-encoded segment gives the segment back, for every string.
pub proof fn lemma_url_encode_round_trip(s: Seq<char>)
    ensures
        percent_decode_view(url_encode_view(s)) == s,
{
    let e = percent_encoded(encode_utf8(s));
    lemma_percent_encoded_ascii(encode_utf8(s));
    lemma_ascii_chars_encode(e);
    lemma_percent_decoded_encoded(encode_utf8(s));
    encode_utf8_valid_utf8(s);
    encode_utf8_decode_utf8(s);
}

/// A URL-encoded segment never begins with `/`.
proof fn lemma_url_encoded_no_leading_slash(s: Seq<char>)
    ensures
        !starts_with_slash(url_encode_view(s)),
{
    let b = encode_utf8(s);
    if b.len() > 0 {
        let e = percent_encoded(b);
        assert(e[0] == encode_byte(b[0])[0]);
        assert(e[0] != 0x2f);
        assert(url_encode_view(s)[0] == e[0] as char);
    }
}

/// A file page's request path leads back to its own file name: the request
/// for `/` followed by the encoded name names that file (and `index.html`
/// when the name is empty).
pub proof fn lemma_page_request_round_trip(name: Seq<char>)
    ensures
        request_relative_path(seq!['/'] + url_encode_view(name)) == (if name.len() == 0 {
            "index.html"@
        } else {
            name
        }),
{
    let u = url_encode_view(name);
    let req = seq!['/'] + u;
    assert(req.skip(1) =~= u);
    lemma_url_encoded_no_leading_slash(name);
    assert(strip_leading_slashes(req) == strip_leading_slashes(u));
    assert(strip_leading_slashes(u) == u);
    lemma_url_encode_round_trip(name);
}

/// A file page whose name is a bare file name is served: the request for its
/// page URL names exactly that file, a portable path whose only component is
/// a normal one, which [`crate::assets::relative_request_path`] accepts.
pub proof fn lemma_page_file_request_is_accepted(name: Seq<char>)
    requires
        is_plain_file_name(name),
    ensures
        request_relative_path(seq!['/'] + url_encode_view(name)) == name,
        is_portable_path(name),
        all_normal(component_kinds(name)),
{
    lemma_page_request_round_trip(name);
    lemma_plain_file_name_components(name);
}

} // verus!
