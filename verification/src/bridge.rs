//! The result bridge: the page posts one tagged string, `ok:<payload>` or
//! `err:<payload>`, and the tag is split off the front. The payload is passed
//! on verbatim and never parsed.

use vstd::prelude::*;
use vstd::string::{StrSliceExecFns, StringExecFns};

use crate::cli::VERSION;
use crate::text::chars_of;

verus! {

/// What the event loop reacts to. `Resolve`/`Reject` carry the page's payload
/// verbatim; `Timeout` carries nothing.
#[derive(Debug, Clone, PartialEq, Eq)]
pub enum AppEvent {
    Resolve(String),
    Reject(String),
    Timeout,
}

/// The mathematical value of an [`AppEvent`]: the payload as a character
/// sequence.
pub enum EventView {
    Resolve(Seq<char>),
    Reject(Seq<char>),
    Timeout,
}

impl View for AppEvent {
    type V = EventView;

    open spec fn view(&self) -> EventView {
        match self {
            AppEvent::Resolve(p) => EventView::Resolve(p@),
            AppEvent::Reject(p) => EventView::Reject(p@),
            AppEvent::Timeout => EventView::Timeout,
        }
    }
}

/// The view of an optional event.
pub open spec fn event_option_view(e: Option<AppEvent>) -> Option<EventView> {
    match e {
        Some(ev) => Some(ev@),
        None => None,
    }
}

/// The tag that marks a resolve message.
pub open spec fn resolve_tag() -> Seq<char> {
    seq!['o', 'k']
}

/// The tag that marks a reject message.
pub open spec fn reject_tag() -> Seq<char> {
    seq!['e', 'r', 'r']
}

/// `i` is the position of the first `:` in `s`.
pub open spec fn is_first_colon(s: Seq<char>, i: int) -> bool {
    &&& 0 <= i < s.len()
    &&& s[i] == ':'
    &&& forall|j: int| 0 <= j < i ==> s[j] != ':'
}

/// The event a message body stands for: split at the first `:`; the part
/// before it must be exactly `ok` or `err`, and everything after it is the
/// payload. Anything else stands for no event.
pub open spec fn message_event(body: Seq<char>) -> Option<EventView> {
    if exists|i: int| is_first_colon(body, i) {
        let i = choose|i: int| is_first_colon(body, i);
        let tag = body.take(i);
        let rest = body.skip(i + 1);
        if tag == resolve_tag() {
            Some(EventView::Resolve(rest))
        } else if tag == reject_tag() {
            Some(EventView::Reject(rest))
        } else {
            None
        }
    } else {
        None
    }
}

/// Parse one IPC message body into an event.
///
/// Returns `None` for anything that isn't a recognized `ok:`/`err:` message so
/// the IPC handler can simply ignore stray traffic.
pub fn parse_message(body: &str) -> (r: Option<AppEvent>)
    ensures
        event_option_view(r) == message_event(body@),
{
    let chars = chars_of(body);
    let n = chars.len();
    let mut i: usize = 0;
    while i < n && chars[i] != ':'
        invariant
            i <= n,
            n == chars@.len(),
            chars@ == body@,
            forall|j: int| 0 <= j < i ==> chars@[j] != ':',
        decreases n - i,
    {
        i = i + 1;
    }
    if i == n {
        assert(!exists|k: int| is_first_colon(body@, k));
        return None;
    }
    assert(is_first_colon(body@, i as int));
    assert forall|k: int| is_first_colon(body@, k) implies k == i by {
        if k < i {
            assert(body@[k] != ':');
        } else if k > i {
            assert(body@[i as int] != ':');
        }
    }
    let ghost tag = body@.take(i as int);
    assert(tag.len() == i);
    assert(forall|j: int| 0 <= j < i ==> tag[j] == chars@[j]);
    let is_ok = i == 2 && chars[0] == 'o' && chars[1] == 'k';
    let is_err = i == 3 && chars[0] == 'e' && chars[1] == 'r' && chars[2] == 'r';
    assert(is_ok <==> tag == resolve_tag()) by {
        if tag == resolve_tag() {
            assert(resolve_tag().len() == 2);
            assert(tag[0] == 'o' && tag[1] == 'k');
        }
        if is_ok {
            assert(tag =~= resolve_tag());
        }
    }
    assert(is_err <==> tag == reject_tag()) by {
        if tag == reject_tag() {
            assert(reject_tag().len() == 3);
            assert(tag[0] == 'e' && tag[1] == 'r' && tag[2] == 'r');
        }
        if is_err {
            assert(tag =~= reject_tag());
        }
    }
    if !is_ok && !is_err {
        return None;
    }
    let rest = body.substring_char(i + 1, n).to_owned();
    if is_ok {
        Some(AppEvent::Resolve(rest))
    } else {
        Some(AppEvent::Reject(rest))
    }
}

/// What `window.webview.resolve` puts before its payload: `ok:`.
pub open spec fn resolve_prefix() -> Seq<char> {
    resolve_tag() + seq![':']
}

/// What `window.webview.reject` puts before its payload: `err:`.
pub open spec fn reject_prefix() -> Seq<char> {
    reject_tag() + seq![':']
}

/// The message `window.webview.resolve` posts for a payload: `ok:` and the
/// payload.
pub open spec fn resolve_message(payload: Seq<char>) -> Seq<char> {
    resolve_prefix() + payload
}

/// The message `window.webview.reject` posts for a payload: `err:` and the
/// payload.
pub open spec fn reject_message(payload: Seq<char>) -> Seq<char> {
    reject_prefix() + payload
}

/// The script injected before the page loads: it defines `window.webview`
/// with the tool's `version`, and `resolve` / `reject`, which post the
/// page's value behind [`resolve_prefix`] (stringified as JSON, `undefined`
/// becoming `null`) or [`reject_prefix`] (coerced to a string) over the one
/// IPC channel.
pub open spec fn bridge_script_view(version: Seq<char>) -> Seq<char> {
    "\n  window.webview = {\n    version: \""@ + version
        + "\",\n    resolve: (v) => window.ipc.postMessage(\""@ + resolve_prefix()
        + "\"  + JSON.stringify(v ?? null)),\n    reject:  (e) => window.ipc.postMessage(\""@
        + reject_prefix() + "\" + String(e)),\n  };\n"@
}

/// The script injected before the page loads, for this build's version.
pub fn bridge_script() -> (r: String)
    ensures
        r@ == bridge_script_view(VERSION@),
{
    proof {
        reveal_strlit("ok:");
        reveal_strlit("err:");
    }
    assert("ok:"@ =~= resolve_prefix());
    assert("err:"@ =~= reject_prefix());
    let mut script = String::from_str("\n  window.webview = {\n    version: \"");
    script.append(VERSION);
    script.append("\",\n    resolve: (v) => window.ipc.postMessage(\"");
    script.append("ok:");
    script.append("\"  + JSON.stringify(v ?? null)),\n    reject:  (e) => window.ipc.postMessage(\"");
    script.append("err:");
    script.append("\" + String(e)),\n  };\n");
    script
}

/// Splitting `tag:payload` at its first colon gives back `tag` and `payload`,
/// when `tag` has no colon.
proof fn lemma_split_tagged(tag: Seq<char>, payload: Seq<char>)
    requires
        forall|j: int| 0 <= j < tag.len() ==> tag[j] != ':',
    ensures
        ({
            let body = tag + seq![':'] + payload;
            &&& is_first_colon(body, tag.len() as int)
            &&& (choose|i: int| is_first_colon(body, i)) == tag.len()
            &&& body.take(tag.len() as int) == tag
            &&& body.skip(tag.len() as int + 1) == payload
        }),
{
    let body = tag + seq![':'] + payload;
    let t = tag.len() as int;
    assert(body[t] == ':');
    assert forall|j: int| 0 <= j < t implies body[j] != ':' by {
        assert(body[j] == tag[j]);
    }
    assert(is_first_colon(body, t));
    assert forall|k: int| is_first_colon(body, k) implies k == t by {
        if k > t {
            assert(body[t] != ':');
        }
    }
    assert(body.take(t) =~= tag);
    assert(body.skip(t + 1) =~= payload);
}

/// Whatever the page passes to `resolve`, the message it posts is read back
/// as a resolve carrying exactly that payload, colons included.
pub proof fn lemma_resolve_message_round_trip(payload: Seq<char>)
    ensures
        message_event(resolve_message(payload)) == Some(EventView::Resolve(payload)),
{
    lemma_split_tagged(resolve_tag(), payload);
    assert(resolve_tag() != reject_tag()) by {
        assert(resolve_tag().len() != reject_tag().len());
    }
}

/// Whatever the page passes to `reject`, the message it posts is read back as
/// a reject carrying exactly that payload.
pub proof fn lemma_reject_message_round_trip(payload: Seq<char>)
    ensures
        message_event(reject_message(payload)) == Some(EventView::Reject(payload)),
{
    lemma_split_tagged(reject_tag(), payload);
    assert(resolve_tag() != reject_tag()) by {
        assert(resolve_tag().len() != reject_tag().len());
    }
}

/// A message without a colon is ignored.
pub proof fn lemma_untagged_message_ignored(body: Seq<char>)
    requires
        forall|j: int| 0 <= j < body.len() ==> body[j] != ':',
    ensures
        message_event(body) is None,
{
}

} // verus!
