use vstd::prelude::*;

use std::sync::atomic::AtomicU64;
use std::sync::Arc;

use crate::cli::Task;
use crate::heuristics::texts;
use crate::profiles::Mode;
use crate::text::{
    chars_of, is_whitespace, push_char, replace_char, replace_char_exec, str_eq, string_of, trim,
    trim_bounds, trim_end_char, trim_end_char_exec,
};

verus! {

/// What every request handler shares: the served task, mode and model, the runtime to
/// forward to, and the count of requests served.
pub struct AppState {
    pub task: Task,
    pub mode: Mode,
    pub model_id: String,
    pub model_path: String,
    pub runtime_url: Option<String>,
    pub requests_served: Arc<AtomicU64>,
}

impl Clone for AppState {
    /// A copy that shares the request counter.
    fn clone(&self) -> (r: Self)
        ensures
            r.task == self.task,
            r.mode == self.mode,
            r.model_id == self.model_id,
            r.model_path == self.model_path,
            r.runtime_url == self.runtime_url,
    {
        let runtime_url = match &self.runtime_url {
            Some(u) => Some(u.clone()),
            None => None,
        };
        AppState {
            task: self.task,
            mode: self.mode,
            model_id: self.model_id.clone(),
            model_path: self.model_path.clone(),
            runtime_url,
            requests_served: Arc::clone(&self.requests_served),
        }
    }
}

/// Counts one more request served (a relaxed atomic increment; the count itself is not
/// tracked by the contracts).
pub fn increment_requests(state: &AppState) {
    state.requests_served.fetch_add(1, std::sync::atomic::Ordering::Relaxed);
}

/// One chat message.
pub struct Message {
    pub role: String,
    pub content: String,
}

impl Clone for Message {
    fn clone(&self) -> (r: Self)
        ensures
            r == *self,
    {
        Message { role: self.role.clone(), content: self.content.clone() }
    }
}

/// The content of the last message whose role is "user".
pub open spec fn last_user(ms: Seq<Message>) -> Option<String>
    decreases ms.len(),
{
    if ms.len() == 0 {
        None
    } else if ms.last().role@ == "user"@ {
        Some(ms.last().content)
    } else {
        last_user(ms.drop_last())
    }
}

pub fn extract_last_user(messages: &Vec<Message>) -> (r: Option<String>)
    ensures
        r == last_user(messages@),
{
    let mut i = messages.len();
    assert(messages@.take(i as int) == messages@);
    while i > 0
        invariant
            i <= messages@.len(),
            last_user(messages@) == last_user(messages@.take(i as int)),
        decreases i,
    {
        assert(messages@.take(i as int).drop_last() == messages@.take(i - 1));
        assert(messages@.take(i as int).last() == messages@[i - 1]);
        if str_eq(messages[i - 1].role.as_str(), "user") {
            return Some(messages[i - 1].content.clone());
        }
        i -= 1;
    }
    None
}

/// The bracketed tag the local responses carry: `[task:mode]`, or `[task:mode path]`.
pub open spec fn tag(task: Task, mode: Mode, path: Option<Seq<char>>) -> Seq<char> {
    match path {
        Some(p) => "["@ + task.name() + ":"@ + mode.name() + " "@ + p + "]"@,
        None => "["@ + task.name() + ":"@ + mode.name() + "]"@,
    }
}

/// `head`, then the tag, then `": " + text` when there is a text.
pub open spec fn tagged(head: Seq<char>, tg: Seq<char>, text: Option<String>) -> Seq<char> {
    match text {
        Some(t) => head + tg + ": "@ + t@,
        None => head + tg,
    }
}

fn push_tag(s: &mut String, state: &AppState, with_path: bool)
    ensures
        final(s)@ == old(s)@ + tag(state.task, state.mode, if with_path { Some(state.model_path@) } else { None }),
{
    s.append("[");
    s.append(state.task.as_str());
    s.append(":");
    s.append(state.mode.as_str());
    if with_path {
        s.append(" ");
        s.append(state.model_path.as_str());
    }
    s.append("]");
}

fn tagged_text(head: &str, state: &AppState, with_path: bool, text: Option<String>) -> (r: String)
    ensures
        r@ == tagged(head@, tag(state.task, state.mode, if with_path { Some(state.model_path@) } else { None }), text),
{
    let mut s = String::from_str(head);
    push_tag(&mut s, state, with_path);
    match text {
        Some(t) => {
            s.append(": ");
            s.append(t.as_str());
        },
        None => {},
    }
    s
}

/// The answer given to a chat request when no runtime answers it.
pub fn local_chat_content(state: &AppState, messages: &Vec<Message>) -> (r: String)
    ensures
        r@ == tagged(
            "tokensmith local response "@,
            tag(state.task, state.mode, Some(state.model_path@)),
            last_user(messages@),
        ),
{
    tagged_text("tokensmith local response ", state, true, extract_last_user(messages))
}

/// The text streamed back for a chat request when no runtime answers it.
pub fn stream_echo_text(state: &AppState, messages: &Vec<Message>) -> (r: String)
    ensures
        r@ == tagged("tokensmith stream echo "@, tag(state.task, state.mode, None), last_user(messages@)),
{
    tagged_text("tokensmith stream echo ", state, false, extract_last_user(messages))
}

/// The completion given when no runtime answers it.
pub fn local_completion_text(state: &AppState, prompt: &str) -> (r: String)
    ensures
        r@ == "tokensmith completion "@ + tag(state.task, state.mode, Some(state.model_path@)) + ": "@ + prompt@,
{
    let mut s = String::from_str("tokensmith completion ");
    push_tag(&mut s, state, true);
    s.append(": ");
    s.append(prompt);
    s
}

/// The completion text streamed back when no runtime answers it.
pub fn stream_completion_text(state: &AppState, prompt: &str) -> (r: String)
    ensures
        r@ == "tokensmith stream completion "@ + tag(state.task, state.mode, None) + ": "@ + prompt@,
{
    let mut s = String::from_str("tokensmith stream completion ");
    push_tag(&mut s, state, false);
    s.append(": ");
    s.append(prompt);
    s
}

/// The runtime's URL for `path`: the base without its trailing slashes, then the path.
pub fn runtime_endpoint(base: &str, path: &str) -> (r: String)
    ensures
        r@ == trim_end_char(base@, '/') + path@,
{
    let cs = chars_of(base);
    let end = trim_end_char_exec(&cs, 0, cs.len(), '/');
    assert(cs@.subrange(0, cs@.len() as int) == base@);
    let mut s = string_of(&cs, 0, end);
    s.append(path);
    s
}

// ---------------------------------------------------------------------------
// Error bodies
// ---------------------------------------------------------------------------

/// The number of bytes `c` takes in UTF-8.
pub open spec fn utf8_width(c: char) -> nat {
    let u = c as u32;
    if u < 0x80 { 1 } else if u < 0x800 { 2 } else if u < 0x10000 { 3 } else { 4 }
}

/// The number of bytes `s` takes in UTF-8 (`str::len`).
pub open spec fn utf8_len(s: Seq<char>) -> nat
    decreases s.len(),
{
    if s.len() == 0 { 0 } else { utf8_len(s.drop_last()) + utf8_width(s.last()) }
}

/// Some character boundary of `s` falls at byte `n`.
pub open spec fn is_boundary(s: Seq<char>, n: nat) -> bool {
    exists|k: int| 0 <= k <= s.len() && utf8_len(s.take(k)) == n
}

/// The number of characters before byte `n`, when `n` is a character boundary.
pub open spec fn chars_before(s: Seq<char>, n: nat) -> int {
    choose|k: int| 0 <= k <= s.len() && utf8_len(s.take(k)) == n
}

/// The longest error body kept, in bytes.
pub open spec fn max_error_body() -> nat {
    240
}

/// The error body with newlines turned into spaces and trimmed.
pub open spec fn cleaned_body(s: Seq<char>) -> Seq<char> {
    trim(replace_char(s, '\n', " "@))
}

/// What `truncate_err_body` gives: the cleaned body when it takes at most 240 bytes,
/// otherwise its first 240 bytes followed by "...".
pub open spec fn truncated_body(s: Seq<char>) -> Seq<char> {
    let c = cleaned_body(s);
    if utf8_len(c) <= max_error_body() {
        c
    } else {
        c.take(chars_before(c, max_error_body())) + "..."@
    }
}

proof fn lemma_utf8_len_take_mono(s: Seq<char>, k1: int, k2: int)
    requires
        0 <= k1 < k2 <= s.len(),
    ensures
        utf8_len(s.take(k1)) < utf8_len(s.take(k2)),
    decreases k2 - k1,
{
    assert(s.take(k2).drop_last() == s.take(k2 - 1));
    if k1 < k2 - 1 {
        lemma_utf8_len_take_mono(s, k1, k2 - 1);
    }
}

fn char_width(c: char) -> (r: u64)
    ensures
        r == utf8_width(c),
{
    let u = c as u32;
    if u < 0x80 { 1 } else if u < 0x800 { 2 } else if u < 0x10000 { 3 } else { 4 }
}

/// Shortens a runtime's error body for a message: newlines become spaces, the ends are
/// trimmed, and more than 240 bytes are cut to 240 followed by "...".
pub fn truncate_err_body(s: &str) -> (r: String)
    requires
        utf8_len(cleaned_body(s@)) <= max_error_body() || is_boundary(cleaned_body(s@), max_error_body()),
    ensures
        r@ == truncated_body(s@),
{
    let cs = chars_of(s);
    let rep = replace_char_exec(&cs, '\n', " ");
    let (lo, hi) = trim_bounds(&rep, 0, rep.len());
    assert(rep@.subrange(0, rep@.len() as int) == rep@);
    let ghost c = rep@.subrange(lo as int, hi as int);
    assert(c == cleaned_body(s@));
    let mut k = lo;
    let mut total: u64 = 0;
    assert(c.take(0) == Seq::<char>::empty());
    while k < hi && total < 240
        invariant
            lo <= k <= hi <= rep@.len(),
            c == rep@.subrange(lo as int, hi as int),
            total == utf8_len(c.take(k - lo)),
            total < 244,
            k > lo ==> utf8_len(c.take(k - lo - 1)) < 240,
        decreases hi - k,
    {
        assert(c.take(k - lo + 1).drop_last() == c.take(k - lo));
        assert(c.take(k - lo + 1).last() == rep@[k as int]);
        assert(c.take(k - lo + 1 - 1) == c.take(k - lo));
        total = total + char_width(rep[k]);
        k += 1;
    }
    if k == hi && total <= 240 {
        assert(c.take(k - lo) == c);
        return string_of(&rep, lo, hi);
    }
    proof {
        if k < hi {
            assert(total >= 240);
            lemma_utf8_len_take_mono(c, k - lo, c.len() as int);
            assert(c.take(c.len() as int) == c);
        } else {
            assert(c.take(k - lo) == c);
        }
        assert(utf8_len(c) > 240);
        assert(is_boundary(c, 240));
        let w = choose|j: int| 0 <= j <= c.len() && utf8_len(c.take(j)) == 240;
        if w < k - lo {
            // the scan stops at the first prefix of at least 240 bytes
            if w < k - lo - 1 {
                lemma_utf8_len_take_mono(c, w, k - lo - 1);
            }
        } else if w > k - lo {
            lemma_utf8_len_take_mono(c, k - lo, w);
        }
        assert(w == k - lo);
        assert(chars_before(c, 240) == k - lo);
    }
    let mut out = string_of(&rep, lo, k);
    assert(rep@.subrange(lo as int, k as int) == c.take(k - lo));
    out.append("...");
    out
}

// ---------------------------------------------------------------------------
// Answering a request
// ---------------------------------------------------------------------------

/// What came of forwarding a request to the runtime.
pub enum ProxyOutcome {
    /// The runtime answered; its answer is passed on as it is.
    Forwarded,
    /// No runtime is configured.
    NoRuntime,
    /// Forwarding failed with this error.
    Failed(String),
}

/// How a request is answered.
pub enum Reply {
    /// With the runtime's answer.
    Forwarded,
    /// With this text, streamed a word at a time.
    Stream(String),
    /// With this text as the completion.
    Local(String),
    /// With 502 Bad Gateway and this body.
    BadGateway(String),
}

/// The body of a 502 answer: "proxy error: " and the error.
pub open spec fn bad_gateway_body(e: Seq<char>) -> Seq<char> {
    "proxy error: "@ + e
}

/// How a chat request is answered: the runtime's answer when it gave one, a 502 when
/// forwarding failed, and without a runtime the last user message echoed, streamed or not.
pub fn chat_reply(state: &AppState, messages: &Vec<Message>, stream: bool, outcome: ProxyOutcome) -> (r: Reply)
    ensures
        match outcome {
            ProxyOutcome::Forwarded => r is Forwarded,
            ProxyOutcome::Failed(e) => r matches Reply::BadGateway(b) && b@ == bad_gateway_body(e@),
            ProxyOutcome::NoRuntime => if stream {
                r matches Reply::Stream(t) && t@ == tagged(
                    "tokensmith stream echo "@,
                    tag(state.task, state.mode, None),
                    last_user(messages@),
                )
            } else {
                r matches Reply::Local(t) && t@ == tagged(
                    "tokensmith local response "@,
                    tag(state.task, state.mode, Some(state.model_path@)),
                    last_user(messages@),
                )
            },
        },
{
    match outcome {
        ProxyOutcome::Forwarded => Reply::Forwarded,
        ProxyOutcome::Failed(e) => Reply::BadGateway(crate::text::concat("proxy error: ", e.as_str())),
        ProxyOutcome::NoRuntime => if stream {
            Reply::Stream(stream_echo_text(state, messages))
        } else {
            Reply::Local(local_chat_content(state, messages))
        },
    }
}

/// How a completion request is answered: as a chat request is, with the prompt in place of
/// the last user message.
pub fn completion_reply(state: &AppState, prompt: &str, stream: bool, outcome: ProxyOutcome) -> (r: Reply)
    ensures
        match outcome {
            ProxyOutcome::Forwarded => r is Forwarded,
            ProxyOutcome::Failed(e) => r matches Reply::BadGateway(b) && b@ == bad_gateway_body(e@),
            ProxyOutcome::NoRuntime => if stream {
                r matches Reply::Stream(t) && t@ == "tokensmith stream completion "@ + tag(state.task, state.mode, None)
                    + ": "@ + prompt@
            } else {
                r matches Reply::Local(t) && t@ == "tokensmith completion "@ + tag(
                    state.task,
                    state.mode,
                    Some(state.model_path@),
                ) + ": "@ + prompt@
            },
        },
{
    match outcome {
        ProxyOutcome::Forwarded => Reply::Forwarded,
        ProxyOutcome::Failed(e) => Reply::BadGateway(crate::text::concat("proxy error: ", e.as_str())),
        ProxyOutcome::NoRuntime => if stream {
            Reply::Stream(stream_completion_text(state, prompt))
        } else {
            Reply::Local(local_completion_text(state, prompt))
        },
    }
}

/// The error given when the runtime answers with a failure status.
pub open spec fn runtime_error_text(status: Seq<char>, path: Seq<char>, streamed: bool, body: Seq<char>) -> Seq<char> {
    "runtime returned "@ + status + " for "@ + (if streamed { "streamed "@ } else { ""@ }) + path + ": "@
        + truncated_body(body)
}

/// Describes a failure status from the runtime: the status, the endpoint, and the
/// shortened body it sent.
pub fn runtime_error_message(status: &str, path: &str, streamed: bool, body: &str) -> (r: String)
    requires
        utf8_len(cleaned_body(body@)) <= max_error_body() || is_boundary(cleaned_body(body@), max_error_body()),
    ensures
        r@ == runtime_error_text(status@, path@, streamed, body@),
{
    let mut s = String::from_str("runtime returned ");
    s.append(status);
    s.append(" for ");
    if streamed {
        s.append("streamed ");
    }
    s.append(path);
    s.append(": ");
    let short = truncate_err_body(body);
    s.append(short.as_str());
    proof {
        reveal_strlit("");
    }
    assert(s@ =~= runtime_error_text(status@, path@, streamed, body@));
    s
}

// ---------------------------------------------------------------------------
// Streaming
// ---------------------------------------------------------------------------

/// The words of `s` (`str::split_whitespace`), reading it left to right with the word
/// being read in `cur`.
pub open spec fn words_from(s: Seq<char>, cur: Seq<char>) -> Seq<Seq<char>>
    decreases s.len(),
{
    if s.len() == 0 {
        if cur.len() == 0 { seq![] } else { seq![cur] }
    } else if is_whitespace(s[0]) {
        (if cur.len() == 0 { seq![] } else { seq![cur] }) + words_from(s.drop_first(), seq![])
    } else {
        words_from(s.drop_first(), cur.push(s[0]))
    }
}

/// The words of `s`.
pub open spec fn words(s: Seq<char>) -> Seq<Seq<char>> {
    words_from(s, seq![])
}

/// Each word followed by one space.
pub open spec fn spaced(ws: Seq<Seq<char>>) -> Seq<Seq<char>> {
    ws.map_values(|w: Seq<char>| w + " "@)
}

/// The pieces a text is streamed in: each word followed by one space.
pub open spec fn stream_pieces(s: Seq<char>) -> Seq<Seq<char>> {
    spaced(words(s))
}

pub fn stream_chunks(text: &str) -> (r: Vec<String>)
    ensures
        texts(r@) == stream_pieces(text@),
{
    let cs = chars_of(text);
    let mut out: Vec<String> = Vec::new();
    let mut cur = String::new();
    let mut cur_len: usize = 0;
    let mut i: usize = 0;
    assert(cs@.skip(0) == cs@);
    while i < cs.len()
        invariant
            i <= cs@.len(),
            cur_len == cur@.len(),
            cur_len <= i,
            cs@ == text@,
            spaced(words(text@)) == texts(out@)
                + spaced(words_from(cs@.skip(i as int), cur@)),
        decreases cs.len() - i,
    {
        let c = cs[i];
        let ghost rest = cs@.skip(i as int);
        assert(rest.drop_first() == cs@.skip(i + 1));
        assert(rest[0] == c);
        let ghost o0 = out@;
        let ghost c0 = cur@;
        let ghost next = cs@.skip(i + 1);
        if crate::text::char_is_whitespace(c) {
            if cur_len > 0 {
                assert(words_from(rest, c0) == seq![c0] + words_from(next, seq![]));
                let mut piece = cur;
                piece.append(" ");
                out.push(piece);
                cur = String::new();
                cur_len = 0;
                let ghost w = words_from(next, seq![]);
                assert(texts(out@) =~= texts(o0).push(c0 + " "@));
                assert(spaced(seq![c0] + w) =~= seq![c0 + " "@] + spaced(w));
                assert(cur@ =~= Seq::<char>::empty());
                assert(texts(o0).push(c0 + " "@) + spaced(w) =~= texts(o0) + (seq![c0 + " "@] + spaced(w)));
                assert(texts(out@) + spaced(words_from(next, cur@)) == texts(o0) + spaced(words_from(rest, c0)));
            } else {
                assert(c0 =~= Seq::<char>::empty());
                assert(words_from(rest, c0) == Seq::<Seq<char>>::empty() + words_from(next, seq![]));
                assert(Seq::<Seq<char>>::empty() + words_from(next, seq![]) =~= words_from(next, seq![]));
                assert(texts(out@) + spaced(words_from(next, cur@)) == texts(o0) + spaced(words_from(rest, c0)));
            }
        } else {
            assert(words_from(rest, c0) == words_from(next, c0.push(c)));
            push_char(&mut cur, c);
            cur_len += 1;
            assert(texts(out@) + spaced(words_from(next, cur@)) == texts(o0) + spaced(words_from(rest, c0)));
        }
        i += 1;
    }
    let ghost o0 = out@;
    if cur_len > 0 {
        let ghost c0 = cur@;
        let mut piece = cur;
        piece.append(" ");
        out.push(piece);
        assert(texts(out@) =~= texts(o0).push(c0 + " "@));
        assert(cs@.skip(i as int) =~= Seq::<char>::empty());
        assert(spaced(seq![c0]) =~= seq![c0 + " "@]);
    } else {
        assert(cs@.skip(i as int) =~= Seq::<char>::empty());
        assert(spaced(Seq::<Seq<char>>::empty()) =~= Seq::<Seq<char>>::empty());
        assert(texts(o0) + Seq::<Seq<char>>::empty() =~= texts(o0));
    }
    out
}

} // verus!
