//! Reading a streamed chat completion: splitting the received text into
//! lines, taking the content delta from each server-sent event, and removing
//! the model's thinking blocks from what is shown.
use vstd::prelude::*;

use crate::chunking::matches_at;
use crate::text::{
    chars_of, copy_range, lead_end, lemma_lead_end_bounds, lemma_tail_start_bounds,
    lemma_trim_idempotent, opt_view, spec_trim, starts_with_chars, str_equals, string_of,
    tail_start, trim_chars, trim_text,
};

verus! {

/// What `serde_json::from_str::<serde_json::Value>(payload)` followed by
/// `Value::pointer(pointer)` and `Value::as_str` gives: the string found at
/// the JSON pointer (or none, where nothing or no string is there), or the
/// parse error's message.
pub uninterp spec fn json_string_at(payload: Seq<char>, pointer: Seq<char>) -> Result<
    Option<Seq<char>>,
    Seq<char>,
>;

pub open spec fn lookup_view(r: Result<Option<String>, String>) -> Result<
    Option<Seq<char>>,
    Seq<char>,
> {
    match r {
        Ok(o) => Ok(opt_view(o)),
        Err(e) => Err(e@),
    }
}

/// Parses `payload` as JSON (serde_json) and reads the string at `pointer`.
/// Claimed: the outcome is `json_string_at(payload, pointer)`, a function of
/// the two texts alone.
#[verifier::external_body]
fn json_lookup(payload: &str, pointer: &str) -> (r: Result<Option<String>, String>)
    ensures
        lookup_view(r) == json_string_at(payload@, pointer@),
{
    match serde_json::from_str::<serde_json::Value>(payload) {
        Ok(value) => Ok(value.pointer(pointer).and_then(serde_json::Value::as_str).map(
            |s| s.to_string(),
        )),
        Err(error) => Err(error.to_string()),
    }
}

/// The JSON payload of a server-sent event line: the trimmed text after a
/// leading `data:`; blank lines, comments (`:`), other fields and the
/// closing `[DONE]` carry none.
pub open spec fn sse_payload(line: Seq<char>) -> Option<Seq<char>> {
    let t = spec_trim(line);
    if t.len() == 0 || t[0] == ':' {
        None
    } else if !(t.len() >= 5 && t.take(5) == "data:"@) {
        None
    } else {
        let p = spec_trim(t.skip(5));
        if p == "[DONE]"@ {
            None
        } else {
            Some(p)
        }
    }
}

/// The JSON payload of a server-sent event line, if it carries one.
pub fn sse_payload_of(line: &str) -> (r: Option<String>)
    ensures
        opt_view(r) == sse_payload(line@),
{
    let v = chars_of(line);
    let t = trim_chars(v.as_slice(), None);
    if t.len() == 0 || t[0] == ':' {
        return None;
    }
    let data = chars_of("data:");
    proof {
        reveal_strlit("data:");
    }
    if !starts_with_chars(t.as_slice(), data.as_slice()) {
        return None;
    }
    let rest = copy_range(t.as_slice(), 5, t.len());
    assert(rest@ =~= t@.skip(5));
    let p = trim_chars(rest.as_slice(), None);
    let ps = string_of(p.as_slice());
    if str_equals(ps.as_str(), "[DONE]") {
        None
    } else {
        Some(ps)
    }
}

/// What the error lookup of an event decides: a parse error or an error
/// message ends the stream with that error; no error lets the content be
/// read (`None`).
pub fn sse_error_outcome(error_lookup: Result<Option<String>, String>) -> (r: Option<
    Result<Option<String>, String>,
>)
    ensures
        match error_lookup {
            Err(e) => r == Some(Err::<Option<String>, String>(e)),
            Ok(Some(m)) => r == Some(Err::<Option<String>, String>(m)),
            Ok(None) => r is None,
        },
{
    match error_lookup {
        Err(e) => Some(Err(e)),
        Ok(Some(m)) => Some(Err(m)),
        Ok(None) => None,
    }
}

/// The pointer to an event's error message.
pub open spec fn error_pointer() -> Seq<char> {
    "/error/message"@
}

/// The pointer to an event's content delta.
pub open spec fn content_pointer() -> Seq<char> {
    "/choices/0/delta/content"@
}

/// The content delta of one server-sent event line: none for lines without
/// a payload; the error message where the payload reports one (or the parse
/// error where it is not JSON); else the string at
/// `/choices/0/delta/content`, if any.
pub open spec fn spec_sse_delta(line: Seq<char>) -> Result<Option<Seq<char>>, Seq<char>> {
    match sse_payload(line) {
        None => Ok(None),
        Some(p) => match json_string_at(p, error_pointer()) {
            Err(e) => Err(e),
            Ok(Some(m)) => Err(m),
            Ok(None) => json_string_at(p, content_pointer()),
        },
    }
}

/// The content delta of one server-sent event line (`spec_sse_delta`).
pub fn parse_sse_delta(line: &str) -> (r: Result<Option<String>, String>)
    ensures
        lookup_view(r) == spec_sse_delta(line@),
{
    let payload = match sse_payload_of(line) {
        None => return Ok(None),
        Some(p) => p,
    };
    let error_lookup = json_lookup(payload.as_str(), "/error/message");
    match sse_error_outcome(error_lookup) {
        Some(failed) => failed,
        None => json_lookup(payload.as_str(), "/choices/0/delta/content"),
    }
}

/// A thinking block opens at `i`: `<thought>` or `<think>` starts there.
pub open spec fn opens_thought_at(s: Seq<char>, i: int) -> bool {
    matches_at(s, "<thought>"@, i) || matches_at(s, "<think>"@, i)
}

/// `s` holds an opening `<thought>` or `<think>` tag.
pub open spec fn has_thought_tag(s: Seq<char>) -> bool {
    exists|i: int| #[trigger] opens_thought_at(s, i)
}

/// The first position at or after `i` where a thinking block opens, or the
/// length of `s` where none does.
pub open spec fn first_thought_from(s: Seq<char>, i: int) -> int
    decreases s.len() - i,
{
    if i < 0 || i >= s.len() {
        s.len() as int
    } else if opens_thought_at(s, i) {
        i
    } else {
        first_thought_from(s, i + 1)
    }
}

/// The first position where a thinking block opens, or the length of `s`.
pub open spec fn first_thought(s: Seq<char>) -> int {
    first_thought_from(s, 0)
}

/// What `regex::Regex::new(pattern)` followed by `Regex::replace_all(text,
/// replacement)` gives: the replaced text, or none where the pattern does
/// not compile.
pub uninterp spec fn regex_replaced(pattern: Seq<char>, text: Seq<char>, replacement: Seq<char>) -> Option<Seq<char>>;

/// Compiles `pattern` with the regex crate and replaces all its matches in
/// `text`. Claimed: the outcome is `regex_replaced(pattern, text,
/// replacement)`, a function of the three texts alone; the two thinking
/// block patterns compile; every match of the closed-block pattern starts
/// with an opening tag, so a text without one comes back unchanged; and the
/// open-block pattern (`(?s)` lets `.` cross lines, `$` is the end of the
/// text, the leftmost match wins) matches from the first opening tag to the
/// end, so replacing it with nothing keeps the text before that tag.
#[verifier::external_body]
fn regex_replace_all(pattern: &str, text: &str, replacement: &str) -> (r: Option<String>)
    ensures
        opt_view(r) == regex_replaced(pattern@, text@, replacement@),
        pattern@ == closed_thought_pattern() || pattern@ == open_thought_pattern() ==> r is Some,
        pattern@ == closed_thought_pattern() && !has_thought_tag(text@) ==> r is Some
            && r->Some_0@ == text@,
        pattern@ == open_thought_pattern() && replacement@ == ""@ ==> r is Some && r->Some_0@
            == text@.take(first_thought(text@)),
{
    regex::Regex::new(pattern).ok().map(|re| re.replace_all(text, replacement).into_owned())
}

/// Closed thinking blocks, matched lazily across lines.
pub open spec fn closed_thought_pattern() -> Seq<char> {
    "(?s)<thought>.*?</thought>|<think>.*?</think>"@
}

/// An unclosed thinking block running to the end of the text.
pub open spec fn open_thought_pattern() -> Seq<char> {
    "(?s)<thought>.*$|<think>.*$"@
}

/// `text` without closed thinking blocks, then without an unclosed one at
/// the end, trimmed.
pub open spec fn spec_filter_thoughts(text: Seq<char>) -> Seq<char> {
    let closed_removed = regex_replaced(closed_thought_pattern(), text, ""@)->Some_0;
    spec_trim(regex_replaced(open_thought_pattern(), closed_removed, ""@)->Some_0)
}

/// What filtering `text` gave `out`: exactly `spec_filter_thoughts(text)`,
/// which holds no opening tag and is trimmed; a text without an opening tag
/// is only trimmed.
pub open spec fn thought_filter_outcome(text: Seq<char>, out: Seq<char>) -> bool {
    &&& out == spec_filter_thoughts(text)
    &&& !has_thought_tag(out)
    &&& spec_trim(out) == out
    &&& !has_thought_tag(text) ==> out == spec_trim(text)
}

proof fn lemma_tag_lengths()
    ensures
        "<thought>"@.len() == 9,
        "<think>"@.len() == 7,
{
    reveal_strlit("<thought>");
    reveal_strlit("<think>");
}

proof fn lemma_first_thought_from(s: Seq<char>, i: int)
    requires
        0 <= i <= s.len(),
    ensures
        i <= first_thought_from(s, i) <= s.len(),
        forall|j: int| i <= j < first_thought_from(s, i) ==> !#[trigger] opens_thought_at(s, j),
        first_thought_from(s, i) < s.len() ==> opens_thought_at(s, first_thought_from(s, i)),
    decreases s.len() - i,
{
    if i < s.len() && !opens_thought_at(s, i) {
        lemma_first_thought_from(s, i + 1);
    }
}

/// An opening tag inside `s.subrange(a, b)` is one in `s`.
proof fn lemma_tag_in_subrange(s: Seq<char>, a: int, b: int, j: int)
    requires
        0 <= a <= b <= s.len(),
        opens_thought_at(s.subrange(a, b), j),
    ensures
        opens_thought_at(s, a + j),
{
    let t = s.subrange(a, b);
    if matches_at(t, "<thought>"@, j) {
        let n = "<thought>"@.len() as int;
        assert(s.subrange(a + j, a + j + n) =~= t.subrange(j, j + n));
    } else {
        let n = "<think>"@.len() as int;
        assert(s.subrange(a + j, a + j + n) =~= t.subrange(j, j + n));
    }
}

/// A part of a text without opening tags has none either.
proof fn lemma_tag_free_subrange(s: Seq<char>, a: int, b: int)
    requires
        0 <= a <= b <= s.len(),
        !has_thought_tag(s),
    ensures
        !has_thought_tag(s.subrange(a, b)),
{
    assert forall|j: int| !#[trigger] opens_thought_at(s.subrange(a, b), j) by {
        if opens_thought_at(s.subrange(a, b), j) {
            lemma_tag_in_subrange(s, a, b, j);
        }
    }
}

/// The text before the first opening tag holds none.
proof fn lemma_before_first_thought(s: Seq<char>)
    ensures
        !has_thought_tag(s.take(first_thought(s))),
{
    lemma_first_thought_from(s, 0);
    let k = first_thought(s);
    assert forall|j: int| !#[trigger] opens_thought_at(s.take(k), j) by {
        if opens_thought_at(s.take(k), j) {
            lemma_tag_lengths();
            lemma_tag_in_subrange(s, 0, k, j);
            assert(s.take(k) =~= s.subrange(0, k));
        }
    }
}

/// Trimming a text without opening tags leaves none.
proof fn lemma_trim_tag_free(s: Seq<char>)
    requires
        !has_thought_tag(s),
    ensures
        !has_thought_tag(spec_trim(s)),
{
    lemma_lead_end_bounds(s, 0, None);
    let a = lead_end(s, 0, None);
    lemma_tail_start_bounds(s, a, s.len() as int, None);
    lemma_tag_free_subrange(s, a, tail_start(s, a, s.len() as int, None));
}

/// Removes `<thought>`/`<think>` blocks (closed ones, then an unclosed one
/// at the end) from model output and trims the rest.
pub fn filter_thoughts(text: &str) -> (r: String)
    ensures
        thought_filter_outcome(text@, r@),
{
    let closed_removed = regex_replace_all(
        "(?s)<thought>.*?</thought>|<think>.*?</think>",
        text,
        "",
    ).unwrap();
    let open_removed = regex_replace_all(
        "(?s)<thought>.*$|<think>.*$",
        closed_removed.as_str(),
        "",
    ).unwrap();
    let r = trim_text(open_removed.as_str());
    proof {
        lemma_before_first_thought(closed_removed@);
        lemma_trim_tag_free(open_removed@);
        lemma_trim_idempotent(open_removed@, None);
        if !has_thought_tag(text@) {
            lemma_first_thought_from(text@, 0);
            assert(text@.take(text@.len() as int) =~= text@);
        }
    }
    r
}

/// Filtering thinking blocks is idempotent: filtering a filtered text again
/// gives it back unchanged.
pub proof fn lemma_filter_thoughts_idempotent(text: Seq<char>, out: Seq<char>, again: Seq<char>)
    requires
        thought_filter_outcome(text, out),
        thought_filter_outcome(out, again),
    ensures
        again == out,
        spec_filter_thoughts(out) == out,
{
}

/// What is shown while a chunk streams: the output so far followed by the
/// chunk's filtered output.
pub fn stream_display(full_prefix: &str, chunk_output: &str) -> (r: String)
    ensures
        r@ == full_prefix@ + spec_filter_thoughts(chunk_output@),
{
    let f = filter_thoughts(chunk_output);
    let mut r = String::from_str(full_prefix);
    r.append(f.as_str());
    r
}

/// The index of the first occurrence of `c` in `s`.
pub open spec fn first_index_of(s: Seq<char>, c: char, i: int) -> Option<int>
    decreases s.len() - i,
{
    if i < 0 || i >= s.len() {
        None
    } else if s[i] == c {
        Some(i)
    } else {
        first_index_of(s, c, i + 1)
    }
}

proof fn lemma_first_index_of(s: Seq<char>, c: char, i: int)
    requires
        0 <= i,
    ensures
        first_index_of(s, c, i) matches Some(k) ==> i <= k < s.len() && s[k] == c && (forall|
            j: int,
        | i <= j < k ==> s[j] != c),
        first_index_of(s, c, i) is None ==> forall|j: int| i <= j < s.len() ==> s[j] != c,
    decreases s.len() - i,
{
    if i < s.len() && s[i] != c {
        lemma_first_index_of(s, c, i + 1);
    }
}

/// Text received from a stream, held until it forms complete lines.
pub struct LineBuffer {
    buf: Vec<char>,
}

impl View for LineBuffer {
    type V = Seq<char>;

    closed spec fn view(&self) -> Seq<char> {
        self.buf@
    }
}

/// The first complete line of `s` (up to and including its first `\n`).
pub open spec fn first_line(s: Seq<char>) -> Option<Seq<char>> {
    match first_index_of(s, '\n', 0) {
        Some(k) => Some(s.take(k + 1)),
        None => None,
    }
}

impl LineBuffer {
    /// An empty buffer.
    pub fn new() -> (r: LineBuffer)
        ensures
            r@ == Seq::<char>::empty(),
    {
        LineBuffer { buf: Vec::new() }
    }

    /// Appends received text.
    pub fn push_text(&mut self, text: &str)
        ensures
            final(self)@ == old(self)@ + text@,
    {
        let v = chars_of(text);
        crate::text::append_chars(&mut self.buf, v.as_slice());
    }

    /// Takes the first complete line (with its `\n`) out of the buffer, if
    /// there is one; otherwise leaves the buffer as it is.
    pub fn next_line(&mut self) -> (r: Option<String>)
        ensures
            opt_view(r) == first_line(old(self)@),
            match first_line(old(self)@) {
                Some(l) => old(self)@ == l + final(self)@,
                None => final(self)@ == old(self)@,
            },
            r matches Some(l) ==> l@.len() > 0 && l@.last() == '\n' && (forall|j: int|
                0 <= j < l@.len() - 1 ==> l@[j] != '\n'),
    {
        let n = self.buf.len();
        let mut i: usize = 0;
        while i < n && self.buf[i] != '\n'
            invariant
                n == self.buf@.len(),
                self.buf@ == old(self)@,
                0 <= i <= n,
                first_index_of(self.buf@, '\n', 0) == first_index_of(self.buf@, '\n', i as int),
            decreases n - i,
        {
            i = i + 1;
        }
        proof {
            lemma_first_index_of(self.buf@, '\n', 0);
        }
        if i == n {
            return None;
        }
        let line = copy_range(self.buf.as_slice(), 0, i + 1);
        let rest = copy_range(self.buf.as_slice(), i + 1, n);
        assert(old(self)@ =~= line@ + rest@);
        self.buf = rest;
        Some(string_of(line.as_slice()))
    }

    /// What is left once the stream ends, if it is not blank.
    pub fn remainder(&self) -> (r: Option<String>)
        ensures
            spec_trim(self@).len() == 0 ==> r is None,
            spec_trim(self@).len() != 0 ==> r is Some && r->Some_0@ == self@,
    {
        let t = trim_chars(self.buf.as_slice(), None);
        if t.len() == 0 {
            None
        } else {
            Some(string_of(self.buf.as_slice()))
        }
    }
}

/// The streamed answer to one chunk: received text not yet forming a
/// complete line, and the content gathered so far.
pub struct ChunkStream {
    lines: LineBuffer,
    output: String,
}

impl ChunkStream {
    /// The received text not yet taken as lines.
    pub closed spec fn spec_pending(&self) -> Seq<char> {
        self.lines@
    }

    /// The content gathered so far.
    pub closed spec fn spec_output(&self) -> Seq<char> {
        self.output@
    }

    /// A stream that has received nothing.
    pub fn new() -> (r: ChunkStream)
        ensures
            r.spec_pending() == Seq::<char>::empty(),
            r.spec_output() == Seq::<char>::empty(),
    {
        ChunkStream { lines: LineBuffer::new(), output: String::new() }
    }

    /// Takes in text received from the network.
    pub fn receive(&mut self, text: &str)
        ensures
            final(self).spec_pending() == old(self).spec_pending() + text@,
            final(self).spec_output() == old(self).spec_output(),
    {
        self.lines.push_text(text);
    }

    /// The content gathered so far.
    pub fn output(&self) -> (r: String)
        ensures
            r@ == self.spec_output(),
    {
        self.output.clone()
    }

    /// Reads the next complete line, if there is one (`None` otherwise): an
    /// event error ends the stream with that error; an event with content
    /// adds it to the output and yields the output so far; any other line
    /// yields nothing.
    pub fn next_event(&mut self) -> (r: Option<Result<Option<String>, String>>)
        ensures
            match first_line(old(self).spec_pending()) {
                None => r is None && final(self).spec_pending() == old(self).spec_pending()
                    && final(self).spec_output() == old(self).spec_output(),
                Some(l) => {
                    &&& old(self).spec_pending() == l + final(self).spec_pending()
                    &&& r is Some
                    &&& match spec_sse_delta(l) {
                        Err(e) => r->Some_0 is Err && r->Some_0->Err_0@ == e
                            && final(self).spec_output() == old(self).spec_output(),
                        Ok(None) => r->Some_0 is Ok && r->Some_0->Ok_0 is None
                            && final(self).spec_output() == old(self).spec_output(),
                        Ok(Some(d)) => r->Some_0 is Ok && r->Some_0->Ok_0 is Some
                            && final(self).spec_output() == old(self).spec_output() + d
                            && r->Some_0->Ok_0->Some_0@ == final(self).spec_output(),
                    }
                },
            },
    {
        let line = match self.lines.next_line() {
            None => return None,
            Some(l) => l,
        };
        match parse_sse_delta(line.as_str()) {
            Err(e) => Some(Err(e)),
            Ok(None) => Some(Ok(None)),
            Ok(Some(d)) => {
                self.output.append(d.as_str());
                Some(Ok(Some(self.output.clone())))
            },
        }
    }

    /// Ends the stream: text left after the last line break is read as one
    /// more line if it is not blank; yields the output, or the event error.
    pub fn finish(&self) -> (r: Result<String, String>)
        ensures
            match finished_output(self.spec_pending(), self.spec_output()) {
                Ok(o) => r is Ok && r->Ok_0@ == o,
                Err(e) => r is Err && r->Err_0@ == e,
            },
    {
        let mut out = self.output.clone();
        match self.lines.remainder() {
            None => Ok(out),
            Some(rest) => match parse_sse_delta(rest.as_str()) {
                Err(e) => Err(e),
                Ok(None) => Ok(out),
                Ok(Some(d)) => {
                    out.append(d.as_str());
                    Ok(out)
                },
            },
        }
    }

    /// Checked before each piece of the stream is read: a cancelled task
    /// stops with the output gathered so far; otherwise reading goes on.
    pub fn stopped(&self, cancelled: bool) -> (r: Option<StreamRead>)
        ensures
            cancelled ==> (r matches Some(StreamRead::Cancelled(o)) && o@ == self.spec_output()),
            !cancelled ==> r is None,
    {
        if cancelled {
            Some(StreamRead::Cancelled(self.output.clone()))
        } else {
            None
        }
    }

    /// Ends a stream that ran out: the finished output without its thinking
    /// blocks, or the event error.
    pub fn complete(&self) -> (r: Result<StreamRead, String>)
        ensures
            match finished_output(self.spec_pending(), self.spec_output()) {
                Ok(o) => (r matches Ok(StreamRead::Completed(c)) && c@ == spec_filter_thoughts(o)),
                Err(e) => r is Err && r->Err_0@ == e,
            },
    {
        let out = self.finish()?;
        Ok(StreamRead::Completed(filter_thoughts(out.as_str())))
    }
}

/// What a stream that ends holds: text left after the last line break is
/// read as one more line if it is not blank, and either adds its content to
/// `output` or ends with its event error.
pub open spec fn finished_output(pending: Seq<char>, output: Seq<char>) -> Result<
    Seq<char>,
    Seq<char>,
> {
    if spec_trim(pending).len() == 0 {
        Ok(output)
    } else {
        match spec_sse_delta(pending) {
            Err(e) => Err(e),
            Ok(None) => Ok(output),
            Ok(Some(d)) => Ok(output + d),
        }
    }
}

/// How reading a chunk's stream ended.
pub enum StreamRead {
    /// The stream ran out; the filtered output.
    Completed(String),
    /// The task was cancelled; the output gathered until then.
    Cancelled(String),
}

} // verus!
