//! The stream decoder: raw response bytes arrive in chunks with arbitrary
//! boundaries; complete lines are cut out, held-back partial lines are
//! prefixed to the next chunk, and each complete record becomes zero or more
//! normalized events. Decoding stops at the first completion marker.
use vstd::prelude::*;

use crate::event::SpecEvent;
use crate::event::StreamEvent;
use crate::event::views_of_events;
use crate::event::concat_text;

verus! {

/// Which of the three streaming wire formats a response body uses.
#[derive(Clone, Copy, Debug, PartialEq, Eq, Structural)]
pub enum StreamFormat {
    /// Newline-delimited JSON records `{response, done}` (local endpoint).
    Ndjson,
    /// `data: ` event lines with a delta JSON shape, ended by `data: [DONE]`.
    OpenAiSse,
    /// `data: ` event lines with typed JSON events; only content deltas
    /// carry text.
    AnthropicSse,
}

pub const LINE_FEED: u8 = 10;

pub const CARRIAGE_RETURN: u8 = 13;

/// What parsing one newline-delimited record yields: the `response` text and
/// the `done` flag of a JSON object that carries both, or nothing. A pure
/// function of the record bytes.
pub uninterp spec fn ndjson_record_of(line: Seq<u8>) -> Option<(Seq<char>, bool)>;

/// Relies on serde_json's `from_slice`, `Value::get`, `Value::as_str` and
/// `Value::as_bool`: a record parses exactly when it is a JSON object with a
/// string `response` and a boolean `done`; bytes that are not UTF-8 or not
/// JSON parse to nothing.
#[verifier::external_body]
fn parse_ndjson_record(line: &[u8]) -> (r: Option<(String, bool)>)
    ensures
        match r {
            Some(p) => ndjson_record_of(line@) == Some((p.0@, p.1)),
            None => ndjson_record_of(line@) is None,
        },
{
    let v: serde_json::Value = match serde_json::from_slice(line) {
        Ok(v) => v,
        Err(_) => return None,
    };
    let text = match v.get("response").and_then(|t| t.as_str()) {
        Some(t) => t.to_string(),
        None => return None,
    };
    match v.get("done").and_then(|d| d.as_bool()) {
        Some(done) => Some((text, done)),
        None => None,
    }
}

/// What one chat-completions event payload yields: the first choice's
/// incremental content, if the payload is JSON and that field is a string.
/// A pure function of the payload bytes.
pub uninterp spec fn openai_delta_of(payload: Seq<u8>) -> Option<Seq<char>>;

/// Relies on serde_json's `from_slice`, `Value::get` and `Value::as_str`:
/// yields `choices[0].delta.content` when present as a string; control
/// frames without that field, broken JSON and non-UTF-8 yield nothing.
#[verifier::external_body]
fn parse_openai_delta(payload: &[u8]) -> (r: Option<String>)
    ensures
        match r {
            Some(s) => openai_delta_of(payload@) == Some(s@),
            None => openai_delta_of(payload@) is None,
        },
{
    let v: serde_json::Value = match serde_json::from_slice(payload) {
        Ok(v) => v,
        Err(_) => return None,
    };
    v.get("choices")
        .and_then(|c| c.get(0))
        .and_then(|c| c.get("delta"))
        .and_then(|d| d.get("content"))
        .and_then(|t| t.as_str())
        .map(|s| s.to_string())
}

/// What one typed event payload yields: the delta text, if the event's type
/// is the content-delta kind and `delta.text` is a string. A pure function
/// of the payload bytes.
pub uninterp spec fn anthropic_delta_of(payload: Seq<u8>) -> Option<Seq<char>>;

/// Relies on serde_json's `from_slice`, `Value::get` and `Value::as_str`:
/// yields `delta.text` when the event's `type` is `content_block_delta`;
/// every other event type, broken JSON and non-UTF-8 yield nothing.
#[verifier::external_body]
fn parse_anthropic_delta(payload: &[u8]) -> (r: Option<String>)
    ensures
        match r {
            Some(s) => anthropic_delta_of(payload@) == Some(s@),
            None => anthropic_delta_of(payload@) is None,
        },
{
    let v: serde_json::Value = match serde_json::from_slice(payload) {
        Ok(v) => v,
        Err(_) => return None,
    };
    if v.get("type").and_then(|t| t.as_str()) != Some("content_block_delta") {
        return None;
    }
    v.get("delta").and_then(|d| d.get("text")).and_then(|t| t.as_str()).map(|s| s.to_string())
}

/// The bytes of the event-stream prefix `data: `.
pub open spec fn data_prefix() -> Seq<u8> {
    seq![100u8, 97u8, 116u8, 97u8, 58u8, 32u8]
}

/// The bytes of the completion sentinel line `data: [DONE]`.
pub open spec fn done_line() -> Seq<u8> {
    seq![100u8, 97u8, 116u8, 97u8, 58u8, 32u8, 91u8, 68u8, 79u8, 78u8, 69u8, 93u8]
}

/// Whether a line carries an event-stream payload.
pub open spec fn is_data_line(line: Seq<u8>) -> bool {
    line.len() >= 6 && line.take(6) == data_prefix()
}

/// The payload of an event-stream line: what follows `data: `.
pub open spec fn data_payload(line: Seq<u8>) -> Seq<u8> {
    line.skip(6)
}

/// A complete line with at most one trailing carriage return removed, as the
/// two line terminators in the wild are bare and carriage-return-newline.
pub open spec fn strip_cr(line: Seq<u8>) -> Seq<u8> {
    if line.len() > 0 && line.last() == CARRIAGE_RETURN {
        line.drop_last()
    } else {
        line
    }
}

/// The events one complete record line yields under a format.
pub open spec fn line_events(f: StreamFormat, line: Seq<u8>) -> Seq<SpecEvent> {
    match f {
        StreamFormat::Ndjson => match ndjson_record_of(line) {
            Some(record) => if record.1 {
                seq![SpecEvent::TextDelta(record.0), SpecEvent::Completed]
            } else {
                seq![SpecEvent::TextDelta(record.0)]
            },
            None => Seq::empty(),
        },
        StreamFormat::OpenAiSse => if line == done_line() {
            seq![SpecEvent::Completed]
        } else if is_data_line(line) {
            match openai_delta_of(data_payload(line)) {
                Some(t) => seq![SpecEvent::TextDelta(t)],
                None => Seq::empty(),
            }
        } else {
            Seq::empty()
        },
        StreamFormat::AnthropicSse => if is_data_line(line) {
            match anthropic_delta_of(data_payload(line)) {
                Some(t) => seq![SpecEvent::TextDelta(t)],
                None => Seq::empty(),
            }
        } else {
            Seq::empty()
        },
    }
}

/// Whether an event sequence ends a session: nonempty and closed by a
/// completion.
pub open spec fn is_terminal_seq(events: Seq<SpecEvent>) -> bool {
    events.len() > 0 && events.last() is Completed
}

/// Splits buffered bytes into complete lines: `lines` and `partial`
/// accumulate the state reached so far, and each line-feed byte closes a
/// line (with any trailing carriage return removed).
pub open spec fn split_scan(
    lines: Seq<Seq<u8>>,
    partial: Seq<u8>,
    input: Seq<u8>,
) -> (Seq<Seq<u8>>, Seq<u8>)
    decreases input.len(),
{
    if input.len() == 0 {
        (lines, partial)
    } else if input[0] == LINE_FEED {
        split_scan(lines.push(strip_cr(partial)), Seq::empty(), input.drop_first())
    } else {
        split_scan(lines, partial.push(input[0]), input.drop_first())
    }
}

/// The complete lines of a byte stream, in order.
pub open spec fn lines_of(s: Seq<u8>) -> Seq<Seq<u8>> {
    split_scan(Seq::empty(), Seq::empty(), s).0
}

/// The held-back partial line after the last line feed of a byte stream.
pub open spec fn rest_of(s: Seq<u8>) -> Seq<u8> {
    split_scan(Seq::empty(), Seq::empty(), s).1
}

/// The events of a sequence of complete lines, stopping at the first line
/// whose events end in a completion: records after it are not processed.
pub open spec fn events_from_lines(f: StreamFormat, lines: Seq<Seq<u8>>) -> Seq<SpecEvent>
    decreases lines.len(),
{
    if lines.len() == 0 {
        Seq::empty()
    } else {
        let head = line_events(f, lines[0]);
        if is_terminal_seq(head) {
            head
        } else {
            head + events_from_lines(f, lines.drop_first())
        }
    }
}

/// All events a byte stream has yielded so far: the events of its complete
/// lines, cut off at the first completion.
pub open spec fn decoded(f: StreamFormat, s: Seq<u8>) -> Seq<SpecEvent> {
    events_from_lines(f, lines_of(s))
}

/// The answer text of a byte stream: its deltas' texts, concatenated in
/// arrival order.
pub open spec fn answer_of(f: StreamFormat, s: Seq<u8>) -> Seq<char> {
    concat_text(decoded(f, s))
}

proof fn lemma_split_scan_append(lines: Seq<Seq<u8>>, partial: Seq<u8>, a: Seq<u8>, b: Seq<u8>)
    ensures
        split_scan(lines, partial, a + b) == split_scan(
            split_scan(lines, partial, a).0,
            split_scan(lines, partial, a).1,
            b,
        ),
    decreases a.len(),
{
    if a.len() == 0 {
        assert(a + b =~= b);
    } else {
        assert((a + b).drop_first() =~= a.drop_first() + b);
        assert((a + b)[0] == a[0]);
        if a[0] == LINE_FEED {
            lemma_split_scan_append(lines.push(strip_cr(partial)), Seq::empty(), a.drop_first(), b);
        } else {
            lemma_split_scan_append(lines, partial.push(a[0]), a.drop_first(), b);
        }
    }
}

proof fn lemma_split_scan_acc(lines: Seq<Seq<u8>>, partial: Seq<u8>, s: Seq<u8>)
    ensures
        split_scan(lines, partial, s).0 == lines + split_scan(Seq::empty(), partial, s).0,
        split_scan(lines, partial, s).1 == split_scan(Seq::empty(), partial, s).1,
    decreases s.len(),
{
    if s.len() == 0 {
        assert(split_scan(lines, partial, s).0 =~= lines + split_scan(Seq::empty(), partial, s).0);
    } else if s[0] == LINE_FEED {
        let x = strip_cr(partial);
        lemma_split_scan_acc(lines.push(x), Seq::empty(), s.drop_first());
        lemma_split_scan_acc(seq![x], Seq::empty(), s.drop_first());
        assert(lines.push(x) + split_scan(Seq::empty(), Seq::empty(), s.drop_first()).0 =~= lines
            + (seq![x] + split_scan(Seq::empty(), Seq::empty(), s.drop_first()).0));
    } else {
        lemma_split_scan_acc(lines, partial.push(s[0]), s.drop_first());
    }
}

proof fn lemma_scan_step(s: Seq<u8>, b: u8)
    ensures
        lines_of(s.push(b)) == if b == LINE_FEED {
            lines_of(s).push(strip_cr(rest_of(s)))
        } else {
            lines_of(s)
        },
        rest_of(s.push(b)) == if b == LINE_FEED {
            Seq::<u8>::empty()
        } else {
            rest_of(s).push(b)
        },
{
    assert(s.push(b) =~= s + seq![b]);
    lemma_split_scan_append(Seq::empty(), Seq::empty(), s, seq![b]);
    let st = split_scan(Seq::<Seq<u8>>::empty(), Seq::<u8>::empty(), s);
    assert(seq![b].drop_first() =~= Seq::<u8>::empty());
    assert(split_scan(st.0.push(strip_cr(st.1)), Seq::<u8>::empty(), Seq::<u8>::empty()) == (
    st.0.push(strip_cr(st.1)),
    Seq::<u8>::empty(),
    ));
    assert(split_scan(st.0, st.1.push(b), Seq::<u8>::empty()) == (st.0, st.1.push(b)));
    assert(split_scan(st.0, st.1, seq![b]) == if b == LINE_FEED {
        (st.0.push(strip_cr(st.1)), Seq::<u8>::empty())
    } else {
        (st.0, st.1.push(b))
    });
}

proof fn lemma_events_snoc(f: StreamFormat, lines: Seq<Seq<u8>>, line: Seq<u8>)
    requires
        !is_terminal_seq(events_from_lines(f, lines)),
    ensures
        events_from_lines(f, lines.push(line)) == events_from_lines(f, lines) + line_events(
            f,
            line,
        ),
        is_terminal_seq(events_from_lines(f, lines.push(line))) == is_terminal_seq(
            line_events(f, line),
        ),
    decreases lines.len(),
{
    let whole = events_from_lines(f, lines) + line_events(f, line);
    if lines.len() == 0 {
        assert(lines.push(line)[0] == line);
        assert(lines.push(line).drop_first() =~= Seq::<Seq<u8>>::empty());
        assert(events_from_lines(f, Seq::<Seq<u8>>::empty()) == Seq::<SpecEvent>::empty());
        assert(events_from_lines(f, lines.push(line)) =~= whole);
    } else {
        let head = line_events(f, lines[0]);
        if is_terminal_seq(head) {
            assert(false);
        }
        assert(lines.push(line)[0] == lines[0]);
        assert(lines.push(line).drop_first() =~= lines.drop_first().push(line));
        if events_from_lines(f, lines.drop_first()).len() > 0 {
            assert(events_from_lines(f, lines).last() == events_from_lines(
                f,
                lines.drop_first(),
            ).last());
        }
        lemma_events_snoc(f, lines.drop_first(), line);
        assert(events_from_lines(f, lines.push(line)) =~= whole);
    }
    if line_events(f, line).len() == 0 {
        assert(whole =~= events_from_lines(f, lines));
    } else {
        assert(whole.last() == line_events(f, line).last());
    }
}

proof fn lemma_events_append(f: StreamFormat, l1: Seq<Seq<u8>>, l2: Seq<Seq<u8>>)
    requires
        !is_terminal_seq(events_from_lines(f, l1)),
    ensures
        events_from_lines(f, l1 + l2) == events_from_lines(f, l1) + events_from_lines(f, l2),
    decreases l1.len(),
{
    if l1.len() == 0 {
        assert(l1 + l2 =~= l2);
        assert(events_from_lines(f, l1) + events_from_lines(f, l2) =~= events_from_lines(f, l2));
    } else {
        let head = line_events(f, l1[0]);
        if is_terminal_seq(head) {
            assert(false);
        }
        if events_from_lines(f, l1.drop_first()).len() > 0 {
            assert(events_from_lines(f, l1).last() == events_from_lines(f, l1.drop_first()).last());
        }
        assert((l1 + l2)[0] == l1[0]);
        assert((l1 + l2).drop_first() =~= l1.drop_first() + l2);
        lemma_events_append(f, l1.drop_first(), l2);
        assert(events_from_lines(f, l1 + l2) =~= events_from_lines(f, l1) + events_from_lines(
            f,
            l2,
        ));
    }
}

proof fn lemma_events_terminal_stable(f: StreamFormat, lines: Seq<Seq<u8>>, more: Seq<Seq<u8>>)
    requires
        is_terminal_seq(events_from_lines(f, lines)),
    ensures
        events_from_lines(f, lines + more) == events_from_lines(f, lines),
    decreases lines.len(),
{
    assert(lines.len() > 0);
    let head = line_events(f, lines[0]);
    assert((lines + more)[0] == lines[0]);
    assert((lines + more).drop_first() =~= lines.drop_first() + more);
    if is_terminal_seq(head) {
    } else {
        if events_from_lines(f, lines.drop_first()).len() == 0 {
            assert(events_from_lines(f, lines) =~= head);
            assert(false);
        }
        assert(events_from_lines(f, lines).last() == events_from_lines(
            f,
            lines.drop_first(),
        ).last());
        lemma_events_terminal_stable(f, lines.drop_first(), more);
    }
}

/// Once a stream has decoded to a completion, further bytes change nothing.
pub proof fn lemma_decoded_terminal_stable(f: StreamFormat, a: Seq<u8>, b: Seq<u8>)
    requires
        is_terminal_seq(decoded(f, a)),
    ensures
        decoded(f, a + b) == decoded(f, a),
{
    lemma_split_scan_append(Seq::empty(), Seq::empty(), a, b);
    lemma_split_scan_acc(lines_of(a), rest_of(a), b);
    lemma_events_terminal_stable(f, lines_of(a), split_scan(Seq::empty(), rest_of(a), b).0);
}

fn is_done_line_exec(line: &Vec<u8>) -> (r: bool)
    ensures
        r == (line@ == done_line()),
{
    if line.len() != 12 {
        return false;
    }
    let ok = line[0] == 100 && line[1] == 97 && line[2] == 116 && line[3] == 97 && line[4] == 58
        && line[5] == 32 && line[6] == 91 && line[7] == 68 && line[8] == 79 && line[9] == 78
        && line[10] == 69 && line[11] == 93;
    proof {
        if ok {
            assert(line@ =~= done_line());
        }
    }
    ok
}

fn is_data_line_exec(line: &Vec<u8>) -> (r: bool)
    ensures
        r == is_data_line(line@),
{
    if line.len() < 6 {
        return false;
    }
    let ok = line[0] == 100 && line[1] == 97 && line[2] == 116 && line[3] == 97 && line[4] == 58
        && line[5] == 32;
    proof {
        if ok {
            assert(line@.take(6) =~= data_prefix());
        } else {
            assert(forall|i: int| 0 <= i < 6 ==> line@.take(6)[i] == line@[i]);
        }
    }
    ok
}

fn data_payload_exec(line: &Vec<u8>) -> (r: Vec<u8>)
    requires
        line@.len() >= 6,
    ensures
        r@ == data_payload(line@),
{
    let mut out: Vec<u8> = Vec::new();
    let mut i: usize = 6;
    while i < line.len()
        invariant
            6 <= i <= line@.len(),
            out@ == line@.subrange(6, i as int),
        decreases line@.len() - i,
    {
        out.push(line[i]);
        proof {
            assert(line@.subrange(6, i + 1 as int) =~= line@.subrange(6, i as int).push(
                line@[i as int],
            ));
        }
        i = i + 1;
    }
    proof {
        assert(line@.skip(6) =~= line@.subrange(6, line@.len() as int));
    }
    out
}

/// The events one complete (terminator-stripped) line yields.
fn decode_line(f: StreamFormat, line: &Vec<u8>) -> (events: Vec<StreamEvent>)
    ensures
        views_of_events(events@) == line_events(f, line@),
{
    let mut events: Vec<StreamEvent> = Vec::new();
    match f {
        StreamFormat::Ndjson => {
            match parse_ndjson_record(line.as_slice()) {
                Some((text, done)) => {
                    events.push(StreamEvent::TextDelta(text));
                    if done {
                        events.push(StreamEvent::Completed);
                    }
                },
                None => {},
            }
        },
        StreamFormat::OpenAiSse => {
            if is_done_line_exec(line) {
                events.push(StreamEvent::Completed);
            } else if is_data_line_exec(line) {
                let payload = data_payload_exec(line);
                match parse_openai_delta(payload.as_slice()) {
                    Some(t) => {
                        events.push(StreamEvent::TextDelta(t));
                    },
                    None => {},
                }
            }
        },
        StreamFormat::AnthropicSse => {
            if is_data_line_exec(line) {
                let payload = data_payload_exec(line);
                match parse_anthropic_delta(payload.as_slice()) {
                    Some(t) => {
                        events.push(StreamEvent::TextDelta(t));
                    },
                    None => {},
                }
            }
        },
    }
    proof {
        assert(views_of_events(events@) =~= line_events(f, line@));
    }
    events
}

/// The incremental decoder for one response body: buffers bytes until a line
/// is complete, hands each complete record to the format's parser, and goes
/// silent once a completion has been decoded.
pub struct StreamDecoder {
    format: StreamFormat,
    buf: Vec<u8>,
    finished: bool,
    consumed: Ghost<Seq<u8>>,
}

impl StreamDecoder {
    /// The wire format this decoder reads.
    pub closed spec fn spec_format(&self) -> StreamFormat {
        self.format
    }

    /// Every byte this decoder has been fed, in order.
    pub closed spec fn spec_consumed(&self) -> Seq<u8> {
        self.consumed@
    }

    /// Whether a completion has been decoded.
    pub closed spec fn spec_finished(&self) -> bool {
        self.finished
    }

    /// The decoder's held-back bytes are exactly the stream's unterminated
    /// tail, and it is finished exactly when the stream has completed.
    pub closed spec fn wf(&self) -> bool {
        &&& !self.finished ==> self.buf@ == rest_of(self.consumed@)
        &&& self.finished == is_terminal_seq(decoded(self.format, self.consumed@))
    }

    /// A fresh decoder for one response body.
    pub fn new(format: StreamFormat) -> (d: StreamDecoder)
        ensures
            d.wf(),
            d.spec_format() == format,
            d.spec_consumed() == Seq::<u8>::empty(),
            !d.spec_finished(),
    {
        let d = StreamDecoder {
            format,
            buf: Vec::new(),
            finished: false,
            consumed: Ghost(Seq::empty()),
        };
        proof {
            assert(decoded(format, Seq::<u8>::empty()) =~= Seq::<SpecEvent>::empty());
        }
        d
    }

    /// Whether a completion has been decoded; after that, further chunks
    /// yield nothing.
    pub fn is_finished(&self) -> (r: bool)
        ensures
            r == self.spec_finished(),
    {
        self.finished
    }

    /// Consumes one arriving chunk and returns the newly decoded events:
    /// exactly the events of the whole stream so far that were not yet
    /// emitted, regardless of where the chunk boundaries fall.
    pub fn feed(&mut self, chunk: &[u8]) -> (events: Vec<StreamEvent>)
        requires
            old(self).wf(),
        ensures
            final(self).wf(),
            final(self).spec_format() == old(self).spec_format(),
            final(self).spec_consumed() == old(self).spec_consumed() + chunk@,
            decoded(final(self).spec_format(), final(self).spec_consumed()) == decoded(
                old(self).spec_format(),
                old(self).spec_consumed(),
            ) + views_of_events(events@),
            final(self).spec_finished() == is_terminal_seq(
                decoded(final(self).spec_format(), final(self).spec_consumed()),
            ),
    {
        let ghost f = self.format;
        let ghost c0 = self.consumed@;
        let mut events: Vec<StreamEvent> = Vec::new();
        proof {
            assert(views_of_events(events@) =~= Seq::<SpecEvent>::empty());
        }
        if self.finished {
            proof {
                lemma_decoded_terminal_stable(f, c0, chunk@);
            }
            self.consumed = Ghost(c0 + chunk@);
            return events;
        }
        let mut i: usize = 0;
        proof {
            assert(c0 + chunk@.take(0) =~= c0);
        }
        while i < chunk.len() && !self.finished
            invariant
                i <= chunk@.len(),
                self.format == f,
                self.consumed@ == c0,
                !self.finished ==> self.buf@ == rest_of(c0 + chunk@.take(i as int)),
                self.finished == is_terminal_seq(decoded(f, c0 + chunk@.take(i as int))),
                decoded(f, c0 + chunk@.take(i as int)) == decoded(f, c0) + views_of_events(
                    events@,
                ),
            decreases chunk@.len() - i,
        {
            let b = chunk[i];
            proof {
                assert((c0 + chunk@.take(i as int)).push(b) =~= c0 + chunk@.take(i + 1 as int));
                lemma_scan_step(c0 + chunk@.take(i as int), b);
            }
            if b == LINE_FEED {
                let ghost raw = self.buf@;
                if self.buf.len() > 0 && self.buf[self.buf.len() - 1] == CARRIAGE_RETURN {
                    let _dropped = self.buf.pop();
                }
                proof {
                    assert(self.buf@ =~= strip_cr(raw));
                }
                let fmt = self.format;
                let mut line_evs = decode_line(fmt, &self.buf);
                let n = line_evs.len();
                let terminal = n > 0 && matches!(&line_evs[n - 1], StreamEvent::Completed);
                proof {
                    let lines = lines_of(c0 + chunk@.take(i as int));
                    let line = strip_cr(raw);
                    lemma_events_snoc(f, lines, line);
                    assert(views_of_events(line_evs@).len() == n);
                    if n > 0 {
                        assert(views_of_events(line_evs@).last() == line_evs@[n - 1]@);
                    }
                    assert(terminal == is_terminal_seq(line_events(f, line)));
                    crate::event::lemma_views_append(events@, line_evs@);
                }
                if terminal {
                    self.finished = true;
                }
                events.append(&mut line_evs);
                self.buf.clear();
            } else {
                self.buf.push(b);
            }
            i = i + 1;
        }
        proof {
            if i == chunk@.len() {
                assert(chunk@.take(i as int) =~= chunk@);
                assert(c0 + chunk@.take(i as int) == c0 + chunk@);
            } else {
                assert((c0 + chunk@.take(i as int)) + chunk@.skip(i as int) =~= c0 + chunk@);
                lemma_decoded_terminal_stable(f, c0 + chunk@.take(i as int), chunk@.skip(i as int));
            }
        }
        self.consumed = Ghost(c0 + chunk@);
        events
    }
}

/// Decoding is incremental: what a byte stream has yielded is a prefix of
/// what any extension of it yields, so chunk boundaries cannot reorder,
/// duplicate or drop events.
pub proof fn lemma_decoded_extends(f: StreamFormat, a: Seq<u8>, b: Seq<u8>)
    ensures
        decoded(f, a) == decoded(f, a + b).take(decoded(f, a).len() as int),
{
    lemma_split_scan_append(Seq::empty(), Seq::empty(), a, b);
    lemma_split_scan_acc(lines_of(a), rest_of(a), b);
    let more = split_scan(Seq::empty(), rest_of(a), b).0;
    if is_terminal_seq(decoded(f, a)) {
        lemma_events_terminal_stable(f, lines_of(a), more);
        assert(decoded(f, a) =~= decoded(f, a + b).take(decoded(f, a).len() as int));
    } else {
        lemma_events_append(f, lines_of(a), more);
        assert(decoded(f, a) =~= decoded(f, a + b).take(decoded(f, a).len() as int));
    }
}

proof fn lemma_line_events_shape(f: StreamFormat, l: Seq<u8>)
    ensures
        ({
            let e = line_events(f, l);
            forall|k: int|
                0 <= k < e.len() ==> (e[k] is TextDelta || (k == e.len() - 1
                    && e[k] is Completed))
        }),
{
    let e = line_events(f, l);
    assert forall|k: int| 0 <= k < e.len() implies (e[k] is TextDelta || (k == e.len() - 1
        && e[k] is Completed)) by {
        match f {
            StreamFormat::Ndjson => {
                match ndjson_record_of(l) {
                    Some(record) => {},
                    None => {},
                }
            },
            StreamFormat::OpenAiSse => {},
            StreamFormat::AnthropicSse => {},
        }
    }
}

/// Decoded events are deltas, except that the last may be the one
/// completion; a decode-level failure never appears among them.
pub proof fn lemma_decoded_shape(f: StreamFormat, s: Seq<u8>)
    ensures
        ({
            let e = decoded(f, s);
            forall|k: int|
                0 <= k < e.len() ==> (e[k] is TextDelta || (k == e.len() - 1
                    && e[k] is Completed))
        }),
{
    lemma_events_shape(f, lines_of(s));
}

proof fn lemma_events_shape(f: StreamFormat, lines: Seq<Seq<u8>>)
    ensures
        ({
            let e = events_from_lines(f, lines);
            forall|k: int|
                0 <= k < e.len() ==> (e[k] is TextDelta || (k == e.len() - 1
                    && e[k] is Completed))
        }),
    decreases lines.len(),
{
    if lines.len() == 0 {
    } else {
        let head = line_events(f, lines[0]);
        lemma_line_events_shape(f, lines[0]);
        if is_terminal_seq(head) {
        } else {
            lemma_events_shape(f, lines.drop_first());
            let e = events_from_lines(f, lines);
            let tail = events_from_lines(f, lines.drop_first());
            assert forall|k: int| 0 <= k < e.len() implies (e[k] is TextDelta || (k == e.len() - 1
                && e[k] is Completed)) by {
                if k < head.len() {
                    assert(e[k] == head[k]);
                    assert(head[k] is TextDelta || (k == head.len() - 1 && head[k] is Completed));
                } else {
                    assert(e[k] == tail[k - head.len()]);
                }
            }
        }
    }
}

/// A `data: [DONE]` line yields exactly one completion and ends decoding: no
/// record after it in the same stream contributes any event.
pub proof fn lemma_done_line_ends_stream(lines: Seq<Seq<u8>>, i: int)
    requires
        0 <= i < lines.len(),
        lines[i] == done_line(),
        forall|j: int|
            0 <= j < i ==> !is_terminal_seq(
                line_events(StreamFormat::OpenAiSse, #[trigger] lines[j]),
            ),
    ensures
        events_from_lines(StreamFormat::OpenAiSse, lines) == events_from_lines(
            StreamFormat::OpenAiSse,
            lines.take(i),
        ) + seq![SpecEvent::Completed],
    decreases i,
{
    let f = StreamFormat::OpenAiSse;
    assert(line_events(f, done_line()) =~= seq![SpecEvent::Completed]);
    if i == 0 {
        assert(lines.take(0) =~= Seq::<Seq<u8>>::empty());
        assert(events_from_lines(f, lines) =~= events_from_lines(f, lines.take(0)) + seq![
            SpecEvent::Completed,
        ]);
    } else {
        let head = line_events(f, lines[0]);
        assert(!is_terminal_seq(head));
        assert(forall|j: int|
            0 <= j < i - 1 ==> lines.drop_first()[j] == #[trigger] lines[j + 1]);
        lemma_done_line_ends_stream(lines.drop_first(), i - 1);
        assert(lines.take(i)[0] == lines[0]);
        assert(lines.take(i).drop_first() =~= lines.drop_first().take(i - 1));
        assert(events_from_lines(f, lines) =~= events_from_lines(f, lines.take(i)) + seq![
            SpecEvent::Completed,
        ]);
    }
}

} // verus!
