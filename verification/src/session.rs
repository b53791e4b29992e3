//! The inference session: one request's life from sending through streaming
//! to a terminal state, racing arriving chunks against a cancellation
//! signal. The session records what it has handed out for delivery, so that
//! the delivered events are provably exactly what the byte stream decodes to.
use vstd::prelude::*;

use crate::decode::StreamDecoder;
use crate::decode::StreamFormat;
use crate::decode::answer_of;
use crate::decode::decoded;
use crate::decode::is_terminal_seq;
use crate::decode::lemma_decoded_shape;
use crate::event::ErrorKind;
use crate::event::SpecEvent;
use crate::event::StreamEvent;
use crate::event::concat_text;
use crate::event::lemma_concat_text_append;
use crate::event::views_of_events;
use crate::request::RequestError;

verus! {

/// Where a session stands; the last three states are terminal.
#[derive(Clone, Copy, Debug, PartialEq, Eq, Structural)]
pub enum SessionState {
    /// The request is being established.
    Sending,
    /// The response body is being read and decoded.
    Streaming,
    /// The stream ended cleanly: by a decoded completion or by the body
    /// closing without one (treated as a graceful end).
    Completed,
    /// The cancellation signal was observed; nothing further is delivered.
    Cancelled,
    /// Establishing the request failed, or the transport failed mid-stream.
    Failed,
}

/// A single-use, single-consumer cancellation signal: once fired it stays
/// fired, so firing it twice has the same effect as firing it once.
pub struct CancellationToken {
    fired: bool,
}

impl CancellationToken {
    /// Whether the signal has been fired.
    pub closed spec fn spec_fired(&self) -> bool {
        self.fired
    }

    /// A fresh, unfired token.
    pub fn new() -> (t: CancellationToken)
        ensures
            !t.spec_fired(),
    {
        CancellationToken { fired: false }
    }

    /// Fires the signal; the outcome does not depend on how often it was
    /// fired before.
    pub fn fire(&mut self)
        ensures
            final(self).spec_fired(),
    {
        self.fired = true;
    }

    /// Whether the signal has been fired.
    pub fn is_fired(&self) -> (r: bool)
        ensures
            r == self.spec_fired(),
    {
        self.fired
    }
}

/// One in-flight request: a state machine fed by the driver with what
/// happened (send outcome, chunk, cancellation, stream end or error), handing
/// back the events to forward to the caller's sink.
pub struct InferenceSession {
    decoder: StreamDecoder,
    state: SessionState,
    delivered: Ghost<Seq<SpecEvent>>,
}

impl InferenceSession {
    /// Where the session stands.
    pub closed spec fn spec_state(&self) -> SessionState {
        self.state
    }

    /// The wire format of the response body.
    pub closed spec fn spec_format(&self) -> StreamFormat {
        self.decoder.spec_format()
    }

    /// Every response-body byte the session has consumed, in order.
    pub closed spec fn spec_consumed(&self) -> Seq<u8> {
        self.decoder.spec_consumed()
    }

    /// Every event the session has handed out for delivery, in order.
    pub closed spec fn spec_delivered(&self) -> Seq<SpecEvent> {
        self.delivered@
    }

    /// The session's invariant: what was delivered is exactly what the
    /// consumed bytes decode to, plus — in a terminal state — at most the
    /// one terminal event that ended it.
    pub closed spec fn wf(&self) -> bool {
        &&& self.decoder.wf()
        &&& match self.state {
            SessionState::Sending => self.delivered@ == Seq::<SpecEvent>::empty()
                && self.decoder.spec_consumed() == Seq::<u8>::empty(),
            SessionState::Streaming => self.delivered@ == decoded(
                self.decoder.spec_format(),
                self.decoder.spec_consumed(),
            ) && !is_terminal_seq(self.delivered@),
            SessionState::Cancelled => self.delivered@ == decoded(
                self.decoder.spec_format(),
                self.decoder.spec_consumed(),
            ) && !is_terminal_seq(self.delivered@),
            SessionState::Completed => {
                let events = decoded(self.decoder.spec_format(), self.decoder.spec_consumed());
                (self.delivered@ == events && is_terminal_seq(events)) || (self.delivered@ == events
                    + seq![SpecEvent::Completed] && !is_terminal_seq(events))
            },
            SessionState::Failed => {
                let events = decoded(self.decoder.spec_format(), self.decoder.spec_consumed());
                (self.delivered@ == events && self.decoder.spec_consumed()
                    == Seq::<u8>::empty()) || (exists|m: Seq<char>|
                    self.delivered@ == events + seq![SpecEvent::Failed(ErrorKind::StreamError, m)]
                        && !is_terminal_seq(events))
            },
        }
    }

    /// A fresh session about to send its request.
    pub fn new(format: StreamFormat) -> (s: InferenceSession)
        ensures
            s.wf(),
            s.spec_state() == SessionState::Sending,
            s.spec_format() == format,
            s.spec_consumed() == Seq::<u8>::empty(),
            s.spec_delivered() == Seq::<SpecEvent>::empty(),
    {
        InferenceSession {
            decoder: StreamDecoder::new(format),
            state: SessionState::Sending,
            delivered: Ghost(Seq::empty()),
        }
    }

    /// Where the session stands, for the driver.
    pub fn state(&self) -> (s: SessionState)
        ensures
            s == self.spec_state(),
    {
        self.state
    }

    /// The request was established: streaming begins. In any other state
    /// than `Sending` this changes nothing.
    pub fn on_send_success(&mut self)
        requires
            old(self).wf(),
        ensures
            final(self).wf(),
            final(self).spec_format() == old(self).spec_format(),
            final(self).spec_consumed() == old(self).spec_consumed(),
            final(self).spec_delivered() == old(self).spec_delivered(),
            final(self).spec_state() == if old(self).spec_state() is Sending {
                SessionState::Streaming
            } else {
                old(self).spec_state()
            },
    {
        if matches!(self.state, SessionState::Sending) {
            self.state = SessionState::Streaming;
            proof {
                lemma_decoded_empty(self.decoder.spec_format());
            }
        }
    }

    /// The request could not be established: the session fails with a
    /// network error, handed back to the caller directly rather than through
    /// the sink. In any other state than `Sending` only the error is built
    /// and nothing changes.
    pub fn on_send_failure(&mut self, message: String) -> (err: RequestError)
        requires
            old(self).wf(),
        ensures
            final(self).wf(),
            err.kind == ErrorKind::NetworkError,
            err.message@ == message@,
            final(self).spec_format() == old(self).spec_format(),
            final(self).spec_consumed() == old(self).spec_consumed(),
            final(self).spec_delivered() == old(self).spec_delivered(),
            final(self).spec_state() == if old(self).spec_state() is Sending {
                SessionState::Failed
            } else {
                old(self).spec_state()
            },
    {
        if matches!(self.state, SessionState::Sending) {
            self.state = SessionState::Failed;
            proof {
                lemma_decoded_empty(self.decoder.spec_format());
            }
        }
        RequestError { kind: ErrorKind::NetworkError, message }
    }

    /// The cancellation signal was observed: the session goes silent. No
    /// event is delivered now or later — cancellation is silent by design —
    /// and events decoded but not yet delivered are discarded with the rest.
    /// In a terminal state this changes nothing, so cancelling twice has the
    /// effect of cancelling once.
    pub fn on_cancel(&mut self)
        requires
            old(self).wf(),
        ensures
            final(self).wf(),
            final(self).spec_format() == old(self).spec_format(),
            final(self).spec_consumed() == old(self).spec_consumed(),
            final(self).spec_delivered() == old(self).spec_delivered(),
            final(self).spec_state() == if old(self).spec_state() is Sending || old(
                self,
            ).spec_state() is Streaming {
                SessionState::Cancelled
            } else {
                old(self).spec_state()
            },
    {
        if matches!(self.state, SessionState::Sending) || matches!(
            self.state,
            SessionState::Streaming,
        ) {
            self.state = SessionState::Cancelled;
            proof {
                lemma_decoded_empty(self.decoder.spec_format());
            }
        }
    }

    /// A chunk of the response body arrived: decode it and hand back the new
    /// events, ending the session if one of them is the completion. In any
    /// other state than `Streaming` the chunk is discarded and nothing is
    /// delivered.
    pub fn on_chunk(&mut self, chunk: &[u8]) -> (events: Vec<StreamEvent>)
        requires
            old(self).wf(),
        ensures
            final(self).wf(),
            final(self).spec_format() == old(self).spec_format(),
            old(self).spec_state() is Streaming ==> {
                &&& final(self).spec_consumed() == old(self).spec_consumed() + chunk@
                &&& final(self).spec_delivered() == old(self).spec_delivered() + views_of_events(
                    events@,
                )
                &&& final(self).spec_delivered() == decoded(
                    final(self).spec_format(),
                    final(self).spec_consumed(),
                )
                &&& final(self).spec_state() == if is_terminal_seq(
                    final(self).spec_delivered(),
                ) {
                    SessionState::Completed
                } else {
                    SessionState::Streaming
                }
            },
            !(old(self).spec_state() is Streaming) ==> {
                &&& final(self).spec_consumed() == old(self).spec_consumed()
                &&& final(self).spec_delivered() == old(self).spec_delivered()
                &&& final(self).spec_state() == old(self).spec_state()
                &&& events@.len() == 0
            },
    {
        if matches!(self.state, SessionState::Streaming) {
            let events = self.decoder.feed(chunk);
            self.delivered = Ghost(self.delivered@ + views_of_events(events@));
            if self.decoder.is_finished() {
                self.state = SessionState::Completed;
            }
            events
        } else {
            Vec::new()
        }
    }

    /// The response body ended without a decoded completion: treated as a
    /// graceful end, delivering the one terminal completion event. In any
    /// other state than `Streaming` this changes nothing and delivers
    /// nothing.
    pub fn on_stream_end(&mut self) -> (events: Vec<StreamEvent>)
        requires
            old(self).wf(),
        ensures
            final(self).wf(),
            final(self).spec_format() == old(self).spec_format(),
            final(self).spec_consumed() == old(self).spec_consumed(),
            old(self).spec_state() is Streaming ==> {
                &&& views_of_events(events@) == seq![SpecEvent::Completed]
                &&& final(self).spec_delivered() == old(self).spec_delivered() + seq![
                    SpecEvent::Completed,
                ]
                &&& final(self).spec_state() == SessionState::Completed
            },
            !(old(self).spec_state() is Streaming) ==> {
                &&& final(self).spec_delivered() == old(self).spec_delivered()
                &&& final(self).spec_state() == old(self).spec_state()
                &&& events@.len() == 0
            },
    {
        let mut events: Vec<StreamEvent> = Vec::new();
        if matches!(self.state, SessionState::Streaming) {
            self.state = SessionState::Completed;
            events.push(StreamEvent::Completed);
            self.delivered = Ghost(self.delivered@ + seq![SpecEvent::Completed]);
            proof {
                assert(views_of_events(events@) =~= seq![SpecEvent::Completed]);
            }
        } else {
            proof {
                assert(views_of_events(events@) =~= Seq::<SpecEvent>::empty());
            }
        }
        events
    }

    /// The transport failed mid-stream: the session fails, and — unlike
    /// record-level decode failures — this is delivered through the sink as
    /// the one terminal failure event. In any other state than `Streaming`
    /// this changes nothing and delivers nothing.
    pub fn on_stream_error(&mut self, message: String) -> (events: Vec<StreamEvent>)
        requires
            old(self).wf(),
        ensures
            final(self).wf(),
            final(self).spec_format() == old(self).spec_format(),
            final(self).spec_consumed() == old(self).spec_consumed(),
            old(self).spec_state() is Streaming ==> {
                &&& views_of_events(events@) == seq![
                    SpecEvent::Failed(ErrorKind::StreamError, message@),
                ]
                &&& final(self).spec_delivered() == old(self).spec_delivered() + seq![
                    SpecEvent::Failed(ErrorKind::StreamError, message@),
                ]
                &&& final(self).spec_state() == SessionState::Failed
            },
            !(old(self).spec_state() is Streaming) ==> {
                &&& final(self).spec_delivered() == old(self).spec_delivered()
                &&& final(self).spec_state() == old(self).spec_state()
                &&& events@.len() == 0
            },
    {
        let mut events: Vec<StreamEvent> = Vec::new();
        if matches!(self.state, SessionState::Streaming) {
            self.state = SessionState::Failed;
            let ghost m = message@;
            events.push(StreamEvent::Failed(ErrorKind::StreamError, message));
            self.delivered = Ghost(
                self.delivered@ + seq![SpecEvent::Failed(ErrorKind::StreamError, m)],
            );
            proof {
                assert(views_of_events(events@) =~= seq![
                    SpecEvent::Failed(ErrorKind::StreamError, m),
                ]);
            }
        } else {
            proof {
                assert(views_of_events(events@) =~= Seq::<SpecEvent>::empty());
            }
        }
        events
    }
}

proof fn lemma_decoded_empty(f: StreamFormat)
    ensures
        decoded(f, Seq::<u8>::empty()) == Seq::<SpecEvent>::empty(),
        !is_terminal_seq(decoded(f, Seq::<u8>::empty())),
{
    assert(decoded(f, Seq::<u8>::empty()) =~= Seq::<SpecEvent>::empty());
}

/// For every completed session, whatever the provider family, concatenating
/// the texts of the delivered deltas in delivery order reproduces the full
/// answer text of the consumed byte stream — no reordering, gaps or
/// duplication.
pub proof fn lemma_completed_session_answer(s: &InferenceSession)
    requires
        s.wf(),
        s.spec_state() is Completed,
    ensures
        concat_text(s.spec_delivered()) == answer_of(s.spec_format(), s.spec_consumed()),
{
    let events = decoded(s.spec_format(), s.spec_consumed());
    if s.spec_delivered() == events + seq![SpecEvent::Completed] {
        lemma_concat_text_append(events, seq![SpecEvent::Completed]);
        assert(seq![SpecEvent::Completed].drop_first() =~= Seq::<SpecEvent>::empty());
        assert(concat_text(Seq::<SpecEvent>::empty()) == Seq::<char>::empty());
        assert(concat_text(seq![SpecEvent::Completed]) =~= Seq::<char>::empty());
        assert(concat_text(events) + Seq::<char>::empty() =~= concat_text(events));
    }
}

/// A cancelled session delivered only text deltas — no terminal completion
/// or failure — and, the cancellation transition leaving the delivered
/// sequence unchanged, firing the signal after any number of deltas yields
/// exactly those deltas and nothing further.
pub proof fn lemma_cancelled_session_all_deltas(s: &InferenceSession)
    requires
        s.wf(),
        s.spec_state() is Cancelled,
    ensures
        forall|k: int| 0 <= k < s.spec_delivered().len() ==> s.spec_delivered()[k] is TextDelta,
{
    lemma_decoded_shape(s.spec_format(), s.spec_consumed());
}

} // verus!
