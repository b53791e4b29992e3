//! Normalized stream events: the provider-agnostic representation of what a
//! backend sends, the only shape the rest of the application consumes.
use vstd::prelude::*;

verus! {

/// What went wrong, by phase: before the request, while establishing it, or
/// while the response body was streaming.
#[derive(Clone, Copy, Debug, PartialEq, Eq, Structural)]
pub enum ErrorKind {
    /// The descriptor lacks a credential its variant requires; found before
    /// any network call.
    ConfigurationError,
    /// The request could not be established (connection, status line).
    NetworkError,
    /// The transport failed after streaming had begun.
    StreamError,
}

/// One normalized event of a session: an incremental text fragment, a clean
/// end, or a terminal failure.
#[derive(Clone, Debug, PartialEq, Eq)]
pub enum StreamEvent {
    /// An incremental fragment of the answer; fragments concatenated in
    /// delivery order reproduce the full answer text.
    TextDelta(String),
    /// The session ended cleanly; no further events follow.
    Completed,
    /// The session failed; no further events follow.
    Failed(ErrorKind, String),
}

/// The mathematical shape of a `StreamEvent`: text as a sequence of
/// characters, so that contracts can speak of event contents directly.
pub enum SpecEvent {
    TextDelta(Seq<char>),
    Completed,
    Failed(ErrorKind, Seq<char>),
}

impl View for StreamEvent {
    type V = SpecEvent;

    open spec fn view(&self) -> SpecEvent {
        match self {
            StreamEvent::TextDelta(s) => SpecEvent::TextDelta(s@),
            StreamEvent::Completed => SpecEvent::Completed,
            StreamEvent::Failed(kind, message) => SpecEvent::Failed(*kind, message@),
        }
    }
}

/// The views of a sequence of events, element by element.
pub open spec fn views_of_events(events: Seq<StreamEvent>) -> Seq<SpecEvent> {
    events.map_values(|e: StreamEvent| e@)
}

/// Taking views distributes over appending event sequences.
pub proof fn lemma_views_append(a: Seq<StreamEvent>, b: Seq<StreamEvent>)
    ensures
        views_of_events(a + b) == views_of_events(a) + views_of_events(b),
{
    assert(views_of_events(a + b) =~= views_of_events(a) + views_of_events(b));
}

/// The answer text carried by a sequence of events: the concatenation of its
/// `TextDelta` payloads in order.
pub open spec fn concat_text(events: Seq<SpecEvent>) -> Seq<char>
    decreases events.len(),
{
    if events.len() == 0 {
        Seq::empty()
    } else {
        (match events[0] {
            SpecEvent::TextDelta(t) => t,
            _ => Seq::empty(),
        }) + concat_text(events.drop_first())
    }
}

/// Concatenating the answer text distributes over appending event sequences.
pub proof fn lemma_concat_text_append(a: Seq<SpecEvent>, b: Seq<SpecEvent>)
    ensures
        concat_text(a + b) == concat_text(a) + concat_text(b),
    decreases a.len(),
{
    if a.len() == 0 {
        assert(a + b =~= b);
        assert(concat_text(a) + concat_text(b) =~= concat_text(b));
    } else {
        assert((a + b).drop_first() =~= a.drop_first() + b);
        lemma_concat_text_append(a.drop_first(), b);
        assert(concat_text(a + b) =~= concat_text(a) + concat_text(b));
    }
}

} // verus!
