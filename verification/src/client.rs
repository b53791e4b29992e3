//! The client facade: holds the active provider descriptor, swaps it between
//! calls, and prepares one analysis — the wire request plus a fresh session
//! — from a prompt, an optional image and the prior conversation. Sessions
//! keep the descriptor captured here; a later swap never affects them.
use vstd::prelude::*;

use crate::provider::ModelProvider;
use crate::provider::spec_missing_credential;
use crate::request::ConversationTurn;
use crate::request::RequestError;
use crate::request::Role;
use crate::request::SpecTurn;
use crate::request::WireRequest;
use crate::request::build_request;
use crate::request::spec_build;
use crate::request::spec_format_of;
use crate::request::turns_encodable;
use crate::request::views_of_turns;
use crate::session::InferenceSession;
use crate::session::SessionState;
use crate::event::ErrorKind;
use crate::text::MAX_BASE64_INPUT;

verus! {

/// The conversation one analysis call sends: the prior turns followed by a
/// new user turn carrying the prompt and the image, if any.
pub open spec fn spec_analysis_turns(
    history: Seq<SpecTurn>,
    prompt: Seq<char>,
    image: Option<Seq<u8>>,
) -> Seq<SpecTurn> {
    history.push(SpecTurn { role: Role::User, text: prompt, image })
}

/// The client facade: the one owner of the active provider descriptor.
pub struct AiClient {
    pub provider: ModelProvider,
}

impl AiClient {
    /// A client that will send to the given backend.
    pub fn new(provider: ModelProvider) -> (c: AiClient)
        ensures
            c.provider == provider,
    {
        AiClient { provider }
    }

    /// Swaps the active backend; effective for subsequent calls only, as
    /// running sessions use the descriptor captured when they were prepared.
    pub fn set_provider(&mut self, provider: ModelProvider)
        ensures
            final(self).provider == provider,
    {
        self.provider = provider;
    }

    /// Prepares one analysis under the current descriptor: appends the
    /// prompt (with the image, if any) to the history as a new user turn and
    /// builds the wire request and a fresh session, or fails — before any
    /// network work — exactly when the descriptor lacks its credential.
    pub fn prepare_analysis(
        &self,
        image: Option<Vec<u8>>,
        prompt: String,
        history: &Vec<ConversationTurn>,
    ) -> (r: Result<(WireRequest, InferenceSession), RequestError>)
        requires
            turns_encodable(views_of_turns(history@)),
            image matches Some(b) ==> b@.len() < MAX_BASE64_INPUT,
        ensures
            match r {
                Ok(prepared) => {
                    let turns = spec_analysis_turns(
                        views_of_turns(history@),
                        prompt@,
                        match image {
                            Some(b) => Some(b@),
                            None => None,
                        },
                    );
                    &&& !spec_missing_credential(self.provider@)
                    &&& prepared.0@ == spec_build(self.provider@, turns)
                    &&& prepared.1.wf()
                    &&& prepared.1.spec_state() == SessionState::Sending
                    &&& prepared.1.spec_format() == spec_format_of(self.provider@)
                    &&& prepared.1.spec_delivered() == Seq::<crate::event::SpecEvent>::empty()
                    &&& prepared.1.spec_consumed() == Seq::<u8>::empty()
                },
                Err(e) => spec_missing_credential(self.provider@) && e.kind
                    == ErrorKind::ConfigurationError && e.message@ == "missing API key"@,
            },
    {
        let ghost history_views = views_of_turns(history@);
        let mut turns: Vec<ConversationTurn> = Vec::new();
        let mut i: usize = 0;
        proof {
            assert(views_of_turns(turns@) =~= history_views.take(0));
        }
        while i < history.len()
            invariant
                i <= history@.len(),
                history_views == views_of_turns(history@),
                turns_encodable(history_views),
                views_of_turns(turns@) == history_views.take(i as int),
            decreases history@.len() - i,
        {
            let ghost prev = turns@;
            let copy = history[i].duplicate();
            let ghost copy_view = copy@;
            turns.push(copy);
            proof {
                assert(views_of_turns(prev).len() == prev.len());
                assert(prev.len() == i);
                assert(turns@ == prev.push(copy));
                assert(turns@.len() == i + 1);
                assert forall|j: int| 0 <= j < i + 1 implies views_of_turns(turns@)[j]
                    == history_views.take(i + 1 as int)[j] by {
                    assert(views_of_turns(turns@)[j] == turns@[j]@);
                    if j < i {
                        assert(turns@[j] == prev[j]);
                        assert(views_of_turns(prev)[j] == prev[j]@);
                    } else {
                        assert(turns@[j]@ == copy_view);
                        assert(history_views[j] == history@[j]@);
                    }
                }
                assert(views_of_turns(turns@) =~= history_views.take(i + 1 as int));
            }
            i = i + 1;
        }
        proof {
            assert(history_views.take(history_views.len() as int) =~= history_views);
        }
        turns.push(ConversationTurn { role: Role::User, text: prompt, image });
        let ghost all_turns = views_of_turns(turns@);
        proof {
            assert(all_turns =~= spec_analysis_turns(
                history_views,
                prompt@,
                match image {
                    Some(b) => Some(b@),
                    None => None,
                },
            ));
        }
        match build_request(&self.provider, &turns) {
            Ok(wire) => {
                let session = InferenceSession::new(wire.format);
                Ok((wire, session))
            },
            Err(e) => Err(e),
        }
    }
}

} // verus!
