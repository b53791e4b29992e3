//! The request builder: turns a provider descriptor and a conversation into
//! the provider-specific wire payload — URL, headers and JSON body — with
//! the image attached only to the most recent user turn that carries one.
use vstd::prelude::*;

use crate::decode::StreamFormat;
use crate::event::ErrorKind;
use crate::provider::ModelProvider;
use crate::provider::SpecProvider;
use crate::provider::spec_missing_credential;
use crate::text::MAX_BASE64_INPUT;
use crate::text::base64_of;
use crate::text::base64_encode;
use crate::text::json_string;
use crate::text::lit_bytes;
use crate::text::push_json_string;
use crate::text::push_lit;

verus! {

/// Who spoke a conversation turn.
#[derive(Clone, Copy, Debug, PartialEq, Eq, Structural)]
pub enum Role {
    User,
    Assistant,
}

/// One prior turn of the conversation, oldest first in a history; the image,
/// if any, belongs to this turn alone.
#[derive(Clone, Debug)]
pub struct ConversationTurn {
    pub role: Role,
    pub text: String,
    pub image: Option<Vec<u8>>,
}

/// The mathematical shape of a turn.
pub struct SpecTurn {
    pub role: Role,
    pub text: Seq<char>,
    pub image: Option<Seq<u8>>,
}

impl View for ConversationTurn {
    type V = SpecTurn;

    open spec fn view(&self) -> SpecTurn {
        SpecTurn {
            role: self.role,
            text: self.text@,
            image: match self.image {
                Some(bytes) => Some(bytes@),
                None => None,
            },
        }
    }
}

impl ConversationTurn {
    /// An identical copy of this turn.
    pub fn duplicate(&self) -> (t: ConversationTurn)
        ensures
            t@ == self@,
    {
        let image = match &self.image {
            Some(bytes) => {
                let copy = bytes.clone();
                proof {
                    assert(copy@ =~= bytes@);
                }
                Some(copy)
            },
            None => None,
        };
        ConversationTurn { role: self.role, text: self.text.clone(), image }
    }
}

/// The views of a sequence of turns, element by element.
pub open spec fn views_of_turns(turns: Seq<ConversationTurn>) -> Seq<SpecTurn> {
    turns.map_values(|t: ConversationTurn| t@)
}

/// Every image in the conversation is small enough to base64-encode without
/// the encoder's output-size arithmetic overflowing.
pub open spec fn turns_encodable(ts: Seq<SpecTurn>) -> bool {
    forall|j: int|
        0 <= j < ts.len() ==> (#[trigger] ts[j].image matches Some(b) ==> b.len()
            < MAX_BASE64_INPUT)
}

/// The index of the most recent user turn that carries an image: the one
/// turn whose request representation embeds the image.
pub open spec fn image_index(ts: Seq<SpecTurn>) -> Option<int>
    decreases ts.len(),
{
    if ts.len() == 0 {
        None
    } else if ts.last().role is User && ts.last().image is Some {
        Some(ts.len() - 1)
    } else {
        image_index(ts.drop_last())
    }
}

/// The image goes to the most recent user turn that carries one: the chosen
/// index is a user turn with an image and no later turn is such, and no
/// index is chosen exactly when no user turn carries an image.
pub proof fn lemma_image_index_is_last_user_image(ts: Seq<SpecTurn>)
    ensures
        match image_index(ts) {
            Some(k) => 0 <= k < ts.len() && ts[k].role is User && ts[k].image is Some && (forall|
                j: int,
            |
                k < j < ts.len() ==> !(#[trigger] ts[j].role is User && ts[j].image is Some)),
            None => forall|j: int|
                0 <= j < ts.len() ==> !(#[trigger] ts[j].role is User && ts[j].image is Some),
        },
    decreases ts.len(),
{
    if ts.len() == 0 {
    } else if ts.last().role is User && ts.last().image is Some {
    } else {
        lemma_image_index_is_last_user_image(ts.drop_last());
        assert(forall|j: int| 0 <= j < ts.len() - 1 ==> ts.drop_last()[j] == #[trigger] ts[j]);
    }
}

/// The provider's name for a role.
pub open spec fn spec_role_name(r: Role) -> Seq<char> {
    match r {
        Role::User => "user"@,
        Role::Assistant => "assistant"@,
    }
}

fn role_name(r: Role) -> (s: &'static str)
    ensures
        s@ == spec_role_name(r),
{
    match r {
        Role::User => "user",
        Role::Assistant => "assistant",
    }
}

/// Message parts joined by commas, as a JSON array's elements are.
pub open spec fn comma_joined(parts: Seq<Seq<u8>>) -> Seq<u8>
    decreases parts.len(),
{
    if parts.len() == 0 {
        Seq::empty()
    } else if parts.len() == 1 {
        parts[0]
    } else {
        comma_joined(parts.drop_last()) + lit_bytes(",") + parts.last()
    }
}

proof fn lemma_comma_joined_step(parts: Seq<Seq<u8>>, i: int)
    requires
        0 <= i < parts.len(),
    ensures
        comma_joined(parts.take(i + 1)) == if i == 0 {
            parts[0]
        } else {
            comma_joined(parts.take(i)) + lit_bytes(",") + parts[i]
        },
{
    assert(parts.take(i + 1).len() == i + 1);
    if i == 0 {
        assert(parts.take(1)[0] == parts[0]);
    } else {
        assert(parts.take(i + 1).drop_last() =~= parts.take(i));
        assert(parts.take(i + 1).last() == parts[i]);
    }
}

/// One turn as a chat-completions message: plain text, or, for the turn that
/// carries the image, a content-block list of the text and a PNG data URL.
pub open spec fn spec_openai_message(t: SpecTurn, with_image: bool) -> Seq<u8> {
    if with_image && t.image is Some {
        lit_bytes("{\"role\":") + json_string(spec_role_name(t.role)) + lit_bytes(
            ",\"content\":[{\"type\":\"text\",\"text\":",
        ) + json_string(t.text) + lit_bytes("},{\"type\":\"image_url\",\"image_url\":{\"url\":")
            + json_string("data:image/png;base64,"@ + base64_of(t.image->Some_0)) + lit_bytes(
            "}}]}",
        )
    } else {
        lit_bytes("{\"role\":") + json_string(spec_role_name(t.role)) + lit_bytes(",\"content\":")
            + json_string(t.text) + lit_bytes("}")
    }
}

/// The chat-completions messages of a conversation: one per turn, the image
/// embedded only at the image-attachment index.
pub open spec fn spec_openai_messages(ts: Seq<SpecTurn>) -> Seq<Seq<u8>> {
    Seq::new(ts.len(), |i: int| spec_openai_message(ts[i], image_index(ts) == Some(i)))
}

/// The chat-completions body: model, messages, streaming mode, and a fixed
/// ceiling on generated tokens.
pub open spec fn spec_openai_body(model: Seq<char>, ts: Seq<SpecTurn>) -> Seq<u8> {
    lit_bytes("{\"model\":") + json_string(model) + lit_bytes(",\"messages\":[") + comma_joined(
        spec_openai_messages(ts),
    ) + lit_bytes("],\"stream\":true,\"max_tokens\":4096}")
}

/// One turn as a messages-endpoint message: plain text, or, for the turn
/// that carries the image, an image source block placed before the text
/// block (the provider prefers image-then-text ordering).
pub open spec fn spec_anthropic_message(t: SpecTurn, with_image: bool) -> Seq<u8> {
    if with_image && t.image is Some {
        lit_bytes("{\"role\":") + json_string(spec_role_name(t.role)) + lit_bytes(
            ",\"content\":[{\"type\":\"image\",\"source\":{\"type\":\"base64\",\"media_type\":\"image/png\",\"data\":",
        ) + json_string(base64_of(t.image->Some_0)) + lit_bytes("}},{\"type\":\"text\",\"text\":")
            + json_string(t.text) + lit_bytes("}]}")
    } else {
        lit_bytes("{\"role\":") + json_string(spec_role_name(t.role)) + lit_bytes(",\"content\":")
            + json_string(t.text) + lit_bytes("}")
    }
}

/// The messages-endpoint messages of a conversation: one per turn, the image
/// embedded only at the image-attachment index.
pub open spec fn spec_anthropic_messages(ts: Seq<SpecTurn>) -> Seq<Seq<u8>> {
    Seq::new(ts.len(), |i: int| spec_anthropic_message(ts[i], image_index(ts) == Some(i)))
}

/// The messages-endpoint body: model, a fixed token ceiling, messages, and
/// streaming mode.
pub open spec fn spec_anthropic_body(model: Seq<char>, ts: Seq<SpecTurn>) -> Seq<u8> {
    lit_bytes("{\"model\":") + json_string(model) + lit_bytes(",\"max_tokens\":4096,\"messages\":[")
        + comma_joined(spec_anthropic_messages(ts)) + lit_bytes("],\"stream\":true}")
}

/// The local generate body: model, the latest turn's text as the prompt, the
/// attached image (if any) base64-encoded in the `images` array, streaming
/// mode, and a fixed ceiling on generated tokens.
pub open spec fn spec_local_body(model: Seq<char>, ts: Seq<SpecTurn>) -> Seq<u8> {
    lit_bytes("{\"model\":") + json_string(model) + lit_bytes(",\"prompt\":") + json_string(
        if ts.len() > 0 {
            ts.last().text
        } else {
            Seq::empty()
        },
    ) + lit_bytes(",\"images\":[") + (match image_index(ts) {
        Some(k) => json_string(base64_of(ts[k].image->Some_0)),
        None => Seq::empty(),
    }) + lit_bytes("],\"stream\":true,\"options\":{\"num_predict\":4096}}")
}

/// Every turn other than the image-attachment one is rendered text-only, in
/// both hosted wire shapes.
pub proof fn lemma_other_turns_are_text_only(ts: Seq<SpecTurn>, i: int)
    requires
        0 <= i < ts.len(),
        image_index(ts) != Some(i),
    ensures
        spec_openai_messages(ts)[i] == spec_openai_message(ts[i], false),
        spec_anthropic_messages(ts)[i] == spec_anthropic_message(ts[i], false),
{
}

/// The endpoint URL a descriptor sends to.
pub open spec fn spec_url(p: SpecProvider) -> Seq<char> {
    match p {
        SpecProvider::LocalEndpoint { url, .. } => url + "/api/generate"@,
        SpecProvider::OpenAiCompatible { base_url, .. } => base_url + "/v1/chat/completions"@,
        SpecProvider::Anthropic { .. } => "https://api.anthropic.com/v1/messages"@,
    }
}

/// The headers a descriptor's request carries, in order.
pub open spec fn spec_headers(p: SpecProvider) -> Seq<(Seq<char>, Seq<char>)> {
    match p {
        SpecProvider::LocalEndpoint { .. } => seq![("content-type"@, "application/json"@)],
        SpecProvider::OpenAiCompatible { api_key, .. } => seq![
            ("authorization"@, "Bearer "@ + api_key),
            ("content-type"@, "application/json"@),
        ],
        SpecProvider::Anthropic { api_key, .. } => seq![
            ("x-api-key"@, api_key),
            ("anthropic-version"@, "2023-06-01"@),
            ("content-type"@, "application/json"@),
        ],
    }
}

/// The streaming wire format a descriptor's responses use.
pub open spec fn spec_format_of(p: SpecProvider) -> StreamFormat {
    match p {
        SpecProvider::LocalEndpoint { .. } => StreamFormat::Ndjson,
        SpecProvider::OpenAiCompatible { .. } => StreamFormat::OpenAiSse,
        SpecProvider::Anthropic { .. } => StreamFormat::AnthropicSse,
    }
}

/// The body a descriptor's request carries for a conversation.
pub open spec fn spec_body(p: SpecProvider, ts: Seq<SpecTurn>) -> Seq<u8> {
    match p {
        SpecProvider::LocalEndpoint { model, .. } => spec_local_body(model, ts),
        SpecProvider::OpenAiCompatible { model, .. } => spec_openai_body(model, ts),
        SpecProvider::Anthropic { model, .. } => spec_anthropic_body(model, ts),
    }
}

/// Everything needed to send one request: where, with which headers, what
/// body, and how the response body will be decoded.
#[derive(Clone, Debug)]
pub struct WireRequest {
    pub url: String,
    pub headers: Vec<(String, String)>,
    pub body: Vec<u8>,
    pub format: StreamFormat,
}

/// The mathematical shape of a wire request.
pub struct SpecWireRequest {
    pub url: Seq<char>,
    pub headers: Seq<(Seq<char>, Seq<char>)>,
    pub body: Seq<u8>,
    pub format: StreamFormat,
}

impl View for WireRequest {
    type V = SpecWireRequest;

    open spec fn view(&self) -> SpecWireRequest {
        SpecWireRequest {
            url: self.url@,
            headers: self.headers@.map_values(|h: (String, String)| (h.0@, h.1@)),
            body: self.body@,
            format: self.format,
        }
    }
}

/// The complete wire request a descriptor and a conversation determine.
pub open spec fn spec_build(p: SpecProvider, ts: Seq<SpecTurn>) -> SpecWireRequest {
    SpecWireRequest {
        url: spec_url(p),
        headers: spec_headers(p),
        body: spec_body(p, ts),
        format: spec_format_of(p),
    }
}

/// A pre-flight or terminal failure, with its phase and a message.
#[derive(Clone, Debug, PartialEq, Eq)]
pub struct RequestError {
    pub kind: ErrorKind,
    pub message: String,
}

fn find_image_index(turns: &Vec<ConversationTurn>) -> (r: Option<usize>)
    ensures
        match r {
            Some(k) => image_index(views_of_turns(turns@)) == Some(k as int),
            None => image_index(views_of_turns(turns@)) is None,
        },
{
    let ghost ts = views_of_turns(turns@);
    let mut i: usize = turns.len();
    proof {
        assert(ts.take(i as int) =~= ts);
    }
    while i > 0
        invariant
            i <= turns@.len(),
            ts == views_of_turns(turns@),
            image_index(ts) == image_index(ts.take(i as int)),
        decreases i,
    {
        i = i - 1;
        let is_user = turns[i].role == Role::User;
        let has_image = turns[i].image.is_some();
        proof {
            assert(ts.take(i + 1 as int).last() == ts[i as int]);
            assert(ts.take(i + 1 as int).drop_last() =~= ts.take(i as int));
        }
        if is_user && has_image {
            return Some(i);
        }
    }
    proof {
        assert(ts.take(0) =~= Seq::<SpecTurn>::empty());
    }
    None
}

fn push_openai_message(out: &mut Vec<u8>, t: &ConversationTurn, with_image: bool)
    requires
        t@.image matches Some(b) ==> b.len() < MAX_BASE64_INPUT,
    ensures
        final(out)@ == old(out)@ + spec_openai_message(t@, with_image),
{
    push_lit(out, "{\"role\":");
    push_json_string(out, role_name(t.role));
    match &t.image {
        Some(img) if with_image => {
            push_lit(out, ",\"content\":[{\"type\":\"text\",\"text\":");
            push_json_string(out, t.text.as_str());
            push_lit(out, "},{\"type\":\"image_url\",\"image_url\":{\"url\":");
            let b64 = base64_encode(img.as_slice());
            let mut data_url = String::from_str("data:image/png;base64,");
            data_url.append(b64.as_str());
            push_json_string(out, data_url.as_str());
            push_lit(out, "}}]}");
            proof {
                assert(final(out)@ =~= old(out)@ + spec_openai_message(t@, with_image));
            }
        },
        _ => {
            push_lit(out, ",\"content\":");
            push_json_string(out, t.text.as_str());
            push_lit(out, "}");
            proof {
                assert(final(out)@ =~= old(out)@ + spec_openai_message(t@, with_image));
            }
        },
    }
}

fn push_anthropic_message(out: &mut Vec<u8>, t: &ConversationTurn, with_image: bool)
    requires
        t@.image matches Some(b) ==> b.len() < MAX_BASE64_INPUT,
    ensures
        final(out)@ == old(out)@ + spec_anthropic_message(t@, with_image),
{
    push_lit(out, "{\"role\":");
    push_json_string(out, role_name(t.role));
    match &t.image {
        Some(img) if with_image => {
            push_lit(
                out,
                ",\"content\":[{\"type\":\"image\",\"source\":{\"type\":\"base64\",\"media_type\":\"image/png\",\"data\":",
            );
            let b64 = base64_encode(img.as_slice());
            push_json_string(out, b64.as_str());
            push_lit(out, "}},{\"type\":\"text\",\"text\":");
            push_json_string(out, t.text.as_str());
            push_lit(out, "}]}");
            proof {
                assert(final(out)@ =~= old(out)@ + spec_anthropic_message(t@, with_image));
            }
        },
        _ => {
            push_lit(out, ",\"content\":");
            push_json_string(out, t.text.as_str());
            push_lit(out, "}");
            proof {
                assert(final(out)@ =~= old(out)@ + spec_anthropic_message(t@, with_image));
            }
        },
    }
}

fn build_hosted_body(model: &String, turns: &Vec<ConversationTurn>, anthropic: bool) -> (body: Vec<
    u8,
>)
    requires
        turns_encodable(views_of_turns(turns@)),
    ensures
        body@ == if anthropic {
            spec_anthropic_body(model@, views_of_turns(turns@))
        } else {
            spec_openai_body(model@, views_of_turns(turns@))
        },
{
    let ghost ts = views_of_turns(turns@);
    let ghost msgs = if anthropic {
        spec_anthropic_messages(ts)
    } else {
        spec_openai_messages(ts)
    };
    let mut out: Vec<u8> = Vec::new();
    push_lit(&mut out, "{\"model\":");
    push_json_string(&mut out, model.as_str());
    if anthropic {
        push_lit(&mut out, ",\"max_tokens\":4096,\"messages\":[");
    } else {
        push_lit(&mut out, ",\"messages\":[");
    }
    let ghost prefix = out@;
    let image_at = find_image_index(turns);
    let mut i: usize = 0;
    proof {
        assert(msgs.take(0) =~= Seq::<Seq<u8>>::empty());
    }
    while i < turns.len()
        invariant
            i <= turns@.len(),
            ts == views_of_turns(turns@),
            turns_encodable(ts),
            msgs == if anthropic {
                spec_anthropic_messages(ts)
            } else {
                spec_openai_messages(ts)
            },
            match image_at {
                Some(k) => image_index(ts) == Some(k as int),
                None => image_index(ts) is None,
            },
            out@ == prefix + comma_joined(msgs.take(i as int)),
        decreases turns@.len() - i,
    {
        if i > 0 {
            push_lit(&mut out, ",");
        }
        let with_image = match image_at {
            Some(k) => k == i,
            None => false,
        };
        proof {
            assert(with_image == (image_index(ts) == Some(i as int)));
            assert(ts[i as int] == turns@[i as int]@);
        }
        if anthropic {
            push_anthropic_message(&mut out, &turns[i], with_image);
        } else {
            push_openai_message(&mut out, &turns[i], with_image);
        }
        proof {
            lemma_comma_joined_step(msgs, i as int);
            assert(out@ =~= prefix + comma_joined(msgs.take(i + 1 as int)));
        }
        i = i + 1;
    }
    proof {
        assert(msgs.take(msgs.len() as int) =~= msgs);
    }
    if anthropic {
        push_lit(&mut out, "],\"stream\":true}");
        proof {
            assert(out@ =~= spec_anthropic_body(model@, ts));
        }
    } else {
        push_lit(&mut out, "],\"stream\":true,\"max_tokens\":4096}");
        proof {
            assert(out@ =~= spec_openai_body(model@, ts));
        }
    }
    out
}

fn build_local_body(model: &String, turns: &Vec<ConversationTurn>) -> (body: Vec<u8>)
    requires
        turns_encodable(views_of_turns(turns@)),
    ensures
        body@ == spec_local_body(model@, views_of_turns(turns@)),
{
    let ghost ts = views_of_turns(turns@);
    let mut out: Vec<u8> = Vec::new();
    push_lit(&mut out, "{\"model\":");
    push_json_string(&mut out, model.as_str());
    push_lit(&mut out, ",\"prompt\":");
    let n = turns.len();
    if n > 0 {
        push_json_string(&mut out, turns[n - 1].text.as_str());
        proof {
            assert(ts.last() == turns@[n - 1 as int]@);
        }
    } else {
        push_json_string(&mut out, "");
        proof {
            reveal_strlit("");
            assert(""@ =~= Seq::<char>::empty());
        }
    }
    push_lit(&mut out, ",\"images\":[");
    match find_image_index(turns) {
        Some(k) => {
            proof {
                lemma_image_index_is_last_user_image(ts);
                assert(ts[k as int] == turns@[k as int]@);
            }
            match &turns[k].image {
                Some(img) => {
                    let b64 = base64_encode(img.as_slice());
                    push_json_string(&mut out, b64.as_str());
                },
                None => {
                    proof {
                        assert(false);
                    }
                },
            }
        },
        None => {},
    }
    push_lit(&mut out, "],\"stream\":true,\"options\":{\"num_predict\":4096}}");
    proof {
        assert(out@ =~= spec_local_body(model@, ts));
    }
    out
}

fn build_url(provider: &ModelProvider) -> (url: String)
    ensures
        url@ == spec_url(provider@),
{
    match provider {
        ModelProvider::LocalEndpoint { url, .. } => {
            let mut u = url.clone();
            u.append("/api/generate");
            u
        },
        ModelProvider::OpenAiCompatible { base_url, .. } => {
            let mut u = base_url.clone();
            u.append("/v1/chat/completions");
            u
        },
        ModelProvider::Anthropic { .. } => String::from_str(
            "https://api.anthropic.com/v1/messages",
        ),
    }
}

fn build_headers(provider: &ModelProvider) -> (headers: Vec<(String, String)>)
    ensures
        headers@.map_values(|h: (String, String)| (h.0@, h.1@)) == spec_headers(provider@),
{
    let mut headers: Vec<(String, String)> = Vec::new();
    match provider {
        ModelProvider::LocalEndpoint { .. } => {
            headers.push(
                (String::from_str("content-type"), String::from_str("application/json")),
            );
        },
        ModelProvider::OpenAiCompatible { api_key, .. } => {
            let mut bearer = String::from_str("Bearer ");
            bearer.append(api_key.as_str());
            headers.push((String::from_str("authorization"), bearer));
            headers.push(
                (String::from_str("content-type"), String::from_str("application/json")),
            );
        },
        ModelProvider::Anthropic { api_key, .. } => {
            headers.push((String::from_str("x-api-key"), api_key.clone()));
            headers.push(
                (String::from_str("anthropic-version"), String::from_str("2023-06-01")),
            );
            headers.push(
                (String::from_str("content-type"), String::from_str("application/json")),
            );
        },
    }
    proof {
        assert(headers@.map_values(|h: (String, String)| (h.0@, h.1@)) =~= spec_headers(
            provider@,
        ));
    }
    headers
}

/// The streaming wire format of a descriptor's responses.
pub fn format_of(provider: &ModelProvider) -> (f: StreamFormat)
    ensures
        f == spec_format_of(provider@),
{
    match provider {
        ModelProvider::LocalEndpoint { .. } => StreamFormat::Ndjson,
        ModelProvider::OpenAiCompatible { .. } => StreamFormat::OpenAiSse,
        ModelProvider::Anthropic { .. } => StreamFormat::AnthropicSse,
    }
}

/// Builds the wire request a descriptor and a conversation determine, or
/// fails — before any network work — exactly when the descriptor lacks the
/// credential its variant requires.
pub fn build_request(provider: &ModelProvider, turns: &Vec<ConversationTurn>) -> (r: Result<
    WireRequest,
    RequestError,
>)
    requires
        turns_encodable(views_of_turns(turns@)),
    ensures
        match r {
            Ok(w) => !spec_missing_credential(provider@) && w@ == spec_build(
                provider@,
                views_of_turns(turns@),
            ),
            Err(e) => spec_missing_credential(provider@) && e.kind
                == ErrorKind::ConfigurationError && e.message@ == "missing API key"@,
        },
{
    if provider.missing_credential() {
        return Err(
            RequestError {
                kind: ErrorKind::ConfigurationError,
                message: String::from_str("missing API key"),
            },
        );
    }
    let url = build_url(provider);
    let headers = build_headers(provider);
    let format = format_of(provider);
    let body = match provider {
        ModelProvider::LocalEndpoint { model, .. } => build_local_body(model, turns),
        ModelProvider::OpenAiCompatible { model, .. } => build_hosted_body(model, turns, false),
        ModelProvider::Anthropic { model, .. } => build_hosted_body(model, turns, true),
    };
    Ok(WireRequest { url, headers, body, format })
}

} // verus!
