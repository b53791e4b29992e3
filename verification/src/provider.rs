//! Provider descriptors: which backend a session talks to, with its
//! endpoint, credential and model name. Pure data with a validity check.
use vstd::prelude::*;

use crate::text::is_blank;
use crate::text::blank;

verus! {

/// Identifies one backend family and its configuration. Immutable per
/// session: a session keeps the descriptor captured at its start.
#[derive(Clone, Debug)]
pub enum ModelProvider {
    /// A local inference server reached at `url`, newline-delimited JSON.
    LocalEndpoint { url: String, model: String },
    /// A hosted chat-completions endpoint (OpenAI, Groq, Grok share this
    /// wire shape); `base_url` distinguishes them.
    OpenAiCompatible { base_url: String, api_key: String, model: String },
    /// The hosted Anthropic messages endpoint.
    Anthropic { api_key: String, model: String },
}

/// The mathematical shape of a descriptor, fields as character sequences.
pub enum SpecProvider {
    LocalEndpoint { url: Seq<char>, model: Seq<char> },
    OpenAiCompatible { base_url: Seq<char>, api_key: Seq<char>, model: Seq<char> },
    Anthropic { api_key: Seq<char>, model: Seq<char> },
}

impl View for ModelProvider {
    type V = SpecProvider;

    open spec fn view(&self) -> SpecProvider {
        match self {
            ModelProvider::LocalEndpoint { url, model } => SpecProvider::LocalEndpoint {
                url: url@,
                model: model@,
            },
            ModelProvider::OpenAiCompatible { base_url, api_key, model } => {
                SpecProvider::OpenAiCompatible {
                    base_url: base_url@,
                    api_key: api_key@,
                    model: model@,
                }
            },
            ModelProvider::Anthropic { api_key, model } => SpecProvider::Anthropic {
                api_key: api_key@,
                model: model@,
            },
        }
    }
}

/// Whether a descriptor lacks a credential its variant requires: a hosted
/// variant whose API key is empty or whitespace.
pub open spec fn spec_missing_credential(p: SpecProvider) -> bool {
    match p {
        SpecProvider::LocalEndpoint { .. } => false,
        SpecProvider::OpenAiCompatible { api_key, .. } => is_blank(api_key),
        SpecProvider::Anthropic { api_key, .. } => is_blank(api_key),
    }
}

impl ModelProvider {
    /// Whether this descriptor lacks the credential its variant requires.
    pub fn missing_credential(&self) -> (r: bool)
        ensures
            r == spec_missing_credential(self@),
    {
        match self {
            ModelProvider::LocalEndpoint { .. } => false,
            ModelProvider::OpenAiCompatible { api_key, .. } => blank(api_key.as_str()),
            ModelProvider::Anthropic { api_key, .. } => blank(api_key.as_str()),
        }
    }
}

impl Default for ModelProvider {
    /// The out-of-the-box backend: a local server on its usual port.
    fn default() -> (r: Self)
        ensures
            r@ == (SpecProvider::LocalEndpoint { url: "http://localhost:11434"@, model: "llava"@ }),
    {
        ModelProvider::LocalEndpoint {
            url: String::from_str("http://localhost:11434"),
            model: String::from_str("llava"),
        }
    }
}

/// One hosted backend as the user picks it; each maps to a descriptor.
#[derive(Clone, Copy, Debug, PartialEq, Eq, Structural)]
pub enum OnlineProvider {
    Anthropic,
    OpenAI,
    Groq,
    Grok,
}

/// The chat-completions base URL of an OpenAI-compatible hosted backend;
/// none for Anthropic, whose wire shape differs.
pub open spec fn spec_compat_base_url(p: OnlineProvider) -> Option<Seq<char>> {
    match p {
        OnlineProvider::Anthropic => None,
        OnlineProvider::OpenAI => Some("https://api.openai.com"@),
        OnlineProvider::Groq => Some("https://api.groq.com/openai"@),
        OnlineProvider::Grok => Some("https://api.x.ai"@),
    }
}

impl OnlineProvider {
    /// The base URL used for this backend's chat-completions endpoint, if it
    /// speaks that wire shape.
    pub fn compat_base_url(&self) -> (r: Option<&'static str>)
        ensures
            match r {
                Some(u) => spec_compat_base_url(*self) == Some(u@),
                None => spec_compat_base_url(*self) is None,
            },
    {
        match self {
            OnlineProvider::Anthropic => None,
            OnlineProvider::OpenAI => Some("https://api.openai.com"),
            OnlineProvider::Groq => Some("https://api.groq.com/openai"),
            OnlineProvider::Grok => Some("https://api.x.ai"),
        }
    }

    /// The descriptor for this backend with the given credential and model.
    pub fn descriptor(&self, api_key: String, model: String) -> (r: ModelProvider)
        ensures
            r@ == spec_online_descriptor(*self, api_key@, model@),
    {
        match self.compat_base_url() {
            Some(base) => ModelProvider::OpenAiCompatible {
                base_url: String::from_str(base),
                api_key,
                model,
            },
            None => ModelProvider::Anthropic { api_key, model },
        }
    }
}

/// The descriptor a hosted backend selection stands for.
pub open spec fn spec_online_descriptor(
    p: OnlineProvider,
    api_key: Seq<char>,
    model: Seq<char>,
) -> SpecProvider {
    match spec_compat_base_url(p) {
        Some(base) => SpecProvider::OpenAiCompatible { base_url: base, api_key, model },
        None => SpecProvider::Anthropic { api_key, model },
    }
}

} // verus!
