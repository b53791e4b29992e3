//! Application configuration and analysis history: plain data, the default
//! values, the choice of descriptor per model mode, and the bounded history.
use vstd::prelude::*;

use crate::provider::ModelProvider;
use crate::provider::SpecProvider;

verus! {

/// The persisted settings; reading and writing them to disk is the
/// surrounding application's concern.
#[derive(Clone, Debug)]
pub struct Config {
    pub local_endpoint: String,
    pub local_model: String,
    pub openai_api_key: String,
    pub openai_model: String,
    pub claude_api_key: String,
    pub claude_model: String,
    pub default_prompt: String,
    pub use_local: bool,
}

impl Default for Config {
    /// The out-of-the-box settings: a local backend, hosted credentials
    /// empty until the user supplies them.
    fn default() -> (c: Config)
        ensures
            c.local_endpoint@ == "http://localhost:11434"@,
            c.local_model@ == "llava"@,
            c.openai_api_key@ == Seq::<char>::empty(),
            c.openai_model@ == "gpt-4o"@,
            c.claude_api_key@ == Seq::<char>::empty(),
            c.claude_model@ == "sonnet-latest"@,
            c.default_prompt@
                == "Beskriv vad du ser i denna bild. Om det finns text, läs och återge den."@,
            c.use_local,
    {
        Config {
            local_endpoint: String::from_str("http://localhost:11434"),
            local_model: String::from_str("llava"),
            openai_api_key: String::new(),
            openai_model: String::from_str("gpt-4o"),
            claude_api_key: String::new(),
            claude_model: String::from_str("sonnet-latest"),
            default_prompt: String::from_str(
                "Beskriv vad du ser i denna bild. Om det finns text, läs och återge den.",
            ),
            use_local: true,
        }
    }
}

/// Which kind of backend the user is working with.
#[derive(PartialEq, Clone, Default)]
pub enum ModelMode {
    #[default]
    Local,
    Online,
}

/// What the surrounding application is doing.
#[derive(PartialEq, Clone, Default)]
pub enum AppState {
    #[default]
    Toolbox,
    Selecting,
}

impl Config {
    /// The descriptor the application starts with: the local backend when
    /// configured to use it, else the hosted chat-completions backend.
    pub fn initial_provider(&self) -> (p: ModelProvider)
        ensures
            p@ == if self.use_local {
                SpecProvider::LocalEndpoint { url: self.local_endpoint@, model: self.local_model@ }
            } else {
                SpecProvider::OpenAiCompatible {
                    base_url: "https://api.openai.com"@,
                    api_key: self.openai_api_key@,
                    model: self.openai_model@,
                }
            },
    {
        if self.use_local {
            ModelProvider::LocalEndpoint {
                url: self.local_endpoint.clone(),
                model: self.local_model.clone(),
            }
        } else {
            ModelProvider::OpenAiCompatible {
                base_url: String::from_str("https://api.openai.com"),
                api_key: self.openai_api_key.clone(),
                model: self.openai_model.clone(),
            }
        }
    }

    /// The descriptor a switch to the given mode selects: the local backend
    /// as configured, or the hosted backend whose key is present — the
    /// Anthropic one first — and none when no hosted key is set (the active
    /// descriptor is then left as it is).
    pub fn provider_for_mode(&self, mode: &ModelMode) -> (r: Option<ModelProvider>)
        ensures
            match mode {
                ModelMode::Local => r matches Some(p) && p@ == (SpecProvider::LocalEndpoint {
                    url: self.local_endpoint@,
                    model: self.local_model@,
                }),
                ModelMode::Online => if self.claude_api_key@.len() > 0 {
                    r matches Some(p) && p@ == (SpecProvider::Anthropic {
                        api_key: self.claude_api_key@,
                        model: self.claude_model@,
                    })
                } else if self.openai_api_key@.len() > 0 {
                    r matches Some(p) && p@ == (SpecProvider::OpenAiCompatible {
                        base_url: "https://api.openai.com"@,
                        api_key: self.openai_api_key@,
                        model: self.openai_model@,
                    })
                } else {
                    r is None
                },
            },
    {
        match mode {
            ModelMode::Local => Some(
                ModelProvider::LocalEndpoint {
                    url: self.local_endpoint.clone(),
                    model: self.local_model.clone(),
                },
            ),
            ModelMode::Online => {
                if !self.claude_api_key.as_str().is_empty() {
                    Some(
                        ModelProvider::Anthropic {
                            api_key: self.claude_api_key.clone(),
                            model: self.claude_model.clone(),
                        },
                    )
                } else if !self.openai_api_key.as_str().is_empty() {
                    Some(
                        ModelProvider::OpenAiCompatible {
                            base_url: String::from_str("https://api.openai.com"),
                            api_key: self.openai_api_key.clone(),
                            model: self.openai_model.clone(),
                        },
                    )
                } else {
                    None
                }
            },
        }
    }
}

/// One finished analysis as the history shows it.
#[derive(Clone, Default)]
pub struct HistoryEntry {
    pub timestamp: String,
    pub prompt: String,
    pub response: String,
    pub image_preview: Option<Vec<u8>>,
}

/// How many entries the history keeps.
pub const HISTORY_CAP: usize = 50;

/// The analysis history, newest last, bounded by the cap.
#[derive(Default)]
pub struct History {
    pub entries: Vec<HistoryEntry>,
}

impl History {
    /// Appends an entry; beyond the cap, the oldest entry is evicted.
    pub fn add(&mut self, entry: HistoryEntry)
        ensures
            final(self).entries@ == if old(self).entries@.len() + 1 > HISTORY_CAP {
                old(self).entries@.push(entry).drop_first()
            } else {
                old(self).entries@.push(entry)
            },
    {
        let ghost pushed = self.entries@.push(entry);
        self.entries.push(entry);
        if self.entries.len() > HISTORY_CAP {
            let _evicted = self.entries.remove(0);
            proof {
                assert(pushed.remove(0) =~= pushed.drop_first());
            }
        }
    }
}

} // verus!
