//! The application controller's decisions: what each action of a view does
//! to the screen and which outside work it asks for, which provider an
//! agent run talks to, and how a finished run is reported.
use vstd::prelude::*;

use crate::numfmt::{decimal, spec_decimal};
use crate::providers::{or_default, AnthropicProvider, DeepSeekProvider, OllamaProvider};
use crate::text::concat_str;
use crate::ui::{action_text, debug_after, Action, ConfigContext, UIState, ViewState};
use crate::text::string_views;

verus! {

/// The chat view's state: the conversation, the input line, the scroll
/// positions of the chat and debug panes, whether an answer is being
/// streamed, and whom it talks to. The scroll bars are drawn from the
/// heights and offsets held here.
pub struct ChatViewState {
    pub messages: Vec<(String, String)>,
    pub input: String,
    pub cursor_pos: usize,
    pub scroll_offset: usize,
    pub content_height: usize,
    pub debug_scroll_offset: usize,
    pub debug_content_height: usize,
    pub is_streaming: bool,
    pub current_provider: String,
    pub current_model: String,
}

pub open spec fn message_views(m: Seq<(String, String)>) -> Seq<(Seq<char>, Seq<char>)> {
    m.map_values(|p: (String, String)| (p.0@, p.1@))
}

/// A fresh chat view talking to `model` of `provider`.
pub open spec fn fresh_chat(c: ChatViewState, provider: Seq<char>, model: Seq<char>) -> bool {
    &&& c.current_provider@ == provider
    &&& c.current_model@ == model
    &&& c.messages@.len() == 0
    &&& c.input@.len() == 0
    &&& c.cursor_pos == 0
    &&& c.scroll_offset == 0
    &&& c.content_height == 0
    &&& c.debug_scroll_offset == 0
    &&& c.debug_content_height == 0
    &&& !c.is_streaming
}

/// The chat view is unchanged but for its messages and streaming flag.
pub open spec fn same_view_but_messages(a: ChatViewState, b: ChatViewState) -> bool {
    &&& a.input == b.input
    &&& a.cursor_pos == b.cursor_pos
    &&& a.scroll_offset == b.scroll_offset
    &&& a.content_height == b.content_height
    &&& a.debug_scroll_offset == b.debug_scroll_offset
    &&& a.debug_content_height == b.debug_content_height
    &&& a.current_provider == b.current_provider
    &&& a.current_model == b.current_model
}

impl ChatViewState {
    /// An empty conversation with `model` of `provider`.
    pub fn new(provider: &str, model: &str) -> (r: Self)
        ensures
            fresh_chat(r, provider@, model@),
    {
        ChatViewState {
            messages: Vec::new(),
            input: String::new(),
            cursor_pos: 0,
            scroll_offset: 0,
            content_height: 0,
            debug_scroll_offset: 0,
            debug_content_height: 0,
            is_streaming: false,
            current_provider: String::from_str(provider),
            current_model: String::from_str(model),
        }
    }

    /// Appends a message with its role.
    pub fn add_message(&mut self, role: &str, content: &str)
        ensures
            message_views(final(self).messages@) == message_views(old(self).messages@).push((role@, content@)),
            same_view_but_messages(*old(self), *final(self)),
            final(self).is_streaming == old(self).is_streaming,
    {
        let ghost before = self.messages@;
        self.messages.push((String::from_str(role), String::from_str(content)));
        assert(message_views(self.messages@) =~= message_views(before).push((role@, content@)));
    }
}

/// The view on screen.
pub enum Screen {
    Chat(ChatViewState),
    Config(ConfigContext),
}

/// Outside work an action asks for.
#[derive(Debug, Clone)]
pub enum ControllerEffect {
    /// Run the agent on a user message.
    RunAgent(String),
    /// Make the named provider the current one.
    SetProvider(String),
    /// Store the current provider's API key.
    SetApiKey(String),
    /// Store the current provider's model.
    SetModel(String),
    /// Store the current provider's base URL.
    SetBaseUrl(String),
    /// Ask the current provider for its models.
    FetchModels,
}

/// The screen, the interface buffers, and whether to stop.
pub struct AppController {
    pub screen: Screen,
    pub ui_state: UIState,
    pub should_quit: bool,
}

impl AppController {
    /// Starts on the chat view with the configured provider and model.
    pub fn new(provider: &str, model: &str) -> (r: Self)
        ensures
            r.screen matches Screen::Chat(p) && fresh_chat(p, provider@, model@),
            r.ui_state.streaming_text is None,
            r.ui_state.debug_messages@.len() == 0,
            r.ui_state.finalized_message is None,
            !r.should_quit,
    {
        AppController { screen: Screen::Chat(ChatViewState::new(provider, model)), ui_state: UIState::new(), should_quit: false }
    }

    /// Carries out an action of the current view. `config_provider` and
    /// `config_model` are the configured provider and its model, to which
    /// going back returns. Sending a message adds it to the chat as the
    /// user's and marks the answer as streaming; cancelling drops the
    /// streamed text; the settings actions and the agent run are handed back
    /// as outside work.
    pub fn handle_action(&mut self, action: Action, config_provider: &str, config_model: &str) -> (e: Option<ControllerEffect>)
        ensures
            string_views(final(self).ui_state.debug_messages@) == debug_after(
                string_views(old(self).ui_state.debug_messages@),
                "Action: "@ + action_text(action),
            ),
            final(self).ui_state.finalized_message == old(self).ui_state.finalized_message,
            match action {
                Action::SendMessage(msg) => {
                    &&& e == Some(ControllerEffect::RunAgent(msg))
                    &&& final(self).should_quit == old(self).should_quit
                    &&& final(self).ui_state.streaming_text == old(self).ui_state.streaming_text
                    &&& match (old(self).screen, final(self).screen) {
                        (Screen::Chat(a), Screen::Chat(b)) => b.is_streaming && same_view_but_messages(a, b)
                            && message_views(b.messages@) == message_views(a.messages@).push(("user"@, msg@)),
                        (Screen::Config(a), Screen::Config(b)) => a == b,
                        _ => false,
                    }
                },
                Action::SwitchView(ViewState::Chat(ctx)) => {
                    &&& e is None
                    &&& final(self).should_quit == old(self).should_quit
                    &&& final(self).ui_state.streaming_text == old(self).ui_state.streaming_text
                    &&& final(self).screen matches Screen::Chat(p) && fresh_chat(
                        p,
                        ctx.current_provider@,
                        ctx.current_model@,
                    )
                },
                Action::SwitchView(ViewState::Config(ctx)) => {
                    &&& e is None
                    &&& final(self).should_quit == old(self).should_quit
                    &&& final(self).ui_state.streaming_text == old(self).ui_state.streaming_text
                    &&& final(self).screen == Screen::Config(ctx)
                },
                Action::GoBack => {
                    &&& e is None
                    &&& final(self).should_quit == old(self).should_quit
                    &&& final(self).ui_state.streaming_text == old(self).ui_state.streaming_text
                    &&& final(self).screen matches Screen::Chat(p) && fresh_chat(p, config_provider@, config_model@)
                },
                Action::CancelStreaming => {
                    &&& e is None
                    &&& final(self).should_quit == old(self).should_quit
                    &&& final(self).ui_state.streaming_text is None
                    &&& match (old(self).screen, final(self).screen) {
                        (Screen::Chat(a), Screen::Chat(b)) => !b.is_streaming && same_view_but_messages(a, b)
                            && b.messages == a.messages,
                        (Screen::Config(a), Screen::Config(b)) => a == b,
                        _ => false,
                    }
                },
                _ => {
                    &&& final(self).ui_state.streaming_text == old(self).ui_state.streaming_text
                    &&& final(self).screen == old(self).screen
                    &&& final(self).should_quit == (old(self).should_quit || action is Quit)
                    &&& e == match action {
                        Action::SelectProvider(n) => Some(ControllerEffect::SetProvider(n)),
                        Action::SaveApiKey(k) => Some(ControllerEffect::SetApiKey(k)),
                        Action::SaveModel(m) => Some(ControllerEffect::SetModel(m)),
                        Action::SaveBaseUrl(u) => Some(ControllerEffect::SetBaseUrl(u)),
                        Action::FetchModels => Some(ControllerEffect::FetchModels),
                        _ => None,
                    }
                },
            },
    {
        let description = action.describe();
        self.ui_state.add_debug(concat_str("Action: ", description.as_str()));
        match action {
            Action::SendMessage(msg) => {
                match &mut self.screen {
                    Screen::Chat(pane) => {
                        pane.add_message("user", msg.as_str());
                        pane.is_streaming = true;
                        proof {
                            reveal_strlit("user");
                        }
                    },
                    Screen::Config(_) => {},
                }
                Some(ControllerEffect::RunAgent(msg))
            },
            Action::SwitchView(view_state) => {
                match view_state {
                    ViewState::Chat(ctx) => {
                        self.screen = Screen::Chat(
                            ChatViewState::new(ctx.current_provider.as_str(), ctx.current_model.as_str()),
                        );
                    },
                    ViewState::Config(ctx) => {
                        self.screen = Screen::Config(ctx);
                    },
                }
                None
            },
            Action::GoBack => {
                self.screen = Screen::Chat(ChatViewState::new(config_provider, config_model));
                None
            },
            Action::CancelStreaming => {
                self.ui_state.clear_streaming();
                match &mut self.screen {
                    Screen::Chat(pane) => {
                        pane.is_streaming = false;
                    },
                    Screen::Config(_) => {},
                }
                None
            },
            Action::Quit => {
                self.should_quit = true;
                None
            },
            Action::SelectProvider(name) => Some(ControllerEffect::SetProvider(name)),
            Action::SaveApiKey(key) => Some(ControllerEffect::SetApiKey(key)),
            Action::SaveModel(model) => Some(ControllerEffect::SetModel(model)),
            Action::SaveBaseUrl(url) => Some(ControllerEffect::SetBaseUrl(url)),
            Action::FetchModels => Some(ControllerEffect::FetchModels),
            _ => None,
        }
    }

    /// Moves a finished message, if there is one, into the chat and ends the
    /// streaming there.
    pub fn absorb_finalized(&mut self)
        ensures
            final(self).ui_state.finalized_message is None,
            final(self).ui_state.streaming_text == old(self).ui_state.streaming_text,
            final(self).ui_state.debug_messages == old(self).ui_state.debug_messages,
            final(self).should_quit == old(self).should_quit,
            match (old(self).ui_state.finalized_message, old(self).screen) {
                (Some(m), Screen::Chat(a)) => final(self).screen matches Screen::Chat(b) && !b.is_streaming
                    && same_view_but_messages(a, b) && message_views(b.messages@) == message_views(
                    a.messages@,
                ).push((m.0@, m.1@)),
                _ => final(self).screen == old(self).screen,
            },
    {
        let finalized = self.ui_state.finalized_message.take();
        match finalized {
            Some((role, content)) => {
                match &mut self.screen {
                    Screen::Chat(pane) => {
                        pane.add_message(role.as_str(), content.as_str());
                        pane.is_streaming = false;
                    },
                    Screen::Config(_) => {},
                }
            },
            None => {},
        }
    }

    /// Takes one item from the agent's stream while the chat is shown: a
    /// chunk is added to the streamed text, an error drops it.
    pub fn absorb_chunk(&mut self, item: Result<String, String>)
        ensures
            final(self).screen == old(self).screen,
            final(self).should_quit == old(self).should_quit,
            final(self).ui_state.debug_messages == old(self).ui_state.debug_messages,
            final(self).ui_state.finalized_message == old(self).ui_state.finalized_message,
            !(old(self).screen is Chat) ==> final(self).ui_state.streaming_text == old(self).ui_state.streaming_text,
            old(self).screen is Chat ==> match item {
                Ok(c) => final(self).ui_state.streaming_text matches Some(t) && t@ == (match old(self).ui_state.streaming_text {
                    Some(o) => o@ + c@,
                    None => c@,
                }),
                Err(_) => final(self).ui_state.streaming_text is None,
            },
    {
        if let Screen::Chat(_) = &self.screen {
            match item {
                Ok(chunk) => self.ui_state.append_streaming(chunk.as_str()),
                Err(_) => self.ui_state.clear_streaming(),
            }
        }
    }
}

/// Where an agent run sends its requests.
pub enum ProviderChoice {
    OpenAi { api_key: String, base_url: Option<String> },
    Anthropic(AnthropicProvider),
    Ollama(OllamaProvider),
    DeepSeek(DeepSeekProvider),
    MiniMax { api_key: String, base_url: Option<String>, model: Option<String> },
    Custom { name: String, api_key: String, base_url: String, model: String },
    /// A provider name that is not known: the agent keeps its own.
    Unchanged,
}

/// `o`'s text, or the empty text.
fn text_or_empty(o: Option<String>) -> (r: String)
    ensures
        r@ == or_default(o, Seq::empty()),
{
    match o {
        Some(s) => s,
        None => String::new(),
    }
}

/// The provider names the interface offers.
pub open spec fn is_known_provider(name: Seq<char>) -> bool {
    name == "openai"@ || name == "anthropic"@ || name == "ollama"@ || name == "deepseek"@ || name
        == "minimax"@ || name == "custom"@
}

/// `r` is the provider that a known name selects, with its settings; a
/// missing API key or base URL counts as empty where the provider needs one.
pub open spec fn known_choice(
    name: Seq<char>,
    api_key: Option<String>,
    base_url: Option<String>,
    model: String,
    r: ProviderChoice,
) -> bool {
    &&& name == "openai"@ ==> (r matches ProviderChoice::OpenAi { api_key: k, base_url: u } && k@ == or_default(api_key, Seq::empty()) && u == base_url)
    &&& name == "anthropic"@ ==> (r matches ProviderChoice::Anthropic(p) && p.api_key@ == or_default(api_key, Seq::empty())
        && p.base_url@ == or_default(base_url, "https://api.anthropic.com"@) && p.model is None)
    &&& name == "ollama"@ ==> (r matches ProviderChoice::Ollama(p) && p.base_url@ == or_default(base_url, "http://localhost:11434"@)
        && p.model@ == model@)
    &&& name == "deepseek"@ ==> (r matches ProviderChoice::DeepSeek(p) && p.api_key@ == or_default(api_key, Seq::empty())
        && p.base_url@ == or_default(base_url, "https://api.deepseek.com"@) && p.model@ == model@)
    &&& name == "minimax"@ ==> (r matches ProviderChoice::MiniMax { api_key: k, base_url: u, model: m } && k@ == or_default(api_key, Seq::empty())
        && u == base_url && m == Some(model))
    &&& name == "custom"@ ==> (r matches ProviderChoice::Custom { name: n, api_key: k, base_url: u, model: m } && n@ == "custom"@
        && k@ == or_default(api_key, Seq::empty()) && u@ == or_default(base_url, Seq::empty()) && m == model)
}

proof fn lemma_provider_names_differ()
    ensures
        "openai"@ != "anthropic"@ && "openai"@ != "ollama"@ && "openai"@ != "deepseek"@ && "openai"@ != "minimax"@ && "openai"@ != "custom"@,
        "anthropic"@ != "ollama"@ && "anthropic"@ != "deepseek"@ && "anthropic"@ != "minimax"@ && "anthropic"@ != "custom"@,
        "ollama"@ != "deepseek"@ && "ollama"@ != "minimax"@ && "ollama"@ != "custom"@,
        "deepseek"@ != "minimax"@ && "deepseek"@ != "custom"@,
        "minimax"@ != "custom"@,
{
    reveal_strlit("openai");
    reveal_strlit("anthropic");
    reveal_strlit("ollama");
    reveal_strlit("deepseek");
    reveal_strlit("minimax");
    reveal_strlit("custom");
    assert("openai"@[1] != "ollama"@[1]);
    assert("openai"@[0] != "anthropic"@[0] && "openai"@[0] != "deepseek"@[0]);
    assert("anthropic"@[0] != "ollama"@[0] && "anthropic"@[0] != "deepseek"@[0]);
    assert("ollama"@[0] != "deepseek"@[0]);
    assert("minimax"@[0] != "openai"@[0] && "minimax"@[0] != "anthropic"@[0] && "minimax"@[0] != "deepseek"@[0]);
    assert("custom"@[0] != "openai"@[0] && "custom"@[0] != "anthropic"@[0] && "custom"@[0] != "deepseek"@[0]);
    assert("custom"@[0] != "minimax"@[0]);
    assert("minimax"@[0] != "ollama"@[0] && "custom"@[0] != "ollama"@[0]);
}

/// Whether the interface offers a provider of this name.
pub fn known_provider(name: &str) -> (r: bool)
    ensures
        r == is_known_provider(name@),
{
    let n = crate::text::chars_of(name);
    crate::text::chars_eq(&n, &crate::text::chars_of("openai")) || crate::text::chars_eq(
        &n,
        &crate::text::chars_of("anthropic"),
    ) || crate::text::chars_eq(&n, &crate::text::chars_of("ollama")) || crate::text::chars_eq(
        &n,
        &crate::text::chars_of("deepseek"),
    ) || crate::text::chars_eq(&n, &crate::text::chars_of("minimax")) || crate::text::chars_eq(
        &n,
        &crate::text::chars_of("custom"),
    )
}

/// The provider a chat stream is sent to: a known name selects its provider
/// as for an agent run, and any other name falls back to OpenAI.
pub fn choose_stream_provider(name: &str, api_key: Option<String>, base_url: Option<String>, model: String) -> (r: ProviderChoice)
    ensures
        known_choice(name@, api_key, base_url, model, r),
        !is_known_provider(name@) ==> (r matches ProviderChoice::OpenAi { api_key: k, base_url: u } && k@ == or_default(api_key, Seq::empty())
            && u == base_url),
{
    if known_provider(name) {
        choose_provider(name, api_key, base_url, model)
    } else {
        ProviderChoice::OpenAi { api_key: text_or_empty(api_key), base_url }
    }
}

/// The provider an agent run uses, from the configured provider name and
/// its settings; a name the interface does not offer leaves the agent's own
/// provider unchanged.
pub fn choose_provider(name: &str, api_key: Option<String>, base_url: Option<String>, model: String) -> (r: ProviderChoice)
    ensures
        known_choice(name@, api_key, base_url, model, r),
        !is_known_provider(name@) ==> r is Unchanged,
{
    proof {
        lemma_provider_names_differ();
    }
    let n = crate::text::chars_of(name);
    if crate::text::chars_eq(&n, &crate::text::chars_of("openai")) {
        ProviderChoice::OpenAi { api_key: text_or_empty(api_key), base_url }
    } else if crate::text::chars_eq(&n, &crate::text::chars_of("anthropic")) {
        ProviderChoice::Anthropic(AnthropicProvider::new(text_or_empty(api_key), base_url))
    } else if crate::text::chars_eq(&n, &crate::text::chars_of("ollama")) {
        ProviderChoice::Ollama(OllamaProvider::new(base_url, Some(model)))
    } else if crate::text::chars_eq(&n, &crate::text::chars_of("deepseek")) {
        ProviderChoice::DeepSeek(DeepSeekProvider::new(text_or_empty(api_key), base_url, Some(model)))
    } else if crate::text::chars_eq(&n, &crate::text::chars_of("minimax")) {
        ProviderChoice::MiniMax { api_key: text_or_empty(api_key), base_url, model: Some(model) }
    } else if crate::text::chars_eq(&n, &crate::text::chars_of("custom")) {
        ProviderChoice::Custom {
            name: String::from_str("custom"),
            api_key: text_or_empty(api_key),
            base_url: text_or_empty(base_url),
            model,
        }
    } else {
        ProviderChoice::Unchanged
    }
}

/// Notes the start of a run against `provider` and drops any streamed text.
pub fn begin_run(ui: &mut UIState, provider: &str)
    ensures
        string_views(final(ui).debug_messages@) == debug_after(
            string_views(old(ui).debug_messages@),
            "Starting request to "@ + provider@,
        ),
        final(ui).streaming_text is None,
        final(ui).finalized_message == old(ui).finalized_message,
{
    ui.add_debug(concat_str("Starting request to ", provider));
    ui.streaming_text = None;
}

/// The number of bytes of a text in UTF-8.
pub open spec fn byte_len(s: Seq<char>) -> nat {
    vstd::utf8::encode_utf8(s).len()
}

/// Records how a run ended. An answer is noted by its length in bytes and,
/// unless empty, becomes the finished assistant message. An error is noted
/// and becomes a finished error message that quotes the text streamed so
/// far, which is taken.
pub fn end_run(ui: &mut UIState, outcome: Result<String, String>)
    requires
        outcome matches Ok(r) ==> byte_len(r@) <= u64::MAX,
    ensures
        match outcome {
            Ok(r) => {
                &&& string_views(final(ui).debug_messages@) == debug_after(
                    string_views(old(ui).debug_messages@),
                    "Response length: "@ + spec_decimal(byte_len(r@)),
                )
                &&& final(ui).streaming_text == old(ui).streaming_text
                &&& final(ui).finalized_message == if r@.len() == 0 {
                    old(ui).finalized_message
                } else {
                    Some((final(ui).finalized_message.unwrap().0, r))
                }
                &&& r@.len() != 0 ==> final(ui).finalized_message.unwrap().0@ == "assistant"@
            },
            Err(e) => {
                &&& string_views(final(ui).debug_messages@) == debug_after(
                    string_views(old(ui).debug_messages@),
                    "Error: "@ + e@,
                )
                &&& final(ui).streaming_text is None
                &&& final(ui).finalized_message matches Some(m) && m.0@ == "error"@ && m.1@ == e@
                    + " (partial: "@ + or_default(old(ui).streaming_text, Seq::empty()) + ")"@
            },
        },
{
    match outcome {
        Ok(response) => {
            let n = response.as_str().as_bytes_vec().len();
            let num = decimal(n as u64);
            ui.add_debug(concat_str("Response length: ", num.as_str()));
            if !response.as_str().is_empty() {
                ui.finalized_message = Some((String::from_str("assistant"), response));
            }
        },
        Err(e) => {
            ui.add_debug(concat_str("Error: ", e.as_str()));
            let partial = text_or_empty(ui.streaming_text.take());
            let head = concat_str(e.as_str(), " (partial: ");
            let body = concat_str(head.as_str(), partial.as_str());
            ui.finalized_message = Some((String::from_str("error"), concat_str(body.as_str(), ")")));
        },
    }
}

} // verus!
