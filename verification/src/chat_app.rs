//! The chat application's state and its reactions to keys and to what the
//! provider streams back. Drawing the screen and talking to the providers is
//! left to the caller, which performs the returned `AppEffect`.
use vstd::prelude::*;

use crate::input::{Key, KeyInput, MOD_CONTROL, only_ctrl};
use crate::text::{chars_of, spec_trim, string_from_chars, trim_chars};

verus! {

/// The screen the application shows.
#[derive(Debug, Clone, Copy, PartialEq, Eq, Structural)]
pub enum AppMode {
    Chat,
    ConfigProvider,
    ConfigApiKey,
    ConfigModel,
    ConfigUrl,
    ConfigCustomName,
    ConfigCustomUrl,
    ConfigFetchModels,
    ConfigSelectModel,
}

/// Work that a key or an event asks the caller to do.
#[derive(Debug, Clone)]
pub enum AppEffect {
    Nothing,
    /// Stream the conversation to the current provider.
    SendToProvider,
    /// Make the named provider the current one.
    SetProvider(String),
    /// Store an API key for the current provider.
    SaveApiKey(String),
    /// Store a model name for the current provider.
    SaveModel(String),
    /// Store a base URL for the current provider.
    SaveBaseUrl(String),
    /// Ask the current provider for its models.
    FetchModels,
}

/// The text of an effect's payload.
pub enum AppEffectView {
    Nothing,
    SendToProvider,
    SetProvider(Seq<char>),
    SaveApiKey(Seq<char>),
    SaveModel(Seq<char>),
    SaveBaseUrl(Seq<char>),
    FetchModels,
}

impl View for AppEffect {
    type V = AppEffectView;

    open spec fn view(&self) -> AppEffectView {
        match self {
            AppEffect::Nothing => AppEffectView::Nothing,
            AppEffect::SendToProvider => AppEffectView::SendToProvider,
            AppEffect::SetProvider(s) => AppEffectView::SetProvider(s@),
            AppEffect::SaveApiKey(s) => AppEffectView::SaveApiKey(s@),
            AppEffect::SaveModel(s) => AppEffectView::SaveModel(s@),
            AppEffect::SaveBaseUrl(s) => AppEffectView::SaveBaseUrl(s@),
            AppEffect::FetchModels => AppEffectView::FetchModels,
        }
    }
}

/// What the provider's stream reports.
#[derive(Debug, Clone)]
pub enum StreamEvent {
    /// A piece of the answer.
    Chunk(String),
    /// The request failed, with the error's text.
    Failed(String),
    /// The stream closed.
    Finished,
}

/// The chat application's state.
pub struct App {
    pub mode: AppMode,
    /// Conversation so far, as (role, content).
    pub messages: Vec<(String, String)>,
    pub input: String,
    /// Cursor position in the input, in characters.
    pub cursor_char_pos: usize,
    pub should_quit: bool,
    /// The answer being streamed, if one is.
    pub streaming_text: Option<String>,
    /// A provider stream is open.
    pub awaiting_response: bool,
    pub fetched_models: Vec<String>,
    pub model_fetch_error: Option<String>,
    /// A model list request is open.
    pub awaiting_models: bool,
    pub system_prompt: Option<String>,
    pub scroll_offset: usize,
    pub content_height: usize,
}

/// The application's state as text and numbers.
pub struct AppView {
    pub mode: AppMode,
    pub messages: Seq<(Seq<char>, Seq<char>)>,
    pub input: Seq<char>,
    pub cursor: nat,
    pub should_quit: bool,
    pub streaming: Option<Seq<char>>,
    pub awaiting_response: bool,
    pub fetched_models: Seq<Seq<char>>,
    pub model_fetch_error: Option<Seq<char>>,
    pub awaiting_models: bool,
    pub system_prompt: Option<Seq<char>>,
    pub scroll_offset: nat,
    pub content_height: nat,
}

pub open spec fn opt_str(o: Option<String>) -> Option<Seq<char>> {
    match o {
        Some(s) => Some(s@),
        None => None,
    }
}

pub open spec fn message_views(m: Seq<(String, String)>) -> Seq<(Seq<char>, Seq<char>)> {
    m.map_values(|p: (String, String)| (p.0@, p.1@))
}

impl View for App {
    type V = AppView;

    open spec fn view(&self) -> AppView {
        AppView {
            mode: self.mode,
            messages: message_views(self.messages@),
            input: self.input@,
            cursor: self.cursor_char_pos as nat,
            should_quit: self.should_quit,
            streaming: opt_str(self.streaming_text),
            awaiting_response: self.awaiting_response,
            fetched_models: self.fetched_models@.map_values(|s: String| s@),
            model_fetch_error: opt_str(self.model_fetch_error),
            awaiting_models: self.awaiting_models,
            system_prompt: opt_str(self.system_prompt),
            scroll_offset: self.scroll_offset as nat,
            content_height: self.content_height as nat,
        }
    }
}

// ---------------------------------------------------------------------------
// Specification of the transitions
// ---------------------------------------------------------------------------

/// `s` with `c` inserted before position `i`.
pub open spec fn insert_at(s: Seq<char>, i: nat, c: char) -> Seq<char> {
    s.take(i as int).push(c) + s.skip(i as int)
}

/// `s` without its character at position `i`.
pub open spec fn remove_at(s: Seq<char>, i: nat) -> Seq<char> {
    s.take(i as int) + s.skip((i + 1) as int)
}

/// The effect of an editing key on the input and the cursor, or `None` for a
/// key that does not edit.
pub open spec fn edit_step(v: AppView, code: Key) -> Option<AppView> {
    match code {
        Key::Char(c) => Some(AppView { input: insert_at(v.input, v.cursor, c), cursor: v.cursor + 1, ..v }),
        Key::Backspace => Some(
            if v.cursor == 0 || v.input.len() == 0 {
                v
            } else {
                AppView { input: remove_at(v.input, (v.cursor - 1) as nat), cursor: (v.cursor - 1) as nat, ..v }
            },
        ),
        Key::Delete => Some(
            if v.cursor >= v.input.len() || v.input.len() == 0 {
                v
            } else {
                AppView { input: remove_at(v.input, v.cursor), ..v }
            },
        ),
        Key::Left => Some(
            if v.cursor > 0 {
                AppView { cursor: (v.cursor - 1) as nat, ..v }
            } else {
                v
            },
        ),
        Key::Right => Some(
            if v.cursor < v.input.len() {
                AppView { cursor: v.cursor + 1, ..v }
            } else {
                v
            },
        ),
        Key::Home => Some(AppView { cursor: 0, ..v }),
        Key::End => Some(AppView { cursor: v.input.len(), ..v }),
        _ => None,
    }
}

/// Keys of the chat screen. While an answer streams only scrolling and Esc
/// (which drops the answer) act. Otherwise Ctrl+Q quits, Ctrl+S opens the
/// settings, editing keys edit, and Enter sends a non-blank input as a user
/// message, trimmed.
pub open spec fn chat_step(v: AppView, k: KeyInput) -> (AppView, AppEffectView) {
    if v.awaiting_response || v.streaming is Some {
        let next = match k.code {
            Key::Up => if v.scroll_offset > 0 {
                AppView { scroll_offset: (v.scroll_offset - 1) as nat, ..v }
            } else {
                v
            },
            Key::Down => {
                let max_scroll: nat = if v.content_height > 0 {
                    (v.content_height - 1) as nat
                } else {
                    0
                };
                if v.scroll_offset < max_scroll {
                    AppView { scroll_offset: v.scroll_offset + 1, ..v }
                } else {
                    v
                }
            },
            Key::Esc => AppView { streaming: None, awaiting_response: false, ..v },
            _ => v,
        };
        (next, AppEffectView::Nothing)
    } else {
        match k.code {
            Key::Char(c) => if only_ctrl(k) {
                if c == 'q' || c == 'Q' {
                    (AppView { should_quit: true, ..v }, AppEffectView::Nothing)
                } else if c == 's' || c == 'S' {
                    (AppView { mode: AppMode::ConfigProvider, ..v }, AppEffectView::Nothing)
                } else {
                    (v, AppEffectView::Nothing)
                }
            } else {
                (edit_step(v, k.code).unwrap(), AppEffectView::Nothing)
            },
            Key::Enter => if spec_trim(v.input).len() != 0 {
                (
                    AppView {
                        messages: v.messages.push(("user"@, spec_trim(v.input))),
                        input: Seq::empty(),
                        cursor: 0,
                        streaming: Some(Seq::empty()),
                        awaiting_response: true,
                        ..v
                    },
                    AppEffectView::SendToProvider,
                )
            } else {
                (v, AppEffectView::Nothing)
            },
            _ => match edit_step(v, k.code) {
                Some(n) => (n, AppEffectView::Nothing),
                None => (v, AppEffectView::Nothing),
            },
        }
    }
}

/// The provider that keys `1` to `5` select on the provider screen.
pub open spec fn provider_key(c: char) -> Option<Seq<char>> {
    if c == '1' {
        Some("openai"@)
    } else if c == '2' {
        Some("anthropic"@)
    } else if c == '3' {
        Some("ollama"@)
    } else if c == '4' {
        Some("deepseek"@)
    } else if c == '5' {
        Some("minimax"@)
    } else {
        None
    }
}

/// Keys of the provider screen: digits pick a provider, C opens the custom
/// provider form, F fetches the model list, Esc returns to the chat.
pub open spec fn provider_step(v: AppView, k: KeyInput) -> (AppView, AppEffectView) {
    match k.code {
        Key::Char(c) => if provider_key(c) is Some {
            (v, AppEffectView::SetProvider(provider_key(c).unwrap()))
        } else if c == 'c' || c == 'C' {
            (AppView { mode: AppMode::ConfigCustomName, ..v }, AppEffectView::Nothing)
        } else if c == 'f' || c == 'F' {
            (
                AppView { awaiting_models: true, mode: AppMode::ConfigFetchModels, ..v },
                AppEffectView::FetchModels,
            )
        } else {
            (v, AppEffectView::Nothing)
        },
        Key::Esc => (AppView { mode: AppMode::Chat, ..v }, AppEffectView::Nothing),
        _ => (v, AppEffectView::Nothing),
    }
}

/// What saving a settings form stores.
pub open spec fn save_effect(mode: AppMode, input: Seq<char>) -> AppEffectView {
    match mode {
        AppMode::ConfigApiKey => AppEffectView::SaveApiKey(input),
        AppMode::ConfigModel => AppEffectView::SaveModel(input),
        AppMode::ConfigUrl => AppEffectView::SaveBaseUrl(input),
        _ => AppEffectView::Nothing,
    }
}

/// Keys of a settings form: editing keys edit; Enter saves and Esc discards,
/// and both return to the provider screen with an empty input.
pub open spec fn form_step(v: AppView, k: KeyInput) -> (AppView, AppEffectView) {
    match k.code {
        Key::Enter => (
            AppView { input: Seq::empty(), cursor: 0, mode: AppMode::ConfigProvider, ..v },
            save_effect(v.mode, v.input),
        ),
        Key::Esc => (
            AppView { input: Seq::empty(), cursor: 0, mode: AppMode::ConfigProvider, ..v },
            AppEffectView::Nothing,
        ),
        _ => match edit_step(v, k.code) {
            Some(n) => (n, AppEffectView::Nothing),
            None => (v, AppEffectView::Nothing),
        },
    }
}

/// The reaction to a key in any mode.
pub open spec fn key_step(v: AppView, k: KeyInput) -> (AppView, AppEffectView) {
    match v.mode {
        AppMode::Chat => chat_step(v, k),
        AppMode::ConfigProvider => provider_step(v, k),
        AppMode::ConfigFetchModels => if k.code == Key::Esc {
            (
                AppView {
                    awaiting_models: false,
                    model_fetch_error: None,
                    mode: AppMode::ConfigProvider,
                    ..v
                },
                AppEffectView::Nothing,
            )
        } else {
            (v, AppEffectView::Nothing)
        },
        AppMode::ConfigSelectModel => if k.code == Key::Esc {
            (
                AppView { fetched_models: Seq::empty(), mode: AppMode::ConfigProvider, ..v },
                AppEffectView::Nothing,
            )
        } else {
            (v, AppEffectView::Nothing)
        },
        _ => form_step(v, k),
    }
}

/// The reaction to the provider's stream while an answer is awaited: chunks
/// add to the answer; a failure becomes an error message that quotes what had
/// arrived; the end of the stream files a nonempty answer as the assistant's.
pub open spec fn stream_step(v: AppView, e: StreamEvent) -> AppView {
    if !v.awaiting_response {
        v
    } else {
        match e {
            StreamEvent::Chunk(c) => AppView {
                streaming: Some(
                    match v.streaming {
                        Some(t) => t + c@,
                        None => c@,
                    },
                ),
                ..v
            },
            StreamEvent::Failed(err) => {
                let partial = match v.streaming {
                    Some(t) => t,
                    None => Seq::empty(),
                };
                AppView {
                    messages: v.messages.push(("error"@, err@ + " (partial: "@ + partial + ")"@)),
                    streaming: None,
                    awaiting_response: false,
                    ..v
                }
            },
            StreamEvent::Finished => AppView {
                messages: match v.streaming {
                    Some(t) => if t.len() > 0 {
                        v.messages.push(("assistant"@, t))
                    } else {
                        v.messages
                    },
                    None => v.messages,
                },
                streaming: None,
                awaiting_response: false,
                ..v
            },
        }
    }
}

impl App {
    /// The cursor stays within the input.
    pub open spec fn wf(&self) -> bool {
        self.cursor_char_pos <= self.input@.len()
    }

    /// A fresh application on the chat screen.
    pub fn new(system_prompt: Option<String>) -> (r: Self)
        ensures
            r.wf(),
            r@.mode == AppMode::Chat,
            r@.messages.len() == 0,
            r@.input.len() == 0,
            r@.cursor == 0,
            !r@.should_quit,
            r@.streaming is None,
            !r@.awaiting_response,
            r@.fetched_models.len() == 0,
            r@.model_fetch_error is None,
            !r@.awaiting_models,
            r@.system_prompt == opt_str(system_prompt),
            r@.scroll_offset == 0,
            r@.content_height == 0,
    {
        let r = App {
            mode: AppMode::Chat,
            messages: Vec::new(),
            input: String::new(),
            cursor_char_pos: 0,
            should_quit: false,
            streaming_text: None,
            awaiting_response: false,
            fetched_models: Vec::new(),
            model_fetch_error: None,
            awaiting_models: false,
            system_prompt,
            scroll_offset: 0,
            content_height: 0,
        };
        assert(r@.messages =~= Seq::empty());
        assert(r@.fetched_models =~= Seq::empty());
        r
    }

    fn insert_char_at_cursor(&mut self, c: char)
        requires
            old(self).wf(),
            old(self).input@.len() < usize::MAX,
        ensures
            final(self).wf(),
            final(self)@ == (AppView {
                input: insert_at(old(self)@.input, old(self)@.cursor, c),
                cursor: old(self)@.cursor + 1,
                ..old(self)@
            }),
    {
        let chars = chars_of(self.input.as_str());
        let pos = self.cursor_char_pos;
        let mut out: Vec<char> = Vec::new();
        let mut i: usize = 0;
        while i < pos
            invariant
                i <= pos <= chars@.len(),
                out@ == chars@.take(i as int),
            decreases pos - i,
        {
            out.push(chars[i]);
            i = i + 1;
            assert(out@ =~= chars@.take(i as int));
        }
        out.push(c);
        while i < chars.len()
            invariant
                pos <= i <= chars@.len(),
                out@ == chars@.take(pos as int).push(c) + chars@.subrange(pos as int, i as int),
            decreases chars@.len() - i,
        {
            out.push(chars[i]);
            i = i + 1;
            assert(out@ =~= chars@.take(pos as int).push(c) + chars@.subrange(pos as int, i as int));
        }
        assert(chars@.subrange(pos as int, chars@.len() as int) =~= chars@.skip(pos as int));
        self.input = string_from_chars(&out);
        self.cursor_char_pos = pos + 1;
    }

    /// Removes the character at `at`, a position inside the input.
    fn remove_char(&mut self, at: usize)
        requires
            at < old(self).input@.len(),
        ensures
            final(self)@ == (AppView { input: remove_at(old(self)@.input, at as nat), ..old(self)@ }),
            final(self).cursor_char_pos == old(self).cursor_char_pos,
    {
        let chars = chars_of(self.input.as_str());
        let mut out: Vec<char> = Vec::new();
        let mut i: usize = 0;
        while i < chars.len()
            invariant
                i <= chars@.len(),
                at < chars@.len(),
                out@ == (if i <= at {
                    chars@.take(i as int)
                } else {
                    chars@.take(at as int) + chars@.subrange(at + 1, i as int)
                }),
            decreases chars@.len() - i,
        {
            if i != at {
                out.push(chars[i]);
            }
            i = i + 1;
            assert(out@ =~= (if i <= at {
                chars@.take(i as int)
            } else {
                chars@.take(at as int) + chars@.subrange(at + 1, i as int)
            }));
        }
        assert(chars@.subrange(at + 1, chars@.len() as int) =~= chars@.skip(at + 1));
        self.input = string_from_chars(&out);
    }

    /// Applies an editing key; false (and no change) for any other key.
    fn edit(&mut self, code: Key) -> (edited: bool)
        requires
            old(self).wf(),
            old(self).input@.len() < usize::MAX,
        ensures
            final(self).wf(),
            edited == (edit_step(old(self)@, code) is Some),
            edited ==> final(self)@ == edit_step(old(self)@, code).unwrap(),
            !edited ==> final(self)@ == old(self)@,
    {
        let len = chars_of(self.input.as_str()).len();
        match code {
            Key::Char(c) => {
                self.insert_char_at_cursor(c);
                true
            },
            Key::Backspace => {
                if self.cursor_char_pos > 0 && len > 0 {
                    let target = self.cursor_char_pos - 1;
                    self.remove_char(target);
                    self.cursor_char_pos = target;
                }
                true
            },
            Key::Delete => {
                if self.cursor_char_pos < len && len > 0 {
                    let at = self.cursor_char_pos;
                    self.remove_char(at);
                }
                true
            },
            Key::Left => {
                if self.cursor_char_pos > 0 {
                    self.cursor_char_pos = self.cursor_char_pos - 1;
                }
                true
            },
            Key::Right => {
                if self.cursor_char_pos < len {
                    self.cursor_char_pos = self.cursor_char_pos + 1;
                }
                true
            },
            Key::Home => {
                self.cursor_char_pos = 0;
                true
            },
            Key::End => {
                self.cursor_char_pos = len;
                true
            },
            _ => false,
        }
    }
}

impl App {
    /// Reacts to a key press as `key_step` describes, returning the work the
    /// caller has to do.
    pub fn handle_key_event(&mut self, key: KeyInput) -> (e: AppEffect)
        requires
            old(self).wf(),
            old(self).input@.len() < usize::MAX,
        ensures
            final(self).wf(),
            (final(self)@, e@) == key_step(old(self)@, key),
    {
        match self.mode {
            AppMode::Chat => self.handle_chat_key(key),
            AppMode::ConfigProvider => self.handle_config_provider_key(key),
            AppMode::ConfigFetchModels => {
                if let Key::Esc = key.code {
                    self.awaiting_models = false;
                    self.model_fetch_error = None;
                    self.mode = AppMode::ConfigProvider;
                }
                AppEffect::Nothing
            },
            AppMode::ConfigSelectModel => {
                if let Key::Esc = key.code {
                    self.fetched_models = Vec::new();
                    self.mode = AppMode::ConfigProvider;
                    assert(self@.fetched_models =~= Seq::<Seq<char>>::empty());
                }
                AppEffect::Nothing
            },
            _ => self.handle_config_input_key(key),
        }
    }

    fn handle_chat_key(&mut self, key: KeyInput) -> (e: AppEffect)
        requires
            old(self).wf(),
            old(self).input@.len() < usize::MAX,
        ensures
            final(self).wf(),
            (final(self)@, e@) == chat_step(old(self)@, key),
    {
        if self.awaiting_response || self.streaming_text.is_some() {
            match key.code {
                Key::Up => {
                    if self.scroll_offset > 0 {
                        self.scroll_offset = self.scroll_offset - 1;
                    }
                },
                Key::Down => {
                    let max_scroll = if self.content_height > 0 {
                        self.content_height - 1
                    } else {
                        0
                    };
                    if self.scroll_offset < max_scroll {
                        self.scroll_offset = self.scroll_offset + 1;
                    }
                },
                Key::Esc => {
                    self.streaming_text = None;
                    self.awaiting_response = false;
                },
                _ => {},
            }
            return AppEffect::Nothing;
        }
        match key.code {
            Key::Char(c) => {
                if key.modifiers == MOD_CONTROL {
                    if c == 'q' || c == 'Q' {
                        self.should_quit = true;
                    } else if c == 's' || c == 'S' {
                        self.mode = AppMode::ConfigProvider;
                    }
                } else {
                    self.edit(key.code);
                }
                AppEffect::Nothing
            },
            Key::Enter => {
                let chars = chars_of(self.input.as_str());
                let trimmed = trim_chars(&chars);
                if trimmed.len() != 0 {
                    let ghost m0 = self.messages@;
                    let entry = (String::from_str("user"), string_from_chars(&trimmed));
                    self.messages.push(entry);
                    assert(message_views(self.messages@) =~= message_views(m0).push(
                        ("user"@, spec_trim(chars@)),
                    ));
                    self.input = String::new();
                    self.cursor_char_pos = 0;
                    self.streaming_text = Some(String::new());
                    self.awaiting_response = true;
                    AppEffect::SendToProvider
                } else {
                    AppEffect::Nothing
                }
            },
            _ => {
                self.edit(key.code);
                AppEffect::Nothing
            },
        }
    }

    fn handle_config_provider_key(&mut self, key: KeyInput) -> (e: AppEffect)
        requires
            old(self).wf(),
        ensures
            final(self).wf(),
            (final(self)@, e@) == provider_step(old(self)@, key),
    {
        match key.code {
            Key::Char(c) => {
                if c == '1' {
                    AppEffect::SetProvider(String::from_str("openai"))
                } else if c == '2' {
                    AppEffect::SetProvider(String::from_str("anthropic"))
                } else if c == '3' {
                    AppEffect::SetProvider(String::from_str("ollama"))
                } else if c == '4' {
                    AppEffect::SetProvider(String::from_str("deepseek"))
                } else if c == '5' {
                    AppEffect::SetProvider(String::from_str("minimax"))
                } else if c == 'c' || c == 'C' {
                    self.mode = AppMode::ConfigCustomName;
                    AppEffect::Nothing
                } else if c == 'f' || c == 'F' {
                    self.awaiting_models = true;
                    self.mode = AppMode::ConfigFetchModels;
                    AppEffect::FetchModels
                } else {
                    AppEffect::Nothing
                }
            },
            Key::Esc => {
                self.mode = AppMode::Chat;
                AppEffect::Nothing
            },
            _ => AppEffect::Nothing,
        }
    }

    fn handle_config_input_key(&mut self, key: KeyInput) -> (e: AppEffect)
        requires
            old(self).wf(),
            old(self).input@.len() < usize::MAX,
        ensures
            final(self).wf(),
            (final(self)@, e@) == form_step(old(self)@, key),
    {
        match key.code {
            Key::Enter => {
                let e = match self.mode {
                    AppMode::ConfigApiKey => AppEffect::SaveApiKey(self.input.clone()),
                    AppMode::ConfigModel => AppEffect::SaveModel(self.input.clone()),
                    AppMode::ConfigUrl => AppEffect::SaveBaseUrl(self.input.clone()),
                    _ => AppEffect::Nothing,
                };
                self.input = String::new();
                self.cursor_char_pos = 0;
                self.mode = AppMode::ConfigProvider;
                e
            },
            Key::Esc => {
                self.input = String::new();
                self.cursor_char_pos = 0;
                self.mode = AppMode::ConfigProvider;
                AppEffect::Nothing
            },
            _ => {
                self.edit(key.code);
                AppEffect::Nothing
            },
        }
    }

    /// Takes in what the provider's stream reports, as `stream_step`
    /// describes.
    pub fn on_stream_event(&mut self, event: StreamEvent)
        requires
            old(self).wf(),
        ensures
            final(self).wf(),
            final(self)@ == stream_step(old(self)@, event),
    {
        if !self.awaiting_response {
            return;
        }
        let ghost m0 = self.messages@;
        match event {
            StreamEvent::Chunk(chunk) => {
                let next = match self.streaming_text.take() {
                    Some(t) => {
                        let mut t = t;
                        t.append(chunk.as_str());
                        t
                    },
                    None => chunk,
                };
                self.streaming_text = Some(next);
            },
            StreamEvent::Failed(err) => {
                let partial = match self.streaming_text.take() {
                    Some(t) => t,
                    None => String::new(),
                };
                let mut text = err;
                text.append(" (partial: ");
                text.append(partial.as_str());
                text.append(")");
                let entry = (String::from_str("error"), text);
                self.messages.push(entry);
                assert(message_views(self.messages@) =~= message_views(m0).push(
                    (entry.0@, entry.1@),
                ));
                self.awaiting_response = false;
            },
            StreamEvent::Finished => {
                if let Some(final_text) = self.streaming_text.take() {
                    if !final_text.as_str().is_empty() {
                        let entry = (String::from_str("assistant"), final_text);
                        self.messages.push(entry);
                        assert(message_views(self.messages@) =~= message_views(m0).push(
                            (entry.0@, entry.1@),
                        ));
                    }
                }
                self.awaiting_response = false;
            },
        }
    }
}

/// The reaction to a model list arriving while one is awaited: an empty list
/// is an error, a nonempty one opens the model picker.
pub open spec fn models_step(v: AppView, r: Result<Seq<Seq<char>>, Seq<char>>) -> AppView {
    if !v.awaiting_models {
        v
    } else {
        match r {
            Ok(ms) => if ms.len() == 0 {
                AppView {
                    model_fetch_error: Some("No models found"@),
                    awaiting_models: false,
                    ..v
                }
            } else {
                AppView {
                    fetched_models: ms,
                    mode: AppMode::ConfigSelectModel,
                    awaiting_models: false,
                    ..v
                }
            },
            Err(e) => AppView { model_fetch_error: Some(e), awaiting_models: false, ..v },
        }
    }
}

/// How a message's role is coloured.
#[derive(Debug, Clone, Copy, PartialEq, Eq, Structural)]
pub enum RoleStyle {
    User,
    Assistant,
    System,
    Error,
    Other,
}

/// The colouring of a role.
pub open spec fn spec_role_style(role: Seq<char>) -> RoleStyle {
    if role == "user"@ {
        RoleStyle::User
    } else if role == "assistant"@ {
        RoleStyle::Assistant
    } else if role == "system"@ {
        RoleStyle::System
    } else if role == "error"@ {
        RoleStyle::Error
    } else {
        RoleStyle::Other
    }
}

/// The label in front of a message: `[assistant <model>]: ` for the
/// assistant, `[<role>]: ` otherwise.
pub open spec fn spec_role_prefix(role: Seq<char>, model: Seq<char>) -> Seq<char> {
    if role == "assistant"@ {
        "[assistant "@ + model + "]: "@
    } else {
        "["@ + role + "]: "@
    }
}

/// The input box: a prompt, the input and a block cursor at its end.
pub open spec fn spec_input_with_cursor(input: Seq<char>) -> Seq<char> {
    if input.len() == 0 {
        "> ▌"@
    } else {
        "> "@ + input + "▌"@
    }
}

/// Whether two strings are equal.
fn same_text(a: &str, b: &str) -> (r: bool)
    ensures
        r == (a@ == b@),
{
    crate::text::chars_eq(&chars_of(a), &chars_of(b))
}

/// The colouring of a role.
pub fn role_style(role: &str) -> (r: RoleStyle)
    ensures
        r == spec_role_style(role@),
{
    if same_text(role, "user") {
        RoleStyle::User
    } else if same_text(role, "assistant") {
        RoleStyle::Assistant
    } else if same_text(role, "system") {
        RoleStyle::System
    } else if same_text(role, "error") {
        RoleStyle::Error
    } else {
        RoleStyle::Other
    }
}

/// The label in front of a message.
pub fn role_prefix(role: &str, model: &str) -> (r: String)
    ensures
        r@ == spec_role_prefix(role@, model@),
{
    if same_text(role, "assistant") {
        let mut r = String::from_str("[assistant ");
        r.append(model);
        r.append("]: ");
        r
    } else {
        let mut r = String::from_str("[");
        r.append(role);
        r.append("]: ");
        r
    }
}

/// The input box text for an input and a cursor position.
pub fn display_input_with_cursor(input: &str, char_pos: usize) -> (r: String)
    ensures
        r@ == spec_input_with_cursor(input@),
{
    if input.is_empty() {
        return String::from_str("> ▌");
    }
    let mut r = String::from_str("> ");
    r.append(input);
    r.append("▌");
    r
}

/// The status bar of the chat screen.
pub fn status_line(provider: &str) -> (r: String)
    ensures
        r@ == "["@ + provider@ + "] - Press Ctrl+Q to quit, Ctrl+S for settings"@,
{
    let mut r = String::from_str("[");
    r.append(provider);
    r.append("] - Press Ctrl+Q to quit, Ctrl+S for settings");
    r
}

impl App {
    /// Takes in a model list request's outcome, as `models_step` describes.
    pub fn on_models_fetched(&mut self, result: Result<Vec<String>, String>)
        requires
            old(self).wf(),
        ensures
            final(self).wf(),
            final(self)@ == models_step(
                old(self)@,
                match result {
                    Ok(ms) => Ok(ms@.map_values(|s: String| s@)),
                    Err(e) => Err(e@),
                },
            ),
    {
        if !self.awaiting_models {
            return;
        }
        match result {
            Ok(models) => {
                if models.len() == 0 {
                    self.model_fetch_error = Some(String::from_str("No models found"));
                } else {
                    self.fetched_models = models;
                    self.mode = AppMode::ConfigSelectModel;
                }
            },
            Err(e) => {
                self.model_fetch_error = Some(e);
            },
        }
        self.awaiting_models = false;
    }

    /// Records how many lines the conversation takes and keeps the scroll
    /// position within reach of `visible_height` lines; returns the largest
    /// scroll position.
    pub fn set_content_height(&mut self, content_height: usize, visible_height: usize) -> (max_scroll: usize)
        requires
            old(self).wf(),
        ensures
            final(self).wf(),
            max_scroll == (if content_height > visible_height {
                content_height - visible_height
            } else {
                0
            }),
            final(self)@ == (AppView {
                content_height: content_height as nat,
                scroll_offset: if old(self).scroll_offset > max_scroll {
                    max_scroll as nat
                } else {
                    old(self).scroll_offset as nat
                },
                ..old(self)@
            }),
    {
        self.content_height = content_height;
        let max_scroll = if content_height > visible_height {
            content_height - visible_height
        } else {
            0
        };
        if self.scroll_offset > max_scroll {
            self.scroll_offset = max_scroll;
        }
        max_scroll
    }

    /// The input box text: a bare prompt for an empty input.
    pub fn input_line(&self) -> (r: String)
        ensures
            r@ == (if self.input@.len() == 0 {
                "> "@
            } else {
                spec_input_with_cursor(self.input@)
            }),
    {
        if self.input.as_str().is_empty() {
            String::from_str("> ")
        } else {
            display_input_with_cursor(self.input.as_str(), self.cursor_char_pos)
        }
    }

    /// Cells between the start of the input and the cursor.
    pub fn cursor_offset(&self) -> (r: usize)
        requires
            self.wf(),
            self.input@.len() <= usize::MAX / 2,
        ensures
            r == crate::width::spec_text_width(self.input@.take(self.cursor_char_pos as int)),
    {
        let chars = chars_of(self.input.as_str());
        let before = crate::text::slice_chars(&chars, 0, self.cursor_char_pos);
        crate::width::chars_width(&before)
    }
}

} // verus!
