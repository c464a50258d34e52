//! State shared by the views of the terminal interface: the actions a view
//! asks for, which view is shown, the chat and settings views' state, and the
//! streaming and debug buffers.
use vstd::prelude::*;

use crate::input::{Key, KeyInput};
use crate::text::{chars_eq, chars_of, extend_chars, join_chars, string_from_chars, string_views, views};

verus! {

/// Provider and model that the chat view talks to.
#[derive(Debug, Clone)]
pub struct ChatContext {
    pub current_provider: String,
    pub current_model: String,
}

impl ChatContext {
    pub fn new(provider: &str, model: &str) -> (r: Self)
        ensures
            r.current_provider@ == provider@,
            r.current_model@ == model@,
    {
        ChatContext { current_provider: String::from_str(provider), current_model: String::from_str(model) }
    }
}

/// The provider being edited in the settings view.
#[derive(Debug, Clone)]
pub struct ConfigContext {
    pub editing_provider: Option<String>,
}

impl ConfigContext {
    pub fn new() -> (r: Self)
        ensures
            r.editing_provider is None,
    {
        ConfigContext { editing_provider: None }
    }
}

impl Default for ConfigContext {
    fn default() -> (r: Self)
        ensures
            r.editing_provider is None,
    {
        ConfigContext::new()
    }
}

/// Which view is shown, with its context.
#[derive(Debug, Clone)]
pub enum ViewState {
    Chat(ChatContext),
    Config(ConfigContext),
}

impl ViewState {
    /// The chat context, when the chat view is shown.
    pub fn as_chat(&self) -> (r: Option<&ChatContext>)
        ensures
            r matches Some(c) ==> *self == ViewState::Chat(*c),
            r is None <==> !(*self is Chat),
    {
        match self {
            ViewState::Chat(ctx) => Some(ctx),
            _ => None,
        }
    }

    /// The settings context, when the settings view is shown.
    pub fn as_config(&self) -> (r: Option<&ConfigContext>)
        ensures
            r matches Some(c) ==> *self == ViewState::Config(*c),
            r is None <==> !(*self is Config),
    {
        match self {
            ViewState::Config(ctx) => Some(ctx),
            _ => None,
        }
    }
}

/// What a view asks the application to do.
#[derive(Debug, Clone)]
pub enum Action {
    SendMessage(String),
    CancelStreaming,
    AppendMessage(String, String),
    SwitchView(ViewState),
    GoBack,
    ScrollUp,
    ScrollDown,
    ScrollDebugUp,
    ScrollDebugDown,
    ResetScroll,
    InputChar(char),
    InputBackspace,
    InputDelete,
    InputHome,
    InputEnd,
    InputLeft,
    InputRight,
    ClearInput,
    SelectProvider(String),
    SaveApiKey(String),
    SaveModel(String),
    SaveBaseUrl(String),
    FetchModels,
    SelectModel(String),
    ToggleDebug,
    Quit,
}

// ---------------------------------------------------------------------------
// Describing an action
// ---------------------------------------------------------------------------

/// What `char::escape_debug` yields for `c`: the character as std's
/// `Debug` output writes it, with a backslash escape for the quotes, the
/// backslash and the common control characters, and `\u{..}` for the other
/// characters that are not printable or that extend a grapheme.
pub uninterp spec fn spec_escape_debug(c: char) -> Seq<char>;

/// `char::escape_debug`, collected into characters. Its result is named
/// `spec_escape_debug`: it depends on the character alone, through the
/// Unicode tables of std; what it is for each character is not stated here.
#[verifier::external_body]
fn escape_debug_chars(c: char) -> (r: Vec<char>)
    ensures
        r@ == spec_escape_debug(c),
{
    c.escape_debug().collect()
}

/// A character as `Debug` writes it inside a quoted text (`in_char` false)
/// or a quoted character (`in_char` true): as `char::escape_debug` escapes
/// it, except that the quote of the other kind stands as it is.
pub open spec fn escaped(c: char, in_char: bool) -> Seq<char> {
    if c == '"' && in_char {
        seq!['"']
    } else if c == '\'' && !in_char {
        seq!['\'']
    } else {
        spec_escape_debug(c)
    }
}

/// Every character of `s` escaped.
pub open spec fn escaped_all(s: Seq<char>, in_char: bool) -> Seq<char>
    decreases s.len(),
{
    if s.len() == 0 {
        Seq::empty()
    } else {
        escaped_all(s.drop_last(), in_char) + escaped(s.last(), in_char)
    }
}

/// A text in double quotes, escaped.
pub open spec fn quoted(s: Seq<char>) -> Seq<char> {
    seq!['"'] + escaped_all(s, false) + seq!['"']
}

/// An optional text: `None`, or `Some(` the quoted text `)`.
pub open spec fn quoted_opt(o: Option<String>) -> Seq<char> {
    match o {
        Some(s) => "Some("@ + quoted(s@) + ")"@,
        None => "None"@,
    }
}

/// The description of a view state, in the form `derive(Debug)` prints it.
pub open spec fn view_state_text(v: ViewState) -> Seq<char> {
    match v {
        ViewState::Chat(c) => "Chat(ChatContext { current_provider: "@ + quoted(c.current_provider@)
            + ", current_model: "@ + quoted(c.current_model@) + " })"@,
        ViewState::Config(c) => "Config(ConfigContext { editing_provider: "@ + quoted_opt(c.editing_provider)
            + " })"@,
    }
}

/// The description of an action, in the form `derive(Debug)` prints it:
/// the variant's name, then its fields in brackets, texts quoted.
pub open spec fn action_text(a: Action) -> Seq<char> {
    match a {
        Action::SendMessage(m) => "SendMessage("@ + quoted(m@) + ")"@,
        Action::CancelStreaming => "CancelStreaming"@,
        Action::AppendMessage(r, c) => "AppendMessage("@ + quoted(r@) + ", "@ + quoted(c@) + ")"@,
        Action::SwitchView(v) => "SwitchView("@ + view_state_text(v) + ")"@,
        Action::GoBack => "GoBack"@,
        Action::ScrollUp => "ScrollUp"@,
        Action::ScrollDown => "ScrollDown"@,
        Action::ScrollDebugUp => "ScrollDebugUp"@,
        Action::ScrollDebugDown => "ScrollDebugDown"@,
        Action::ResetScroll => "ResetScroll"@,
        Action::InputChar(c) => "InputChar('"@ + escaped(c, true) + "')"@,
        Action::InputBackspace => "InputBackspace"@,
        Action::InputDelete => "InputDelete"@,
        Action::InputHome => "InputHome"@,
        Action::InputEnd => "InputEnd"@,
        Action::InputLeft => "InputLeft"@,
        Action::InputRight => "InputRight"@,
        Action::ClearInput => "ClearInput"@,
        Action::SelectProvider(n) => "SelectProvider("@ + quoted(n@) + ")"@,
        Action::SaveApiKey(k) => "SaveApiKey("@ + quoted(k@) + ")"@,
        Action::SaveModel(m) => "SaveModel("@ + quoted(m@) + ")"@,
        Action::SaveBaseUrl(u) => "SaveBaseUrl("@ + quoted(u@) + ")"@,
        Action::FetchModels => "FetchModels"@,
        Action::SelectModel(m) => "SelectModel("@ + quoted(m@) + ")"@,
        Action::ToggleDebug => "ToggleDebug"@,
        Action::Quit => "Quit"@,
    }
}

/// Appends `c`, escaped.
fn push_escaped(out: &mut Vec<char>, c: char, in_char: bool)
    ensures
        final(out)@ == old(out)@ + escaped(c, in_char),
{
    let ghost o = out@;
    if c == '"' && in_char {
        out.push('"');
    } else if c == '\'' && !in_char {
        out.push('\'');
    } else {
        let e = escape_debug_chars(c);
        extend_chars(out, &e);
    }
    assert(out@ =~= o + escaped(c, in_char));
}

/// Appends `s` in double quotes, escaped.
fn push_quoted(out: &mut Vec<char>, s: &str)
    ensures
        final(out)@ == old(out)@ + quoted(s@),
{
    let ghost o = out@;
    let cs = chars_of(s);
    out.push('"');
    let mut i: usize = 0;
    while i < cs.len()
        invariant
            i <= cs@.len(),
            out@ == o + seq!['"'] + escaped_all(cs@.take(i as int), false),
        decreases cs@.len() - i,
    {
        assert(cs@.take(i as int + 1).drop_last() =~= cs@.take(i as int));
        push_escaped(out, cs[i], false);
        i = i + 1;
    }
    assert(cs@.take(cs@.len() as int) =~= cs@);
    out.push('"');
    assert(out@ =~= o + quoted(s@));
}

/// Appends a literal text.
fn push_text(out: &mut Vec<char>, t: &str)
    ensures
        final(out)@ == old(out)@ + t@,
{
    let cs = chars_of(t);
    extend_chars(out, &cs);
}

impl ViewState {
    fn push_description(&self, out: &mut Vec<char>)
        ensures
            final(out)@ == old(out)@ + view_state_text(*self),
    {
        let ghost o = out@;
        match self {
            ViewState::Chat(c) => {
                push_text(out, "Chat(ChatContext { current_provider: ");
                push_quoted(out, c.current_provider.as_str());
                push_text(out, ", current_model: ");
                push_quoted(out, c.current_model.as_str());
                push_text(out, " })");
            },
            ViewState::Config(c) => {
                push_text(out, "Config(ConfigContext { editing_provider: ");
                match &c.editing_provider {
                    Some(p) => {
                        push_text(out, "Some(");
                        push_quoted(out, p.as_str());
                        push_text(out, ")");
                    },
                    None => push_text(out, "None"),
                }
                push_text(out, " })");
            },
        }
        assert(out@ =~= o + view_state_text(*self));
    }
}

impl Action {
    /// The action described as `derive(Debug)` prints it: the variant's
    /// name and its fields, each character of a text or character escaped by
    /// `char::escape_debug`, as `action_text` gives.
    pub fn describe(&self) -> (r: String)
        ensures
            r@ == action_text(*self),
    {
        let mut out: Vec<char> = Vec::new();
        match self {
            Action::SendMessage(m) => {
                push_text(&mut out, "SendMessage(");
                push_quoted(&mut out, m.as_str());
                push_text(&mut out, ")");
            },
            Action::CancelStreaming => push_text(&mut out, "CancelStreaming"),
            Action::AppendMessage(r, c) => {
                push_text(&mut out, "AppendMessage(");
                push_quoted(&mut out, r.as_str());
                push_text(&mut out, ", ");
                push_quoted(&mut out, c.as_str());
                push_text(&mut out, ")");
            },
            Action::SwitchView(v) => {
                push_text(&mut out, "SwitchView(");
                v.push_description(&mut out);
                push_text(&mut out, ")");
            },
            Action::GoBack => push_text(&mut out, "GoBack"),
            Action::ScrollUp => push_text(&mut out, "ScrollUp"),
            Action::ScrollDown => push_text(&mut out, "ScrollDown"),
            Action::ScrollDebugUp => push_text(&mut out, "ScrollDebugUp"),
            Action::ScrollDebugDown => push_text(&mut out, "ScrollDebugDown"),
            Action::ResetScroll => push_text(&mut out, "ResetScroll"),
            Action::InputChar(c) => {
                push_text(&mut out, "InputChar('");
                push_escaped(&mut out, *c, true);
                push_text(&mut out, "')");
            },
            Action::InputBackspace => push_text(&mut out, "InputBackspace"),
            Action::InputDelete => push_text(&mut out, "InputDelete"),
            Action::InputHome => push_text(&mut out, "InputHome"),
            Action::InputEnd => push_text(&mut out, "InputEnd"),
            Action::InputLeft => push_text(&mut out, "InputLeft"),
            Action::InputRight => push_text(&mut out, "InputRight"),
            Action::ClearInput => push_text(&mut out, "ClearInput"),
            Action::SelectProvider(n) => {
                push_text(&mut out, "SelectProvider(");
                push_quoted(&mut out, n.as_str());
                push_text(&mut out, ")");
            },
            Action::SaveApiKey(k) => {
                push_text(&mut out, "SaveApiKey(");
                push_quoted(&mut out, k.as_str());
                push_text(&mut out, ")");
            },
            Action::SaveModel(m) => {
                push_text(&mut out, "SaveModel(");
                push_quoted(&mut out, m.as_str());
                push_text(&mut out, ")");
            },
            Action::SaveBaseUrl(u) => {
                push_text(&mut out, "SaveBaseUrl(");
                push_quoted(&mut out, u.as_str());
                push_text(&mut out, ")");
            },
            Action::FetchModels => push_text(&mut out, "FetchModels"),
            Action::SelectModel(m) => {
                push_text(&mut out, "SelectModel(");
                push_quoted(&mut out, m.as_str());
                push_text(&mut out, ")");
            },
            Action::ToggleDebug => push_text(&mut out, "ToggleDebug"),
            Action::Quit => push_text(&mut out, "Quit"),
        }
        assert(out@ =~= Seq::<char>::empty() + action_text(*self));
        string_from_chars(&out)
    }
}

/// The kinds of views.
#[derive(Debug, Clone, Copy, PartialEq, Eq, Structural)]
pub enum ViewStateKind {
    Chat,
    Config,
    Debug,
}

/// What the settings view keeps.
#[derive(Debug, Clone)]
pub struct ConfigViewState {
    pub editing_provider: Option<String>,
}

impl ConfigViewState {
    pub fn new() -> (r: Self)
        ensures
            r.editing_provider is None,
    {
        ConfigViewState { editing_provider: None }
    }
}

impl Default for ConfigViewState {
    fn default() -> (r: Self)
        ensures
            r.editing_provider is None,
    {
        ConfigViewState::new()
    }
}

/// Commands sent to the running agent.
pub enum AgentCommand {
    SendMessage(String),
    CancelCurrentRequest,
}

/// Most debug messages kept; older ones are dropped first.
pub const DEBUG_HISTORY: usize = 100;

/// The answer being streamed, the debug log, and the last finished message.
pub struct UIState {
    pub streaming_text: Option<String>,
    pub debug_messages: Vec<String>,
    pub finalized_message: Option<(String, String)>,
}

/// The log after adding `msg`: appended, then the oldest entry dropped if
/// the log holds more than `DEBUG_HISTORY` entries.
pub open spec fn debug_after(log: Seq<Seq<char>>, msg: Seq<char>) -> Seq<Seq<char>> {
    let l = log.push(msg);
    if l.len() > DEBUG_HISTORY {
        l.drop_first()
    } else {
        l
    }
}

impl UIState {
    pub fn new() -> (r: Self)
        ensures
            r.streaming_text is None,
            r.debug_messages@.len() == 0,
            r.finalized_message is None,
    {
        UIState { streaming_text: None, debug_messages: Vec::new(), finalized_message: None }
    }

    /// Adds a debug message, keeping the `DEBUG_HISTORY` most recent ones.
    pub fn add_debug(&mut self, msg: String)
        ensures
            string_views(final(self).debug_messages@) == debug_after(
                string_views(old(self).debug_messages@),
                msg@,
            ),
            final(self).streaming_text == old(self).streaming_text,
            final(self).finalized_message == old(self).finalized_message,
    {
        let ghost m = msg@;
        let ghost old_log = string_views(self.debug_messages@);
        self.debug_messages.push(msg);
        assert(string_views(self.debug_messages@) =~= old_log.push(m));
        if self.debug_messages.len() > DEBUG_HISTORY {
            let ghost l = self.debug_messages@;
            self.debug_messages.remove(0);
            assert(string_views(self.debug_messages@) =~= string_views(l).drop_first());
        }
    }

    /// Adds a chunk to the streamed answer, starting one if none is.
    pub fn append_streaming(&mut self, chunk: &str)
        ensures
            final(self).streaming_text matches Some(t) && t@ == (match old(self).streaming_text {
                Some(o) => o@ + chunk@,
                None => chunk@,
            }),
            final(self).debug_messages == old(self).debug_messages,
            final(self).finalized_message == old(self).finalized_message,
    {
        let next = match self.streaming_text.take() {
            Some(t) => {
                let mut t = t;
                t.append(chunk);
                t
            },
            None => String::from_str(chunk),
        };
        self.streaming_text = Some(next);
    }

    /// Drops the streamed answer.
    pub fn clear_streaming(&mut self)
        ensures
            final(self).streaming_text is None,
            final(self).debug_messages == old(self).debug_messages,
            final(self).finalized_message == old(self).finalized_message,
    {
        self.streaming_text = None;
    }
}

impl Default for UIState {
    fn default() -> (r: Self)
        ensures
            r.streaming_text is None,
            r.debug_messages@.len() == 0,
            r.finalized_message is None,
    {
        UIState::new()
    }
}

// ---------------------------------------------------------------------------
// Provider list of the settings screens
// ---------------------------------------------------------------------------

/// Identifier and display name of the providers offered in the settings, in
/// the order of their number keys.
pub open spec fn provider_entry(i: int) -> (Seq<char>, Seq<char>) {
    if i == 0 {
        ("openai"@, "OpenAI"@)
    } else if i == 1 {
        ("anthropic"@, "Anthropic"@)
    } else if i == 2 {
        ("ollama"@, "Ollama"@)
    } else if i == 3 {
        ("deepseek"@, "DeepSeek"@)
    } else if i == 4 {
        ("minimax"@, "MiniMax"@)
    } else {
        ("custom"@, "Custom"@)
    }
}

/// Number of providers offered in the settings.
pub const PROVIDER_COUNT: usize = 6;

/// One line of the provider list: `> [Name]` for the current provider,
/// `  [Name]` for the others.
pub open spec fn provider_item(i: int, current: Seq<char>) -> Seq<char> {
    (if provider_entry(i).0 == current {
        ">"@
    } else {
        " "@
    }) + " ["@ + provider_entry(i).1 + "]"@
}

/// The lines of the provider list, joined by newlines.
pub open spec fn spec_provider_list(current: Seq<char>) -> Seq<char> {
    spec_join_lines(Seq::new(PROVIDER_COUNT as nat, |i: int| provider_item(i, current)))
}

/// Lines joined by `'\n'`.
pub open spec fn spec_join_lines(ls: Seq<Seq<char>>) -> Seq<char> {
    crate::text::spec_join(ls, "\n"@)
}

fn provider_entry_exec(i: usize) -> (r: (&'static str, &'static str))
    requires
        i < PROVIDER_COUNT,
    ensures
        r.0@ == provider_entry(i as int).0,
        r.1@ == provider_entry(i as int).1,
{
    if i == 0 {
        ("openai", "OpenAI")
    } else if i == 1 {
        ("anthropic", "Anthropic")
    } else if i == 2 {
        ("ollama", "Ollama")
    } else if i == 3 {
        ("deepseek", "DeepSeek")
    } else if i == 4 {
        ("minimax", "MiniMax")
    } else {
        ("custom", "Custom")
    }
}

/// The provider list shown on the settings screens, the current provider
/// marked with `>`.
pub fn provider_list(current: &str) -> (r: String)
    ensures
        r@ == spec_provider_list(current@),
{
    let cur = chars_of(current);
    let mut items: Vec<Vec<char>> = Vec::new();
    let ghost target = Seq::new(PROVIDER_COUNT as nat, |i: int| provider_item(i, current@));
    let mut i: usize = 0;
    while i < PROVIDER_COUNT
        invariant
            i <= PROVIDER_COUNT,
            cur@ == current@,
            target == Seq::new(PROVIDER_COUNT as nat, |i: int| provider_item(i, current@)),
            views(items@) == target.take(i as int),
        decreases PROVIDER_COUNT - i,
    {
        let (id, name) = provider_entry_exec(i);
        let marker = if chars_eq(&chars_of(id), &cur) {
            ">"
        } else {
            " "
        };
        let mut line = String::from_str(marker);
        line.append(" [");
        line.append(name);
        line.append("]");
        let item = chars_of(line.as_str());
        proof {
            crate::text::lemma_views_push(items@, item);
        }
        items.push(item);
        assert(target.take(i + 1) =~= target.take(i as int).push(target[i as int]));
        i = i + 1;
    }
    assert(target.take(PROVIDER_COUNT as int) =~= target);
    let joined = join_chars(&items, &chars_of("\n"));
    crate::text::string_from_chars(&joined)
}

// ---------------------------------------------------------------------------
// Settings view
// ---------------------------------------------------------------------------

/// The settings view.
pub struct ConfigView {
    pub state: ConfigContext,
    pub input_buffer: String,
    pub cursor_pos: usize,
}

/// The provider that a number key selects in the settings view.
pub open spec fn config_key_provider(c: char) -> Option<Seq<char>> {
    if c == '1' {
        Some("openai"@)
    } else if c == '2' {
        Some("anthropic"@)
    } else if c == '3' {
        Some("ollama"@)
    } else if c == '4' {
        Some("deepseek"@)
    } else if c == '5' {
        Some("minimax"@)
    } else if c == '6' {
        Some("custom"@)
    } else {
        None
    }
}

impl ConfigView {
    pub fn new() -> (r: Self)
        ensures
            r.state.editing_provider is None,
    {
        ConfigView { state: ConfigContext::new(), input_buffer: String::new(), cursor_pos: 0 }
    }

    /// The action of a key in the settings view: keys 1 to 6 select a
    /// provider; Esc returns to the chat with the given provider and model.
    pub fn handle_key(&mut self, key: KeyInput, provider: &str, model: &str) -> (r: Option<Action>)
        ensures
            match key.code {
                Key::Char(c) => match config_key_provider(c) {
                    Some(p) => r matches Some(Action::SelectProvider(s)) && s@ == p,
                    None => r is None,
                },
                Key::Esc => r matches Some(Action::SwitchView(ViewState::Chat(ctx)))
                    && ctx.current_provider@ == provider@ && ctx.current_model@ == model@,
                _ => r is None,
            },
    {
        match key.code {
            Key::Char(c) => {
                let name = if c == '1' {
                    "openai"
                } else if c == '2' {
                    "anthropic"
                } else if c == '3' {
                    "ollama"
                } else if c == '4' {
                    "deepseek"
                } else if c == '5' {
                    "minimax"
                } else if c == '6' {
                    "custom"
                } else {
                    return None;
                };
                Some(Action::SelectProvider(String::from_str(name)))
            },
            Key::Esc => Some(Action::SwitchView(ViewState::Chat(ChatContext::new(provider, model)))),
            _ => None,
        }
    }
}

// ---------------------------------------------------------------------------
// Simple components
// ---------------------------------------------------------------------------

/// The list of messages.
pub struct MessageList;

/// The input field.
pub struct InputArea;

/// The bottom status bar.
pub struct StatusBar;

impl MessageList {
    pub fn new() -> (r: Self) {
        MessageList
    }

    /// The text shown: the messages one per line.
    pub fn text(&self, messages: &Vec<String>) -> (r: String)
        ensures
            r@ == spec_join_lines(string_views(messages@)),
    {
        let mut parts: Vec<Vec<char>> = Vec::new();
        let mut i: usize = 0;
        while i < messages.len()
            invariant
                i <= messages@.len(),
                views(parts@) == string_views(messages@).take(i as int),
            decreases messages@.len() - i,
        {
            let p = chars_of(messages[i].as_str());
            proof {
                crate::text::lemma_views_push(parts@, p);
            }
            parts.push(p);
            assert(string_views(messages@).take(i + 1) =~= string_views(messages@).take(
                i as int,
            ).push(messages@[i as int]@));
            i = i + 1;
        }
        assert(string_views(messages@).take(messages@.len() as int) =~= string_views(messages@));
        let joined = join_chars(&parts, &chars_of("\n"));
        crate::text::string_from_chars(&joined)
    }
}

impl InputArea {
    pub fn new() -> (r: Self) {
        InputArea
    }
}

impl StatusBar {
    pub fn new() -> (r: Self) {
        StatusBar
    }

    /// The text shown.
    pub fn text(&self) -> (r: &'static str)
        ensures
            r@ == "Rust Agent Platform | Ctrl+C to quit"@,
    {
        "Rust Agent Platform | Ctrl+C to quit"
    }
}

} // verus!
