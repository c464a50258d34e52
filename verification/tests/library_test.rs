use rust_agent_platform::registry::ProviderRegistry;
use rust_agent_platform::boulder::{Boulder, BoulderPriority, BoulderStatus};
use rust_agent_platform::chat_app::{
    display_input_with_cursor, role_prefix, role_style, status_line, App, AppEffect, AppMode,
    RoleStyle, StreamEvent,
};
use rust_agent_platform::chat_view::{
    chat_lines, draw_chat_lines, fetch_status, select_model_title, ChatLine, ScreenLine,
};
use rust_agent_platform::controller::{
    begin_run, choose_provider, choose_stream_provider, end_run, known_provider, AppController,
    ControllerEffect, ProviderChoice, Screen,
};
use rust_agent_platform::hooks::{Hook, HookRegistry};
use rust_agent_platform::input::{InputAction, InputHandler, Key, KeyInput, MOD_CONTROL};
use rust_agent_platform::intent::{IntentCategory, IntentGate};
use rust_agent_platform::markdown::{render_markdown, Hue, MdLine, Tone};
use rust_agent_platform::numfmt::{decimal, hex16};
use rust_agent_platform::orchestration::{AgentMessage, MessageBus, MessageHandler, MessageView};
use rust_agent_platform::skill::{SkillLoader, SkillRegistry, SkillScope};
use rust_agent_platform::stream::{StreamDecoder, StreamDialect};
use rust_agent_platform::table::{column_widths, draw_table, table_overflows, widen_narrow_columns};
use rust_agent_platform::task::coordinator::{CoordinatorState, TaskCoordinator};
use rust_agent_platform::task::events::{FailedState, TaskType};
use rust_agent_platform::ui::{provider_list, Action, ChatContext, ConfigContext, UIState, ViewState};
use rust_agent_platform::width::{display_width, pad_to_display_width, text_width, wrap_text_to_width};
use std::cell::RefCell;

fn key(code: Key) -> KeyInput {
    KeyInput { code, modifiers: 0 }
}

fn spans(line: &MdLine) -> Vec<(String, Tone)> {
    match line {
        MdLine::Spans(s) => s.iter().map(|x| (x.text.clone(), x.tone)).collect(),
        MdLine::Table(..) => panic!("expected spans"),
    }
}

#[test]
fn stream_anthropic_chunks_until_done() {
    let mut d = StreamDecoder::new(StreamDialect::Anthropic);
    let out = d.feed("data: {\"content\":[{\"text\":\"Hi\"}]}\n\nevent: x\ndata: [DONE]\ndata: {\"content\":[{\"text\":\"late\"}]}\n");
    assert_eq!(out, vec!["Hi".to_string()]);
    assert!(d.done);
    assert!(d.feed("data: {\"content\":[{\"text\":\"more\"}]}\n").is_empty());
}

#[test]
fn stream_ollama_reads_message_content() {
    let mut d = StreamDecoder::new(StreamDialect::Ollama);
    let out = d.feed("  data:data: {\"message\":{\"content\":\"a\"}}  \r\ndata: not json\n");
    assert_eq!(out, vec!["a".to_string()]);
    assert!(!d.done);
}

#[test]
fn stream_deepseek_marks_reasoning() {
    let mut d = StreamDecoder::new(StreamDialect::DeepSeekChat);
    let a = d.feed("data: {\"choices\":[{\"delta\":{\"reasoning_content\":\"think\"}}]}\n");
    assert_eq!(a, vec!["[thinking] ".to_string(), "think".to_string()]);
    assert!(d.is_thinking);
    let b = d.feed("data: {\"choices\":[{\"delta\":{\"content\":\"answer\"}}]}\n");
    assert_eq!(b, vec!["\n\n".to_string(), "answer".to_string()]);
    assert!(!d.is_thinking);
}

#[test]
fn stream_deepseek_tools_tags() {
    let mut d = StreamDecoder::new(StreamDialect::DeepSeekTools);
    let a = d.feed("data: {\"choices\":[{\"delta\":{\"reasoning_content\":\"r\",\"tool_calls\":[{\"function\":{\"name\":\"bash\"}},{\"function\":{}}]}}]}\n");
    assert_eq!(
        a,
        vec!["<thinking>\n", "r", "\n</thinking>\n<tool>\n", "bash", "\n</tool>\n"]
            .into_iter()
            .map(String::from)
            .collect::<Vec<_>>()
    );
    let b = d.feed("data: {\"choices\":[{\"delta\":{\"content\":\"c\"}}]}\n");
    assert_eq!(b, vec!["<content>\n", "c", "\n</content>\n"].into_iter().map(String::from).collect::<Vec<_>>());
}

#[test]
fn markdown_heading_and_paragraph() {
    let lines = render_markdown("# Title\n\nhello **world**");
    assert_eq!(lines.len(), 2);
    assert_eq!(spans(&lines[0]), vec![(" ".to_string(), Tone::Plain), ("Title".to_string(), Tone::Heading(Hue::Cyan))]);
    assert_eq!(
        spans(&lines[1]),
        vec![
            ("hello ".to_string(), Tone::Plain),
            (String::new(), Tone::Bold),
            ("world".to_string(), Tone::Plain)
        ]
    );
}

#[test]
fn markdown_code_list_and_inline() {
    let lines = render_markdown("```\nl1\nl2\n```");
    assert_eq!(lines.len(), 3);
    assert_eq!(spans(&lines[0]), vec![("l1".to_string(), Tone::CodeBlock)]);
    assert_eq!(spans(&lines[2]), vec![(String::new(), Tone::CodeBlock)]);
    let items = render_markdown("- one\n- two");
    assert_eq!(spans(&items[0]), vec![("• ".to_string(), Tone::Bullet), ("one".to_string(), Tone::Plain)]);
    assert_eq!(items.len(), 2);
    let code = render_markdown("`x`");
    assert_eq!(spans(&code[0]), vec![("`x`".to_string(), Tone::InlineCode)]);
    let h2 = render_markdown("## Sub");
    assert_eq!(spans(&h2[0])[1].1, Tone::Heading(Hue::Magenta));
}

#[test]
fn markdown_empty_text_is_one_plain_line() {
    let lines = render_markdown("");
    assert_eq!(lines.len(), 1);
    assert_eq!(spans(&lines[0]), vec![(String::new(), Tone::Plain)]);
}

#[test]
fn markdown_table_becomes_table_line() {
    let lines = render_markdown("| a | b |\n|---|---|\n| 1 | 2 |\n");
    let tables: Vec<_> = lines.iter().filter(|l| matches!(l, MdLine::Table(..))).collect();
    assert_eq!(tables.len(), 1);
    match tables[0] {
        MdLine::Table(_, rows) => assert_eq!(rows, &vec![vec!["1".to_string(), "2".to_string()]]),
        _ => unreachable!(),
    }
}

#[test]
fn chat_screen_lines() {
    let msgs = vec![("user".to_string(), "hi".to_string())];
    let lines = chat_lines(&msgs, &Some("ok".to_string()), "m1");
    assert_eq!(lines.len(), 5);
    match &lines[0] {
        ChatLine::Label(t, s) => {
            assert_eq!(t, "[user]: ");
            assert_eq!(*s, RoleStyle::User);
        }
        _ => panic!(),
    }
    match &lines[2] {
        ChatLine::Label(t, s) => {
            assert_eq!(t, "[assistant m1]: ");
            assert_eq!(*s, RoleStyle::Assistant);
        }
        _ => panic!(),
    }
    assert!(matches!(lines[4], ChatLine::Cursor));
    assert_eq!(fetch_status("ollama", &None), "Fetching models from ollama...");
    assert_eq!(fetch_status("ollama", &Some("down".to_string())), "Error fetching models from ollama: down");
    assert_eq!(select_model_title("x"), "Select model for x");
}

#[test]
fn controller_actions() {
    let mut c = AppController::new("deepseek", "deepseek-chat");
    let e = c.handle_action(Action::SendMessage("hello".to_string()), "deepseek", "deepseek-chat");
    assert!(matches!(e, Some(ControllerEffect::RunAgent(ref m)) if m == "hello"));
    match &c.screen {
        Screen::Chat(p) => {
            assert!(p.is_streaming);
            assert_eq!(p.messages, vec![("user".to_string(), "hello".to_string())]);
        }
        _ => panic!(),
    }
    c.ui_state.streaming_text = Some("part".to_string());
    assert!(c.handle_action(Action::CancelStreaming, "p", "m").is_none());
    assert!(c.ui_state.streaming_text.is_none());
    let e = c.handle_action(Action::SaveModel("m2".to_string()), "p", "m");
    assert!(matches!(e, Some(ControllerEffect::SetModel(ref m)) if m == "m2"));
    c.handle_action(Action::SwitchView(ViewState::Config(ConfigContext::new())), "p", "m");
    assert!(matches!(c.screen, Screen::Config(_)));
    c.handle_action(Action::GoBack, "ollama", "llama3");
    match &c.screen {
        Screen::Chat(p) => assert_eq!((p.current_provider.as_str(), p.current_model.as_str()), ("ollama", "llama3")),
        _ => panic!(),
    }
    c.handle_action(Action::Quit, "p", "m");
    assert!(c.should_quit);
}

#[test]
fn controller_run_reports() {
    let mut c = AppController::new("p", "m");
    begin_run(&mut c.ui_state, "anthropic");
    assert_eq!(c.ui_state.debug_messages, vec!["Starting request to anthropic".to_string()]);
    end_run(&mut c.ui_state, Ok("héllo".to_string()));
    assert_eq!(c.ui_state.debug_messages[1], "Response length: 6");
    assert_eq!(c.ui_state.finalized_message, Some(("assistant".to_string(), "héllo".to_string())));
    c.absorb_finalized();
    assert!(c.ui_state.finalized_message.is_none());
    c.absorb_chunk(Ok("ab".to_string()));
    c.absorb_chunk(Ok("c".to_string()));
    assert_eq!(c.ui_state.streaming_text.as_deref(), Some("abc"));
    end_run(&mut c.ui_state, Err("timeout".to_string()));
    assert_eq!(c.ui_state.finalized_message, Some(("error".to_string(), "timeout (partial: abc)".to_string())));
    assert!(c.ui_state.streaming_text.is_none());
}

#[test]
fn provider_choice_by_name() {
    match choose_provider("ollama", None, None, "qwen".to_string()) {
        ProviderChoice::Ollama(p) => assert_eq!((p.base_url.as_str(), p.model.as_str()), ("http://localhost:11434", "qwen")),
        _ => panic!(),
    }
    match choose_provider("custom", Some("k".to_string()), None, "m".to_string()) {
        ProviderChoice::Custom { name, api_key, base_url, model } => {
            assert_eq!((name.as_str(), api_key.as_str(), base_url.as_str(), model.as_str()), ("custom", "k", "", "m"))
        }
        _ => panic!(),
    }
    assert!(matches!(choose_provider("nope", None, None, String::new()), ProviderChoice::Unchanged));
}

#[test]
fn intent_routes_and_keywords() {
    let g = IntentGate::new();
    assert_eq!(g.route_hint(&IntentCategory::Fix), "diagnose → fix minimally");
    assert_eq!(g.route_hint(&IntentCategory::Trivial), "direct tools only");
    assert!(g.keyword_hit("Please FIX the build", &IntentCategory::Fix));
    assert!(!g.keyword_hit("hello", &IntentCategory::Research));
    assert!(g.keyword_hit("How does it work?", &IntentCategory::Research));
    assert!(!g.keyword_hit("fix it", &IntentCategory::Trivial));
}

struct Recorder {
    seen: RefCell<Vec<String>>,
    fail: bool,
}

impl MessageHandler for Recorder {
    fn accepts(&self, _message: MessageView) -> bool {
        !self.fail
    }

    fn refusal(&self, _message: MessageView) -> String {
        "refused".to_string()
    }

    fn handle(&self, message: AgentMessage) -> Result<(), String> {
        self.seen.borrow_mut().push(format!("{}->{}:{}", message.from, message.to, message.body));
        if self.fail {
            Err("refused".to_string())
        } else {
            Ok(())
        }
    }
}

#[test]
fn message_bus_routes() {
    let mut bus: MessageBus<Recorder> = MessageBus::new();
    bus.subscribe("a", Recorder { seen: RefCell::new(Vec::new()), fail: false });
    bus.subscribe("b", Recorder { seen: RefCell::new(Vec::new()), fail: false });
    let msg = AgentMessage { from: "a".into(), to: "b".into(), subject: "s".into(), body: "x".into() };
    assert!(bus.send(msg).is_ok());
    assert_eq!(bus.handlers("b")[0].seen.borrow().clone(), vec!["a->b:x".to_string()]);
    assert!(bus.broadcast("a", "s", "y").is_ok());
    assert_eq!(bus.handlers("b")[0].seen.borrow().len(), 2);
    assert!(bus.handlers("a")[0].seen.borrow().is_empty());
    bus.unsubscribe("b");
    assert!(bus.handlers("b").is_empty());
    bus.subscribe("c", Recorder { seen: RefCell::new(Vec::new()), fail: true });
    assert_eq!(bus.broadcast("a", "s", "z"), Err("refused".to_string()));
    let none = AgentMessage { from: "a".into(), to: "zz".into(), subject: String::new(), body: String::new() };
    assert!(bus.send(none).is_ok());
}

#[test]
fn boulder_names_and_rows() {
    assert_eq!(BoulderStatus::InProgress.as_str(), "in_progress");
    assert_eq!(BoulderStatus::parse("completed"), Ok(BoulderStatus::Completed));
    assert_eq!(BoulderStatus::parse("done"), Err("Unknown status: done".to_string()));
    assert_eq!(BoulderPriority::parse("high"), Ok(BoulderPriority::High));
    assert_eq!(BoulderPriority::parse("x"), Err("Unknown priority: x".to_string()));
    let b = Boulder::new_pending("id1".into(), "100".into(), "write".into(), BoulderPriority::Low, vec!["a".into(), "b".into()]);
    let row = b.to_row();
    assert_eq!(row.tags, "a,b");
    assert_eq!(row.status, "pending");
    let back = Boulder::from_row(&row);
    assert_eq!(back.tags, vec!["a".to_string(), "b".to_string()]);
    assert_eq!(back.status, BoulderStatus::Pending);
    let mut c = b.clone();
    c.set_status(BoulderStatus::Completed, "200".into());
    assert_eq!((c.status, c.updated_at.as_str(), c.created_at.as_str()), (BoulderStatus::Completed, "200", "100"));
}

#[test]
fn skills_parse_and_register() {
    let loader = SkillLoader::new();
    let s = loader.parse_skill("---\nname: deploy\ndescription: ships it\nscope: Global\n---\nbody").unwrap();
    assert_eq!((s.name.as_str(), s.description.as_str(), s.scope), ("deploy", "ships it", SkillScope::Global));
    let d = loader.parse_skill("just text").unwrap();
    assert_eq!((d.name.as_str(), d.description.as_str(), d.scope), ("Unknown Skill", "No description", SkillScope::Project));
    let mut reg = SkillRegistry::new();
    reg.register(s);
    assert_eq!(reg.get("deploy").unwrap().description, "ships it");
    assert!(reg.disable("deploy"));
    assert!(reg.list_enabled().is_empty());
    assert!(reg.enable("deploy"));
    assert_eq!(reg.list_enabled(), vec!["deploy".to_string()]);
    assert!(!reg.enable("missing"));
    assert_eq!(reg.list_skills(), vec!["deploy".to_string()]);
}

#[test]
fn widths_wrapping_and_padding() {
    assert_eq!(display_width('a'), 1);
    assert_eq!(display_width('中'), 2);
    assert_eq!(text_width("a中b"), 4);
    assert_eq!(wrap_text_to_width("abcdef", 4), vec!["abcd".to_string(), "ef".to_string()]);
    assert_eq!(wrap_text_to_width("", 3), vec![String::new()]);
    assert_eq!(wrap_text_to_width("中中", 1), vec!["中".to_string(), "中".to_string()]);
    assert_eq!(pad_to_display_width("ab", 4), "ab  ");
    assert_eq!(pad_to_display_width("abcdef", 4), "abcdef");
    assert_eq!(text_width(&pad_to_display_width("中", 5)), 5);
}

#[test]
fn tables_are_drawn() {
    let headers = vec!["h".to_string()];
    let rows = vec![vec!["x".to_string()]];
    let mut w = column_widths(&headers, &rows);
    assert_eq!(w, vec![6]);
    assert!(!table_overflows(&w));
    widen_narrow_columns(&mut w);
    let lines = draw_table(&headers, &rows, &w);
    assert_eq!(
        lines,
        vec![
            "┌──────┐".to_string(),
            "│h     │".to_string(),
            "├──────┤".to_string(),
            "└x     ┘".to_string(),
            "└──────┘".to_string(),
        ]
    );
    assert!(table_overflows(&vec![40, 40]));
}

#[test]
fn input_handler_keys() {
    let h = InputHandler::new();
    assert_eq!(h.handle_key(key(Key::Char('x'))), Some(InputAction::Insert('x')));
    assert_eq!(h.handle_key(KeyInput { code: Key::Char('c'), modifiers: MOD_CONTROL }), Some(InputAction::Quit));
    assert_eq!(h.handle_key(key(Key::Enter)), Some(InputAction::Submit));
    assert_eq!(h.handle_key(key(Key::Esc)), None);
}

#[test]
fn chat_app_editing_and_sending() {
    let mut app = App::new(None);
    for c in ['a', 'b'] {
        app.handle_key_event(key(Key::Char(c)));
    }
    app.handle_key_event(key(Key::Left));
    app.handle_key_event(key(Key::Char('X')));
    assert_eq!(app.input, "aXb");
    app.handle_key_event(key(Key::Backspace));
    assert_eq!((app.input.as_str(), app.cursor_char_pos), ("ab", 1));
    let e = app.handle_key_event(key(Key::Enter));
    assert!(matches!(e, AppEffect::SendToProvider));
    assert_eq!(app.messages, vec![("user".to_string(), "ab".to_string())]);
    app.on_stream_event(StreamEvent::Chunk("hi".to_string()));
    app.on_stream_event(StreamEvent::Finished);
    assert_eq!(app.messages[1], ("assistant".to_string(), "hi".to_string()));
    assert!(!app.awaiting_response);
    let q = app.handle_key_event(KeyInput { code: Key::Char('s'), modifiers: MOD_CONTROL });
    assert!(matches!(q, AppEffect::Nothing));
    assert_eq!(app.mode, AppMode::ConfigProvider);
    let p = app.handle_key_event(key(Key::Char('2')));
    assert!(matches!(p, AppEffect::SetProvider(ref n) if n == "anthropic"));
}

#[test]
fn chat_app_stream_failure() {
    let mut app = App::new(None);
    app.handle_key_event(key(Key::Char('q')));
    app.handle_key_event(key(Key::Enter));
    app.on_stream_event(StreamEvent::Chunk("par".to_string()));
    app.on_stream_event(StreamEvent::Failed("boom".to_string()));
    assert_eq!(app.messages[1], ("error".to_string(), "boom (partial: par)".to_string()));
    app.on_models_fetched(Ok(vec![]));
    assert!(app.model_fetch_error.is_none());
}

#[test]
fn chat_labels_and_status() {
    assert_eq!(role_prefix("assistant", "gpt"), "[assistant gpt]: ");
    assert_eq!(role_prefix("error", "gpt"), "[error]: ");
    assert_eq!(role_style("system"), RoleStyle::System);
    assert_eq!(role_style("tool"), RoleStyle::Other);
    assert_eq!(display_input_with_cursor("", 0), "> ▌");
    assert_eq!(display_input_with_cursor("ab", 1), "> ab▌");
    assert_eq!(status_line("ollama"), "[ollama] - Press Ctrl+Q to quit, Ctrl+S for settings");
}

#[test]
fn ui_state_and_views() {
    let mut ui = UIState::new();
    for i in 0..105 {
        ui.add_debug(format!("m{}", i));
    }
    assert_eq!(ui.debug_messages.len(), 100);
    assert_eq!(ui.debug_messages[0], "m5");
    assert_eq!(ui.debug_messages[99], "m104");
    ui.append_streaming("a");
    ui.append_streaming("b");
    assert_eq!(ui.streaming_text.as_deref(), Some("ab"));
    ui.clear_streaming();
    assert!(ui.streaming_text.is_none());
    let v = ViewState::Chat(ChatContext::new("p", "m"));
    assert!(v.as_chat().is_some() && v.as_config().is_none());
    let list = provider_list("ollama");
    assert!(list.contains("> [Ollama]"));
    assert!(list.contains("  [OpenAI]"));
    assert_eq!(list.lines().count(), 6);
}

#[test]
fn coordinator_queues_in_order() {
    let mut c = TaskCoordinator::new();
    assert!(c.is_idle());
    let first = c.enqueue(TaskType::UserMessage { priority: 1 });
    let second = c.enqueue(TaskType::BackgroundFetch { priority: 3 });
    match c.state() {
        CoordinatorState::Managing { active_task_id, pending_queue } => {
            assert_eq!(*active_task_id, first);
            assert_eq!(pending_queue.len(), 1);
            assert_eq!(pending_queue[0].task_id, second);
        }
        CoordinatorState::Idle => panic!(),
    }
    assert_eq!(TaskType::UserMessage { priority: 1 }.max_retries(), 3);
    assert_eq!(TaskType::SystemTask { priority: 2 }.priority(), 2);
}

#[test]
fn failed_states_count_down() {
    let f = FailedState::NetworkError { message: "down".to_string(), retry_count: 1 };
    assert!(f.is_retriable());
    let g = f.with_decrement();
    assert!(!g.is_retriable());
    assert!(!FailedState::Cancelled.is_retriable());
}

#[test]
fn numbers_are_formatted() {
    assert_eq!(decimal(0), "0");
    assert_eq!(decimal(1234567890), "1234567890");
    assert_eq!(hex16(255), "00000000000000ff");
}

#[test]
fn provider_registry_default_is_first() {
    let mut reg: ProviderRegistry<u32, u8> = ProviderRegistry::new();
    assert!(reg.default().is_none());
    reg.register_with_tools("deepseek", 7);
    reg.register("ollama", 1);
    reg.register("deepseek", 2);
    reg.register_boxed("ollama", 3);
    assert_eq!(reg.default_provider.as_deref(), Some("deepseek"));
    assert_eq!(reg.default(), Some(&2));
    assert_eq!(reg.default_tool_provider(), Some(&7));
    assert_eq!(reg.get("ollama"), Some(&3));
    assert!(reg.get("nope").is_none());
    assert_eq!(reg.list_providers(), vec!["ollama".to_string(), "deepseek".to_string()]);
    assert_eq!(reg.list_tool_providers(), vec!["deepseek".to_string()]);
}

#[test]
fn table_lines_share_one_width() {
    let headers = vec!["name".to_string(), "值".to_string()];
    let rows = vec![
        vec!["alpha".to_string(), "一二三".to_string()],
        vec!["b".to_string(), "c".to_string()],
    ];
    let w = column_widths(&headers, &rows);
    let lines = draw_table(&headers, &rows, &w);
    let first = text_width(&lines[0]);
    assert_eq!(first, w.iter().sum::<usize>() + w.len() + 1);
    for l in &lines {
        assert_eq!(text_width(l), first);
    }
}

#[test]
fn message_bus_stops_at_first_refusal() {
    let mut bus: MessageBus<Recorder> = MessageBus::new();
    bus.subscribe("b", Recorder { seen: RefCell::new(Vec::new()), fail: false });
    bus.subscribe("b", Recorder { seen: RefCell::new(Vec::new()), fail: true });
    bus.subscribe("b", Recorder { seen: RefCell::new(Vec::new()), fail: false });
    let msg = AgentMessage { from: "a".into(), to: "b".into(), subject: "s".into(), body: "x".into() };
    assert_eq!(bus.send(msg), Err("refused".to_string()));
    let hs = bus.handlers("b");
    assert_eq!(hs[0].seen.borrow().clone(), vec!["a->b:x".to_string()]);
    assert_eq!(hs[1].seen.borrow().clone(), vec!["a->b:x".to_string()]);
    assert!(hs[2].seen.borrow().is_empty());
    bus.subscribe("c", Recorder { seen: RefCell::new(Vec::new()), fail: false });
    assert_eq!(bus.broadcast("a", "s", "y"), Err("refused".to_string()));
    assert!(bus.handlers("c")[0].seen.borrow().is_empty());
    assert!(bus.broadcast("b", "s", "z").is_ok());
    assert_eq!(bus.handlers("c")[0].seen.borrow().clone(), vec!["b->c:z".to_string()]);
}

#[test]
fn actions_describe_themselves_as_debug() {
    let actions = vec![
        Action::SendMessage("say \"hi\"\n".to_string()),
        Action::CancelStreaming,
        Action::AppendMessage("user".to_string(), "tab\there".to_string()),
        Action::SwitchView(ViewState::Chat(ChatContext::new("ollama", "qwen"))),
        Action::SwitchView(ViewState::Config(ConfigContext::new())),
        Action::InputChar('\''),
        Action::InputChar('"'),
        Action::InputChar('\u{7}'),
        Action::InputChar('\u{301}'),
        Action::InputChar('é'),
        Action::InputChar('x'),
        Action::SendMessage("bell \u{7} del \u{7f} zwsp \u{200b} e\u{301} it's 日本".to_string()),
        Action::SaveModel("nul \0 cr \r esc \u{1b}".to_string()),
        Action::ScrollDebugUp,
        Action::GoBack,
        Action::Quit,
    ];
    for a in actions {
        assert_eq!(a.describe(), format!("{:?}", a));
    }
    assert_eq!(Action::Quit.describe(), "Quit");
    assert_eq!(Action::SendMessage("\u{7}".to_string()).describe(), "SendMessage(\"\\u{7}\")");
    assert_eq!(Action::SendMessage("a\\b".to_string()).describe(), "SendMessage(\"a\\\\b\")");
}

#[test]
fn controller_logs_each_action() {
    let mut c = AppController::new("p", "m");
    c.handle_action(Action::ScrollUp, "p", "m");
    c.handle_action(Action::SendMessage("hi".to_string()), "p", "m");
    assert_eq!(
        c.ui_state.debug_messages,
        vec!["Action: ScrollUp".to_string(), "Action: SendMessage(\"hi\")".to_string()]
    );
    for _ in 0..120 {
        c.handle_action(Action::ResetScroll, "p", "m");
    }
    assert_eq!(c.ui_state.debug_messages.len(), 100);
    assert_eq!(c.ui_state.debug_messages[99], "Action: ResetScroll");
}

#[test]
fn stream_provider_falls_back_to_openai() {
    assert!(known_provider("deepseek"));
    assert!(!known_provider("mystery"));
    match choose_stream_provider("mystery", Some("k".to_string()), Some("http://u".to_string()), "m".to_string()) {
        ProviderChoice::OpenAi { api_key, base_url } => {
            assert_eq!(api_key, "k");
            assert_eq!(base_url.as_deref(), Some("http://u"));
        }
        _ => panic!(),
    }
    match choose_stream_provider("mystery", None, None, "m".to_string()) {
        ProviderChoice::OpenAi { api_key, base_url } => {
            assert_eq!(api_key, "");
            assert!(base_url.is_none());
        }
        _ => panic!(),
    }
    match choose_stream_provider("deepseek", Some("k".to_string()), None, "deepseek-chat".to_string()) {
        ProviderChoice::DeepSeek(p) => assert_eq!(p.model, "deepseek-chat"),
        _ => panic!(),
    }
}

#[test]
fn drawn_chat_height_counts_table_rows() {
    let msgs = vec![
        ("user".to_string(), "| a | b |\n|---|---|\n| 1 | 2 |\n| 3 | 4 |".to_string()),
        ("assistant".to_string(), "plain".to_string()),
    ];
    let lines = chat_lines(&msgs, &None, "m");
    let mut widths = Vec::new();
    let mut table = Vec::new();
    let mut tables = 0;
    for l in &lines {
        if let ChatLine::Body(MdLine::Table(h, r)) = l {
            let w = column_widths(h, r);
            table = draw_table(h, r, &w);
            tables += 1;
            widths.push(w);
        }
    }
    assert_eq!(tables, 1);
    assert!(table.len() > 1);
    let drawn = draw_chat_lines(&lines, &widths);
    assert_eq!(drawn.len(), lines.len() - 1 + table.len());
    let rules: Vec<String> = drawn
        .iter()
        .filter_map(|l| match l {
            ScreenLine::Rule(t) => Some(t.clone()),
            _ => None,
        })
        .collect();
    assert_eq!(rules, table);
    assert!(matches!(drawn[0], ScreenLine::Label(ref t, RoleStyle::User) if t == "[user]: "));
    // The parser gives the header cells no row of their own, so the table
    // is drawn with its two body rows only: two rows, a rule between them,
    // and the closing border.
    assert_eq!(rules.len(), 4);
    assert!(rules[3].starts_with('└'));
}

struct Probe {
    name: &'static str,
    fail: bool,
    log: std::rc::Rc<RefCell<Vec<String>>>,
}

impl Hook<String> for Probe {
    fn accepts(&self, _context: String) -> bool {
        !self.fail
    }

    fn refusal(&self, _context: String) -> String {
        format!("{} failed", self.name)
    }

    fn call(&self, context: &String) -> Result<(), String> {
        self.log.borrow_mut().push(format!("{}:{}", self.name, context));
        if self.fail {
            Err(format!("{} failed", self.name))
        } else {
            Ok(())
        }
    }
}

#[test]
fn hooks_run_in_order_until_one_fails() {
    let log = std::rc::Rc::new(RefCell::new(Vec::new()));
    let mut reg: HookRegistry<Probe> = HookRegistry::new();
    assert!(reg.list_hooks().is_empty());
    assert!(reg.dispatch("TaskStart", &"ctx".to_string()).is_ok());
    reg.register("TaskStart", 5, Probe { name: "first", fail: false, log: log.clone() });
    reg.register("TaskEnd", 1, Probe { name: "end", fail: false, log: log.clone() });
    reg.register("TaskStart", 0, Probe { name: "second", fail: true, log: log.clone() });
    reg.register("TaskStart", 9, Probe { name: "third", fail: false, log: log.clone() });
    assert_eq!(reg.list_hooks(), vec!["TaskStart".to_string(), "TaskEnd".to_string()]);
    assert_eq!(reg.dispatch("TaskStart", &"go".to_string()), Err("second failed".to_string()));
    assert_eq!(log.borrow().clone(), vec!["first:go".to_string(), "second:go".to_string()]);
    assert!(reg.dispatch("TaskEnd", &"done".to_string()).is_ok());
    assert_eq!(log.borrow().len(), 3);
    assert!(reg.dispatch("Other", &"x".to_string()).is_ok());
}
