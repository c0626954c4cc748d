use sheesh::app::{App, AppState, ConnectedFocus};
use sheesh::config::{parse_connections, render_connections};
use sheesh::event::{map_event, Action, Event, KeyCode, KeyModifiers};
use sheesh::listing::{EditForm, ListingMode, ListingTab};
use sheesh::llm::{
    extract_code_blocks, find_char_from, find_seq, line_content, unique_tool_id,
    wrapped_line_count, AnthropicProvider, LLMConfig, Message, OllamaProvider, OpenAIProvider,
    Role,
};
use sheesh::mcp::{CommandOutput, RunCommandTool, ToolResult};
use sheesh::ssh::SSHConnection;
use sheesh::style::Color;
use sheesh::theme::Theme;

fn plain_key(ch: char) -> Event {
    Event::Key(KeyCode::Char(ch), KeyModifiers::none())
}

#[test]
fn map_event_basics() {
    assert!(matches!(map_event(&plain_key('q')), Action::Quit));
    assert!(matches!(map_event(&plain_key('c')), Action::SendContext));
    let ctrl_c = Event::Key(
        KeyCode::Char('c'),
        KeyModifiers { ctrl: true, alt: false, shift: false },
    );
    assert!(matches!(map_event(&ctrl_c), Action::Quit));
    assert!(matches!(map_event(&plain_key('a')), Action::Add));
    assert!(matches!(map_event(&plain_key('z')), Action::Input('z')));
    assert!(matches!(
        map_event(&Event::Key(KeyCode::Tab, KeyModifiers::none())),
        Action::NextPanel
    ));
    assert!(matches!(map_event(&Event::Other), Action::Noop));
}

#[test]
fn app_connect_cycle_disconnect() {
    let mut app = App::new(Vec::new());
    assert!(matches!(app.state, AppState::Listing));
    app.connect("box".to_string());
    match &app.state {
        AppState::Connected { connection_name, focus } => {
            assert_eq!(connection_name, "box");
            assert_eq!(*focus, ConnectedFocus::Terminal);
        },
        _ => panic!("expected a connected state"),
    }
    app.cycle_focus();
    match &app.state {
        AppState::Connected { focus, .. } => assert_eq!(*focus, ConnectedFocus::LLM),
        _ => panic!("expected a connected state"),
    }
    app.set_error("boom".to_string());
    assert_eq!(app.error.as_deref(), Some("boom"));
    app.clear_error();
    assert!(app.error.is_none());
    app.disconnect();
    assert!(matches!(app.state, AppState::Listing));
}

fn sample_connection() -> SSHConnection {
    SSHConnection {
        name: "web".to_string(),
        description: "prod box".to_string(),
        hostname: "web.example.com".to_string(),
        user: "deploy".to_string(),
        port: 2222,
        identity_file: Some("~/.ssh/id_prod".to_string()),
        extra_options: vec!["forwardagent yes".to_string(), "compression yes".to_string()],
    }
}

#[test]
fn ssh_args_full() {
    let args = sample_connection().ssh_args();
    assert_eq!(
        args,
        vec![
            "-p",
            "2222",
            "-i",
            "~/.ssh/id_prod",
            "-o",
            "forwardagent yes",
            "-o",
            "compression yes",
            "deploy@web.example.com",
        ]
    );
}

#[test]
fn ssh_args_default_port_omitted() {
    let mut c = sample_connection();
    c.port = 22;
    c.identity_file = None;
    c.extra_options = Vec::new();
    assert_eq!(c.ssh_args(), vec!["deploy@web.example.com"]);
}

#[test]
fn edit_form_round_trip() {
    let conn = sample_connection();
    let form = EditForm::from_connection(&conn);
    assert_eq!(form.port, "2222");
    assert_eq!(form.extra_options, "forwardagent yes, compression yes");
    let back = form.to_connection();
    assert_eq!(back.name, conn.name);
    assert_eq!(back.port, conn.port);
    assert_eq!(back.identity_file, conn.identity_file);
    assert_eq!(back.extra_options, conn.extra_options);
}

#[test]
fn edit_form_defaults_and_fields() {
    let mut form = EditForm::default();
    form.push_char('x');
    assert_eq!(form.name, "x");
    form.next_field();
    form.push_char('d');
    assert_eq!(form.description, "d");
    form.pop_char();
    assert_eq!(form.description, "");
    form.prev_field();
    assert_eq!(form.field, 0);
    let conn = form.to_connection();
    assert_eq!(conn.port, 22);
    assert!(conn.identity_file.is_none());
}

#[test]
fn listing_filter_and_navigation() {
    let mut tab = ListingTab::new(vec![
        sample_connection(),
        SSHConnection { name: "db".to_string(), ..SSHConnection::default() },
    ]);
    assert_eq!(tab.selected, Some(0));
    let all = tab.filtered_indices();
    assert_eq!(all, vec![0, 1]);
    tab.filter = "WEB".to_string();
    assert_eq!(tab.filtered_indices(), vec![0]);
    tab.filter = "example".to_string();
    assert_eq!(tab.filtered_indices(), vec![0]);
    tab.filter = "zzz".to_string();
    assert_eq!(tab.filtered_indices(), Vec::<usize>::new());
    tab.filter = String::new();
    tab.move_down();
    assert_eq!(tab.selected, Some(1));
    tab.move_down();
    assert_eq!(tab.selected, Some(1));
    tab.move_up();
    assert_eq!(tab.selected, Some(0));
}

#[test]
fn listing_delete_flow() {
    let mut tab = ListingTab::new(vec![sample_connection()]);
    let ev = plain_key('d');
    tab.handle_event(&ev);
    assert_eq!(tab.mode, ListingMode::ConfirmDelete);
    tab.handle_event(&plain_key('y'));
    assert_eq!(tab.mode, ListingMode::Browse);
    assert_eq!(tab.connections.len(), 0);
    assert_eq!(tab.selected, None);
}

#[test]
fn listing_add_and_save() {
    let mut tab = ListingTab::new(Vec::new());
    tab.handle_event(&plain_key('a'));
    assert_eq!(tab.mode, ListingMode::Editing { is_new: true });
    tab.handle_event(&plain_key('n'));
    tab.handle_event(&Event::Key(KeyCode::Enter, KeyModifiers::none()));
    assert_eq!(tab.mode, ListingMode::Browse);
    assert_eq!(tab.connections.len(), 1);
    assert_eq!(tab.connections[0].name, "n");
}

#[test]
fn listing_filter_mode_keys() {
    let mut tab = ListingTab::new(Vec::new());
    tab.handle_event(&plain_key('/'));
    assert_eq!(tab.mode, ListingMode::Filtering);
    tab.handle_event(&plain_key('a'));
    tab.handle_event(&plain_key('b'));
    assert_eq!(tab.filter, "ab");
    tab.handle_event(&Event::Key(KeyCode::Backspace, KeyModifiers::none()));
    assert_eq!(tab.filter, "a");
    tab.handle_event(&Event::Key(KeyCode::Esc, KeyModifiers::none()));
    assert_eq!(tab.mode, ListingMode::Browse);
    assert_eq!(tab.filter, "");
}

#[test]
fn message_constructors() {
    let m = Message::user("hi".to_string());
    assert_eq!(m.role, Role::User);
    assert_eq!(m.content, "hi");
    assert_eq!(Message::assistant("a".to_string()).role, Role::Assistant);
    assert_eq!(Message::system("s".to_string()).role, Role::System);
}

#[test]
fn llm_config_defaults() {
    let cfg = LLMConfig::default();
    assert_eq!(cfg.provider, "anthropic");
    assert_eq!(cfg.model, "latest");
    assert_eq!(cfg.api_key_env, "ANTHROPIC_API_KEY");
    assert_eq!(cfg.ollama_host, "http://localhost:11434");
    assert!(cfg.system_prompt.is_some());
}

#[test]
fn provider_names() {
    assert_eq!(AnthropicProvider::new("k".to_string(), "m".to_string()).name(), "Anthropic");
    assert_eq!(OllamaProvider::new("h".to_string(), "m".to_string()).name(), "Ollama");
    assert_eq!(OpenAIProvider::new("k".to_string(), "m".to_string()).name(), "OpenAI");
}

#[test]
fn unique_tool_ids_differ_by_counter() {
    assert_eq!(unique_tool_id(1), "local_tool_1");
    assert_eq!(unique_tool_id(42), "local_tool_42");
}

#[test]
fn command_output_combined_and_success() {
    let both = CommandOutput {
        stdout: "out".to_string(),
        stderr: "err".to_string(),
        exit_code: 0,
    };
    assert_eq!(both.combined(), "out\nerr");
    assert!(both.succeeded());
    let only_err = CommandOutput {
        stdout: String::new(),
        stderr: "err".to_string(),
        exit_code: 3,
    };
    assert_eq!(only_err.combined(), "err");
    assert!(!only_err.succeeded());
}

#[test]
fn run_command_tool_results() {
    let tool = RunCommandTool;
    let ok = tool.render_result(
        "id1",
        &CommandOutput { stdout: "hi".to_string(), stderr: String::new(), exit_code: 0 },
    );
    assert!(!ok.is_error);
    assert_eq!(ok.tool_call_id, "id1");
    match &ok.content[0] {
        sheesh::mcp::ToolContent::Text { text } => assert_eq!(text, "exit code 0\nhi"),
    }
    let err = tool.render_result(
        "id2",
        &CommandOutput { stdout: String::new(), stderr: String::new(), exit_code: -7 },
    );
    assert!(err.is_error);
    match &err.content[0] {
        sheesh::mcp::ToolContent::Text { text } => assert_eq!(text, "exit code -7"),
    }
    let def = tool.def();
    assert_eq!(def.name, "run_command");
    assert_eq!(def.params.len(), 2);
    assert!(def.params[0].required);
}

#[test]
fn tool_result_constructors() {
    let ok = ToolResult::ok("a".to_string(), "done".to_string());
    assert!(!ok.is_error);
    let err = ToolResult::error("a".to_string(), "bad".to_string());
    assert!(err.is_error);
}

#[test]
fn extract_code_blocks_finds_fenced_blocks() {
    let text = "intro\n```sh\nls -la\n```\nmiddle\n```\necho hi\necho bye\n```\ntail";
    let blocks = extract_code_blocks(text);
    assert_eq!(blocks, vec!["ls -la", "echo hi\necho bye"]);
}

#[test]
fn extract_code_blocks_ignores_unclosed() {
    let blocks = extract_code_blocks("```\nnot closed");
    assert_eq!(blocks, Vec::<String>::new());
}

#[test]
fn wrapped_line_count_cases() {
    assert_eq!(wrapped_line_count("", 10), 1);
    assert_eq!(wrapped_line_count("abc", 10), 1);
    assert_eq!(wrapped_line_count("abcdef", 3), 2);
    assert_eq!(wrapped_line_count("ab\ncd", 10), 2);
    assert_eq!(wrapped_line_count("abcd\nef", 2), 3);
    assert_eq!(wrapped_line_count("abc", 0), 1);
}

#[test]
fn line_content_strips_prefixes() {
    assert_eq!(line_content("You: hi"), "hi");
    assert_eq!(line_content("Assistant: yes"), "yes");
    assert_eq!(line_content("System: note"), "note");
    assert_eq!(line_content("      cont"), "cont");
    assert_eq!(line_content("bare"), "bare");
}

#[test]
fn find_helpers() {
    let chars: Vec<char> = "abcabc".chars().collect();
    let pat: Vec<char> = "ca".chars().collect();
    assert_eq!(find_seq(&chars, 0, &pat), Some(2));
    assert_eq!(find_seq(&chars, 3, &pat), None);
    assert_eq!(find_char_from(&chars, 1, 'a'), Some(3));
    assert_eq!(find_char_from(&chars, 4, 'a'), None);
}

#[test]
fn config_parse_blocks_and_comments() {
    let text = "# main web box\nHost web\n    HostName web.example.com\n    User deploy\n    Port 2222\n    IdentityFile ~/.ssh/id\n    ForwardAgent yes\n\nHost *\n    Compression yes\n\nHost db\n    HostName db.internal\n";
    let conns = parse_connections(text);
    assert_eq!(conns.len(), 2);
    assert_eq!(conns[0].name, "web");
    assert_eq!(conns[0].description, "main web box");
    assert_eq!(conns[0].hostname, "web.example.com");
    assert_eq!(conns[0].user, "deploy");
    assert_eq!(conns[0].port, 2222);
    assert_eq!(conns[0].identity_file.as_deref(), Some("~/.ssh/id"));
    assert_eq!(conns[0].extra_options, vec!["forwardagent yes"]);
    assert_eq!(conns[1].name, "db");
    assert_eq!(conns[1].hostname, "db.internal");
}

#[test]
fn config_bad_port_falls_back() {
    let conns = parse_connections("Host x\n    Port notanumber\n");
    assert_eq!(conns.len(), 1);
    assert_eq!(conns[0].port, 22);
}

#[test]
fn config_render_and_reparse() {
    let conns = vec![sample_connection()];
    let text = render_connections(&conns);
    assert!(text.contains("# prod box\n"));
    assert!(text.contains("Host web\n"));
    assert!(text.contains("    Port 2222\n"));
    let back = parse_connections(&text);
    assert_eq!(back.len(), 1);
    assert_eq!(back[0].name, "web");
    assert_eq!(back[0].port, 2222);
    assert_eq!(back[0].identity_file.as_deref(), Some("~/.ssh/id_prod"));
    assert_eq!(back[0].extra_options, conns[0].extra_options);
}

#[test]
fn theme_styles_are_fixed() {
    assert_eq!(Theme::title().fg, Some(Color::Green));
    assert!(Theme::title().attrs.bold);
    assert_eq!(Theme::error().fg, Some(Color::Red));
    assert_eq!(Theme::dimmed().fg, Some(Color::DarkGray));
    assert_eq!(Theme::highlight().bg, Some(Color::White));
}
