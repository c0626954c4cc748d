use sheesh::ansi::{Parser, StyledRun};
use sheesh::event::{Action, Event, KeyCode, KeyModifiers, MouseEvent, MouseKind};
use sheesh::style::Color;
use sheesh::terminal::{Rect, TermEffect, TerminalTab};
use sheesh::wrap::wrap_line;

fn line(text: &str) -> Vec<StyledRun> {
    let mut p = Parser::new();
    p.feed(text)
}

fn tab_with_lines(texts: &[&str]) -> TerminalTab {
    let mut t = TerminalTab::new();
    let lines: Vec<Vec<StyledRun>> = texts.iter().map(|s| line(s)).collect();
    t.buffer.append_complete(lines);
    t
}

/// Render into a 0-based viewport so screen coordinates map directly.
fn render(t: &mut TerminalTab, w: u16, h: u16) {
    t.set_viewport(Rect { x: 0, y: 0, width: w, height: h });
    t.build_rows(w, h);
}

#[test]
fn wrapping_exact_multiple_gives_exact_rows() {
    let l = line("abcdefgh");
    let rows = wrap_line(&l, 4);
    assert_eq!(rows.len(), 2);
    assert_eq!(rows[0].start, 0);
    assert_eq!(rows[1].start, 4);
    assert_eq!(rows[0].runs[0].text, "abcd");
    assert_eq!(rows[1].runs[0].text, "efgh");
}

#[test]
fn wrapping_remainder_gets_extra_row() {
    let l = line("abcdefghi");
    let rows = wrap_line(&l, 4);
    assert_eq!(rows.len(), 3);
    assert_eq!(rows[2].start, 8);
    assert_eq!(rows[2].runs[0].text, "i");
}

#[test]
fn empty_line_yields_one_empty_row() {
    let l = line("");
    let rows = wrap_line(&l, 10);
    assert_eq!(rows.len(), 1);
    assert_eq!(rows[0].start, 0);
    assert!(rows[0].runs.is_empty());
}

#[test]
fn zero_width_yields_whole_line() {
    let l = line("abc");
    let rows = wrap_line(&l, 0);
    assert_eq!(rows.len(), 1);
    assert_eq!(rows[0].runs[0].text, "abc");
}

#[test]
fn wrapping_counts_scalar_values_not_bytes() {
    let l = line("ééééαβγδ");
    let rows = wrap_line(&l, 4);
    assert_eq!(rows.len(), 2);
    assert_eq!(rows[0].runs[0].text, "éééé");
    assert_eq!(rows[1].runs[0].text, "αβγδ");
    assert_eq!(rows[1].start, 4);
}

#[test]
fn wrapping_splits_runs_preserving_styles() {
    let l = line("\x1b[31mabc\x1b[0mdef");
    let rows = wrap_line(&l, 4);
    assert_eq!(rows.len(), 2);
    assert_eq!(rows[0].runs.len(), 2);
    assert_eq!(rows[0].runs[0].text, "abc");
    assert_eq!(rows[0].runs[0].style.fg, Some(Color::Red));
    assert_eq!(rows[0].runs[1].text, "d");
    assert_eq!(rows[1].runs[0].text, "ef");
}

#[test]
fn select_full_single_line_extracts_it() {
    let mut t = tab_with_lines(&["hello world"]);
    t.selection = Some(((0, 0), (0, 11)));
    assert_eq!(t.selected_text().unwrap(), "hello world");
}

#[test]
fn selection_normalizes_reversed_ends() {
    let mut t = tab_with_lines(&["hello"]);
    t.selection = Some(((0, 5), (0, 1)));
    assert_eq!(t.selected_text().unwrap(), "ello");
}

#[test]
fn selection_spans_lines_with_newlines() {
    let mut t = tab_with_lines(&["alpha", "beta", "gamma"]);
    t.selection = Some(((0, 2), (2, 3)));
    assert_eq!(t.selected_text().unwrap(), "pha\nbeta\ngam");
}

#[test]
fn selection_offsets_clamp_to_line_end() {
    let mut t = tab_with_lines(&["ab"]);
    t.selection = Some(((0, 0), (0, 99)));
    assert_eq!(t.selected_text().unwrap(), "ab");
}

#[test]
fn empty_selection_yields_none() {
    let mut t = tab_with_lines(&["ab"]);
    t.selection = Some(((0, 1), (0, 1)));
    assert!(t.selected_text().is_none());
    t.selection = None;
    assert!(t.selected_text().is_none());
}

#[test]
fn press_release_leaves_no_selection() {
    let mut t = tab_with_lines(&["some text"]);
    render(&mut t, 20, 5);
    t.press(2, 0);
    assert!(t.selection.is_some());
    t.release();
    assert!(t.selection.is_none());
}

#[test]
fn press_drag_release_keeps_selection() {
    let mut t = tab_with_lines(&["some text"]);
    render(&mut t, 20, 5);
    t.press(0, 0);
    t.drag_to(3, 0);
    t.release();
    assert_eq!(t.selection, Some(((0, 0), (0, 3))));
    assert_eq!(t.selected_text().unwrap(), "som");
}

#[test]
fn press_outside_viewport_clears_selection() {
    let mut t = tab_with_lines(&["text"]);
    render(&mut t, 10, 2);
    t.press(0, 0);
    t.press(50, 50);
    assert!(t.selection.is_none());
}

#[test]
fn screen_to_buf_resolves_through_wrapped_rows() {
    let mut t = tab_with_lines(&["abcdefgh"]);
    render(&mut t, 4, 5);
    // Row 1 shows the second wrapped row, starting at character 4.
    assert_eq!(t.screen_to_buf(1, 1), Some((0, 5)));
    // A column past the line end clamps to its length.
    assert_eq!(t.screen_to_buf(10, 1), Some((0, 8)));
    // A row below the rendered output resolves to nothing.
    assert_eq!(t.screen_to_buf(0, 4), None);
}

#[test]
fn build_rows_fills_height_and_maps_lines() {
    let mut t = tab_with_lines(&["one", "two", "three", "four"]);
    let rows = {
        t.set_viewport(Rect { x: 0, y: 0, width: 10, height: 2 });
        t.build_rows(10, 2)
    };
    assert_eq!(rows.len(), 2);
    // Two rows of height show the last two lines.
    assert_eq!(rows[0].line, 2);
    assert_eq!(rows[1].line, 3);
    assert_eq!(rows[0].runs[0].text, "three");
    assert_eq!(t.last_render_start, 2);
}

#[test]
fn build_rows_paints_selection() {
    let mut t = tab_with_lines(&["abcd"]);
    t.selection = Some(((0, 1), (0, 3)));
    let rows = t.build_rows(10, 3);
    assert_eq!(rows.len(), 1);
    let runs = &rows[0].runs;
    assert_eq!(runs.len(), 3);
    assert_eq!(runs[0].text, "a");
    assert_eq!(runs[1].text, "bc");
    assert_eq!(runs[1].style.bg, Some(Color::White));
    assert_eq!(runs[1].style.fg, Some(Color::Black));
    assert_eq!(runs[2].text, "d");
}

#[test]
fn scroll_clamps_to_content() {
    let mut t = tab_with_lines(&["a", "b", "c"]);
    t.scroll_offset = 100;
    t.build_rows(10, 2);
    assert_eq!(t.scroll_offset, 1);
    assert_eq!(t.last_render_start, 0);
}

fn key(code: KeyCode, ctrl: bool) -> Event {
    Event::Key(code, KeyModifiers { ctrl, alt: false, shift: false })
}

#[test]
fn ctrl_d_disconnects_and_ctrl_q_quits() {
    let mut t = TerminalTab::new();
    let (a, _) = t.handle_event(&key(KeyCode::Char('d'), true));
    assert!(matches!(a, Action::Disconnect));
    let (a, _) = t.handle_event(&key(KeyCode::Char('q'), true));
    assert!(matches!(a, Action::Quit));
}

#[test]
fn ctrl_c_copies_selection_or_interrupts() {
    let mut t = tab_with_lines(&["take me"]);
    t.selection = Some(((0, 0), (0, 4)));
    let (_, eff) = t.handle_event(&key(KeyCode::Char('c'), true));
    match eff {
        TermEffect::Copy(text) => assert_eq!(text, "take"),
        other => panic!("expected a copy effect, got {:?}", other),
    }
    assert!(t.selection.is_none());
    let (_, eff) = t.handle_event(&key(KeyCode::Char('c'), true));
    match eff {
        TermEffect::Write(b) => assert_eq!(b, vec![3u8]),
        other => panic!("expected an interrupt byte, got {:?}", other),
    }
}

#[test]
fn ctrl_v_requests_paste() {
    let mut t = TerminalTab::new();
    let (_, eff) = t.handle_event(&key(KeyCode::Char('v'), true));
    assert!(matches!(eff, TermEffect::Paste));
}

#[test]
fn ctrl_l_clears_and_asks_redraw() {
    let mut t = tab_with_lines(&["old"]);
    t.selection = Some(((0, 0), (0, 1)));
    let (_, eff) = t.handle_event(&key(KeyCode::Char('l'), true));
    match eff {
        TermEffect::WriteAndClear(b) => assert_eq!(b, vec![0x0c]),
        other => panic!("expected write-and-clear, got {:?}", other),
    }
    assert_eq!(t.buffer.lines.len(), 0);
    assert!(t.selection.is_none());
}

#[test]
fn plain_keys_forward_bytes() {
    let mut t = TerminalTab::new();
    let cases: Vec<(KeyCode, Vec<u8>)> = vec![
        (KeyCode::Char('x'), vec![b'x']),
        (KeyCode::Enter, vec![b'\r']),
        (KeyCode::Backspace, vec![0x7f]),
        (KeyCode::Tab, vec![b'\t']),
        (KeyCode::Esc, vec![0x1b]),
        (KeyCode::Left, vec![0x1b, b'[', b'D']),
        (KeyCode::Right, vec![0x1b, b'[', b'C']),
        (KeyCode::Up, vec![0x1b, b'[', b'A']),
        (KeyCode::Down, vec![0x1b, b'[', b'B']),
    ];
    for (code, want) in cases {
        let (_, eff) = t.handle_event(&key(code, false));
        match eff {
            TermEffect::Write(b) => assert_eq!(b, want),
            other => panic!("expected bytes for {:?}, got {:?}", code, other),
        }
    }
}

#[test]
fn ctrl_letter_sends_control_byte() {
    let mut t = TerminalTab::new();
    let (_, eff) = t.handle_event(&key(KeyCode::Char('a'), true));
    match eff {
        TermEffect::Write(b) => assert_eq!(b, vec![1u8]),
        other => panic!("expected a control byte, got {:?}", other),
    }
}

#[test]
fn multibyte_char_forwards_utf8() {
    let mut t = TerminalTab::new();
    let (_, eff) = t.handle_event(&key(KeyCode::Char('é'), false));
    match eff {
        TermEffect::Write(b) => assert_eq!(b, "é".as_bytes().to_vec()),
        other => panic!("expected utf-8 bytes, got {:?}", other),
    }
}

#[test]
fn function_keys_send_nothing() {
    let mut t = TerminalTab::new();
    let (a, eff) = t.handle_event(&key(KeyCode::F(5), false));
    assert!(matches!(a, Action::Noop));
    assert!(matches!(eff, TermEffect::Idle));
}

#[test]
fn mouse_click_and_release_through_events() {
    let mut t = tab_with_lines(&["words here"]);
    render(&mut t, 20, 5);
    let down = Event::Mouse(MouseEvent { kind: MouseKind::LeftDown, column: 1, row: 0 });
    let up = Event::Mouse(MouseEvent { kind: MouseKind::LeftUp, column: 1, row: 0 });
    t.handle_event(&down);
    assert_eq!(t.selection, Some(((0, 1), (0, 1))));
    t.handle_event(&up);
    assert!(t.selection.is_none());
}

#[test]
fn visible_text_and_capture_since_on_tab() {
    let mut t = tab_with_lines(&["a", "b", "c"]);
    assert_eq!(t.visible_text(2), "b\nc");
    assert_eq!(t.line_count(), 3);
    assert_eq!(t.capture_since(1), "b\nc");
    let _ = &mut t;
}
