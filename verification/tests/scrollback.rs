use sheesh::ansi::{Parser, StyledRun};
use sheesh::buffer::{plain_text, ScrollbackBuffer, MAX_LINES};
use sheesh::pump::PumpState;

fn line(text: &str) -> Vec<StyledRun> {
    let mut p = Parser::new();
    p.feed(text)
}

#[test]
fn append_past_capacity_drops_oldest_in_order() {
    let mut buf = ScrollbackBuffer::with_capacity(3);
    let mut lines: Vec<Vec<StyledRun>> = Vec::new();
    for i in 0..5 {
        lines.push(line(&format!("line{}", i)));
    }
    buf.append_complete(lines);
    assert_eq!(buf.line_count(), 3);
    assert_eq!(buf.visible_text(3), "line2\nline3\nline4");
}

#[test]
fn default_capacity_eviction() {
    let mut buf = ScrollbackBuffer::new();
    let mut lines: Vec<Vec<StyledRun>> = Vec::new();
    for i in 0..(MAX_LINES + 1) {
        lines.push(line(&format!("l{}", i)));
    }
    buf.append_complete(lines);
    assert_eq!(buf.line_count(), MAX_LINES);
    // The oldest line fell off; the second one is now first.
    assert_eq!(buf.capture_since(0).lines().next().unwrap(), "l1");
    assert_eq!(buf.visible_text(1), format!("l{}", MAX_LINES));
}

#[test]
fn capture_since_returns_only_new_lines() {
    let mut buf = ScrollbackBuffer::new();
    buf.append_complete(vec![line("one"), line("two")]);
    let mark = buf.line_count();
    assert_eq!(mark, 2);
    buf.append_complete(vec![line("three"), line("four")]);
    assert_eq!(buf.capture_since(mark), "three\nfour");
    let mark2 = buf.line_count();
    buf.append_complete(vec![line("five")]);
    assert_eq!(buf.capture_since(mark2), "five");
}

#[test]
fn capture_since_past_end_is_empty() {
    let mut buf = ScrollbackBuffer::new();
    buf.append_complete(vec![line("a")]);
    assert_eq!(buf.capture_since(10), "");
}

#[test]
fn replace_partial_swaps_last_line() {
    let mut buf = ScrollbackBuffer::new();
    buf.append_complete(vec![line("done")]);
    buf.replace_partial(line("par"));
    assert_eq!(buf.visible_text(10), "done\npar");
    buf.replace_partial(line("partial"));
    assert_eq!(buf.line_count(), 2);
    assert_eq!(buf.visible_text(10), "done\npartial");
}

#[test]
fn apply_chunk_replaces_partial_and_appends() {
    let mut buf = ScrollbackBuffer::new();
    buf.apply_chunk(Vec::new(), line("pa"));
    assert_eq!(buf.visible_text(10), "pa");
    buf.apply_chunk(vec![line("part one"), line("part two")], line("rest"));
    assert_eq!(buf.line_count(), 3);
    assert_eq!(buf.visible_text(10), "part one\npart two\nrest");
}

#[test]
fn plain_text_concatenates_runs() {
    let l = line("\x1b[31mred\x1b[0m plain");
    assert_eq!(plain_text(&l), "red plain");
}

#[test]
fn clear_empties_buffer() {
    let mut buf = ScrollbackBuffer::new();
    buf.append_complete(vec![line("x")]);
    buf.clear();
    assert_eq!(buf.line_count(), 0);
    assert_eq!(buf.visible_text(5), "");
}

#[test]
fn pump_splits_lines_and_keeps_partial() {
    let mut pump = PumpState::new();
    let mut buf = ScrollbackBuffer::new();
    pump.pump_chunk(&mut buf, "first\nsecond\npar", false);
    assert_eq!(buf.line_count(), 3);
    assert_eq!(buf.visible_text(10), "first\nsecond\npar");
    // More bytes grow the partial line; it is replaced, not duplicated.
    pump.pump_chunk(&mut buf, "tial\nnext", false);
    assert_eq!(buf.line_count(), 4);
    assert_eq!(buf.visible_text(10), "first\nsecond\npartial\nnext");
}

#[test]
fn pump_carries_escape_split_across_chunks() {
    let mut pump = PumpState::new();
    let mut buf = ScrollbackBuffer::new();
    pump.pump_chunk(&mut buf, "\x1b[3", false);
    pump.pump_chunk(&mut buf, "1mRED\n", false);
    assert_eq!(buf.line_count(), 2);
    assert_eq!(buf.visible_text(10), "RED\n");
    // The completed first line carries the red style.
    let first = &buf.lines[0];
    assert_eq!(first.len(), 1);
    assert_eq!(first[0].text, "RED");
    assert_eq!(first[0].style.fg, Some(sheesh::style::Color::Red));
}

#[test]
fn pump_style_persists_across_lines() {
    let mut pump = PumpState::new();
    let mut buf = ScrollbackBuffer::new();
    pump.pump_chunk(&mut buf, "\x1b[31mone\ntwo\n", false);
    assert_eq!(buf.lines[0][0].style.fg, Some(sheesh::style::Color::Red));
    assert_eq!(buf.lines[1][0].style.fg, Some(sheesh::style::Color::Red));
}

#[test]
fn pump_partial_does_not_advance_style() {
    let mut pump = PumpState::new();
    let mut buf = ScrollbackBuffer::new();
    // The partial line turns red, but no newline has finished it.
    pump.pump_chunk(&mut buf, "\x1b[31mpar", false);
    // A clear request wipes the accumulator and the carried style.
    pump.pump_chunk(&mut buf, "plain", true);
    let last = &buf.lines[buf.lines.len() - 1];
    assert_eq!(last[0].text, "plain");
    assert_eq!(last[0].style, sheesh::style::Style::reset());
}

#[test]
fn pump_clear_request_drops_accumulator() {
    let mut pump = PumpState::new();
    let mut buf = ScrollbackBuffer::new();
    pump.pump_chunk(&mut buf, "half", false);
    buf.clear();
    pump.pump_chunk(&mut buf, "fresh", true);
    assert_eq!(buf.line_count(), 1);
    assert_eq!(buf.visible_text(10), "fresh");
}
