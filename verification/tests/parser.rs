use sheesh::ansi::Parser;
use sheesh::style::{AttrSet, Color, Style};

fn feed_all(input: &str) -> Vec<(String, Style)> {
    let mut p = Parser::new();
    p.feed(input).into_iter().map(|r| (r.text, r.style)).collect()
}

fn red() -> Style {
    Style { fg: Some(Color::Red), bg: None, attrs: AttrSet::empty() }
}

#[test]
fn plain_text_round_trip() {
    let runs = feed_all("hello world");
    assert_eq!(runs.len(), 1);
    assert_eq!(runs[0].0, "hello world");
    assert_eq!(runs[0].1, Style::reset());
}

#[test]
fn plain_text_empty_input() {
    let runs = feed_all("");
    assert_eq!(runs.len(), 0);
}

#[test]
fn red_then_default_gives_two_runs() {
    let runs = feed_all("\x1b[31mHELLO\x1b[0m world");
    assert_eq!(runs.len(), 2);
    assert_eq!(runs[0].0, "HELLO");
    assert_eq!(runs[0].1, red());
    assert_eq!(runs[1].0, " world");
    assert_eq!(runs[1].1, Style::reset());
}

#[test]
fn sgr_split_across_two_feeds_matches_one_feed() {
    let mut p = Parser::new();
    let mut two: Vec<(String, Style)> =
        p.feed("\x1b[3").into_iter().map(|r| (r.text, r.style)).collect();
    two.extend(p.feed("1mHI").into_iter().map(|r| (r.text, r.style)));
    let one = feed_all("\x1b[31mHI");
    assert_eq!(two, one);
    assert_eq!(two.len(), 1);
    assert_eq!(two[0].0, "HI");
    assert_eq!(two[0].1, red());
}

#[test]
fn style_persists_across_feeds() {
    let mut p = Parser::new();
    let first = p.feed("\x1b[31mred");
    assert_eq!(first.len(), 1);
    assert_eq!(first[0].style, red());
    let second = p.feed("still red");
    assert_eq!(second.len(), 1);
    assert_eq!(second[0].style, red());
}

#[test]
fn carriage_return_is_dropped() {
    let runs = feed_all("ab\rcd");
    assert_eq!(runs.len(), 1);
    assert_eq!(runs[0].0, "abcd");
}

#[test]
fn backspace_removes_previous_character() {
    let runs = feed_all("abc\x08d");
    assert_eq!(runs.len(), 1);
    assert_eq!(runs[0].0, "abd");
}

#[test]
fn backspace_on_empty_pending_does_nothing() {
    let runs = feed_all("\x08ab");
    assert_eq!(runs.len(), 1);
    assert_eq!(runs[0].0, "ab");
}

#[test]
fn tab_is_kept_other_controls_dropped() {
    let runs = feed_all("a\tb\x01c");
    assert_eq!(runs.len(), 1);
    assert_eq!(runs[0].0, "a\tbc");
}

#[test]
fn osc_sequence_is_discarded() {
    let runs = feed_all("a\x1b]0;window title\x07b");
    assert_eq!(runs.len(), 1);
    assert_eq!(runs[0].0, "ab");
}

#[test]
fn osc_terminated_by_st() {
    let runs = feed_all("a\x1b]0;title\x1b\\b");
    assert_eq!(runs.len(), 1);
    assert_eq!(runs[0].0, "ab");
}

#[test]
fn cursor_movement_csi_is_discarded() {
    let runs = feed_all("a\x1b[2Jb\x1b[10;20Hc");
    assert_eq!(runs.len(), 1);
    assert_eq!(runs[0].0, "abc");
}

#[test]
fn lone_escape_skips_one_character() {
    let runs = feed_all("a\x1bXbc");
    assert_eq!(runs.len(), 1);
    assert_eq!(runs[0].0, "abc");
}

#[test]
fn indexed_and_rgb_colours() {
    let runs = feed_all("\x1b[38;5;42mx\x1b[48;2;1;2;3my");
    assert_eq!(runs.len(), 2);
    assert_eq!(runs[0].1.fg, Some(Color::Indexed(42)));
    assert_eq!(runs[1].1.fg, Some(Color::Indexed(42)));
    assert_eq!(runs[1].1.bg, Some(Color::Rgb(1, 2, 3)));
}

#[test]
fn attributes_set_and_cleared() {
    let runs = feed_all("\x1b[1;4ma\x1b[22mb\x1b[24mc");
    assert_eq!(runs.len(), 3);
    assert!(runs[0].1.attrs.bold);
    assert!(runs[0].1.attrs.underline);
    assert!(!runs[1].1.attrs.bold);
    assert!(runs[1].1.attrs.underline);
    assert!(!runs[2].1.attrs.underline);
}

#[test]
fn bright_and_background_colours() {
    let runs = feed_all("\x1b[91;44mx");
    assert_eq!(runs.len(), 1);
    assert_eq!(runs[0].1.fg, Some(Color::LightRed));
    assert_eq!(runs[0].1.bg, Some(Color::Blue));
}

#[test]
fn foreground_and_background_reset_codes() {
    let runs = feed_all("\x1b[31;41ma\x1b[39mb\x1b[49mc");
    assert_eq!(runs[0].1.fg, Some(Color::Red));
    assert_eq!(runs[1].1.fg, None);
    assert_eq!(runs[1].1.bg, Some(Color::Red));
    assert_eq!(runs[2].1.bg, None);
}

#[test]
fn unknown_sgr_codes_are_ignored() {
    let runs = feed_all("\x1b[99ma");
    assert_eq!(runs.len(), 1);
    assert_eq!(runs[0].1, Style::reset());
}

#[test]
fn malformed_sgr_parameter_is_skipped() {
    // 256 does not fit a byte, so only the valid code applies.
    let runs = feed_all("\x1b[256;31ma");
    assert_eq!(runs.len(), 1);
    assert_eq!(runs[0].1, red());
}

#[test]
fn truncated_escape_at_end_produces_no_text() {
    let runs = feed_all("ok\x1b[3");
    assert_eq!(runs.len(), 1);
    assert_eq!(runs[0].0, "ok");
}

#[test]
fn adjacent_runs_with_same_style_are_merged() {
    // The second SGR leaves the style unchanged, so the text stays one run.
    let runs = feed_all("aa\x1b[1m\x1b[22mbb");
    assert_eq!(runs.len(), 1);
    assert_eq!(runs[0].0, "aabb");
}

#[test]
fn reset_via_empty_parameter_list() {
    let runs = feed_all("\x1b[31ma\x1b[mb");
    assert_eq!(runs.len(), 2);
    assert_eq!(runs[1].1, Style::reset());
}

#[test]
fn parser_reset_restores_defaults() {
    let mut p = Parser::new();
    p.feed("\x1b[31m\x1b[");
    p.reset();
    let runs = p.feed("plain");
    assert_eq!(runs.len(), 1);
    assert_eq!(runs[0].style, Style::reset());
    assert_eq!(runs[0].text, "plain");
}
