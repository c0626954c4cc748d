use sheesh::markdown::{parse_inline_md, render_md_line};
use sheesh::style::{Color, Style};

fn parts(text: &str) -> Vec<(String, Style)> {
    parse_inline_md(text).into_iter().map(|r| (r.text, r.style)).collect()
}

#[test]
fn plain_text_is_one_raw_span() {
    let p = parts("just words");
    assert_eq!(p.len(), 1);
    assert_eq!(p[0].0, "just words");
    assert_eq!(p[0].1, Style::reset());
}

#[test]
fn empty_line_is_one_empty_span() {
    let p = parts("");
    assert_eq!(p.len(), 1);
    assert_eq!(p[0].0, "");
}

#[test]
fn double_star_is_bold() {
    let p = parts("a **b** c");
    assert_eq!(p.len(), 3);
    assert_eq!(p[0].0, "a ");
    assert_eq!(p[1].0, "b");
    assert!(p[1].1.attrs.bold);
    assert_eq!(p[2].0, " c");
}

#[test]
fn double_underscore_is_bold() {
    let p = parts("__strong__");
    assert_eq!(p.len(), 1);
    assert_eq!(p[0].0, "strong");
    assert!(p[0].1.attrs.bold);
}

#[test]
fn single_star_is_italic() {
    let p = parts("x *it* y");
    assert_eq!(p.len(), 3);
    assert_eq!(p[1].0, "it");
    assert!(p[1].1.attrs.italic);
}

#[test]
fn backticks_are_code() {
    let p = parts("run `ls -la` now");
    assert_eq!(p.len(), 3);
    assert_eq!(p[1].0, "ls -la");
    assert_eq!(p[1].1.fg, Some(Color::Cyan));
    assert!(p[1].1.attrs.bold);
}

#[test]
fn unclosed_markers_stay_literal() {
    let p = parts("a *b and `c");
    assert_eq!(p.len(), 1);
    assert_eq!(p[0].0, "a *b and `c");
}

#[test]
fn mixed_markers_in_one_line() {
    let p = parts("**a** and `b`");
    assert_eq!(p.len(), 3);
    assert_eq!(p[0].0, "a");
    assert!(p[0].1.attrs.bold);
    assert_eq!(p[1].0, " and ");
    assert_eq!(p[2].0, "b");
    assert_eq!(p[2].1.fg, Some(Color::Cyan));
}

#[test]
fn empty_code_span_is_kept() {
    let p = parts("a``b");
    assert_eq!(p.len(), 3);
    assert_eq!(p[0].0, "a");
    assert_eq!(p[1].0, "");
    assert_eq!(p[2].0, "b");
}

#[test]
fn render_line_labels_and_headings() {
    let spans = render_md_line("You: hi **there**", false);
    assert_eq!(spans[0].text, "You: ");
    assert_eq!(spans[0].style.fg, Some(Color::Green));
    assert_eq!(spans[1].text, "hi ");
    assert_eq!(spans[2].text, "there");
    assert!(spans[2].style.attrs.bold);

    let heading = render_md_line("## section", false);
    assert_eq!(heading.len(), 1);
    assert_eq!(heading[0].text, "## section");
    assert_eq!(heading[0].style.fg, Some(Color::Cyan));

    let code = render_md_line("      let x = 1;", true);
    assert_eq!(code.len(), 2);
    assert_eq!(code[0].text, "      ");
    assert_eq!(code[1].text, "let x = 1;");
    assert_eq!(code[1].style.fg, Some(Color::Yellow));

    let empty = render_md_line("", false);
    assert_eq!(empty.len(), 1);
    assert_eq!(empty[0].text, "");
}
