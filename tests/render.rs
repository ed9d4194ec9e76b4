use rsftch::config::Color;
use rsftch::registry::ResolvedField;
use rsftch::render::{connector, longest_title, render, END_GLYPH, MIDDLE_GLYPH, START_GLYPH};

fn field(title: &str, value: &str) -> ResolvedField {
    ResolvedField { title: title.to_string(), icon: "*".to_string(), value: value.to_string() }
}

fn plain() {
    colored::control::set_override(false);
}

#[test]
fn connector_glyphs() {
    assert_eq!(connector(0, 1), START_GLYPH);
    assert_eq!(connector(0, 3), START_GLYPH);
    assert_eq!(connector(1, 3), MIDDLE_GLYPH);
    assert_eq!(connector(2, 3), END_GLYPH);
    assert_eq!(START_GLYPH, "\u{256d}\u{2500}");
}

#[test]
fn single_field_uses_start_glyph() {
    plain();
    let lines = render(&vec![vec![field("os", "Arch")]], "ART", &vec![Color::Red, Color::Green], 1);
    assert_eq!(lines.len(), 3);
    assert!(lines[2].contains(START_GLYPH));
    assert!(!lines[2].contains(MIDDLE_GLYPH));
    assert!(!lines[2].contains(END_GLYPH));
}

#[test]
fn arrows_share_a_column() {
    plain();
    let secs = vec![vec![field("os", "Arch"), field("kernel", "6.9")]];
    assert_eq!(longest_title(&secs), 6);
    let lines = render(&secs, "ART", &vec![Color::Red, Color::Green], 2);
    let col = |l: &String| l.chars().position(|c| c == '~').unwrap();
    assert_eq!(col(&lines[2]), col(&lines[3]));
    assert_eq!(lines[0], "  ART");
    assert_eq!(lines[1], "  ");
    assert_eq!(lines[2], format!("  {}*  os     ~> Arch", START_GLYPH));
    assert_eq!(lines[3], format!("  {}*  kernel ~> 6.9", END_GLYPH));
}

#[test]
fn width_spans_all_sections() {
    plain();
    let secs = vec![vec![field("os", "a")], vec![field("timezone", "b")]];
    let lines = render(&secs, "ART", &vec![Color::Red], 0);
    assert_eq!(lines, vec![
        "ART".to_string(),
        "".to_string(),
        format!("{}*  os       ~> a", START_GLYPH),
        "".to_string(),
        format!("{}*  timezone ~> b", START_GLYPH),
    ]);
}

#[test]
fn empty_sections_take_no_lines() {
    plain();
    let secs = vec![vec![], vec![field("a", "1")], vec![], vec![field("b", "2"), field("c", "3")], vec![]];
    let lines = render(&secs, "ART", &vec![], 0);
    assert_eq!(lines.len(), 2 + 1 + 1 + 2);
    assert_eq!(lines[3], "");
    assert!(lines[5].starts_with(END_GLYPH));
}

#[test]
fn glyphs_are_colored_but_text_is_not() {
    colored::control::set_override(true);
    let secs = vec![vec![field("os", "Arch")]];
    let lines = render(&secs, "ART", &vec![Color::Red, Color::Blue], 0);
    assert_eq!(lines[0], "\x1b[31mART\x1b[0m");
    let expected = format!(
        "\x1b[34m{}\x1b[0m\x1b[34m*\x1b[0m  os \x1b[34m~>\x1b[0m Arch",
        START_GLYPH
    );
    assert_eq!(lines[2], expected);
}

#[test]
fn short_palette_does_not_fail() {
    colored::control::set_override(true);
    let secs = vec![vec![field("os", "A")], vec![field("host", "B")], vec![field("cpu", "C")]];
    let lines = render(&secs, "ART", &vec![Color::Green], 0);
    assert_eq!(lines.len(), 2 + 1 + 1 + 1 + 1 + 1);
    assert!(lines[0].starts_with("\x1b[32m"));
    assert!(lines[2].starts_with("\x1b[32m"));
    assert!(lines[6].starts_with("\x1b[32m"));
}

#[test]
fn margin_before_every_line() {
    plain();
    let secs = vec![vec![field("os", "A")], vec![field("cpu", "C")]];
    let lines = render(&secs, "a\nb", &vec![Color::Red], 1);
    assert_eq!(lines.len(), 2 + 1 + 1 + 1 + 1);
    assert_eq!(lines[0], " a");
    assert_eq!(lines[1], " b");
    assert_eq!(lines[2], " ");
    assert_eq!(lines[4], " ");
    for l in &lines {
        assert!(l.starts_with(' '));
    }
}

#[test]
fn empty_palette_uses_no_color() {
    colored::control::set_override(true);
    let lines = render(&vec![vec![field("os", "A")]], "ART", &vec![], 0);
    assert_eq!(lines[0], "ART");
    assert_eq!(lines[2], format!("{}*  os ~> A", START_GLYPH));
}
