use editor_core::buffer::Buffer;
use editor_core::config::{Attribute, Color, Config, HighlightStyles, Style};
use editor_core::highlight::language::{detect, Language};
use editor_core::highlight::{overlay, HighlightEvent, Highlighter, Span};
use editor_core::utils::{BufCharIdx, BufRange, BufRow};

fn span(start: usize, end: usize, style: Option<usize>) -> Span {
    Span { range: BufRange::new(BufCharIdx(start), BufCharIdx(end)), style }
}

#[test]
fn language_is_told_by_extension() {
    assert_eq!(detect("main.rs"), Some(Language::Rust));
    assert_eq!(detect("/home/me/Cargo.toml"), Some(Language::Toml));
    assert_eq!(detect("a.b/notes"), None);
    assert_eq!(detect("notes.txt"), None);
    assert_eq!(detect(".rs"), None);
    assert_eq!(detect("dir/.toml"), None);
    assert_eq!(detect("archive.tar.rs"), Some(Language::Rust));
    assert_eq!(detect("x.rs/"), Some(Language::Rust));
    assert_eq!(detect("a.RS"), None);
    assert_eq!(detect("README"), None);
    assert_eq!(detect(""), None);
    assert_eq!(detect("rs"), None);
}

#[test]
fn default_config_has_thirteen_categories() {
    let config = Config::default();
    assert_eq!(config.hl.types.len(), 13);
    assert_eq!(config.hl.styles.len(), 13);
    assert_eq!(config.hl.types[4], "keyword");
    assert_eq!(config.hl.styles[4], Style::new().fg(Color::Magenta));
    assert_eq!(config.hl.types[12], "variable.builtin");
    assert_eq!(config.hl.styles[12], Style::new().fg(Color::Grey));
    assert_eq!(
        config.line_nr_active,
        Style::new().fg(Color::White).bg(Color::Black).attr(Attribute::Bold)
    );
    assert_eq!(
        config.line_nr_column,
        Style::new().fg(Color::Rgb { r: 80, g: 80, b: 80 }).bg(Color::Black)
    );
}

#[test]
fn style_builders_set_one_thing_each() {
    let s = Style::new();
    assert_eq!((s.fg, s.bg, s.attr.0.len()), (None, None, 0));
    assert_eq!(s.foreground(), Color::Reset);
    assert_eq!(s.background(), Color::Reset);
    let s = s.fg(Color::Red).attr(Attribute::Italic).attr(Attribute::Dim);
    assert_eq!(s.fg, Some(Color::Red));
    assert_eq!(s.bg, None);
    assert_eq!(s.attr.0, vec![Attribute::Italic, Attribute::Dim]);
    assert_eq!(s.foreground(), Color::Red);
    assert_eq!(s.copy(), s);
    let s = s.bg(Color::AnsiValue(7));
    assert_eq!(s.background(), Color::AnsiValue(7));
}

#[test]
fn overlay_clips_spans_to_the_rows() {
    let buf = Buffer::new(String::from("t"), "ab\ncd\nef\n");
    let events = vec![
        HighlightEvent::Source { start: 0, end: 1 },
        HighlightEvent::HighlightStart(3),
        HighlightEvent::Source { start: 1, end: 4 },
        HighlightEvent::HighlightStart(5),
        HighlightEvent::Source { start: 4, end: 5 },
        HighlightEvent::HighlightEnd,
        HighlightEvent::Source { start: 5, end: 7 },
        HighlightEvent::HighlightEnd,
        HighlightEvent::HighlightEnd,
        HighlightEvent::Source { start: 7, end: 9 },
    ];
    let all = overlay(&events, &buf, BufRow(0), BufRow(3));
    assert_eq!(
        all,
        vec![
            span(0, 1, None),
            span(1, 4, Some(3)),
            span(4, 5, Some(5)),
            span(5, 7, Some(3)),
            span(7, 9, None),
        ]
    );
    let middle = overlay(&events, &buf, BufRow(1), BufRow(2));
    assert_eq!(
        middle,
        vec![span(3, 4, Some(3)), span(4, 5, Some(5)), span(5, 6, Some(3))]
    );
    let none = overlay(&events, &buf, BufRow(1), BufRow(1));
    assert_eq!(none, vec![span(3, 3, Some(3))]);
}

#[test]
fn overlay_converts_bytes_to_characters() {
    let buf = Buffer::new(String::from("t"), "é√x\ny");
    let events = vec![HighlightEvent::Source { start: 2, end: 6 }];
    assert_eq!(overlay(&events, &buf, BufRow(0), BufRow(1)), vec![span(1, 3, None)]);
    let inside = vec![HighlightEvent::Source { start: 1, end: 4 }];
    assert_eq!(overlay(&inside, &buf, BufRow(0), BufRow(2)), vec![span(0, 1, None)]);
}

#[test]
fn highlighter_without_grammar_gives_one_plain_span() {
    let styles = HighlightStyles::new(vec![], vec![]);
    let mut hl = Highlighter::new(None, styles);
    assert!(!hl.has_hl());
    let buf = Buffer::new(String::from("notes.txt"), "héllo\n");
    hl.update_hl(&buf);
    assert!(hl.has_hl());
    assert_eq!(hl.get_hl(), &[HighlightEvent::Source { start: 0, end: 7 }]);
    hl.invalidate();
    assert!(!hl.has_hl());
    hl.cache_events(Some(vec![HighlightEvent::HighlightEnd]), 3);
    assert_eq!(hl.get_hl(), &[HighlightEvent::HighlightEnd]);
    hl.cache_events(None, 3);
    assert_eq!(hl.get_hl(), &[HighlightEvent::Source { start: 0, end: 3 }]);
}

#[test]
fn highlighter_with_grammar_tells_keywords() {
    let config = Config::default();
    let mut hl = Highlighter::new(Some(Language::Rust), config.hl.clone());
    assert_eq!(hl.style_count(), 13);
    assert_eq!(hl.get_style(4), &Style::new().fg(Color::Magenta));
    let buf = Buffer::new(String::from("main.rs"), "fn main() {}\n");
    hl.update_hl(&buf);
    let events = hl.get_hl();
    assert!(events.len() > 1);
    assert_eq!(events[0], HighlightEvent::HighlightStart(4));
    assert_eq!(events[1], HighlightEvent::Source { start: 0, end: 2 });
    assert_eq!(events[2], HighlightEvent::HighlightEnd);
    let spans = overlay(events, &buf, BufRow(0), BufRow(1));
    assert_eq!(spans[0], span(0, 2, Some(4)));
    let starts = events.iter().filter(|e| matches!(e, HighlightEvent::HighlightStart(_))).count();
    let ends = events.iter().filter(|e| matches!(e, HighlightEvent::HighlightEnd)).count();
    assert_eq!(starts, ends);
}

#[test]
fn highlighter_with_toml_grammar_runs() {
    let config = Config::default();
    let mut hl = Highlighter::new(Some(Language::Toml), config.hl.clone());
    let buf = Buffer::new(String::from("Cargo.toml"), "name = \"x\"\n");
    hl.update_hl(&buf);
    let events = hl.get_hl();
    assert!(events.iter().any(|e| matches!(e, HighlightEvent::HighlightStart(_))));
    assert!(events.contains(&HighlightEvent::Source { start: 7, end: 10 }));
}

#[test]
fn trailing_separators_and_dots_are_left_aside() {
    assert_eq!(detect("a.rs/"), Some(Language::Rust));
    assert_eq!(detect("a.rs//"), Some(Language::Rust));
    assert_eq!(detect("a.rs/."), Some(Language::Rust));
    assert_eq!(detect("dir/Cargo.toml/./"), Some(Language::Toml));
    assert_eq!(detect("a.rs/.."), None);
    assert_eq!(detect("a.rs/x"), None);
    assert_eq!(detect(".."), None);
    assert_eq!(detect("."), None);
    assert_eq!(detect("/"), None);
    assert_eq!(detect("./.rs"), None);
    assert_eq!(detect("..rs"), Some(Language::Rust));
    assert_eq!(detect("a.rs."), None);
    assert_eq!(detect("a.toml.rs"), Some(Language::Rust));
}

#[test]
fn language_agrees_with_the_extension_of_the_path() {
    let pieces = ["", "/", ".", "..", "a", "rs", ".rs", "a.rs", "a.toml", "x.", "//", "/.", "é.rs"];
    let mut paths: Vec<String> = Vec::new();
    for a in pieces {
        for b in pieces {
            for c in pieces {
                paths.push(format!("{}{}{}", a, b, c));
                paths.push(format!("{}/{}/{}", a, b, c));
            }
        }
    }
    for path in paths {
        let extension = std::path::Path::new(&path).extension().and_then(|e| e.to_str());
        let expected = match extension {
            Some("rs") => Some(Language::Rust),
            Some("toml") => Some(Language::Toml),
            _ => None,
        };
        assert_eq!(detect(&path), expected, "{:?}", path);
    }
}

#[test]
fn highlighter_has_a_grammar_for_each_language() {
    let config = Config::default();
    let buf = Buffer::new(String::from("x"), "fn f() {}\n");
    let plain = [HighlightEvent::Source { start: 0, end: 10 }];
    let mut none = Highlighter::new(None, config.hl.clone());
    none.update_hl(&buf);
    assert_eq!(none.get_hl(), &plain);
    let mut rust = Highlighter::new(Some(Language::Rust), config.hl.clone());
    rust.update_hl(&buf);
    assert_ne!(rust.get_hl(), &plain);
    let first: Vec<HighlightEvent> = rust.get_hl().to_vec();
    rust.invalidate();
    rust.update_hl(&buf);
    assert_eq!(rust.get_hl(), first.as_slice());
}
