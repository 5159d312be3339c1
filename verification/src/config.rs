//! The styles of the editor: those of the line-number gutter, and one for
//! each category of token that the highlighter tells apart.

use vstd::prelude::*;
use vstd::string::StringExecFns;

verus! {

/// A colour of the terminal.
#[derive(Clone, Copy, Debug, PartialEq, Eq, Structural)]
pub enum Color {
    Reset,
    Black,
    DarkGrey,
    Red,
    DarkRed,
    Green,
    DarkGreen,
    Yellow,
    DarkYellow,
    Blue,
    DarkBlue,
    Magenta,
    DarkMagenta,
    Cyan,
    DarkCyan,
    White,
    Grey,
    Rgb { r: u8, g: u8, b: u8 },
    AnsiValue(u8),
}

/// A way to set text off.
#[derive(Clone, Copy, Debug, PartialEq, Eq, Structural)]
pub enum Attribute {
    Bold,
    Italic,
    Underlined,
    Dim,
    Reversed,
    Hidden,
    CrossedOut,
}

/// The attributes of a style, in the order in which they were added.
#[derive(Clone, Debug, PartialEq, Eq)]
pub struct Attributes(pub Vec<Attribute>);

/// How text is drawn: its colours, each optional, and its attributes.
#[derive(Clone, Debug, PartialEq, Eq)]
pub struct Style {
    pub fg: Option<Color>,
    pub bg: Option<Color>,
    pub attr: Attributes,
}

/// What a style is, as plain values.
pub struct StyleView {
    pub fg: Option<Color>,
    pub bg: Option<Color>,
    pub attr: Seq<Attribute>,
}

impl View for Style {
    type V = StyleView;

    open spec fn view(&self) -> StyleView {
        StyleView { fg: self.fg, bg: self.bg, attr: self.attr.0@ }
    }
}

impl StyleView {
    /// The style with a foreground colour and nothing else.
    pub open spec fn of_fg(color: Color) -> StyleView {
        StyleView { fg: Some(color), bg: None, attr: Seq::empty() }
    }
}

impl Style {
    /// The style that sets nothing.
    pub fn new() -> (style: Self)
        ensures
            style@ == (StyleView { fg: None, bg: None, attr: Seq::empty() }),
    {
        Style { fg: None, bg: None, attr: Attributes(Vec::new()) }
    }

    /// The style with this foreground colour.
    pub fn fg(self, color: Color) -> (style: Self)
        ensures
            style@ == (StyleView { fg: Some(color), ..self@ }),
    {
        Style { fg: Some(color), bg: self.bg, attr: self.attr }
    }

    /// The style with this background colour.
    pub fn bg(self, color: Color) -> (style: Self)
        ensures
            style@ == (StyleView { bg: Some(color), ..self@ }),
    {
        Style { fg: self.fg, bg: Some(color), attr: self.attr }
    }

    /// The style with one more attribute.
    pub fn attr(self, attr: Attribute) -> (style: Self)
        ensures
            style@ == (StyleView { attr: self@.attr.push(attr), ..self@ }),
    {
        let mut attrs = self.attr.0;
        attrs.push(attr);
        Style { fg: self.fg, bg: self.bg, attr: Attributes(attrs) }
    }

    /// A copy of the style.
    pub fn copy(&self) -> (style: Self)
        ensures
            style@ == self@,
    {
        let mut attrs: Vec<Attribute> = Vec::new();
        let mut i: usize = 0;
        while i < self.attr.0.len()
            invariant
                i <= self.attr.0@.len(),
                attrs@ == self.attr.0@.subrange(0, i as int),
            decreases self.attr.0@.len() - i,
        {
            attrs.push(self.attr.0[i]);
            assert(attrs@ =~= self.attr.0@.subrange(0, i + 1));
            i += 1;
        }
        assert(attrs@ =~= self.attr.0@);
        Style { fg: self.fg, bg: self.bg, attr: Attributes(attrs) }
    }

    /// The foreground colour to draw with: the style's own, or the
    /// terminal's where it has none.
    pub fn foreground(&self) -> (color: Color)
        ensures
            color == (match self.fg {
                Some(c) => c,
                None => Color::Reset,
            }),
    {
        match self.fg {
            Some(c) => c,
            None => Color::Reset,
        }
    }

    /// The background colour to draw with: the style's own, or the
    /// terminal's where it has none.
    pub fn background(&self) -> (color: Color)
        ensures
            color == (match self.bg {
                Some(c) => c,
                None => Color::Reset,
            }),
    {
        match self.bg {
            Some(c) => c,
            None => Color::Reset,
        }
    }
}

/// The categories of token that are told apart, and the style of each: the
/// style of `types[i]` is `styles[i]`.
#[derive(Clone, Debug)]
pub struct HighlightStyles {
    pub types: Vec<String>,
    pub styles: Vec<Style>,
}

impl HighlightStyles {
    pub fn new(types: Vec<String>, styles: Vec<Style>) -> (hl: Self)
        ensures
            hl.types == types,
            hl.styles == styles,
    {
        Self { types, styles }
    }

    /// The names of the categories.
    pub open spec fn names(&self) -> Seq<Seq<char>> {
        self.types@.map_values(|s: String| s@)
    }

    /// The styles of the categories.
    pub open spec fn looks(&self) -> Seq<StyleView> {
        self.styles@.map_values(|s: Style| s@)
    }
}

#[derive(Clone)]
pub struct Config {
    pub line_nr_active: Style,
    pub line_nr_column: Style,
    pub hl: HighlightStyles,
}

/// The categories of the built-in configuration.
pub open spec fn default_names() -> Seq<Seq<char>> {
    seq![
        "attribute"@,
        "constant"@,
        "function.builtin"@,
        "function"@,
        "keyword"@,
        "property"@,
        "punctuation.delimiter"@,
        "string"@,
        "string.special"@,
        "tag"@,
        "type"@,
        "type.builtin"@,
        "variable.builtin"@,
    ]
}

/// The styles of the built-in configuration, one for each of its categories.
pub open spec fn default_looks() -> Seq<StyleView> {
    seq![
        StyleView::of_fg(Color::Blue),
        StyleView::of_fg(Color::DarkYellow),
        StyleView::of_fg(Color::Blue),
        StyleView::of_fg(Color::Blue),
        StyleView::of_fg(Color::Magenta),
        StyleView::of_fg(Color::Blue),
        StyleView::of_fg(Color::DarkYellow),
        StyleView::of_fg(Color::Green),
        StyleView::of_fg(Color::Cyan),
        StyleView::of_fg(Color::Yellow),
        StyleView::of_fg(Color::Blue),
        StyleView::of_fg(Color::Yellow),
        StyleView::of_fg(Color::Grey),
    ]
}

impl Default for Config {
    /// The built-in configuration: the number of the cursor's line in bold
    /// white on black, the other line numbers in dark grey on black, and
    /// thirteen categories of token, each with a foreground colour.
    fn default() -> (config: Self)
        ensures
            config.line_nr_active@ == (StyleView {
                fg: Some(Color::White),
                bg: Some(Color::Black),
                attr: seq![Attribute::Bold],
            }),
            config.line_nr_column@ == (StyleView {
                fg: Some(Color::Rgb { r: 80, g: 80, b: 80 }),
                bg: Some(Color::Black),
                attr: Seq::empty(),
            }),
            config.hl.names() == default_names(),
            config.hl.looks() == default_looks(),
    {
        let mut types: Vec<String> = Vec::new();
        let mut styles: Vec<Style> = Vec::new();
        types.push(String::from_str("attribute"));
        styles.push(Style::new().fg(Color::Blue));
        types.push(String::from_str("constant"));
        styles.push(Style::new().fg(Color::DarkYellow));
        types.push(String::from_str("function.builtin"));
        styles.push(Style::new().fg(Color::Blue));
        types.push(String::from_str("function"));
        styles.push(Style::new().fg(Color::Blue));
        types.push(String::from_str("keyword"));
        styles.push(Style::new().fg(Color::Magenta));
        types.push(String::from_str("property"));
        styles.push(Style::new().fg(Color::Blue));
        types.push(String::from_str("punctuation.delimiter"));
        styles.push(Style::new().fg(Color::DarkYellow));
        types.push(String::from_str("string"));
        styles.push(Style::new().fg(Color::Green));
        types.push(String::from_str("string.special"));
        styles.push(Style::new().fg(Color::Cyan));
        types.push(String::from_str("tag"));
        styles.push(Style::new().fg(Color::Yellow));
        types.push(String::from_str("type"));
        styles.push(Style::new().fg(Color::Blue));
        types.push(String::from_str("type.builtin"));
        styles.push(Style::new().fg(Color::Yellow));
        types.push(String::from_str("variable.builtin"));
        styles.push(Style::new().fg(Color::Grey));
        let config = Config {
            line_nr_active: Style::new().fg(Color::White).bg(Color::Black).attr(Attribute::Bold),
            line_nr_column: Style::new().fg(Color::Rgb { r: 80, g: 80, b: 80 }).bg(Color::Black),
            hl: HighlightStyles::new(types, styles),
        };
        assert(config.hl.names() =~= default_names());
        assert(config.hl.looks() =~= default_looks());
        assert(config.line_nr_active@.attr =~= seq![Attribute::Bold]);
        config
    }
}

} // verus!
