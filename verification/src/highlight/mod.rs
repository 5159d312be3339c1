//! The highlight overlay: a cache of the events that the tokenizer gives for
//! the whole buffer, and what of them falls on the rows that are drawn.
//!
//! An event is a span of source bytes, the start of a style, or the end of
//! the style started last. Styles nest, so the style of a span is the one
//! started last and not yet ended.

pub mod language;

use crate::buffer::Buffer;
use crate::config::{HighlightStyles, Style};
use crate::highlight::language::Language;
use crate::rope::rope_bytes;
use crate::text::{
    byte_len, byte_of_char, char_of_byte, lemma_byte_of_char_monotonic, lemma_char_of_byte_bounds,
    lemma_line_start_bounds, lemma_line_start_monotonic, line_count, line_start,
};
use crate::utils::{spec_max, spec_min, BufByteIdx, BufCharIdx, BufRange, BufRow};
use vstd::prelude::*;
use vstd::utf8::encode_utf8;

verus! {

#[verifier::external_type_specification]
#[verifier::external_body]
pub struct ExHighlightConfiguration(tree_sitter_highlight::HighlightConfiguration);

/// What the tokenizer tells of the source, in order.
#[derive(Clone, Copy, Debug, PartialEq, Eq, Structural)]
pub enum HighlightEvent {
    /// The bytes from `start` up to `end` are source text.
    Source { start: usize, end: usize },
    /// The style with this index starts.
    HighlightStart(usize),
    /// The style that started last ends.
    HighlightEnd,
}

/// A range of characters to draw, and the index of the style to draw it in,
/// if it has one.
#[derive(Clone, Copy, Debug, PartialEq, Eq, Structural)]
pub struct Span {
    pub range: BufRange,
    pub style: Option<usize>,
}

/// Whether tree-sitter-highlight accepts the grammar of a language together
/// with the highlight query that comes with it.
pub uninterp spec fn grammar_loads(lang: Language) -> bool;

/// The events that the tokenizer gives for the source under a configuration,
/// or nothing where it fails.
pub uninterp spec fn tokens(
    conf: tree_sitter_highlight::HighlightConfiguration,
    source: Seq<u8>,
) -> Option<Seq<HighlightEvent>>;

/// `HighlightConfiguration::new` with the grammar and the highlight query
/// that the language's crate brings, and no other query. It gives nothing
/// where the query is refused. Whether it is depends on the language alone;
/// the contract names that and claims nothing more.
#[verifier::external_body]
fn configuration(lang: Language) -> (conf: Option<tree_sitter_highlight::HighlightConfiguration>)
    ensures
        conf is Some == grammar_loads(lang),
{
    let (grammar, query) = match lang {
        Language::Rust => (tree_sitter_rust::language(), tree_sitter_rust::HIGHLIGHT_QUERY),
        Language::Toml => (tree_sitter_toml::language(), tree_sitter_toml::HIGHLIGHT_QUERY),
    };
    tree_sitter_highlight::HighlightConfiguration::new(grammar, query, "", "").ok()
}

/// `HighlightConfiguration::configure`: the names of the styles that the
/// indices of the events stand for. Nothing is claimed of the configuration
/// that it leaves.
#[verifier::external_body]
fn configure(conf: &mut tree_sitter_highlight::HighlightConfiguration, names: &Vec<String>) {
    conf.configure(names.as_slice())
}

/// `Highlighter::highlight` of tree-sitter-highlight on a tokenizer made for
/// the call, its events collected, or nothing if the tokenizer fails. The
/// events depend on the configuration and the source alone; the contract
/// names them and claims nothing of what they are.
#[verifier::external_body]
fn tokenize(conf: &tree_sitter_highlight::HighlightConfiguration, source: &Vec<u8>) -> (found:
    Option<Vec<HighlightEvent>>)
    ensures
        match found {
            Some(events) => tokens(*conf, source@) == Some(events@),
            None => tokens(*conf, source@) is None,
        },
{
    let mut tokenizer = tree_sitter_highlight::Highlighter::new();
    let events = tokenizer.highlight(conf, source.as_slice(), None, |_| None).ok()?;
    events.map(|event| match event {
        Ok(tree_sitter_highlight::HighlightEvent::Source { start, end }) => Some(HighlightEvent::Source { start, end }),
        Ok(tree_sitter_highlight::HighlightEvent::HighlightStart(h)) => Some(HighlightEvent::HighlightStart(h.0)),
        Ok(tree_sitter_highlight::HighlightEvent::HighlightEnd) => Some(HighlightEvent::HighlightEnd),
        Err(_) => None,
    }).collect()
}

pub struct Highlighter {
    conf: Option<tree_sitter_highlight::HighlightConfiguration>,
    style: HighlightStyles,
    cache: Option<Vec<HighlightEvent>>,
    /// The bytes that the cache was built from.
    source: Ghost<Seq<u8>>,
}

/// The events of a text without a grammar: all of it is one span of source.
pub open spec fn plain_events(len_bytes: int) -> Seq<HighlightEvent> {
    seq![HighlightEvent::Source { start: 0, end: len_bytes as usize }]
}

impl Highlighter {
    /// The cached events, if there are any.
    pub closed spec fn events(&self) -> Option<Seq<HighlightEvent>> {
        match self.cache {
            Some(events) => Some(events@),
            None => None,
        }
    }

    /// Whether there is a grammar to tokenize with.
    pub closed spec fn has_grammar(&self) -> bool {
        self.conf is Some
    }

    /// The configuration of the grammar, where there is one.
    pub closed spec fn grammar(&self) -> tree_sitter_highlight::HighlightConfiguration {
        self.conf->0
    }

    /// The bytes that the cached events were built from.
    pub closed spec fn built_from(&self) -> Seq<u8> {
        self.source@
    }

    /// The styles that the indices of the events stand for.
    pub closed spec fn styles(&self) -> HighlightStyles {
        self.style
    }

    /// The cache is not stale for this text: it is empty, or it was built
    /// from this text.
    pub open spec fn fresh_for(&self, text: Seq<char>) -> bool {
        self.events() is Some ==> self.built_from() == encode_utf8(text)
    }

    /// What the tokenizer gives for a text under this highlighter's grammar,
    /// and the single span of source over all of the text where there is no
    /// grammar or the tokenizer fails.
    pub open spec fn events_of(&self, text: Seq<char>) -> Seq<HighlightEvent> {
        if self.has_grammar() {
            match tokens(self.grammar(), encode_utf8(text)) {
                Some(events) => events,
                None => plain_events(byte_len(text)),
            }
        } else {
            plain_events(byte_len(text))
        }
    }

    /// A highlighter for a language, or for none, with an empty cache. It
    /// has a grammar exactly when a language is given and its grammar loads.
    pub fn new(lang: Option<Language>, style: HighlightStyles) -> (hl: Self)
        ensures
            hl.events() is None,
            hl.styles() == style,
            hl.has_grammar() == match lang {
                Some(l) => grammar_loads(l),
                None => false,
            },
    {
        let found = match lang {
            Some(l) => configuration(l),
            None => None,
        };
        let conf = match found {
            Some(mut conf) => {
                configure(&mut conf, &style.types);
                Some(conf)
            },
            None => None,
        };
        Self { conf, style, cache: None, source: Ghost(Seq::empty()) }
    }

    /// Whether the cache holds events.
    pub fn has_hl(&self) -> (b: bool)
        ensures
            b == self.events() is Some,
    {
        self.cache.is_some()
    }

    /// The cached events.
    pub fn get_hl(&self) -> (events: &[HighlightEvent])
        requires
            self.events() is Some,
        ensures
            Some(events@) == self.events(),
    {
        match &self.cache {
            Some(events) => events.as_slice(),
            None => {
                let empty: &[HighlightEvent] = &[];
                empty
            },
        }
    }

    /// Empties the cache. This is to be called whenever the text changes.
    pub fn invalidate(&mut self)
        ensures
            final(self).events() is None,
            final(self).styles() == old(self).styles(),
            final(self).has_grammar() == old(self).has_grammar(),
            final(self).grammar() == old(self).grammar(),
    {
        self.cache = None;
    }

    /// Fills the cache with what the tokenizer found, or, where it found
    /// nothing, with a single span of source over all `len_bytes` bytes.
    pub fn cache_events(&mut self, found: Option<Vec<HighlightEvent>>, len_bytes: usize)
        ensures
            final(self).events() == Some(
                match found {
                    Some(events) => events@,
                    None => plain_events(len_bytes as int),
                },
            ),
            final(self).styles() == old(self).styles(),
            final(self).has_grammar() == old(self).has_grammar(),
            final(self).grammar() == old(self).grammar(),
            final(self).built_from() == old(self).built_from(),
    {
        match found {
            Some(events) => {
                self.cache = Some(events);
            },
            None => {
                let mut plain: Vec<HighlightEvent> = Vec::new();
                plain.push(HighlightEvent::Source { start: 0, end: len_bytes });
                assert(plain@ =~= plain_events(len_bytes as int));
                self.cache = Some(plain);
            },
        }
    }

    /// Rebuilds the cache from the whole text of the buffer: it holds what
    /// the tokenizer gives for the text under the grammar. Without a grammar,
    /// or where the tokenizer fails, all of the text is one span of source.
    pub fn update_hl(&mut self, buf: &Buffer)
        ensures
            final(self).events() == Some(old(self).events_of(buf@.text)),
            final(self).built_from() == encode_utf8(buf@.text),
            final(self).styles() == old(self).styles(),
            final(self).has_grammar() == old(self).has_grammar(),
            final(self).grammar() == old(self).grammar(),
    {
        let len_bytes = buf.len_bytes();
        let found = match &self.conf {
            None => None,
            Some(conf) => {
                let source = rope_bytes(&buf.text);
                tokenize(conf, &source)
            },
        };
        self.source = Ghost(encode_utf8(buf@.text));
        self.cache_events(found, len_bytes);
    }

    /// The style with this index.
    pub fn get_style(&self, hl_type: usize) -> (style: &Style)
        requires
            hl_type < self.styles().styles@.len(),
        ensures
            *style == self.styles().styles@[hl_type as int],
    {
        &self.style.styles[hl_type]
    }

    /// The number of styles.
    pub fn style_count(&self) -> (n: usize)
        ensures
            n == self.styles().styles@.len(),
    {
        self.style.styles.len()
    }
}

/// The style on top of a stack of started styles.
pub open spec fn top_style(stack: Seq<usize>) -> Option<usize> {
    if stack.len() > 0 {
        Some(stack.last())
    } else {
        None
    }
}

/// The span that a source event from byte `start` up to byte `end` gives on
/// the bytes from `lo` up to `hi`: the event is cut down to these bytes, and
/// the two ends are taken to the characters that they belong to.
pub open spec fn clipped(
    text: Seq<char>,
    start: int,
    end: int,
    lo: int,
    hi: int,
    stack: Seq<usize>,
) -> Span {
    let first = char_of_byte(text, spec_max(start, lo));
    let last = char_of_byte(text, spec_min(end, hi));
    Span {
        range: BufRange {
            start: BufCharIdx(spec_min(first, last) as usize),
            end: BufCharIdx(spec_max(first, last) as usize),
        },
        style: top_style(stack),
    }
}

/// What the events give on the bytes from `lo` up to `hi`, with the styles
/// of `stack` started before them. A source event that starts after `hi` or
/// ends at or before `lo` gives nothing; any other gives the span that it has
/// in common with these bytes, in the style started last. The end of a style
/// on an empty stack changes nothing.
pub open spec fn spans(
    events: Seq<HighlightEvent>,
    stack: Seq<usize>,
    text: Seq<char>,
    lo: int,
    hi: int,
) -> Seq<Span>
    decreases events.len(),
{
    if events.len() == 0 {
        Seq::empty()
    } else {
        let rest = events.drop_first();
        match events[0] {
            HighlightEvent::Source { start, end } => {
                if start > hi || end <= lo {
                    spans(rest, stack, text, lo, hi)
                } else {
                    seq![clipped(text, start as int, end as int, lo, hi, stack)] + spans(
                        rest,
                        stack,
                        text,
                        lo,
                        hi,
                    )
                }
            },
            HighlightEvent::HighlightStart(s) => spans(rest, stack.push(s), text, lo, hi),
            HighlightEvent::HighlightEnd => spans(
                rest,
                if stack.len() > 0 {
                    stack.drop_last()
                } else {
                    stack
                },
                text,
                lo,
                hi,
            ),
        }
    }
}

/// Every span lies in the text, its start at or before its end.
pub open spec fn spans_in_text(spans: Seq<Span>, len: int) -> bool {
    forall|k: int|
        0 <= k < spans.len() ==> (#[trigger] spans[k]).range.start.0 <= spans[k].range.end.0
            <= len
}

/// The spans to draw for the rows from `first` up to `last`: what the events
/// give on the bytes of these rows.
pub fn overlay(events: &[HighlightEvent], buf: &Buffer, first: BufRow, last: BufRow) -> (out: Vec<
    Span,
>)
    requires
        first.0 <= last.0 <= line_count(buf@.text),
    ensures
        out@ == spans(
            events@,
            Seq::empty(),
            buf@.text,
            byte_of_char(buf@.text, line_start(buf@.text, first.0 as nat)),
            byte_of_char(buf@.text, line_start(buf@.text, last.0 as nat)),
        ),
        spans_in_text(out@, buf@.text.len() as int),
{
    let ghost text = buf@.text;
    proof {
        lemma_line_start_bounds(text, first.0 as nat);
        lemma_line_start_bounds(text, last.0 as nat);
        lemma_line_start_monotonic(text, first.0 as nat, last.0 as nat);
        lemma_byte_of_char_monotonic(
            text,
            line_start(text, first.0 as nat),
            line_start(text, last.0 as nat),
        );
    }
    let lo = buf.line_to_byte(first).0;
    let hi = buf.line_to_byte(last).0;
    let _len = buf.len_chars();
    let mut out: Vec<Span> = Vec::new();
    let mut stack: Vec<usize> = Vec::new();
    let mut i: usize = 0;
    assert(events@.skip(0) =~= events@);
    while i < events.len()
        invariant
            0 <= i <= events@.len(),
            text == buf@.text,
            text.len() <= usize::MAX,
            0 <= lo <= hi <= byte_len(text),
            spans(events@, Seq::empty(), text, lo as int, hi as int) == out@ + spans(
                events@.skip(i as int),
                stack@,
                text,
                lo as int,
                hi as int,
            ),
            spans_in_text(out@, text.len() as int),
        decreases events@.len() - i,
    {
        let ghost tail = events@.skip(i as int);
        assert(tail.drop_first() =~= events@.skip(i + 1));
        assert(tail[0] == events@[i as int]);
        match events[i] {
            HighlightEvent::Source { start, end } => {
                if !(start > hi || end <= lo) {
                    let from = if start >= lo {
                        start
                    } else {
                        lo
                    };
                    let to = if end <= hi {
                        end
                    } else {
                        hi
                    };
                    proof {
                        lemma_char_of_byte_bounds(text, from as int);
                        lemma_char_of_byte_bounds(text, to as int);
                    }
                    let range = BufRange::new(
                        buf.byte_to_char(BufByteIdx(from)),
                        buf.byte_to_char(BufByteIdx(to)),
                    );
                    let style = if stack.len() > 0 {
                        Some(stack[stack.len() - 1])
                    } else {
                        None
                    };
                    let ghost before = out@;
                    out.push(Span { range, style });
                    assert(out@ + spans(tail.drop_first(), stack@, text, lo as int, hi as int)
                        =~= before + spans(tail, stack@, text, lo as int, hi as int));
                }
            },
            HighlightEvent::HighlightStart(s) => {
                stack.push(s);
            },
            HighlightEvent::HighlightEnd => {
                if stack.len() > 0 {
                    stack.pop();
                }
            },
        }
        i += 1;
    }
    out
}

} // verus!
