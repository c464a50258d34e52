//! Markdown in the chat view: the events of `pulldown-cmark` turned into lines
//! of styled spans. Headings, code blocks, quotes, list items, inline code
//! and DeepSeek's `[thinking]` marker get their own tone; a table becomes a
//! table line that is drawn with box characters.
use vstd::prelude::*;

use crate::text::{
    chars_of, extend_chars, replace_all, spec_replace, spec_split, split_chars, starts_with,
    string_from_chars, string_views, views,
};

verus! {

/// Colour of a heading, by its level.
#[derive(Debug, Clone, Copy, PartialEq, Eq, Structural)]
pub enum Hue {
    Cyan,
    Magenta,
    Yellow,
    Green,
}

/// How a span is drawn.
#[derive(Debug, Clone, Copy, PartialEq, Eq, Structural)]
pub enum Tone {
    /// Unstyled.
    Plain,
    /// Bold (opened by `**`).
    Bold,
    /// Italic (opened by `*`).
    Italic,
    /// The dim cyan bar of a block quote.
    Quote,
    /// The yellow bullet of a list item.
    Bullet,
    /// The bold dark-grey `[thinking] ` marker.
    ThinkingMark,
    /// Dark-grey reasoning text.
    Thinking,
    /// White on black, inside a code block.
    CodeBlock,
    /// Bold heading text in the heading's colour.
    Heading(Hue),
    /// Yellow inline code.
    InlineCode,
}

/// A piece of a line with its tone.
#[derive(Debug, Clone)]
pub struct MdSpan {
    pub text: String,
    pub tone: Tone,
}

/// A rendered line: spans, or a table to draw with its header and rows.
#[derive(Debug, Clone)]
pub enum MdLine {
    Spans(Vec<MdSpan>),
    Table(Vec<String>, Vec<Vec<String>>),
}

/// The markdown events the renderer reads; every other event is `Other`.
#[derive(Debug, Clone)]
pub enum MdEvent {
    /// Start of a heading of the given level (1 to 6).
    StartHeading(usize),
    StartStrong,
    StartEmphasis,
    StartCodeBlock,
    StartBlockQuote,
    StartItem,
    StartTable,
    StartTableHead,
    StartTableRow,
    StartTableCell,
    EndHeading,
    EndCodeBlock,
    EndItem,
    EndParagraph,
    EndTableCell,
    EndTableRow,
    EndTableHead,
    EndTable,
    Text(String),
    Code(String),
    SoftBreak,
    HardBreak,
    Other,
}

// ---------------------------------------------------------------------------
// Model
// ---------------------------------------------------------------------------

/// An event with its text as characters.
pub enum MdEventView {
    StartHeading(nat),
    StartStrong,
    StartEmphasis,
    StartCodeBlock,
    StartBlockQuote,
    StartItem,
    StartTable,
    StartTableHead,
    StartTableRow,
    StartTableCell,
    EndHeading,
    EndCodeBlock,
    EndItem,
    EndParagraph,
    EndTableCell,
    EndTableRow,
    EndTableHead,
    EndTable,
    Text(Seq<char>),
    Code(Seq<char>),
    SoftBreak,
    HardBreak,
    Other,
}

pub open spec fn event_view(e: MdEvent) -> MdEventView {
    match e {
        MdEvent::StartHeading(l) => MdEventView::StartHeading(l as nat),
        MdEvent::StartStrong => MdEventView::StartStrong,
        MdEvent::StartEmphasis => MdEventView::StartEmphasis,
        MdEvent::StartCodeBlock => MdEventView::StartCodeBlock,
        MdEvent::StartBlockQuote => MdEventView::StartBlockQuote,
        MdEvent::StartItem => MdEventView::StartItem,
        MdEvent::StartTable => MdEventView::StartTable,
        MdEvent::StartTableHead => MdEventView::StartTableHead,
        MdEvent::StartTableRow => MdEventView::StartTableRow,
        MdEvent::StartTableCell => MdEventView::StartTableCell,
        MdEvent::EndHeading => MdEventView::EndHeading,
        MdEvent::EndCodeBlock => MdEventView::EndCodeBlock,
        MdEvent::EndItem => MdEventView::EndItem,
        MdEvent::EndParagraph => MdEventView::EndParagraph,
        MdEvent::EndTableCell => MdEventView::EndTableCell,
        MdEvent::EndTableRow => MdEventView::EndTableRow,
        MdEvent::EndTableHead => MdEventView::EndTableHead,
        MdEvent::EndTable => MdEventView::EndTable,
        MdEvent::Text(t) => MdEventView::Text(t@),
        MdEvent::Code(c) => MdEventView::Code(c@),
        MdEvent::SoftBreak => MdEventView::SoftBreak,
        MdEvent::HardBreak => MdEventView::HardBreak,
        MdEvent::Other => MdEventView::Other,
    }
}

pub open spec fn event_views(v: Seq<MdEvent>) -> Seq<MdEventView> {
    v.map_values(|e: MdEvent| event_view(e))
}

/// A line with its text as characters.
pub enum LineView {
    Spans(Seq<(Seq<char>, Tone)>),
    Table(Seq<Seq<char>>, Seq<Seq<Seq<char>>>),
}

pub open spec fn span_views(v: Seq<MdSpan>) -> Seq<(Seq<char>, Tone)> {
    v.map_values(|s: MdSpan| (s.text@, s.tone))
}

pub open spec fn rows_views(v: Seq<Vec<String>>) -> Seq<Seq<Seq<char>>> {
    v.map_values(|r: Vec<String>| string_views(r@))
}

pub open spec fn line_view(l: MdLine) -> LineView {
    match l {
        MdLine::Spans(s) => LineView::Spans(span_views(s@)),
        MdLine::Table(h, r) => LineView::Table(string_views(h@), rows_views(r@)),
    }
}

pub open spec fn line_views(v: Seq<MdLine>) -> Seq<LineView> {
    v.map_values(|l: MdLine| line_view(l))
}

/// Where the renderer stands between two events.
pub struct RenderState {
    pub lines: Seq<LineView>,
    pub spans: Seq<(Seq<char>, Tone)>,
    pub in_code: bool,
    pub in_heading: bool,
    pub hue: Hue,
    pub headers: Seq<Seq<char>>,
    pub data: Seq<Seq<Seq<char>>>,
    pub row: Seq<Seq<char>>,
    pub cell: Seq<char>,
    pub in_table: bool,
    pub in_head: bool,
}

pub open spec fn initial_state() -> RenderState {
    RenderState {
        lines: Seq::empty(),
        spans: Seq::empty(),
        in_code: false,
        in_heading: false,
        hue: Hue::Cyan,
        headers: Seq::empty(),
        data: Seq::empty(),
        row: Seq::empty(),
        cell: Seq::empty(),
        in_table: false,
        in_head: false,
    }
}

/// Closes the current line, if it has any span.
pub open spec fn flush(st: RenderState) -> RenderState {
    if st.spans.len() > 0 {
        RenderState { lines: st.lines.push(LineView::Spans(st.spans)), spans: Seq::empty(), ..st }
    } else {
        st
    }
}

pub open spec fn with_span(st: RenderState, text: Seq<char>, tone: Tone) -> RenderState {
    RenderState { spans: st.spans.push((text, tone)), ..st }
}

/// The pieces of a text split at line breaks: each piece after the first
/// starts a new line.
pub open spec fn push_pieces(st: RenderState, ps: Seq<Seq<char>>, tone: Tone) -> RenderState
    decreases ps.len(),
{
    if ps.len() == 0 {
        st
    } else {
        let before = push_pieces(st, ps.drop_last(), tone);
        let opened = if ps.len() > 1 {
            flush(before)
        } else {
            before
        };
        with_span(opened, ps.last(), tone)
    }
}

pub open spec fn hue_of(level: nat) -> Hue {
    if level == 1 {
        Hue::Cyan
    } else if level == 2 {
        Hue::Magenta
    } else if level == 3 {
        Hue::Yellow
    } else {
        Hue::Green
    }
}

pub open spec fn spaces(n: nat) -> Seq<char> {
    Seq::new(n, |i: int| ' ')
}

/// Whether a table with these header and rows draws any line.
pub open spec fn table_draws(headers: Seq<Seq<char>>, data: Seq<Seq<Seq<char>>>) -> bool {
    headers.len() > 0 || (data.len() > 0 && data[0].len() > 0)
}

/// What a text event does.
pub open spec fn text_step(st: RenderState, t: Seq<char>) -> RenderState {
    if st.in_table {
        RenderState { cell: st.cell + t, ..st }
    } else if starts_with(t, "[thinking]"@) {
        let marked = with_span(st, "[thinking] "@, Tone::ThinkingMark);
        let rest = spec_replace(t, "[thinking]"@, Seq::empty());
        if rest.len() > 0 {
            with_span(marked, rest, Tone::Thinking)
        } else {
            marked
        }
    } else if st.in_code {
        push_pieces(st, spec_split(t, '\n'), Tone::CodeBlock)
    } else if st.in_heading {
        push_pieces(st, spec_split(t, '\n'), Tone::Heading(st.hue))
    } else {
        push_pieces(st, spec_split(t, '\n'), Tone::Plain)
    }
}

/// What one event does.
pub open spec fn md_step(st: RenderState, e: MdEventView) -> RenderState {
    match e {
        MdEventView::StartHeading(l) => with_span(
            RenderState { in_heading: true, hue: hue_of(l), ..flush(st) },
            spaces(l),
            Tone::Plain,
        ),
        MdEventView::StartStrong => with_span(st, Seq::empty(), Tone::Bold),
        MdEventView::StartEmphasis => with_span(st, Seq::empty(), Tone::Italic),
        MdEventView::StartCodeBlock => RenderState { in_code: true, ..flush(st) },
        MdEventView::StartBlockQuote => with_span(st, "│ "@, Tone::Quote),
        MdEventView::StartItem => with_span(flush(st), "• "@, Tone::Bullet),
        MdEventView::StartTable => RenderState {
            in_table: true,
            data: Seq::empty(),
            headers: Seq::empty(),
            ..st
        },
        MdEventView::StartTableHead => RenderState { in_head: true, headers: Seq::empty(), ..st },
        MdEventView::StartTableRow => RenderState { row: Seq::empty(), ..st },
        MdEventView::StartTableCell => RenderState { cell: Seq::empty(), ..st },
        MdEventView::EndHeading => flush(RenderState { in_heading: false, ..st }),
        MdEventView::EndCodeBlock => flush(RenderState { in_code: false, ..st }),
        MdEventView::EndItem => flush(st),
        MdEventView::EndParagraph => flush(st),
        MdEventView::EndTableCell => RenderState { row: st.row.push(st.cell), ..st },
        MdEventView::EndTableRow => if st.in_head {
            RenderState { headers: st.row, ..st }
        } else {
            RenderState { data: st.data.push(st.row), ..st }
        },
        MdEventView::EndTableHead => RenderState { in_head: false, ..st },
        MdEventView::EndTable => {
            let drawn = if table_draws(st.headers, st.data) {
                st.lines.push(LineView::Table(st.headers, st.data))
            } else {
                st.lines
            };
            RenderState { in_table: false, lines: drawn, ..st }
        },
        MdEventView::Text(t) => text_step(st, t),
        MdEventView::Code(c) => with_span(st, "`"@ + c + "`"@, Tone::InlineCode),
        MdEventView::SoftBreak => with_span(st, " "@, Tone::Plain),
        MdEventView::HardBreak => flush(st),
        MdEventView::Other => st,
    }
}

/// The state after a run of events.
pub open spec fn md_fold(es: Seq<MdEventView>) -> RenderState
    decreases es.len(),
{
    if es.len() == 0 {
        initial_state()
    } else {
        md_step(md_fold(es.drop_last()), es.last())
    }
}

/// The lines of a document from its events: the last line closed, and the
/// whole text as one plain line when nothing was rendered.
pub open spec fn render_lines(es: Seq<MdEventView>, content: Seq<char>) -> Seq<LineView> {
    let lines = flush(md_fold(es)).lines;
    if lines.len() == 0 {
        seq![LineView::Spans(seq![(content, Tone::Plain)])]
    } else {
        lines
    }
}

// ---------------------------------------------------------------------------
// Events from pulldown-cmark
// ---------------------------------------------------------------------------

/// `pulldown_cmark::Event`, carried opaquely.
#[verifier::external_type_specification]
#[verifier::external_body]
pub struct ExMdEvent<'a>(pulldown_cmark::Event<'a>);

/// `pulldown_cmark::Tag`, carried opaquely.
#[verifier::external_type_specification]
#[verifier::external_body]
pub struct ExMdTag<'a>(pulldown_cmark::Tag<'a>);

/// `pulldown_cmark::TagEnd`, carried opaquely.
#[verifier::external_type_specification]
#[verifier::external_body]
pub struct ExMdTagEnd(pulldown_cmark::TagEnd);

/// The events `pulldown-cmark` reads out of a document, with tables enabled.
pub uninterp spec fn spec_markdown_events(content: Seq<char>) -> Seq<MdEventView>;

/// `pulldown_cmark::Parser::new_ext` with tables enabled, each event
/// converted by `md_event`. The contract names the converted events: they
/// depend on the document's text alone.
#[verifier::external_body]
fn markdown_events(content: &str) -> (r: Vec<MdEvent>)
    ensures
        event_views(r@) == spec_markdown_events(content@),
{
    pulldown_cmark::Parser::new_ext(content, pulldown_cmark::Options::ENABLE_TABLES).map(md_event).collect()
}

/// Converts one `pulldown_cmark::Event` for `markdown_events`, variant by
/// variant: the start and end of a tag go to `md_start` and `md_end`, text and
/// inline code keep their text, line breaks map to themselves, and every
/// other event is `Other`. Nothing is claimed of it on its own.
#[verifier::external_body]
fn md_event(e: pulldown_cmark::Event<'_>) -> MdEvent {
    match e {
        pulldown_cmark::Event::Start(tag) => md_start(tag),
        pulldown_cmark::Event::End(tag) => md_end(tag),
        pulldown_cmark::Event::Text(t) => MdEvent::Text(t.to_string()),
        pulldown_cmark::Event::Code(c) => MdEvent::Code(c.to_string()),
        pulldown_cmark::Event::SoftBreak => MdEvent::SoftBreak,
        pulldown_cmark::Event::HardBreak => MdEvent::HardBreak,
        _ => MdEvent::Other,
    }
}

/// Converts a `pulldown_cmark::Tag` that starts, variant by variant; a
/// heading keeps its level (1 to 6).
#[verifier::external_body]
fn md_start(tag: pulldown_cmark::Tag<'_>) -> MdEvent {
    match tag {
        pulldown_cmark::Tag::Heading { level, .. } => MdEvent::StartHeading(level as usize),
        pulldown_cmark::Tag::Strong => MdEvent::StartStrong,
        pulldown_cmark::Tag::Emphasis => MdEvent::StartEmphasis,
        pulldown_cmark::Tag::CodeBlock(_) => MdEvent::StartCodeBlock,
        pulldown_cmark::Tag::BlockQuote => MdEvent::StartBlockQuote,
        pulldown_cmark::Tag::Item => MdEvent::StartItem,
        pulldown_cmark::Tag::Table(_) => MdEvent::StartTable,
        pulldown_cmark::Tag::TableHead => MdEvent::StartTableHead,
        pulldown_cmark::Tag::TableRow => MdEvent::StartTableRow,
        pulldown_cmark::Tag::TableCell => MdEvent::StartTableCell,
        _ => MdEvent::Other,
    }
}

/// Converts a `pulldown_cmark::TagEnd`, variant by variant.
#[verifier::external_body]
fn md_end(tag: pulldown_cmark::TagEnd) -> MdEvent {
    match tag {
        pulldown_cmark::TagEnd::Heading(_) => MdEvent::EndHeading,
        pulldown_cmark::TagEnd::CodeBlock => MdEvent::EndCodeBlock,
        pulldown_cmark::TagEnd::Item => MdEvent::EndItem,
        pulldown_cmark::TagEnd::Paragraph => MdEvent::EndParagraph,
        pulldown_cmark::TagEnd::TableCell => MdEvent::EndTableCell,
        pulldown_cmark::TagEnd::TableRow => MdEvent::EndTableRow,
        pulldown_cmark::TagEnd::TableHead => MdEvent::EndTableHead,
        pulldown_cmark::TagEnd::Table => MdEvent::EndTable,
        _ => MdEvent::Other,
    }
}

// ---------------------------------------------------------------------------
// Renderer
// ---------------------------------------------------------------------------

struct Renderer {
    lines: Vec<MdLine>,
    spans: Vec<MdSpan>,
    in_code: bool,
    in_heading: bool,
    hue: Hue,
    headers: Vec<String>,
    data: Vec<Vec<String>>,
    row: Vec<String>,
    cell: Vec<char>,
    in_table: bool,
    in_head: bool,
}

fn copy_strings(v: &Vec<String>) -> (r: Vec<String>)
    ensures
        string_views(r@) == string_views(v@),
{
    let mut r: Vec<String> = Vec::new();
    let mut i: usize = 0;
    while i < v.len()
        invariant
            i <= v@.len(),
            string_views(r@) == string_views(v@.take(i as int)),
        decreases v@.len() - i,
    {
        let ghost before = r@;
        let c = v[i].clone();
        r.push(c);
        assert(v@.take(i as int + 1) =~= v@.take(i as int).push(v@[i as int]));
        assert(string_views(r@) =~= string_views(before).push(c@));
        assert(string_views(v@.take(i as int + 1)) =~= string_views(v@.take(i as int)).push(v@[i as int]@));
        i = i + 1;
    }
    assert(v@.take(v@.len() as int) =~= v@);
    r
}

fn copy_rows(v: &Vec<Vec<String>>) -> (r: Vec<Vec<String>>)
    ensures
        rows_views(r@) == rows_views(v@),
{
    let mut d: Vec<Vec<String>> = Vec::new();
    let mut i: usize = 0;
    while i < v.len()
        invariant
            i <= v@.len(),
            rows_views(d@) == rows_views(v@.take(i as int)),
        decreases v@.len() - i,
    {
        let ghost before = d@;
        let c = copy_strings(&v[i]);
        d.push(c);
        assert(v@.take(i as int + 1) =~= v@.take(i as int).push(v@[i as int]));
        assert(rows_views(d@) =~= rows_views(before).push(string_views(c@)));
        assert(rows_views(v@.take(i as int + 1)) =~= rows_views(v@.take(i as int)).push(string_views(v@[i as int]@)));
        i = i + 1;
    }
    assert(v@.take(v@.len() as int) =~= v@);
    d
}

impl MdLine {
    /// A copy of the line.
    pub fn clone_line(&self) -> (r: Self)
        ensures
            line_view(r) == line_view(*self),
    {
        match self {
            MdLine::Spans(sp) => {
                let mut out: Vec<MdSpan> = Vec::new();
                let mut i: usize = 0;
                while i < sp.len()
                    invariant
                        i <= sp@.len(),
                        span_views(out@) == span_views(sp@.take(i as int)),
                    decreases sp@.len() - i,
                {
                    let ghost before = out@;
                    let c = MdSpan { text: sp[i].text.clone(), tone: sp[i].tone };
                    out.push(c);
                    assert(sp@.take(i as int + 1) =~= sp@.take(i as int).push(sp@[i as int]));
                    assert(span_views(out@) =~= span_views(before).push((c.text@, c.tone)));
                    assert(span_views(sp@.take(i as int + 1)) =~= span_views(sp@.take(i as int)).push(
                        (sp@[i as int].text@, sp@[i as int].tone),
                    ));
                    i = i + 1;
                }
                assert(sp@.take(sp@.len() as int) =~= sp@);
                MdLine::Spans(out)
            },
            MdLine::Table(h, d) => MdLine::Table(copy_strings(h), copy_rows(d)),
        }
    }
}

/// A copy of an event.
fn copy_event(e: &MdEvent) -> (r: MdEvent)
    ensures
        event_view(r) == event_view(*e),
{
    match e {
        MdEvent::StartHeading(l) => MdEvent::StartHeading(*l),
        MdEvent::StartStrong => MdEvent::StartStrong,
        MdEvent::StartEmphasis => MdEvent::StartEmphasis,
        MdEvent::StartCodeBlock => MdEvent::StartCodeBlock,
        MdEvent::StartBlockQuote => MdEvent::StartBlockQuote,
        MdEvent::StartItem => MdEvent::StartItem,
        MdEvent::StartTable => MdEvent::StartTable,
        MdEvent::StartTableHead => MdEvent::StartTableHead,
        MdEvent::StartTableRow => MdEvent::StartTableRow,
        MdEvent::StartTableCell => MdEvent::StartTableCell,
        MdEvent::EndHeading => MdEvent::EndHeading,
        MdEvent::EndCodeBlock => MdEvent::EndCodeBlock,
        MdEvent::EndItem => MdEvent::EndItem,
        MdEvent::EndParagraph => MdEvent::EndParagraph,
        MdEvent::EndTableCell => MdEvent::EndTableCell,
        MdEvent::EndTableRow => MdEvent::EndTableRow,
        MdEvent::EndTableHead => MdEvent::EndTableHead,
        MdEvent::EndTable => MdEvent::EndTable,
        MdEvent::Text(t) => MdEvent::Text(t.clone()),
        MdEvent::Code(c) => MdEvent::Code(c.clone()),
        MdEvent::SoftBreak => MdEvent::SoftBreak,
        MdEvent::HardBreak => MdEvent::HardBreak,
        MdEvent::Other => MdEvent::Other,
    }
}

impl Renderer {
    spec fn state(&self) -> RenderState {
        RenderState {
            lines: line_views(self.lines@),
            spans: span_views(self.spans@),
            in_code: self.in_code,
            in_heading: self.in_heading,
            hue: self.hue,
            headers: string_views(self.headers@),
            data: rows_views(self.data@),
            row: string_views(self.row@),
            cell: self.cell@,
            in_table: self.in_table,
            in_head: self.in_head,
        }
    }

    fn new() -> (r: Self)
        ensures
            r.state() == initial_state(),
    {
        let r = Renderer {
            lines: Vec::new(),
            spans: Vec::new(),
            in_code: false,
            in_heading: false,
            hue: Hue::Cyan,
            headers: Vec::new(),
            data: Vec::new(),
            row: Vec::new(),
            cell: Vec::new(),
            in_table: false,
            in_head: false,
        };
        assert(line_views(r.lines@) =~= Seq::<LineView>::empty());
        assert(span_views(r.spans@) =~= Seq::<(Seq<char>, Tone)>::empty());
        assert(string_views(r.headers@) =~= Seq::<Seq<char>>::empty());
        assert(rows_views(r.data@) =~= Seq::<Seq<Seq<char>>>::empty());
        assert(string_views(r.row@) =~= Seq::<Seq<char>>::empty());
        assert(r.cell@ =~= Seq::<char>::empty());
        r
    }

    fn flush(&mut self)
        ensures
            final(self).state() == flush(old(self).state()),
    {
        if self.spans.len() > 0 {
            let mut taken: Vec<MdSpan> = Vec::new();
            std::mem::swap(&mut taken, &mut self.spans);
            let ghost before = self.lines@;
            self.lines.push(MdLine::Spans(taken));
            assert(line_views(self.lines@) =~= line_views(before).push(LineView::Spans(span_views(taken@))));
            assert(span_views(self.spans@) =~= Seq::<(Seq<char>, Tone)>::empty());
        }
    }

    fn push_span(&mut self, text: String, tone: Tone)
        ensures
            final(self).state() == with_span(old(self).state(), text@, tone),
    {
        let ghost before = self.spans@;
        let ghost t = text@;
        self.spans.push(MdSpan { text, tone });
        assert(span_views(self.spans@) =~= span_views(before).push((t, tone)));
    }

    fn push_pieces(&mut self, text: &Vec<char>, tone: Tone)
        ensures
            final(self).state() == push_pieces(old(self).state(), spec_split(text@, '\n'), tone),
    {
        let pieces = split_chars(text, '\n');
        let ghost ps = views(pieces@);
        let ghost st0 = self.state();
        let mut i: usize = 0;
        while i < pieces.len()
            invariant
                i <= pieces@.len(),
                ps == views(pieces@),
                self.state() == push_pieces(st0, ps.take(i as int), tone),
            decreases pieces@.len() - i,
        {
            assert(ps.take(i as int + 1).drop_last() =~= ps.take(i as int));
            if i > 0 {
                self.flush();
            }
            self.push_span(string_from_chars(&pieces[i]), tone);
            i = i + 1;
        }
        assert(ps.take(pieces@.len() as int) =~= ps);
    }

    fn text(&mut self, t: String)
        ensures
            final(self).state() == text_step(old(self).state(), t@),
    {
        let tc = chars_of(t.as_str());
        if self.in_table {
            extend_chars(&mut self.cell, &tc);
            return;
        }
        let mark = chars_of("[thinking]");
        if crate::text::has_prefix(&tc, &mark) {
            self.push_span(String::from_str("[thinking] "), Tone::ThinkingMark);
            let empty: Vec<char> = Vec::new();
            let rest = replace_all(&tc, &mark, &empty);
            proof {
                assert(empty@ =~= Seq::<char>::empty());
            }
            if rest.len() > 0 {
                self.push_span(string_from_chars(&rest), Tone::Thinking);
            }
        } else if self.in_code {
            self.push_pieces(&tc, Tone::CodeBlock);
        } else if self.in_heading {
            let hue = self.hue;
            self.push_pieces(&tc, Tone::Heading(hue));
        } else {
            self.push_pieces(&tc, Tone::Plain);
        }
    }

    fn start(&mut self, e: MdEvent)
        requires
            !(e is Text || e is Code || e is SoftBreak || e is HardBreak || e is Other),
            match e {
                MdEvent::StartHeading(_) | MdEvent::StartStrong | MdEvent::StartEmphasis | MdEvent::StartCodeBlock
                | MdEvent::StartBlockQuote | MdEvent::StartItem | MdEvent::StartTable | MdEvent::StartTableHead
                | MdEvent::StartTableRow | MdEvent::StartTableCell => true,
                _ => false,
            },
        ensures
            final(self).state() == md_step(old(self).state(), event_view(e)),
    {
        match e {
            MdEvent::StartHeading(level) => {
                self.flush();
                self.in_heading = true;
                self.hue = if level == 1 {
                    Hue::Cyan
                } else if level == 2 {
                    Hue::Magenta
                } else if level == 3 {
                    Hue::Yellow
                } else {
                    Hue::Green
                };
                let mut sp: Vec<char> = Vec::new();
                let mut k: usize = 0;
                while k < level
                    invariant
                        k <= level,
                        sp@ == spaces(k as nat),
                    decreases level - k,
                {
                    sp.push(' ');
                    assert(sp@ =~= spaces((k + 1) as nat));
                    k = k + 1;
                }
                self.push_span(string_from_chars(&sp), Tone::Plain);
            },
            MdEvent::StartStrong => self.push_span(String::new(), Tone::Bold),
            MdEvent::StartEmphasis => self.push_span(String::new(), Tone::Italic),
            MdEvent::StartCodeBlock => {
                self.flush();
                self.in_code = true;
            },
            MdEvent::StartBlockQuote => self.push_span(String::from_str("│ "), Tone::Quote),
            MdEvent::StartItem => {
                self.flush();
                self.push_span(String::from_str("• "), Tone::Bullet);
            },
            MdEvent::StartTable => {
                self.in_table = true;
                self.data = Vec::new();
                self.headers = Vec::new();
                assert(rows_views(self.data@) =~= Seq::<Seq<Seq<char>>>::empty());
                assert(string_views(self.headers@) =~= Seq::<Seq<char>>::empty());
            },
            MdEvent::StartTableHead => {
                self.in_head = true;
                self.headers = Vec::new();
                assert(string_views(self.headers@) =~= Seq::<Seq<char>>::empty());
            },
            MdEvent::StartTableRow => {
                self.row = Vec::new();
                assert(string_views(self.row@) =~= Seq::<Seq<char>>::empty());
            },
            MdEvent::StartTableCell => {
                self.cell = Vec::new();
            },
            _ => {},
        }
    }

    fn end(&mut self, e: MdEvent)
        requires
            match e {
                MdEvent::EndHeading | MdEvent::EndCodeBlock | MdEvent::EndItem | MdEvent::EndParagraph
                | MdEvent::EndTableCell | MdEvent::EndTableRow | MdEvent::EndTableHead | MdEvent::EndTable => true,
                _ => false,
            },
        ensures
            final(self).state() == md_step(old(self).state(), event_view(e)),
    {
        match e {
            MdEvent::EndHeading => {
                self.in_heading = false;
                self.flush();
            },
            MdEvent::EndCodeBlock => {
                self.in_code = false;
                self.flush();
            },
            MdEvent::EndItem => self.flush(),
            MdEvent::EndParagraph => self.flush(),
            MdEvent::EndTableCell => {
                let ghost before = self.row@;
                self.row.push(string_from_chars(&self.cell));
                assert(string_views(self.row@) =~= string_views(before).push(self.cell@));
            },
            MdEvent::EndTableRow => {
                let copy = copy_strings(&self.row);
                if self.in_head {
                    self.headers = copy;
                } else {
                    let ghost before = self.data@;
                    self.data.push(copy);
                    assert(rows_views(self.data@) =~= rows_views(before).push(string_views(self.row@)));
                }
            },
            MdEvent::EndTableHead => {
                self.in_head = false;
            },
            MdEvent::EndTable => {
                self.in_table = false;
                let draws = self.headers.len() > 0 || (self.data.len() > 0 && self.data[0].len() > 0);
                if draws {
                    let h = copy_strings(&self.headers);
                    let d = copy_rows(&self.data);
                    let ghost before = self.lines@;
                    self.lines.push(MdLine::Table(h, d));
                    assert(line_views(self.lines@) =~= line_views(before).push(
                        LineView::Table(string_views(self.headers@), rows_views(self.data@)),
                    ));
                }
            },
            _ => {},
        }
    }

    fn step(&mut self, e: MdEvent)
        ensures
            final(self).state() == md_step(old(self).state(), event_view(e)),
    {
        match e {
            MdEvent::Text(t) => self.text(t),
            MdEvent::Code(c) => {
                let mut v = chars_of("`");
                let cc = chars_of(c.as_str());
                extend_chars(&mut v, &cc);
                let tick = chars_of("`");
                extend_chars(&mut v, &tick);
                self.push_span(string_from_chars(&v), Tone::InlineCode);
            },
            MdEvent::SoftBreak => self.push_span(String::from_str(" "), Tone::Plain),
            MdEvent::HardBreak => self.flush(),
            MdEvent::Other => {},
            MdEvent::EndHeading | MdEvent::EndCodeBlock | MdEvent::EndItem | MdEvent::EndParagraph
            | MdEvent::EndTableCell | MdEvent::EndTableRow | MdEvent::EndTableHead | MdEvent::EndTable => self.end(e),
            _ => self.start(e),
        }
    }
}

/// The lines of a document given its events, as `render_lines` describes.
pub fn render_events(events: &Vec<MdEvent>, content: &str) -> (r: Vec<MdLine>)
    ensures
        line_views(r@) == render_lines(event_views(events@), content@),
{
    let ghost ev = event_views(events@);
    let mut rd = Renderer::new();
    let mut i: usize = 0;
    let ghost all = events@;
    assert(ev.take(0) =~= Seq::<MdEventView>::empty());
    while i < events.len()
        invariant
            i <= events@.len(),
            events@ == all,
            ev == event_views(all),
            rd.state() == md_fold(ev.take(i as int)),
        decreases events@.len() - i,
    {
        assert(ev.take(i as int + 1).drop_last() =~= ev.take(i as int));
        rd.step(copy_event(&events[i]));
        i = i + 1;
    }
    assert(ev.take(events@.len() as int) =~= ev);
    rd.flush();
    if rd.lines.len() == 0 {
        let mut spans: Vec<MdSpan> = Vec::new();
        spans.push(MdSpan { text: String::from_str(content), tone: Tone::Plain });
        let mut lines: Vec<MdLine> = Vec::new();
        lines.push(MdLine::Spans(spans));
        assert(span_views(spans@) =~= seq![(content@, Tone::Plain)]);
        assert(line_views(lines@) =~= seq![LineView::Spans(seq![(content@, Tone::Plain)])]);
        lines
    } else {
        rd.lines
    }
}

/// The lines of a markdown document, from the events `pulldown-cmark` reads
/// out of it.
pub fn render_markdown(content: &str) -> (r: Vec<MdLine>)
    ensures
        line_views(r@) == render_lines(spec_markdown_events(content@), content@),
{
    let events = markdown_events(content);
    render_events(&events, content)
}

} // verus!
