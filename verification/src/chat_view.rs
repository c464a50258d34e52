//! What the chat screen shows: each message under a label naming its role,
//! its text rendered as markdown, and the answer still being streamed with
//! a cursor after it; and the texts of the model-fetching screens.
use vstd::prelude::*;

use crate::chat_app::{role_prefix, role_style, spec_role_prefix, spec_role_style, RoleStyle};
use crate::markdown::{
    line_view, line_views, render_lines, render_markdown, span_views, spec_markdown_events, LineView, MdLine,
    MdSpan, Tone,
};
use crate::table::{draw_table, rows_view, spec_table};
use crate::text::{concat_str, string_views};

verus! {

/// A line of the chat screen.
#[derive(Debug, Clone)]
pub enum ChatLine {
    /// The label above a message, coloured by its role.
    Label(String, RoleStyle),
    /// A line of a message's text.
    Body(MdLine),
    /// The blinking cursor after an answer being streamed.
    Cursor,
}

pub enum ChatLineView {
    Label(Seq<char>, RoleStyle),
    Body(LineView),
    Cursor,
}

pub open spec fn chat_line_view(l: ChatLine) -> ChatLineView {
    match l {
        ChatLine::Label(t, s) => ChatLineView::Label(t@, s),
        ChatLine::Body(m) => ChatLineView::Body(line_view(m)),
        ChatLine::Cursor => ChatLineView::Cursor,
    }
}

pub open spec fn chat_line_views(v: Seq<ChatLine>) -> Seq<ChatLineView> {
    v.map_values(|l: ChatLine| chat_line_view(l))
}

/// The rendered lines of a text.
pub open spec fn body_lines(text: Seq<char>) -> Seq<ChatLineView> {
    render_lines(spec_markdown_events(text), text).map_values(|l: LineView| ChatLineView::Body(l))
}

/// A message: its label, then its text.
pub open spec fn message_block(role: Seq<char>, content: Seq<char>, model: Seq<char>) -> Seq<ChatLineView> {
    seq![ChatLineView::Label(spec_role_prefix(role, model), spec_role_style(role))] + body_lines(content)
}

/// The messages one after another.
pub open spec fn messages_block(ms: Seq<(Seq<char>, Seq<char>)>, model: Seq<char>) -> Seq<ChatLineView>
    decreases ms.len(),
{
    if ms.len() == 0 {
        Seq::empty()
    } else {
        messages_block(ms.drop_last(), model) + message_block(ms.last().0, ms.last().1, model)
    }
}

/// The chat screen's lines: the messages, then the answer being streamed,
/// labelled as the assistant's and followed by the cursor.
pub open spec fn chat_screen(ms: Seq<(Seq<char>, Seq<char>)>, streaming: Option<Seq<char>>, model: Seq<char>) -> Seq<ChatLineView> {
    messages_block(ms, model) + match streaming {
        Some(s) => message_block("assistant"@, s, model) + seq![ChatLineView::Cursor],
        None => Seq::empty(),
    }
}

pub open spec fn pair_views(m: Seq<(String, String)>) -> Seq<(Seq<char>, Seq<char>)> {
    m.map_values(|p: (String, String)| (p.0@, p.1@))
}

/// Appends a message's label and text lines to `out`.
fn push_message(out: &mut Vec<ChatLine>, role: &str, content: &str, model: &str)
    ensures
        chat_line_views(final(out)@) == chat_line_views(old(out)@) + message_block(role@, content@, model@),
{
    let ghost o = chat_line_views(out@);
    out.push(ChatLine::Label(role_prefix(role, model), role_style(role)));
    let ghost o1 = chat_line_views(out@);
    assert(o1 =~= o + seq![ChatLineView::Label(spec_role_prefix(role@, model@), spec_role_style(role@))]);
    let body = render_markdown(content);
    let ghost bl = line_views(body@);
    let mut i: usize = 0;
    while i < body.len()
        invariant
            i <= body@.len(),
            bl == line_views(body@),
            chat_line_views(out@) == o1 + bl.take(i as int).map_values(|l: LineView| ChatLineView::Body(l)),
        decreases body@.len() - i,
    {
        let ghost before = chat_line_views(out@);
        out.push(ChatLine::Body(body[i].clone_line()));
        assert(bl.take(i as int + 1).map_values(|l: LineView| ChatLineView::Body(l)) =~= bl.take(i as int).map_values(
            |l: LineView| ChatLineView::Body(l),
        ).push(ChatLineView::Body(bl[i as int])));
        assert(chat_line_views(out@) =~= before.push(ChatLineView::Body(bl[i as int])));
        i = i + 1;
    }
    assert(bl.take(body@.len() as int) =~= bl);
    assert(chat_line_views(out@) =~= o + message_block(role@, content@, model@));
}

/// The lines of the chat screen for the conversation, the answer being
/// streamed, if any, and the current model.
pub fn chat_lines(messages: &Vec<(String, String)>, streaming: &Option<String>, model: &str) -> (r: Vec<ChatLine>)
    ensures
        chat_line_views(r@) == chat_screen(pair_views(messages@), match streaming {
            Some(s) => Some(s@),
            None => None,
        }, model@),
{
    let ghost ms = pair_views(messages@);
    let mut out: Vec<ChatLine> = Vec::new();
    let mut i: usize = 0;
    assert(chat_line_views(out@) =~= Seq::<ChatLineView>::empty());
    while i < messages.len()
        invariant
            i <= messages@.len(),
            ms == pair_views(messages@),
            chat_line_views(out@) == messages_block(ms.take(i as int), model@),
        decreases messages@.len() - i,
    {
        assert(ms.take(i as int + 1).drop_last() =~= ms.take(i as int));
        let (role, content) = &messages[i];
        push_message(&mut out, role.as_str(), content.as_str(), model);
        i = i + 1;
    }
    assert(ms.take(messages@.len() as int) =~= ms);
    let ghost before = chat_line_views(out@);
    match streaming {
        Some(s) => {
            push_message(&mut out, "assistant", s.as_str(), model);
            let ghost mid = chat_line_views(out@);
            out.push(ChatLine::Cursor);
            assert(chat_line_views(out@) =~= mid.push(ChatLineView::Cursor));
        },
        None => {},
    }
    assert(chat_line_views(out@) =~= chat_screen(ms, match streaming {
        Some(s) => Some(s@),
        None => None,
    }, model@));
    out
}

/// The text of the screen that waits for a model list.
pub fn fetch_status(provider: &str, error: &Option<String>) -> (r: String)
    ensures
        r@ == match error {
            Some(e) => "Error fetching models from "@ + provider@ + ": "@ + e@,
            None => "Fetching models from "@ + provider@ + "..."@,
        },
{
    match error {
        Some(e) => {
            let a = concat_str("Error fetching models from ", provider);
            let b = concat_str(a.as_str(), ": ");
            concat_str(b.as_str(), e.as_str())
        },
        None => {
            let a = concat_str("Fetching models from ", provider);
            concat_str(a.as_str(), "...")
        },
    }
}

/// The title of the model choice screen.
pub fn select_model_title(provider: &str) -> (r: String)
    ensures
        r@ == "Select model for "@ + provider@,
{
    concat_str("Select model for ", provider)
}

// ---------------------------------------------------------------------------
// Lines on the screen
// ---------------------------------------------------------------------------

/// A line as drawn: a label, styled spans, a line of a drawn table, or the
/// cursor.
#[derive(Debug, Clone)]
pub enum ScreenLine {
    Label(String, RoleStyle),
    Spans(Vec<MdSpan>),
    Rule(String),
    Cursor,
}

pub enum ScreenLineView {
    Label(Seq<char>, RoleStyle),
    Spans(Seq<(Seq<char>, Tone)>),
    Rule(Seq<char>),
    Cursor,
}

pub open spec fn screen_line_view(l: ScreenLine) -> ScreenLineView {
    match l {
        ScreenLine::Label(t, s) => ScreenLineView::Label(t@, s),
        ScreenLine::Spans(sp) => ScreenLineView::Spans(span_views(sp@)),
        ScreenLine::Rule(t) => ScreenLineView::Rule(t@),
        ScreenLine::Cursor => ScreenLineView::Cursor,
    }
}

pub open spec fn screen_line_views(v: Seq<ScreenLine>) -> Seq<ScreenLineView> {
    v.map_values(|l: ScreenLine| screen_line_view(l))
}

pub open spec fn width_views(v: Seq<Vec<usize>>) -> Seq<Seq<usize>> {
    v.map_values(|w: Vec<usize>| w@)
}

/// Number of tables among the lines.
pub open spec fn table_count(ls: Seq<ChatLineView>) -> nat
    decreases ls.len(),
{
    if ls.len() == 0 {
        0
    } else {
        table_count(ls.drop_last()) + if ls.last() matches ChatLineView::Body(LineView::Table(_, _)) {
            1nat
        } else {
            0nat
        }
    }
}

/// The column widths given for the tables, one list per table in order,
/// cover the header of each.
pub open spec fn widths_fit(ls: Seq<ChatLineView>, ws: Seq<Seq<usize>>) -> bool
    decreases ls.len(),
{
    if ls.len() == 0 {
        true
    } else {
        &&& widths_fit(ls.drop_last(), ws)
        &&& match ls.last() {
            ChatLineView::Body(LineView::Table(h, _)) => table_count(ls.drop_last()) < ws.len() && h.len()
                <= ws[table_count(ls.drop_last()) as int].len(),
            _ => true,
        }
    }
}

/// The drawn lines of one chat line; a table is drawn with the widths `w`.
pub open spec fn drawn(l: ChatLineView, w: Seq<usize>) -> Seq<ScreenLineView> {
    match l {
        ChatLineView::Label(t, s) => seq![ScreenLineView::Label(t, s)],
        ChatLineView::Body(LineView::Spans(sp)) => seq![ScreenLineView::Spans(sp)],
        ChatLineView::Body(LineView::Table(h, r)) => spec_table(h, r, w).map_values(
            |t: Seq<char>| ScreenLineView::Rule(t),
        ),
        ChatLineView::Cursor => seq![ScreenLineView::Cursor],
    }
}

/// The lines drawn for the chat lines, the `k`-th table with `ws[k]`.
pub open spec fn drawn_all(ls: Seq<ChatLineView>, ws: Seq<Seq<usize>>) -> Seq<ScreenLineView>
    decreases ls.len(),
{
    if ls.len() == 0 {
        Seq::empty()
    } else {
        drawn_all(ls.drop_last(), ws) + drawn(ls.last(), ws[table_count(ls.drop_last()) as int])
    }
}

/// The height of the drawn chat: one line per label, line of text and
/// cursor, and for each table the lines it is drawn with.
pub open spec fn drawn_height(ls: Seq<ChatLineView>, ws: Seq<Seq<usize>>) -> nat
    decreases ls.len(),
{
    if ls.len() == 0 {
        0
    } else {
        drawn_height(ls.drop_last(), ws) + match ls.last() {
            ChatLineView::Body(LineView::Table(h, r)) => spec_table(
                h,
                r,
                ws[table_count(ls.drop_last()) as int],
            ).len(),
            _ => 1,
        }
    }
}

proof fn lemma_drawn_height(ls: Seq<ChatLineView>, ws: Seq<Seq<usize>>)
    ensures
        drawn_all(ls, ws).len() == drawn_height(ls, ws),
    decreases ls.len(),
{
    if ls.len() > 0 {
        lemma_drawn_height(ls.drop_last(), ws);
    }
}

proof fn lemma_widths_fit_prefix(ls: Seq<ChatLineView>, ws: Seq<Seq<usize>>, j: int)
    requires
        widths_fit(ls, ws),
        0 <= j <= ls.len(),
    ensures
        widths_fit(ls.take(j), ws),
    decreases ls.len(),
{
    if j == ls.len() {
        assert(ls.take(j) =~= ls);
    } else {
        lemma_widths_fit_prefix(ls.drop_last(), ws, j);
        assert(ls.drop_last().take(j) =~= ls.take(j));
    }
}

/// The chat lines drawn for the screen: tables drawn with the widths given
/// for them, in order, every other line as it is. Their number is the
/// height of the chat, `drawn_height`.
pub fn draw_chat_lines(lines: &Vec<ChatLine>, widths: &Vec<Vec<usize>>) -> (r: Vec<ScreenLine>)
    requires
        widths_fit(chat_line_views(lines@), width_views(widths@)),
    ensures
        screen_line_views(r@) == drawn_all(chat_line_views(lines@), width_views(widths@)),
        r@.len() == drawn_height(chat_line_views(lines@), width_views(widths@)),
{
    let ghost ls = chat_line_views(lines@);
    let ghost ws = width_views(widths@);
    let mut out: Vec<ScreenLine> = Vec::new();
    let mut t: usize = 0;
    let mut i: usize = 0;
    assert(ls.take(0) =~= Seq::<ChatLineView>::empty());
    assert(screen_line_views(out@) =~= Seq::<ScreenLineView>::empty());
    while i < lines.len()
        invariant
            i <= lines@.len(),
            ls == chat_line_views(lines@),
            ws == width_views(widths@),
            widths_fit(ls, ws),
            t == table_count(ls.take(i as int)),
            screen_line_views(out@) == drawn_all(ls.take(i as int), ws),
        decreases lines@.len() - i,
    {
        let ghost before = screen_line_views(out@);
        let ghost pre = ls.take(i as int);
        assert(ls.take(i + 1).drop_last() =~= pre);
        assert(ls.take(i + 1).last() == ls[i as int]);
        proof {
            lemma_widths_fit_prefix(ls, ws, i + 1);
        }
        match &lines[i] {
            ChatLine::Label(text, style) => {
                out.push(ScreenLine::Label(text.clone(), *style));
                assert(screen_line_views(out@) =~= before + drawn(ls[i as int], ws[t as int]));
            },
            ChatLine::Cursor => {
                out.push(ScreenLine::Cursor);
                assert(screen_line_views(out@) =~= before + drawn(ls[i as int], ws[t as int]));
            },
            ChatLine::Body(m) => {
                match m.clone_line() {
                    MdLine::Spans(sp) => {
                        out.push(ScreenLine::Spans(sp));
                        assert(screen_line_views(out@) =~= before + drawn(ls[i as int], ws[t as int]));
                    },
                    MdLine::Table(h, rows) => {
                        assert(rows_view(rows@) =~= crate::markdown::rows_views(rows@));
                        let d = draw_table(&h, &rows, &widths[t]);
                        let ghost dv = string_views(d@);
                        let mut k: usize = 0;
                        while k < d.len()
                            invariant
                                k <= d@.len(),
                                dv == string_views(d@),
                                screen_line_views(out@) == before + dv.take(k as int).map_values(
                                    |x: Seq<char>| ScreenLineView::Rule(x),
                                ),
                            decreases d@.len() - k,
                        {
                            let ghost b2 = screen_line_views(out@);
                            out.push(ScreenLine::Rule(d[k].clone()));
                            assert(dv.take(k as int + 1).map_values(|x: Seq<char>| ScreenLineView::Rule(x))
                                =~= dv.take(k as int).map_values(|x: Seq<char>| ScreenLineView::Rule(x)).push(
                                ScreenLineView::Rule(dv[k as int]),
                            ));
                            assert(screen_line_views(out@) =~= b2.push(ScreenLineView::Rule(dv[k as int])));
                            k = k + 1;
                        }
                        assert(dv.take(d@.len() as int) =~= dv);
                        let count = widths.len();
                        assert(t < count);
                        t = t + 1;
                    },
                }
            },
        }
        i = i + 1;
    }
    assert(ls.take(lines@.len() as int) =~= ls);
    proof {
        lemma_drawn_height(ls, ws);
    }
    out
}

} // verus!
