//! Properties that span several operations of the library.
use vstd::prelude::*;

use crate::boulder::{
    law_priority_name_roundtrip, law_status_name_roundtrip, law_tags_roundtrip, row_boulder, stored_as,
    BoulderRow, BoulderView,
};
use crate::chat_app::{edit_step, AppView};
use crate::input::Key;
use crate::markdown::{render_lines, MdEventView};
use crate::table::{border, framed, padded, repeat_char, width_sum};
use crate::text::spec_join;
use crate::width::{char_width, lemma_text_width_push, spaces, spec_pad, spec_text_width};
use crate::skill::Skill;
use crate::task::coordinator::{coordinator_step, next_or_idle, CoordinatorView, QueuedTask};
use crate::task::events::CoordinatorEvent;
use crate::text::{spec_replace, starts_with};
use crate::ui::{debug_after, DEBUG_HISTORY};
use crate::orchestration::{delivery_result, deliveries_to, MessageHandler, MessageView};
use crate::markdown::{md_fold, push_pieces, text_step, with_span, Hue, LineView, Tone};
use crate::skill::{
    fence_end, frontmatter_lines, is_fence, key_line, parsed_scope, spec_extract_field, spec_frontmatter, SkillScope,
};
use crate::stream::{nonempty, payload_chunks, PayloadView, StreamDialect};
use crate::table::{natural_width, widest_in_rows, MIN_COLUMN_WIDTH};
use crate::text::{
    index_of_from, last_index_of, lemma_index_of_from_bounds, lemma_last_index_bounds, spec_lines, spec_split,
    is_ws, skip_ws_back, skip_ws_from, spec_lines_from, spec_trim, strip_cr,
};

verus! {

/// A skill registry gives back what was registered under a name, enabled.
pub proof fn law_registry_read_after_register(m: Map<Seq<char>, (Skill, bool)>, skill: Skill)
    ensures
        m.insert(skill.name@, (skill, true)).dom().contains(skill.name@),
        m.insert(skill.name@, (skill, true))[skill.name@] == (skill, true),
{
}

/// Disabling an enabled skill and enabling it again leaves the registry as
/// it was.
pub proof fn law_registry_disable_then_enable(m: Map<Seq<char>, (Skill, bool)>, name: Seq<char>)
    requires
        m.dom().contains(name),
        m[name].1,
    ensures
        ({
            let off = m.insert(name, (m[name].0, false));
            off.insert(name, (off[name].0, true))
        }) == m,
{
    let off = m.insert(name, (m[name].0, false));
    assert(off.insert(name, (off[name].0, true)) =~= m);
}

/// The coordinator's state after each task of `ts` is enqueued, in order.
pub open spec fn enqueue_all(s: CoordinatorView, ts: Seq<QueuedTask>) -> CoordinatorView
    decreases ts.len(),
{
    if ts.len() == 0 {
        s
    } else {
        coordinator_step(
            enqueue_all(s, ts.drop_last()),
            CoordinatorEvent::TaskEnqueued { task_id: ts.last().task_id, task_type: ts.last().task_type },
        )
    }
}

/// The coordinator's state after `k` running tasks end.
pub open spec fn finish_n(s: CoordinatorView, k: nat) -> CoordinatorView
    decreases k,
{
    if k == 0 {
        s
    } else {
        next_or_idle(finish_n(s, (k - 1) as nat))
    }
}

proof fn lemma_enqueue_all_from_idle(ts: Seq<QueuedTask>)
    requires
        ts.len() > 0,
    ensures
        enqueue_all(CoordinatorView::Idle, ts) == (CoordinatorView::Managing {
            active: ts[0].task_id,
            pending: ts.drop_first(),
        }),
    decreases ts.len(),
{
    if ts.len() > 1 {
        lemma_enqueue_all_from_idle(ts.drop_last());
        assert(ts.drop_last().drop_first().push(ts.last()) =~= ts.drop_first());
        let t = ts.last();
        assert(QueuedTask { task_id: t.task_id, task_type: t.task_type } == t);
        assert(ts.drop_last()[0] == ts[0]);
    } else {
        assert(ts.drop_last().len() == 0);
        assert(enqueue_all(CoordinatorView::Idle, ts.drop_last()) == CoordinatorView::Idle);
        assert(ts.drop_first() =~= Seq::<QueuedTask>::empty());
    }
}

proof fn lemma_finish_n(ts: Seq<QueuedTask>, k: nat)
    requires
        k < ts.len(),
    ensures
        finish_n(enqueue_all(CoordinatorView::Idle, ts), k) == (CoordinatorView::Managing {
            active: ts[k as int].task_id,
            pending: ts.skip(k as int + 1),
        }),
    decreases k,
{
    if k == 0 {
        lemma_enqueue_all_from_idle(ts);
        assert(ts.drop_first() =~= ts.skip(1));
    } else {
        lemma_finish_n(ts, (k - 1) as nat);
        assert(ts.skip(k as int) =~= ts.skip(k as int));
        assert(ts.skip(k as int)[0] == ts[k as int]);
        assert(ts.skip(k as int).drop_first() =~= ts.skip(k as int + 1));
    }
}

/// Tasks run in the order they were enqueued: from an idle coordinator,
/// after the tasks `ts` are enqueued and `k` of them end, the task at index
/// `k` runs and those after it wait in order.
pub proof fn law_coordinator_fifo(ts: Seq<QueuedTask>, k: nat)
    requires
        k < ts.len(),
    ensures
        finish_n(enqueue_all(CoordinatorView::Idle, ts), k) == (CoordinatorView::Managing {
            active: ts[k as int].task_id,
            pending: ts.skip(k as int + 1),
        }),
{
    lemma_finish_n(ts, k);
}

/// Once every enqueued task has ended, the coordinator is idle.
pub proof fn law_coordinator_drains(ts: Seq<QueuedTask>)
    ensures
        finish_n(enqueue_all(CoordinatorView::Idle, ts), ts.len()) is Idle,
{
    if ts.len() == 0 {
    } else {
        lemma_finish_n(ts, (ts.len() - 1) as nat);
        assert(ts.skip(ts.len() as int) =~= Seq::<QueuedTask>::empty());
    }
}

/// The debug log never holds more than `DEBUG_HISTORY` messages, and the
/// newest message is always the last one added.
pub proof fn law_debug_log_bounded(log: Seq<Seq<char>>, msg: Seq<char>)
    requires
        log.len() <= DEBUG_HISTORY,
    ensures
        debug_after(log, msg).len() <= DEBUG_HISTORY,
        debug_after(log, msg).last() == msg,
{
}

/// Replacing a text by itself changes nothing.
pub proof fn law_replace_with_itself(s: Seq<char>, p: Seq<char>)
    ensures
        spec_replace(s, p, p) == s,
    decreases s.len(),
{
    if p.len() == 0 {
        if s.len() > 0 {
            law_replace_with_itself(s.skip(1), p);
            assert(p + seq![s[0]] + s.skip(1) =~= s);
        }
    } else if s.len() == 0 {
    } else if starts_with(s, p) {
        law_replace_with_itself(s.skip(p.len() as int), p);
        assert(s.subrange(0, p.len() as int) + s.skip(p.len() as int) =~= s);
    } else {
        law_replace_with_itself(s.skip(1), p);
        assert(seq![s[0]] + s.skip(1) =~= s);
    }
}

/// A rendered document always has a line to show.
pub proof fn law_markdown_never_empty(events: Seq<MdEventView>, content: Seq<char>)
    ensures
        render_lines(events, content).len() > 0,
{
}

/// Typing a character and deleting it again with Backspace gives back the
/// input and the cursor as they were.
pub proof fn law_type_then_backspace(v: AppView, c: char)
    requires
        v.cursor <= v.input.len(),
    ensures
        edit_step(edit_step(v, Key::Char(c)).unwrap(), Key::Backspace) == Some(v),
{
    let w = edit_step(v, Key::Char(c)).unwrap();
    let i = v.cursor as int;
    assert(w.input.take(i) =~= v.input.take(i));
    assert(w.input.skip(i + 1) =~= v.input.skip(i));
    assert(w.input.take(i) + w.input.skip(i + 1) =~= v.input);
}

proof fn lemma_width_spaces(t: Seq<char>, n: nat)
    ensures
        spec_text_width(t + spaces(n)) == spec_text_width(t) + n,
    decreases n,
{
    if n == 0 {
        assert(t + spaces(0) =~= t);
    } else {
        lemma_width_spaces(t, (n - 1) as nat);
        assert(t + spaces(n) =~= (t + spaces((n - 1) as nat)).push(' '));
        lemma_text_width_push(t + spaces((n - 1) as nat), ' ');
        assert(char_width(' ') == 1);
    }
}

/// Padding takes a text to exactly the target width, or leaves a wider one
/// as it is.
pub proof fn law_pad_reaches_width(text: Seq<char>, target: nat)
    ensures
        spec_text_width(spec_pad(text, target)) == if spec_text_width(text) >= target {
            spec_text_width(text)
        } else {
            target
        },
{
    if spec_text_width(text) < target {
        lemma_width_spaces(text, (target - spec_text_width(text)) as nat);
    }
}

proof fn lemma_width_concat(a: Seq<char>, b: Seq<char>)
    ensures
        spec_text_width(a + b) == spec_text_width(a) + spec_text_width(b),
    decreases b.len(),
{
    if b.len() > 0 {
        lemma_width_concat(a, b.drop_last());
        assert((a + b).drop_last() =~= a + b.drop_last());
        assert((a + b).last() == b.last());
    } else {
        assert(a + b =~= a);
    }
}

/// Cells taken by a run of texts laid side by side.
pub open spec fn total_width(ls: Seq<Seq<char>>) -> nat
    decreases ls.len(),
{
    if ls.len() == 0 {
        0
    } else {
        total_width(ls.drop_last()) + spec_text_width(ls.last())
    }
}

proof fn lemma_join_width(ls: Seq<Seq<char>>, sep: Seq<char>)
    requires
        ls.len() > 0,
    ensures
        spec_text_width(spec_join(ls, sep)) == total_width(ls) + (ls.len() - 1) * spec_text_width(sep),
    decreases ls.len(),
{
    if ls.len() == 1 {
        assert(ls.drop_last().len() == 0);
        assert(total_width(ls.drop_last()) == 0);
    } else {
        lemma_join_width(ls.drop_last(), sep);
        lemma_width_concat(spec_join(ls.drop_last(), sep), sep);
        lemma_width_concat(spec_join(ls.drop_last(), sep) + sep, ls.last());
        assert((ls.len() - 1) * spec_text_width(sep) == (ls.len() - 2) * spec_text_width(sep)
            + spec_text_width(sep)) by (nonlinear_arith);
    }
}

proof fn lemma_rule_width(n: nat)
    ensures
        spec_text_width(repeat_char('─', n)) == n,
    decreases n,
{
    if n > 0 {
        lemma_rule_width((n - 1) as nat);
        assert(repeat_char('─', n).drop_last() =~= repeat_char('─', (n - 1) as nat));
        assert(char_width('─') == 1);
    }
}

proof fn lemma_rules_total(widths: Seq<usize>)
    ensures
        total_width(widths.map_values(|w: usize| repeat_char('─', w as nat))) == width_sum(widths),
    decreases widths.len(),
{
    if widths.len() > 0 {
        lemma_rules_total(widths.drop_last());
        assert(widths.map_values(|w: usize| repeat_char('─', w as nat)).drop_last() =~= widths.drop_last().map_values(
            |w: usize| repeat_char('─', w as nat),
        ));
        lemma_rule_width(widths.last() as nat);
    }
}

proof fn lemma_padded_total(cells: Seq<Seq<char>>, widths: Seq<usize>)
    requires
        cells.len() == widths.len(),
        forall|i: int| 0 <= i < cells.len() ==> spec_text_width(#[trigger] cells[i]) <= widths[i],
    ensures
        total_width(padded(cells, widths)) == width_sum(widths),
    decreases cells.len(),
{
    if cells.len() > 0 {
        let c0 = cells.drop_last();
        let w0 = widths.drop_last();
        assert forall|i: int| 0 <= i < c0.len() implies spec_text_width(#[trigger] c0[i]) <= w0[i] by {
            assert(c0[i] == cells[i]);
        }
        lemma_padded_total(c0, w0);
        assert(padded(cells, widths).drop_last() =~= padded(c0, w0));
        law_pad_reaches_width(cells.last(), widths.last() as nat);
        assert(spec_text_width(cells[cells.len() - 1]) <= widths[cells.len() - 1]);
    }
}

proof fn lemma_single_width(c: char)
    ensures
        spec_text_width(seq![c]) == char_width(c),
{
    assert(seq![c].drop_last() =~= Seq::<char>::empty());
    assert(seq![c].last() == c);
    assert(spec_text_width(Seq::<char>::empty()) == 0);
}

proof fn lemma_frame_width(parts: Seq<Seq<char>>, l: char, r: char, sep: char)
    requires
        parts.len() > 0,
        char_width(l) == 1,
        char_width(r) == 1,
        char_width(sep) == 1,
    ensures
        spec_text_width(seq![l] + spec_join(parts, seq![sep]) + seq![r]) == total_width(parts) + parts.len() + 1,
{
    lemma_join_width(parts, seq![sep]);
    lemma_single_width(sep);
    lemma_single_width(l);
    lemma_single_width(r);
    lemma_width_concat(seq![l], spec_join(parts, seq![sep]));
    lemma_width_concat(seq![l] + spec_join(parts, seq![sep]), seq![r]);
    let k: int = parts.len() - 1;
    let w: int = spec_text_width(seq![sep]) as int;
    assert(w == 1);
    assert(k * w == k) by (nonlinear_arith)
        requires
            w == 1,
    ;
}

/// A table's rules and a line of cells that fill every column and fit their
/// widths are equally wide: the widths of the columns, one cell for each
/// separator, and two for the sides.
pub proof fn law_table_lines_align(cells: Seq<Seq<char>>, widths: Seq<usize>)
    requires
        cells.len() == widths.len(),
        widths.len() > 0,
        forall|i: int| 0 <= i < cells.len() ==> spec_text_width(#[trigger] cells[i]) <= widths[i],
    ensures
        spec_text_width(framed(padded(cells, widths), '│', '│')) == width_sum(widths) + widths.len() + 1,
        spec_text_width(border(widths, '┌', '┬', '┐')) == width_sum(widths) + widths.len() + 1,
        spec_text_width(border(widths, '├', '┼', '┤')) == width_sum(widths) + widths.len() + 1,
        spec_text_width(border(widths, '└', '┴', '┘')) == width_sum(widths) + widths.len() + 1,
{
    assert(char_width('│') == 1 && char_width('┌') == 1 && char_width('┬') == 1 && char_width('┐') == 1);
    assert(char_width('├') == 1 && char_width('┼') == 1 && char_width('┤') == 1);
    assert(char_width('└') == 1 && char_width('┴') == 1 && char_width('┘') == 1);
    lemma_padded_total(cells, widths);
    lemma_frame_width(padded(cells, widths), '│', '│', '│');
    let rules = widths.map_values(|w: usize| repeat_char('─', w as nat));
    lemma_rules_total(widths);
    lemma_frame_width(rules, '┌', '┐', '┬');
    lemma_frame_width(rules, '├', '┤', '┼');
    lemma_frame_width(rules, '└', '┘', '┴');
}

/// What the store reads back is what it saved: a boulder turned into its
/// row (`Boulder::to_row`) and read from it (`Boulder::from_row`) is the same
/// boulder, provided no tag holds a comma and the tags are not a single
/// empty tag.
pub proof fn law_row_roundtrip(b: BoulderView, row: BoulderRow)
    requires
        stored_as(b, row),
        forall|i: int| 0 <= i < b.tags.len() ==> !(#[trigger] b.tags[i]).contains(','),
        b.tags != seq![Seq::<char>::empty()],
    ensures
        row_boulder(row) == b,
{
    law_status_name_roundtrip(b.status, row.status@);
    law_priority_name_roundtrip(b.priority, row.priority@);
    law_tags_roundtrip(b.tags);
}

/// A message is delivered without error exactly when every handler it is
/// handed to takes it.
pub proof fn law_delivery_ok_iff_all_accept<H: MessageHandler>(hs: Seq<H>, m: MessageView)
    ensures
        delivery_result(deliveries_to(hs, m)) is Ok <==> forall|i: int| 0 <= i < hs.len() ==> #[trigger] hs[i].accepts(m),
    decreases hs.len(),
{
    if hs.len() > 0 {
        let rest = hs.drop_first();
        law_delivery_ok_iff_all_accept(rest, m);
        assert(deliveries_to(hs, m).drop_first() =~= deliveries_to(rest, m));
        assert(deliveries_to(hs, m)[0] == (hs[0], m));
        if forall|i: int| 0 <= i < hs.len() ==> #[trigger] hs[i].accepts(m) {
            assert forall|i: int| 0 <= i < rest.len() implies #[trigger] rest[i].accepts(m) by {
                assert(rest[i] == hs[i + 1]);
            }
        } else {
            let k = choose|k: int| 0 <= k < hs.len() && !hs[k].accepts(m);
            if k > 0 {
                assert(rest[k - 1] == hs[k]);
            }
        }
    }
}

/// The `scope:` value of a skill's frontmatter chooses the skill's scope:
/// `User` names the User scope, `Global` the Global scope, and any other
/// value, or no value, means Project.
pub proof fn law_skill_scope_from_frontmatter(content: Seq<char>)
    ensures
        spec_extract_field(spec_frontmatter(content), "scope"@) == Some("User"@) ==> parsed_scope(content)
            == SkillScope::User,
        spec_extract_field(spec_frontmatter(content), "scope"@) == Some("Global"@) ==> parsed_scope(content)
            == SkillScope::Global,
        forall|v: Seq<char>|
            spec_extract_field(spec_frontmatter(content), "scope"@) == Some(v) && v != "User"@ && v != "Global"@
                ==> parsed_scope(content) == SkillScope::Project,
        spec_extract_field(spec_frontmatter(content), "scope"@) is None ==> parsed_scope(content)
            == SkillScope::Project,
{
    reveal_strlit("User");
    reveal_strlit("Global");
    reveal_strlit("Project");
    assert("User"@.len() == 4);
    assert("Global"@.len() == 6);
    assert("Project"@.len() == 7);
    assert("User"@ != "Global"@);
    assert("Project"@ != "Global"@);
    assert("Project"@ != "User"@);
}

/// A block quote puts the quote bar on the current line: after any events,
/// opening a quote adds the span ("│ ", Quote) after the spans already there
/// and closes no line.
pub proof fn law_block_quote_bar(es: Seq<MdEventView>)
    ensures
        md_fold(es.push(MdEventView::StartBlockQuote)).spans == md_fold(es).spans.push(("│ "@, Tone::Quote)),
        md_fold(es.push(MdEventView::StartBlockQuote)).lines == md_fold(es).lines,
{
    assert(es.push(MdEventView::StartBlockQuote).drop_last() =~= es);
}

/// A quoted paragraph of one line of plain text is drawn as one line: the
/// quote bar, then the text.
pub proof fn law_quoted_paragraph(t: Seq<char>, content: Seq<char>)
    requires
        forall|k: int| 0 <= k < t.len() ==> t[k] != '\n',
        !starts_with(t, "[thinking]"@),
    ensures
        render_lines(
            seq![
                MdEventView::StartBlockQuote,
                MdEventView::Other,
                MdEventView::Text(t),
                MdEventView::EndParagraph,
                MdEventView::Other,
            ],
            content,
        ) == seq![LineView::Spans(seq![("│ "@, Tone::Quote), (t, Tone::Plain)])],
{
    let es = seq![
        MdEventView::StartBlockQuote,
        MdEventView::Other,
        MdEventView::Text(t),
        MdEventView::EndParagraph,
        MdEventView::Other,
    ];
    lemma_last_index_bounds(t, '\n');
    assert(last_index_of(t, '\n') < 0);
    assert(spec_split(t, '\n') == seq![t]);
    assert(es.take(1).drop_last() =~= Seq::<MdEventView>::empty());
    assert(es.take(2).drop_last() =~= es.take(1));
    assert(es.take(3).drop_last() =~= es.take(2));
    assert(es.take(4).drop_last() =~= es.take(3));
    assert(es.drop_last() =~= es.take(4));
    assert(md_fold(Seq::<MdEventView>::empty()) == crate::markdown::initial_state());
    assert(es.take(1).last() == MdEventView::StartBlockQuote);
    assert(es.take(2).last() == MdEventView::Other);
    assert(es.take(3).last() == MdEventView::Text(t));
    assert(es.take(4).last() == MdEventView::EndParagraph);
    assert(es.last() == MdEventView::Other);
    let s1 = md_fold(es.take(1));
    assert(s1.spans =~= seq![("│ "@, Tone::Quote)]);
    assert(s1.lines.len() == 0);
    let s2 = md_fold(es.take(2));
    assert(s2 == s1);
    assert(seq![t].drop_last() =~= Seq::<Seq<char>>::empty());
    assert(push_pieces(s2, Seq::<Seq<char>>::empty(), Tone::Plain) == s2);
    assert(push_pieces(s2, seq![t], Tone::Plain) == with_span(s2, t, Tone::Plain));
    assert(text_step(s2, t) == with_span(s2, t, Tone::Plain));
    let s3 = md_fold(es.take(3));
    assert(s3.spans =~= seq![("│ "@, Tone::Quote), (t, Tone::Plain)]);
    let s4 = md_fold(es.take(4));
    assert(s4.lines =~= seq![LineView::Spans(seq![("│ "@, Tone::Quote), (t, Tone::Plain)])]);
    assert(s4.spans.len() == 0);
}

/// DeepSeek reasoning opens once per run: two reasoning parts in a row,
/// starting with reasoning closed, give the opening mark once and then each
/// part's text, and leave reasoning open.
pub proof fn law_reasoning_opens_once(d: StreamDialect, p: PayloadView, q: PayloadView)
    requires
        d == StreamDialect::DeepSeekChat || d == StreamDialect::DeepSeekTools,
        nonempty(p.delta_reasoning),
        nonempty(q.delta_reasoning),
        !nonempty(p.delta_content),
        !nonempty(q.delta_content),
        p.delta_tool_names is None,
        q.delta_tool_names is None,
    ensures
        ({
            let first = payload_chunks(d, false, p);
            let second = payload_chunks(d, first.0, q);
            let open = if d == StreamDialect::DeepSeekChat {
                "[thinking] "@
            } else {
                "<thinking>\n"@
            };
            &&& first.0
            &&& second.0
            &&& first.1 + second.1 == seq![open, p.delta_reasoning.unwrap(), q.delta_reasoning.unwrap()]
        }),
{
    let first = payload_chunks(d, false, p);
    let second = payload_chunks(d, first.0, q);
    assert(first.1 + second.1 =~= seq![
        if d == StreamDialect::DeepSeekChat {
            "[thinking] "@
        } else {
            "<thinking>\n"@
        },
        p.delta_reasoning.unwrap(),
        q.delta_reasoning.unwrap(),
    ]);
}

/// While DeepSeek reasoning is open, a further reasoning part yields its text
/// alone and reasoning stays open.
pub proof fn law_reasoning_continues(d: StreamDialect, q: PayloadView)
    requires
        d == StreamDialect::DeepSeekChat || d == StreamDialect::DeepSeekTools,
        nonempty(q.delta_reasoning),
        !nonempty(q.delta_content),
        q.delta_tool_names is None,
    ensures
        payload_chunks(d, true, q) == (true, seq![q.delta_reasoning.unwrap()]),
{
}

proof fn lemma_widest_in_rows(rows: Seq<Seq<Seq<char>>>, i: int, k: int, floor: nat)
    requires
        0 <= k <= rows.len(),
    ensures
        floor <= widest_in_rows(rows, i, k, floor),
        forall|r: int|
            0 <= r < k && 0 <= i < rows[r].len() ==> spec_text_width(#[trigger] rows[r][i]) <= widest_in_rows(
                rows,
                i,
                k,
                floor,
            ),
        widest_in_rows(rows, i, k, floor) == floor || exists|r: int|
            0 <= r < k && 0 <= i < rows[r].len() && widest_in_rows(rows, i, k, floor) == spec_text_width(
                #[trigger] rows[r][i],
            ),
    decreases k,
{
    if k > 0 {
        lemma_widest_in_rows(rows, i, k - 1, floor);
        let m = widest_in_rows(rows, i, k - 1, floor);
        if 0 <= i < rows[k - 1].len() && spec_text_width(rows[k - 1][i]) > m {
            assert(widest_in_rows(rows, i, k, floor) == spec_text_width(rows[k - 1][i]));
        } else if m != floor {
            let r = choose|r: int| 0 <= r < k - 1 && 0 <= i < rows[r].len() && m == spec_text_width(rows[r][i]);
            assert(widest_in_rows(rows, i, k, floor) == spec_text_width(rows[r][i]));
        }
    }
}

/// A table column is as wide as the widest of its header and its cells, and
/// at least `MIN_COLUMN_WIDTH`: no cell is wider than its column, and the
/// column is no wider than it must be.
pub proof fn law_columns_fit_cells(headers: Seq<Seq<char>>, rows: Seq<Seq<Seq<char>>>, i: int)
    requires
        0 <= i,
    ensures
        MIN_COLUMN_WIDTH <= natural_width(headers, rows, i),
        i < headers.len() ==> spec_text_width(headers[i]) <= natural_width(headers, rows, i),
        forall|r: int|
            0 <= r < rows.len() && i < rows[r].len() ==> spec_text_width(#[trigger] rows[r][i]) <= natural_width(
                headers,
                rows,
                i,
            ),
        natural_width(headers, rows, i) == MIN_COLUMN_WIDTH || (i < headers.len() && natural_width(headers, rows, i)
            == spec_text_width(headers[i])) || exists|r: int|
            0 <= r < rows.len() && i < rows[r].len() && natural_width(headers, rows, i) == spec_text_width(
                #[trigger] rows[r][i],
            ),
{
    let h = if 0 <= i < headers.len() && spec_text_width(headers[i]) > MIN_COLUMN_WIDTH {
        spec_text_width(headers[i])
    } else {
        MIN_COLUMN_WIDTH as nat
    };
    lemma_widest_in_rows(rows, i, rows.len() as int, h);
}

/// East Asian wide characters take two terminal cells: Hangul syllables
/// (U+AC00 to U+D7AF), CJK ideographs (U+4E00 to U+9FFF), Hiragana and
/// Katakana (U+3040 to U+30FF) and fullwidth forms (U+FF01 to U+FF60); ASCII
/// takes one.
pub proof fn law_wide_characters(c: char)
    ensures
        0xAC00 <= c as u32 <= 0xD7AF ==> char_width(c) == 2,
        0x4E00 <= c as u32 <= 0x9FFF ==> char_width(c) == 2,
        0x3040 <= c as u32 <= 0x30FF ==> char_width(c) == 2,
        0xFF01 <= c as u32 <= 0xFF60 ==> char_width(c) == 2,
        (c as u32) < 0x80 ==> char_width(c) == 1,
{
}

/// A text of Hangul syllables takes two cells per character.
pub proof fn law_hangul_text_width(s: Seq<char>)
    requires
        forall|k: int| 0 <= k < s.len() ==> 0xAC00 <= #[trigger] s[k] as u32 <= 0xD7AF,
    ensures
        spec_text_width(s) == 2 * s.len(),
    decreases s.len(),
{
    if s.len() > 0 {
        let t = s.drop_last();
        assert forall|k: int| 0 <= k < t.len() implies 0xAC00 <= #[trigger] t[k] as u32 <= 0xD7AF by {
            assert(t[k] == s[k]);
        }
        law_hangul_text_width(t);
        law_wide_characters(s.last());
    }
}

/// The lines closed when a new line starts: the lines so far, and the
/// current line if it has any span.
pub open spec fn closed_lines(lines: Seq<LineView>, spans: Seq<(Seq<char>, Tone)>) -> Seq<LineView> {
    if spans.len() > 0 {
        lines.push(LineView::Spans(spans))
    } else {
        lines
    }
}

/// A list item starts a new line that begins with the bullet ("• ", Bullet).
pub proof fn law_list_item_bullet(es: Seq<MdEventView>)
    ensures
        md_fold(es.push(MdEventView::StartItem)).lines == closed_lines(md_fold(es).lines, md_fold(es).spans),
        md_fold(es.push(MdEventView::StartItem)).spans == seq![("• "@, Tone::Bullet)],
{
    assert(es.push(MdEventView::StartItem).drop_last() =~= es);
}

/// A heading of level `l` starts a new line indented by `l` spaces, and its
/// text takes the level's colour: cyan, magenta, yellow, then green.
pub proof fn law_heading_start(es: Seq<MdEventView>, l: nat)
    ensures
        ({
            let st = md_fold(es.push(MdEventView::StartHeading(l)));
            &&& st.lines == closed_lines(md_fold(es).lines, md_fold(es).spans)
            &&& st.spans.len() == 1
            &&& st.spans[0].0.len() == l
            &&& forall|k: int| 0 <= k < l ==> st.spans[0].0[k] == ' '
            &&& st.in_heading
            &&& st.hue == if l == 1 {
                Hue::Cyan
            } else if l == 2 {
                Hue::Magenta
            } else if l == 3 {
                Hue::Yellow
            } else {
                Hue::Green
            }
        }),
{
    assert(es.push(MdEventView::StartHeading(l)).drop_last() =~= es);
}

/// Inline code is added to the current line in backticks, styled as code.
pub proof fn law_inline_code(es: Seq<MdEventView>, c: Seq<char>)
    ensures
        md_fold(es.push(MdEventView::Code(c))).spans == md_fold(es).spans.push((seq!['`'] + c + seq!['`'], Tone::InlineCode)),
        md_fold(es.push(MdEventView::Code(c))).lines == md_fold(es).lines,
{
    assert(es.push(MdEventView::Code(c)).drop_last() =~= es);
    reveal_strlit("`");
    assert("`"@ =~= seq!['`']);
}

/// Outside tables, code blocks and headings, a text of one line is added to
/// the current line as plain text.
pub proof fn law_plain_text(es: Seq<MdEventView>, t: Seq<char>)
    requires
        !md_fold(es).in_table,
        !md_fold(es).in_code,
        !md_fold(es).in_heading,
        forall|k: int| 0 <= k < t.len() ==> t[k] != '\n',
        !starts_with(t, "[thinking]"@),
    ensures
        md_fold(es.push(MdEventView::Text(t))).spans == md_fold(es).spans.push((t, Tone::Plain)),
        md_fold(es.push(MdEventView::Text(t))).lines == md_fold(es).lines,
{
    let st = md_fold(es);
    assert(es.push(MdEventView::Text(t)).drop_last() =~= es);
    lemma_last_index_bounds(t, '\n');
    assert(spec_split(t, '\n') == seq![t]);
    assert(seq![t].drop_last() =~= Seq::<Seq<char>>::empty());
    assert(push_pieces(st, Seq::<Seq<char>>::empty(), Tone::Plain) == st);
    assert(push_pieces(st, seq![t], Tone::Plain) == with_span(st, t, Tone::Plain));
}

/// The end of a paragraph closes its line; a hard break does the same.
pub proof fn law_paragraph_closes_line(es: Seq<MdEventView>)
    ensures
        md_fold(es.push(MdEventView::EndParagraph)).lines == closed_lines(md_fold(es).lines, md_fold(es).spans),
        md_fold(es.push(MdEventView::EndParagraph)).spans.len() == 0,
        md_fold(es.push(MdEventView::HardBreak)).lines == closed_lines(md_fold(es).lines, md_fold(es).spans),
        md_fold(es.push(MdEventView::HardBreak)).spans.len() == 0,
{
    assert(es.push(MdEventView::EndParagraph).drop_last() =~= es);
    assert(es.push(MdEventView::HardBreak).drop_last() =~= es);
}

/// DeepSeek's chat answer after reasoning is set off by a blank line, and
/// closes reasoning; without reasoning before it, the answer comes alone.
pub proof fn law_chat_answer_after_reasoning(q: PayloadView)
    requires
        !nonempty(q.delta_reasoning),
        nonempty(q.delta_content),
    ensures
        payload_chunks(StreamDialect::DeepSeekChat, true, q) == (false, seq!["\n\n"@, q.delta_content.unwrap()]),
        payload_chunks(StreamDialect::DeepSeekChat, false, q) == (false, seq![q.delta_content.unwrap()]),
{
    assert(Seq::<Seq<char>>::empty() + seq!["\n\n"@] + seq![q.delta_content.unwrap()] =~= seq![
        "\n\n"@,
        q.delta_content.unwrap(),
    ]);
    assert(Seq::<Seq<char>>::empty() + Seq::<Seq<char>>::empty() + seq![q.delta_content.unwrap()] =~= seq![
        q.delta_content.unwrap(),
    ]);
}

/// In DeepSeek's tool stream, an answer closes open reasoning and is wrapped
/// in `<content>` tags.
pub proof fn law_tools_answer_tags(q: PayloadView)
    requires
        !nonempty(q.delta_reasoning),
        nonempty(q.delta_content),
        q.delta_tool_names is None,
    ensures
        payload_chunks(StreamDialect::DeepSeekTools, true, q) == (
            false,
            seq!["\n</thinking>\n<content>\n"@, q.delta_content.unwrap(), "\n</content>\n"@],
        ),
        payload_chunks(StreamDialect::DeepSeekTools, false, q) == (
            false,
            seq!["<content>\n"@, q.delta_content.unwrap(), "\n</content>\n"@],
        ),
{
    assert(Seq::<Seq<char>>::empty() + seq!["\n</thinking>\n<content>\n"@, q.delta_content.unwrap(), "\n</content>\n"@]
        =~= seq!["\n</thinking>\n<content>\n"@, q.delta_content.unwrap(), "\n</content>\n"@]);
    assert(Seq::<Seq<char>>::empty() + seq!["<content>\n"@, q.delta_content.unwrap(), "\n</content>\n"@] =~= seq![
        "<content>\n"@,
        q.delta_content.unwrap(),
        "\n</content>\n"@,
    ]);
}

/// A text whose first line is `field:value`, with the field and the value
/// free of `':'`, line breaks and carriage returns, gives the value, trimmed,
/// as the field's value, whatever lines follow.
pub proof fn law_field_on_first_line(field: Seq<char>, value: Seq<char>, rest: Seq<char>)
    requires
        forall|k: int| 0 <= k < field.len() ==> field[k] != ':' && field[k] != '\n' && field[k] != '\r',
        forall|k: int| 0 <= k < value.len() ==> value[k] != ':' && value[k] != '\n' && value[k] != '\r',
    ensures
        spec_extract_field(field + seq![':'] + value + seq!['\n'] + rest, field) == Some(spec_trim(value)),
{
    let line = field + seq![':'] + value;
    let s = line + seq!['\n'] + rest;
    let n = line.len() as int;
    let f = field.len() as int;
    assert forall|k: int| 0 <= k < n implies s[k] != '\n' by {
        assert(s[k] == line[k]);
        if k < field.len() {
            assert(line[k] == field[k]);
        } else if k > field.len() {
            assert(line[k] == value[k - field.len() - 1]);
        }
    }
    assert(s[n] == '\n');
    lemma_index_of_from_bounds(s, '\n', 0);
    assert(index_of_from(s, '\n', 0) == n);
    assert(s.subrange(0, n) =~= line);
    assert(line.last() != '\r') by {
        if value.len() > 0 {
            assert(line.last() == value[value.len() - 1]);
        }
    }
    assert(strip_cr(line) == line);
    let ls = spec_lines(s);
    assert(ls[0] == line);
    assert(ls.len() > 0);
    assert(line.subrange(0, f + 1) =~= field.push(':'));
    assert(key_line(ls, field.push(':'), 0) == 0);
    assert forall|k: int| 0 <= k < field.len() implies line[k] != ':' by {
        assert(line[k] == field[k]);
    }
    assert(line[f] == ':');
    lemma_index_of_from_bounds(line, ':', 0);
    assert(index_of_from(line, ':', 0) == f);
    assert forall|k: int| field.len() + 1 <= k < n implies line[k] != ':' by {
        assert(line[k] == value[k - field.len() - 1]);
    }
    lemma_index_of_from_bounds(line, ':', f + 1);
    assert(index_of_from(line, ':', f + 1) == n);
    assert(line.subrange(f + 1, n) =~= value);
}

/// A skill whose frontmatter starts with the line `scope: User` has the User
/// scope, and one that starts with `scope: Global` the Global scope.
pub proof fn law_skill_scope_line(content: Seq<char>, rest: Seq<char>)
    ensures
        spec_frontmatter(content) == "scope: User\n"@ + rest ==> parsed_scope(content) == SkillScope::User,
        spec_frontmatter(content) == "scope: Global\n"@ + rest ==> parsed_scope(content) == SkillScope::Global,
{
    reveal_strlit("scope: User\n");
    reveal_strlit("scope: Global\n");
    reveal_strlit("scope");
    reveal_strlit("User");
    reveal_strlit("Global");
    reveal_strlit(" User");
    reveal_strlit(" Global");
    let field = "scope"@;
    assert(field =~= seq!['s', 'c', 'o', 'p', 'e']);
    let u = seq![' ', 'U', 's', 'e', 'r'];
    let g = seq![' ', 'G', 'l', 'o', 'b', 'a', 'l'];
    assert("scope: User\n"@ + rest =~= field + seq![':'] + u + seq!['\n'] + rest);
    assert("scope: Global\n"@ + rest =~= field + seq![':'] + g + seq!['\n'] + rest);
    law_field_on_first_line(field, u, rest);
    law_field_on_first_line(field, g, rest);
    assert(skip_ws_from(u, 1) == 1);
    assert(skip_ws_from(u, 0) == 1);
    assert(skip_ws_back(u, 5) == 5);
    assert(spec_trim(u) =~= "User"@);
    assert(skip_ws_from(g, 1) == 1);
    assert(skip_ws_from(g, 0) == 1);
    assert(skip_ws_back(g, 7) == 7);
    assert(spec_trim(g) =~= "Global"@);
    law_skill_scope_from_frontmatter(content);
}

proof fn lemma_skip_ws_back_keeps(s: Seq<char>, j: int, m: int)
    requires
        0 < m <= j <= s.len(),
        !is_ws(s[m - 1]),
    ensures
        m <= skip_ws_back(s, j) <= j,
    decreases j,
{
    if j > m && is_ws(s[j - 1]) {
        lemma_skip_ws_back_keeps(s, j - 1, m);
    }
}

/// A line free of `'\n'` and `'\r'` is found at `i` of `s`, up to the next
/// line break at `i + l.len()`.
proof fn lemma_line_at(s: Seq<char>, i: int, l: Seq<char>)
    requires
        0 <= i,
        i + l.len() < s.len(),
        s.subrange(i, i + l.len()) == l,
        s[i + l.len()] == '\n',
        forall|k: int| 0 <= k < l.len() ==> l[k] != '\n' && l[k] != '\r',
    ensures
        spec_lines_from(s, i) == seq![l] + spec_lines_from(s, i + l.len() + 1),
{
    assert forall|k: int| i <= k < i + l.len() implies s[k] != '\n' by {
        assert(s[k] == s.subrange(i, i + l.len())[k - i]);
    }
    lemma_index_of_from_bounds(s, '\n', i);
    assert(index_of_from(s, '\n', i) == i + l.len());
    if l.len() > 0 {
        assert(l.last() == l[l.len() - 1]);
    }
    assert(strip_cr(l) == l);
}

/// A skill file made of a `---` line, one frontmatter line `l`, a closing
/// `---` line and any body has `l` as its frontmatter.
pub proof fn law_fenced_frontmatter(l: Seq<char>, body: Seq<char>)
    requires
        forall|k: int| 0 <= k < l.len() ==> l[k] != '\n' && l[k] != '\r',
        !starts_with(l, "---"@),
    ensures
        spec_frontmatter("---\n"@ + l + "\n---\n"@ + body) == l,
{
    reveal_strlit("---\n");
    reveal_strlit("\n---\n");
    reveal_strlit("---");
    let c = "---\n"@ + l + "\n---\n"@ + body;
    let n = l.len() as int;
    let m = n + 8;
    assert(c[0] == '-');
    assert(c[m - 1] == '-');
    assert(!is_ws('-'));
    assert(skip_ws_from(c, 0) == 0);
    lemma_skip_ws_back_keeps(c, c.len() as int, m);
    let b = skip_ws_back(c, c.len() as int);
    let t = spec_trim(c);
    assert(t =~= c.subrange(0, b));
    assert(t.subrange(0, 3) =~= "---"@);
    assert(is_fence(t));
    // The lines of the trimmed text: "---", `l`, then one that starts with "---".
    let dash = seq!['-', '-', '-'];
    assert(t.subrange(0, 3) =~= dash);
    assert(t[3] == '\n');
    assert(dash =~= "---"@);
    lemma_line_at(t, 0, dash);
    assert(t.subrange(4, 4 + n) =~= l);
    assert(t[4 + n] == '\n');
    lemma_line_at(t, 4, l);
    let i = 5 + n;
    assert(t.subrange(i, i + 3) =~= dash);
    lemma_index_of_from_bounds(t, '\n', i);
    let j = index_of_from(t, '\n', i);
    assert(t[i] == '-' && t[i + 1] == '-' && t[i + 2] == '-');
    assert(j >= i + 3);
    let third = spec_lines_from(t, i);
    assert(third.len() > 0);
    assert(starts_with(third[0], "---"@)) by {
        if j >= t.len() {
            assert(third[0] =~= t.subrange(i, t.len() as int));
            assert(third[0].subrange(0, 3) =~= dash);
        } else {
            let raw = t.subrange(i, j);
            assert(third[0] == strip_cr(raw));
            assert(strip_cr(raw).subrange(0, 3) =~= dash);
        }
    }
    let ls = spec_lines(t);
    assert(ls =~= seq![dash] + (seq![l] + third));
    assert(ls[1] == l);
    assert(ls[2] == third[0]);
    assert(!is_fence(ls[1]));
    assert(fence_end(ls, 2) == 2);
    assert(fence_end(ls, 1) == 2);
    assert(frontmatter_lines(t) =~= seq![l]);
    assert(spec_join(seq![l], "\n"@) == l);
}

/// A text of one line `field:value`, with the field and the value free of
/// `':'`, line breaks and carriage returns, gives the value, trimmed, as the
/// field's value.
pub proof fn law_field_single_line(field: Seq<char>, value: Seq<char>)
    requires
        forall|k: int| 0 <= k < field.len() ==> field[k] != ':' && field[k] != '\n' && field[k] != '\r',
        forall|k: int| 0 <= k < value.len() ==> value[k] != ':' && value[k] != '\n' && value[k] != '\r',
    ensures
        spec_extract_field(field + seq![':'] + value, field) == Some(spec_trim(value)),
{
    let line = field + seq![':'] + value;
    let n = line.len() as int;
    let f = field.len() as int;
    assert forall|k: int| 0 <= k < n implies line[k] != '\n' by {
        if k < f {
            assert(line[k] == field[k]);
        } else if k > f {
            assert(line[k] == value[k - f - 1]);
        }
    }
    lemma_index_of_from_bounds(line, '\n', 0);
    assert(index_of_from(line, '\n', 0) == n);
    let ls = spec_lines(line);
    assert(ls =~= seq![line.subrange(0, n)]);
    assert(line.subrange(0, n) =~= line);
    assert(line.subrange(0, f + 1) =~= field.push(':'));
    assert(key_line(ls, field.push(':'), 0) == 0);
    assert forall|k: int| 0 <= k < f implies line[k] != ':' by {
        assert(line[k] == field[k]);
    }
    assert(line[f] == ':');
    lemma_index_of_from_bounds(line, ':', 0);
    assert(index_of_from(line, ':', 0) == f);
    assert forall|k: int| f + 1 <= k < n implies line[k] != ':' by {
        assert(line[k] == value[k - f - 1]);
    }
    lemma_index_of_from_bounds(line, ':', f + 1);
    assert(index_of_from(line, ':', f + 1) == n);
    assert(line.subrange(f + 1, n) =~= value);
}

/// A skill file whose fenced frontmatter is the one line `scope: User`
/// parses with the User scope, whatever its body; with `scope: Global`, the
/// Global scope.
pub proof fn law_skill_file_scope(body: Seq<char>)
    ensures
        parsed_scope("---\nscope: User\n---\n"@ + body) == SkillScope::User,
        parsed_scope("---\nscope: Global\n---\n"@ + body) == SkillScope::Global,
{
    reveal_strlit("---\nscope: User\n---\n");
    reveal_strlit("---\nscope: Global\n---\n");
    reveal_strlit("---\n");
    reveal_strlit("\n---\n");
    reveal_strlit("scope");
    reveal_strlit("User");
    reveal_strlit("Global");
    reveal_strlit("---");
    let field = seq!['s', 'c', 'o', 'p', 'e'];
    assert(field =~= "scope"@);
    let u = seq![' ', 'U', 's', 'e', 'r'];
    let g = seq![' ', 'G', 'l', 'o', 'b', 'a', 'l'];
    let lu = field + seq![':'] + u;
    let lg = field + seq![':'] + g;
    assert("---\nscope: User\n---\n"@ + body =~= "---\n"@ + lu + "\n---\n"@ + body);
    assert("---\nscope: Global\n---\n"@ + body =~= "---\n"@ + lg + "\n---\n"@ + body);
    assert(lu[0] == 's');
    assert(lg[0] == 's');
    assert("---"@[0] == '-');
    assert(lu.subrange(0, 3)[0] == 's');
    assert(lg.subrange(0, 3)[0] == 's');
    assert(!starts_with(lu, "---"@));
    assert(!starts_with(lg, "---"@));
    law_fenced_frontmatter(lu, body);
    law_fenced_frontmatter(lg, body);
    law_field_single_line(field, u);
    law_field_single_line(field, g);
    assert(skip_ws_from(u, 1) == 1);
    assert(skip_ws_from(u, 0) == 1);
    assert(skip_ws_back(u, 5) == 5);
    assert(spec_trim(u) =~= "User"@);
    assert(skip_ws_from(g, 1) == 1);
    assert(skip_ws_from(g, 0) == 1);
    assert(skip_ws_back(g, 7) == 7);
    assert(spec_trim(g) =~= "Global"@);
    law_skill_scope_from_frontmatter("---\nscope: User\n---\n"@ + body);
    law_skill_scope_from_frontmatter("---\nscope: Global\n---\n"@ + body);
}

/// In DeepSeek's tool stream, a tool name is wrapped in `<tool>` tags, and
/// closes open reasoning first.
pub proof fn law_tool_name_tags(q: PayloadView, name: Seq<char>)
    requires
        !nonempty(q.delta_reasoning),
        !nonempty(q.delta_content),
        q.delta_tool_names == Some(seq![Some(name)]),
        name.len() > 0,
    ensures
        payload_chunks(StreamDialect::DeepSeekTools, false, q) == (false, seq!["<tool>\n"@, name, "\n</tool>\n"@]),
        payload_chunks(StreamDialect::DeepSeekTools, true, q) == (
            false,
            seq!["\n</thinking>\n<tool>\n"@, name, "\n</tool>\n"@],
        ),
{
    let names = seq![Some(name)];
    assert(crate::stream::tool_chunks(false, names, 1) == (false, Seq::<Seq<char>>::empty()));
    assert(seq!["<tool>\n"@, name, "\n</tool>\n"@] + Seq::<Seq<char>>::empty() =~= seq![
        "<tool>\n"@,
        name,
        "\n</tool>\n"@,
    ]);
    assert(seq!["\n</thinking>\n<tool>\n"@, name, "\n</tool>\n"@] + Seq::<Seq<char>>::empty() =~= seq![
        "\n</thinking>\n<tool>\n"@,
        name,
        "\n</tool>\n"@,
    ]);
    assert(Seq::<Seq<char>>::empty() + seq!["<tool>\n"@, name, "\n</tool>\n"@] =~= seq![
        "<tool>\n"@,
        name,
        "\n</tool>\n"@,
    ]);
    assert(Seq::<Seq<char>>::empty() + seq!["\n</thinking>\n<tool>\n"@, name, "\n</tool>\n"@] =~= seq![
        "\n</thinking>\n<tool>\n"@,
        name,
        "\n</tool>\n"@,
    ]);
}

} // verus!
