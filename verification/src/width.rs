//! Terminal cell widths of text: CJK and fullwidth characters take two cells,
//! everything else one. Used to wrap, pad and place the cursor.
use vstd::prelude::*;

use crate::text::{chars_of, string_from_chars, views};

verus! {

/// Code points drawn two cells wide: CJK punctuation, kana, bopomofo, hangul
/// compatibility jamo, kanbun, CJK strokes, enclosed and compatibility
/// blocks, vertical and small forms, halfwidth and fullwidth forms, the CJK
/// and Yi blocks from U+2E80 to U+A4CF, and hangul syllables.
pub open spec fn is_wide(c: char) -> bool {
    let u = c as u32;
    ||| 0x3000 <= u <= 0x303F
    ||| 0x3040 <= u <= 0x309F
    ||| 0x30A0 <= u <= 0x30FF
    ||| 0x3100 <= u <= 0x312F
    ||| 0x3130 <= u <= 0x318F
    ||| 0x3190 <= u <= 0x319F
    ||| 0x31A0 <= u <= 0x31BF
    ||| 0x31C0 <= u <= 0x31EF
    ||| 0x31F0 <= u <= 0x31FF
    ||| 0x3200 <= u <= 0x32FF
    ||| 0x3300 <= u <= 0x33FF
    ||| 0xFE30 <= u <= 0xFE4F
    ||| 0xFE50 <= u <= 0xFE6F
    ||| 0xFF00 <= u <= 0xFFEF
    ||| 0x2E80 <= u <= 0xA4CF
    ||| 0xAC00 <= u <= 0xD7AF
}

/// Cells taken by one character: ASCII (a tab included) takes one, a wide
/// character two, any other one.
pub open spec fn char_width(c: char) -> nat {
    if (c as u32) < 0x80 {
        1
    } else if is_wide(c) {
        2
    } else {
        1
    }
}

/// Cells taken by a string.
pub open spec fn spec_text_width(s: Seq<char>) -> nat
    decreases s.len(),
{
    if s.len() == 0 {
        0
    } else {
        spec_text_width(s.drop_last()) + char_width(s.last())
    }
}

/// The concatenation of a sequence of strings.
pub open spec fn concat_all(ls: Seq<Seq<char>>) -> Seq<char>
    decreases ls.len(),
{
    if ls.len() == 0 {
        Seq::empty()
    } else {
        concat_all(ls.drop_last()) + ls.last()
    }
}

/// A wrapped line fits in `width` cells, or holds a single character that is
/// wider on its own.
pub open spec fn line_fits(l: Seq<char>, width: nat) -> bool {
    spec_text_width(l) <= width || l.len() == 1
}

/// `ls` is the greedy wrapping of a nonempty text at `width` cells: every
/// line is nonempty and fits, and no line could take the first character of
/// the next one.
pub open spec fn is_greedy_wrap(ls: Seq<Seq<char>>, width: nat) -> bool {
    &&& forall|i: int| 0 <= i < ls.len() ==> #[trigger] ls[i].len() > 0
    &&& forall|i: int| 0 <= i < ls.len() ==> line_fits(#[trigger] ls[i], width)
    &&& forall|i: int|
        0 <= i < ls.len() - 1 ==> spec_text_width(#[trigger] ls[i]) + char_width(ls[i + 1][0])
            > width
}

pub proof fn lemma_text_width_push(s: Seq<char>, c: char)
    ensures
        spec_text_width(s.push(c)) == spec_text_width(s) + char_width(c),
{
    assert(s.push(c).drop_last() =~= s);
}

pub proof fn lemma_text_width_bound(s: Seq<char>)
    ensures
        spec_text_width(s) <= 2 * s.len(),
    decreases s.len(),
{
    if s.len() > 0 {
        lemma_text_width_bound(s.drop_last());
    }
}

proof fn lemma_concat_push(ls: Seq<Seq<char>>, l: Seq<char>)
    ensures
        concat_all(ls.push(l)) == concat_all(ls) + l,
{
    assert(ls.push(l).drop_last() =~= ls);
}

/// Cells taken by `c` on the terminal.
pub fn display_width(c: char) -> (w: usize)
    ensures
        w == char_width(c),
{
    let u = c as u32;
    if u < 0x80 {
        1
    } else if (0x3000 <= u && u <= 0x303F) || (0x3040 <= u && u <= 0x309F) || (0x30A0 <= u && u
        <= 0x30FF) || (0x3100 <= u && u <= 0x312F) || (0x3130 <= u && u <= 0x318F) || (0x3190 <= u
        && u <= 0x319F) || (0x31A0 <= u && u <= 0x31BF) || (0x31C0 <= u && u <= 0x31EF) || (0x31F0
        <= u && u <= 0x31FF) || (0x3200 <= u && u <= 0x32FF) || (0x3300 <= u && u <= 0x33FF) || (
    0xFE30 <= u && u <= 0xFE4F) || (0xFE50 <= u && u <= 0xFE6F) || (0xFF00 <= u && u <= 0xFFEF)
        || (0x2E80 <= u && u <= 0xA4CF) || (0xAC00 <= u && u <= 0xD7AF) {
        2
    } else {
        1
    }
}

/// Cells taken by the characters of `s`.
pub fn chars_width(s: &[char]) -> (w: usize)
    requires
        s@.len() <= usize::MAX / 2,
    ensures
        w == spec_text_width(s@),
{
    let mut w: usize = 0;
    let mut i: usize = 0;
    while i < s.len()
        invariant
            i <= s@.len() <= usize::MAX / 2,
            w == spec_text_width(s@.take(i as int)),
        decreases s@.len() - i,
    {
        proof {
            lemma_text_width_push(s@.take(i as int), s@[i as int]);
            assert(s@.take(i + 1) =~= s@.take(i as int).push(s@[i as int]));
            lemma_text_width_bound(s@.take(i + 1));
        }
        w = w + display_width(s[i]);
        i = i + 1;
    }
    assert(s@.take(s@.len() as int) =~= s@);
    w
}

/// Cells taken by `text` on the terminal.
pub fn text_width(text: &str) -> (w: usize)
    requires
        text@.len() <= usize::MAX / 2,
    ensures
        w == spec_text_width(text@),
{
    let chars = chars_of(text);
    chars_width(&chars)
}

/// The greedy line breaker after reading `s`: the finished lines and the line
/// being filled. A character that would overflow a nonempty line starts the
/// next one.
pub open spec fn wrap_state(s: Seq<char>, width: nat) -> (Seq<Seq<char>>, Seq<char>)
    decreases s.len(),
{
    if s.len() == 0 {
        (Seq::empty(), Seq::empty())
    } else {
        let prev = wrap_state(s.drop_last(), width);
        let c = s.last();
        if prev.1.len() > 0 && spec_text_width(prev.1) + char_width(c) > width {
            (prev.0.push(prev.1), seq![c])
        } else {
            (prev.0, prev.1.push(c))
        }
    }
}

/// `text` broken into lines of at most `width` cells; an empty text is one
/// empty line.
pub open spec fn spec_wrap(s: Seq<char>, width: nat) -> Seq<Seq<char>> {
    if s.len() == 0 {
        seq![Seq::empty()]
    } else {
        wrap_state(s, width).0.push(wrap_state(s, width).1)
    }
}

/// Breaks the characters `text` into lines of at most `width` cells.
pub fn wrap_chars(text: &[char], width: usize) -> (r: Vec<Vec<char>>)
    ensures
        views(r@) == spec_wrap(text@, width as nat),
        text@.len() > 0 ==> concat_all(views(r@)) == text@ && is_greedy_wrap(
            views(r@),
            width as nat,
        ),
{
    if text.len() == 0 {
        let mut r: Vec<Vec<char>> = Vec::new();
        r.push(Vec::new());
        assert(views(r@) =~= seq![Seq::<char>::empty()]);
        return r;
    }
    let mut lines: Vec<Vec<char>> = Vec::new();
    let mut current: Vec<char> = Vec::new();
    let mut current_width: usize = 0;
    let mut i: usize = 0;
    while i < text.len()
        invariant
            i <= text@.len(),
            (views(lines@), current@) == wrap_state(text@.take(i as int), width as nat),
            concat_all(views(lines@)) + current@ == text@.take(i as int),
            current_width == spec_text_width(current@),
            current_width <= width || current@.len() == 1,
            i > 0 ==> current@.len() > 0,
            is_greedy_wrap(views(lines@), width as nat),
            lines@.len() > 0 ==> spec_text_width(views(lines@).last()) + char_width(current@[0])
                > width,
        decreases text@.len() - i,
    {
        let c = text[i];
        let w = display_width(c);
        let ghost ls0 = views(lines@);
        let ghost cur0 = current@;
        proof {
            assert(text@.take(i + 1).drop_last() =~= text@.take(i as int));
        }
        if current.len() > 0 && (current_width > width || w > width - current_width) {
            proof {
                lemma_concat_push(ls0, cur0);
                crate::text::lemma_views_push(lines@, current);
            }
            lines.push(current);
            current = Vec::new();
            current_width = 0;
            proof {
                let ls = views(lines@);
                assert(ls == ls0.push(cur0));
                assert forall|k: int| 0 <= k < ls.len() implies #[trigger] ls[k].len() > 0 by {
                    if k < ls0.len() {
                        assert(ls[k] == ls0[k]);
                    }
                }
                assert forall|k: int| 0 <= k < ls.len() implies line_fits(
                    #[trigger] ls[k],
                    width as nat,
                ) by {
                    if k < ls0.len() {
                        assert(ls[k] == ls0[k]);
                    }
                }
                assert forall|k: int|
                    0 <= k < ls.len() - 1 implies spec_text_width(#[trigger] ls[k]) + char_width(
                    ls[k + 1][0],
                ) > width by {
                    assert(ls[k] == ls0[k]);
                    if k < ls0.len() - 1 {
                        assert(ls[k + 1] == ls0[k + 1]);
                    }
                }
            }
        }
        proof {
            lemma_text_width_push(current@, c);
        }
        let ghost before = current@;
        current.push(c);
        current_width = current_width + w;
        proof {
            assert(text@.take(i + 1) =~= text@.take(i as int).push(c));
            assert(concat_all(views(lines@)) + current@ =~= (concat_all(views(lines@))
                + before).push(c));
            if lines@.len() > 0 {
                assert(current@[0] == (if before.len() == 0 {
                    c
                } else {
                    before[0]
                }));
            }
            if before.len() == 0 {
                assert(current@ =~= seq![c]);
            }
        }
        i = i + 1;
    }
    let ghost ls0 = views(lines@);
    proof {
        lemma_concat_push(ls0, current@);
        crate::text::lemma_views_push(lines@, current);
        assert(text@.take(text@.len() as int) =~= text@);
    }
    let ghost cur0 = current@;
    lines.push(current);
    proof {
        let ls = views(lines@);
        assert(ls == ls0.push(cur0));
        assert forall|k: int| 0 <= k < ls.len() implies #[trigger] ls[k].len() > 0 by {
            if k < ls0.len() {
                assert(ls[k] == ls0[k]);
            }
        }
        assert forall|k: int| 0 <= k < ls.len() implies line_fits(#[trigger] ls[k], width as nat) by {
            if k < ls0.len() {
                assert(ls[k] == ls0[k]);
            }
        }
        assert forall|k: int|
            0 <= k < ls.len() - 1 implies spec_text_width(#[trigger] ls[k]) + char_width(
            ls[k + 1][0],
        ) > width by {
            assert(ls[k] == ls0[k]);
            if k < ls0.len() - 1 {
                assert(ls[k + 1] == ls0[k + 1]);
            }
        }
    }
    lines
}

/// Strings made of the given character sequences.
pub fn strings_from(lines: &Vec<Vec<char>>) -> (r: Vec<String>)
    ensures
        r@.map_values(|s: String| s@) == views(lines@),
{
    let mut r: Vec<String> = Vec::new();
    let mut k: usize = 0;
    while k < lines.len()
        invariant
            k <= lines@.len(),
            r@.map_values(|s: String| s@) == views(lines@).take(k as int),
        decreases lines@.len() - k,
    {
        let s = string_from_chars(&lines[k]);
        let ghost r0 = r@;
        r.push(s);
        assert(r@.map_values(|s: String| s@) =~= r0.map_values(|s: String| s@).push(
            lines@[k as int]@,
        ));
        assert(views(lines@).take(k + 1) =~= views(lines@).take(k as int).push(lines@[k as int]@));
        k = k + 1;
    }
    assert(views(lines@).take(lines@.len() as int) =~= views(lines@));
    r
}

/// Breaks `text` into lines of at most `width` cells, greedily: a line takes
/// characters while they fit, and a character wider than `width` on its own
/// gets a line of its own. An empty text gives one empty line.
pub fn wrap_text_to_width(text: &str, width: usize) -> (r: Vec<String>)
    ensures
        r@.map_values(|s: String| s@) == spec_wrap(text@, width as nat),
        text@.len() > 0 ==> {
            let ls = r@.map_values(|s: String| s@);
            &&& concat_all(ls) == text@
            &&& is_greedy_wrap(ls, width as nat)
        },
{
    let chars = chars_of(text);
    let lines = wrap_chars(&chars, width);
    strings_from(&lines)
}

/// `n` spaces.
pub open spec fn spaces(n: nat) -> Seq<char> {
    Seq::new(n, |i: int| ' ')
}

/// `text` padded with spaces on the right to `target` cells; a text that is
/// already that wide stays as it is.
pub open spec fn spec_pad(text: Seq<char>, target: nat) -> Seq<char> {
    if spec_text_width(text) >= target {
        text
    } else {
        text + spaces((target - spec_text_width(text)) as nat)
    }
}

/// `text` padded with spaces on the right to `target_width` cells.
pub fn pad_to_display_width(text: &str, target_width: usize) -> (r: String)
    ensures
        r@ == spec_pad(text@, target_width as nat),
{
    let chars = chars_of(text);
    string_from_chars(&pad_chars(&chars, target_width))
}

/// Lemma: a prefix is no wider than the whole string.
pub proof fn lemma_text_width_prefix(s: Seq<char>, k: int)
    requires
        0 <= k <= s.len(),
    ensures
        spec_text_width(s.take(k)) <= spec_text_width(s),
    decreases s.len() - k,
{
    if k < s.len() {
        lemma_text_width_prefix(s, k + 1);
        lemma_text_width_push(s.take(k), s[k]);
        assert(s.take(k + 1) =~= s.take(k).push(s[k]));
    } else {
        assert(s.take(k) =~= s);
    }
}

/// The width of `text` when it is below `target` cells; `None` when the text
/// is at least that wide.
pub fn width_below(text: &[char], target: usize) -> (r: Option<usize>)
    ensures
        r matches Some(w) ==> w == spec_text_width(text@) && w < target,
        r is None ==> spec_text_width(text@) >= target,
{
    if target == 0 {
        return None;
    }
    let mut w: usize = 0;
    let mut i: usize = 0;
    while i < text.len()
        invariant
            i <= text@.len(),
            w == spec_text_width(text@.take(i as int)),
            w < target,
        decreases text@.len() - i,
    {
        let d = display_width(text[i]);
        proof {
            lemma_text_width_push(text@.take(i as int), text@[i as int]);
            assert(text@.take(i + 1) =~= text@.take(i as int).push(text@[i as int]));
        }
        if d >= target - w {
            proof {
                lemma_text_width_prefix(text@, i + 1);
            }
            return None;
        }
        w = w + d;
        i = i + 1;
    }
    assert(text@.take(text@.len() as int) =~= text@);
    Some(w)
}

/// The characters `text` padded with spaces on the right to `target_width`
/// cells.
pub fn pad_chars(text: &[char], target_width: usize) -> (r: Vec<char>)
    ensures
        r@ == spec_pad(text@, target_width as nat),
{
    let mut chars = crate::text::copy_chars(text);
    let display_len = match width_below(&chars, target_width) {
        Some(w) => w,
        None => {
            return chars;
        },
    };
    let remaining = target_width - display_len;
    let ghost base = chars@;
    let mut k: usize = 0;
    while k < remaining
        invariant
            k <= remaining,
            chars@ == base + spaces(k as nat),
        decreases remaining - k,
    {
        chars.push(' ');
        k = k + 1;
        assert(chars@ =~= base + spaces(k as nat));
    }
    chars
}

} // verus!
