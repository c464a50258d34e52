//! Server-sent event streams of the chat providers: the `data:` lines of each
//! network chunk, the JSON payload they carry, and the text chunks handed on
//! to the caller. DeepSeek's reasoning output is marked off from the answer.
use vstd::prelude::*;

use crate::text::{
    chars_eq, chars_of, has_prefix, lines_of, slice_chars, spec_lines, spec_trim, starts_with,
    string_from_chars, trim_chars, views,
};

verus! {

/// The fields of a stream payload that the providers read.
#[derive(Debug, Clone)]
pub struct StreamPayload {
    /// `content[0].text`, as Anthropic sends it.
    pub content_text: Option<String>,
    /// `message.content`, as Ollama sends it.
    pub message_content: Option<String>,
    /// `choices[0].delta.reasoning_content`, DeepSeek's reasoning.
    pub delta_reasoning: Option<String>,
    /// `choices[0].delta.content`, DeepSeek's answer.
    pub delta_content: Option<String>,
    /// `choices[0].delta.tool_calls[i].function.name` for each tool call.
    pub delta_tool_names: Option<Vec<Option<String>>>,
}

/// The payload fields as text.
pub struct PayloadView {
    pub content_text: Option<Seq<char>>,
    pub message_content: Option<Seq<char>>,
    pub delta_reasoning: Option<Seq<char>>,
    pub delta_content: Option<Seq<char>>,
    pub delta_tool_names: Option<Seq<Option<Seq<char>>>>,
}

pub open spec fn opt_text(o: Option<String>) -> Option<Seq<char>> {
    match o {
        Some(s) => Some(s@),
        None => None,
    }
}

pub open spec fn payload_view(p: StreamPayload) -> PayloadView {
    PayloadView {
        content_text: opt_text(p.content_text),
        message_content: opt_text(p.message_content),
        delta_reasoning: opt_text(p.delta_reasoning),
        delta_content: opt_text(p.delta_content),
        delta_tool_names: match p.delta_tool_names {
            Some(v) => Some(v@.map_values(|o: Option<String>| opt_text(o))),
            None => None,
        },
    }
}

/// What `serde_json` reads out of a payload text: `None` when the text is not
/// JSON, else the fields above.
pub uninterp spec fn spec_stream_payload(payload: Seq<char>) -> Option<PayloadView>;

/// `serde_json::from_str` of a payload, with the fields the providers read;
/// `None` when the payload is not JSON. A path that leads nowhere, or to a
/// value that is not a string, gives `None` for that field.
#[verifier::external_body]
fn parse_stream_payload(payload: &str) -> (r: Option<StreamPayload>)
    ensures
        match r {
            Some(p) => spec_stream_payload(payload@) == Some(payload_view(p)),
            None => spec_stream_payload(payload@) is None,
        },
{
    let v: serde_json::Value = serde_json::from_str(payload).ok()?;
    let d = &v["choices"][0]["delta"];
    Some(StreamPayload {
        content_text: v["content"][0]["text"].as_str().map(String::from),
        message_content: v["message"]["content"].as_str().map(String::from),
        delta_reasoning: d["reasoning_content"].as_str().map(String::from),
        delta_content: d["content"].as_str().map(String::from),
        delta_tool_names: d["tool_calls"].as_array().map(
            |a| a.iter().map(|t| t["function"]["name"].as_str().map(String::from)).collect(),
        ),
    })
}

/// Which provider's stream is read, and how its chunks are marked.
#[derive(Debug, Clone, Copy, PartialEq, Eq, Structural)]
pub enum StreamDialect {
    /// `content[0].text` of each payload.
    Anthropic,
    /// `message.content` of each payload.
    Ollama,
    /// DeepSeek's chat stream: reasoning opened by `[thinking] `, then a blank
    /// line before the answer.
    DeepSeekChat,
    /// DeepSeek's tool stream: reasoning, answer and tool names each wrapped
    /// in `<thinking>`, `<content>` and `<tool>` tags.
    DeepSeekTools,
}

// ---------------------------------------------------------------------------
// Specification
// ---------------------------------------------------------------------------

/// `s.trim_start_matches(p)`: every leading copy of `p` removed.
pub open spec fn strip_prefixes(s: Seq<char>, p: Seq<char>) -> Seq<char>
    decreases s.len(),
{
    if p.len() > 0 && starts_with(s, p) {
        strip_prefixes(s.skip(p.len() as int), p)
    } else {
        s
    }
}

/// A nonempty text.
pub open spec fn nonempty(o: Option<Seq<char>>) -> bool {
    o matches Some(t) && t.len() > 0
}

/// The chunks for the reasoning part of a DeepSeek payload.
pub open spec fn reasoning_chunks(open: Seq<char>, thinking: bool, r: Option<Seq<char>>) -> (bool, Seq<Seq<char>>) {
    if nonempty(r) {
        if !thinking {
            (true, seq![open, r.unwrap()])
        } else {
            (true, seq![r.unwrap()])
        }
    } else {
        (thinking, Seq::empty())
    }
}

/// The chunks of a tool stream for the tool names from index `i` on.
pub open spec fn tool_chunks(thinking: bool, names: Seq<Option<Seq<char>>>, i: int) -> (bool, Seq<Seq<char>>)
    decreases names.len() - i,
{
    if i < 0 || i >= names.len() {
        (thinking, Seq::empty())
    } else if nonempty(names[i]) {
        let open = if thinking {
            "\n</thinking>\n<tool>\n"@
        } else {
            "<tool>\n"@
        };
        let rest = tool_chunks(false, names, i + 1);
        (rest.0, seq![open, names[i].unwrap(), "\n</tool>\n"@] + rest.1)
    } else {
        tool_chunks(thinking, names, i + 1)
    }
}

/// The chunks that one payload yields, and whether reasoning is open after it.
pub open spec fn payload_chunks(d: StreamDialect, thinking: bool, p: PayloadView) -> (bool, Seq<Seq<char>>) {
    match d {
        StreamDialect::Anthropic => (
            thinking,
            match p.content_text {
                Some(c) => seq![c],
                None => Seq::empty(),
            },
        ),
        StreamDialect::Ollama => (
            thinking,
            match p.message_content {
                Some(c) => seq![c],
                None => Seq::empty(),
            },
        ),
        StreamDialect::DeepSeekChat => {
            let r = reasoning_chunks("[thinking] "@, thinking, p.delta_reasoning);
            if nonempty(p.delta_content) {
                let sep = if r.0 {
                    seq!["\n\n"@]
                } else {
                    Seq::empty()
                };
                (false, r.1 + sep + seq![p.delta_content.unwrap()])
            } else {
                r
            }
        },
        StreamDialect::DeepSeekTools => {
            let r = reasoning_chunks("<thinking>\n"@, thinking, p.delta_reasoning);
            let c = if nonempty(p.delta_content) {
                let open = if r.0 {
                    "\n</thinking>\n<content>\n"@
                } else {
                    "<content>\n"@
                };
                (false, r.1 + seq![open, p.delta_content.unwrap(), "\n</content>\n"@])
            } else {
                r
            };
            match p.delta_tool_names {
                Some(names) => {
                    let t = tool_chunks(c.0, names, 0);
                    (t.0, c.1 + t.1)
                },
                None => c,
            }
        },
    }
}

/// What one line of a chunk does: whether it ends the stream, whether
/// reasoning is open after it, and the chunks it yields. Only a trimmed line
/// that starts with `data:` counts; its payload is the rest with every
/// leading `data:` dropped, trimmed. `[DONE]` ends the stream.
pub open spec fn line_step(d: StreamDialect, thinking: bool, line: Seq<char>) -> (bool, bool, Seq<Seq<char>>) {
    let t = spec_trim(line);
    if t.len() != 0 && starts_with(t, "data:"@) {
        let data = spec_trim(strip_prefixes(t, "data:"@));
        if data == "[DONE]"@ {
            (true, thinking, Seq::empty())
        } else {
            match spec_stream_payload(data) {
                Some(p) => {
                    let r = payload_chunks(d, thinking, p);
                    (false, r.0, r.1)
                },
                None => (false, thinking, Seq::empty()),
            }
        }
    } else {
        (false, thinking, Seq::empty())
    }
}

/// The lines from index `i` on: whether they end the stream, whether
/// reasoning is open after them, and the chunks they yield. Lines after
/// `[DONE]` are not read.
pub open spec fn lines_step(d: StreamDialect, thinking: bool, ls: Seq<Seq<char>>, i: int) -> (bool, bool, Seq<Seq<char>>)
    decreases ls.len() - i,
{
    if i < 0 || i >= ls.len() {
        (false, thinking, Seq::empty())
    } else {
        let s = line_step(d, thinking, ls[i]);
        if s.0 {
            s
        } else {
            let rest = lines_step(d, s.1, ls, i + 1);
            (rest.0, rest.1, s.2 + rest.2)
        }
    }
}

/// What a network chunk does to a decoder that is still open.
pub open spec fn chunk_step(d: StreamDialect, thinking: bool, text: Seq<char>) -> (bool, bool, Seq<Seq<char>>) {
    lines_step(d, thinking, spec_lines(text), 0)
}

// ---------------------------------------------------------------------------
// Implementation
// ---------------------------------------------------------------------------

/// `s.trim_start_matches(p)`.
fn strip_prefixes_of(s: &[char], p: &[char]) -> (r: Vec<char>)
    ensures
        r@ == strip_prefixes(s@, p@),
{
    let mut i: usize = 0;
    if p.len() == 0 {
        return slice_chars(s, 0, s.len());
    }
    assert(s@.skip(0) =~= s@);
    loop
        invariant
            i <= s@.len(),
            p@.len() > 0,
            strip_prefixes(s@.skip(i as int), p@) == strip_prefixes(s@, p@),
        decreases s@.len() - i,
    {
        let rest = slice_chars(s, i, s.len());
        assert(rest@ =~= s@.skip(i as int));
        if has_prefix(&rest, p) {
            assert(s@.skip(i as int).skip(p@.len() as int) =~= s@.skip(i + p@.len()));
            i = i + p.len();
        } else {
            return rest;
        }
    }
}

/// Adds `t` to the chunks.
fn emit(out: &mut Vec<String>, t: &str)
    ensures
        final(out)@.map_values(|s: String| s@) == old(out)@.map_values(|s: String| s@).push(t@),
{
    let ghost o = old(out)@;
    out.push(String::from_str(t));
    assert(out@.map_values(|s: String| s@) =~= o.map_values(|s: String| s@).push(t@));
}

/// Adds an owned `t` to the chunks.
fn emit_owned(out: &mut Vec<String>, t: String)
    ensures
        final(out)@.map_values(|s: String| s@) == old(out)@.map_values(|s: String| s@).push(t@),
{
    let ghost o = old(out)@;
    let ghost tv = t@;
    out.push(t);
    assert(out@.map_values(|s: String| s@) =~= o.map_values(|s: String| s@).push(tv));
}

pub open spec fn texts(v: Seq<String>) -> Seq<Seq<char>> {
    v.map_values(|s: String| s@)
}

fn is_nonempty(o: &Option<String>) -> (r: bool)
    ensures
        r == nonempty(opt_text(*o)),
{
    match o {
        Some(t) => !t.as_str().is_empty(),
        None => false,
    }
}

/// The reasoning part of a DeepSeek payload, appended to `out`; returns
/// whether reasoning is open afterwards.
fn emit_reasoning(open: &str, thinking: bool, r: Option<String>, out: &mut Vec<String>) -> (th: bool)
    ensures
        (th, texts(final(out)@)) == ({
            let c = reasoning_chunks(open@, thinking, opt_text(r));
            (c.0, texts(old(out)@) + c.1)
        }),
{
    let ghost o = texts(out@);
    if is_nonempty(&r) {
        if !thinking {
            emit(out, open);
        }
        emit_owned(out, r.unwrap());
        assert(texts(out@) =~= o + reasoning_chunks(open@, thinking, opt_text(r)).1);
        true
    } else {
        assert(texts(out@) =~= o + Seq::<Seq<char>>::empty());
        thinking
    }
}

/// The tagged answer of a DeepSeek tool payload, appended to `out`.
fn emit_tagged_content(thinking: bool, c: Option<String>, out: &mut Vec<String>) -> (th: bool)
    ensures
        nonempty(opt_text(c)) ==> th == false && texts(final(out)@) == texts(old(out)@) + seq![
            if thinking {
                "\n</thinking>\n<content>\n"@
            } else {
                "<content>\n"@
            },
            opt_text(c).unwrap(),
            "\n</content>\n"@,
        ],
        !nonempty(opt_text(c)) ==> th == thinking && texts(final(out)@) == texts(old(out)@),
{
    let ghost o = texts(out@);
    if is_nonempty(&c) {
        if thinking {
            emit(out, "\n</thinking>\n<content>\n");
        } else {
            emit(out, "<content>\n");
        }
        emit_owned(out, c.unwrap());
        emit(out, "\n</content>\n");
        false
    } else {
        thinking
    }
}

/// The tool names of a DeepSeek tool payload, appended to `out`.
fn emit_tool_names(thinking: bool, names: Vec<Option<String>>, out: &mut Vec<String>) -> (th: bool)
    ensures
        (th, texts(final(out)@)) == ({
            let t = tool_chunks(thinking, names@.map_values(|o: Option<String>| opt_text(o)), 0);
            (t.0, texts(old(out)@) + t.1)
        }),
{
    let ghost nv = names@.map_values(|o: Option<String>| opt_text(o));
    let ghost out_c = texts(out@);
    let mut th = thinking;
    let mut i: usize = 0;
    while i < names.len()
        invariant
            i <= names@.len(),
            nv == names@.map_values(|o: Option<String>| opt_text(o)),
            tool_chunks(thinking, nv, 0) == ({
                let t = tool_chunks(th, nv, i as int);
                (t.0, texts(out@).skip(out_c.len() as int) + t.1)
            }),
            out_c.len() <= texts(out@).len(),
            texts(out@).take(out_c.len() as int) == out_c,
        decreases names@.len() - i,
    {
        let ghost before = texts(out@);
        let ghost th0 = th;
        if is_nonempty(&names[i]) {
            if th {
                emit(out, "\n</thinking>\n<tool>\n");
                th = false;
            } else {
                emit(out, "<tool>\n");
            }
            let name = names[i].clone().unwrap();
            emit_owned(out, name);
            emit(out, "\n</tool>\n");
            assert(texts(out@).skip(out_c.len() as int) =~= before.skip(out_c.len() as int)
                + seq![
                if th0 {
                    "\n</thinking>\n<tool>\n"@
                } else {
                    "<tool>\n"@
                },
                nv[i as int].unwrap(),
                "\n</tool>\n"@,
            ]);
        }
        assert(texts(out@).take(out_c.len() as int) =~= out_c);
        i = i + 1;
    }
    assert(texts(out@) =~= out_c + texts(out@).skip(out_c.len() as int));
    assert(tool_chunks(th, nv, i as int).1 =~= Seq::<Seq<char>>::empty());
    assert(texts(out@).skip(out_c.len() as int) + Seq::<Seq<char>>::empty() =~= texts(out@).skip(out_c.len() as int));
    th
}

/// The chunks of one payload, appended to `out`; returns whether reasoning is
/// open afterwards.
fn emit_payload(d: StreamDialect, thinking: bool, p: StreamPayload, out: &mut Vec<String>) -> (th: bool)
    ensures
        (th, texts(final(out)@)) == ({
            let r = payload_chunks(d, thinking, payload_view(p));
            (r.0, texts(old(out)@) + r.1)
        }),
{
    let ghost o = texts(out@);
    let ghost pv = payload_view(p);
    match d {
        StreamDialect::Anthropic => {
            if let Some(c) = p.content_text {
                emit_owned(out, c);
            }
            assert(texts(out@) =~= o + payload_chunks(d, thinking, pv).1);
            thinking
        },
        StreamDialect::Ollama => {
            if let Some(c) = p.message_content {
                emit_owned(out, c);
            }
            assert(texts(out@) =~= o + payload_chunks(d, thinking, pv).1);
            thinking
        },
        StreamDialect::DeepSeekChat => {
            let mut th = emit_reasoning("[thinking] ", thinking, p.delta_reasoning, out);
            let ghost o1 = texts(out@);
            if is_nonempty(&p.delta_content) {
                if th {
                    emit(out, "\n\n");
                }
                th = false;
                emit_owned(out, p.delta_content.unwrap());
            }
            assert(texts(out@) =~= o + payload_chunks(d, thinking, pv).1);
            th
        },
        StreamDialect::DeepSeekTools => {
            let th = emit_reasoning("<thinking>\n", thinking, p.delta_reasoning, out);
            let th = emit_tagged_content(th, p.delta_content, out);
            let ghost o2 = texts(out@);
            match p.delta_tool_names {
                Some(names) => {
                    let th = emit_tool_names(th, names, out);
                    assert(texts(out@) =~= o + payload_chunks(d, thinking, pv).1);
                    th
                },
                None => {
                    assert(texts(out@) =~= o + payload_chunks(d, thinking, pv).1);
                    th
                },
            }
        },
    }
}

/// Reads the `data:` lines of network chunks and hands on the text they
/// carry, until the provider sends `[DONE]`.
pub struct StreamDecoder {
    pub dialect: StreamDialect,
    /// DeepSeek reasoning is being streamed.
    pub is_thinking: bool,
    /// `[DONE]` was seen; later chunks are ignored.
    pub done: bool,
}

impl StreamDecoder {
    pub fn new(dialect: StreamDialect) -> (r: Self)
        ensures
            r.dialect == dialect,
            !r.is_thinking,
            !r.done,
    {
        StreamDecoder { dialect, is_thinking: false, done: false }
    }

    /// The text chunks of one network chunk, in order, as `chunk_step`
    /// describes; nothing once the stream is done.
    pub fn feed(&mut self, text: &str) -> (r: Vec<String>)
        ensures
            final(self).dialect == old(self).dialect,
            old(self).done ==> texts(r@).len() == 0 && *final(self) == *old(self),
            !old(self).done ==> ({
                let s = chunk_step(old(self).dialect, old(self).is_thinking, text@);
                &&& final(self).done == s.0
                &&& final(self).is_thinking == s.1
                &&& texts(r@) == s.2
            }),
    {
        let mut out: Vec<String> = Vec::new();
        if self.done {
            assert(texts(out@) =~= Seq::<Seq<char>>::empty());
            return out;
        }
        let chars = chars_of(text);
        let ls = lines_of(&chars);
        let ghost lv = views(ls@);
        let ghost th0 = self.is_thinking;
        let data_key = chars_of("data:");
        let done_key = chars_of("[DONE]");
        let mut i: usize = 0;
        while i < ls.len()
            invariant
                i <= ls@.len(),
                lv == views(ls@),
                lv == spec_lines(text@),
                data_key@ == "data:"@,
                done_key@ == "[DONE]"@,
                !self.done,
                !old(self).done,
                th0 == old(self).is_thinking,
                self.dialect == old(self).dialect,
                lines_step(self.dialect, th0, lv, 0) == ({
                    let rest = lines_step(self.dialect, self.is_thinking, lv, i as int);
                    (rest.0, rest.1, texts(out@) + rest.2)
                }),
            decreases ls@.len() - i,
        {
            let ghost o = texts(out@);
            let ghost th = self.is_thinking;
            let t = trim_chars(&ls[i]);
            if t.len() != 0 && has_prefix(&t, &data_key) {
                let stripped = strip_prefixes_of(&t, &data_key);
                let data = trim_chars(&stripped);
                if chars_eq(&data, &done_key) {
                    proof {
                        assert(lv[i as int] == ls@[i as int]@);
                        assert(line_step(self.dialect, th, lv[i as int]) == (true, th, Seq::<Seq<char>>::empty()));
                        assert(lines_step(self.dialect, th, lv, i as int) == (true, th, Seq::<Seq<char>>::empty()));
                        assert(texts(out@) + Seq::<Seq<char>>::empty() =~= texts(out@));
                    }
                    self.done = true;
                    assert(texts(out@) =~= o + Seq::<Seq<char>>::empty());
                    return out;
                }
                let payload_text = string_from_chars(&data);
                match parse_stream_payload(payload_text.as_str()) {
                    Some(p) => {
                        self.is_thinking = emit_payload(self.dialect, self.is_thinking, p, &mut out);
                    },
                    None => {},
                }
            }
            assert(o + (texts(out@).skip(o.len() as int) + lines_step(
                self.dialect,
                self.is_thinking,
                lv,
                i + 1,
            ).2) =~= texts(out@) + lines_step(self.dialect, self.is_thinking, lv, i + 1).2);
            assert(texts(out@) =~= o + line_step(self.dialect, th, lv[i as int]).2);
            i = i + 1;
        }
        assert(texts(out@) + Seq::<Seq<char>>::empty() =~= texts(out@));
        out
    }
}

} // verus!
