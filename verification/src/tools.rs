//! The built-in tools: what each one reports back to the agent. Running the
//! shell, reading and writing files belong to the caller, which hands the
//! outcome to the functions here.
use vstd::prelude::*;

use crate::numfmt::{decimal, spec_decimal};
use crate::text::{
    chars_of, concat_str, extend_chars, has_substring, join_chars, replace_all, spec_contains,
    spec_join, spec_replace, string_from_chars, views,
};

verus! {

/// What a tool call produced.
#[derive(Debug, Clone)]
pub struct ToolResult {
    pub success: bool,
    pub output: Option<String>,
    pub error: Option<String>,
}

/// A result's fields as text.
pub open spec fn result_view(r: ToolResult) -> (bool, Option<Seq<char>>, Option<Seq<char>>) {
    (
        r.success,
        match r.output {
            Some(o) => Some(o@),
            None => None,
        },
        match r.error {
            Some(e) => Some(e@),
            None => None,
        },
    )
}

impl ToolResult {
    /// A failure with `message`.
    pub fn failure(message: String) -> (r: Self)
        ensures
            !r.success,
            r.output is None,
            r.error == Some(message),
    {
        ToolResult { success: false, output: None, error: Some(message) }
    }

    /// A success with `output`.
    pub fn success(output: String) -> (r: Self)
        ensures
            r.success,
            r.output == Some(output),
            r.error is None,
    {
        ToolResult { success: true, output: Some(output), error: None }
    }
}

/// Runs a shell command.
pub struct BashTool;

impl BashTool {
    pub fn new() -> Self {
        BashTool
    }

    pub fn name(&self) -> (r: &'static str)
        ensures
            r@ == "bash"@,
    {
        "bash"
    }

    pub fn description(&self) -> (r: &'static str)
        ensures
            r@ == "Execute shell commands"@,
    {
        "Execute shell commands"
    }

    /// The result of a command that ran: its standard output in any case,
    /// and its standard error when it failed.
    pub fn finished(&self, succeeded: bool, stdout: String, stderr: String) -> (r: ToolResult)
        ensures
            r.success == succeeded,
            r.output == Some(stdout),
            r.error == (if succeeded {
                None
            } else {
                Some(stderr)
            }),
    {
        ToolResult {
            success: succeeded,
            output: Some(stdout),
            error: if succeeded {
                None
            } else {
                Some(stderr)
            },
        }
    }
}

/// Replaces text in a file.
pub struct EditTool;

/// What an edit does to a file's text: `None` when `old` does not occur in
/// it, else the text with every `old` replaced by `new`.
pub open spec fn edited_text(content: Seq<char>, old: Seq<char>, new: Seq<char>) -> Option<Seq<char>> {
    if spec_contains(content, old) {
        Some(spec_replace(content, old, new))
    } else {
        None
    }
}

/// The message for an `old` that does not occur.
pub open spec fn not_found_text(old: Seq<char>) -> Seq<char> {
    "oldString '"@ + old + "' not found in file"@
}

impl EditTool {
    pub fn new() -> Self {
        EditTool
    }

    pub fn name(&self) -> (r: &'static str)
        ensures
            r@ == "edit"@,
    {
        "edit"
    }

    pub fn description(&self) -> (r: &'static str)
        ensures
            r@ == "Edit file contents (replace oldString with newString)"@,
    {
        "Edit file contents (replace oldString with newString)"
    }

    /// The new text of a file, or the failure reported when `old_string`
    /// does not occur in it.
    pub fn apply(&self, content: &str, old_string: &str, new_string: &str) -> (r: Result<String, ToolResult>)
        ensures
            match edited_text(content@, old_string@, new_string@) {
                Some(t) => (r matches Ok(s) && s@ == t),
                None => (r matches Err(f) && result_view(f) == (
                    false,
                    None::<Seq<char>>,
                    Some(not_found_text(old_string@)),
                )),
            },
    {
        let c = chars_of(content);
        let o = chars_of(old_string);
        if !has_substring(&c, &o) {
            let mut m = chars_of("oldString '");
            extend_chars(&mut m, &o);
            let tail = chars_of("' not found in file");
            extend_chars(&mut m, &tail);
            return Err(ToolResult::failure(string_from_chars(&m)));
        }
        let n = chars_of(new_string);
        Ok(string_from_chars(&replace_all(&c, &o, &n)))
    }

    /// The report once the new text is written to `path`.
    pub fn written(&self, path: &str) -> (r: ToolResult)
        ensures
            result_view(r) == (true, Some("Edited "@ + path@), None::<Seq<char>>),
    {
        ToolResult::success(concat_str("Edited ", path))
    }
}

/// Searches a file for a pattern.
pub struct GrepTool;

/// The reported lines among the first lines of a file: each line that reads
/// and holds `pattern`, after its number from 1 and `": "`.
pub open spec fn grep_hits(lines: Seq<Option<Seq<char>>>, pattern: Seq<char>) -> Seq<Seq<char>>
    decreases lines.len(),
{
    if lines.len() == 0 {
        Seq::empty()
    } else {
        let rest = grep_hits(lines.drop_last(), pattern);
        match lines.last() {
            Some(l) => if spec_contains(l, pattern) {
                rest.push(spec_decimal(lines.len()) + ": "@ + l)
            } else {
                rest
            },
            None => rest,
        }
    }
}

pub open spec fn line_views(lines: Seq<Option<String>>) -> Seq<Option<Seq<char>>> {
    lines.map_values(|o: Option<String>| match o {
        Some(s) => Some(s@),
        None => None,
    })
}

impl GrepTool {
    pub fn new() -> Self {
        GrepTool
    }

    pub fn name(&self) -> (r: &'static str)
        ensures
            r@ == "grep"@,
    {
        "grep"
    }

    pub fn description(&self) -> (r: &'static str)
        ensures
            r@ == "Search for pattern in file"@,
    {
        "Search for pattern in file"
    }

    /// The report for the lines of a file (`None` for a line that could not
    /// be read): the matching lines, numbered, one per line.
    pub fn search(&self, lines: &Vec<Option<String>>, pattern: &str) -> (r: ToolResult)
        ensures
            result_view(r) == (
                true,
                Some(spec_join(grep_hits(line_views(lines@), pattern@), "\n"@)),
                None::<Seq<char>>,
            ),
    {
        let ghost lv = line_views(lines@);
        let p = chars_of(pattern);
        let mut hits: Vec<Vec<char>> = Vec::new();
        let mut i: usize = 0;
        while i < lines.len()
            invariant
                i <= lines@.len(),
                lv == line_views(lines@),
                p@ == pattern@,
                views(hits@) == grep_hits(lv.take(i as int), pattern@),
            decreases lines@.len() - i,
        {
            assert(lv.take(i as int + 1).drop_last() =~= lv.take(i as int));
            match &lines[i] {
                Some(l) => {
                    let lc = chars_of(l.as_str());
                    if has_substring(&lc, &p) {
                        let num = decimal((i + 1) as u64);
                        let mut h = chars_of(num.as_str());
                        let sep = chars_of(": ");
                        extend_chars(&mut h, &sep);
                        extend_chars(&mut h, &lc);
                        let ghost before = hits@;
                        hits.push(h);
                        assert(views(hits@) =~= views(before).push(h@));
                    }
                },
                None => {},
            }
            i = i + 1;
        }
        assert(lv.take(lines@.len() as int) =~= lv);
        let nl = chars_of("\n");
        ToolResult::success(string_from_chars(&join_chars(&hits, &nl)))
    }
}

/// Writes a file.
pub struct WriteTool;

impl WriteTool {
    pub fn new() -> Self {
        WriteTool
    }

    pub fn name(&self) -> (r: &'static str)
        ensures
            r@ == "write"@,
    {
        "write"
    }

    pub fn description(&self) -> (r: &'static str)
        ensures
            r@ == "Write content to a file"@,
    {
        "Write content to a file"
    }

    /// The report once the content is written to `path`.
    pub fn written(&self, path: &str) -> (r: ToolResult)
        ensures
            result_view(r) == (true, Some("Written to "@ + path@), None::<Seq<char>>),
    {
        ToolResult::success(concat_str("Written to ", path))
    }
}

} // verus!
