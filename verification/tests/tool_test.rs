use rust_agent_platform::tools::{BashTool, EditTool, GrepTool, ToolResult, WriteTool};

#[test]
fn test_bash_tool_creation() {
    let tool = BashTool::new();
    assert_eq!(tool.name(), "bash");
}

#[test]
fn test_write_tool_creation() {
    let tool = WriteTool::new();
    assert_eq!(tool.name(), "write");
}

#[test]
fn test_edit_tool_creation() {
    let tool = EditTool::new();
    assert_eq!(tool.name(), "edit");
}

#[test]
fn test_grep_tool_creation() {
    let tool = GrepTool::new();
    assert_eq!(tool.name(), "grep");
}

#[test]
fn edit_replaces_every_occurrence() {
    let t = EditTool::new();
    assert_eq!(t.apply("a-b-a", "a", "x").unwrap(), "x-b-x");
    assert_eq!(t.apply("aaa", "aa", "b").unwrap(), "ba");
    assert_eq!(t.apply("abc", "", "-").unwrap(), "-a-b-c-");
    assert_eq!(t.apply("same", "same", "same").unwrap(), "same");
}

#[test]
fn edit_reports_missing_text() {
    let t = EditTool::new();
    let f = t.apply("hello", "zzz", "y").unwrap_err();
    assert!(!f.success);
    assert!(f.output.is_none());
    assert_eq!(f.error.unwrap(), "oldString 'zzz' not found in file");
}

#[test]
fn tool_reports() {
    let e = EditTool::new().written("/tmp/f");
    assert!(e.success);
    assert_eq!(e.output.unwrap(), "Edited /tmp/f");
    let w = WriteTool::new().written("a.txt");
    assert_eq!(w.output.unwrap(), "Written to a.txt");
    assert!(w.error.is_none());
    let f = ToolResult::failure("boom".to_string());
    assert!(!f.success);
    assert_eq!(f.error.unwrap(), "boom");
}

#[test]
fn bash_results() {
    let b = BashTool::new();
    let ok = b.finished(true, "out".to_string(), "err".to_string());
    assert!(ok.success);
    assert_eq!(ok.output.unwrap(), "out");
    assert!(ok.error.is_none());
    let bad = b.finished(false, "o".to_string(), "e".to_string());
    assert!(!bad.success);
    assert_eq!(bad.error.unwrap(), "e");
    assert_eq!(b.description(), "Execute shell commands");
}

#[test]
fn grep_numbers_matching_lines() {
    let g = GrepTool::new();
    let lines = vec![
        Some("alpha".to_string()),
        None,
        Some("beta alpha".to_string()),
        Some("gamma".to_string()),
    ];
    let r = g.search(&lines, "alpha");
    assert!(r.success);
    assert_eq!(r.output.unwrap(), "1: alpha\n3: beta alpha");
    let none = g.search(&lines, "zeta");
    assert_eq!(none.output.unwrap(), "");
}
