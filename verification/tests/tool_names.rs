use codex_kit::tool_name::join_responses_tool_name;
use codex_kit::tool_name::split_responses_tool_name;
use codex_kit::tool_name::ToolName;

#[test]
fn split_responses_tool_name_is_lossy_for_aws_mcp_wire_name() {
    let wire = "mcp__aws_mcp__aws___search_documentation";
    let parsed = split_responses_tool_name(wire).expect("wire name contains `__`");
    assert_eq!(
        parsed,
        ToolName::namespaced("mcp__aws_mcp__aws_", "search_documentation"),
        "split_responses_tool_name is expected to be lossy for names with internal `__`; \
         the dispatcher must use ToolRegistry::resolve_wire_name for registered tools",
    );
    let registered = ToolName::namespaced("mcp__aws_mcp", "aws___search_documentation");
    assert_ne!(
        parsed, registered,
        "parser must disagree with the registered name for AWS-MCP"
    );
}

#[test]
fn join_then_split_roundtrips_simple_names() {
    let cases = [
        ToolName::namespaced("mcp__minimax", "web_search"),
        ToolName::namespaced("mcp__codex_apps__github", "add_issue"),
        ToolName::namespaced("mcp__playwright", "browser_navigate"),
    ];
    for tool_name in cases {
        let wire = join_responses_tool_name(&tool_name);
        let parsed = split_responses_tool_name(&wire)
            .unwrap_or_else(|| panic!("round-trip must succeed for {wire}"));
        assert_eq!(
            parsed, tool_name,
            "round-trip mismatch for {tool_name:?} via {wire}"
        );
    }
}

#[test]
fn join_then_split_is_lossy_when_name_contains_double_underscore() {
    let tool_name = ToolName::namespaced("mcp__aws_mcp", "aws___search_documentation");
    let wire = join_responses_tool_name(&tool_name);
    assert_eq!(wire, "mcp__aws_mcp__aws___search_documentation");
    let parsed = split_responses_tool_name(&wire).expect("wire name contains `__`");
    assert_ne!(
        parsed, tool_name,
        "this documents the lossy round-trip; the fix lives in ToolRegistry::resolve_wire_name",
    );
}

#[test]
fn names_that_start_with_an_underscore_are_read_otherwise() {
    let wire = join_responses_tool_name(&ToolName::namespaced("a", "_x"));
    assert_eq!(wire, "a___x");
    assert_eq!(
        split_responses_tool_name(&wire),
        Some(ToolName::namespaced("a_", "x"))
    );
}

#[test]
fn edges_of_splitting() {
    assert_eq!(split_responses_tool_name(""), None);
    assert_eq!(split_responses_tool_name("_"), None);
    assert_eq!(split_responses_tool_name("a_b_c"), None);
    assert_eq!(
        split_responses_tool_name("__"),
        Some(ToolName::namespaced("", ""))
    );
    assert_eq!(
        split_responses_tool_name("\u{e9}__\u{4e2d}"),
        Some(ToolName::namespaced("\u{e9}", "\u{4e2d}"))
    );
}
