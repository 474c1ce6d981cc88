use rlm::agent::{extract_answer, is_complete, parse_tool_calls};
#[test]
fn test_parse_tool_calls() {
    let text = "Let me read the file <tool:read_file>config.json</tool> and check.";
    let calls = parse_tool_calls(text);

    assert_eq!(calls.len(), 1);
    assert_eq!(calls[0].name, "read_file");
    assert_eq!(calls[0].args, "config.json");
}

#[test]
fn test_parse_multiple_tools() {
    let text = "<tool:read_file>a.txt</tool> then <tool:read_file>b.txt</tool>";
    let calls = parse_tool_calls(text);

    assert_eq!(calls.len(), 2);
}

#[test]
fn test_is_complete() {
    assert!(is_complete("Here's the answer <answer>42</answer><done>"));
    assert!(!is_complete("Still working..."));
}

#[test]
fn test_extract_answer() {
    let text = "Done! <answer>The result is 42</answer><done>";
    assert_eq!(extract_answer(text), Some("The result is 42".to_string()));
}
