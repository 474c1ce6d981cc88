use rlm::parsing::{extract_answer, extract_code_blocks, extract_final_answer};
use rlm::Snapshot;
#[test]
fn test_extract_code_blocks_repl() {
    let text = r#"
Here's some code:

```repl
x = 1 + 1
print(x)
```

And more text.
"#;
    let blocks = extract_code_blocks(text);
    assert_eq!(blocks.len(), 1);
    assert_eq!(blocks[0], "x = 1 + 1\nprint(x)\n");
}

#[test]
fn test_extract_code_blocks_python() {
    let text = r#"
```python
def foo():
return 42
```
"#;
    let blocks = extract_code_blocks(text);
    assert_eq!(blocks.len(), 1);
    assert!(blocks[0].contains("def foo():"));
}

#[test]
fn test_extract_multiple_code_blocks() {
    let text = r#"
First block:
```repl
a = 1
```

Second block:
```python
b = 2
```
"#;
    let blocks = extract_code_blocks(text);
    assert_eq!(blocks.len(), 2);
    assert!(blocks[0].contains("a = 1"));
    assert!(blocks[1].contains("b = 2"));
}

#[test]
fn test_extract_code_blocks_none() {
    let text = "No code blocks here, just plain text.";
    let blocks = extract_code_blocks(text);
    assert!(blocks.is_empty());
}

#[test]
fn test_extract_code_blocks_other_language() {
    let text = r#"
```javascript
console.log("hello");
```
"#;
    let blocks = extract_code_blocks(text);
    assert!(blocks.is_empty()); // Only repl/python
}

#[test]
fn test_extract_final_answer_simple() {
    let text = "The answer is FINAL(42)";
    assert_eq!(extract_final_answer(text), Some("42".to_string()));
}

#[test]
fn test_extract_final_answer_with_text() {
    let text = "After calculation, FINAL(hello world) is the result.";
    assert_eq!(extract_final_answer(text), Some("hello world".to_string()));
}

#[test]
fn test_extract_final_answer_multiline() {
    let text = r#"FINAL(line 1
line 2
line 3)"#;
    let answer = extract_final_answer(text).unwrap();
    assert!(answer.contains("line 1"));
    assert!(answer.contains("line 2"));
    assert!(answer.contains("line 3"));
}

#[test]
fn test_extract_final_answer_none() {
    let text = "No final answer here";
    assert_eq!(extract_final_answer(text), None);
}

#[test]
fn test_extract_final_answer_nested_parens() {
    let text = "FINAL(The answer is foo(x) + bar(y, z))";
    assert_eq!(
        extract_final_answer(text),
        Some("The answer is foo(x) + bar(y, z)".to_string())
    );
}

#[test]
fn test_extract_final_answer_deeply_nested() {
    let text = "FINAL(outer(inner(deep(value))))";
    assert_eq!(
        extract_final_answer(text),
        Some("outer(inner(deep(value)))".to_string())
    );
}

#[test]
fn test_extract_final_resolves_variable() {
    // FINAL(var) looks up variable in locals
    let text = "The result is FINAL(result)";
    let mut locals = Snapshot::new();
    locals.insert("result".to_string(), "computed_value".to_string());

    assert_eq!(
        extract_answer(text, &locals),
        Some("computed_value".to_string())
    );
}

#[test]
fn test_extract_final_variable_not_found_returns_name() {
    // If variable not in locals, return the identifier as-is
    let text = "FINAL(missing)";
    let locals = Snapshot::new();
    assert_eq!(extract_answer(text, &locals), Some("missing".to_string()));
}

#[test]
fn test_extract_final_literal_string() {
    // FINAL("literal") strips quotes
    let text = r#"FINAL("hello world")"#;
    let locals = Snapshot::new();
    assert_eq!(extract_answer(text, &locals), Some("hello world".to_string()));
}

#[test]
fn test_extract_final_literal_with_newlines() {
    // FINAL("foo\nbar") unescapes to actual newlines
    let text = r#"FINAL("line1\nline2\nline3")"#;
    let locals = Snapshot::new();
    assert_eq!(extract_answer(text, &locals), Some("line1\nline2\nline3".to_string()));
}

#[test]
fn test_extract_final_rejects_prose_output() {
    // This was a real failure case - model said "FINAL(Output from executing code)"
    let text = "Here's the FINAL(Output from executing code) result.";
    assert_eq!(extract_final_answer(text), None);
}

#[test]
fn test_extract_final_rejects_prose_result_of() {
    let text = "FINAL(the result of the calculation)";
    assert_eq!(extract_final_answer(text), None);
}

#[test]
fn test_extract_final_rejects_prose_demonstration() {
    let text = "FINAL(This is a demonstration of the system)";
    assert_eq!(extract_final_answer(text), None);
}

#[test]
fn test_extract_final_accepts_valid_at_line_start() {
    let text = "FINAL(42)";
    assert_eq!(extract_final_answer(text), Some("42".to_string()));
}

#[test]
fn test_extract_final_accepts_after_newline() {
    let text = "Some text\nFINAL(the answer)";
    assert_eq!(extract_final_answer(text), Some("the answer".to_string()));
}

#[test]
fn test_extract_final_accepts_after_colon() {
    let text = "Answer: FINAL(123)";
    assert_eq!(extract_final_answer(text), Some("123".to_string()));
}

#[test]
fn test_extract_final_accepts_numbers_list() {
    let text = "FINAL(1, 1, 2, 3, 5, 8, 13, 21)";
    assert_eq!(extract_final_answer(text), Some("1, 1, 2, 3, 5, 8, 13, 21".to_string()));
}

#[test]
fn test_extract_final_skips_prose_finds_valid() {
    // First FINAL is prose, second is valid
    let text = "FINAL(Output from executing code)\nFINAL(42)";
    assert_eq!(extract_final_answer(text), Some("42".to_string()));
}

#[test]
fn test_extract_final_skips_smiley_emoticon() {
    // Smiley face :) should not close FINAL
    let text = "FINAL(answer :) here)";
    assert_eq!(extract_final_answer(text), Some("answer :) here".to_string()));
}

#[test]
fn test_extract_final_skips_wink_emoticon() {
    // Wink ;) should not close FINAL
    let text = "FINAL(great job ;) done)";
    assert_eq!(extract_final_answer(text), Some("great job ;) done".to_string()));
}

#[test]
fn test_extract_final_normal_parens_still_work() {
    // Normal parens should still close at first depth=0
    let text = "FINAL(42) is the answer";
    assert_eq!(extract_final_answer(text), Some("42".to_string()));
}

#[test]
fn test_extract_final_nested_with_emoticon() {
    // Nested parens followed by emoticon
    let text = "FINAL(foo(bar) and :) end)";
    assert_eq!(extract_final_answer(text), Some("foo(bar) and :) end".to_string()));
}

#[test]
fn test_extract_final_quoted_string_with_unbalanced_parens() {
    // Quoted string content with unbalanced parens (like ASCII art)
    let text = r#"FINAL(
"Here's some art with unbalanced parens:
.(.
(..)
Pretty cool!"
)"#;
    let answer = extract_final_answer(text).unwrap();
    assert!(answer.contains("unbalanced parens"));
    assert!(answer.contains(".(."));
}

#[test]
fn test_extract_final_multiline_quoted_content() {
    // Real-world case: multi-line FINAL with quoted string
    let text = r#"FINAL(
"The answer is (1+2) = 3.
Here's more: ((.)) art"
)"#;
    let answer = extract_final_answer(text).unwrap();
    assert!(answer.contains("The answer is"));
    assert!(answer.contains("(1+2)"));
}
