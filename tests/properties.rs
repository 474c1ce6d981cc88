use rlm::agent::{
    build_agent_context, format_tool_report, read_agent_reply, split_write_args, AgentTurn, EchoTool,
    ShellTool, Tool, ToolRegistry, ToolResult,
};
use rlm::chat::{build_context_payload, ChatMessage as ChatTurn};
use rlm::parsing::{
    extract_answer, extract_final_answer, extract_final_answer_from_stdout, has_code_patterns,
    is_identifier, looks_like_prose, unescape_string_literal,
};
use rlm::prompts::{
    build_continue_prompt, build_initial_user_prompt, build_system_prompt, build_system_prompt_old,
    decimal_string,
};
use rlm::rlm::{
    choose_final_answer, context_payload, format_execution_result, format_result_message,
    truncate_after_first_repl_block, RlmError,
};
use rlm::server::{
    completion_usage, convert_messages, stream_pieces, ChatCompletionChunk, ChatCompletionResponse,
    ChatMessage, CompletionUsage,
};
use rlm::{Message, PromptInput, ReplResult, Role, Snapshot, Usage};
use std::time::Duration;

#[test]
fn final_name_resolves_to_bound_value() {
    let mut s = Snapshot::new();
    s.insert("answer_var".to_string(), "forty two".to_string());
    assert_eq!(extract_answer("FINAL(answer_var)", &s), Some("forty two".to_string()));
    // a later binding hides an earlier one
    s.insert("answer_var".to_string(), "43".to_string());
    assert_eq!(extract_answer("FINAL(answer_var)", &s), Some("43".to_string()));
}

#[test]
fn final_literal_is_unquoted_and_unescaped() {
    let s = Snapshot::new();
    assert_eq!(extract_answer("FINAL(\"a\\tb\\nc\")", &s), Some("a\tb\nc".to_string()));
    assert_eq!(extract_answer("FINAL('single')", &s), Some("single".to_string()));
    assert_eq!(extract_answer("FINAL(\"say \\\"hi\\\"\")", &s), Some("say \\\"hi\\\"".to_string()));
}

#[test]
fn final_prose_prefixes_rejected_unless_code() {
    for p in ["output from x", "Result of it", "This is the end", "this is a test", "The result is", "Here is it"] {
        assert_eq!(extract_final_answer(&format!("FINAL({})", p)), None, "{}", p);
    }
    assert_eq!(extract_final_answer("FINAL(the result is f(x))"), Some("the result is f(x)".to_string()));
    assert_eq!(extract_final_answer("FINAL(the result is 1 + 2)"), Some("the result is 1 + 2".to_string()));
}

#[test]
fn final_position_rules() {
    let base = extract_final_answer("FINAL(7)");
    assert_eq!(base, Some("7".to_string()));
    assert_eq!(extract_final_answer("\nFINAL(7)"), base);
    assert_eq!(extract_final_answer(" FINAL(7)"), base);
    assert_eq!(extract_final_answer(":FINAL(7)"), base);
    assert_eq!(extract_final_answer("aFINAL(7)"), None);
    assert_eq!(extract_final_answer("3FINAL(7)"), None);
}

#[test]
fn final_unclosed_marker_gives_nothing() {
    assert_eq!(extract_final_answer("FINAL(never closed"), None);
}

#[test]
fn stdout_answer_line() {
    assert_eq!(extract_final_answer_from_stdout("x\nFINAL_ANSWER: 12\r\nmore"), Some("12".to_string()));
    assert_eq!(extract_final_answer_from_stdout("FINAL_ANSWER:12"), None);
    assert_eq!(extract_final_answer_from_stdout(""), None);
}

#[test]
fn prose_check_lowercases() {
    assert!(looks_like_prose("OUTPUT FROM the run"));
    assert!(looks_like_prose("a demonstration of things"));
    assert!(!looks_like_prose("42"));
    assert!(!looks_like_prose("output from f(x)"));
}

#[test]
fn code_patterns_and_identifiers() {
    assert!(has_code_patterns("foo(1)"));
    assert!(has_code_patterns("a[0]"));
    assert!(!has_code_patterns("plain words (aside)"));
    assert!(is_identifier("_x9"));
    assert!(!is_identifier("9x"));
    assert!(!is_identifier(""));
    assert_eq!(unescape_string_literal("  \"a\\nb\"  "), "a\nb");
    assert_eq!(unescape_string_literal("abc"), "abc");
}

#[test]
fn code_block_close_needs_its_own_line() {
    let t = "```repl\nprint('```')\n```\n";
    assert_eq!(rlm::parsing::extract_code_blocks(t), vec!["print('```')\n".to_string()]);
    assert_eq!(rlm::parsing::extract_code_blocks("```repl\n```"), vec!["".to_string()]);
}

#[test]
fn truncation_keeps_first_block_only() {
    let t = "think\n```repl\nx = 1\n```\nFINAL(x)\n```python\ny = 2\n```";
    assert_eq!(truncate_after_first_repl_block(t), "think\n```repl\nx = 1\n```");
    assert_eq!(truncate_after_first_repl_block("no block"), "no block");
    assert_eq!(truncate_after_first_repl_block("```repl\nunclosed"), "```repl\nunclosed");
}

#[test]
fn answer_precedence() {
    let locals = Snapshot::new();
    let mut r = ReplResult::success("FINAL_ANSWER: b\n".to_string(), Snapshot::new(), Duration::ZERO);
    assert_eq!(choose_final_answer(Some(&r), "FINAL(c)", &locals), Some("b".to_string()));
    r.llm_output = Some("a".to_string());
    assert_eq!(choose_final_answer(Some(&r), "FINAL(c)", &locals), Some("a".to_string()));
    assert_eq!(choose_final_answer(None, "FINAL(c)", &locals), Some("c".to_string()));
}

#[test]
fn result_messages() {
    let ok = ReplResult::success("  5 \n".to_string(), Snapshot::new(), Duration::ZERO);
    assert_eq!(format_result_message(&ok), "```result\n5\n```");
    let empty = ReplResult::success(String::new(), Snapshot::new(), Duration::ZERO);
    assert_eq!(format_result_message(&empty), "```result\n(no output)\n```");
    let bad = ReplResult::failure("ZeroDivisionError".to_string(), "trace".to_string(), Duration::ZERO);
    assert_eq!(format_result_message(&bad), "```error\nZeroDivisionError\n```");
    assert_eq!(format_execution_result(&bad), "trace");
    assert_eq!(format_execution_result(&empty), "(no output)");
    let both = ReplResult { stderr: "warn".to_string(), ..ok };
    assert_eq!(format_execution_result(&both), "  5 \n\nwarn");
}

#[test]
fn repl_result_invariant() {
    let ok = ReplResult::success("x".to_string(), Snapshot::new(), Duration::ZERO);
    assert!(ok.success && ok.error.is_none());
    let bad = ReplResult::failure("e".to_string(), String::new(), Duration::ZERO);
    assert!(!bad.success && bad.error.as_deref() == Some("e") && bad.stdout.is_empty());
}

#[test]
fn usage_accumulates() {
    let mut u = Usage::new(3, 4);
    assert_eq!(u.total_tokens, 7);
    u.add(&Usage::new(10, 20));
    assert_eq!((u.input_tokens, u.output_tokens, u.total_tokens), (13, 24, 37));
    assert_eq!(u.total_tokens, u.input_tokens + u.output_tokens);
}

#[test]
fn prompts() {
    let short = build_system_prompt(1500);
    assert!(short.contains("Your context is a string with 1500 total characters."));
    assert!(short.contains("single pass"));
    assert!(build_system_prompt(2000).contains("beginning and its end"));
    assert!(build_system_prompt(6000).contains("beginning and its end"));
    assert!(build_system_prompt(6001).contains("chunks of 3000 to 4000"));
    assert!(build_system_prompt_old(12).contains("with 12 total characters"));
    assert!(build_initial_user_prompt().starts_with("You have not interacted"));
    assert!(build_continue_prompt(0, 20).starts_with("Iteration 1/20. You are NOT done yet"));
    assert!(build_continue_prompt(10, 20).starts_with("Iteration 11/20. You are past the halfway point"));
    assert!(build_continue_prompt(16, 20).starts_with("Iteration 17/20. You are past the halfway point"));
    assert!(build_continue_prompt(17, 20).starts_with("Iteration 18/20. URGENT"));
    assert!(build_continue_prompt(6, 10).starts_with("Iteration 7/10. You are past the halfway point"));
    assert!(build_continue_prompt(7, 10).starts_with("Iteration 8/10. URGENT"));
    assert!(build_continue_prompt(0, 20).contains("MUST finish before last iteration."));
    assert!(build_continue_prompt(0, 20).contains("Only use llm_output(var) when your task is COMPLETE."));
    assert_eq!(decimal_string(0), "0");
    assert_eq!(decimal_string(907), "907");
}

#[test]
fn prompt_context_payload() {
    assert_eq!(context_payload(&PromptInput::Text("abc".to_string())), "abc");
    let msgs = vec![
        Message::system("sys"),
        Message::user("first"),
        Message::assistant("reply"),
        Message::user("second"),
    ];
    assert_eq!(context_payload(&PromptInput::Messages(msgs)), "first\nsecond");
    assert_eq!(context_payload(&PromptInput::Messages(vec![])), "");
}

#[test]
fn error_variants() {
    assert_eq!(RlmError::MaxIterationsReached(3), RlmError::MaxIterationsReached(3));
    assert_ne!(RlmError::MissingApiKey, RlmError::Config("x".to_string()));
    let _ = [
        RlmError::Api("a".to_string()),
        RlmError::Json("j".to_string()),
        RlmError::Python("p".to_string()),
        RlmError::Runtime("r".to_string()),
    ];
}

#[test]
fn registry_and_tools() {
    let mut reg = ToolRegistry::new();
    reg.register(EchoTool);
    reg.register(EchoTool);
    assert_eq!(reg.list(), vec!["echo".to_string()]);
    assert_eq!(reg.generate_docs(), "- echo: Echo back the input (for testing)\n  Usage: <tool:echo>message</tool>\n");
    let r = reg.execute("echo", "hi");
    assert!(r.success);
    assert_eq!(r.output, "hi");
    let r = reg.execute("nope", "x");
    assert!(!r.success);
    assert_eq!(r.error.as_deref(), Some("Unknown tool: nope"));
    assert!(reg.get("echo").is_some());
    assert!(reg.get("nope").is_none());
    assert_eq!(EchoTool.name(), "echo");
}

#[test]
fn tool_results_and_reports() {
    let ok = ToolResult::ok("out");
    assert_eq!(format_tool_report("calc", &ok), "[calc] Result:\nout\n\n");
    let err = ToolResult::err("boom");
    assert_eq!(format_tool_report("calc", &err), "[calc] Error: boom\n\n");
}

#[test]
fn shell_allow_list() {
    let sh = ShellTool::new();
    assert_eq!(sh.allowed_commands.len(), 10);
    assert_eq!(sh.check_command("  ls -la "), Ok("ls -la".to_string()));
    let refused = sh.check_command("rm -rf /").unwrap_err();
    assert!(refused.starts_with("Command 'rm' not allowed. Allowed: [\"ls\", \"cat\""));
    assert_eq!(ShellTool::allow_all().check_command("rm x"), Ok("rm x".to_string()));
}

#[test]
fn write_args_split() {
    assert_eq!(split_write_args(" a.txt |||body|||more"), Some(("a.txt".to_string(), "body|||more".to_string())));
    assert_eq!(split_write_args("no separator"), None);
}

#[test]
fn agent_reply_reading() {
    assert!(matches!(read_agent_reply("<answer> 9 </answer><done>"), AgentTurn::Finish(a) if a == "9"));
    assert!(matches!(read_agent_reply("all done <done>"), AgentTurn::Finish(a) if a == "all done <done>"));
    assert!(matches!(read_agent_reply("<tool:echo>x</tool>"), AgentTurn::CallTools(c) if c.len() == 1));
    assert!(matches!(read_agent_reply("thinking"), AgentTurn::Continue));
    let ctx = build_agent_context("- echo: e\n", "say hi", &vec![("Assistant".to_string(), "ok".to_string())]);
    assert!(ctx.contains("AVAILABLE TOOLS:\n- echo: e\n"));
    assert!(ctx.ends_with("TASK: say hi\n\nAssistant: ok\nAssistant: "));
}

#[test]
fn chat_payload() {
    let history = vec![
        ChatTurn { role: "User".to_string(), content: "hi".to_string() },
        ChatTurn { role: "Assistant".to_string(), content: "hello".to_string() },
        ChatTurn { role: "User".to_string(), content: "how are you".to_string() },
    ];
    let p = build_context_payload(Some("FILE"), &history, "how are you");
    assert_eq!(
        p,
        "System: You are a super nice AI agent in conversation with User.\n\nFILE\n\nUser: hi\nAssistant: hello\nUser: how are you\nAssistant: "
    );
    let q = build_context_payload(None, &vec![], "q");
    assert!(q.ends_with("User.\n\nUser: q\nAssistant: "));
}

#[test]
fn server_records() {
    let usage = CompletionUsage { prompt_tokens: 1, completion_tokens: 2, total_tokens: 3 };
    let r = ChatCompletionResponse::created_at(5, "id".to_string(), "m".to_string(), "hi".to_string(), usage);
    assert_eq!(r.object, "chat.completion");
    assert_eq!(r.created, 5);
    assert_eq!(r.choices[0].message.role, "assistant");
    assert_eq!(r.choices[0].finish_reason, "stop");
    let r = ChatCompletionResponse::new("id".to_string(), "m".to_string(), "hi".to_string(), usage);
    assert_eq!(r.choices[0].message.content, "hi");
    let c = ChatCompletionChunk::with_role("id".to_string(), "m".to_string());
    assert_eq!(c.object, "chat.completion.chunk");
    assert_eq!(c.choices[0].delta.role.as_deref(), Some("assistant"));
    let c = ChatCompletionChunk::with_content("id".to_string(), "m".to_string(), "w ".to_string());
    assert_eq!(c.choices[0].delta.content.as_deref(), Some("w "));
    let c = ChatCompletionChunk::finished("id".to_string(), "m".to_string());
    assert_eq!(c.choices[0].finish_reason.as_deref(), Some("stop"));
    let msgs = convert_messages(&vec![
        ChatMessage { role: "system".to_string(), content: "s".to_string() },
        ChatMessage { role: "assistant".to_string(), content: "a".to_string() },
        ChatMessage { role: "tool".to_string(), content: "t".to_string() },
    ]);
    assert_eq!(msgs.iter().map(|m| m.role).collect::<Vec<_>>(), vec![Role::System, Role::Assistant, Role::User]);
    let u = completion_usage(&Usage::new(4, 6));
    assert_eq!((u.prompt_tokens, u.completion_tokens, u.total_tokens), (4, 6, 10));
    assert_eq!(stream_pieces("a bc d"), vec!["a ", "bc ", "d"]);
    assert_eq!(stream_pieces(""), Vec::<String>::new());
}

#[test]
fn prompt_input_text_and_conversions() {
    let p: PromptInput = "plain".to_string().into();
    assert_eq!(p.to_text(), "plain");
    let m: PromptInput = vec![Message::system("s"), Message::user("u")].into();
    assert_eq!(m.to_text(), "[System]: s\n[User]: u\n");
}

#[test]
fn literal_that_reads_as_prose_is_rejected() {
    // the one kind of quoted literal that does not come back unquoted
    assert_eq!(extract_final_answer("FINAL(\"executing code\")"), None);
    assert_eq!(extract_final_answer("FINAL(\"executing code()\")"), Some("executing code()".to_string()));
}

#[test]
fn emoticon_close_is_skipped_then_retried() {
    assert_eq!(extract_final_answer("FINAL(x)"), Some("x".to_string()));
    assert_eq!(extract_final_answer("FINAL(ok :))"), Some("ok :)".to_string()));
}

#[test]
fn system_prompt_split_for_providers() {
    let h = vec![Message::user("u1"), Message::system("s1"), Message::assistant("a"), Message::system("s2")];
    let (sys, rest) = rlm::rlm::split_system(&h);
    assert_eq!(sys.as_deref(), Some("s1"));
    assert_eq!(rest.iter().map(|m| m.content.as_str()).collect::<Vec<_>>(), vec!["u1", "a"]);
    assert_eq!(rlm::rlm::split_system(&vec![]).0, None);
}

#[test]
fn prose_phrases_on_lowercased_text() {
    assert!(rlm::parsing::prose_marked_text("here is the answer"));
    assert!(rlm::parsing::prose_marked_text("it shows an example of how"));
    assert!(!rlm::parsing::prose_marked_text("Here is"));
}

#[test]
fn registry_get_finds_every_registered_name() {
    let mut reg = ToolRegistry::new();
    reg.register(EchoTool);
    assert_eq!(reg.get("echo").map(|t| t.name()), Some("echo"));
    let mut boxed: ToolRegistry<Box<dyn Tool>> = ToolRegistry::new();
    boxed.register(Box::new(EchoTool));
    assert_eq!(boxed.execute("echo", "x").output, "x");
}
