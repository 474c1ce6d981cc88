use rlm::rlm::{Action, Elapsed, RlmError, Session};
use rlm::{ReplResult, RlmCompletion, Snapshot, Usage};
use std::time::Duration;

fn elapsed() -> Elapsed {
    Elapsed { iteration: Duration::ZERO, total: Duration::ZERO }
}

/// A stand-in interpreter for the few snippets the scripted model writes.
fn run_code(code: &str, ns: &mut Snapshot) -> ReplResult {
    let code = code.trim();
    if let Some(rest) = code.strip_prefix("llm_output(") {
        let arg = rest.trim_end_matches(')').trim_matches('"').to_string();
        let mut r = ReplResult::success(format!("FINAL_ANSWER: {}\n", arg), ns.clone(), Duration::ZERO);
        r.llm_output = Some(arg);
        return r;
    }
    if code == "print(1)" {
        return ReplResult::success("1\n".to_string(), ns.clone(), Duration::ZERO);
    }
    if let Some((name, value)) = code.split_once(" = ") {
        ns.insert(name.to_string(), value.trim_matches('"').to_string());
        return ReplResult::success(String::new(), ns.clone(), Duration::ZERO);
    }
    ReplResult::failure(format!("NameError: {}", code), String::new(), Duration::ZERO)
}

/// Drives a session against a model that answers with `replies` in turn,
/// repeating the last one, and counts the model calls.
fn drive(replies: &[&str], max_iterations: u32, retries: u32) -> (Result<RlmCompletion, RlmError>, usize) {
    let (mut session, mut action) = Session::new("What is 2 + 2?", max_iterations, retries);
    let mut ns = Snapshot::new();
    ns.insert("context".to_string(), session.context.clone());
    let mut calls = 0usize;
    loop {
        action = match action {
            Action::CallModel => {
                let text = replies[calls.min(replies.len() - 1)];
                calls += 1;
                session.on_reply(text, &Usage::new(10, 5), &ns, &elapsed())
            }
            Action::Execute(code) => {
                let result = run_code(&code, &mut ns);
                session.on_executed(result, &ns, &elapsed())
            }
            Action::Done(c) => return (Ok(c), calls),
            Action::Failed(e) => return (Err(e), calls),
        };
    }
}

#[test]
fn scenario_direct_answer() {
    let (r, calls) = drive(&["```repl\nllm_output(4)\n```"], 20, 2);
    let c = r.unwrap();
    assert_eq!(c.response, "4");
    assert_eq!(c.iterations.len(), 1);
    assert_eq!(calls, 1);
    assert_eq!(c.usage, Usage::new(10, 5));
}

#[test]
fn scenario_free_text_final() {
    let (r, _) = drive(&["Answer: FINAL(42)"], 20, 2);
    let c = r.unwrap();
    assert_eq!(c.response, "42");
    assert_eq!(c.iterations.len(), 1);
    assert!(c.iterations[0].code_blocks.is_empty());
}

#[test]
fn scenario_variable_resolution() {
    let (r, _) = drive(&["```repl\nx = \"hello\"\n```", "FINAL(x)"], 20, 2);
    let c = r.unwrap();
    assert_eq!(c.response, "hello");
    assert_eq!(c.iterations.len(), 2);
}

#[test]
fn scenario_prose_rejection() {
    let (r, _) = drive(&["FINAL(Output from executing code)\nFINAL(42)"], 20, 2);
    assert_eq!(r.unwrap().response, "42");
}

#[test]
fn scenario_retry_then_succeed() {
    let (r, calls) = drive(&["```repl\nboom()\n```", "```repl\nllm_output(\"ok\")\n```"], 20, 2);
    let c = r.unwrap();
    assert_eq!(c.response, "ok");
    assert_eq!(c.iterations.len(), 1);
    assert_eq!(c.iterations[0].code_blocks[0].retry_count, 1);
    assert_eq!(calls, 2);
    assert_eq!(c.usage.total_tokens, 30);
}

#[test]
fn scenario_max_iterations() {
    let (r, calls) = drive(&["```repl\nprint(1)\n```"], 5, 2);
    assert!(matches!(r, Err(RlmError::MaxIterationsReached(5))));
    assert_eq!(calls, 5);
}

#[test]
fn no_turns_allowed_fails_at_once() {
    let (_, action) = Session::new("ctx", 0, 2);
    assert!(matches!(action, Action::Failed(RlmError::MaxIterationsReached(0))));
}

#[test]
fn retries_exhausted_fall_through_to_next_turn() {
    let (r, calls) = drive(&["```repl\nboom()\n```"], 2, 1);
    assert!(matches!(r, Err(RlmError::MaxIterationsReached(2))));
    // each turn: one reply and one repair request
    assert_eq!(calls, 4);
}

#[test]
fn llm_output_wins_over_final_marker() {
    let (r, _) = drive(&["FINAL(7)\n```repl\nllm_output(\"8\")\n```"], 20, 2);
    assert_eq!(r.unwrap().response, "8");
}

#[test]
fn completion_records_agree_with_answer() {
    let (r, _) = drive(&["```repl\nprint(1)\n```", "```repl\nllm_output(3)\n```"], 4, 2);
    let c = r.unwrap();
    assert!(c.iterations.len() <= 4);
    assert_eq!(c.iterations.last().unwrap().final_answer.as_deref(), Some("3"));
    for (i, it) in c.iterations.iter().enumerate() {
        assert!(it.code_blocks.len() <= 1);
        assert_eq!(it.iteration as usize, i);
    }
    assert_eq!(c.usage.total_tokens, c.usage.input_tokens + c.usage.output_tokens);
}

#[test]
fn history_records_the_truncated_reply() {
    let (mut session, _) = Session::new("ctx", 3, 2);
    let ns = Snapshot::new();
    let a = session.on_reply("```repl\nprint(1)\n```\nand then FINAL(9)", &Usage::new(1, 1), &ns, &elapsed());
    assert!(matches!(a, Action::Execute(ref c) if c == "print(1)\n"));
    assert_eq!(session.history.last().unwrap().content, "```repl\nprint(1)\n```");
    let r = ReplResult::success("1\n".to_string(), Snapshot::new(), Duration::ZERO);
    let a = session.on_executed(r, &ns, &elapsed());
    assert!(matches!(a, Action::CallModel));
    assert_eq!(session.history[3].content, "```result\n1\n```");
    assert!(session.history[4].content.starts_with("Iteration 1/3."));
    assert_eq!(session.context, "ctx");
}
