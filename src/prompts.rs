//! The prompts that frame the dialogue with the model.
use crate::text::push_char;
use vstd::prelude::*;

verus! {

/// The decimal digit `d`.
pub open spec fn digit(d: nat) -> char {
    seq!['0', '1', '2', '3', '4', '5', '6', '7', '8', '9'][d as int]
}

/// The decimal numeral of `n`, without leading zeros.
pub open spec fn decimal(n: nat) -> Seq<char>
    decreases n,
{
    if n < 10 {
        seq![digit(n)]
    } else {
        decimal(n / 10).push(digit(n % 10))
    }
}

fn digit_exec(d: u64) -> (r: char)
    requires
        d < 10,
    ensures
        r == digit(d as nat),
{
    let ds = vec!['0', '1', '2', '3', '4', '5', '6', '7', '8', '9'];
    assert(ds@ =~= seq!['0', '1', '2', '3', '4', '5', '6', '7', '8', '9']);
    ds[d as usize]
}

/// The decimal numeral of `n`.
pub fn decimal_string(n: u64) -> (r: String)
    ensures
        r@ == decimal(n as nat),
    decreases n,
{
    if n < 10 {
        let mut s = String::new();
        push_char(&mut s, digit_exec(n));
        assert(s@ =~= seq![digit(n as nat)]);
        s
    } else {
        let mut s = decimal_string(n / 10);
        push_char(&mut s, digit_exec(n % 10));
        s
    }
}

pub const SYSTEM_HEAD: &'static str = "You are a LLM performing a text generation task for a chat completion. You fulfill your task using a python REPL. You can access, transform, and analyze your context interactively in the REPL environment. Your output will be appended to the context.\n\nYour context is a string with ";

pub const SYSTEM_WINDOW: &'static str = " total characters.\nYour context_window size is 8000 total characters.\n";

pub const HINT_SHORT: &'static str = "Strategy: your context is short (under 2000 characters). Read it whole in a single pass, then answer.\n";

pub const HINT_MEDIUM: &'static str = "Strategy: your context is of medium size (2000 to 6000 characters). First look at its beginning and its end, then make one full pass over it.\n";

pub const HINT_LONG: &'static str = "Strategy: your context is long (over 6000 characters). Process it in chunks of 3000 to 4000 characters, give each chunk to llm_query together with the question, and keep the results in variables.\n";

pub const SYSTEM_BODY: &'static str = "\n## Using the REPL\n\nYou will only be able to see outputs from the python REPL environment.\nYou should use the query LLM function on variables you want to analyze.\nUse variables as buffers to build up your final answer.\n\nAn example strategy is to first look at the context at the beginning and at the end and figure out what to do, then execute it.\nYou are strongly encouraged to use sub-llms as much as possible.\n\n\nImportant Variables and Functions in the REPL:\n\n1. A 'context' variable that contains the context and prompt. You should examine the content of the 'context' variable to understand what you are working with. Make sure you look through it sufficiently. \n2. A function 'print' for viewing the output of your REPL code and continue your reasoning.\n3. A function 'llm_query' that allows you to prompt a LLM. You have to build the context and prompt for the LLM. It can not see your context. ALWAYS store results in a variable. example = llm_query(...)\n4. A function 'llm_output' that allows you to append to the context. You will be queried iteratively until you call llm_output.\n\nWhen you want to execute Python code in the REPL environment, wrap it in triple backticks with 'repl' language identifier.\n\nEXAMPLE 1 - Peeking at the context:\n```repl\ncontext_start = context[:500] # See first 500 chars\ncontext_end = context[:-500] # See last 500 chars\n\nprint(f\"CONTEXT START: {context_start}\\n\") \nprint(f\"CONTEXT END: {context_end}\\n\") \n```\n\nEXAMPLE 2 - Simple task execution:\nIf the context says \"generate fibonacci 1-10\", you would:\n```repl\nprint(context)  # First see what's asked\n```\nNext iteration:\n```repl\nfib = [1, 1]\nfor _ in range(8): fib.append(fib[-1] + fib[-2])\nprint(fib)\n```\n\nEXAMPLE 3 - Using llm_query for prompting sub-llm:\n```repl\nchunk = context[:5000]\nanswer = llm_query(f\"Summarize the main points: {chunk}\")\nprint(answer)\n```\n\nEXAMPLE 4 - Prompt completion subquery \n```repl\nllm_joke = llm_query(f\"Please generate a joke about LLMs. Joke: \")\nprint(llm_joke)\n```\n\n## Task\n\nComplete the query in the context.\nAn example strategy is to first look at the context and figure out what to do, then execute it.\n\nIMPORTANT: Your task is to append. Last part of context very important!\n\nIMPORTANT: must print llm_query result\n\nIMPORTANT: When you are done, call llm_output(your_answer) with your final answer. You will be queried iteratively until you call llm_output.\n\nThink step by step carefully, plan, and execute this plan immediately in your response -- do not just say \"I will do this\" or \"I will do that\". Output to the REPL environment as much as possible. You got this.";

pub const LEGACY_HEAD: &'static str = "You are a LLM tasked with completing the prompt in a context. You can access, transform, and analyze this context interactively in a REPL environment that can recursively query sub-LLMs, which you are strongly encouraged to use as much as possible. You will be queried iteratively until you provide a final answer.\n\nYour context is a string with ";

pub const LEGACY_BODY: &'static str = " total characters.\n\nThe REPL environment is initialized with:\n1. A 'context' variable that contains the context and prompt. You should check the content of the 'context' variable to understand what you are working with. Make sure you look through it sufficiently.\n2. A 'llm_query' function that allows you to query an LLM inside your REPL environment. ALWAYS provide context if required! ALWAYS store llm_query results in a variable. example = llm_query(f\"{query_context}\\n {query}...)\n3. The ability to use 'print()' statements to view the output of your REPL code and continue your reasoning.\n\nYou will only be able to see outputs from the REPL environment.\nYou should use the query LLM function on variables you want to analyze. Use variables as buffers to build up your final answer.\n\nMake sure to explicitly look through the entire context in REPL before answering with result. \nAn example strategy is to first look at the context and figure out what to do, then execute it.\n\nIMPORTANT: Your task is to append. Last part of context very important!\n\nWhen you want to execute Python code in the REPL environment, wrap it in triple backticks with 'repl' language identifier.\n\nEXAMPLE 1 - Peeking at the context:\n```repl\nprint(context[:500])  # See first 500 chars\n```\n\nEXAMPLE 2 - Simple task execution:\nIf the context says \"generate fibonacci 1-10\", you would:\n```repl\nprint(context)  # First see what's asked\n```\n...\nThen:\n```repl\nfib = [1, 1]\nfor _ in range(8): fib.append(fib[-1] + fib[-2])\nprint(fib)\n```\n...\nThen respond: FINAL(fib)\n\nEXAMPLE 3 - Using llm_query for prompting sub-llm:\n```repl\nchunk = context[:5000]\nanswer = llm_query(f\"Summarize the main points: {chunk}\")\nprint(answer)\n```\n\nEXAMPLE 4 - Prompt completion subquery \n```repl\nllm_joke = llm_query(f\"Please generate a joke about LLMs. Joke: \")\nprint(llm_joke)\n```\n\nIMPORTANT: llm_query are run in new context. YOU MUST PROVIDE CONTEXT for sub query. llm_query CAN NOT see current context!\n\nIMPORTANT: must print llm_query result\n\nIMPORTANT: When you are done with the iterative process, you MUST provide a final variable. Use FINAL(answer_variable_name) function when you have completed your task, NOT in code. Do not use these tags unless you have completed your task.\n\nThink step by step carefully, plan, and execute this plan immediately in your response -- do not just say \"I will do this\" or \"I will do that\". Output to the REPL environment as much as possible. You got this.";

/// The strategy that suits a context of `n` characters.
pub open spec fn strategy_hint(n: nat) -> Seq<char> {
    if n < 2000 {
        HINT_SHORT@
    } else if n <= 6000 {
        HINT_MEDIUM@
    } else {
        HINT_LONG@
    }
}

/// The system prompt for a context of `n` characters.
pub open spec fn system_prompt(n: nat) -> Seq<char> {
    SYSTEM_HEAD@ + decimal(n) + SYSTEM_WINDOW@ + strategy_hint(n) + SYSTEM_BODY@
}

/// The system prompt of the earlier protocol, which ends with a `FINAL(...)`
/// marker in place of `llm_output`.
pub open spec fn legacy_system_prompt(n: nat) -> Seq<char> {
    LEGACY_HEAD@ + decimal(n) + LEGACY_BODY@
}

pub fn append_str(s: &mut String, t: &str)
    ensures
        final(s)@ == old(s)@ + t@,
{
    s.append(t);
}

/// Builds the system prompt: the role, the size of the context, the
/// functions of the interpreter, worked examples, and a strategy that suits
/// the size.
pub fn build_system_prompt(context_len: usize) -> (r: String)
    ensures
        r@ == system_prompt(context_len as nat),
{
    let mut s = String::from_str(SYSTEM_HEAD);
    append_str(&mut s, decimal_string(context_len as u64).as_str());
    append_str(&mut s, SYSTEM_WINDOW);
    if context_len < 2000 {
        append_str(&mut s, HINT_SHORT);
    } else if context_len <= 6000 {
        append_str(&mut s, HINT_MEDIUM);
    } else {
        append_str(&mut s, HINT_LONG);
    }
    append_str(&mut s, SYSTEM_BODY);
    s
}

/// Builds the system prompt of the earlier protocol.
pub fn build_system_prompt_old(context_len: usize) -> (r: String)
    ensures
        r@ == legacy_system_prompt(context_len as nat),
{
    let mut s = String::from_str(LEGACY_HEAD);
    append_str(&mut s, decimal_string(context_len as u64).as_str());
    append_str(&mut s, LEGACY_BODY);
    s
}

pub const INITIAL_USER_PROMPT: &'static str = "You have not interacted with the REPL environment yet. Start by examining the 'context' variable to understand your task. Your next action:";

/// Builds the first user message, which sends the model to `context`.
pub fn build_initial_user_prompt() -> (r: String)
    ensures
        r@ == INITIAL_USER_PROMPT@,
{
    String::from_str(INITIAL_USER_PROMPT)
}

pub const URGENT_BAND: &'static str = " URGENT: these are your last iterations. Finish now: call llm_output with your answer, or with a partial answer if you are not done.";

pub const PROGRESS_BAND: &'static str = " You are past the halfway point: make progress toward your answer.";

pub const CONTINUE_BAND: &'static str = " You are NOT done yet - keep working!";

pub const CONTINUE_TAIL: &'static str = " MUST finish before last iteration. Look at your variables with print() to see progress. If processing chunks, continue to next chunk. Reminder: MUST use llm_output(answer_variable_name) function when you have completed task. Do not use unless you have completed your task. Reminder: llm_query can NOT see conversation - always pass context! Only use llm_output(var) when your task is COMPLETE. Your next action:";

/// How pressing the turn after turn `iteration` (counted from 0) of `max`
/// is: urgent within the last three turns, firm past the halfway point.
pub open spec fn urgency_band(iteration: nat, max: nat) -> Seq<char> {
    if iteration + 3 >= max {
        URGENT_BAND@
    } else if 2 * (iteration + 1) > max {
        PROGRESS_BAND@
    } else {
        CONTINUE_BAND@
    }
}

/// The message that follows turn `iteration` (counted from 0) of
/// `max_iterations`.
pub open spec fn continue_prompt(iteration: nat, max_iterations: nat) -> Seq<char> {
    "Iteration "@ + decimal(iteration + 1) + seq!['/'] + decimal(max_iterations) + seq!['.']
        + urgency_band(iteration, max_iterations) + CONTINUE_TAIL@
}

/// Builds the message that asks for the next turn after turn `iteration`
/// (counted from 0) of `max_iterations`.
pub fn build_continue_prompt(iteration: u32, max_iterations: u32) -> (r: String)
    ensures
        r@ == continue_prompt(iteration as nat, max_iterations as nat),
{
    let done: u64 = iteration as u64 + 1;
    let max: u64 = max_iterations as u64;
    let mut s = String::from_str("Iteration ");
    append_str(&mut s, decimal_string(done).as_str());
    push_char(&mut s, '/');
    append_str(&mut s, decimal_string(max).as_str());
    push_char(&mut s, '.');
    if iteration as u64 + 3 >= max {
        append_str(&mut s, URGENT_BAND);
    } else if 2 * done > max {
        append_str(&mut s, PROGRESS_BAND);
    } else {
        append_str(&mut s, CONTINUE_BAND);
    }
    append_str(&mut s, CONTINUE_TAIL);
    proof {
        assert(s@ =~= continue_prompt(iteration as nat, max_iterations as nat));
    }
    s
}

} // verus!
