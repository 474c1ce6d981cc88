//! The completion loop as a state machine: the caller performs each action
//! (a model call, a code run) and hands back what came of it.
use crate::parsing::{
    code_blocks, extract_code_blocks, extract_final_answer_from_stdout, extract_final_answer_raw,
    final_answer, first_block_end, first_block_end_exec, opt_view, stdout_answer, views,
};
use crate::prompts::{
    append_str, build_continue_prompt, build_initial_user_prompt, build_system_prompt,
    continue_prompt, system_prompt, INITIAL_USER_PROMPT,
};
use crate::snapshot::Snapshot;
use crate::text::{chars_of, string_of, trim_bounds, trimmed};
use crate::types::{CodeBlock, Message, PromptInput, ReplResult, RlmCompletion, RlmIteration, Role, Usage};
use core::time::Duration;
use vstd::prelude::*;

verus! {

/// `t` cut after the closing line of its first code block; all of `t` where
/// no block closes.
pub open spec fn truncated(t: Seq<char>) -> Seq<char> {
    match first_block_end(t, 0) {
        Some(e) => t.subrange(0, e),
        None => t,
    }
}

/// Cuts a reply after the closing line of its first `repl` or `python`
/// block, so that the model cannot run ahead of results it has not seen.
pub fn truncate_after_first_repl_block(text: &str) -> (r: String)
    ensures
        r@ == truncated(text@),
{
    let t = chars_of(text);
    match first_block_end_exec(&t) {
        Some(e) => string_of(&t, 0, e),
        None => text.to_string(),
    }
}

pub const NO_OUTPUT: &'static str = "(no output)";

/// The text of a result for display: its output, then its error output on a
/// line of its own, or `(no output)`.
pub open spec fn display_text(stdout: Seq<char>, stderr: Seq<char>) -> Seq<char> {
    let both = if stdout.len() > 0 && stderr.len() > 0 {
        stdout + seq!['\n'] + stderr
    } else {
        stdout + stderr
    };
    if both.len() == 0 {
        NO_OUTPUT@
    } else {
        both
    }
}

/// Formats the output of a run for display.
pub fn format_execution_result(result: &ReplResult) -> (r: String)
    ensures
        r@ == display_text(result.stdout@, result.stderr@),
{
    let mut out = String::new();
    if !result.stdout.as_str().is_empty() {
        append_str(&mut out, result.stdout.as_str());
    }
    if !result.stderr.as_str().is_empty() {
        if !out.as_str().is_empty() {
            crate::text::push_char(&mut out, '\n');
        }
        append_str(&mut out, result.stderr.as_str());
    }
    proof {
        assert(result.stdout@.len() == 0 ==> out@ =~= result.stdout@ + result.stderr@);
        assert(out@ =~= (if result.stdout@.len() > 0 && result.stderr@.len() > 0 {
            result.stdout@ + seq!['\n'] + result.stderr@
        } else {
            result.stdout@ + result.stderr@
        }));
    }
    if out.as_str().is_empty() {
        String::from_str(NO_OUTPUT)
    } else {
        out
    }
}

pub const UNKNOWN_ERROR: &'static str = "Unknown error";

pub const FIX_PROMPT: &'static str = "Please fix the code and try again. Provide the corrected code in a ```repl``` block.";

/// The user message that reports a run back to the model: a `result` block
/// with the trimmed output, or `(no output)`; an `error` block with the
/// error.
pub open spec fn result_message(result: ReplResult) -> Seq<char> {
    if result.success {
        if result.stdout@.len() == 0 {
            "```result\n"@ + NO_OUTPUT@ + "\n```"@
        } else {
            "```result\n"@ + trimmed(result.stdout@) + "\n```"@
        }
    } else {
        "```error\n"@ + match result.error {
            Some(e) => e@,
            None => UNKNOWN_ERROR@,
        } + "\n```"@
    }
}

/// Formats the report of a run for the model.
pub fn format_result_message(result: &ReplResult) -> (r: String)
    ensures
        r@ == result_message(*result),
{
    if result.success {
        let mut s = String::from_str("```result\n");
        if result.stdout.as_str().is_empty() {
            append_str(&mut s, NO_OUTPUT);
        } else {
            let v = chars_of(result.stdout.as_str());
            let (lo, hi) = trim_bounds(&v, 0, v.len());
            proof {
                assert(v@.subrange(0, v@.len() as int) =~= v@);
            }
            append_str(&mut s, string_of(&v, lo, hi).as_str());
        }
        append_str(&mut s, "\n```");
        s
    } else {
        let mut s = String::from_str("```error\n");
        match &result.error {
            Some(e) => append_str(&mut s, e.as_str()),
            None => append_str(&mut s, UNKNOWN_ERROR),
        }
        append_str(&mut s, "\n```");
        s
    }
}

/// The answer that ends a turn, by precedence: the value handed to
/// `llm_output`, else a `FINAL_ANSWER: ` line of the output, else a
/// `FINAL(...)` marker in the model's reply.
pub open spec fn chosen_answer(
    result: Option<ReplResult>,
    response: Seq<char>,
    locals: Map<Seq<char>, Seq<char>>,
) -> Option<Seq<char>> {
    match result {
        Some(r) => match r.llm_output {
            Some(o) => Some(o@),
            None => match stdout_answer(r.stdout@) {
                Some(a) => Some(a),
                None => final_answer(response, locals),
            },
        },
        None => final_answer(response, locals),
    }
}

/// Finds the answer that ends a turn, if any: see [`chosen_answer`].
pub fn choose_final_answer(result: Option<&ReplResult>, response: &str, locals: &Snapshot) -> (r:
    Option<String>)
    ensures
        opt_view(r) == chosen_answer(
            match result {
                Some(x) => Some(*x),
                None => None,
            },
            response@,
            locals@,
        ),
{
    match result {
        Some(x) => match &x.llm_output {
            Some(o) => {
                return Some(o.clone());
            },
            None => match extract_final_answer_from_stdout(x.stdout.as_str()) {
                Some(a) => {
                    return Some(a);
                },
                None => {},
            },
        },
        None => {},
    }
    extract_final_answer_raw(response, locals)
}

/// Why a completion failed.
#[derive(Clone, Debug, PartialEq, Eq)]
pub enum RlmError {
    /// The model provider answered with an error, or could not be reached.
    Api(String),
    /// A reply of the provider could not be decoded.
    Json(String),
    /// The interpreter could not be set up or driven.
    Python(String),
    /// The async runtime failed.
    Runtime(String),
    /// The loop ran its allowed number of turns without an answer.
    MaxIterationsReached(u32),
    /// No credential was given or found.
    MissingApiKey,
    /// The configuration is invalid.
    Config(String),
}

/// What the caller does next.
pub enum Action {
    /// Call the model on the history and report its reply.
    CallModel,
    /// Run this code in the interpreter and report the result.
    Execute(String),
    /// The completion is over, with an answer.
    Done(RlmCompletion),
    /// The completion is over, without an answer.
    Failed(RlmError),
}

/// Where the loop stands.
pub enum Phase {
    /// Waiting for the reply that opens a turn.
    AwaitReply,
    /// Waiting for the result of running `code`.
    AwaitExec { response: String, code: String, retry_count: u32 },
    /// Waiting for a repaired block after `code` failed with `result`.
    AwaitFix { response: String, code: String, result: ReplResult, retry_count: u32 },
    /// The loop has ended.
    Finished,
}

/// Time spent in the current turn and in the whole completion.
pub struct Elapsed {
    pub iteration: Duration,
    pub total: Duration,
}

/// One completion in progress. The interpreter binds `context` once, from
/// [`Session::context`], before the first turn; no action rebinds it, and no
/// step changes it. A completion is only ever handed back by a step, and
/// every step ensures [`completion_sound`] of what it hands back, so that
/// holds of every run.
pub struct Session {
    pub context: String,
    pub max_iterations: u32,
    pub max_exec_retries: u32,
    pub history: Vec<Message>,
    pub iterations: Vec<RlmIteration>,
    pub usage: Usage,
    pub sub_usage: Usage,
    pub phase: Phase,
}

pub open spec fn msg_is(m: Message, role: Role, content: Seq<char>) -> bool {
    m.role == role && m.content@ == content
}

/// `post` is `pre` with one message of `role` and `content` appended.
pub open spec fn pushed(pre: Seq<Message>, post: Seq<Message>, role: Role, content: Seq<char>) -> bool {
    &&& post.len() == pre.len() + 1
    &&& post.take(pre.len() as int) == pre
    &&& msg_is(post.last(), role, content)
}

pub open spec fn result_of(block: Option<CodeBlock>) -> Option<ReplResult> {
    match block {
        Some(b) => b.result,
        None => None,
    }
}

pub open spec fn blocks_of(block: Option<CodeBlock>) -> Seq<CodeBlock> {
    match block {
        Some(b) => seq![b],
        None => Seq::empty(),
    }
}

/// `recs` is `pre` with the record of one more turn appended.
pub open spec fn turn_recorded(
    pre: Seq<RlmIteration>,
    recs: Seq<RlmIteration>,
    response: Seq<char>,
    block: Option<CodeBlock>,
    answer: Option<Seq<char>>,
) -> bool {
    &&& recs.len() == pre.len() + 1
    &&& recs.take(pre.len() as int) == pre
    &&& recs.last().iteration == pre.len()
    &&& recs.last().response@ == response
    &&& recs.last().code_blocks@ == blocks_of(block)
    &&& opt_view(recs.last().final_answer) == answer
}

/// How a turn that ended with `response` and `block` leaves the session,
/// given its records, history and usage at that point: with the answer, if
/// there is one; else with another turn, while turns are left; else with
/// the failure that names the bound.
pub open spec fn turn_ended(
    pre: Session,
    hist: Seq<Message>,
    usage: Usage,
    response: Seq<char>,
    block: Option<CodeBlock>,
    locals: Map<Seq<char>, Seq<char>>,
    post: Session,
    a: Action,
) -> bool {
    let answer = chosen_answer(result_of(block), response, locals);
    &&& post.context == pre.context
    &&& post.max_iterations == pre.max_iterations
    &&& post.max_exec_retries == pre.max_exec_retries
    &&& post.sub_usage == pre.sub_usage
    &&& match answer {
        Some(ans) => {
            &&& post.phase is Finished
            &&& post.history@ == hist
            &&& a matches Action::Done(c) && {
                &&& turn_recorded(pre.iterations@, c.iterations@, response, block, answer)
                &&& c.response@ == ans
                &&& c.prompt matches PromptInput::Text(p) && p@ == pre.context@
                &&& c.usage.input_tokens == usage.input_tokens + pre.sub_usage.input_tokens
                &&& c.usage.output_tokens == usage.output_tokens + pre.sub_usage.output_tokens
                &&& c.usage.total_tokens == usage.total_tokens + pre.sub_usage.total_tokens
            }
        },
        None => {
            &&& turn_recorded(pre.iterations@, post.iterations@, response, block, answer)
            &&& post.usage == usage
            &&& if pre.iterations@.len() + 1 < pre.max_iterations {
                &&& a is CallModel
                &&& post.phase is AwaitReply
                &&& pushed(
                    hist,
                    post.history@,
                    Role::User,
                    continue_prompt(pre.iterations@.len(), pre.max_iterations as nat),
                )
            } else {
                &&& a == Action::Failed(RlmError::MaxIterationsReached(pre.max_iterations))
                &&& post.phase is Finished
                &&& post.history@ == hist
            }
        },
    }
}

/// What holds of every completion the loop hands back: it took at most
/// `max` turns, numbered from 0, none of which ran more than one block; only
/// its last turn found an answer, and that answer is the completion's; a
/// value handed to `llm_output` in that turn is the answer; and its token
/// counts add up.
pub open spec fn completion_sound(max: u32, a: Action) -> bool {
    a matches Action::Done(c) ==> {
        &&& 0 < c.iterations@.len() <= max
        &&& opt_view(c.iterations@.last().final_answer) == Some(c.response@)
        &&& forall|i: int|
            0 <= i < c.iterations@.len() ==> (#[trigger] c.iterations@[i]).code_blocks@.len() <= 1
                && c.iterations@[i].iteration == i
        &&& forall|i: int|
            0 <= i < c.iterations@.len() - 1 ==> (#[trigger] c.iterations@[i]).final_answer is None
        &&& (c.iterations@.last().code_blocks@.len() == 1
            && c.iterations@.last().code_blocks@[0].result is Some
            && c.iterations@.last().code_blocks@[0].result->0.llm_output is Some) ==> c.response@
            == c.iterations@.last().code_blocks@[0].result->0.llm_output->0@
        &&& c.usage.wf()
    }
}

impl Session {
    /// The invariant of a session.
    pub open spec fn wf(&self) -> bool {
        &&& self.iterations@.len() <= self.max_iterations
        &&& (!(self.phase is Finished) ==> self.iterations@.len() < self.max_iterations)
        &&& self.usage.wf()
        &&& self.sub_usage.wf()
        &&& forall|i: int|
            0 <= i < self.iterations@.len() ==> (#[trigger] self.iterations@[i]).code_blocks@.len()
                <= 1 && self.iterations@[i].iteration == i && self.iterations@[i].final_answer is None
    }

    /// Starts a completion on `context`: the history holds the system prompt
    /// and the first user message, and the first action is a model call, or
    /// a failure where no turn is allowed.
    pub fn new(context: &str, max_iterations: u32, max_exec_retries: u32) -> (r: (Session, Action))
        ensures
            r.0.wf(),
            r.0.context@ == context@,
            r.0.max_iterations == max_iterations,
            r.0.max_exec_retries == max_exec_retries,
            r.0.history@.len() == 2,
            msg_is(r.0.history@[0], Role::System, system_prompt(context@.len())),
            msg_is(r.0.history@[1], Role::User, INITIAL_USER_PROMPT@),
            r.0.iterations@.len() == 0,
            r.0.usage.total_tokens == 0,
            r.0.sub_usage.total_tokens == 0,
            max_iterations > 0 ==> r.0.phase is AwaitReply && r.1 is CallModel,
            max_iterations == 0 ==> r.0.phase is Finished && r.1 == Action::Failed(
                RlmError::MaxIterationsReached(0),
            ),
    {
        let n = chars_of(context).len();
        let system = build_system_prompt(n);
        let initial = build_initial_user_prompt();
        let history = vec![Message::system(system.as_str()), Message::user(initial.as_str())];
        let session = Session {
            context: context.to_string(),
            max_iterations,
            max_exec_retries,
            history,
            iterations: Vec::new(),
            usage: Usage::default(),
            sub_usage: Usage::default(),
            phase: if max_iterations > 0 {
                Phase::AwaitReply
            } else {
                Phase::Finished
            },
        };
        if max_iterations > 0 {
            (session, Action::CallModel)
        } else {
            (session, Action::Failed(RlmError::MaxIterationsReached(0)))
        }
    }
}


impl Session {
    /// Room in the counters for `extra` more tokens.
    pub open spec fn headroom(&self, extra: u64) -> bool {
        self.usage.total_tokens + self.sub_usage.total_tokens + extra <= u64::MAX
    }

    /// Records a turn that ended with `response` and `block`, and decides
    /// what follows.
    fn end_turn(
        &mut self,
        response: String,
        block: Option<CodeBlock>,
        locals: &Snapshot,
        elapsed: &Elapsed,
    ) -> (r: Action)
        requires
            old(self).wf(),
            !(old(self).phase is Finished),
            old(self).headroom(0),
        ensures
            final(self).wf(),
            completion_sound(old(self).max_iterations, r),
            turn_ended(
                *old(self),
                old(self).history@,
                old(self).usage,
                response@,
                block,
                locals@,
                *final(self),
                r,
            ),
    {
        let answer = choose_final_answer(
            match &block {
                Some(b) => match &b.result {
                    Some(x) => Some(x),
                    None => None,
                },
                None => None,
            },
            response.as_str(),
            locals,
        );
        let ghost pre = *self;
        let index = self.iterations.len() as u32;
        let code_blocks = match block {
            Some(b) => vec![b],
            None => Vec::new(),
        };
        proof {
            assert(code_blocks@ =~= blocks_of(block));
        }
        let record = RlmIteration {
            iteration: index,
            response: response,
            code_blocks,
            final_answer: answer.clone(),
            execution_time: elapsed.iteration.clone(),
        };
        self.iterations.push(record);
        proof {
            assert(self.iterations@.take(pre.iterations@.len() as int) =~= pre.iterations@);
        }
        match answer {
            Some(ans) => {
                let sub = self.sub_usage;
                self.usage.add(&sub);
                self.phase = Phase::Finished;
                let mut iterations: Vec<RlmIteration> = Vec::new();
                std::mem::swap(&mut iterations, &mut self.iterations);
                let completion = RlmCompletion {
                    prompt: PromptInput::Text(self.context.clone()),
                    response: ans,
                    iterations,
                    usage: self.usage,
                    execution_time: elapsed.total.clone(),
                };
                Action::Done(completion)
            },
            None => {
                if self.iterations.len() < self.max_iterations as usize {
                    let msg = build_continue_prompt(index, self.max_iterations);
                    self.history.push(Message::user(msg.as_str()));
                    proof {
                        assert(self.history@.take(pre.history@.len() as int) =~= pre.history@);
                    }
                    self.phase = Phase::AwaitReply;
                    Action::CallModel
                } else {
                    self.phase = Phase::Finished;
                    Action::Failed(RlmError::MaxIterationsReached(self.max_iterations))
                }
            },
        }
    }
}


impl Session {
    /// Takes the model's reply. A reply that opens a turn is cut after its
    /// first block and recorded; its block, if any, is to be run, else the
    /// turn ends. A reply to a repair request is recorded whole; its first
    /// block, if any, is to be run, else the turn ends with the failed run.
    pub fn on_reply(&mut self, text: &str, usage: &Usage, locals: &Snapshot, elapsed: &Elapsed) -> (r:
        Action)
        requires
            old(self).wf(),
            usage.wf(),
            old(self).phase is AwaitReply || old(self).phase is AwaitFix,
            old(self).headroom(usage.total_tokens),
        ensures
            final(self).wf(),
            completion_sound(old(self).max_iterations, r),
            final(self).context == old(self).context,
            ({
                let u = Usage {
                    input_tokens: (old(self).usage.input_tokens + usage.input_tokens) as u64,
                    output_tokens: (old(self).usage.output_tokens + usage.output_tokens) as u64,
                    total_tokens: (old(self).usage.total_tokens + usage.total_tokens) as u64,
                };
                match old(self).phase {
                    Phase::AwaitFix { response, code, result, retry_count } => {
                        let hist = final(self).history@.take(old(self).history@.len() as int + 1);
                        &&& pushed(old(self).history@, hist, Role::Assistant, text@)
                        &&& if code_blocks(text@).len() > 0 {
                            &&& r == Action::Execute(final(self).phase->AwaitExec_code)
                            &&& final(self).phase matches Phase::AwaitExec { response: p, code: c, retry_count: n }
                                && p == response && c@ == code_blocks(text@)[0] && n == retry_count
                            &&& final(self).history@ == hist
                            &&& final(self).iterations == old(self).iterations
                            &&& final(self).usage == u
                            &&& final(self).context == old(self).context
                            &&& final(self).sub_usage == old(self).sub_usage
                            &&& final(self).max_iterations == old(self).max_iterations
                            &&& final(self).max_exec_retries == old(self).max_exec_retries
                        } else {
                            turn_ended(
                                *old(self),
                                hist,
                                u,
                                response@,
                                Some(CodeBlock { code, result: Some(result), retry_count }),
                                locals@,
                                *final(self),
                                r,
                            )
                        }
                    },
                    _ => {
                        let resp = crate::rlm::truncated(text@);
                        let hist = final(self).history@.take(old(self).history@.len() as int + 1);
                        &&& pushed(old(self).history@, hist, Role::Assistant, resp)
                        &&& if code_blocks(resp).len() > 0 {
                            &&& r == Action::Execute(final(self).phase->AwaitExec_code)
                            &&& final(self).phase matches Phase::AwaitExec { response: p, code: c, retry_count: n }
                                && p@ == resp && c@ == code_blocks(resp)[0] && n == 0
                            &&& final(self).history@ == hist
                            &&& final(self).iterations == old(self).iterations
                            &&& final(self).usage == u
                            &&& final(self).context == old(self).context
                            &&& final(self).sub_usage == old(self).sub_usage
                            &&& final(self).max_iterations == old(self).max_iterations
                            &&& final(self).max_exec_retries == old(self).max_exec_retries
                        } else {
                            turn_ended(*old(self), hist, u, resp, None, locals@, *final(self), r)
                        }
                    },
                }
            }),
    {
        self.usage.add(usage);
        let mut phase = Phase::Finished;
        std::mem::swap(&mut phase, &mut self.phase);
        match phase {
            Phase::AwaitFix { response, code, result, retry_count } => {
                let ghost h0 = self.history@;
                self.history.push(Message::assistant(text));
                let ghost hh = self.history@;
                assert(hh.take(h0.len() as int) =~= h0);
                let blocks = extract_code_blocks(text);
                if blocks.len() > 0 {
                    let next = blocks[0].clone();
                    assert(self.history@.take(h0.len() as int + 1) =~= hh);
                    self.phase = Phase::AwaitExec { response, code: next.clone(), retry_count };
                    Action::Execute(next)
                } else {
                    self.phase = Phase::AwaitReply;
                    let block = CodeBlock { code, result: Some(result), retry_count };
                    let r = self.end_turn(response, Some(block), locals, elapsed);
                    assert(self.history@.take(h0.len() as int + 1) =~= hh);
                    r
                }
            },
            _ => {
                let response = truncate_after_first_repl_block(text);
                let ghost h0 = self.history@;
                self.history.push(Message::assistant(response.as_str()));
                let ghost hh = self.history@;
                assert(hh.take(h0.len() as int) =~= h0);
                let blocks = extract_code_blocks(response.as_str());
                if blocks.len() > 0 {
                    let next = blocks[0].clone();
                    assert(self.history@.take(h0.len() as int + 1) =~= hh);
                    self.phase = Phase::AwaitExec { response, code: next.clone(), retry_count: 0 };
                    Action::Execute(next)
                } else {
                    self.phase = Phase::AwaitReply;
                    let r = self.end_turn(response, None, locals, elapsed);
                    assert(self.history@.take(h0.len() as int + 1) =~= hh);
                    r
                }
            },
        }
    }
}


impl Session {
    /// Takes the result of running the pending block and reports it to the
    /// model. A run that succeeded, or that failed once the repairs are used
    /// up, ends the turn; a failed run otherwise asks the model for a repair.
    pub fn on_executed(&mut self, result: ReplResult, locals: &Snapshot, elapsed: &Elapsed) -> (r:
        Action)
        requires
            old(self).wf(),
            old(self).phase is AwaitExec,
            old(self).headroom(0),
        ensures
            final(self).wf(),
            completion_sound(old(self).max_iterations, r),
            final(self).context == old(self).context,
            ({
                let hist = final(self).history@.take(old(self).history@.len() as int + 1);
                let response = old(self).phase->AwaitExec_response;
                let code = old(self).phase->AwaitExec_code;
                let retry_count = old(self).phase->AwaitExec_retry_count;
                &&& pushed(old(self).history@, hist, Role::User, result_message(result))
                &&& if result.success || retry_count >= old(self).max_exec_retries {
                    turn_ended(
                        *old(self),
                        hist,
                        old(self).usage,
                        response@,
                        Some(CodeBlock { code, result: Some(result), retry_count }),
                        locals@,
                        *final(self),
                        r,
                    )
                } else {
                    &&& r is CallModel
                    &&& final(self).phase == Phase::AwaitFix {
                        response,
                        code,
                        result,
                        retry_count: (retry_count + 1) as u32,
                    }
                    &&& pushed(hist, final(self).history@, Role::User, FIX_PROMPT@)
                    &&& final(self).iterations == old(self).iterations
                    &&& final(self).usage == old(self).usage
                    &&& final(self).context == old(self).context
                    &&& final(self).sub_usage == old(self).sub_usage
                    &&& final(self).max_iterations == old(self).max_iterations
                    &&& final(self).max_exec_retries == old(self).max_exec_retries
                }
            }),
    {
        let mut phase = Phase::Finished;
        std::mem::swap(&mut phase, &mut self.phase);
        match phase {
            Phase::AwaitExec { response, code, retry_count } => {
                let report = format_result_message(&result);
                let ghost h0 = self.history@;
                self.history.push(Message::user(report.as_str()));
                let ghost hh = self.history@;
                assert(hh.take(h0.len() as int) =~= h0);
                if result.success || retry_count >= self.max_exec_retries {
                    self.phase = Phase::AwaitReply;
                    let block = CodeBlock { code, result: Some(result), retry_count };
                    let r = self.end_turn(response, Some(block), locals, elapsed);
                    assert(self.history@.take(h0.len() as int + 1) =~= hh);
                    r
                } else {
                    self.history.push(Message::user(FIX_PROMPT));
                    assert(self.history@.take(h0.len() as int + 1) =~= hh);
                    assert(self.history@.take(hh.len() as int) =~= hh);
                    self.phase = Phase::AwaitFix {
                        response,
                        code,
                        result,
                        retry_count: retry_count + 1,
                    };
                    Action::CallModel
                }
            },
            // the precondition rules out every other phase
            _ => Action::CallModel,
        }
    }

    /// Counts the tokens of a model call made from inside the interpreter;
    /// they join the total when the completion ends.
    pub fn on_sub_usage(&mut self, usage: &Usage)
        requires
            old(self).wf(),
            usage.wf(),
            old(self).headroom(usage.total_tokens),
        ensures
            final(self).wf(),
            final(self).sub_usage.input_tokens == old(self).sub_usage.input_tokens
                + usage.input_tokens,
            final(self).sub_usage.output_tokens == old(self).sub_usage.output_tokens
                + usage.output_tokens,
            final(self).sub_usage.total_tokens == old(self).sub_usage.total_tokens
                + usage.total_tokens,
            final(self).usage == old(self).usage,
            final(self).history == old(self).history,
            final(self).iterations == old(self).iterations,
            final(self).phase == old(self).phase,
            final(self).context == old(self).context,
            final(self).max_iterations == old(self).max_iterations,
            final(self).max_exec_retries == old(self).max_exec_retries,
    {
        self.sub_usage.add(usage);
    }
}


/// The contents of the user messages of `m`, in order.
pub open spec fn user_contents(m: Seq<Message>) -> Seq<Seq<char>>
    decreases m.len(),
{
    if m.len() == 0 {
        Seq::empty()
    } else if m.last().role == Role::User {
        user_contents(m.drop_last()).push(m.last().content@)
    } else {
        user_contents(m.drop_last())
    }
}

/// The lines `v`, joined by line feeds.
pub open spec fn lines_joined(v: Seq<Seq<char>>) -> Seq<char>
    decreases v.len(),
{
    if v.len() == 0 {
        Seq::empty()
    } else if v.len() == 1 {
        v[0]
    } else {
        lines_joined(v.drop_last()) + seq!['\n'] + v.last()
    }
}

/// What a prompt puts in `context`: its text, or the contents of its user
/// messages, one per line.
pub open spec fn context_of(p: PromptInput) -> Seq<char> {
    match p {
        PromptInput::Text(s) => s@,
        PromptInput::Messages(m) => lines_joined(user_contents(m@)),
    }
}

/// The text that a prompt binds to `context`.
pub fn context_payload(prompt: &PromptInput) -> (r: String)
    ensures
        r@ == context_of(*prompt),
{
    match prompt {
        PromptInput::Text(s) => s.clone(),
        PromptInput::Messages(msgs) => {
            let mut out = String::new();
            let mut any = false;
            let mut i: usize = 0;
            while i < msgs.len()
                invariant
                    i <= msgs@.len(),
                    out@ == lines_joined(user_contents(msgs@.take(i as int))),
                    any == (user_contents(msgs@.take(i as int)).len() > 0),
                decreases msgs.len() - i,
            {
                let ghost pre = msgs@.take(i as int);
                proof {
                    assert(msgs@.take(i + 1).drop_last() =~= pre);
                }
                if msgs[i].role == Role::User {
                    if any {
                        crate::text::push_char(&mut out, '\n');
                    }
                    append_str(&mut out, msgs[i].content.as_str());
                    any = true;
                }
                proof {
                    let u = user_contents(msgs@.take(i + 1));
                    if msgs@[i as int].role == Role::User {
                        assert(u.drop_last() =~= user_contents(pre));
                    }
                    assert(out@ =~= lines_joined(u));
                }
                i = i + 1;
            }
            assert(msgs@.take(i as int) =~= msgs@);
            out
        },
    }
}


/// A turn whose block handed a value to `llm_output` ends the completion
/// with that value as its answer, whatever `FINAL_ANSWER: ` line or
/// `FINAL(...)` marker the turn also holds.
pub proof fn law_llm_output_wins(
    pre: Session,
    hist: Seq<Message>,
    usage: Usage,
    response: Seq<char>,
    block: CodeBlock,
    locals: Map<Seq<char>, Seq<char>>,
    post: Session,
    a: Action,
)
    requires
        block.result matches Some(r) && r.llm_output is Some,
        turn_ended(pre, hist, usage, response, Some(block), locals, post, a),
    ensures
        a is Done,
        a->Done_0.response@ == block.result->0.llm_output->0@,
{
}


/// The content of the first system message of `m`, if any.
pub open spec fn first_system(m: Seq<Message>) -> Option<Seq<char>>
    decreases m.len(),
{
    if m.len() == 0 {
        None
    } else if m[0].role == Role::System {
        Some(m[0].content@)
    } else {
        first_system(m.subrange(1, m.len() as int))
    }
}

/// The messages of `m` that are not system messages, in order.
pub open spec fn non_system(m: Seq<Message>) -> Seq<Message>
    decreases m.len(),
{
    if m.len() == 0 {
        Seq::empty()
    } else if m.last().role == Role::System {
        non_system(m.drop_last())
    } else {
        non_system(m.drop_last()).push(m.last())
    }
}

/// Splits a history for providers that take the system prompt apart: the
/// first system message's content, and every other message in order.
pub fn split_system(history: &Vec<Message>) -> (r: (Option<String>, Vec<Message>))
    ensures
        opt_view(r.0) == first_system(history@),
        r.1@.len() == non_system(history@).len(),
        forall|i: int|
            0 <= i < r.1@.len() ==> (#[trigger] r.1@[i]).role == non_system(history@)[i].role
                && r.1@[i].content@ == non_system(history@)[i].content@,
{
    let mut system: Option<String> = None;
    let mut rest: Vec<Message> = Vec::new();
    let mut i: usize = 0;
    assert(history@.subrange(0, history@.len() as int) =~= history@);
    while i < history.len()
        invariant
            i <= history@.len(),
            first_system(history@) == match system {
                Some(s) => Some(s@),
                None => first_system(history@.subrange(i as int, history@.len() as int)),
            },
            rest@.len() == non_system(history@.take(i as int)).len(),
            forall|j: int|
                0 <= j < rest@.len() ==> (#[trigger] rest@[j]).role == non_system(
                    history@.take(i as int),
                )[j].role && rest@[j].content@ == non_system(history@.take(i as int))[j].content@,
        decreases history.len() - i,
    {
        let ghost tail = history@.subrange(i as int, history@.len() as int);
        proof {
            assert(history@.take(i + 1).drop_last() =~= history@.take(i as int));
            assert(tail.subrange(1, tail.len() as int) =~= history@.subrange(i + 1, history@.len() as int));
        }
        let m = &history[i];
        if m.role == Role::System {
            if system.is_none() {
                system = Some(m.content.clone());
            }
        } else {
            rest.push(Message { role: m.role, content: m.content.clone() });
        }
        i = i + 1;
    }
    assert(history@.take(i as int) =~= history@);
    (system, rest)
}

} // verus!
