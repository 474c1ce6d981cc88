//! The records that a completion produces and consumes.
use crate::snapshot::Snapshot;
use core::time::Duration;
use vstd::prelude::*;

verus! {

/// Relies on `Duration`'s `Clone`, which is the copy of a `Copy` type.
pub assume_specification[ <core::time::Duration as Clone>::clone ](d: &Duration) -> (r: Duration)
    ensures
        r == *d,
;

/// The provider family that serves the language model.
#[derive(Clone, Copy, Debug, PartialEq, Eq, Structural)]
pub enum Backend {
    OpenAI,
    Anthropic,
}

impl Default for Backend {
    fn default() -> (r: Backend)
        ensures
            r == Backend::OpenAI,
    {
        Backend::OpenAI
    }
}

/// Token counts of one or more model calls.
#[derive(Clone, Copy, Debug, PartialEq, Eq, Structural)]
pub struct Usage {
    pub input_tokens: u64,
    pub output_tokens: u64,
    pub total_tokens: u64,
}

impl Usage {
    /// The total is the sum of the input and output counts.
    pub open spec fn wf(&self) -> bool {
        self.total_tokens == self.input_tokens + self.output_tokens
    }

    /// Usage of `input` prompt tokens and `output` completion tokens.
    pub fn new(input: u64, output: u64) -> (r: Usage)
        requires
            input + output <= u64::MAX,
        ensures
            r.input_tokens == input,
            r.output_tokens == output,
            r.total_tokens == input + output,
            r.wf(),
    {
        Usage { input_tokens: input, output_tokens: output, total_tokens: input + output }
    }

    /// Adds the counts of `other` to these.
    pub fn add(&mut self, other: &Usage)
        requires
            old(self).input_tokens + other.input_tokens <= u64::MAX,
            old(self).output_tokens + other.output_tokens <= u64::MAX,
            old(self).total_tokens + other.total_tokens <= u64::MAX,
        ensures
            final(self).input_tokens == old(self).input_tokens + other.input_tokens,
            final(self).output_tokens == old(self).output_tokens + other.output_tokens,
            final(self).total_tokens == old(self).total_tokens + other.total_tokens,
            old(self).wf() && other.wf() ==> final(self).wf(),
    {
        self.input_tokens = self.input_tokens + other.input_tokens;
        self.output_tokens = self.output_tokens + other.output_tokens;
        self.total_tokens = self.total_tokens + other.total_tokens;
    }
}

impl Default for Usage {
    fn default() -> (r: Usage)
        ensures
            r.input_tokens == 0,
            r.output_tokens == 0,
            r.total_tokens == 0,
    {
        Usage { input_tokens: 0, output_tokens: 0, total_tokens: 0 }
    }
}

/// Who wrote a message.
#[derive(Clone, Copy, Debug, PartialEq, Eq, Structural)]
pub enum Role {
    System,
    User,
    Assistant,
}

/// One message of a conversation with the model.
#[derive(Clone, Debug)]
pub struct Message {
    pub role: Role,
    pub content: String,
}

impl Message {
    pub fn system(content: &str) -> (r: Message)
        ensures
            r.role == Role::System,
            r.content@ == content@,
    {
        Message { role: Role::System, content: content.to_string() }
    }

    pub fn user(content: &str) -> (r: Message)
        ensures
            r.role == Role::User,
            r.content@ == content@,
    {
        Message { role: Role::User, content: content.to_string() }
    }

    pub fn assistant(content: &str) -> (r: Message)
        ensures
            r.role == Role::Assistant,
            r.content@ == content@,
    {
        Message { role: Role::Assistant, content: content.to_string() }
    }
}

/// A prompt: plain text or a list of messages.
#[derive(Clone, Debug)]
pub enum PromptInput {
    Text(String),
    Messages(Vec<Message>),
}

/// The name of a role as it is displayed.
pub open spec fn role_name(r: Role) -> Seq<char> {
    match r {
        Role::System => "System"@,
        Role::User => "User"@,
        Role::Assistant => "Assistant"@,
    }
}

/// Messages displayed one per line, as `[Role]: content`.
pub open spec fn messages_text(m: Seq<Message>) -> Seq<char>
    decreases m.len(),
{
    if m.len() == 0 {
        Seq::empty()
    } else {
        messages_text(m.drop_last()) + "["@ + role_name(m.last().role) + "]: "@ + m.last().content@
            + "\n"@
    }
}

impl PromptInput {
    /// The prompt as display text: the text itself, or each message as
    /// `[Role]: content` on a line of its own.
    pub fn to_text(&self) -> (r: String)
        ensures
            r@ == match self {
                PromptInput::Text(s) => s@,
                PromptInput::Messages(m) => messages_text(m@),
            },
    {
        match self {
            PromptInput::Text(s) => s.clone(),
            PromptInput::Messages(msgs) => {
                let mut out = String::new();
                let mut i: usize = 0;
                while i < msgs.len()
                    invariant
                        i <= msgs@.len(),
                        out@ == messages_text(msgs@.take(i as int)),
                    decreases msgs.len() - i,
                {
                    out.append("[");
                    match msgs[i].role {
                        Role::System => out.append("System"),
                        Role::User => out.append("User"),
                        Role::Assistant => out.append("Assistant"),
                    }
                    out.append("]: ");
                    out.append(msgs[i].content.as_str());
                    out.append("\n");
                    proof {
                        assert(msgs@.take(i + 1).drop_last() =~= msgs@.take(i as int));
                        assert(out@ =~= messages_text(msgs@.take(i + 1)));
                    }
                    i = i + 1;
                }
                assert(msgs@.take(i as int) =~= msgs@);
                out
            },
        }
    }
}

impl From<String> for PromptInput {
    fn from(s: String) -> (r: PromptInput) {
        PromptInput::Text(s)
    }
}

impl vstd::std_specs::convert::FromSpecImpl<String> for PromptInput {
    open spec fn obeys_from_spec() -> bool {
        true
    }

    open spec fn from_spec(s: String) -> PromptInput {
        PromptInput::Text(s)
    }
}

impl From<Vec<Message>> for PromptInput {
    fn from(m: Vec<Message>) -> (r: PromptInput) {
        PromptInput::Messages(m)
    }
}

impl vstd::std_specs::convert::FromSpecImpl<Vec<Message>> for PromptInput {
    open spec fn obeys_from_spec() -> bool {
        true
    }

    open spec fn from_spec(m: Vec<Message>) -> PromptInput {
        PromptInput::Messages(m)
    }
}

/// The result of one call of the model.
#[derive(Clone, Debug)]
pub struct ChatCompletion {
    pub prompt: PromptInput,
    pub response: String,
    pub usage: Usage,
    pub execution_time: Duration,
}

/// What running one code block in the interpreter gave.
#[derive(Clone)]
pub struct ReplResult {
    pub stdout: String,
    pub stderr: String,
    pub locals: Snapshot,
    pub execution_time: Duration,
    pub llm_calls: Vec<ChatCompletion>,
    pub success: bool,
    pub error: Option<String>,
    /// The answer handed to `llm_output`, which ends the loop.
    pub llm_output: Option<String>,
}

impl ReplResult {
    /// Success exactly when there is no error; an answer only on success.
    pub open spec fn wf(&self) -> bool {
        &&& self.success == (self.error is None)
        &&& (self.llm_output is Some ==> self.success)
    }

    /// A run that raised nothing.
    pub fn success(stdout: String, locals: Snapshot, execution_time: Duration) -> (r: ReplResult)
        ensures
            r.stdout == stdout,
            r.stderr@.len() == 0,
            r.locals == locals,
            r.execution_time == execution_time,
            r.llm_calls@.len() == 0,
            r.success,
            r.error is None,
            r.llm_output is None,
            r.wf(),
    {
        ReplResult {
            stdout,
            stderr: String::new(),
            locals,
            execution_time,
            llm_calls: Vec::new(),
            success: true,
            error: None,
            llm_output: None,
        }
    }

    /// A run that raised `error`.
    pub fn failure(error: String, stderr: String, execution_time: Duration) -> (r: ReplResult)
        ensures
            r.stdout@.len() == 0,
            r.stderr == stderr,
            r.locals@ == Map::<Seq<char>, Seq<char>>::empty(),
            r.execution_time == execution_time,
            r.llm_calls@.len() == 0,
            !r.success,
            r.error == Some(error),
            r.llm_output is None,
            r.wf(),
    {
        ReplResult {
            stdout: String::new(),
            stderr,
            locals: Snapshot::new(),
            execution_time,
            llm_calls: Vec::new(),
            success: false,
            error: Some(error),
            llm_output: None,
        }
    }
}

/// A code block that ran, with its last result and the number of repairs
/// asked for.
#[derive(Clone)]
pub struct CodeBlock {
    pub code: String,
    pub result: Option<ReplResult>,
    pub retry_count: u32,
}

/// One turn of the loop.
#[derive(Clone)]
pub struct RlmIteration {
    pub iteration: u32,
    pub response: String,
    pub code_blocks: Vec<CodeBlock>,
    pub final_answer: Option<String>,
    pub execution_time: Duration,
}

/// The outcome of a completion that found an answer.
#[derive(Clone)]
pub struct RlmCompletion {
    pub prompt: PromptInput,
    pub response: String,
    pub iterations: Vec<RlmIteration>,
    pub usage: Usage,
    pub execution_time: Duration,
}

} // verus!
