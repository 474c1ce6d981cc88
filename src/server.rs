//! The records of an OpenAI-style chat-completions surface over the loop.
use crate::prompts::append_str;
use crate::types::{Message, Role, Usage};
use vstd::prelude::*;

verus! {

/// A chat message as the surface carries it.
#[derive(Clone, Debug)]
pub struct ChatMessage {
    pub role: String,
    pub content: String,
}

/// One choice of a complete answer.
#[derive(Clone, Debug)]
pub struct ChatCompletionChoice {
    pub index: u32,
    pub message: ChatMessage,
    pub finish_reason: String,
}

/// Token counts as the surface reports them.
#[derive(Clone, Copy, Debug)]
pub struct CompletionUsage {
    pub prompt_tokens: u64,
    pub completion_tokens: u64,
    pub total_tokens: u64,
}

/// A complete answer.
#[derive(Clone, Debug)]
pub struct ChatCompletionResponse {
    pub id: String,
    pub object: String,
    pub created: u64,
    pub model: String,
    pub choices: Vec<ChatCompletionChoice>,
    pub usage: CompletionUsage,
}

/// The change that one streamed piece brings.
#[derive(Clone, Debug)]
pub struct ChatMessageDelta {
    pub role: Option<String>,
    pub content: Option<String>,
}

/// One choice of a streamed piece.
#[derive(Clone, Debug)]
pub struct ChatCompletionChunkChoice {
    pub index: u32,
    pub delta: ChatMessageDelta,
    pub finish_reason: Option<String>,
}

/// One streamed piece of an answer.
#[derive(Clone, Debug)]
pub struct ChatCompletionChunk {
    pub id: String,
    pub object: String,
    pub created: u64,
    pub model: String,
    pub choices: Vec<ChatCompletionChunkChoice>,
}

/// What the server was started with.
#[derive(Clone, Debug)]
pub struct AppState {
    pub model: String,
    pub backend_url: String,
    pub backend_key: Option<String>,
}

/// Relies on `SystemTime::now`: the seconds since the Unix epoch, or 0 for
/// a clock set before it. Nothing is known of the value.
#[verifier::external_body]
fn unix_now() -> (r: u64) {
    std::time::SystemTime::now().duration_since(std::time::UNIX_EPOCH).map(|d| d.as_secs()).unwrap_or(
        0,
    )
}

impl ChatCompletionResponse {
    /// An answer of one choice, by the assistant, stamped with the time now.
    pub fn new(id: String, model: String, content: String, usage: CompletionUsage) -> (r: Self)
        ensures
            r.id == id,
            r.object@ == "chat.completion"@,
            r.model == model,
            r.choices@.len() == 1,
            r.choices@[0].index == 0,
            r.choices@[0].message.role@ == "assistant"@,
            r.choices@[0].message.content == content,
            r.choices@[0].finish_reason@ == "stop"@,
            r.usage == usage,
    {
        Self::created_at(unix_now(), id, model, content, usage)
    }

    /// An answer of one choice, by the assistant, made at `created`.
    pub fn created_at(created: u64, id: String, model: String, content: String, usage: CompletionUsage) -> (r: Self)
        ensures
            r.id == id,
            r.object@ == "chat.completion"@,
            r.created == created,
            r.model == model,
            r.choices@.len() == 1,
            r.choices@[0].index == 0,
            r.choices@[0].message.role@ == "assistant"@,
            r.choices@[0].message.content == content,
            r.choices@[0].finish_reason@ == "stop"@,
            r.usage == usage,
    {
        let choice = ChatCompletionChoice {
            index: 0,
            message: ChatMessage { role: String::from_str("assistant"), content },
            finish_reason: String::from_str("stop"),
        };
        ChatCompletionResponse {
            id,
            object: String::from_str("chat.completion"),
            created,
            model,
            choices: vec![choice],
            usage,
        }
    }
}

impl ChatCompletionChunk {
    /// A piece of one choice with the given delta and finish reason.
    fn piece(
        created: u64,
        id: String,
        model: String,
        delta: ChatMessageDelta,
        finish_reason: Option<String>,
    ) -> (r: Self)
        ensures
            r.id == id,
            r.object@ == "chat.completion.chunk"@,
            r.created == created,
            r.model == model,
            r.choices@.len() == 1,
            r.choices@[0].index == 0,
            r.choices@[0].delta == delta,
            r.choices@[0].finish_reason == finish_reason,
    {
        let choice = ChatCompletionChunkChoice { index: 0, delta, finish_reason };
        ChatCompletionChunk {
            id,
            object: String::from_str("chat.completion.chunk"),
            created,
            model,
            choices: vec![choice],
        }
    }

    /// The opening piece, made at `created`: it names the assistant.
    pub fn with_role_at(created: u64, id: String, model: String) -> (r: Self)
        ensures
            r.id == id,
            r.object@ == "chat.completion.chunk"@,
            r.created == created,
            r.model == model,
            r.choices@.len() == 1,
            r.choices@[0].index == 0,
            r.choices@[0].delta.role matches Some(x) && x@ == "assistant"@,
            r.choices@[0].delta.content is None,
            r.choices@[0].finish_reason is None,
    {
        let delta = ChatMessageDelta { role: Some(String::from_str("assistant")), content: None };
        Self::piece(created, id, model, delta, None)
    }

    /// A piece, made at `created`, that carries `content`.
    pub fn with_content_at(created: u64, id: String, model: String, content: String) -> (r: Self)
        ensures
            r.id == id,
            r.object@ == "chat.completion.chunk"@,
            r.created == created,
            r.model == model,
            r.choices@.len() == 1,
            r.choices@[0].index == 0,
            r.choices@[0].delta.role is None,
            r.choices@[0].delta.content == Some(content),
            r.choices@[0].finish_reason is None,
    {
        let delta = ChatMessageDelta { role: None, content: Some(content) };
        Self::piece(created, id, model, delta, None)
    }

    /// The closing piece, made at `created`: empty, with the reason `stop`.
    pub fn finished_at(created: u64, id: String, model: String) -> (r: Self)
        ensures
            r.id == id,
            r.object@ == "chat.completion.chunk"@,
            r.created == created,
            r.model == model,
            r.choices@.len() == 1,
            r.choices@[0].index == 0,
            r.choices@[0].delta.role is None,
            r.choices@[0].delta.content is None,
            r.choices@[0].finish_reason matches Some(x) && x@ == "stop"@,
    {
        let delta = ChatMessageDelta { role: None, content: None };
        Self::piece(created, id, model, delta, Some(String::from_str("stop")))
    }

    /// The opening piece, stamped with the time now.
    pub fn with_role(id: String, model: String) -> (r: Self)
        ensures
            r.id == id,
            r.model == model,
            r.choices@.len() == 1,
            r.choices@[0].delta.role matches Some(x) && x@ == "assistant"@,
            r.choices@[0].delta.content is None,
            r.choices@[0].finish_reason is None,
    {
        Self::with_role_at(unix_now(), id, model)
    }

    /// A piece that carries `content`, stamped with the time now.
    pub fn with_content(id: String, model: String, content: String) -> (r: Self)
        ensures
            r.id == id,
            r.model == model,
            r.choices@.len() == 1,
            r.choices@[0].delta.role is None,
            r.choices@[0].delta.content == Some(content),
            r.choices@[0].finish_reason is None,
    {
        Self::with_content_at(unix_now(), id, model, content)
    }

    /// The closing piece, stamped with the time now.
    pub fn finished(id: String, model: String) -> (r: Self)
        ensures
            r.id == id,
            r.model == model,
            r.choices@.len() == 1,
            r.choices@[0].delta.role is None,
            r.choices@[0].delta.content is None,
            r.choices@[0].finish_reason matches Some(x) && x@ == "stop"@,
    {
        Self::finished_at(unix_now(), id, model)
    }
}

/// The role that a role name denotes; any unknown name is the user.
pub open spec fn role_of(name: Seq<char>) -> Role {
    if name == "system"@ {
        Role::System
    } else if name == "assistant"@ {
        Role::Assistant
    } else {
        Role::User
    }
}

/// Turns the surface's messages into the loop's, one for one.
pub fn convert_messages(messages: &Vec<ChatMessage>) -> (r: Vec<Message>)
    ensures
        r@.len() == messages@.len(),
        forall|i: int|
            0 <= i < r@.len() ==> (#[trigger] r@[i]).role == role_of(messages@[i].role@)
                && r@[i].content@ == messages@[i].content@,
{
    let system = String::from_str("system");
    let assistant = String::from_str("assistant");
    let mut out: Vec<Message> = Vec::new();
    let mut i: usize = 0;
    while i < messages.len()
        invariant
            i <= messages@.len(),
            system@ == "system"@,
            assistant@ == "assistant"@,
            out@.len() == i,
            forall|j: int|
                0 <= j < i ==> (#[trigger] out@[j]).role == role_of(messages@[j].role@)
                    && out@[j].content@ == messages@[j].content@,
        decreases messages.len() - i,
    {
        let m = &messages[i];
        let role = if m.role == system {
            Role::System
        } else if m.role == assistant {
            Role::Assistant
        } else {
            Role::User
        };
        out.push(Message { role, content: m.content.clone() });
        i = i + 1;
    }
    out
}

/// The loop's token counts as the surface reports them.
pub fn completion_usage(usage: &Usage) -> (r: CompletionUsage)
    ensures
        r.prompt_tokens == usage.input_tokens,
        r.completion_tokens == usage.output_tokens,
        r.total_tokens == usage.total_tokens,
{
    CompletionUsage {
        prompt_tokens: usage.input_tokens,
        completion_tokens: usage.output_tokens,
        total_tokens: usage.total_tokens,
    }
}

/// The concatenation of the pieces.
pub open spec fn joined(v: Seq<Seq<char>>) -> Seq<char>
    decreases v.len(),
{
    if v.len() == 0 {
        Seq::empty()
    } else {
        joined(v.drop_last()) + v.last()
    }
}

/// Splits an answer for streaming into pieces that each end just after a
/// space, the last one excepted: the pieces, joined, give the answer back.
pub fn stream_pieces(text: &str) -> (r: Vec<String>)
    ensures
        joined(crate::parsing::views(r@)) == text@,
        forall|i: int| 0 <= i < r@.len() ==> (#[trigger] r@[i])@.len() > 0,
        forall|i: int|
            0 <= i < r@.len() - 1 ==> (#[trigger] r@[i])@.last() == ' ' && forall|k: int|
                0 <= k < r@[i]@.len() - 1 ==> r@[i]@[k] != ' ',
        r@.len() > 0 ==> forall|k: int| 0 <= k < r@.last()@.len() - 1 ==> r@.last()@[k] != ' ',
{
    let t = crate::text::chars_of(text);
    let mut out: Vec<String> = Vec::new();
    let mut start: usize = 0;
    let mut i: usize = 0;
    while i < t.len()
        invariant
            start <= i <= t@.len(),
            t@ == text@,
            joined(crate::parsing::views(out@)) == t@.subrange(0, start as int),
            forall|k: int| start <= k < i ==> t@[k] != ' ',
            forall|j: int| 0 <= j < out@.len() ==> (#[trigger] out@[j])@.len() > 0,
            forall|j: int|
                0 <= j < out@.len() ==> (#[trigger] out@[j])@.last() == ' ' && forall|k: int|
                    0 <= k < out@[j]@.len() - 1 ==> out@[j]@[k] != ' ',
        decreases t.len() - i,
    {
        if t[i] == ' ' {
            let piece = crate::text::string_of(&t, start, i + 1);
            let ghost before = out@;
            out.push(piece);
            proof {
                assert(crate::parsing::views(out@).drop_last() =~= crate::parsing::views(before));
                assert(t@.subrange(0, i + 1) =~= t@.subrange(0, start as int) + t@.subrange(
                    start as int,
                    i + 1,
                ));
            }
            start = i + 1;
        }
        i = i + 1;
    }
    if start < t.len() {
        let piece = crate::text::string_of(&t, start, t.len());
        let ghost before = out@;
        out.push(piece);
        proof {
            assert(crate::parsing::views(out@).drop_last() =~= crate::parsing::views(before));
            assert(t@ =~= t@.subrange(0, start as int) + t@.subrange(start as int, t@.len() as int));
        }
    } else {
        assert(t@.subrange(0, start as int) =~= t@);
    }
    out
}

} // verus!
