//! The context that an interactive chat hands to the loop on each turn.
use crate::prompts::append_str;
use vstd::prelude::*;

verus! {

/// One turn of a chat: who spoke, and what.
#[derive(Clone, Debug)]
pub struct ChatMessage {
    pub role: String,
    pub content: String,
}

pub const CHAT_PREAMBLE: &'static str = "System: You are a super nice AI agent in conversation with User.\n\n";

/// The lines `role: content` of the turns `h`.
pub open spec fn chat_lines(h: Seq<ChatMessage>) -> Seq<char>
    decreases h.len(),
{
    if h.len() == 0 {
        Seq::empty()
    } else {
        chat_lines(h.drop_last()) + h.last().role@ + ": "@ + h.last().content@ + "\n"@
    }
}

/// The context of a chat turn: the preamble, the loaded file if any, the
/// turns before the latest, and the query, followed by the assistant's cue.
pub open spec fn chat_payload(file: Option<Seq<char>>, h: Seq<ChatMessage>, query: Seq<char>) -> Seq<
    char,
> {
    let prior = if h.len() > 0 {
        h.drop_last()
    } else {
        h
    };
    CHAT_PREAMBLE@ + match file {
        Some(f) => f + "\n\n"@,
        None => Seq::empty(),
    } + chat_lines(prior) + "User: "@ + query + "\n"@ + "Assistant: "@
}

/// Builds the context of a chat turn. The latest entry of `history` is the
/// query itself and is left out of the turns.
pub fn build_context_payload(
    file_context: Option<&str>,
    history: &Vec<ChatMessage>,
    current_query: &str,
) -> (r: String)
    ensures
        r@ == chat_payload(
            match file_context {
                Some(f) => Some(f@),
                None => None,
            },
            history@,
            current_query@,
        ),
{
    let mut s = String::from_str(CHAT_PREAMBLE);
    match file_context {
        Some(f) => {
            append_str(&mut s, f);
            append_str(&mut s, "\n\n");
        },
        None => {
            assert(s@ + Seq::<char>::empty() =~= s@);
        },
    }
    let ghost head = s@;
    let n = if history.len() > 0 {
        history.len() - 1
    } else {
        0
    };
    let ghost prior = if history@.len() > 0 {
        history@.drop_last()
    } else {
        history@
    };
    assert(prior =~= history@.take(n as int));
    let mut i: usize = 0;
    while i < n
        invariant
            i <= n <= history@.len(),
            prior == history@.take(n as int),
            s@ == head + chat_lines(history@.take(i as int)),
        decreases n - i,
    {
        append_str(&mut s, history[i].role.as_str());
        append_str(&mut s, ": ");
        append_str(&mut s, history[i].content.as_str());
        append_str(&mut s, "\n");
        proof {
            assert(history@.take(i + 1).drop_last() =~= history@.take(i as int));
            assert(s@ =~= head + chat_lines(history@.take(i + 1)));
        }
        i = i + 1;
    }
    append_str(&mut s, "User: ");
    append_str(&mut s, current_query);
    append_str(&mut s, "\n");
    append_str(&mut s, "Assistant: ");
    s
}

} // verus!
