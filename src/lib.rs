//! Recursive language model driver: the parsing, prompting and control
//! logic of a loop in which a language model explores its prompt through a
//! code interpreter, together with a tool-use layer and the records of an
//! OpenAI-style chat surface.
pub mod agent;
pub mod chat;
pub mod parsing;
pub mod prompts;
pub mod rlm;
pub mod server;
pub mod snapshot;
pub mod text;
pub mod types;

pub use crate::rlm::{Action, Elapsed, Phase, RlmError, Session};
pub use crate::snapshot::Snapshot;
pub use crate::types::{
    Backend, ChatCompletion, CodeBlock, Message, PromptInput, ReplResult, RlmCompletion,
    RlmIteration, Role, Usage,
};
