//! A tool-use layer over the completion loop: tools, their registry, and
//! the text protocol in which a model calls them (`<tool:name>args</tool>`,
//! `<answer>...</answer><done>`).
use crate::parsing::views;
use crate::prompts::append_str;
use crate::text::{
    chars_of, contains_exec, contains_seq, occurs_at, occurs_at_exec, string_of, trim_bounds,
    trimmed,
};
use vstd::prelude::*;

verus! {

/// What a tool run gave.
#[derive(Clone, Debug)]
pub struct ToolResult {
    pub success: bool,
    pub output: String,
    pub error: Option<String>,
}

impl ToolResult {
    /// A run that succeeded with `output`.
    pub fn ok(output: &str) -> (r: ToolResult)
        ensures
            r.success,
            r.output@ == output@,
            r.error is None,
    {
        ToolResult { success: true, output: output.to_string(), error: None }
    }

    /// A run that failed with `error`.
    pub fn err(error: &str) -> (r: ToolResult)
        ensures
            !r.success,
            r.output@.len() == 0,
            r.error matches Some(e) && e@ == error@,
    {
        ToolResult { success: false, output: String::new(), error: Some(error.to_string()) }
    }
}

/// A call of a tool, as read from a model's reply.
#[derive(Clone, Debug)]
pub struct ToolCall {
    pub name: String,
    pub args: String,
}

/// A tool that a model may call: its name, a description and a usage
/// example for the model, and what it does with its arguments.
pub trait Tool {
    fn name(&self) -> &str;

    fn description(&self) -> &str;

    fn usage(&self) -> &str;

    fn execute(&self, args: &str) -> ToolResult;
}

/// A boxed tool is a tool: registries of tools of several types hold
/// `Box<dyn Tool>`.
impl Tool for Box<dyn Tool> {
    fn name(&self) -> &str {
        (**self).name()
    }

    fn description(&self) -> &str {
        (**self).description()
    }

    fn usage(&self) -> &str {
        (**self).usage()
    }

    fn execute(&self, args: &str) -> ToolResult {
        (**self).execute(args)
    }
}

/// The name, description and usage that a registered tool reported, and
/// where the tool is held.
struct Entry {
    name: String,
    description: String,
    usage: String,
    slot: usize,
}

/// Tools by name, in the order of their first registration.
pub struct ToolRegistry<T: Tool> {
    entries: Vec<Entry>,
    tools: Vec<T>,
}

/// The documentation line pair of one tool.
pub open spec fn doc_entry(e: (Seq<char>, Seq<char>, Seq<char>)) -> Seq<char> {
    "- "@ + e.0 + ": "@ + e.1 + "\n  Usage: "@ + e.2 + "\n"@
}

/// The documentation of the tools `s`, one entry after another.
pub open spec fn docs_of(s: Seq<(Seq<char>, Seq<char>, Seq<char>)>) -> Seq<char>
    decreases s.len(),
{
    if s.len() == 0 {
        Seq::empty()
    } else {
        docs_of(s.drop_last()) + doc_entry(s.last())
    }
}

impl<T: Tool> View for ToolRegistry<T> {
    /// Name, description and usage of each tool.
    type V = Seq<(Seq<char>, Seq<char>, Seq<char>)>;

    closed spec fn view(&self) -> Seq<(Seq<char>, Seq<char>, Seq<char>)> {
        self.entries@.map_values(|e: Entry| (e.name@, e.description@, e.usage@))
    }
}

pub open spec fn names_of(s: Seq<(Seq<char>, Seq<char>, Seq<char>)>) -> Seq<Seq<char>> {
    s.map_values(|e: (Seq<char>, Seq<char>, Seq<char>)| e.0)
}

pub open spec fn has_name(s: Seq<(Seq<char>, Seq<char>, Seq<char>)>, n: Seq<char>) -> bool {
    exists|i: int| 0 <= i < s.len() && s[i].0 == n
}

/// `post` is `pre` with the tool described by `e` registered: in the place
/// of the tool of the same name, or else at the end.
pub open spec fn registered(
    pre: Seq<(Seq<char>, Seq<char>, Seq<char>)>,
    post: Seq<(Seq<char>, Seq<char>, Seq<char>)>,
    e: (Seq<char>, Seq<char>, Seq<char>),
) -> bool {
    if has_name(pre, e.0) {
        exists|i: int| 0 <= i < pre.len() && pre[i].0 == e.0 && post == pre.update(i, e)
    } else {
        post == pre.push(e)
    }
}

impl<T: Tool> ToolRegistry<T> {
    /// No two tools share a name, and every registered tool is held.
    pub open spec fn wf(&self) -> bool {
        &&& forall|i: int, j: int|
            0 <= i < j < self@.len() ==> (#[trigger] self@[i]).0 != (#[trigger] self@[j]).0
        &&& self.slots_held()
    }

    /// Each entry points at a held tool.
    pub closed spec fn slots_held(&self) -> bool {
        forall|i: int|
            0 <= i < self.entries@.len() ==> #[trigger] self.entries@[i].slot < self.tools@.len()
    }

    /// An empty registry.
    pub fn new() -> (r: ToolRegistry<T>)
        ensures
            r.wf(),
            r@.len() == 0,
    {
        let r = ToolRegistry { entries: Vec::new(), tools: Vec::new() };
        assert(r@ =~= Seq::empty());
        r
    }

    fn position(&self, name: &String) -> (r: Option<usize>)
        ensures
            match r {
                Some(i) => i < self@.len() && self@[i as int].0 == name@,
                None => !has_name(self@, name@),
            },
    {
        let mut i: usize = 0;
        while i < self.entries.len()
            invariant
                i <= self.entries@.len(),
                forall|j: int| 0 <= j < i ==> self@[j].0 != name@,
            decreases self.entries.len() - i,
        {
            if self.entries[i].name == *name {
                return Some(i);
            }
            i = i + 1;
        }
        None
    }

    /// Registers `tool` under the name it reports, with its description and
    /// usage; a tool already registered under that name is replaced in its
    /// place.
    pub fn register(&mut self, tool: T)
        requires
            old(self).wf(),
        ensures
            final(self).wf(),
            exists|e: (Seq<char>, Seq<char>, Seq<char>)| #[trigger]
                registered(old(self)@, final(self)@, e),
    {
        let name = tool.name().to_string();
        let description = tool.description().to_string();
        let usage = tool.usage().to_string();
        let ghost e = (name@, description@, usage@);
        let found = self.position(&name);
        let slot = self.tools.len();
        let entry = Entry { name, description, usage, slot };
        let ghost pre_entries = self.entries@;
        self.tools.push(tool);
        match found {
            Some(i) => {
                self.entries.set(i, entry);
                assert forall|k: int| 0 <= k < self.entries@.len() implies #[trigger] self.entries@[k].slot
                    < self.tools@.len() by {
                    if k != i {
                        assert(self.entries@[k] == pre_entries[k]);
                    }
                }
                assert(self@ =~= old(self)@.update(i as int, e));
                assert(registered(old(self)@, self@, e));
                assert forall|k: int| 0 <= k < self@.len() implies (#[trigger] self@[k]).0 == old(
                    self,
                )@[k].0 by {}
            },
            None => {
                self.entries.push(entry);
                assert forall|k: int| 0 <= k < self.entries@.len() implies #[trigger] self.entries@[k].slot
                    < self.tools@.len() by {
                    if k < pre_entries.len() {
                        assert(self.entries@[k] == pre_entries[k]);
                    }
                }
                assert(self@ =~= old(self)@.push(e));
                assert(registered(old(self)@, self@, e));
            },
        }
    }
}


impl<T: Tool> ToolRegistry<T> {
    /// The tool registered under `name`, if any.
    pub fn get(&self, name: &str) -> (r: Option<&T>)
        requires
            self.wf(),
        ensures
            r is Some <==> has_name(self@, name@),
    {
        let key = name.to_string();
        match self.position(&key) {
            Some(i) => Some(&self.tools[self.entries[i].slot]),
            None => None,
        }
    }

    /// The names of the registered tools, in order of registration.
    pub fn list(&self) -> (r: Vec<String>)
        ensures
            views(r@) == names_of(self@),
    {
        let mut out: Vec<String> = Vec::new();
        let mut i: usize = 0;
        while i < self.entries.len()
            invariant
                i <= self.entries@.len(),
                views(out@) =~= names_of(self@).take(i as int),
            decreases self.entries.len() - i,
        {
            let ghost before = out@;
            out.push(self.entries[i].name.clone());
            proof {
                assert(names_of(self@).take(i + 1) =~= names_of(self@).take(i as int).push(
                    self@[i as int].0,
                ));
                assert(views(out@) =~= views(before).push(self@[i as int].0));
            }
            i = i + 1;
        }
        assert(names_of(self@).take(i as int) =~= names_of(self@));
        out
    }

    /// The documentation of every tool for the system prompt: for each, a
    /// line `- name: description` and a line `  Usage: example`.
    pub fn generate_docs(&self) -> (r: String)
        ensures
            r@ == docs_of(self@),
    {
        let mut docs = String::new();
        let mut i: usize = 0;
        while i < self.entries.len()
            invariant
                i <= self.entries@.len(),
                docs@ == docs_of(self@.take(i as int)),
            decreases self.entries.len() - i,
        {
            let e = &self.entries[i];
            append_str(&mut docs, "- ");
            append_str(&mut docs, e.name.as_str());
            append_str(&mut docs, ": ");
            append_str(&mut docs, e.description.as_str());
            append_str(&mut docs, "\n  Usage: ");
            append_str(&mut docs, e.usage.as_str());
            append_str(&mut docs, "\n");
            proof {
                assert(self@.take(i + 1).drop_last() =~= self@.take(i as int));
                assert(docs@ =~= docs_of(self@.take(i as int)) + doc_entry(self@[i as int]));
            }
            i = i + 1;
        }
        assert(self@.take(i as int) =~= self@);
        docs
    }

    /// Runs the tool registered under `name` on `args`; fails naming the
    /// tool where there is none.
    pub fn execute(&self, name: &str, args: &str) -> (r: ToolResult)
        requires
            self.wf(),
        ensures
            !has_name(self@, name@) ==> (!r.success && r.output@.len() == 0 && r.error == Some(
                r.error->0,
            ) && r.error->0@ == "Unknown tool: "@ + name@),
    {
        match self.get(name) {
            Some(tool) => tool.execute(args),
            None => {
                let mut msg = String::from_str("Unknown tool: ");
                append_str(&mut msg, name);
                ToolResult::err(msg.as_str())
            },
        }
    }
}

// ---------------------------------------------------------------------------
// The tool-call protocol
// ---------------------------------------------------------------------------

/// The first place at or after `p` where `pat` occurs.
pub open spec fn find_from(t: Seq<char>, p: int, pat: Seq<char>) -> Option<int>
    decreases t.len() - p,
{
    if p < 0 || p > t.len() {
        None
    } else if occurs_at(t, p, pat) {
        Some(p)
    } else if p == t.len() {
        None
    } else {
        find_from(t, p + 1, pat)
    }
}

pub proof fn lemma_find_from(t: Seq<char>, p: int, pat: Seq<char>)
    ensures
        find_from(t, p, pat) matches Some(q) ==> p <= q && occurs_at(t, q, pat),
    decreases t.len() - p,
{
    if 0 <= p < t.len() && !occurs_at(t, p, pat) {
        lemma_find_from(t, p + 1, pat);
    }
}

fn find_from_exec(t: &Vec<char>, p: usize, pat: &Vec<char>) -> (r: Option<usize>)
    requires
        p <= t@.len(),
    ensures
        match r {
            Some(q) => find_from(t@, p as int, pat@) == Some(q as int),
            None => find_from(t@, p as int, pat@) is None,
        },
{
    let mut q = p;
    loop
        invariant
            p <= q <= t@.len(),
            find_from(t@, p as int, pat@) == find_from(t@, q as int, pat@),
        decreases t.len() - q,
    {
        if occurs_at_exec(t, q, pat) {
            return Some(q);
        }
        if q == t.len() {
            return None;
        }
        q = q + 1;
    }
}

pub open spec fn tool_open() -> Seq<char> {
    "<tool:"@
}

pub open spec fn tool_close() -> Seq<char> {
    "</tool>"@
}

/// The calls `<tool:name>args</tool>` at or after `p`, args trimmed. The
/// name runs to the first `>`; the reading stops at the first call that is
/// not closed.
pub open spec fn calls_from(t: Seq<char>, p: int) -> Seq<(Seq<char>, Seq<char>)>
    decreases t.len() - p,
    via calls_from_decreases
{
    if p < 0 || p > t.len() {
        Seq::empty()
    } else {
        match find_from(t, p, tool_open()) {
            None => Seq::empty(),
            Some(s) => {
                let a = s + tool_open().len();
                match find_from(t, a, seq!['>']) {
                    None => Seq::empty(),
                    Some(ne) => match find_from(t, ne + 1, tool_close()) {
                        None => Seq::empty(),
                        Some(e) => seq![(t.subrange(a, ne), trimmed(t.subrange(ne + 1, e)))]
                            + calls_from(t, e + tool_close().len()),
                    },
                }
            },
        }
    }
}

#[via_fn]
proof fn calls_from_decreases(t: Seq<char>, p: int) {
    lemma_find_from(t, p, tool_open());
    if let Some(s) = find_from(t, p, tool_open()) {
        let a = s + tool_open().len();
        lemma_find_from(t, a, seq!['>']);
        if let Some(ne) = find_from(t, a, seq!['>']) {
            lemma_find_from(t, ne + 1, tool_close());
            if let Some(e) = find_from(t, ne + 1, tool_close()) {
                reveal_strlit("</tool>");
                reveal_strlit("<tool:");
            }
        }
    }
}

pub open spec fn call_views(v: Seq<ToolCall>) -> Seq<(Seq<char>, Seq<char>)> {
    v.map_values(|c: ToolCall| (c.name@, c.args@))
}

/// Reads the tool calls `<tool:name>args</tool>` of a reply, in order.
pub fn parse_tool_calls(text: &str) -> (r: Vec<ToolCall>)
    ensures
        call_views(r@) == calls_from(text@, 0),
{
    let t = chars_of(text);
    let open = chars_of("<tool:");
    let close = chars_of("</tool>");
    let gt = vec!['>'];
    proof {
        reveal_strlit("<tool:");
        reveal_strlit("</tool>");
        assert(gt@ =~= seq!['>']);
    }
    let mut calls: Vec<ToolCall> = Vec::new();
    let mut p: usize = 0;
    while p <= t.len()
        invariant
            t@ == text@,
            open@ == tool_open(),
            close@ == tool_close(),
            open@.len() == 6,
            close@.len() == 7,
            gt@ == seq!['>'],
            calls_from(t@, 0) == call_views(calls@) + calls_from(t@, p as int),
        ensures
            calls_from(t@, 0) == call_views(calls@),
        decreases t.len() + 1 - p,
    {
        let s = match find_from_exec(&t, p, &open) {
            Some(s) => s,
            None => {
                assert(call_views(calls@) + calls_from(t@, p as int) =~= call_views(calls@));
                break ;
            },
        };
        proof {
            lemma_find_from(t@, p as int, tool_open());
        }
        let a = s + 6;
        let ne = match find_from_exec(&t, a, &gt) {
            Some(ne) => ne,
            None => {
                assert(call_views(calls@) + calls_from(t@, p as int) =~= call_views(calls@));
                break ;
            },
        };
        proof {
            lemma_find_from(t@, a as int, seq!['>']);
        }
        let e = match find_from_exec(&t, ne + 1, &close) {
            Some(e) => e,
            None => {
                assert(call_views(calls@) + calls_from(t@, p as int) =~= call_views(calls@));
                break ;
            },
        };
        proof {
            lemma_find_from(t@, ne + 1, tool_close());
        }
        let (lo, hi) = trim_bounds(&t, ne + 1, e);
        let call = ToolCall { name: string_of(&t, a, ne), args: string_of(&t, lo, hi) };
        let ghost before = calls@;
        calls.push(call);
        proof {
            assert(call_views(calls@) =~= call_views(before) + seq![
                (t@.subrange(a as int, ne as int), trimmed(t@.subrange(ne + 1, e as int))),
            ]);
        }
        p = e + 7;
        if p > t.len() {
            assert(call_views(calls@) + calls_from(t@, p as int) =~= call_views(calls@));
            break ;
        }
    }
    calls
}


/// Whether a reply signals that the task is done.
pub fn is_complete(text: &str) -> (r: bool)
    ensures
        r == (contains_seq(text@, "<done>"@) || contains_seq(text@, "</done>"@)),
{
    let t = chars_of(text);
    contains_exec(&t, &chars_of("<done>")) || contains_exec(&t, &chars_of("</done>"))
}

/// The trimmed text between the first `<answer>` and the `</answer>` after
/// it.
pub open spec fn tagged_answer(t: Seq<char>) -> Option<Seq<char>> {
    match find_from(t, 0, "<answer>"@) {
        None => None,
        Some(s) => match find_from(t, s + "<answer>"@.len(), "</answer>"@) {
            None => None,
            Some(e) => Some(trimmed(t.subrange(s + "<answer>"@.len(), e))),
        },
    }
}

/// Reads the final answer of a reply: the trimmed text between its first
/// `<answer>` and the `</answer>` after it.
pub fn extract_answer(text: &str) -> (r: Option<String>)
    ensures
        crate::parsing::opt_view(r) == tagged_answer(text@),
{
    let t = chars_of(text);
    let open = chars_of("<answer>");
    let close = chars_of("</answer>");
    proof {
        reveal_strlit("<answer>");
    }
    match find_from_exec(&t, 0, &open) {
        None => None,
        Some(s) => {
            proof {
                lemma_find_from(t@, 0, "<answer>"@);
                assert(occurs_at(t@, s as int, open@));
                assert(open@.len() == 8);
            }
            let n = t.len();
            assert(s + 8 <= n);
            match find_from_exec(&t, s + 8, &close) {
                None => None,
                Some(e) => {
                    proof {
                        lemma_find_from(t@, s + 8, "</answer>"@);
                    }
                    let (lo, hi) = trim_bounds(&t, s + 8, e);
                    Some(string_of(&t, lo, hi))
                },
            }
        },
    }
}

/// What the agent does with a reply of the model.
pub enum AgentTurn {
    /// The task is done, with this answer.
    Finish(String),
    /// Run these tools and report their results.
    CallTools(Vec<ToolCall>),
    /// The reply calls no tool: keep it and ask again.
    Continue,
}

/// Decides what a reply asks for: a reply that signals completion ends the
/// task with its tagged answer, or the whole reply where it has none; else
/// its tool calls are to be run, if it has any.
pub fn read_agent_reply(response: &str) -> (r: AgentTurn)
    ensures
        (contains_seq(response@, "<done>"@) || contains_seq(response@, "</done>"@)) ==> (
        r is Finish && r->Finish_0@ == match tagged_answer(response@) {
            Some(a) => a,
            None => response@,
        }),
        !(contains_seq(response@, "<done>"@) || contains_seq(response@, "</done>"@)) ==> (if calls_from(
            response@,
            0,
        ).len() > 0 {
            r is CallTools && call_views(r->CallTools_0@) == calls_from(response@, 0)
        } else {
            r is Continue
        }),
{
    if is_complete(response) {
        match extract_answer(response) {
            Some(a) => AgentTurn::Finish(a),
            None => AgentTurn::Finish(response.to_string()),
        }
    } else {
        let calls = parse_tool_calls(response);
        if calls.len() > 0 {
            AgentTurn::CallTools(calls)
        } else {
            AgentTurn::Continue
        }
    }
}

/// The report of one tool run for the model.
pub open spec fn tool_report(name: Seq<char>, result: ToolResult) -> Seq<char> {
    if result.success {
        "["@ + name + "] Result:\n"@ + result.output@ + "\n\n"@
    } else {
        "["@ + name + "] Error: "@ + match result.error {
            Some(e) => e@,
            None => Seq::empty(),
        } + "\n\n"@
    }
}

/// Formats the report of one tool run for the model.
pub fn format_tool_report(name: &str, result: &ToolResult) -> (r: String)
    ensures
        r@ == tool_report(name@, *result),
{
    let mut s = String::from_str("[");
    append_str(&mut s, name);
    if result.success {
        append_str(&mut s, "] Result:\n");
        append_str(&mut s, result.output.as_str());
    } else {
        append_str(&mut s, "] Error: ");
        match &result.error {
            Some(e) => append_str(&mut s, e.as_str()),
            None => {
                proof {
                    assert(s@ + Seq::<char>::empty() =~= s@);
                }
            },
        }
    }
    append_str(&mut s, "\n\n");
    s
}

pub const AGENT_PREAMBLE: &'static str = "You are an AI agent that completes tasks using tools.\n\nAVAILABLE TOOLS:\n";

pub const AGENT_RULES: &'static str = "\n\nTOOL CALL FORMAT:\n<tool:tool_name>arguments</tool>\n\nCOMPLETION FORMAT:\nWhen done, output: <answer>your final answer</answer><done>\n\nRULES:\n1. Use tools by outputting <tool:name>args</tool>\n2. Wait for tool results before continuing\n3. You can call multiple tools\n4. End with <answer>...</answer><done> when task is complete\n\nIMPORTANT: never simulate tool use.\n\nTASK: ";

/// The conversation lines `\nrole: content`, one per turn.
pub open spec fn turns_text(h: Seq<(String, String)>) -> Seq<char>
    decreases h.len(),
{
    if h.len() == 0 {
        Seq::empty()
    } else {
        turns_text(h.drop_last()) + "\n"@ + h.last().0@ + ": "@ + h.last().1@
    }
}

/// The context the agent hands to the completion loop: the tools, the
/// protocol, the task, the turns so far, and the cue for the next one.
pub open spec fn agent_context(docs: Seq<char>, task: Seq<char>, h: Seq<(String, String)>) -> Seq<
    char,
> {
    AGENT_PREAMBLE@ + docs + AGENT_RULES@ + task + "\n"@ + turns_text(h) + "\nAssistant: "@
}

/// Builds the context the agent hands to the completion loop.
pub fn build_agent_context(tool_docs: &str, task: &str, history: &Vec<(String, String)>) -> (r:
    String)
    ensures
        r@ == agent_context(tool_docs@, task@, history@),
{
    let mut s = String::from_str(AGENT_PREAMBLE);
    append_str(&mut s, tool_docs);
    append_str(&mut s, AGENT_RULES);
    append_str(&mut s, task);
    append_str(&mut s, "\n");
    let ghost head = s@;
    let mut i: usize = 0;
    while i < history.len()
        invariant
            i <= history@.len(),
            s@ == head + turns_text(history@.take(i as int)),
        decreases history.len() - i,
    {
        append_str(&mut s, "\n");
        append_str(&mut s, history[i].0.as_str());
        append_str(&mut s, ": ");
        append_str(&mut s, history[i].1.as_str());
        proof {
            assert(history@.take(i + 1).drop_last() =~= history@.take(i as int));
            assert(s@ =~= head + turns_text(history@.take(i + 1)));
        }
        i = i + 1;
    }
    assert(history@.take(i as int) =~= history@);
    append_str(&mut s, "\nAssistant: ");
    s
}

/// A tool that hands its input back.
pub struct EchoTool;

impl Tool for EchoTool {
    fn name(&self) -> &str {
        "echo"
    }

    fn description(&self) -> &str {
        "Echo back the input (for testing)"
    }

    fn usage(&self) -> &str {
        "<tool:echo>message</tool>"
    }

    fn execute(&self, args: &str) -> ToolResult {
        ToolResult::ok(args)
    }
}


/// Runs shell commands whose first word is on a list; an empty list allows
/// every command.
pub struct ShellTool {
    pub allowed_commands: Vec<String>,
}

/// The commands a shell tool allows by default.
pub open spec fn default_commands() -> Seq<Seq<char>> {
    seq!["ls"@, "cat"@, "head"@, "tail"@, "grep"@, "find"@, "wc"@, "date"@, "pwd"@, "echo"@]
}

/// The first word of `s`: the text up to its first white space.
pub open spec fn first_word(s: Seq<char>) -> Seq<char> {
    let t = trimmed(s);
    match crate::parsing::first_white(t, 0) {
        Some(i) => t.subrange(0, i),
        None => t,
    }
}

/// The allowed names as a list literal: `["ls", "cat"]`.
pub open spec fn quoted_list(v: Seq<Seq<char>>) -> Seq<char>
    decreases v.len(),
{
    if v.len() == 0 {
        "[]"@
    } else {
        quoted_items(v) + "]"@
    }
}

pub open spec fn quoted_items(v: Seq<Seq<char>>) -> Seq<char>
    decreases v.len(),
{
    if v.len() == 0 {
        "["@
    } else if v.len() == 1 {
        "["@ + "\""@ + v[0] + "\""@
    } else {
        quoted_items(v.drop_last()) + ", \""@ + v.last() + "\""@
    }
}

impl ShellTool {
    /// A shell tool limited to reading commands.
    pub fn new() -> (r: ShellTool)
        ensures
            views(r.allowed_commands@) == default_commands(),
    {
        let v = vec![
            String::from_str("ls"),
            String::from_str("cat"),
            String::from_str("head"),
            String::from_str("tail"),
            String::from_str("grep"),
            String::from_str("find"),
            String::from_str("wc"),
            String::from_str("date"),
            String::from_str("pwd"),
            String::from_str("echo"),
        ];
        assert(views(v@) =~= default_commands());
        ShellTool { allowed_commands: v }
    }

    /// A shell tool that allows every command.
    pub fn allow_all() -> (r: ShellTool)
        ensures
            r.allowed_commands@.len() == 0,
    {
        ShellTool { allowed_commands: Vec::new() }
    }

    /// The trimmed command of `args` where it may run, else the refusal
    /// that names its first word and the allowed commands.
    pub fn check_command(&self, args: &str) -> (r: Result<String, String>)
        ensures
            ({
                let allowed = views(self.allowed_commands@);
                let w = first_word(args@);
                if allowed.len() == 0 || allowed.contains(w) {
                    r is Ok && r->Ok_0@ == trimmed(args@)
                } else {
                    r is Err && r->Err_0@ == "Command '"@ + w
                        + "' not allowed. Allowed: "@ + quoted_list(allowed)
                }
            }),
    {
        let v = chars_of(args);
        let (lo, hi) = trim_bounds(&v, 0, v.len());
        proof {
            assert(v@.subrange(0, v@.len() as int) =~= v@);
        }
        let cmd = string_of(&v, lo, hi);
        let ghost allowed = views(self.allowed_commands@);
        if self.allowed_commands.len() == 0 {
            return Ok(cmd);
        }
        let cv = chars_of(cmd.as_str());
        let end = crate::parsing::first_white_exec(&cv);
        let word = match end {
            Some(i) => string_of(&cv, 0, i),
            None => string_of(&cv, 0, cv.len()),
        };
        proof {
            assert(cv@.subrange(0, cv@.len() as int) =~= cv@);
            assert(cv@ == trimmed(args@));
            assert(word@ == first_word(args@));
        }
        let mut i: usize = 0;
        while i < self.allowed_commands.len()
            invariant
                i <= self.allowed_commands@.len(),
                allowed == views(self.allowed_commands@),
                cmd@ == trimmed(args@),
                word@ == first_word(args@),
                forall|j: int| 0 <= j < i ==> allowed[j] != word@,
            decreases self.allowed_commands.len() - i,
        {
            if self.allowed_commands[i] == word {
                proof {
                    assert(allowed[i as int] == word@);
                    assert(allowed.contains(word@));
                }
                return Ok(cmd);
            }
            i = i + 1;
        }
        proof {
            assert(!allowed.contains(word@));
        }
        let mut msg = String::from_str("Command '");
        append_str(&mut msg, word.as_str());
        append_str(&mut msg, "' not allowed. Allowed: ");
        append_str(&mut msg, quoted_list_exec(&self.allowed_commands).as_str());
        Err(msg)
    }
}

fn quoted_list_exec(v: &Vec<String>) -> (r: String)
    ensures
        r@ == quoted_list(views(v@)),
{
    if v.len() == 0 {
        return String::from_str("[]");
    }
    let mut s = String::from_str("[");
    let mut i: usize = 0;
    while i < v.len()
        invariant
            i <= v@.len(),
            s@ == quoted_items(views(v@).take(i as int)),
        decreases v.len() - i,
    {
        if i == 0 {
            append_str(&mut s, "\"");
        } else {
            append_str(&mut s, ", \"");
        }
        append_str(&mut s, v[i].as_str());
        append_str(&mut s, "\"");
        proof {
            let w = views(v@);
            assert(w.take(i + 1).drop_last() =~= w.take(i as int));
            if i == 0 {
                assert(s@ =~= quoted_items(w.take(1)));
            } else {
                assert(s@ =~= quoted_items(w.take(i + 1)));
            }
        }
        i = i + 1;
    }
    assert(views(v@).take(i as int) =~= views(v@));
    append_str(&mut s, "]");
    s
}

/// The path and content of `path|||content`: the path trimmed, the content
/// as it is; nothing where the separator is missing.
pub open spec fn write_args(s: Seq<char>) -> Option<(Seq<char>, Seq<char>)> {
    match find_from(s, 0, "|||"@) {
        None => None,
        Some(p) => Some((trimmed(s.subrange(0, p)), s.subrange(p + 3, s.len() as int))),
    }
}

/// Splits the arguments of a file write, `path|||content`.
pub fn split_write_args(args: &str) -> (r: Option<(String, String)>)
    ensures
        match r {
            Some((p, c)) => write_args(args@) == Some((p@, c@)),
            None => write_args(args@) is None,
        },
{
    let v = chars_of(args);
    let sep = chars_of("|||");
    proof {
        reveal_strlit("|||");
    }
    match find_from_exec(&v, 0, &sep) {
        None => None,
        Some(p) => {
            proof {
                lemma_find_from(v@, 0, "|||"@);
            }
            let n = v.len();
            assert(p + 3 <= n);
            let (lo, hi) = trim_bounds(&v, 0, p);
            Some((string_of(&v, lo, hi), string_of(&v, p + 3, n)))
        },
    }
}

} // verus!
