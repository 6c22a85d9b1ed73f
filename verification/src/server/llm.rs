use vstd::prelude::*;
use vstd::string::*;

verus! {

/// Placeholder language model used before a real model is configured.
#[derive(Default, Clone)]
pub struct DummyModel {}

/// One item of a model's streamed reply, as the chat loop reads it; `C` is
/// a tool call.
pub enum ReplyEvent<C> {
    /// A piece of the answer's text.
    Text(String),
    /// A complete tool call.
    ToolCall(C),
    /// The stream reported an error, with its message.
    Error(String),
    /// Usage reports, partial tool calls and reasoning, which the loop skips.
    Other,
}

/// A message of a conversation: a user request `Q`, a tool call `C` the
/// model made, a text answer, or the result `R` of a tool call.
pub enum Turn<Q, C, R> {
    Request(Q),
    ToolCall(C),
    Answer(String),
    ToolResult(R),
}

/// A turn, with its text as characters.
pub enum TurnView<Q, C, R> {
    Request(Q),
    ToolCall(C),
    Answer(Seq<char>),
    ToolResult(R),
}

impl<Q, C, R> View for Turn<Q, C, R> {
    type V = TurnView<Q, C, R>;

    open spec fn view(&self) -> TurnView<Q, C, R> {
        match self {
            Turn::Request(q) => TurnView::Request(*q),
            Turn::ToolCall(c) => TurnView::ToolCall(*c),
            Turn::Answer(t) => TurnView::Answer(t@),
            Turn::ToolResult(r) => TurnView::ToolResult(*r),
        }
    }
}

/// The views of a sequence of turns.
pub open spec fn turn_views<Q, C, R>(s: Seq<Turn<Q, C, R>>) -> Seq<TurnView<Q, C, R>> {
    s.map_values(|t: Turn<Q, C, R>| t@)
}

/// Gathers a streamed reply as it arrives: the answer's text and the tool
/// calls, in order.
pub struct ReplyCollector<C> {
    text: String,
    calls: Vec<C>,
}

impl<C> ReplyCollector<C> {
    /// The text gathered so far.
    pub closed spec fn text_of(&self) -> Seq<char> {
        self.text@
    }

    /// The tool calls gathered so far.
    pub closed spec fn calls_of(&self) -> Seq<C> {
        self.calls@
    }

    pub fn new() -> (r: Self)
        ensures
            r.text_of() == Seq::<char>::empty(),
            r.calls_of() == Seq::<C>::empty(),
    {
        ReplyCollector { text: String::new(), calls: Vec::new() }
    }

    /// Take one streamed item: text and tool calls are gathered; an error
    /// is handed back for the caller to pass on; anything else is skipped.
    pub fn accept(&mut self, event: ReplyEvent<C>) -> (r: Option<String>)
        ensures
            match event {
                ReplyEvent::Text(t) => r is None && final(self).text_of() == old(self).text_of()
                    + t@ && final(self).calls_of() == old(self).calls_of(),
                ReplyEvent::ToolCall(c) => r is None && final(self).text_of() == old(self).text_of()
                    && final(self).calls_of() == old(self).calls_of().push(c),
                ReplyEvent::Error(e) => r matches Some(m) && m@ == e@ && final(self).text_of()
                    == old(self).text_of() && final(self).calls_of() == old(self).calls_of(),
                ReplyEvent::Other => r is None && final(self).text_of() == old(self).text_of()
                    && final(self).calls_of() == old(self).calls_of(),
            },
    {
        match event {
            ReplyEvent::Text(t) => {
                self.text.append(t.as_str());
                None
            },
            ReplyEvent::ToolCall(c) => {
                self.calls.push(c);
                None
            },
            ReplyEvent::Error(e) => Some(e),
            ReplyEvent::Other => None,
        }
    }

    /// The messages of the finished reply: each tool call on its own, in the
    /// order they came, then the answer, when it has any text.
    pub fn finish<Q, R>(self) -> (r: Vec<Turn<Q, C, R>>)
        ensures
            turn_views(r@) == self.calls_of().map_values(|c: C| TurnView::<Q, C, R>::ToolCall(c))
                + if self.text_of().len() > 0 {
                seq![TurnView::<Q, C, R>::Answer(self.text_of())]
            } else {
                Seq::empty()
            },
    {
        let ReplyCollector { text, calls } = self;
        let ghost all = calls@;
        let mut calls = calls;
        let mut out: Vec<Turn<Q, C, R>> = Vec::new();
        let mut i: usize = 0;
        let n = calls.len();
        while calls.len() > 0
            invariant
                0 <= i <= n,
                n == all.len(),
                calls@ == all.skip(i as int),
                turn_views(out@) == all.take(i as int).map_values(
                    |c: C| TurnView::<Q, C, R>::ToolCall(c),
                ),
            decreases calls@.len(),
        {
            let c = calls.remove(0);
            let ghost before = out@;
            out.push(Turn::ToolCall(c));
            proof {
                assert(turn_views(out@) =~= turn_views(before).push(TurnView::<Q, C, R>::ToolCall(c)));
                assert(all.take(i + 1) =~= all.take(i as int).push(c));
                assert(all.take(i + 1).map_values(|c: C| TurnView::<Q, C, R>::ToolCall(c))
                    =~= all.take(i as int).map_values(|c: C| TurnView::<Q, C, R>::ToolCall(c)).push(
                    TurnView::<Q, C, R>::ToolCall(c),
                ));
                assert(calls@ =~= all.skip(i + 1));
            }
            i = i + 1;
        }
        proof {
            assert(all.take(i as int) =~= all);
        }
        if !text.as_str().is_empty() {
            let ghost before = out@;
            let ghost t = text@;
            out.push(Turn::Answer(text));
            proof {
                assert(turn_views(out@) =~= turn_views(before).push(TurnView::<Q, C, R>::Answer(t)));
            }
        } else {
            proof {
                assert(turn_views(out@) =~= turn_views(out@) + Seq::<TurnView<Q, C, R>>::empty());
            }
        }
        out
    }
}

/// The history of a chat: its system prompt and the messages so far.
pub struct Conversation<Q, C, R> {
    preamble: Option<String>,
    history: Vec<Turn<Q, C, R>>,
}

impl<Q, C, R> Conversation<Q, C, R> {
    /// The messages so far, oldest first.
    pub closed spec fn history_of(&self) -> Seq<TurnView<Q, C, R>> {
        turn_views(self.history@)
    }

    /// The system prompt.
    pub closed spec fn preamble_of(&self) -> Option<String> {
        self.preamble
    }

    /// The system prompt.
    pub fn preamble(&self) -> (r: &Option<String>)
        ensures
            *r == self.preamble_of(),
    {
        &self.preamble
    }

    pub fn new(preamble: Option<String>) -> (r: Self)
        ensures
            r.preamble_of() == preamble,
            r.history_of() == Seq::<TurnView<Q, C, R>>::empty(),
    {
        let r = Conversation { preamble, history: Vec::new() };
        assert(r.history_of() =~= Seq::<TurnView<Q, C, R>>::empty());
        r
    }

    /// The messages so far, oldest first.
    pub fn history(&self) -> (r: &[Turn<Q, C, R>])
        ensures
            turn_views(r@) == self.history_of(),
    {
        self.history.as_slice()
    }

    fn push(&mut self, turn: Turn<Q, C, R>)
        ensures
            final(self).history_of() == old(self).history_of().push(turn@),
            final(self).preamble_of() == old(self).preamble_of(),
    {
        self.history.push(turn);
        assert(turn_views(self.history@) =~= turn_views(old(self).history@).push(turn@));
    }

    /// Start a step of the chat for `request`: the request joins the
    /// history, and the history as it then stands is what the model is sent.
    /// Every step of a chat sends the request again.
    pub fn begin_step(&mut self, request: Q)
        ensures
            final(self).history_of() == old(self).history_of().push(TurnView::Request(request)),
            final(self).preamble_of() == old(self).preamble_of(),
    {
        self.push(Turn::Request(request));
    }

    /// Record a message of the model's reply. Returns whether it is a tool
    /// call that must be made now, which it is when the session has tools to
    /// call; its result follows it in the history.
    pub fn record_reply(&mut self, turn: Turn<Q, C, R>, has_tools: bool) -> (r: bool)
        ensures
            final(self).history_of() == old(self).history_of().push(turn@),
            final(self).preamble_of() == old(self).preamble_of(),
            r == (has_tools && turn is ToolCall),
    {
        let is_call = match &turn {
            Turn::ToolCall(_) => true,
            _ => false,
        };
        self.push(turn);
        has_tools && is_call
    }

    /// Record the result of the tool call just made.
    pub fn record_tool_result(&mut self, result: R)
        ensures
            final(self).history_of() == old(self).history_of().push(TurnView::ToolResult(result)),
            final(self).preamble_of() == old(self).preamble_of(),
    {
        self.push(Turn::ToolResult(result));
    }
}

/// The text that opens the tool section of a system prompt.
pub open spec fn tools_prompt_head() -> Seq<char> {
    "# Tools\n\n            You may call one or more functions to assist with the user query.\n\n            You are provided with function signatures within <tools></tools> XML tags:\n\n            <tools>\n\n            "@
}

/// The text that closes the tool section of a system prompt.
pub open spec fn tools_prompt_tail() -> Seq<char> {
    "\n            </tools>\n\n            For each function call, return a json object with function name and arguments within <tool_call></tool_call> XML tags:\n\n            <tool_call>\n\n            {\"name\": <function-name>, \"arguments\": <args-json-object>}\n\n            </tool_call>\n\n            "@
}

/// Each tool description on its own line.
pub open spec fn tool_lines(tools: Seq<String>) -> Seq<char>
    decreases tools.len(),
{
    if tools.len() == 0 {
        Seq::empty()
    } else {
        tool_lines(tools.drop_last()) + tools.last()@ + "\n"@
    }
}

/// The system prompt of a completion request: its preamble, followed, when
/// it offers tools, by the tool section listing each tool's JSON
/// description.
pub open spec fn system_prompt_text(preamble: Option<Seq<char>>, tools: Seq<String>) -> Seq<char> {
    (match preamble {
        Some(p) => p,
        None => Seq::empty(),
    }) + if tools.len() > 0 {
        tools_prompt_head() + tool_lines(tools) + tools_prompt_tail()
    } else {
        Seq::empty()
    }
}

/// The system message of a completion request for a model without native
/// tool calling, from its preamble and the JSON description of each tool;
/// none when that text is empty.
pub fn system_prompt(preamble: Option<&str>, tool_json: &Vec<String>) -> (r: Option<String>)
    ensures
        ({
            let text = system_prompt_text(
                match preamble {
                    Some(p) => Some(p@),
                    None => None,
                },
                tool_json@,
            );
            match r {
                Some(t) => text.len() > 0 && t@ == text,
                None => text.len() == 0,
            }
        }),
{
    let mut prompt = String::new();
    match preamble {
        Some(text) => prompt.append(text),
        None => {},
    }
    let ghost start = prompt@;
    if tool_json.len() > 0 {
        let mut lines = String::new();
        let mut i: usize = 0;
        while i < tool_json.len()
            invariant
                0 <= i <= tool_json@.len(),
                lines@ == tool_lines(tool_json@.take(i as int)),
            decreases tool_json@.len() - i,
        {
            lines.append(tool_json[i].as_str());
            lines.append("\n");
            proof {
                let taken = tool_json@.take(i + 1);
                assert(taken.drop_last() =~= tool_json@.take(i as int));
                assert(lines@ =~= tool_lines(taken));
            }
            i = i + 1;
        }
        proof {
            assert(tool_json@.take(tool_json@.len() as int) =~= tool_json@);
        }
        prompt.append("# Tools\n\n            You may call one or more functions to assist with the user query.\n\n            You are provided with function signatures within <tools></tools> XML tags:\n\n            <tools>\n\n            ");
        prompt.append(lines.as_str());
        prompt.append("\n            </tools>\n\n            For each function call, return a json object with function name and arguments within <tool_call></tool_call> XML tags:\n\n            <tool_call>\n\n            {\"name\": <function-name>, \"arguments\": <args-json-object>}\n\n            </tool_call>\n\n            ");
        proof {
            assert(prompt@ =~= start + (tools_prompt_head() + tool_lines(tool_json@) + tools_prompt_tail()));
        }
    } else {
        proof {
            assert(prompt@ =~= start + Seq::<char>::empty());
        }
    }
    if prompt.as_str().is_empty() {
        None
    } else {
        Some(prompt)
    }
}

/// How the text of one streamed assistant delta is handed to the token
/// converter.
#[derive(Debug, Clone, Copy, PartialEq, Eq, Structural)]
pub enum DeltaHandoff {
    /// An empty delta closes the reply: the converter flushes what it holds.
    Final,
    /// Any other delta is accepted incrementally.
    Incremental,
}

/// The handoff for a delta carrying `text`: final exactly when it is empty.
pub fn delta_handoff(text: &str) -> (r: DeltaHandoff)
    ensures
        (r == DeltaHandoff::Final) == (text@.len() == 0),
        (r == DeltaHandoff::Incremental) == (text@.len() > 0),
{
    if text.unicode_len() == 0 {
        DeltaHandoff::Final
    } else {
        DeltaHandoff::Incremental
    }
}

} // verus!

