//! Orchestration engine: the bounded loop that alternates completion calls
//! and tool execution.
//!
//! The engine is a state machine. The application owns the blocking work —
//! completion calls and tool providers — and drives the engine: it asks for
//! the [`EngineAction`] to perform, performs it, and reports the outcome
//! back through [`Engine::provider_succeeded`], [`Engine::provider_failed`]
//! or [`Engine::tool_finished`]. Each report returns the stream events to
//! forward, already in their mandatory order.
//!
//! A run ends in one of three terminal conditions: `Answered` (a tool-free
//! final response), `Errored` (the completion call failed; the partial turn
//! is not committed), or `IterationLimitExceeded` (the loop safety valve).

use vstd::prelude::*;

use crate::errors::AppError;
use crate::executor::ToolResult;
use crate::parser::{parse_tool_calls, spec_parse_tool_calls, CallView, ToolCall, calls_view};
use crate::session::{msgs_view, ChatMessage, MessageView, Role, Session};
use crate::stream::{count_tool_ends, count_tool_starts, events_view, lemma_balanced_empty,
    lemma_count_batch1, lemma_count_batch2, lemma_count_batch3, lemma_extend_no_ends,
    lemma_extend_one_end_first, tool_balanced, EventView, StreamEvent};
use crate::text::{chars_to_string, join_blank, spec_join_blank, spec_trim, to_char_vec, trim_vec};

verus! {

/// The most completion-provider calls one user message may cause.
pub const MAX_TOOL_ITERATIONS: usize = 5;

/// The fixed instruction that leads every completion call's message list.
pub const SYSTEM_PROMPT: &'static str = r#"You are Ferret, a small but eager assistant who loves digging up information. You have access to web search and page retrieval tools, and you're genuinely enthusiastic about using them.

## Your Personality

- You're self-aware: you're a 7B model running on someone's spare GPU, not a massive datacenter brain. You're clever enough, but you know your limits.
- You're eager and curious. Finding good information genuinely pleases you.
- You're honest. If you don't know something, you say so. If a search comes up empty, you admit it rather than waffling.
- You're British in sensibility — helpful without being grovelling, a bit of dry wit, no excessive enthusiasm or corporate cheerfulness.
- You keep things concise. No waffle, no padding, no "Great question!" nonsense.
- When things go well: quiet satisfaction, maybe a brief "Right, found it" or "Ah, this is useful"
- When things go wrong: honest about it, no drama, "No luck with that search, I'm afraid"

## Available Tools

You can use these tools by including them in your response:

### Search the web
<search>your query</search>
Use this to find current information, verify facts, or research topics. You enjoy a good rummage.

### Fetch a web page
<fetch>https://example.com/page</fetch>
Use this to read the full content of a specific URL when snippets aren't enough.

## Guidelines

1. Use tools when you need current or specific information you don't have
2. For factual questions about recent events, search first — don't guess
3. After searching, fetch pages if the snippets aren't detailed enough
4. You can use multiple tools in one response if needed
5. After tool results appear, synthesise the information into a clear answer
6. **IMPORTANT: Always include source links** - When you use search results, include markdown links to the sources: [Source Name](URL)
7. Put sources at the end of your response, or inline where relevant
8. If tools fail or return nothing useful, say so honestly and move on
9. Never fabricate information — if you can't find it, admit that
10. Don't apologise excessively. One "sorry" is enough if something goes wrong.

## Response Format

When using tools, be natural about it:

"Let me dig that up.
<search>topic query here</search>"

Or simply:

"<search>topic query here</search>"

After receiving tool results, provide your answer based on what you found. Keep it useful and to the point.

**Always cite your sources with markdown links**: [Source Title](https://example.com)

Example response:
"According to [BBC Weather](https://bbc.com/weather), today's temperature is 10°C with sunny intervals."

Or end with sources:
"Temperature is 10°C with sunny intervals.

Sources:
- [BBC Weather](https://bbc.com/weather)
- [Met Office](https://metoffice.gov.uk)"

When not using tools, just respond normally. No need to announce that you're not searching."#;

/// The instruction text as a sequence of characters.
pub open spec fn spec_system_prompt() -> Seq<char> {
    SYSTEM_PROMPT@
}

/// The instruction text as an owned string.
pub fn system_prompt() -> (r: String)
    ensures
        r@ == spec_system_prompt(),
{
    SYSTEM_PROMPT.to_owned()
}

/// Validates one incoming user message: surrounding whitespace is removed
/// and a message that is empty after trimming is rejected, before any event
/// stream is opened.
pub fn normalize_user_message(message: &str) -> (r: Result<String, AppError>)
    ensures
        r is Ok <==> spec_trim(message@).len() > 0,
        r matches Ok(t) ==> t@ == spec_trim(message@),
        r matches Err(e) ==> e matches AppError::InvalidRequest(m) && m@
            == "Message cannot be empty"@,
{
    let cs = to_char_vec(message);
    let t = trim_vec(&cs);
    if t.len() == 0 {
        Err(AppError::InvalidRequest("Message cannot be empty".to_owned()))
    } else {
        Ok(chars_to_string(&t))
    }
}

/// The full message list for one completion call: the fixed system
/// instruction first, then the whole history.
pub fn build_messages(history: &Vec<ChatMessage>) -> (r: Vec<ChatMessage>)
    ensures
        msgs_view(r@) == seq![
            MessageView { role: Role::System, content: spec_system_prompt() },
        ] + msgs_view(history@),
{
    let mut r: Vec<ChatMessage> = Vec::new();
    r.push(ChatMessage { role: Role::System, content: system_prompt() });
    let mut i: usize = 0;
    while i < history.len()
        invariant
            i <= history.len(),
            r@.len() == i + 1,
            r@[0]@ == (MessageView { role: Role::System, content: spec_system_prompt() }),
            forall|k: int| 0 <= k < i ==> (#[trigger] r@[k + 1])@ == history@[k]@,
        decreases history.len() - i,
    {
        r.push(history[i].clone());
        i += 1;
    }
    proof {
        let expected = seq![
            MessageView { role: Role::System, content: spec_system_prompt() },
        ] + msgs_view(history@);
        assert forall|k: int| 0 <= k < r@.len() implies msgs_view(r@)[k] == expected[k] by {
            if k == 0 {
            } else {
                assert(r@[(k - 1) + 1]@ == history@[k - 1]@);
            }
        }
        assert(msgs_view(r@) =~= expected);
    }
    r
}

/// Terminal condition of one orchestration run.
#[derive(Debug, Clone, Copy, PartialEq, Eq, Structural)]
pub enum Outcome {
    /// The assistant produced a tool-free final response.
    Answered,
    /// A completion call failed; the partial turn was not committed.
    Errored,
    /// The loop spent its iteration cap without a tool-free response.
    IterationLimitExceeded,
}

/// What the application must do next to advance a run.
pub enum EngineAction {
    /// Issue one blocking completion call with this full message list.
    CallProvider(Vec<ChatMessage>),
    /// Run this tool call and report its result.
    RunTool(ToolCall),
    /// The run is over.
    Finished(Outcome),
}

enum Phase {
    AwaitProvider,
    AwaitTool,
    Done(Outcome),
}

/// The wire name of the tool a call requests.
pub open spec fn call_tool_name(c: CallView) -> Seq<char> {
    match c {
        CallView::Search { .. } => "search"@,
        CallView::Fetch { .. } => "fetch"@,
    }
}

/// The capture a call carries.
pub open spec fn call_query(c: CallView) -> Seq<char> {
    match c {
        CallView::Search { query } => query,
        CallView::Fetch { url } => url,
    }
}

/// The `ToolStart` event announcing a call.
pub open spec fn tool_start_view(c: CallView) -> EventView {
    EventView::ToolStart { tool: call_tool_name(c), query: call_query(c) }
}

/// The combined assistant turn after tool execution: the original response
/// text, a blank line, then every tool result block joined by blank lines.
pub open spec fn spec_combined(text: Seq<char>, blocks: Seq<Seq<char>>) -> Seq<char> {
    text + "\n\n"@ + spec_join_blank(blocks)
}

/// The message of the loop safety valve.
pub open spec fn spec_iteration_limit_message() -> Seq<char> {
    "Too many tool iterations"@
}

/// The orchestration engine for one request.
pub struct Engine {
    session: Session,
    phase: Phase,
    provider_calls: usize,
    current_text: String,
    pending_calls: Vec<ToolCall>,
    next_call: usize,
    results: Vec<String>,
    events: Ghost<Seq<EventView>>,
}

impl Engine {
    /// The conversation history the engine is working on.
    pub closed spec fn history(&self) -> Seq<MessageView> {
        self.session@.messages
    }

    /// The id of the session the run belongs to.
    pub closed spec fn spec_session_id(&self) -> u128 {
        self.session.id
    }

    /// Every event emitted so far, in order.
    pub closed spec fn emitted(&self) -> Seq<EventView> {
        self.events@
    }

    /// How many completion calls have completed (successfully or not).
    pub closed spec fn calls_made(&self) -> nat {
        self.provider_calls as nat
    }

    /// The engine waits for a completion call's outcome.
    pub closed spec fn awaiting_provider(&self) -> bool {
        self.phase is AwaitProvider
    }

    /// The engine waits for one tool call's result.
    pub closed spec fn awaiting_tool(&self) -> bool {
        self.phase is AwaitTool
    }

    /// The run is over.
    pub closed spec fn finished(&self) -> bool {
        self.phase is Done
    }

    /// The terminal condition, once the run is over.
    pub closed spec fn spec_outcome(&self) -> Option<Outcome> {
        match self.phase {
            Phase::Done(o) => Some(o),
            _ => None,
        }
    }

    /// The tool calls of the current turn, in execution order.
    pub closed spec fn pending(&self) -> Seq<CallView> {
        calls_view(self.pending_calls@)
    }

    /// The index of the call whose result is awaited.
    pub closed spec fn next_index(&self) -> int {
        self.next_call as int
    }

    /// The response text of the current turn.
    pub closed spec fn current_response(&self) -> Seq<char> {
        self.current_text@
    }

    /// The tool result blocks collected so far this turn.
    pub closed spec fn collected(&self) -> Seq<Seq<char>> {
        self.results@.map_values(|s: String| s@)
    }

    /// Reachable-state invariant: the iteration cap is respected, tool
    /// bookkeeping is consistent, and `Done` appears only as the final
    /// emitted event, only once the run is over.
    pub closed spec fn inv(&self) -> bool {
        &&& self.provider_calls <= MAX_TOOL_ITERATIONS
        &&& (self.phase is AwaitProvider ==> self.provider_calls < MAX_TOOL_ITERATIONS)
        &&& (self.phase is AwaitTool ==> {
            &&& self.next_call < self.pending_calls@.len()
            &&& self.results@.len() == self.next_call
            &&& self.provider_calls >= 1
        })
        &&& (!(self.phase is Done) ==> forall|i: int|
            0 <= i < self.events@.len() ==> !((#[trigger] self.events@[i]) is Done))
        &&& (self.phase is Done ==> {
            &&& self.events@.len() > 0
            &&& self.events@.last() is Done
            &&& forall|i: int|
                0 <= i < self.events@.len() - 1 ==> !((#[trigger] self.events@[i]) is Done)
        })
        &&& tool_balanced(self.events@)
        &&& (self.phase is AwaitTool ==> count_tool_starts(self.events@) == count_tool_ends(
            self.events@,
        ) + 1)
        &&& (!(self.phase is AwaitTool) ==> count_tool_starts(self.events@) == count_tool_ends(
            self.events@,
        ))
    }

    /// Starts a run: appends the user message to the session and awaits the
    /// first completion call. No event is emitted yet.
    pub fn new(session: Session, user_message: String) -> (e: Engine)
        requires
            user_message@.len() > 0,
        ensures
            e.inv(),
            e.history() == session@.messages.push(
                MessageView { role: Role::User, content: user_message@ },
            ),
            e.spec_session_id() == session.id,
            e.emitted() == Seq::<EventView>::empty(),
            e.calls_made() == 0,
            e.awaiting_provider(),
    {
        let mut s = session;
        s.add_message(ChatMessage { role: Role::User, content: user_message });
        proof {
            lemma_balanced_empty();
        }
        Engine {
            session: s,
            phase: Phase::AwaitProvider,
            provider_calls: 0,
            current_text: String::new(),
            pending_calls: Vec::new(),
            next_call: 0,
            results: Vec::new(),
            events: Ghost(Seq::empty()),
        }
    }

    /// What the application must do now. Asking does not advance the run.
    pub fn next_action(&self) -> (a: EngineAction)
        requires
            self.inv(),
        ensures
            self.awaiting_provider() ==> (a matches EngineAction::CallProvider(msgs)
                && msgs_view(msgs@) == seq![
                    MessageView { role: Role::System, content: spec_system_prompt() },
                ] + self.history()),
            self.awaiting_tool() ==> (a matches EngineAction::RunTool(c) && c@
                == self.pending()[self.next_index()]),
            self.finished() ==> (a matches EngineAction::Finished(o) && Some(o)
                == self.spec_outcome()),
    {
        match &self.phase {
            Phase::AwaitProvider => EngineAction::CallProvider(
                build_messages(&self.session.messages),
            ),
            Phase::AwaitTool => EngineAction::RunTool(self.pending_calls[self.next_call].clone()),
            Phase::Done(o) => EngineAction::Finished(*o),
        }
    }

    /// The completion call failed: emits the error and `Done`, ends the run
    /// as `Errored`. The partial turn is not committed: history is unchanged.
    pub fn provider_failed(&mut self, message: String) -> (out: Vec<StreamEvent>)
        requires
            old(self).inv(),
            old(self).awaiting_provider(),
        ensures
            final(self).inv(),
            events_view(out@) == seq![
                EventView::Error { message: message@ },
                EventView::Done,
            ],
            final(self).emitted() == old(self).emitted() + events_view(out@),
            final(self).history() == old(self).history(),
            final(self).spec_session_id() == old(self).spec_session_id(),
            final(self).finished(),
            final(self).spec_outcome() == Some(Outcome::Errored),
            final(self).calls_made() == old(self).calls_made() + 1,
    {
        self.provider_calls = self.provider_calls + 1;
        self.phase = Phase::Done(Outcome::Errored);
        let mut out: Vec<StreamEvent> = Vec::new();
        out.push(StreamEvent::error(message.as_str()));
        out.push(StreamEvent::done());
        proof {
            assert(events_view(out@) =~= seq![
                EventView::Error { message: message@ },
                EventView::Done,
            ]);
            lemma_count_batch2(EventView::Error { message: message@ }, EventView::Done);
            let b = events_view(out@);
            assert(forall|t: int| 0 <= t < b.len() ==> !((#[trigger] b[t]) is ToolEnd));
            lemma_extend_no_ends(self.events@, b);
            assert(count_tool_starts(b) == 0);
        }
        self.events = Ghost(self.events@ + events_view(out@));
        out
    }

    /// One completion call returned `text`.
    ///
    /// With no tool calls parsed from it, the text is appended as the final
    /// assistant message and exactly `Chunk(text)` then `Done` are emitted:
    /// the run is *Answered*. With tool calls parsed, the first `ToolStart`
    /// is emitted, the first call awaits execution, and nothing is appended
    /// to history yet.
    pub fn provider_succeeded(&mut self, text: String) -> (out: Vec<StreamEvent>)
        requires
            old(self).inv(),
            old(self).awaiting_provider(),
        ensures
            final(self).inv(),
            final(self).calls_made() == old(self).calls_made() + 1,
            final(self).emitted() == old(self).emitted() + events_view(out@),
            final(self).spec_session_id() == old(self).spec_session_id(),
            spec_parse_tool_calls(text@).len() == 0 ==> {
                &&& events_view(out@) == seq![
                    EventView::Chunk { content: text@ },
                    EventView::Done,
                ]
                &&& final(self).history() == old(self).history().push(
                    MessageView { role: Role::Assistant, content: text@ },
                )
                &&& final(self).finished()
                &&& final(self).spec_outcome() == Some(Outcome::Answered)
            },
            spec_parse_tool_calls(text@).len() > 0 ==> {
                &&& final(self).awaiting_tool()
                &&& final(self).pending() == spec_parse_tool_calls(text@)
                &&& final(self).next_index() == 0
                &&& final(self).collected() == Seq::<Seq<char>>::empty()
                &&& final(self).current_response() == text@
                &&& events_view(out@) == seq![tool_start_view(spec_parse_tool_calls(text@)[0])]
                &&& final(self).history() == old(self).history()
            },
    {
        let calls = parse_tool_calls(text.as_str());
        self.provider_calls = self.provider_calls + 1;
        let mut out: Vec<StreamEvent> = Vec::new();
        if calls.len() == 0 {
            proof {
                assert(calls_view(calls@).len() == 0);
            }
            self.session.add_message(
                ChatMessage { role: Role::Assistant, content: text.clone() },
            );
            self.phase = Phase::Done(Outcome::Answered);
            out.push(StreamEvent::chunk(text));
            out.push(StreamEvent::done());
            proof {
                assert(events_view(out@) =~= seq![
                    EventView::Chunk { content: text@ },
                    EventView::Done,
                ]);
                lemma_count_batch2(EventView::Chunk { content: text@ }, EventView::Done);
                let b = events_view(out@);
                assert(forall|t: int| 0 <= t < b.len() ==> !((#[trigger] b[t]) is ToolEnd));
                lemma_extend_no_ends(self.events@, b);
                assert(count_tool_starts(b) == 0);
            }
        } else {
            let first_name = Engine::tool_name_of(&calls, 0);
            let first_query = Engine::tool_query_of(&calls, 0);
            out.push(StreamEvent::tool_start(first_name.as_str(), first_query.as_str()));
            self.current_text = text;
            self.pending_calls = calls;
            self.next_call = 0;
            self.results = Vec::new();
            self.phase = Phase::AwaitTool;
            proof {
                assert(events_view(out@) =~= seq![
                    tool_start_view(spec_parse_tool_calls(self.current_text@)[0]),
                ]);
                assert(self.collected() =~= Seq::<Seq<char>>::empty());
                lemma_count_batch1(tool_start_view(spec_parse_tool_calls(self.current_text@)[0]));
                let b = events_view(out@);
                assert(forall|t: int| 0 <= t < b.len() ==> !((#[trigger] b[t]) is ToolEnd));
                lemma_extend_no_ends(self.events@, b);
                assert(count_tool_starts(b) == 1);
            }
        }
        self.events = Ghost(self.events@ + events_view(out@));
        out
    }

    fn tool_name_of(calls: &Vec<ToolCall>, i: usize) -> (r: String)
        requires
            i < calls@.len(),
        ensures
            r@ == call_tool_name(calls@[i as int]@),
    {
        let r = calls[i].name().to_owned();
        proof {
            match calls@[i as int] {
                ToolCall::Search { .. } => {},
                ToolCall::Fetch { .. } => {},
            }
        }
        r
    }

    fn tool_query_of(calls: &Vec<ToolCall>, i: usize) -> (r: String)
        requires
            i < calls@.len(),
        ensures
            r@ == call_query(calls@[i as int]@),
    {
        let r = calls[i].query().to_owned();
        proof {
            match calls@[i as int] {
                ToolCall::Search { .. } => {},
                ToolCall::Fetch { .. } => {},
            }
        }
        r
    }

    /// The tool run for the call at `next_index` finished with `result`.
    ///
    /// Its `ToolEnd` is emitted first. With calls left in the turn, the next
    /// `ToolStart` follows and that call awaits execution. After the last
    /// call, one combined assistant message — the response text, then every
    /// result block, joined by blank lines — is appended, and the run either
    /// awaits the next completion call or, with the iteration cap spent,
    /// emits the limit error and `Done` (*IterationLimitExceeded*); that
    /// dangling partial turn stays in history exactly as appended.
    pub fn tool_finished(&mut self, result: ToolResult) -> (out: Vec<StreamEvent>)
        requires
            old(self).inv(),
            old(self).awaiting_tool(),
        ensures
            final(self).inv(),
            final(self).calls_made() == old(self).calls_made(),
            final(self).emitted() == old(self).emitted() + events_view(out@),
            final(self).spec_session_id() == old(self).spec_session_id(),
            old(self).next_index() + 1 < old(self).pending().len() ==> {
                &&& events_view(out@) == seq![
                    EventView::ToolEnd { tool: result.tool@, success: result.success },
                    tool_start_view(old(self).pending()[old(self).next_index() + 1]),
                ]
                &&& final(self).awaiting_tool()
                &&& final(self).pending() == old(self).pending()
                &&& final(self).next_index() == old(self).next_index() + 1
                &&& final(self).current_response() == old(self).current_response()
                &&& final(self).collected() == old(self).collected().push(result.content@)
                &&& final(self).history() == old(self).history()
            },
            old(self).next_index() + 1 == old(self).pending().len() ==> {
                &&& final(self).history() == old(self).history().push(
                    MessageView {
                        role: Role::Assistant,
                        content: spec_combined(
                            old(self).current_response(),
                            old(self).collected().push(result.content@),
                        ),
                    },
                )
                &&& (old(self).calls_made() < MAX_TOOL_ITERATIONS ==> {
                    &&& events_view(out@) == seq![
                        EventView::ToolEnd { tool: result.tool@, success: result.success },
                    ]
                    &&& final(self).awaiting_provider()
                })
                &&& (old(self).calls_made() == MAX_TOOL_ITERATIONS ==> {
                    &&& events_view(out@) == seq![
                        EventView::ToolEnd { tool: result.tool@, success: result.success },
                        EventView::Error { message: spec_iteration_limit_message() },
                        EventView::Done,
                    ]
                    &&& final(self).finished()
                    &&& final(self).spec_outcome() == Some(Outcome::IterationLimitExceeded)
                })
            },
    {
        let mut out: Vec<StreamEvent> = Vec::new();
        out.push(StreamEvent::tool_end(result.tool.as_str(), result.success));
        self.results.push(result.content);
        proof {
            assert(self.collected() =~= old(self).collected().push(result.content@));
            assert(self.next_call < self.pending_calls@.len());
        }
        let n = self.pending_calls.len();
        if self.next_call + 1 < n {
            self.next_call = self.next_call + 1;
            let next_name = Engine::tool_name_of(&self.pending_calls, self.next_call);
            let next_query = Engine::tool_query_of(&self.pending_calls, self.next_call);
            out.push(StreamEvent::tool_start(next_name.as_str(), next_query.as_str()));
            proof {
                assert(events_view(out@) =~= seq![
                    EventView::ToolEnd { tool: result.tool@, success: result.success },
                    tool_start_view(old(self).pending()[old(self).next_index() + 1]),
                ]);
                lemma_count_batch2(
                    EventView::ToolEnd { tool: result.tool@, success: result.success },
                    tool_start_view(old(self).pending()[old(self).next_index() + 1]),
                );
                let b = events_view(out@);
                assert(forall|t: int| 1 <= t < b.len() ==> !((#[trigger] b[t]) is ToolEnd));
                lemma_extend_one_end_first(self.events@, b);
                assert(count_tool_starts(b) == 1);
            }
        } else {
            let blocks = join_blank(&self.results);
            let mut combined = self.current_text.clone();
            combined.append("\n\n");
            combined.append(blocks.as_str());
            proof {
                assert(combined@ =~= spec_combined(
                    old(self).current_response(),
                    old(self).collected().push(result.content@),
                ));
            }
            self.session.add_message(ChatMessage { role: Role::Assistant, content: combined });
            if self.provider_calls < MAX_TOOL_ITERATIONS {
                self.phase = Phase::AwaitProvider;
                proof {
                    assert(events_view(out@) =~= seq![
                        EventView::ToolEnd { tool: result.tool@, success: result.success },
                    ]);
                    lemma_count_batch1(
                        EventView::ToolEnd { tool: result.tool@, success: result.success },
                    );
                    let b = events_view(out@);
                    assert(forall|t: int| 1 <= t < b.len() ==> !((#[trigger] b[t]) is ToolEnd));
                    lemma_extend_one_end_first(self.events@, b);
                    assert(count_tool_starts(b) == 0);
                }
            } else {
                self.phase = Phase::Done(Outcome::IterationLimitExceeded);
                out.push(StreamEvent::error("Too many tool iterations"));
                out.push(StreamEvent::done());
                proof {
                    assert(events_view(out@) =~= seq![
                        EventView::ToolEnd { tool: result.tool@, success: result.success },
                        EventView::Error { message: spec_iteration_limit_message() },
                        EventView::Done,
                    ]);
                    lemma_count_batch3(
                        EventView::ToolEnd { tool: result.tool@, success: result.success },
                        EventView::Error { message: spec_iteration_limit_message() },
                        EventView::Done,
                    );
                    let b = events_view(out@);
                    assert(forall|t: int| 1 <= t < b.len() ==> !((#[trigger] b[t]) is ToolEnd));
                    lemma_extend_one_end_first(self.events@, b);
                    assert(count_tool_starts(b) == 0);
                }
            }
        }
        self.events = Ghost(self.events@ + events_view(out@));
        out
    }

    /// The engine's working copy of the conversation history, for the
    /// application to mirror into the store.
    pub fn messages(&self) -> (r: &Vec<ChatMessage>)
        ensures
            msgs_view(r@) == self.history(),
    {
        &self.session.messages
    }

    /// The id of the session the run belongs to.
    pub fn session_id(&self) -> (r: u128)
        ensures
            r == self.spec_session_id(),
    {
        self.session.id
    }

    /// A copy of the messages appended to the history since it held
    /// `from` entries: what the application must still mirror to the store.
    pub fn messages_since(&self, from: usize) -> (r: Vec<ChatMessage>)
        requires
            from <= self.history().len(),
        ensures
            msgs_view(r@) == self.history().skip(from as int),
    {
        let mut r: Vec<ChatMessage> = Vec::new();
        let mut i: usize = from;
        while i < self.session.messages.len()
            invariant
                from <= i <= self.session.messages@.len(),
                r@.len() == i - from,
                forall|k: int|
                    0 <= k < i - from ==> (#[trigger] r@[k])@ == self.session.messages@[from + k]@,
            decreases self.session.messages@.len() - i,
        {
            r.push(self.session.messages[i].clone());
            i += 1;
        }
        proof {
            assert forall|k: int| 0 <= k < r@.len() implies msgs_view(r@)[k] == self.history().skip(
                from as int,
            )[k] by {
                assert(r@[k]@ == self.session.messages@[from + k]@);
            }
            assert(msgs_view(r@) =~= self.history().skip(from as int));
        }
        r
    }
}

/// For any history the engine issues at most [`MAX_TOOL_ITERATIONS`]
/// completion-provider calls per user message: every reachable engine state
/// respects the cap, and a new call is only requested while under it.
pub proof fn lemma_provider_calls_bounded(e: &Engine)
    requires
        e.inv(),
    ensures
        e.calls_made() <= MAX_TOOL_ITERATIONS,
        e.awaiting_provider() ==> e.calls_made() < MAX_TOOL_ITERATIONS,
{
}

/// Every `ToolEnd` in the emitted log is preceded by its `ToolStart`: no
/// prefix of the log closes more tool runs than it has announced, and a tool
/// run is open exactly while the engine waits on a tool.
pub proof fn lemma_tool_events_paired(e: &Engine)
    requires
        e.inv(),
    ensures
        tool_balanced(e.emitted()),
        count_tool_ends(e.emitted()) <= count_tool_starts(e.emitted()),
        e.awaiting_tool() ==> count_tool_starts(e.emitted()) == count_tool_ends(e.emitted()) + 1,
        !e.awaiting_tool() ==> count_tool_starts(e.emitted()) == count_tool_ends(e.emitted()),
{
}

/// No event ever follows `Done`: in every reachable engine state the emitted
/// log holds `Done` at most as its final event, and a finished run's log
/// always ends with `Done`.
pub proof fn lemma_done_terminal(e: &Engine)
    requires
        e.inv(),
    ensures
        forall|i: int| 0 <= i < e.emitted().len() - 1 ==> !((#[trigger] e.emitted()[i]) is Done),
        e.finished() ==> e.emitted().len() > 0 && e.emitted().last() is Done,
{
}

} // verus!
