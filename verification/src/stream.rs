//! The ordered event stream one request produces.
//!
//! Events are emitted in strict temporal order; a `Done` (possibly preceded
//! by an `Error`) always terminates the sequence, and no event follows
//! `Done`. The transport layer forwards each event to the client as it is
//! produced.

use vstd::prelude::*;

verus! {

/// One unit in the ordered server-to-client notification sequence.
#[derive(Debug)]
pub enum StreamEvent {
    /// Final response text for the client to render.
    Chunk { content: String },
    /// A tool invocation is about to run.
    ToolStart { tool: String, query: String },
    /// A tool invocation finished, successfully or not.
    ToolEnd { tool: String, success: bool },
    /// A fatal error; a `Done` follows at once.
    Error { message: String },
    /// Terminates the stream for this request.
    Done,
}

/// The mathematical value of a [`StreamEvent`].
#[verifier::ext_equal]
pub enum EventView {
    Chunk { content: Seq<char> },
    ToolStart { tool: Seq<char>, query: Seq<char> },
    ToolEnd { tool: Seq<char>, success: bool },
    Error { message: Seq<char> },
    Done,
}

impl View for StreamEvent {
    type V = EventView;

    open spec fn view(&self) -> EventView {
        match self {
            StreamEvent::Chunk { content } => EventView::Chunk { content: content@ },
            StreamEvent::ToolStart { tool, query } => EventView::ToolStart {
                tool: tool@,
                query: query@,
            },
            StreamEvent::ToolEnd { tool, success } => EventView::ToolEnd {
                tool: tool@,
                success: *success,
            },
            StreamEvent::Error { message } => EventView::Error { message: message@ },
            StreamEvent::Done => EventView::Done,
        }
    }
}

/// The values of a sequence of events.
pub open spec fn events_view(s: Seq<StreamEvent>) -> Seq<EventView> {
    s.map_values(|e: StreamEvent| e@)
}

/// How many tool runs a stream has announced.
pub open spec fn count_tool_starts(s: Seq<EventView>) -> nat
    decreases s.len(),
{
    if s.len() == 0 {
        0
    } else {
        count_tool_starts(s.drop_last()) + if s.last() is ToolStart {
            1nat
        } else {
            0nat
        }
    }
}

/// How many tool runs a stream has closed.
pub open spec fn count_tool_ends(s: Seq<EventView>) -> nat
    decreases s.len(),
{
    if s.len() == 0 {
        0
    } else {
        count_tool_ends(s.drop_last()) + if s.last() is ToolEnd {
            1nat
        } else {
            0nat
        }
    }
}

/// No prefix of the stream closes more tool runs than it has announced:
/// every `ToolEnd` is preceded by its `ToolStart`.
pub open spec fn tool_balanced(s: Seq<EventView>) -> bool {
    forall|i: int|
        0 <= i <= s.len() ==> count_tool_ends(#[trigger] s.take(i)) <= count_tool_starts(
            s.take(i),
        )
}

/// The tool-event counts grow by at most one per appended event.
pub proof fn lemma_count_push(s: Seq<EventView>, e: EventView)
    ensures
        count_tool_starts(s.push(e)) == count_tool_starts(s) + (if e is ToolStart {
            1nat
        } else {
            0nat
        }),
        count_tool_ends(s.push(e)) == count_tool_ends(s) + (if e is ToolEnd {
            1nat
        } else {
            0nat
        }),
{
    assert(s.push(e).drop_last() =~= s);
    assert(s.push(e).last() == e);
}

/// The tool-event counts distribute over concatenation.
pub proof fn lemma_counts_concat(a: Seq<EventView>, b: Seq<EventView>)
    ensures
        count_tool_starts(a + b) == count_tool_starts(a) + count_tool_starts(b),
        count_tool_ends(a + b) == count_tool_ends(a) + count_tool_ends(b),
    decreases b.len(),
{
    if b.len() == 0 {
        assert(a + b =~= a);
    } else {
        lemma_counts_concat(a, b.drop_last());
        assert((a + b).drop_last() =~= a + b.drop_last());
        assert((a + b).last() == b.last());
    }
}

/// An empty stream is balanced.
pub proof fn lemma_balanced_empty()
    ensures
        tool_balanced(Seq::<EventView>::empty()),
{
    assert forall|i: int|
        0 <= i <= Seq::<EventView>::empty().len() implies count_tool_ends(
        #[trigger] Seq::<EventView>::empty().take(i),
    ) <= count_tool_starts(Seq::<EventView>::empty().take(i)) by {
        assert(Seq::<EventView>::empty().take(i) =~= Seq::<EventView>::empty());
    }
}

/// A balanced stream stays balanced under a batch whose own running counts
/// never outweigh the balance carried in from the stream.
pub proof fn lemma_balanced_extend(a: Seq<EventView>, b: Seq<EventView>)
    requires
        tool_balanced(a),
        forall|j: int|
            0 <= j <= b.len() ==> count_tool_ends(a) + count_tool_ends(#[trigger] b.take(j))
                <= count_tool_starts(a) + count_tool_starts(b.take(j)),
    ensures
        tool_balanced(a + b),
{
    assert forall|i: int| 0 <= i <= (a + b).len() implies count_tool_ends(
        (a + b).take(i),
    ) <= count_tool_starts((a + b).take(i)) by {
        if i <= a.len() {
            assert((a + b).take(i) =~= a.take(i));
        } else {
            assert((a + b).take(i) =~= a + b.take(i - a.len()));
            lemma_counts_concat(a, b.take(i - a.len()));
        }
    }
}

proof fn lemma_no_ends_prefix(b: Seq<EventView>, j: int)
    requires
        0 <= j <= b.len(),
        forall|t: int| 0 <= t < b.len() ==> !((#[trigger] b[t]) is ToolEnd),
    ensures
        count_tool_ends(b.take(j)) == 0,
    decreases j,
{
    if j == 0 {
        assert(b.take(0) =~= Seq::<EventView>::empty());
    } else {
        lemma_no_ends_prefix(b, j - 1);
        assert(b.take(j) =~= b.take(j - 1).push(b[j - 1]));
        lemma_count_push(b.take(j - 1), b[j - 1]);
    }
}

/// A batch that closes no tool run keeps any balanced stream balanced.
pub proof fn lemma_extend_no_ends(a: Seq<EventView>, b: Seq<EventView>)
    requires
        tool_balanced(a),
        count_tool_ends(a) <= count_tool_starts(a),
        forall|t: int| 0 <= t < b.len() ==> !((#[trigger] b[t]) is ToolEnd),
    ensures
        tool_balanced(a + b),
        count_tool_ends(a + b) == count_tool_ends(a),
        count_tool_starts(a + b) == count_tool_starts(a) + count_tool_starts(b),
{
    assert forall|j: int|
        0 <= j <= b.len() implies count_tool_ends(a) + count_tool_ends(
        #[trigger] b.take(j),
    ) <= count_tool_starts(a) + count_tool_starts(b.take(j)) by {
        lemma_no_ends_prefix(b, j);
    }
    lemma_balanced_extend(a, b);
    lemma_counts_concat(a, b);
    lemma_no_ends_prefix(b, b.len() as int);
    assert(b.take(b.len() as int) =~= b);
}

proof fn lemma_one_end_prefix(b: Seq<EventView>, j: int)
    requires
        0 <= j <= b.len(),
        b.len() >= 1,
        b[0] is ToolEnd,
        forall|t: int| 1 <= t < b.len() ==> !((#[trigger] b[t]) is ToolEnd),
    ensures
        count_tool_ends(b.take(j)) == if j == 0 {
            0nat
        } else {
            1nat
        },
    decreases j,
{
    if j == 0 {
        assert(b.take(0) =~= Seq::<EventView>::empty());
    } else if j == 1 {
        assert(b.take(0) =~= Seq::<EventView>::empty());
        assert(b.take(1) =~= b.take(0).push(b[0]));
        lemma_count_push(b.take(0), b[0]);
    } else {
        lemma_one_end_prefix(b, j - 1);
        assert(b.take(j) =~= b.take(j - 1).push(b[j - 1]));
        lemma_count_push(b.take(j - 1), b[j - 1]);
    }
}

/// A batch that closes exactly the one open tool run — a `ToolEnd` first,
/// no other — keeps a stream with one open run balanced.
pub proof fn lemma_extend_one_end_first(a: Seq<EventView>, b: Seq<EventView>)
    requires
        tool_balanced(a),
        count_tool_starts(a) == count_tool_ends(a) + 1,
        b.len() >= 1,
        b[0] is ToolEnd,
        forall|t: int| 1 <= t < b.len() ==> !((#[trigger] b[t]) is ToolEnd),
    ensures
        tool_balanced(a + b),
        count_tool_ends(a + b) == count_tool_ends(a) + 1,
        count_tool_starts(a + b) == count_tool_starts(a) + count_tool_starts(b),
{
    assert forall|j: int|
        0 <= j <= b.len() implies count_tool_ends(a) + count_tool_ends(
        #[trigger] b.take(j),
    ) <= count_tool_starts(a) + count_tool_starts(b.take(j)) by {
        lemma_one_end_prefix(b, j);
    }
    lemma_balanced_extend(a, b);
    lemma_counts_concat(a, b);
    lemma_one_end_prefix(b, b.len() as int);
    assert(b.take(b.len() as int) =~= b);
}

/// The tool-event counts of a batch of one event.
pub proof fn lemma_count_batch1(e0: EventView)
    ensures
        count_tool_starts(seq![e0]) == (if e0 is ToolStart {
            1nat
        } else {
            0nat
        }),
        count_tool_ends(seq![e0]) == (if e0 is ToolEnd {
            1nat
        } else {
            0nat
        }),
{
    let b = seq![e0];
    assert(b.len() == 1);
    assert(b.drop_last() =~= Seq::<EventView>::empty());
    assert(b.last() == e0);
    assert(count_tool_starts(b) == count_tool_starts(b.drop_last()) + (if b.last() is ToolStart {
        1nat
    } else {
        0nat
    }));
    assert(count_tool_ends(b) == count_tool_ends(b.drop_last()) + (if b.last() is ToolEnd {
        1nat
    } else {
        0nat
    }));
    assert(count_tool_starts(Seq::<EventView>::empty()) == 0);
    assert(count_tool_ends(Seq::<EventView>::empty()) == 0);
}

/// The tool-event counts of a batch of two events.
pub proof fn lemma_count_batch2(e0: EventView, e1: EventView)
    ensures
        count_tool_starts(seq![e0, e1]) == (if e0 is ToolStart {
            1nat
        } else {
            0nat
        }) + (if e1 is ToolStart {
            1nat
        } else {
            0nat
        }),
        count_tool_ends(seq![e0, e1]) == (if e0 is ToolEnd {
            1nat
        } else {
            0nat
        }) + (if e1 is ToolEnd {
            1nat
        } else {
            0nat
        }),
{
    lemma_count_batch1(e0);
    assert(seq![e0, e1].drop_last() =~= seq![e0]);
    assert(seq![e0, e1].last() == e1);
}

/// The tool-event counts of a batch of three events.
pub proof fn lemma_count_batch3(e0: EventView, e1: EventView, e2: EventView)
    ensures
        count_tool_starts(seq![e0, e1, e2]) == (if e0 is ToolStart {
            1nat
        } else {
            0nat
        }) + (if e1 is ToolStart {
            1nat
        } else {
            0nat
        }) + (if e2 is ToolStart {
            1nat
        } else {
            0nat
        }),
        count_tool_ends(seq![e0, e1, e2]) == (if e0 is ToolEnd {
            1nat
        } else {
            0nat
        }) + (if e1 is ToolEnd {
            1nat
        } else {
            0nat
        }) + (if e2 is ToolEnd {
            1nat
        } else {
            0nat
        }),
{
    lemma_count_batch2(e0, e1);
    assert(seq![e0, e1, e2].drop_last() =~= seq![e0, e1]);
    assert(seq![e0, e1, e2].last() == e2);
}

impl StreamEvent {
    /// A `Chunk` event carrying the given response text.
    pub fn chunk(content: String) -> (e: StreamEvent)
        ensures
            e@ == (EventView::Chunk { content: content@ }),
    {
        StreamEvent::Chunk { content }
    }

    /// A `ToolStart` event for the named tool and its query.
    pub fn tool_start(tool: &str, query: &str) -> (e: StreamEvent)
        ensures
            e@ == (EventView::ToolStart { tool: tool@, query: query@ }),
    {
        StreamEvent::ToolStart { tool: tool.to_owned(), query: query.to_owned() }
    }

    /// A `ToolEnd` event for the named tool and how it fared.
    pub fn tool_end(tool: &str, success: bool) -> (e: StreamEvent)
        ensures
            e@ == (EventView::ToolEnd { tool: tool@, success }),
    {
        StreamEvent::ToolEnd { tool: tool.to_owned(), success }
    }

    /// An `Error` event carrying the given message.
    pub fn error(message: &str) -> (e: StreamEvent)
        ensures
            e@ == (EventView::Error { message: message@ }),
    {
        StreamEvent::Error { message: message.to_owned() }
    }

    /// The `Done` event.
    pub fn done() -> (e: StreamEvent)
        ensures
            e@ == EventView::Done,
    {
        StreamEvent::Done
    }
}

} // verus!
