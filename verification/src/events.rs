//! Events of a session's log, as far as the store reads them.

use crate::ids::{MessageId, RequestId};
use crate::session::SessionState;
use crate::time::Timestamp;
use vstd::prelude::*;

verus! {

/// Who speaks in a message.
#[derive(Clone, Copy, Debug, PartialEq, Eq, Structural)]
pub enum MessageRole {
    User,
    Assistant,
    Tool,
    System,
}

/// A piece of a message. Content that the store never looks into is only marked.
#[derive(Clone, Debug, PartialEq, Eq)]
pub enum Part {
    Text { text: String },
    ToolCall { call_id: String },
    Content,
}

/// A message of a conversation.
#[derive(Clone, Debug, PartialEq, Eq)]
pub struct Message {
    pub id: MessageId,
    pub role: MessageRole,
    pub parts: Vec<Part>,
}

/// Tokens that a provider billed for one request.
#[derive(Clone, Copy, Debug, PartialEq, Eq, Structural)]
pub struct TokenUsage {
    pub input_tokens: u64,
    pub cached_input_tokens: u64,
    pub cache_write_input_tokens: u64,
    pub output_tokens: u64,
    pub reasoning_output_tokens: u64,
    pub total_tokens: u64,
}

/// A tool call that a model asked for.
#[derive(Clone, Debug, PartialEq, Eq)]
pub struct ToolCallRecord {
    pub call_id: String,
    pub tool: String,
}

/// How a tool call ended.
#[derive(Clone, Debug, PartialEq, Eq)]
pub enum ToolResult {
    Completed { title: String, output: String },
    Error { error: String },
}

/// One entry of a session's log.
#[derive(Clone, Debug, PartialEq, Eq)]
pub enum Event {
    MessageAppended { seq: u64, message: Message },
    InferenceRequested { seq: u64, request_id: RequestId, step: u64 },
    InferenceCompleted {
        seq: u64,
        request_id: RequestId,
        message: Message,
        usage: TokenUsage,
        cost_micros: u64,
        provider: String,
    },
    InferenceFailed {
        seq: u64,
        request_id: RequestId,
        error: String,
        retryable: bool,
        retry_at: Option<Timestamp>,
    },
    ToolCallRequested { seq: u64, request_id: RequestId, call: ToolCallRecord },
    ToolCallCompleted { seq: u64, request_id: RequestId, call_id: String, result: ToolResult },
    StateChanged { seq: u64, from: SessionState, to: SessionState },
}

/// View of a piece of a message.
pub ghost enum PartView {
    Text { text: Seq<char> },
    ToolCall { call_id: Seq<char> },
    Content,
}

/// View of a message.
#[verifier::ext_equal]
pub ghost struct MessageView {
    pub id: MessageId,
    pub role: MessageRole,
    pub parts: Seq<PartView>,
}

/// View of a tool call.
pub ghost struct CallView {
    pub call_id: Seq<char>,
    pub tool: Seq<char>,
}

/// View of a tool result.
pub ghost enum ResultView {
    Completed { title: Seq<char>, output: Seq<char> },
    Error { error: Seq<char> },
}

/// View of an event without its sequence number.
pub ghost enum EventBody {
    MessageAppended { message: MessageView },
    InferenceRequested { request_id: RequestId, step: u64 },
    InferenceCompleted {
        request_id: RequestId,
        message: MessageView,
        usage: TokenUsage,
        cost_micros: u64,
        provider: Seq<char>,
    },
    InferenceFailed {
        request_id: RequestId,
        error: Seq<char>,
        retryable: bool,
        retry_at: Option<Timestamp>,
    },
    ToolCallRequested { request_id: RequestId, call: CallView },
    ToolCallCompleted { request_id: RequestId, call_id: Seq<char>, result: ResultView },
    StateChanged { from: SessionState, to: SessionState },
}

/// View of an event.
pub ghost struct EventView {
    pub seq: u64,
    pub body: EventBody,
}

impl View for Part {
    type V = PartView;

    open spec fn view(&self) -> PartView {
        match self {
            Part::Text { text } => PartView::Text { text: text@ },
            Part::ToolCall { call_id } => PartView::ToolCall { call_id: call_id@ },
            Part::Content => PartView::Content,
        }
    }
}

impl View for Message {
    type V = MessageView;

    open spec fn view(&self) -> MessageView {
        MessageView {
            id: self.id,
            role: self.role,
            parts: self.parts@.map_values(|part: Part| part@),
        }
    }
}

impl Message {
    /// The same message.
    pub fn copy(&self) -> (copy: Message)
        ensures
            copy@ == self@,
    {
        let mut parts: Vec<Part> = Vec::new();
        let mut i: usize = 0;
        while i < self.parts.len()
            invariant
                i <= self.parts.len(),
                parts@.len() == i,
                forall|j: int| 0 <= j < i ==> (#[trigger] parts@[j])@ == self.parts@[j]@,
            decreases self.parts.len() - i,
        {
            let part = match &self.parts[i] {
                Part::Text { text } => Part::Text { text: text.clone() },
                Part::ToolCall { call_id } => Part::ToolCall { call_id: call_id.clone() },
                Part::Content => Part::Content,
            };
            parts.push(part);
            i += 1;
        }
        let copy = Message { id: self.id, role: self.role, parts };
        assert(copy@.parts =~= self@.parts);
        copy
    }
}

impl View for ToolCallRecord {
    type V = CallView;

    open spec fn view(&self) -> CallView {
        CallView { call_id: self.call_id@, tool: self.tool@ }
    }
}

impl View for ToolResult {
    type V = ResultView;

    open spec fn view(&self) -> ResultView {
        match self {
            ToolResult::Completed { title, output } => ResultView::Completed {
                title: title@,
                output: output@,
            },
            ToolResult::Error { error } => ResultView::Error { error: error@ },
        }
    }
}

impl View for Event {
    type V = EventView;

    open spec fn view(&self) -> EventView {
        match self {
            Event::MessageAppended { seq, message } => EventView {
                seq: *seq,
                body: EventBody::MessageAppended { message: message@ },
            },
            Event::InferenceRequested { seq, request_id, step } => EventView {
                seq: *seq,
                body: EventBody::InferenceRequested { request_id: *request_id, step: *step },
            },
            Event::InferenceCompleted { seq, request_id, message, usage, cost_micros, provider } =>
            EventView {
                seq: *seq,
                body: EventBody::InferenceCompleted {
                    request_id: *request_id,
                    message: message@,
                    usage: *usage,
                    cost_micros: *cost_micros,
                    provider: provider@,
                },
            },
            Event::InferenceFailed { seq, request_id, error, retryable, retry_at } => EventView {
                seq: *seq,
                body: EventBody::InferenceFailed {
                    request_id: *request_id,
                    error: error@,
                    retryable: *retryable,
                    retry_at: *retry_at,
                },
            },
            Event::ToolCallRequested { seq, request_id, call } => EventView {
                seq: *seq,
                body: EventBody::ToolCallRequested { request_id: *request_id, call: call@ },
            },
            Event::ToolCallCompleted { seq, request_id, call_id, result } => EventView {
                seq: *seq,
                body: EventBody::ToolCallCompleted {
                    request_id: *request_id,
                    call_id: call_id@,
                    result: result@,
                },
            },
            Event::StateChanged { seq, from, to } => EventView {
                seq: *seq,
                body: EventBody::StateChanged { from: *from, to: *to },
            },
        }
    }
}

/// Views of events in order.
pub open spec fn event_views(events: Seq<Event>) -> Seq<EventView> {
    events.map_values(|event: Event| event@)
}

/// An event with another sequence number.
pub open spec fn resequenced(event: EventView, seq: u64) -> EventView {
    EventView { seq, body: event.body }
}

impl Event {
    /// The sequence number of the event.
    pub fn seq(&self) -> (seq: u64)
        ensures
            seq == self@.seq,
    {
        match self {
            Event::MessageAppended { seq, .. } => *seq,
            Event::InferenceRequested { seq, .. } => *seq,
            Event::InferenceCompleted { seq, .. } => *seq,
            Event::InferenceFailed { seq, .. } => *seq,
            Event::ToolCallRequested { seq, .. } => *seq,
            Event::ToolCallCompleted { seq, .. } => *seq,
            Event::StateChanged { seq, .. } => *seq,
        }
    }

    /// The same event at another place of the log.
    pub fn at(self, at: u64) -> (event: Event)
        ensures
            event@ == resequenced(self@, at),
    {
        match self {
            Event::MessageAppended { seq: _, message } => Event::MessageAppended { seq: at, message },
            Event::InferenceRequested { seq: _, request_id, step } => Event::InferenceRequested {
                seq: at,
                request_id,
                step,
            },
            Event::InferenceCompleted {
                seq: _,
                request_id,
                message,
                usage,
                cost_micros,
                provider,
            } => Event::InferenceCompleted {
                seq: at,
                request_id,
                message,
                usage,
                cost_micros,
                provider,
            },
            Event::InferenceFailed { seq: _, request_id, error, retryable, retry_at } =>
            Event::InferenceFailed { seq: at, request_id, error, retryable, retry_at },
            Event::ToolCallRequested { seq: _, request_id, call } => Event::ToolCallRequested {
                seq: at,
                request_id,
                call,
            },
            Event::ToolCallCompleted { seq: _, request_id, call_id, result } =>
            Event::ToolCallCompleted { seq: at, request_id, call_id, result },
            Event::StateChanged { seq: _, from, to } => Event::StateChanged { seq: at, from, to },
        }
    }
}

/// The request that an inference event belongs to.
pub open spec fn inference_request(body: EventBody) -> Option<RequestId> {
    match body {
        EventBody::InferenceRequested { request_id, .. } => Some(request_id),
        EventBody::InferenceFailed { request_id, .. } => Some(request_id),
        EventBody::InferenceCompleted { request_id, .. } => Some(request_id),
        _ => None,
    }
}

/// The request that an inference event belongs to; none for other events.
pub fn request_from_event(event: &Event) -> (request: Option<RequestId>)
    ensures
        request == inference_request(event@.body),
{
    match event {
        Event::InferenceRequested { request_id, .. } => Some(*request_id),
        Event::InferenceFailed { request_id, .. } => Some(*request_id),
        Event::InferenceCompleted { request_id, .. } => Some(*request_id),
        _ => None,
    }
}

/// Whether two messages say the same: one id, one role, and the same parts in the same order.
pub open spec fn same_message(left: Message, right: Message) -> bool {
    &&& left.id == right.id
    &&& left.role == right.role
    &&& left.parts@.len() == right.parts@.len()
    &&& forall|i: int| 0 <= i < left.parts@.len() ==> same_part(#[trigger] left.parts@[i], right.parts@[i])
}

/// Whether two parts say the same.
pub open spec fn same_part(left: Part, right: Part) -> bool {
    match (left, right) {
        (Part::Text { text: a }, Part::Text { text: b }) => a@ == b@,
        (Part::ToolCall { call_id: a }, Part::ToolCall { call_id: b }) => a@ == b@,
        (Part::Content, Part::Content) => true,
        _ => false,
    }
}

/// Whether two results say the same, title and output included.
pub open spec fn same_result(left: ToolResult, right: ToolResult) -> bool {
    match (left, right) {
        (
            ToolResult::Completed { title: a, output: x },
            ToolResult::Completed { title: b, output: y },
        ) => a@ == b@ && x@ == y@,
        (ToolResult::Error { error: a }, ToolResult::Error { error: b }) => a@ == b@,
        _ => false,
    }
}

/// Whether two events say the same apart from their place in the log.
pub open spec fn same_entry(left: Event, right: Event) -> bool {
    match (left, right) {
        (
            Event::MessageAppended { message: a, .. },
            Event::MessageAppended { message: b, .. },
        ) => same_message(a, b),
        (
            Event::InferenceRequested { request_id: a, step: x, .. },
            Event::InferenceRequested { request_id: b, step: y, .. },
        ) => a == b && x == y,
        (
            Event::InferenceCompleted {
                request_id: a,
                message: m,
                usage: u,
                cost_micros: c,
                provider: p,
                ..
            },
            Event::InferenceCompleted {
                request_id: b,
                message: n,
                usage: v,
                cost_micros: d,
                provider: q,
                ..
            },
        ) => a == b && same_message(m, n) && u == v && c == d && p@ == q@,
        (
            Event::InferenceFailed { request_id: a, error: e, retryable: r, retry_at: t, .. },
            Event::InferenceFailed { request_id: b, error: f, retryable: s, retry_at: u, .. },
        ) => a == b && e@ == f@ && r == s && t == u,
        (
            Event::ToolCallRequested { request_id: a, call: c, .. },
            Event::ToolCallRequested { request_id: b, call: d, .. },
        ) => a == b && c.call_id@ == d.call_id@ && c.tool@ == d.tool@,
        (
            Event::ToolCallCompleted { request_id: a, call_id: c, result: r, .. },
            Event::ToolCallCompleted { request_id: b, call_id: d, result: s, .. },
        ) => a == b && c@ == d@ && same_result(r, s),
        (
            Event::StateChanged { from: a, to: x, .. },
            Event::StateChanged { from: b, to: y, .. },
        ) => a == b && x == y,
        _ => false,
    }
}

/// Two messages have one view exactly where they say the same: the view leaves out nothing.
pub proof fn message_views_are_whole(left: Message, right: Message)
    ensures
        left@ == right@ <==> same_message(left, right),
{
    if left@ == right@ {
        assert(left@.parts.len() == left.parts@.len() && right@.parts.len() == right.parts@.len());
        assert forall|i: int| 0 <= i < left.parts@.len() implies same_part(
            #[trigger] left.parts@[i],
            right.parts@[i],
        ) by {
            assert(left@.parts[i] == left.parts@[i]@);
            assert(right@.parts[i] == right.parts@[i]@);
        }
    }
    if same_message(left, right) {
        assert forall|i: int| 0 <= i < left.parts@.len() implies left@.parts[i] == right@.parts[i] by {
            assert(same_part(left.parts@[i], right.parts@[i]));
        }
        assert(left@.parts =~= right@.parts);
    }
}

/// Two events have one view exactly where they say the same at the same place of the log.
pub proof fn event_views_are_whole(left: Event, right: Event)
    ensures
        left@.body == right@.body <==> same_entry(left, right),
{
    match (left, right) {
        (
            Event::MessageAppended { message: a, .. },
            Event::MessageAppended { message: b, .. },
        ) => {
            message_views_are_whole(a, b);
        },
        (
            Event::InferenceCompleted { message: a, .. },
            Event::InferenceCompleted { message: b, .. },
        ) => {
            message_views_are_whole(a, b);
        },
        _ => {},
    }
}

/// An event that is moved to another place says the same there, and its number is that place.
pub proof fn moved_events_say_the_same(event: Event, at: u64, moved: Event, seq: u64)
    requires
        call_ensures(Event::at, (event, at), moved),
        call_ensures(Event::seq, (&moved,), seq),
    ensures
        seq == at,
        same_entry(event, moved),
{
    event_views_are_whole(event, moved);
}

/// A copy of a message says the same as the message.
pub proof fn copies_say_the_same(message: Message, copy: Message)
    requires
        call_ensures(Message::copy, (&message,), copy),
    ensures
        same_message(message, copy),
{
    message_views_are_whole(message, copy);
}

/// Only inference events belong to an inference request, and each to the one that it names.
pub proof fn only_inference_events_have_requests(event: Event, request: Option<RequestId>)
    requires
        call_ensures(request_from_event, (&event,), request),
    ensures
        match event {
            Event::InferenceRequested { request_id, .. } => request == Some(request_id),
            Event::InferenceFailed { request_id, .. } => request == Some(request_id),
            Event::InferenceCompleted { request_id, .. } => request == Some(request_id),
            _ => request is None,
        },
{
}

} // verus!
