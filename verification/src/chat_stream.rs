//! The stream that answers a Chat Completions call, turned into the events of a response.

use vstd::hash_map::StringHashMap;
use vstd::prelude::*;

use crate::json::{
    self, items_view, items_view_index, member, member2, member_i64, member_str, parsed_json,
    str_of, u64_of, Json, JsonView,
};
use crate::protocol::{ContentItem, ReasoningItemContent, ResponseItem};
use crate::text::{self, texts, trim_of};

verus! {

// ---------------------------------------------------------------------------------------------
// Events
// ---------------------------------------------------------------------------------------------

/// The tokens that a response cost.
#[derive(Debug, Clone, Copy, PartialEq, Eq, Structural)]
pub struct TokenUsage {
    pub input_tokens: i64,
    pub cached_input_tokens: i64,
    pub cache_write_input_tokens: i64,
    pub output_tokens: i64,
    pub reasoning_output_tokens: i64,
    pub total_tokens: i64,
}

/// Something that happens in a response.
#[derive(Debug, PartialEq)]
pub enum ResponseEvent {
    OutputItemAdded(ResponseItem),
    OutputItemDone(ResponseItem),
    OutputTextDelta(String),
    ReasoningContentDelta { delta: String, content_index: i64 },
    Completed {
        response_id: String,
        token_usage: Option<TokenUsage>,
        end_turn: Option<bool>,
    },
}

/// A call of a tool as far as it has been streamed.
#[verifier::ext_equal]
pub struct CallView {
    pub index: usize,
    pub id: Seq<char>,
    pub name: Seq<char>,
    pub arguments: Seq<char>,
}

/// The items that a stream puts together.
#[verifier::ext_equal]
pub enum ItemView {
    Message(Seq<Seq<char>>),
    Reasoning(Seq<Seq<char>>),
    Call { id: Seq<char>, name: Seq<char>, arguments: Seq<char> },
}

/// What an event says.
#[verifier::ext_equal]
pub enum EventView {
    Added(ItemView),
    Done(ItemView),
    TextDelta(Seq<char>),
    ReasoningDelta { delta: Seq<char>, content_index: i64 },
    Completed { response_id: Seq<char>, token_usage: Option<TokenUsage>, end_turn: Option<bool> },
}

/// The item is the one that is described.
pub open spec fn item_shows(item: ResponseItem, v: ItemView) -> bool {
    match v {
        ItemView::Message(parts) => {
            &&& item matches ResponseItem::Message { role, content }
            &&& role@ == "assistant"@
            &&& content@.len() == parts.len()
            &&& forall|i: int|
                0 <= i < parts.len() ==> (#[trigger] content@[i] matches ContentItem::OutputText {
                    text,
                } && text@ == parts[i])
        },
        ItemView::Reasoning(parts) => {
            &&& item matches ResponseItem::Reasoning { content: Some(content) }
            &&& content@.len() == parts.len()
            &&& forall|i: int|
                0 <= i < parts.len() ==> (
                #[trigger] content@[i] matches ReasoningItemContent::ReasoningText { text } && text@
                    == parts[i])
        },
        ItemView::Call { id, name, arguments } => {
            &&& item matches ResponseItem::FunctionCall {
                name: n,
                namespace: None,
                arguments: a,
                call_id,
            }
            &&& n@ == name
            &&& a@ == arguments
            &&& call_id@ == id
        },
    }
}

/// The event is the one that is described.
pub open spec fn event_shows(event: ResponseEvent, v: EventView) -> bool {
    match v {
        EventView::Added(item) => event matches ResponseEvent::OutputItemAdded(i) && item_shows(
            i,
            item,
        ),
        EventView::Done(item) => event matches ResponseEvent::OutputItemDone(i) && item_shows(
            i,
            item,
        ),
        EventView::TextDelta(delta) => event matches ResponseEvent::OutputTextDelta(d) && d@
            == delta,
        EventView::ReasoningDelta { delta, content_index } => {
            &&& event matches ResponseEvent::ReasoningContentDelta { delta: d, content_index: c }
            &&& d@ == delta
            &&& c == content_index
        },
        EventView::Completed { response_id, token_usage, end_turn } => {
            &&& event matches ResponseEvent::Completed {
                response_id: id,
                token_usage: usage,
                end_turn: end,
            }
            &&& id@ == response_id
            &&& usage == token_usage
            &&& end == end_turn
        },
    }
}

/// The events are those that are described, in order.
pub open spec fn events_show(events: Seq<ResponseEvent>, views: Seq<EventView>) -> bool {
    &&& events.len() == views.len()
    &&& forall|i: int| 0 <= i < views.len() ==> event_shows(#[trigger] events[i], views[i])
}

// ---------------------------------------------------------------------------------------------
// Usage
// ---------------------------------------------------------------------------------------------

/// The `i64` under `inner` under `outer`, or zero.
pub open spec fn detail_tokens(usage: JsonView, outer: Seq<char>, inner: Seq<char>) -> i64 {
    match member2(usage, outer, inner) {
        Some(v) => match json::i64_of(v) {
            Some(n) => n,
            None => 0,
        },
        None => 0,
    }
}

/// The tokens of the question and those of the answer add up within an `i64`.
pub open spec fn usage_fits(usage: JsonView) -> bool {
    match (member_i64(usage, "prompt_tokens"@), member_i64(usage, "completion_tokens"@)) {
        (Some(input), Some(output)) => i64::MIN <= input + output <= i64::MAX,
        _ => true,
    }
}

/// The tokens that a usage tells of, where it tells of question and answer.
pub open spec fn usage_of(usage: JsonView) -> Option<TokenUsage> {
    match (member_i64(usage, "prompt_tokens"@), member_i64(usage, "completion_tokens"@)) {
        (Some(input), Some(output)) => Some(
            TokenUsage {
                input_tokens: input,
                cached_input_tokens: detail_tokens(
                    usage,
                    "prompt_tokens_details"@,
                    "cached_tokens"@,
                ),
                cache_write_input_tokens: 0,
                output_tokens: output,
                reasoning_output_tokens: detail_tokens(
                    usage,
                    "completion_tokens_details"@,
                    "reasoning_tokens"@,
                ),
                total_tokens: match member_i64(usage, "total_tokens"@) {
                    Some(total) => total,
                    None => (input + output) as i64,
                },
            },
        ),
        _ => None,
    }
}

fn usage_sum_fits(usage: &Json) -> (r: bool)
    ensures
        r == usage_fits(usage@),
{
    match (usage.get_i64("prompt_tokens"), usage.get_i64("completion_tokens")) {
        (Some(input), Some(output)) => input.checked_add(output).is_some(),
        _ => true,
    }
}

fn detail(usage: &Json, outer: &str, inner: &str) -> (r: i64)
    ensures
        r == detail_tokens(usage@, outer@, inner@),
{
    match usage.get2(outer, inner) {
        Some(value) => match value.as_i64() {
            Some(n) => n,
            None => 0,
        },
        None => 0,
    }
}

/// Reads the tokens that a usage tells of.
pub fn chat_token_usage(usage: &Json) -> (r: Option<TokenUsage>)
    requires
        usage_fits(usage@),
    ensures
        r == usage_of(usage@),
{
    let input_tokens: i64 = match usage.get_i64("prompt_tokens") {
        Some(n) => n,
        None => return None,
    };
    let output_tokens: i64 = match usage.get_i64("completion_tokens") {
        Some(n) => n,
        None => return None,
    };
    let total_tokens: i64 = match usage.get_i64("total_tokens") {
        Some(n) => n,
        None => input_tokens + output_tokens,
    };
    Some(
        TokenUsage {
            input_tokens,
            cached_input_tokens: detail(usage, "prompt_tokens_details", "cached_tokens"),
            cache_write_input_tokens: 0,
            output_tokens,
            reasoning_output_tokens: detail(
                usage,
                "completion_tokens_details",
                "reasoning_tokens",
            ),
            total_tokens,
        },
    )
}

// ---------------------------------------------------------------------------------------------
// The stream as a state machine
// ---------------------------------------------------------------------------------------------

/// Where a stream stands.
#[verifier::ext_equal]
pub struct StreamView {
    pub assistant: Option<Seq<Seq<char>>>,
    pub reasoning: Option<Seq<Seq<char>>>,
    pub calls: Seq<CallView>,
    pub call_index_by_id: Map<Seq<char>, usize>,
    pub last_call_index: Option<usize>,
    pub response_id: Seq<char>,
    pub end_turn: Option<bool>,
    pub token_usage: Option<TokenUsage>,
    pub completed: bool,
}

/// A stream that has said nothing.
pub open spec fn new_stream() -> StreamView {
    StreamView {
        assistant: None,
        reasoning: None,
        calls: Seq::empty(),
        call_index_by_id: Map::empty(),
        last_call_index: None,
        response_id: Seq::empty(),
        end_turn: None,
        token_usage: None,
        completed: false,
    }
}

/// Where a stream stands, and the events that came of it.
#[verifier::ext_equal]
pub struct Progress {
    pub s: StreamView,
    pub out: Seq<EventView>,
}

/// Ends the reasoning item, where one is open.
pub open spec fn finish_reasoning(p: Progress) -> Progress {
    match p.s.reasoning {
        Some(parts) => Progress {
            s: StreamView { reasoning: None, ..p.s },
            out: p.out.push(EventView::Done(ItemView::Reasoning(parts))),
        },
        None => p,
    }
}

/// Ends the message, where one is open.
pub open spec fn finish_assistant(p: Progress) -> Progress {
    match p.s.assistant {
        Some(parts) => Progress {
            s: StreamView { assistant: None, ..p.s },
            out: p.out.push(EventView::Done(ItemView::Message(parts))),
        },
        None => p,
    }
}

/// Ends what is open, the reasoning first.
pub open spec fn finish_text(p: Progress) -> Progress {
    finish_assistant(finish_reasoning(p))
}

/// The assistant says something: the reasoning ends, a message begins where none is open, and the
/// text goes into it.
pub open spec fn say(p: Progress, text: Seq<char>) -> Progress {
    if text.len() == 0 {
        p
    } else {
        let q = finish_reasoning(p);
        let (parts, out) = match q.s.assistant {
            Some(parts) => (parts, q.out),
            None => (
                Seq::empty(),
                q.out.push(EventView::Added(ItemView::Message(Seq::empty()))),
            ),
        };
        Progress {
            s: StreamView { assistant: Some(parts.push(text)), ..q.s },
            out: out.push(EventView::TextDelta(text)),
        }
    }
}

/// The model reasons: a reasoning item begins where none is open, and the text goes into it.
pub open spec fn think(p: Progress, text: Seq<char>) -> Progress {
    if text.len() == 0 {
        p
    } else {
        let (parts, out) = match p.s.reasoning {
            Some(parts) => (parts, p.out),
            None => (
                Seq::empty(),
                p.out.push(EventView::Added(ItemView::Reasoning(Seq::empty()))),
            ),
        };
        Progress {
            s: StreamView { reasoning: Some(parts.push(text)), ..p.s },
            out: out.push(
                EventView::ReasoningDelta { delta: text, content_index: parts.len() as i64 },
            ),
        }
    }
}

/// The text of reasoning: a text, or an object with one under `text` or else under `content`.
pub open spec fn thought_text(v: JsonView) -> Option<Seq<char>> {
    match v {
        JsonView::Str(s) => Some(s),
        _ => match member(v, "text"@) {
            Some(t) => str_of(t),
            None => member_str(v, "content"@),
        },
    }
}

/// What a member of a message adds to the reasoning.
pub open spec fn think_member(p: Progress, message: JsonView, key: Seq<char>) -> Progress {
    match member(message, key) {
        Some(v) => match thought_text(v) {
            Some(text) => think(p, text),
            None => p,
        },
        None => p,
    }
}

/// What the first `n` parts of a message's content say.
pub open spec fn say_parts(p: Progress, parts: Seq<JsonView>, n: int) -> Progress
    decreases n,
{
    if n <= 0 {
        p
    } else {
        let q = say_parts(p, parts, n - 1);
        match member_str(parts[n - 1], "text"@) {
            Some(text) => say(q, text),
            None => q,
        }
    }
}

/// What a message's content says.
pub open spec fn say_content(p: Progress, message: JsonView) -> Progress {
    match member(message, "content"@) {
        Some(JsonView::Str(text)) => say(p, text),
        Some(JsonView::Array(parts)) => say_parts(p, parts, parts.len() as int),
        _ => p,
    }
}

/// The calls of a lower index than `index`.
pub open spec fn calls_below(calls: Seq<CallView>, index: usize) -> int
    decreases calls.len(),
{
    if calls.len() == 0 || calls[0].index >= index {
        0
    } else {
        1 + calls_below(calls.skip(1), index)
    }
}

/// The call at an index, empty where there is none yet.
pub open spec fn call_at(calls: Seq<CallView>, index: usize) -> CallView {
    let p = calls_below(calls, index);
    if p < calls.len() && calls[p].index == index {
        calls[p]
    } else {
        CallView { index, id: Seq::empty(), name: Seq::empty(), arguments: Seq::empty() }
    }
}

/// The calls with one of them set.
pub open spec fn put_call(calls: Seq<CallView>, call: CallView) -> Seq<CallView> {
    let p = calls_below(calls, call.index);
    if p < calls.len() && calls[p].index == call.index {
        calls.update(p, call)
    } else {
        calls.insert(p, call)
    }
}

/// The index of the call that a fragment belongs to: the one it names, or that of its identifier,
/// or that of the fragment before, or else a new one.
pub open spec fn fragment_index(s: StreamView, fragment: JsonView) -> usize {
    let named = match member(fragment, "index"@) {
        Some(v) => u64_of(v),
        None => None,
    };
    match named {
        Some(index) => index as usize,
        None => match member_str(fragment, "id"@) {
            Some(id) if s.call_index_by_id.contains_key(id) => s.call_index_by_id[id],
            _ => match s.last_call_index {
                Some(index) => index,
                None => s.calls.len() as usize,
            },
        },
    }
}

/// A call with what a fragment adds to it: the identifier is set, the name is extended unless it
/// is the same, and the arguments are extended.
pub open spec fn merge_fragment(call: CallView, fragment: JsonView) -> CallView {
    CallView {
        index: call.index,
        id: match member_str(fragment, "id"@) {
            Some(id) => id,
            None => call.id,
        },
        name: match member2(fragment, "function"@, "name"@) {
            Some(JsonView::Str(name)) if call.name != name => call.name + name,
            _ => call.name,
        },
        arguments: match member2(fragment, "function"@, "arguments"@) {
            Some(JsonView::Str(arguments)) => call.arguments + arguments,
            _ => call.arguments,
        },
    }
}

/// What a fragment of a tool call does.
pub open spec fn call_fragment(s: StreamView, fragment: JsonView) -> StreamView {
    let index = fragment_index(s, fragment);
    StreamView {
        calls: put_call(s.calls, merge_fragment(call_at(s.calls, index), fragment)),
        call_index_by_id: match member_str(fragment, "id"@) {
            Some(id) => s.call_index_by_id.insert(id, index),
            None => s.call_index_by_id,
        },
        last_call_index: Some(index),
        ..s
    }
}

/// What the first `n` fragments do.
pub open spec fn call_fragments(s: StreamView, fragments: Seq<JsonView>, n: int) -> StreamView
    decreases n,
{
    if n <= 0 {
        s
    } else {
        call_fragment(call_fragments(s, fragments, n - 1), fragments[n - 1])
    }
}

/// What the calls of a message do; text ends where there are any.
pub open spec fn take_calls(p: Progress, message: JsonView) -> Progress {
    match member(message, "tool_calls"@) {
        Some(JsonView::Array(fragments)) => if fragments.len() == 0 {
            p
        } else {
            let q = finish_text(p);
            Progress {
                s: call_fragments(q.s, fragments, fragments.len() as int),
                out: q.out,
            }
        },
        _ => p,
    }
}

/// What a message does: its reasoning, its content, its calls.
pub open spec fn take_message(p: Progress, message: JsonView) -> Progress {
    let p1 = think_member(p, message, "reasoning_content"@);
    let p2 = think_member(p1, message, "reasoning"@);
    take_calls(say_content(p2, message), message)
}

/// What an end of a choice says of the turn.
pub open spec fn turn_end(finish_reason: Seq<char>) -> Option<bool> {
    if finish_reason == "stop"@ {
        Some(true)
    } else if finish_reason == "tool_calls"@ || finish_reason == "function_call"@ {
        Some(false)
    } else {
        None
    }
}

/// What a choice does, and whether it ran out of room.
pub open spec fn take_choice(p: Progress, choice: JsonView) -> (Progress, bool) {
    let q = match member(choice, "delta"@) {
        Some(message) => take_message(p, message),
        None => match member(choice, "message"@) {
            Some(message) => take_message(p, message),
            None => p,
        },
    };
    match member_str(choice, "finish_reason"@) {
        Some(reason) => if reason == "length"@ {
            (q, true)
        } else {
            (Progress { s: StreamView { end_turn: turn_end(reason), ..q.s }, out: q.out }, false)
        },
        None => (q, false),
    }
}

/// What the first `n` choices do, up to one that ran out of room.
pub open spec fn take_choices(p: Progress, choices: Seq<JsonView>, n: int) -> (Progress, bool)
    decreases n,
{
    if n <= 0 {
        (p, false)
    } else {
        let (q, full) = take_choices(p, choices, n - 1);
        if full {
            (q, true)
        } else {
            take_choice(q, choices[n - 1])
        }
    }
}

/// How a stream ends.
pub enum EndView {
    /// The response is complete.
    Completed,
    /// The answer did not fit into the context window.
    ContextWindowExceeded,
    /// A count of tokens is out of range.
    UsageOverflow,
    /// The stream failed, with what is said of it.
    Stream(Seq<char>),
}

/// What a document of the stream does.
pub open spec fn take_chunk(s: StreamView, value: JsonView) -> (Progress, Option<EndView>) {
    let s1 = match member_str(value, "id"@) {
        Some(id) if s.response_id.len() == 0 => StreamView { response_id: id, ..s },
        _ => s,
    };
    match member(value, "usage"@) {
        Some(usage) if !usage_fits(usage) => (
            Progress { s: s1, out: Seq::empty() },
            Some(EndView::UsageOverflow),
        ),
        _ => {
            let s2 = match member(value, "usage"@) {
                Some(usage) => StreamView { token_usage: usage_of(usage), ..s1 },
                None => s1,
            };
            match member(value, "choices"@) {
                Some(JsonView::Array(choices)) => {
                    let (p, full) = take_choices(
                        Progress { s: s2, out: Seq::empty() },
                        choices,
                        choices.len() as int,
                    );
                    (p, if full { Some(EndView::ContextWindowExceeded) } else { None })
                },
                _ => (Progress { s: s2, out: Seq::empty() }, None),
            }
        },
    }
}

/// The calls as events, each begun and done.
pub open spec fn call_events(calls: Seq<CallView>) -> Seq<EventView>
    decreases calls.len(),
{
    if calls.len() == 0 {
        Seq::empty()
    } else {
        let c = calls.last();
        let item = ItemView::Call { id: c.id, name: c.name, arguments: c.arguments };
        call_events(calls.drop_last()).push(EventView::Added(item)).push(EventView::Done(item))
    }
}

/// The end of the response: what is open ends, the calls follow in the order of their indexes,
/// and the response is complete.
pub open spec fn complete(s: StreamView) -> Progress {
    if s.completed {
        Progress { s, out: Seq::empty() }
    } else {
        let p = finish_text(Progress { s: StreamView { completed: true, ..s }, out: Seq::empty() });
        Progress {
            s: StreamView {
                calls: Seq::empty(),
                response_id: Seq::empty(),
                token_usage: None,
                ..p.s
            },
            out: (p.out + call_events(p.s.calls)).push(
                EventView::Completed {
                    response_id: p.s.response_id,
                    token_usage: p.s.token_usage,
                    end_turn: p.s.end_turn,
                },
            ),
        }
    }
}

/// What the data of a message does. Empty data and data that is not JSON are passed over.
pub open spec fn take_data(s: StreamView, data: Seq<char>) -> (Progress, Option<EndView>) {
    let data = trim_of(data);
    if data.len() == 0 {
        (Progress { s, out: Seq::empty() }, None)
    } else if data == "[DONE]"@ || data == "DONE"@ {
        (complete(s), Some(EndView::Completed))
    } else {
        match parsed_json(data) {
            Some(value) => take_chunk(s, value),
            None => (Progress { s, out: Seq::empty() }, None),
        }
    }
}

// ---------------------------------------------------------------------------------------------
// Running the stream
// ---------------------------------------------------------------------------------------------

/// The events that have been made, and what they say.
struct Emitter {
    events: Vec<ResponseEvent>,
    views: Ghost<Seq<EventView>>,
}

impl View for Emitter {
    type V = Seq<EventView>;

    closed spec fn view(&self) -> Seq<EventView> {
        self.views@
    }
}

impl Emitter {
    spec fn inv(self) -> bool {
        events_show(self.events@, self.views@)
    }

    fn new() -> (r: Emitter)
        ensures
            r.inv(),
            r@ == Seq::<EventView>::empty(),
    {
        Emitter { events: Vec::new(), views: Ghost(Seq::empty()) }
    }

    fn send(&mut self, event: ResponseEvent, view: Ghost<EventView>)
        requires
            old(self).inv(),
            event_shows(event, view@),
        ensures
            final(self).inv(),
            final(self)@ == old(self)@.push(view@),
    {
        self.events.push(event);
        self.views = Ghost(self.views@.push(view@));
    }
}

struct ToolCallState {
    index: usize,
    id: String,
    name: String,
    arguments: String,
}

impl View for ToolCallState {
    type V = CallView;

    closed spec fn view(&self) -> CallView {
        CallView {
            index: self.index,
            id: self.id@,
            name: self.name@,
            arguments: self.arguments@,
        }
    }
}

spec fn calls_view(calls: Seq<ToolCallState>) -> Seq<CallView> {
    calls.map_values(|c: ToolCallState| c@)
}

spec fn opt_texts(o: Option<Vec<String>>) -> Option<Seq<Seq<char>>> {
    match o {
        Some(v) => Some(texts(v@)),
        None => None,
    }
}

/// The stream that answers a Chat Completions call.
pub struct ChatStreamState {
    assistant_item: Option<Vec<String>>,
    reasoning_item: Option<Vec<String>>,
    tool_calls: Vec<ToolCallState>,
    tool_call_index_by_id: StringHashMap<usize>,
    last_tool_call_index: Option<usize>,
    response_id: String,
    end_turn: Option<bool>,
    token_usage: Option<TokenUsage>,
    completed: bool,
}

impl View for ChatStreamState {
    type V = StreamView;

    closed spec fn view(&self) -> StreamView {
        StreamView {
            assistant: opt_texts(self.assistant_item),
            reasoning: opt_texts(self.reasoning_item),
            calls: calls_view(self.tool_calls@),
            call_index_by_id: self.tool_call_index_by_id@,
            last_call_index: self.last_tool_call_index,
            response_id: self.response_id@,
            end_turn: self.end_turn,
            token_usage: self.token_usage,
            completed: self.completed,
        }
    }
}

spec fn progress(s: ChatStreamState, tx: Emitter) -> Progress {
    Progress { s: s@, out: tx@ }
}

fn message_item(parts: &Vec<String>) -> (r: ResponseItem)
    ensures
        item_shows(r, ItemView::Message(texts(parts@))),
{
    let mut content: Vec<ContentItem> = Vec::new();
    let mut i: usize = 0;
    while i < parts.len()
        invariant
            i <= parts.len(),
            content@.len() == i,
            forall|k: int|
                0 <= k < i ==> (#[trigger] content@[k] matches ContentItem::OutputText { text }
                    && text@ == parts@[k]@),
        decreases parts.len() - i,
    {
        content.push(ContentItem::OutputText { text: parts[i].clone() });
        i += 1;
    }
    ResponseItem::Message { role: text::owned("assistant"), content }
}

fn reasoning_item(parts: &Vec<String>) -> (r: ResponseItem)
    ensures
        item_shows(r, ItemView::Reasoning(texts(parts@))),
{
    let mut content: Vec<ReasoningItemContent> = Vec::new();
    let mut i: usize = 0;
    while i < parts.len()
        invariant
            i <= parts.len(),
            content@.len() == i,
            forall|k: int|
                0 <= k < i ==> (
                #[trigger] content@[k] matches ReasoningItemContent::ReasoningText { text } && text@
                    == parts@[k]@),
        decreases parts.len() - i,
    {
        content.push(ReasoningItemContent::ReasoningText { text: parts[i].clone() });
        i += 1;
    }
    ResponseItem::Reasoning { content: Some(content) }
}

fn push_text(parts: &mut Vec<String>, value: &str)
    ensures
        texts(final(parts)@) == texts(old(parts)@).push(value@),
{
    let ghost before = parts@;
    parts.push(text::owned(value));
    assert(texts(parts@) =~= texts(before).push(value@));
}

fn no_texts() -> (r: Vec<String>)
    ensures
        texts(r@) == Seq::<Seq<char>>::empty(),
{
    let r: Vec<String> = Vec::new();
    assert(texts(r@) =~= Seq::empty());
    r
}

proof fn lemma_calls_below(calls: Seq<CallView>, index: usize, n: int)
    requires
        0 <= n <= calls.len(),
        forall|k: int| 0 <= k < n ==> (#[trigger] calls[k]).index < index,
        n < calls.len() ==> calls[n].index >= index,
    ensures
        calls_below(calls, index) == n,
    decreases n,
{
    if n > 0 {
        assert forall|k: int| 0 <= k < n - 1 implies (#[trigger] calls.skip(1)[k]).index < index by {
            assert(calls.skip(1)[k] == calls[k + 1]);
        }
        assert(calls[0].index < index);
        if n < calls.len() {
            assert(calls.skip(1)[n - 1] == calls[n]);
        }
        lemma_calls_below(calls.skip(1), index, n - 1);
    }
}

fn merge_call(call: ToolCallState, fragment: &Json) -> (r: ToolCallState)
    ensures
        r@ == merge_fragment(call@, fragment@),
{
    let mut call = call;
    if let Some(id) = fragment.get_str("id") {
        call.id = text::owned(id);
    }
    if let Some(function) = fragment.get("function") {
        if let Some(name) = function.get_str("name") {
            if !text::str_eq(call.name.as_str(), name) {
                call.name.append(name);
            }
        }
        if let Some(arguments) = function.get_str("arguments") {
            call.arguments.append(arguments);
        }
    }
    call
}

fn merge_into(tool_calls: &mut Vec<ToolCallState>, index: usize, fragment: &Json)
    ensures
        calls_view(final(tool_calls)@) == put_call(
            calls_view(old(tool_calls)@),
            merge_fragment(call_at(calls_view(old(tool_calls)@), index), fragment@),
        ),
{
    let ghost before = tool_calls@;
    let ghost calls = calls_view(tool_calls@);
    let mut at: usize = 0;
    while at < tool_calls.len() && tool_calls[at].index < index
        invariant
            at <= tool_calls@.len(),
            before == tool_calls@,
            calls == calls_view(before),
            forall|k: int| 0 <= k < at ==> (#[trigger] calls[k]).index < index,
        decreases tool_calls@.len() - at,
    {
        assert(calls[at as int] == before[at as int]@);
        at += 1;
    }
    proof {
        if at < calls.len() {
            assert(calls[at as int] == before[at as int]@);
        }
        lemma_calls_below(calls, index, at as int);
    }
    let ghost merged = merge_fragment(call_at(calls, index), fragment@);
    if at < tool_calls.len() && tool_calls[at].index == index {
        let call = tool_calls.remove(at);
        let call = merge_call(call, fragment);
        tool_calls.insert(at, call);
        assert(calls_view(tool_calls@) =~= calls.update(at as int, merged));
    } else {
        let call = ToolCallState {
            index,
            id: String::new(),
            name: String::new(),
            arguments: String::new(),
        };
        assert(call@ =~= call_at(calls, index));
        let call = merge_call(call, fragment);
        tool_calls.insert(at, call);
        assert(calls_view(tool_calls@) =~= calls.insert(at as int, merged));
    }
}

impl ChatStreamState {
    /// A stream that has said nothing.
    pub fn new() -> (r: ChatStreamState)
        ensures
            r@ == new_stream(),
    {
        let r = ChatStreamState {
            assistant_item: None,
            reasoning_item: None,
            tool_calls: Vec::new(),
            tool_call_index_by_id: StringHashMap::new(),
            last_tool_call_index: None,
            response_id: String::new(),
            end_turn: None,
            token_usage: None,
            completed: false,
        };
        assert(r@ =~= new_stream());
        r
    }

    fn append_assistant_text(&mut self, tx: &mut Emitter, value: &str)
        requires
            old(tx).inv(),
        ensures
            final(tx).inv(),
            progress(*final(self), *final(tx)) == say(progress(*old(self), *old(tx)), value@),
    {
        if value.is_empty() {
            return;
        }
        self.finish_reasoning(tx);
        let mut parts = match self.assistant_item.take() {
            Some(parts) => parts,
            None => {
                let parts = no_texts();
                let item = message_item(&parts);
                tx.send(
                    ResponseEvent::OutputItemAdded(item),
                    Ghost(EventView::Added(ItemView::Message(Seq::empty()))),
                );
                parts
            },
        };
        push_text(&mut parts, value);
        self.assistant_item = Some(parts);
        tx.send(
            ResponseEvent::OutputTextDelta(text::owned(value)),
            Ghost(EventView::TextDelta(value@)),
        );
    }

    fn finish_reasoning(&mut self, tx: &mut Emitter)
        requires
            old(tx).inv(),
        ensures
            final(tx).inv(),
            progress(*final(self), *final(tx)) == finish_reasoning(
                progress(*old(self), *old(tx)),
            ),
    {
        if let Some(parts) = self.reasoning_item.take() {
            tx.send(
                ResponseEvent::OutputItemDone(reasoning_item(&parts)),
                Ghost(EventView::Done(ItemView::Reasoning(texts(parts@)))),
            );
        }
    }

    fn finish_assistant(&mut self, tx: &mut Emitter)
        requires
            old(tx).inv(),
        ensures
            final(tx).inv(),
            progress(*final(self), *final(tx)) == finish_assistant(
                progress(*old(self), *old(tx)),
            ),
    {
        if let Some(parts) = self.assistant_item.take() {
            tx.send(
                ResponseEvent::OutputItemDone(message_item(&parts)),
                Ghost(EventView::Done(ItemView::Message(texts(parts@)))),
            );
        }
    }

    fn finish_text_items(&mut self, tx: &mut Emitter)
        requires
            old(tx).inv(),
        ensures
            final(tx).inv(),
            progress(*final(self), *final(tx)) == finish_text(progress(*old(self), *old(tx))),
    {
        self.finish_reasoning(tx);
        self.finish_assistant(tx);
    }

    fn append_reasoning_text(&mut self, tx: &mut Emitter, value: &str)
        requires
            old(tx).inv(),
        ensures
            final(tx).inv(),
            progress(*final(self), *final(tx)) == think(progress(*old(self), *old(tx)), value@),
    {
        if value.is_empty() {
            return;
        }
        let mut parts = match self.reasoning_item.take() {
            Some(parts) => parts,
            None => {
                let parts = no_texts();
                let item = reasoning_item(&parts);
                tx.send(
                    ResponseEvent::OutputItemAdded(item),
                    Ghost(EventView::Added(ItemView::Reasoning(Seq::empty()))),
                );
                parts
            },
        };
        let content_index: i64 = parts.len() as i64;
        push_text(&mut parts, value);
        self.reasoning_item = Some(parts);
        tx.send(
            ResponseEvent::ReasoningContentDelta { delta: text::owned(value), content_index },
            Ghost(EventView::ReasoningDelta { delta: value@, content_index }),
        );
    }

    fn append_reasoning_member(&mut self, tx: &mut Emitter, message: &Json, key: &str)
        requires
            old(tx).inv(),
        ensures
            final(tx).inv(),
            progress(*final(self), *final(tx)) == think_member(
                progress(*old(self), *old(tx)),
                message@,
                key@,
            ),
    {
        if let Some(reasoning) = message.get(key) {
            let value = match reasoning.as_str() {
                Some(value) => Some(value),
                None => match reasoning.get("text") {
                    Some(inner) => inner.as_str(),
                    None => reasoning.get_str("content"),
                },
            };
            if let Some(value) = value {
                self.append_reasoning_text(tx, value);
            }
        }
    }

    fn append_content(&mut self, tx: &mut Emitter, message: &Json)
        requires
            old(tx).inv(),
        ensures
            final(tx).inv(),
            progress(*final(self), *final(tx)) == say_content(
                progress(*old(self), *old(tx)),
                message@,
            ),
    {
        match message.get("content") {
            Some(Json::Str(value)) => {
                self.append_assistant_text(tx, value.as_str());
            },
            Some(Json::Array(parts)) => {
                let ghost start = progress(*self, *tx);
                let ghost shown = items_view(parts@);
                let mut i: usize = 0;
                proof {
                    items_view_index(parts@);
                }
                while i < parts.len()
                    invariant
                        i <= parts.len(),
                        tx.inv(),
                        shown == items_view(parts@),
                        progress(*self, *tx) == say_parts(start, shown, i as int),
                    decreases parts.len() - i,
                {
                    proof {
                        items_view_index(parts@);
                        assert(shown[i as int] == parts@[i as int]@);
                    }
                    if let Some(value) = parts[i].get_str("text") {
                        self.append_assistant_text(tx, value);
                    }
                    i += 1;
                }
            },
            _ => {},
        }
    }

    fn tool_call_index(&self, fragment: &Json) -> (r: usize)
        ensures
            r == fragment_index(self@, fragment@),
    {
        let named: Option<u64> = match fragment.get("index") {
            Some(value) => value.as_u64(),
            None => None,
        };
        if let Some(value) = named {
            return #[verifier::truncate] (value as usize);
        }
        if let Some(id) = fragment.get_str("id") {
            if let Some(index) = self.tool_call_index_by_id.get(id) {
                return *index;
            }
        }
        match self.last_tool_call_index {
            Some(index) => index,
            None => self.tool_calls.len(),
        }
    }

    fn update_tool_call(&mut self, fragment: &Json)
        ensures
            final(self)@ == call_fragment(old(self)@, fragment@),
    {
        let index: usize = self.tool_call_index(fragment);
        self.last_tool_call_index = Some(index);
        merge_into(&mut self.tool_calls, index, fragment);
        if let Some(id) = fragment.get_str("id") {
            self.tool_call_index_by_id.insert(text::owned(id), index);
        }
        assert(self@ =~= call_fragment(old(self)@, fragment@));
    }

    fn take_tool_calls(&mut self, tx: &mut Emitter, message: &Json)
        requires
            old(tx).inv(),
        ensures
            final(tx).inv(),
            progress(*final(self), *final(tx)) == take_calls(
                progress(*old(self), *old(tx)),
                message@,
            ),
    {
        if let Some(Json::Array(fragments)) = message.get("tool_calls") {
            let ghost shown = items_view(fragments@);
            proof {
                items_view_index(fragments@);
            }
            if fragments.len() > 0 {
                self.finish_text_items(tx);
            }
            let ghost start = self@;
            let mut i: usize = 0;
            while i < fragments.len()
                invariant
                    i <= fragments.len(),
                    shown == items_view(fragments@),
                    self@ == call_fragments(start, shown, i as int),
                decreases fragments.len() - i,
            {
                proof {
                    items_view_index(fragments@);
                    assert(shown[i as int] == fragments@[i as int]@);
                }
                self.update_tool_call(&fragments[i]);
                i += 1;
            }
        }
    }

    fn take_choice(&mut self, tx: &mut Emitter, choice: &Json) -> (full: bool)
        requires
            old(tx).inv(),
        ensures
            final(tx).inv(),
            (progress(*final(self), *final(tx)), full) == take_choice(
                progress(*old(self), *old(tx)),
                choice@,
            ),
    {
        let message = match choice.get("delta") {
            Some(message) => Some(message),
            None => choice.get("message"),
        };
        if let Some(message) = message {
            self.append_reasoning_member(tx, message, "reasoning_content");
            self.append_reasoning_member(tx, message, "reasoning");
            self.append_content(tx, message);
            self.take_tool_calls(tx, message);
        }
        if let Some(finish_reason) = choice.get_str("finish_reason") {
            if text::str_eq(finish_reason, "length") {
                return true;
            }
            self.end_turn = if text::str_eq(finish_reason, "stop") {
                Some(true)
            } else if text::str_eq(finish_reason, "tool_calls") || text::str_eq(
                finish_reason,
                "function_call",
            ) {
                Some(false)
            } else {
                None
            };
        }
        false
    }

    fn take_chunk(&mut self, tx: &mut Emitter, value: &Json) -> (end: Option<StreamEnd>)
        requires
            old(tx).inv(),
            old(tx)@.len() == 0,
        ensures
            final(tx).inv(),
            (progress(*final(self), *final(tx)), opt_end(end)) == take_chunk(
                old(self)@,
                value@,
            ),
    {
        assert(tx@ =~= Seq::empty());
        if self.response_id.as_str().is_empty() {
            if let Some(id) = value.get_str("id") {
                self.response_id = text::owned(id);
            }
        }
        if let Some(usage) = value.get("usage") {
            if !usage_sum_fits(usage) {
                return Some(StreamEnd::UsageOverflow);
            }
            self.token_usage = chat_token_usage(usage);
        }
        if let Some(Json::Array(choices)) = value.get("choices") {
            let ghost start = progress(*self, *tx);
            let ghost shown = items_view(choices@);
            proof {
                items_view_index(choices@);
            }
            let mut i: usize = 0;
            let mut full = false;
            while i < choices.len() && !full
                invariant
                    i <= choices.len(),
                    tx.inv(),
                    shown == items_view(choices@),
                    (progress(*self, *tx), full) == take_choices(start, shown, i as int),
                decreases choices.len() - i,
            {
                proof {
                    items_view_index(choices@);
                    assert(shown[i as int] == choices@[i as int]@);
                }
                full = self.take_choice(tx, &choices[i]);
                i += 1;
            }
            proof {
                lemma_choices_full(start, shown, i as int, shown.len() as int);
            }
            if full {
                return Some(StreamEnd::ContextWindowExceeded);
            }
        }
        None
    }

    fn complete(&mut self, tx: &mut Emitter)
        requires
            old(tx).inv(),
            old(tx)@.len() == 0,
        ensures
            final(tx).inv(),
            progress(*final(self), *final(tx)) == complete(old(self)@),
    {
        assert(tx@ =~= Seq::empty());
        if self.completed {
            return;
        }
        self.completed = true;
        self.finish_text_items(tx);
        let ghost start = tx@;
        let ghost calls = calls_view(self.tool_calls@);
        let mut i: usize = 0;
        assert(start + call_events(calls.take(0)) =~= start);
        while i < self.tool_calls.len()
            invariant
                i <= self.tool_calls@.len(),
                tx.inv(),
                calls == calls_view(self.tool_calls@),
                tx@ == start + call_events(calls.take(i as int)),
            decreases self.tool_calls@.len() - i,
        {
            let call = &self.tool_calls[i];
            let ghost item = ItemView::Call {
                id: call.id@,
                name: call.name@,
                arguments: call.arguments@,
            };
            proof {
                assert(calls[i as int] == call@);
                assert(calls.take(i + 1).drop_last() =~= calls.take(i as int));
                assert(calls.take(i + 1).last() == call@);
                assert(tx@.push(EventView::Added(item)).push(EventView::Done(item)) =~= start
                    + call_events(calls.take(i + 1)));
            }
            tx.send(
                ResponseEvent::OutputItemAdded(function_call(call)),
                Ghost(EventView::Added(item)),
            );
            tx.send(
                ResponseEvent::OutputItemDone(function_call(call)),
                Ghost(EventView::Done(item)),
            );
            i += 1;
        }
        assert(calls.take(i as int) =~= calls);
        self.tool_calls = Vec::new();
        let mut response_id = String::new();
        std::mem::swap(&mut response_id, &mut self.response_id);
        let token_usage = self.token_usage.take();
        let ghost view = EventView::Completed {
            response_id: response_id@,
            token_usage,
            end_turn: self.end_turn,
        };
        tx.send(
            ResponseEvent::Completed { response_id, token_usage, end_turn: self.end_turn },
            Ghost(view),
        );
        assert(self@.calls =~= Seq::empty());
        assert(self@.response_id =~= Seq::empty());
        assert(progress(*self, *tx) =~= complete(old(self)@));
    }
}

proof fn lemma_choices_full(p: Progress, choices: Seq<JsonView>, n: int, m: int)
    requires
        0 <= n <= m,
        n == m || take_choices(p, choices, n).1,
    ensures
        take_choices(p, choices, m) == take_choices(p, choices, n),
    decreases m - n,
{
    if n < m {
        lemma_choices_full(p, choices, n, m - 1);
    }
}

fn function_call(call: &ToolCallState) -> (r: ResponseItem)
    ensures
        item_shows(
            r,
            ItemView::Call { id: call.id@, name: call.name@, arguments: call.arguments@ },
        ),
{
    ResponseItem::FunctionCall {
        name: call.name.clone(),
        namespace: None,
        arguments: call.arguments.clone(),
        call_id: call.id.clone(),
    }
}

/// How a stream ends.
#[derive(Debug, PartialEq, Eq)]
pub enum StreamEnd {
    /// The response is complete.
    Completed,
    /// The answer did not fit into the context window.
    ContextWindowExceeded,
    /// A count of tokens is out of range.
    UsageOverflow,
    /// The stream failed, with what is said of it.
    Stream(String),
}

impl View for StreamEnd {
    type V = EndView;

    open spec fn view(&self) -> EndView {
        match *self {
            StreamEnd::Completed => EndView::Completed,
            StreamEnd::ContextWindowExceeded => EndView::ContextWindowExceeded,
            StreamEnd::UsageOverflow => EndView::UsageOverflow,
            StreamEnd::Stream(message) => EndView::Stream(message@),
        }
    }
}

/// How a stream ends, where it does.
pub open spec fn opt_end(end: Option<StreamEnd>) -> Option<EndView> {
    match end {
        Some(end) => Some(end@),
        None => None,
    }
}

/// What waiting for the next message of the stream gave.
#[derive(Debug)]
pub enum StreamPoll {
    /// The data of a message.
    Message(String),
    /// The stream failed.
    Failed(String),
    /// The stream is over.
    Ended,
    /// Nothing came in time.
    TimedOut,
}

/// What comes of a message: the events to hand on, and the end of the stream where it is reached.
#[derive(Debug)]
pub struct StreamStep {
    pub events: Vec<ResponseEvent>,
    pub end: Option<StreamEnd>,
}

/// What a poll of the stream does.
pub open spec fn take_poll(s: StreamView, poll: StreamPoll) -> (Progress, Option<EndView>) {
    let nothing = Progress { s, out: Seq::empty() };
    match poll {
        StreamPoll::Message(data) => take_data(s, data@),
        StreamPoll::Failed(message) => (nothing, Some(EndView::Stream(message@))),
        StreamPoll::Ended => (
            nothing,
            Some(EndView::Stream("Chat Completions stream ended before [DONE]"@)),
        ),
        StreamPoll::TimedOut => (
            nothing,
            Some(EndView::Stream("idle timeout waiting for Chat Completions SSE"@)),
        ),
    }
}

impl ChatStreamState {
    /// Takes the document of a message.
    pub fn push_value(&mut self, value: &Json) -> (r: StreamStep)
        ensures
            ({
                let (p, end) = take_chunk(old(self)@, value@);
                &&& final(self)@ == p.s
                &&& events_show(r.events@, p.out)
                &&& opt_end(r.end) == end
            }),
    {
        let mut tx = Emitter::new();
        let end = self.take_chunk(&mut tx, value);
        StreamStep { events: tx.events, end }
    }

    /// Takes the data of a message.
    pub fn push_data(&mut self, data: &str) -> (r: StreamStep)
        ensures
            ({
                let (p, end) = take_data(old(self)@, data@);
                &&& final(self)@ == p.s
                &&& events_show(r.events@, p.out)
                &&& opt_end(r.end) == end
            }),
    {
        let data = text::trim(data);
        if data.is_empty() {
            return StreamStep { events: Vec::new(), end: None };
        }
        if text::str_eq(data, "[DONE]") || text::str_eq(data, "DONE") {
            let mut tx = Emitter::new();
            self.complete(&mut tx);
            return StreamStep { events: tx.events, end: Some(StreamEnd::Completed) };
        }
        match Json::parse(data) {
            Some(value) => self.push_value(&value),
            None => StreamStep { events: Vec::new(), end: None },
        }
    }

    /// Takes what waiting for the next message gave.
    pub fn step(&mut self, poll: StreamPoll) -> (r: StreamStep)
        ensures
            ({
                let (p, end) = take_poll(old(self)@, poll);
                &&& final(self)@ == p.s
                &&& events_show(r.events@, p.out)
                &&& opt_end(r.end) == end
            }),
    {
        match poll {
            StreamPoll::Message(data) => self.push_data(data.as_str()),
            StreamPoll::Failed(message) => StreamStep {
                events: Vec::new(),
                end: Some(StreamEnd::Stream(message)),
            },
            StreamPoll::Ended => StreamStep {
                events: Vec::new(),
                end: Some(
                    StreamEnd::Stream(text::owned("Chat Completions stream ended before [DONE]")),
                ),
            },
            StreamPoll::TimedOut => StreamStep {
                events: Vec::new(),
                end: Some(
                    StreamEnd::Stream(
                        text::owned("idle timeout waiting for Chat Completions SSE"),
                    ),
                ),
            },
        }
    }
}

// ---------------------------------------------------------------------------------------------
// Laws
// ---------------------------------------------------------------------------------------------

/// The calls stand in the order of their indexes, none twice.
pub open spec fn calls_in_order(calls: Seq<CallView>) -> bool {
    forall|i: int, j: int|
        0 <= i < j < calls.len() ==> (#[trigger] calls[i]).index < (#[trigger] calls[j]).index
}

proof fn lemma_below(calls: Seq<CallView>, index: usize)
    requires
        calls_in_order(calls),
    ensures
        0 <= calls_below(calls, index) <= calls.len(),
        forall|k: int|
            0 <= k < calls.len() ==> (k < calls_below(calls, index) <==> (
            #[trigger] calls[k]).index < index),
    decreases calls.len(),
{
    if calls.len() > 0 && calls[0].index < index {
        let rest = calls.skip(1);
        assert forall|i: int, j: int| 0 <= i < j < rest.len() implies (#[trigger] rest[i]).index < (
        #[trigger] rest[j]).index by {
            assert(rest[i] == calls[i + 1] && rest[j] == calls[j + 1]);
        }
        lemma_below(rest, index);
        assert forall|k: int| 0 <= k < calls.len() implies (k < calls_below(calls, index) <==> (
        #[trigger] calls[k]).index < index) by {
            if k > 0 {
                assert(calls[k] == rest[k - 1]);
            }
        }
    } else if calls.len() > 0 {
        assert forall|k: int| 0 <= k < calls.len() implies !((#[trigger] calls[k]).index
            < index) by {
            if k > 0 {
                assert(calls[0].index < calls[k].index);
            }
        }
    }
}

/// A fragment keeps the calls in the order of their indexes, sets the call at its index to the
/// call there with the fragment merged into it, and leaves every other call alone.
pub proof fn fragments_keep_calls_in_order(s: StreamView, fragment: JsonView, other: usize)
    requires
        calls_in_order(s.calls),
        other != fragment_index(s, fragment),
    ensures
        ({
            let index = fragment_index(s, fragment);
            let after = call_fragment(s, fragment);
            &&& calls_in_order(after.calls)
            &&& call_at(after.calls, index) == merge_fragment(call_at(s.calls, index), fragment)
            &&& call_at(after.calls, other) == call_at(s.calls, other)
        }),
{
    let index = fragment_index(s, fragment);
    let merged = merge_fragment(call_at(s.calls, index), fragment);
    let after = call_fragment(s, fragment).calls;
    let p = calls_below(s.calls, index);
    lemma_below(s.calls, index);
    lemma_below(s.calls, other);
    assert(merged.index == index);
    let present = p < s.calls.len() && s.calls[p].index == index;
    assert forall|i: int, j: int| 0 <= i < j < after.len() implies (#[trigger] after[i]).index < (
    #[trigger] after[j]).index by {
        if present {
            assert(after[i].index == s.calls[i].index);
            assert(after[j].index == s.calls[j].index);
        } else {
            let a = if i < p { i } else { i - 1 };
            let b = if j < p { j } else { j - 1 };
            if i != p {
                assert(after[i] == s.calls[a]);
            }
            if j != p {
                assert(after[j] == s.calls[b]);
            }
        }
    }
    lemma_below(after, index);
    lemma_below(after, other);
    let q = calls_below(after, index);
    assert(after[p] == merged);
    assert(q == p) by {
        if q > p {
            assert(after[p].index < index);
        }
        if q < p {
            assert(after[q].index < index);
        }
    }
    let o = calls_below(s.calls, other);
    let t = calls_below(after, other);
    if call_at(after, other) != call_at(s.calls, other) {
        if t < after.len() && after[t].index == other {
            let back = if present || t < p { t } else { t - 1 };
            assert(s.calls[back] == after[t]);
            if back < o {
                assert(s.calls[back].index < other);
            }
            if o < back {
                assert(s.calls[o].index < other);
            }
        } else {
            let fore = if present || o < p { o } else { o + 1 };
            if o < s.calls.len() && s.calls[o].index == other {
                assert(after[fore] == s.calls[o]);
                if fore < t {
                    assert(after[fore].index < other);
                }
                if t < fore {
                    assert(after[t].index < other);
                }
            }
        }
    }
}

/// Completing a response leaves no item open and no call behind, ends with the completion event,
/// and completing it once more makes no event.
pub proof fn completion_closes_everything(s: StreamView)
    requires
        !s.completed,
    ensures
        ({
            let done = complete(s);
            &&& done.s.assistant is None
            &&& done.s.reasoning is None
            &&& done.s.calls.len() == 0
            &&& done.s.completed
            &&& done.out.len() > 0
            &&& done.out.last() is Completed
            &&& complete(done.s).out.len() == 0
            &&& complete(done.s).s == done.s
        }),
{
}

/// What was said stays said: the message that ends holds every piece of text that went into it,
/// in order, and reasoning ends before a message begins.
pub proof fn text_is_kept(p: Progress, text: Seq<char>)
    requires
        text.len() > 0,
    ensures
        ({
            let q = say(p, text);
            let before = match p.s.assistant {
                Some(parts) => parts,
                None => Seq::empty(),
            };
            &&& q.s.reasoning is None
            &&& q.s.assistant == Some(before.push(text))
            &&& q.out.last() == EventView::TextDelta(text)
            &&& finish_assistant(q).out.last() == EventView::Done(
                ItemView::Message(before.push(text)),
            )
        }),
{
}

/// What the polls of a stream do, one after the other.
pub struct StreamRun {
    /// Where the stream stands.
    pub s: StreamView,
    /// The events that went out.
    pub sent: Seq<EventView>,
    /// How the stream ended, where it did. Any end but the completion goes out as the one error,
    /// after the events.
    pub end: Option<EndView>,
}

/// Reads a stream from its start, up to the poll that ends it; later ones are not made.
pub open spec fn stream_run(polls: Seq<StreamPoll>) -> StreamRun
    decreases polls.len(),
{
    if polls.len() == 0 {
        StreamRun { s: new_stream(), sent: Seq::empty(), end: None }
    } else {
        let before = stream_run(polls.drop_last());
        if before.end is Some {
            before
        } else {
            let (p, end) = take_poll(before.s, polls.last());
            StreamRun { s: p.s, sent: before.sent + p.out, end }
        }
    }
}

/// One of the first `n` choices ran out of room.
pub open spec fn runs_out_of_room(choices: Seq<JsonView>, n: int) -> bool {
    exists|i: int|
        0 <= i < n && member_str(#[trigger] choices[i], "finish_reason"@) == Some("length"@)
}

/// How a document of a stream ends it, where it does: with a count of tokens that is out of
/// range, or with a choice that ran out of room.
pub open spec fn chunk_end(value: JsonView) -> Option<EndView> {
    match member(value, "usage"@) {
        Some(usage) if !usage_fits(usage) => Some(EndView::UsageOverflow),
        _ => match member(value, "choices"@) {
            Some(JsonView::Array(choices)) if runs_out_of_room(choices, choices.len() as int) =>
                Some(EndView::ContextWindowExceeded),
            _ => None,
        },
    }
}

/// How a poll ends a stream, where it does: with the completion on the marker that all is done,
/// and with an error on what fails.
pub open spec fn poll_end(poll: StreamPoll) -> Option<EndView> {
    match poll {
        StreamPoll::Message(data) => {
            let data = trim_of(data@);
            if data.len() == 0 {
                None
            } else if data == "[DONE]"@ || data == "DONE"@ {
                Some(EndView::Completed)
            } else {
                match parsed_json(data) {
                    Some(value) => chunk_end(value),
                    None => None,
                }
            }
        },
        StreamPoll::Failed(message) => Some(EndView::Stream(message@)),
        StreamPoll::Ended => Some(EndView::Stream("Chat Completions stream ended before [DONE]"@)),
        StreamPoll::TimedOut => Some(
            EndView::Stream("idle timeout waiting for Chat Completions SSE"@),
        ),
    }
}

/// The poll is the first that ends the stream.
pub open spec fn ends_at(polls: Seq<StreamPoll>, i: int) -> bool {
    &&& 0 <= i < polls.len()
    &&& poll_end(polls[i]) is Some
    &&& forall|j: int| 0 <= j < i ==> poll_end(#[trigger] polls[j]) is None
}

/// None of the first `n` events completes the response.
pub open spec fn none_completes(events: Seq<EventView>, n: int) -> bool {
    forall|i: int| 0 <= i < n ==> !(#[trigger] events[i] is Completed)
}

/// A step completes nothing, and adds nothing that does.
spec fn stays_open(p: Progress, q: Progress) -> bool {
    &&& q.s.completed == p.s.completed
    &&& none_completes(p.out, p.out.len() as int) ==> none_completes(q.out, q.out.len() as int)
}

proof fn lemma_parts_stay_open(p: Progress, parts: Seq<JsonView>, n: int)
    ensures
        stays_open(p, say_parts(p, parts, n)),
    decreases n,
{
    if n > 0 {
        lemma_parts_stay_open(p, parts, n - 1);
    }
}

proof fn lemma_fragments_stay_open(s: StreamView, fragments: Seq<JsonView>, n: int)
    ensures
        call_fragments(s, fragments, n).completed == s.completed,
    decreases n,
{
    if n > 0 {
        lemma_fragments_stay_open(s, fragments, n - 1);
    }
}

proof fn lemma_message_stays_open(p: Progress, message: JsonView)
    ensures
        stays_open(p, take_message(p, message)),
{
    let p1 = think_member(p, message, "reasoning_content"@);
    let p2 = think_member(p1, message, "reasoning"@);
    let p3 = say_content(p2, message);
    assert(stays_open(p, p1));
    assert(stays_open(p1, p2));
    if let Some(JsonView::Array(parts)) = member(message, "content"@) {
        lemma_parts_stay_open(p2, parts, parts.len() as int);
    }
    assert(stays_open(p2, p3));
    if let Some(JsonView::Array(fragments)) = member(message, "tool_calls"@) {
        lemma_fragments_stay_open(finish_text(p3).s, fragments, fragments.len() as int);
    }
    assert(stays_open(p3, take_calls(p3, message)));
}

proof fn lemma_choices_stay_open(p: Progress, choices: Seq<JsonView>, n: int)
    ensures
        stays_open(p, take_choices(p, choices, n).0),
        take_choices(p, choices, n).1 == runs_out_of_room(choices, n),
    decreases n,
{
    if n > 0 {
        lemma_choices_stay_open(p, choices, n - 1);
        let (q, full) = take_choices(p, choices, n - 1);
        let choice = choices[n - 1];
        if full {
            let i = choose|i: int|
                0 <= i < n - 1 && member_str(#[trigger] choices[i], "finish_reason"@) == Some(
                    "length"@,
                );
            assert(0 <= i < n && member_str(choices[i], "finish_reason"@) == Some("length"@));
        } else {
            if let Some(message) = member(choice, "delta"@) {
                lemma_message_stays_open(q, message);
            } else if let Some(message) = member(choice, "message"@) {
                lemma_message_stays_open(q, message);
            }
            assert(stays_open(q, take_choice(q, choice).0));
            if runs_out_of_room(choices, n) {
                let i = choose|i: int|
                    0 <= i < n && member_str(#[trigger] choices[i], "finish_reason"@) == Some(
                        "length"@,
                    );
                if i < n - 1 {
                    assert(runs_out_of_room(choices, n - 1));
                }
            }
        }
    }
}

proof fn lemma_calls_complete_nothing(calls: Seq<CallView>)
    ensures
        none_completes(call_events(calls), call_events(calls).len() as int),
    decreases calls.len(),
{
    if calls.len() > 0 {
        lemma_calls_complete_nothing(calls.drop_last());
    }
}

proof fn lemma_poll(s: StreamView, poll: StreamPoll)
    requires
        !s.completed,
    ensures
        ({
            let (p, end) = take_poll(s, poll);
            &&& end == poll_end(poll)
            &&& end != Some(EndView::Completed) ==> !p.s.completed && none_completes(
                p.out,
                p.out.len() as int,
            )
            &&& end == Some(EndView::Completed) ==> p.out.len() > 0 && p.out.last() is Completed
                && none_completes(p.out, p.out.len() - 1)
        }),
{
    if let StreamPoll::Message(data) = poll {
        let data = trim_of(data@);
        if data.len() > 0 && (data == "[DONE]"@ || data == "DONE"@) {
            let p = finish_text(
                Progress { s: StreamView { completed: true, ..s }, out: Seq::empty() },
            );
            lemma_calls_complete_nothing(p.s.calls);
        } else if data.len() > 0 {
            if let Some(value) = parsed_json(data) {
                let s1 = match member_str(value, "id"@) {
                    Some(id) if s.response_id.len() == 0 => StreamView { response_id: id, ..s },
                    _ => s,
                };
                let s2 = match member(value, "usage"@) {
                    Some(usage) => StreamView { token_usage: usage_of(usage), ..s1 },
                    None => s1,
                };
                if let Some(JsonView::Array(choices)) = member(value, "choices"@) {
                    lemma_choices_stay_open(
                        Progress { s: s2, out: Seq::empty() },
                        choices,
                        choices.len() as int,
                    );
                }
            }
        }
    }
}

/// A stream ends with the first poll that ends it, and goes on where none does. It completes if
/// and only if the marker that all is done comes before anything fails: then the completion is
/// the last of the events, and the only one of its kind. Otherwise no event completes the
/// response, and where something failed, what failed first is the one error that ends the stream.
pub proof fn streams_complete_once_or_fail_once(polls: Seq<StreamPoll>)
    ensures
        ({
            let run = stream_run(polls);
            let sent = run.sent;
            &&& run.end is None <==> forall|i: int|
                0 <= i < polls.len() ==> poll_end(#[trigger] polls[i]) is None
            &&& forall|i: int| #[trigger] ends_at(polls, i) ==> run.end == poll_end(polls[i])
            &&& run.end == Some(EndView::Completed) <==> exists|i: int| #[trigger]
                ends_at(polls, i) && poll_end(polls[i]) == Some(EndView::Completed)
            &&& run.end == Some(EndView::Completed) ==> sent.len() > 0 && sent.last() is Completed
                && none_completes(sent, sent.len() - 1)
            &&& run.end != Some(EndView::Completed) ==> none_completes(sent, sent.len() as int)
        }),
{
    lemma_run(polls);
    let run = stream_run(polls);
    if run.end is Some {
        let i = choose|i: int| #[trigger] ends_at(polls, i) && run.end == poll_end(polls[i]);
        assert(ends_at(polls, i));
    }
}

proof fn lemma_run(polls: Seq<StreamPoll>)
    ensures
        ({
            let run = stream_run(polls);
            let sent = run.sent;
            &&& run.end is None ==> !run.s.completed && forall|i: int|
                0 <= i < polls.len() ==> poll_end(#[trigger] polls[i]) is None
            &&& run.end is Some ==> exists|i: int| #[trigger]
                ends_at(polls, i) && run.end == poll_end(polls[i])
            &&& forall|i: int| #[trigger] ends_at(polls, i) ==> run.end == poll_end(polls[i])
            &&& run.end == Some(EndView::Completed) ==> sent.len() > 0 && sent.last() is Completed
                && none_completes(sent, sent.len() - 1)
            &&& run.end != Some(EndView::Completed) ==> none_completes(sent, sent.len() as int)
        }),
    decreases polls.len(),
{
    if polls.len() > 0 {
        let rest = polls.drop_last();
        let last = polls.len() - 1;
        lemma_run(rest);
        let before = stream_run(rest);
        assert forall|i: int| 0 <= i < last implies ends_at(rest, i) == #[trigger] ends_at(
            polls,
            i,
        ) by {
            assert(rest[i] == polls[i]);
            if ends_at(rest, i) {
                assert forall|j: int| 0 <= j < i implies poll_end(#[trigger] polls[j]) is None by {
                    assert(rest[j] == polls[j]);
                }
            }
            if ends_at(polls, i) {
                assert forall|j: int| 0 <= j < i implies poll_end(#[trigger] rest[j]) is None by {
                    assert(rest[j] == polls[j]);
                }
            }
        }
        if before.end is Some {
            let k = choose|k: int| #[trigger] ends_at(rest, k) && before.end == poll_end(rest[k]);
            assert(ends_at(polls, k) && rest[k] == polls[k]);
            assert forall|i: int| #[trigger] ends_at(polls, i) implies before.end == poll_end(
                polls[i],
            ) by {
                if i == last {
                    assert(poll_end(polls[k]) is None);
                } else {
                    assert(ends_at(rest, i) && rest[i] == polls[i]);
                }
            }
        } else {
            lemma_poll(before.s, polls[last]);
            let run = stream_run(polls);
            assert forall|i: int| 0 <= i < last implies poll_end(#[trigger] polls[i]) is None by {
                assert(rest[i] == polls[i]);
            }
            if run.end is Some {
                assert(ends_at(polls, last));
            }
            let (p, _) = take_poll(before.s, polls[last]);
            assert forall|i: int| 0 <= i < run.sent.len() implies (#[trigger] run.sent[i] == if i
                < before.sent.len() {
                before.sent[i]
            } else {
                p.out[i - before.sent.len()]
            }) by {}
        }
    }
}

/// The text that events say, piece behind piece.
pub open spec fn said(events: Seq<EventView>) -> Seq<char>
    decreases events.len(),
{
    if events.len() == 0 {
        Seq::empty()
    } else {
        match events.last() {
            EventView::TextDelta(text) => said(events.drop_last()) + text,
            _ => said(events.drop_last()),
        }
    }
}

/// The reasoning that events tell, piece behind piece.
pub open spec fn thought(events: Seq<EventView>) -> Seq<char>
    decreases events.len(),
{
    if events.len() == 0 {
        Seq::empty()
    } else {
        match events.last() {
            EventView::ReasoningDelta { delta, .. } => thought(events.drop_last()) + delta,
            _ => thought(events.drop_last()),
        }
    }
}

/// The text under a name, or the empty one.
pub open spec fn text_under(v: JsonView, name: Seq<char>) -> Seq<char> {
    match member(v, name) {
        Some(JsonView::Str(text)) => text,
        _ => Seq::empty(),
    }
}

/// The texts of the first `n` parts of a content.
pub open spec fn texts_of_parts(parts: Seq<JsonView>, n: int) -> Seq<char>
    decreases n,
{
    if n <= 0 {
        Seq::empty()
    } else {
        texts_of_parts(parts, n - 1) + text_under(parts[n - 1], "text"@)
    }
}

/// The text that a message holds: its content, or the texts of its content's parts.
pub open spec fn message_text(message: JsonView) -> Seq<char> {
    match member(message, "content"@) {
        Some(JsonView::Str(text)) => text,
        Some(JsonView::Array(parts)) => texts_of_parts(parts, parts.len() as int),
        _ => Seq::empty(),
    }
}

/// The reasoning that a message holds under a name: a text, or the text of an object.
pub open spec fn message_thought(message: JsonView, name: Seq<char>) -> Seq<char> {
    match member(message, name) {
        Some(JsonView::Str(text)) => text,
        Some(v) => if member(v, "text"@) is Some {
            text_under(v, "text"@)
        } else {
            text_under(v, "content"@)
        },
        None => Seq::empty(),
    }
}

/// The message of a choice, whole or in part.
pub open spec fn choice_message(choice: JsonView) -> JsonView {
    if member(choice, "delta"@) is Some {
        member(choice, "delta"@)->0
    } else if member(choice, "message"@) is Some {
        member(choice, "message"@)->0
    } else {
        JsonView::Null
    }
}

/// The choices that are read: up to the first that ran out of room, and that one.
pub open spec fn choices_read(choices: Seq<JsonView>, n: int) -> Seq<JsonView>
    decreases n,
{
    if n <= 0 {
        Seq::empty()
    } else if runs_out_of_room(choices, n - 1) {
        choices_read(choices, n - 1)
    } else {
        choices_read(choices, n - 1).push(choices[n - 1])
    }
}

/// The texts of the messages of choices.
pub open spec fn texts_of_choices(choices: Seq<JsonView>) -> Seq<char>
    decreases choices.len(),
{
    if choices.len() == 0 {
        Seq::empty()
    } else {
        texts_of_choices(choices.drop_last()) + message_text(choice_message(choices.last()))
    }
}

/// The reasoning of the messages of choices.
pub open spec fn thoughts_of_choices(choices: Seq<JsonView>) -> Seq<char>
    decreases choices.len(),
{
    if choices.len() == 0 {
        Seq::empty()
    } else {
        let message = choice_message(choices.last());
        thoughts_of_choices(choices.drop_last()) + message_thought(message, "reasoning_content"@)
            + message_thought(message, "reasoning"@)
    }
}

/// The fragments of calls in a message.
pub open spec fn message_fragments(message: JsonView) -> Seq<JsonView> {
    match member(message, "tool_calls"@) {
        Some(JsonView::Array(fragments)) => fragments,
        _ => Seq::empty(),
    }
}

/// The fragments of calls in the messages of choices.
pub open spec fn fragments_of_choices(choices: Seq<JsonView>) -> Seq<JsonView>
    decreases choices.len(),
{
    if choices.len() == 0 {
        Seq::empty()
    } else {
        fragments_of_choices(choices.drop_last()) + message_fragments(
            choice_message(choices.last()),
        )
    }
}

/// What choices say of the end of the turn: what the last one says that tells why it ended.
pub open spec fn turn_of_choices(before: Option<bool>, choices: Seq<JsonView>) -> Option<bool>
    decreases choices.len(),
{
    if choices.len() == 0 {
        before
    } else {
        match member(choices.last(), "finish_reason"@) {
            Some(JsonView::Str(reason)) => if reason == "length"@ {
                turn_of_choices(before, choices.drop_last())
            } else if reason == "stop"@ {
                Some(true)
            } else if reason == "tool_calls"@ || reason == "function_call"@ {
                Some(false)
            } else {
                None
            },
            _ => turn_of_choices(before, choices.drop_last()),
        }
    }
}

/// The choices of a document that are read; none where its usage is out of range.
pub open spec fn chunk_choices(value: JsonView) -> Seq<JsonView> {
    if member(value, "usage"@) is Some && !usage_fits(member(value, "usage"@)->0) {
        Seq::empty()
    } else {
        match member(value, "choices"@) {
            Some(JsonView::Array(choices)) => choices_read(choices, choices.len() as int),
            _ => Seq::empty(),
        }
    }
}

/// The same calls, known by the same identifiers, the same one last.
spec fn same_calls(a: StreamView, b: StreamView) -> bool {
    a.calls == b.calls && a.call_index_by_id == b.call_index_by_id && a.last_call_index
        == b.last_call_index
}

proof fn lemma_pushed(events: Seq<EventView>, event: EventView)
    ensures
        said(events.push(event)) == match event {
            EventView::TextDelta(text) => said(events) + text,
            _ => said(events),
        },
        thought(events.push(event)) == match event {
            EventView::ReasoningDelta { delta, .. } => thought(events) + delta,
            _ => thought(events),
        },
{
    assert(events.push(event).drop_last() =~= events);
}

proof fn lemma_say(p: Progress, text: Seq<char>)
    ensures
        ({
            let q = say(p, text);
            &&& said(q.out) == said(p.out) + text
            &&& thought(q.out) == thought(p.out)
            &&& same_calls(p.s, q.s)
            &&& q.s.end_turn == p.s.end_turn && q.s.response_id == p.s.response_id
                && q.s.token_usage == p.s.token_usage
        }),
{
    if text.len() == 0 {
        assert(said(p.out) + text =~= said(p.out));
    } else {
        if p.s.reasoning is Some {
            lemma_pushed(p.out, EventView::Done(ItemView::Reasoning(p.s.reasoning->0)));
        }
        let q = finish_reasoning(p);
        let begun = q.out.push(EventView::Added(ItemView::Message(Seq::empty())));
        lemma_pushed(q.out, EventView::Added(ItemView::Message(Seq::empty())));
        lemma_pushed(q.out, EventView::TextDelta(text));
        lemma_pushed(begun, EventView::TextDelta(text));
    }
}

proof fn lemma_think(p: Progress, text: Seq<char>)
    ensures
        ({
            let q = think(p, text);
            &&& said(q.out) == said(p.out)
            &&& thought(q.out) == thought(p.out) + text
            &&& same_calls(p.s, q.s)
            &&& q.s.end_turn == p.s.end_turn && q.s.response_id == p.s.response_id
                && q.s.token_usage == p.s.token_usage
        }),
{
    if text.len() == 0 {
        assert(thought(p.out) + text =~= thought(p.out));
    } else {
        let added = EventView::Added(ItemView::Reasoning(Seq::empty()));
        let begun = p.out.push(added);
        lemma_pushed(p.out, added);
        let first = EventView::ReasoningDelta { delta: text, content_index: 0 };
        lemma_pushed(begun, first);
        if p.s.reasoning is Some {
            let next = EventView::ReasoningDelta {
                delta: text,
                content_index: p.s.reasoning->0.len() as i64,
            };
            lemma_pushed(p.out, next);
        }
    }
}

proof fn lemma_think_member(p: Progress, message: JsonView, key: Seq<char>)
    ensures
        ({
            let q = think_member(p, message, key);
            &&& said(q.out) == said(p.out)
            &&& thought(q.out) == thought(p.out) + message_thought(message, key)
            &&& same_calls(p.s, q.s)
            &&& q.s.end_turn == p.s.end_turn && q.s.response_id == p.s.response_id
                && q.s.token_usage == p.s.token_usage
        }),
{
    assert(thought(p.out) + Seq::<char>::empty() =~= thought(p.out));
    if let Some(v) = member(message, key) {
        if let Some(text) = thought_text(v) {
            lemma_think(p, text);
        }
    }
}

proof fn lemma_say_parts(p: Progress, parts: Seq<JsonView>, n: int)
    ensures
        ({
            let q = say_parts(p, parts, n);
            &&& said(q.out) == said(p.out) + texts_of_parts(parts, n)
            &&& thought(q.out) == thought(p.out)
            &&& same_calls(p.s, q.s)
            &&& q.s.end_turn == p.s.end_turn && q.s.response_id == p.s.response_id
                && q.s.token_usage == p.s.token_usage
        }),
    decreases n,
{
    if n <= 0 {
        assert(said(p.out) + Seq::<char>::empty() =~= said(p.out));
    } else {
        lemma_say_parts(p, parts, n - 1);
        let q = say_parts(p, parts, n - 1);
        let more = text_under(parts[n - 1], "text"@);
        lemma_say(q, more);
        assert(said(p.out) + texts_of_parts(parts, n - 1) + more =~= said(p.out) + (
        texts_of_parts(parts, n - 1) + more));
        assert(said(p.out) + texts_of_parts(parts, n - 1) =~= said(p.out) + (texts_of_parts(
            parts,
            n - 1,
        ) + Seq::<char>::empty()));
    }
}

proof fn lemma_fragments_leave(s: StreamView, fragments: Seq<JsonView>, n: int)
    ensures
        ({
            let t = call_fragments(s, fragments, n);
            t.end_turn == s.end_turn && t.response_id == s.response_id && t.token_usage
                == s.token_usage && t.assistant == s.assistant && t.reasoning == s.reasoning
        }),
    decreases n,
{
    if n > 0 {
        lemma_fragments_leave(s, fragments, n - 1);
    }
}

proof fn lemma_fragments_depend_on_calls(
    a: StreamView,
    b: StreamView,
    fragments: Seq<JsonView>,
    n: int,
)
    requires
        same_calls(a, b),
    ensures
        same_calls(call_fragments(a, fragments, n), call_fragments(b, fragments, n)),
    decreases n,
{
    if n > 0 {
        lemma_fragments_depend_on_calls(a, b, fragments, n - 1);
    }
}

proof fn lemma_fragments_join(s: StreamView, first: Seq<JsonView>, second: Seq<JsonView>, n: int)
    requires
        0 <= n <= second.len(),
    ensures
        call_fragments(s, first + second, first.len() + n) == call_fragments(
            call_fragments(s, first, first.len() as int),
            second,
            n,
        ),
    decreases n,
{
    if n == 0 {
        lemma_fragments_prefix(s, first, second, first.len() as int);
    } else {
        lemma_fragments_join(s, first, second, n - 1);
        assert((first + second)[first.len() + n - 1] == second[n - 1]);
    }
}

proof fn lemma_fragments_prefix(s: StreamView, first: Seq<JsonView>, second: Seq<JsonView>, n: int)
    requires
        0 <= n <= first.len(),
    ensures
        call_fragments(s, first + second, n) == call_fragments(s, first, n),
    decreases n,
{
    if n > 0 {
        lemma_fragments_prefix(s, first, second, n - 1);
        assert((first + second)[n - 1] == first[n - 1]);
    }
}

proof fn lemma_finish_text(p: Progress)
    ensures
        said(finish_text(p).out) == said(p.out),
        thought(finish_text(p).out) == thought(p.out),
{
    let q = finish_reasoning(p);
    if p.s.reasoning is Some {
        lemma_pushed(p.out, EventView::Done(ItemView::Reasoning(p.s.reasoning->0)));
    }
    if q.s.assistant is Some {
        lemma_pushed(q.out, EventView::Done(ItemView::Message(q.s.assistant->0)));
    }
}

/// A message adds its text to what is said, its reasoning to what is thought, the part under
/// `reasoning_content` first, and its fragments, one after the other, to the calls. Where it holds
/// fragments, no text and no reasoning stays open. It does nothing else.
pub proof fn messages_are_handed_on(p: Progress, message: JsonView)
    ensures
        ({
            let q = take_message(p, message);
            let fragments = message_fragments(message);
            let calls = call_fragments(p.s, fragments, fragments.len() as int);
            &&& said(q.out) == said(p.out) + message_text(message)
            &&& thought(q.out) == thought(p.out) + message_thought(message, "reasoning_content"@)
                + message_thought(message, "reasoning"@)
            &&& q.s.calls == calls.calls
            &&& q.s.call_index_by_id == calls.call_index_by_id
            &&& q.s.last_call_index == calls.last_call_index
            &&& fragments.len() > 0 ==> q.s.assistant is None && q.s.reasoning is None
            &&& q.s.end_turn == p.s.end_turn
            &&& q.s.response_id == p.s.response_id
            &&& q.s.token_usage == p.s.token_usage
        }),
{
    let p1 = think_member(p, message, "reasoning_content"@);
    let p2 = think_member(p1, message, "reasoning"@);
    let p3 = say_content(p2, message);
    let fragments = message_fragments(message);
    lemma_think_member(p, message, "reasoning_content"@);
    lemma_think_member(p1, message, "reasoning"@);
    match member(message, "content"@) {
        Some(JsonView::Str(text)) => {
            lemma_say(p2, text);
        },
        Some(JsonView::Array(parts)) => {
            lemma_say_parts(p2, parts, parts.len() as int);
        },
        _ => {
            assert(said(p2.out) + Seq::<char>::empty() =~= said(p2.out));
        },
    }
    assert(same_calls(p.s, p3.s));
    lemma_finish_text(p3);
    let n = fragments.len() as int;
    lemma_fragments_leave(finish_text(p3).s, fragments, n);
    lemma_fragments_depend_on_calls(p.s, finish_text(p3).s, fragments, n);
    lemma_fragments_depend_on_calls(p.s, p3.s, fragments, n);
}

proof fn lemma_choices_read(p: Progress, choices: Seq<JsonView>, n: int)
    requires
        0 <= n <= choices.len(),
    ensures
        ({
            let q = take_choices(p, choices, n).0;
            let read = choices_read(choices, n);
            let fragments = fragments_of_choices(read);
            &&& said(q.out) == said(p.out) + texts_of_choices(read)
            &&& thought(q.out) == thought(p.out) + thoughts_of_choices(read)
            &&& same_calls(q.s, call_fragments(p.s, fragments, fragments.len() as int))
            &&& q.s.end_turn == turn_of_choices(p.s.end_turn, read)
            &&& q.s.response_id == p.s.response_id
            &&& q.s.token_usage == p.s.token_usage
        }),
    decreases n,
{
    if n == 0 {
        assert(said(p.out) + Seq::<char>::empty() =~= said(p.out));
        assert(thought(p.out) + Seq::<char>::empty() =~= thought(p.out));
    } else {
        lemma_choices_read(p, choices, n - 1);
        lemma_choices_stay_open(p, choices, n - 1);
        let (q, full) = take_choices(p, choices, n - 1);
        let before = choices_read(choices, n - 1);
        if !full {
            let choice = choices[n - 1];
            let message = choice_message(choice);
            let read = before.push(choice);
            assert(read.drop_last() =~= before);
            messages_are_handed_on(q, message);
            if member(choice, "delta"@) is None && member(choice, "message"@) is None {
                let nothing = take_message(q, JsonView::Null);
                assert(nothing == q);
            }
            let r = take_choice(q, choice).0;
            let text = message_text(message);
            let thought1 = message_thought(message, "reasoning_content"@);
            let thought2 = message_thought(message, "reasoning"@);
            assert(said(p.out) + texts_of_choices(before) + text =~= said(p.out) + (
            texts_of_choices(before) + text));
            assert(thought(p.out) + thoughts_of_choices(before) + thought1 + thought2 =~= thought(
                p.out,
            ) + (thoughts_of_choices(before) + thought1 + thought2));
            let old_fragments = fragments_of_choices(before);
            let new_fragments = message_fragments(message);
            lemma_fragments_join(p.s, old_fragments, new_fragments, new_fragments.len() as int);
            lemma_fragments_depend_on_calls(
                q.s,
                call_fragments(p.s, old_fragments, old_fragments.len() as int),
                new_fragments,
                new_fragments.len() as int,
            );
        }
    }
}

/// A document says the texts and thinks the reasoning of the choices that are read, in their order
/// and nothing else, and puts the fragments of their calls together one after the other. Reading
/// stops behind a choice that ran out of room. The turn ends as the last choice says that tells
/// why it ended. The first identifier that a document names is the response's, and the usage is
/// the last that was told.
pub proof fn documents_are_handed_on(s: StreamView, value: JsonView)
    ensures
        ({
            let (p, _) = take_chunk(s, value);
            let choices = chunk_choices(value);
            let fragments = fragments_of_choices(choices);
            let calls = call_fragments(s, fragments, fragments.len() as int);
            &&& said(p.out) == texts_of_choices(choices)
            &&& thought(p.out) == thoughts_of_choices(choices)
            &&& p.s.calls == calls.calls
            &&& p.s.call_index_by_id == calls.call_index_by_id
            &&& p.s.last_call_index == calls.last_call_index
            &&& p.s.end_turn == turn_of_choices(s.end_turn, choices)
            &&& p.s.response_id == (if s.response_id.len() > 0 {
                s.response_id
            } else {
                match member(value, "id"@) {
                    Some(JsonView::Str(id)) => id,
                    _ => s.response_id,
                }
            })
            &&& member(value, "usage"@) is None ==> p.s.token_usage == s.token_usage
            &&& member(value, "usage"@) is Some && usage_fits(member(value, "usage"@)->0)
                ==> p.s.token_usage == usage_of(member(value, "usage"@)->0)
        }),
{
    let s1 = match member_str(value, "id"@) {
        Some(id) if s.response_id.len() == 0 => StreamView { response_id: id, ..s },
        _ => s,
    };
    let s2 = match member(value, "usage"@) {
        Some(usage) => StreamView { token_usage: usage_of(usage), ..s1 },
        None => s1,
    };
    let start = Progress { s: s2, out: Seq::empty() };
    let choices = chunk_choices(value);
    let fragments = fragments_of_choices(choices);
    lemma_fragments_depend_on_calls(s, s2, fragments, fragments.len() as int);
    assert(said(start.out) + texts_of_choices(choices) =~= texts_of_choices(choices));
    assert(thought(start.out) + thoughts_of_choices(choices) =~= thoughts_of_choices(choices));
    if let Some(JsonView::Array(all)) = member(value, "choices"@) {
        lemma_choices_read(start, all, all.len() as int);
    }
}

/// The data of a message is read without the white space around it: empty data and data that is no
/// document do nothing, the marker completes the response, and a document is handed on.
pub proof fn data_is_read_as_a_document(s: StreamView, data: Seq<char>)
    ensures
        ({
            let (p, _) = take_data(s, data);
            let kept = trim_of(data);
            let marker = kept == "[DONE]"@ || kept == "DONE"@;
            &&& kept.len() == 0 ==> p.s == s && p.out.len() == 0
            &&& marker ==> p == complete(s)
            &&& kept.len() > 0 && !marker && parsed_json(kept) is None ==> p.s == s && p.out.len()
                == 0
            &&& kept.len() > 0 && !marker && parsed_json(kept) is Some ==> p == take_chunk(
                s,
                parsed_json(kept)->0,
            ).0
        }),
{
    reveal_strlit("[DONE]");
    reveal_strlit("DONE");
    assert("[DONE]"@.len() == 6 && "DONE"@.len() == 4);
}

/// The call as it is once a fragment has come for it: under the fragment's identifier where that
/// has one, with its arguments behind those before, and with its name behind the one before,
/// unless that is the same.
pub open spec fn call_with(call: CallView, fragment: JsonView) -> CallView {
    let name = match member2(fragment, "function"@, "name"@) {
        Some(JsonView::Str(name)) => name,
        _ => Seq::empty(),
    };
    CallView {
        index: call.index,
        id: match member(fragment, "id"@) {
            Some(JsonView::Str(id)) => id,
            _ => call.id,
        },
        name: if name == call.name {
            call.name
        } else {
            call.name + name
        },
        arguments: match member2(fragment, "function"@, "arguments"@) {
            Some(JsonView::Str(arguments)) => call.arguments + arguments,
            _ => call.arguments,
        },
    }
}

/// A fragment went to the call at an index: that call has it and is the last that one went to, its
/// identifier is known, every other call is as it was, and none was added but that one.
pub open spec fn went_to(s: StreamView, fragment: JsonView, after: StreamView, index: usize) -> bool {
    let nothing = CallView {
        index,
        id: Seq::empty(),
        name: Seq::empty(),
        arguments: Seq::empty(),
    };
    &&& forall|c: CallView|
        c.index != index ==> (#[trigger] s.calls.contains(c) <==> after.calls.contains(c))
    &&& forall|c: CallView|
        c.index == index && #[trigger] s.calls.contains(c) ==> after.calls.contains(
            call_with(c, fragment),
        )
    &&& (forall|c: CallView| #[trigger] s.calls.contains(c) ==> c.index != index)
        ==> after.calls.contains(call_with(nothing, fragment))
    &&& forall|c: CallView, d: CallView|
        #![trigger after.calls.contains(c), after.calls.contains(d)]
        after.calls.contains(c) && after.calls.contains(d) && c.index == d.index ==> c == d
    &&& after.last_call_index == Some(index)
    &&& after.call_index_by_id == match member(fragment, "id"@) {
        Some(JsonView::Str(id)) => s.call_index_by_id.insert(id, index),
        _ => s.call_index_by_id,
    }
}

proof fn lemma_went_to(s: StreamView, fragment: JsonView)
    requires
        calls_in_order(s.calls),
    ensures
        calls_in_order(call_fragment(s, fragment).calls),
        went_to(s, fragment, call_fragment(s, fragment), fragment_index(s, fragment)),
{
    let index = fragment_index(s, fragment);
    let after = call_fragment(s, fragment);
    let other: usize = if index == 0 {
        1
    } else {
        0
    };
    fragments_keep_calls_in_order(s, fragment, other);
    lemma_below(s.calls, index);
    let p = calls_below(s.calls, index);
    let present = p < s.calls.len() && s.calls[p].index == index;
    let old_call = call_at(s.calls, index);
    let merged = merge_fragment(old_call, fragment);
    assert(merged =~= call_with(old_call, fragment)) by {
        assert(old_call.name + Seq::<char>::empty() =~= old_call.name);
    }
    assert(after.calls[p] == merged);
    assert forall|c: CallView| c.index != index implies (#[trigger] s.calls.contains(c)
        <==> after.calls.contains(c)) by {
        if s.calls.contains(c) {
            let k = choose|k: int| 0 <= k < s.calls.len() && s.calls[k] == c;
            let m = if present || k < p {
                k
            } else {
                k + 1
            };
            assert(after.calls[m] == c);
        }
        if after.calls.contains(c) {
            let k = choose|k: int| 0 <= k < after.calls.len() && after.calls[k] == c;
            let m = if present || k < p {
                k
            } else {
                k - 1
            };
            assert(k != p);
            assert(s.calls[m] == c);
        }
    }
    assert forall|c: CallView| c.index == index && #[trigger] s.calls.contains(
        c,
    ) implies after.calls.contains(call_with(c, fragment)) by {
        let k = choose|k: int| 0 <= k < s.calls.len() && s.calls[k] == c;
        assert(!(k < p));
        if k > p {
            assert(s.calls[p].index < s.calls[k].index);
        }
        assert(k == p && present);
    }
    if forall|c: CallView| #[trigger] s.calls.contains(c) ==> c.index != index {
        if present {
            assert(s.calls.contains(s.calls[p]));
        }
    }
    assert forall|c: CallView, d: CallView|
        #![trigger after.calls.contains(c), after.calls.contains(d)]
        after.calls.contains(c) && after.calls.contains(d) && c.index == d.index implies c == d by {
        let i = choose|i: int| 0 <= i < after.calls.len() && after.calls[i] == c;
        let j = choose|j: int| 0 <= j < after.calls.len() && after.calls[j] == d;
        if i < j {
            assert(after.calls[i].index < after.calls[j].index);
        }
        if j < i {
            assert(after.calls[j].index < after.calls[i].index);
        }
    }
}

/// A fragment goes to the call at the index that it names, whatever fragment came before it. One
/// that names none goes to the call that its identifier is known for, or else to the call that
/// the last fragment went to, or else, as the first of all, to a call behind those there are.
pub proof fn fragments_go_where_they_belong(s: StreamView, fragment: JsonView)
    requires
        calls_in_order(s.calls),
    ensures
        ({
            let after = call_fragment(s, fragment);
            let named = member(fragment, "index"@);
            let unnamed = match named {
                Some(JsonView::Int(n)) => n < 0 || n > u64::MAX,
                _ => true,
            };
            let id = member(fragment, "id"@);
            let known = match id {
                Some(JsonView::Str(id)) => s.call_index_by_id.contains_key(id),
                _ => false,
            };
            &&& calls_in_order(after.calls)
            &&& (named matches Some(JsonView::Int(n)) && 0 <= n <= u64::MAX && n <= usize::MAX)
                ==> went_to(s, fragment, after, named->0->Int_0 as usize)
            &&& unnamed && known ==> went_to(s, fragment, after, s.call_index_by_id[id->0->Str_0])
            &&& unnamed && !known && s.last_call_index is Some ==> went_to(
                s,
                fragment,
                after,
                s.last_call_index->0,
            )
            &&& unnamed && !known && s.last_call_index is None ==> went_to(
                s,
                fragment,
                after,
                s.calls.len() as usize,
            )
        }),
{
    lemma_went_to(s, fragment);
}

/// Fragments come one after the other: those of a list are what its beginning does, and then its
/// last.
pub proof fn fragments_come_in_order(s: StreamView, fragments: Seq<JsonView>, fragment: JsonView)
    ensures
        call_fragments(s, Seq::empty(), 0) == s,
        call_fragments(s, fragments.push(fragment), fragments.len() as int + 1) == call_fragment(
            call_fragments(s, fragments, fragments.len() as int),
            fragment,
        ),
{
    assert(fragments.push(fragment) =~= fragments + seq![fragment]);
    lemma_fragments_prefix(s, fragments, seq![fragment], fragments.len() as int);
}

/// A fragment names the index of its call.
pub open spec fn names_its_call(fragment: JsonView) -> bool {
    member(fragment, "index"@) matches Some(JsonView::Int(n)) && 0 <= n <= u64::MAX && n
        <= usize::MAX
}

/// The index is the one that a fragment names.
pub open spec fn names_index(fragment: JsonView, index: usize) -> bool {
    member(fragment, "index"@) == Some(JsonView::Int(index as int))
}

/// Fragments that name their calls make one call for each index that is named, and no other: as
/// many calls come of a stream as it names indexes.
pub proof fn named_indexes_are_the_calls(
    s: StreamView,
    fragments: Seq<JsonView>,
    n: int,
    index: usize,
)
    requires
        s.calls.len() == 0,
        0 <= n <= fragments.len(),
        forall|i: int| 0 <= i < n ==> names_its_call(#[trigger] fragments[i]),
    ensures
        calls_in_order(call_fragments(s, fragments, n).calls),
        (exists|c: CallView| #[trigger]
            call_fragments(s, fragments, n).calls.contains(c) && c.index == index) <==> exists|
            i: int,
        |
            0 <= i < n && names_index(#[trigger] fragments[i], index),
    decreases n,
{
    if n > 0 {
        named_indexes_are_the_calls(s, fragments, n - 1, index);
        let before = call_fragments(s, fragments, n - 1);
        let fragment = fragments[n - 1];
        let after = call_fragments(s, fragments, n);
        assert(names_its_call(fragments[n - 1]));
        let k = member(fragment, "index"@)->0->Int_0 as usize;
        assert(names_index(fragments[n - 1], k));
        fragments_go_where_they_belong(before, fragment);
        assert(went_to(before, fragment, after, k));
        let nothing = CallView {
            index: k,
            id: Seq::empty(),
            name: Seq::empty(),
            arguments: Seq::empty(),
        };
        if exists|c: CallView| #[trigger] after.calls.contains(c) && c.index == index {
            let c = choose|c: CallView| #[trigger] after.calls.contains(c) && c.index == index;
            if index == k {
                assert(names_index(fragments[n - 1], index));
            } else {
                assert(before.calls.contains(c));
                let i = choose|i: int| 0 <= i < n - 1 && names_index(#[trigger] fragments[i], index);
                assert(names_index(fragments[i], index));
            }
        }
        if exists|i: int| 0 <= i < n && names_index(#[trigger] fragments[i], index) {
            let i = choose|i: int| 0 <= i < n && names_index(#[trigger] fragments[i], index);
            if i == n - 1 {
                assert(index == k);
                if exists|c: CallView| #[trigger] before.calls.contains(c) && c.index == k {
                    let c = choose|c: CallView| #[trigger] before.calls.contains(c) && c.index == k;
                    assert(after.calls.contains(call_with(c, fragment)));
                } else {
                    assert(after.calls.contains(call_with(nothing, fragment)));
                }
            } else {
                assert(names_index(fragments[i], index));
                let c = choose|c: CallView| #[trigger] before.calls.contains(c) && c.index == index;
                if index == k {
                    assert(after.calls.contains(call_with(c, fragment)));
                } else {
                    assert(after.calls.contains(c));
                }
            }
        }
    }
}

/// The calls that events say are done.
pub open spec fn calls_done(events: Seq<EventView>) -> Seq<ItemView>
    decreases events.len(),
{
    if events.len() == 0 {
        Seq::empty()
    } else {
        match events.last() {
            EventView::Done(ItemView::Call { id, name, arguments }) => calls_done(
                events.drop_last(),
            ).push(ItemView::Call { id, name, arguments }),
            _ => calls_done(events.drop_last()),
        }
    }
}

proof fn lemma_calls_pushed(events: Seq<EventView>, event: EventView)
    ensures
        calls_done(events.push(event)) == match event {
            EventView::Done(ItemView::Call { id, name, arguments }) => calls_done(events).push(
                ItemView::Call { id, name, arguments },
            ),
            _ => calls_done(events),
        },
{
    assert(events.push(event).drop_last() =~= events);
}

proof fn lemma_call_events_done(start: Seq<EventView>, calls: Seq<CallView>)
    requires
        calls_done(start) == Seq::<ItemView>::empty(),
    ensures
        calls_done(start + call_events(calls)).len() == calls.len(),
        forall|i: int|
            #![trigger calls[i]]
            0 <= i < calls.len() ==> calls_done(start + call_events(calls))[i] == (ItemView::Call {
                id: calls[i].id,
                name: calls[i].name,
                arguments: calls[i].arguments,
            }),
    decreases calls.len(),
{
    if calls.len() == 0 {
        assert(start + call_events(calls) =~= start);
    } else {
        let before = calls.drop_last();
        lemma_call_events_done(start, before);
        let c = calls.last();
        let item = ItemView::Call { id: c.id, name: c.name, arguments: c.arguments };
        let upto = start + call_events(before);
        lemma_calls_pushed(upto, EventView::Added(item));
        lemma_calls_pushed(upto.push(EventView::Added(item)), EventView::Done(item));
        assert(start + call_events(calls) =~= upto.push(EventView::Added(item)).push(
            EventView::Done(item),
        ));
        assert forall|i: int|
            #![trigger calls[i]]
            0 <= i < calls.len() implies calls_done(start + call_events(calls))[i] == (
        ItemView::Call {
            id: calls[i].id,
            name: calls[i].name,
            arguments: calls[i].arguments,
        }) by {
            if i < before.len() {
                assert(before[i] == calls[i]);
            }
        }
    }
}

/// When the response completes, each call that was put together is done, with its identifier, its
/// name and its arguments, in the order of the calls; and the completion tells the response, what
/// it cost, and whether the turn is over.
pub proof fn completions_tell_everything(s: StreamView)
    requires
        !s.completed,
    ensures
        ({
            let out = complete(s).out;
            &&& calls_done(out).len() == s.calls.len()
            &&& forall|i: int|
                #![trigger s.calls[i]]
                0 <= i < s.calls.len() ==> calls_done(out)[i] == (ItemView::Call {
                    id: s.calls[i].id,
                    name: s.calls[i].name,
                    arguments: s.calls[i].arguments,
                })
            &&& out.last() == (EventView::Completed {
                response_id: s.response_id,
                token_usage: s.token_usage,
                end_turn: s.end_turn,
            })
            &&& said(out).len() == 0
            &&& thought(out).len() == 0
        }),
{
    let p0 = Progress { s: StreamView { completed: true, ..s }, out: Seq::empty() };
    let p = finish_text(p0);
    let q = finish_reasoning(p0);
    if s.reasoning is Some {
        lemma_calls_pushed(p0.out, EventView::Done(ItemView::Reasoning(s.reasoning->0)));
    }
    if q.s.assistant is Some {
        lemma_calls_pushed(q.out, EventView::Done(ItemView::Message(q.s.assistant->0)));
    }
    lemma_finish_text(p0);
    lemma_call_events_done(p.out, s.calls);
    lemma_calls_say_nothing(p.out, s.calls);
    let last = EventView::Completed {
        response_id: s.response_id,
        token_usage: s.token_usage,
        end_turn: s.end_turn,
    };
    lemma_calls_pushed(p.out + call_events(s.calls), last);
    lemma_pushed(p.out + call_events(s.calls), last);
    assert(complete(s).out.last() == last);
}

proof fn lemma_calls_say_nothing(start: Seq<EventView>, calls: Seq<CallView>)
    ensures
        said(start + call_events(calls)) == said(start),
        thought(start + call_events(calls)) == thought(start),
    decreases calls.len(),
{
    if calls.len() == 0 {
        assert(start + call_events(calls) =~= start);
    } else {
        let before = calls.drop_last();
        lemma_calls_say_nothing(start, before);
        let c = calls.last();
        let item = ItemView::Call { id: c.id, name: c.name, arguments: c.arguments };
        let upto = start + call_events(before);
        lemma_pushed(upto, EventView::Added(item));
        lemma_pushed(upto.push(EventView::Added(item)), EventView::Done(item));
        assert(start + call_events(calls) =~= upto.push(EventView::Added(item)).push(
            EventView::Done(item),
        ));
    }
}

/// The tokens of a usage are those under their names: the question's and the answer's, which both
/// must be there, those that were cached and those of reasoning, which count as none where they
/// are missing, and the total, which is the sum where it is missing.
pub proof fn usages_are_read_by_name(usage: JsonView)
    requires
        usage_fits(usage),
    ensures
        ({
            let input = member_i64(usage, "prompt_tokens"@);
            let output = member_i64(usage, "completion_tokens"@);
            let total = member_i64(usage, "total_tokens"@);
            let cached = member2(usage, "prompt_tokens_details"@, "cached_tokens"@);
            let reasoning = member2(usage, "completion_tokens_details"@, "reasoning_tokens"@);
            match usage_of(usage) {
                None => input is None || output is None,
                Some(read) => {
                    &&& input == Some(read.input_tokens)
                    &&& output == Some(read.output_tokens)
                    &&& total is Some ==> read.total_tokens == total->0
                    &&& total is None ==> read.total_tokens == read.input_tokens
                        + read.output_tokens
                    &&& read.cache_write_input_tokens == 0
                    &&& cached is None ==> read.cached_input_tokens == 0
                    &&& (cached matches Some(JsonView::Int(n)) && i64::MIN <= n <= i64::MAX)
                        ==> read.cached_input_tokens == cached->0->Int_0
                    &&& reasoning is None ==> read.reasoning_output_tokens == 0
                    &&& (reasoning matches Some(JsonView::Int(n)) && i64::MIN <= n <= i64::MAX)
                        ==> read.reasoning_output_tokens == reasoning->0->Int_0
                },
            }
        }),
{
}

/// What events have begun and not ended, and whether they make sense so far.
pub struct Transcript {
    pub message: Option<Seq<Seq<char>>>,
    pub reasoning: Option<Seq<Seq<char>>>,
    pub call: Option<ItemView>,
    pub over: bool,
    pub sound: bool,
}

/// Reads events as a client does. Each item is begun empty, gets its pieces while it is open, and
/// ends with exactly those; text comes while a message is open and no reasoning is; the pieces of
/// reasoning are numbered from zero; a call begins when all else has ended, and ends as it began;
/// and nothing follows the completion, which leaves nothing open.
pub open spec fn transcript(events: Seq<EventView>) -> Transcript
    decreases events.len(),
{
    if events.len() == 0 {
        Transcript { message: None, reasoning: None, call: None, over: false, sound: true }
    } else {
        let t = transcript(events.drop_last());
        let open = t.sound && !t.over;
        let idle = open && t.call is None;
        match events.last() {
            EventView::Added(ItemView::Message(parts)) => Transcript {
                message: Some(parts),
                sound: idle && t.message is None && t.reasoning is None && parts.len() == 0,
                ..t
            },
            EventView::TextDelta(text) => Transcript {
                message: Some(t.message->0.push(text)),
                sound: idle && t.message is Some && t.reasoning is None && text.len() > 0,
                ..t
            },
            EventView::Done(ItemView::Message(parts)) => Transcript {
                message: None,
                sound: idle && t.message == Some(parts) && t.reasoning is None,
                ..t
            },
            EventView::Added(ItemView::Reasoning(parts)) => Transcript {
                reasoning: Some(parts),
                sound: idle && t.reasoning is None && parts.len() == 0,
                ..t
            },
            EventView::ReasoningDelta { delta, content_index } => Transcript {
                reasoning: Some(t.reasoning->0.push(delta)),
                sound: idle && t.reasoning is Some && delta.len() > 0 && content_index
                    == t.reasoning->0.len() as i64,
                ..t
            },
            EventView::Done(ItemView::Reasoning(parts)) => Transcript {
                reasoning: None,
                sound: idle && t.reasoning == Some(parts),
                ..t
            },
            EventView::Added(item) => Transcript {
                call: Some(item),
                sound: idle && t.message is None && t.reasoning is None,
                ..t
            },
            EventView::Done(item) => Transcript {
                call: None,
                sound: open && t.call == Some(item),
                ..t
            },
            EventView::Completed { .. } => Transcript {
                over: true,
                sound: idle && t.message is None && t.reasoning is None,
                ..t
            },
        }
    }
}

/// The events make sense behind others, and what they leave open is what the stream has open.
spec fn follows(before: Seq<EventView>, p: Progress) -> bool {
    let t = transcript(before + p.out);
    t.sound && !t.over && t.call is None && t.message == p.s.assistant && t.reasoning
        == p.s.reasoning
}

proof fn lemma_transcript_push(before: Seq<EventView>, out: Seq<EventView>, event: EventView)
    ensures
        (before + out.push(event)).drop_last() == before + out,
        (before + out.push(event)).last() == event,
        (before + out.push(event)).len() > 0,
{
    assert((before + out.push(event)).drop_last() =~= before + out);
}

proof fn lemma_follows_finish_reasoning(before: Seq<EventView>, p: Progress)
    requires
        follows(before, p),
    ensures
        follows(before, finish_reasoning(p)),
{
    if p.s.reasoning is Some {
        lemma_transcript_push(
            before,
            p.out,
            EventView::Done(ItemView::Reasoning(p.s.reasoning->0)),
        );
    }
}

proof fn lemma_follows_finish_text(before: Seq<EventView>, p: Progress)
    requires
        follows(before, p),
    ensures
        follows(before, finish_text(p)),
        finish_text(p).s.assistant is None,
        finish_text(p).s.reasoning is None,
{
    lemma_follows_finish_reasoning(before, p);
    let q = finish_reasoning(p);
    if q.s.assistant is Some {
        lemma_transcript_push(
            before,
            q.out,
            EventView::Done(ItemView::Message(q.s.assistant->0)),
        );
    }
}

proof fn lemma_follows_say(before: Seq<EventView>, p: Progress, text: Seq<char>)
    requires
        follows(before, p),
    ensures
        follows(before, say(p, text)),
{
    if text.len() > 0 {
        lemma_follows_finish_reasoning(before, p);
        let q = finish_reasoning(p);
        let added = EventView::Added(ItemView::Message(Seq::empty()));
        lemma_transcript_push(before, q.out, added);
        lemma_transcript_push(before, q.out.push(added), EventView::TextDelta(text));
        lemma_transcript_push(before, q.out, EventView::TextDelta(text));
        if q.s.assistant is None {
            let begun = transcript(before + q.out.push(added));
            assert(begun.sound && begun.message == Some(Seq::<Seq<char>>::empty()));
        }
    }
}

proof fn lemma_follows_think(before: Seq<EventView>, p: Progress, text: Seq<char>)
    requires
        follows(before, p),
    ensures
        follows(before, think(p, text)),
{
    if text.len() > 0 {
        let added = EventView::Added(ItemView::Reasoning(Seq::empty()));
        if p.s.reasoning is Some {
            lemma_transcript_push(
                before,
                p.out,
                EventView::ReasoningDelta {
                    delta: text,
                    content_index: p.s.reasoning->0.len() as i64,
                },
            );
        } else {
            lemma_transcript_push(before, p.out, added);
            let begun = transcript(before + p.out.push(added));
            assert(begun.sound && begun.reasoning == Some(Seq::<Seq<char>>::empty()));
            lemma_transcript_push(
                before,
                p.out.push(added),
                EventView::ReasoningDelta { delta: text, content_index: 0 },
            );
        }
    }
}

proof fn lemma_follows_think_member(
    before: Seq<EventView>,
    p: Progress,
    message: JsonView,
    key: Seq<char>,
)
    requires
        follows(before, p),
    ensures
        follows(before, think_member(p, message, key)),
{
    if let Some(v) = member(message, key) {
        if let Some(text) = thought_text(v) {
            lemma_follows_think(before, p, text);
        }
    }
}

proof fn lemma_follows_parts(before: Seq<EventView>, p: Progress, parts: Seq<JsonView>, n: int)
    requires
        follows(before, p),
    ensures
        follows(before, say_parts(p, parts, n)),
    decreases n,
{
    if n > 0 {
        lemma_follows_parts(before, p, parts, n - 1);
        if let Some(text) = member_str(parts[n - 1], "text"@) {
            lemma_follows_say(before, say_parts(p, parts, n - 1), text);
        }
    }
}

proof fn lemma_follows_message(before: Seq<EventView>, p: Progress, message: JsonView)
    requires
        follows(before, p),
    ensures
        follows(before, take_message(p, message)),
{
    lemma_follows_think_member(before, p, message, "reasoning_content"@);
    let p1 = think_member(p, message, "reasoning_content"@);
    lemma_follows_think_member(before, p1, message, "reasoning"@);
    let p2 = think_member(p1, message, "reasoning"@);
    match member(message, "content"@) {
        Some(JsonView::Str(text)) => lemma_follows_say(before, p2, text),
        Some(JsonView::Array(parts)) => lemma_follows_parts(before, p2, parts, parts.len() as int),
        _ => {},
    }
    let p3 = say_content(p2, message);
    lemma_follows_finish_text(before, p3);
    if let Some(JsonView::Array(fragments)) = member(message, "tool_calls"@) {
        lemma_fragments_leave(finish_text(p3).s, fragments, fragments.len() as int);
    }
}

proof fn lemma_follows_choices(before: Seq<EventView>, p: Progress, choices: Seq<JsonView>, n: int)
    requires
        follows(before, p),
    ensures
        follows(before, take_choices(p, choices, n).0),
    decreases n,
{
    if n > 0 {
        lemma_follows_choices(before, p, choices, n - 1);
        let (q, full) = take_choices(p, choices, n - 1);
        if !full {
            let choice = choices[n - 1];
            if let Some(message) = member(choice, "delta"@) {
                lemma_follows_message(before, q, message);
            } else if let Some(message) = member(choice, "message"@) {
                lemma_follows_message(before, q, message);
            }
        }
    }
}

proof fn lemma_transcript_calls(before: Seq<EventView>, calls: Seq<CallView>)
    requires
        transcript(before).sound && !transcript(before).over && transcript(before).call is None
            && transcript(before).message is None && transcript(before).reasoning is None,
    ensures
        transcript(before + call_events(calls)) == transcript(before),
    decreases calls.len(),
{
    if calls.len() == 0 {
        assert(before + call_events(calls) =~= before);
    } else {
        let fewer = calls.drop_last();
        lemma_transcript_calls(before, fewer);
        let c = calls.last();
        let item = ItemView::Call { id: c.id, name: c.name, arguments: c.arguments };
        let out = call_events(fewer);
        lemma_transcript_push(before, out, EventView::Added(item));
        let begun = transcript(before + out.push(EventView::Added(item)));
        assert(begun.sound && begun.call == Some(item));
        lemma_transcript_push(before, out.push(EventView::Added(item)), EventView::Done(item));
    }
}

proof fn lemma_follows_poll(before: Seq<EventView>, s: StreamView, poll: StreamPoll)
    requires
        follows(before, Progress { s, out: Seq::empty() }),
        !s.completed,
    ensures
        ({
            let (p, end) = take_poll(s, poll);
            &&& transcript(before + p.out).sound
            &&& end == Some(EndView::Completed) ==> transcript(before + p.out).over
            &&& end != Some(EndView::Completed) ==> follows(before, p)
        }),
{
    let start = Progress { s, out: Seq::empty() };
    lemma_poll(s, poll);
    if let StreamPoll::Message(data) = poll {
        let data = trim_of(data@);
        if data.len() > 0 && (data == "[DONE]"@ || data == "DONE"@) {
            let p0 = Progress { s: StreamView { completed: true, ..s }, out: Seq::empty() };
            lemma_follows_finish_text(before, p0);
            let p = finish_text(p0);
            lemma_transcript_calls(before + p.out, p.s.calls);
            assert(before + p.out + call_events(p.s.calls) =~= before + (p.out + call_events(
                p.s.calls,
            )));
            let last = EventView::Completed {
                response_id: p.s.response_id,
                token_usage: p.s.token_usage,
                end_turn: p.s.end_turn,
            };
            lemma_transcript_push(before, p.out + call_events(p.s.calls), last);
        } else if data.len() > 0 {
            if let Some(value) = parsed_json(data) {
                let s1 = match member_str(value, "id"@) {
                    Some(id) if s.response_id.len() == 0 => StreamView { response_id: id, ..s },
                    _ => s,
                };
                let s2 = match member(value, "usage"@) {
                    Some(usage) => StreamView { token_usage: usage_of(usage), ..s1 },
                    None => s1,
                };
                assert(follows(before, Progress { s: s1, out: Seq::empty() }));
                assert(follows(before, Progress { s: s2, out: Seq::empty() }));
                if let Some(JsonView::Array(choices)) = member(value, "choices"@) {
                    lemma_follows_choices(
                        before,
                        Progress { s: s2, out: Seq::empty() },
                        choices,
                        choices.len() as int,
                    );
                }
            }
        }
    }
}

/// Whatever comes in, a client can make sense of what goes out: every piece belongs to an item
/// that is open, every item ends with exactly the pieces it got, nothing is left open by the
/// completion, and nothing comes behind it.
pub proof fn clients_can_follow(polls: Seq<StreamPoll>)
    ensures
        ({
            let run = stream_run(polls);
            let t = transcript(run.sent);
            &&& t.sound
            &&& t.over <==> run.end == Some(EndView::Completed)
            &&& !t.over ==> t.message == run.s.assistant && t.reasoning == run.s.reasoning
        }),
    decreases polls.len(),
{
    if polls.len() > 0 {
        let rest = polls.drop_last();
        clients_can_follow(rest);
        lemma_run(rest);
        lemma_run_calls_closed(rest);
        let before = stream_run(rest);
        if before.end is None {
            assert(before.sent + Seq::<EventView>::empty() =~= before.sent);
            lemma_follows_poll(before.sent, before.s, polls.last());
            lemma_poll(before.s, polls.last());
        }
    }
}

proof fn lemma_run_calls_closed(polls: Seq<StreamPoll>)
    ensures
        stream_run(polls).end is None ==> transcript(stream_run(polls).sent).call is None
            && transcript(stream_run(polls).sent).sound && !transcript(
            stream_run(polls).sent,
        ).over && transcript(stream_run(polls).sent).message == stream_run(polls).s.assistant
            && transcript(stream_run(polls).sent).reasoning == stream_run(polls).s.reasoning,
    decreases polls.len(),
{
    if polls.len() > 0 {
        let rest = polls.drop_last();
        lemma_run_calls_closed(rest);
        lemma_run(rest);
        let before = stream_run(rest);
        if before.end is None {
            assert(before.sent + Seq::<EventView>::empty() =~= before.sent);
            lemma_follows_poll(before.sent, before.s, polls.last());
        }
    }
}

/// The tokens of a usage are out of range only where both the question's and the answer's are told
/// and their sum does not fit.
pub proof fn usages_fit_unless_their_sum_does_not(usage: JsonView)
    ensures
        !usage_fits(usage) <==> {
            let input = member_i64(usage, "prompt_tokens"@);
            let output = member_i64(usage, "completion_tokens"@);
            input is Some && output is Some && (input->0 + output->0 > i64::MAX || input->0
                + output->0 < i64::MIN)
        },
{
}

/// The events that go out are the ones that are described: a call carries its own name, arguments
/// and identifier, a message is the assistant's and holds its pieces in order, reasoning likewise,
/// and a completion tells what it is said to.
pub proof fn events_are_what_they_show(event: ResponseEvent, v: EventView)
    requires
        event_shows(event, v),
    ensures
        ({
            let item = match event {
                ResponseEvent::OutputItemAdded(item) => Some(item),
                ResponseEvent::OutputItemDone(item) => Some(item),
                _ => None,
            };
            let shown = match v {
                EventView::Added(shown) => Some(shown),
                EventView::Done(shown) => Some(shown),
                _ => None,
            };
            &&& event is OutputItemAdded <==> v is Added
            &&& event is OutputItemDone <==> v is Done
            &&& event is OutputTextDelta <==> v is TextDelta
            &&& event is ReasoningContentDelta <==> v is ReasoningDelta
            &&& event is Completed <==> v is Completed
            &&& item is Some <==> shown is Some
            &&& (shown matches Some(ItemView::Call { id, name, arguments })) ==> {
                let call = item->0;
                &&& call is FunctionCall
                &&& call->FunctionCall_name@ == shown->0->name
                &&& call->FunctionCall_namespace is None
                &&& call->FunctionCall_arguments@ == shown->0->arguments
                &&& call->FunctionCall_call_id@ == shown->0->id
            }
            &&& (shown matches Some(ItemView::Message(parts))) ==> {
                let message = item->0;
                let parts = shown->0->Message_0;
                &&& message is Message
                &&& message->Message_role@ == "assistant"@
                &&& message->Message_content@.len() == parts.len()
                &&& forall|i: int|
                    0 <= i < parts.len() ==> (#[trigger] message->Message_content@[i]) is OutputText
                        && message->Message_content@[i]->OutputText_text@ == parts[i]
            }
            &&& (shown matches Some(ItemView::Reasoning(parts))) ==> {
                let reasoning = item->0;
                let parts = shown->0->Reasoning_0;
                &&& reasoning is Reasoning
                &&& reasoning->Reasoning_content is Some
                &&& reasoning->Reasoning_content->0@.len() == parts.len()
                &&& forall|i: int|
                    0 <= i < parts.len() ==> (#[trigger] reasoning->Reasoning_content->0@[i])
                        is ReasoningText
                        && reasoning->Reasoning_content->0@[i]->ReasoningText_text@ == parts[i]
            }
            &&& v is TextDelta ==> event->OutputTextDelta_0@ == v->TextDelta_0
            &&& v is ReasoningDelta ==> event->delta@ == v->delta && event->content_index
                == v->content_index
            &&& v is Completed ==> event->response_id@ == v->response_id && event->token_usage
                == v->token_usage && event->end_turn == v->end_turn
        }),
{
}

/// A count inside the details of a usage is what is told there, and none where nothing, or no
/// whole number, is told.
pub proof fn details_are_counted_where_they_are_told(
    usage: JsonView,
    outer: Seq<char>,
    inner: Seq<char>,
)
    ensures
        ({
            let told = member2(usage, outer, inner);
            &&& told is Some && json::i64_of(told->0) is Some ==> detail_tokens(
                usage,
                outer,
                inner,
            ) == json::i64_of(told->0)->0
            &&& told is None || json::i64_of(told->0) is None ==> detail_tokens(
                usage,
                outer,
                inner,
            ) == 0
        }),
{
}

/// As many events go out as are described, each at its place.
pub proof fn events_go_out_in_order(events: Seq<ResponseEvent>, views: Seq<EventView>, i: int)
    requires
        events_show(events, views),
    ensures
        events.len() == views.len(),
        0 <= i < views.len() ==> event_shows(events[i], views[i]),
{
}

} // verus!
