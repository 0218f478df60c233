//! Folding the rounds of a continued response into one stream of events.
//!
//! Reasoning events go out as they come; the events of other items are held back until it is
//! known that the round is the last. A round whose reasoning was cut short is followed by a
//! request that hands the reasoning back, and what it held back is dropped.

use std::collections::HashMap;

use vstd::hash_map::StringHashMap;
use vstd::prelude::*;

use crate::continue_thinking::{
    self, build_next_round_body, commentary_message, commentary_view, continues, next_round_body,
    reasoning_tokens_from_usage, reasoning_tokens_of, reconstructed_usage, reconstruction_fits,
    should_continue, sum_fits, summed_usage, try_reconstruct_usage, try_sum_usage,
    ContinueThinkingConfig,
};
use crate::json::{
    self, field, items_view, items_view_index, items_view_push, member, member2, member_i64,
    member_str, opt_json, str_of, Json, JsonObject, JsonView,
};
use crate::sse::{
    self, event_bytes, fresh, message_json, next_message, parse_sse_json, read_sse_message,
    serialize_json_event, SseError, SseReader,
};
use crate::text;

verus! {

// ---------------------------------------------------------------------------------------------
// Which events belong to which item
// ---------------------------------------------------------------------------------------------

/// What becomes of the events of an output item.
#[derive(Debug, Clone, Copy, PartialEq, Eq, Structural)]
pub enum ItemDisposition {
    /// They go out at once.
    Reasoning,
    /// They are held back, in the list at this place.
    Buffered(usize),
}

/// What becomes of the events of the output items of a round, by the items' places and names.
pub struct ItemDispositions {
    by_output_index: HashMap<i64, ItemDisposition>,
    by_item_id: StringHashMap<ItemDisposition>,
}

/// The dispositions as maps.
#[verifier::ext_equal]
pub struct DispositionsView {
    pub by_output_index: Map<i64, ItemDisposition>,
    pub by_item_id: Map<Seq<char>, ItemDisposition>,
}

impl View for ItemDispositions {
    type V = DispositionsView;

    closed spec fn view(&self) -> DispositionsView {
        DispositionsView { by_output_index: self.by_output_index@, by_item_id: self.by_item_id@ }
    }
}

/// The item that an event names: `item_id`, or else the `id` of `item`.
pub open spec fn item_id_of(event: JsonView) -> Option<Seq<char>> {
    match member_str(event, "item_id"@) {
        Some(id) => Some(id),
        None => match member2(event, "item"@, "id"@) {
            Some(id) => str_of(id),
            None => None,
        },
    }
}

/// The dispositions once an event's item has been given one.
pub open spec fn with_disposition(
    d: DispositionsView,
    event: JsonView,
    disposition: ItemDisposition,
) -> DispositionsView {
    DispositionsView {
        by_output_index: match member_i64(event, "output_index"@) {
            Some(k) => d.by_output_index.insert(k, disposition),
            None => d.by_output_index,
        },
        by_item_id: match item_id_of(event) {
            Some(id) => d.by_item_id.insert(id, disposition),
            None => d.by_item_id,
        },
    }
}

/// The disposition of an event's item, found by its place first and by its name where that fails.
pub open spec fn disposition_of(d: DispositionsView, event: JsonView) -> Option<ItemDisposition> {
    match member_i64(event, "output_index"@) {
        Some(k) if d.by_output_index.contains_key(k) => Some(d.by_output_index[k]),
        _ => match item_id_of(event) {
            Some(id) if d.by_item_id.contains_key(id) => Some(d.by_item_id[id]),
            _ => None,
        },
    }
}

/// The name of the item that an event belongs to.
pub fn event_item_id(event: &Json) -> (r: Option<&str>)
    ensures
        json::opt_str(r) == item_id_of(event@),
{
    match event.get_str("item_id") {
        Some(id) => Some(id),
        None => match event.get2("item", "id") {
            Some(id) => id.as_str(),
            None => None,
        },
    }
}

impl ItemDispositions {
    /// No item has been seen.
    pub fn new() -> (r: ItemDispositions)
        ensures
            r@ == (DispositionsView { by_output_index: Map::empty(), by_item_id: Map::empty() }),
    {
        ItemDispositions { by_output_index: HashMap::new(), by_item_id: StringHashMap::new() }
    }

    /// Gives an event's item a disposition.
    pub fn insert(&mut self, event: &Json, disposition: ItemDisposition)
        ensures
            final(self)@ == with_disposition(old(self)@, event@, disposition),
    {
        if let Some(output_index) = event.get_i64("output_index") {
            self.by_output_index.insert(output_index, disposition);
        }
        if let Some(item_id) = event_item_id(event) {
            self.by_item_id.insert(text::owned(item_id), disposition);
        }
    }

    /// The disposition of an event's item.
    pub fn lookup(&self, event: &Json) -> (r: Option<ItemDisposition>)
        ensures
            r == disposition_of(self@, event@),
    {
        if let Some(output_index) = event.get_i64("output_index") {
            if let Some(disposition) = self.by_output_index.get(&output_index) {
                return Some(*disposition);
            }
        }
        match event_item_id(event) {
            Some(item_id) => match self.by_item_id.get(item_id) {
                Some(disposition) => Some(*disposition),
                None => None,
            },
            None => None,
        }
    }
}

// ---------------------------------------------------------------------------------------------
// One round
// ---------------------------------------------------------------------------------------------

/// Where a round stands.
#[verifier::ext_equal]
pub struct RoundView {
    pub dispositions: DispositionsView,
    pub buffered_events: Seq<Seq<JsonView>>,
    pub reasoning_items: Seq<JsonView>,
    pub terminal: Option<JsonView>,
    pub usage: Option<JsonView>,
}

/// A round in which nothing has happened.
pub open spec fn new_round() -> RoundView {
    RoundView {
        dispositions: DispositionsView {
            by_output_index: Map::empty(),
            by_item_id: Map::empty(),
        },
        buffered_events: Seq::empty(),
        reasoning_items: Seq::empty(),
        terminal: None,
        usage: None,
    }
}

/// What an event does to a round.
#[verifier::ext_equal]
pub struct RoundEffect {
    pub round: RoundView,
    pub sent: Option<JsonView>,
    pub done: bool,
}

/// The type of an event; empty where it has none.
pub open spec fn event_type_of(event: JsonView) -> Seq<char> {
    match member_str(event, "type"@) {
        Some(t) => t,
        None => ""@,
    }
}

/// Events that open a response.
pub open spec fn is_opening(event_type: Seq<char>) -> bool {
    event_type == "response.created"@ || event_type == "response.in_progress"@
}

/// Events that end a response.
pub open spec fn is_terminal(event_type: Seq<char>) -> bool {
    event_type == "response.completed"@ || event_type == "response.failed"@ || event_type
        == "response.incomplete"@
}

/// The item that was added is reasoning.
pub open spec fn adds_reasoning(event: JsonView) -> bool {
    match member(event, "item"@) {
        Some(item) => member_str(item, "type"@) == Some("reasoning"@),
        None => false,
    }
}

/// What an event does to a round. Opening events go out in the first round only. A terminal event
/// ends the round and is kept. A new item is reasoning, which goes out, or held back. Any other
/// event shares the fate of its item; one of no known item goes out.
pub open spec fn round_step(s: RoundView, round_number: int, event: JsonView) -> RoundEffect {
    let event_type = event_type_of(event);
    if is_opening(event_type) {
        RoundEffect {
            round: s,
            sent: if round_number == 1 {
                Some(event)
            } else {
                None
            },
            done: false,
        }
    } else if is_terminal(event_type) {
        RoundEffect {
            round: RoundView {
                usage: member2(event, "response"@, "usage"@),
                terminal: Some(event),
                ..s
            },
            sent: None,
            done: true,
        }
    } else if event_type == "response.output_item.added"@ {
        if adds_reasoning(event) {
            RoundEffect {
                round: RoundView {
                    dispositions: with_disposition(
                        s.dispositions,
                        event,
                        ItemDisposition::Reasoning,
                    ),
                    ..s
                },
                sent: Some(event),
                done: false,
            }
        } else {
            RoundEffect {
                round: RoundView {
                    dispositions: with_disposition(
                        s.dispositions,
                        event,
                        ItemDisposition::Buffered(s.buffered_events.len() as usize),
                    ),
                    buffered_events: s.buffered_events.push(seq![event]),
                    ..s
                },
                sent: None,
                done: false,
            }
        }
    } else {
        match disposition_of(s.dispositions, event) {
            Some(ItemDisposition::Reasoning) => RoundEffect {
                round: RoundView {
                    reasoning_items: match member(event, "item"@) {
                        Some(item) if event_type == "response.output_item.done"@ =>
                            s.reasoning_items.push(item),
                        _ => s.reasoning_items,
                    },
                    ..s
                },
                sent: Some(event),
                done: false,
            },
            Some(ItemDisposition::Buffered(i)) => RoundEffect {
                round: RoundView {
                    buffered_events: if i < s.buffered_events.len() {
                        s.buffered_events.update(
                            i as int,
                            s.buffered_events[i as int].push(event),
                        )
                    } else {
                        s.buffered_events
                    },
                    ..s
                },
                sent: None,
                done: false,
            },
            None => RoundEffect { round: s, sent: Some(event), done: false },
        }
    }
}

/// A round in progress.
pub struct RoundState {
    dispositions: ItemDispositions,
    buffered_events: Vec<Vec<Json>>,
    reasoning_items: Vec<Json>,
    terminal: Option<Json>,
    usage: Option<Json>,
}

/// What each of several lists of documents says.
pub open spec fn lists_view(lists: Seq<Vec<Json>>) -> Seq<Seq<JsonView>> {
    lists.map_values(|l: Vec<Json>| items_view(l@))
}

impl View for RoundState {
    type V = RoundView;

    closed spec fn view(&self) -> RoundView {
        RoundView {
            dispositions: self.dispositions@,
            buffered_events: lists_view(self.buffered_events@),
            reasoning_items: items_view(self.reasoning_items@),
            terminal: opt_json(self.terminal),
            usage: opt_json(self.usage),
        }
    }
}

/// What is to be done about an event.
#[derive(Debug)]
pub struct RoundStep {
    /// The bytes that go out.
    pub sent: Option<Vec<u8>>,
    /// The event ends the round.
    pub done: bool,
}

/// The bytes are those of the event that goes out, where one does.
pub open spec fn bytes_match(event: Option<JsonView>, bytes: Option<Vec<u8>>) -> bool {
    match (event, bytes) {
        (Some(e), Some(b)) => event_bytes(e) == Some(b@),
        (None, None) => true,
        _ => false,
    }
}

impl RoundState {
    /// A round in which nothing has happened.
    pub fn new() -> (r: RoundState)
        ensures
            r@ == new_round(),
    {
        let r = RoundState {
            dispositions: ItemDispositions::new(),
            buffered_events: Vec::new(),
            reasoning_items: Vec::new(),
            terminal: None,
            usage: None,
        };
        assert(lists_view(r.buffered_events@) =~= Seq::empty());
        r
    }

    fn send(event: &Json, done: bool) -> (r: Result<RoundStep, SseError>)
        ensures
            match r {
                Ok(step) => step.done == done && bytes_match(Some(event@), step.sent),
                Err(e) => e == SseError::MissingType && event_bytes(event@) is None,
            },
    {
        match serialize_json_event(event) {
            Ok(bytes) => Ok(RoundStep { sent: Some(bytes), done }),
            Err(e) => Err(e),
        }
    }

    /// Takes the next event of the round. It fails where the event must go out and has no type.
    pub fn push_event(&mut self, round_number: usize, event: Json) -> (r: Result<
        RoundStep,
        SseError,
    >)
        ensures
            ({
                let effect = round_step(old(self)@, round_number as int, event@);
                match r {
                    Ok(step) => final(self)@ == effect.round && step.done == effect.done
                        && bytes_match(effect.sent, step.sent),
                    Err(e) => e == SseError::MissingType && effect.sent == Some(event@)
                        && event_bytes(event@) is None,
                }
            }),
    {
        let event_type = match event.get_str("type") {
            Some(t) => t,
            None => "",
        };
        if text::str_eq(event_type, "response.created") || text::str_eq(
            event_type,
            "response.in_progress",
        ) {
            if round_number == 1 {
                return RoundState::send(&event, false);
            }
            return Ok(RoundStep { sent: None, done: false });
        }
        if text::str_eq(event_type, "response.completed") || text::str_eq(
            event_type,
            "response.failed",
        ) || text::str_eq(event_type, "response.incomplete") {
            self.usage = match event.get2("response", "usage") {
                Some(usage) => Some(usage.duplicate()),
                None => None,
            };
            self.terminal = Some(event);
            return Ok(RoundStep { sent: None, done: true });
        }
        if text::str_eq(event_type, "response.output_item.added") {
            let is_reasoning = match event.get("item") {
                Some(item) => match item.get_str("type") {
                    Some(t) => text::str_eq(t, "reasoning"),
                    None => false,
                },
                None => false,
            };
            if is_reasoning {
                self.dispositions.insert(&event, ItemDisposition::Reasoning);
                return RoundState::send(&event, false);
            }
            let index: usize = self.buffered_events.len();
            self.dispositions.insert(&event, ItemDisposition::Buffered(index));
            let ghost before = self.buffered_events@;
            let ghost shown = event@;
            let mut list: Vec<Json> = Vec::new();
            proof {
                items_view_push(list@, event);
                assert(items_view(list@) =~= Seq::empty());
                assert(Seq::<JsonView>::empty().push(shown) =~= seq![shown]);
            }
            list.push(event);
            self.buffered_events.push(list);
            assert(lists_view(self.buffered_events@) =~= lists_view(before).push(seq![shown]));
            return Ok(RoundStep { sent: None, done: false });
        }
        match self.dispositions.lookup(&event) {
            Some(ItemDisposition::Reasoning) => {
                if text::str_eq(event_type, "response.output_item.done") {
                    if let Some(item) = event.get("item") {
                        let item = item.duplicate();
                        proof {
                            items_view_push(self.reasoning_items@, item);
                        }
                        self.reasoning_items.push(item);
                    }
                }
                RoundState::send(&event, false)
            },
            Some(ItemDisposition::Buffered(index)) => {
                if index < self.buffered_events.len() {
                    let ghost before = self.buffered_events@;
                    let ghost shown = event@;
                    let mut list: Vec<Json> = Vec::new();
                    std::mem::swap(&mut list, &mut self.buffered_events[index]);
                    proof {
                        assert(list == before[index as int]);
                        items_view_push(list@, event);
                    }
                    list.push(event);
                    std::mem::swap(&mut list, &mut self.buffered_events[index]);
                    assert(lists_view(self.buffered_events@) =~= lists_view(before).update(
                        index as int,
                        lists_view(before)[index as int].push(shown),
                    ));
                }
                Ok(RoundStep { sent: None, done: false })
            },
            None => RoundState::send(&event, false),
        }
    }
}

// ---------------------------------------------------------------------------------------------
// A whole round
// ---------------------------------------------------------------------------------------------

/// What reading a round to its end does.
#[verifier::ext_equal]
pub struct RoundRun {
    /// Where the round stands at its end; `None` where an event that must go out has no type.
    pub round: Option<RoundView>,
    /// What went out, one message each.
    pub sent: Seq<Seq<u8>>,
    /// The lines that were not read.
    pub rest: Seq<Seq<char>>,
}

/// Reads messages until a terminal event or the end of the lines. Messages without a document
/// are passed over.
pub open spec fn run_round(
    s: RoundView,
    round_number: int,
    lines: Seq<Seq<char>>,
    sent: Seq<Seq<u8>>,
) -> RoundRun
    decreases lines.len(),
{
    let (message, rest) = next_message(fresh(), lines);
    proof {
        sse::message_takes_lines(fresh(), lines);
    }
    match message {
        None => RoundRun { round: Some(s), sent, rest },
        Some(m) => match message_json(m) {
            None => run_round(s, round_number, rest, sent),
            Some(event) => {
                let effect = round_step(s, round_number, event);
                match effect.sent {
                    Some(e) => match event_bytes(e) {
                        Some(bytes) => if effect.done {
                            RoundRun { round: Some(effect.round), sent: sent.push(bytes), rest }
                        } else {
                            run_round(effect.round, round_number, rest, sent.push(bytes))
                        },
                        None => RoundRun { round: None, sent, rest },
                    },
                    None => if effect.done {
                        RoundRun { round: Some(effect.round), sent, rest }
                    } else {
                        run_round(effect.round, round_number, rest, sent)
                    },
                }
            },
        },
    }
}

/// The messages that a list of byte strings holds.
pub open spec fn chunks(v: Seq<Vec<u8>>) -> Seq<Seq<u8>> {
    v.map_values(|b: Vec<u8>| b@)
}

/// What reading a round gave.
pub struct RoundOutcome {
    /// What went out, one message each.
    pub sent: Vec<Vec<u8>>,
    /// Where the round stands, or why it was given up.
    pub round: Result<RoundState, SseError>,
}

/// Where the round of an outcome stands.
pub open spec fn outcome_round(r: Result<RoundState, SseError>) -> Option<RoundView> {
    match r {
        Ok(round) => Some(round@),
        Err(_) => None,
    }
}

/// Reads a round to its end.
pub fn process_round(reader: &mut SseReader, round_number: usize) -> (r: RoundOutcome)
    ensures
        ({
            let run = run_round(new_round(), round_number as int, old(reader)@, Seq::empty());
            &&& outcome_round(r.round) == run.round
            &&& chunks(r.sent@) == run.sent
            &&& final(reader)@ == run.rest
        }),
{
    let mut round = RoundState::new();
    let mut sent: Vec<Vec<u8>> = Vec::new();
    let ghost run = run_round(new_round(), round_number as int, reader@, Seq::empty());
    assert(chunks(sent@) =~= Seq::empty());
    loop
        invariant
            run == run_round(new_round(), round_number as int, old(reader)@, Seq::empty()),
            run == run_round(round@, round_number as int, reader@, chunks(sent@)),
        decreases reader@.len(),
    {
        proof {
            sse::message_takes_lines(fresh(), reader@);
        }
        let message = match read_sse_message(reader) {
            Some(message) => message,
            None => return RoundOutcome { sent, round: Ok(round) },
        };
        let event = match parse_sse_json(&message) {
            Some(event) => event,
            None => continue ,
        };
        match round.push_event(round_number, event) {
            Ok(step) => {
                if let Some(bytes) = step.sent {
                    let ghost before = sent@;
                    sent.push(bytes);
                    assert(chunks(sent@) =~= chunks(before).push(bytes@));
                }
                if step.done {
                    return RoundOutcome { sent, round: Ok(round) };
                }
            },
            Err(e) => return RoundOutcome { sent, round: Err(e) },
        }
    }
}

// ---------------------------------------------------------------------------------------------
// From round to round
// ---------------------------------------------------------------------------------------------

/// Where the folding of several rounds stands.
#[verifier::ext_equal]
pub struct FoldView {
    pub round_number: int,
    pub replay_tail: Seq<JsonView>,
    pub first_usage: Option<JsonView>,
    pub total_usage: Map<Seq<char>, JsonView>,
    pub hidden_rounds_taken: int,
}

/// Before the first round has ended.
pub open spec fn new_fold() -> FoldView {
    FoldView {
        round_number: 1,
        replay_tail: Seq::empty(),
        first_usage: None,
        total_usage: Map::empty(),
        hidden_rounds_taken: 0,
    }
}

/// The item carries its reasoning in encrypted form.
pub open spec fn is_encrypted_item(item: JsonView) -> bool {
    member(item, "encrypted_content"@) matches Some(JsonView::Str(_))
}

/// Some item of reasoning can be handed back.
pub open spec fn has_encrypted(items: Seq<JsonView>) -> bool {
    exists|i: int| 0 <= i < items.len() && is_encrypted_item(#[trigger] items[i])
}

/// The usage so far with that of a round that has ended.
pub open spec fn count_round(f: FoldView, round: RoundView) -> FoldView {
    FoldView {
        first_usage: match f.first_usage {
            Some(u) => Some(u),
            None => round.usage,
        },
        total_usage: summed_usage(f.total_usage, round.usage),
        ..f
    }
}

/// What the rounds after this one repeat: the reasoning so far, and the wish for more.
pub open spec fn next_tail(
    f: FoldView,
    config: ContinueThinkingConfig,
    round: RoundView,
) -> Seq<JsonView> {
    (f.replay_tail + round.reasoning_items).push(commentary_view(config.message@))
}

/// The request for another round, where there should be one.
pub open spec fn continuation(
    f: FoldView,
    config: ContinueThinkingConfig,
    base: Map<Seq<char>, JsonView>,
    round: RoundView,
) -> Option<Map<Seq<char>, JsonView>> {
    if continues(
        config,
        reasoning_tokens_of(round.usage),
        f.round_number,
        has_encrypted(round.reasoning_items),
    ) {
        next_round_body(base, next_tail(f, config, round))
    } else {
        None
    }
}

/// Another round has begun.
pub open spec fn enter_next_round(
    f: FoldView,
    config: ContinueThinkingConfig,
    round: RoundView,
) -> FoldView {
    FoldView {
        round_number: f.round_number + 1,
        replay_tail: next_tail(f, config, round),
        hidden_rounds_taken: f.hidden_rounds_taken + 1,
        ..f
    }
}

/// Every event has a type.
pub open spec fn all_typed(events: Seq<JsonView>) -> bool {
    forall|i: int| 0 <= i < events.len() ==> event_bytes(#[trigger] events[i]) is Some
}

/// The messages of events, up to the first that has no type.
pub open spec fn sent_of(events: Seq<JsonView>) -> Seq<Seq<u8>>
    decreases events.len(),
{
    if events.len() == 0 {
        Seq::empty()
    } else {
        match event_bytes(events[0]) {
            Some(bytes) => seq![bytes] + sent_of(events.skip(1)),
            None => Seq::empty(),
        }
    }
}

/// The last event of the folded response: that of the last round, with the usage of all rounds
/// where some were hidden.
pub open spec fn closing_event(f: FoldView, round: RoundView, terminal: JsonView) -> JsonView {
    match (terminal, member(terminal, "response"@)) {
        (JsonView::Object(t), Some(JsonView::Object(response))) if f.hidden_rounds_taken > 0 =>
            JsonView::Object(
                t.insert(
                    "response"@,
                    JsonView::Object(
                        response.insert(
                            "usage"@,
                            reconstructed_usage(f.first_usage, f.total_usage, round.usage),
                        ),
                    ),
                ),
            ),
        _ => terminal,
    }
}

/// The usage of all rounds is wanted and does not fit in `i64`.
pub open spec fn closing_overflows(f: FoldView, round: RoundView, terminal: JsonView) -> bool {
    &&& f.hidden_rounds_taken > 0
    &&& member(terminal, "response"@) matches Some(JsonView::Object(_))
    &&& !reconstruction_fits(f.first_usage, f.total_usage, round.usage)
}

/// Why folding stops before the end.
#[derive(Debug, Clone, Copy, PartialEq, Eq, Structural)]
pub enum FoldError {
    /// An event that must go out has no type.
    MissingType,
    /// A sum of token counts does not fit in an `i64`.
    UsageOverflow,
}

/// What goes out when the last round has ended, and whether all of it could.
pub open spec fn finish_of(f: FoldView, round: RoundView) -> (Seq<Seq<u8>>, Option<FoldError>) {
    let held = round.buffered_events.flatten();
    let sent = sent_of(held);
    if !all_typed(held) {
        (sent, Some(FoldError::MissingType))
    } else {
        match round.terminal {
            None => (sent, None),
            Some(terminal) => if closing_overflows(f, round, terminal) {
                (sent, Some(FoldError::UsageOverflow))
            } else {
                match event_bytes(closing_event(f, round, terminal)) {
                    Some(bytes) => (sent.push(bytes), None),
                    None => (sent, Some(FoldError::MissingType)),
                }
            },
        }
    }
}

/// The folding of several rounds into one response.
pub struct FoldState {
    round_number: usize,
    replay_tail: Vec<Json>,
    first_usage: Option<Json>,
    total_usage: JsonObject,
    hidden_rounds_taken: usize,
}

impl View for FoldState {
    type V = FoldView;

    closed spec fn view(&self) -> FoldView {
        FoldView {
            round_number: self.round_number as int,
            replay_tail: items_view(self.replay_tail@),
            first_usage: opt_json(self.first_usage),
            total_usage: self.total_usage@,
            hidden_rounds_taken: self.hidden_rounds_taken as int,
        }
    }
}

/// What is sent at the end, and why it may stop short.
#[derive(Debug)]
pub struct FoldFinish {
    pub sent: Vec<Vec<u8>>,
    pub error: Option<FoldError>,
}

fn item_has_encrypted_reasoning(item: &Json) -> (r: bool)
    ensures
        r == is_encrypted_item(item@),
{
    match item.get("encrypted_content") {
        Some(value) => value.as_str().is_some(),
        None => false,
    }
}

fn any_encrypted(items: &Vec<Json>) -> (r: bool)
    ensures
        r == has_encrypted(items_view(items@)),
{
    proof {
        items_view_index(items@);
    }
    let mut i: usize = 0;
    while i < items.len()
        invariant
            i <= items.len(),
            forall|k: int| 0 <= k < i ==> !is_encrypted_item(#[trigger] items_view(items@)[k]),
            items_view(items@).len() == items@.len(),
        decreases items.len() - i,
    {
        proof {
            items_view_index(items@);
            assert(items_view(items@)[i as int] == items@[i as int]@);
        }
        if item_has_encrypted_reasoning(&items[i]) {
            return true;
        }
        i += 1;
    }
    false
}

proof fn lemma_sent_push(events: Seq<JsonView>, event: JsonView)
    requires
        all_typed(events),
    ensures
        event_bytes(event) matches Some(bytes) ==> sent_of(events.push(event)) == sent_of(
            events,
        ).push(bytes) && all_typed(events.push(event)),
        event_bytes(event) is None ==> sent_of(events.push(event)) == sent_of(events)
            && !all_typed(events.push(event)),
    decreases events.len(),
{
    let more = events.push(event);
    if events.len() == 0 {
        assert(more[0] == event);
        assert(more.skip(1) =~= Seq::empty());
        assert(sent_of(more.skip(1)) =~= Seq::empty());
        assert(sent_of(events) =~= Seq::empty());
        if event_bytes(event) is Some {
            assert(sent_of(more) =~= sent_of(events).push(event_bytes(event)->0));
        }
    } else {
        let rest = events.skip(1);
        assert forall|i: int| 0 <= i < rest.len() implies event_bytes(
            #[trigger] rest[i],
        ) is Some by {
            assert(rest[i] == events[i + 1]);
        }
        lemma_sent_push(rest, event);
        assert(more.skip(1) =~= rest.push(event));
        assert(more[0] == events[0]);
        let bytes = event_bytes(events[0])->0;
        if event_bytes(event) is Some {
            assert(sent_of(more) =~= sent_of(events).push(event_bytes(event)->0));
            assert forall|i: int| 0 <= i < more.len() implies event_bytes(
                #[trigger] more[i],
            ) is Some by {
                if i < events.len() {
                    assert(more[i] == events[i]);
                }
            }
        } else {
            assert(more[events.len() as int] == event);
        }
    }
}

proof fn lemma_sent_more(events: Seq<JsonView>, more: Seq<JsonView>)
    requires
        !all_typed(events),
    ensures
        sent_of(events + more) == sent_of(events),
        !all_typed(events + more),
    decreases events.len(),
{
    if events.len() > 0 {
        assert((events + more)[0] == events[0]);
        if event_bytes(events[0]) is Some {
            let rest = events.skip(1);
            if all_typed(rest) {
                assert forall|i: int| 0 <= i < events.len() implies event_bytes(
                    #[trigger] events[i],
                ) is Some by {
                    if i > 0 {
                        assert(events[i] == rest[i - 1]);
                    }
                }
            }
            lemma_sent_more(rest, more);
            assert((events + more).skip(1) =~= rest + more);
        }
        let j = choose|j: int|
            0 <= j < events.len() && !(event_bytes(#[trigger] events[j]) is Some);
        assert((events + more)[j] == events[j]);
    }
}

fn send_json_event(sent: &mut Vec<Vec<u8>>, event: &Json) -> (r: bool)
    ensures
        r == (event_bytes(event@) is Some),
        chunks(final(sent)@) == if r {
            chunks(old(sent)@).push(event_bytes(event@)->0)
        } else {
            chunks(old(sent)@)
        },
{
    match serialize_json_event(event) {
        Ok(bytes) => {
            let ghost before = sent@;
            sent.push(bytes);
            assert(chunks(sent@) =~= chunks(before).push(bytes@));
            true
        },
        Err(_) => false,
    }
}

fn flush_buffered_events(sent: &mut Vec<Vec<u8>>, buffered_events: &Vec<Vec<Json>>) -> (r: bool)
    requires
        old(sent)@.len() == 0,
    ensures
        ({
            let held = lists_view(buffered_events@).flatten();
            &&& r == all_typed(held)
            &&& chunks(final(sent)@) == sent_of(held)
        }),
{
    let ghost lists = lists_view(buffered_events@);
    let ghost mut done: Seq<JsonView> = Seq::empty();
    let mut i: usize = 0;
    proof {
        assert(lists.take(0) =~= Seq::empty());
        assert(chunks(sent@) =~= Seq::empty());
        assert(sent_of(done) =~= Seq::empty());
    }
    while i < buffered_events.len()
        invariant
            i <= buffered_events.len(),
            lists == lists_view(buffered_events@),
            done == lists.take(i as int).flatten(),
            all_typed(done),
            chunks(sent@) == sent_of(done),
        decreases buffered_events.len() - i,
    {
        let events = &buffered_events[i];
        let ghost start = done;
        let ghost shown = items_view(events@);
        let mut j: usize = 0;
        proof {
            assert(lists[i as int] == shown);
            items_view_index(events@);
            assert(lists.take(i + 1) =~= lists.take(i as int).push(shown));
            lists.take(i as int).lemma_flatten_push(shown);
            assert(shown.take(0) =~= Seq::empty());
            assert(done =~= start + shown.take(0));
        }
        while j < events.len()
            invariant
                j <= events.len(),
                i < buffered_events.len(),
                lists == lists_view(buffered_events@),
                lists.take(i + 1).flatten() == start + shown,
                shown == items_view(events@),
                shown.len() == events@.len(),
                done == start + shown.take(j as int),
                all_typed(done),
                chunks(sent@) == sent_of(done),
            decreases events.len() - j,
        {
            proof {
                items_view_index(events@);
                assert(shown[j as int] == events@[j as int]@);
                lemma_sent_push(done, shown[j as int]);
                assert(done.push(shown[j as int]) =~= start + shown.take(j + 1));
            }
            let ok = send_json_event(sent, &events[j]);
            if !ok {
                proof {
                    let upto = start + shown.take(j + 1);
                    let rest = shown.skip(j + 1) + lists.skip(i + 1).flatten();
                    assert(lists =~= lists.take(i + 1) + lists.skip(i + 1));
                    vstd::seq_lib::lemma_flatten_concat(lists.take(i + 1), lists.skip(i + 1));
                    assert(lists.flatten() =~= upto + rest) by {
                        assert(shown =~= shown.take(j + 1) + shown.skip(j + 1));
                    }
                    lemma_sent_more(upto, rest);
                }
                return false;
            }
            proof {
                done = start + shown.take(j + 1);
            }
            j += 1;
        }
        assert(shown.take(j as int) =~= shown);
        i += 1;
    }
    assert(lists.take(i as int) =~= lists);
    true
}

impl FoldState {
    /// Before the first round has ended.
    pub fn new() -> (r: FoldState)
        ensures
            r@ == new_fold(),
    {
        FoldState {
            round_number: 1,
            replay_tail: Vec::new(),
            first_usage: None,
            total_usage: JsonObject::new(),
            hidden_rounds_taken: 0,
        }
    }

    /// The number of the round that is being read.
    pub fn round_number(&self) -> (r: usize)
        ensures
            r == self@.round_number,
    {
        self.round_number
    }

    fn tail_after(&self, config: &ContinueThinkingConfig, round: &RoundState) -> (r: Vec<Json>)
        ensures
            items_view(r@) == next_tail(self@, *config, round@),
    {
        let mut tail = json::duplicate_all(&self.replay_tail);
        continue_thinking::extend_with(&mut tail, &round.reasoning_items);
        let wish = commentary_message(config.message.as_str());
        proof {
            items_view_push(tail@, wish);
        }
        tail.push(wish);
        tail
    }

    /// A round has ended: counts its usage, and returns the request for another round where there
    /// should be one. It fails where a sum of tokens does not fit.
    pub fn end_round(
        &mut self,
        config: &ContinueThinkingConfig,
        base_body: &JsonObject,
        round: &RoundState,
    ) -> (r: Result<Option<Json>, FoldError>)
        ensures
            match r {
                Ok(request) => {
                    &&& sum_fits(old(self)@.total_usage, round@.usage)
                    &&& final(self)@ == count_round(old(self)@, round@)
                    &&& match request {
                        Some(body) => continuation(final(self)@, *config, base_body@, round@)
                            matches Some(m) && body@ == JsonView::Object(m),
                        None => continuation(
                            final(self)@,
                            *config,
                            base_body@,
                            round@,
                        ) is None,
                    }
                },
                Err(e) => e == FoldError::UsageOverflow && !sum_fits(
                    old(self)@.total_usage,
                    round@.usage,
                ),
            },
    {
        let usage = match &round.usage {
            Some(usage) => Some(usage),
            None => None,
        };
        if !try_sum_usage(&mut self.total_usage, usage) {
            return Err(FoldError::UsageOverflow);
        }
        if self.first_usage.is_none() {
            self.first_usage = json::duplicate_opt(&round.usage);
        }
        if should_continue(
            config,
            reasoning_tokens_from_usage(usage),
            self.round_number,
            any_encrypted(&round.reasoning_items),
        ) {
            let tail = self.tail_after(config, round);
            Ok(build_next_round_body(base_body, &tail))
        } else {
            Ok(None)
        }
    }

    /// The round that was asked for has begun: what the one before held back is dropped.
    pub fn enter_round(&mut self, config: &ContinueThinkingConfig, round: &RoundState)
        requires
            old(self)@.round_number < usize::MAX,
            old(self)@.hidden_rounds_taken < usize::MAX,
        ensures
            final(self)@ == enter_next_round(old(self)@, *config, round@),
    {
        self.replay_tail = self.tail_after(config, round);
        self.hidden_rounds_taken = self.hidden_rounds_taken + 1;
        self.round_number = self.round_number + 1;
    }

    /// No other round follows: sends what was held back and the terminal event.
    pub fn finish(&self, round: &RoundState) -> (r: FoldFinish)
        ensures
            (chunks(r.sent@), r.error) == finish_of(self@, round@),
    {
        let mut sent: Vec<Vec<u8>> = Vec::new();
        if !flush_buffered_events(&mut sent, &round.buffered_events) {
            return FoldFinish { sent, error: Some(FoldError::MissingType) };
        }
        match &round.terminal {
            Some(terminal) => {
                let mut event = terminal.duplicate();
                if self.hidden_rounds_taken > 0 {
                    if let Json::Object(members) = &mut event {
                        let response = match members.get("response") {
                            Some(Json::Object(response)) => Some(response.duplicate()),
                            _ => None,
                        };
                        if let Some(mut response) = response {
                            let first = match &self.first_usage {
                                Some(usage) => Some(usage),
                                None => None,
                            };
                            let last = match &round.usage {
                                Some(usage) => Some(usage),
                                None => None,
                            };
                            match try_reconstruct_usage(first, &self.total_usage, last) {
                                Some(usage) => {
                                    response.insert(text::owned("usage"), usage);
                                    members.insert(text::owned("response"), Json::Object(response));
                                },
                                None => return FoldFinish {
                                    sent,
                                    error: Some(FoldError::UsageOverflow),
                                },
                            }
                        }
                    }
                }
                if send_json_event(&mut sent, &event) {
                    FoldFinish { sent, error: None }
                } else {
                    FoldFinish { sent, error: Some(FoldError::MissingType) }
                }
            },
            None => FoldFinish { sent, error: None },
        }
    }
}

// ---------------------------------------------------------------------------------------------
// Laws
// ---------------------------------------------------------------------------------------------

/// The rounds of a fold are numbered from one, each hidden round before the present one.
pub open spec fn rounds_in_step(f: FoldView) -> bool {
    f.round_number == f.hidden_rounds_taken + 1 && f.hidden_rounds_taken >= 0
}

/// Another round is asked for only while fewer rounds than the limit have been hidden, so that
/// entering it keeps the hidden rounds within the limit.
pub proof fn hidden_rounds_stay_within_the_limit(
    f: FoldView,
    config: ContinueThinkingConfig,
    base: Map<Seq<char>, JsonView>,
    round: RoundView,
)
    requires
        rounds_in_step(f),
        continuation(f, config, base, round) is Some,
    ensures
        rounds_in_step(enter_next_round(f, config, round)),
        enter_next_round(f, config, round).hidden_rounds_taken <= config.max_extra_rounds,
        rounds_in_step(new_fold()),
        rounds_in_step(count_round(f, round)),
{
}

/// A response whose first round is its last goes out with the events and the terminal event as
/// they came: the usage is left alone.
pub proof fn single_round_is_unchanged(f: FoldView, round: RoundView, terminal: JsonView)
    requires
        f.hidden_rounds_taken == 0,
    ensures
        closing_event(f, round, terminal) == terminal,
        !closing_overflows(f, round, terminal),
{
}

/// No event is both sent and held back, and none is lost: an event that does not end the round
/// goes out, or stands at the end of one list of held events, or is an opening event of a later
/// round, or belongs to a list that does not exist.
pub proof fn each_event_has_one_fate(s: RoundView, round_number: int, event: JsonView)
    ensures
        ({
            let effect = round_step(s, round_number, event);
            &&& effect.sent is Some ==> effect.sent == Some(event) && effect.round.buffered_events
                == s.buffered_events && !effect.done
            &&& effect.done ==> effect.round.terminal == Some(event)
            &&& effect.sent is None && !effect.done ==> {
                ||| is_opening(event_type_of(event)) && round_number != 1 && effect.round == s
                ||| effect.round.buffered_events == s.buffered_events.push(seq![event])
                ||| exists|i: int|
                    0 <= i < s.buffered_events.len() && effect.round.buffered_events
                        == s.buffered_events.update(
                        i,
                        (#[trigger] s.buffered_events[i]).push(event),
                    )
                ||| disposition_of(s.dispositions, event) matches Some(
                    ItemDisposition::Buffered(i),
                ) && i >= s.buffered_events.len()
            }
        }),
{
    let effect = round_step(s, round_number, event);
    if let Some(ItemDisposition::Buffered(i)) = disposition_of(s.dispositions, event) {
        if i < s.buffered_events.len() {
            assert(s.buffered_events[i as int] == s.buffered_events[i as int]);
        }
    }
}

/// Every held list that an item points to exists.
pub open spec fn lists_exist(s: RoundView) -> bool {
    &&& forall|k: i64|
        #![trigger s.dispositions.by_output_index[k]]
        s.dispositions.by_output_index.contains_key(k) ==> (
        s.dispositions.by_output_index[k] matches ItemDisposition::Buffered(i) ==> i
            < s.buffered_events.len())
    &&& forall|k: Seq<char>|
        #![trigger s.dispositions.by_item_id[k]]
        s.dispositions.by_item_id.contains_key(k) ==> (
        s.dispositions.by_item_id[k] matches ItemDisposition::Buffered(i) ==> i
            < s.buffered_events.len())
}

/// In a round, every item whose events are held back has its list, while there are no more lists
/// than a `usize` can count; so no held event is lost.
pub proof fn lists_always_exist(s: RoundView, round_number: int, event: JsonView)
    requires
        lists_exist(s),
        s.buffered_events.len() <= usize::MAX,
    ensures
        lists_exist(new_round()),
        lists_exist(round_step(s, round_number, event).round),
        disposition_of(s.dispositions, event) matches Some(ItemDisposition::Buffered(i)) ==> i
            < s.buffered_events.len(),
{
}

/// What the folding of several rounds does.
pub struct FoldRun {
    /// What went out, one message each.
    pub sent: Seq<Seq<u8>>,
    /// The requests for further rounds, in their order, whether or not the round could be opened.
    pub requests: Seq<Map<Seq<char>, JsonView>>,
}

/// Folds rounds, given the lines of the present one and of those that can still be opened, on top
/// of what went out and was asked for before. A round that is asked for when none is left cannot
/// be opened, and then the present one is the last.
pub open spec fn fold_run(
    f: FoldView,
    config: ContinueThinkingConfig,
    base: Map<Seq<char>, JsonView>,
    rounds: Seq<Seq<Seq<char>>>,
    before: FoldRun,
) -> FoldRun
    decreases rounds.len(),
{
    if rounds.len() == 0 {
        before
    } else {
        let run = run_round(new_round(), f.round_number, rounds[0], before.sent);
        match run.round {
            Some(round) if sum_fits(f.total_usage, round.usage) => {
                let counted = count_round(f, round);
                let requests = match continuation(counted, config, base, round) {
                    Some(body) => before.requests.push(body),
                    None => before.requests,
                };
                if requests.len() > before.requests.len() && rounds.len() > 1 {
                    fold_run(
                        enter_next_round(counted, config, round),
                        config,
                        base,
                        rounds.skip(1),
                        FoldRun { sent: run.sent, requests },
                    )
                } else {
                    FoldRun { sent: run.sent + finish_of(counted, round).0, requests }
                }
            },
            _ => FoldRun { sent: run.sent, requests: before.requests },
        }
    }
}

/// The bytes are the message of an event that does not end a response.
pub open spec fn ends_nothing(bytes: Seq<u8>) -> bool {
    exists|event: JsonView|
        !is_terminal(event_type_of(event)) && #[trigger] event_bytes(event) == Some(bytes)
}

/// None of the first `n` messages ends a response.
pub open spec fn none_ends(sent: Seq<Seq<u8>>, n: int) -> bool {
    forall|i: int| 0 <= i < n ==> ends_nothing(#[trigger] sent[i])
}

/// The inputs of a request.
pub open spec fn inputs_of(request: Map<Seq<char>, JsonView>) -> Option<Seq<JsonView>> {
    match field(request, "input"@) {
        Some(JsonView::Array(inputs)) => Some(inputs),
        _ => None,
    }
}

/// Each request repeats the inputs of the first request, and those of the one before it, at the
/// start of its own, and ends with the wish for more.
pub open spec fn requests_grow(
    requests: Seq<Map<Seq<char>, JsonView>>,
    base: Map<Seq<char>, JsonView>,
    config: ContinueThinkingConfig,
) -> bool {
    forall|i: int|
        0 <= i < requests.len() ==> {
            &&& inputs_of(base) is Some
            &&& inputs_of(#[trigger] requests[i]) is Some
            &&& inputs_of(requests[i])->0.len() > 0
            &&& inputs_of(requests[i])->0.last() == commentary_view(config.message@)
            &&& inputs_of(base)->0.is_prefix_of(inputs_of(requests[i])->0)
            &&& i > 0 ==> inputs_of(requests[i - 1])->0.is_prefix_of(inputs_of(requests[i])->0)
        }
}

/// Nothing that a round holds back ends a response, and what ended the round does.
spec fn holds_no_end(s: RoundView) -> bool {
    &&& forall|i: int, j: int|
        0 <= i < s.buffered_events.len() && 0 <= j < s.buffered_events[i].len() ==> !is_terminal(
            event_type_of(#[trigger] s.buffered_events[i][j]),
        )
    &&& s.terminal matches Some(t) ==> is_terminal(event_type_of(t))
}

proof fn lemma_opening_is_no_end(event_type: Seq<char>)
    requires
        is_opening(event_type),
    ensures
        !is_terminal(event_type),
{
    reveal_strlit("response.created");
    reveal_strlit("response.in_progress");
    reveal_strlit("response.completed");
    reveal_strlit("response.failed");
    reveal_strlit("response.incomplete");
    assert("response.created"@.len() == 16 && "response.in_progress"@.len() == 20
        && "response.completed"@.len() == 18 && "response.failed"@.len() == 15
        && "response.incomplete"@.len() == 19);
}

proof fn lemma_step_sends_no_end(s: RoundView, round_number: int, event: JsonView)
    requires
        holds_no_end(s),
    ensures
        holds_no_end(round_step(s, round_number, event).round),
        round_step(s, round_number, event).sent matches Some(e) ==> !is_terminal(event_type_of(e)),
{
    if is_opening(event_type_of(event)) {
        lemma_opening_is_no_end(event_type_of(event));
    }
    let after = round_step(s, round_number, event).round;
    assert forall|i: int, j: int|
        0 <= i < after.buffered_events.len() && 0 <= j
            < after.buffered_events[i].len() implies !is_terminal(
        event_type_of(#[trigger] after.buffered_events[i][j]),
    ) by {
        if i < s.buffered_events.len() && j < s.buffered_events[i].len() {
            assert(after.buffered_events[i][j] == s.buffered_events[i][j]);
        } else {
            assert(after.buffered_events[i][j] == event);
        }
    }
}

proof fn lemma_round_sends_no_end(
    s: RoundView,
    round_number: int,
    lines: Seq<Seq<char>>,
    sent: Seq<Seq<u8>>,
)
    requires
        holds_no_end(s),
        none_ends(sent, sent.len() as int),
    ensures
        ({
            let run = run_round(s, round_number, lines, sent);
            none_ends(run.sent, run.sent.len() as int)
        }),
        run_round(s, round_number, lines, sent).round matches Some(round) ==> holds_no_end(round),
    decreases lines.len(),
{
    let (message, rest) = next_message(fresh(), lines);
    sse::message_takes_lines(fresh(), lines);
    if let Some(m) = message {
        match message_json(m) {
            None => {
                lemma_round_sends_no_end(s, round_number, rest, sent);
            },
            Some(event) => {
                let effect = round_step(s, round_number, event);
                lemma_step_sends_no_end(s, round_number, event);
                match effect.sent {
                    Some(e) => {
                        if let Some(bytes) = event_bytes(e) {
                            assert(ends_nothing(bytes));
                            if !effect.done {
                                lemma_round_sends_no_end(
                                    effect.round,
                                    round_number,
                                    rest,
                                    sent.push(bytes),
                                );
                            }
                        }
                    },
                    None => {
                        if !effect.done {
                            lemma_round_sends_no_end(effect.round, round_number, rest, sent);
                        }
                    },
                }
            },
        }
    }
}

proof fn lemma_flattened(lists: Seq<Seq<JsonView>>, i: int)
    requires
        0 <= i < lists.flatten().len(),
        forall|a: int, b: int|
            0 <= a < lists.len() && 0 <= b < lists[a].len() ==> !is_terminal(
                event_type_of(#[trigger] lists[a][b]),
            ),
    ensures
        !is_terminal(event_type_of(lists.flatten()[i])),
    decreases lists.len(),
{
    if lists.len() > 0 {
        let first = lists[0];
        let rest = lists.drop_first();
        assert(lists.flatten() == first + rest.flatten());
        if i < first.len() {
            assert(lists.flatten()[i] == lists[0][i]);
        } else {
            assert forall|a: int, b: int|
                0 <= a < rest.len() && 0 <= b < rest[a].len() implies !is_terminal(
                event_type_of(#[trigger] rest[a][b]),
            ) by {
                assert(rest[a][b] == lists[a + 1][b]);
            }
            lemma_flattened(rest, i - first.len());
        }
    }
}

proof fn lemma_held_end_nothing(events: Seq<JsonView>)
    requires
        forall|i: int|
            0 <= i < events.len() ==> !is_terminal(event_type_of(#[trigger] events[i])),
    ensures
        none_ends(sent_of(events), sent_of(events).len() as int),
    decreases events.len(),
{
    if events.len() > 0 {
        if let Some(bytes) = event_bytes(events[0]) {
            let rest = events.skip(1);
            assert forall|i: int| 0 <= i < rest.len() implies !is_terminal(
                event_type_of(#[trigger] rest[i]),
            ) by {
                assert(rest[i] == events[i + 1]);
            }
            lemma_held_end_nothing(rest);
            assert(ends_nothing(bytes));
            let sent = sent_of(events);
            assert forall|i: int| 0 <= i < sent.len() implies ends_nothing(#[trigger] sent[i]) by {
                if i > 0 {
                    assert(sent[i] == sent_of(rest)[i - 1]);
                }
            }
        }
    }
}

proof fn lemma_finish_ends_once(f: FoldView, round: RoundView)
    requires
        holds_no_end(round),
    ensures
        none_ends(finish_of(f, round).0, finish_of(f, round).0.len() - 1),
{
    let held = round.buffered_events.flatten();
    assert forall|i: int| 0 <= i < held.len() implies !is_terminal(
        event_type_of(#[trigger] held[i]),
    ) by {
        lemma_flattened(round.buffered_events, i);
    }
    lemma_held_end_nothing(held);
    let all = finish_of(f, round).0;
    assert forall|i: int| 0 <= i < all.len() - 1 implies ends_nothing(#[trigger] all[i]) by {
        assert(all[i] == sent_of(held)[i]);
    }
}

/// Folding asks for no more rounds than the limit, and for none where it is turned off. Each
/// request repeats the inputs of the first request, and those of the request before it, and ends
/// with the wish for more. Of what goes out, only the last message may end the response.
pub proof fn folding_goes_on_and_ends_once(
    config: ContinueThinkingConfig,
    base: Map<Seq<char>, JsonView>,
    rounds: Seq<Seq<Seq<char>>>,
)
    ensures
        ({
            let run = fold_run(
                new_fold(),
                config,
                base,
                rounds,
                FoldRun { sent: Seq::empty(), requests: Seq::empty() },
            );
            &&& run.requests.len() <= config.max_extra_rounds
            &&& !config.enabled ==> run.requests.len() == 0
            &&& requests_grow(run.requests, base, config)
            &&& none_ends(run.sent, run.sent.len() - 1)
        }),
{
    lemma_fold(
        new_fold(),
        config,
        base,
        rounds,
        FoldRun { sent: Seq::empty(), requests: Seq::empty() },
    );
}

/// What has been asked for is what the present round repeats.
spec fn in_step(
    f: FoldView,
    config: ContinueThinkingConfig,
    base: Map<Seq<char>, JsonView>,
    before: FoldRun,
) -> bool {
    &&& rounds_in_step(f)
    &&& before.requests.len() == f.hidden_rounds_taken
    &&& before.requests.len() <= config.max_extra_rounds
    &&& !config.enabled ==> before.requests.len() == 0
    &&& requests_grow(before.requests, base, config)
    &&& before.requests.len() > 0 ==> inputs_of(before.requests.last()) == Some(
        inputs_of(base)->0 + f.replay_tail,
    )
    &&& none_ends(before.sent, before.sent.len() as int)
}

proof fn lemma_fold(
    f: FoldView,
    config: ContinueThinkingConfig,
    base: Map<Seq<char>, JsonView>,
    rounds: Seq<Seq<Seq<char>>>,
    before: FoldRun,
)
    requires
        in_step(f, config, base, before),
    ensures
        ({
            let run = fold_run(f, config, base, rounds, before);
            &&& run.requests.len() <= config.max_extra_rounds
            &&& !config.enabled ==> run.requests.len() == 0
            &&& requests_grow(run.requests, base, config)
            &&& none_ends(run.sent, run.sent.len() - 1)
        }),
    decreases rounds.len(),
{
    if rounds.len() > 0 {
        let run = run_round(new_round(), f.round_number, rounds[0], before.sent);
        lemma_round_sends_no_end(new_round(), f.round_number, rounds[0], before.sent);
        if let Some(round) = run.round {
            if sum_fits(f.total_usage, round.usage) {
                let counted = count_round(f, round);
                let next = enter_next_round(counted, config, round);
                let asked = continuation(counted, config, base, round);
                let requests = match asked {
                    Some(body) => before.requests.push(body),
                    None => before.requests,
                };
                if let Some(body) = asked {
                    lemma_request_grows(f, config, base, round, before, body);
                    if rounds.len() > 1 {
                        lemma_fold(
                            next,
                            config,
                            base,
                            rounds.skip(1),
                            FoldRun { sent: run.sent, requests },
                        );
                    }
                }
                if asked is None || rounds.len() <= 1 {
                    lemma_finish_ends_once(counted, round);
                    let last = finish_of(counted, round).0;
                    let sent = run.sent + last;
                    assert forall|i: int| 0 <= i < sent.len() - 1 implies ends_nothing(
                        #[trigger] sent[i],
                    ) by {
                        if i < run.sent.len() {
                            assert(sent[i] == run.sent[i]);
                        } else {
                            assert(sent[i] == last[i - run.sent.len()]);
                        }
                    }
                }
            }
        }
    }
}

proof fn lemma_request_grows(
    f: FoldView,
    config: ContinueThinkingConfig,
    base: Map<Seq<char>, JsonView>,
    round: RoundView,
    before: FoldRun,
    body: Map<Seq<char>, JsonView>,
)
    requires
        in_step(f, config, base, before),
        continuation(count_round(f, round), config, base, round) == Some(body),
    ensures
        in_step(
            enter_next_round(count_round(f, round), config, round),
            config,
            base,
            FoldRun { sent: before.sent, requests: before.requests.push(body) },
        ),
{
    let counted = count_round(f, round);
    let tail = next_tail(counted, config, round);
    continue_thinking::next_round_keeps_the_request(base, tail);
    let requests = before.requests.push(body);
    let first = inputs_of(base)->0;
    let inputs = inputs_of(body)->0;
    assert(inputs == first + tail);
    assert(inputs.last() == commentary_view(config.message@));
    assert(first.is_prefix_of(inputs));
    if before.requests.len() > 0 {
        assert((first + f.replay_tail).is_prefix_of(first + tail));
    }
    assert forall|i: int| 0 <= i < requests.len() implies {
        &&& inputs_of(base) is Some
        &&& inputs_of(#[trigger] requests[i]) is Some
        &&& inputs_of(requests[i])->0.len() > 0
        &&& inputs_of(requests[i])->0.last() == commentary_view(config.message@)
        &&& inputs_of(base)->0.is_prefix_of(inputs_of(requests[i])->0)
        &&& i > 0 ==> inputs_of(requests[i - 1])->0.is_prefix_of(inputs_of(requests[i])->0)
    } by {
        if i < before.requests.len() {
            assert(requests[i] == before.requests[i]);
            if i > 0 {
                assert(requests[i - 1] == before.requests[i - 1]);
            }
        } else if i > 0 {
            assert(requests[i - 1] == before.requests.last());
        }
    }
}

/// Where a round stands after events, none of which ends it.
pub open spec fn round_after(events: Seq<JsonView>, round_number: int) -> RoundView
    decreases events.len(),
{
    if events.len() == 0 {
        new_round()
    } else {
        round_step(
            round_after(events.drop_last(), round_number),
            round_number,
            events.last(),
        ).round
    }
}

/// The event is of a type.
pub open spec fn has_type(event: JsonView, event_type: Seq<char>) -> bool {
    member(event, "type"@) == Some(JsonView::Str(event_type))
}

/// The event ends a response.
pub open spec fn ends_response(event: JsonView) -> bool {
    has_type(event, "response.completed"@) || has_type(event, "response.failed"@) || has_type(
        event,
        "response.incomplete"@,
    )
}

/// The event opens a response.
pub open spec fn opens_response(event: JsonView) -> bool {
    has_type(event, "response.created"@) || has_type(event, "response.in_progress"@)
}

/// The event adds an item.
pub open spec fn adds_item(event: JsonView) -> bool {
    has_type(event, "response.output_item.added"@)
}

/// The event adds an item that is reasoning.
pub open spec fn adds_thought(event: JsonView) -> bool {
    adds_item(event) && member2(event, "item"@, "type"@) == Some(JsonView::Str("reasoning"@))
}

/// The event adds an item that is held back.
pub open spec fn adds_held(event: JsonView) -> bool {
    adds_item(event) && member2(event, "item"@, "type"@) != Some(JsonView::Str("reasoning"@))
}

/// The event is about an item that was added before, or about none.
pub open spec fn concerns_item(event: JsonView) -> bool {
    !ends_response(event) && !opens_response(event) && !adds_item(event)
}

/// The name of the item that an event is about: that under `item_id`, or else that of its item.
pub open spec fn named_item(event: JsonView) -> Option<Seq<char>> {
    match (member(event, "item_id"@), member2(event, "item"@, "id"@)) {
        (Some(JsonView::Str(id)), _) => Some(id),
        (_, Some(JsonView::Str(id))) => Some(id),
        _ => None,
    }
}

/// The last of the first `n` events that added an item at a place.
pub open spec fn added_at_place(events: Seq<JsonView>, n: int, place: i64) -> Option<int>
    decreases n,
{
    if n <= 0 {
        None
    } else if adds_item(events[n - 1]) && member(events[n - 1], "output_index"@) == Some(
        JsonView::Int(place as int),
    ) {
        Some(n - 1)
    } else {
        added_at_place(events, n - 1, place)
    }
}

/// The last of the first `n` events that added an item of a name.
pub open spec fn added_under_name(events: Seq<JsonView>, n: int, name: Seq<char>) -> Option<int>
    decreases n,
{
    if n <= 0 {
        None
    } else if adds_item(events[n - 1]) && named_item(events[n - 1]) == Some(name) {
        Some(n - 1)
    } else {
        added_under_name(events, n - 1, name)
    }
}

/// The place that an event tells.
pub open spec fn told_place(event: JsonView) -> Option<i64> {
    match member(event, "output_index"@) {
        Some(JsonView::Int(n)) if i64::MIN <= n <= i64::MAX => Some(n as i64),
        _ => None,
    }
}

/// The event, among the first `n`, that added the item that another event is about: the last that
/// added one at its place, or, where none did, the last that added one of its name.
pub open spec fn owner(events: Seq<JsonView>, n: int, event: JsonView) -> Option<int> {
    let by_place = match told_place(event) {
        Some(place) => added_at_place(events, n, place),
        None => None,
    };
    if by_place is Some {
        by_place
    } else {
        match named_item(event) {
            Some(name) => added_under_name(events, n, name),
            None => None,
        }
    }
}

/// The number of items that the first `n` events add and that are held back.
pub open spec fn held_items(events: Seq<JsonView>, n: int) -> int
    decreases n,
{
    if n <= 0 {
        0
    } else {
        held_items(events, n - 1) + if adds_held(events[n - 1]) {
            1int
        } else {
            0int
        }
    }
}

/// The events of the item that the event at `u` added: that event, and behind it those of the
/// first `n` that are about the item, in their order.
pub open spec fn item_events(events: Seq<JsonView>, u: int, n: int) -> Seq<JsonView>
    decreases n - u,
{
    if n <= u + 1 {
        seq![events[u]]
    } else if concerns_item(events[n - 1]) && owner(events, n - 1, events[n - 1]) == Some(u) {
        item_events(events, u, n - 1).push(events[n - 1])
    } else {
        item_events(events, u, n - 1)
    }
}

/// The items of reasoning that are done among the first `n` events, in their order.
pub open spec fn thoughts_done(events: Seq<JsonView>, n: int) -> Seq<JsonView>
    decreases n,
{
    if n <= 0 {
        Seq::empty()
    } else {
        let event = events[n - 1];
        let before = thoughts_done(events, n - 1);
        let added = owner(events, n - 1, event);
        if has_type(event, "response.output_item.done"@) && added is Some && adds_thought(
            events[added->0],
        ) && member(event, "item"@) is Some {
            before.push(member(event, "item"@)->0)
        } else {
            before
        }
    }
}

proof fn lemma_event_types(event: JsonView)
    ensures
        is_opening(event_type_of(event)) <==> opens_response(event),
        is_terminal(event_type_of(event)) <==> ends_response(event),
        event_type_of(event) == "response.output_item.added"@ <==> adds_item(event),
        event_type_of(event) == "response.output_item.done"@ <==> has_type(
            event,
            "response.output_item.done"@,
        ),
        adds_item(event) ==> !opens_response(event) && !ends_response(event) && !has_type(
            event,
            "response.output_item.done"@,
        ),
        opens_response(event) ==> !ends_response(event) && !has_type(
            event,
            "response.output_item.done"@,
        ),
        has_type(event, "response.output_item.done"@) ==> concerns_item(event),
        adds_item(event) ==> (adds_reasoning(event) <==> adds_thought(event)),
        item_id_of(event) == named_item(event),
        member_i64(event, "output_index"@) == told_place(event),
{
    reveal_strlit("");
    reveal_strlit("response.created");
    reveal_strlit("response.in_progress");
    reveal_strlit("response.completed");
    reveal_strlit("response.failed");
    reveal_strlit("response.incomplete");
    reveal_strlit("response.output_item.added");
    reveal_strlit("response.output_item.done");
    assert(""@.len() == 0);
    assert("response.created"@.len() == 16);
    assert("response.in_progress"@.len() == 20);
    assert("response.completed"@.len() == 18);
    assert("response.failed"@.len() == 15);
    assert("response.incomplete"@.len() == 19);
    assert("response.output_item.added"@.len() == 26);
    assert("response.output_item.done"@.len() == 25);
}

proof fn lemma_owner_prefix(events: Seq<JsonView>, more: Seq<JsonView>, n: int, event: JsonView)
    requires
        0 <= n <= events.len(),
        events.len() <= more.len(),
        forall|i: int| 0 <= i < events.len() ==> events[i] == #[trigger] more[i],
    ensures
        owner(more, n, event) == owner(events, n, event),
{
    if let Some(place) = told_place(event) {
        lemma_place_prefix(events, more, n, place);
    }
    if let Some(name) = named_item(event) {
        lemma_name_prefix(events, more, n, name);
    }
}

proof fn lemma_place_prefix(events: Seq<JsonView>, more: Seq<JsonView>, n: int, place: i64)
    requires
        0 <= n <= events.len(),
        events.len() <= more.len(),
        forall|i: int| 0 <= i < events.len() ==> events[i] == #[trigger] more[i],
    ensures
        added_at_place(more, n, place) == added_at_place(events, n, place),
        added_at_place(events, n, place) matches Some(u) ==> 0 <= u < n && adds_item(events[u]),
    decreases n,
{
    if n > 0 {
        assert(events[n - 1] == more[n - 1]);
        lemma_place_prefix(events, more, n - 1, place);
    }
}

proof fn lemma_name_prefix(events: Seq<JsonView>, more: Seq<JsonView>, n: int, name: Seq<char>)
    requires
        0 <= n <= events.len(),
        events.len() <= more.len(),
        forall|i: int| 0 <= i < events.len() ==> events[i] == #[trigger] more[i],
    ensures
        added_under_name(more, n, name) == added_under_name(events, n, name),
        added_under_name(events, n, name) matches Some(u) ==> 0 <= u < n && adds_item(events[u]),
    decreases n,
{
    if n > 0 {
        assert(events[n - 1] == more[n - 1]);
        lemma_name_prefix(events, more, n - 1, name);
    }
}

proof fn lemma_owner_adds(events: Seq<JsonView>, n: int, event: JsonView)
    requires
        0 <= n <= events.len(),
    ensures
        owner(events, n, event) matches Some(u) ==> 0 <= u < n && adds_item(events[u]),
{
    if let Some(place) = told_place(event) {
        lemma_place_prefix(events, events, n, place);
    }
    if let Some(name) = named_item(event) {
        lemma_name_prefix(events, events, n, name);
    }
}

proof fn lemma_counts_prefix(events: Seq<JsonView>, more: Seq<JsonView>, n: int)
    requires
        0 <= n <= events.len(),
        events.len() <= more.len(),
        forall|i: int| 0 <= i < events.len() ==> events[i] == #[trigger] more[i],
    ensures
        held_items(more, n) == held_items(events, n),
        0 <= held_items(events, n) <= n,
        thoughts_done(more, n) == thoughts_done(events, n),
    decreases n,
{
    if n > 0 {
        assert(events[n - 1] == more[n - 1]);
        lemma_counts_prefix(events, more, n - 1);
        lemma_owner_prefix(events, more, n - 1, events[n - 1]);
        lemma_owner_adds(events, n - 1, events[n - 1]);
        let added = owner(events, n - 1, events[n - 1]);
        if added is Some {
            assert(events[added->0] == more[added->0]);
        }
    }
}

proof fn lemma_items_prefix(events: Seq<JsonView>, more: Seq<JsonView>, u: int, n: int)
    requires
        0 <= u < n <= events.len(),
        events.len() <= more.len(),
        forall|i: int| 0 <= i < events.len() ==> events[i] == #[trigger] more[i],
    ensures
        item_events(more, u, n) == item_events(events, u, n),
    decreases n,
{
    assert(events[u] == more[u]);
    if n > u + 1 {
        assert(events[n - 1] == more[n - 1]);
        lemma_items_prefix(events, more, u, n - 1);
        lemma_owner_prefix(events, more, n - 1, events[n - 1]);
    }
}

proof fn lemma_held_items_grow(events: Seq<JsonView>, u: int, n: int)
    requires
        0 <= u < n <= events.len(),
        adds_held(events[u]),
    ensures
        held_items(events, u) < held_items(events, n),
    decreases n,
{
    if n == u + 1 {
    } else {
        lemma_held_items_grow(events, u, n - 1);
    }
}

proof fn lemma_held_items_differ(events: Seq<JsonView>, u: int, w: int)
    requires
        0 <= u < w < events.len(),
        adds_held(events[u]),
    ensures
        held_items(events, u) < held_items(events, w),
{
    lemma_held_items_grow(events, u, w);
}

/// What becomes of the item that an event added.
spec fn fate(events: Seq<JsonView>, u: int) -> ItemDisposition {
    if adds_thought(events[u]) {
        ItemDisposition::Reasoning
    } else {
        ItemDisposition::Buffered(held_items(events, u) as usize)
    }
}

spec fn opt_fate(events: Seq<JsonView>, u: Option<int>) -> Option<ItemDisposition> {
    match u {
        Some(u) => Some(fate(events, u)),
        None => None,
    }
}

spec fn lookup_place(d: DispositionsView, place: i64) -> Option<ItemDisposition> {
    if d.by_output_index.contains_key(place) {
        Some(d.by_output_index[place])
    } else {
        None
    }
}

spec fn lookup_name(d: DispositionsView, name: Seq<char>) -> Option<ItemDisposition> {
    if d.by_item_id.contains_key(name) {
        Some(d.by_item_id[name])
    } else {
        None
    }
}

spec fn in_order_so_far(events: Seq<JsonView>, round: RoundView) -> bool {
    let n = events.len() as int;
    &&& round.buffered_events.len() == held_items(events, n)
    &&& forall|place: i64| #[trigger]
        lookup_place(round.dispositions, place) == opt_fate(
            events,
            added_at_place(events, n, place),
        )
    &&& forall|name: Seq<char>| #[trigger]
        lookup_name(round.dispositions, name) == opt_fate(
            events,
            added_under_name(events, n, name),
        )
    &&& forall|u: int|
        0 <= u < n && adds_held(#[trigger] events[u])
            ==> round.buffered_events[held_items(events, u)] == item_events(events, u, n)
    &&& round.reasoning_items == thoughts_done(events, n)
    &&& round.terminal is None
}

proof fn lemma_disposition(events: Seq<JsonView>, round: RoundView, event: JsonView)
    requires
        in_order_so_far(events, round),
    ensures
        disposition_of(round.dispositions, event) == opt_fate(
            events,
            owner(events, events.len() as int, event),
        ),
{
    lemma_event_types(event);
    let n = events.len() as int;
    let d = round.dispositions;
    if let Some(place) = told_place(event) {
        assert(lookup_place(d, place) == opt_fate(events, added_at_place(events, n, place)));
    }
    if let Some(name) = named_item(event) {
        assert(lookup_name(d, name) == opt_fate(events, added_under_name(events, n, name)));
    }
}

proof fn lemma_fates_prefix(events: Seq<JsonView>, more: Seq<JsonView>, u: Option<int>)
    requires
        events.len() <= more.len(),
        forall|i: int| 0 <= i < events.len() ==> events[i] == #[trigger] more[i],
        u matches Some(u) ==> 0 <= u < events.len(),
    ensures
        opt_fate(more, u) == opt_fate(events, u),
{
    if let Some(u) = u {
        lemma_counts_prefix(events, more, u);
        assert(events[u] == more[u]);
    }
}

proof fn lemma_in_order(events: Seq<JsonView>, round_number: int)
    requires
        events.len() <= usize::MAX,
        forall|i: int| 0 <= i < events.len() ==> !ends_response(#[trigger] events[i]),
    ensures
        in_order_so_far(events, round_after(events, round_number)),
    decreases events.len(),
{
    let n = events.len() as int;
    if n == 0 {
        let round = new_round();
        assert forall|place: i64| #[trigger]
            lookup_place(round.dispositions, place) == opt_fate(
                events,
                added_at_place(events, n, place),
            ) by {}
        assert forall|name: Seq<char>| #[trigger]
            lookup_name(round.dispositions, name) == opt_fate(
                events,
                added_under_name(events, n, name),
            ) by {}
    } else {
        let before = events.drop_last();
        let event = events.last();
        assert(event == events[n - 1]);
        assert forall|i: int| 0 <= i < before.len() implies before[i] == #[trigger] events[i] by {}
        assert forall|i: int| 0 <= i < before.len() implies !ends_response(#[trigger] before[i]) by {
            assert(!ends_response(events[i]));
        }
        lemma_in_order(before, round_number);
        let s = round_after(before, round_number);
        let round = round_after(events, round_number);
        lemma_event_types(event);
        lemma_disposition(before, s, event);
        lemma_owner_prefix(before, events, n - 1, event);
        lemma_owner_adds(before, n - 1, event);
        lemma_counts_prefix(before, events, n - 1);
        let added = owner(before, n - 1, event);
        lemma_fates_prefix(before, events, added);
        if added is Some {
            assert(before[added->0] == events[added->0]);
            lemma_counts_prefix(before, events, added->0);
            if adds_held(before[added->0]) {
                lemma_held_items_grow(before, added->0, n - 1);
            }
        }
        assert forall|place: i64| #[trigger]
            lookup_place(round.dispositions, place) == opt_fate(
                events,
                added_at_place(events, n, place),
            ) by {
            assert(lookup_place(s.dispositions, place) == opt_fate(
                before,
                added_at_place(before, n - 1, place),
            ));
            lemma_place_prefix(before, events, n - 1, place);
            lemma_fates_prefix(before, events, added_at_place(before, n - 1, place));
        }
        assert forall|name: Seq<char>| #[trigger]
            lookup_name(round.dispositions, name) == opt_fate(
                events,
                added_under_name(events, n, name),
            ) by {
            assert(lookup_name(s.dispositions, name) == opt_fate(
                before,
                added_under_name(before, n - 1, name),
            ));
            lemma_name_prefix(before, events, n - 1, name);
            lemma_fates_prefix(before, events, added_under_name(before, n - 1, name));
        }
        assert forall|u: int| 0 <= u < n && adds_held(
            #[trigger] events[u],
        ) implies round.buffered_events[held_items(events, u)] == item_events(events, u, n) by {
            lemma_counts_prefix(before, events, u);
            if u < n - 1 {
                assert(before[u] == events[u]);
                assert(s.buffered_events[held_items(before, u)] == item_events(before, u, n - 1));
                lemma_items_prefix(before, events, u, n - 1);
                lemma_held_items_grow(before, u, n - 1);
                if concerns_item(event) && added is Some && adds_held(before[added->0]) {
                    if added->0 < u {
                        lemma_held_items_differ(before, added->0, u);
                    } else if added->0 > u {
                        lemma_held_items_differ(before, u, added->0);
                    }
                }
            }
        }
    }
}

/// The events of a round are sorted by their items, whatever comes between them. Each item that is
/// held back has a list of its own, in the order in which the items were added. The list begins
/// with the event that added the item, and goes on with every event about that item, in the order
/// in which they came, and with no other. The reasoning that is kept is that of the items of
/// reasoning that are done, in their order.
pub proof fn events_stay_with_their_items(events: Seq<JsonView>, round_number: int)
    requires
        events.len() <= usize::MAX,
        forall|i: int| 0 <= i < events.len() ==> !ends_response(#[trigger] events[i]),
    ensures
        ({
            let round = round_after(events, round_number);
            let n = events.len() as int;
            &&& round.buffered_events.len() == held_items(events, n)
            &&& forall|u: int|
                0 <= u < n && adds_held(#[trigger] events[u])
                    ==> round.buffered_events[held_items(events, u)] == item_events(events, u, n)
            &&& round.reasoning_items == thoughts_done(events, n)
            &&& round.terminal is None
        }),
{
    lemma_in_order(events, round_number);
}

/// An event goes out at once where it opens the response in the first round, adds an item of
/// reasoning, is about one, or is about no item that was added. It is held back where it adds
/// another item or is about one. One that opens a later round is dropped. One that ends the
/// response ends the round, is kept, and tells the usage; nothing else ends it.
pub proof fn events_go_out_or_are_held(
    events: Seq<JsonView>,
    round_number: int,
    event: JsonView,
)
    requires
        events.len() < usize::MAX,
        forall|i: int| 0 <= i < events.len() ==> !ends_response(#[trigger] events[i]),
    ensures
        ({
            let effect = round_step(round_after(events, round_number), round_number, event);
            let added = owner(events, events.len() as int, event);
            let goes_out = {
                ||| opens_response(event) && round_number == 1
                ||| adds_thought(event)
                ||| concerns_item(event) && (added is None || adds_thought(events[added->0]))
            };
            &&& effect.sent == (if goes_out {
                Some(event)
            } else {
                None
            })
            &&& effect.done <==> ends_response(event)
            &&& ends_response(event) ==> effect.round.terminal == Some(event)
                && effect.round.usage == member2(event, "response"@, "usage"@)
                && effect.round.buffered_events == round_after(
                events,
                round_number,
            ).buffered_events && effect.round.reasoning_items == round_after(
                events,
                round_number,
            ).reasoning_items
        }),
{
    lemma_in_order(events, round_number);
    lemma_event_types(event);
    lemma_disposition(events, round_after(events, round_number), event);
    lemma_owner_adds(events, events.len() as int, event);
}

/// What was held back goes out when the last round has ended: each list after the other, each
/// event as its message, and the terminal event behind them.
pub proof fn held_events_go_out_in_order(f: FoldView, round: RoundView)
    requires
        all_typed(round.buffered_events.flatten()),
    ensures
        ({
            let held = round.buffered_events.flatten();
            let (sent, error) = finish_of(f, round);
            &&& forall|i: int|
                0 <= i < held.len() ==> i < sent.len() && Some(#[trigger] sent[i]) == event_bytes(
                    held[i],
                )
            &&& round.terminal is None ==> sent.len() == held.len() && error is None
            &&& round.terminal is Some && error is None ==> sent.len() == held.len() + 1
            &&& round.terminal is Some && error is None && f.hidden_rounds_taken == 0 ==> Some(
                sent.last(),
            ) == event_bytes(round.terminal->0)
            &&& error is Some ==> sent.len() == held.len()
        }),
{
    lemma_sent_each(round.buffered_events.flatten());
}

proof fn lemma_sent_each(events: Seq<JsonView>)
    requires
        all_typed(events),
    ensures
        sent_of(events).len() == events.len(),
        forall|i: int|
            0 <= i < events.len() ==> Some(#[trigger] sent_of(events)[i]) == event_bytes(events[i]),
    decreases events.len(),
{
    if events.len() > 0 {
        let rest = events.skip(1);
        assert forall|i: int| 0 <= i < rest.len() implies event_bytes(
            #[trigger] rest[i],
        ) is Some by {
            assert(rest[i] == events[i + 1]);
        }
        lemma_sent_each(rest);
        assert forall|i: int| 0 <= i < events.len() implies Some(#[trigger] sent_of(events)[i])
            == event_bytes(events[i]) by {
            if i > 0 {
                assert(sent_of(events)[i] == sent_of(rest)[i - 1]);
                assert(rest[i - 1] == events[i]);
            }
        }
    }
}

/// The last event of a folded response is that of its last round with one change: where rounds
/// were hidden, the usage of the response is that of all rounds. Everything else in it stays.
pub proof fn only_the_usage_is_rewritten(
    f: FoldView,
    round: RoundView,
    terminal: JsonView,
    name: Seq<char>,
    inner: Seq<char>,
)
    ensures
        ({
            let closing = closing_event(f, round, terminal);
            let response = member(terminal, "response"@);
            &&& name != "response"@ ==> member(closing, name) == member(terminal, name)
            &&& inner != "usage"@ ==> member2(closing, "response"@, inner) == member2(
                terminal,
                "response"@,
                inner,
            )
            &&& f.hidden_rounds_taken > 0 && response is Some && response->0 is Object ==> member2(
                closing,
                "response"@,
                "usage"@,
            ) == Some(reconstructed_usage(f.first_usage, f.total_usage, round.usage))
            &&& f.hidden_rounds_taken <= 0 ==> closing == terminal
        }),
{
}

/// Counting a round keeps the usage of the first that told one, adds the round's to the sums, and
/// leaves the rest.
pub proof fn rounds_are_counted(f: FoldView, round: RoundView)
    ensures
        ({
            let after = count_round(f, round);
            &&& f.first_usage is Some ==> after.first_usage == f.first_usage
            &&& f.first_usage is None ==> after.first_usage == round.usage
            &&& after.total_usage == summed_usage(f.total_usage, round.usage)
            &&& after.round_number == f.round_number
            &&& after.replay_tail == f.replay_tail
            &&& after.hidden_rounds_taken == f.hidden_rounds_taken
        }),
{
}

/// A round that is followed by another hands its reasoning on: the next request repeats all
/// reasoning so far, that of this round last, with the wish for more behind it. From then on that
/// is what is repeated, one more round is hidden, and the next number is counted.
pub proof fn reasoning_is_handed_on(
    f: FoldView,
    config: ContinueThinkingConfig,
    base: Map<Seq<char>, JsonView>,
    round: RoundView,
)
    ensures
        ({
            let tail = (f.replay_tail + round.reasoning_items).push(
                commentary_view(config.message@),
            );
            let after = enter_next_round(f, config, round);
            let inputs = field(base, "input"@);
            let encrypted = exists|i: int|
                0 <= i < round.reasoning_items.len() && (#[trigger] member(
                    round.reasoning_items[i],
                    "encrypted_content"@,
                ) matches Some(JsonView::Str(_)));
            let tokens = reasoning_tokens_of(round.usage);
            let wanted = config.enabled && f.round_number <= config.max_extra_rounds && encrypted
                && tokens is Some && tokens->0 >= 516 && (tokens->0 + 2) % 518 == 0;
            let request = continuation(f, config, base, round);
            &&& after.replay_tail == tail
            &&& after.round_number == f.round_number + 1
            &&& after.hidden_rounds_taken == f.hidden_rounds_taken + 1
            &&& after.first_usage == f.first_usage
            &&& after.total_usage == f.total_usage
            &&& request is Some <==> wanted && inputs is Some && inputs->0 is Array
            &&& request is Some ==> field(request->0, "input"@) == Some(
                JsonView::Array(inputs->0->Array_0 + tail),
            )
        }),
{
    reveal_strlit("input");
    reveal_strlit("include");
    reveal_strlit("previous_response_id");
    assert("input"@.len() == 5 && "include"@.len() == 7 && "previous_response_id"@.len() == 20);
    let items = round.reasoning_items;
    if has_encrypted(items) {
        let i = choose|i: int| 0 <= i < items.len() && is_encrypted_item(#[trigger] items[i]);
        assert(member(items[i], "encrypted_content"@) matches Some(JsonView::Str(_)));
    }
    if exists|i: int|
        0 <= i < items.len() && (#[trigger] member(items[i], "encrypted_content"@) matches Some(
            JsonView::Str(_),
        )) {
        let i = choose|i: int|
            0 <= i < items.len() && (#[trigger] member(
                items[i],
                "encrypted_content"@,
            ) matches Some(JsonView::Str(_)));
        assert(is_encrypted_item(items[i]));
    }
}

/// The documents that the messages of a stream hold, in their order.
pub open spec fn documents_in(lines: Seq<Seq<char>>) -> Seq<JsonView>
    decreases lines.len(),
{
    let (message, rest) = next_message(fresh(), lines);
    proof {
        sse::message_takes_lines(fresh(), lines);
    }
    match message {
        None => Seq::empty(),
        Some(m) => match message_json(m) {
            None => documents_in(rest),
            Some(event) => seq![event] + documents_in(rest),
        },
    }
}

/// The number of events up to the first that ends the response, with that one.
pub open spec fn events_read(events: Seq<JsonView>) -> int
    decreases events.len(),
{
    if events.len() == 0 {
        0
    } else if ends_response(events[0]) {
        1
    } else {
        1 + events_read(events.skip(1))
    }
}

/// The messages of the events that go out at once, in their order.
pub open spec fn sent_at_once(events: Seq<JsonView>, round_number: int) -> Seq<Seq<u8>>
    decreases events.len(),
{
    if events.len() == 0 {
        Seq::empty()
    } else {
        let before = events.drop_last();
        let effect = round_step(round_after(before, round_number), round_number, events.last());
        match effect.sent {
            Some(event) => sent_at_once(before, round_number).push(event_bytes(event)->0),
            None => sent_at_once(before, round_number),
        }
    }
}

proof fn lemma_run_reads(
    read: Seq<JsonView>,
    round_number: int,
    lines: Seq<Seq<char>>,
)
    requires
        all_typed(documents_in(lines)),
    ensures
        ({
            let events = documents_in(lines);
            let n = events_read(events);
            let all = read + events.take(n);
            let run = run_round(
                round_after(read, round_number),
                round_number,
                lines,
                sent_at_once(read, round_number),
            );
            &&& 0 <= n <= events.len()
            &&& run.round == Some(round_after(all, round_number))
            &&& run.sent == sent_at_once(all, round_number)
        }),
    decreases lines.len(),
{
    let (message, rest) = next_message(fresh(), lines);
    sse::message_takes_lines(fresh(), lines);
    let events = documents_in(lines);
    match message {
        None => {
            assert(read + events.take(0) =~= read);
        },
        Some(m) => match message_json(m) {
            None => {
                lemma_run_reads(read, round_number, rest);
            },
            Some(event) => {
                let later = documents_in(rest);
                assert(events == seq![event] + later);
                assert(events[0] == event);
                assert(events.skip(1) =~= later);
                assert(event_bytes(events[0]) is Some);
                lemma_event_types(event);
                let more = read.push(event);
                assert(more.drop_last() =~= read);
                assert(more.last() == event);
                let effect = round_step(round_after(read, round_number), round_number, event);
                each_event_has_one_fate(round_after(read, round_number), round_number, event);
                assert(round_after(more, round_number) == effect.round);
                if ends_response(event) {
                    assert(read + events.take(1) =~= more);
                } else {
                    assert forall|i: int| 0 <= i < later.len() implies event_bytes(
                        #[trigger] later[i],
                    ) is Some by {
                        assert(later[i] == events[i + 1]);
                    }
                    lemma_run_reads(more, round_number, rest);
                    let n = events_read(later);
                    assert(read + events.take(n + 1) =~= more + later.take(n));
                }
            },
        },
    }
}

/// A round is read up to the event that ends the response, or to the end of its lines: where it
/// stands is what its events have done up to there, one after the other, and what has gone out is
/// the messages of those that go out at once, in their order. Messages without a document count
/// for nothing.
pub proof fn rounds_are_read_to_their_end(lines: Seq<Seq<char>>, round_number: int)
    requires
        all_typed(documents_in(lines)),
    ensures
        ({
            let events = documents_in(lines);
            let n = events_read(events);
            let run = run_round(new_round(), round_number, lines, Seq::empty());
            &&& 0 <= n <= events.len()
            &&& run.round == Some(round_after(events.take(n), round_number))
            &&& run.sent == sent_at_once(events.take(n), round_number)
            &&& forall|i: int| 0 <= i < n - 1 ==> !ends_response(#[trigger] events[i])
            &&& n < events.len() ==> n > 0 && ends_response(events[n - 1])
        }),
{
    let events = documents_in(lines);
    lemma_run_reads(Seq::empty(), round_number, lines);
    lemma_events_read(events);
    assert(Seq::<JsonView>::empty() + events.take(events_read(events)) =~= events.take(
        events_read(events),
    ));
}

proof fn lemma_events_read(events: Seq<JsonView>)
    ensures
        0 <= events_read(events) <= events.len(),
        forall|i: int| 0 <= i < events_read(events) - 1 ==> !ends_response(#[trigger] events[i]),
        events_read(events) < events.len() ==> events_read(events) > 0 && ends_response(
            events[events_read(events) - 1],
        ),
    decreases events.len(),
{
    if events.len() > 0 && !ends_response(events[0]) {
        let rest = events.skip(1);
        lemma_events_read(rest);
        assert forall|i: int| 0 <= i < events_read(events) - 1 implies !ends_response(
            #[trigger] events[i],
        ) by {
            if i > 0 {
                assert(rest[i - 1] == events[i]);
            }
        }
        if events_read(events) < events.len() {
            assert(rest[events_read(rest) - 1] == events[events_read(events) - 1]);
        }
    }
}

/// When the last round has ended, what was held back goes out, and the terminal event behind it
/// where there is one. That stops short only at an event without a type, or where the usage of
/// several rounds is to be told in the response and does not fit.
pub proof fn folds_end_with_what_was_held(f: FoldView, round: RoundView)
    ensures
        ({
            let (sent, error) = finish_of(f, round);
            let held = sent_of(round.buffered_events.flatten());
            let typed = all_typed(round.buffered_events.flatten());
            &&& !typed ==> sent == held && error == Some(FoldError::MissingType)
            &&& typed && round.terminal is None ==> sent == held && error is None
            &&& (round.terminal matches Some(terminal) ==> {
                let told = f.hidden_rounds_taken > 0 && member(terminal, "response"@) is Some
                    && member(terminal, "response"@)->0 is Object;
                let fits = reconstruction_fits(f.first_usage, f.total_usage, round.usage);
                let bytes = event_bytes(closing_event(f, round, terminal));
                &&& typed && told && !fits ==> sent == held && error == Some(
                    FoldError::UsageOverflow,
                )
                &&& typed && (!told || fits) && bytes is Some ==> sent == held.push(bytes->0)
                    && error is None
                &&& typed && (!told || fits) && bytes is None ==> sent == held && error == Some(
                    FoldError::MissingType,
                )
            })
        }),
{
}

/// Bytes go out exactly where an event does, and are those of the event.
pub proof fn bytes_go_out_with_their_event(event: JsonView, bytes: Vec<u8>)
    ensures
        bytes_match(None, None),
        !bytes_match(None, Some(bytes)),
        !bytes_match(Some(event), None),
        bytes_match(Some(event), Some(bytes)) <==> event_bytes(event) == Some(bytes@),
{
}

} // verus!
