//! Rules for continuing a response whose reasoning was cut short: which requests and responses
//! qualify, what the next request holds, and how the usage of several rounds adds up.

use vstd::prelude::*;

use crate::json::{
    self, field, i64_of, items_view, items_view_index, items_view_push, member, member2, member_i64,
    opt_view, Json, JsonObject, JsonView,
};
use crate::text::{self, contains_text};

verus! {

/// What a request names under `include` to get the reasoning back in encrypted form.
pub const ENCRYPTED_REASONING_INCLUDE: &'static str = "reasoning.encrypted_content";

/// Reasoning that was cut short ends two tokens short of a multiple of this.
pub const DEFAULT_TRUNCATION_STEP: i64 = 518;

/// Whether and how far responses are continued.
#[derive(Clone, Debug, PartialEq, Eq)]
pub struct ContinueThinkingConfig {
    pub enabled: bool,
    pub message: String,
    pub max_extra_rounds: usize,
}

/// The response to a request for more is a stream of events, and a success.
pub open spec fn is_continuation(status: u16, content_type: Option<Seq<char>>) -> bool {
    200 <= status < 300 && (content_type matches Some(t) && contains_text(
        t,
        "text/event-stream"@,
    ))
}

/// Whether the response to a request for more is taken as a further round, given its status and
/// the kind of its content, where that is told.
pub fn accepts_continuation(status: u16, content_type: Option<&str>) -> (r: bool)
    ensures
        r == is_continuation(status, json::opt_str(content_type)),
{
    match content_type {
        Some(t) => 200 <= status && status < 300 && text::contains(t, "text/event-stream"),
        None => false,
    }
}

/// A streamed request with a list of inputs, not one that turned reasoning off.
pub open spec fn is_candidate(enabled: bool, body: JsonView) -> bool {
    &&& enabled
    &&& body is Object
    &&& member(body, "stream"@) == Some(JsonView::Bool(true))
    &&& member(body, "reasoning"@) != Some(JsonView::Bool(false))
    &&& member(body, "input"@) matches Some(JsonView::Array(_))
}

impl ContinueThinkingConfig {
    /// Whether the response to a request may be continued.
    pub fn is_candidate_request(&self, body: &Json) -> (r: bool)
        ensures
            r == is_candidate(self.enabled, body@),
    {
        let streams = match body.get("stream") {
            Some(value) => match value.as_bool() {
                Some(b) => b,
                None => false,
            },
            None => false,
        };
        let refuses = match body.get("reasoning") {
            Some(value) => match value.as_bool() {
                Some(b) => !b,
                None => false,
            },
            None => false,
        };
        let lists = match body.get("input") {
            Some(value) => value.as_array().is_some(),
            None => false,
        };
        self.enabled && body.as_object().is_some() && streams && !refuses && lists
    }
}

/// The number of reasoning tokens at which responses are cut short.
pub open spec fn truncation_pattern(reasoning_tokens: Option<i64>) -> bool {
    match reasoning_tokens {
        Some(n) => n >= DEFAULT_TRUNCATION_STEP - 2 && (n + 2) % DEFAULT_TRUNCATION_STEP as int
            == 0,
        None => false,
    }
}

/// Whether a response shows the number of reasoning tokens at which responses are cut short.
pub fn is_truncation_pattern(reasoning_tokens: Option<i64>) -> (r: bool)
    ensures
        r == truncation_pattern(reasoning_tokens),
{
    match reasoning_tokens {
        Some(n) => n >= DEFAULT_TRUNCATION_STEP - 2 && n % DEFAULT_TRUNCATION_STEP
            == DEFAULT_TRUNCATION_STEP - 2,
        None => false,
    }
}

/// A round is followed by another while rounds are left, its reasoning was cut short, and the
/// reasoning can be handed back.
pub open spec fn continues(
    config: ContinueThinkingConfig,
    reasoning_tokens: Option<i64>,
    round_number: int,
    has_encrypted_reasoning: bool,
) -> bool {
    &&& config.enabled
    &&& round_number <= config.max_extra_rounds
    &&& has_encrypted_reasoning
    &&& truncation_pattern(reasoning_tokens)
}

/// Whether a round is followed by another.
pub fn should_continue(
    config: &ContinueThinkingConfig,
    reasoning_tokens: Option<i64>,
    round_number: usize,
    has_encrypted_reasoning: bool,
) -> (r: bool)
    ensures
        r == continues(
            *config,
            reasoning_tokens,
            round_number as int,
            has_encrypted_reasoning,
        ),
{
    config.enabled && round_number <= config.max_extra_rounds && has_encrypted_reasoning
        && is_truncation_pattern(reasoning_tokens)
}

// ---------------------------------------------------------------------------------------------
// The next request
// ---------------------------------------------------------------------------------------------

/// The list under `include` with the encrypted reasoning named in it, at the end where it was
/// not named yet.
pub open spec fn merged_include(body: Map<Seq<char>, JsonView>) -> Seq<JsonView> {
    let listed_names = match field(body, "include"@) {
        Some(JsonView::Array(s)) => s,
        _ => Seq::empty(),
    };
    let wanted = JsonView::Str(ENCRYPTED_REASONING_INCLUDE@);
    if listed_names.contains(wanted) {
        listed_names
    } else {
        listed_names.push(wanted)
    }
}

/// Names the encrypted reasoning in a request's `include` list.
pub fn merge_include_with_encrypted_reasoning(body: &JsonObject) -> (r: Json)
    ensures
        r@ == JsonView::Array(merged_include(body@)),
{
    let mut listed_names: Vec<Json> = match body.get("include") {
        Some(value) => match value.as_array() {
            Some(items) => json::duplicate_all(items),
            None => Vec::new(),
        },
        None => Vec::new(),
    };
    let ghost listed = items_view(listed_names@);
    let ghost wanted = JsonView::Str(ENCRYPTED_REASONING_INCLUDE@);
    proof {
        items_view_index(listed_names@);
    }
    let mut already_present = false;
    let mut i: usize = 0;
    while i < listed_names.len()
        invariant
            i <= listed_names.len(),
            listed == items_view(listed_names@),
            wanted == JsonView::Str(ENCRYPTED_REASONING_INCLUDE@),
            already_present == exists|k: int| 0 <= k < i && #[trigger] listed[k] == wanted,
        decreases listed_names.len() - i,
    {
        proof {
            items_view_index(listed_names@);
            assert(listed[i as int] == listed_names@[i as int]@);
        }
        if let Some(s) = listed_names[i].as_str() {
            if text::str_eq(s, ENCRYPTED_REASONING_INCLUDE) {
                assert(listed[i as int] == wanted);
                already_present = true;
            }
        }
        i += 1;
    }
    if !already_present {
        let wanted_item = Json::string(ENCRYPTED_REASONING_INCLUDE);
        proof {
            items_view_push(listed_names@, wanted_item);
        }
        listed_names.push(wanted_item);
    }
    Json::Array(listed_names)
}

/// The message that asks for more thinking.
pub open spec fn commentary_view(message: Seq<char>) -> JsonView {
    JsonView::Object(
        map![
            "type"@ => JsonView::Str("message"@),
            "role"@ => JsonView::Str("assistant"@),
            "phase"@ => JsonView::Str("commentary"@),
            "content"@ => JsonView::Array(seq![JsonView::Object(map![
                "type"@ => JsonView::Str("output_text"@),
                "text"@ => JsonView::Str(message),
            ])]),
        ],
    )
}

/// A commentary message of the assistant with the given text.
pub fn commentary_message(message: &str) -> (r: Json)
    ensures
        r@ == commentary_view(message@),
{
    let mut part = JsonObject::new();
    part.insert(text::owned("type"), Json::string("output_text"));
    part.insert(text::owned("text"), Json::string(message));
    let mut content: Vec<Json> = Vec::new();
    content.push(Json::Object(part));
    proof {
        items_view_index(content@);
        assert(items_view(content@) =~= seq![JsonView::Object(part@)]);
    }
    let mut o = JsonObject::new();
    o.insert(text::owned("type"), Json::string("message"));
    o.insert(text::owned("role"), Json::string("assistant"));
    o.insert(text::owned("phase"), Json::string("commentary"));
    o.insert(text::owned("content"), Json::Array(content));
    Json::Object(o)
}

/// The request for the next round: the first request with what was said since at the end of its
/// inputs, the encrypted reasoning asked for, and no earlier response to go on from.
pub open spec fn next_round_body(
    base: Map<Seq<char>, JsonView>,
    replay_tail: Seq<JsonView>,
) -> Option<Map<Seq<char>, JsonView>> {
    match field(base, "input"@) {
        Some(JsonView::Array(input)) => Some(
            base.insert("input"@, JsonView::Array(input + replay_tail)).insert(
                "include"@,
                JsonView::Array(merged_include(base)),
            ).remove("previous_response_id"@),
        ),
        _ => None,
    }
}

/// Appends documents to a list.
pub fn extend_with(list: &mut Vec<Json>, more: &Vec<Json>)
    ensures
        items_view(final(list)@) == items_view(old(list)@) + items_view(more@),
{
    let ghost start = items_view(list@);
    let mut i: usize = 0;
    assert(items_view(more@.take(0)) =~= Seq::empty());
    assert(start + Seq::<JsonView>::empty() =~= start);
    while i < more.len()
        invariant
            i <= more.len(),
            items_view(list@) == start + items_view(more@.take(i as int)),
        decreases more.len() - i,
    {
        let item = more[i].duplicate();
        proof {
            items_view_push(list@, item);
            assert(more@.take(i + 1) =~= more@.take(i as int).push(more@[i as int]));
            items_view_push(more@.take(i as int), more@[i as int]);
            assert((start + items_view(more@.take(i as int))).push(item@) =~= start + items_view(
                more@.take(i as int),
            ).push(item@));
        }
        list.push(item);
        i += 1;
    }
    assert(more@.take(more.len() as int) =~= more@);
}

/// Makes the request for the next round. There is none where the first request has no list of
/// inputs.
pub fn build_next_round_body(base_body: &JsonObject, replay_tail: &Vec<Json>) -> (r: Option<Json>)
    ensures
        match r {
            Some(body) => next_round_body(base_body@, items_view(replay_tail@)) matches Some(m)
                && body@ == JsonView::Object(m),
            None => next_round_body(base_body@, items_view(replay_tail@)) is None,
        },
{
    match base_body.get("input") {
        Some(input) => match input.as_array() {
            Some(items) => {
                let mut next_input = json::duplicate_all(items);
                extend_with(&mut next_input, replay_tail);
                let mut next_body = base_body.duplicate();
                next_body.insert(text::owned("input"), Json::Array(next_input));
                next_body.insert(
                    text::owned("include"),
                    merge_include_with_encrypted_reasoning(base_body),
                );
                next_body.remove("previous_response_id");
                Some(Json::Object(next_body))
            },
            None => None,
        },
        None => None,
    }
}

// ---------------------------------------------------------------------------------------------
// Usage
// ---------------------------------------------------------------------------------------------

/// The `i64` under `inner` under `outer`.
pub open spec fn nested_i64(v: JsonView, outer: Seq<char>, inner: Seq<char>) -> Option<i64> {
    match member2(v, outer, inner) {
        Some(m) => i64_of(m),
        None => None,
    }
}

/// The number, or zero where there is none.
pub open spec fn or_zero(n: Option<i64>) -> int {
    match n {
        Some(n) => n as int,
        None => 0,
    }
}

/// The reasoning tokens that a response's usage tells of.
pub open spec fn reasoning_tokens_of(usage: Option<JsonView>) -> Option<i64> {
    match usage {
        Some(u) => nested_i64(u, "output_tokens_details"@, "reasoning_tokens"@),
        None => None,
    }
}

/// Reads the reasoning tokens out of a response's usage.
pub fn reasoning_tokens_from_usage(usage: Option<&Json>) -> (r: Option<i64>)
    ensures
        r == reasoning_tokens_of(opt_view(usage)),
{
    match usage {
        Some(usage) => match usage.get2("output_tokens_details", "reasoning_tokens") {
            Some(value) => value.as_i64(),
            None => None,
        },
        None => None,
    }
}

/// A number fits in an `i64`.
pub open spec fn fits(n: int) -> bool {
    i64::MIN <= n <= i64::MAX
}

/// What the usage adds under `key`.
pub open spec fn top_delta(usage: Map<Seq<char>, JsonView>, key: Seq<char>) -> Option<i64> {
    match field(usage, key) {
        Some(v) => i64_of(v),
        None => None,
    }
}

/// The sum under `key` with `delta` added to it.
pub open spec fn top_sum(acc: Map<Seq<char>, JsonView>, key: Seq<char>, delta: int) -> int {
    or_zero(top_delta(acc, key)) + delta
}

/// The sums with what the usage has under `key` added to them.
pub open spec fn add_top(
    acc: Map<Seq<char>, JsonView>,
    usage: Map<Seq<char>, JsonView>,
    key: Seq<char>,
) -> Map<Seq<char>, JsonView> {
    match top_delta(usage, key) {
        Some(delta) => acc.insert(key, JsonView::Int(top_sum(acc, key, delta as int))),
        None => acc,
    }
}

/// Adding what the usage has under `key` stays within an `i64`.
pub open spec fn add_top_fits(
    acc: Map<Seq<char>, JsonView>,
    usage: Map<Seq<char>, JsonView>,
    key: Seq<char>,
) -> bool {
    top_delta(usage, key) matches Some(delta) ==> fits(top_sum(acc, key, delta as int))
}

/// What the usage adds under `inner` under `outer`.
pub open spec fn nested_delta(
    usage: Map<Seq<char>, JsonView>,
    outer: Seq<char>,
    inner: Seq<char>,
) -> Option<i64> {
    nested_i64(JsonView::Object(usage), outer, inner)
}

/// The object under `outer`, which starts empty.
pub open spec fn nested_sums(acc: Map<Seq<char>, JsonView>, outer: Seq<char>) -> Option<
    Map<Seq<char>, JsonView>,
> {
    match field(acc, outer) {
        Some(JsonView::Object(o)) => Some(o),
        Some(_) => None,
        None => Some(Map::empty()),
    }
}

/// The sums with what the usage has under `inner` under `outer` added to them. What stands under
/// `outer` is left alone where it is not an object.
pub open spec fn add_nested(
    acc: Map<Seq<char>, JsonView>,
    usage: Map<Seq<char>, JsonView>,
    outer: Seq<char>,
    inner: Seq<char>,
) -> Map<Seq<char>, JsonView> {
    match (nested_delta(usage, outer, inner), nested_sums(acc, outer)) {
        (Some(delta), Some(o)) => acc.insert(
            outer,
            JsonView::Object(o.insert(inner, JsonView::Int(top_sum(o, inner, delta as int)))),
        ),
        _ => acc,
    }
}

/// Adding what the usage has under `inner` under `outer` stays within an `i64`.
pub open spec fn add_nested_fits(
    acc: Map<Seq<char>, JsonView>,
    usage: Map<Seq<char>, JsonView>,
    outer: Seq<char>,
    inner: Seq<char>,
) -> bool {
    match (nested_delta(usage, outer, inner), nested_sums(acc, outer)) {
        (Some(delta), Some(o)) => fits(top_sum(o, inner, delta as int)),
        _ => true,
    }
}

/// The sums with a response's usage added to them.
pub open spec fn summed_usage(
    acc: Map<Seq<char>, JsonView>,
    usage: Option<JsonView>,
) -> Map<Seq<char>, JsonView> {
    match usage {
        Some(JsonView::Object(u)) => {
            let acc = add_top(acc, u, "input_tokens"@);
            let acc = add_top(acc, u, "output_tokens"@);
            let acc = add_top(acc, u, "total_tokens"@);
            let acc = add_nested(acc, u, "input_tokens_details"@, "cached_tokens"@);
            add_nested(acc, u, "output_tokens_details"@, "reasoning_tokens"@)
        },
        _ => acc,
    }
}

/// Every sum stays within an `i64` when a response's usage is added.
pub open spec fn sum_fits(acc: Map<Seq<char>, JsonView>, usage: Option<JsonView>) -> bool {
    match usage {
        Some(JsonView::Object(u)) => {
            let acc1 = add_top(acc, u, "input_tokens"@);
            let acc2 = add_top(acc1, u, "output_tokens"@);
            let acc3 = add_top(acc2, u, "total_tokens"@);
            let acc4 = add_nested(acc3, u, "input_tokens_details"@, "cached_tokens"@);
            &&& add_top_fits(acc, u, "input_tokens"@)
            &&& add_top_fits(acc1, u, "output_tokens"@)
            &&& add_top_fits(acc2, u, "total_tokens"@)
            &&& add_nested_fits(acc3, u, "input_tokens_details"@, "cached_tokens"@)
            &&& add_nested_fits(acc4, u, "output_tokens_details"@, "reasoning_tokens"@)
        },
        _ => true,
    }
}

fn top_i64(o: &JsonObject, key: &str) -> (r: Option<i64>)
    ensures
        r == top_delta(o@, key@),
{
    match o.get(key) {
        Some(value) => value.as_i64(),
        None => None,
    }
}

fn add_top_level_usage_field(acc: &mut JsonObject, usage: &JsonObject, key: &str) -> (r: bool)
    ensures
        r == add_top_fits(old(acc)@, usage@, key@),
        r ==> final(acc)@ == add_top(old(acc)@, usage@, key@),
{
    match top_i64(usage, key) {
        Some(delta) => {
            let current: i64 = match top_i64(acc, key) {
                Some(n) => n,
                None => 0,
            };
            match current.checked_add(delta) {
                Some(sum) => {
                    acc.insert(text::owned(key), Json::integer(sum));
                    true
                },
                None => false,
            }
        },
        None => true,
    }
}

fn add_nested_usage_field(
    acc: &mut JsonObject,
    usage: &JsonObject,
    outer_key: &str,
    inner_key: &str,
) -> (r: bool)
    ensures
        r == add_nested_fits(old(acc)@, usage@, outer_key@, inner_key@),
        r ==> final(acc)@ == add_nested(old(acc)@, usage@, outer_key@, inner_key@),
{
    let delta: i64 = match usage.get(outer_key) {
        Some(details) => match details.get_i64(inner_key) {
            Some(delta) => delta,
            None => return true,
        },
        None => return true,
    };
    let mut outer = match acc.get(outer_key) {
        Some(value) => match value.as_object() {
            Some(o) => o.duplicate(),
            None => return true,
        },
        None => JsonObject::new(),
    };
    let current: i64 = match top_i64(&outer, inner_key) {
        Some(n) => n,
        None => 0,
    };
    match current.checked_add(delta) {
        Some(sum) => {
            outer.insert(text::owned(inner_key), Json::integer(sum));
            acc.insert(text::owned(outer_key), Json::Object(outer));
            true
        },
        None => false,
    }
}

/// Adds a response's usage to the sums, where every sum stays within an `i64`; says whether it
/// does.
pub fn try_sum_usage(acc: &mut JsonObject, usage: Option<&Json>) -> (r: bool)
    ensures
        r == sum_fits(old(acc)@, opt_view(usage)),
        r ==> final(acc)@ == summed_usage(old(acc)@, opt_view(usage)),
        !r ==> final(acc)@ == old(acc)@,
{
    match usage {
        Some(usage) => match usage.as_object() {
            Some(usage) => {
                let mut sums = acc.duplicate();
                let ok = add_top_level_usage_field(&mut sums, usage, "input_tokens")
                    && add_top_level_usage_field(&mut sums, usage, "output_tokens")
                    && add_top_level_usage_field(&mut sums, usage, "total_tokens")
                    && add_nested_usage_field(
                    &mut sums,
                    usage,
                    "input_tokens_details",
                    "cached_tokens",
                ) && add_nested_usage_field(
                    &mut sums,
                    usage,
                    "output_tokens_details",
                    "reasoning_tokens",
                );
                if ok {
                    *acc = sums;
                }
                ok
            },
            None => true,
        },
        None => true,
    }
}

/// Adds a response's usage to the sums.
pub fn sum_usage(acc: &mut JsonObject, usage: Option<&Json>)
    requires
        sum_fits(old(acc)@, opt_view(usage)),
    ensures
        final(acc)@ == summed_usage(old(acc)@, opt_view(usage)),
{
    let _ = try_sum_usage(acc, usage);
}

/// The `i64` under `key` of what may be there.
pub open spec fn opt_member_i64(v: Option<JsonView>, key: Seq<char>) -> Option<i64> {
    match v {
        Some(v) => member_i64(v, key),
        None => None,
    }
}

/// The cached tokens that a response's usage tells of.
pub open spec fn cached_tokens_of(usage: Option<JsonView>) -> Option<i64> {
    match usage {
        Some(u) => nested_i64(u, "input_tokens_details"@, "cached_tokens"@),
        None => None,
    }
}

/// The tokens of the last round's output that are not reasoning.
pub open spec fn visible_tokens(final_usage: Option<JsonView>) -> int {
    let n = or_zero(opt_member_i64(final_usage, "output_tokens"@)) - or_zero(
        reasoning_tokens_of(final_usage),
    );
    if n > 0 {
        n
    } else {
        0
    }
}

/// The reasoning tokens of all rounds.
pub open spec fn all_reasoning_tokens(total_usage: Map<Seq<char>, JsonView>) -> int {
    or_zero(
        nested_i64(
            JsonView::Object(total_usage),
            "output_tokens_details"@,
            "reasoning_tokens"@,
        ),
    )
}

/// The usage of several rounds as that of one response: the input of the first, the reasoning of
/// all, and the visible output of the last.
pub open spec fn reconstructed_usage(
    first_usage: Option<JsonView>,
    total_usage: Map<Seq<char>, JsonView>,
    final_usage: Option<JsonView>,
) -> JsonView {
    let input = or_zero(opt_member_i64(first_usage, "input_tokens"@));
    let reasoning = all_reasoning_tokens(total_usage);
    let output = reasoning + visible_tokens(final_usage);
    let usage = map![
        "input_tokens"@ => JsonView::Int(input),
        "output_tokens"@ => JsonView::Int(output),
        "total_tokens"@ => JsonView::Int(input + output),
        "output_tokens_details"@ => JsonView::Object(map![
            "reasoning_tokens"@ => JsonView::Int(reasoning),
        ]),
    ];
    match cached_tokens_of(first_usage) {
        Some(cached) => JsonView::Object(
            usage.insert(
                "input_tokens_details"@,
                JsonView::Object(map!["cached_tokens"@ => JsonView::Int(cached as int)]),
            ),
        ),
        None => JsonView::Object(usage),
    }
}

/// The numbers of the reconstructed usage stay within an `i64`.
pub open spec fn reconstruction_fits(
    first_usage: Option<JsonView>,
    total_usage: Map<Seq<char>, JsonView>,
    final_usage: Option<JsonView>,
) -> bool {
    let input = or_zero(opt_member_i64(first_usage, "input_tokens"@));
    let output = all_reasoning_tokens(total_usage) + visible_tokens(final_usage);
    &&& fits(
        or_zero(opt_member_i64(final_usage, "output_tokens"@)) - or_zero(
            reasoning_tokens_of(final_usage),
        ),
    )
    &&& fits(output)
    &&& fits(input + output)
}

fn opt_i64(v: Option<&Json>, key: &str) -> (r: Option<i64>)
    ensures
        r == opt_member_i64(opt_view(v), key@),
{
    match v {
        Some(v) => v.get_i64(key),
        None => None,
    }
}

fn unwrap_or_zero(n: Option<i64>) -> (r: i64)
    ensures
        r == or_zero(n),
{
    match n {
        Some(n) => n,
        None => 0,
    }
}

/// Puts the usage of several rounds together as that of one response, where its numbers stay
/// within an `i64`.
pub fn try_reconstruct_usage(
    first_usage: Option<&Json>,
    total_usage: &JsonObject,
    final_usage: Option<&Json>,
) -> (r: Option<Json>)
    ensures
        match r {
            Some(usage) => reconstruction_fits(
                opt_view(first_usage),
                total_usage@,
                opt_view(final_usage),
            ) && usage@ == reconstructed_usage(
                opt_view(first_usage),
                total_usage@,
                opt_view(final_usage),
            ),
            None => !reconstruction_fits(
                opt_view(first_usage),
                total_usage@,
                opt_view(final_usage),
            ),
        },
{
    let input_tokens: i64 = unwrap_or_zero(opt_i64(first_usage, "input_tokens"));
    let cached_tokens = match first_usage {
        Some(usage) => match usage.get2("input_tokens_details", "cached_tokens") {
            Some(value) => value.as_i64(),
            None => None,
        },
        None => None,
    };
    let reasoning_tokens: i64 = unwrap_or_zero(
        match total_usage.get("output_tokens_details") {
            Some(details) => details.get_i64("reasoning_tokens"),
            None => None,
        },
    );
    let final_output_tokens: i64 = unwrap_or_zero(opt_i64(final_usage, "output_tokens"));
    let final_reasoning_tokens: i64 = unwrap_or_zero(reasoning_tokens_from_usage(final_usage));
    let difference: i64 = match final_output_tokens.checked_sub(final_reasoning_tokens) {
        Some(n) => n,
        None => return None,
    };
    let final_non_reasoning_tokens: i64 = if difference > 0 {
        difference
    } else {
        0
    };
    let output_tokens: i64 = match reasoning_tokens.checked_add(final_non_reasoning_tokens) {
        Some(n) => n,
        None => return None,
    };
    let total_tokens: i64 = match input_tokens.checked_add(output_tokens) {
        Some(n) => n,
        None => return None,
    };
    let mut details = JsonObject::new();
    details.insert(text::owned("reasoning_tokens"), Json::integer(reasoning_tokens));
    let mut usage = JsonObject::new();
    usage.insert(text::owned("input_tokens"), Json::integer(input_tokens));
    usage.insert(text::owned("output_tokens"), Json::integer(output_tokens));
    usage.insert(text::owned("total_tokens"), Json::integer(total_tokens));
    usage.insert(text::owned("output_tokens_details"), Json::Object(details));
    if let Some(cached_tokens) = cached_tokens {
        let mut input_details = JsonObject::new();
        input_details.insert(text::owned("cached_tokens"), Json::integer(cached_tokens));
        usage.insert(text::owned("input_tokens_details"), Json::Object(input_details));
    }
    Some(Json::Object(usage))
}

/// Puts the usage of several rounds together as that of one response.
pub fn reconstruct_usage(
    first_usage: Option<&Json>,
    total_usage: &JsonObject,
    final_usage: Option<&Json>,
) -> (r: Json)
    requires
        reconstruction_fits(opt_view(first_usage), total_usage@, opt_view(final_usage)),
    ensures
        r@ == reconstructed_usage(opt_view(first_usage), total_usage@, opt_view(final_usage)),
{
    match try_reconstruct_usage(first_usage, total_usage, final_usage) {
        Some(usage) => usage,
        None => Json::Null,
    }
}

// ---------------------------------------------------------------------------------------------
// Laws
// ---------------------------------------------------------------------------------------------

/// The merged list names the encrypted reasoning, begins with what was listed before, and merging
/// once more changes nothing.
pub proof fn merging_is_idempotent(body: Map<Seq<char>, JsonView>)
    ensures
        merged_include(body).contains(JsonView::Str(ENCRYPTED_REASONING_INCLUDE@)),
        field(body, "include"@) matches Some(JsonView::Array(s)) ==> s.len()
            <= merged_include(body).len() <= s.len() + 1 && merged_include(body).take(
            s.len() as int,
        ) == s,
        merged_include(body.insert("include"@, JsonView::Array(merged_include(body))))
            == merged_include(body),
{
    let merged = merged_include(body);
    let wanted = JsonView::Str(ENCRYPTED_REASONING_INCLUDE@);
    let before = match field(body, "include"@) {
        Some(JsonView::Array(s)) => s,
        _ => Seq::empty(),
    };
    if !before.contains(wanted) {
        assert(merged[before.len() as int] == wanted);
    }
    assert(merged.take(before.len() as int) =~= before);
}

/// The request for the next round asks for the encrypted reasoning, names no earlier response,
/// repeats the inputs before it adds to them, and leaves every other member as it was. It exists
/// where the first request has a list of inputs.
pub proof fn next_round_keeps_the_request(
    base: Map<Seq<char>, JsonView>,
    replay_tail: Seq<JsonView>,
)
    requires
        field(base, "input"@) matches Some(JsonView::Array(_)),
    ensures
        next_round_body(base, replay_tail) matches Some(next) && {
            &&& field(next, "previous_response_id"@) is None
            &&& field(next, "include"@) == Some(JsonView::Array(merged_include(base)))
            &&& field(next, "input"@) == Some(
                JsonView::Array(field(base, "input"@)->0->Array_0 + replay_tail),
            )
            &&& forall|k: Seq<char>|
                k != "input"@ && k != "include"@ && k != "previous_response_id"@ ==> #[trigger] field(
                    next,
                    k,
                ) == field(base, k)
        },
{
    reveal_strlit("input");
    reveal_strlit("include");
    reveal_strlit("previous_response_id");
    assert("input"@.len() != "include"@.len());
    assert("input"@.len() != "previous_response_id"@.len());
    assert("include"@.len() != "previous_response_id"@.len());
}

/// A round in which no reasoning was cut short, or that comes after the last extra round, or
/// whose reasoning cannot be handed back, is the last one.
pub proof fn rounds_are_bounded(
    config: ContinueThinkingConfig,
    reasoning_tokens: Option<i64>,
    round_number: int,
    has_encrypted_reasoning: bool,
)
    requires
        round_number > config.max_extra_rounds || !config.enabled || !has_encrypted_reasoning
            || reasoning_tokens is None || (reasoning_tokens->0 + 2) % 518 != 0,
    ensures
        !continues(config, reasoning_tokens, round_number, has_encrypted_reasoning),
{
}

/// The reconstructed usage counts the reasoning of all rounds in its output, and its total is
/// its input and its output together.
pub proof fn reconstructed_usage_adds_up(
    first_usage: Option<JsonView>,
    total_usage: Map<Seq<char>, JsonView>,
    final_usage: Option<JsonView>,
)
    ensures
        ({
            let usage = reconstructed_usage(first_usage, total_usage, final_usage);
            let reasoning = all_reasoning_tokens(total_usage);
            &&& member(usage, "total_tokens"@) matches Some(JsonView::Int(total))
            &&& member(usage, "input_tokens"@) matches Some(JsonView::Int(input))
            &&& member(usage, "output_tokens"@) matches Some(JsonView::Int(output))
            &&& member2(usage, "output_tokens_details"@, "reasoning_tokens"@) == Some(
                JsonView::Int(reasoning),
            )
            &&& total == input + output
            &&& output >= reasoning
        }),
{
    reveal_strlit("input_tokens");
    reveal_strlit("output_tokens");
    reveal_strlit("total_tokens");
    reveal_strlit("output_tokens_details");
    reveal_strlit("input_tokens_details");
    assert("input_tokens"@.len() == 12 && "total_tokens"@.len() == 12);
    assert("input_tokens"@[0] != "total_tokens"@[0]);
    assert("output_tokens"@.len() == 13);
    assert("output_tokens_details"@.len() == 21);
    assert("input_tokens_details"@.len() == 20);
}

proof fn lemma_usage_names()
    ensures
        "input_tokens"@ != "output_tokens"@ && "input_tokens"@ != "total_tokens"@
            && "input_tokens"@ != "input_tokens_details"@ && "input_tokens"@
            != "output_tokens_details"@,
        "output_tokens"@ != "total_tokens"@ && "output_tokens"@ != "input_tokens_details"@
            && "output_tokens"@ != "output_tokens_details"@,
        "total_tokens"@ != "input_tokens_details"@ && "total_tokens"@ != "output_tokens_details"@,
        "input_tokens_details"@ != "output_tokens_details"@,
        "type"@ != "role"@ && "type"@ != "phase"@ && "type"@ != "content"@ && "role"@ != "phase"@
            && "role"@ != "content"@ && "phase"@ != "content"@ && "type"@ != "text"@,
{
    reveal_strlit("input_tokens");
    reveal_strlit("output_tokens");
    reveal_strlit("total_tokens");
    reveal_strlit("output_tokens_details");
    reveal_strlit("input_tokens_details");
    reveal_strlit("type");
    reveal_strlit("role");
    reveal_strlit("phase");
    reveal_strlit("content");
    reveal_strlit("text");
    assert("input_tokens"@.len() == 12 && "total_tokens"@.len() == 12);
    assert("input_tokens"@[0] != "total_tokens"@[0]);
    assert("output_tokens"@.len() == 13);
    assert("output_tokens_details"@.len() == 21);
    assert("input_tokens_details"@.len() == 20);
    assert("type"@[0] != "role"@[0] && "type"@.len() == 4 && "role"@.len() == 4 && "phase"@.len()
        == 5 && "content"@.len() == 7 && "type"@[1] != "text"@[1]);
}

/// A request is taken where continuing is turned on and the request is streamed, has a list of
/// inputs, and does not turn reasoning off by saying `false`.
pub proof fn candidates_stream_a_list_of_inputs(enabled: bool, body: JsonView)
    ensures
        is_candidate(enabled, body) <==> enabled && (body is Object) && member(body, "stream"@)
            == Some(JsonView::Bool(true)) && (member(body, "input"@) is Some && member(
            body,
            "input"@,
        )->0 is Array) && !(member(body, "reasoning"@) == Some(JsonView::Bool(false))),
{
}

/// Reasoning was cut short where its tokens are two short of a multiple of 518, and not otherwise.
pub proof fn reasoning_is_cut_in_steps(tokens: i64)
    ensures
        truncation_pattern(Some(tokens)) <==> exists|k: int| k >= 1 && tokens == #[trigger] (518
            * k) - 2,
        !truncation_pattern(None),
{
    if truncation_pattern(Some(tokens)) {
        let k = (tokens + 2) / 518;
        assert(tokens == 518 * k - 2 && k >= 1);
    }
    if exists|k: int| k >= 1 && tokens == #[trigger] (518 * k) - 2 {
        let k = choose|k: int| k >= 1 && tokens == #[trigger] (518 * k) - 2;
        assert((tokens + 2) % 518 == 0);
    }
}

/// A round is followed by another exactly while continuing is turned on, no more rounds than the
/// limit were added, the reasoning can be handed back, and it was cut short.
pub proof fn rounds_go_on_while_reasoning_is_cut(
    config: ContinueThinkingConfig,
    tokens: Option<i64>,
    round_number: int,
    has_encrypted_reasoning: bool,
)
    ensures
        continues(config, tokens, round_number, has_encrypted_reasoning) <==> config.enabled
            && round_number <= config.max_extra_rounds && has_encrypted_reasoning && tokens
            is Some && tokens->0 >= 516 && (tokens->0 + 2) % 518 == 0,
{
}

/// The wish for more is a message of the assistant, as a comment, whose one part is the text.
pub proof fn wishes_are_comments_of_the_assistant(message: Seq<char>)
    ensures
        ({
            let wish = commentary_view(message);
            let content = member(wish, "content"@);
            &&& member(wish, "type"@) == Some(JsonView::Str("message"@))
            &&& member(wish, "role"@) == Some(JsonView::Str("assistant"@))
            &&& member(wish, "phase"@) == Some(JsonView::Str("commentary"@))
            &&& content is Some && content->0 is Array && content->0->Array_0.len() == 1
            &&& member(content->0->Array_0[0], "type"@) == Some(JsonView::Str("output_text"@))
            &&& member(content->0->Array_0[0], "text"@) == Some(JsonView::Str(message))
        }),
{
    lemma_usage_names();
}

/// The encrypted reasoning is asked for under its name, once: behind what was asked for before,
/// where it was not among that.
pub proof fn encrypted_reasoning_is_asked_for(body: Map<Seq<char>, JsonView>)
    ensures
        ({
            let asked = field(body, "include"@);
            let before = if asked is Some && asked->0 is Array {
                asked->0->Array_0
            } else {
                Seq::empty()
            };
            let wanted = JsonView::Str("reasoning.encrypted_content"@);
            &&& before.contains(wanted) ==> merged_include(body) == before
            &&& !before.contains(wanted) ==> merged_include(body) == before.push(wanted)
        }),
{
}

/// The count under a name, zero where there is none.
pub open spec fn count_under(v: JsonView, name: Seq<char>) -> int {
    match member(v, name) {
        Some(JsonView::Int(n)) if i64::MIN <= n <= i64::MAX => n,
        _ => 0,
    }
}

/// The count under a name under another, zero where there is none.
pub open spec fn count_under2(v: JsonView, outer: Seq<char>, inner: Seq<char>) -> int {
    match member(v, outer) {
        Some(details) => count_under(details, inner),
        None => 0,
    }
}

/// A count is there, and is one.
pub open spec fn tells(v: JsonView, name: Seq<char>) -> bool {
    member(v, name) matches Some(JsonView::Int(n)) && i64::MIN <= n <= i64::MAX
}

/// What may hold counts of details does: it is an object or not there.
pub open spec fn holds_details(sums: JsonView, outer: Seq<char>) -> bool {
    match member(sums, outer) {
        Some(details) => details is Object,
        None => true,
    }
}

proof fn lemma_top(
    acc: Map<Seq<char>, JsonView>,
    usage: Map<Seq<char>, JsonView>,
    key: Seq<char>,
    other: Seq<char>,
)
    ensures
        other != key ==> field(add_top(acc, usage, key), other) == field(acc, other),
        count_under(JsonView::Object(add_top(acc, usage, key)), key) == count_under(
            JsonView::Object(acc),
            key,
        ) + count_under(JsonView::Object(usage), key) || !add_top_fits(acc, usage, key),
        add_top_fits(acc, usage, key) <==> (tells(JsonView::Object(usage), key) ==> i64::MIN
            <= count_under(JsonView::Object(acc), key) + count_under(
            JsonView::Object(usage),
            key,
        ) <= i64::MAX),
{
}

proof fn lemma_nested(
    acc: Map<Seq<char>, JsonView>,
    usage: Map<Seq<char>, JsonView>,
    outer: Seq<char>,
    inner: Seq<char>,
    other: Seq<char>,
)
    requires
        holds_details(JsonView::Object(acc), outer),
    ensures
        other != outer ==> field(add_nested(acc, usage, outer, inner), other) == field(acc, other),
        count_under2(JsonView::Object(add_nested(acc, usage, outer, inner)), outer, inner)
            == count_under2(JsonView::Object(acc), outer, inner) + count_under2(
            JsonView::Object(usage),
            outer,
            inner,
        ) || !add_nested_fits(acc, usage, outer, inner),
{
}

/// Counting a round adds each of its counts to the sum of the same name, and changes nothing else:
/// input, output and total tokens, the cached ones of the input, and those of reasoning.
pub proof fn each_count_is_added_to_its_sum(
    acc: Map<Seq<char>, JsonView>,
    usage: JsonView,
    other: Seq<char>,
)
    requires
        sum_fits(acc, Some(usage)),
        holds_details(JsonView::Object(acc), "input_tokens_details"@),
        holds_details(JsonView::Object(acc), "output_tokens_details"@),
        usage is Object,
    ensures
        ({
            let before = JsonView::Object(acc);
            let after = JsonView::Object(summed_usage(acc, Some(usage)));
            &&& count_under(after, "input_tokens"@) == count_under(before, "input_tokens"@)
                + count_under(usage, "input_tokens"@)
            &&& count_under(after, "output_tokens"@) == count_under(before, "output_tokens"@)
                + count_under(usage, "output_tokens"@)
            &&& count_under(after, "total_tokens"@) == count_under(before, "total_tokens"@)
                + count_under(usage, "total_tokens"@)
            &&& count_under2(after, "input_tokens_details"@, "cached_tokens"@) == count_under2(
                before,
                "input_tokens_details"@,
                "cached_tokens"@,
            ) + count_under2(usage, "input_tokens_details"@, "cached_tokens"@)
            &&& count_under2(after, "output_tokens_details"@, "reasoning_tokens"@)
                == count_under2(before, "output_tokens_details"@, "reasoning_tokens"@)
                + count_under2(usage, "output_tokens_details"@, "reasoning_tokens"@)
            &&& holds_details(after, "input_tokens_details"@)
            &&& holds_details(after, "output_tokens_details"@)
            &&& (other != "input_tokens"@ && other != "output_tokens"@ && other
                != "total_tokens"@ && other != "input_tokens_details"@ && other
                != "output_tokens_details"@) ==> member(after, other) == member(before, other)
        }),
{
    lemma_usage_names();
    let u = usage->Object_0;
    let a1 = add_top(acc, u, "input_tokens"@);
    let a2 = add_top(a1, u, "output_tokens"@);
    let a3 = add_top(a2, u, "total_tokens"@);
    let a4 = add_nested(a3, u, "input_tokens_details"@, "cached_tokens"@);
    let a5 = add_nested(a4, u, "output_tokens_details"@, "reasoning_tokens"@);
    lemma_top(acc, u, "input_tokens"@, "input_tokens_details"@);
    lemma_top(a1, u, "output_tokens"@, "input_tokens"@);
    lemma_top(a2, u, "total_tokens"@, "input_tokens"@);
    lemma_nested(a3, u, "input_tokens_details"@, "cached_tokens"@, "input_tokens"@);
    lemma_nested(a4, u, "output_tokens_details"@, "reasoning_tokens"@, "input_tokens"@);
}

/// The counts of a round can be added where no sum leaves the range of its type, and only there.
pub proof fn sums_fit_unless_one_does_not(acc: Map<Seq<char>, JsonView>, usage: JsonView)
    requires
        holds_details(JsonView::Object(acc), "input_tokens_details"@),
        holds_details(JsonView::Object(acc), "output_tokens_details"@),
        usage is Object,
    ensures
        ({
            let before = JsonView::Object(acc);
            sum_fits(acc, Some(usage)) <==> {
                &&& i64::MIN <= count_under(before, "input_tokens"@) + count_under(
                    usage,
                    "input_tokens"@,
                ) <= i64::MAX
                &&& i64::MIN <= count_under(before, "output_tokens"@) + count_under(
                    usage,
                    "output_tokens"@,
                ) <= i64::MAX
                &&& i64::MIN <= count_under(before, "total_tokens"@) + count_under(
                    usage,
                    "total_tokens"@,
                ) <= i64::MAX
                &&& i64::MIN <= count_under2(
                    before,
                    "input_tokens_details"@,
                    "cached_tokens"@,
                ) + count_under2(usage, "input_tokens_details"@, "cached_tokens"@) <= i64::MAX
                &&& i64::MIN <= count_under2(
                    before,
                    "output_tokens_details"@,
                    "reasoning_tokens"@,
                ) + count_under2(usage, "output_tokens_details"@, "reasoning_tokens"@)
                    <= i64::MAX
            }
        }),
{
    lemma_usage_names();
    let u = usage->Object_0;
    let a1 = add_top(acc, u, "input_tokens"@);
    let a2 = add_top(a1, u, "output_tokens"@);
    let a3 = add_top(a2, u, "total_tokens"@);
    let a4 = add_nested(a3, u, "input_tokens_details"@, "cached_tokens"@);
    lemma_top(acc, u, "input_tokens"@, "output_tokens"@);
    lemma_top(a1, u, "output_tokens"@, "total_tokens"@);
    lemma_top(acc, u, "input_tokens"@, "total_tokens"@);
    lemma_top(a2, u, "total_tokens"@, "input_tokens_details"@);
    lemma_top(a1, u, "output_tokens"@, "input_tokens_details"@);
    lemma_top(acc, u, "input_tokens"@, "input_tokens_details"@);
    lemma_nested(a3, u, "input_tokens_details"@, "cached_tokens"@, "output_tokens_details"@);
}

/// A round that tells no usage counts for nothing.
pub proof fn no_usage_adds_nothing(acc: Map<Seq<char>, JsonView>, usage: Option<JsonView>)
    requires
        usage is None || !(usage->0 is Object),
    ensures
        summed_usage(acc, usage) == acc,
        sum_fits(acc, usage),
{
}

/// The usage of a folded response is that of one: the input and what of it was cached are those
/// of the first round, the reasoning is that of all, and the rest of the output is what the last
/// round wrote besides reasoning, never less than nothing.
pub proof fn folded_usage_is_that_of_one_response(
    first_usage: Option<JsonView>,
    total_usage: Map<Seq<char>, JsonView>,
    final_usage: Option<JsonView>,
)
    ensures
        ({
            let usage = reconstructed_usage(first_usage, total_usage, final_usage);
            let first = if first_usage is Some {
                first_usage->0
            } else {
                JsonView::Null
            };
            let last = if final_usage is Some {
                final_usage->0
            } else {
                JsonView::Null
            };
            let reasoning = count_under2(
                JsonView::Object(total_usage),
                "output_tokens_details"@,
                "reasoning_tokens"@,
            );
            let written = count_under(last, "output_tokens"@) - count_under2(
                last,
                "output_tokens_details"@,
                "reasoning_tokens"@,
            );
            let visible = if written > 0 {
                written
            } else {
                0
            };
            let input = count_under(first, "input_tokens"@);
            let cached = member2(first, "input_tokens_details"@, "cached_tokens"@);
            &&& member(usage, "input_tokens"@) == Some(JsonView::Int(input))
            &&& member(usage, "output_tokens"@) == Some(JsonView::Int(reasoning + visible))
            &&& member(usage, "total_tokens"@) == Some(
                JsonView::Int(input + reasoning + visible),
            )
            &&& member2(usage, "output_tokens_details"@, "reasoning_tokens"@) == Some(
                JsonView::Int(reasoning),
            )
            &&& cached is None ==> member(usage, "input_tokens_details"@) is None
            &&& (cached matches Some(JsonView::Int(n)) && i64::MIN <= n <= i64::MAX) ==> member2(
                usage,
                "input_tokens_details"@,
                "cached_tokens"@,
            ) == cached
            &&& reconstruction_fits(first_usage, total_usage, final_usage) <==> {
                &&& i64::MIN <= written <= i64::MAX
                &&& i64::MIN <= reasoning + visible <= i64::MAX
                &&& i64::MIN <= input + reasoning + visible <= i64::MAX
            }
        }),
{
    lemma_usage_names();
}

/// The reasoning tokens of a response are those that its usage tells under the details of the
/// output.
pub proof fn reasoning_tokens_are_read_by_name(usage: JsonView)
    ensures
        reasoning_tokens_of(None) is None,
        reasoning_tokens_of(Some(usage)) is Some <==> (member2(
            usage,
            "output_tokens_details"@,
            "reasoning_tokens"@,
        ) matches Some(JsonView::Int(n)) && i64::MIN <= n <= i64::MAX),
        reasoning_tokens_of(Some(usage)) is Some ==> member2(
            usage,
            "output_tokens_details"@,
            "reasoning_tokens"@,
        ) == Some(JsonView::Int(reasoning_tokens_of(Some(usage))->0 as int)),
{
}

/// A response is taken as a further round where it succeeded and is a stream of events.
pub proof fn continuations_succeed_and_stream(status: u16, content_type: Option<Seq<char>>)
    ensures
        is_continuation(status, content_type) <==> status >= 200 && status <= 299 && content_type
            is Some && contains_text(content_type->0, "text/event-stream"@),
{
}

} // verus!
