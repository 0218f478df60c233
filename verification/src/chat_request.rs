//! The request of a Chat Completions call: a conversation as the list of messages that such
//! providers take, with the reasoning put back where it belongs.

use vstd::prelude::*;

use crate::json::{
    self, items_view, items_view_index, items_view_push, json_text, member, member2, member_str,
    parsed_json, Json, JsonObject, JsonView,
};
use crate::protocol::{
    AgentMessageInputContent, ApiError, ContentItem, ReasoningItemContent, ResponseItem,
    SessionSource,
};
use crate::text::{self, ascii_lower, contains_text, join_of, opt_text, texts, trim_of};

verus! {

/// Who answers the request.
#[derive(Debug, PartialEq, Eq)]
pub struct Provider {
    pub name: String,
    pub base_url: String,
}

/// The provider takes the `thinking` member.
pub open spec fn is_kimi(name: Seq<char>, base_url: Seq<char>) -> bool {
    ascii_lower(name) == ascii_lower("kimi"@) || contains_text(
        ascii_lower(base_url),
        "moonshot.cn"@,
    )
}

/// Whether the provider takes the `thinking` member.
pub fn uses_kimi_thinking_parameter(provider: &Provider) -> (r: bool)
    ensures
        r == is_kimi(provider.name@, provider.base_url@),
{
    text::eq_ignore_ascii_case(provider.name.as_str(), "kimi") || text::contains(
        text::to_ascii_lowercase(provider.base_url.as_str()).as_str(),
        "moonshot.cn",
    )
}

// ---------------------------------------------------------------------------------------------
// Reasoning and the messages that it belongs to
// ---------------------------------------------------------------------------------------------

/// The item is something that the assistant said or did.
pub open spec fn is_anchor(item: ResponseItem) -> bool {
    match item {
        ResponseItem::Message { role, .. } => role@ == "assistant"@,
        ResponseItem::AgentMessage { .. } => true,
        ResponseItem::FunctionCall { .. } => true,
        ResponseItem::LocalShellCall { .. } => true,
        ResponseItem::CustomToolCall { .. } => true,
        _ => false,
    }
}

fn is_assistant_anchor(item: &ResponseItem) -> (r: bool)
    ensures
        r == is_anchor(*item),
{
    match item {
        ResponseItem::Message { role, .. } => text::str_eq(role.as_str(), "assistant"),
        ResponseItem::AgentMessage { .. } => true,
        ResponseItem::FunctionCall { .. } => true,
        ResponseItem::LocalShellCall { .. } => true,
        ResponseItem::CustomToolCall { .. } => true,
        _ => false,
    }
}

/// The text of one part of a model's reasoning.
pub open spec fn reasoning_part(part: ReasoningItemContent) -> Seq<char> {
    match part {
        ReasoningItemContent::ReasoningText { text } => text@,
        ReasoningItemContent::Text { text } => text@,
    }
}

/// The texts of the parts one behind the other.
pub open spec fn reasoning_parts(parts: Seq<ReasoningItemContent>) -> Seq<char>
    decreases parts.len(),
{
    if parts.len() == 0 {
        Seq::empty()
    } else {
        reasoning_parts(parts.drop_last()) + reasoning_part(parts.last())
    }
}

/// The reasoning that an item holds, where it is more than white space.
pub open spec fn reasoning_of(item: ResponseItem) -> Option<Seq<char>> {
    match item {
        ResponseItem::Reasoning { content: Some(parts) } => if trim_of(
            reasoning_parts(parts@),
        ).len() == 0 {
            None
        } else {
            Some(reasoning_parts(parts@))
        },
        _ => None,
    }
}

/// The first anchor at `from` or after.
pub open spec fn anchor_from(input: Seq<ResponseItem>, from: int) -> Option<int>
    decreases input.len() - from,
{
    if from < 0 || from >= input.len() {
        None
    } else if is_anchor(input[from]) {
        Some(from)
    } else {
        anchor_from(input, from + 1)
    }
}

/// The last anchor before `to`.
pub open spec fn anchor_before(input: Seq<ResponseItem>, to: int) -> Option<int>
    decreases to,
{
    if to <= 0 || to > input.len() {
        None
    } else if is_anchor(input[to - 1]) {
        Some(to - 1)
    } else {
        anchor_before(input, to - 1)
    }
}

/// The message that the reasoning at `index` belongs to: the next thing that the assistant said
/// or did, or else the last one before.
pub open spec fn anchor_of(input: Seq<ResponseItem>, index: int) -> Option<int> {
    match anchor_from(input, index + 1) {
        Some(a) => Some(a),
        None => anchor_before(input, index),
    }
}

/// The reasoning among the first `n` items that belongs to the item at `index`.
pub open spec fn reasoning_at(input: Seq<ResponseItem>, n: int, index: int) -> Option<Seq<char>>
    decreases n,
{
    if n <= 0 {
        None
    } else {
        let before = reasoning_at(input, n - 1, index);
        match reasoning_of(input[n - 1]) {
            Some(more) if anchor_of(input, n - 1) == Some(index) => match before {
                Some(text) => Some(text + more),
                None => Some(more),
            },
            _ => before,
        }
    }
}

fn reasoning_text(item: &ResponseItem) -> (r: Option<String>)
    ensures
        opt_text(r) == reasoning_of(*item),
{
    match item {
        ResponseItem::Reasoning { content: Some(parts) } => {
            let mut reasoning = String::new();
            let mut i: usize = 0;
            while i < parts.len()
                invariant
                    i <= parts.len(),
                    reasoning@ == reasoning_parts(parts@.take(i as int)),
                decreases parts.len() - i,
            {
                let part = match &parts[i] {
                    ReasoningItemContent::ReasoningText { text } => text.as_str(),
                    ReasoningItemContent::Text { text } => text.as_str(),
                };
                reasoning.append(part);
                assert(parts@.take(i + 1).drop_last() =~= parts@.take(i as int));
                i += 1;
            }
            assert(parts@.take(parts.len() as int) =~= parts@);
            if text::trim(reasoning.as_str()).is_empty() {
                None
            } else {
                Some(reasoning)
            }
        },
        _ => None,
    }
}

fn find_anchor(input: &[ResponseItem], index: usize) -> (r: Option<usize>)
    requires
        index < input@.len(),
    ensures
        match r {
            Some(a) => anchor_of(input@, index as int) == Some(a as int) && a < input@.len(),
            None => anchor_of(input@, index as int) is None,
        },
{
    let count: usize = input.len();
    let mut i: usize = index + 1;
    while i < count
        invariant
            index < i <= input@.len(),
            count == input@.len(),
            anchor_from(input@, i as int) == anchor_from(input@, index + 1),
        decreases input@.len() - i,
    {
        if is_assistant_anchor(&input[i]) {
            return Some(i);
        }
        i += 1;
    }
    let mut j: usize = index;
    while j > 0
        invariant
            j <= index < input@.len(),
            anchor_from(input@, index + 1) is None,
            anchor_before(input@, j as int) == anchor_before(input@, index as int),
        decreases j,
    {
        if is_assistant_anchor(&input[j - 1]) {
            return Some(j - 1);
        }
        j -= 1;
    }
    None
}

fn collect_reasoning_by_anchor(input: &[ResponseItem]) -> (r: Vec<Option<String>>)
    ensures
        r@.len() == input@.len(),
        forall|k: int|
            0 <= k < r@.len() ==> opt_text(#[trigger] r@[k]) == reasoning_at(
                input@,
                input@.len() as int,
                k,
            ),
{
    let mut found: Vec<Option<String>> = Vec::new();
    let mut n: usize = 0;
    while n < input.len()
        invariant
            n <= input@.len(),
            found@.len() == n,
            forall|k: int| 0 <= k < n ==> opt_text(#[trigger] found@[k]) is None,
        decreases input@.len() - n,
    {
        found.push(None);
        n += 1;
    }
    let mut i: usize = 0;
    while i < input.len()
        invariant
            i <= input@.len(),
            found@.len() == input@.len(),
            forall|k: int|
                0 <= k < found@.len() ==> opt_text(#[trigger] found@[k]) == reasoning_at(
                    input@,
                    i as int,
                    k,
                ),
        decreases input@.len() - i,
    {
        if let Some(reasoning) = reasoning_text(&input[i]) {
            if let Some(anchor) = find_anchor(input, i) {
                let mut joined = String::new();
                match &found[anchor] {
                    Some(existing) => {
                        joined.append(existing.as_str());
                    },
                    None => {},
                }
                joined.append(reasoning.as_str());
                assert(Seq::<char>::empty() + reasoning@ =~= reasoning@);
                let ghost before = found@;
                found.set(anchor, Some(joined));
            }
        }
        i += 1;
    }
    found
}

// ---------------------------------------------------------------------------------------------
// Messages
// ---------------------------------------------------------------------------------------------

/// The text of a part of a message.
pub open spec fn content_text(item: ContentItem) -> Seq<char> {
    match item {
        ContentItem::InputText { text } => text@,
        ContentItem::OutputText { text } => text@,
        _ => Seq::empty(),
    }
}

/// The texts of a message one behind the other.
pub open spec fn content_texts(content: Seq<ContentItem>) -> Seq<char>
    decreases content.len(),
{
    if content.len() == 0 {
        Seq::empty()
    } else {
        content_texts(content.drop_last()) + content_text(content.last())
    }
}

/// A part of a message as Chat Completions write it; audio is left out.
pub open spec fn content_part(item: ContentItem) -> Option<JsonView> {
    match item {
        ContentItem::InputText { text } => Some(text_part(text@)),
        ContentItem::OutputText { text } => Some(text_part(text@)),
        ContentItem::InputImage { image_url } => Some(
            JsonView::Object(
                map![
                    "type"@ => JsonView::Str("image_url"@),
                    "image_url"@ => JsonView::Object(map!["url"@ => JsonView::Str(image_url@)]),
                ],
            ),
        ),
        ContentItem::InputAudio => None,
    }
}

/// A part that is a text.
pub open spec fn text_part(text: Seq<char>) -> JsonView {
    JsonView::Object(map!["type"@ => JsonView::Str("text"@), "text"@ => JsonView::Str(text)])
}

/// The parts of a message.
pub open spec fn content_parts(content: Seq<ContentItem>) -> Seq<JsonView>
    decreases content.len(),
{
    if content.len() == 0 {
        Seq::empty()
    } else {
        match content_part(content.last()) {
            Some(part) => content_parts(content.drop_last()).push(part),
            None => content_parts(content.drop_last()),
        }
    }
}

/// Some part of the message is an image.
pub open spec fn has_image(content: Seq<ContentItem>) -> bool {
    exists|i: int| 0 <= i < content.len() && (#[trigger] content[i]) is InputImage
}

/// The message with the reasoning that belongs to it.
pub open spec fn with_reasoning(
    message: Map<Seq<char>, JsonView>,
    reasoning: Option<Seq<char>>,
) -> JsonView {
    match reasoning {
        Some(text) => JsonView::Object(
            message.insert("reasoning_content"@, JsonView::Str(text)),
        ),
        None => JsonView::Object(message),
    }
}

/// A message of a role with its content.
pub open spec fn role_message(role: Seq<char>, content: JsonView) -> Map<Seq<char>, JsonView> {
    map!["role"@ => JsonView::Str(role), "content"@ => content]
}

/// A message of the conversation. Developers speak as the system. A message with an image is a
/// list of parts, unless the assistant sent it; any other is one text.
pub open spec fn plain_message(
    role: Seq<char>,
    content: Seq<ContentItem>,
    reasoning: Option<Seq<char>>,
) -> JsonView {
    let chat_role = if role == "developer"@ {
        "system"@
    } else {
        role
    };
    let body = if role == "assistant"@ || !has_image(content) {
        JsonView::Str(content_texts(content))
    } else {
        JsonView::Array(content_parts(content))
    };
    with_reasoning(role_message(chat_role, body), reasoning)
}

/// The texts of a message between agents that are not encrypted.
pub open spec fn agent_texts(content: Seq<AgentMessageInputContent>) -> Seq<Seq<char>>
    decreases content.len(),
{
    if content.len() == 0 {
        Seq::empty()
    } else {
        match content.last() {
            AgentMessageInputContent::InputText { text } => agent_texts(content.drop_last()).push(
                text@,
            ),
            AgentMessageInputContent::EncryptedContent => agent_texts(content.drop_last()),
        }
    }
}

/// A call of a tool.
pub open spec fn tool_call(id: Seq<char>, name: Seq<char>, arguments: Seq<char>) -> JsonView {
    JsonView::Object(
        map![
            "id"@ => JsonView::Str(id),
            "type"@ => JsonView::Str("function"@),
            "function"@ => JsonView::Object(map![
                "name"@ => JsonView::Str(name),
                "arguments"@ => JsonView::Str(arguments),
            ]),
        ],
    )
}

/// What a tool gave back.
pub open spec fn tool_message(call_id: Option<Seq<char>>, content: Seq<char>) -> JsonView {
    JsonView::Object(
        map![
            "role"@ => JsonView::Str("tool"@),
            "tool_call_id"@ => match call_id {
                Some(id) => JsonView::Str(id),
                None => JsonView::Null,
            },
            "content"@ => JsonView::Str(content),
        ],
    )
}

/// The calls of a message of the assistant that holds nothing but calls.
pub open spec fn open_calls(message: JsonView) -> Option<Seq<JsonView>> {
    match member(message, "tool_calls"@) {
        Some(JsonView::Array(calls)) if member(message, "role"@) == Some(
            JsonView::Str("assistant"@),
        ) && member(message, "content"@) == Some(JsonView::Null) => Some(calls),
        _ => None,
    }
}

/// The reasoning of a message of calls with more behind it. What is not a text stays as it is.
pub open spec fn more_reasoning(
    message: Map<Seq<char>, JsonView>,
    reasoning: Option<Seq<char>>,
) -> Map<Seq<char>, JsonView> {
    match reasoning {
        Some(more) => match json::field(message, "reasoning_content"@) {
            Some(JsonView::Str(existing)) => message.insert(
                "reasoning_content"@,
                JsonView::Str(existing + more),
            ),
            Some(_) => message,
            None => message.insert("reasoning_content"@, JsonView::Str(more)),
        },
        None => message,
    }
}

/// The messages with one more call of a tool: in the last message, where that holds calls only,
/// or in a message of its own.
pub open spec fn add_call(
    messages: Seq<JsonView>,
    call: JsonView,
    reasoning: Option<Seq<char>>,
) -> Seq<JsonView> {
    if messages.len() > 0 && open_calls(messages.last()) is Some {
        let message = messages.last()->Object_0;
        let calls = open_calls(messages.last())->0;
        messages.drop_last().push(
            JsonView::Object(
                more_reasoning(
                    message.insert("tool_calls"@, JsonView::Array(calls.push(call))),
                    reasoning,
                ),
            ),
        )
    } else {
        messages.push(
            with_reasoning(
                map![
                    "role"@ => JsonView::Str("assistant"@),
                    "content"@ => JsonView::Null,
                    "tool_calls"@ => JsonView::Array(seq![call]),
                ],
                reasoning,
            ),
        )
    }
}

/// The text or the empty one.
pub open spec fn text_or_empty(t: Option<String>) -> Seq<char> {
    match t {
        Some(t) => t@,
        None => Seq::empty(),
    }
}

/// The arguments of a custom tool: its input, where that is JSON, or an object that holds it.
pub open spec fn custom_arguments(input: Seq<char>) -> Seq<char> {
    if parsed_json(input) is Some {
        input
    } else {
        json_text(JsonView::Object(map!["input"@ => JsonView::Str(input)]))
    }
}

/// The messages with what an item adds to them.
pub open spec fn add_item(
    messages: Seq<JsonView>,
    item: ResponseItem,
    reasoning: Option<Seq<char>>,
) -> Seq<JsonView> {
    match item {
        ResponseItem::Message { role, content } => messages.push(
            plain_message(role@, content@, reasoning),
        ),
        ResponseItem::AgentMessage { content } => {
            let text = join_of(agent_texts(content@), "\n"@);
            if text.len() == 0 {
                messages
            } else {
                messages.push(
                    JsonView::Object(role_message("assistant"@, JsonView::Str(text))),
                )
            }
        },
        ResponseItem::FunctionCall { name, namespace, arguments, call_id } => add_call(
            messages,
            tool_call(call_id@, text_or_empty(namespace) + name@, arguments@),
            reasoning,
        ),
        ResponseItem::LocalShellCall { id, call_id, action } => add_call(
            messages,
            tool_call(
                text_or_empty(
                    if call_id is Some {
                        call_id
                    } else {
                        id
                    },
                ),
                "local_shell"@,
                action@,
            ),
            reasoning,
        ),
        ResponseItem::FunctionCallOutput { call_id, output } => messages.push(
            tool_message(opt_text(call_id), text_or_empty(output.text)),
        ),
        ResponseItem::CustomToolCallOutput { call_id, output } => messages.push(
            tool_message(opt_text(call_id), text_or_empty(output.text)),
        ),
        ResponseItem::CustomToolCall { call_id, name, input } => add_call(
            messages,
            tool_call(call_id@, name@, custom_arguments(input@)),
            reasoning,
        ),
        ResponseItem::ToolSearchOutput { call_id: Some(call_id), tools } => messages.push(
            tool_message(Some(call_id@), json_text(JsonView::Array(items_view(tools@)))),
        ),
        _ => messages,
    }
}

/// The messages of the first `n` items of a conversation.
pub open spec fn messages_of(
    start: Seq<JsonView>,
    input: Seq<ResponseItem>,
    n: int,
) -> Seq<JsonView>
    decreases n,
{
    if n <= 0 {
        start
    } else {
        add_item(
            messages_of(start, input, n - 1),
            input[n - 1],
            reasoning_at(input, input.len() as int, n - 1),
        )
    }
}

/// The message that holds the instructions, where there are any.
pub open spec fn instruction_messages(instructions: Seq<char>) -> Seq<JsonView> {
    if trim_of(instructions).len() == 0 {
        Seq::empty()
    } else {
        seq![JsonView::Object(role_message("system"@, JsonView::Str(instructions)))]
    }
}

fn role_object(role: &str, content: Json) -> (r: JsonObject)
    ensures
        r@ == role_message(role@, content@),
{
    let mut o = JsonObject::new();
    o.insert(text::owned("role"), Json::string(role));
    o.insert(text::owned("content"), content);
    o
}

fn attach_reasoning_content(message: JsonObject, reasoning: Option<&str>) -> (r: Json)
    ensures
        r@ == with_reasoning(message@, json::opt_str(reasoning)),
{
    let mut message = message;
    if let Some(reasoning) = reasoning {
        message.insert(text::owned("reasoning_content"), Json::string(reasoning));
    }
    Json::Object(message)
}

fn text_part_object(value: &str) -> (r: Json)
    ensures
        r@ == text_part(value@),
{
    let mut o = JsonObject::new();
    o.insert(text::owned("type"), Json::string("text"));
    o.insert(text::owned("text"), Json::string(value));
    Json::Object(o)
}

fn content_part_object(item: &ContentItem) -> (r: Option<Json>)
    ensures
        json::opt_json(r) == content_part(*item),
{
    match item {
        ContentItem::InputText { text } => Some(text_part_object(text.as_str())),
        ContentItem::OutputText { text } => Some(text_part_object(text.as_str())),
        ContentItem::InputImage { image_url } => {
            let mut url = JsonObject::new();
            url.insert(text::owned("url"), Json::string(image_url.as_str()));
            let mut o = JsonObject::new();
            o.insert(text::owned("type"), Json::string("image_url"));
            o.insert(text::owned("image_url"), Json::Object(url));
            Some(Json::Object(o))
        },
        ContentItem::InputAudio => None,
    }
}

fn message_json(role: &str, content: &Vec<ContentItem>, reasoning: Option<&str>) -> (r: Json)
    ensures
        r@ == plain_message(role@, content@, json::opt_str(reasoning)),
{
    let mut all_text = String::new();
    let mut parts: Vec<Json> = Vec::new();
    let mut seen_image = false;
    let mut i: usize = 0;
    while i < content.len()
        invariant
            i <= content.len(),
            all_text@ == content_texts(content@.take(i as int)),
            items_view(parts@) == content_parts(content@.take(i as int)),
            seen_image == exists|k: int| 0 <= k < i && (#[trigger] content@[k]) is InputImage,
        decreases content.len() - i,
    {
        let item = &content[i];
        proof {
            assert(content@.take(i + 1).drop_last() =~= content@.take(i as int));
            assert(content@.take(i + 1).last() == *item);
        }
        match item {
            ContentItem::InputText { text } => {
                all_text.append(text.as_str());
            },
            ContentItem::OutputText { text } => {
                all_text.append(text.as_str());
            },
            ContentItem::InputImage { .. } => {
                assert(content@[i as int] is InputImage);
                seen_image = true;
                assert(all_text@ + Seq::<char>::empty() =~= all_text@);
            },
            ContentItem::InputAudio => {
                assert(all_text@ + Seq::<char>::empty() =~= all_text@);
            },
        }
        if let Some(part) = content_part_object(item) {
            proof {
                items_view_push(parts@, part);
            }
            parts.push(part);
        }
        i += 1;
    }
    assert(content@.take(content.len() as int) =~= content@);
    let body = if text::str_eq(role, "assistant") || !seen_image {
        Json::Str(all_text)
    } else {
        Json::Array(parts)
    };
    let chat_role = if text::str_eq(role, "developer") {
        "system"
    } else {
        role
    };
    attach_reasoning_content(role_object(chat_role, body), reasoning)
}

fn agent_text(content: &Vec<AgentMessageInputContent>) -> (r: String)
    ensures
        r@ == join_of(agent_texts(content@), "\n"@),
{
    let mut parts: Vec<String> = Vec::new();
    let mut i: usize = 0;
    assert(texts(parts@) =~= Seq::empty());
    while i < content.len()
        invariant
            i <= content.len(),
            texts(parts@) == agent_texts(content@.take(i as int)),
        decreases content.len() - i,
    {
        assert(content@.take(i + 1).drop_last() =~= content@.take(i as int));
        match &content[i] {
            AgentMessageInputContent::InputText { text } => {
                let ghost before = parts@;
                parts.push(text.clone());
                assert(texts(parts@) =~= texts(before).push(text@));
            },
            AgentMessageInputContent::EncryptedContent => {},
        }
        i += 1;
    }
    assert(content@.take(content.len() as int) =~= content@);
    text::join(&parts, "\n")
}

fn tool_call_object(id: &str, name: &str, arguments: &str) -> (r: Json)
    ensures
        r@ == tool_call(id@, name@, arguments@),
{
    let mut function = JsonObject::new();
    function.insert(text::owned("name"), Json::string(name));
    function.insert(text::owned("arguments"), Json::string(arguments));
    let mut o = JsonObject::new();
    o.insert(text::owned("id"), Json::string(id));
    o.insert(text::owned("type"), Json::string("function"));
    o.insert(text::owned("function"), Json::Object(function));
    Json::Object(o)
}

fn tool_message_object(call_id: Option<&str>, content: &str) -> (r: Json)
    ensures
        r@ == tool_message(json::opt_str(call_id), content@),
{
    let mut o = JsonObject::new();
    o.insert(text::owned("role"), Json::string("tool"));
    o.insert(
        text::owned("tool_call_id"),
        match call_id {
            Some(id) => Json::string(id),
            None => Json::Null,
        },
    );
    o.insert(text::owned("content"), Json::string(content));
    Json::Object(o)
}

fn open_calls_of(message: &Json) -> (r: Option<Vec<Json>>)
    ensures
        match r {
            Some(calls) => open_calls(message@) == Some(items_view(calls@)),
            None => open_calls(message@) is None,
        },
{
    let by_assistant = match message.get_str("role") {
        Some(role) => text::str_eq(role, "assistant"),
        None => false,
    };
    let empty = match message.get("content") {
        Some(Json::Null) => true,
        _ => false,
    };
    match message.get("tool_calls") {
        Some(value) => match value.as_array() {
            Some(calls) => if by_assistant && empty {
                Some(json::duplicate_all(calls))
            } else {
                None
            },
            None => None,
        },
        None => None,
    }
}

fn push_tool_call_message(messages: &mut Vec<Json>, call: Json, reasoning: Option<&str>)
    ensures
        items_view(final(messages)@) == add_call(
            items_view(old(messages)@),
            call@,
            json::opt_str(reasoning),
        ),
{
    let ghost before = items_view(messages@);
    proof {
        items_view_index(messages@);
    }
    if messages.len() > 0 {
        if let Some(calls) = open_calls_of(&messages[messages.len() - 1]) {
            let last = messages.pop();
            if let Some(Json::Object(message)) = last {
                let mut message = message;
                let mut calls = calls;
                proof {
                    assert(messages@ =~= old(messages)@.drop_last());
                    assert(items_view(messages@) =~= before.drop_last());
                    items_view_push(calls@, call);
                }
                calls.push(call);
                message.insert(text::owned("tool_calls"), Json::Array(calls));
                if let Some(more) = reasoning {
                    match message.get("reasoning_content") {
                        Some(Json::Str(existing)) => {
                            let joined = text::concat2(existing.as_str(), more);
                            message.insert(text::owned("reasoning_content"), Json::Str(joined));
                        },
                        Some(_) => {},
                        None => {
                            message.insert(text::owned("reasoning_content"), Json::string(more));
                        },
                    }
                }
                let message = Json::Object(message);
                proof {
                    items_view_push(messages@, message);
                }
                messages.push(message);
            }
            return;
        }
    }
    let mut calls: Vec<Json> = Vec::new();
    proof {
        items_view_push(calls@, call);
        assert(items_view(calls@) =~= Seq::empty());
        assert(Seq::<JsonView>::empty().push(call@) =~= seq![call@]);
    }
    calls.push(call);
    let mut message = JsonObject::new();
    message.insert(text::owned("role"), Json::string("assistant"));
    message.insert(text::owned("content"), Json::Null);
    message.insert(text::owned("tool_calls"), Json::Array(calls));
    let message = attach_reasoning_content(message, reasoning);
    proof {
        items_view_push(messages@, message);
    }
    messages.push(message);
}

fn push_message(messages: &mut Vec<Json>, message: Json)
    ensures
        items_view(final(messages)@) == items_view(old(messages)@).push(message@),
{
    proof {
        items_view_push(messages@, message);
    }
    messages.push(message);
}

fn opt_as_str(o: &Option<String>) -> (r: Option<&str>)
    ensures
        json::opt_str(r) == opt_text(*o),
{
    match o {
        Some(s) => Some(s.as_str()),
        None => None,
    }
}

fn str_or_empty(o: &Option<String>) -> (r: &str)
    ensures
        r@ == text_or_empty(*o),
{
    match o {
        Some(s) => s.as_str(),
        None => {
            proof {
                reveal_strlit("");
                assert(""@ =~= Seq::empty());
            }
            ""
        },
    }
}

fn push_item(messages: &mut Vec<Json>, item: &ResponseItem, reasoning: Option<&str>)
    ensures
        items_view(final(messages)@) == add_item(
            items_view(old(messages)@),
            *item,
            json::opt_str(reasoning),
        ),
{
    match item {
        ResponseItem::Message { role, content } => {
            push_message(messages, message_json(role.as_str(), content, reasoning));
        },
        ResponseItem::AgentMessage { content } => {
            let joined = agent_text(content);
            if !joined.as_str().is_empty() {
                push_message(
                    messages,
                    Json::Object(role_object("assistant", Json::Str(joined))),
                );
            }
        },
        ResponseItem::FunctionCall { name, namespace, arguments, call_id } => {
            let full_name = text::concat2(str_or_empty(namespace), name.as_str());
            let call = tool_call_object(
                call_id.as_str(),
                full_name.as_str(),
                arguments.as_str(),
            );
            push_tool_call_message(messages, call, reasoning);
        },
        ResponseItem::LocalShellCall { id, call_id, action } => {
            let call_id = if call_id.is_some() {
                str_or_empty(call_id)
            } else {
                str_or_empty(id)
            };
            let call = tool_call_object(call_id, "local_shell", action.as_str());
            push_tool_call_message(messages, call, reasoning);
        },
        ResponseItem::FunctionCallOutput { call_id, output } => {
            push_message(
                messages,
                tool_message_object(opt_as_str(call_id), str_or_empty(&output.text)),
            );
        },
        ResponseItem::CustomToolCallOutput { call_id, output } => {
            push_message(
                messages,
                tool_message_object(opt_as_str(call_id), str_or_empty(&output.text)),
            );
        },
        ResponseItem::CustomToolCall { call_id, name, input } => {
            let arguments = if Json::parse(input.as_str()).is_some() {
                input.clone()
            } else {
                let mut o = JsonObject::new();
                o.insert(text::owned("input"), Json::string(input.as_str()));
                Json::Object(o).text()
            };
            let call = tool_call_object(call_id.as_str(), name.as_str(), arguments.as_str());
            push_tool_call_message(messages, call, reasoning);
        },
        ResponseItem::ToolSearchOutput { call_id: Some(call_id), tools } => {
            let listed = Json::Array(json::duplicate_all(tools)).text();
            push_message(messages, tool_message_object(Some(call_id.as_str()), listed.as_str()));
        },
        _ => {},
    }
}

// ---------------------------------------------------------------------------------------------
// The request
// ---------------------------------------------------------------------------------------------

/// The body of a Chat Completions streaming call, and what its headers are made of.
#[derive(Debug)]
pub struct ChatRequest {
    pub body: Json,
    pub session_id: Option<String>,
    pub thread_id: Option<String>,
    pub session_source: Option<SessionSource>,
}

/// Puts a Chat Completions request together.
pub struct ChatRequestBuilder<'a> {
    pub model: &'a str,
    pub instructions: &'a str,
    pub input: &'a [ResponseItem],
    pub tools: &'a [Json],
    pub parallel_tool_calls: bool,
    pub reasoning_effort: Option<String>,
    pub output_schema: Option<&'a Json>,
    pub output_schema_strict: bool,
    pub session_id: Option<String>,
    pub thread_id: Option<String>,
    pub session_source: Option<SessionSource>,
}

/// The members that a request always has.
pub open spec fn base_payload(model: Seq<char>, messages: Seq<JsonView>) -> Map<
    Seq<char>,
    JsonView,
> {
    map![
        "model"@ => JsonView::Str(model),
        "messages"@ => JsonView::Array(messages),
        "stream"@ => JsonView::Bool(true),
    ]
}

/// The request with how hard to think about it.
pub open spec fn with_effort(
    payload: Map<Seq<char>, JsonView>,
    effort: Option<Seq<char>>,
    kimi: bool,
) -> Map<Seq<char>, JsonView> {
    match effort {
        Some(effort) => {
            let payload = payload.insert("reasoning_effort"@, JsonView::Str(effort));
            if kimi {
                payload.insert(
                    "thinking"@,
                    JsonView::Object(map!["type"@ => JsonView::Str("enabled"@)]),
                )
            } else {
                payload
            }
        },
        None => payload,
    }
}

/// The request with the schema that the answer follows.
pub open spec fn with_schema(
    payload: Map<Seq<char>, JsonView>,
    schema: Option<JsonView>,
    strict: bool,
) -> Map<Seq<char>, JsonView> {
    match schema {
        Some(schema) => payload.insert(
            "response_format"@,
            JsonView::Object(
                map![
                    "type"@ => JsonView::Str("json_schema"@),
                    "json_schema"@ => JsonView::Object(map![
                        "name"@ => JsonView::Str("codex_output_schema"@),
                        "schema"@ => schema,
                        "strict"@ => JsonView::Bool(strict),
                    ]),
                ],
            ),
        ),
        None => payload,
    }
}

/// The request with the tools that the model may call.
pub open spec fn with_tools(
    payload: Map<Seq<char>, JsonView>,
    tools: Seq<JsonView>,
    parallel: bool,
) -> Map<Seq<char>, JsonView> {
    if tools.len() == 0 {
        payload
    } else {
        payload.insert("tools"@, JsonView::Array(tools)).insert(
            "tool_choice"@,
            JsonView::Str("auto"@),
        ).insert("parallel_tool_calls"@, JsonView::Bool(parallel))
    }
}

impl<'a> ChatRequestBuilder<'a> {
    /// The body that the builder makes for a provider.
    pub open spec fn body_for(self, provider: Provider) -> JsonView {
        let messages = messages_of(
            instruction_messages(self.instructions@),
            self.input@,
            self.input@.len() as int,
        );
        let payload = base_payload(self.model@, messages);
        let payload = with_effort(
            payload,
            opt_text(self.reasoning_effort),
            is_kimi(provider.name@, provider.base_url@),
        );
        let payload = with_schema(
            payload,
            json::opt_view(self.output_schema),
            self.output_schema_strict,
        );
        JsonView::Object(
            with_tools(payload, items_view(self.tools@), self.parallel_tool_calls),
        )
    }

    /// A request for a model's answer to a conversation.
    pub fn new(
        model: &'a str,
        instructions: &'a str,
        input: &'a [ResponseItem],
        tools: &'a [Json],
    ) -> (r: ChatRequestBuilder<'a>)
        ensures
            r == (ChatRequestBuilder {
                model,
                instructions,
                input,
                tools,
                parallel_tool_calls: false,
                reasoning_effort: None,
                output_schema: None,
                output_schema_strict: true,
                session_id: None,
                thread_id: None,
                session_source: None,
            }),
    {
        ChatRequestBuilder {
            model,
            instructions,
            input,
            tools,
            parallel_tool_calls: false,
            reasoning_effort: None,
            output_schema: None,
            output_schema_strict: true,
            session_id: None,
            thread_id: None,
            session_source: None,
        }
    }

    /// Whether the model may call several tools at once.
    pub fn parallel_tool_calls(self, enabled: bool) -> (r: ChatRequestBuilder<'a>)
        ensures
            r == (ChatRequestBuilder { parallel_tool_calls: enabled, ..self }),
    {
        let mut this = self;
        this.parallel_tool_calls = enabled;
        this
    }

    /// How hard the model should think.
    pub fn reasoning_effort(self, effort: Option<String>) -> (r: ChatRequestBuilder<'a>)
        ensures
            r == (ChatRequestBuilder { reasoning_effort: effort, ..self }),
    {
        let mut this = self;
        this.reasoning_effort = effort;
        this
    }

    /// The schema that the answer follows, and whether it does so strictly.
    pub fn output_schema(self, schema: Option<&'a Json>, strict: bool) -> (r: ChatRequestBuilder<
        'a,
    >)
        ensures
            r == (ChatRequestBuilder {
                output_schema: schema,
                output_schema_strict: strict,
                ..self
            }),
    {
        let mut this = self;
        this.output_schema = schema;
        this.output_schema_strict = strict;
        this
    }

    /// The session that the request belongs to.
    pub fn session_id(self, id: Option<String>) -> (r: ChatRequestBuilder<'a>)
        ensures
            r == (ChatRequestBuilder { session_id: id, ..self }),
    {
        let mut this = self;
        this.session_id = id;
        this
    }

    /// The thread that the request belongs to.
    pub fn thread_id(self, id: Option<String>) -> (r: ChatRequestBuilder<'a>)
        ensures
            r == (ChatRequestBuilder { thread_id: id, ..self }),
    {
        let mut this = self;
        this.thread_id = id;
        this
    }

    /// Where the session was started from.
    pub fn session_source(self, source: Option<SessionSource>) -> (r: ChatRequestBuilder<'a>)
        ensures
            r == (ChatRequestBuilder { session_source: source, ..self }),
    {
        let mut this = self;
        this.session_source = source;
        this
    }

    fn messages(&self) -> (r: Vec<Json>)
        ensures
            items_view(r@) == messages_of(
                instruction_messages(self.instructions@),
                self.input@,
                self.input@.len() as int,
            ),
    {
        let mut messages: Vec<Json> = Vec::new();
        assert(items_view(messages@) =~= Seq::empty());
        if !text::trim(self.instructions).is_empty() {
            push_message(
                &mut messages,
                Json::Object(role_object("system", Json::string(self.instructions))),
            );
            assert(items_view(messages@) =~= instruction_messages(self.instructions@));
        }
        let reasoning_by_anchor = collect_reasoning_by_anchor(self.input);
        let mut i: usize = 0;
        while i < self.input.len()
            invariant
                i <= self.input@.len(),
                reasoning_by_anchor@.len() == self.input@.len(),
                forall|k: int|
                    0 <= k < reasoning_by_anchor@.len() ==> opt_text(
                        #[trigger] reasoning_by_anchor@[k],
                    ) == reasoning_at(self.input@, self.input@.len() as int, k),
                items_view(messages@) == messages_of(
                    instruction_messages(self.instructions@),
                    self.input@,
                    i as int,
                ),
            decreases self.input@.len() - i,
        {
            push_item(&mut messages, &self.input[i], opt_as_str(&reasoning_by_anchor[i]));
            i += 1;
        }
        messages
    }

    /// Makes the request for a provider.
    pub fn build(self, provider: &Provider) -> (r: Result<ChatRequest, ApiError>)
        ensures
            r matches Ok(request) && request.body@ == self.body_for(*provider)
                && request.session_id == self.session_id && request.thread_id == self.thread_id
                && request.session_source == self.session_source,
    {
        let mut payload = JsonObject::new();
        payload.insert(text::owned("model"), Json::string(self.model));
        payload.insert(text::owned("messages"), Json::Array(self.messages()));
        payload.insert(text::owned("stream"), Json::Bool(true));
        if let Some(reasoning_effort) = &self.reasoning_effort {
            payload.insert(
                text::owned("reasoning_effort"),
                Json::string(reasoning_effort.as_str()),
            );
            if uses_kimi_thinking_parameter(provider) {
                let mut thinking = JsonObject::new();
                thinking.insert(text::owned("type"), Json::string("enabled"));
                payload.insert(text::owned("thinking"), Json::Object(thinking));
            }
        }
        if let Some(output_schema) = self.output_schema {
            let mut schema = JsonObject::new();
            schema.insert(text::owned("name"), Json::string("codex_output_schema"));
            schema.insert(text::owned("schema"), output_schema.duplicate());
            schema.insert(text::owned("strict"), Json::Bool(self.output_schema_strict));
            let mut format = JsonObject::new();
            format.insert(text::owned("type"), Json::string("json_schema"));
            format.insert(text::owned("json_schema"), Json::Object(schema));
            payload.insert(text::owned("response_format"), Json::Object(format));
        }
        proof {
            items_view_index(self.tools@);
        }
        if self.tools.len() > 0 {
            let mut tools: Vec<Json> = Vec::new();
            let mut i: usize = 0;
            assert(self.tools@.take(0) =~= Seq::empty());
            while i < self.tools.len()
                invariant
                    i <= self.tools@.len(),
                    items_view(tools@) == items_view(self.tools@.take(i as int)),
                decreases self.tools@.len() - i,
            {
                let tool = self.tools[i].duplicate();
                proof {
                    let all = self.tools@;
                    assert(all.take(i + 1) =~= all.take(i as int).push(all[i as int]));
                    items_view_push(all.take(i as int), all[i as int]);
                }
                push_message(&mut tools, tool);
                i += 1;
            }
            assert(self.tools@.take(self.tools@.len() as int) =~= self.tools@);
            payload.insert(text::owned("tools"), Json::Array(tools));
            payload.insert(text::owned("tool_choice"), Json::string("auto"));
            payload.insert(
                text::owned("parallel_tool_calls"),
                Json::Bool(self.parallel_tool_calls),
            );
        }
        Ok(
            ChatRequest {
                body: Json::Object(payload),
                session_id: self.session_id,
                thread_id: self.thread_id,
                session_source: self.session_source,
            },
        )
    }
}

// ---------------------------------------------------------------------------------------------
// Laws
// ---------------------------------------------------------------------------------------------

proof fn lemma_anchor_from(input: Seq<ResponseItem>, from: int)
    requires
        0 <= from,
    ensures
        match anchor_from(input, from) {
            Some(a) => from <= a < input.len() && is_anchor(input[a]) && forall|k: int|
                from <= k < a ==> !is_anchor(#[trigger] input[k]),
            None => forall|k: int| from <= k < input.len() ==> !is_anchor(#[trigger] input[k]),
        },
    decreases input.len() - from,
{
    if from < input.len() && !is_anchor(input[from]) {
        lemma_anchor_from(input, from + 1);
    }
}

proof fn lemma_anchor_before(input: Seq<ResponseItem>, to: int)
    requires
        0 <= to <= input.len(),
    ensures
        match anchor_before(input, to) {
            Some(a) => 0 <= a < to && is_anchor(input[a]) && forall|k: int|
                a < k < to ==> !is_anchor(#[trigger] input[k]),
            None => forall|k: int| 0 <= k < to ==> !is_anchor(#[trigger] input[k]),
        },
    decreases to,
{
    if to > 0 && !is_anchor(input[to - 1]) {
        lemma_anchor_before(input, to - 1);
    }
}

/// Reasoning belongs to something that the assistant said or did, the next such item where there
/// is one and the last before otherwise; it belongs nowhere only where there is none at all.
pub proof fn reasoning_finds_its_message(input: Seq<ResponseItem>, index: int)
    requires
        0 <= index < input.len(),
        reasoning_of(input[index]) is Some,
    ensures
        match anchor_of(input, index) {
            Some(a) => {
                &&& 0 <= a < input.len()
                &&& is_anchor(input[a])
                &&& a > index ==> forall|k: int| index < k < a ==> !is_anchor(#[trigger] input[k])
                &&& a < index ==> forall|k: int|
                    a < k < input.len() ==> !is_anchor(#[trigger] input[k])
            },
            None => forall|k: int| 0 <= k < input.len() ==> !is_anchor(#[trigger] input[k]),
        },
{
    lemma_anchor_from(input, index + 1);
    lemma_anchor_before(input, index);
    assert(!is_anchor(input[index]));
}

/// A tool call right after another joins its message: no message is added, and the call stands
/// last among that message's calls.
pub proof fn calls_in_a_row_share_a_message(
    messages: Seq<JsonView>,
    first: JsonView,
    second: JsonView,
    first_reasoning: Option<Seq<char>>,
    second_reasoning: Option<Seq<char>>,
)
    ensures
        ({
            let once = add_call(messages, first, first_reasoning);
            let twice = add_call(once, second, second_reasoning);
            &&& open_calls(once.last()) matches Some(calls)
            &&& calls.last() == first
            &&& twice.len() == once.len()
            &&& open_calls(twice.last()) == Some(calls.push(second))
            &&& twice.drop_last() == once.drop_last()
        }),
{
    reveal_strlit("role");
    reveal_strlit("content");
    reveal_strlit("tool_calls");
    reveal_strlit("reasoning_content");
    assert("role"@.len() == 4 && "content"@.len() == 7 && "tool_calls"@.len() == 10
        && "reasoning_content"@.len() == 17);
    let once = add_call(messages, first, first_reasoning);
    let twice = add_call(once, second, second_reasoning);
    assert(twice.drop_last() =~= once.drop_last());
}

/// Items are only added to the end: all messages but the last stay as they are.
pub proof fn earlier_messages_stay(
    messages: Seq<JsonView>,
    item: ResponseItem,
    reasoning: Option<Seq<char>>,
)
    ensures
        add_item(messages, item, reasoning).len() >= messages.len(),
        forall|i: int|
            0 <= i < messages.len() - 1 ==> #[trigger] add_item(messages, item, reasoning)[i]
                == messages[i],
{
}

proof fn lemma_request_names()
    ensures
        "id"@ != "type"@ && "id"@ != "function"@ && "type"@ != "function"@,
        "name"@ != "arguments"@,
        "role"@ != "content"@ && "role"@ != "tool_calls"@ && "role"@ != "reasoning_content"@
            && "role"@ != "tool_call_id"@,
        "content"@ != "tool_calls"@ && "content"@ != "reasoning_content"@ && "content"@
            != "tool_call_id"@,
        "tool_calls"@ != "reasoning_content"@,
        "type"@ != "text"@ && "type"@ != "image_url"@,
        "developer"@ != "assistant"@ && "developer"@ != "system"@ && "system"@ != "assistant"@,
{
    reveal_strlit("id");
    reveal_strlit("type");
    reveal_strlit("function");
    reveal_strlit("name");
    reveal_strlit("arguments");
    reveal_strlit("role");
    reveal_strlit("content");
    reveal_strlit("tool_calls");
    reveal_strlit("reasoning_content");
    reveal_strlit("tool_call_id");
    reveal_strlit("text");
    reveal_strlit("image_url");
    reveal_strlit("developer");
    reveal_strlit("assistant");
    reveal_strlit("system");
    assert("id"@.len() == 2 && "type"@.len() == 4 && "function"@.len() == 8);
    assert("name"@.len() == 4 && "arguments"@.len() == 9);
    assert("role"@.len() == 4 && "content"@.len() == 7 && "tool_calls"@.len() == 10
        && "reasoning_content"@.len() == 17 && "tool_call_id"@.len() == 12);
    assert("type"@[1] != "text"@[1] && "image_url"@.len() == 9);
    assert("developer"@[0] != "assistant"@[0] && "system"@.len() == 6 && "developer"@.len() == 9
        && "assistant"@.len() == 9);
}

proof fn lemma_payload_names()
    ensures
        "model"@ != "messages"@ && "model"@ != "stream"@ && "model"@ != "reasoning_effort"@
            && "model"@ != "thinking"@ && "model"@ != "response_format"@ && "model"@ != "tools"@
            && "model"@ != "tool_choice"@ && "model"@ != "parallel_tool_calls"@,
        "messages"@ != "stream"@ && "messages"@ != "reasoning_effort"@ && "messages"@
            != "thinking"@ && "messages"@ != "response_format"@ && "messages"@ != "tools"@
            && "messages"@ != "tool_choice"@ && "messages"@ != "parallel_tool_calls"@,
        "stream"@ != "reasoning_effort"@ && "stream"@ != "thinking"@ && "stream"@
            != "response_format"@ && "stream"@ != "tools"@ && "stream"@ != "tool_choice"@
            && "stream"@ != "parallel_tool_calls"@,
        "reasoning_effort"@ != "thinking"@ && "reasoning_effort"@ != "response_format"@
            && "reasoning_effort"@ != "tools"@ && "reasoning_effort"@ != "tool_choice"@
            && "reasoning_effort"@ != "parallel_tool_calls"@,
        "thinking"@ != "response_format"@ && "thinking"@ != "tools"@ && "thinking"@
            != "tool_choice"@ && "thinking"@ != "parallel_tool_calls"@,
        "response_format"@ != "tools"@ && "response_format"@ != "tool_choice"@
            && "response_format"@ != "parallel_tool_calls"@,
        "tools"@ != "tool_choice"@ && "tools"@ != "parallel_tool_calls"@ && "tool_choice"@
            != "parallel_tool_calls"@,
        "type"@ != "json_schema"@ && "name"@ != "schema"@ && "name"@ != "strict"@ && "schema"@
            != "strict"@,
{
    reveal_strlit("model");
    reveal_strlit("messages");
    reveal_strlit("stream");
    reveal_strlit("reasoning_effort");
    reveal_strlit("thinking");
    reveal_strlit("response_format");
    reveal_strlit("tools");
    reveal_strlit("tool_choice");
    reveal_strlit("parallel_tool_calls");
    reveal_strlit("type");
    reveal_strlit("json_schema");
    reveal_strlit("name");
    reveal_strlit("schema");
    reveal_strlit("strict");
    assert("model"@.len() == 5 && "messages"@.len() == 8 && "stream"@.len() == 6
        && "reasoning_effort"@.len() == 16 && "thinking"@.len() == 8 && "response_format"@.len()
        == 15 && "tools"@.len() == 5 && "tool_choice"@.len() == 11 && "parallel_tool_calls"@.len()
        == 19);
    assert("model"@[0] != "tools"@[0] && "messages"@[0] != "thinking"@[0]);
    assert("type"@.len() == 4 && "json_schema"@.len() == 11 && "name"@.len() == 4);
    assert("schema"@[1] != "strict"@[1] && "schema"@.len() == 6);
}

/// The call says whose it is, which tool is called and with what.
pub open spec fn call_reads(
    call: JsonView,
    id: Seq<char>,
    name: Seq<char>,
    arguments: Seq<char>,
) -> bool {
    &&& member_str(call, "id"@) == Some(id)
    &&& member_str(call, "type"@) == Some("function"@)
    &&& member2(call, "function"@, "name"@) == Some(JsonView::Str(name))
    &&& member2(call, "function"@, "arguments"@) == Some(JsonView::Str(arguments))
}

/// An item that calls a tool gives, as the last call of the last message, a call that says so: the
/// item's identifier, the name of its tool with the namespace before it, and its arguments as they
/// are. A call of the shell has its own identifier or else that of its item, and a custom tool's
/// input is the arguments, where it is JSON, and a member of them otherwise.
pub proof fn calls_are_read_back(
    messages: Seq<JsonView>,
    item: ResponseItem,
    reasoning: Option<Seq<char>>,
)
    ensures
        ({
            let after = add_item(messages, item, reasoning);
            let last = after.last();
            let calls = member(last, "tool_calls"@)->0->Array_0;
            let call = calls.last();
            let made = after.len() > 0 && member_str(last, "role"@) == Some("assistant"@)
                && member(last, "content"@) == Some(JsonView::Null) && (member(
                last,
                "tool_calls"@,
            ) matches Some(JsonView::Array(_))) && calls.len() > 0;
            &&& item matches ResponseItem::FunctionCall { name, namespace, arguments, call_id }
                ==> made && call_reads(
                call,
                call_id@,
                if namespace is Some {
                    namespace->0@ + name@
                } else {
                    name@
                },
                arguments@,
            )
            &&& item matches ResponseItem::LocalShellCall { id, call_id, action } ==> made
                && call_reads(
                call,
                if call_id is Some {
                    call_id->0@
                } else if id is Some {
                    id->0@
                } else {
                    Seq::empty()
                },
                "local_shell"@,
                action@,
            )
            &&& item matches ResponseItem::CustomToolCall { call_id, name, input } ==> made
                && if parsed_json(input@) is Some {
                call_reads(call, call_id@, name@, input@)
            } else {
                exists|arguments: Map<Seq<char>, JsonView>|
                    #![trigger json_text(JsonView::Object(arguments))]
                    arguments.dom() == set!["input"@] && arguments["input"@] == JsonView::Str(
                        input@,
                    ) && call_reads(
                        call,
                        call_id@,
                        name@,
                        json_text(JsonView::Object(arguments)),
                    )
            }
        }),
{
    lemma_request_names();
    let after = add_item(messages, item, reasoning);
    match item {
        ResponseItem::FunctionCall { name, namespace, arguments, call_id } => {
            if namespace is None {
                assert(Seq::<char>::empty() + name@ =~= name@);
            }
        },
        ResponseItem::CustomToolCall { call_id, name, input } => {
            let arguments = map!["input"@ => JsonView::Str(input@)];
            assert(arguments.dom() =~= set!["input"@]);
            if parsed_json(input@) is None {
                let call = member(after.last(), "tool_calls"@)->0->Array_0.last();
                assert(call_reads(
                    call,
                    call_id@,
                    name@,
                    json_text(JsonView::Object(arguments)),
                ));
            }
        },
        _ => {},
    }
}

/// Calls that follow each other stand in one message, in their order, and keep each other as they
/// are; a call after anything else begins a message of its own, which holds that call only. The
/// reasoning of a message of calls is that of its calls, one behind the other.
pub proof fn calls_join_the_last_message_of_calls(
    messages: Seq<JsonView>,
    item: ResponseItem,
    reasoning: Option<Seq<char>>,
)
    requires
        item is FunctionCall || item is LocalShellCall || item is CustomToolCall,
    ensures
        ({
            let after = add_item(messages, item, reasoning);
            let before = messages.last();
            let last = after.last();
            let calls = member(last, "tool_calls"@)->0->Array_0;
            let open = messages.len() > 0 && member_str(before, "role"@) == Some("assistant"@)
                && member(before, "content"@) == Some(JsonView::Null) && (member(
                before,
                "tool_calls"@,
            ) matches Some(JsonView::Array(_)));
            &&& forall|i: int|
                0 <= i < messages.len() - 1 ==> #[trigger] after[i] == messages[i]
            &&& open ==> {
                &&& after.len() == messages.len()
                &&& calls.len() == member(before, "tool_calls"@)->0->Array_0.len() + 1
                &&& calls.drop_last() == member(before, "tool_calls"@)->0->Array_0
                &&& member_str(before, "reasoning_content"@) is Some && reasoning is Some
                    ==> member_str(last, "reasoning_content"@) == Some(
                    member_str(before, "reasoning_content"@)->0 + reasoning->0,
                )
                &&& member(before, "reasoning_content"@) is None ==> member_str(
                    last,
                    "reasoning_content"@,
                ) == reasoning
                &&& reasoning is None ==> member(last, "reasoning_content"@) == member(
                    before,
                    "reasoning_content"@,
                )
            }
            &&& !open ==> {
                &&& after.len() == messages.len() + 1
                &&& after.drop_last() == messages
                &&& calls.len() == 1
                &&& member_str(last, "reasoning_content"@) == reasoning
            }
        }),
{
    lemma_request_names();
    let after = add_item(messages, item, reasoning);
    let before = messages.last();
    let last = after.last();
    if messages.len() > 0 && open_calls(before) is Some {
        let calls = member(last, "tool_calls"@)->0->Array_0;
        assert(calls.drop_last() =~= open_calls(before)->0);
    } else {
        assert(after.drop_last() =~= messages);
    }
}

/// What a tool gave back is a message of its own, from the tool, that names the call it answers
/// and holds the output as text.
pub proof fn tool_outputs_answer_their_calls(
    messages: Seq<JsonView>,
    item: ResponseItem,
    reasoning: Option<Seq<char>>,
)
    requires
        item is FunctionCallOutput || item is CustomToolCallOutput || (
        item matches ResponseItem::ToolSearchOutput { call_id, tools } && call_id is Some),
    ensures
        ({
            let after = add_item(messages, item, reasoning);
            let last = after.last();
            let id = match item {
                ResponseItem::FunctionCallOutput { call_id, .. } => opt_text(call_id),
                ResponseItem::CustomToolCallOutput { call_id, .. } => opt_text(call_id),
                ResponseItem::ToolSearchOutput { call_id, .. } => opt_text(call_id),
                _ => None,
            };
            &&& after.len() == messages.len() + 1
            &&& after.drop_last() == messages
            &&& member_str(last, "role"@) == Some("tool"@)
            &&& member(last, "tool_call_id"@) == Some(
                if id is Some {
                    JsonView::Str(id->0)
                } else {
                    JsonView::Null
                },
            )
            &&& item matches ResponseItem::FunctionCallOutput { call_id, output } ==> member_str(
                last,
                "content"@,
            ) == Some(
                if output.text is Some {
                    output.text->0@
                } else {
                    Seq::empty()
                },
            )
            &&& item matches ResponseItem::CustomToolCallOutput { call_id, output }
                ==> member_str(last, "content"@) == Some(
                if output.text is Some {
                    output.text->0@
                } else {
                    Seq::empty()
                },
            )
            &&& item matches ResponseItem::ToolSearchOutput { call_id, tools } ==> member_str(
                last,
                "content"@,
            ) == Some(json_text(JsonView::Array(items_view(tools@))))
        }),
{
    lemma_request_names();
    let after = add_item(messages, item, reasoning);
    assert(after.drop_last() =~= messages);
}

/// A message is one message, from whom it was, except that developers speak as the system. Its
/// content is its text, unless it holds an image and is not the assistant's; then it is a list of
/// the parts that are no audio. The reasoning that belongs to it stands beside.
pub proof fn messages_keep_role_and_text(
    messages: Seq<JsonView>,
    item: ResponseItem,
    reasoning: Option<Seq<char>>,
)
    requires
        item is Message,
    ensures
        ({
            let after = add_item(messages, item, reasoning);
            let last = after.last();
            let role = item->Message_role@;
            let content = item->Message_content@;
            let pictured = exists|i: int|
                0 <= i < content.len() && (#[trigger] content[i]) is InputImage;
            &&& after.len() == messages.len() + 1
            &&& after.drop_last() == messages
            &&& member_str(last, "role"@) == Some(
                if role == "developer"@ {
                    "system"@
                } else {
                    role
                },
            )
            &&& member(last, "content"@) == Some(
                if pictured && role != "assistant"@ {
                    JsonView::Array(content_parts(content))
                } else {
                    JsonView::Str(content_texts(content))
                },
            )
            &&& member_str(last, "reasoning_content"@) == reasoning
            &&& member(last, "tool_calls"@) is None
        }),
{
    lemma_request_names();
    let after = add_item(messages, item, reasoning);
    assert(after.drop_last() =~= messages);
}

/// The text of a message is the texts of its parts, one behind the other, and its list of parts is
/// what its parts give, in their order: a text for a text, an image for an image, nothing for
/// audio.
pub proof fn contents_are_taken_part_by_part(content: Seq<ContentItem>, item: ContentItem)
    ensures
        content_texts(Seq::empty()) == Seq::<char>::empty(),
        content_parts(Seq::empty()) == Seq::<JsonView>::empty(),
        ({
            let texts = content_texts(content.push(item));
            let parts = content_parts(content.push(item));
            match item {
                ContentItem::InputText { text } => {
                    &&& texts == content_texts(content) + text@
                    &&& parts.len() == content_parts(content).len() + 1
                    &&& parts.drop_last() == content_parts(content)
                    &&& member_str(parts.last(), "type"@) == Some("text"@)
                    &&& member_str(parts.last(), "text"@) == Some(text@)
                },
                ContentItem::OutputText { text } => {
                    &&& texts == content_texts(content) + text@
                    &&& parts.len() == content_parts(content).len() + 1
                    &&& parts.drop_last() == content_parts(content)
                    &&& member_str(parts.last(), "type"@) == Some("text"@)
                    &&& member_str(parts.last(), "text"@) == Some(text@)
                },
                ContentItem::InputImage { image_url } => {
                    &&& texts == content_texts(content)
                    &&& parts.len() == content_parts(content).len() + 1
                    &&& parts.drop_last() == content_parts(content)
                    &&& member_str(parts.last(), "type"@) == Some("image_url"@)
                    &&& member2(parts.last(), "image_url"@, "url"@) == Some(
                        JsonView::Str(image_url@),
                    )
                },
                ContentItem::InputAudio => texts == content_texts(content) && parts
                    == content_parts(content),
            }
        }),
{
    lemma_request_names();
    let more = content.push(item);
    assert(more.drop_last() =~= content);
    assert(more.last() == item);
    let parts = content_parts(more);
    if parts.len() > content_parts(content).len() {
        assert(parts.drop_last() =~= content_parts(content));
    }
    assert(content_texts(content) + Seq::<char>::empty() =~= content_texts(content));
}

/// A message between agents is what the assistant says: its open texts, one per line, and nothing
/// where those are empty.
pub proof fn agent_messages_are_the_assistants(
    messages: Seq<JsonView>,
    content: Vec<AgentMessageInputContent>,
    reasoning: Option<Seq<char>>,
)
    ensures
        ({
            let after = add_item(messages, ResponseItem::AgentMessage { content }, reasoning);
            let text = join_of(agent_texts(content@), "\n"@);
            &&& text.len() == 0 ==> after == messages
            &&& text.len() > 0 ==> after.len() == messages.len() + 1 && after.drop_last()
                == messages && member_str(after.last(), "role"@) == Some("assistant"@)
                && member_str(after.last(), "content"@) == Some(text) && member(
                after.last(),
                "tool_calls"@,
            ) is None
        }),
{
    lemma_request_names();
    let after = add_item(messages, ResponseItem::AgentMessage { content }, reasoning);
    if after.len() > messages.len() {
        assert(after.drop_last() =~= messages);
    }
}

/// The open texts of a message between agents are those of its parts that are not encrypted, in
/// their order.
pub proof fn open_texts_are_taken_in_order(
    content: Seq<AgentMessageInputContent>,
    part: AgentMessageInputContent,
)
    ensures
        agent_texts(Seq::empty()) == Seq::<Seq<char>>::empty(),
        agent_texts(content.push(part)) == match part {
            AgentMessageInputContent::InputText { text } => agent_texts(content).push(text@),
            AgentMessageInputContent::EncryptedContent => agent_texts(content),
        },
{
    assert(content.push(part).drop_last() =~= content);
}

/// Items that are neither said, done nor given back add no message.
pub proof fn other_items_add_nothing(
    messages: Seq<JsonView>,
    item: ResponseItem,
    reasoning: Option<Seq<char>>,
)
    requires
        item is Reasoning || item is ToolSearchCall || item is AdditionalTools || item
            is WebSearchCall || item is ImageGenerationCall || item is Compaction || item
            is CompactionTrigger || item is ContextCompaction || item is Other || (
        item matches ResponseItem::ToolSearchOutput { call_id, tools } && call_id is None),
    ensures
        add_item(messages, item, reasoning) == messages,
{
}

/// Reasoning is the texts of its parts, one behind the other, whatever their kind; reasoning that
/// is white space only counts for nothing, and other items have none.
pub proof fn reasoning_is_its_text(item: ResponseItem, parts: Seq<ReasoningItemContent>, part: ReasoningItemContent)
    ensures
        reasoning_of(item) is Some ==> item is Reasoning && item->Reasoning_content is Some
            && reasoning_of(item)->0 == reasoning_parts(item->Reasoning_content->0@) && trim_of(
            reasoning_of(item)->0,
        ).len() > 0,
        item is Reasoning && item->Reasoning_content is Some && trim_of(
            reasoning_parts(item->Reasoning_content->0@),
        ).len() > 0 ==> reasoning_of(item) is Some,
        reasoning_parts(Seq::empty()) == Seq::<char>::empty(),
        reasoning_parts(parts.push(part)) == reasoning_parts(parts) + match part {
            ReasoningItemContent::ReasoningText { text } => text@,
            ReasoningItemContent::Text { text } => text@,
        },
{
    assert(parts.push(part).drop_last() =~= parts);
}

/// What the assistant said or did is its messages, those between agents, and its calls of tools.
pub proof fn the_assistant_speaks_and_calls(item: ResponseItem)
    ensures
        is_anchor(item) <==> (item is Message && item->Message_role@ == "assistant"@) || item
            is AgentMessage || item is FunctionCall || item is LocalShellCall || item
            is CustomToolCall,
{
}

/// The reasoning of an item is that of all reasoning that belongs to it, one behind the other in
/// the order of the conversation: each piece follows what was there before it, and a piece that
/// belongs elsewhere changes nothing.
pub proof fn reasoning_is_gathered_in_order(input: Seq<ResponseItem>, n: int, index: int)
    requires
        0 <= n < input.len(),
    ensures
        ({
            let before = reasoning_at(input, n, index);
            let after = reasoning_at(input, n + 1, index);
            let piece = reasoning_of(input[n]);
            &&& piece is Some && anchor_of(input, n) == Some(index) ==> after == Some(
                if before is Some {
                    before->0 + piece->0
                } else {
                    piece->0
                },
            )
            &&& piece is None || anchor_of(input, n) != Some(index) ==> after == before
            &&& reasoning_at(input, 0, index) is None
        }),
{
}

/// Instructions come first, as the system's, and are left out where they are white space only. The
/// items follow in their order, each with the reasoning that belongs to it.
pub proof fn conversations_follow_the_instructions(
    instructions: Seq<char>,
    input: Seq<ResponseItem>,
    n: int,
)
    requires
        0 <= n < input.len(),
    ensures
        ({
            let start = instruction_messages(instructions);
            &&& trim_of(instructions).len() == 0 ==> start.len() == 0
            &&& trim_of(instructions).len() > 0 ==> start.len() == 1 && member_str(
                start[0],
                "role"@,
            ) == Some("system"@) && member_str(start[0], "content"@) == Some(instructions)
            &&& messages_of(start, input, 0) == start
            &&& messages_of(start, input, n + 1) == add_item(
                messages_of(start, input, n),
                input[n],
                reasoning_at(input, input.len() as int, n),
            )
        }),
{
    lemma_request_names();
}

/// The provider takes the `thinking` member where it is called Kimi, in letters of either case, or
/// its address has the host in it.
pub proof fn kimi_is_known_by_name_or_address(name: Seq<char>, base_url: Seq<char>)
    ensures
        ascii_lower(name) == "kimi"@ ==> is_kimi(name, base_url),
        contains_text(ascii_lower(base_url), "moonshot.cn"@) ==> is_kimi(name, base_url),
        is_kimi(name, base_url) ==> ascii_lower(name) == "kimi"@ || contains_text(
            ascii_lower(base_url),
            "moonshot.cn"@,
        ),
{
    reveal_strlit("kimi");
    assert(ascii_lower("kimi"@) =~= "kimi"@);
}

/// A request names its model, holds the messages of the conversation, and is streamed. It says how
/// hard to think where that is asked, which schema the answer follows where there is one, and which
/// tools may be called where there are any; what is not asked for is not in it.
pub proof fn requests_hold_what_was_asked<'a>(builder: ChatRequestBuilder<'a>, provider: Provider)
    ensures
        ({
            let body = builder.body_for(provider);
            let format = member(body, "response_format"@);
            &&& member_str(body, "model"@) == Some(builder.model@)
            &&& member(body, "messages"@) == Some(
                JsonView::Array(
                    messages_of(
                        instruction_messages(builder.instructions@),
                        builder.input@,
                        builder.input@.len() as int,
                    ),
                ),
            )
            &&& member(body, "stream"@) == Some(JsonView::Bool(true))
            &&& member_str(body, "reasoning_effort"@) == opt_text(builder.reasoning_effort)
            &&& builder.reasoning_effort is None ==> member(body, "reasoning_effort"@) is None
            &&& member(body, "thinking"@) is Some <==> builder.reasoning_effort is Some
                && is_kimi(provider.name@, provider.base_url@)
            &&& member(body, "thinking"@) is Some ==> member2(body, "thinking"@, "type"@) == Some(
                JsonView::Str("enabled"@),
            )
            &&& format is Some <==> builder.output_schema is Some
            &&& builder.output_schema is Some ==> {
                &&& member_str(format->0, "type"@) == Some("json_schema"@)
                &&& member2(format->0, "json_schema"@, "name"@) == Some(
                    JsonView::Str("codex_output_schema"@),
                )
                &&& member2(format->0, "json_schema"@, "schema"@) == Some(
                    builder.output_schema->0@,
                )
                &&& member2(format->0, "json_schema"@, "strict"@) == Some(
                    JsonView::Bool(builder.output_schema_strict),
                )
            }
            &&& builder.tools@.len() == 0 ==> member(body, "tools"@) is None && member(
                body,
                "tool_choice"@,
            ) is None && member(body, "parallel_tool_calls"@) is None
            &&& builder.tools@.len() > 0 ==> member(body, "tools"@) == Some(
                JsonView::Array(items_view(builder.tools@)),
            ) && member_str(body, "tool_choice"@) == Some("auto"@) && member(
                body,
                "parallel_tool_calls"@,
            ) == Some(JsonView::Bool(builder.parallel_tool_calls))
        }),
{
    lemma_payload_names();
    items_view_index(builder.tools@);
}

/// A message is where its item is: a conversation of messages alone gives as many messages as it
/// has items, behind the instructions, each in the place of its item.
pub proof fn plain_conversations_keep_their_order(
    start: Seq<JsonView>,
    input: Seq<ResponseItem>,
    n: int,
)
    requires
        0 <= n <= input.len(),
        forall|i: int| 0 <= i < input.len() ==> (#[trigger] input[i]) is Message,
    ensures
        messages_of(start, input, n).len() == start.len() + n,
        forall|i: int|
            0 <= i < start.len() ==> #[trigger] messages_of(start, input, n)[i] == start[i],
        forall|i: int|
            #![trigger input[i]]
            0 <= i < n ==> member_str(messages_of(start, input, n)[start.len() + i], "role"@)
                == Some(
                if input[i]->Message_role@ == "developer"@ {
                    "system"@
                } else {
                    input[i]->Message_role@
                },
            ),
    decreases n,
{
    if n > 0 {
        plain_conversations_keep_their_order(start, input, n - 1);
        messages_keep_role_and_text(
            messages_of(start, input, n - 1),
            input[n - 1],
            reasoning_at(input, input.len() as int, n - 1),
        );
        let before = messages_of(start, input, n - 1);
        let after = messages_of(start, input, n);
        assert(after.drop_last() == before);
        assert forall|i: int| 0 <= i < before.len() implies after[i] == before[i] by {
            assert(after.drop_last()[i] == after[i]);
        }
        assert(after.last() == after[start.len() + n - 1]);
    }
}

} // verus!
