//! What clients are not sent of the history of a thread.

use vstd::prelude::*;
use vstd::string::*;

use crate::json::{self, items_view, items_view_index, Json, JsonObject, JsonView};
use crate::text;

verus! {

/// What stands in place of what is not sent.
pub const REDACTED_PAYLOAD: &'static str = "[redacted]";

/// The bytes of an image that are sent although the image is kept elsewhere.
pub const MAX_INLINE_PERSISTED_IMAGE_RESULT_BYTES: usize = 65_536;

/// What a call of a tool gave back.
#[derive(Debug, PartialEq)]
pub struct McpToolCallResult {
    pub content: Vec<Json>,
    pub structured_content: Option<Json>,
    pub meta: Option<Json>,
}

/// Why a call of a tool failed.
#[derive(Debug, PartialEq, Eq)]
pub struct McpToolCallError {
    pub message: String,
}

/// A call of a tool. What else belongs to it is kept as a document.
#[derive(Debug, PartialEq)]
pub struct McpToolCall {
    pub id: String,
    pub server: String,
    pub tool: String,
    pub status: String,
    pub arguments: Json,
    pub result: Option<McpToolCallResult>,
    pub error: Option<McpToolCallError>,
    pub duration_ms: Option<i64>,
    pub details: Json,
}

/// An image that was made. What else belongs to it is kept as a document.
#[derive(Debug, PartialEq)]
pub struct ImageGenerationItem {
    pub id: String,
    pub status: String,
    pub result: String,
    pub saved_path: Option<String>,
    pub details: Json,
}

/// An item of a turn.
#[derive(Debug, PartialEq)]
pub enum ThreadItem {
    AgentMessage { id: String, text: String, details: Json },
    McpToolCall(McpToolCall),
    ImageGeneration(ImageGenerationItem),
    /// Any other item.
    Other(Json),
}

/// A turn of a thread. What else belongs to it is kept as a document.
#[derive(Debug, PartialEq)]
pub struct Turn {
    pub id: String,
    pub items: Vec<ThreadItem>,
    pub details: Json,
}

/// The clients that are not sent everything.
pub open spec fn is_remote_client(name: Option<Seq<char>>) -> bool {
    name == Some("codex_chatgpt_android_remote"@) || name == Some("codex_chatgpt_ios_remote"@)
}

/// Whether a client is not sent everything.
pub fn should_redact_thread_resume_payloads(client_name: Option<&str>) -> (r: bool)
    ensures
        r == is_remote_client(json::opt_str(client_name)),
{
    match client_name {
        Some(name) => text::str_eq(name, "codex_chatgpt_android_remote") || text::str_eq(
            name,
            "codex_chatgpt_ios_remote",
        ),
        None => false,
    }
}

/// The document that stands in place of a result.
pub open spec fn redacted_content() -> JsonView {
    JsonView::Object(
        map!["type"@ => JsonView::Str("text"@), "text"@ => JsonView::Str(REDACTED_PAYLOAD@)],
    )
}

/// The result says nothing but that it is not sent.
pub open spec fn is_redacted_result(result: McpToolCallResult) -> bool {
    &&& items_view(result.content@) == seq![redacted_content()]
    &&& result.structured_content is None
    &&& result.meta is None
}

fn redacted_mcp_tool_call_result() -> (r: McpToolCallResult)
    ensures
        is_redacted_result(r),
{
    let mut part = JsonObject::new();
    part.insert(text::owned("type"), Json::string("text"));
    part.insert(text::owned("text"), Json::string(REDACTED_PAYLOAD));
    let mut content: Vec<Json> = Vec::new();
    content.push(Json::Object(part));
    proof {
        items_view_index(content@);
        assert(items_view(content@) =~= seq![redacted_content()]);
    }
    McpToolCallResult { content, structured_content: None, meta: None }
}

/// The call is another one without what it was given, what it gave back and why it failed; that
/// it gave something back, or failed, can still be seen.
pub open spec fn is_redacted_call(r: McpToolCall, call: McpToolCall) -> bool {
    &&& r.id == call.id
    &&& r.server == call.server
    &&& r.tool == call.tool
    &&& r.status == call.status
    &&& r.duration_ms == call.duration_ms
    &&& r.details == call.details
    &&& r.arguments@ == JsonView::Str(REDACTED_PAYLOAD@)
    &&& match call.result {
        Some(_) => r.result matches Some(result) && is_redacted_result(result),
        None => r.result is None,
    }
    &&& match call.error {
        Some(_) => r.error matches Some(error) && error.message@ == REDACTED_PAYLOAD@,
        None => r.error is None,
    }
}

/// The item is another one as a client may see it.
pub open spec fn is_redacted_item(r: ThreadItem, item: ThreadItem) -> bool {
    match item {
        ThreadItem::McpToolCall(call) => r matches ThreadItem::McpToolCall(c) && is_redacted_call(
            c,
            call,
        ),
        ThreadItem::ImageGeneration(_) => false,
        _ => r == item,
    }
}

/// The items that a client is sent at all: all but images.
pub open spec fn sent_items(items: Seq<ThreadItem>) -> Seq<ThreadItem>
    decreases items.len(),
{
    if items.len() == 0 {
        Seq::empty()
    } else if items.last() is ImageGeneration {
        sent_items(items.drop_last())
    } else {
        sent_items(items.drop_last()).push(items.last())
    }
}

/// The items are others as a client may see them.
pub open spec fn are_redacted_items(r: Seq<ThreadItem>, items: Seq<ThreadItem>) -> bool {
    &&& r.len() == sent_items(items).len()
    &&& forall|i: int| 0 <= i < r.len() ==> is_redacted_item(#[trigger] r[i], sent_items(items)[i])
}

/// The turn is another one as a client may see it.
pub open spec fn is_redacted_turn(r: Turn, turn: Turn) -> bool {
    &&& r.id == turn.id
    &&& r.details == turn.details
    &&& are_redacted_items(r.items@, turn.items@)
}

fn redact_call(call: McpToolCall) -> (r: McpToolCall)
    ensures
        is_redacted_call(r, call),
{
    McpToolCall {
        arguments: Json::string(REDACTED_PAYLOAD),
        result: match call.result {
            Some(_) => Some(redacted_mcp_tool_call_result()),
            None => None,
        },
        error: match call.error {
            Some(_) => Some(McpToolCallError { message: text::owned(REDACTED_PAYLOAD) }),
            None => None,
        },
        id: call.id,
        server: call.server,
        tool: call.tool,
        status: call.status,
        duration_ms: call.duration_ms,
        details: call.details,
    }
}

fn redact_items(items: Vec<ThreadItem>) -> (r: Vec<ThreadItem>)
    ensures
        are_redacted_items(r@, items@),
{
    let ghost all = items@;
    let mut rest = items;
    let mut kept: Vec<ThreadItem> = Vec::new();
    let ghost mut n: int = 0;
    assert(all.skip(0) =~= all);
    while rest.len() > 0
        invariant
            0 <= n <= all.len(),
            rest@ == all.skip(n),
            are_redacted_items(kept@, all.take(n)),
        decreases rest@.len(),
    {
        let item = rest.remove(0);
        proof {
            assert(item == all[n]);
            assert(all.take(n + 1).drop_last() =~= all.take(n));
            assert(all.take(n + 1).last() == item);
            assert(rest@ =~= all.skip(n + 1));
            n = n + 1;
        }
        match item {
            ThreadItem::McpToolCall(call) => {
                kept.push(ThreadItem::McpToolCall(redact_call(call)));
            },
            ThreadItem::ImageGeneration(_) => {},
            other => {
                kept.push(other);
            },
        }
    }
    assert(all.take(n) =~= all);
    kept
}

/// Takes out of turns what some clients are not sent: what calls of tools were given and gave
/// back, and images.
pub fn redact_thread_resume_payloads(turns: &mut Vec<Turn>)
    ensures
        final(turns)@.len() == old(turns)@.len(),
        forall|i: int|
            0 <= i < old(turns)@.len() ==> is_redacted_turn(
                #[trigger] final(turns)@[i],
                old(turns)@[i],
            ),
{
    let mut i: usize = 0;
    while i < turns.len()
        invariant
            i <= turns@.len(),
            turns@.len() == old(turns)@.len(),
            forall|k: int|
                0 <= k < i ==> is_redacted_turn(#[trigger] turns@[k], old(turns)@[k]),
            forall|k: int| i <= k < turns@.len() ==> #[trigger] turns@[k] == old(turns)@[k],
        decreases turns@.len() - i,
    {
        let mut items: Vec<ThreadItem> = Vec::new();
        std::mem::swap(&mut items, &mut turns[i].items);
        turns[i].items = redact_items(items);
        i += 1;
    }
}

/// The bytes of an image need not be sent: the image is kept elsewhere, and they are many.
pub open spec fn is_bulky(image: ImageGenerationItem) -> bool {
    image.saved_path is Some && vstd::utf8::encode_utf8(image.result@).len()
        > MAX_INLINE_PERSISTED_IMAGE_RESULT_BYTES
}

/// The item is another one without the bytes of an image that need not be sent.
pub open spec fn is_compacted_item(r: ThreadItem, item: ThreadItem) -> bool {
    match item {
        ThreadItem::ImageGeneration(image) if is_bulky(image) => {
            &&& r matches ThreadItem::ImageGeneration(i)
            &&& i.result@.len() == 0
            &&& i.id == image.id
            &&& i.status == image.status
            &&& i.saved_path == image.saved_path
            &&& i.details == image.details
        },
        _ => r == item,
    }
}

/// The turn is another one without the bytes of images that need not be sent.
pub open spec fn is_compacted_turn(r: Turn, turn: Turn) -> bool {
    &&& r.id == turn.id
    &&& r.details == turn.details
    &&& r.items@.len() == turn.items@.len()
    &&& forall|i: int|
        0 <= i < turn.items@.len() ==> is_compacted_item(#[trigger] r.items@[i], turn.items@[i])
}

fn compact_items(items: &mut Vec<ThreadItem>)
    ensures
        final(items)@.len() == old(items)@.len(),
        forall|i: int|
            0 <= i < old(items)@.len() ==> is_compacted_item(
                #[trigger] final(items)@[i],
                old(items)@[i],
            ),
{
    let mut i: usize = 0;
    while i < items.len()
        invariant
            i <= items@.len(),
            items@.len() == old(items)@.len(),
            forall|k: int|
                0 <= k < i ==> is_compacted_item(#[trigger] items@[k], old(items)@[k]),
            forall|k: int| i <= k < items@.len() ==> #[trigger] items@[k] == old(items)@[k],
        decreases items@.len() - i,
    {
        let bulky = match &items[i] {
            ThreadItem::ImageGeneration(image) => image.saved_path.is_some()
                && image.result.as_str().as_bytes().len()
                > MAX_INLINE_PERSISTED_IMAGE_RESULT_BYTES,
            _ => false,
        };
        if bulky {
            let item = items.remove(i);
            if let ThreadItem::ImageGeneration(image) = item {
                let compact = ImageGenerationItem {
                    id: image.id,
                    status: image.status,
                    result: String::new(),
                    saved_path: image.saved_path,
                    details: image.details,
                };
                items.insert(i, ThreadItem::ImageGeneration(compact));
            }
        }
        i += 1;
    }
}

/// Takes the bytes of large images out of turns, where the images are kept elsewhere.
pub fn compact_thread_history_image_payloads(turns: &mut Vec<Turn>)
    ensures
        final(turns)@.len() == old(turns)@.len(),
        forall|i: int|
            0 <= i < old(turns)@.len() ==> is_compacted_turn(
                #[trigger] final(turns)@[i],
                old(turns)@[i],
            ),
{
    let mut i: usize = 0;
    while i < turns.len()
        invariant
            i <= turns@.len(),
            turns@.len() == old(turns)@.len(),
            forall|k: int|
                0 <= k < i ==> is_compacted_turn(#[trigger] turns@[k], old(turns)@[k]),
            forall|k: int| i <= k < turns@.len() ==> #[trigger] turns@[k] == old(turns)@[k],
        decreases turns@.len() - i,
    {
        let mut items: Vec<ThreadItem> = Vec::new();
        std::mem::swap(&mut items, &mut turns[i].items);
        compact_items(&mut items);
        turns[i].items = items;
        i += 1;
    }
}

// ---------------------------------------------------------------------------------------------
// Laws
// ---------------------------------------------------------------------------------------------

/// No image is among the items that a client is sent, and every other item is.
pub proof fn only_images_are_left_out(items: Seq<ThreadItem>)
    ensures
        sent_items(items).len() <= items.len(),
        forall|i: int|
            0 <= i < sent_items(items).len() ==> !(#[trigger] sent_items(items)[i] is ImageGeneration),
        forall|i: int|
            0 <= i < items.len() && !(#[trigger] items[i] is ImageGeneration) ==> sent_items(
                items,
            ).contains(items[i]),
    decreases items.len(),
{
    if items.len() > 0 {
        let rest = items.drop_last();
        only_images_are_left_out(rest);
        let sent = sent_items(items);
        assert forall|i: int|
            0 <= i < items.len() && !(#[trigger] items[i] is ImageGeneration) implies sent.contains(
            items[i],
        ) by {
            if i < rest.len() {
                assert(rest[i] == items[i]);
                let before = sent_items(rest);
                let j = choose|j: int| 0 <= j < before.len() && before[j] == items[i];
                assert(sent[j] == items[i]);
            } else {
                assert(sent[sent.len() - 1] == items.last());
            }
        }
    }
}

/// What is redacted looks the same when it is redacted again.
pub proof fn redaction_is_stable(r: McpToolCall, call: McpToolCall, again: McpToolCall)
    requires
        is_redacted_call(r, call),
        is_redacted_call(again, r),
    ensures
        again.arguments@ == r.arguments@,
        again.id == r.id && again.server == r.server && again.tool == r.tool && again.status
            == r.status && again.details == r.details,
        again.result is Some == r.result is Some,
        again.result matches Some(x) ==> is_redacted_result(x) && is_redacted_result(r.result->0),
        again.error is Some == r.error is Some,
        again.error matches Some(x) ==> x.message@ == r.error->0.message@,
{
}

/// After compaction no image that is kept elsewhere is bulky, and compacting again changes
/// nothing.
pub proof fn compaction_is_stable(r: ThreadItem, item: ThreadItem, again: ThreadItem)
    requires
        is_compacted_item(r, item),
        is_compacted_item(again, r),
    ensures
        again == r,
        r matches ThreadItem::ImageGeneration(image) ==> !is_bulky(image),
{
    if let ThreadItem::ImageGeneration(image) = r {
        if image.result@.len() == 0 {
            assert(vstd::utf8::encode_utf8(image.result@).len() == 0);
        }
    }
}

/// Two clients are not sent everything, and no others.
pub proof fn remote_clients_are_known_by_name(name: Option<Seq<char>>)
    ensures
        is_remote_client(Some("codex_chatgpt_android_remote"@)),
        is_remote_client(Some("codex_chatgpt_ios_remote"@)),
        !is_remote_client(None),
        is_remote_client(name) ==> name->0 == "codex_chatgpt_android_remote"@ || name->0
            == "codex_chatgpt_ios_remote"@,
{
}

/// Nothing that a call was given, gave back or failed with is sent: words stand in their place.
/// All else is sent as it is, and so is whether there was a result or a failure.
pub proof fn calls_keep_their_outlines(r: McpToolCall, call: McpToolCall)
    requires
        is_redacted_call(r, call),
    ensures
        r.id == call.id && r.server == call.server && r.tool == call.tool && r.status
            == call.status && r.duration_ms == call.duration_ms && r.details == call.details,
        r.arguments@ == JsonView::Str("[redacted]"@),
        r.result is Some <==> call.result is Some,
        r.error is Some <==> call.error is Some,
        r.error is Some ==> r.error->0.message@ == "[redacted]"@,
        r.result is Some ==> r.result->0.structured_content is None && r.result->0.meta is None
            && r.result->0.content@.len() == 1,
        r.result is Some ==> {
            let part = items_view(r.result->0.content@)[0];
            &&& part is Object
            &&& part->Object_0.dom() =~= set!["type"@, "text"@]
            &&& part->Object_0["type"@] == JsonView::Str("text"@)
            &&& part->Object_0["text"@] == JsonView::Str("[redacted]"@)
        },
{
    if let Some(result) = r.result {
        items_view_index(result.content@);
        reveal_strlit("type");
        reveal_strlit("text");
        assert("type"@[1] != "text"@[1]);
    }
}

/// What is sent of a list of items is what is sent of its first items followed by what is sent of
/// the others: an image adds nothing and any other item itself.
pub proof fn items_are_sent_in_order(items: Seq<ThreadItem>, item: ThreadItem)
    ensures
        sent_items(Seq::empty()).len() == 0,
        item is ImageGeneration ==> sent_items(items.push(item)) == sent_items(items),
        !(item is ImageGeneration) ==> sent_items(items.push(item)) == sent_items(items).push(item),
{
    assert(items.push(item).drop_last() =~= items);
}

/// An item that is no call and no image is sent as it is, and a call as a call.
pub proof fn other_items_are_sent_as_they_are(r: ThreadItem, item: ThreadItem)
    requires
        is_redacted_item(r, item),
    ensures
        !(item is ImageGeneration),
        !(item is McpToolCall) ==> r == item,
        item is McpToolCall ==> r is McpToolCall && is_redacted_call(
            r->McpToolCall_0,
            item->McpToolCall_0,
        ),
{
}

/// A turn that is sent is the same turn with what is sent of its items.
pub proof fn turns_stay_themselves(r: Turn, turn: Turn, i: int)
    ensures
        is_redacted_turn(r, turn) ==> r.id == turn.id && r.details == turn.details && r.items@.len()
            == sent_items(turn.items@).len(),
        is_redacted_turn(r, turn) && 0 <= i < r.items@.len() ==> is_redacted_item(
            r.items@[i],
            sent_items(turn.items@)[i],
        ),
        is_compacted_turn(r, turn) ==> r.id == turn.id && r.details == turn.details
            && r.items@.len() == turn.items@.len(),
        is_compacted_turn(r, turn) && 0 <= i < r.items@.len() ==> is_compacted_item(
            r.items@[i],
            turn.items@[i],
        ),
{
}

/// An image loses its bytes where it is kept elsewhere and they are more than 64 KiB; nothing else
/// is lost, and no other item changes.
pub proof fn large_images_lose_their_bytes(
    r: ThreadItem,
    item: ThreadItem,
    image: ImageGenerationItem,
)
    requires
        is_compacted_item(r, item),
    ensures
        !(item is ImageGeneration) ==> r == item,
        item == ThreadItem::ImageGeneration(image) ==> {
            let large = image.saved_path is Some && vstd::utf8::encode_utf8(image.result@).len()
                > 65_536;
            &&& !large ==> r == item
            &&& r is ImageGeneration
            &&& large ==> r->ImageGeneration_0.result@.len() == 0
            &&& r->ImageGeneration_0.id == image.id
            &&& r->ImageGeneration_0.status == image.status
            &&& r->ImageGeneration_0.saved_path == image.saved_path
            &&& r->ImageGeneration_0.details == image.details
        },
{
}

} // verus!
