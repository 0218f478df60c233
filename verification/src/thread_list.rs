//! Listing threads: the cursors that clients hand back, the query that finds a page, the page
//! that comes of its rows, and the search in it.

use vstd::prelude::*;

use crate::json::{
    self, i64_of, items_view_index, json_reading, json_text, member, member_names, reads_back,
    str_of, u64_of, usize_of, usize_refusal, Json, JsonObject, JsonView, RAW_VALUE_NAME,
};
use crate::protocol::SessionSource;
use crate::sql::{QueryView, SqlQuery, SqlValue, SqlValueView};
use crate::store_error::{StoreErrorView, ThreadStoreError};
use crate::text::{self, opt_text, texts};
use crate::thread_id::{is_thread_id, parsed_uuid, ThreadId};
use crate::thread_store::{filter_keys, session_source_filter_keys};
use crate::time::{in_common_years, rfc3339_text, time_in, TimeView, Timestamp};

verus! {

// ---------------------------------------------------------------------------------------------
// Cursors
// ---------------------------------------------------------------------------------------------

/// What threads are ordered by.
#[derive(Debug, Clone, Copy, PartialEq, Eq, Structural)]
pub enum ThreadSortKey {
    CreatedAt,
    UpdatedAt,
    RecencyAt,
    SectionPosition,
}

/// In which direction they are ordered.
#[derive(Debug, Clone, Copy, PartialEq, Eq, Structural)]
pub enum SortDirection {
    Asc,
    Desc,
}

/// The value by which the last thread of a page is ordered.
#[derive(Debug, Clone, Copy, PartialEq, Eq)]
pub enum KeysetCursorValue {
    Timestamp(Timestamp),
    SectionPosition(i64),
}

/// The last thread of a page.
#[derive(Debug, PartialEq, Eq)]
pub struct KeysetCursor {
    pub version: u8,
    pub sort_key: ThreadSortKey,
    pub sort_direction: SortDirection,
    pub value: KeysetCursorValue,
    pub thread_id: ThreadId,
}

/// Where a page begins.
#[derive(Debug, PartialEq, Eq)]
pub enum ThreadListCursor {
    /// At the first thread.
    Start,
    /// After a number of threads.
    LegacyOffset(usize),
    /// After a thread.
    Keyset(KeysetCursor),
}

/// A value by which threads are ordered.
pub enum SortValueView {
    Timestamp(TimeView),
    SectionPosition(i64),
}

/// What a cursor after a thread says.
pub struct KeysetView {
    pub version: u8,
    pub sort_key: ThreadSortKey,
    pub sort_direction: SortDirection,
    pub value: SortValueView,
    pub thread_id: Seq<char>,
}

/// What a cursor says.
pub enum CursorView {
    Start,
    LegacyOffset(usize),
    Keyset(KeysetView),
}

impl View for KeysetCursorValue {
    type V = SortValueView;

    open spec fn view(&self) -> SortValueView {
        match *self {
            KeysetCursorValue::Timestamp(t) => SortValueView::Timestamp(t@),
            KeysetCursorValue::SectionPosition(n) => SortValueView::SectionPosition(n),
        }
    }
}

impl View for KeysetCursor {
    type V = KeysetView;

    open spec fn view(&self) -> KeysetView {
        KeysetView {
            version: self.version,
            sort_key: self.sort_key,
            sort_direction: self.sort_direction,
            value: self.value@,
            thread_id: self.thread_id@,
        }
    }
}

impl View for ThreadListCursor {
    type V = CursorView;

    open spec fn view(&self) -> CursorView {
        match *self {
            ThreadListCursor::Start => CursorView::Start,
            ThreadListCursor::LegacyOffset(n) => CursorView::LegacyOffset(n),
            ThreadListCursor::Keyset(c) => CursorView::Keyset(c@),
        }
    }
}

/// What is said of a cursor that is none.
pub open spec fn cursor_error(reason: Seq<char>) -> StoreErrorView {
    StoreErrorView::InvalidRequest("invalid cursor: "@ + reason)
}

fn invalid_cursor(reason: &str) -> (r: ThreadStoreError)
    ensures
        r@ == cursor_error(reason@),
{
    ThreadStoreError::InvalidRequest { message: text::concat2("invalid cursor: ", reason) }
}

/// The name of what threads are ordered by.
pub open spec fn sort_key_name(key: ThreadSortKey) -> Seq<char> {
    match key {
        ThreadSortKey::CreatedAt => "createdAt"@,
        ThreadSortKey::UpdatedAt => "updatedAt"@,
        ThreadSortKey::RecencyAt => "recencyAt"@,
        ThreadSortKey::SectionPosition => "sectionPosition"@,
    }
}

/// The name of a variant as a document holds it: the name itself, or an object with nothing under
/// that one name.
pub open spec fn variant_in(v: JsonView) -> Option<Seq<char>> {
    match v {
        JsonView::Str(name) => Some(name),
        JsonView::Object(m) => {
            let names = member_names(m);
            if names.len() == 1 && m[names[0]] == JsonView::Null {
                Some(names[0])
            } else {
                None
            }
        },
        _ => None,
    }
}

fn read_variant(v: &Json) -> (r: Option<String>)
    ensures
        opt_text(r) == variant_in(v@),
{
    match v {
        Json::Str(name) => Some(name.clone()),
        Json::Object(members) => {
            let names = members.names();
            if names.len() != 1 {
                return None;
            }
            let name = names[0].as_str();
            assert(texts(names@)[0] == name@);
            assert(texts(names@).contains(name@));
            match members.get(name) {
                Some(Json::Null) => Some(text::owned(name)),
                _ => None,
            }
        },
        _ => None,
    }
}

/// What threads are ordered by under a name.
pub open spec fn sort_key_named(name: Seq<char>) -> Option<ThreadSortKey> {
    if name == "createdAt"@ {
        Some(ThreadSortKey::CreatedAt)
    } else if name == "updatedAt"@ {
        Some(ThreadSortKey::UpdatedAt)
    } else if name == "recencyAt"@ {
        Some(ThreadSortKey::RecencyAt)
    } else if name == "sectionPosition"@ {
        Some(ThreadSortKey::SectionPosition)
    } else {
        None
    }
}

/// The name of a direction.
pub open spec fn direction_name(direction: SortDirection) -> Seq<char> {
    match direction {
        SortDirection::Asc => "asc"@,
        SortDirection::Desc => "desc"@,
    }
}

/// The direction under a name.
pub open spec fn direction_named(name: Seq<char>) -> Option<SortDirection> {
    if name == "asc"@ {
        Some(SortDirection::Asc)
    } else if name == "desc"@ {
        Some(SortDirection::Desc)
    } else {
        None
    }
}

impl ThreadSortKey {
    fn name(self) -> (r: &'static str)
        ensures
            r@ == sort_key_name(self),
    {
        match self {
            ThreadSortKey::CreatedAt => "createdAt",
            ThreadSortKey::UpdatedAt => "updatedAt",
            ThreadSortKey::RecencyAt => "recencyAt",
            ThreadSortKey::SectionPosition => "sectionPosition",
        }
    }

    fn named(name: &str) -> (r: Option<ThreadSortKey>)
        ensures
            r == sort_key_named(name@),
    {
        if text::str_eq(name, "createdAt") {
            Some(ThreadSortKey::CreatedAt)
        } else if text::str_eq(name, "updatedAt") {
            Some(ThreadSortKey::UpdatedAt)
        } else if text::str_eq(name, "recencyAt") {
            Some(ThreadSortKey::RecencyAt)
        } else if text::str_eq(name, "sectionPosition") {
            Some(ThreadSortKey::SectionPosition)
        } else {
            None
        }
    }
}

impl SortDirection {
    fn name(self) -> (r: &'static str)
        ensures
            r@ == direction_name(self),
    {
        match self {
            SortDirection::Asc => "asc",
            SortDirection::Desc => "desc",
        }
    }

    fn named(name: &str) -> (r: Option<SortDirection>)
        ensures
            r == direction_named(name@),
    {
        if text::str_eq(name, "asc") {
            Some(SortDirection::Asc)
        } else if text::str_eq(name, "desc") {
            Some(SortDirection::Desc)
        } else {
            None
        }
    }
}

/// The value of the kind that is named.
pub open spec fn value_of_kind(kind: Seq<char>, content: JsonView) -> Option<SortValueView> {
    if kind == "timestamp"@ {
        match str_of(content) {
            Some(t) => match time_in(t) {
                Some(t) => Some(SortValueView::Timestamp(t)),
                None => None,
            },
            None => None,
        }
    } else if kind == "sectionPosition"@ {
        match i64_of(content) {
            Some(n) => Some(SortValueView::SectionPosition(n)),
            None => None,
        }
    } else {
        None
    }
}

/// The value of a cursor as a document holds it: its kind and the value itself, as members or as
/// the two items of a list.
pub open spec fn sort_value_in(v: JsonView) -> Option<SortValueView> {
    match v {
        JsonView::Array(items) => if items.len() == 2 {
            match str_of(items[0]) {
                Some(kind) => value_of_kind(kind, items[1]),
                None => None,
            }
        } else {
            None
        },
        _ => match (member(v, "kind"@), member(v, "value"@)) {
            (Some(kind), Some(content)) => match variant_in(kind) {
                Some(kind) => value_of_kind(kind, content),
                None => None,
            },
            _ => None,
        },
    }
}

/// The version that a document is.
pub open spec fn version_in(v: JsonView) -> Option<u8> {
    match u64_of(v) {
        Some(n) => if n <= 255 {
            Some(n as u8)
        } else {
            None
        },
        None => None,
    }
}

/// What threads are ordered by, as a document says it.
pub open spec fn sort_key_in(v: JsonView) -> Option<ThreadSortKey> {
    match variant_in(v) {
        Some(name) => sort_key_named(name),
        None => None,
    }
}

/// The direction, as a document says it.
pub open spec fn direction_in(v: JsonView) -> Option<SortDirection> {
    match variant_in(v) {
        Some(name) => direction_named(name),
        None => None,
    }
}

/// The thread that a document names.
pub open spec fn thread_in(v: JsonView) -> Option<Seq<char>> {
    match str_of(v) {
        Some(id) => match parsed_uuid(id) {
            Ok(id) => Some(id),
            Err(_) => None,
        },
        None => None,
    }
}

/// The cursor after a thread that its five parts make.
pub open spec fn keyset_of_parts(
    version: JsonView,
    sort_key: JsonView,
    sort_direction: JsonView,
    value: JsonView,
    thread_id: JsonView,
) -> Option<KeysetView> {
    match (
        version_in(version),
        sort_key_in(sort_key),
        direction_in(sort_direction),
        sort_value_in(value),
        thread_in(thread_id),
    ) {
        (Some(version), Some(sort_key), Some(sort_direction), Some(value), Some(thread_id)) => Some(
            KeysetView { version, sort_key, sort_direction, value, thread_id },
        ),
        _ => None,
    }
}

/// The cursor after a thread that a document is: its parts as members, or as the items of a list.
pub open spec fn keyset_in(v: JsonView) -> Option<KeysetView> {
    match v {
        JsonView::Array(items) => if items.len() == 5 {
            keyset_of_parts(items[0], items[1], items[2], items[3], items[4])
        } else {
            None
        },
        _ => match (
            member(v, "version"@),
            member(v, "sortKey"@),
            member(v, "sortDirection"@),
            member(v, "value"@),
            member(v, "threadId"@),
        ) {
            (
                Some(version),
                Some(sort_key),
                Some(sort_direction),
                Some(value),
                Some(thread_id),
            ) => keyset_of_parts(version, sort_key, sort_direction, value, thread_id),
            _ => None,
        },
    }
}

/// The cursor that a document is: an old one, where it tells an offset, or one after a thread. An
/// old one is refused in the words in which its offset is; `refusal` is what is said of a document
/// that should be a cursor after a thread and is none.
pub open spec fn cursor_in(v: JsonView, refusal: Seq<char>) -> Result<CursorView, StoreErrorView> {
    match member(v, "offset"@) {
        Some(offset) => match usize_of(offset) {
            Some(n) => Ok(CursorView::LegacyOffset(n)),
            None => Err(cursor_error(usize_refusal(offset))),
        },
        None => match keyset_in(v) {
            Some(c) => Ok(CursorView::Keyset(c)),
            None => Err(cursor_error(refusal)),
        },
    }
}

/// The cursor that a text is.
pub open spec fn decoded_cursor(cursor: Option<Seq<char>>, refusal: Seq<char>) -> Result<
    CursorView,
    StoreErrorView,
> {
    match cursor {
        None => Ok(CursorView::Start),
        Some(cursor) => match json_reading(cursor) {
            Ok(v) => cursor_in(v, refusal),
            Err(e) => Err(cursor_error(e)),
        },
    }
}

/// What a result of reading a cursor says.
pub open spec fn cursor_result(r: Result<ThreadListCursor, ThreadStoreError>) -> Result<
    CursorView,
    StoreErrorView,
> {
    match r {
        Ok(c) => Ok(c@),
        Err(e) => Err(e@),
    }
}

fn read_sort_value(v: &Json) -> (r: Option<KeysetCursorValue>)
    ensures
        match r {
            Some(value) => sort_value_in(v@) == Some(value@),
            None => sort_value_in(v@) is None,
        },
{
    if let Json::Array(items) = v {
        proof {
            items_view_index(items@);
        }
        if items.len() != 2 {
            return None;
        }
        return match items[0].as_str() {
            Some(kind) => read_value_of_kind(kind, &items[1]),
            None => None,
        };
    }
    match (v.get("kind"), v.get("value")) {
        (Some(kind), Some(content)) => match read_variant(kind) {
            Some(kind) => read_value_of_kind(kind.as_str(), content),
            None => None,
        },
        _ => None,
    }
}

fn read_value_of_kind(kind: &str, content: &Json) -> (r: Option<KeysetCursorValue>)
    ensures
        match r {
            Some(value) => value_of_kind(kind@, content@) == Some(value@),
            None => value_of_kind(kind@, content@) is None,
        },
{
    if text::str_eq(kind, "timestamp") {
        match content.as_str() {
            Some(value) => match Timestamp::parse(value) {
                Some(t) => Some(KeysetCursorValue::Timestamp(t)),
                None => None,
            },
            None => None,
        }
    } else if text::str_eq(kind, "sectionPosition") {
        match content.as_i64() {
            Some(n) => Some(KeysetCursorValue::SectionPosition(n)),
            None => None,
        }
    } else {
        None
    }
}

fn read_version(v: &Json) -> (r: Option<u8>)
    ensures
        r == version_in(v@),
{
    match v.as_u64() {
        Some(n) => if n <= 255 {
            Some(n as u8)
        } else {
            None
        },
        None => None,
    }
}

fn read_sort_key(v: &Json) -> (r: Option<ThreadSortKey>)
    ensures
        r == sort_key_in(v@),
{
    match read_variant(v) {
        Some(name) => ThreadSortKey::named(name.as_str()),
        None => None,
    }
}

fn read_direction(v: &Json) -> (r: Option<SortDirection>)
    ensures
        r == direction_in(v@),
{
    match read_variant(v) {
        Some(name) => SortDirection::named(name.as_str()),
        None => None,
    }
}

fn read_thread(v: &Json) -> (r: Option<ThreadId>)
    ensures
        match r {
            Some(id) => thread_in(v@) == Some(id@),
            None => thread_in(v@) is None,
        },
{
    match v.as_str() {
        Some(id) => match ThreadId::from_string(id) {
            Ok(id) => Some(id),
            Err(_) => None,
        },
        None => None,
    }
}

fn read_parts(
    version: &Json,
    sort_key: &Json,
    sort_direction: &Json,
    value: &Json,
    thread_id: &Json,
) -> (r: Option<KeysetCursor>)
    ensures
        ({
            let parts = keyset_of_parts(
                version@,
                sort_key@,
                sort_direction@,
                value@,
                thread_id@,
            );
            match r {
                Some(c) => parts == Some(c@),
                None => parts is None,
            }
        }),
{
    match (
        read_version(version),
        read_sort_key(sort_key),
        read_direction(sort_direction),
        read_sort_value(value),
        read_thread(thread_id),
    ) {
        (Some(version), Some(sort_key), Some(sort_direction), Some(value), Some(thread_id)) => Some(
            KeysetCursor { version, sort_key, sort_direction, value, thread_id },
        ),
        _ => None,
    }
}

fn read_keyset(v: &Json) -> (r: Option<KeysetCursor>)
    ensures
        match r {
            Some(c) => keyset_in(v@) == Some(c@),
            None => keyset_in(v@) is None,
        },
{
    if let Json::Array(items) = v {
        proof {
            items_view_index(items@);
        }
        if items.len() != 5 {
            return None;
        }
        return read_parts(&items[0], &items[1], &items[2], &items[3], &items[4]);
    }
    match (
        v.get("version"),
        v.get("sortKey"),
        v.get("sortDirection"),
        v.get("value"),
        v.get("threadId"),
    ) {
        (Some(version), Some(sort_key), Some(sort_direction), Some(value), Some(thread_id)) => {
            read_parts(version, sort_key, sort_direction, value, thread_id)
        },
        _ => None,
    }
}

/// Reads the cursor that a document is. The words for a document that is no cursor after a thread
/// are those of whoever deserializes such documents: `refusal`.
pub fn thread_list_cursor_from_value(value: &Json, refusal: &str) -> (r: Result<
    ThreadListCursor,
    ThreadStoreError,
>)
    ensures
        cursor_result(r) == cursor_in(value@, refusal@),
{
    if let Some(offset) = value.get("offset") {
        return match offset.read_usize() {
            Ok(n) => Ok(ThreadListCursor::LegacyOffset(n)),
            Err(e) => Err(invalid_cursor(e.as_str())),
        };
    }
    match read_keyset(value) {
        Some(c) => Ok(ThreadListCursor::Keyset(c)),
        None => Err(invalid_cursor(refusal)),
    }
}

/// Reads the cursor that a client handed back.
pub fn decode_thread_list_cursor(cursor: Option<&str>, refusal: &str) -> (r: Result<
    ThreadListCursor,
    ThreadStoreError,
>)
    ensures
        cursor_result(r) == decoded_cursor(json::opt_str(cursor), refusal@),
{
    let cursor = match cursor {
        Some(cursor) => cursor,
        None => return Ok(ThreadListCursor::Start),
    };
    match Json::read(cursor) {
        Ok(value) => thread_list_cursor_from_value(&value, refusal),
        Err(e) => Err(invalid_cursor(e.as_str())),
    }
}

/// The value of a cursor is of the kind that threads are ordered by.
pub open spec fn value_fits_key(key: ThreadSortKey, value: SortValueView) -> bool {
    (key == ThreadSortKey::SectionPosition) == (value is SectionPosition)
}

/// What is wrong with a cursor after a thread, given the order that is asked for.
pub open spec fn keyset_fault(
    cursor: KeysetView,
    sort_key: ThreadSortKey,
    sort_direction: SortDirection,
) -> Option<Seq<char>> {
    if cursor.version != 1 || cursor.sort_key != sort_key || cursor.sort_direction
        != sort_direction {
        Some("cursor does not match the requested sort order"@)
    } else if !value_fits_key(sort_key, cursor.value) {
        Some("cursor value does not match the requested sort key"@)
    } else {
        None
    }
}

/// Refuses a cursor that belongs to another order.
pub fn validate_keyset_cursor(
    cursor: &KeysetCursor,
    sort_key: ThreadSortKey,
    sort_direction: SortDirection,
) -> (r: Result<(), ThreadStoreError>)
    ensures
        match r {
            Ok(_) => keyset_fault(cursor@, sort_key, sort_direction) is None,
            Err(e) => keyset_fault(cursor@, sort_key, sort_direction) matches Some(reason) && e@
                == cursor_error(reason),
        },
{
    if cursor.version != 1 || cursor.sort_key != sort_key || cursor.sort_direction
        != sort_direction {
        return Err(invalid_cursor("cursor does not match the requested sort order"));
    }
    let positional = match cursor.value {
        KeysetCursorValue::Timestamp(_) => false,
        KeysetCursorValue::SectionPosition(_) => true,
    };
    if (sort_key == ThreadSortKey::SectionPosition) == positional {
        Ok(())
    } else {
        Err(invalid_cursor("cursor value does not match the requested sort key"))
    }
}

/// The document of a value by which threads are ordered.
pub open spec fn sort_value_view(value: SortValueView) -> JsonView {
    match value {
        SortValueView::Timestamp(t) => JsonView::Object(
            map![
                "kind"@ => JsonView::Str("timestamp"@),
                "value"@ => JsonView::Str(rfc3339_text(t.seconds, t.nanos)),
            ],
        ),
        SortValueView::SectionPosition(n) => JsonView::Object(
            map![
                "kind"@ => JsonView::Str("sectionPosition"@),
                "value"@ => JsonView::Int(n as int),
            ],
        ),
    }
}

/// The document of a cursor after a thread.
pub open spec fn keyset_view(c: KeysetView) -> JsonView {
    JsonView::Object(
        map![
            "version"@ => JsonView::Int(c.version as int),
            "sortKey"@ => JsonView::Str(sort_key_name(c.sort_key)),
            "sortDirection"@ => JsonView::Str(direction_name(c.sort_direction)),
            "value"@ => sort_value_view(c.value),
            "threadId"@ => JsonView::Str(c.thread_id),
        ],
    )
}

/// The value is a position, or an instant of the years of four digits.
pub open spec fn value_is_common(value: SortValueView) -> bool {
    value matches SortValueView::Timestamp(t) ==> in_common_years(t.seconds, t.nanos)
}

/// The text is a cursor after a thread, whatever is said of those that are none.
pub open spec fn decodes_to(cursor: Seq<char>, c: KeysetView) -> bool {
    forall|refusal: Seq<char>| #[trigger]
        decoded_cursor(Some(cursor), refusal) == Ok::<CursorView, StoreErrorView>(
            CursorView::Keyset(c),
        )
}

/// The cursor that is handed out after a thread.
pub open spec fn handed_out(
    value: SortValueView,
    thread_id: Seq<char>,
    sort_key: ThreadSortKey,
    sort_direction: SortDirection,
) -> KeysetView {
    KeysetView { version: 1, sort_key, sort_direction, value, thread_id }
}

/// Writes the cursor that is handed out after a thread. It is read back as it was, where its
/// value is a position or an instant of the years of four digits.
pub fn encode_keyset_cursor(
    value: KeysetCursorValue,
    thread_id: &ThreadId,
    sort_key: ThreadSortKey,
    sort_direction: SortDirection,
) -> (r: String)
    ensures
        r@ == json_text(keyset_view(handed_out(value@, thread_id@, sort_key, sort_direction))),
        value_is_common(value@) ==> decodes_to(
            r@,
            handed_out(value@, thread_id@, sort_key, sort_direction),
        ),
{
    let mut inner = JsonObject::new();
    match value {
        KeysetCursorValue::Timestamp(t) => {
            inner.insert(text::owned("kind"), Json::string("timestamp"));
            inner.insert(text::owned("value"), Json::Str(t.text()));
        },
        KeysetCursorValue::SectionPosition(n) => {
            inner.insert(text::owned("kind"), Json::string("sectionPosition"));
            inner.insert(text::owned("value"), Json::integer(n));
        },
    }
    assert(JsonView::Object(inner@) == sort_value_view(value@));
    let mut o = JsonObject::new();
    o.insert(text::owned("version"), Json::integer(1));
    o.insert(text::owned("sortKey"), Json::string(sort_key.name()));
    o.insert(text::owned("sortDirection"), Json::string(sort_direction.name()));
    o.insert(text::owned("value"), Json::Object(inner));
    let id = thread_id.as_str();
    o.insert(text::owned("threadId"), Json::string(id));
    let document = Json::Object(o);
    let ghost c = handed_out(value@, thread_id@, sort_key, sort_direction);
    assert(document@ == keyset_view(c));
    proof {
        keyset_documents_read_back(c);
        if value_is_common(value@) {
            assert forall|refusal: Seq<char>| #[trigger]
                cursor_in(keyset_view(c), refusal) == Ok::<CursorView, StoreErrorView>(
                    CursorView::Keyset(c),
                ) by {
                cursors_come_back(c, refusal);
            }
        }
    }
    document.text()
}

proof fn lemma_field_names()
    ensures
        "version"@ != "sortKey"@ && "version"@ != "sortDirection"@ && "version"@ != "value"@
            && "version"@ != "threadId"@ && "version"@ != "offset"@,
        "sortKey"@ != "sortDirection"@ && "sortKey"@ != "value"@ && "sortKey"@ != "threadId"@
            && "sortKey"@ != "offset"@,
        "sortDirection"@ != "value"@ && "sortDirection"@ != "threadId"@ && "sortDirection"@
            != "offset"@,
        "value"@ != "threadId"@ && "value"@ != "offset"@ && "threadId"@ != "offset"@,
        "kind"@ != "value"@,
        "timestamp"@ != "sectionPosition"@,
{
    reveal_strlit("version");
    reveal_strlit("sortKey");
    reveal_strlit("sortDirection");
    reveal_strlit("value");
    reveal_strlit("threadId");
    reveal_strlit("offset");
    reveal_strlit("kind");
    reveal_strlit("timestamp");
    reveal_strlit("sectionPosition");
    assert("version"@.len() == 7 && "sortKey"@.len() == 7 && "sortDirection"@.len() == 13
        && "value"@.len() == 5 && "threadId"@.len() == 8 && "offset"@.len() == 6 && "kind"@.len()
        == 4 && "timestamp"@.len() == 9 && "sectionPosition"@.len() == 15);
    assert("version"@[0] != "sortKey"@[0]);
}

proof fn lemma_order_names(key: ThreadSortKey, direction: SortDirection)
    ensures
        sort_key_named(sort_key_name(key)) == Some(key),
        direction_named(direction_name(direction)) == Some(direction),
{
    reveal_strlit("createdAt");
    reveal_strlit("updatedAt");
    reveal_strlit("recencyAt");
    reveal_strlit("sectionPosition");
    reveal_strlit("asc");
    reveal_strlit("desc");
    assert("createdAt"@[0] == 'c' && "updatedAt"@[0] == 'u' && "recencyAt"@[0] == 'r'
        && "sectionPosition"@[0] == 's');
    assert("asc"@.len() == 3 && "desc"@.len() == 4);
}

proof fn lemma_not_raw()
    ensures
        RAW_VALUE_NAME@.len() == 30,
        "version"@.len() == 7 && "sortKey"@.len() == 7 && "sortDirection"@.len() == 13
            && "value"@.len() == 5 && "threadId"@.len() == 8 && "kind"@.len() == 4,
{
    reveal_strlit("$serde_json::private::RawValue");
    reveal_strlit("version");
    reveal_strlit("sortKey");
    reveal_strlit("sortDirection");
    reveal_strlit("value");
    reveal_strlit("threadId");
    reveal_strlit("kind");
}

proof fn keyset_documents_read_back(c: KeysetView)
    ensures
        reads_back(keyset_view(c)),
{
    lemma_not_raw();
    let inner = sort_value_view(c.value)->Object_0;
    assert(!inner.contains_key(RAW_VALUE_NAME@));
    assert forall|k: Seq<char>| #[trigger] inner.contains_key(k) implies json::nests_within(
        inner[k],
        125,
    ) by {
        assert(inner[k] is Str || inner[k] is Int);
    }
    assert(json::nests_within(sort_value_view(c.value), 126));
    let m = keyset_view(c)->Object_0;
    assert(!m.contains_key(RAW_VALUE_NAME@));
    assert forall|k: Seq<char>| #[trigger] m.contains_key(k) implies json::nests_within(
        m[k],
        126,
    ) by {
        assert(m[k] is Str || m[k] is Int || m[k] == sort_value_view(c.value));
    }
}

// ---------------------------------------------------------------------------------------------
// Queries
// ---------------------------------------------------------------------------------------------

/// What threads a client asks for.
#[derive(Debug)]
pub struct ListThreadsParams {
    pub page_size: usize,
    pub cursor: Option<String>,
    pub sort_key: ThreadSortKey,
    pub sort_direction: SortDirection,
    pub allowed_sources: Vec<SessionSource>,
    pub model_providers: Option<Vec<String>>,
    pub cwd_filters: Option<Vec<String>>,
    pub section: Option<Option<String>>,
    pub project_id: Option<Option<String>>,
    pub archived: bool,
    pub search_term: Option<String>,
    pub relation_filter: Option<ThreadRelationFilter>,
    /// Only what the database holds is asked, and no files. A list that comes out of the database
    /// is the same either way.
    pub use_state_db_only: bool,
}

/// Which threads stand to which other.
#[derive(Debug, PartialEq, Eq)]
pub enum ThreadRelationFilter {
    DirectChildrenOf(ThreadId),
    DescendantsOf(ThreadId),
}

/// The column that threads are ordered by.
pub open spec fn column_of(key: ThreadSortKey) -> Seq<char> {
    match key {
        ThreadSortKey::CreatedAt => "created_at"@,
        ThreadSortKey::UpdatedAt => "updated_at"@,
        ThreadSortKey::RecencyAt => "recency_at"@,
        ThreadSortKey::SectionPosition => "((stored_thread_json ->> 'section_position')::bigint)"@,
    }
}

fn sort_column(key: ThreadSortKey) -> (r: &'static str)
    ensures
        r@ == column_of(key),
{
    match key {
        ThreadSortKey::CreatedAt => "created_at",
        ThreadSortKey::UpdatedAt => "updated_at",
        ThreadSortKey::RecencyAt => "recency_at",
        ThreadSortKey::SectionPosition => "((stored_thread_json ->> 'section_position')::bigint)",
    }
}

/// The condition that leaves out threads in which nothing was said: those without a preview and
/// without a turn whose items only say how the session was set up.
pub const EXCLUDE_EMPTY_SHELL_THREADS: &'static str =
    "\n AND NOT (\n    preview = ''\n    AND EXISTS (\n        SELECT 1 FROM thread_items\n        WHERE thread_items.thread_id = threads.id\n    )\n    AND NOT EXISTS (\n        SELECT 1 FROM turns\n        WHERE turns.thread_id = threads.id\n    )\n    AND NOT EXISTS (\n        SELECT 1 FROM thread_items\n        WHERE thread_items.thread_id = threads.id\n          AND (\n            COALESCE(item_json->>'type', '') <> 'event_msg'\n            OR COALESCE(item_json->'payload'->>'type', '') NOT IN ('session_configured', 'warning')\n          )\n    )\n)\n";

/// The keys under which the first `n` sources may be found.
pub open spec fn source_keys(sources: Seq<SessionSource>, n: int) -> Seq<Seq<char>>
    decreases n,
{
    if n <= 0 {
        Seq::empty()
    } else {
        source_keys(sources, n - 1) + filter_keys(
            sources[n - 1].value@,
            sources[n - 1].debug@,
            sources[n - 1].display@,
        )
    }
}

/// The threads of a workspace, archived or not.
pub open spec fn base_query(p: ListThreadsParams, workspace_id: Seq<char>) -> QueryView {
    let q = QueryView { sql: "SELECT stored_thread_json, "@, binds: Seq::empty() }.text(
        column_of(p.sort_key),
    ).text(" AS cursor_sort_value FROM threads WHERE workspace_id = "@).bind(
        SqlValueView::Text(workspace_id),
    );
    if p.archived {
        q.text(" AND archived_at IS NOT NULL"@)
    } else {
        q.text(" AND archived_at IS NULL"@).text(EXCLUDE_EMPTY_SHELL_THREADS@)
    }
}

/// The threads of which a column is among the given texts.
pub open spec fn any_of(q: QueryView, condition: Seq<char>, values: Seq<Seq<char>>) -> QueryView {
    q.text(condition).bind(SqlValueView::Texts(values)).text(")"@)
}

/// The threads from the given sources, with the given models, in the given directories.
pub open spec fn origin_filters(q: QueryView, p: ListThreadsParams) -> QueryView {
    let q = if p.allowed_sources@.len() == 0 {
        q
    } else {
        any_of(
            q,
            " AND source = ANY("@,
            source_keys(p.allowed_sources@, p.allowed_sources@.len() as int),
        )
    };
    let q = match p.model_providers {
        Some(providers) if providers@.len() > 0 => any_of(
            q,
            " AND model_provider = ANY("@,
            texts(providers@),
        ),
        _ => q,
    };
    match p.cwd_filters {
        Some(directories) => any_of(q, " AND cwd = ANY("@, texts(directories@)),
        None => q,
    }
}

/// The threads of a section and of a project, or of none.
pub open spec fn place_filters(q: QueryView, p: ListThreadsParams) -> QueryView {
    let q = match p.section {
        Some(Some(id)) => q.text(" AND stored_thread_json #>> '{section,id}' = "@).bind(
            SqlValueView::Text(id@),
        ),
        Some(None) => q.text(" AND stored_thread_json #>> '{section,id}' IS NULL"@),
        None => q,
    };
    match p.project_id {
        Some(Some(id)) => q.text(" AND stored_thread_json ->> 'project_id' = "@).bind(
            SqlValueView::Text(id@),
        ),
        Some(None) => q.text(" AND stored_thread_json ->> 'project_id' IS NULL"@),
        None => q,
    }
}

/// The threads in which a term occurs.
pub open spec fn search_filter(q: QueryView, p: ListThreadsParams) -> QueryView {
    match p.search_term {
        Some(term) if term@.len() > 0 => {
            let pattern = SqlValueView::Text("%"@ + term@ + "%"@);
            q.text(" AND (preview ILIKE "@).bind(pattern).text(" OR title ILIKE "@).bind(
                pattern,
            ).text(
                " OR EXISTS (SELECT 1 FROM thread_items WHERE thread_items.thread_id = threads.id AND item_json::text ILIKE "@,
            ).bind(pattern).text("))"@)
        },
        _ => q,
    }
}

/// The threads that a thread spawned, itself or through others.
pub open spec fn relation_filter(q: QueryView, p: ListThreadsParams) -> QueryView {
    match p.relation_filter {
        Some(ThreadRelationFilter::DirectChildrenOf(id)) => q.text(
            " AND parent_thread_id = "@,
        ).bind(SqlValueView::Text(id@)),
        Some(ThreadRelationFilter::DescendantsOf(id)) => q.text(
            " AND id IN (WITH RECURSIVE subtree(child_thread_id) AS ("@,
        ).text("SELECT child_thread_id FROM thread_spawn_edges WHERE parent_thread_id = "@).bind(
            SqlValueView::Text(id@),
        ).text(
            " UNION ALL SELECT edge.child_thread_id FROM thread_spawn_edges AS edge JOIN subtree ON edge.parent_thread_id = subtree.child_thread_id"@,
        ).text(") SELECT child_thread_id FROM subtree)"@),
        None => q,
    }
}

/// The value of a cursor as it is sent along.
pub open spec fn bound_value(value: SortValueView) -> SqlValueView {
    match value {
        SortValueView::Timestamp(t) => SqlValueView::Time(t),
        SortValueView::SectionPosition(n) => SqlValueView::Integer(n),
    }
}

/// The threads that come after the one of a cursor, in the order of the column and then of the
/// identifiers.
pub open spec fn keyset_filter(
    q: QueryView,
    cursor: KeysetView,
    column: Seq<char>,
    direction: SortDirection,
) -> QueryView {
    let operator = match direction {
        SortDirection::Asc => ">"@,
        SortDirection::Desc => "<"@,
    };
    q.text(" AND ("@).text(column).text(" "@).text(operator).text(" "@).bind(
        bound_value(cursor.value),
    ).text(" OR ("@).text(column).text(" = "@).bind(bound_value(cursor.value)).text(
        " AND id "@,
    ).text(operator).text(" "@).bind(SqlValueView::Text(cursor.thread_id)).text("))"@)
}

/// The order of the threads, the threads that are passed over, and one thread more than a page
/// holds.
pub open spec fn page_clauses(q: QueryView, p: ListThreadsParams, cursor: CursorView) -> QueryView {
    let direction = match p.sort_direction {
        SortDirection::Asc => "ASC"@,
        SortDirection::Desc => "DESC"@,
    };
    let q = q.text(" ORDER BY "@).text(column_of(p.sort_key)).text(" "@).text(direction).text(
        ", id "@,
    ).text(direction);
    let q = match cursor {
        CursorView::LegacyOffset(n) => q.text(" OFFSET "@).bind(SqlValueView::Integer(n as i64)),
        _ => q,
    };
    q.text(" LIMIT "@).bind(SqlValueView::Integer((page_size_of(p) + 1) as i64))
}

/// The threads that a page holds, at least one.
pub open spec fn page_size_of(p: ListThreadsParams) -> int {
    if p.page_size > 1 {
        p.page_size as int
    } else {
        1
    }
}

/// The query for a page of threads.
pub open spec fn list_query(
    p: ListThreadsParams,
    workspace_id: Seq<char>,
    cursor: CursorView,
) -> QueryView {
    let q = origin_filters(base_query(p, workspace_id), p);
    let q = relation_filter(search_filter(place_filters(q, p), p), p);
    let q = match cursor {
        CursorView::Keyset(c) => keyset_filter(q, c, column_of(p.sort_key), p.sort_direction),
        _ => q,
    };
    page_clauses(q, p, cursor)
}

fn push_any_of(q: &mut SqlQuery, condition: &str, values: Vec<String>)
    ensures
        final(q)@ == any_of(old(q)@, condition@, texts(values@)),
{
    q.push(condition);
    q.push_bind(SqlValue::Texts(values));
    q.push(")");
}

fn push_base(p: &ListThreadsParams, workspace_id: &str) -> (r: SqlQuery)
    ensures
        r@ == base_query(*p, workspace_id@),
{
    let mut q = SqlQuery::new("SELECT stored_thread_json, ");
    q.push(sort_column(p.sort_key));
    q.push(" AS cursor_sort_value FROM threads WHERE workspace_id = ");
    q.push_bind(SqlValue::Text(text::owned(workspace_id)));
    if p.archived {
        q.push(" AND archived_at IS NOT NULL");
    } else {
        q.push(" AND archived_at IS NULL");
        q.push(EXCLUDE_EMPTY_SHELL_THREADS);
    }
    q
}

fn all_source_keys(sources: &Vec<SessionSource>) -> (r: Vec<String>)
    ensures
        texts(r@) == source_keys(sources@, sources@.len() as int),
{
    let mut all: Vec<String> = Vec::new();
    let mut i: usize = 0;
    assert(texts(all@) =~= Seq::empty());
    while i < sources.len()
        invariant
            i <= sources.len(),
            texts(all@) == source_keys(sources@, i as int),
        decreases sources.len() - i,
    {
        let mut keys = session_source_filter_keys(&sources[i]);
        let ghost before = all@;
        let ghost more = keys@;
        all.append(&mut keys);
        assert(texts(all@) =~= texts(before) + texts(more));
        i += 1;
    }
    all
}

fn copy_texts(values: &Vec<String>) -> (r: Vec<String>)
    ensures
        texts(r@) == texts(values@),
{
    let mut copy: Vec<String> = Vec::new();
    let mut i: usize = 0;
    while i < values.len()
        invariant
            i <= values.len(),
            copy@.len() == i,
            forall|k: int| 0 <= k < i ==> (#[trigger] copy@[k])@ == values@[k]@,
        decreases values.len() - i,
    {
        copy.push(values[i].clone());
        i += 1;
    }
    assert(texts(copy@) =~= texts(values@));
    copy
}

fn push_origin_filters(q: &mut SqlQuery, p: &ListThreadsParams)
    ensures
        final(q)@ == origin_filters(old(q)@, *p),
{
    if p.allowed_sources.len() > 0 {
        push_any_of(q, " AND source = ANY(", all_source_keys(&p.allowed_sources));
    }
    if let Some(providers) = &p.model_providers {
        if providers.len() > 0 {
            push_any_of(q, " AND model_provider = ANY(", copy_texts(providers));
        }
    }
    if let Some(directories) = &p.cwd_filters {
        push_any_of(q, " AND cwd = ANY(", copy_texts(directories));
    }
}

fn push_place_filters(q: &mut SqlQuery, p: &ListThreadsParams)
    ensures
        final(q)@ == place_filters(old(q)@, *p),
{
    if let Some(section) = &p.section {
        match section {
            Some(id) => {
                q.push(" AND stored_thread_json #>> '{section,id}' = ");
                q.push_bind(SqlValue::Text(id.clone()));
            },
            None => {
                q.push(" AND stored_thread_json #>> '{section,id}' IS NULL");
            },
        }
    }
    if let Some(project_id) = &p.project_id {
        match project_id {
            Some(id) => {
                q.push(" AND stored_thread_json ->> 'project_id' = ");
                q.push_bind(SqlValue::Text(id.clone()));
            },
            None => {
                q.push(" AND stored_thread_json ->> 'project_id' IS NULL");
            },
        }
    }
}

fn push_search_filter(q: &mut SqlQuery, p: &ListThreadsParams)
    ensures
        final(q)@ == search_filter(old(q)@, *p),
{
    if let Some(term) = &p.search_term {
        if !term.as_str().is_empty() {
            let pattern = text::concat3("%", term.as_str(), "%");
            q.push(" AND (preview ILIKE ");
            q.push_bind(SqlValue::Text(pattern.clone()));
            q.push(" OR title ILIKE ");
            q.push_bind(SqlValue::Text(pattern.clone()));
            q.push(
                " OR EXISTS (SELECT 1 FROM thread_items WHERE thread_items.thread_id = threads.id AND item_json::text ILIKE ",
            );
            q.push_bind(SqlValue::Text(pattern));
            q.push("))");
        }
    }
}

fn push_relation_filter(q: &mut SqlQuery, p: &ListThreadsParams)
    ensures
        final(q)@ == relation_filter(old(q)@, *p),
{
    match &p.relation_filter {
        Some(ThreadRelationFilter::DirectChildrenOf(id)) => {
            q.push(" AND parent_thread_id = ");
            q.push_bind(SqlValue::Text(text::owned(id.as_str())));
        },
        Some(ThreadRelationFilter::DescendantsOf(id)) => {
            q.push(" AND id IN (WITH RECURSIVE subtree(child_thread_id) AS (");
            q.push("SELECT child_thread_id FROM thread_spawn_edges WHERE parent_thread_id = ");
            q.push_bind(SqlValue::Text(text::owned(id.as_str())));
            q.push(
                " UNION ALL SELECT edge.child_thread_id FROM thread_spawn_edges AS edge JOIN subtree ON edge.parent_thread_id = subtree.child_thread_id",
            );
            q.push(") SELECT child_thread_id FROM subtree)");
        },
        None => {},
    }
}

fn cursor_value(value: KeysetCursorValue) -> (r: SqlValue)
    ensures
        r@ == bound_value(value@),
{
    match value {
        KeysetCursorValue::Timestamp(t) => SqlValue::Time(t),
        KeysetCursorValue::SectionPosition(n) => SqlValue::Integer(n),
    }
}

fn push_keyset_cursor_filter(
    q: &mut SqlQuery,
    cursor: &KeysetCursor,
    column: &str,
    direction: SortDirection,
)
    ensures
        final(q)@ == keyset_filter(old(q)@, cursor@, column@, direction),
{
    let operator = match direction {
        SortDirection::Asc => ">",
        SortDirection::Desc => "<",
    };
    q.push(" AND (");
    q.push(column);
    q.push(" ");
    q.push(operator);
    q.push(" ");
    q.push_bind(cursor_value(cursor.value));
    q.push(" OR (");
    q.push(column);
    q.push(" = ");
    q.push_bind(cursor_value(cursor.value));
    q.push(" AND id ");
    q.push(operator);
    q.push(" ");
    q.push_bind(SqlValue::Text(text::owned(cursor.thread_id.as_str())));
    q.push("))");
}

fn push_page_clauses(q: &mut SqlQuery, p: &ListThreadsParams, cursor: &ThreadListCursor)
    requires
        p.page_size < usize::MAX,
    ensures
        final(q)@ == page_clauses(old(q)@, *p, cursor@),
{
    let direction = match p.sort_direction {
        SortDirection::Asc => "ASC",
        SortDirection::Desc => "DESC",
    };
    q.push(" ORDER BY ");
    q.push(sort_column(p.sort_key));
    q.push(" ");
    q.push(direction);
    q.push(", id ");
    q.push(direction);
    if let ThreadListCursor::LegacyOffset(offset) = cursor {
        q.push(" OFFSET ");
        q.push_bind(SqlValue::Integer(*offset as i64));
    }
    q.push(" LIMIT ");
    let page_size: usize = page_size(p);
    q.push_bind(SqlValue::Integer((page_size + 1) as i64));
}

/// The threads that a page holds, at least one.
pub fn page_size(p: &ListThreadsParams) -> (r: usize)
    ensures
        r == page_size_of(*p),
{
    if p.page_size > 1 {
        p.page_size
    } else {
        1
    }
}

/// How a page of threads is found.
#[derive(Debug)]
pub enum ListPlan {
    /// It is empty.
    EmptyPage,
    /// By a query.
    Query(SqlQuery),
}

/// How the page after a cursor is found. A request that allows no directory finds nothing.
pub open spec fn list_plan(
    p: ListThreadsParams,
    workspace_id: Seq<char>,
    cursor: CursorView,
) -> Option<QueryView> {
    if p.cwd_filters matches Some(directories) && directories@.len() == 0 {
        None
    } else {
        Some(list_query(p, workspace_id, cursor))
    }
}

/// What is wrong with a request, given its cursor.
pub open spec fn list_fault(
    p: ListThreadsParams,
    cursor: Result<CursorView, StoreErrorView>,
) -> Option<StoreErrorView> {
    match cursor {
        Err(e) => Some(e),
        Ok(CursorView::Keyset(c)) => match keyset_fault(c, p.sort_key, p.sort_direction) {
            Some(reason) => Some(cursor_error(reason)),
            None => None,
        },
        Ok(_) => None,
    }
}

/// The plan is the one for the request and its cursor, or the error what is wrong with them.
pub open spec fn plan_is(
    r: Result<ListPlan, ThreadStoreError>,
    p: ListThreadsParams,
    workspace_id: Seq<char>,
    cursor: Result<CursorView, StoreErrorView>,
) -> bool {
    match r {
        Ok(plan) => list_fault(p, cursor) is None && match plan {
            ListPlan::EmptyPage => list_plan(p, workspace_id, cursor->Ok_0) is None,
            ListPlan::Query(q) => list_plan(p, workspace_id, cursor->Ok_0) == Some(q@),
        },
        Err(e) => list_fault(p, cursor) == Some(e@),
    }
}

/// How the page after a cursor is found.
pub fn list_threads_after(
    p: &ListThreadsParams,
    workspace_id: &str,
    cursor: ThreadListCursor,
) -> (r: Result<ListPlan, ThreadStoreError>)
    requires
        p.page_size < usize::MAX,
    ensures
        plan_is(r, *p, workspace_id@, Ok(cursor@)),
{
    if let ThreadListCursor::Keyset(keyset) = &cursor {
        match validate_keyset_cursor(keyset, p.sort_key, p.sort_direction) {
            Ok(_) => {},
            Err(e) => return Err(e),
        }
    }
    if let Some(directories) = &p.cwd_filters {
        if directories.len() == 0 {
            return Ok(ListPlan::EmptyPage);
        }
    }
    let mut q = push_base(p, workspace_id);
    push_origin_filters(&mut q, p);
    push_place_filters(&mut q, p);
    push_search_filter(&mut q, p);
    push_relation_filter(&mut q, p);
    if let ThreadListCursor::Keyset(keyset) = &cursor {
        push_keyset_cursor_filter(&mut q, keyset, sort_column(p.sort_key), p.sort_direction);
    }
    push_page_clauses(&mut q, p, &cursor);
    Ok(ListPlan::Query(q))
}

/// How the page that a client asks for is found, where `refusal` is what is said of a cursor that
/// should come after a thread and does not.
pub fn list_threads(p: &ListThreadsParams, workspace_id: &str, refusal: &str) -> (r: Result<
    ListPlan,
    ThreadStoreError,
>)
    requires
        p.page_size < usize::MAX,
    ensures
        plan_is(r, *p, workspace_id@, decoded_cursor(opt_text(p.cursor), refusal@)),
{
    let cursor = match &p.cursor {
        Some(cursor) => decode_thread_list_cursor(Some(cursor.as_str()), refusal),
        None => decode_thread_list_cursor(None, refusal),
    };
    match cursor {
        Ok(cursor) => list_threads_after(p, workspace_id, cursor),
        Err(e) => Err(e),
    }
}

// ---------------------------------------------------------------------------------------------
// Laws
// ---------------------------------------------------------------------------------------------

/// A cursor after a thread comes back from its document, where its instant can be written down
/// and its thread is one.
pub proof fn cursors_come_back(c: KeysetView, refusal: Seq<char>)
    requires
        is_thread_id(c.thread_id),
        value_is_common(c.value),
        c.value matches SortValueView::Timestamp(t) ==> time_in(rfc3339_text(t.seconds, t.nanos))
            == Some(t),
    ensures
        cursor_in(keyset_view(c), refusal) == Ok::<CursorView, StoreErrorView>(
            CursorView::Keyset(c),
        ),
{
    lemma_field_names();
    lemma_order_names(c.sort_key, c.sort_direction);
    let v = keyset_view(c);
    assert(member(v, "offset"@) is None);
    let inner = sort_value_view(c.value);
    assert(sort_value_in(inner) == Some(c.value));
}

/// A cursor that is handed out for an order is in order for it, where its value is of the kind
/// that threads are ordered by.
pub proof fn own_cursors_are_accepted(
    value: SortValueView,
    thread_id: Seq<char>,
    sort_key: ThreadSortKey,
    sort_direction: SortDirection,
)
    requires
        value_fits_key(sort_key, value),
    ensures
        keyset_fault(
            handed_out(value, thread_id, sort_key, sort_direction),
            sort_key,
            sort_direction,
        ) is None,
{
}

/// A cursor that was handed out for another order is refused.
pub proof fn cursors_of_other_orders_are_refused(
    cursor: KeysetView,
    sort_key: ThreadSortKey,
    sort_direction: SortDirection,
)
    requires
        cursor.sort_key != sort_key || cursor.sort_direction != sort_direction,
    ensures
        keyset_fault(cursor, sort_key, sort_direction) is Some,
{
}

/// Orders and directions go by their names, and by no others.
pub proof fn orders_go_by_their_names(name: Seq<char>, key: ThreadSortKey, way: SortDirection)
    ensures
        sort_key_name(ThreadSortKey::CreatedAt) == "createdAt"@,
        sort_key_name(ThreadSortKey::UpdatedAt) == "updatedAt"@,
        sort_key_name(ThreadSortKey::RecencyAt) == "recencyAt"@,
        sort_key_name(ThreadSortKey::SectionPosition) == "sectionPosition"@,
        direction_name(SortDirection::Asc) == "asc"@,
        direction_name(SortDirection::Desc) == "desc"@,
        sort_key_named(name) == Some(key) <==> name == sort_key_name(key),
        direction_named(name) == Some(way) <==> name == direction_name(way),
{
    lemma_order_names(key, way);
    lemma_order_names(ThreadSortKey::CreatedAt, SortDirection::Asc);
    lemma_order_names(ThreadSortKey::UpdatedAt, SortDirection::Desc);
    lemma_order_names(ThreadSortKey::RecencyAt, SortDirection::Desc);
    lemma_order_names(ThreadSortKey::SectionPosition, SortDirection::Desc);
}

/// A cursor after a thread is written with five members: its version, its order and direction by
/// name, its value with the kind of it, and its thread.
pub proof fn cursors_are_written_member_by_member(c: KeysetView)
    ensures
        ({
            let v = keyset_view(c);
            &&& v is Object
            &&& v->Object_0.dom() == set![
                "version"@,
                "sortKey"@,
                "sortDirection"@,
                "value"@,
                "threadId"@,
            ]
            &&& member(v, "version"@) == Some(JsonView::Int(c.version as int))
            &&& member(v, "sortKey"@) == Some(JsonView::Str(sort_key_name(c.sort_key)))
            &&& member(v, "sortDirection"@) == Some(
                JsonView::Str(direction_name(c.sort_direction)),
            )
            &&& member(v, "threadId"@) == Some(JsonView::Str(c.thread_id))
            &&& member(v, "value"@) is Some
            &&& c.value matches SortValueView::Timestamp(t) ==> {
                &&& member(member(v, "value"@)->0, "kind"@) == Some(JsonView::Str("timestamp"@))
                &&& member(member(v, "value"@)->0, "value"@) == Some(
                    JsonView::Str(rfc3339_text(t.seconds, t.nanos)),
                )
            }
            &&& c.value matches SortValueView::SectionPosition(n) ==> {
                &&& member(member(v, "value"@)->0, "kind"@) == Some(
                    JsonView::Str("sectionPosition"@),
                )
                &&& member(member(v, "value"@)->0, "value"@) == Some(JsonView::Int(n as int))
            }
        }),
{
    lemma_field_names();
}

/// The cursor that is handed out after a thread is of the first version, for the order and the
/// direction of the list.
pub proof fn cursors_are_handed_out_for_their_order(
    value: SortValueView,
    thread_id: Seq<char>,
    key: ThreadSortKey,
    way: SortDirection,
)
    ensures
        ({
            let c = handed_out(value, thread_id, key, way);
            c.version == 1 && c.value == value && c.thread_id == thread_id && c.sort_key == key
                && c.sort_direction == way
        }),
{
}

/// A document with an offset is an old cursor, whatever else it holds; its offset must be a whole
/// number. Any other is read as a cursor after a thread, and refused in the given words where it
/// is none. No cursor is the start of the list.
pub proof fn old_cursors_are_known_by_their_offset(
    v: JsonView,
    n: usize,
    refusal: Seq<char>,
    written: Seq<char>,
)
    ensures
        member(v, "offset"@) is Some && usize_of(member(v, "offset"@)->0) == Some(n) ==> cursor_in(
            v,
            refusal,
        ) == Ok::<CursorView, StoreErrorView>(CursorView::LegacyOffset(n)),
        member(v, "offset"@) is Some && usize_of(member(v, "offset"@)->0) is None ==> cursor_in(
            v,
            refusal,
        ) == Err::<CursorView, StoreErrorView>(
            StoreErrorView::InvalidRequest(
                "invalid cursor: "@ + usize_refusal(member(v, "offset"@)->0),
            ),
        ),
        member(v, "offset"@) is None && keyset_in(v) is None ==> cursor_in(v, refusal) == Err::<
            CursorView,
            StoreErrorView,
        >(StoreErrorView::InvalidRequest("invalid cursor: "@ + refusal)),
        member(v, "offset"@) is None && keyset_in(v) is Some ==> cursor_in(v, refusal) == Ok::<
            CursorView,
            StoreErrorView,
        >(CursorView::Keyset(keyset_in(v)->0)),
        decoded_cursor(None, refusal) == Ok::<CursorView, StoreErrorView>(CursorView::Start),
        json_reading(written) is Ok ==> decoded_cursor(Some(written), refusal) == cursor_in(
            json_reading(written)->Ok_0,
            refusal,
        ),
        json_reading(written) is Err ==> decoded_cursor(Some(written), refusal) == Err::<
            CursorView,
            StoreErrorView,
        >(StoreErrorView::InvalidRequest("invalid cursor: "@ + json_reading(written)->Err_0)),
{
}

/// A cursor after a thread is read from its members, or from the items of a list in the same
/// order. Each must say what it is for: the version is a small number, the order and the
/// direction are names, the thread is one.
pub proof fn cursors_are_read_part_by_part(v: JsonView, items: Seq<JsonView>)
    ensures
        ({
            let c = keyset_in(v);
            &&& c is Some && v is Object ==> {
                &&& member(v, "version"@) is Some && u64_of(member(v, "version"@)->0) == Some(
                    c->0.version as u64,
                )
                &&& member(v, "sortKey"@) is Some && sort_key_in(member(v, "sortKey"@)->0) == Some(
                    c->0.sort_key,
                )
                &&& member(v, "sortDirection"@) is Some && direction_in(
                    member(v, "sortDirection"@)->0,
                ) == Some(c->0.sort_direction)
                &&& member(v, "value"@) is Some && sort_value_in(member(v, "value"@)->0) == Some(
                    c->0.value,
                )
                &&& member(v, "threadId"@) is Some && thread_in(member(v, "threadId"@)->0) == Some(
                    c->0.thread_id,
                )
            }
            &&& v is Array && c is Some ==> v->Array_0.len() == 5
            &&& items.len() == 5 ==> keyset_in(JsonView::Array(items)) == keyset_of_parts(
                items[0],
                items[1],
                items[2],
                items[3],
                items[4],
            )
        }),
{
}

/// The five parts make a cursor where each says what it is for, and only there.
pub proof fn parts_make_a_cursor(
    version: JsonView,
    key: JsonView,
    way: JsonView,
    value: JsonView,
    thread_id: JsonView,
)
    ensures
        ({
            let c = keyset_of_parts(version, key, way, value, thread_id);
            &&& c is Some <==> u64_of(version) is Some && u64_of(version)->0 <= 255 && sort_key_in(
                key,
            ) is Some && direction_in(way) is Some && sort_value_in(value) is Some && str_of(
                thread_id,
            ) is Some && parsed_uuid(str_of(thread_id)->0) is Ok
            &&& c is Some ==> c->0.version == u64_of(version)->0 && c->0.sort_key == sort_key_in(
                key,
            )->0 && c->0.sort_direction == direction_in(way)->0 && c->0.value == sort_value_in(
                value,
            )->0 && c->0.thread_id == parsed_uuid(str_of(thread_id)->0)->Ok_0
        }),
{
}

/// The value of a cursor is an instant or a position, by the kind that is named, as members or as
/// two items.
pub proof fn values_are_read_by_their_kind(content: JsonView, t: Seq<char>, kind: JsonView)
    ensures
        str_of(content) == Some(t) && time_in(t) is Some ==> value_of_kind(
            "timestamp"@,
            content,
        ) == Some(SortValueView::Timestamp(time_in(t)->0)),
        str_of(content) is None || (str_of(content) == Some(t) && time_in(t) is None)
            ==> value_of_kind("timestamp"@, content) is None,
        i64_of(content) is Some ==> value_of_kind("sectionPosition"@, content) == Some(
            SortValueView::SectionPosition(i64_of(content)->0),
        ),
        i64_of(content) is None ==> value_of_kind("sectionPosition"@, content) is None,
        t != "timestamp"@ && t != "sectionPosition"@ ==> value_of_kind(t, content) is None,
        kind == JsonView::Str(t) ==> sort_value_in(JsonView::Array(seq![kind, content]))
            == value_of_kind(t, content),
        kind == JsonView::Str(t) ==> sort_value_in(
            JsonView::Object(map!["kind"@ => kind, "value"@ => content]),
        ) == value_of_kind(t, content),
{
    lemma_field_names();
    let v = JsonView::Object(map!["kind"@ => kind, "value"@ => content]);
    assert(member(v, "kind"@) == Some(kind));
    assert(member(v, "value"@) == Some(content));
}

/// A cursor is in order for a list exactly where it is of the first version, was made for its
/// order and direction, and its value is of the kind that the list is ordered by.
pub proof fn cursors_must_match_their_list(c: KeysetView, key: ThreadSortKey, way: SortDirection)
    ensures
        ({
            let fault = keyset_fault(c, key, way);
            let same_order = c.version == 1 && c.sort_key == key && c.sort_direction == way;
            &&& !same_order ==> fault == Some("cursor does not match the requested sort order"@)
            &&& same_order && key == ThreadSortKey::SectionPosition && c.value is Timestamp
                ==> fault == Some("cursor value does not match the requested sort key"@)
            &&& same_order && key != ThreadSortKey::SectionPosition && c.value is SectionPosition
                ==> fault == Some("cursor value does not match the requested sort key"@)
            &&& same_order && key == ThreadSortKey::SectionPosition && c.value is SectionPosition
                ==> fault is None
            &&& same_order && key != ThreadSortKey::SectionPosition && c.value is Timestamp
                ==> fault is None
        }),
{
}

/// A request is refused with what is wrong with its cursor, and for nothing else; a request that
/// allows no directory needs no query.
pub proof fn requests_are_refused_for_their_cursor(
    p: ListThreadsParams,
    workspace_id: Seq<char>,
    e: StoreErrorView,
    cursor: CursorView,
    c: KeysetView,
)
    ensures
        list_fault(p, Err(e)) == Some(e),
        list_fault(p, Ok(CursorView::Start)) is None,
        cursor is LegacyOffset ==> list_fault(p, Ok(cursor)) is None,
        keyset_fault(c, p.sort_key, p.sort_direction) is None ==> list_fault(
            p,
            Ok(CursorView::Keyset(c)),
        ) is None,
        keyset_fault(c, p.sort_key, p.sort_direction) matches Some(reason) ==> list_fault(
            p,
            Ok(CursorView::Keyset(c)),
        ) == Some(StoreErrorView::InvalidRequest("invalid cursor: "@ + reason)),
        list_plan(p, workspace_id, cursor) is None <==> p.cwd_filters is Some
            && p.cwd_filters->0@.len() == 0,
        list_plan(p, workspace_id, cursor) is Some ==> list_plan(p, workspace_id, cursor)->0
            == list_query(p, workspace_id, cursor),
{
}

/// The columns that threads are ordered by.
pub proof fn columns_have_their_names()
    ensures
        column_of(ThreadSortKey::CreatedAt) == "created_at"@,
        column_of(ThreadSortKey::UpdatedAt) == "updated_at"@,
        column_of(ThreadSortKey::RecencyAt) == "recency_at"@,
        column_of(ThreadSortKey::SectionPosition)
            == "((stored_thread_json ->> 'section_position')::bigint)"@,
{
}

/// A page holds as many threads as are asked for, and one where none are.
pub proof fn pages_hold_what_is_asked_for(p: ListThreadsParams)
    ensures
        p.page_size > 0 ==> page_size_of(p) == p.page_size,
        p.page_size == 0 ==> page_size_of(p) == 1,
{
}

/// The place of the value that comes so many after those that a query has.
pub open spec fn place_after(q: QueryView, k: int) -> Seq<char> {
    "$"@ + text::decimal(q.binds.len() + k)
}

/// Every query asks for the threads of one workspace, archived ones or others; of the others only
/// those in which something was said.
pub proof fn lists_are_of_one_workspace(p: ListThreadsParams, workspace_id: Seq<char>)
    ensures
        ({
            let q = base_query(p, workspace_id);
            let start = "SELECT stored_thread_json, "@ + column_of(p.sort_key)
                + " AS cursor_sort_value FROM threads WHERE workspace_id = "@ + "$1"@;
            &&& q.binds == seq![SqlValueView::Text(workspace_id)]
            &&& p.archived ==> q.sql == start + " AND archived_at IS NOT NULL"@
            &&& !p.archived ==> q.sql == start + " AND archived_at IS NULL"@
                + EXCLUDE_EMPTY_SHELL_THREADS@
        }),
{
    crate::sql::places_are_numbered();
}

/// A list of texts that a column must be among is sent along as one value, in brackets.
pub proof fn choices_are_one_value(q: QueryView, condition: Seq<char>, values: Seq<Seq<char>>)
    ensures
        any_of(q, condition, values).sql == q.sql + condition + place_after(q, 1) + ")"@,
        any_of(q, condition, values).binds == q.binds.push(SqlValueView::Texts(values)),
{
}

/// Sources and models are asked for where any are given, and directories wherever they are given;
/// each goes by its column.
pub proof fn origins_are_asked_for(q: QueryView, p: ListThreadsParams)
    ensures
        ({
            let n = p.allowed_sources@.len() as int;
            let q1 = if n == 0 {
                q
            } else {
                any_of(q, " AND source = ANY("@, source_keys(p.allowed_sources@, n))
            };
            let q2 = if p.model_providers is None || p.model_providers->0@.len() == 0 {
                q1
            } else {
                any_of(q1, " AND model_provider = ANY("@, texts(p.model_providers->0@))
            };
            &&& p.cwd_filters is None ==> origin_filters(q, p) == q2
            &&& p.cwd_filters is Some ==> origin_filters(q, p) == any_of(
                q2,
                " AND cwd = ANY("@,
                texts(p.cwd_filters->0@),
            )
        }),
{
}

/// The keys of every source are among those that are asked for, in the order of the sources.
pub proof fn every_source_is_asked_for(sources: Seq<SessionSource>, n: int)
    requires
        0 <= n < sources.len(),
    ensures
        source_keys(sources, 0).len() == 0,
        source_keys(sources, n + 1) == source_keys(sources, n) + filter_keys(
            sources[n].value@,
            sources[n].debug@,
            sources[n].display@,
        ),
{
}

/// A section and a project are asked for by their identifier, or as none at all.
pub proof fn places_are_asked_for(q: QueryView, p: ListThreadsParams)
    ensures
        ({
            let placed = place_filters(q, p);
            let by_section = place_filters(q, (ListThreadsParams { project_id: None, ..p }));
            &&& p.section is None ==> by_section == q
            &&& p.section == Some(None::<String>) ==> by_section.binds == q.binds && by_section.sql
                == q.sql + " AND stored_thread_json #>> '{section,id}' IS NULL"@
            &&& (p.section matches Some(Some(id)) ==> by_section.binds == q.binds.push(
                SqlValueView::Text(id@),
            ) && by_section.sql == q.sql + " AND stored_thread_json #>> '{section,id}' = "@
                + place_after(q, 1))
            &&& p.project_id is None ==> placed == by_section
            &&& p.project_id == Some(None::<String>) ==> placed.binds == by_section.binds
                && placed.sql == by_section.sql
                + " AND stored_thread_json ->> 'project_id' IS NULL"@
            &&& (p.project_id matches Some(Some(id)) ==> placed.binds == by_section.binds.push(
                SqlValueView::Text(id@),
            ) && placed.sql == by_section.sql + " AND stored_thread_json ->> 'project_id' = "@
                + place_after(by_section, 1))
        }),
{
}

/// A term is looked for in previews, titles and items, with anything before and behind it; an
/// empty term is not looked for.
pub proof fn terms_are_looked_for_everywhere(q: QueryView, p: ListThreadsParams)
    ensures
        ({
            let found = search_filter(q, p);
            &&& p.search_term is None || p.search_term->0@.len() == 0 ==> found == q
            &&& p.search_term is Some && p.search_term->0@.len() > 0 ==> {
                let pattern = SqlValueView::Text("%"@ + p.search_term->0@ + "%"@);
                &&& found.binds == q.binds.push(pattern).push(pattern).push(pattern)
                &&& found.sql == q.sql + " AND (preview ILIKE "@ + place_after(q, 1)
                    + " OR title ILIKE "@ + place_after(q, 2)
                    + " OR EXISTS (SELECT 1 FROM thread_items WHERE thread_items.thread_id = threads.id AND item_json::text ILIKE "@
                    + place_after(q, 3) + "))"@
            }
        }),
{
}

/// The threads that a thread spawned are asked for by their parent, or by a walk along all edges.
pub proof fn relatives_are_asked_for(q: QueryView, p: ListThreadsParams, id: ThreadId)
    ensures
        ({
            let found = relation_filter(q, p);
            &&& p.relation_filter is None ==> found == q
            &&& p.relation_filter is Some ==> found.binds.len() == q.binds.len() + 1
            &&& p.relation_filter == Some(ThreadRelationFilter::DirectChildrenOf(id))
                || p.relation_filter == Some(ThreadRelationFilter::DescendantsOf(id))
                ==> found.binds == q.binds.push(SqlValueView::Text(id@))
            &&& p.relation_filter == Some(ThreadRelationFilter::DirectChildrenOf(id))
                ==> found.sql == q.sql + " AND parent_thread_id = "@ + place_after(q, 1)
            &&& p.relation_filter == Some(ThreadRelationFilter::DescendantsOf(id)) ==> found.sql
                == q.sql + " AND id IN (WITH RECURSIVE subtree(child_thread_id) AS ("@
                + "SELECT child_thread_id FROM thread_spawn_edges WHERE parent_thread_id = "@
                + place_after(q, 1)
                + " UNION ALL SELECT edge.child_thread_id FROM thread_spawn_edges AS edge JOIN subtree ON edge.parent_thread_id = subtree.child_thread_id"@
                + ") SELECT child_thread_id FROM subtree)"@
        }),
{
}

/// After a cursor, the value of a thread lies beyond the cursor's, or is the same and its
/// identifier lies beyond the cursor's: above them going up, and below going down.
pub proof fn pages_go_on_beyond_the_cursor(q: QueryView, c: KeysetView, column: Seq<char>)
    ensures
        ({
            let up = keyset_filter(q, c, column, SortDirection::Asc);
            let down = keyset_filter(q, c, column, SortDirection::Desc);
            let value = match c.value {
                SortValueView::Timestamp(t) => SqlValueView::Time(t),
                SortValueView::SectionPosition(n) => SqlValueView::Integer(n),
            };
            &&& up.binds == q.binds.push(value).push(value).push(SqlValueView::Text(c.thread_id))
            &&& down.binds == up.binds
            &&& up.sql == q.sql + " AND ("@ + column + " "@ + ">"@ + " "@ + place_after(q, 1)
                + " OR ("@ + column + " = "@ + place_after(q, 2) + " AND id "@ + ">"@ + " "@
                + place_after(q, 3) + "))"@
            &&& down.sql == q.sql + " AND ("@ + column + " "@ + "<"@ + " "@ + place_after(q, 1)
                + " OR ("@ + column + " = "@ + place_after(q, 2) + " AND id "@ + "<"@ + " "@
                + place_after(q, 3) + "))"@
        }),
{
}

/// The threads are put in the order that is asked for, by their column and then by their
/// identifier in the same direction. An old cursor passes over its offset. One thread more than
/// the page holds is asked for.
pub proof fn pages_are_cut_in_order(q: QueryView, p: ListThreadsParams, cursor: CursorView)
    requires
        p.page_size < i64::MAX,
    ensures
        ({
            let cut = page_clauses(q, p, cursor);
            let way = if p.sort_direction == SortDirection::Asc {
                "ASC"@
            } else {
                "DESC"@
            };
            let wanted = if p.page_size == 0 {
                2
            } else {
                p.page_size + 1
            };
            let ordered = q.sql + " ORDER BY "@ + column_of(p.sort_key) + " "@ + way + ", id "@
                + way;
            &&& !(cursor is LegacyOffset) ==> cut.sql == ordered + " LIMIT "@ + place_after(q, 1)
                && cut.binds == q.binds.push(SqlValueView::Integer(wanted as i64))
            &&& (cursor matches CursorView::LegacyOffset(n) ==> cut.sql == ordered + " OFFSET "@
                + place_after(q, 1) + " LIMIT "@ + place_after(q, 2) && cut.binds == q.binds.push(
                SqlValueView::Integer(n as i64),
            ).push(SqlValueView::Integer(wanted as i64)))
        }),
{
}

/// A query takes the conditions of a request one after the other: where the threads come from,
/// where they are, what they mention, whose they are, and what they come after. Nothing that is
/// not asked for narrows it.
pub proof fn lists_are_narrowed_step_by_step(
    p: ListThreadsParams,
    workspace_id: Seq<char>,
    c: KeysetView,
    cursor: CursorView,
)
    ensures
        ({
            let q = relation_filter(
                search_filter(place_filters(origin_filters(base_query(p, workspace_id), p), p), p),
                p,
            );
            &&& list_query(p, workspace_id, CursorView::Keyset(c)) == page_clauses(
                keyset_filter(q, c, column_of(p.sort_key), p.sort_direction),
                p,
                CursorView::Keyset(c),
            )
            &&& !(cursor is Keyset) ==> list_query(p, workspace_id, cursor) == page_clauses(
                q,
                p,
                cursor,
            )
        }),
{
}

/// A document names a variant as a text, or as an object that has nothing under that one name.
pub proof fn variants_are_named(name: Seq<char>, v: JsonView)
    ensures
        variant_in(JsonView::Str(name)) == Some(name),
        v !is Str && v !is Object ==> variant_in(v) is None,
        v is Object && variant_in(v) is Some ==> member_names(v->Object_0).len() == 1
            && member_names(v->Object_0)[0] == variant_in(v)->0,
        v is Object && variant_in(v) is Some ==> v->Object_0[variant_in(v)->0] is Null,
        v is Object && member_names(v->Object_0) == seq![name] && v->Object_0[name]
            == JsonView::Null ==> variant_in(v) == Some(name),
{
}

/// A plan is made where nothing is wrong with a request, and is the one for its cursor; otherwise
/// what is wrong is told.
pub proof fn plans_are_made_for_sound_requests(
    r: Result<ListPlan, ThreadStoreError>,
    p: ListThreadsParams,
    workspace_id: Seq<char>,
    cursor: Result<CursorView, StoreErrorView>,
)
    requires
        plan_is(r, p, workspace_id, cursor),
    ensures
        r is Ok <==> list_fault(p, cursor) is None,
        r is Err ==> list_fault(p, cursor) == Some(r->Err_0@),
        r is Ok ==> (r->Ok_0 is EmptyPage <==> p.cwd_filters is Some && p.cwd_filters->0@.len()
            == 0),
        r is Ok && r->Ok_0 is Query ==> r->Ok_0->Query_0@ == list_query(
            p,
            workspace_id,
            cursor->Ok_0,
        ),
{
}

/// A text that is a cursor after a thread is read as that cursor, in whatever words others are
/// refused.
pub proof fn cursors_are_read_in_any_words(cursor: Seq<char>, c: KeysetView, refusal: Seq<char>)
    requires
        decodes_to(cursor, c),
    ensures
        decoded_cursor(Some(cursor), refusal) is Ok,
        decoded_cursor(Some(cursor), refusal)->Ok_0 == CursorView::Keyset(c),
{
    assert(decoded_cursor(Some(cursor), refusal) == Ok::<CursorView, StoreErrorView>(
        CursorView::Keyset(c),
    ));
}

} // verus!
