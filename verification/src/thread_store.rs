//! Threads in the remote store: its configuration, the rows that are kept for a thread, and the
//! rules by which they are made, read and changed.

use vstd::prelude::*;

use crate::json::{
    self, items_view, items_view_index, json_text, lists_members, member, member_names, Json,
    JsonView,
};
use crate::protocol::SessionSource;
use crate::store_error::{StoreErrorView, ThreadStoreError};
use crate::text::{self, join_of, opt_text, texts, trim_of};

verus! {

// ---------------------------------------------------------------------------------------------
// Configuration
// ---------------------------------------------------------------------------------------------

/// The variable that names the database where no other is configured.
pub const DEFAULT_DATABASE_URL_ENV: &'static str = "CODEX_REMOTE_SQL_URL";

/// The workspace where no other is configured.
pub const DEFAULT_WORKSPACE_ID: &'static str = "default";

/// How the remote store is reached.
#[derive(Clone, Debug, PartialEq, Eq)]
pub struct PostgresThreadStoreConfig {
    pub database_url_env: String,
    pub default_workspace_id: String,
    pub redis_url_env: Option<String>,
}

impl Default for PostgresThreadStoreConfig {
    fn default() -> (r: PostgresThreadStoreConfig)
        ensures
            r.database_url_env@ == DEFAULT_DATABASE_URL_ENV@,
            r.default_workspace_id@ == DEFAULT_WORKSPACE_ID@,
            opt_text(r.redis_url_env) == Some("CODEX_REDIS_URL"@),
    {
        PostgresThreadStoreConfig {
            database_url_env: text::owned(DEFAULT_DATABASE_URL_ENV),
            default_workspace_id: text::owned(DEFAULT_WORKSPACE_ID),
            redis_url_env: Some(text::owned("CODEX_REDIS_URL")),
        }
    }
}

/// The number that `std`'s `DefaultHasher` gives for a text.
pub uninterp spec fn hashed_text(text: Seq<char>) -> u64;

/// Wraps `std::collections::hash_map::DefaultHasher`, made by `new`, on a text. Every such hasher
/// is the same, so that the number depends on the text alone.
#[verifier::external_body]
fn default_hash(value: &str) -> (r: u64)
    ensures
        r == hashed_text(value@),
{
    let mut hasher = std::collections::hash_map::DefaultHasher::new();
    std::hash::Hash::hash(value, &mut hasher);
    std::hash::Hasher::finish(&hasher)
}

/// The number under which the stores of one database share their migrations.
pub fn migration_scope_key(database_url: &str) -> (r: u64)
    ensures
        r == hashed_text(database_url@),
{
    default_hash(database_url)
}

/// Whether and where the store keeps threads.
#[derive(Debug)]
pub enum StoreBackend {
    /// In a database, for one workspace.
    Pool { workspace_id: String, redis_url_env: Option<String>, migration_scope_key: u64 },
    /// Nowhere, for the reason that is given.
    Unconfigured { message: String },
}

/// The value of the variable names a database.
pub open spec fn names_database(value: Option<String>) -> bool {
    value matches Some(url) && trim_of(url@).len() > 0
}

impl StoreBackend {
    /// A store that is not configured.
    pub fn unconfigured(message: String) -> (r: StoreBackend)
        ensures
            r == (StoreBackend::Unconfigured { message }),
    {
        StoreBackend::Unconfigured { message }
    }

    /// The store for a configuration, given the value of its variable and what is wrong with that
    /// value as the address of a database, where something is.
    pub fn from_env_or_unconfigured(
        config: PostgresThreadStoreConfig,
        database_url: Option<String>,
        invalid: Option<String>,
    ) -> (r: StoreBackend)
        ensures
            match r {
                StoreBackend::Pool { workspace_id, redis_url_env, migration_scope_key } => {
                    &&& names_database(database_url)
                    &&& invalid is None
                    &&& workspace_id == config.default_workspace_id
                    &&& redis_url_env == config.redis_url_env
                    &&& migration_scope_key == hashed_text(database_url->0@)
                },
                StoreBackend::Unconfigured { message } => if !names_database(database_url) {
                    message@ == "remote SQL thread store requires $"@ + config.database_url_env@
                } else {
                    invalid matches Some(err) && message@ == "invalid $"@
                        + config.database_url_env@ + ": "@ + err@
                },
            },
    {
        if let Some(url) = database_url {
            if !text::trim(url.as_str()).is_empty() {
                if let Some(err) = invalid {
                    let start = text::concat3("invalid $", config.database_url_env.as_str(), ": ");
                    return StoreBackend::Unconfigured {
                        message: text::concat2(start.as_str(), err.as_str()),
                    };
                }
                return StoreBackend::Pool {
                    workspace_id: config.default_workspace_id,
                    redis_url_env: config.redis_url_env,
                    migration_scope_key: migration_scope_key(url.as_str()),
                };
            }
        }
        StoreBackend::Unconfigured {
            message: text::concat2(
                "remote SQL thread store requires $",
                config.database_url_env.as_str(),
            ),
        }
    }

    /// The workspace, where the store is configured.
    pub fn workspace_id(&self) -> (r: Result<&str, ThreadStoreError>)
        ensures
            match (*self, r) {
                (StoreBackend::Pool { workspace_id, .. }, Ok(id)) => id@ == workspace_id@,
                (StoreBackend::Unconfigured { message }, Err(e)) => e@
                    == StoreErrorView::InvalidRequest(message@),
                _ => false,
            },
    {
        match self {
            StoreBackend::Pool { workspace_id, .. } => Ok(workspace_id.as_str()),
            StoreBackend::Unconfigured { message } => Err(
                ThreadStoreError::InvalidRequest { message: message.clone() },
            ),
        }
    }
}

// ---------------------------------------------------------------------------------------------
// Remote control
// ---------------------------------------------------------------------------------------------

/// What is stored for a client without a name.
pub const REMOTE_CONTROL_APP_SERVER_CLIENT_NAME_NONE: &'static str = "";

/// The enrollment of a server for remote control.
#[derive(Clone, Debug, PartialEq, Eq)]
pub struct RemoteControlEnrollmentRecord {
    pub websocket_url: String,
    pub account_id: String,
    pub app_server_client_name: Option<String>,
    pub server_id: String,
    pub environment_id: String,
    pub server_name: String,
    pub remote_control_enabled: Option<bool>,
}

/// The name under which a client is stored.
pub open spec fn client_name_key(name: Option<Seq<char>>) -> Seq<char> {
    match name {
        Some(name) => name,
        None => REMOTE_CONTROL_APP_SERVER_CLIENT_NAME_NONE@,
    }
}

/// The client that is stored under a name.
pub open spec fn client_name_of_key(key: Seq<char>) -> Option<Seq<char>> {
    if key.len() == 0 {
        None
    } else {
        Some(key)
    }
}

/// The name under which a client is stored.
pub fn remote_control_app_server_client_name_key(app_server_client_name: Option<&str>) -> (r: &str)
    ensures
        r@ == client_name_key(json::opt_str(app_server_client_name)),
{
    match app_server_client_name {
        Some(name) => name,
        None => REMOTE_CONTROL_APP_SERVER_CLIENT_NAME_NONE,
    }
}

/// The client that is stored under a name.
pub fn app_server_client_name_from_key(app_server_client_name: String) -> (r: Option<String>)
    ensures
        opt_text(r) == client_name_of_key(app_server_client_name@),
{
    if app_server_client_name.as_str().is_empty() {
        None
    } else {
        Some(app_server_client_name)
    }
}

/// An enrollment as it is stored.
#[derive(Debug)]
pub struct RemoteControlEnrollmentRow {
    pub websocket_url: String,
    pub account_id: String,
    pub app_server_client_name: String,
    pub server_id: String,
    pub environment_id: String,
    pub server_name: String,
    pub remote_control_enabled: Option<bool>,
}

/// Reads a stored enrollment.
pub fn remote_control_enrollment_from_row(row: RemoteControlEnrollmentRow) -> (r:
    RemoteControlEnrollmentRecord)
    ensures
        r.websocket_url == row.websocket_url,
        r.account_id == row.account_id,
        opt_text(r.app_server_client_name) == client_name_of_key(row.app_server_client_name@),
        r.server_id == row.server_id,
        r.environment_id == row.environment_id,
        r.server_name == row.server_name,
        r.remote_control_enabled == row.remote_control_enabled,
{
    RemoteControlEnrollmentRecord {
        websocket_url: row.websocket_url,
        account_id: row.account_id,
        app_server_client_name: app_server_client_name_from_key(row.app_server_client_name),
        server_id: row.server_id,
        environment_id: row.environment_id,
        server_name: row.server_name,
        remote_control_enabled: row.remote_control_enabled,
    }
}

// ---------------------------------------------------------------------------------------------
// Keys
// ---------------------------------------------------------------------------------------------

/// The row is that of an enrollment; a client without a name is stored under the empty one.
pub open spec fn is_row_of(
    row: RemoteControlEnrollmentRow,
    enrollment: RemoteControlEnrollmentRecord,
    enabled: Option<bool>,
) -> bool {
    &&& row.websocket_url == enrollment.websocket_url
    &&& row.account_id == enrollment.account_id
    &&& row.app_server_client_name@ == client_name_key(opt_text(enrollment.app_server_client_name))
    &&& row.server_id == enrollment.server_id
    &&& row.environment_id == enrollment.environment_id
    &&& row.server_name == enrollment.server_name
    &&& row.remote_control_enabled == enabled
}

/// Where an enrollment is stored.
#[derive(Debug)]
pub struct RemoteControlEnrollmentKey {
    pub workspace_id: String,
    pub websocket_url: String,
    pub account_id: String,
    pub app_server_client_name: String,
}

impl StoreBackend {
    /// Where the enrollment of a client is stored. A store that is not configured has none.
    pub fn remote_control_enrollment_key(
        &self,
        websocket_url: &str,
        account_id: &str,
        app_server_client_name: Option<&str>,
    ) -> (r: Result<RemoteControlEnrollmentKey, ThreadStoreError>)
        ensures
            match (*self, r) {
                (StoreBackend::Pool { workspace_id, .. }, Ok(key)) => {
                    &&& key.workspace_id@ == workspace_id@
                    &&& key.websocket_url@ == websocket_url@
                    &&& key.account_id@ == account_id@
                    &&& key.app_server_client_name@ == client_name_key(
                        json::opt_str(app_server_client_name),
                    )
                },
                (StoreBackend::Unconfigured { message }, Err(e)) => e@
                    == StoreErrorView::InvalidRequest(message@),
                _ => false,
            },
    {
        match self.workspace_id() {
            Ok(workspace_id) => Ok(
                RemoteControlEnrollmentKey {
                    workspace_id: text::owned(workspace_id),
                    websocket_url: text::owned(websocket_url),
                    account_id: text::owned(account_id),
                    app_server_client_name: text::owned(
                        remote_control_app_server_client_name_key(app_server_client_name),
                    ),
                },
            ),
            Err(e) => Err(e),
        }
    }

    /// The row of an enrollment, given whether one is stored already and whether that is switched
    /// on. What is stored already keeps its switch. A store that is not configured takes none.
    pub fn upsert_remote_control_enrollment(
        &self,
        stored_switch: Option<Option<bool>>,
        enrollment: RemoteControlEnrollmentRecord,
    ) -> (r: Result<RemoteControlEnrollmentRow, ThreadStoreError>)
        ensures
            match (*self, r) {
                (StoreBackend::Pool { .. }, Ok(row)) => is_row_of(
                    row,
                    enrollment,
                    match stored_switch {
                        Some(enabled) => enabled,
                        None => enrollment.remote_control_enabled,
                    },
                ),
                (StoreBackend::Unconfigured { message }, Err(e)) => e@
                    == StoreErrorView::InvalidRequest(message@),
                _ => false,
            },
    {
        match self.workspace_id() {
            Ok(_) => {},
            Err(e) => return Err(e),
        }
        let app_server_client_name = match enrollment.app_server_client_name {
            Some(name) => name,
            None => text::owned(remote_control_app_server_client_name_key(None)),
        };
        Ok(
            RemoteControlEnrollmentRow {
                websocket_url: enrollment.websocket_url,
                account_id: enrollment.account_id,
                app_server_client_name,
                server_id: enrollment.server_id,
                environment_id: enrollment.environment_id,
                server_name: enrollment.server_name,
                remote_control_enabled: match stored_switch {
                    Some(enabled) => enabled,
                    None => enrollment.remote_control_enabled,
                },
            },
        )
    }
}

/// Whether memories are made of a thread.
#[derive(Debug, Clone, Copy, PartialEq, Eq, Structural)]
pub enum ThreadMemoryMode {
    Enabled,
    Disabled,
}

/// How the history of a thread is kept.
#[derive(Debug, Clone, Copy, PartialEq, Eq, Structural)]
pub enum ThreadHistoryMode {
    Legacy,
    Paginated,
}

/// The name under which a memory mode is stored.
pub open spec fn memory_mode_key(mode: ThreadMemoryMode) -> Seq<char> {
    match mode {
        ThreadMemoryMode::Enabled => "enabled"@,
        ThreadMemoryMode::Disabled => "disabled"@,
    }
}

/// The name under which a memory mode is stored.
pub fn thread_memory_mode_key(memory_mode: ThreadMemoryMode) -> (r: &'static str)
    ensures
        r@ == memory_mode_key(memory_mode),
{
    match memory_mode {
        ThreadMemoryMode::Enabled => "enabled",
        ThreadMemoryMode::Disabled => "disabled",
    }
}

/// The name under which a history mode is stored.
pub open spec fn history_mode_key(mode: ThreadHistoryMode) -> Seq<char> {
    match mode {
        ThreadHistoryMode::Legacy => "legacy"@,
        ThreadHistoryMode::Paginated => "paginated"@,
    }
}

/// The name under which a history mode is stored.
pub fn thread_history_mode_key(history_mode: ThreadHistoryMode) -> (r: &'static str)
    ensures
        r@ == history_mode_key(history_mode),
{
    match history_mode {
        ThreadHistoryMode::Legacy => "legacy",
        ThreadHistoryMode::Paginated => "paginated",
    }
}

/// How the history of new threads is kept.
pub fn default_history_mode() -> (r: ThreadHistoryMode)
    ensures
        r == ThreadHistoryMode::Paginated,
{
    ThreadHistoryMode::Paginated
}

/// The state of an edge between a thread and one that it spawned.
#[derive(Debug, Clone, Copy, PartialEq, Eq, Structural)]
pub enum ThreadSpawnEdgeStatus {
    Open,
    Closed,
}

/// The name under which the state of an edge is stored.
pub fn graph_status(status: ThreadSpawnEdgeStatus) -> (r: &'static str)
    ensures
        r@ == match status {
            ThreadSpawnEdgeStatus::Open => "open"@,
            ThreadSpawnEdgeStatus::Closed => "closed"@,
        },
{
    match status {
        ThreadSpawnEdgeStatus::Open => "open",
        ThreadSpawnEdgeStatus::Closed => "closed",
    }
}

/// The keys with one more, unless it is among them.
pub open spec fn with_key(keys: Seq<Seq<char>>, key: Seq<char>) -> Seq<Seq<char>> {
    if keys.contains(key) {
        keys
    } else {
        keys.push(key)
    }
}

/// Adds a key, unless it is among the keys.
pub fn push_unique_key(keys: &mut Vec<String>, key: String)
    ensures
        texts(final(keys)@) == with_key(texts(old(keys)@), key@),
{
    let ghost listed = texts(keys@);
    let mut i: usize = 0;
    while i < keys.len()
        invariant
            i <= keys.len(),
            listed == texts(keys@),
            listed == texts(old(keys)@),
            forall|k: int| 0 <= k < i ==> listed[k] != key@,
        decreases keys.len() - i,
    {
        if keys[i] == key {
            assert(listed[i as int] == key@);
            return;
        }
        i += 1;
    }
    let ghost before = keys@;
    keys.push(key);
    assert(texts(keys@) =~= texts(before).push(key@));
}

/// The key of a source as a document: its text, or the compact text of the document.
pub open spec fn source_key(value: JsonView) -> Seq<char> {
    match value {
        JsonView::Str(s) => s,
        _ => json_text(value),
    }
}

/// The key of a source as a document.
pub fn session_source_key_from_value(value: &Json) -> (r: String)
    ensures
        r@ == source_key(value@),
{
    match value {
        Json::Str(s) => s.clone(),
        _ => value.text(),
    }
}

/// The key under which a source is stored.
pub fn canonical_session_source_key(source: &SessionSource) -> (r: String)
    ensures
        r@ == source_key(source.value@),
{
    session_source_key_from_value(&source.value)
}

/// The text that the database gives for a document: as the compact text, with a space after each
/// comma and each colon.
pub open spec fn jsonb_text(v: JsonView) -> Seq<char>
    decreases v, 0nat,
{
    match v {
        JsonView::Array(items) => "["@ + join_of(jsonb_texts(items), ", "@) + "]"@,
        JsonView::Object(m) => "{"@ + join_of(jsonb_members(m, member_names(m)), ", "@) + "}"@,
        _ => json_text(v),
    }
}

/// The texts of the items of an array.
pub open spec fn jsonb_texts(items: Seq<JsonView>) -> Seq<Seq<char>>
    decreases items, items.len(),
{
    if items.len() == 0 {
        Seq::empty()
    } else {
        jsonb_texts(items.drop_last()).push(jsonb_text(items.last()))
    }
}

/// The texts of the named members of an object.
pub open spec fn jsonb_members(m: Map<Seq<char>, JsonView>, names: Seq<Seq<char>>) -> Seq<
    Seq<char>,
>
    decreases m, names.len(),
{
    if names.len() == 0 || !m.dom().finite() || !m.contains_key(names.last()) {
        Seq::empty()
    } else {
        jsonb_members(m, names.drop_last()).push(
            json_text(JsonView::Str(names.last())) + ": "@ + jsonb_text(m[names.last()]),
        )
    }
}

/// The text that the database gives for a document.
pub fn postgres_jsonb_compat_key(value: &Json) -> (r: String)
    ensures
        r@ == jsonb_text(value@),
    decreases value@,
{
    match value {
        Json::Array(items) => {
            let mut parts: Vec<String> = Vec::new();
            let ghost shown = items_view(items@);
            let mut i: usize = 0;
            proof {
                items_view_index(items@);
                assert(texts(parts@) =~= jsonb_texts(shown.take(0)));
            }
            while i < items.len()
                invariant
                    i <= items.len(),
                    shown == items_view(items@),
                    shown.len() == items@.len(),
                    value@ == JsonView::Array(shown),
                    texts(parts@) == jsonb_texts(shown.take(i as int)),
                decreases items.len() - i,
            {
                proof {
                    items_view_index(items@);
                    assert(shown[i as int] == items@[i as int]@);
                    assert(decreases_to!(value@ => value@->Array_0));
                    assert(shown.take(i + 1).drop_last() =~= shown.take(i as int));
                }
                let part = postgres_jsonb_compat_key(&items[i]);
                let ghost before = parts@;
                parts.push(part);
                assert(texts(parts@) =~= texts(before).push(part@));
                i += 1;
            }
            assert(shown.take(i as int) =~= shown);
            let joined = text::join(&parts, ", ");
            text::concat3("[", joined.as_str(), "]")
        },
        Json::Object(o) => {
            let names = o.names();
            let ghost listed = texts(names@);
            let mut parts: Vec<String> = Vec::new();
            let mut i: usize = 0;
            assert(texts(parts@) =~= jsonb_members(o@, listed.take(0)));
            while i < names.len()
                invariant
                    i <= names.len(),
                    listed == texts(names@),
                    value@ == JsonView::Object(o@),
                    o@.dom().finite(),
                    lists_members(listed, o@),
                    texts(parts@) == jsonb_members(o@, listed.take(i as int)),
                decreases names.len() - i,
            {
                let name = names[i].as_str();
                proof {
                    assert(listed[i as int] == name@);
                    assert(listed.contains(name@));
                    assert(o@.contains_key(name@));
                    assert(listed.take(i + 1).drop_last() =~= listed.take(i as int));
                    assert(decreases_to!(value@ => value@->Object_0));
                    assert(decreases_to!(o@ => o@[name@]));
                }
                if let Some(member) = o.get(name) {
                    let key = Json::string(name).text();
                    let inner = postgres_jsonb_compat_key(member);
                    let part = text::concat3(key.as_str(), ": ", inner.as_str());
                    let ghost before = parts@;
                    parts.push(part);
                    assert(texts(parts@) =~= texts(before).push(part@));
                }
                i += 1;
            }
            assert(listed.take(i as int) =~= listed);
            let joined = text::join(&parts, ", ");
            text::concat3("{", joined.as_str(), "}")
        },
        _ => value.text(),
    }
}

/// The keys under which a source may be found: the one under which it is stored, those of its
/// debug output and of how it is shown, and the text that the database gives for its document,
/// where that is not a text.
pub open spec fn filter_keys(value: JsonView, debug: Seq<char>, display: Seq<char>) -> Seq<
    Seq<char>,
> {
    let keys = with_key(
        with_key(with_key(Seq::empty(), source_key(value)), debug),
        display,
    );
    if value is Str {
        keys
    } else {
        with_key(keys, jsonb_text(value))
    }
}

/// The keys under which a source may be found.
pub fn session_source_filter_keys(source: &SessionSource) -> (r: Vec<String>)
    ensures
        texts(r@) == filter_keys(source.value@, source.debug@, source.display@),
{
    let mut keys: Vec<String> = Vec::new();
    assert(texts(keys@) =~= Seq::empty());
    push_unique_key(&mut keys, session_source_key_from_value(&source.value));
    push_unique_key(&mut keys, source.debug.clone());
    push_unique_key(&mut keys, source.display.clone());
    if source.value.as_str().is_none() {
        push_unique_key(&mut keys, postgres_jsonb_compat_key(&source.value));
    }
    keys
}

// ---------------------------------------------------------------------------------------------
// Laws
// ---------------------------------------------------------------------------------------------

/// The name of a client comes back from the name under which it is stored. The empty name does
/// not: it stands for a client without one.
pub proof fn client_names_come_back(name: Option<Seq<char>>)
    requires
        name matches Some(name) ==> name.len() > 0,
    ensures
        client_name_of_key(client_name_key(name)) == name,
{
    reveal_strlit("");
}

/// A client without a name is stored under the empty one, and any other under its own.
pub proof fn clients_are_stored_under_their_names(name: Seq<char>)
    ensures
        client_name_key(Some(name)) == name,
        client_name_key(None).len() == 0,
        name.len() > 0 ==> client_name_of_key(name) == Some(name),
        name.len() == 0 ==> client_name_of_key(name) is None,
{
    reveal_strlit("");
}

/// The modes have the names under which they are stored, and no two the same.
pub proof fn modes_have_their_names()
    ensures
        memory_mode_key(ThreadMemoryMode::Enabled) == "enabled"@,
        memory_mode_key(ThreadMemoryMode::Disabled) == "disabled"@,
        history_mode_key(ThreadHistoryMode::Legacy) == "legacy"@,
        history_mode_key(ThreadHistoryMode::Paginated) == "paginated"@,
        "enabled"@ != "disabled"@,
        "legacy"@ != "paginated"@,
{
    reveal_strlit("enabled");
    reveal_strlit("disabled");
    reveal_strlit("legacy");
    reveal_strlit("paginated");
    assert("enabled"@.len() != "disabled"@.len());
    assert("legacy"@.len() != "paginated"@.len());
}

/// Any text that is not blank names a database.
pub proof fn blank_addresses_name_no_database(url: String)
    ensures
        names_database(Some(url)) <==> exists|i: int|
            0 <= i < url@.len() && !text::is_white_space(#[trigger] url@[i]),
        !names_database(None),
{
    text::trimming_takes_white_space_only(url@);
}

/// A row holds each member of the enrollment, under the name of its client, and the switch.
pub proof fn rows_hold_each_member(
    row: RemoteControlEnrollmentRow,
    enrollment: RemoteControlEnrollmentRecord,
    enabled: Option<bool>,
)
    requires
        is_row_of(row, enrollment, enabled),
    ensures
        row.websocket_url@ == enrollment.websocket_url@,
        row.account_id@ == enrollment.account_id@,
        row.server_id@ == enrollment.server_id@,
        row.environment_id@ == enrollment.environment_id@,
        row.server_name@ == enrollment.server_name@,
        row.remote_control_enabled == enabled,
        match enrollment.app_server_client_name {
            Some(name) => row.app_server_client_name@ == name@,
            None => row.app_server_client_name@.len() == 0,
        },
{
    reveal_strlit("");
}

/// A key is added behind the others, unless it is among them; no other comes or goes.
pub proof fn keys_are_added_once(keys: Seq<Seq<char>>, key: Seq<char>)
    ensures
        keys.is_prefix_of(with_key(keys, key)),
        with_key(keys, key).contains(key),
        keys.contains(key) ==> with_key(keys, key) == keys,
        !keys.contains(key) ==> with_key(keys, key).len() == keys.len() + 1 && with_key(
            keys,
            key,
        ).last() == key,
        with_key(with_key(keys, key), key) == with_key(keys, key),
        keys.no_duplicates() ==> with_key(keys, key).no_duplicates(),
{
    let more = with_key(keys, key);
    if !keys.contains(key) {
        assert(more[keys.len() as int] == key);
    }
}

/// A source that is a text is its own key, and any other has its compact text for one.
pub proof fn texts_are_their_own_keys(s: Seq<char>, value: JsonView)
    ensures
        source_key(JsonView::Str(s)) == s,
        value !is Str ==> source_key(value) == json_text(value),
{
}

/// A source is found under four keys at most: its own, which comes first, that of its debug
/// output, how it is shown, and, unless it is a text, what the database gives for it. None comes
/// twice, and there is no other.
pub proof fn sources_are_found_under_their_keys(
    value: JsonView,
    debug: Seq<char>,
    display: Seq<char>,
)
    ensures
        ({
            let keys = filter_keys(value, debug, display);
            &&& 0 < keys.len() <= 4
            &&& value is Str ==> keys[0] == value->Str_0
            &&& value !is Str ==> keys[0] == json_text(value)
            &&& keys.contains(debug)
            &&& keys.contains(display)
            &&& value !is Str ==> keys.contains(jsonb_text(value))
            &&& keys.no_duplicates()
            &&& forall|i: int|
                0 <= i < keys.len() ==> #[trigger] keys[i] == keys[0] || keys[i] == debug || keys[i]
                    == display || (value !is Str && keys[i] == jsonb_text(value))
        }),
{
    let k0 = Seq::<Seq<char>>::empty();
    let k1 = with_key(k0, source_key(value));
    let k2 = with_key(k1, debug);
    let k3 = with_key(k2, display);
    let k4 = with_key(k3, jsonb_text(value));
    keys_are_added_once(k0, source_key(value));
    keys_are_added_once(k1, debug);
    keys_are_added_once(k2, display);
    keys_are_added_once(k3, jsonb_text(value));
    assert(k1[0] == source_key(value));
    assert(k2[0] == k1[0] && k3[0] == k2[0] && k4[0] == k3[0]);
    let i2 = choose|i: int| 0 <= i < k2.len() && k2[i] == debug;
    assert(k3[i2] == debug);
    assert(k4[i2] == debug);
    let i3 = choose|i: int| 0 <= i < k3.len() && k3[i] == display;
    assert(k4[i3] == display);
}

/// The text that the database gives for a list is the texts of its items with a comma and a space
/// between them, in brackets, and for anything that holds no other documents it is the compact
/// text.
pub proof fn lists_are_spaced(items: Seq<JsonView>, item: JsonView, value: JsonView)
    ensures
        jsonb_text(JsonView::Array(items)) == "["@ + join_of(jsonb_texts(items), ", "@) + "]"@,
        jsonb_texts(Seq::empty()).len() == 0,
        jsonb_texts(items.push(item)) == jsonb_texts(items).push(jsonb_text(item)),
        value !is Array && value !is Object ==> jsonb_text(value) == json_text(value),
{
    assert(items.push(item).drop_last() =~= items);
}

/// The text that the database gives for an object is that of its members with a comma and a space
/// between them, in braces; each is its name, a colon, a space, and the text of its document.
pub proof fn members_are_spaced(
    m: Map<Seq<char>, JsonView>,
    names: Seq<Seq<char>>,
    name: Seq<char>,
)
    requires
        m.dom().finite(),
        m.contains_key(name),
    ensures
        jsonb_text(JsonView::Object(m)) == "{"@ + join_of(jsonb_members(m, member_names(m)), ", "@)
            + "}"@,
        jsonb_members(m, Seq::empty()).len() == 0,
        jsonb_members(m, names.push(name)) == jsonb_members(m, names).push(
            json_text(JsonView::Str(name)) + ": "@ + jsonb_text(m[name]),
        ),
{
    assert(names.push(name).drop_last() =~= names);
}

} // verus!
