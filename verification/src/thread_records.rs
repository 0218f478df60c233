//! What is kept of a thread, and how it is made, read and changed.

use vstd::prelude::*;

use crate::chat_stream::TokenUsage;
use crate::json::{member_str, Json, JsonObject, JsonView};
use crate::protocol::SessionSource;
use crate::store_error::{StoreErrorView, ThreadStoreError};
use crate::text::{self, opt_text};
use crate::thread_id::ThreadId;
use crate::thread_store::{
    canonical_session_source_key, history_mode_key, memory_mode_key, source_key,
    thread_history_mode_key, thread_memory_mode_key, ThreadHistoryMode, ThreadMemoryMode,
};
use crate::time::{is_later, Timestamp};

verus! {

// ---------------------------------------------------------------------------------------------
// Threads
// ---------------------------------------------------------------------------------------------

/// The state of the repository that a thread works in.
#[derive(Debug, PartialEq, Eq)]
pub struct GitInfo {
    pub commit_hash: Option<String>,
    pub branch: Option<String>,
    pub repository_url: Option<String>,
}

/// What is kept of a thread. What other parts of the system define is kept as documents.
#[derive(Debug, PartialEq)]
pub struct StoredThread {
    pub thread_id: ThreadId,
    pub extra_config: Option<Json>,
    pub rollout_path: Option<String>,
    pub forked_from_id: Option<ThreadId>,
    pub parent_thread_id: Option<ThreadId>,
    pub preview: String,
    pub name: Option<String>,
    pub model_provider: String,
    pub model: Option<String>,
    pub reasoning_effort: Option<String>,
    pub created_at: Timestamp,
    pub updated_at: Timestamp,
    pub recency_at: Timestamp,
    pub archived_at: Option<Timestamp>,
    pub section: Option<Json>,
    pub section_position: Option<i64>,
    pub section_entered_at: Option<Timestamp>,
    pub project_id: Option<String>,
    pub cwd: String,
    pub cli_version: String,
    pub source: SessionSource,
    pub history_mode: ThreadHistoryMode,
    pub thread_source: Option<String>,
    pub agent_nickname: Option<String>,
    pub agent_role: Option<String>,
    pub agent_path: Option<String>,
    pub git_info: Option<GitInfo>,
    pub approval_mode: Json,
    pub permission_profile: Json,
    pub token_usage: Option<TokenUsage>,
    pub first_user_message: Option<String>,
    pub history: Option<Vec<Json>>,
}

/// What a new thread is made of. The approval mode and the permissions are those of a thread that
/// asks before it acts and only reads.
#[derive(Debug)]
pub struct CreateThreadParams {
    pub thread_id: ThreadId,
    pub extra_config: Option<Json>,
    pub forked_from_id: Option<ThreadId>,
    pub parent_thread_id: Option<ThreadId>,
    pub source: SessionSource,
    pub thread_source: Option<String>,
    pub history_mode: ThreadHistoryMode,
    pub model_provider: String,
    pub model: Option<String>,
    pub reasoning_effort: Option<String>,
    pub cwd: Option<String>,
    pub on_request_approval: Json,
    pub read_only_permissions: Json,
}

/// A new thread: nothing has been said, and every instant is the present one.
pub fn create_thread(params: CreateThreadParams, now: Timestamp) -> (r: StoredThread)
    ensures
        r.thread_id == params.thread_id,
        r.extra_config == params.extra_config,
        r.rollout_path is None,
        r.forked_from_id == params.forked_from_id,
        r.parent_thread_id == params.parent_thread_id,
        r.preview@.len() == 0,
        r.name is None,
        r.model_provider == params.model_provider,
        r.model == params.model,
        r.reasoning_effort == params.reasoning_effort,
        r.created_at == now,
        r.updated_at == now,
        r.recency_at == now,
        r.archived_at is None,
        r.section is None,
        r.section_position is None,
        r.section_entered_at is None,
        r.project_id is None,
        match params.cwd {
            Some(cwd) => r.cwd == cwd,
            None => r.cwd@.len() == 0,
        },
        r.cli_version@.len() == 0,
        r.source == params.source,
        r.history_mode == params.history_mode,
        r.thread_source == params.thread_source,
        r.agent_nickname is None,
        r.agent_role is None,
        r.agent_path is None,
        r.git_info is None,
        r.approval_mode == params.on_request_approval,
        r.permission_profile == params.read_only_permissions,
        r.token_usage is None,
        r.first_user_message is None,
        r.history is None,
{
    StoredThread {
        thread_id: params.thread_id,
        extra_config: params.extra_config,
        rollout_path: None,
        forked_from_id: params.forked_from_id,
        parent_thread_id: params.parent_thread_id,
        preview: String::new(),
        name: None,
        model_provider: params.model_provider,
        model: params.model,
        reasoning_effort: params.reasoning_effort,
        created_at: now,
        updated_at: now,
        recency_at: now,
        archived_at: None,
        section: None,
        section_position: None,
        section_entered_at: None,
        project_id: None,
        cwd: match params.cwd {
            Some(cwd) => cwd,
            None => String::new(),
        },
        cli_version: String::new(),
        source: params.source,
        history_mode: params.history_mode,
        thread_source: params.thread_source,
        agent_nickname: None,
        agent_role: None,
        agent_path: None,
        git_info: None,
        approval_mode: params.on_request_approval,
        permission_profile: params.read_only_permissions,
        token_usage: None,
        first_user_message: None,
        history: None,
    }
}

/// Brings a thread that was read into the form in which this store works: whatever the row says,
/// its history is kept in the old way.
pub fn normalize_stored_thread(stored: StoredThread) -> (r: StoredThread)
    ensures
        r == (StoredThread { history_mode: ThreadHistoryMode::Legacy, ..stored }),
{
    let mut stored = stored;
    stored.history_mode = ThreadHistoryMode::Legacy;
    stored
}

/// The columns of the row of a thread, beside its document.
#[derive(Debug)]
pub struct ThreadColumns {
    pub id: String,
    pub forked_from_thread_id: Option<String>,
    pub parent_thread_id: Option<String>,
    pub history_mode: String,
    pub source: String,
    pub thread_source: Option<String>,
    pub model_provider: String,
    pub model: Option<String>,
    pub reasoning_effort: Option<String>,
    pub memory_mode: String,
    pub cwd: String,
    pub title: Option<String>,
    pub preview: String,
    pub created_at: Timestamp,
    pub updated_at: Timestamp,
    pub recency_at: Timestamp,
    pub archived_at: Option<Timestamp>,
}

/// The text of an identifier, where there is one.
pub open spec fn opt_id(id: Option<ThreadId>) -> Option<Seq<char>> {
    match id {
        Some(id) => Some(id@),
        None => None,
    }
}

/// The columns say what the document of the thread says, and the name of its memory mode.
pub open spec fn columns_say(
    c: ThreadColumns,
    stored: StoredThread,
    memory_mode: Seq<char>,
) -> bool {
    &&& c.id@ == stored.thread_id@
    &&& opt_text(c.forked_from_thread_id) == opt_id(stored.forked_from_id)
    &&& opt_text(c.parent_thread_id) == opt_id(stored.parent_thread_id)
    &&& c.history_mode@ == history_mode_key(stored.history_mode)
    &&& c.source@ == source_key(stored.source.value@)
    &&& opt_text(c.thread_source) == opt_text(stored.thread_source)
    &&& c.model_provider@ == stored.model_provider@
    &&& opt_text(c.model) == opt_text(stored.model)
    &&& opt_text(c.reasoning_effort) == opt_text(stored.reasoning_effort)
    &&& c.memory_mode@ == memory_mode
    &&& c.cwd@ == stored.cwd@
    &&& opt_text(c.title) == opt_text(stored.name)
    &&& c.preview@ == stored.preview@
    &&& c.created_at == stored.created_at
    &&& c.updated_at == stored.updated_at
    &&& c.recency_at == stored.recency_at
    &&& c.archived_at == stored.archived_at
}

fn copy_text(text: &Option<String>) -> (r: Option<String>)
    ensures
        opt_text(r) == opt_text(*text),
{
    match text {
        Some(text) => Some(text.clone()),
        None => None,
    }
}

fn id_text(id: &Option<ThreadId>) -> (r: Option<String>)
    ensures
        opt_text(r) == opt_id(*id),
{
    match id {
        Some(id) => Some(text::owned(id.as_str())),
        None => None,
    }
}

/// The columns of the row of a thread, given the name of its memory mode.
pub fn thread_columns(stored: &StoredThread, memory_mode: &str) -> (r: ThreadColumns)
    ensures
        columns_say(r, *stored, memory_mode@),
{
    ThreadColumns {
        id: text::owned(stored.thread_id.as_str()),
        forked_from_thread_id: id_text(&stored.forked_from_id),
        parent_thread_id: id_text(&stored.parent_thread_id),
        history_mode: text::owned(thread_history_mode_key(stored.history_mode)),
        source: canonical_session_source_key(&stored.source),
        thread_source: copy_text(&stored.thread_source),
        model_provider: stored.model_provider.clone(),
        model: copy_text(&stored.model),
        reasoning_effort: copy_text(&stored.reasoning_effort),
        memory_mode: text::owned(memory_mode),
        cwd: stored.cwd.clone(),
        title: copy_text(&stored.name),
        preview: stored.preview.clone(),
        created_at: stored.created_at,
        updated_at: stored.updated_at,
        recency_at: stored.recency_at,
        archived_at: stored.archived_at,
    }
}

// ---------------------------------------------------------------------------------------------
// Changes
// ---------------------------------------------------------------------------------------------

/// Changes to what is kept of a repository. What is set may be set to nothing.
#[derive(Debug)]
pub struct GitInfoPatch {
    pub sha: Option<Option<String>>,
    pub branch: Option<Option<String>>,
    pub origin_url: Option<Option<String>>,
}

/// Changes to what is kept of a thread. `None` leaves a field as it is.
#[derive(Debug)]
pub struct ThreadMetadataPatch {
    pub name: Option<Option<String>>,
    pub preview: Option<String>,
    pub model_provider: Option<String>,
    pub model: Option<String>,
    pub reasoning_effort: Option<Option<String>>,
    pub created_at: Option<Timestamp>,
    pub updated_at: Option<Timestamp>,
    pub advance_recency_at: Option<Timestamp>,
    pub source: Option<SessionSource>,
    pub thread_source: Option<Option<String>>,
    pub agent_nickname: Option<Option<String>>,
    pub agent_role: Option<Option<String>>,
    pub agent_path: Option<Option<String>>,
    pub cwd: Option<String>,
    pub cli_version: Option<String>,
    pub approval_mode: Option<Json>,
    pub permission_profile: Option<Json>,
    pub token_usage: Option<TokenUsage>,
    pub first_user_message: Option<String>,
    pub project_id: Option<Option<String>>,
    pub git_info: Option<GitInfoPatch>,
    pub memory_mode: Option<ThreadMemoryMode>,
}

impl ThreadMetadataPatch {
    /// No changes.
    pub fn empty() -> (r: ThreadMetadataPatch)
        ensures
            r.is_empty(),
    {
        ThreadMetadataPatch {
            name: None,
            preview: None,
            model_provider: None,
            model: None,
            reasoning_effort: None,
            created_at: None,
            updated_at: None,
            advance_recency_at: None,
            source: None,
            thread_source: None,
            agent_nickname: None,
            agent_role: None,
            agent_path: None,
            cwd: None,
            cli_version: None,
            approval_mode: None,
            permission_profile: None,
            token_usage: None,
            first_user_message: None,
            project_id: None,
            git_info: None,
            memory_mode: None,
        }
    }

    /// Nothing is changed.
    pub open spec fn is_empty(self) -> bool {
        &&& self.name is None
        &&& self.preview is None
        &&& self.model_provider is None
        &&& self.model is None
        &&& self.reasoning_effort is None
        &&& self.created_at is None
        &&& self.updated_at is None
        &&& self.advance_recency_at is None
        &&& self.source is None
        &&& self.thread_source is None
        &&& self.agent_nickname is None
        &&& self.agent_role is None
        &&& self.agent_path is None
        &&& self.cwd is None
        &&& self.cli_version is None
        &&& self.approval_mode is None
        &&& self.permission_profile is None
        &&& self.token_usage is None
        &&& self.first_user_message is None
        &&& self.project_id is None
        &&& self.git_info is None
        &&& self.memory_mode is None
    }
}

/// The value that is set, or the one before.
pub open spec fn or_before<T>(change: Option<T>, before: T) -> T {
    match change {
        Some(value) => value,
        None => before,
    }
}

/// The value that is set, or what was there before.
pub open spec fn some_or_before<T>(change: Option<T>, before: Option<T>) -> Option<T> {
    match change {
        Some(value) => Some(value),
        None => before,
    }
}

/// What is kept of a repository after a change.
pub open spec fn patched_git(info: Option<GitInfo>, patch: Option<GitInfoPatch>) -> Option<
    GitInfo,
> {
    match patch {
        Some(patch) => {
            let before = match info {
                Some(info) => info,
                None => GitInfo { commit_hash: None, branch: None, repository_url: None },
            };
            Some(
                GitInfo {
                    commit_hash: or_before(patch.sha, before.commit_hash),
                    branch: or_before(patch.branch, before.branch),
                    repository_url: or_before(patch.origin_url, before.repository_url),
                },
            )
        },
        None => info,
    }
}

/// The later of two instants, the first where they are the same.
pub open spec fn advanced(before: Timestamp, to: Option<Timestamp>) -> Timestamp {
    match to {
        Some(t) if is_later(t@, before@) => t,
        _ => before,
    }
}

/// What is kept of a thread after a change. The instant by which threads are found again only
/// moves on.
pub open spec fn patched(stored: StoredThread, patch: ThreadMetadataPatch) -> StoredThread {
    StoredThread {
        name: or_before(patch.name, stored.name),
        preview: or_before(patch.preview, stored.preview),
        model_provider: or_before(patch.model_provider, stored.model_provider),
        model: some_or_before(patch.model, stored.model),
        reasoning_effort: or_before(patch.reasoning_effort, stored.reasoning_effort),
        created_at: or_before(patch.created_at, stored.created_at),
        updated_at: or_before(patch.updated_at, stored.updated_at),
        recency_at: advanced(stored.recency_at, patch.advance_recency_at),
        source: or_before(patch.source, stored.source),
        thread_source: or_before(patch.thread_source, stored.thread_source),
        agent_nickname: or_before(patch.agent_nickname, stored.agent_nickname),
        agent_role: or_before(patch.agent_role, stored.agent_role),
        agent_path: or_before(patch.agent_path, stored.agent_path),
        cwd: or_before(patch.cwd, stored.cwd),
        cli_version: or_before(patch.cli_version, stored.cli_version),
        approval_mode: or_before(patch.approval_mode, stored.approval_mode),
        permission_profile: or_before(patch.permission_profile, stored.permission_profile),
        token_usage: some_or_before(patch.token_usage, stored.token_usage),
        first_user_message: some_or_before(patch.first_user_message, stored.first_user_message),
        project_id: or_before(patch.project_id, stored.project_id),
        git_info: patched_git(stored.git_info, patch.git_info),
        ..stored
    }
}

fn apply_git_patch(info: Option<GitInfo>, patch: GitInfoPatch) -> (r: Option<GitInfo>)
    ensures
        r == patched_git(info, Some(patch)),
{
    let mut git = match info {
        Some(info) => info,
        None => GitInfo { commit_hash: None, branch: None, repository_url: None },
    };
    if let Some(sha) = patch.sha {
        git.commit_hash = sha;
    }
    if let Some(branch) = patch.branch {
        git.branch = branch;
    }
    if let Some(origin_url) = patch.origin_url {
        git.repository_url = origin_url;
    }
    Some(git)
}

fn pick<T>(change: Option<T>, before: T) -> (r: T)
    ensures
        r == or_before(change, before),
{
    match change {
        Some(value) => value,
        None => before,
    }
}

fn pick_some<T>(change: Option<T>, before: Option<T>) -> (r: Option<T>)
    ensures
        r == some_or_before(change, before),
{
    match change {
        Some(value) => Some(value),
        None => before,
    }
}

/// Changes what is kept of a thread.
pub fn apply_metadata_patch(stored: StoredThread, patch: ThreadMetadataPatch) -> (r: StoredThread)
    ensures
        r == patched(stored, patch),
{
    let recency_at = match patch.advance_recency_at {
        Some(recency_at) => if recency_at.is_after(&stored.recency_at) {
            recency_at
        } else {
            stored.recency_at
        },
        None => stored.recency_at,
    };
    let git_info = match patch.git_info {
        Some(git_info) => apply_git_patch(stored.git_info, git_info),
        None => stored.git_info,
    };
    StoredThread {
        name: pick(patch.name, stored.name),
        preview: pick(patch.preview, stored.preview),
        model_provider: pick(patch.model_provider, stored.model_provider),
        model: pick_some(patch.model, stored.model),
        reasoning_effort: pick(patch.reasoning_effort, stored.reasoning_effort),
        created_at: pick(patch.created_at, stored.created_at),
        updated_at: pick(patch.updated_at, stored.updated_at),
        recency_at,
        source: pick(patch.source, stored.source),
        thread_source: pick(patch.thread_source, stored.thread_source),
        agent_nickname: pick(patch.agent_nickname, stored.agent_nickname),
        agent_role: pick(patch.agent_role, stored.agent_role),
        agent_path: pick(patch.agent_path, stored.agent_path),
        cwd: pick(patch.cwd, stored.cwd),
        cli_version: pick(patch.cli_version, stored.cli_version),
        approval_mode: pick(patch.approval_mode, stored.approval_mode),
        permission_profile: pick(patch.permission_profile, stored.permission_profile),
        token_usage: pick_some(patch.token_usage, stored.token_usage),
        first_user_message: pick_some(patch.first_user_message, stored.first_user_message),
        project_id: pick(patch.project_id, stored.project_id),
        git_info,
        ..stored
    }
}

/// What is said of a thread that is archived.
pub open spec fn archived_error(thread_id: Seq<char>) -> StoreErrorView {
    StoreErrorView::InvalidRequest("thread "@ + thread_id + " is archived"@)
}

/// Refuses a thread that is archived, unless archived threads are wanted too.
pub fn check_not_archived(
    thread_id: &ThreadId,
    archived_at: Option<Timestamp>,
    include_archived: bool,
) -> (r: Result<(), ThreadStoreError>)
    ensures
        match r {
            Ok(_) => archived_at is None || include_archived,
            Err(e) => archived_at is Some && !include_archived && e@ == archived_error(thread_id@),
        },
{
    if archived_at.is_some() && !include_archived {
        return Err(
            ThreadStoreError::InvalidRequest {
                message: text::concat3("thread ", thread_id.as_str(), " is archived"),
            },
        );
    }
    Ok(())
}

/// A thread after a change, and the name of its memory mode.
#[derive(Debug)]
pub struct UpdatedThread {
    pub stored: StoredThread,
    pub memory_mode: String,
}

/// Changes what is kept of a thread, given the name of the memory mode that it has. A thread that
/// is archived is refused, unless archived threads are wanted too.
pub fn update_thread_metadata(
    stored: StoredThread,
    memory_mode: String,
    patch: ThreadMetadataPatch,
    include_archived: bool,
) -> (r: Result<UpdatedThread, ThreadStoreError>)
    ensures
        match r {
            Ok(updated) => {
                &&& stored.archived_at is None || include_archived
                &&& updated.stored == patched(stored, patch)
                &&& updated.memory_mode@ == match patch.memory_mode {
                    Some(mode) => memory_mode_key(mode),
                    None => memory_mode@,
                }
            },
            Err(e) => stored.archived_at is Some && !include_archived && e@ == archived_error(
                stored.thread_id@,
            ),
        },
{
    let memory_mode = match patch.memory_mode {
        Some(mode) => text::owned(thread_memory_mode_key(mode)),
        None => memory_mode,
    };
    match check_not_archived(&stored.thread_id, stored.archived_at, include_archived) {
        Ok(_) => {},
        Err(e) => return Err(e),
    }
    let stored = apply_metadata_patch(stored, patch);
    Ok(UpdatedThread { stored, memory_mode })
}

/// Archives a thread.
pub fn archive_thread(stored: StoredThread, now: Timestamp) -> (r: StoredThread)
    ensures
        r == (StoredThread { archived_at: Some(now), ..stored }),
{
    let mut stored = stored;
    stored.archived_at = Some(now);
    stored
}

/// Takes a thread out of the archive.
pub fn unarchive_thread(stored: StoredThread, now: Timestamp) -> (r: StoredThread)
    ensures
        r == (StoredThread { archived_at: None, updated_at: now, ..stored }),
{
    let mut stored = stored;
    stored.archived_at = None;
    stored.updated_at = now;
    stored
}

/// Refuses a deletion that met no thread.
pub fn check_deleted(rows_affected: u64, thread_id: ThreadId) -> (r: Result<(), ThreadStoreError>)
    ensures
        match r {
            Ok(_) => rows_affected > 0,
            Err(e) => rows_affected == 0 && e@ == StoreErrorView::ThreadNotFound(thread_id@),
        },
{
    if rows_affected == 0 {
        Err(ThreadStoreError::ThreadNotFound { thread_id })
    } else {
        Ok(())
    }
}

// ---------------------------------------------------------------------------------------------
// New items
// ---------------------------------------------------------------------------------------------

/// The numbers of the items that are appended to a thread.
#[derive(Debug, Clone, Copy, PartialEq, Eq, Structural)]
pub struct AppendPlan {
    pub from_seq: i64,
    pub to_seq: i64,
}

/// The numbers of new items: they follow the last one without a gap. There are none where no item
/// is appended, nor where the numbers run out.
pub open spec fn append_numbers(latest_seq: int, count: int) -> Option<AppendPlan> {
    if count <= 0 || latest_seq + count > i64::MAX {
        None
    } else {
        Some(
            AppendPlan { from_seq: (latest_seq + 1) as i64, to_seq: (latest_seq + count) as i64 },
        )
    }
}

/// The numbers of new items.
pub fn plan_append(latest_seq: i64, count: usize) -> (r: Option<AppendPlan>)
    ensures
        r == append_numbers(latest_seq as int, count as int),
{
    let to_seq: i128 = latest_seq as i128 + count as i128;
    if count == 0 || to_seq > i64::MAX as i128 {
        return None;
    }
    Some(AppendPlan { from_seq: latest_seq + 1, to_seq: to_seq as i64 })
}

/// The notice of new items.
pub open spec fn append_notice_view(thread_id: Seq<char>, plan: AppendPlan) -> JsonView {
    JsonView::Object(
        map![
            "threadId"@ => JsonView::Str(thread_id),
            "fromSeq"@ => JsonView::Int(plan.from_seq as int),
            "toSeq"@ => JsonView::Int(plan.to_seq as int),
        ],
    )
}

/// The notice of new items that others are sent.
pub fn append_notice(thread_id: &ThreadId, plan: AppendPlan) -> (r: Json)
    ensures
        r@ == append_notice_view(thread_id@, plan),
{
    let mut o = JsonObject::new();
    o.insert(text::owned("threadId"), Json::string(thread_id.as_str()));
    o.insert(text::owned("fromSeq"), Json::integer(plan.from_seq));
    o.insert(text::owned("toSeq"), Json::integer(plan.to_seq));
    Json::Object(o)
}

/// A thread to which items have been appended.
pub fn touch_thread(stored: StoredThread, now: Timestamp) -> (r: StoredThread)
    ensures
        r == (StoredThread { updated_at: now, recency_at: now, ..stored }),
{
    let mut stored = stored;
    stored.updated_at = now;
    stored.recency_at = now;
    stored
}

/// What the row of a thread holds when items are appended to it.
#[derive(Debug)]
pub struct ThreadHead {
    pub stored: StoredThread,
    /// The number of the thread's last item.
    pub latest_seq: i64,
}

/// An item with its number.
#[derive(Debug, PartialEq)]
pub struct NumberedItem {
    pub seq: i64,
    pub item: Json,
}

/// What is written where items are appended to a thread.
#[derive(Debug)]
pub struct AppendedItems {
    /// The thread.
    pub stored: StoredThread,
    /// The items, in their order.
    pub items: Vec<NumberedItem>,
    /// The number of the last item of the thread.
    pub latest_seq: i64,
    /// The notice that others are sent.
    pub notice: Json,
}

/// The items are numbered one after the other, from after `latest_seq` on.
pub open spec fn numbered_from(
    numbered: Seq<NumberedItem>,
    items: Seq<Json>,
    latest_seq: i64,
) -> bool {
    &&& numbered.len() == items.len()
    &&& forall|i: int|
        0 <= i < items.len() ==> (#[trigger] numbered[i]).seq == latest_seq + 1 + i
            && numbered[i].item == items[i]
}

fn number_items(items: Vec<Json>, latest_seq: i64) -> (r: Vec<NumberedItem>)
    requires
        latest_seq + items@.len() <= i64::MAX,
    ensures
        numbered_from(r@, items@, latest_seq),
{
    let ghost all = items@;
    let mut rest = items;
    let mut numbered: Vec<NumberedItem> = Vec::new();
    while rest.len() > 0
        invariant
            latest_seq + all.len() <= i64::MAX,
            numbered@.len() <= all.len(),
            rest@ == all.skip(numbered@.len() as int),
            numbered_from(numbered@, all.take(numbered@.len() as int), latest_seq),
        decreases rest@.len(),
    {
        let item = rest.remove(0);
        assert(item == all[numbered@.len() as int]);
        assert(rest@ =~= all.skip(numbered@.len() as int + 1));
        let seq: i128 = latest_seq as i128 + 1 + numbered.len() as i128;
        numbered.push(NumberedItem { seq: seq as i64, item });
    }
    assert(all.take(numbered@.len() as int) =~= all);
    numbered
}

/// Appends items to a thread, given what its row holds where there is one. Where there are no
/// items nothing is written, and nothing is asked of the thread.
pub fn append_items(
    thread_id: &ThreadId,
    row: Option<ThreadHead>,
    items: Vec<Json>,
    now: Timestamp,
) -> (r: Result<Option<AppendedItems>, ThreadStoreError>)
    requires
        row matches Some(head) ==> head.latest_seq + items@.len() <= i64::MAX,
    ensures
        match r {
            Ok(None) => items@.len() == 0,
            Ok(Some(appended)) => {
                &&& row matches Some(head)
                &&& append_numbers(head.latest_seq as int, items@.len() as int) matches Some(plan)
                &&& appended.stored == (StoredThread {
                    updated_at: now,
                    recency_at: now,
                    ..head.stored
                })
                &&& numbered_from(appended.items@, items@, head.latest_seq)
                &&& appended.latest_seq == head.latest_seq + items@.len()
                &&& appended.notice@ == append_notice_view(thread_id@, plan)
            },
            Err(e) => items@.len() > 0 && row is None && e@ == StoreErrorView::ThreadNotFound(
                thread_id@,
            ),
        },
{
    if items.len() == 0 {
        return Ok(None);
    }
    let head = match row {
        Some(head) => head,
        None => return Err(ThreadStoreError::ThreadNotFound { thread_id: thread_id.duplicate() }),
    };
    let plan = match plan_append(head.latest_seq, items.len()) {
        Some(plan) => plan,
        None => return Ok(None),
    };
    Ok(
        Some(
            AppendedItems {
                stored: touch_thread(head.stored, now),
                items: number_items(items, head.latest_seq),
                latest_seq: plan.to_seq,
                notice: append_notice(thread_id, plan),
            },
        ),
    )
}

// ---------------------------------------------------------------------------------------------
// The document of a thread
// ---------------------------------------------------------------------------------------------

/// The name of the memory mode in the document of a thread.
pub fn stored_thread_memory_mode_key_from_value(value: &Json) -> (r: Option<String>)
    ensures
        opt_text(r) == member_str(value@, "memory_mode"@),
{
    match value.get_str("memory_mode") {
        Some(mode) => Some(text::owned(mode)),
        None => None,
    }
}

/// The name of the memory mode of a thread: that of its row, or else that of its document, or
/// else that of threads of which memories are made.
pub open spec fn row_memory_mode(column: Option<Seq<char>>, value: JsonView) -> Seq<char> {
    match column {
        Some(mode) => mode,
        None => match member_str(value, "memory_mode"@) {
            Some(mode) => mode,
            None => memory_mode_key(ThreadMemoryMode::Enabled),
        },
    }
}

/// The name of the memory mode of a thread, given the column of its row where it can be read.
pub fn stored_thread_memory_mode_key_from_row(column: Option<String>, value: &Json) -> (r: String)
    ensures
        r@ == row_memory_mode(opt_text(column), value@),
{
    match column {
        Some(mode) => mode,
        None => match stored_thread_memory_mode_key_from_value(value) {
            Some(mode) => mode,
            None => text::owned(thread_memory_mode_key(ThreadMemoryMode::Enabled)),
        },
    }
}

// ---------------------------------------------------------------------------------------------
// Laws
// ---------------------------------------------------------------------------------------------

/// A change of nothing changes nothing.
pub proof fn empty_patch_changes_nothing(stored: StoredThread, patch: ThreadMetadataPatch)
    requires
        patch.is_empty(),
    ensures
        patched(stored, patch) == stored,
{
}

/// The instant by which threads are found again never moves back, and a change does not take a
/// thread into or out of the archive, nor give it another identifier.
pub proof fn patches_keep_the_thread(stored: StoredThread, patch: ThreadMetadataPatch)
    ensures
        !is_later(stored.recency_at@, patched(stored, patch).recency_at@),
        patched(stored, patch).archived_at == stored.archived_at,
        patched(stored, patch).thread_id == stored.thread_id,
        patched(stored, patch).history_mode == stored.history_mode,
{
}

/// The name of the memory mode that is put into a document is found in it again.
pub proof fn memory_mode_is_found_again(m: Map<Seq<char>, JsonView>, mode: Seq<char>)
    ensures
        member_str(
            JsonView::Object(m.insert("memory_mode"@, JsonView::Str(mode))),
            "memory_mode"@,
        ) == Some(mode),
        row_memory_mode(
            None,
            JsonView::Object(m.insert("memory_mode"@, JsonView::Str(mode))),
        ) == mode,
{
}

/// Items that are appended in turn are numbered without a gap: two lots get the numbers that they
/// would have got as one.
pub proof fn appended_items_follow_each_other(latest_seq: i64, first: int, second: int)
    requires
        first > 0,
        second > 0,
        latest_seq + first + second <= i64::MAX,
    ensures
        ({
            let one = append_numbers(latest_seq as int, first)->0;
            let two = append_numbers(one.to_seq as int, second)->0;
            let both = append_numbers(latest_seq as int, first + second)->0;
            &&& one.from_seq == both.from_seq
            &&& two.from_seq == one.to_seq + 1
            &&& two.to_seq == both.to_seq
        }),
{
}

/// A change sets each field that it names, to nothing where it says so, and leaves every other as
/// it is; the last change of a field is the one that counts.
pub proof fn patches_set_what_they_name(stored: StoredThread, patch: ThreadMetadataPatch)
    ensures
        ({
            let r = patched(stored, patch);
            &&& patch.name is Some ==> r.name == patch.name->0
            &&& patch.name is None ==> r.name == stored.name
            &&& patch.preview is Some ==> r.preview == patch.preview->0
            &&& patch.preview is None ==> r.preview == stored.preview
            &&& patch.model_provider is Some ==> r.model_provider == patch.model_provider->0
            &&& patch.model_provider is None ==> r.model_provider == stored.model_provider
            &&& patch.model is Some ==> r.model == patch.model
            &&& patch.model is None ==> r.model == stored.model
            &&& patch.reasoning_effort is Some ==> r.reasoning_effort == patch.reasoning_effort->0
            &&& patch.reasoning_effort is None ==> r.reasoning_effort == stored.reasoning_effort
            &&& patch.created_at is Some ==> r.created_at == patch.created_at->0
            &&& patch.created_at is None ==> r.created_at == stored.created_at
            &&& patch.updated_at is Some ==> r.updated_at == patch.updated_at->0
            &&& patch.updated_at is None ==> r.updated_at == stored.updated_at
            &&& patch.source is Some ==> r.source == patch.source->0
            &&& patch.source is None ==> r.source == stored.source
            &&& patch.thread_source is Some ==> r.thread_source == patch.thread_source->0
            &&& patch.thread_source is None ==> r.thread_source == stored.thread_source
            &&& patch.agent_nickname is Some ==> r.agent_nickname == patch.agent_nickname->0
            &&& patch.agent_nickname is None ==> r.agent_nickname == stored.agent_nickname
            &&& patch.agent_role is Some ==> r.agent_role == patch.agent_role->0
            &&& patch.agent_role is None ==> r.agent_role == stored.agent_role
            &&& patch.agent_path is Some ==> r.agent_path == patch.agent_path->0
            &&& patch.agent_path is None ==> r.agent_path == stored.agent_path
            &&& patch.cwd is Some ==> r.cwd == patch.cwd->0
            &&& patch.cwd is None ==> r.cwd == stored.cwd
            &&& patch.cli_version is Some ==> r.cli_version == patch.cli_version->0
            &&& patch.cli_version is None ==> r.cli_version == stored.cli_version
            &&& patch.approval_mode is Some ==> r.approval_mode == patch.approval_mode->0
            &&& patch.approval_mode is None ==> r.approval_mode == stored.approval_mode
            &&& patch.permission_profile is Some ==> r.permission_profile
                == patch.permission_profile->0
            &&& patch.permission_profile is None ==> r.permission_profile
                == stored.permission_profile
            &&& patch.token_usage is Some ==> r.token_usage == patch.token_usage
            &&& patch.token_usage is None ==> r.token_usage == stored.token_usage
            &&& patch.first_user_message is Some ==> r.first_user_message
                == patch.first_user_message
            &&& patch.first_user_message is None ==> r.first_user_message
                == stored.first_user_message
            &&& patch.project_id is Some ==> r.project_id == patch.project_id->0
            &&& patch.project_id is None ==> r.project_id == stored.project_id
            &&& patch.git_info is None ==> r.git_info == stored.git_info
            &&& patch.git_info is Some ==> r.git_info == patched_git(
                stored.git_info,
                patch.git_info,
            )
            &&& r.extra_config == stored.extra_config
            &&& r.rollout_path == stored.rollout_path
            &&& r.forked_from_id == stored.forked_from_id
            &&& r.parent_thread_id == stored.parent_thread_id
            &&& r.section == stored.section
            &&& r.section_position == stored.section_position
            &&& r.section_entered_at == stored.section_entered_at
            &&& r.history == stored.history
        }),
        patched(patched(stored, patch), patch) == patched(stored, patch),
{
}

/// The instant by which threads are found again moves on to the one that is given, where that is
/// later, and else stays.
pub proof fn recency_moves_on(stored: StoredThread, patch: ThreadMetadataPatch, to: Timestamp)
    requires
        patch.advance_recency_at == Some(to),
    ensures
        is_later(to@, stored.recency_at@) ==> patched(stored, patch).recency_at == to,
        !is_later(to@, stored.recency_at@) ==> patched(stored, patch).recency_at
            == stored.recency_at,
{
}

/// A change of what is kept of a repository sets what it names and leaves the rest, and begins
/// with nothing where nothing was kept.
pub proof fn repositories_are_changed_part_by_part(info: Option<GitInfo>, patch: GitInfoPatch)
    ensures
        ({
            let r = patched_git(info, Some(patch));
            &&& r is Some
            &&& patch.sha is Some ==> r->0.commit_hash == patch.sha->0
            &&& patch.branch is Some ==> r->0.branch == patch.branch->0
            &&& patch.origin_url is Some ==> r->0.repository_url == patch.origin_url->0
            &&& patch.sha is None && info is Some ==> r->0.commit_hash == info->0.commit_hash
            &&& patch.branch is None && info is Some ==> r->0.branch == info->0.branch
            &&& patch.origin_url is None && info is Some ==> r->0.repository_url
                == info->0.repository_url
            &&& patch.sha is None && info is None ==> r->0.commit_hash is None
            &&& patch.branch is None && info is None ==> r->0.branch is None
            &&& patch.origin_url is None && info is None ==> r->0.repository_url is None
        }),
        patched_git(info, None) == info,
{
}

/// The columns of a row say what the thread is, each what it is for.
pub proof fn columns_say_what_they_are_for(
    c: ThreadColumns,
    stored: StoredThread,
    memory_mode: Seq<char>,
)
    requires
        columns_say(c, stored, memory_mode),
    ensures
        c.id@ == stored.thread_id@,
        c.model_provider@ == stored.model_provider@,
        c.memory_mode@ == memory_mode,
        c.cwd@ == stored.cwd@,
        c.preview@ == stored.preview@,
        c.created_at == stored.created_at,
        c.updated_at == stored.updated_at,
        c.recency_at == stored.recency_at,
        c.archived_at == stored.archived_at,
        stored.history_mode is Legacy ==> c.history_mode@ == "legacy"@,
        stored.history_mode is Paginated ==> c.history_mode@ == "paginated"@,
        stored.source.value@ is Str ==> c.source@ == stored.source.value@->Str_0,
        c.forked_from_thread_id is Some <==> stored.forked_from_id is Some,
        c.forked_from_thread_id is Some ==> c.forked_from_thread_id->0@
            == stored.forked_from_id->0@,
        c.parent_thread_id is Some <==> stored.parent_thread_id is Some,
        c.parent_thread_id is Some ==> c.parent_thread_id->0@ == stored.parent_thread_id->0@,
        c.thread_source is Some <==> stored.thread_source is Some,
        c.thread_source is Some ==> c.thread_source->0@ == stored.thread_source->0@,
        c.model is Some <==> stored.model is Some,
        c.model is Some ==> c.model->0@ == stored.model->0@,
        c.reasoning_effort is Some <==> stored.reasoning_effort is Some,
        c.reasoning_effort is Some ==> c.reasoning_effort->0@ == stored.reasoning_effort->0@,
        c.title is Some <==> stored.name is Some,
        c.title is Some ==> c.title->0@ == stored.name->0@,
{
}

/// New items get the numbers from the one after the last on, as many as there are, and no other
/// thread's items do; the notice tells the first and the last of them.
pub proof fn new_items_are_numbered(latest_seq: i64, count: int, thread_id: Seq<char>)
    ensures
        ({
            let plan = append_numbers(latest_seq as int, count);
            &&& plan is Some <==> count > 0 && latest_seq + count <= i64::MAX
            &&& plan is Some ==> plan->0.from_seq == latest_seq + 1
            &&& plan is Some ==> plan->0.to_seq - plan->0.from_seq + 1 == count
            &&& plan is Some ==> {
                let notice = append_notice_view(thread_id, plan->0);
                &&& notice is Object
                &&& notice->Object_0.dom() == set!["threadId"@, "fromSeq"@, "toSeq"@]
                &&& notice->Object_0["threadId"@] == JsonView::Str(thread_id)
                &&& notice->Object_0["fromSeq"@] == JsonView::Int(latest_seq + 1)
                &&& notice->Object_0["toSeq"@] == JsonView::Int(latest_seq + count)
            }
        }),
{
    reveal_strlit("threadId");
    reveal_strlit("fromSeq");
    reveal_strlit("toSeq");
    assert("threadId"@.len() == 8 && "fromSeq"@.len() == 7 && "toSeq"@.len() == 5);
}

/// Numbered items are the items in their order, and the last number is as far on as there are
/// items.
pub proof fn items_keep_their_order(
    numbered: Seq<NumberedItem>,
    items: Seq<Json>,
    latest_seq: i64,
    i: int,
)
    requires
        numbered_from(numbered, items, latest_seq),
    ensures
        numbered.len() == items.len(),
        0 <= i < items.len() ==> numbered[i].item == items[i],
        items.len() > 0 ==> numbered[0].seq == latest_seq + 1 && numbered[items.len() - 1].seq
            == latest_seq + items.len(),
        0 <= i < items.len() - 1 ==> numbered[i + 1].seq == numbered[i].seq + 1,
{
    if items.len() > 0 {
        assert(numbered[0].seq == latest_seq + 1);
        assert(numbered[items.len() - 1].seq == latest_seq + items.len());
    }
    if 0 <= i < items.len() - 1 {
        assert(numbered[i + 1].seq == latest_seq + 1 + (i + 1));
        assert(numbered[i].seq == latest_seq + 1 + i);
    }
}

/// The memory mode of a thread is what its row says, or else what its document says, or else the
/// mode in which memories are made.
pub proof fn rows_tell_the_memory_mode(mode: Seq<char>, value: JsonView)
    ensures
        row_memory_mode(Some(mode), value) == mode,
        member_str(value, "memory_mode"@) == Some(mode) ==> row_memory_mode(None, value) == mode,
        member_str(value, "memory_mode"@) is None ==> row_memory_mode(None, value) == "enabled"@,
{
}

/// A thread that is archived is refused by name.
pub proof fn archived_threads_are_refused_by_name(thread_id: Seq<char>)
    ensures
        archived_error(thread_id) == StoreErrorView::InvalidRequest(
            "thread "@ + thread_id + " is archived"@,
        ),
{
}

} // verus!
