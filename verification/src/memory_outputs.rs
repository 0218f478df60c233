//! What was found in threads, and the threads as the readers of memories see them.

use vstd::prelude::*;

use crate::json::{json_text, Json};
use crate::protocol::SessionSource;
use crate::text::{self, decimal, text_less, texts};
use crate::thread_id::ThreadId;
use crate::thread_records::StoredThread;
use crate::thread_store::{
    canonical_session_source_key, filter_keys, jsonb_text, keys_are_added_once, push_unique_key,
    session_source_filter_keys, source_key, sources_are_found_under_their_keys, with_key,
    ThreadHistoryMode,
};
use crate::time::{
    earlier, epoch_error, epoch_millis_to_datetime, is_time, saturated, span, stamp_nanos,
    stored_time, timestamp_nanos, TimeView, Timestamp, MIN_SECONDS,
};

verus! {

// ---------------------------------------------------------------------------------------------
// Outputs
// ---------------------------------------------------------------------------------------------

/// What was found in a thread, as it is stored. Instants are in seconds.
#[derive(Debug, PartialEq, Eq)]
pub struct OutputRow {
    pub source_updated_at: i64,
    pub raw_memory: String,
    pub rollout_summary: String,
    pub rollout_slug: Option<String>,
    pub generated_at: i64,
    pub usage_count: Option<i64>,
    pub last_usage: Option<i64>,
    pub selected_for_phase2: bool,
    pub selected_for_phase2_source_updated_at: Option<i64>,
}

/// Stores what was found in a thread. It takes the place of what was found before, unless that is
/// newer; how it was used and selected stays.
pub fn store_output(existing: Option<OutputRow>, found: OutputRow) -> (r: OutputRow)
    ensures
        r == match existing {
            Some(old) => if found.source_updated_at >= old.source_updated_at {
                OutputRow {
                    source_updated_at: found.source_updated_at,
                    raw_memory: found.raw_memory,
                    rollout_summary: found.rollout_summary,
                    rollout_slug: found.rollout_slug,
                    generated_at: found.generated_at,
                    ..old
                }
            } else {
                old
            },
            None => OutputRow {
                usage_count: None,
                last_usage: None,
                selected_for_phase2: false,
                selected_for_phase2_source_updated_at: None,
                ..found
            },
        },
{
    match existing {
        Some(old) => {
            if found.source_updated_at < old.source_updated_at {
                return old;
            }
            OutputRow {
                source_updated_at: found.source_updated_at,
                raw_memory: found.raw_memory,
                rollout_summary: found.rollout_summary,
                rollout_slug: found.rollout_slug,
                generated_at: found.generated_at,
                ..old
            }
        },
        None => OutputRow {
            usage_count: None,
            last_usage: None,
            selected_for_phase2: false,
            selected_for_phase2_source_updated_at: None,
            ..found
        },
    }
}

/// Counts a use of what was found; says whether the count went up, which it does unless it would
/// run out of range.
pub fn record_stage1_output_usage(row: &mut OutputRow, now: i64) -> (r: bool)
    ensures
        ({
            let before = match old(row).usage_count {
                Some(n) => n as int,
                None => 0,
            };
            &&& r == (before < i64::MAX)
            &&& *final(row) == if r {
                OutputRow {
                    usage_count: Some((before + 1) as i64),
                    last_usage: Some(now),
                    ..*old(row)
                }
            } else {
                *old(row)
            }
        }),
{
    let before: i64 = match row.usage_count {
        Some(n) => n,
        None => 0,
    };
    if before == i64::MAX {
        return false;
    }
    row.usage_count = Some(before + 1);
    row.last_usage = Some(now);
    true
}

/// When what was found was last of use: its last use, or else when its thread last changed.
pub open spec fn last_of_use(row: OutputRow) -> i64 {
    match row.last_usage {
        Some(t) => t,
        None => row.source_updated_at,
    }
}

/// What was found may be thrown away: it is not selected, and was last of use before an instant.
pub open spec fn prunable(row: OutputRow, cutoff: i64) -> bool {
    !row.selected_for_phase2 && last_of_use(row) < cutoff
}

/// Whether what was found may be thrown away.
pub fn is_prunable(row: &OutputRow, cutoff: i64) -> (r: bool)
    ensures
        r == prunable(*row, cutoff),
{
    let last: i64 = match row.last_usage {
        Some(t) => t,
        None => row.source_updated_at,
    };
    !row.selected_for_phase2 && last < cutoff
}

/// The places of what may be thrown away, in order.
pub open spec fn prunable_places(rows: Seq<OutputRow>, cutoff: i64) -> Seq<int>
    decreases rows.len(),
{
    if rows.len() == 0 {
        Seq::empty()
    } else if prunable(rows.last(), cutoff) {
        prunable_places(rows.drop_last(), cutoff).push(rows.len() - 1)
    } else {
        prunable_places(rows.drop_last(), cutoff)
    }
}

/// The first so many of a list.
pub open spec fn first_of(places: Seq<int>, limit: usize) -> Seq<int> {
    if places.len() <= limit {
        places
    } else {
        places.take(limit as int)
    }
}

/// The places of what is thrown away, out of what was found, given in the order in which it is
/// thrown away: what may be, and only so much.
pub fn prune_stage1_outputs_for_retention(rows: &Vec<OutputRow>, cutoff: i64, limit: usize) -> (r:
    Vec<usize>)
    ensures
        r@.map_values(|i: usize| i as int) == first_of(prunable_places(rows@, cutoff), limit),
{
    let mut places: Vec<usize> = Vec::new();
    let mut i: usize = 0;
    proof {
        assert(rows@.take(0) =~= Seq::empty());
    }
    while i < rows.len()
        invariant
            i <= rows.len(),
            places@.len() <= limit,
            places@.map_values(|i: usize| i as int) == first_of(
                prunable_places(rows@.take(i as int), cutoff),
                limit,
            ),
        decreases rows.len() - i,
    {
        proof {
            assert(rows@.take(i + 1).drop_last() =~= rows@.take(i as int));
            assert(rows@.take(i + 1).last() == rows@[i as int]);
        }
        let ghost before = places@.map_values(|i: usize| i as int);
        let ghost all = prunable_places(rows@.take(i as int), cutoff);
        if is_prunable(&rows[i], cutoff) && places.len() < limit {
            places.push(i);
            proof {
                assert(places@.map_values(|i: usize| i as int) =~= before.push(i as int));
                assert(all.len() < limit);
            }
        } else {
            proof {
                if prunable(rows@[i as int], cutoff) {
                    assert(all.push(i as int).take(limit as int) =~= all.take(limit as int));
                }
            }
        }
        i += 1;
    }
    proof {
        assert(rows@.take(rows@.len() as int) =~= rows@);
    }
    places
}

/// The instant a number of days before, in seconds, where it is in range. Negative days count as
/// none.
pub open spec fn days_before(now: TimeView, days: i64) -> Option<i64> {
    let seconds = earlier(now, span(days, 86_400)).seconds;
    if seconds < MIN_SECONDS {
        None
    } else {
        Some(seconds as i64)
    }
}

/// The instant a number of days before, in seconds. There is none where it would lie outside the
/// range of instants.
pub fn retention_cutoff(now: Timestamp, max_unused_days: i64) -> (r: Option<i64>)
    ensures
        r == days_before(now@, max_unused_days),
{
    match now.before(max_unused_days, 86_400) {
        Some(t) => Some(t.seconds()),
        None => None,
    }
}

/// Clears the mark of what was selected last, or sets it for what is selected now; what was found
/// must still be what it was when it was selected.
pub fn select_output(row: &mut OutputRow, selected_source_updated_at: Option<i64>)
    ensures
        *final(row) == (if selected_source_updated_at matches Some(t) && t
            == old(row).source_updated_at {
            OutputRow {
                selected_for_phase2: true,
                selected_for_phase2_source_updated_at: selected_source_updated_at,
                ..*old(row)
            }
        } else {
            OutputRow {
                selected_for_phase2: false,
                selected_for_phase2_source_updated_at: None,
                ..*old(row)
            }
        }),
{
    row.selected_for_phase2 = false;
    row.selected_for_phase2_source_updated_at = None;
    if let Some(t) = selected_source_updated_at {
        if t == row.source_updated_at {
            row.selected_for_phase2 = true;
            row.selected_for_phase2_source_updated_at = Some(t);
        }
    }
}

/// What becomes of the memory mode of a thread whose memories cannot be trusted: the name of the
/// mode, and whether it is another than before.
pub fn polluted_memory_mode(memory_mode: String) -> (r: (String, bool))
    ensures
        r.0@ == "polluted"@,
        r.1 == (memory_mode@ != "polluted"@),
{
    if text::str_eq(memory_mode.as_str(), "polluted") {
        (memory_mode, false)
    } else {
        (text::owned("polluted"), true)
    }
}

// ---------------------------------------------------------------------------------------------
// Threads as readers see them
// ---------------------------------------------------------------------------------------------

/// What a reader of memories knows of a thread.
#[derive(Debug, PartialEq)]
pub struct ThreadMetadata {
    pub id: ThreadId,
    pub rollout_path: String,
    pub created_at: Timestamp,
    pub updated_at: Timestamp,
    pub recency_at: Timestamp,
    pub source: String,
    pub history_mode: ThreadHistoryMode,
    pub thread_source: Option<String>,
    pub agent_nickname: Option<String>,
    pub agent_role: Option<String>,
    pub agent_path: Option<String>,
    pub model_provider: String,
    pub model: Option<String>,
    pub reasoning_effort: Option<String>,
    pub cwd: String,
    pub cli_version: String,
    pub title: String,
    pub name: Option<String>,
    pub preview: Option<String>,
    pub sandbox_policy: String,
    pub approval_mode: String,
    pub tokens_used: i64,
    pub first_user_message: Option<String>,
    pub archived_at: Option<Timestamp>,
    pub section: Option<Json>,
    pub section_position: Option<i64>,
    pub section_entered_at: Option<Timestamp>,
    pub project_id: Option<String>,
    pub git_sha: Option<String>,
    pub git_branch: Option<String>,
    pub git_origin_url: Option<String>,
}

/// The place of a thread's record in a workspace of the remote store.
pub open spec fn remote_path(workspace_id: Seq<char>, thread_id: Seq<char>) -> Seq<char> {
    "/remote-sql/workspaces/"@ + workspace_id + "/threads/"@ + thread_id + ".jsonl"@
}

/// The place of a thread's record in a workspace of the remote store.
pub fn remote_rollout_path(workspace_id: &str, thread_id: &ThreadId) -> (r: String)
    ensures
        r@ == remote_path(workspace_id@, thread_id@),
{
    let start = text::concat3("/remote-sql/workspaces/", workspace_id, "/threads/");
    text::concat3(start.as_str(), thread_id.as_str(), ".jsonl")
}

/// The text of a document: itself, where it is one, or else its compact form.
pub fn projection_string(value: &Json) -> (r: String)
    ensures
        r@ == source_key(value@),
{
    match value {
        Json::Str(s) => s.clone(),
        _ => value.text(),
    }
}

/// What is known of a thread is what is kept of it.
pub open spec fn describes(m: ThreadMetadata, stored: StoredThread, workspace_id: Seq<char>) -> bool {
    &&& m.id == stored.thread_id
    &&& m.rollout_path@ == match stored.rollout_path {
        Some(path) => path@,
        None => remote_path(workspace_id, stored.thread_id@),
    }
    &&& m.created_at == stored.created_at
    &&& m.updated_at == stored.updated_at
    &&& m.recency_at == stored.recency_at
    &&& m.source@ == source_key(stored.source.value@)
    &&& m.history_mode == stored.history_mode
    &&& m.thread_source == stored.thread_source
    &&& m.agent_nickname == stored.agent_nickname
    &&& m.agent_role == stored.agent_role
    &&& m.agent_path == stored.agent_path
    &&& m.model_provider == stored.model_provider
    &&& m.model == stored.model
    &&& m.reasoning_effort == stored.reasoning_effort
    &&& m.cwd == stored.cwd
    &&& m.cli_version == stored.cli_version
    &&& m.title@ == match stored.name {
        Some(name) => name@,
        None => Seq::empty(),
    }
    &&& m.name == stored.name
    &&& m.preview == Some(stored.preview)
    &&& m.sandbox_policy@ == json_text(stored.permission_profile@)
    &&& m.approval_mode@ == source_key(stored.approval_mode@)
    &&& m.tokens_used == match stored.token_usage {
        Some(usage) => usage.total_tokens,
        None => 0,
    }
    &&& m.first_user_message == stored.first_user_message
    &&& m.archived_at == stored.archived_at
    &&& m.section == stored.section
    &&& m.section_position == stored.section_position
    &&& m.section_entered_at == stored.section_entered_at
    &&& m.project_id == stored.project_id
    &&& match stored.git_info {
        Some(git) => m.git_sha == git.commit_hash && m.git_branch == git.branch
            && m.git_origin_url == git.repository_url,
        None => m.git_sha is None && m.git_branch is None && m.git_origin_url is None,
    }
}

/// What a reader of memories knows of a thread.
pub fn memory_thread_metadata_from_stored_thread(
    workspace_id: &str,
    stored: StoredThread,
) -> (r: ThreadMetadata)
    ensures
        describes(r, stored, workspace_id@),
{
    let rollout_path = match stored.rollout_path {
        Some(path) => path,
        None => remote_rollout_path(workspace_id, &stored.thread_id),
    };
    let (git_sha, git_branch, git_origin_url) = match stored.git_info {
        Some(git) => (git.commit_hash, git.branch, git.repository_url),
        None => (None, None, None),
    };
    let title = match &stored.name {
        Some(name) => name.clone(),
        None => String::new(),
    };
    let tokens_used: i64 = match stored.token_usage {
        Some(usage) => usage.total_tokens,
        None => 0,
    };
    ThreadMetadata {
        id: stored.thread_id,
        rollout_path,
        created_at: stored.created_at,
        updated_at: stored.updated_at,
        recency_at: stored.recency_at,
        source: canonical_session_source_key(&stored.source),
        history_mode: stored.history_mode,
        thread_source: stored.thread_source,
        agent_nickname: stored.agent_nickname,
        agent_role: stored.agent_role,
        agent_path: stored.agent_path,
        model_provider: stored.model_provider,
        model: stored.model,
        reasoning_effort: stored.reasoning_effort,
        cwd: stored.cwd,
        cli_version: stored.cli_version,
        title,
        name: stored.name,
        preview: Some(stored.preview),
        sandbox_policy: stored.permission_profile.text(),
        approval_mode: projection_string(&stored.approval_mode),
        tokens_used,
        first_user_message: stored.first_user_message,
        archived_at: stored.archived_at,
        section: stored.section,
        section_position: stored.section_position,
        section_entered_at: stored.section_entered_at,
        project_id: stored.project_id,
        git_sha,
        git_branch,
        git_origin_url,
    }
}

/// What was found in a thread, with what is known of the thread.
#[derive(Debug)]
pub struct Stage1Output {
    pub thread_id: ThreadId,
    pub rollout_path: String,
    pub source_updated_at: Timestamp,
    pub raw_memory: String,
    pub rollout_summary: String,
    pub rollout_slug: Option<String>,
    pub cwd: String,
    pub git_branch: Option<String>,
    pub generated_at: Timestamp,
}

/// The milliseconds of a stored number of seconds.
pub open spec fn seconds_as_millis(seconds: int) -> int {
    saturated(seconds * 1000)
}

fn instant_at(seconds: i64) -> (r: Result<Timestamp, String>)
    ensures
        match r {
            Ok(t) => stored_time(seconds_as_millis(seconds as int)) == Some(t@),
            Err(message) => stored_time(seconds_as_millis(seconds as int)) is None && message@
                == epoch_error(seconds_as_millis(seconds as int)),
        },
{
    let millis: i64 = match seconds.checked_mul(1000) {
        Some(n) => n,
        None => if seconds < 0 {
            i64::MIN
        } else {
            i64::MAX
        },
    };
    epoch_millis_to_datetime(millis)
}

/// Puts what was found in a thread together with the thread. It fails where an instant is out of
/// range; when the thread changed is looked at before when the memory was made.
pub fn stage1_output_from_row(workspace_id: &str, stored: StoredThread, row: OutputRow) -> (r:
    Result<Stage1Output, String>)
    ensures
        ({
            let source = stored_time(seconds_as_millis(row.source_updated_at as int));
            let generated = stored_time(seconds_as_millis(row.generated_at as int));
            match r {
                Ok(out) => {
                    &&& source == Some(out.source_updated_at@)
                    &&& generated == Some(out.generated_at@)
                    &&& out.thread_id == stored.thread_id
                    &&& out.rollout_path@ == match stored.rollout_path {
                        Some(path) => path@,
                        None => remote_path(workspace_id@, stored.thread_id@),
                    }
                    &&& out.raw_memory == row.raw_memory
                    &&& out.rollout_summary == row.rollout_summary
                    &&& out.rollout_slug == row.rollout_slug
                    &&& out.cwd == stored.cwd
                    &&& out.git_branch == match stored.git_info {
                        Some(git) => git.branch,
                        None => None,
                    }
                },
                Err(message) => if source is None {
                    message@ == epoch_error(seconds_as_millis(row.source_updated_at as int))
                } else {
                    generated is None && message@ == epoch_error(
                        seconds_as_millis(row.generated_at as int),
                    )
                },
            }
        }),
{
    let thread = memory_thread_metadata_from_stored_thread(workspace_id, stored);
    let source_updated_at = match instant_at(row.source_updated_at) {
        Ok(t) => t,
        Err(e) => return Err(e),
    };
    let generated_at = match instant_at(row.generated_at) {
        Ok(t) => t,
        Err(e) => return Err(e),
    };
    Ok(
        Stage1Output {
            thread_id: thread.id,
            rollout_path: thread.rollout_path,
            source_updated_at,
            raw_memory: row.raw_memory,
            rollout_summary: row.rollout_summary,
            rollout_slug: row.rollout_slug,
            cwd: thread.cwd,
            git_branch: thread.git_branch,
            generated_at,
        },
    )
}

/// The place of an output among others in the order of their threads: behind all that do not come
/// after it.
pub open spec fn place_for(outputs: Seq<Stage1Output>, thread_id: Seq<char>) -> int
    decreases outputs.len(),
{
    if outputs.len() == 0 {
        0
    } else if text_less(thread_id, outputs.last().thread_id@) {
        place_for(outputs.drop_last(), thread_id)
    } else {
        outputs.len() as int
    }
}

/// The outputs in the order of their threads; outputs of the same thread stay as they were.
pub open spec fn by_thread(outputs: Seq<Stage1Output>) -> Seq<Stage1Output>
    decreases outputs.len(),
{
    if outputs.len() == 0 {
        Seq::empty()
    } else {
        let rest = by_thread(outputs.drop_last());
        rest.insert(place_for(rest, outputs.last().thread_id@), outputs.last())
    }
}

proof fn lemma_place(outputs: Seq<Stage1Output>, thread_id: Seq<char>)
    ensures
        0 <= place_for(outputs, thread_id) <= outputs.len(),
    decreases outputs.len(),
{
    if outputs.len() > 0 {
        lemma_place(outputs.drop_last(), thread_id);
    }
}

/// Brings the outputs that were selected into the order of their threads.
pub fn sort_selected_outputs(outputs: Vec<Stage1Output>) -> (r: Vec<Stage1Output>)
    ensures
        r@ == by_thread(outputs@),
{
    let ghost all = outputs@;
    let mut rest = outputs;
    let mut sorted: Vec<Stage1Output> = Vec::new();
    let ghost mut n: int = 0;
    assert(all.skip(0) =~= all);
    while rest.len() > 0
        invariant
            0 <= n <= all.len(),
            rest@ == all.skip(n),
            sorted@ == by_thread(all.take(n)),
        decreases rest@.len(),
    {
        let output = rest.remove(0);
        proof {
            assert(output == all[n]);
            assert(all.take(n + 1).drop_last() =~= all.take(n));
            assert(rest@ =~= all.skip(n + 1));
            n = n + 1;
        }
        let mut at: usize = sorted.len();
        assert(sorted@.take(at as int) =~= sorted@);
        while at > 0 && text::is_text_less(
            output.thread_id.as_str(),
            sorted[at - 1].thread_id.as_str(),
        )
            invariant
                at <= sorted@.len(),
                place_for(sorted@.take(at as int), output.thread_id@) == place_for(
                    sorted@,
                    output.thread_id@,
                ),
            decreases at,
        {
            assert(sorted@.take(at as int).drop_last() =~= sorted@.take(at - 1));
            at -= 1;
        }
        proof {
            if at > 0 {
                assert(sorted@.take(at as int).last() == sorted@[at - 1]);
            }
            assert(at == place_for(sorted@, output.thread_id@));
        }
        sorted.insert(at, output);
    }
    assert(all.take(n) =~= all);
    sorted
}

// ---------------------------------------------------------------------------------------------
// Keys
// ---------------------------------------------------------------------------------------------

/// The ways of keeping a history from which memories are made.
pub fn generated_memory_history_mode_keys() -> (r: Vec<String>)
    ensures
        texts(r@) == seq!["legacy"@, "paginated"@],
{
    let mut keys: Vec<String> = Vec::new();
    keys.push(text::owned("legacy"));
    keys.push(text::owned("paginated"));
    assert(texts(keys@) =~= seq!["legacy"@, "paginated"@]);
    keys
}

/// The keys with each of others, unless it is among them.
pub open spec fn with_keys(keys: Seq<Seq<char>>, more: Seq<Seq<char>>) -> Seq<Seq<char>>
    decreases more.len(),
{
    if more.len() == 0 {
        keys
    } else {
        with_key(with_keys(keys, more.drop_last()), more.last())
    }
}

/// A source that a client allows: the word for it, and the source that the word names, where it
/// names one.
#[derive(Debug)]
pub struct AllowedSource {
    pub word: String,
    pub parsed: Option<SessionSource>,
}

/// The keys under which the first `n` sources may be found: the words themselves and the keys of
/// the sources that they name.
pub open spec fn allowed_keys(sources: Seq<AllowedSource>, n: int) -> Seq<Seq<char>>
    decreases n,
{
    if n <= 0 {
        Seq::empty()
    } else {
        let source = sources[n - 1];
        let keys = with_key(allowed_keys(sources, n - 1), source.word@);
        match source.parsed {
            Some(parsed) => with_keys(
                keys,
                filter_keys(parsed.value@, parsed.debug@, parsed.display@),
            ),
            None => keys,
        }
    }
}

fn push_unique_keys(keys: &mut Vec<String>, more: Vec<String>)
    ensures
        texts(final(keys)@) == with_keys(texts(old(keys)@), texts(more@)),
{
    let ghost start = texts(keys@);
    let ghost listed = texts(more@);
    let mut i: usize = 0;
    assert(listed.take(0) =~= Seq::empty());
    while i < more.len()
        invariant
            i <= more.len(),
            listed == texts(more@),
            texts(keys@) == with_keys(start, listed.take(i as int)),
        decreases more.len() - i,
    {
        assert(listed.take(i + 1).drop_last() =~= listed.take(i as int));
        assert(listed.take(i + 1).last() == more@[i as int]@);
        push_unique_key(keys, more[i].clone());
        i += 1;
    }
    assert(listed.take(i as int) =~= listed);
}

/// The keys under which the sources that a client allows may be found.
pub fn allowed_source_filter_keys(allowed_sources: &Vec<AllowedSource>) -> (r: Vec<String>)
    ensures
        texts(r@) == allowed_keys(allowed_sources@, allowed_sources@.len() as int),
{
    let mut keys: Vec<String> = Vec::new();
    let mut i: usize = 0;
    assert(texts(keys@) =~= Seq::empty());
    while i < allowed_sources.len()
        invariant
            i <= allowed_sources.len(),
            texts(keys@) == allowed_keys(allowed_sources@, i as int),
        decreases allowed_sources.len() - i,
    {
        let source = &allowed_sources[i];
        push_unique_key(&mut keys, source.word.clone());
        if let Some(parsed) = &source.parsed {
            push_unique_keys(&mut keys, session_source_filter_keys(parsed));
        }
        i += 1;
    }
    keys
}

/// The token of a worker: what it is for, when it was made, which of this process's tokens it is,
/// and the process.
pub fn new_memory_ownership_token(prefix: &str, now: Timestamp, counter: u64, process_id: u32) -> (r:
    String)
    ensures
        r@ == prefix@ + ":"@ + decimal(stamp_nanos(now@)) + ":"@ + decimal(counter as int) + ":"@
            + decimal(process_id as int),
{
    let nanos = text::i64_text(timestamp_nanos(now));
    let counter = text::u64_text(counter);
    let process = text::u64_text(process_id as u64);
    let start = text::concat3(prefix, ":", nanos.as_str());
    let middle = text::concat3(start.as_str(), ":", counter.as_str());
    text::concat3(middle.as_str(), ":", process.as_str())
}

/// The name of the lock under which the jobs of a kind are handed out in a workspace.
pub fn memory_advisory_lock_key(workspace_id: &str, kind: &str) -> (r: String)
    ensures
        r@ == "generated-memory:"@ + workspace_id@ + ":"@ + kind@,
{
    let start = text::concat3("generated-memory:", workspace_id, ":");
    text::concat2(start.as_str(), kind)
}

// ---------------------------------------------------------------------------------------------
// Laws
// ---------------------------------------------------------------------------------------------

/// The outputs stand in the order of their threads.
pub open spec fn in_thread_order(outputs: Seq<Stage1Output>) -> bool {
    forall|i: int, j: int|
        0 <= i < j < outputs.len() ==> !text_less(
            #[trigger] outputs[j].thread_id@,
            #[trigger] outputs[i].thread_id@,
        )
}

proof fn lemma_place_in_order(outputs: Seq<Stage1Output>, thread_id: Seq<char>)
    requires
        in_thread_order(outputs),
    ensures
        ({
            let p = place_for(outputs, thread_id);
            &&& forall|i: int|
                0 <= i < p ==> !text_less(thread_id, #[trigger] outputs[i].thread_id@)
            &&& forall|i: int|
                p <= i < outputs.len() ==> text_less(thread_id, #[trigger] outputs[i].thread_id@)
        }),
    decreases outputs.len(),
{
    lemma_place(outputs, thread_id);
    if outputs.len() > 0 {
        let rest = outputs.drop_last();
        if text_less(thread_id, outputs.last().thread_id@) {
            assert forall|i: int, j: int| 0 <= i < j < rest.len() implies !text_less(
                #[trigger] rest[j].thread_id@,
                #[trigger] rest[i].thread_id@,
            ) by {
                assert(rest[i] == outputs[i] && rest[j] == outputs[j]);
            }
            lemma_place_in_order(rest, thread_id);
            lemma_place(rest, thread_id);
            let p = place_for(rest, thread_id);
            assert forall|i: int| 0 <= i < p implies !text_less(
                thread_id,
                #[trigger] outputs[i].thread_id@,
            ) by {
                assert(rest[i] == outputs[i]);
            }
            assert forall|i: int| p <= i < outputs.len() implies text_less(
                thread_id,
                #[trigger] outputs[i].thread_id@,
            ) by {
                if i < rest.len() {
                    assert(rest[i] == outputs[i]);
                }
            }
        } else {
            let last = outputs.last().thread_id@;
            assert forall|i: int| 0 <= i < outputs.len() implies !text_less(
                thread_id,
                #[trigger] outputs[i].thread_id@,
            ) by {
                if i < outputs.len() - 1 {
                    let t = outputs[i].thread_id@;
                    assert(!text_less(outputs[outputs.len() - 1].thread_id@, t));
                    if text_less(thread_id, t) {
                        text::text_order_is_total(t, last);
                        if t != last {
                            text::text_order_is_transitive(thread_id, t, last);
                        }
                    }
                }
            }
        }
    }
}

/// Sorting brings outputs into the order of their threads and neither loses nor adds any.
pub proof fn sorting_orders_and_keeps(outputs: Seq<Stage1Output>)
    ensures
        in_thread_order(by_thread(outputs)),
        by_thread(outputs).to_multiset() == outputs.to_multiset(),
    decreases outputs.len(),
{
    broadcast use vstd::seq_lib::group_to_multiset_ensures;

    if outputs.len() > 0 {
        let rest = outputs.drop_last();
        let last = outputs.last();
        sorting_orders_and_keeps(rest);
        let sorted = by_thread(rest);
        lemma_place_in_order(sorted, last.thread_id@);
        lemma_place(sorted, last.thread_id@);
        let p = place_for(sorted, last.thread_id@);
        let more = sorted.insert(p, last);
        assert forall|i: int, j: int| 0 <= i < j < more.len() implies !text_less(
            #[trigger] more[j].thread_id@,
            #[trigger] more[i].thread_id@,
        ) by {
            let a = if i < p { i } else { i - 1 };
            let b = if j < p { j } else { j - 1 };
            if i != p {
                assert(more[i] == sorted[a]);
            }
            if j != p {
                assert(more[j] == sorted[b]);
            }
            if i == p {
                assert(text_less(last.thread_id@, sorted[b].thread_id@));
                text::text_order_is_total(last.thread_id@, sorted[b].thread_id@);
            } else if j == p {
                assert(!text_less(last.thread_id@, sorted[a].thread_id@));
            }
        }
        assert(outputs =~= rest.push(last));
        assert(more.to_multiset() =~= sorted.to_multiset().insert(last));
        assert(outputs.to_multiset() =~= rest.to_multiset().insert(last));
    } else {
        assert(by_thread(outputs) =~= outputs);
    }
}

/// Adding keys keeps those that were there, in their places, and brings in each of the others.
pub proof fn keys_are_kept(keys: Seq<Seq<char>>, more: Seq<Seq<char>>)
    ensures
        with_keys(keys, more).len() >= keys.len(),
        with_keys(keys, more).take(keys.len() as int) == keys,
        forall|i: int|
            0 <= i < more.len() ==> with_keys(keys, more).contains(#[trigger] more[i]),
    decreases more.len(),
{
    if more.len() == 0 {
        assert(keys.take(keys.len() as int) =~= keys);
    } else {
        let rest = more.drop_last();
        keys_are_kept(keys, rest);
        let before = with_keys(keys, rest);
        let after = with_key(before, more.last());
        assert(after.take(keys.len() as int) =~= before.take(keys.len() as int));
        assert forall|i: int| 0 <= i < more.len() implies after.contains(#[trigger] more[i]) by {
            if i < rest.len() {
                assert(rest[i] == more[i]);
                let j = choose|j: int| 0 <= j < before.len() && before[j] == more[i];
                assert(after[j] == more[i]);
            } else if !before.contains(more.last()) {
                assert(after[before.len() as int] == more.last());
            }
        }
    }
}

/// No key comes twice once keys have been added that were not there twice.
pub proof fn keys_stay_distinct(keys: Seq<Seq<char>>, key: Seq<char>)
    requires
        keys.no_duplicates(),
    ensures
        with_key(keys, key).no_duplicates(),
{
}

/// Only what may be thrown away is, each once and in order.
pub proof fn only_prunable_outputs_go(rows: Seq<OutputRow>, cutoff: i64)
    ensures
        forall|i: int|
            0 <= i < prunable_places(rows, cutoff).len() ==> 0 <= #[trigger] prunable_places(
                rows,
                cutoff,
            )[i] < rows.len() && prunable(rows[prunable_places(rows, cutoff)[i]], cutoff),
        forall|i: int, j: int|
            0 <= i < j < prunable_places(rows, cutoff).len() ==> #[trigger] prunable_places(
                rows,
                cutoff,
            )[i] < #[trigger] prunable_places(rows, cutoff)[j],
    decreases rows.len(),
{
    if rows.len() > 0 {
        let rest = rows.drop_last();
        only_prunable_outputs_go(rest, cutoff);
        let places = prunable_places(rows, cutoff);
        let prior = prunable_places(rest, cutoff);
        assert forall|i: int| 0 <= i < places.len() implies 0 <= #[trigger] places[i] < rows.len()
            && prunable(rows[places[i]], cutoff) by {
            if i < prior.len() {
                assert(places[i] == prior[i]);
                assert(rows[places[i]] == rest[prior[i]]);
            }
        }
        assert forall|i: int, j: int| 0 <= i < j < places.len() implies #[trigger] places[i]
            < #[trigger] places[j] by {
            assert(places[i] == prior[i]);
            if j < prior.len() {
                assert(places[j] == prior[j]);
            }
        }
    }
}

/// What is selected is kept, and so is what was of use since an instant: used then, or, where it
/// was never used, found in a thread that changed then.
pub proof fn outputs_of_use_are_kept(row: OutputRow, cutoff: i64)
    ensures
        row.selected_for_phase2 ==> !prunable(row, cutoff),
        row.last_usage is Some && row.last_usage->0 >= cutoff ==> !prunable(row, cutoff),
        row.last_usage is None && row.source_updated_at >= cutoff ==> !prunable(row, cutoff),
        !row.selected_for_phase2 && row.last_usage is Some && row.last_usage->0 < cutoff
            ==> prunable(row, cutoff),
        !row.selected_for_phase2 && row.last_usage is None && row.source_updated_at < cutoff
            ==> prunable(row, cutoff),
{
}

/// Everything that may be thrown away is among the places, and as many of the first as may be go.
pub proof fn prunable_outputs_go(rows: Seq<OutputRow>, cutoff: i64, place: int, limit: usize)
    ensures
        0 <= place < rows.len() && prunable(rows[place], cutoff) ==> prunable_places(
            rows,
            cutoff,
        ).contains(place),
        first_of(prunable_places(rows, cutoff), limit).is_prefix_of(prunable_places(rows, cutoff)),
        prunable_places(rows, cutoff).len() <= limit ==> first_of(
            prunable_places(rows, cutoff),
            limit,
        ) == prunable_places(rows, cutoff),
        prunable_places(rows, cutoff).len() >= limit ==> first_of(
            prunable_places(rows, cutoff),
            limit,
        ).len() == limit,
    decreases rows.len(),
{
    if 0 <= place < rows.len() && prunable(rows[place], cutoff) {
        let prior = prunable_places(rows.drop_last(), cutoff);
        let places = prunable_places(rows, cutoff);
        if place < rows.len() - 1 {
            assert(rows.drop_last()[place] == rows[place]);
            prunable_outputs_go(rows.drop_last(), cutoff, place, limit);
            let i = choose|i: int| 0 <= i < prior.len() && prior[i] == place;
            assert(places[i] == place);
        } else {
            assert(places[prior.len() as int] == place);
        }
    }
}

/// So many days before an instant lie exactly that many days of seconds before it; less than no
/// days are none, and an instant out of range is none.
pub proof fn cutoffs_lie_days_before(now: TimeView, days: i64)
    requires
        is_time(now.seconds, now.nanos),
        now.nanos < 1_000_000_000,
    ensures
        days <= 0 ==> days_before(now, days) == Some(now.seconds as i64),
        days > 0 && now.seconds - days * 86_400 >= -8_334_601_228_800 ==> days_before(now, days)
            == Some((now.seconds - days * 86_400) as i64),
        days > 0 && now.seconds - days * 86_400 < -8_334_601_228_800 ==> days_before(now, days)
            is None,
{
}

/// The record of a thread lies under its workspace and is named after the thread.
pub proof fn records_lie_in_their_workspace(workspace_id: Seq<char>, thread_id: Seq<char>)
    ensures
        remote_path(workspace_id, thread_id) == "/remote-sql/workspaces/"@ + workspace_id
            + "/threads/"@ + thread_id + ".jsonl"@,
{
}

/// A stored number of seconds is a thousand times as many milliseconds, or the nearest that an
/// `i64` holds.
pub proof fn seconds_are_a_thousand_milliseconds(seconds: i64)
    ensures
        i64::MIN <= seconds * 1000 <= i64::MAX ==> seconds_as_millis(seconds as int) == seconds
            * 1000,
        seconds * 1000 > i64::MAX ==> seconds_as_millis(seconds as int) == i64::MAX,
        seconds * 1000 < i64::MIN ==> seconds_as_millis(seconds as int) == i64::MIN,
{
}

/// Readers know of a thread what is kept of it, each member under its name. A thread without a
/// record has the place of one in its workspace, one without a name has the empty title, and one
/// that used no tokens used none.
pub proof fn threads_are_described_member_by_member(
    m: ThreadMetadata,
    stored: StoredThread,
    workspace_id: Seq<char>,
)
    requires
        describes(m, stored, workspace_id),
    ensures
        m.id == stored.thread_id,
        m.created_at == stored.created_at,
        m.updated_at == stored.updated_at,
        m.recency_at == stored.recency_at,
        m.history_mode == stored.history_mode,
        m.thread_source == stored.thread_source,
        m.agent_nickname == stored.agent_nickname,
        m.agent_role == stored.agent_role,
        m.agent_path == stored.agent_path,
        m.model_provider == stored.model_provider,
        m.model == stored.model,
        m.reasoning_effort == stored.reasoning_effort,
        m.cwd == stored.cwd,
        m.cli_version == stored.cli_version,
        m.name == stored.name,
        m.preview == Some(stored.preview),
        m.first_user_message == stored.first_user_message,
        m.archived_at == stored.archived_at,
        m.section == stored.section,
        m.section_position == stored.section_position,
        m.section_entered_at == stored.section_entered_at,
        m.project_id == stored.project_id,
        stored.rollout_path is Some ==> m.rollout_path@ == stored.rollout_path->0@,
        stored.rollout_path is None ==> m.rollout_path@ == "/remote-sql/workspaces/"@
            + workspace_id + "/threads/"@ + stored.thread_id@ + ".jsonl"@,
        stored.source.value@ is Str ==> m.source@ == stored.source.value@->Str_0,
        stored.source.value@ !is Str ==> m.source@ == json_text(stored.source.value@),
        stored.approval_mode@ is Str ==> m.approval_mode@ == stored.approval_mode@->Str_0,
        stored.approval_mode@ !is Str ==> m.approval_mode@ == json_text(stored.approval_mode@),
        m.sandbox_policy@ == json_text(stored.permission_profile@),
        stored.name is Some ==> m.title@ == stored.name->0@,
        stored.name is None ==> m.title@.len() == 0,
        stored.token_usage is Some ==> m.tokens_used == stored.token_usage->0.total_tokens,
        stored.token_usage is None ==> m.tokens_used == 0,
        stored.git_info is Some ==> m.git_sha == stored.git_info->0.commit_hash && m.git_branch
            == stored.git_info->0.branch && m.git_origin_url == stored.git_info->0.repository_url,
        stored.git_info is None ==> m.git_sha is None && m.git_branch is None && m.git_origin_url
            is None,
{
}

/// Sorting leaves the outputs of one thread in the order in which they came.
pub proof fn sorting_is_stable(outputs: Seq<Stage1Output>, thread_id: Seq<char>)
    ensures
        by_thread(outputs).filter(|o: Stage1Output| o.thread_id@ == thread_id) == outputs.filter(
            |o: Stage1Output| o.thread_id@ == thread_id,
        ),
    decreases outputs.len(),
{
    let of_thread = |o: Stage1Output| o.thread_id@ == thread_id;
    if outputs.len() > 0 {
        let rest = outputs.drop_last();
        let last = outputs.last();
        let sorted = by_thread(rest);
        sorting_is_stable(rest, thread_id);
        sorting_orders_and_keeps(rest);
        lemma_place_in_order(sorted, last.thread_id@);
        lemma_place(sorted, last.thread_id@);
        let p = place_for(sorted, last.thread_id@);
        let front = sorted.take(p);
        let back = sorted.skip(p);
        let one = seq![last];
        assert(sorted =~= front + back);
        assert(by_thread(outputs) =~= front + one + back);
        assert(outputs =~= rest + one);
        Seq::filter_distributes_over_add(front, back, of_thread);
        Seq::filter_distributes_over_add(front + one, back, of_thread);
        Seq::filter_distributes_over_add(front, one, of_thread);
        Seq::filter_distributes_over_add(rest, one, of_thread);
        reveal(Seq::filter);
        assert(one.drop_last() =~= Seq::empty());
        if last.thread_id@ == thread_id {
            lemma_others_only(back, thread_id);
            assert(one.filter(of_thread) =~= one);
        } else {
            assert(one.filter(of_thread) =~= Seq::empty());
        }
    } else {
        assert(by_thread(outputs) =~= outputs);
    }
}

proof fn lemma_others_only(outputs: Seq<Stage1Output>, thread_id: Seq<char>)
    requires
        forall|i: int|
            0 <= i < outputs.len() ==> text_less(thread_id, #[trigger] outputs[i].thread_id@),
    ensures
        outputs.filter(|o: Stage1Output| o.thread_id@ == thread_id) == Seq::<
            Stage1Output,
        >::empty(),
    decreases outputs.len(),
{
    reveal(Seq::filter);
    if outputs.len() > 0 {
        let rest = outputs.drop_last();
        assert forall|i: int| 0 <= i < rest.len() implies text_less(
            thread_id,
            #[trigger] rest[i].thread_id@,
        ) by {
            assert(rest[i] == outputs[i]);
        }
        lemma_others_only(rest, thread_id);
        assert(text_less(thread_id, outputs[outputs.len() - 1].thread_id@));
        text::text_order_is_total(thread_id, thread_id);
    }
}

/// What a client allows is found under each word and under each key of the source that a word
/// names; and no key comes twice.
pub proof fn allowed_sources_are_found(sources: Seq<AllowedSource>, n: int, i: int)
    requires
        0 <= i < n <= sources.len(),
    ensures
        ({
            let keys = allowed_keys(sources, n);
            &&& keys.no_duplicates()
            &&& keys.contains(sources[i].word@)
            &&& sources[i].parsed is Some ==> {
                let source = sources[i].parsed->0;
                &&& keys.contains(source_key(source.value@))
                &&& keys.contains(source.debug@)
                &&& keys.contains(source.display@)
                &&& source.value@ !is Str ==> keys.contains(jsonb_text(source.value@))
            }
        }),
    decreases n,
{
    lemma_allowed_keys_are_distinct(sources, n);
    let source = sources[n - 1];
    let before = allowed_keys(sources, n - 1);
    let worded = with_key(before, source.word@);
    let keys = allowed_keys(sources, n);
    keys_are_added_once(before, source.word@);
    let more = match source.parsed {
        Some(parsed) => filter_keys(parsed.value@, parsed.debug@, parsed.display@),
        None => Seq::empty(),
    };
    keys_are_kept(worded, more);
    assert(keys == with_keys(worded, more));
    assert forall|key: Seq<char>| before.contains(key) || worded.contains(key) implies
        #[trigger] keys.contains(key) by {
        if before.contains(key) {
            let j = choose|j: int| 0 <= j < before.len() && before[j] == key;
            assert(worded[j] == key);
        }
        let j = choose|j: int| 0 <= j < worded.len() && worded[j] == key;
        assert(keys.take(worded.len() as int)[j] == keys[j]);
        assert(keys[j] == key);
    }
    if i < n - 1 {
        allowed_sources_are_found(sources, n - 1, i);
    } else if let Some(parsed) = source.parsed {
        sources_are_found_under_their_keys(parsed.value@, parsed.debug@, parsed.display@);
        assert forall|key: Seq<char>| more.contains(key) implies #[trigger] keys.contains(key) by {
            let j = choose|j: int| 0 <= j < more.len() && more[j] == key;
            assert(keys.contains(more[j]));
        }
        assert(more.contains(more[0]));
        assert(more[0] == source_key(parsed.value@));
    }
}

proof fn lemma_with_keys_distinct(keys: Seq<Seq<char>>, more: Seq<Seq<char>>)
    requires
        keys.no_duplicates(),
    ensures
        with_keys(keys, more).no_duplicates(),
    decreases more.len(),
{
    if more.len() > 0 {
        lemma_with_keys_distinct(keys, more.drop_last());
    }
}

proof fn lemma_allowed_keys_are_distinct(sources: Seq<AllowedSource>, n: int)
    ensures
        allowed_keys(sources, n).no_duplicates(),
    decreases n,
{
    if n > 0 {
        lemma_allowed_keys_are_distinct(sources, n - 1);
        let source = sources[n - 1];
        let keys = with_key(allowed_keys(sources, n - 1), source.word@);
        if let Some(parsed) = source.parsed {
            lemma_with_keys_distinct(
                keys,
                filter_keys(parsed.value@, parsed.debug@, parsed.display@),
            );
        }
    }
}

/// No key stands for a client's sources but the words and the keys of the sources that they name.
pub proof fn only_allowed_sources_are_found(sources: Seq<AllowedSource>, n: int, key: Seq<char>)
    requires
        n <= sources.len(),
        allowed_keys(sources, n).contains(key),
    ensures
        exists|i: int|
            0 <= i < n && (#[trigger] sources[i].word@ == key || (sources[i].parsed is Some
                && filter_keys(
                sources[i].parsed->0.value@,
                sources[i].parsed->0.debug@,
                sources[i].parsed->0.display@,
            ).contains(key))),
    decreases n,
{
    if n > 0 {
        let source = sources[n - 1];
        let before = allowed_keys(sources, n - 1);
        let worded = with_key(before, source.word@);
        if before.contains(key) {
            only_allowed_sources_are_found(sources, n - 1, key);
            let i = choose|i: int|
                0 <= i < n - 1 && (#[trigger] sources[i].word@ == key || (sources[i].parsed is Some
                    && filter_keys(
                    sources[i].parsed->0.value@,
                    sources[i].parsed->0.debug@,
                    sources[i].parsed->0.display@,
                ).contains(key)));
            assert(sources[i].word@ == sources[i].word@);
        } else if key == source.word@ {
            assert(sources[n - 1].word@ == key);
        } else {
            assert(!worded.contains(key));
            if let Some(parsed) = source.parsed {
                let more = filter_keys(parsed.value@, parsed.debug@, parsed.display@);
                lemma_new_key(worded, more, key);
                assert(sources[n - 1].word@ == source.word@);
            }
        }
    }
}

proof fn lemma_new_key(keys: Seq<Seq<char>>, more: Seq<Seq<char>>, key: Seq<char>)
    requires
        with_keys(keys, more).contains(key),
        !keys.contains(key),
    ensures
        more.contains(key),
    decreases more.len(),
{
    if more.len() > 0 {
        let rest = more.drop_last();
        let before = with_keys(keys, rest);
        if before.contains(key) {
            lemma_new_key(keys, rest, key);
            let i = choose|i: int| 0 <= i < rest.len() && rest[i] == key;
            assert(more[i] == key);
        } else {
            assert(key == more.last());
            assert(more[more.len() - 1] == key);
        }
    }
}

} // verus!
