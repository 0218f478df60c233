//! The document under which a thread is stored.

use vstd::prelude::*;

use crate::chat_stream::TokenUsage;
use crate::json::{self, items_view, opt_json, Json, JsonObject, JsonView};
use crate::text::{self, opt_text};
use crate::thread_id::ThreadId;
use crate::thread_records::{opt_id, GitInfo, StoredThread};
use crate::thread_store::{history_mode_key, thread_history_mode_key};
use crate::time::{opt_time, rfc3339_text, TimeView, Timestamp};

verus! {

/// A text, or nothing.
pub open spec fn text_member(text: Option<Seq<char>>) -> JsonView {
    match text {
        Some(text) => JsonView::Str(text),
        None => JsonView::Null,
    }
}

/// A document, or nothing.
pub open spec fn document_member(v: Option<JsonView>) -> JsonView {
    match v {
        Some(v) => v,
        None => JsonView::Null,
    }
}

/// A number, or nothing.
pub open spec fn number_member(n: Option<i64>) -> JsonView {
    match n {
        Some(n) => JsonView::Int(n as int),
        None => JsonView::Null,
    }
}

/// An instant in the form of RFC 3339.
pub open spec fn time_member(t: TimeView) -> JsonView {
    JsonView::Str(rfc3339_text(t.seconds, t.nanos))
}

/// An instant in the form of RFC 3339, or nothing.
pub open spec fn opt_time_member(t: Option<TimeView>) -> JsonView {
    match t {
        Some(t) => time_member(t),
        None => JsonView::Null,
    }
}

/// The state of a repository, or nothing.
pub open spec fn git_member(git: Option<GitInfo>) -> JsonView {
    match git {
        Some(git) => JsonView::Object(
            map![
                "commit_hash"@ => text_member(opt_text(git.commit_hash)),
                "branch"@ => text_member(opt_text(git.branch)),
                "repository_url"@ => text_member(opt_text(git.repository_url)),
            ],
        ),
        None => JsonView::Null,
    }
}

/// The tokens that were used, or nothing.
pub open spec fn usage_member(usage: Option<TokenUsage>) -> JsonView {
    match usage {
        Some(usage) => JsonView::Object(
            map![
                "input_tokens"@ => JsonView::Int(usage.input_tokens as int),
                "cached_input_tokens"@ => JsonView::Int(usage.cached_input_tokens as int),
                "cache_write_input_tokens"@ => JsonView::Int(usage.cache_write_input_tokens as int),
                "output_tokens"@ => JsonView::Int(usage.output_tokens as int),
                "reasoning_output_tokens"@ => JsonView::Int(usage.reasoning_output_tokens as int),
                "total_tokens"@ => JsonView::Int(usage.total_tokens as int),
            ],
        ),
        None => JsonView::Null,
    }
}

/// The members of a thread's document: each under the name of its field. The history has none
/// where it was not read.
pub open spec fn thread_members(t: StoredThread) -> Map<Seq<char>, JsonView> {
    let members = map![
        "thread_id"@ => JsonView::Str(t.thread_id@),
        "extra_config"@ => document_member(opt_json(t.extra_config)),
        "rollout_path"@ => text_member(opt_text(t.rollout_path)),
        "forked_from_id"@ => text_member(opt_id(t.forked_from_id)),
        "parent_thread_id"@ => text_member(opt_id(t.parent_thread_id)),
        "preview"@ => JsonView::Str(t.preview@),
        "name"@ => text_member(opt_text(t.name)),
        "model_provider"@ => JsonView::Str(t.model_provider@),
        "model"@ => text_member(opt_text(t.model)),
        "reasoning_effort"@ => text_member(opt_text(t.reasoning_effort)),
        "created_at"@ => time_member(t.created_at@),
        "updated_at"@ => time_member(t.updated_at@),
        "recency_at"@ => time_member(t.recency_at@),
        "archived_at"@ => opt_time_member(opt_time(t.archived_at)),
        "section"@ => document_member(opt_json(t.section)),
        "section_position"@ => number_member(t.section_position),
        "section_entered_at"@ => opt_time_member(opt_time(t.section_entered_at)),
        "project_id"@ => text_member(opt_text(t.project_id)),
        "cwd"@ => JsonView::Str(t.cwd@),
        "cli_version"@ => JsonView::Str(t.cli_version@),
        "source"@ => t.source.value@,
        "history_mode"@ => JsonView::Str(history_mode_key(t.history_mode)),
        "thread_source"@ => text_member(opt_text(t.thread_source)),
        "agent_nickname"@ => text_member(opt_text(t.agent_nickname)),
        "agent_role"@ => text_member(opt_text(t.agent_role)),
        "agent_path"@ => text_member(opt_text(t.agent_path)),
        "git_info"@ => git_member(t.git_info),
        "approval_mode"@ => t.approval_mode@,
        "permission_profile"@ => t.permission_profile@,
        "token_usage"@ => usage_member(t.token_usage),
        "first_user_message"@ => text_member(opt_text(t.first_user_message)),
    ];
    match t.history {
        Some(items) => members.insert("history"@, JsonView::Array(items_view(items@))),
        None => members,
    }
}

fn put(o: &mut JsonObject, name: &str, value: Json)
    ensures
        final(o)@ == old(o)@.insert(name@, value@),
{
    o.insert(text::owned(name), value);
}

fn text_or_null(text: &Option<String>) -> (r: Json)
    ensures
        r@ == text_member(opt_text(*text)),
{
    match text {
        Some(text) => Json::string(text.as_str()),
        None => Json::Null,
    }
}

fn id_or_null(id: &Option<ThreadId>) -> (r: Json)
    ensures
        r@ == text_member(opt_id(*id)),
{
    match id {
        Some(id) => Json::string(id.as_str()),
        None => Json::Null,
    }
}

fn document_or_null(v: &Option<Json>) -> (r: Json)
    ensures
        r@ == document_member(opt_json(*v)),
{
    match v {
        Some(v) => v.duplicate(),
        None => Json::Null,
    }
}

fn number_or_null(n: Option<i64>) -> (r: Json)
    ensures
        r@ == number_member(n),
{
    match n {
        Some(n) => Json::integer(n),
        None => Json::Null,
    }
}

fn time_or_null(t: Option<Timestamp>) -> (r: Json)
    ensures
        r@ == opt_time_member(opt_time(t)),
{
    match t {
        Some(t) => Json::Str(t.text()),
        None => Json::Null,
    }
}

fn git_or_null(git: &Option<GitInfo>) -> (r: Json)
    ensures
        r@ == git_member(*git),
{
    match git {
        Some(git) => {
            let mut o = JsonObject::new();
            put(&mut o, "commit_hash", text_or_null(&git.commit_hash));
            put(&mut o, "branch", text_or_null(&git.branch));
            put(&mut o, "repository_url", text_or_null(&git.repository_url));
            Json::Object(o)
        },
        None => Json::Null,
    }
}

fn usage_or_null(usage: Option<TokenUsage>) -> (r: Json)
    ensures
        r@ == usage_member(usage),
{
    match usage {
        Some(usage) => {
            let mut o = JsonObject::new();
            put(&mut o, "input_tokens", Json::integer(usage.input_tokens));
            put(&mut o, "cached_input_tokens", Json::integer(usage.cached_input_tokens));
            put(&mut o, "cache_write_input_tokens", Json::integer(usage.cache_write_input_tokens));
            put(&mut o, "output_tokens", Json::integer(usage.output_tokens));
            put(&mut o, "reasoning_output_tokens", Json::integer(usage.reasoning_output_tokens));
            put(&mut o, "total_tokens", Json::integer(usage.total_tokens));
            Json::Object(o)
        },
        None => Json::Null,
    }
}

fn thread_object(t: &StoredThread) -> (r: JsonObject)
    ensures
        r@ == thread_members(*t),
{
    let mut o = JsonObject::new();
    put(&mut o, "thread_id", Json::string(t.thread_id.as_str()));
    put(&mut o, "extra_config", document_or_null(&t.extra_config));
    put(&mut o, "rollout_path", text_or_null(&t.rollout_path));
    put(&mut o, "forked_from_id", id_or_null(&t.forked_from_id));
    put(&mut o, "parent_thread_id", id_or_null(&t.parent_thread_id));
    put(&mut o, "preview", Json::string(t.preview.as_str()));
    put(&mut o, "name", text_or_null(&t.name));
    put(&mut o, "model_provider", Json::string(t.model_provider.as_str()));
    put(&mut o, "model", text_or_null(&t.model));
    put(&mut o, "reasoning_effort", text_or_null(&t.reasoning_effort));
    put(&mut o, "created_at", Json::Str(t.created_at.text()));
    put(&mut o, "updated_at", Json::Str(t.updated_at.text()));
    put(&mut o, "recency_at", Json::Str(t.recency_at.text()));
    put(&mut o, "archived_at", time_or_null(t.archived_at));
    put(&mut o, "section", document_or_null(&t.section));
    put(&mut o, "section_position", number_or_null(t.section_position));
    put(&mut o, "section_entered_at", time_or_null(t.section_entered_at));
    put(&mut o, "project_id", text_or_null(&t.project_id));
    put(&mut o, "cwd", Json::string(t.cwd.as_str()));
    put(&mut o, "cli_version", Json::string(t.cli_version.as_str()));
    put(&mut o, "source", t.source.value.duplicate());
    put(&mut o, "history_mode", Json::string(thread_history_mode_key(t.history_mode)));
    put(&mut o, "thread_source", text_or_null(&t.thread_source));
    put(&mut o, "agent_nickname", text_or_null(&t.agent_nickname));
    put(&mut o, "agent_role", text_or_null(&t.agent_role));
    put(&mut o, "agent_path", text_or_null(&t.agent_path));
    put(&mut o, "git_info", git_or_null(&t.git_info));
    put(&mut o, "approval_mode", t.approval_mode.duplicate());
    put(&mut o, "permission_profile", t.permission_profile.duplicate());
    put(&mut o, "token_usage", usage_or_null(t.token_usage));
    put(&mut o, "first_user_message", text_or_null(&t.first_user_message));
    if let Some(items) = &t.history {
        put(&mut o, "history", Json::Array(json::duplicate_all(items)));
    }
    o
}

/// The document under which a thread is stored, with the name of its memory mode.
pub fn stored_thread_json_with_memory_mode_key(stored: &StoredThread, memory_mode: &str) -> (r:
    Json)
    ensures
        r@ == JsonView::Object(
            thread_members(*stored).insert("memory_mode"@, JsonView::Str(memory_mode@)),
        ),
{
    let mut o = thread_object(stored);
    put(&mut o, "memory_mode", Json::string(memory_mode));
    Json::Object(o)
}

// ---------------------------------------------------------------------------------------------
// Laws
// ---------------------------------------------------------------------------------------------

/// A number that tells the names of the members apart: it is made of the length of a name and of
/// its first and last characters.
spec fn name_code(name: Seq<char>) -> int {
    name.len() * 1_000_000 + name[0] as int * 1_000 + name.last() as int
}

proof fn lemma_member_codes()
    ensures
        name_code("thread_id"@) == 9_116_100,
        name_code("extra_config"@) == 12_101_103,
        name_code("rollout_path"@) == 12_114_104,
        name_code("forked_from_id"@) == 14_102_100,
        name_code("parent_thread_id"@) == 16_112_100,
        name_code("preview"@) == 7_112_119,
        name_code("name"@) == 4_110_101,
        name_code("model_provider"@) == 14_109_114,
        name_code("model"@) == 5_109_108,
        name_code("reasoning_effort"@) == 16_114_116,
        name_code("created_at"@) == 10_099_116,
        name_code("updated_at"@) == 10_117_116,
        name_code("recency_at"@) == 10_114_116,
        name_code("archived_at"@) == 11_097_116,
        name_code("section"@) == 7_115_110,
        name_code("section_position"@) == 16_115_110,
        name_code("section_entered_at"@) == 18_115_116,
        name_code("project_id"@) == 10_112_100,
        name_code("cwd"@) == 3_099_100,
        name_code("cli_version"@) == 11_099_110,
        name_code("source"@) == 6_115_101,
        name_code("history_mode"@) == 12_104_101,
        name_code("thread_source"@) == 13_116_101,
        name_code("agent_nickname"@) == 14_097_101,
        name_code("agent_role"@) == 10_097_101,
        name_code("agent_path"@) == 10_097_104,
        name_code("git_info"@) == 8_103_111,
        name_code("approval_mode"@) == 13_097_101,
        name_code("permission_profile"@) == 18_112_101,
        name_code("token_usage"@) == 11_116_101,
        name_code("first_user_message"@) == 18_102_101,
        name_code("history"@) == 7_104_121,
        name_code("memory_mode"@) == 11_109_101,
{
    reveal_strlit("thread_id");
    reveal_strlit("extra_config");
    reveal_strlit("rollout_path");
    reveal_strlit("forked_from_id");
    reveal_strlit("parent_thread_id");
    reveal_strlit("preview");
    reveal_strlit("name");
    reveal_strlit("model_provider");
    reveal_strlit("model");
    reveal_strlit("reasoning_effort");
    reveal_strlit("created_at");
    reveal_strlit("updated_at");
    reveal_strlit("recency_at");
    reveal_strlit("archived_at");
    reveal_strlit("section");
    reveal_strlit("section_position");
    reveal_strlit("section_entered_at");
    reveal_strlit("project_id");
    reveal_strlit("cwd");
    reveal_strlit("cli_version");
    reveal_strlit("source");
    reveal_strlit("history_mode");
    reveal_strlit("thread_source");
    reveal_strlit("agent_nickname");
    reveal_strlit("agent_role");
    reveal_strlit("agent_path");
    reveal_strlit("git_info");
    reveal_strlit("approval_mode");
    reveal_strlit("permission_profile");
    reveal_strlit("token_usage");
    reveal_strlit("first_user_message");
    reveal_strlit("history");
    reveal_strlit("memory_mode");
}

/// The document of a thread tells who it is and where it comes from, each under its name; what it
/// does not have is nothing.
pub proof fn documents_tell_who_the_thread_is(t: StoredThread)
    ensures
        ({
            let m = thread_members(t);
            &&& m["thread_id"@] == JsonView::Str(t.thread_id@)
            &&& t.rollout_path is Some ==> m["rollout_path"@] == JsonView::Str(t.rollout_path->0@)
            &&& t.rollout_path is None ==> m["rollout_path"@] is Null
            &&& t.forked_from_id is Some ==> m["forked_from_id"@] == JsonView::Str(t.forked_from_id->0@)
            &&& t.forked_from_id is None ==> m["forked_from_id"@] is Null
            &&& t.parent_thread_id is Some ==> m["parent_thread_id"@] == JsonView::Str(t.parent_thread_id->0@)
            &&& t.parent_thread_id is None ==> m["parent_thread_id"@] is Null
            &&& t.project_id is Some ==> m["project_id"@] == JsonView::Str(t.project_id->0@)
            &&& t.project_id is None ==> m["project_id"@] is Null
            &&& m["cwd"@] == JsonView::Str(t.cwd@)
            &&& m["cli_version"@] == JsonView::Str(t.cli_version@)
            &&& m["source"@] == t.source.value@
            &&& t.history_mode is Legacy ==> m["history_mode"@] == JsonView::Str("legacy"@)
            &&& t.history_mode is Paginated ==> m["history_mode"@] == JsonView::Str("paginated"@)
            &&& t.thread_source is Some ==> m["thread_source"@] == JsonView::Str(t.thread_source->0@)
            &&& t.thread_source is None ==> m["thread_source"@] is Null
            &&& t.agent_nickname is Some ==> m["agent_nickname"@] == JsonView::Str(t.agent_nickname->0@)
            &&& t.agent_nickname is None ==> m["agent_nickname"@] is Null
            &&& t.agent_role is Some ==> m["agent_role"@] == JsonView::Str(t.agent_role->0@)
            &&& t.agent_role is None ==> m["agent_role"@] is Null
            &&& t.agent_path is Some ==> m["agent_path"@] == JsonView::Str(t.agent_path->0@)
            &&& t.agent_path is None ==> m["agent_path"@] is Null
        }),
{
    lemma_member_codes();
}

/// The document of a thread tells its name and preview, its model and how it may act, each under
/// its name.
pub proof fn documents_tell_what_the_thread_says(t: StoredThread)
    ensures
        ({
            let m = thread_members(t);
            &&& t.extra_config is Some ==> m["extra_config"@] == t.extra_config->0@
            &&& t.extra_config is None ==> m["extra_config"@] is Null
            &&& m["preview"@] == JsonView::Str(t.preview@)
            &&& t.name is Some ==> m["name"@] == JsonView::Str(t.name->0@)
            &&& t.name is None ==> m["name"@] is Null
            &&& m["model_provider"@] == JsonView::Str(t.model_provider@)
            &&& t.model is Some ==> m["model"@] == JsonView::Str(t.model->0@)
            &&& t.model is None ==> m["model"@] is Null
            &&& t.reasoning_effort is Some ==> m["reasoning_effort"@] == JsonView::Str(t.reasoning_effort->0@)
            &&& t.reasoning_effort is None ==> m["reasoning_effort"@] is Null
            &&& m["git_info"@] == git_member(t.git_info)
            &&& m["approval_mode"@] == t.approval_mode@
            &&& m["permission_profile"@] == t.permission_profile@
            &&& m["token_usage"@] == usage_member(t.token_usage)
            &&& t.first_user_message is Some ==> m["first_user_message"@] == JsonView::Str(t.first_user_message->0@)
            &&& t.first_user_message is None ==> m["first_user_message"@] is Null
        }),
{
    lemma_member_codes();
}

/// The document of a thread tells its instants, and its place in a section, each under its name.
pub proof fn documents_tell_when_and_where(t: StoredThread)
    ensures
        ({
            let m = thread_members(t);
            &&& m["created_at"@] == JsonView::Str(rfc3339_text(t.created_at@.seconds, t.created_at@.nanos))
            &&& m["updated_at"@] == JsonView::Str(rfc3339_text(t.updated_at@.seconds, t.updated_at@.nanos))
            &&& m["recency_at"@] == JsonView::Str(rfc3339_text(t.recency_at@.seconds, t.recency_at@.nanos))
            &&& t.archived_at is Some ==> m["archived_at"@] == JsonView::Str(rfc3339_text(t.archived_at->0@.seconds, t.archived_at->0@.nanos))
            &&& t.archived_at is None ==> m["archived_at"@] is Null
            &&& t.section is Some ==> m["section"@] == t.section->0@
            &&& t.section is None ==> m["section"@] is Null
            &&& t.section_position is Some ==> m["section_position"@] == JsonView::Int(t.section_position->0 as int)
            &&& t.section_position is None ==> m["section_position"@] is Null
            &&& t.section_entered_at is Some ==> m["section_entered_at"@] == JsonView::Str(rfc3339_text(t.section_entered_at->0@.seconds, t.section_entered_at->0@.nanos))
            &&& t.section_entered_at is None ==> m["section_entered_at"@] is Null
        }),
{
    lemma_member_codes();
}

/// The document has no other members, but for the history where it was read.
pub proof fn documents_hold_nothing_else(t: StoredThread)
    ensures
        ({
            let names = set![
                "thread_id"@,
                "extra_config"@,
                "rollout_path"@,
                "forked_from_id"@,
                "parent_thread_id"@,
                "preview"@,
                "name"@,
                "model_provider"@,
                "model"@,
                "reasoning_effort"@,
                "created_at"@,
                "updated_at"@,
                "recency_at"@,
                "archived_at"@,
                "section"@,
                "section_position"@,
                "section_entered_at"@,
                "project_id"@,
                "cwd"@,
                "cli_version"@,
                "source"@,
                "history_mode"@,
                "thread_source"@,
                "agent_nickname"@,
                "agent_role"@,
                "agent_path"@,
                "git_info"@,
                "approval_mode"@,
                "permission_profile"@,
                "token_usage"@,
                "first_user_message"@,
            ];
            &&& t.history is None ==> thread_members(t).dom() == names
            &&& t.history is Some ==> thread_members(t).dom() == names.insert("history"@)
            &&& t.history is Some ==> thread_members(t)["history"@] == JsonView::Array(
                items_view(t.history->0@),
            )
        }),
{
    lemma_member_codes();
}

/// What is kept of a repository is told part by part, and so are the tokens that were used.
pub proof fn parts_have_their_names(git: GitInfo, usage: TokenUsage)
    ensures
        git_member(None) is Null,
        usage_member(None) is Null,
        ({
            let m = git_member(Some(git))->Object_0;
            &&& git_member(Some(git)) is Object
            &&& m.dom() == set!["commit_hash"@, "branch"@, "repository_url"@]
            &&& git.commit_hash is Some ==> m["commit_hash"@] == JsonView::Str(git.commit_hash->0@)
            &&& git.commit_hash is None ==> m["commit_hash"@] is Null
            &&& git.branch is Some ==> m["branch"@] == JsonView::Str(git.branch->0@)
            &&& git.branch is None ==> m["branch"@] is Null
            &&& git.repository_url is Some ==> m["repository_url"@] == JsonView::Str(
                git.repository_url->0@,
            )
            &&& git.repository_url is None ==> m["repository_url"@] is Null
        }),
        ({
            let m = usage_member(Some(usage))->Object_0;
            &&& usage_member(Some(usage)) is Object
            &&& m.dom() == set![
                "input_tokens"@,
                "cached_input_tokens"@,
                "cache_write_input_tokens"@,
                "output_tokens"@,
                "reasoning_output_tokens"@,
                "total_tokens"@,
            ]
            &&& m["input_tokens"@] == JsonView::Int(usage.input_tokens as int)
            &&& m["cached_input_tokens"@] == JsonView::Int(usage.cached_input_tokens as int)
            &&& m["cache_write_input_tokens"@] == JsonView::Int(
                usage.cache_write_input_tokens as int,
            )
            &&& m["output_tokens"@] == JsonView::Int(usage.output_tokens as int)
            &&& m["reasoning_output_tokens"@] == JsonView::Int(
                usage.reasoning_output_tokens as int,
            )
            &&& m["total_tokens"@] == JsonView::Int(usage.total_tokens as int)
        }),
{
    reveal_strlit("commit_hash");
    reveal_strlit("branch");
    reveal_strlit("repository_url");
    reveal_strlit("input_tokens");
    reveal_strlit("cached_input_tokens");
    reveal_strlit("cache_write_input_tokens");
    reveal_strlit("output_tokens");
    reveal_strlit("reasoning_output_tokens");
    reveal_strlit("total_tokens");
    assert("commit_hash"@.len() == 11 && "branch"@.len() == 6 && "repository_url"@.len() == 14);
    assert("input_tokens"@.len() == 12 && "total_tokens"@.len() == 12 && "output_tokens"@.len()
        == 13 && "cached_input_tokens"@.len() == 19 && "reasoning_output_tokens"@.len() == 23
        && "cache_write_input_tokens"@.len() == 24);
    assert("input_tokens"@[0] != "total_tokens"@[0]);
}

} // verus!
