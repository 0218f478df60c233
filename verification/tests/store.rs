use codex_remote::chat_stream::TokenUsage;
use codex_remote::json::Json;
use codex_remote::memory_outputs::{
    allowed_source_filter_keys, generated_memory_history_mode_keys, projection_string,
    AllowedSource,
};
use codex_remote::protocol::SessionSource;
use codex_remote::store_error::{internal_error, invalid_request, ThreadStoreError};
use codex_remote::thread_document::stored_thread_json_with_memory_mode_key;
use codex_remote::thread_id::ThreadId;
use codex_remote::thread_records::{
    append_items, append_notice, apply_metadata_patch, archive_thread, check_deleted,
    check_not_archived, create_thread, normalize_stored_thread, plan_append,
    stored_thread_memory_mode_key_from_row, stored_thread_memory_mode_key_from_value,
    thread_columns, touch_thread, unarchive_thread, update_thread_metadata, AppendPlan,
    CreateThreadParams, GitInfo, GitInfoPatch, NumberedItem, StoredThread, ThreadHead,
    ThreadMetadataPatch,
};
use codex_remote::thread_store::{
    app_server_client_name_from_key, canonical_session_source_key, default_history_mode,
    graph_status, migration_scope_key, postgres_jsonb_compat_key, push_unique_key,
    remote_control_app_server_client_name_key, remote_control_enrollment_from_row,
    session_source_filter_keys, session_source_key_from_value, thread_history_mode_key,
    thread_memory_mode_key, PostgresThreadStoreConfig, RemoteControlEnrollmentRecord,
    StoreBackend, ThreadHistoryMode, ThreadMemoryMode, ThreadSpawnEdgeStatus,
};
use codex_remote::time::Timestamp;

const THREAD: &str = "00000000-0000-0000-0000-00000000007b";

fn json(text: &str) -> Json {
    Json::read(text).expect("test document")
}

fn source(value: &str, debug: &str, display: &str) -> SessionSource {
    SessionSource {
        value: json(value),
        debug: debug.to_string(),
        display: display.to_string(),
        is_thread_spawn: false,
    }
}

fn vscode() -> SessionSource {
    source("\"vscode\"", "VSCode", "vscode")
}

fn cli() -> SessionSource {
    source("\"cli\"", "Cli", "cli")
}

fn thread_id() -> ThreadId {
    ThreadId::from_string(THREAD).expect("thread id")
}

fn at(seconds: i64) -> Timestamp {
    Timestamp::from_parts(seconds, 0).expect("instant")
}

fn sample_stored_thread() -> StoredThread {
    StoredThread {
        thread_id: thread_id(),
        extra_config: None,
        rollout_path: None,
        forked_from_id: None,
        parent_thread_id: None,
        preview: "preview".to_string(),
        name: Some("name".to_string()),
        model_provider: "openai".to_string(),
        model: None,
        reasoning_effort: None,
        created_at: at(10),
        updated_at: at(10),
        recency_at: at(10),
        archived_at: None,
        section: None,
        section_position: None,
        section_entered_at: None,
        project_id: None,
        cwd: "/tmp".to_string(),
        cli_version: "test".to_string(),
        source: cli(),
        history_mode: ThreadHistoryMode::Legacy,
        thread_source: None,
        agent_nickname: None,
        agent_role: None,
        agent_path: None,
        git_info: None,
        approval_mode: Json::string("on-request"),
        permission_profile: Json::string("read-only"),
        token_usage: None,
        first_user_message: None,
        history: None,
    }
}

#[test]
fn remote_control_app_server_client_name_key_uses_empty_string_for_none() {
    assert_eq!(remote_control_app_server_client_name_key(None), "");
    assert_eq!(
        remote_control_app_server_client_name_key(Some("desktop-client")),
        "desktop-client"
    );
}

#[test]
fn app_server_client_name_from_key_restores_none_for_empty_string() {
    assert_eq!(app_server_client_name_from_key(String::new()), None);
    assert_eq!(
        app_server_client_name_from_key("desktop-client".to_string()),
        Some("desktop-client".to_string())
    );
}

#[test]
fn canonical_session_source_key_uses_serde_values() {
    assert_eq!(canonical_session_source_key(&vscode()), "vscode");
    assert_eq!(canonical_session_source_key(&cli()), "cli");
    assert_eq!(
        canonical_session_source_key(&source("\"exec\"", "Exec", "exec")),
        "exec"
    );
}

#[test]
fn canonical_session_source_key_serializes_structured_sources_as_json() {
    let source = source(
        r#"{"subagent":{"other":"guardian"}}"#,
        r#"SubAgent(Other("guardian"))"#,
        "subagent_guardian",
    );

    assert_eq!(
        canonical_session_source_key(&source),
        r#"{"subagent":{"other":"guardian"}}"#
    );
}

#[test]
fn session_source_filter_keys_include_legacy_debug_values() {
    assert_eq!(
        session_source_filter_keys(&vscode()),
        vec!["vscode".to_string(), "VSCode".to_string()]
    );
}

#[test]
fn session_source_filter_keys_include_custom_display_fallback() {
    assert_eq!(
        session_source_filter_keys(&source(
            r#"{"custom":"atlas"}"#,
            r#"Custom("atlas")"#,
            "atlas"
        )),
        vec![
            r#"{"custom":"atlas"}"#.to_string(),
            r#"Custom("atlas")"#.to_string(),
            "atlas".to_string(),
            r#"{"custom": "atlas"}"#.to_string(),
        ]
    );
}

#[test]
fn generated_memory_history_mode_keys_include_legacy_and_paginated() {
    assert_eq!(
        generated_memory_history_mode_keys(),
        vec!["legacy".to_string(), "paginated".to_string()]
    );
}

#[test]
fn stored_thread_json_with_memory_mode_sets_canonical_field() {
    let value = stored_thread_json_with_memory_mode_key(
        &sample_stored_thread(),
        thread_memory_mode_key(ThreadMemoryMode::Disabled),
    );

    assert_eq!(value.get_str("memory_mode"), Some("disabled"));
}

#[test]
fn stored_thread_json_preserves_model_metadata() {
    let thread = StoredThread {
        model: Some("gpt-5.5".to_string()),
        reasoning_effort: Some("xhigh".to_string()),
        ..sample_stored_thread()
    };
    let value = stored_thread_json_with_memory_mode_key(
        &thread,
        thread_memory_mode_key(ThreadMemoryMode::Enabled),
    );

    assert_eq!(value.get_str("model"), Some("gpt-5.5"));
    assert_eq!(value.get_str("reasoning_effort"), Some("xhigh"));
}

#[test]
fn stored_thread_json_holds_every_field() {
    let thread = StoredThread {
        extra_config: Some(json(r#"{"k": [1]}"#)),
        rollout_path: Some("/tmp/rollout".to_string()),
        parent_thread_id: Some(thread_id()),
        archived_at: Some(at(20)),
        section: Some(json(r#"{"id": "s"}"#)),
        section_position: Some(-3),
        section_entered_at: Some(at(15)),
        project_id: Some("p".to_string()),
        history_mode: ThreadHistoryMode::Paginated,
        agent_role: Some("planner".to_string()),
        git_info: Some(GitInfo {
            commit_hash: Some("abc".to_string()),
            branch: None,
            repository_url: None,
        }),
        token_usage: Some(TokenUsage {
            input_tokens: 1,
            cached_input_tokens: 2,
            cache_write_input_tokens: 3,
            output_tokens: 4,
            reasoning_output_tokens: 5,
            total_tokens: 6,
        }),
        history: Some(vec![Json::Null]),
        ..sample_stored_thread()
    };
    let expected = format!(
        r#"{{
            "thread_id": "{THREAD}",
            "extra_config": {{"k": [1]}},
            "rollout_path": "/tmp/rollout",
            "forked_from_id": null,
            "parent_thread_id": "{THREAD}",
            "preview": "preview",
            "name": "name",
            "model_provider": "openai",
            "model": null,
            "reasoning_effort": null,
            "created_at": "1970-01-01T00:00:10Z",
            "updated_at": "1970-01-01T00:00:10Z",
            "recency_at": "1970-01-01T00:00:10Z",
            "archived_at": "1970-01-01T00:00:20Z",
            "section": {{"id": "s"}},
            "section_position": -3,
            "section_entered_at": "1970-01-01T00:00:15Z",
            "project_id": "p",
            "cwd": "/tmp",
            "cli_version": "test",
            "source": "cli",
            "history_mode": "paginated",
            "thread_source": null,
            "agent_nickname": null,
            "agent_role": "planner",
            "agent_path": null,
            "git_info": {{"commit_hash": "abc", "branch": null, "repository_url": null}},
            "approval_mode": "on-request",
            "permission_profile": "read-only",
            "token_usage": {{
                "input_tokens": 1,
                "cached_input_tokens": 2,
                "cache_write_input_tokens": 3,
                "output_tokens": 4,
                "reasoning_output_tokens": 5,
                "total_tokens": 6
            }},
            "first_user_message": null,
            "history": [null],
            "memory_mode": "polluted"
        }}"#
    );
    assert_eq!(
        stored_thread_json_with_memory_mode_key(&thread, "polluted"),
        json(&expected)
    );
    assert_eq!(
        stored_thread_json_with_memory_mode_key(&sample_stored_thread(), "enabled").get("history"),
        None
    );
}

#[test]
fn thread_history_mode_key_uses_canonical_lowercase_values() {
    assert_eq!(thread_history_mode_key(ThreadHistoryMode::Legacy), "legacy");
    assert_eq!(
        thread_history_mode_key(ThreadHistoryMode::Paginated),
        "paginated"
    );
}

#[test]
fn stored_thread_memory_mode_from_value_reads_known_values() {
    let value = json(r#"{ "memory_mode": "enabled" }"#);

    assert_eq!(
        stored_thread_memory_mode_key_from_value(&value),
        Some("enabled".to_string())
    );
}

#[test]
fn stored_thread_memory_mode_from_value_preserves_unknown_values() {
    let value = json(r#"{ "memory_mode": "polluted" }"#);

    assert_eq!(
        stored_thread_memory_mode_key_from_value(&value),
        Some("polluted".to_string())
    );
}

#[test]
fn memory_mode_of_the_column_comes_first() {
    let value = json(r#"{ "memory_mode": "disabled" }"#);
    assert_eq!(
        stored_thread_memory_mode_key_from_row(Some("polluted".to_string()), &value),
        "polluted"
    );
    assert_eq!(
        stored_thread_memory_mode_key_from_row(None, &value),
        "disabled"
    );
    assert_eq!(
        stored_thread_memory_mode_key_from_row(None, &json("{}")),
        "enabled"
    );
}

#[test]
fn unconfigured_store_rejects_remote_control_persistence_requests() {
    let store = StoreBackend::unconfigured("missing database url".to_string());

    let error = store
        .remote_control_enrollment_key("wss://example.com", "account", None)
        .expect_err("unconfigured store should reject reads");
    assert!(matches!(
        error,
        ThreadStoreError::InvalidRequest { message } if message == "missing database url"
    ));

    let error = store
        .upsert_remote_control_enrollment(
            None,
            RemoteControlEnrollmentRecord {
                websocket_url: "wss://example.com".to_string(),
                account_id: "account".to_string(),
                app_server_client_name: None,
                server_id: "server".to_string(),
                environment_id: "environment".to_string(),
                server_name: "server-name".to_string(),
                remote_control_enabled: Some(true),
            },
        )
        .expect_err("unconfigured store should reject writes");
    assert!(matches!(
        error,
        ThreadStoreError::InvalidRequest { message } if message == "missing database url"
    ));
}

#[test]
fn postgres_store_defaults_to_paginated_history() {
    assert_eq!(default_history_mode(), ThreadHistoryMode::Paginated);
}

#[test]
fn store_is_configured_from_its_variable() {
    let config = PostgresThreadStoreConfig::default();
    assert_eq!(config.database_url_env, "CODEX_REMOTE_SQL_URL");
    assert_eq!(config.default_workspace_id, "default");

    let message = |backend: StoreBackend| match backend {
        StoreBackend::Unconfigured { message } => message,
        other => panic!("unexpected store: {other:?}"),
    };
    assert_eq!(
        message(StoreBackend::from_env_or_unconfigured(
            config.clone(),
            None,
            None
        )),
        "remote SQL thread store requires $CODEX_REMOTE_SQL_URL"
    );
    assert_eq!(
        message(StoreBackend::from_env_or_unconfigured(
            config.clone(),
            Some("  ".to_string()),
            None
        )),
        "remote SQL thread store requires $CODEX_REMOTE_SQL_URL"
    );
    assert_eq!(
        message(StoreBackend::from_env_or_unconfigured(
            config.clone(),
            Some("nonsense".to_string()),
            Some("no scheme".to_string())
        )),
        "invalid $CODEX_REMOTE_SQL_URL: no scheme"
    );
    let url = "postgres://localhost/codex";
    let backend = StoreBackend::from_env_or_unconfigured(config, Some(url.to_string()), None);
    assert_eq!(backend.workspace_id(), Ok("default"));
    assert!(matches!(
        backend,
        StoreBackend::Pool { migration_scope_key: key, .. } if key == migration_scope_key(url)
    ));
}

#[test]
fn databases_have_their_own_scope() {
    assert_eq!(migration_scope_key("a"), migration_scope_key("a"));
    assert_ne!(migration_scope_key("a"), migration_scope_key("b"));
}

#[test]
fn enrollments_come_back_and_keep_their_switch() {
    let enrollment = RemoteControlEnrollmentRecord {
        websocket_url: "wss://example.com".to_string(),
        account_id: "account".to_string(),
        app_server_client_name: None,
        server_id: "server".to_string(),
        environment_id: "environment".to_string(),
        server_name: "server-name".to_string(),
        remote_control_enabled: Some(true),
    };
    let url = "postgres://localhost/codex";
    let store = StoreBackend::from_env_or_unconfigured(
        PostgresThreadStoreConfig::default(),
        Some(url.to_string()),
        None,
    );
    let key = store
        .remote_control_enrollment_key("wss://example.com", "account", Some("desktop-client"))
        .expect("key");
    assert_eq!(key.workspace_id, "default");
    assert_eq!(key.websocket_url, "wss://example.com");
    assert_eq!(key.account_id, "account");
    assert_eq!(key.app_server_client_name, "desktop-client");
    let row = store
        .upsert_remote_control_enrollment(None, enrollment.clone())
        .expect("row");
    assert_eq!(row.app_server_client_name, "");
    assert_eq!(remote_control_enrollment_from_row(row), enrollment);

    let row = store
        .upsert_remote_control_enrollment(Some(Some(false)), enrollment)
        .expect("row");
    assert_eq!(row.remote_control_enabled, Some(false));
}

#[test]
fn edges_of_the_graph_have_names() {
    assert_eq!(graph_status(ThreadSpawnEdgeStatus::Open), "open");
    assert_eq!(graph_status(ThreadSpawnEdgeStatus::Closed), "closed");
}

#[test]
fn keys_are_pushed_once() {
    let mut keys = vec!["a".to_string()];
    push_unique_key(&mut keys, "b".to_string());
    push_unique_key(&mut keys, "a".to_string());
    assert_eq!(keys, vec!["a".to_string(), "b".to_string()]);
}

#[test]
fn compat_keys_are_spaced() {
    assert_eq!(
        postgres_jsonb_compat_key(&json(r#"{"b":[1,"x",null],"a":{}}"#)),
        r#"{"a": {}, "b": [1, "x", null]}"#
    );
    assert_eq!(session_source_key_from_value(&json("\"cli\"")), "cli");
    assert_eq!(session_source_key_from_value(&json("[1,2]")), "[1,2]");
    assert_eq!(projection_string(&json("\"x\"")), "x");
    assert_eq!(projection_string(&json("true")), "true");
}

#[test]
fn allowed_sources_are_looked_for_under_all_names() {
    let keys = allowed_source_filter_keys(&vec![
        AllowedSource {
            word: "vscode".to_string(),
            parsed: Some(vscode()),
        },
        AllowedSource {
            word: "atlas".to_string(),
            parsed: None,
        },
    ]);
    assert_eq!(
        keys,
        vec![
            "vscode".to_string(),
            "VSCode".to_string(),
            "atlas".to_string()
        ]
    );
}

#[test]
fn new_threads_are_recent() {
    let thread = create_thread(
        CreateThreadParams {
            thread_id: thread_id(),
            extra_config: None,
            forked_from_id: None,
            parent_thread_id: None,
            source: cli(),
            thread_source: None,
            history_mode: ThreadHistoryMode::Paginated,
            model_provider: "openai".to_string(),
            model: Some("gpt".to_string()),
            reasoning_effort: None,
            cwd: None,
            on_request_approval: Json::string("on-request"),
            read_only_permissions: Json::string("read-only"),
        },
        at(5),
    );
    assert_eq!(thread.created_at, at(5));
    assert_eq!(thread.recency_at, at(5));
    assert_eq!(thread.model.as_deref(), Some("gpt"));
    assert_eq!(thread.preview, "");
    assert_eq!(thread.archived_at, None);
}

#[test]
fn patch_changes_what_it_names() {
    let patch = ThreadMetadataPatch {
        name: Some(None),
        preview: Some("new".to_string()),
        git_info: Some(GitInfoPatch {
            sha: None,
            branch: Some(Some("main".to_string())),
            origin_url: None,
        }),
        ..ThreadMetadataPatch::empty()
    };
    let thread = apply_metadata_patch(sample_stored_thread(), patch);
    assert_eq!(thread.name, None);
    assert_eq!(thread.preview, "new");
    assert_eq!(
        thread.git_info.expect("git info").branch.as_deref(),
        Some("main")
    );
    assert_eq!(thread.model_provider, "openai");

    let same = apply_metadata_patch(sample_stored_thread(), ThreadMetadataPatch::empty());
    assert_eq!(same, sample_stored_thread());
}

#[test]
fn archived_threads_are_left_alone() {
    let archived = archive_thread(sample_stored_thread(), at(20));
    assert_eq!(archived.archived_at, Some(at(20)));
    assert!(check_not_archived(&thread_id(), archived.archived_at, true).is_ok());
    assert!(check_not_archived(&thread_id(), archived.archived_at, false).is_err());
    assert!(update_thread_metadata(
        archived,
        "enabled".to_string(),
        ThreadMetadataPatch::empty(),
        false
    )
    .is_err());
    let back = unarchive_thread(archive_thread(sample_stored_thread(), at(20)), at(30));
    assert_eq!(back.archived_at, None);
    let updated = update_thread_metadata(
        back,
        "enabled".to_string(),
        ThreadMetadataPatch {
            memory_mode: Some(ThreadMemoryMode::Disabled),
            ..ThreadMetadataPatch::empty()
        },
        false,
    )
    .expect("updated thread");
    assert_eq!(updated.memory_mode, "disabled");
}

#[test]
fn deleting_nothing_is_an_error() {
    assert_eq!(check_deleted(1, thread_id()), Ok(()));
    assert_eq!(
        check_deleted(0, thread_id()),
        Err(ThreadStoreError::ThreadNotFound {
            thread_id: thread_id()
        })
    );
}

#[test]
fn appended_items_are_numbered() {
    assert_eq!(
        plan_append(4, 3),
        Some(AppendPlan {
            from_seq: 5,
            to_seq: 7
        })
    );
    assert_eq!(plan_append(i64::MAX, 1), None);
    let notice = append_notice(
        &thread_id(),
        AppendPlan {
            from_seq: 5,
            to_seq: 7,
        },
    );
    assert!(notice.text().contains(THREAD));
    let touched = touch_thread(sample_stored_thread(), at(99));
    assert_eq!(touched.updated_at, at(99));
    assert_eq!(normalize_stored_thread(touched).updated_at, at(99));
}

#[test]
fn appending_tells_what_is_written() {
    let head = || ThreadHead {
        stored: sample_stored_thread(),
        latest_seq: 4,
    };
    let items = || vec![Json::string("a"), Json::Null, Json::integer(3)];
    let appended = append_items(&thread_id(), Some(head()), items(), at(99))
        .expect("thread")
        .expect("appended items");
    assert_eq!(
        appended.items,
        vec![
            NumberedItem {
                seq: 5,
                item: Json::string("a")
            },
            NumberedItem {
                seq: 6,
                item: Json::Null
            },
            NumberedItem {
                seq: 7,
                item: Json::integer(3)
            },
        ]
    );
    assert_eq!(appended.latest_seq, 7);
    assert_eq!(appended.stored.updated_at, at(99));
    assert_eq!(appended.stored.recency_at, at(99));
    assert_eq!(
        appended.stored.created_at,
        sample_stored_thread().created_at
    );
    assert_eq!(
        appended.notice.text(),
        format!(r#"{{"fromSeq":5,"threadId":"{THREAD}","toSeq":7}}"#)
    );
    assert!(matches!(
        append_items(&thread_id(), Some(head()), vec![], at(99)),
        Ok(None)
    ));
    assert!(matches!(
        append_items(&thread_id(), None, vec![], at(99)),
        Ok(None)
    ));
    assert!(matches!(
        append_items(&thread_id(), None, items(), at(99)),
        Err(ThreadStoreError::ThreadNotFound { thread_id: missing }) if missing == thread_id()
    ));
}

#[test]
fn columns_say_what_the_document_says() {
    let stored = StoredThread {
        parent_thread_id: Some(thread_id()),
        model: Some("gpt-5.5".to_string()),
        ..archive_thread(sample_stored_thread(), at(20))
    };
    let columns = thread_columns(&stored, "disabled");
    assert_eq!(columns.id, THREAD);
    assert_eq!(columns.forked_from_thread_id, None);
    assert_eq!(columns.parent_thread_id.as_deref(), Some(THREAD));
    assert_eq!(columns.history_mode, "legacy");
    assert_eq!(columns.source, canonical_session_source_key(&stored.source));
    assert_eq!(columns.model.as_deref(), Some("gpt-5.5"));
    assert_eq!(columns.memory_mode, "disabled");
    assert_eq!(columns.title, stored.name);
    assert_eq!(columns.preview, stored.preview);
    assert_eq!(columns.archived_at, Some(at(20)));
    assert_eq!(columns.created_at, stored.created_at);
}

#[test]
fn errors_are_made_of_text() {
    assert_eq!(
        invalid_request("x"),
        ThreadStoreError::InvalidRequest {
            message: "x".to_string()
        }
    );
    assert_eq!(
        internal_error("x"),
        ThreadStoreError::Internal {
            message: "x".to_string()
        }
    );
}
