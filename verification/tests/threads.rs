use codex_remote::json::Json;
use codex_remote::protocol::SessionSource;
use codex_remote::sql::SqlValue;
use codex_remote::store_error::ThreadStoreError;
use codex_remote::thread_id::ThreadId;
use codex_remote::thread_list::{
    decode_thread_list_cursor, encode_keyset_cursor, list_threads, page_size,
    validate_keyset_cursor, KeysetCursorValue, ListPlan, ListThreadsParams, SortDirection,
    ThreadListCursor, ThreadRelationFilter, ThreadSortKey,
};
use codex_remote::thread_records::StoredThread;
use codex_remote::thread_search::{
    assemble_page, check_local_search, check_remote_search, local_search_results,
    remote_search_results, search_list_params, SearchThreadsParams, ThreadPage, ThreadRow,
};
use codex_remote::thread_store::ThreadHistoryMode;
use codex_remote::time::Timestamp;

fn thread_id(n: u64) -> ThreadId {
    ThreadId::from_string(&format!("00000000-0000-0000-0000-{n:012}")).expect("valid thread id")
}

fn at(seconds: i64) -> Timestamp {
    Timestamp::from_parts(seconds, 0).expect("instant")
}

fn source(word: &str) -> SessionSource {
    SessionSource {
        value: Json::string(word),
        debug: word.to_string(),
        display: word.to_string(),
        is_thread_spawn: false,
    }
}

fn thread(n: u64, name: Option<&str>, preview: &str) -> StoredThread {
    StoredThread {
        thread_id: thread_id(n),
        extra_config: None,
        rollout_path: None,
        forked_from_id: None,
        parent_thread_id: None,
        preview: preview.to_string(),
        name: name.map(str::to_string),
        model_provider: "openai".to_string(),
        model: None,
        reasoning_effort: None,
        created_at: at(0),
        updated_at: at(0),
        recency_at: at(n as i64),
        archived_at: None,
        section: None,
        section_position: None,
        section_entered_at: None,
        project_id: None,
        cwd: "/tmp".to_string(),
        cli_version: "test".to_string(),
        source: source("cli"),
        history_mode: ThreadHistoryMode::Legacy,
        thread_source: None,
        agent_nickname: None,
        agent_role: None,
        agent_path: None,
        git_info: None,
        approval_mode: Json::Null,
        permission_profile: Json::Null,
        token_usage: None,
        first_user_message: None,
        history: None,
    }
}

fn search_params() -> SearchThreadsParams {
    SearchThreadsParams {
        page_size: 2,
        cursor: None,
        sort_key: ThreadSortKey::RecencyAt,
        sort_direction: SortDirection::Desc,
        allowed_sources: vec![source("cli")],
        archived: false,
        search_term: "needle".to_string(),
    }
}

fn list_params() -> ListThreadsParams {
    ListThreadsParams {
        page_size: 2,
        cursor: None,
        sort_key: ThreadSortKey::RecencyAt,
        sort_direction: SortDirection::Desc,
        allowed_sources: vec![],
        model_providers: None,
        cwd_filters: None,
        section: None,
        project_id: None,
        archived: false,
        search_term: None,
        relation_filter: None,
        use_state_db_only: false,
    }
}

fn row(n: u64) -> ThreadRow {
    ThreadRow {
        thread: Ok(thread(n, None, "plain preview")),
        sort_value: Ok(KeysetCursorValue::Timestamp(at(n as i64))),
    }
}

#[test]
fn search_rejects_invalid_parameters() {
    for params in [
        SearchThreadsParams {
            search_term: String::new(),
            ..search_params()
        },
        SearchThreadsParams {
            page_size: 0,
            ..search_params()
        },
    ] {
        assert!(matches!(
            check_local_search(&params),
            Err(ThreadStoreError::InvalidRequest { .. })
        ));
    }
    assert!(matches!(
        decode_thread_list_cursor(Some("invalid"), ""),
        Err(ThreadStoreError::InvalidRequest { .. })
    ));
    assert_eq!(check_local_search(&search_params()), Ok(()));
    assert!(check_remote_search(&SearchThreadsParams {
        search_term: String::new(),
        ..search_params()
    })
    .is_err());
    assert_eq!(
        check_remote_search(&SearchThreadsParams {
            page_size: 0,
            ..search_params()
        }),
        Ok(())
    );
}

#[test]
fn local_search_keeps_the_page() {
    let page = ThreadPage {
        items: vec![
            thread(2, None, "needle preview"),
            thread(1, Some("needle title"), "plain preview"),
        ],
        next_cursor: Some("more".to_string()),
    };
    let found = local_search_results(page);
    assert_eq!(
        found
            .items
            .iter()
            .map(|item| (
                item.thread.thread_id.as_str().to_string(),
                item.thread.name.as_deref(),
                item.snippet.as_str()
            ))
            .collect::<Vec<_>>(),
        vec![
            (thread_id(2).as_str().to_string(), None, "needle preview"),
            (
                thread_id(1).as_str().to_string(),
                Some("needle title"),
                "plain preview"
            ),
        ]
    );
    assert_eq!(found.next_cursor.as_deref(), Some("more"));
}

#[test]
fn remote_search_ignores_case() {
    let page = ThreadPage {
        items: vec![
            thread(1, None, "a NEEDLE here"),
            thread(2, None, "nothing"),
            thread(3, Some("the Needle"), "plain"),
        ],
        next_cursor: Some("more".to_string()),
    };
    let found = remote_search_results(page, "nEEdle");
    assert_eq!(found.items.len(), 2);
    assert_eq!(found.items[0].snippet, "a NEEDLE here");
    assert_eq!(found.items[1].snippet, "plain");
    assert_eq!(found.next_cursor, None);
}

#[test]
fn pages_end_with_a_cursor() {
    let page = assemble_page(
        vec![row(5), row(4), row(3)],
        2,
        ThreadSortKey::RecencyAt,
        SortDirection::Desc,
    )
    .expect("page");
    assert_eq!(page.items.len(), 2);
    let cursor = page.next_cursor.expect("next page");
    match decode_thread_list_cursor(Some(&cursor), "").expect("cursor") {
        ThreadListCursor::Keyset(keyset) => {
            assert_eq!(keyset.thread_id, thread_id(4));
            assert_eq!(keyset.value, KeysetCursorValue::Timestamp(at(4)));
            assert_eq!(keyset.sort_key, ThreadSortKey::RecencyAt);
            assert_eq!(keyset.sort_direction, SortDirection::Desc);
        }
        other => panic!("unexpected cursor: {other:?}"),
    }
    let last = assemble_page(
        vec![row(5), row(4)],
        2,
        ThreadSortKey::RecencyAt,
        SortDirection::Desc,
    )
    .expect("page");
    assert_eq!(last.items.len(), 2);
    assert_eq!(last.next_cursor, None);
}

fn unreadable(message: &str) -> ThreadStoreError {
    ThreadStoreError::Internal {
        message: message.to_string(),
    }
}

#[test]
fn only_the_rows_of_a_page_are_read() {
    let bad_thread = |message: &str| ThreadRow {
        thread: Err(unreadable(message)),
        sort_value: Err(unreadable("value")),
    };
    let bad_value = |n: u64| ThreadRow {
        sort_value: Err(unreadable("value")),
        ..row(n)
    };
    let made = |rows: Vec<ThreadRow>| {
        assemble_page(rows, 2, ThreadSortKey::RecencyAt, SortDirection::Desc)
    };
    let page = made(vec![bad_value(5), row(4), bad_thread("unused")]).expect("page");
    assert_eq!(page.items.len(), 2);
    assert!(page.next_cursor.is_some());
    let page = made(vec![row(5), bad_value(4)]).expect("page");
    assert_eq!(page.next_cursor, None);
    assert_eq!(
        made(vec![row(5), bad_value(4), row(3)]).err(),
        Some(unreadable("value"))
    );
    assert_eq!(
        made(vec![row(5), bad_thread("thread"), row(3)]).err(),
        Some(unreadable("thread"))
    );
    assert_eq!(
        made(vec![bad_thread("first"), bad_thread("second")]).err(),
        Some(unreadable("first"))
    );
}

#[test]
fn instants_in_leap_seconds_are_read_back() {
    assert_eq!(Timestamp::from_parts(58, 1_500_000_000), None);
    assert_eq!(Timestamp::from_parts(-2, 1_500_000_000), None);
    assert_eq!(Timestamp::from_parts(59, 2_000_000_000), None);
    for (seconds, text) in [
        (59, "1970-01-01T00:00:60.500Z"),
        (-1, "1969-12-31T23:59:60.500Z"),
    ] {
        let instant = Timestamp::from_parts(seconds, 1_500_000_000).expect("leap second");
        assert_eq!(instant.text(), text);
        assert_eq!(Timestamp::parse(text), Some(instant));
    }
}

#[test]
fn cursors_are_read_back() {
    let cursor = encode_keyset_cursor(
        KeysetCursorValue::SectionPosition(-7),
        &thread_id(9),
        ThreadSortKey::SectionPosition,
        SortDirection::Asc,
    );
    let keyset = match decode_thread_list_cursor(Some(&cursor), "").expect("cursor") {
        ThreadListCursor::Keyset(keyset) => keyset,
        other => panic!("unexpected cursor: {other:?}"),
    };
    assert_eq!(keyset.value, KeysetCursorValue::SectionPosition(-7));
    assert_eq!(
        validate_keyset_cursor(&keyset, ThreadSortKey::SectionPosition, SortDirection::Asc),
        Ok(())
    );
    assert!(matches!(
        validate_keyset_cursor(&keyset, ThreadSortKey::SectionPosition, SortDirection::Desc),
        Err(ThreadStoreError::InvalidRequest { message })
            if message == "invalid cursor: cursor does not match the requested sort order"
    ));
}

#[test]
fn cursors_may_be_lists() {
    let id = thread_id(9);
    let own = encode_keyset_cursor(
        KeysetCursorValue::Timestamp(at(4)),
        &id,
        ThreadSortKey::RecencyAt,
        SortDirection::Desc,
    );
    let expected = decode_thread_list_cursor(Some(&own), "");
    assert!(expected.is_ok());
    let id = id.as_str();
    for other in [
        format!(
            r#"[1, "recencyAt", "desc", {{"kind": "timestamp", "value": "1970-01-01T00:00:04Z"}}, "{id}"]"#
        ),
        format!(r#"[1, "recencyAt", "desc", ["timestamp", "1970-01-01T00:00:04Z"], "{id}"]"#),
        format!(
            r#"[1, {{"recencyAt": null}}, {{"desc": null}}, {{"kind": {{"timestamp": null}}, "value": "1970-01-01T00:00:04Z"}}, "{id}"]"#
        ),
        format!(
            r#"{{"version": 1, "sortKey": {{"recencyAt": null}}, "sortDirection": "desc", "value": ["timestamp", "1970-01-01T00:00:04Z"], "threadId": "{id}"}}"#
        ),
    ] {
        assert_eq!(decode_thread_list_cursor(Some(&other), ""), expected);
    }
    for refused in [
        format!(r#"[1, "recencyAt", "desc", ["timestamp", "1970-01-01T00:00:04Z"]]"#),
        format!(r#"[1, "recencyAt", "desc", ["timestamp", "1970-01-01T00:00:04Z"], "{id}", 0]"#),
        format!(r#"[1, "recencyAt", "desc", ["timestamp"], "{id}"]"#),
        format!(
            r#"[1, "recencyAt", "desc", [{{"timestamp": null}}, "1970-01-01T00:00:04Z"], "{id}"]"#
        ),
        format!(
            r#"[1, {{"recencyAt": 1}}, "desc", ["timestamp", "1970-01-01T00:00:04Z"], "{id}"]"#
        ),
    ] {
        assert!(decode_thread_list_cursor(Some(&refused), "").is_err());
    }
}

/// The rows after a cursor, as the database gives them: one more than the page, at most.
fn rows_of_page(all: &[u64], cursor: &ThreadListCursor, page: usize) -> Vec<ThreadRow> {
    all.iter()
        .copied()
        .filter(|n| match cursor {
            ThreadListCursor::Start => true,
            ThreadListCursor::Keyset(keyset) => match keyset.value {
                KeysetCursorValue::Timestamp(t) => (*n as i64) < t.seconds(),
                _ => unreachable!(),
            },
            ThreadListCursor::LegacyOffset(_) => unreachable!(),
        })
        .take(page + 1)
        .map(row)
        .collect()
}

#[test]
fn pages_hold_every_thread_once() {
    let all = [9, 7, 6, 4, 3, 1];
    for page_len in 1..8 {
        let mut found: Vec<ThreadId> = vec![];
        let mut cursor: Option<String> = None;
        loop {
            let params = ListThreadsParams {
                page_size: page_len,
                cursor: cursor.clone(),
                ..list_params()
            };
            assert!(list_threads(&params, "w", "").is_ok());
            let after = decode_thread_list_cursor(cursor.as_deref(), "").expect("cursor");
            let page = assemble_page(
                rows_of_page(&all, &after, page_size(&params)),
                page_size(&params),
                params.sort_key,
                params.sort_direction,
            )
            .expect("page");
            assert!(page.items.len() <= page_len);
            found.extend(page.items.iter().map(|thread| thread.thread_id.duplicate()));
            cursor = page.next_cursor;
            if cursor.is_none() {
                break;
            }
            assert_eq!(page.items.len(), page_len);
        }
        let expected: Vec<ThreadId> = all.iter().map(|n| thread_id(*n)).collect();
        assert_eq!(found, expected);
    }
}

#[test]
fn cursors_of_the_wrong_kind_are_refused() {
    let cursor = encode_keyset_cursor(
        KeysetCursorValue::SectionPosition(1),
        &thread_id(9),
        ThreadSortKey::CreatedAt,
        SortDirection::Asc,
    );
    match decode_thread_list_cursor(Some(&cursor), "") {
        Ok(ThreadListCursor::Keyset(keyset)) => {
            assert!(
                validate_keyset_cursor(&keyset, ThreadSortKey::CreatedAt, SortDirection::Asc)
                    .is_err()
            );
        }
        other => panic!("unexpected cursor: {other:?}"),
    }
}

#[test]
fn old_cursors_are_offsets() {
    assert_eq!(decode_thread_list_cursor(None, ""), Ok(ThreadListCursor::Start));
    assert_eq!(
        decode_thread_list_cursor(Some(r#"{"offset": 12}"#), ""),
        Ok(ThreadListCursor::LegacyOffset(12))
    );
    assert_eq!(
        decode_thread_list_cursor(Some(r#"{"offset": 0, "version": 1}"#), ""),
        Ok(ThreadListCursor::LegacyOffset(0))
    );
}

#[test]
fn refused_cursors_are_told_why() {
    let reason = |cursor: &str| match decode_thread_list_cursor(
        Some(cursor),
        "missing field `version`",
    ) {
        Err(ThreadStoreError::InvalidRequest { message }) => message,
        other => panic!("unexpected cursor: {other:?}"),
    };
    assert_eq!(reason("{}"), "invalid cursor: missing field `version`");
    assert_eq!(
        reason(r#"{"offset": "12"}"#),
        "invalid cursor: invalid type: string \"12\", expected usize"
    );
    assert_eq!(
        reason(r#"{"offset": -1}"#),
        "invalid cursor: invalid value: integer `-1`, expected usize"
    );
    assert_eq!(
        reason(r#"{"offset": null}"#),
        "invalid cursor: invalid type: null, expected usize"
    );
    assert_eq!(
        reason(r#"{"offset": 1.5}"#),
        "invalid cursor: invalid type: floating point `1.5`, expected usize"
    );
    assert_eq!(
        reason("invalid"),
        "invalid cursor: expected value at line 1 column 1"
    );
}

fn query(params: &ListThreadsParams) -> (String, Vec<SqlValue>) {
    match list_threads(params, "w", "").expect("plan") {
        ListPlan::Query(query) => (query.sql, query.binds),
        ListPlan::EmptyPage => panic!("expected a query"),
    }
}

#[test]
fn list_query_starts_with_the_workspace() {
    let (sql, binds) = query(&list_params());
    assert!(sql.starts_with(
        "SELECT stored_thread_json, recency_at AS cursor_sort_value FROM threads \
         WHERE workspace_id = $1 AND archived_at IS NULL"
    ));
    assert_eq!(binds[0], SqlValue::Text("w".to_string()));
    assert_eq!(binds.last(), Some(&SqlValue::Integer(3)));
    assert_eq!(page_size(&list_params()), 2);
}

#[test]
fn list_query_carries_every_filter() {
    let params = ListThreadsParams {
        allowed_sources: vec![source("cli")],
        model_providers: Some(vec!["openai".to_string()]),
        cwd_filters: Some(vec!["/tmp".to_string()]),
        section: Some(None),
        project_id: Some(Some("p".to_string())),
        archived: true,
        search_term: Some("needle".to_string()),
        relation_filter: Some(ThreadRelationFilter::DirectChildrenOf(thread_id(1))),
        ..list_params()
    };
    let (sql, binds) = query(&params);
    for part in [
        " AND archived_at IS NOT NULL",
        " AND source = ANY($2)",
        " AND model_provider = ANY($3)",
        " AND cwd = ANY($4)",
        " AND stored_thread_json #>> '{section,id}' IS NULL",
        " AND stored_thread_json ->> 'project_id' = $5",
        " AND (preview ILIKE $6",
        " AND parent_thread_id = ",
    ] {
        assert!(sql.contains(part), "{part} is missing in {sql}");
    }
    assert!(binds.contains(&SqlValue::Text("%needle%".to_string())));
}

#[test]
fn list_query_goes_on_after_a_cursor() {
    let cursor = encode_keyset_cursor(
        KeysetCursorValue::Timestamp(at(4)),
        &thread_id(4),
        ThreadSortKey::RecencyAt,
        SortDirection::Desc,
    );
    let (_, binds) = query(&ListThreadsParams {
        cursor: Some(cursor.clone()),
        ..list_params()
    });
    assert!(binds.contains(&SqlValue::Time(at(4))));
    assert!(list_threads(
        &ListThreadsParams {
            cursor: Some(cursor),
            sort_direction: SortDirection::Asc,
            ..list_params()
        },
        "w",
        ""
    )
    .is_err());
}

#[test]
fn searches_list_what_they_search() {
    let params = search_list_params(search_params());
    assert_eq!(params.page_size, 2);
    assert_eq!(params.search_term.as_deref(), Some("needle"));
    assert_eq!(params.allowed_sources.len(), 1);
    assert!(params.use_state_db_only);
}
