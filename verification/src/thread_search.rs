//! The pages of threads that clients get, and the search for a term in them.

use vstd::prelude::*;

use crate::json::json_text;
use crate::protocol::SessionSource;
use crate::store_error::{invalid_request, StoreErrorView, ThreadStoreError};
use crate::text::{self, contains_text};
use crate::thread_list::{
    decodes_to, encode_keyset_cursor, handed_out, keyset_view, value_is_common, KeysetCursorValue,
    ListThreadsParams, SortDirection, ThreadSortKey,
};
use crate::thread_records::{normalize_stored_thread, StoredThread};
use crate::thread_store::ThreadHistoryMode;

verus! {

// ---------------------------------------------------------------------------------------------
// Pages
// ---------------------------------------------------------------------------------------------

/// A row of the query for a page: what could be read of it.
#[derive(Debug)]
pub struct ThreadRow {
    pub thread: Result<StoredThread, ThreadStoreError>,
    /// The value by which the threads are ordered.
    pub sort_value: Result<KeysetCursorValue, ThreadStoreError>,
}

/// A page of threads.
#[derive(Debug)]
pub struct ThreadPage {
    pub items: Vec<StoredThread>,
    pub next_cursor: Option<String>,
}

/// A thread in the form in which this store works.
pub open spec fn normalized(thread: StoredThread) -> StoredThread {
    StoredThread { history_mode: ThreadHistoryMode::Legacy, ..thread }
}

/// The number of threads on a page.
pub open spec fn page_len(rows: Seq<ThreadRow>, page_size: int) -> int {
    if rows.len() > page_size {
        page_size
    } else {
        rows.len() as int
    }
}

/// What is wrong with the first of `n` rows whose thread cannot be read.
pub open spec fn row_fault(rows: Seq<ThreadRow>, n: int) -> Option<StoreErrorView>
    decreases n,
{
    if n <= 0 {
        None
    } else {
        match row_fault(rows, n - 1) {
            Some(e) => Some(e),
            None => match rows[n - 1].thread {
                Ok(_) => None,
                Err(e) => Some(e@),
            },
        }
    }
}

/// What is wrong with the rows of a page: a thread on it cannot be read, or the value of its last
/// thread, where another page follows.
pub open spec fn page_fault(rows: Seq<ThreadRow>, page_size: int) -> Option<StoreErrorView> {
    match row_fault(rows, page_len(rows, page_size)) {
        Some(e) => Some(e),
        None => if rows.len() > page_size {
            match rows[page_size - 1].sort_value {
                Ok(_) => None,
                Err(e) => Some(e@),
            }
        } else {
            None
        },
    }
}

/// The page is the one of the rows.
pub open spec fn page_is(
    page: ThreadPage,
    rows: Seq<ThreadRow>,
    page_size: int,
    sort_key: ThreadSortKey,
    sort_direction: SortDirection,
) -> bool {
    &&& page.items@.len() == page_len(rows, page_size)
    &&& forall|i: int|
        0 <= i < page.items@.len() ==> #[trigger] page.items@[i] == normalized(
            rows[i].thread->Ok_0,
        )
    &&& match page.next_cursor {
        Some(cursor) => rows.len() > page_size && cursor@ == json_text(
            keyset_view(
                handed_out(
                    rows[page_size - 1].sort_value->Ok_0@,
                    rows[page_size - 1].thread->Ok_0.thread_id@,
                    sort_key,
                    sort_direction,
                ),
            ),
        ),
        None => rows.len() <= page_size,
    }
}

/// Makes a page of the rows of its query. Where there are more rows than the page holds, the page
/// ends with a cursor after its last thread, which is read back as it was where its value is a
/// position or an instant of the years of four digits.
pub fn assemble_page(
    rows: Vec<ThreadRow>,
    page_size: usize,
    sort_key: ThreadSortKey,
    sort_direction: SortDirection,
) -> (r: Result<ThreadPage, ThreadStoreError>)
    requires
        page_size >= 1,
    ensures
        match r {
            Ok(page) => {
                let last = handed_out(
                    rows@[page_size - 1].sort_value->Ok_0@,
                    rows@[page_size - 1].thread->Ok_0.thread_id@,
                    sort_key,
                    sort_direction,
                );
                &&& page_fault(rows@, page_size as int) is None
                &&& page_is(page, rows@, page_size as int, sort_key, sort_direction)
                &&& page.next_cursor is Some && value_is_common(last.value) ==> decodes_to(
                    page.next_cursor->0@,
                    last,
                )
            },
            Err(e) => page_fault(rows@, page_size as int) == Some(e@),
        },
{
    let ghost all = rows@;
    let another = rows.len() > page_size;
    let count: usize = if another {
        page_size
    } else {
        rows.len()
    };
    let mut rest = rows;
    let mut items: Vec<StoredThread> = Vec::new();
    let mut next_cursor: Option<String> = None;
    while items.len() < count
        invariant
            all == rows@,
            items@.len() <= count,
            count == page_len(all, page_size as int),
            another == (all.len() > page_size),
            page_size >= 1,
            rest@ == all.skip(items@.len() as int),
            row_fault(all, items@.len() as int) is None,
            forall|i: int|
                0 <= i < items@.len() ==> #[trigger] items@[i] == normalized(all[i].thread->Ok_0),
            next_cursor is Some ==> another && items@.len() == count,
            another && items@.len() == count ==> page_fault(all, page_size as int) is None
                && next_cursor is Some && next_cursor->0@ == json_text(
                keyset_view(
                    handed_out(
                        all[page_size - 1].sort_value->Ok_0@,
                        all[page_size - 1].thread->Ok_0.thread_id@,
                        sort_key,
                        sort_direction,
                    ),
                ),
            ),
            next_cursor is Some && value_is_common(all[page_size - 1].sort_value->Ok_0@)
                ==> decodes_to(
                next_cursor->0@,
                handed_out(
                    all[page_size - 1].sort_value->Ok_0@,
                    all[page_size - 1].thread->Ok_0.thread_id@,
                    sort_key,
                    sort_direction,
                ),
            ),
        decreases count - items@.len(),
    {
        let row = rest.remove(0);
        let ghost n = items@.len() as int;
        assert(row == all[n]);
        assert(rest@ =~= all.skip(n + 1));
        let thread = match row.thread {
            Ok(thread) => thread,
            Err(e) => {
                proof {
                    first_fault_is_told(all, n + 1, count as int);
                }
                return Err(e);
            },
        };
        if another && items.len() + 1 == count {
            match row.sort_value {
                Ok(value) => {
                    next_cursor =
                    Some(
                        encode_keyset_cursor(value, &thread.thread_id, sort_key, sort_direction),
                    );
                },
                Err(e) => return Err(e),
            }
        }
        items.push(normalize_stored_thread(thread));
    }
    Ok(ThreadPage { items, next_cursor })
}

proof fn first_fault_is_told(rows: Seq<ThreadRow>, n: int, m: int)
    requires
        0 <= n <= m,
        row_fault(rows, n) is Some,
    ensures
        row_fault(rows, m) == row_fault(rows, n),
    decreases m - n,
{
    if n < m {
        first_fault_is_told(rows, n, m - 1);
    }
}

// ---------------------------------------------------------------------------------------------
// Search
// ---------------------------------------------------------------------------------------------

/// What a client searches for.
#[derive(Debug)]
pub struct SearchThreadsParams {
    pub page_size: usize,
    pub cursor: Option<String>,
    pub sort_key: ThreadSortKey,
    pub sort_direction: SortDirection,
    pub allowed_sources: Vec<SessionSource>,
    pub archived: bool,
    pub search_term: String,
}

/// A thread that was found.
#[derive(Debug)]
pub struct StoredThreadSearchResult {
    pub snippet: String,
    pub thread: StoredThread,
}

/// A page of threads that were found.
#[derive(Debug)]
pub struct ThreadSearchPage {
    pub items: Vec<StoredThreadSearchResult>,
    pub next_cursor: Option<String>,
}

/// Refuses a search for nothing in the remote store.
pub fn check_remote_search(params: &SearchThreadsParams) -> (r: Result<(), ThreadStoreError>)
    ensures
        match r {
            Ok(_) => params.search_term@.len() > 0,
            Err(e) => params.search_term@.len() == 0 && e@ == StoreErrorView::InvalidRequest(
                "thread/search requires search_term"@,
            ),
        },
{
    if params.search_term.as_str().is_empty() {
        return Err(invalid_request("thread/search requires search_term"));
    }
    Ok(())
}

/// Refuses a search for nothing, or for a page without room, in the local store.
pub fn check_local_search(params: &SearchThreadsParams) -> (r: Result<(), ThreadStoreError>)
    ensures
        match r {
            Ok(_) => params.search_term@.len() > 0 && params.page_size > 0,
            Err(e) => (params.search_term@.len() == 0 || params.page_size == 0) && e@
                == StoreErrorView::InvalidRequest(
                "thread/search requires search_term and page_size greater than zero"@,
            ),
        },
{
    if params.search_term.as_str().is_empty() || params.page_size == 0 {
        return Err(
            invalid_request("thread/search requires search_term and page_size greater than zero"),
        );
    }
    Ok(())
}

/// The list in which a search looks.
pub fn search_list_params(params: SearchThreadsParams) -> (r: ListThreadsParams)
    ensures
        r == (ListThreadsParams {
            page_size: params.page_size,
            cursor: params.cursor,
            sort_key: params.sort_key,
            sort_direction: params.sort_direction,
            allowed_sources: params.allowed_sources,
            model_providers: None,
            cwd_filters: None,
            section: None,
            project_id: None,
            archived: params.archived,
            search_term: Some(params.search_term),
            relation_filter: None,
            use_state_db_only: true,
        }),
{
    ListThreadsParams {
        page_size: params.page_size,
        cursor: params.cursor,
        sort_key: params.sort_key,
        sort_direction: params.sort_direction,
        allowed_sources: params.allowed_sources,
        model_providers: None,
        cwd_filters: None,
        section: None,
        project_id: None,
        archived: params.archived,
        search_term: Some(params.search_term),
        relation_filter: None,
        use_state_db_only: true,
    }
}

/// The text that `str::to_lowercase` gives for a text.
pub uninterp spec fn lower_case(text: Seq<char>) -> Seq<char>;

/// Wraps `str::to_lowercase`, which depends on the text alone.
#[verifier::external_body]
fn to_lowercase(value: &str) -> (r: String)
    ensures
        r@ == lower_case(value@),
{
    value.to_lowercase()
}

/// A term in lower case occurs in a thread's preview or name.
pub open spec fn mentions(thread: StoredThread, needle: Seq<char>) -> bool {
    contains_text(lower_case(thread.preview@), needle) || (thread.name matches Some(name)
        && contains_text(lower_case(name@), needle))
}

/// The threads that mention a term, in order.
pub open spec fn found_threads(threads: Seq<StoredThread>, needle: Seq<char>) -> Seq<StoredThread>
    decreases threads.len(),
{
    if threads.len() == 0 {
        Seq::empty()
    } else if mentions(threads.last(), needle) {
        found_threads(threads.drop_last(), needle).push(threads.last())
    } else {
        found_threads(threads.drop_last(), needle)
    }
}

/// Each result is a thread with its preview.
pub open spec fn results_are(
    results: Seq<StoredThreadSearchResult>,
    threads: Seq<StoredThread>,
) -> bool {
    &&& results.len() == threads.len()
    &&& forall|i: int|
        0 <= i < threads.len() ==> (#[trigger] results[i]).thread == threads[i]
            && results[i].snippet@ == threads[i].preview@
}

fn thread_mentions(thread: &StoredThread, needle: &str) -> (r: bool)
    ensures
        r == mentions(*thread, needle@),
{
    if text::contains(to_lowercase(thread.preview.as_str()).as_str(), needle) {
        return true;
    }
    match &thread.name {
        Some(name) => text::contains(to_lowercase(name.as_str()).as_str(), needle),
        None => false,
    }
}

/// The results of a search in a page of the remote store: the threads whose preview or name
/// mentions the term, whatever the case of its letters.
pub fn remote_search_results(page: ThreadPage, search_term: &str) -> (r: ThreadSearchPage)
    ensures
        results_are(r.items@, found_threads(page.items@, lower_case(search_term@))),
        r.next_cursor is None,
{
    let needle = to_lowercase(search_term);
    let ghost all = page.items@;
    let mut rest = page.items;
    let mut items: Vec<StoredThreadSearchResult> = Vec::new();
    let ghost mut done: int = 0;
    assert(all.skip(0) =~= all);
    while rest.len() > 0
        invariant
            0 <= done <= all.len(),
            rest@ == all.skip(done),
            results_are(items@, found_threads(all.take(done), needle@)),
        decreases rest@.len(),
    {
        let thread = rest.remove(0);
        proof {
            assert(thread == all[done]);
            assert(all.take(done + 1).drop_last() =~= all.take(done));
            assert(rest@ =~= all.skip(done + 1));
            done = done + 1;
        }
        if thread_mentions(&thread, needle.as_str()) {
            items.push(StoredThreadSearchResult { snippet: thread.preview.clone(), thread });
        }
    }
    assert(all.take(done) =~= all);
    ThreadSearchPage { items, next_cursor: None }
}

/// The results of a search in a page of the local store, which has found the threads already.
pub fn local_search_results(page: ThreadPage) -> (r: ThreadSearchPage)
    ensures
        results_are(r.items@, page.items@),
        r.next_cursor == page.next_cursor,
{
    let ghost all = page.items@;
    let mut rest = page.items;
    let mut items: Vec<StoredThreadSearchResult> = Vec::new();
    while rest.len() > 0
        invariant
            items@.len() <= all.len(),
            rest@ == all.skip(items@.len() as int),
            results_are(items@, all.take(items@.len() as int)),
        decreases rest@.len(),
    {
        let thread = rest.remove(0);
        assert(rest@ =~= all.skip(items@.len() as int + 1));
        items.push(StoredThreadSearchResult { snippet: thread.preview.clone(), thread });
    }
    assert(all.take(items@.len() as int) =~= all);
    ThreadSearchPage { items, next_cursor: page.next_cursor }
}

// ---------------------------------------------------------------------------------------------
// Laws
// ---------------------------------------------------------------------------------------------

/// Every thread that is found is one of the page and mentions the term, and every thread of the
/// page that mentions the term is found.
pub proof fn search_finds_what_mentions_the_term(
    threads: Seq<StoredThread>,
    needle: Seq<char>,
    thread: StoredThread,
)
    ensures
        found_threads(threads, needle).contains(thread) <==> threads.contains(thread) && mentions(
            thread,
            needle,
        ),
    decreases threads.len(),
{
    if threads.len() > 0 {
        let rest = threads.drop_last();
        let found = found_threads(rest, needle);
        search_finds_what_mentions_the_term(rest, needle, thread);
        if threads.contains(thread) {
            let i = choose|i: int| 0 <= i < threads.len() && threads[i] == thread;
            if i < rest.len() {
                assert(rest[i] == thread);
            }
        }
        if rest.contains(thread) {
            let i = choose|i: int| 0 <= i < rest.len() && rest[i] == thread;
            assert(threads[i] == thread);
        }
        if mentions(threads.last(), needle) {
            let more = found.push(threads.last());
            assert(more[found.len() as int] == threads.last());
            if found.contains(thread) {
                let i = choose|i: int| 0 <= i < found.len() && found[i] == thread;
                assert(more[i] == thread);
            }
            if more.contains(thread) {
                let i = choose|i: int| 0 <= i < more.len() && more[i] == thread;
                if i < found.len() {
                    assert(found[i] == thread);
                }
            }
            assert(threads[threads.len() - 1] == threads.last());
        }
    }
}

/// A page holds the first rows, as many as it has room for. It is refused for the first of them
/// whose thread cannot be read; and where more rows follow, for the value of its last.
pub proof fn pages_are_refused_for_their_rows(rows: Seq<ThreadRow>, page_size: int, i: int)
    requires
        page_size >= 1,
    ensures
        rows.len() <= page_size ==> page_len(rows, page_size) == rows.len(),
        rows.len() > page_size ==> page_len(rows, page_size) == page_size,
        page_fault(rows, page_size) is None && 0 <= i < page_len(rows, page_size)
            ==> rows[i].thread is Ok,
        page_fault(rows, page_size) is None && rows.len() > page_size ==> rows[page_size
            - 1].sort_value is Ok,
        0 <= i < page_len(rows, page_size) && rows[i].thread is Err && (forall|j: int|
            0 <= j < i ==> (#[trigger] rows[j]).thread is Ok) ==> page_fault(rows, page_size)
            == Some(rows[i].thread->Err_0@),
        (forall|j: int| 0 <= j < page_len(rows, page_size) ==> (#[trigger] rows[j]).thread is Ok)
            && rows.len() > page_size && rows[page_size - 1].sort_value is Err ==> page_fault(
            rows,
            page_size,
        ) == Some(rows[page_size - 1].sort_value->Err_0@),
        (forall|j: int| 0 <= j < page_len(rows, page_size) ==> (#[trigger] rows[j]).thread is Ok)
            && (rows.len() <= page_size || rows[page_size - 1].sort_value is Ok) ==> page_fault(
            rows,
            page_size,
        ) is None,
{
    let n = page_len(rows, page_size);
    lemma_fault_free(rows, n);
    if 0 <= i < n {
        lemma_fault_free(rows, i);
        if rows[i].thread is Err && row_fault(rows, i) is None {
            assert(row_fault(rows, i + 1) == Some(rows[i].thread->Err_0@));
            first_fault_is_told(rows, i + 1, n);
        }
    }
}

proof fn lemma_fault_free(rows: Seq<ThreadRow>, n: int)
    ensures
        row_fault(rows, n) is None <==> forall|j: int|
            0 <= j < n ==> (#[trigger] rows[j]).thread is Ok,
    decreases n,
{
    if n > 0 {
        lemma_fault_free(rows, n - 1);
    }
}

/// The threads of a page are those of its rows, in order, but for how their history is kept. The
/// page ends with a cursor after its last thread where more rows follow.
pub proof fn pages_hold_their_rows(
    page: ThreadPage,
    rows: Seq<ThreadRow>,
    page_size: int,
    sort_key: ThreadSortKey,
    sort_direction: SortDirection,
    i: int,
)
    requires
        page_is(page, rows, page_size, sort_key, sort_direction),
    ensures
        page.next_cursor is Some <==> rows.len() > page_size,
        rows.len() <= page_size ==> page.items@.len() == rows.len(),
        rows.len() > page_size ==> page.items@.len() == page_size,
        0 <= i < page.items@.len() ==> {
            let row = rows[i].thread->Ok_0;
            &&& page.items@[i].history_mode is Legacy
            &&& page.items@[i] == (StoredThread { history_mode: ThreadHistoryMode::Legacy, ..row })
        },
        page.next_cursor is Some ==> page.next_cursor->0@ == json_text(
            keyset_view(
                handed_out(
                    rows[page_size - 1].sort_value->Ok_0@,
                    rows[page_size - 1].thread->Ok_0.thread_id@,
                    sort_key,
                    sort_direction,
                ),
            ),
        ),
{
}

/// A thread mentions a term where its preview or its name does, in small letters; nothing else of
/// it counts.
pub proof fn previews_and_names_are_searched(
    thread: StoredThread,
    needle: Seq<char>,
    before: Seq<char>,
    behind: Seq<char>,
)
    ensures
        lower_case(thread.preview@) == before + needle + behind ==> mentions(thread, needle),
        thread.name is Some && lower_case(thread.name->0@) == before + needle + behind ==> mentions(
            thread,
            needle,
        ),
        mentions(thread, needle) && thread.name is None ==> contains_text(
            lower_case(thread.preview@),
            needle,
        ),
        mentions(thread, needle) && !contains_text(lower_case(thread.preview@), needle)
            ==> thread.name is Some && contains_text(lower_case(thread.name->0@), needle),
{
    let n = before.len() as int;
    let text = before + needle + behind;
    assert(text.subrange(n, n + needle.len()) =~= needle);
}

/// The threads that are found stand in the order in which they were searched.
pub proof fn threads_are_found_in_order(
    threads: Seq<StoredThread>,
    thread: StoredThread,
    needle: Seq<char>,
)
    ensures
        found_threads(Seq::empty(), needle).len() == 0,
        mentions(thread, needle) ==> found_threads(threads.push(thread), needle) == found_threads(
            threads,
            needle,
        ).push(thread),
        !mentions(thread, needle) ==> found_threads(threads.push(thread), needle) == found_threads(
            threads,
            needle,
        ),
{
    assert(threads.push(thread).drop_last() =~= threads);
}

/// Each result is a thread that was found, in order, and shows its preview.
pub proof fn results_show_their_threads(
    results: Seq<StoredThreadSearchResult>,
    threads: Seq<StoredThread>,
    i: int,
)
    requires
        results_are(results, threads),
    ensures
        results.len() == threads.len(),
        0 <= i < threads.len() ==> results[i].thread == threads[i] && results[i].snippet@
            == threads[i].preview@,
{
}

} // verus!
