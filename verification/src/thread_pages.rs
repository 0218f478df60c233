//! The pages of a list of threads, one after the other. What the database does is stated here in
//! words of its own: which rows stand after a cursor, and how many of them a query gives.

use vstd::prelude::*;

use crate::text::{text_less, text_order_is_total};
use crate::thread_list::{
    handed_out, list_fault, page_size_of, value_fits_key, CursorView, KeysetView,
    ListThreadsParams, SortDirection, SortValueView,
};
use crate::thread_search::{page_len, ThreadRow};
use crate::time::is_later;

verus! {

/// What a row is ordered by: the value in the column, and then the identifier.
pub struct RowKey {
    pub value: SortValueView,
    pub id: Seq<char>,
}

/// What a row is ordered by.
pub open spec fn key_of(row: ThreadRow) -> RowKey {
    RowKey { value: row.sort_value->Ok_0@, id: row.thread->Ok_0.thread_id@ }
}

/// One value is less than another of its kind.
pub open spec fn value_less(a: SortValueView, b: SortValueView) -> bool {
    match (a, b) {
        (SortValueView::Timestamp(a), SortValueView::Timestamp(b)) => is_later(b, a),
        (SortValueView::SectionPosition(a), SortValueView::SectionPosition(b)) => a < b,
        _ => false,
    }
}

/// A row comes after another: its value lies beyond the other's in the direction, or is the same
/// and its identifier lies beyond the other's.
pub open spec fn lies_beyond(row: RowKey, other: RowKey, direction: SortDirection) -> bool {
    match direction {
        SortDirection::Asc => value_less(other.value, row.value) || (row.value == other.value
            && text_less(other.id, row.id)),
        SortDirection::Desc => value_less(row.value, other.value) || (row.value == other.value
            && text_less(row.id, other.id)),
    }
}

/// A row meets the condition that a query gets from a cursor after a thread.
pub open spec fn admits(cursor: KeysetView, row: ThreadRow, direction: SortDirection) -> bool {
    lies_beyond(key_of(row), RowKey { value: cursor.value, id: cursor.thread_id }, direction)
}

/// The rows that stand after a cursor, out of all that a request matches.
pub open spec fn rows_after(
    rows: Seq<ThreadRow>,
    cursor: CursorView,
    direction: SortDirection,
) -> Seq<ThreadRow> {
    match cursor {
        CursorView::Start => rows,
        CursorView::LegacyOffset(n) => if n <= rows.len() {
            rows.skip(n as int)
        } else {
            Seq::empty()
        },
        CursorView::Keyset(c) => rows.filter(|row: ThreadRow| admits(c, row, direction)),
    }
}

/// The rows that the query for a page gives: those after the cursor, and no more of them than one
/// beyond the page.
pub open spec fn query_rows(
    rows: Seq<ThreadRow>,
    p: ListThreadsParams,
    cursor: CursorView,
) -> Seq<ThreadRow> {
    let after = rows_after(rows, cursor, p.sort_direction);
    if after.len() > page_size_of(p) + 1 {
        after.take(page_size_of(p) + 1)
    } else {
        after
    }
}

/// The cursor after a row.
pub open spec fn cursor_after(row: ThreadRow, p: ListThreadsParams) -> CursorView {
    CursorView::Keyset(
        handed_out(key_of(row).value, key_of(row).id, p.sort_key, p.sort_direction),
    )
}

/// The rows on the page that is made of the rows of its query, and the cursor at its end.
pub open spec fn page_of(
    rows: Seq<ThreadRow>,
    p: ListThreadsParams,
    cursor: CursorView,
) -> (Seq<ThreadRow>, Option<CursorView>) {
    let found = query_rows(rows, p, cursor);
    (
        found.take(page_len(found, page_size_of(p))),
        if found.len() > page_size_of(p) {
            Some(cursor_after(found[page_size_of(p) - 1], p))
        } else {
            None
        },
    )
}

/// The rows of the first so many pages, each asked for with the cursor at the end of the one
/// before, and the cursor at the end of the last.
pub open spec fn walk(rows: Seq<ThreadRow>, p: ListThreadsParams, pages: nat) -> (
    Seq<ThreadRow>,
    Option<CursorView>,
)
    decreases pages,
{
    if pages == 0 {
        (Seq::empty(), Some(CursorView::Start))
    } else {
        let (items, next) = walk(rows, p, (pages - 1) as nat);
        match next {
            Some(cursor) => {
                let (more, next) = page_of(rows, p, cursor);
                (items + more, next)
            },
            None => (items, None),
        }
    }
}

/// All that a request matches, in its order: every row can be read, comes after those before it,
/// and has a value of the kind that the threads are ordered by.
pub open spec fn listed(rows: Seq<ThreadRow>, p: ListThreadsParams) -> bool {
    &&& forall|i: int|
        0 <= i < rows.len() ==> (#[trigger] rows[i]).thread is Ok && rows[i].sort_value is Ok
            && value_fits_key(p.sort_key, key_of(rows[i]).value)
    &&& forall|i: int, j: int|
        0 <= i < j < rows.len() ==> lies_beyond(
            key_of(#[trigger] rows[j]),
            key_of(#[trigger] rows[i]),
            p.sort_direction,
        )
}

/// The cursor at which the rows from a place on are found.
pub open spec fn cursor_at(rows: Seq<ThreadRow>, p: ListThreadsParams, place: int) -> CursorView {
    if place == 0 {
        CursorView::Start
    } else {
        cursor_after(rows[place - 1], p)
    }
}

proof fn lemma_one_way(a: RowKey, b: RowKey, direction: SortDirection)
    ensures
        !(lies_beyond(a, b, direction) && lies_beyond(b, a, direction)),
        !lies_beyond(a, a, direction),
{
    text_order_is_total(a.id, b.id);
    text_order_is_total(a.id, a.id);
}

proof fn lemma_filter_is_skip(
    rows: Seq<ThreadRow>,
    pred: spec_fn(ThreadRow) -> bool,
    place: int,
)
    requires
        0 <= place <= rows.len(),
        forall|i: int| 0 <= i < rows.len() ==> pred(#[trigger] rows[i]) == (i >= place),
    ensures
        rows.filter(pred) == rows.skip(place),
    decreases rows.len(),
{
    reveal(Seq::filter);
    if rows.len() > 0 {
        let before = rows.drop_last();
        assert forall|i: int| 0 <= i < before.len() implies pred(#[trigger] before[i]) == (i
            >= place) by {
            assert(before[i] == rows[i]);
        }
        if place < rows.len() {
            lemma_filter_is_skip(before, pred, place);
            assert(rows.last() == rows[rows.len() - 1]);
            assert(before.skip(place).push(rows.last()) =~= rows.skip(place));
        } else {
            lemma_filter_is_skip(before, pred, place - 1);
            assert(rows.last() == rows[rows.len() - 1]);
            assert(before.skip(place - 1) =~= rows.skip(place));
        }
    } else {
        assert(rows.skip(place) =~= rows);
    }
}

proof fn lemma_rows_after(rows: Seq<ThreadRow>, p: ListThreadsParams, place: int)
    requires
        listed(rows, p),
        0 <= place <= rows.len(),
    ensures
        rows_after(rows, cursor_at(rows, p, place), p.sort_direction) == rows.skip(place),
{
    if place == 0 {
        assert(rows.skip(0) =~= rows);
    } else {
        let c = cursor_after(rows[place - 1], p)->Keyset_0;
        let pred = |row: ThreadRow| admits(c, row, p.sort_direction);
        assert forall|i: int| 0 <= i < rows.len() implies pred(#[trigger] rows[i]) == (i
            >= place) by {
            lemma_one_way(key_of(rows[i]), key_of(rows[place - 1]), p.sort_direction);
        }
        lemma_filter_is_skip(rows, pred, place);
    }
}

/// A page that begins at a place of the list holds the rows from there on, as many as it has room
/// for. It ends with a cursor exactly where rows remain, and with that cursor, which is accepted
/// for the same request, the next page begins at the first of them.
pub proof fn pages_follow_each_other(rows: Seq<ThreadRow>, p: ListThreadsParams, place: int)
    requires
        listed(rows, p),
        0 <= place <= rows.len(),
    ensures
        ({
            let (items, next) = page_of(rows, p, cursor_at(rows, p, place));
            let end = if place + page_size_of(p) < rows.len() {
                place + page_size_of(p)
            } else {
                rows.len() as int
            };
            &&& items == rows.subrange(place, end)
            &&& next == if end < rows.len() {
                Some(cursor_at(rows, p, end))
            } else {
                None
            }
            &&& next matches Some(cursor) ==> list_fault(p, Ok(cursor)) is None
        }),
{
    lemma_rows_after(rows, p, place);
    let n = page_size_of(p);
    let found = query_rows(rows, p, cursor_at(rows, p, place));
    let (items, next) = page_of(rows, p, cursor_at(rows, p, place));
    if place + n < rows.len() {
        assert(found[n - 1] == rows[place + n - 1]);
        assert(items =~= rows.subrange(place, place + n));
    } else {
        assert(items =~= rows.subrange(place, rows.len() as int));
    }
}

/// Going from page to page gives the threads of the list in their order, none twice: after any
/// number of pages, those at its start. As long as a page ends with a cursor, all pages so far
/// are full and threads remain; once one does not, every thread has been given, which is so after
/// as many pages as there are threads, and one.
pub proof fn pages_hold_every_thread_once(
    rows: Seq<ThreadRow>,
    p: ListThreadsParams,
    pages: nat,
)
    requires
        listed(rows, p),
    ensures
        ({
            let (items, next) = walk(rows, p, pages);
            &&& items == rows.take(items.len() as int)
            &&& next is None ==> items == rows
            &&& next is Some ==> items.len() == pages * page_size_of(p) && next == Some(
                cursor_at(rows, p, items.len() as int),
            ) && (pages > 0 ==> items.len() < rows.len())
            &&& pages > rows.len() ==> next is None
        }),
    decreases pages,
{
    if pages == 0 {
        assert(rows.take(0) =~= Seq::empty());
    } else {
        let n = page_size_of(p);
        let before = (pages - 1) as nat;
        pages_hold_every_thread_once(rows, p, before);
        let (items, next) = walk(rows, p, before);
        assert(pages * n == before * n + n) by (nonlinear_arith)
            requires
                pages == before + 1,
        ;
        assert(pages * n >= pages) by (nonlinear_arith)
            requires
                n >= 1,
        ;
        if next is Some {
            let place = items.len() as int;
            assert(place <= rows.len());
            pages_follow_each_other(rows, p, place);
            let (more, after) = page_of(rows, p, next->0);
            assert(walk(rows, p, pages) == (items + more, after));
            assert(items + more =~= rows.take(place + more.len()));
            if place + n < rows.len() {
                assert(more.len() == n);
                assert(after == Some(cursor_at(rows, p, place + n)));
            } else {
                assert(after is None);
                assert(place + more.len() == rows.len());
                assert(rows.take(rows.len() as int) =~= rows);
            }
        } else {
            assert(walk(rows, p, pages) == (items, None::<CursorView>));
        }
    }
}

} // verus!
