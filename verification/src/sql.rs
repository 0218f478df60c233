//! Queries, put together out of text and values.

use vstd::prelude::*;

use crate::text::{self, decimal, texts};
use crate::time::{TimeView, Timestamp};

verus! {

/// A value that is sent along with a query.
#[derive(Debug, PartialEq, Eq)]
pub enum SqlValue {
    Text(String),
    Texts(Vec<String>),
    Integer(i64),
    Time(Timestamp),
}

/// What a value says.
pub enum SqlValueView {
    Text(Seq<char>),
    Texts(Seq<Seq<char>>),
    Integer(i64),
    Time(TimeView),
}

impl View for SqlValue {
    type V = SqlValueView;

    open spec fn view(&self) -> SqlValueView {
        match *self {
            SqlValue::Text(s) => SqlValueView::Text(s@),
            SqlValue::Texts(v) => SqlValueView::Texts(texts(v@)),
            SqlValue::Integer(n) => SqlValueView::Integer(n),
            SqlValue::Time(t) => SqlValueView::Time(t@),
        }
    }
}

/// A query, with a numbered place for each value that is sent along.
#[derive(Debug, PartialEq, Eq)]
pub struct SqlQuery {
    pub sql: String,
    pub binds: Vec<SqlValue>,
}

/// What a query says.
#[verifier::ext_equal]
pub struct QueryView {
    pub sql: Seq<char>,
    pub binds: Seq<SqlValueView>,
}

impl View for SqlQuery {
    type V = QueryView;

    open spec fn view(&self) -> QueryView {
        QueryView { sql: self.sql@, binds: self.binds@.map_values(|v: SqlValue| v@) }
    }
}

impl QueryView {
    /// The query with more text.
    pub open spec fn text(self, sql: Seq<char>) -> QueryView {
        QueryView { sql: self.sql + sql, binds: self.binds }
    }

    /// The query with a place for one more value.
    pub open spec fn bind(self, value: SqlValueView) -> QueryView {
        QueryView {
            sql: self.sql + ("$"@ + decimal((self.binds.len() + 1) as int)),
            binds: self.binds.push(value),
        }
    }
}

impl SqlQuery {
    /// A query that begins with some text.
    pub fn new(sql: &str) -> (r: SqlQuery)
        ensures
            r@ == (QueryView { sql: sql@, binds: Seq::empty() }),
    {
        let r = SqlQuery { sql: text::owned(sql), binds: Vec::new() };
        assert(r@.binds =~= Seq::empty());
        r
    }

    /// Adds text.
    pub fn push(&mut self, sql: &str)
        ensures
            final(self)@ == old(self)@.text(sql@),
    {
        self.sql.append(sql);
    }

    /// Adds a place for a value.
    pub fn push_bind(&mut self, value: SqlValue)
        ensures
            final(self)@ == old(self)@.bind(value@),
    {
        let ghost before = self.binds@;
        self.binds.push(value);
        let number: usize = self.binds.len();
        let place = text::concat2("$", text::u64_text(number as u64).as_str());
        self.sql.append(place.as_str());
        assert(self@.binds =~= old(self)@.binds.push(value@));
    }
}

// ---------------------------------------------------------------------------------------------
// Laws
// ---------------------------------------------------------------------------------------------

/// Text is put behind the query and leaves the values; a value is put behind the values, and its
/// place, numbered by how many there are, behind the text.
pub proof fn queries_grow_at_the_end(q: QueryView, sql: Seq<char>, value: SqlValueView)
    ensures
        q.text(sql).sql == q.sql + sql,
        q.text(sql).binds == q.binds,
        q.bind(value).binds.len() == q.binds.len() + 1,
        q.bind(value).binds.last() == value,
        forall|i: int| 0 <= i < q.binds.len() ==> #[trigger] q.bind(value).binds[i] == q.binds[i],
        q.bind(value).sql == q.sql + ("$"@ + decimal(q.bind(value).binds.len() as int)),
        q.binds.len() == 0 ==> q.bind(value).sql == q.sql + "$1"@,
        q.binds.len() == 1 ==> q.bind(value).sql == q.sql + "$2"@,
        q.binds.len() == 2 ==> q.bind(value).sql == q.sql + "$3"@,
{
    reveal_strlit("$");
    reveal_strlit("$1");
    reveal_strlit("$2");
    reveal_strlit("$3");
    text::digits_are_written();
    if q.binds.len() < 3 {
        assert(decimal(1) =~= seq!['1']);
        assert(decimal(2) =~= seq!['2']);
        assert(decimal(3) =~= seq!['3']);
        assert("$"@ + decimal(1) =~= "$1"@);
        assert("$"@ + decimal(2) =~= "$2"@);
        assert("$"@ + decimal(3) =~= "$3"@);
    }
}

/// The first places are written as they are counted.
pub proof fn places_are_numbered()
    ensures
        "$"@ + decimal(1) == "$1"@,
        "$"@ + decimal(2) == "$2"@,
        "$"@ + decimal(3) == "$3"@,
        "$"@ + decimal(4) == "$4"@,
{
    reveal_strlit("$");
    reveal_strlit("$1");
    reveal_strlit("$2");
    reveal_strlit("$3");
    reveal_strlit("$4");
    text::digits_are_written();
    assert("$"@ + decimal(1) =~= "$1"@);
    assert("$"@ + decimal(2) =~= "$2"@);
    assert("$"@ + decimal(3) =~= "$3"@);
    assert("$"@ + decimal(4) =~= "$4"@);
}

} // verus!
