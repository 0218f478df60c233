//! JSON documents as plain data, their members, and the way to and from JSON text.

use vstd::prelude::*;

use crate::text::{self, text_less};

verus! {

// ---------------------------------------------------------------------------------------------
// The documents
// ---------------------------------------------------------------------------------------------

/// What a JSON document says, apart from how it is held or written.
pub enum JsonView {
    Null,
    Bool(bool),
    Int(int),
    Float(serde_json::Number),
    Str(Seq<char>),
    Array(Seq<JsonView>),
    Object(Map<Seq<char>, JsonView>),
}

/// A JSON document.
#[derive(Debug, PartialEq)]
pub enum Json {
    Null,
    Bool(bool),
    Number(serde_json::Number),
    Str(String),
    Array(Vec<Json>),
    Object(JsonObject),
}

/// The members of a JSON object, in the order of their names, no name twice.
#[derive(Debug, PartialEq)]
pub struct JsonObject {
    entries: Vec<(String, Json)>,
}

/// Declares `serde_json::Number`, a JSON number.
#[verifier::external_type_specification]
#[verifier::external_body]
pub struct ExNumber(serde_json::Number);

/// The integer that a number is, where it is one.
pub uninterp spec fn number_int(n: serde_json::Number) -> Option<int>;

/// `Number::as_i64` returns the integer where the number is one that an `i64` holds.
pub assume_specification[ serde_json::Number::as_i64 ](n: &serde_json::Number) -> (r: Option<i64>)
    ensures
        r == int_as_i64(number_int(*n)),
;

/// `Number::as_u64` returns the integer where the number is one that a `u64` holds.
pub assume_specification[ serde_json::Number::as_u64 ](n: &serde_json::Number) -> (r: Option<u64>)
    ensures
        r == int_as_u64(number_int(*n)),
;

/// `Number::clone` returns the same number.
pub assume_specification[ <serde_json::Number as Clone>::clone ](
    n: &serde_json::Number,
) -> (r: serde_json::Number)
    ensures
        r == *n,
;

/// Wraps `Number::from` on an `i64`, which gives that integer as a number.
#[verifier::external_body]
fn number_from_i64(value: i64) -> (r: serde_json::Number)
    ensures
        number_int(r) == Some(value as int),
{
    serde_json::Number::from(value)
}

/// An integer as an `i64`, where it is one.
pub open spec fn int_as_i64(k: Option<int>) -> Option<i64> {
    match k {
        Some(k) => if i64::MIN <= k <= i64::MAX {
            Some(k as i64)
        } else {
            None
        },
        None => None,
    }
}

/// An integer as a `u64`, where it is one.
pub open spec fn int_as_u64(k: Option<int>) -> Option<u64> {
    match k {
        Some(k) => if 0 <= k <= u64::MAX {
            Some(k as u64)
        } else {
            None
        },
        None => None,
    }
}

/// What a number says.
pub open spec fn number_view(n: serde_json::Number) -> JsonView {
    match number_int(n) {
        Some(k) => JsonView::Int(k),
        None => JsonView::Float(n),
    }
}

/// What a document says.
pub open spec fn json_view(j: Json) -> JsonView
    decreases j,
{
    match j {
        Json::Null => JsonView::Null,
        Json::Bool(b) => JsonView::Bool(b),
        Json::Number(n) => number_view(n),
        Json::Str(s) => JsonView::Str(s@),
        Json::Array(items) => JsonView::Array(items_view(items@)),
        Json::Object(o) => JsonView::Object(object_view(o)),
    }
}

/// What each of a list of documents says.
pub open spec fn items_view(items: Seq<Json>) -> Seq<JsonView>
    decreases items,
{
    if items.len() == 0 {
        Seq::empty()
    } else {
        items_view(items.drop_last()).push(json_view(items.last()))
    }
}

/// The members of an object by name.
pub closed spec fn object_view(o: JsonObject) -> Map<Seq<char>, JsonView>
    decreases o,
{
    entries_view(o.entries@)
}

spec fn entries_view(entries: Seq<(String, Json)>) -> Map<Seq<char>, JsonView>
    decreases entries,
{
    if entries.len() == 0 {
        Map::empty()
    } else {
        entries_view(entries.drop_last()).insert(
            entries.last().0@,
            json_view(entries.last().1),
        )
    }
}

impl View for Json {
    type V = JsonView;

    open spec fn view(&self) -> JsonView {
        json_view(*self)
    }
}

impl View for JsonObject {
    type V = Map<Seq<char>, JsonView>;

    open spec fn view(&self) -> Map<Seq<char>, JsonView> {
        object_view(*self)
    }
}

// ---------------------------------------------------------------------------------------------
// Members
// ---------------------------------------------------------------------------------------------

impl JsonObject {
    #[verifier::type_invariant]
    spec fn in_order(self) -> bool {
        names_in_order(self.entries@)
    }
}

spec fn names_in_order(entries: Seq<(String, Json)>) -> bool {
    forall|i: int, j: int|
        0 <= i < j < entries.len() ==> text_less(#[trigger] entries[i].0@, #[trigger] entries[j].0@)
}

proof fn lemma_names_distinct(entries: Seq<(String, Json)>)
    requires
        names_in_order(entries),
    ensures
        forall|i: int, j: int|
            0 <= i < j < entries.len() ==> #[trigger] entries[i].0@ != #[trigger] entries[j].0@,
{
    assert forall|i: int, j: int| 0 <= i < j < entries.len() implies #[trigger] entries[i].0@
        != #[trigger] entries[j].0@ by {
        text::text_order_is_total(entries[i].0@, entries[j].0@);
    }
}

proof fn lemma_entries(entries: Seq<(String, Json)>)
    requires
        names_in_order(entries),
    ensures
        forall|i: int|
            #![trigger entries[i]]
            0 <= i < entries.len() ==> entries_view(entries).contains_key(entries[i].0@)
                && entries_view(entries)[entries[i].0@] == json_view(entries[i].1),
        forall|k: Seq<char>| #[trigger]
            entries_view(entries).contains_key(k) ==> exists|i: int|
                0 <= i < entries.len() && #[trigger] entries[i].0@ == k,
    decreases entries.len(),
{
    if entries.len() > 0 {
        let rest = entries.drop_last();
        lemma_names_distinct(entries);
        assert(names_in_order(rest));
        lemma_entries(rest);
        assert forall|i: int| #![trigger entries[i]] 0 <= i < entries.len() implies entries_view(
            entries,
        ).contains_key(entries[i].0@) && entries_view(entries)[entries[i].0@] == json_view(
            entries[i].1,
        ) by {
            if i < rest.len() {
                assert(rest[i] == entries[i]);
            }
        }
        assert forall|k: Seq<char>| #[trigger] entries_view(entries).contains_key(k) implies exists|
            i: int,
        |
            0 <= i < entries.len() && #[trigger] entries[i].0@ == k by {
            if k == entries.last().0@ {
                assert(entries[entries.len() - 1].0@ == k);
            } else {
                assert(entries_view(rest).contains_key(k));
                let i = choose|i: int| 0 <= i < rest.len() && #[trigger] rest[i].0@ == k;
                assert(entries[i].0@ == k);
            }
        }
    }
}

/// The member `name` of a document, where it is an object that has one.
pub open spec fn member(v: JsonView, name: Seq<char>) -> Option<JsonView> {
    match v {
        JsonView::Object(m) => field(m, name),
        _ => None,
    }
}

/// The member `name` of an object.
pub open spec fn field(m: Map<Seq<char>, JsonView>, name: Seq<char>) -> Option<JsonView> {
    if m.contains_key(name) {
        Some(m[name])
    } else {
        None
    }
}

/// What an optional reference to a document says.
pub open spec fn opt_view(o: Option<&Json>) -> Option<JsonView> {
    match o {
        Some(j) => Some(j@),
        None => None,
    }
}

/// What an optional document says.
pub open spec fn opt_json(o: Option<Json>) -> Option<JsonView> {
    match o {
        Some(j) => Some(j@),
        None => None,
    }
}

impl JsonObject {
    /// An object without members.
    pub fn new() -> (r: JsonObject)
        ensures
            r@ == Map::<Seq<char>, JsonView>::empty(),
    {
        JsonObject { entries: Vec::new() }
    }

    /// The member `name`.
    pub fn get(&self, name: &str) -> (r: Option<&Json>)
        ensures
            opt_view(r) == field(self@, name@),
    {
        proof {
            use_type_invariant(self);
            lemma_entries(self.entries@);
        }
        let mut i: usize = 0;
        while i < self.entries.len()
            invariant
                i <= self.entries.len(),
                forall|k: int| 0 <= k < i ==> #[trigger] self.entries@[k].0@ != name@,
            decreases self.entries.len() - i,
        {
            if text::str_eq(self.entries[i].0.as_str(), name) {
                proof {
                    use_type_invariant(self);
                    lemma_entries(self.entries@);
                    assert(self.entries@[i as int].0@ == name@);
                }
                return Some(&self.entries[i].1);
            }
            i += 1;
        }
        None
    }

    /// Gives the member `name` the value `value`, in place of one that it had.
    pub fn insert(&mut self, name: String, value: Json)
        ensures
            final(self)@ == old(self)@.insert(name@, value@),
    {
        proof {
            use_type_invariant(&*self);
        }
        let mut entries: Vec<(String, Json)> = Vec::new();
        std::mem::swap(&mut entries, &mut self.entries);
        let ghost before = entries@;
        let mut i: usize = 0;
        while i < entries.len() && text::is_text_less(entries[i].0.as_str(), name.as_str())
            invariant
                i <= entries.len(),
                entries@ == before,
                forall|k: int| 0 <= k < i ==> text_less(#[trigger] before[k].0@, name@),
            decreases entries.len() - i,
        {
            i += 1;
        }
        let replace = i < entries.len() && entries[i].0 == name;
        let ghost added = (name, value);
        if replace {
            let _ = entries.remove(i);
        }
        let ghost middle = entries@;
        entries.insert(i, (name, value));
        proof {
            lemma_insert_entry(before, middle, entries@, i as int, added, replace);
        }
        self.entries = entries;
    }

    /// Takes the member `name` away, where there is one.
    pub fn remove(&mut self, name: &str)
        ensures
            final(self)@ == old(self)@.remove(name@),
    {
        proof {
            use_type_invariant(&*self);
        }
        let mut entries: Vec<(String, Json)> = Vec::new();
        std::mem::swap(&mut entries, &mut self.entries);
        let ghost before = entries@;
        let mut i: usize = 0;
        while i < entries.len() && !text::str_eq(entries[i].0.as_str(), name)
            invariant
                i <= entries.len(),
                entries@ == before,
                forall|k: int| 0 <= k < i ==> #[trigger] before[k].0@ != name@,
            decreases entries.len() - i,
        {
            i += 1;
        }
        if i < entries.len() {
            let _ = entries.remove(i);
        }
        proof {
            lemma_remove_entry(before, entries@, i as int, name@);
        }
        self.entries = entries;
    }
}

proof fn lemma_insert_entry(
    before: Seq<(String, Json)>,
    middle: Seq<(String, Json)>,
    after: Seq<(String, Json)>,
    i: int,
    added: (String, Json),
    replace: bool,
)
    requires
        names_in_order(before),
        0 <= i <= before.len(),
        forall|k: int| 0 <= k < i ==> text_less(#[trigger] before[k].0@, added.0@),
        i < before.len() ==> !text_less(before[i].0@, added.0@),
        replace == (i < before.len() && before[i].0@ == added.0@),
        middle == if replace {
            before.remove(i)
        } else {
            before
        },
        after == middle.insert(i, added),
    ensures
        names_in_order(after),
        entries_view(after) == entries_view(before).insert(added.0@, json_view(added.1)),
{
    assert forall|k: int| i <= k < middle.len() implies text_less(
        added.0@,
        #[trigger] middle[k].0@,
    ) by {
        if replace {
            assert(middle[k] == before[k + 1]);
            assert(text_less(before[i].0@, before[k + 1].0@));
        } else {
            text::text_order_is_total(before[i].0@, added.0@);
            if k > i {
                assert(text_less(before[i].0@, before[k].0@));
                text::text_order_is_transitive(added.0@, before[i].0@, before[k].0@);
            }
        }
    }
    assert forall|a: int, b: int| 0 <= a < b < after.len() implies text_less(
        #[trigger] after[a].0@,
        #[trigger] after[b].0@,
    ) by {
        let x = if a < i { a } else { a - 1 };
        let y = if b < i { b } else { b - 1 };
        if a != i && b != i {
            assert(after[a] == middle[x] && after[b] == middle[y]);
            let p = if replace && x >= i { x + 1 } else { x };
            let q = if replace && y >= i { y + 1 } else { y };
            assert(middle[x] == before[p] && middle[y] == before[q]);
            assert(text_less(before[p].0@, before[q].0@));
        } else if a == i {
            assert(after[b] == middle[y]);
        } else {
            assert(after[a] == middle[a] && middle[a] == before[a]);
        }
    }
    lemma_entries(before);
    lemma_entries(after);
    let m = entries_view(before);
    let n = entries_view(after);
    assert(after[i] == added);
    assert forall|k: Seq<char>| k != added.0@ implies #[trigger] n.contains_key(k) == m.contains_key(
        k,
    ) && (m.contains_key(k) ==> n[k] == m[k]) by {
        if m.contains_key(k) {
            let a = choose|a: int| 0 <= a < before.len() && #[trigger] before[a].0@ == k;
            let x = if replace && a > i { a - 1 } else { a };
            assert(middle[x] == before[a]);
            let b = if x < i { x } else { x + 1 };
            assert(after[b] == before[a]);
            assert(before[a].0@ == k);
        }
        if n.contains_key(k) {
            let b = choose|b: int| 0 <= b < after.len() && #[trigger] after[b].0@ == k;
            let x = if b < i { b } else { b - 1 };
            assert(after[b] == middle[x]);
            let a = if replace && x >= i { x + 1 } else { x };
            assert(middle[x] == before[a]);
            assert(before[a].0@ == k);
        }
    }
    assert(n =~= m.insert(added.0@, json_view(added.1)));
}

proof fn lemma_remove_entry(
    before: Seq<(String, Json)>,
    after: Seq<(String, Json)>,
    i: int,
    name: Seq<char>,
)
    requires
        names_in_order(before),
        0 <= i <= before.len(),
        forall|k: int| 0 <= k < i ==> #[trigger] before[k].0@ != name,
        i < before.len() ==> before[i].0@ == name && after == before.remove(i),
        i == before.len() ==> after == before,
    ensures
        names_in_order(after),
        entries_view(after) == entries_view(before).remove(name),
{
    assert forall|a: int, b: int| 0 <= a < b < after.len() implies text_less(
        #[trigger] after[a].0@,
        #[trigger] after[b].0@,
    ) by {
        let p = if a < i { a } else { a + 1 };
        let q = if b < i { b } else { b + 1 };
        assert(after[a] == before[p] && after[b] == before[q]);
    }
    lemma_entries(before);
    lemma_entries(after);
    lemma_names_distinct(before);
    let m = entries_view(before);
    let n = entries_view(after);
    assert forall|k: Seq<char>| k != name implies #[trigger] n.contains_key(k) == m.contains_key(k)
        && (m.contains_key(k) ==> n[k] == m[k]) by {
        if m.contains_key(k) {
            let a = choose|a: int| 0 <= a < before.len() && #[trigger] before[a].0@ == k;
            let b = if a < i { a } else { a - 1 };
            assert(after[b] == before[a]);
            assert(before[a].0@ == k);
        }
        if n.contains_key(k) {
            let b = choose|b: int| 0 <= b < after.len() && #[trigger] after[b].0@ == k;
            let a = if b < i { b } else { b + 1 };
            assert(after[b] == before[a]);
            assert(before[a].0@ == k);
        }
    }
    if n.contains_key(name) {
        let b = choose|b: int| 0 <= b < after.len() && #[trigger] after[b].0@ == name;
        let a = if b < i { b } else { b + 1 };
        assert(after[b] == before[a]);
        assert(before[a].0@ == name);
    }
    assert(n =~= m.remove(name));
}

// ---------------------------------------------------------------------------------------------
// Reading a document
// ---------------------------------------------------------------------------------------------

/// The text that a document is.
pub open spec fn str_of(v: JsonView) -> Option<Seq<char>> {
    match v {
        JsonView::Str(s) => Some(s),
        _ => None,
    }
}

/// The truth value that a document is.
pub open spec fn bool_of(v: JsonView) -> Option<bool> {
    match v {
        JsonView::Bool(b) => Some(b),
        _ => None,
    }
}

/// The `i64` that a document is.
pub open spec fn i64_of(v: JsonView) -> Option<i64> {
    match v {
        JsonView::Int(k) => int_as_i64(Some(k)),
        _ => None,
    }
}

/// The `u64` that a document is.
pub open spec fn u64_of(v: JsonView) -> Option<u64> {
    match v {
        JsonView::Int(k) => int_as_u64(Some(k)),
        _ => None,
    }
}

/// The text of the member `name`.
pub open spec fn member_str(v: JsonView, name: Seq<char>) -> Option<Seq<char>> {
    match member(v, name) {
        Some(m) => str_of(m),
        None => None,
    }
}

/// The `i64` of the member `name`.
pub open spec fn member_i64(v: JsonView, name: Seq<char>) -> Option<i64> {
    match member(v, name) {
        Some(m) => i64_of(m),
        None => None,
    }
}

/// The member `inner` of the member `outer`.
pub open spec fn member2(v: JsonView, outer: Seq<char>, inner: Seq<char>) -> Option<JsonView> {
    match member(v, outer) {
        Some(m) => member(m, inner),
        None => None,
    }
}

/// The text behind an optional reference.
pub open spec fn opt_str(o: Option<&str>) -> Option<Seq<char>> {
    match o {
        Some(s) => Some(s@),
        None => None,
    }
}

/// Each item of a list says what stands in its place in the list's view.
pub proof fn items_view_index(items: Seq<Json>)
    ensures
        items_view(items).len() == items.len(),
        forall|i: int|
            0 <= i < items.len() ==> #[trigger] items_view(items)[i] == json_view(items[i]),
    decreases items.len(),
{
    if items.len() > 0 {
        items_view_index(items.drop_last());
        assert forall|i: int| 0 <= i < items.len() implies #[trigger] items_view(items)[i]
            == json_view(items[i]) by {
            if i < items.len() - 1 {
                assert(items.drop_last()[i] == items[i]);
            }
        }
    }
}

/// The view of a list with one more item.
pub proof fn items_view_push(items: Seq<Json>, item: Json)
    ensures
        items_view(items.push(item)) == items_view(items).push(json_view(item)),
{
    assert(items.push(item).drop_last() =~= items);
}

impl Json {
    /// The member `name`, where the document is an object that has one.
    pub fn get(&self, name: &str) -> (r: Option<&Json>)
        ensures
            opt_view(r) == member(self@, name@),
    {
        match self {
            Json::Object(o) => o.get(name),
            _ => None,
        }
    }

    /// The text that the document is.
    pub fn as_str(&self) -> (r: Option<&str>)
        ensures
            opt_str(r) == str_of(self@),
    {
        match self {
            Json::Str(s) => Some(s.as_str()),
            _ => None,
        }
    }

    /// The truth value that the document is.
    pub fn as_bool(&self) -> (r: Option<bool>)
        ensures
            r == bool_of(self@),
    {
        match self {
            Json::Bool(b) => Some(*b),
            _ => None,
        }
    }

    /// The `i64` that the document is.
    pub fn as_i64(&self) -> (r: Option<i64>)
        ensures
            r == i64_of(self@),
    {
        match self {
            Json::Number(n) => n.as_i64(),
            _ => None,
        }
    }

    /// The `u64` that the document is.
    pub fn as_u64(&self) -> (r: Option<u64>)
        ensures
            r == u64_of(self@),
    {
        match self {
            Json::Number(n) => n.as_u64(),
            _ => None,
        }
    }

    /// The items of the array that the document is.
    pub fn as_array(&self) -> (r: Option<&Vec<Json>>)
        ensures
            match r {
                Some(items) => self@ == JsonView::Array(items_view(items@)),
                None => !(self@ is Array),
            },
    {
        match self {
            Json::Array(items) => Some(items),
            _ => None,
        }
    }

    /// The members of the object that the document is.
    pub fn as_object(&self) -> (r: Option<&JsonObject>)
        ensures
            match r {
                Some(o) => self@ == JsonView::Object(o@),
                None => !(self@ is Object),
            },
    {
        match self {
            Json::Object(o) => Some(o),
            _ => None,
        }
    }

    /// The text of the member `name`.
    pub fn get_str(&self, name: &str) -> (r: Option<&str>)
        ensures
            opt_str(r) == member_str(self@, name@),
    {
        match self.get(name) {
            Some(m) => m.as_str(),
            None => None,
        }
    }

    /// The `i64` of the member `name`.
    pub fn get_i64(&self, name: &str) -> (r: Option<i64>)
        ensures
            r == member_i64(self@, name@),
    {
        match self.get(name) {
            Some(m) => m.as_i64(),
            None => None,
        }
    }

    /// The member `inner` of the member `outer`.
    pub fn get2(&self, outer: &str, inner: &str) -> (r: Option<&Json>)
        ensures
            opt_view(r) == member2(self@, outer@, inner@),
    {
        match self.get(outer) {
            Some(m) => m.get(inner),
            None => None,
        }
    }

    /// The document that is the text `s`.
    pub fn string(s: &str) -> (r: Json)
        ensures
            r@ == JsonView::Str(s@),
    {
        Json::Str(text::owned(s))
    }

    /// The document that is the integer `value`.
    pub fn integer(value: i64) -> (r: Json)
        ensures
            r@ == JsonView::Int(value as int),
    {
        Json::Number(number_from_i64(value))
    }

    /// A document that says the same.
    pub fn duplicate(&self) -> (r: Json)
        ensures
            r@ == self@,
        decreases *self,
    {
        match self {
            Json::Null => Json::Null,
            Json::Bool(b) => Json::Bool(*b),
            Json::Number(n) => Json::Number(n.clone()),
            Json::Str(s) => Json::Str(s.clone()),
            Json::Array(items) => {
                let mut copy: Vec<Json> = Vec::new();
                let mut i: usize = 0;
                while i < items.len()
                    invariant
                        i <= items.len(),
                        *self == Json::Array(*items),
                        items_view(copy@) == items_view(items@.take(i as int)),
                    decreases items.len() - i,
                {
                    proof {
                        assert(items@.take(i + 1) =~= items@.take(i as int).push(items@[i as int]));
                        items_view_push(items@.take(i as int), items@[i as int]);
                    }
                    assert(decreases_to!(*self => (*self)->Array_0));
                    let item = items[i].duplicate();
                    proof {
                        items_view_push(copy@, item);
                    }
                    copy.push(item);
                    i += 1;
                }
                assert(items@.take(items.len() as int) =~= items@);
                Json::Array(copy)
            },
            Json::Object(o) => Json::Object(o.duplicate()),
        }
    }
}

impl JsonObject {
    /// An object with the same members.
    pub fn duplicate(&self) -> (r: JsonObject)
        ensures
            r@ == self@,
        decreases *self,
    {
        let mut copy: Vec<(String, Json)> = Vec::new();
        let mut i: usize = 0;
        proof {
            use_type_invariant(self);
        }
        while i < self.entries.len()
            invariant
                i <= self.entries.len(),
                copy@.len() == i,
                names_in_order(self.entries@),
                forall|k: int| 0 <= k < i ==> (#[trigger] copy@[k]).0 == self.entries@[k].0,
                entries_view(copy@) == entries_view(self.entries@.take(i as int)),
            decreases self.entries.len() - i,
        {
            let name = self.entries[i].0.clone();
            let value = self.entries[i].1.duplicate();
            proof {
                let e = self.entries@;
                assert(e.take(i + 1).drop_last() =~= e.take(i as int));
                assert(copy@.push((name, value)).drop_last() =~= copy@);
            }
            copy.push((name, value));
            i += 1;
        }
        proof {
            assert(self.entries@.take(self.entries@.len() as int) =~= self.entries@);
            assert forall|a: int, b: int| 0 <= a < b < copy@.len() implies text_less(
                #[trigger] copy@[a].0@,
                #[trigger] copy@[b].0@,
            ) by {
                assert(self.entries@[a].0@ == copy@[a].0@);
                assert(self.entries@[b].0@ == copy@[b].0@);
            }
        }
        JsonObject { entries: copy }
    }
}

/// Each document of a list once more.
pub fn duplicate_all(items: &Vec<Json>) -> (r: Vec<Json>)
    ensures
        items_view(r@) == items_view(items@),
{
    let mut copy: Vec<Json> = Vec::new();
    let mut i: usize = 0;
    while i < items.len()
        invariant
            i <= items.len(),
            items_view(copy@) == items_view(items@.take(i as int)),
        decreases items.len() - i,
    {
        proof {
            assert(items@.take(i + 1) =~= items@.take(i as int).push(items@[i as int]));
            items_view_push(items@.take(i as int), items@[i as int]);
        }
        let item = items[i].duplicate();
        proof {
            items_view_push(copy@, item);
        }
        copy.push(item);
        i += 1;
    }
    assert(items@.take(items.len() as int) =~= items@);
    copy
}

/// An optional document once more.
pub fn duplicate_opt(o: &Option<Json>) -> (r: Option<Json>)
    ensures
        opt_json(r) == opt_json(*o),
{
    match o {
        Some(j) => Some(j.duplicate()),
        None => None,
    }
}

// ---------------------------------------------------------------------------------------------
// JSON text
// ---------------------------------------------------------------------------------------------

/// Declares `serde_json::Value`, the JSON tree that text is read into and written from.
#[verifier::external_type_specification]
#[verifier::external_body]
pub struct ExValue(serde_json::Value);

/// What a `serde_json::Value` says.
pub uninterp spec fn value_tree(v: serde_json::Value) -> JsonView;

/// What `serde_json::from_str` reads in a text, or what it says of text that it does not take.
pub uninterp spec fn json_reading(text: Seq<char>) -> Result<JsonView, Seq<char>>;

/// The document that a text is.
pub open spec fn parsed_json(text: Seq<char>) -> Option<JsonView> {
    match json_reading(text) {
        Ok(v) => Some(v),
        Err(_) => None,
    }
}

/// The compact text that `serde_json::to_string` writes for a document.
pub uninterp spec fn json_text(v: JsonView) -> Seq<char>;

enum ValueNode<'a> {
    Null,
    Bool(bool),
    Number(&'a serde_json::Number),
    Str(&'a String),
    Array(&'a Vec<serde_json::Value>),
    Object(Vec<(&'a String, &'a serde_json::Value)>),
}

enum ValueParts {
    Null,
    Bool(bool),
    Number(serde_json::Number),
    Str(String),
    Array(Vec<serde_json::Value>),
    Object(Vec<(String, serde_json::Value)>),
}

/// Pairs of distinct names and values are all the members of an object.
spec fn pairs_are(pairs: Seq<(String, serde_json::Value)>, m: Map<Seq<char>, JsonView>) -> bool {
    &&& names_differ(pairs)
    &&& forall|i: int|
        #![trigger pairs[i]]
        0 <= i < pairs.len() ==> m.contains_key(pairs[i].0@) && m[pairs[i].0@] == value_tree(
            pairs[i].1,
        )
    &&& forall|k: Seq<char>| #[trigger]
        m.contains_key(k) ==> exists|i: int| 0 <= i < pairs.len() && #[trigger] pairs[i].0@ == k
}

spec fn names_differ(pairs: Seq<(String, serde_json::Value)>) -> bool {
    forall|i: int, j: int|
        0 <= i < j < pairs.len() ==> #[trigger] pairs[i].0@ != #[trigger] pairs[j].0@
}

spec fn owned_pairs(pairs: Seq<(&String, &serde_json::Value)>) -> Seq<(String, serde_json::Value)> {
    pairs.map_values(|p: (&String, &serde_json::Value)| (*p.0, *p.1))
}

spec fn node_parts(n: ValueNode) -> ValueView {
    match n {
        ValueNode::Null => ValueView::Null,
        ValueNode::Bool(b) => ValueView::Bool(b),
        ValueNode::Number(k) => ValueView::Number(*k),
        ValueNode::Str(s) => ValueView::Str(s@),
        ValueNode::Array(items) => ValueView::Array(items@),
        ValueNode::Object(pairs) => ValueView::Object(owned_pairs(pairs@)),
    }
}

spec fn parts_view(p: ValueParts) -> ValueView {
    match p {
        ValueParts::Null => ValueView::Null,
        ValueParts::Bool(b) => ValueView::Bool(b),
        ValueParts::Number(k) => ValueView::Number(k),
        ValueParts::Str(s) => ValueView::Str(s@),
        ValueParts::Array(items) => ValueView::Array(items@),
        ValueParts::Object(pairs) => ValueView::Object(pairs@),
    }
}

/// The outermost layer of a `serde_json::Value`.
enum ValueView {
    Null,
    Bool(bool),
    Number(serde_json::Number),
    Str(Seq<char>),
    Array(Seq<serde_json::Value>),
    Object(Seq<(String, serde_json::Value)>),
}

/// The tree is what its outermost layer says, with the trees below.
spec fn tree_has_layer(tree: JsonView, layer: ValueView) -> bool {
    match layer {
        ValueView::Null => tree == JsonView::Null,
        ValueView::Bool(b) => tree == JsonView::Bool(b),
        ValueView::Number(n) => tree == number_view(n),
        ValueView::Str(s) => tree == JsonView::Str(s),
        ValueView::Array(items) => tree == JsonView::Array(
            items.map_values(|v: serde_json::Value| value_tree(v)),
        ),
        ValueView::Object(pairs) => tree matches JsonView::Object(m) && m.dom().finite()
            && pairs_are(pairs, m),
    }
}

/// Takes the outermost layer of a `serde_json::Value` apart by its variants; for an object,
/// `serde_json::Map::iter` hands out each member once.
#[verifier::external_body]
fn value_node(v: &serde_json::Value) -> (r: ValueNode<'_>)
    ensures
        tree_has_layer(value_tree(*v), node_parts(r)),
{
    match v {
        serde_json::Value::Null => ValueNode::Null,
        serde_json::Value::Bool(b) => ValueNode::Bool(*b),
        serde_json::Value::Number(n) => ValueNode::Number(n),
        serde_json::Value::String(s) => ValueNode::Str(s),
        serde_json::Value::Array(items) => ValueNode::Array(items),
        serde_json::Value::Object(m) => ValueNode::Object(m.iter().collect()),
    }
}

/// Makes a `serde_json::Value` of its outermost layer; an object is made by
/// `serde_json::Map::from_iter`, which keeps each pair where no name comes twice.
#[verifier::external_body]
fn value_from_parts(p: ValueParts) -> (r: serde_json::Value)
    requires
        p matches ValueParts::Object(pairs) ==> names_differ(pairs@),
    ensures
        tree_has_layer(value_tree(r), parts_view(p)),
{
    match p {
        ValueParts::Null => serde_json::Value::Null,
        ValueParts::Bool(b) => serde_json::Value::Bool(b),
        ValueParts::Number(n) => serde_json::Value::Number(n),
        ValueParts::Str(s) => serde_json::Value::String(s),
        ValueParts::Array(items) => serde_json::Value::Array(items),
        ValueParts::Object(pairs) => serde_json::Value::Object(
            serde_json::Map::from_iter(pairs),
        ),
    }
}

/// Wraps `serde_json::from_str` into a `serde_json::Value`: what it reads, and what it says of
/// text that it does not take, depends on the text alone.
#[verifier::external_body]
fn parse_value(text: &str) -> (r: Result<serde_json::Value, String>)
    ensures
        match r {
            Ok(v) => json_reading(text@) == Ok::<JsonView, Seq<char>>(value_tree(v)),
            Err(e) => json_reading(text@) == Err::<JsonView, Seq<char>>(e@),
        },
{
    serde_json::from_str::<serde_json::Value>(text).map_err(|e| e.to_string())
}

/// The name under which `serde_json` passes the text of a value on unread.
pub const RAW_VALUE_NAME: &'static str = "$serde_json::private::RawValue";

/// The first member of an object, in the order in which members are written, is one that
/// `serde_json` takes for the text of another value.
pub open spec fn looks_raw(m: Map<Seq<char>, JsonView>) -> bool {
    &&& m.contains_key(RAW_VALUE_NAME@)
    &&& forall|k: Seq<char>| #[trigger] m.contains_key(k) ==> !text_less(k, RAW_VALUE_NAME@)
}

/// A document without fractional numbers and without an object that looks like a value that was
/// not read, in which at most `depth` arrays and objects stand inside one another.
pub open spec fn nests_within(v: JsonView, depth: nat) -> bool
    decreases depth,
{
    match v {
        JsonView::Float(_) => false,
        JsonView::Array(s) => depth > 0 && forall|i: int|
            0 <= i < s.len() ==> nests_within(#[trigger] s[i], (depth - 1) as nat),
        JsonView::Object(m) => depth > 0 && !looks_raw(m) && forall|k: Seq<char>| #[trigger]
            m.contains_key(k) ==> nests_within(m[k], (depth - 1) as nat),
        _ => true,
    }
}

/// Documents that come back as they were when their text is read: those without fractional
/// numbers that stay within the depth to which `serde_json` reads, and in which no object looks
/// like a value that was not read.
pub open spec fn reads_back(v: JsonView) -> bool {
    nests_within(v, 127)
}

/// Text on one line that does not begin with white space.
pub open spec fn is_one_line(s: Seq<char>) -> bool {
    &&& s.len() > 0
    &&& !text::is_white_space(s[0])
    &&& forall|i: int| 0 <= i < s.len() ==> #[trigger] s[i] != '\n' && s[i] != '\r'
}

/// Wraps `serde_json::to_string` on a `serde_json::Value`, which does not fail on one. The text
/// depends on the document alone; it is compact, control characters inside strings are escaped,
/// and `serde_json::from_str` reads it back where no fractional number, no deep nesting and no
/// object that looks like an unread value is in the way. An object's members are written in the
/// order of their names, which decides which of them comes first.
#[verifier::external_body]
fn print_value(v: &serde_json::Value) -> (r: Option<String>)
    ensures
        r is Some,
        r->0@ == json_text(value_tree(*v)),
        is_one_line(r->0@),
        reads_back(value_tree(*v)) ==> parsed_json(r->0@) == Some(value_tree(*v)),
{
    serde_json::to_string(v).ok()
}

/// A number of things: an integer that a `usize` holds.
pub open spec fn usize_of(v: JsonView) -> Option<usize> {
    match u64_of(v) {
        Some(n) => if n <= usize::MAX {
            Some(n as usize)
        } else {
            None
        },
        None => None,
    }
}

/// What `serde_json::from_value` says of a document that is no `usize`.
pub uninterp spec fn usize_refusal(v: JsonView) -> Seq<char>;

/// Wraps `serde_json::from_value` into a `usize`: it takes the integers that a `usize` holds and
/// nothing else, and what it says of another document depends on the document alone.
#[verifier::external_body]
fn usize_from_value(v: serde_json::Value) -> (r: Result<usize, String>)
    ensures
        match r {
            Ok(n) => usize_of(value_tree(v)) == Some(n),
            Err(e) => usize_of(value_tree(v)) is None && e@ == usize_refusal(value_tree(v)),
        },
{
    serde_json::from_value::<usize>(v).map_err(|e| e.to_string())
}

fn json_from_value(v: &serde_json::Value) -> (r: Json)
    ensures
        r@ == value_tree(*v),
    decreases value_tree(*v),
{
    match value_node(v) {
        ValueNode::Null => Json::Null,
        ValueNode::Bool(b) => Json::Bool(b),
        ValueNode::Number(n) => Json::Number(n.clone()),
        ValueNode::Str(s) => Json::Str(s.clone()),
        ValueNode::Array(items) => {
            let mut list: Vec<Json> = Vec::new();
            let ghost trees = items@.map_values(|v: serde_json::Value| value_tree(v));
            let mut i: usize = 0;
            while i < items.len()
                invariant
                    i <= items.len(),
                    trees == items@.map_values(|v: serde_json::Value| value_tree(v)),
                    value_tree(*v) == JsonView::Array(trees),
                    items_view(list@) == trees.take(i as int),
                decreases items.len() - i,
            {
                assert(trees[i as int] == value_tree(items@[i as int]));
                assert(decreases_to!(value_tree(*v) => value_tree(*v)->Array_0));
                let item = json_from_value(&items[i]);
                proof {
                    items_view_push(list@, item);
                    assert(trees.take(i + 1) =~= trees.take(i as int).push(trees[i as int]));
                }
                list.push(item);
                i += 1;
            }
            assert(trees.take(items.len() as int) =~= trees);
            Json::Array(list)
        },
        ValueNode::Object(pairs) => {
            let mut o = JsonObject::new();
            let ghost m = value_tree(*v)->Object_0;
            let ghost all = owned_pairs(pairs@);
            let mut i: usize = 0;
            while i < pairs.len()
                invariant
                    i <= pairs.len(),
                    all == owned_pairs(pairs@),
                    value_tree(*v) == JsonView::Object(m),
                    m.dom().finite(),
                    pairs_are(all, m),
                    forall|k: Seq<char>| #[trigger]
                        o@.contains_key(k) <==> exists|j: int|
                            0 <= j < i && #[trigger] all[j].0@ == k,
                    forall|k: Seq<char>| #[trigger] o@.contains_key(k) ==> o@[k] == m[k],
                decreases pairs.len() - i,
            {
                assert(all[i as int] == (*pairs@[i as int].0, *pairs@[i as int].1));
                assert(m.contains_key(all[i as int].0@));
                assert(decreases_to!(value_tree(*v) => value_tree(*v)->Object_0));
                assert(decreases_to!(m => m[all[i as int].0@]));
                let item = json_from_value(pairs[i].1);
                let ghost before = o@;
                o.insert(pairs[i].0.clone(), item);
                proof {
                    assert forall|k: Seq<char>| #[trigger] o@.contains_key(k) implies exists|j: int|
                        0 <= j < i + 1 && #[trigger] all[j].0@ == k by {
                        if k == all[i as int].0@ {
                        } else {
                            assert(before.contains_key(k));
                        }
                    }
                    assert forall|k: Seq<char>|
                        (exists|j: int| 0 <= j < i + 1 && #[trigger] all[j].0@
                            == k) implies #[trigger] o@.contains_key(k) by {
                        let j = choose|j: int| 0 <= j < i + 1 && #[trigger] all[j].0@ == k;
                        if j < i {
                            assert(before.contains_key(k));
                        }
                    }
                }
                i += 1;
            }
            assert(o@ =~= m);
            Json::Object(o)
        },
    }
}

fn value_from_json(j: &Json) -> (r: serde_json::Value)
    ensures
        value_tree(r) == j@,
    decreases *j,
{
    match j {
        Json::Null => value_from_parts(ValueParts::Null),
        Json::Bool(b) => value_from_parts(ValueParts::Bool(*b)),
        Json::Number(n) => value_from_parts(ValueParts::Number(n.clone())),
        Json::Str(s) => value_from_parts(ValueParts::Str(s.clone())),
        Json::Array(items) => {
            let mut list: Vec<serde_json::Value> = Vec::new();
            let mut i: usize = 0;
            while i < items.len()
                invariant
                    i <= items.len(),
                    *j == Json::Array(*items),
                    list@.len() == i,
                    forall|k: int| 0 <= k < i ==> value_tree(#[trigger] list@[k]) == items@[k]@,
                decreases items.len() - i,
            {
                assert(decreases_to!(*j => (*j)->Array_0));
                list.push(value_from_json(&items[i]));
                i += 1;
            }
            proof {
                items_view_index(items@);
                assert(list@.map_values(|v: serde_json::Value| value_tree(v)) =~= items_view(
                    items@,
                ));
            }
            value_from_parts(ValueParts::Array(list))
        },
        Json::Object(o) => {
            let mut list: Vec<(String, serde_json::Value)> = Vec::new();
            let mut i: usize = 0;
            while i < o.entries.len()
                invariant
                    i <= o.entries.len(),
                    *j == Json::Object(*o),
                    list@.len() == i,
                    forall|k: int|
                        0 <= k < i ==> (#[trigger] list@[k]).0@ == o.entries@[k].0@ && value_tree(
                            list@[k].1,
                        ) == o.entries@[k].1@,
                decreases o.entries.len() - i,
            {
                assert(decreases_to!(*j => (*j)->Object_0));
                assert(decreases_to!((*j)->Object_0 => o.entries));
                list.push((o.entries[i].0.clone(), value_from_json(&o.entries[i].1)));
                i += 1;
            }
            proof {
                use_type_invariant(o);
                lemma_names_distinct(o.entries@);
                lemma_entries(o.entries@);
                assert forall|a: int, b: int| 0 <= a < b < list@.len() implies #[trigger] list@[a].0@
                    != #[trigger] list@[b].0@ by {
                    assert(o.entries@[a].0@ != o.entries@[b].0@);
                }
            }
            let value = value_from_parts(ValueParts::Object(list));
            proof {
                let m = value_tree(value)->Object_0;
                assert forall|k: Seq<char>| #[trigger] m.contains_key(k) == o@.contains_key(k) && (
                o@.contains_key(k) ==> m[k] == o@[k]) by {
                    if m.contains_key(k) {
                        let a = choose|a: int| 0 <= a < list@.len() && #[trigger] list@[a].0@ == k;
                        assert(o.entries@[a].0@ == k);
                    }
                    if o@.contains_key(k) {
                        let a = choose|a: int|
                            0 <= a < o.entries@.len() && #[trigger] o.entries@[a].0@ == k;
                        assert(list@[a].0@ == k);
                    }
                }
                assert(m =~= o@);
            }
            value
        },
    }
}

impl Json {
    /// Reads a document out of its text.
    pub fn parse(s: &str) -> (r: Option<Json>)
        ensures
            opt_json(r) == parsed_json(s@),
    {
        match parse_value(s) {
            Ok(v) => Some(json_from_value(&v)),
            Err(_) => None,
        }
    }

    /// Reads a document out of its text, or says what is wrong with the text.
    pub fn read(s: &str) -> (r: Result<Json, String>)
        ensures
            match r {
                Ok(j) => json_reading(s@) == Ok::<JsonView, Seq<char>>(j@),
                Err(e) => json_reading(s@) == Err::<JsonView, Seq<char>>(e@),
            },
    {
        match parse_value(s) {
            Ok(v) => Ok(json_from_value(&v)),
            Err(e) => Err(e),
        }
    }

    /// The number of things that the document is, or what is wrong with it as one.
    pub fn read_usize(&self) -> (r: Result<usize, String>)
        ensures
            match r {
                Ok(n) => usize_of(self@) == Some(n),
                Err(e) => usize_of(self@) is None && e@ == usize_refusal(self@),
            },
    {
        usize_from_value(value_from_json(self))
    }

    /// The compact text of the document.
    pub fn text(&self) -> (r: String)
        ensures
            r@ == json_text(self@),
            is_one_line(r@),
            reads_back(self@) ==> parsed_json(r@) == Some(self@),
    {
        match print_value(&value_from_json(self)) {
            Some(s) => s,
            None => text::owned(""),
        }
    }
}

// ---------------------------------------------------------------------------------------------
// Members in order
// ---------------------------------------------------------------------------------------------

/// The names are in order, none twice.
pub open spec fn in_text_order(names: Seq<Seq<char>>) -> bool {
    forall|i: int, j: int|
        0 <= i < j < names.len() ==> text_less(#[trigger] names[i], #[trigger] names[j])
}

/// The names are those of all members of an object, in order.
pub open spec fn lists_members(names: Seq<Seq<char>>, m: Map<Seq<char>, JsonView>) -> bool {
    &&& in_text_order(names)
    &&& forall|k: Seq<char>| #[trigger] m.contains_key(k) <==> names.contains(k)
}

/// The names of the members of an object, in order.
pub open spec fn member_names(m: Map<Seq<char>, JsonView>) -> Seq<Seq<char>> {
    choose|names: Seq<Seq<char>>| lists_members(names, m)
}

proof fn lemma_first_listed(a: Seq<Seq<char>>, b: Seq<Seq<char>>)
    requires
        in_text_order(a),
        in_text_order(b),
        a.len() > 0,
        forall|k: Seq<char>| a.contains(k) <==> b.contains(k),
    ensures
        b.len() > 0,
        a[0] == b[0],
{
    assert(a.contains(a[0]));
    let i = choose|i: int| 0 <= i < b.len() && b[i] == a[0];
    assert(b.contains(b[0]));
    let j = choose|j: int| 0 <= j < a.len() && a[j] == b[0];
    if i > 0 {
        assert(text_less(b[0], b[i]));
        if j > 0 {
            assert(text_less(a[0], a[j]));
        }
        text::text_order_is_total(a[0], b[0]);
    }
}

/// There is one list of an object's members in order.
pub proof fn listing_is_unique(a: Seq<Seq<char>>, b: Seq<Seq<char>>)
    requires
        in_text_order(a),
        in_text_order(b),
        forall|k: Seq<char>| a.contains(k) <==> b.contains(k),
    ensures
        a == b,
    decreases a.len(),
{
    if a.len() == 0 {
        if b.len() > 0 {
            assert(b.contains(b[0]));
        }
        assert(a =~= b);
    } else {
        lemma_first_listed(a, b);
        let ra = a.skip(1);
        let rb = b.skip(1);
        assert forall|i: int, j: int| 0 <= i < j < ra.len() implies text_less(
            #[trigger] ra[i],
            #[trigger] ra[j],
        ) by {
            assert(ra[i] == a[i + 1] && ra[j] == a[j + 1]);
        }
        assert forall|i: int, j: int| 0 <= i < j < rb.len() implies text_less(
            #[trigger] rb[i],
            #[trigger] rb[j],
        ) by {
            assert(rb[i] == b[i + 1] && rb[j] == b[j + 1]);
        }
        assert forall|k: Seq<char>| ra.contains(k) implies rb.contains(k) by {
            let i = choose|i: int| 0 <= i < ra.len() && ra[i] == k;
            assert(a[i + 1] == k);
            assert(a.contains(k));
            let j = choose|j: int| 0 <= j < b.len() && b[j] == k;
            assert(text_less(a[0], a[i + 1]));
            text::text_order_is_total(a[0], k);
            assert(j > 0);
            assert(rb[j - 1] == k);
        }
        assert forall|k: Seq<char>| rb.contains(k) implies ra.contains(k) by {
            let i = choose|i: int| 0 <= i < rb.len() && rb[i] == k;
            assert(b[i + 1] == k);
            assert(b.contains(k));
            let j = choose|j: int| 0 <= j < a.len() && a[j] == k;
            assert(text_less(b[0], b[i + 1]));
            text::text_order_is_total(b[0], k);
            assert(j > 0);
            assert(ra[j - 1] == k);
        }
        listing_is_unique(ra, rb);
        assert(a =~= seq![a[0]] + ra);
        assert(b =~= seq![b[0]] + rb);
    }
}

proof fn lemma_entries_finite(entries: Seq<(String, Json)>)
    ensures
        entries_view(entries).dom().finite(),
    decreases entries.len(),
{
    if entries.len() > 0 {
        lemma_entries_finite(entries.drop_last());
    }
}

impl JsonObject {
    /// The names of the members, in order.
    pub fn names(&self) -> (r: Vec<String>)
        ensures
            text::texts(r@) == member_names(self@),
            lists_members(text::texts(r@), self@),
            self@.dom().finite(),
    {
        let mut names: Vec<String> = Vec::new();
        let mut i: usize = 0;
        while i < self.entries.len()
            invariant
                i <= self.entries.len(),
                names@.len() == i,
                forall|k: int| 0 <= k < i ==> (#[trigger] names@[k])@ == self.entries@[k].0@,
            decreases self.entries.len() - i,
        {
            names.push(self.entries[i].0.clone());
            i += 1;
        }
        proof {
            use_type_invariant(self);
            lemma_entries(self.entries@);
            lemma_entries_finite(self.entries@);
            let listed = text::texts(names@);
            assert forall|a: int, b: int| 0 <= a < b < listed.len() implies text_less(
                #[trigger] listed[a],
                #[trigger] listed[b],
            ) by {
                assert(names@[a]@ == self.entries@[a].0@ && names@[b]@ == self.entries@[b].0@);
            }
            assert forall|k: Seq<char>| #[trigger] self@.contains_key(k) implies listed.contains(
                k,
            ) by {
                let a = choose|a: int|
                    0 <= a < self.entries@.len() && #[trigger] self.entries@[a].0@ == k;
                assert(names@[a]@ == k);
                assert(listed[a] == k);
            }
            assert forall|k: Seq<char>| listed.contains(k) implies #[trigger] self@.contains_key(
                k,
            ) by {
                let a = choose|a: int| 0 <= a < listed.len() && listed[a] == k;
                assert(names@[a]@ == self.entries@[a].0@);
            }
            assert(lists_members(listed, self@));
            let chosen = member_names(self@);
            assert(lists_members(chosen, self@));
            assert forall|k: Seq<char>| listed.contains(k) <==> chosen.contains(k) by {
                assert(self@.contains_key(k) <==> listed.contains(k));
                assert(self@.contains_key(k) <==> chosen.contains(k));
            }
            listing_is_unique(listed, chosen);
        }
        names
    }
}

// ---------------------------------------------------------------------------------------------
// Laws
// ---------------------------------------------------------------------------------------------

/// A document is read as what it is: a text as itself, a truth value as itself, and an integer as
/// a number of each type that holds it. Nothing is read as anything else.
pub proof fn documents_are_read_as_what_they_are(v: JsonView)
    ensures
        str_of(v) is Some <==> v is Str,
        v is Str ==> str_of(v)->0 == v->Str_0,
        bool_of(v) is Some <==> v is Bool,
        v is Bool ==> bool_of(v)->0 == v->Bool_0,
        i64_of(v) is Some <==> v is Int && -0x8000_0000_0000_0000 <= v->Int_0
            <= 0x7fff_ffff_ffff_ffff,
        i64_of(v) is Some ==> i64_of(v)->0 == v->Int_0,
        u64_of(v) is Some <==> v is Int && 0 <= v->Int_0 <= 0xffff_ffff_ffff_ffff,
        u64_of(v) is Some ==> u64_of(v)->0 == v->Int_0,
        usize_of(v) is Some <==> v is Int && 0 <= v->Int_0 <= usize::MAX,
        usize_of(v) is Some ==> usize_of(v)->0 == v->Int_0,
{
}

/// Only objects have members. A member that was put into an object is found under its name, in
/// place of the one before, and every other stays.
pub proof fn members_are_found_by_name(
    m: Map<Seq<char>, JsonView>,
    name: Seq<char>,
    other: Seq<char>,
    inner: JsonView,
    v: JsonView,
)
    ensures
        ({
            let o = JsonView::Object(m.insert(name, inner));
            &&& member(o, name) == Some(inner)
            &&& other != name ==> member(o, other) == member(JsonView::Object(m), other)
            &&& member(JsonView::Object(m.remove(name)), name) is None
            &&& member_str(o, name) == str_of(inner)
            &&& member_i64(o, name) == i64_of(inner)
            &&& member2(o, name, other) == member(inner, other)
        }),
        v !is Object ==> member(v, name) is None && member_str(v, name) is None && member_i64(
            v,
            name,
        ) is None && member2(v, name, other) is None,
        member(v, name) is None ==> member2(v, name, other) is None,
{
}

/// A list of the members of an object holds each of their names once, and no other, the smaller
/// before the greater.
pub proof fn listings_hold_each_name_once(
    names: Seq<Seq<char>>,
    m: Map<Seq<char>, JsonView>,
    name: Seq<char>,
    i: int,
    j: int,
)
    requires
        lists_members(names, m),
    ensures
        names.contains(name) <==> m.contains_key(name),
        0 <= i < j < names.len() ==> text_less(names[i], names[j]) && names[i] != names[j],
        names.no_duplicates(),
{
    assert(m.contains_key(name) <==> names.contains(name));
    assert forall|a: int, b: int|
        0 <= a < names.len() && 0 <= b < names.len() && a != b implies names[a] != names[b] by {
        text::text_order_is_total(names[a], names[b]);
        if a < b {
            assert(text_less(names[a], names[b]));
        } else {
            assert(text_less(names[b], names[a]));
        }
    }
}

} // verus!
