//! The identifiers of threads.

use vstd::prelude::*;

verus! {

/// What `uuid::Uuid::parse_str` makes of a text, written with hyphens in lower case, or what it
/// says of text that is no identifier.
pub uninterp spec fn parsed_uuid(text: Seq<char>) -> Result<Seq<char>, Seq<char>>;

/// The text is an identifier in the form in which identifiers are written.
pub open spec fn is_thread_id(text: Seq<char>) -> bool {
    parsed_uuid(text) == Ok::<Seq<char>, Seq<char>>(text)
}

/// Wraps `uuid::Uuid::parse_str` and the text of the identifier with hyphens. Both depend on the
/// text alone, and the text that comes out is read as the same identifier.
#[verifier::external_body]
fn uuid_parse(value: &str) -> (r: Result<String, String>)
    ensures
        match r {
            Ok(s) => parsed_uuid(value@) == Ok::<Seq<char>, Seq<char>>(s@) && is_thread_id(s@),
            Err(e) => parsed_uuid(value@) == Err::<Seq<char>, Seq<char>>(e@),
        },
{
    match uuid::Uuid::parse_str(value) {
        Ok(id) => Ok(id.hyphenated().to_string()),
        Err(e) => Err(e.to_string()),
    }
}

/// The identifier of a thread.
#[derive(Debug, PartialEq, Eq)]
pub struct ThreadId {
    text: String,
}

impl View for ThreadId {
    type V = Seq<char>;

    closed spec fn view(&self) -> Seq<char> {
        self.text@
    }
}

impl ThreadId {
    #[verifier::type_invariant]
    spec fn inv(self) -> bool {
        is_thread_id(self.text@)
    }

    /// The identifier that a text names, or what is wrong with the text.
    pub fn from_string(value: &str) -> (r: Result<ThreadId, String>)
        ensures
            match r {
                Ok(id) => parsed_uuid(value@) == Ok::<Seq<char>, Seq<char>>(id@) && is_thread_id(
                    id@,
                ),
                Err(e) => parsed_uuid(value@) == Err::<Seq<char>, Seq<char>>(e@),
            },
    {
        match uuid_parse(value) {
            Ok(text) => Ok(ThreadId { text }),
            Err(e) => Err(e),
        }
    }

    /// The text of the identifier.
    pub fn as_str(&self) -> (r: &str)
        ensures
            r@ == self@,
            is_thread_id(r@),
    {
        proof {
            use_type_invariant(self);
        }
        self.text.as_str()
    }

    /// The same identifier.
    pub fn duplicate(&self) -> (r: ThreadId)
        ensures
            r@ == self@,
    {
        proof {
            use_type_invariant(self);
        }
        ThreadId { text: self.text.clone() }
    }

    /// Whether two identifiers are the same.
    pub fn same_as(&self, other: &ThreadId) -> (r: bool)
        ensures
            r == (self@ == other@),
    {
        crate::text::str_eq(self.text.as_str(), other.text.as_str())
    }
}

} // verus!
