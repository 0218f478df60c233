//! The version that an installed program tells of itself.

use vstd::prelude::*;

use crate::text::{self, is_white_space, trim_start_of};

verus! {

/// Where the first white space stands, or the end where there is none.
pub open spec fn word_end(s: Seq<char>) -> int
    decreases s.len(),
{
    if s.len() == 0 || is_white_space(s[0]) {
        0
    } else {
        1 + word_end(s.drop_first())
    }
}

/// What follows the first word of a text, without white space before it.
pub open spec fn after_first_word(s: Seq<char>) -> Seq<char> {
    let t = trim_start_of(s);
    trim_start_of(t.skip(word_end(t)))
}

/// The second word of a text; empty where there is none.
pub open spec fn second_word(s: Seq<char>) -> Seq<char> {
    after_first_word(s).take(word_end(after_first_word(s)))
}

proof fn lemma_word_end(s: Seq<char>, n: int)
    requires
        0 <= n <= s.len(),
        forall|i: int| 0 <= i < n ==> !is_white_space(#[trigger] s[i]),
        n == s.len() || is_white_space(s[n]),
    ensures
        word_end(s) == n,
    decreases n,
{
    if n > 0 {
        lemma_word_end(s.drop_first(), n - 1);
    }
}

fn find_word_end(chars: &Vec<char>) -> (r: usize)
    ensures
        r == word_end(chars@),
        r <= chars@.len(),
{
    let mut n: usize = 0;
    while n < chars.len() && !text::char_is_white_space(chars[n])
        invariant
            n <= chars.len(),
            forall|i: int| 0 <= i < n ==> !is_white_space(#[trigger] chars@[i]),
        decreases chars.len() - n,
    {
        n += 1;
    }
    proof {
        lemma_word_end(chars@, n as int);
    }
    n
}

/// The version that a program prints after its name, as in `codex 1.2.3`.
pub fn parse_codex_version(output: &str) -> (r: Result<String, String>)
    ensures
        match r {
            Ok(version) => second_word(output@).len() > 0 && version@ == second_word(output@),
            Err(message) => second_word(output@).len() == 0 && message@
                == "version output is malformed: "@ + output@,
        },
{
    let start = text::trim_start(output);
    let chars = text::chars_of(start);
    let end: usize = find_word_end(&chars);
    let rest = text::trim_start(start.substring_char(end, chars.len()));
    let rest_chars = text::chars_of(rest);
    let rest_end: usize = find_word_end(&rest_chars);
    proof {
        assert(start@.subrange(end as int, chars@.len() as int) =~= start@.skip(end as int));
        assert(rest@ == after_first_word(output@));
        assert(rest@.subrange(0, rest_end as int) =~= rest@.take(rest_end as int));
    }
    if rest_end == 0 {
        return Err(text::concat2("version output is malformed: ", output));
    }
    Ok(text::owned(rest.substring_char(0, rest_end)))
}

// ---------------------------------------------------------------------------------------------
// Laws
// ---------------------------------------------------------------------------------------------

/// A word: some characters, none of them white space.
pub open spec fn is_word(s: Seq<char>) -> bool {
    s.len() > 0 && forall|i: int| 0 <= i < s.len() ==> !is_white_space(#[trigger] s[i])
}

/// The text is empty or begins with white space.
pub open spec fn begins_blank(s: Seq<char>) -> bool {
    s.len() > 0 ==> is_white_space(s[0])
}

proof fn lemma_blank_is_skipped(blank: Seq<char>, rest: Seq<char>)
    requires
        text::is_blank_text(blank),
        rest.len() > 0 ==> !is_white_space(rest[0]),
    ensures
        trim_start_of(blank + rest) == rest,
    decreases blank.len(),
{
    if blank.len() == 0 {
        assert(blank + rest =~= rest);
    } else {
        let fewer = blank.drop_first();
        assert(forall|i: int| 0 <= i < fewer.len() ==> fewer[i] == blank[i + 1]);
        lemma_blank_is_skipped(fewer, rest);
        assert((blank + rest).drop_first() =~= fewer + rest);
    }
}

/// The second word of a text is found whatever white space stands before, between and behind the
/// words.
pub proof fn the_second_word_is_found(
    before: Seq<char>,
    first: Seq<char>,
    between: Seq<char>,
    second: Seq<char>,
    behind: Seq<char>,
)
    requires
        text::is_blank_text(before),
        is_word(first),
        text::is_blank_text(between),
        between.len() > 0,
        is_word(second),
        begins_blank(behind),
    ensures
        second_word(before + (first + (between + (second + behind)))) == second,
{
    let rest = second + behind;
    let s = first + (between + rest);
    lemma_blank_is_skipped(before, s);
    assert forall|i: int| 0 <= i < first.len() implies !is_white_space(#[trigger] s[i]) by {
        assert(s[i] == first[i]);
    }
    assert(s[first.len() as int] == between[0]);
    lemma_word_end(s, first.len() as int);
    assert(s.skip(first.len() as int) =~= between + rest);
    assert(rest[0] == second[0]);
    lemma_blank_is_skipped(between, rest);
    assert forall|i: int| 0 <= i < second.len() implies !is_white_space(#[trigger] rest[i]) by {
        assert(rest[i] == second[i]);
    }
    if behind.len() > 0 {
        assert(rest[second.len() as int] == behind[0]);
    }
    lemma_word_end(rest, second.len() as int);
    assert(rest.take(second.len() as int) =~= second);
}

/// A text of one word, or of none, has no second one.
pub proof fn one_word_has_no_second(before: Seq<char>, first: Seq<char>, behind: Seq<char>)
    requires
        text::is_blank_text(before),
        text::is_blank_text(behind),
        is_word(first),
    ensures
        second_word(before + (first + behind)).len() == 0,
        second_word(before).len() == 0,
{
    let s = first + behind;
    lemma_blank_is_skipped(before, s);
    assert forall|i: int| 0 <= i < first.len() implies !is_white_space(#[trigger] s[i]) by {
        assert(s[i] == first[i]);
    }
    if behind.len() > 0 {
        assert(s[first.len() as int] == behind[0]);
    }
    lemma_word_end(s, first.len() as int);
    assert(s.skip(first.len() as int) =~= behind);
    lemma_blank_is_skipped(behind, Seq::empty());
    assert(behind + Seq::empty() =~= behind);
    lemma_blank_is_skipped(before, Seq::empty());
    assert(before + Seq::empty() =~= before);
    assert(Seq::<char>::empty().skip(0) =~= Seq::empty());
}

} // verus!
