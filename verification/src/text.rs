//! Text helpers: the string operations that the rest of the library is written with, each stated
//! over the sequence of characters that a string holds.

use vstd::prelude::*;
use vstd::string::*;

verus! {

// ---------------------------------------------------------------------------------------------
// Statements
// ---------------------------------------------------------------------------------------------

/// The characters with the Unicode property `White_Space`.
pub open spec fn is_white_space(c: char) -> bool {
    ||| '\u{9}' <= c <= '\u{d}'
    ||| c == ' '
    ||| c == '\u{85}'
    ||| c == '\u{a0}'
    ||| c == '\u{1680}'
    ||| '\u{2000}' <= c <= '\u{200a}'
    ||| c == '\u{2028}'
    ||| c == '\u{2029}'
    ||| c == '\u{202f}'
    ||| c == '\u{205f}'
    ||| c == '\u{3000}'
}

/// `s` without the white space that it starts with.
pub open spec fn trim_start_of(s: Seq<char>) -> Seq<char>
    decreases s.len(),
{
    if s.len() > 0 && is_white_space(s[0]) {
        trim_start_of(s.drop_first())
    } else {
        s
    }
}

/// `s` without the white space that it ends with.
pub open spec fn trim_end_of(s: Seq<char>) -> Seq<char>
    decreases s.len(),
{
    if s.len() > 0 && is_white_space(s.last()) {
        trim_end_of(s.drop_last())
    } else {
        s
    }
}

/// `s` without white space at either end.
pub open spec fn trim_of(s: Seq<char>) -> Seq<char> {
    trim_end_of(trim_start_of(s))
}

/// `s` without the carriage returns and line feeds that it ends with.
pub open spec fn trim_line_end_of(s: Seq<char>) -> Seq<char>
    decreases s.len(),
{
    if s.len() > 0 && (s.last() == '\r' || s.last() == '\n') {
        trim_line_end_of(s.drop_last())
    } else {
        s
    }
}

/// Whether `s` begins with `prefix`.
pub open spec fn starts_with(s: Seq<char>, prefix: Seq<char>) -> bool {
    prefix.len() <= s.len() && s.subrange(0, prefix.len() as int) == prefix
}

/// Whether `needle` occurs in `s`.
pub open spec fn contains_text(s: Seq<char>, needle: Seq<char>) -> bool {
    exists|i: int|
        0 <= i && i + needle.len() <= s.len() && #[trigger] s.subrange(i, i + needle.len())
            == needle
}

/// An ASCII capital letter in lower case; any other character as it is.
pub open spec fn ascii_lower_char(c: char) -> char {
    if 'A' <= c <= 'Z' {
        ((c as u32) + 32) as char
    } else {
        c
    }
}

/// `s` with its ASCII capital letters in lower case.
pub open spec fn ascii_lower(s: Seq<char>) -> Seq<char> {
    s.map_values(|c: char| ascii_lower_char(c))
}

/// The texts of `parts` with `sep` between each two neighbours.
pub open spec fn join_of(parts: Seq<Seq<char>>, sep: Seq<char>) -> Seq<char>
    decreases parts.len(),
{
    if parts.len() == 0 {
        Seq::empty()
    } else if parts.len() == 1 {
        parts[0]
    } else {
        join_of(parts.drop_last(), sep) + sep + parts.last()
    }
}

/// The texts that a list of strings holds.
pub open spec fn texts(v: Seq<String>) -> Seq<Seq<char>> {
    v.map_values(|s: String| s@)
}

/// The text that an optional string holds.
pub open spec fn opt_text(o: Option<String>) -> Option<Seq<char>> {
    match o {
        Some(s) => Some(s@),
        None => None,
    }
}

/// The order of strings: character by character, a proper prefix first.
pub open spec fn text_less(a: Seq<char>, b: Seq<char>) -> bool
    decreases a.len(),
{
    if b.len() == 0 {
        false
    } else if a.len() == 0 {
        true
    } else if a[0] == b[0] {
        text_less(a.drop_first(), b.drop_first())
    } else {
        a[0] < b[0]
    }
}

/// The decimal digit `d`.
pub open spec fn digit_char(d: int) -> char {
    (('0' as u32) + d) as char
}

/// The decimal digits of `n`, the most significant first.
pub open spec fn decimal_nat(n: nat) -> Seq<char>
    decreases n,
{
    if n < 10 {
        seq![digit_char(n as int)]
    } else {
        decimal_nat(n / 10).push(digit_char((n % 10) as int))
    }
}

/// `n` in decimal notation, with a sign where it is negative.
pub open spec fn decimal(n: int) -> Seq<char> {
    if n < 0 {
        seq!['-'] + decimal_nat((-n) as nat)
    } else {
        decimal_nat(n as nat)
    }
}

// ---------------------------------------------------------------------------------------------
// Standard library
// ---------------------------------------------------------------------------------------------

/// Wraps `==` of `str`, which compares the two texts.
#[verifier::external_body]
pub(crate) fn str_eq(a: &str, b: &str) -> (r: bool)
    ensures
        r == (a@ == b@),
{
    a == b
}

/// Wraps `String::push`, which appends one character.
#[verifier::external_body]
pub(crate) fn push_char(s: &mut String, c: char)
    ensures
        final(s)@ == old(s)@.push(c),
{
    s.push(c)
}

// ---------------------------------------------------------------------------------------------
// Operations
// ---------------------------------------------------------------------------------------------

/// The characters of a string.
pub fn chars_of(s: &str) -> (r: Vec<char>)
    ensures
        r@ == s@,
{
    let mut out: Vec<char> = Vec::new();
    for c in it: s.chars()
        invariant
            out@ == it.seq().take(it.index() as int),
            it.seq() == s@,
    {
        out.push(c);
    }
    assert(s@.take(s@.len() as int) == s@);
    out
}

/// An owned copy of `s`.
pub fn owned(s: &str) -> (r: String)
    ensures
        r@ == s@,
{
    s.to_owned()
}

/// `a` followed by `b`.
pub fn concat2(a: &str, b: &str) -> (r: String)
    ensures
        r@ == a@ + b@,
{
    let mut r = a.to_owned();
    r.append(b);
    r
}

/// `a`, `b` and `c`, one after the other.
pub fn concat3(a: &str, b: &str, c: &str) -> (r: String)
    ensures
        r@ == a@ + b@ + c@,
{
    let mut r = a.to_owned();
    r.append(b);
    r.append(c);
    r
}

/// Whether a character is white space.
pub fn char_is_white_space(c: char) -> (r: bool)
    ensures
        r == is_white_space(c),
{
    ('\u{9}' <= c && c <= '\u{d}') || c == ' ' || c == '\u{85}' || c == '\u{a0}' || c
        == '\u{1680}' || ('\u{2000}' <= c && c <= '\u{200a}') || c == '\u{2028}' || c
        == '\u{2029}' || c == '\u{202f}' || c == '\u{205f}' || c == '\u{3000}'
}

proof fn lemma_trim_start(s: Seq<char>, n: int)
    requires
        0 <= n <= s.len(),
        forall|i: int| 0 <= i < n ==> is_white_space(#[trigger] s[i]),
        n < s.len() ==> !is_white_space(s[n]),
    ensures
        trim_start_of(s) == s.subrange(n, s.len() as int),
    decreases n,
{
    if n == 0 {
        assert(s.subrange(0, s.len() as int) == s);
    } else {
        lemma_trim_start(s.drop_first(), n - 1);
        assert(s.drop_first().subrange(n - 1, s.len() - 1) == s.subrange(n, s.len() as int));
    }
}

proof fn lemma_trim_end(s: Seq<char>, n: int)
    requires
        0 <= n <= s.len(),
        forall|i: int| n <= i < s.len() ==> is_white_space(#[trigger] s[i]),
        n > 0 ==> !is_white_space(s[n - 1]),
    ensures
        trim_end_of(s) == s.subrange(0, n),
    decreases s.len() - n,
{
    if n == s.len() {
        assert(s.subrange(0, n) == s);
    } else {
        lemma_trim_end(s.drop_last(), n);
        assert(s.drop_last().subrange(0, n) == s.subrange(0, n));
    }
}

/// `s` without leading white space.
pub fn trim_start(s: &str) -> (r: &str)
    ensures
        r@ == trim_start_of(s@),
{
    let chars = chars_of(s);
    let mut n: usize = 0;
    while n < chars.len() && char_is_white_space(chars[n])
        invariant
            n <= chars.len(),
            chars@ == s@,
            forall|i: int| 0 <= i < n ==> is_white_space(#[trigger] s@[i]),
        decreases chars.len() - n,
    {
        n += 1;
    }
    proof {
        lemma_trim_start(s@, n as int);
    }
    s.substring_char(n, chars.len())
}

/// `s` without leading and trailing white space.
pub fn trim(s: &str) -> (r: &str)
    ensures
        r@ == trim_of(s@),
{
    let start = trim_start(s);
    let chars = chars_of(start);
    let mut n: usize = chars.len();
    while n > 0 && char_is_white_space(chars[n - 1])
        invariant
            n <= chars.len(),
            chars@ == start@,
            forall|i: int| n <= i < chars.len() ==> is_white_space(#[trigger] start@[i]),
        decreases n,
    {
        n -= 1;
    }
    proof {
        lemma_trim_end(start@, n as int);
    }
    start.substring_char(0, n)
}

proof fn lemma_trim_line_end(s: Seq<char>, n: int)
    requires
        0 <= n <= s.len(),
        forall|i: int| n <= i < s.len() ==> (#[trigger] s[i] == '\r' || s[i] == '\n'),
        n > 0 ==> s[n - 1] != '\r' && s[n - 1] != '\n',
    ensures
        trim_line_end_of(s) == s.subrange(0, n),
    decreases s.len() - n,
{
    if n == s.len() {
        assert(s.subrange(0, n) == s);
    } else {
        lemma_trim_line_end(s.drop_last(), n);
        assert(s.drop_last().subrange(0, n) == s.subrange(0, n));
    }
}

/// `s` without the carriage returns and line feeds at its end.
pub fn trim_line_end(s: &str) -> (r: &str)
    ensures
        r@ == trim_line_end_of(s@),
{
    let chars = chars_of(s);
    let mut n: usize = chars.len();
    while n > 0 && (chars[n - 1] == '\r' || chars[n - 1] == '\n')
        invariant
            n <= chars.len(),
            chars@ == s@,
            forall|i: int| n <= i < chars.len() ==> (#[trigger] s@[i] == '\r' || s@[i] == '\n'),
        decreases n,
    {
        n -= 1;
    }
    proof {
        lemma_trim_line_end(s@, n as int);
    }
    s.substring_char(0, n)
}

/// What follows `prefix` in `s`, where `s` begins with it.
pub fn strip_prefix<'a>(s: &'a str, prefix: &str) -> (r: Option<&'a str>)
    ensures
        match r {
            Some(rest) => starts_with(s@, prefix@) && rest@ == s@.skip(prefix@.len() as int),
            None => !starts_with(s@, prefix@),
        },
{
    let n = prefix.unicode_len();
    let len = s.unicode_len();
    if n <= len && str_eq(s.substring_char(0, n), prefix) {
        let rest = s.substring_char(n, len);
        assert(rest@ == s@.skip(prefix@.len() as int));
        Some(rest)
    } else {
        None
    }
}

/// Whether `needle` occurs in `s`.
pub fn contains(s: &str, needle: &str) -> (r: bool)
    ensures
        r == contains_text(s@, needle@),
{
    let hay = chars_of(s);
    let pat = chars_of(needle);
    if pat.len() > hay.len() {
        return false;
    }
    let last: usize = hay.len() - pat.len();
    let mut i: usize = 0;
    while i <= last
        invariant
            hay@ == s@,
            pat@ == needle@,
            last == hay.len() - pat.len(),
            pat.len() <= hay.len(),
            i <= last + 1,
            forall|k: int| 0 <= k < i ==> #[trigger] s@.subrange(k, k + needle@.len()) != needle@,
        decreases last + 1 - i,
    {
        let mut j: usize = 0;
        while j < pat.len() && hay[i + j] == pat[j]
            invariant
                hay@ == s@,
                pat@ == needle@,
                j <= pat.len(),
                i + pat.len() <= hay.len(),
                forall|k: int| 0 <= k < j ==> s@[i + k] == needle@[k],
            decreases pat.len() - j,
        {
            j += 1;
        }
        if j == pat.len() {
            assert(s@.subrange(i as int, i + needle@.len()) == needle@);
            return true;
        }
        assert(s@.subrange(i as int, i + needle@.len())[j as int] != needle@[j as int]);
        if i == last {
            return false;
        }
        i += 1;
    }
    false
}

/// `s` with its ASCII capital letters in lower case.
pub fn to_ascii_lowercase(s: &str) -> (r: String)
    ensures
        r@ == ascii_lower(s@),
{
    let mut out = String::new();
    for c in it: s.chars()
        invariant
            out@ == ascii_lower(it.seq().take(it.index() as int)),
            it.seq() == s@,
    {
        let lower = if 'A' <= c && c <= 'Z' {
            ((c as u8) + 32) as char
        } else {
            c
        };
        push_char(&mut out, lower);
        assert(ascii_lower(s@.take(it.index() + 1)) == ascii_lower(
            s@.take(it.index() as int),
        ).push(lower));
    }
    assert(s@.take(s@.len() as int) == s@);
    out
}

/// Whether `a` and `b` are equal but for the case of ASCII letters.
pub fn eq_ignore_ascii_case(a: &str, b: &str) -> (r: bool)
    ensures
        r == (ascii_lower(a@) == ascii_lower(b@)),
{
    to_ascii_lowercase(a) == to_ascii_lowercase(b)
}

/// The strings of `parts` with `sep` between each two neighbours.
pub fn join(parts: &Vec<String>, sep: &str) -> (r: String)
    ensures
        r@ == join_of(texts(parts@), sep@),
{
    let mut out = String::new();
    let ghost all = texts(parts@);
    for i in 0..parts.len()
        invariant
            all == texts(parts@),
            out@ == join_of(all.take(i as int), sep@),
    {
        if i > 0 {
            out.append(sep);
        }
        out.append(parts[i].as_str());
        assert(all.take(i + 1).drop_last() == all.take(i as int));
        if i == 0 {
            assert(out@ == all[0]);
        }
    }
    assert(all.take(all.len() as int) == all);
    out
}

/// Whether `a` comes before `b`.
pub fn is_text_less(a: &str, b: &str) -> (r: bool)
    ensures
        r == text_less(a@, b@),
{
    let x = chars_of(a);
    let y = chars_of(b);
    let mut i: usize = 0;
    assert(a@.skip(0) == a@ && b@.skip(0) == b@);
    while i < x.len() && i < y.len() && x[i] == y[i]
        invariant
            x@ == a@,
            y@ == b@,
            i <= x.len(),
            i <= y.len(),
            text_less(a@, b@) == text_less(a@.skip(i as int), b@.skip(i as int)),
        decreases x.len() - i,
    {
        assert(a@.skip(i as int).drop_first() == a@.skip(i + 1));
        assert(b@.skip(i as int).drop_first() == b@.skip(i + 1));
        i += 1;
    }
    if i >= y.len() {
        false
    } else if i >= x.len() {
        true
    } else {
        x[i] < y[i]
    }
}

/// No text comes before itself, and of two different texts exactly one comes first.
pub proof fn text_order_is_total(a: Seq<char>, b: Seq<char>)
    ensures
        !text_less(a, a),
        a != b ==> text_less(a, b) != text_less(b, a),
    decreases a.len(),
{
    if a.len() > 0 {
        text_order_is_total(a.drop_first(), a.drop_first());
        if b.len() > 0 && a[0] == b[0] {
            text_order_is_total(a.drop_first(), b.drop_first());
            if a.drop_first() == b.drop_first() {
                assert(a == seq![a[0]] + a.drop_first());
                assert(b == seq![b[0]] + b.drop_first());
            }
        }
    } else {
        assert(b.len() == 0 ==> a == b);
    }
}

/// Where `a` comes before `b` and `b` before `c`, `a` comes before `c`.
pub proof fn text_order_is_transitive(a: Seq<char>, b: Seq<char>, c: Seq<char>)
    requires
        text_less(a, b),
        text_less(b, c),
    ensures
        text_less(a, c),
    decreases a.len(),
{
    if a.len() > 0 && a[0] == b[0] && b[0] == c[0] {
        text_order_is_transitive(a.drop_first(), b.drop_first(), c.drop_first());
    }
}

fn digit(d: u64) -> (c: char)
    requires
        d < 10,
    ensures
        c == digit_char(d as int),
{
    ((48 + d) as u8) as char
}

/// `n` in decimal notation.
pub fn u64_text(n: u64) -> (r: String)
    ensures
        r@ == decimal(n as int),
    decreases n,
{
    if n < 10 {
        let mut out = String::new();
        push_char(&mut out, digit(n));
        assert(out@ == seq![digit_char(n as int)]);
        out
    } else {
        let mut out = u64_text(n / 10);
        push_char(&mut out, digit(n % 10));
        out
    }
}

/// `n` in decimal notation.
pub fn i64_text(n: i64) -> (r: String)
    ensures
        r@ == decimal(n as int),
{
    if n < 0 {
        let magnitude: u64 = if n == i64::MIN {
            9_223_372_036_854_775_808
        } else {
            (-n) as u64
        };
        let mut out = String::new();
        push_char(&mut out, '-');
        let digits = u64_text(magnitude);
        out.append(digits.as_str());
        assert(out@ == seq!['-'] + decimal_nat((-n) as nat));
        out
    } else {
        u64_text(n as u64)
    }
}

// ---------------------------------------------------------------------------------------------
// Laws
// ---------------------------------------------------------------------------------------------

/// All of the text is white space.
pub open spec fn is_blank_text(s: Seq<char>) -> bool {
    forall|i: int| 0 <= i < s.len() ==> is_white_space(#[trigger] s[i])
}

proof fn lemma_trimmed_start(s: Seq<char>)
    ensures
        ({
            let kept = trim_start_of(s);
            let n = s.len() - kept.len();
            &&& 0 <= n <= s.len()
            &&& kept == s.skip(n)
            &&& is_blank_text(s.take(n))
            &&& kept.len() > 0 ==> !is_white_space(kept[0])
        }),
    decreases s.len(),
{
    if s.len() > 0 && is_white_space(s[0]) {
        let rest = s.drop_first();
        lemma_trimmed_start(rest);
        let kept = trim_start_of(rest);
        let m = rest.len() - kept.len();
        assert(rest.skip(m) =~= s.skip(m + 1));
        assert forall|i: int| 0 <= i < m + 1 implies is_white_space(
            #[trigger] s.take(m + 1)[i],
        ) by {
            if i > 0 {
                assert(rest.take(m)[i - 1] == s[i]);
            }
        }
    } else {
        assert(s.skip(0) =~= s);
    }
}

proof fn lemma_trimmed_end(s: Seq<char>)
    ensures
        ({
            let kept = trim_end_of(s);
            &&& kept.len() <= s.len()
            &&& kept == s.take(kept.len() as int)
            &&& is_blank_text(s.skip(kept.len() as int))
            &&& kept.len() > 0 ==> !is_white_space(kept.last())
        }),
    decreases s.len(),
{
    if s.len() > 0 && is_white_space(s.last()) {
        let rest = s.drop_last();
        lemma_trimmed_end(rest);
        let kept = trim_end_of(rest);
        let n = kept.len() as int;
        assert(rest.take(n) =~= s.take(n));
        assert forall|i: int| 0 <= i < s.len() - n implies is_white_space(
            #[trigger] s.skip(n)[i],
        ) by {
            if i < rest.len() - n {
                assert(rest.skip(n)[i] == s[n + i]);
            } else {
                assert(s.skip(n)[i] == s.last());
            }
        }
    } else {
        assert(s.take(s.len() as int) =~= s);
    }
}

/// Trimming takes white space away from both ends and nothing else: what is left neither begins
/// nor ends with white space, and what was taken away is nothing but that. Nothing is left of a
/// text exactly where all of it is white space.
pub proof fn trimming_takes_white_space_only(s: Seq<char>)
    ensures
        ({
            let kept = trim_of(s);
            &&& kept.len() > 0 ==> !is_white_space(kept[0]) && !is_white_space(kept.last())
            &&& exists|start: int, end: int|
                0 <= start <= end <= s.len() && kept == #[trigger] s.subrange(start, end)
                    && is_blank_text(s.take(start)) && is_blank_text(s.skip(end))
            &&& kept.len() == 0 <==> is_blank_text(s)
        }),
{
    lemma_trimmed_start(s);
    let front = trim_start_of(s);
    lemma_trimmed_end(front);
    let kept = trim_end_of(front);
    let start = s.len() - front.len();
    let end = start + kept.len();
    assert(kept =~= s.subrange(start, end));
    assert(s.skip(end) =~= front.skip(kept.len() as int));
    assert(0 <= start <= end <= s.len() && kept == s.subrange(start, end) && is_blank_text(
        s.take(start),
    ) && is_blank_text(s.skip(end)));
    if kept.len() > 0 {
        assert(kept[0] == front[0]);
        assert(front[0] == s[start]);
        assert(kept.last() == s[end - 1]);
    } else {
        assert forall|i: int| 0 <= i < s.len() implies is_white_space(#[trigger] s[i]) by {
            if i < start {
                assert(s.take(start)[i] == s[i]);
            } else {
                assert(s.skip(end)[i - end] == s[i]);
            }
        }
    }
}

/// The end of a line is taken away and nothing else.
pub proof fn line_ends_are_taken_away(s: Seq<char>)
    ensures
        ({
            let kept = trim_line_end_of(s);
            &&& kept.len() <= s.len()
            &&& kept == s.take(kept.len() as int)
            &&& kept.len() > 0 ==> kept.last() != '\r' && kept.last() != '\n'
            &&& forall|i: int| kept.len() <= i < s.len() ==> (#[trigger] s[i] == '\r' || s[i] == '\n')
        }),
    decreases s.len(),
{
    if s.len() > 0 && (s.last() == '\r' || s.last() == '\n') {
        let rest = s.drop_last();
        line_ends_are_taken_away(rest);
        let n = trim_line_end_of(rest).len() as int;
        assert(rest.take(n) =~= s.take(n));
        assert forall|i: int| n <= i < s.len() implies (#[trigger] s[i] == '\r' || s[i] == '\n') by {
            if i < rest.len() {
                assert(rest[i] == s[i]);
            }
        }
    } else {
        assert(s.take(s.len() as int) =~= s);
    }
}

/// Joining puts the separator between each two neighbours and nowhere else.
pub proof fn joining_separates_neighbours(
    parts: Seq<Seq<char>>,
    part: Seq<char>,
    sep: Seq<char>,
)
    ensures
        join_of(Seq::empty(), sep).len() == 0,
        join_of(seq![part], sep) == part,
        parts.len() > 0 ==> join_of(parts.push(part), sep) == join_of(parts, sep) + sep + part,
{
    assert(parts.push(part).drop_last() =~= parts);
}

/// ASCII capital letters become the small letters that stand 32 places behind them, and every
/// other character stays.
pub proof fn capitals_become_small(s: Seq<char>, i: int)
    requires
        0 <= i < s.len(),
    ensures
        ascii_lower(s).len() == s.len(),
        'A' <= s[i] <= 'Z' ==> ascii_lower(s)[i] as int == s[i] as int + 32,
        !('A' <= s[i] <= 'Z') ==> ascii_lower(s)[i] == s[i],
{
}

/// One text is less than another where it is the beginning of it, or where at the first place at
/// which they differ its character is less.
pub proof fn texts_are_ordered_by_the_first_difference(a: Seq<char>, b: Seq<char>, n: int)
    requires
        0 <= n <= a.len(),
        n <= b.len(),
        a.take(n) == b.take(n),
    ensures
        n == a.len() && n < b.len() ==> text_less(a, b),
        n == b.len() ==> !text_less(a, b),
        n < a.len() && n < b.len() && a[n] != b[n] ==> (text_less(a, b) <==> a[n] < b[n]),
    decreases n,
{
    if n > 0 {
        assert(a.take(n)[0] == a[0] && b.take(n)[0] == b[0]);
        let ra = a.drop_first();
        let rb = b.drop_first();
        assert forall|i: int| 0 <= i < n - 1 implies #[trigger] ra.take(n - 1)[i] == rb.take(
            n - 1,
        )[i] by {
            assert(a.take(n)[i + 1] == a[i + 1] && b.take(n)[i + 1] == b[i + 1]);
            assert(ra.take(n - 1)[i] == a[i + 1] && rb.take(n - 1)[i] == b[i + 1]);
        }
        assert(ra.take(n - 1) =~= rb.take(n - 1));
        texts_are_ordered_by_the_first_difference(ra, rb, n - 1);
    }
}

/// The number that digits write.
pub open spec fn written_number(digits: Seq<char>) -> int
    decreases digits.len(),
{
    if digits.len() == 0 {
        0
    } else {
        written_number(digits.drop_last()) * 10 + (digits.last() as int - '0' as int)
    }
}

/// The first ten numbers are written as their digits.
pub proof fn digits_are_written()
    ensures
        decimal(0) == seq!['0'] && decimal(1) == seq!['1'] && decimal(2) == seq!['2'] && decimal(3)
            == seq!['3'] && decimal(4) == seq!['4'] && decimal(5) == seq!['5'] && decimal(6)
            == seq!['6'] && decimal(7) == seq!['7'] && decimal(8) == seq!['8'] && decimal(9)
            == seq!['9'],
{
    assert(decimal(0) =~= seq!['0']);
    assert(decimal(1) =~= seq!['1']);
    assert(decimal(2) =~= seq!['2']);
    assert(decimal(3) =~= seq!['3']);
    assert(decimal(4) =~= seq!['4']);
    assert(decimal(5) =~= seq!['5']);
    assert(decimal(6) =~= seq!['6']);
    assert(decimal(7) =~= seq!['7']);
    assert(decimal(8) =~= seq!['8']);
    assert(decimal(9) =~= seq!['9']);
}

proof fn lemma_decimal_nat(n: nat)
    ensures
        decimal_nat(n).len() > 0,
        written_number(decimal_nat(n)) == n,
        forall|i: int| 0 <= i < decimal_nat(n).len() ==> '0' <= #[trigger] decimal_nat(n)[i] <= '9',
        n > 0 ==> decimal_nat(n)[0] != '0',
    decreases n,
{
    if n < 10 {
        let d = digit_char(n as int);
        assert(decimal_nat(n) == seq![d]);
        assert(seq![d].drop_last() =~= Seq::<char>::empty());
        assert(written_number(Seq::<char>::empty()) == 0);
    } else {
        lemma_decimal_nat(n / 10);
        let digits = decimal_nat(n);
        assert(digits.drop_last() =~= decimal_nat(n / 10));
        assert(digits[0] == decimal_nat(n / 10)[0]);
    }
}

/// A number is written in digits that say it, without a zero at the front, and with a sign before
/// them where it is negative.
pub proof fn numbers_are_written_as_they_are(n: int)
    ensures
        n >= 0 ==> written_number(decimal(n)) == n && (forall|i: int|
            0 <= i < decimal(n).len() ==> '0' <= #[trigger] decimal(n)[i] <= '9'),
        n > 0 ==> decimal(n)[0] != '0',
        n < 0 ==> decimal(n)[0] == '-' && decimal(n).skip(1) == decimal(-n),
        decimal(n).len() > 0,
{
    if n < 0 {
        assert(decimal(n).skip(1) =~= decimal(-n));
    } else {
        lemma_decimal_nat(n as nat);
    }
}

/// The characters that are white space, by their numbers.
pub proof fn white_space_is_known_by_number(c: char)
    ensures
        is_white_space(c) <==> {
            let n = c as u32;
            ||| 9 <= n <= 13
            ||| n == 32
            ||| n == 0x85
            ||| n == 0xa0
            ||| n == 0x1680
            ||| 0x2000 <= n <= 0x200a
            ||| n == 0x2028
            ||| n == 0x2029
            ||| n == 0x202f
            ||| n == 0x205f
            ||| n == 0x3000
        },
{
}

/// A text begins with another exactly where it is that and something behind it.
pub proof fn beginnings_are_followed_by_the_rest(s: Seq<char>, prefix: Seq<char>, rest: Seq<char>)
    ensures
        starts_with(prefix + rest, prefix),
        starts_with(s, prefix) ==> s == prefix + s.skip(prefix.len() as int),
{
    assert((prefix + rest).subrange(0, prefix.len() as int) =~= prefix);
    if starts_with(s, prefix) {
        assert(s =~= s.subrange(0, prefix.len() as int) + s.skip(prefix.len() as int));
    }
}

/// A text occurs in another exactly where that is something, the text, and something behind it.
pub proof fn occurrences_have_a_place(
    s: Seq<char>,
    needle: Seq<char>,
    before: Seq<char>,
    behind: Seq<char>,
)
    ensures
        contains_text(before + needle + behind, needle),
        contains_text(s, needle) ==> exists|i: int|
            0 <= i <= s.len() - needle.len() && #[trigger] s.take(i) + needle + s.skip(
                i + needle.len(),
            ) == s,
{
    let n = before.len() as int;
    let all = before + needle + behind;
    assert(all.subrange(n, n + needle.len()) =~= needle);
    if contains_text(s, needle) {
        let i = choose|i: int|
            0 <= i && i + needle.len() <= s.len() && #[trigger] s.subrange(i, i + needle.len())
                == needle;
        assert(s.take(i) + s.subrange(i, i + needle.len()) + s.skip(i + needle.len()) =~= s);
    }
}

} // verus!
