//! Server-sent events: reading messages line by line, and writing JSON events.

use vstd::prelude::*;
use vstd::string::*;
use vstd::utf8::*;

use crate::json::{
    is_one_line, json_text, member_str, opt_json, parsed_json, reads_back, Json, JsonView,
};
use crate::text::{self, join_of, opt_text, starts_with, texts, trim_line_end_of, trim_start_of};

verus! {

// ---------------------------------------------------------------------------------------------
// What a stream of lines says
// ---------------------------------------------------------------------------------------------

/// One message of a stream.
#[derive(Debug, Clone, PartialEq, Eq)]
pub struct SseMessage {
    pub event: Option<String>,
    pub data: String,
}

/// What a message says.
pub struct MessageView {
    pub event: Option<Seq<char>>,
    pub data: Seq<char>,
}

impl View for SseMessage {
    type V = MessageView;

    open spec fn view(&self) -> MessageView {
        MessageView { event: opt_text(self.event), data: self.data@ }
    }
}

/// What an optional message says.
pub open spec fn opt_message(m: Option<SseMessage>) -> Option<MessageView> {
    match m {
        Some(m) => Some(m@),
        None => None,
    }
}

/// The message that is being put together out of lines.
pub struct DecoderView {
    pub event: Option<Seq<char>>,
    pub data: Seq<Seq<char>>,
    pub saw_any_line: bool,
}

/// No line of the next message has been seen.
pub open spec fn fresh() -> DecoderView {
    DecoderView { event: None, data: Seq::empty(), saw_any_line: false }
}

/// The line that ends a message.
pub open spec fn is_blank(line: Seq<char>) -> bool {
    line == "\n"@ || line == "\r\n"@
}

/// What a line that does not end the message adds to it: an `event:` line names the event, a
/// `data:` line adds to the data, and any other line adds nothing.
pub open spec fn absorb(d: DecoderView, line: Seq<char>) -> DecoderView {
    let content = trim_line_end_of(line);
    if starts_with(content, "event:"@) {
        DecoderView {
            event: Some(trim_start_of(content.skip("event:"@.len() as int))),
            data: d.data,
            saw_any_line: true,
        }
    } else if starts_with(content, "data:"@) {
        DecoderView {
            event: d.event,
            data: d.data.push(trim_start_of(content.skip("data:"@.len() as int))),
            saw_any_line: true,
        }
    } else {
        DecoderView { event: d.event, data: d.data, saw_any_line: true }
    }
}

/// The message that the lines so far make.
pub open spec fn message_so_far(d: DecoderView) -> MessageView {
    MessageView { event: d.event, data: join_of(d.data, "\n"@) }
}

/// The first message that lines make, and the lines that follow it. At the end of the lines, the
/// lines since the last message make one more, where there are any.
pub open spec fn next_message(d: DecoderView, lines: Seq<Seq<char>>) -> (
    Option<MessageView>,
    Seq<Seq<char>>,
)
    decreases lines.len(),
{
    if lines.len() == 0 {
        if d.saw_any_line {
            (Some(message_so_far(d)), lines)
        } else {
            (None, lines)
        }
    } else if is_blank(lines[0]) {
        (Some(message_so_far(d)), lines.skip(1))
    } else {
        next_message(absorb(d, lines[0]), lines.skip(1))
    }
}

/// The lines of a text, each with its line feed; the last may have none.
pub open spec fn lines_of(s: Seq<char>) -> Seq<Seq<char>>
    decreases s.len(),
{
    if s.len() == 0 {
        Seq::empty()
    } else {
        add_char(lines_of(s.drop_last()), s.last())
    }
}

/// The lines of a text with one more character.
pub open spec fn add_char(lines: Seq<Seq<char>>, c: char) -> Seq<Seq<char>> {
    if lines.len() == 0 || ends_line(lines.last()) {
        lines.push(seq![c])
    } else {
        lines.drop_last().push(lines.last().push(c))
    }
}

/// The text ends with a line feed.
pub open spec fn ends_line(s: Seq<char>) -> bool {
    s.len() > 0 && s.last() == '\n'
}

// ---------------------------------------------------------------------------------------------
// Reading
// ---------------------------------------------------------------------------------------------

/// Puts messages together out of the lines of a stream.
#[derive(Debug)]
pub struct SseDecoder {
    event: Option<String>,
    data_lines: Vec<String>,
    saw_any_line: bool,
}

impl View for SseDecoder {
    type V = DecoderView;

    closed spec fn view(&self) -> DecoderView {
        DecoderView {
            event: opt_text(self.event),
            data: texts(self.data_lines@),
            saw_any_line: self.saw_any_line,
        }
    }
}

impl SseDecoder {
    /// A decoder that has seen no line.
    pub fn new() -> (r: SseDecoder)
        ensures
            r@ == fresh(),
    {
        let r = SseDecoder { event: None, data_lines: Vec::new(), saw_any_line: false };
        assert(texts(r.data_lines@) =~= Seq::empty());
        r
    }

    fn take_message(&mut self) -> (r: SseMessage)
        ensures
            r@ == message_so_far(old(self)@),
            final(self)@ == fresh(),
    {
        let data = text::join(&self.data_lines, "\n");
        let event = self.event.clone();
        *self = SseDecoder::new();
        SseMessage { event, data }
    }

    /// Takes the next line, with its line feed, and returns the message that it ends.
    pub fn push_line(&mut self, line: &str) -> (r: Option<SseMessage>)
        ensures
            is_blank(line@) ==> opt_message(r) == Some(message_so_far(old(self)@))
                && final(self)@ == fresh(),
            !is_blank(line@) ==> r is None && final(self)@ == absorb(old(self)@, line@),
    {
        if text::str_eq(line, "\n") || text::str_eq(line, "\r\n") {
            return Some(self.take_message());
        }
        self.saw_any_line = true;
        let content = text::trim_line_end(line);
        if let Some(value) = text::strip_prefix(content, "event:") {
            self.event = Some(text::owned(text::trim_start(value)));
            return None;
        }
        if let Some(value) = text::strip_prefix(content, "data:") {
            let ghost before = self.data_lines@;
            self.data_lines.push(text::owned(text::trim_start(value)));
            assert(texts(self.data_lines@) =~= texts(before).push(self.data_lines@.last()@));
        }
        None
    }

    /// Ends the stream and returns the message that the lines since the last one make.
    pub fn finish(&mut self) -> (r: Option<SseMessage>)
        ensures
            opt_message(r) == next_message(old(self)@, Seq::empty()).0,
            old(self)@.saw_any_line ==> final(self)@ == fresh(),
            !old(self)@.saw_any_line ==> final(self)@ == old(self)@,
    {
        if self.saw_any_line {
            Some(self.take_message())
        } else {
            None
        }
    }
}

/// Splits a text into its lines.
pub fn split_lines(s: &str) -> (r: Vec<String>)
    ensures
        texts(r@) == lines_of(s@),
{
    let mut lines: Vec<String> = Vec::new();
    let mut line = String::new();
    let mut open = false;
    let ghost mut done: Seq<char> = Seq::empty();
    for c in it: s.chars()
        invariant
            it.seq() == s@,
            done == s@.take(it.index() as int),
            open == (line@.len() > 0),
            open ==> !ends_line(line@),
            forall|i: int| 0 <= i < lines@.len() ==> ends_line(#[trigger] lines@[i]@),
            lines_of(done) == if open {
                texts(lines@).push(line@)
            } else {
                texts(lines@)
            },
    {
        let ghost before = done;
        let ghost was = line@;
        proof {
            done = done.push(c);
            assert(done =~= s@.take(it.index() + 1));
            assert(done.drop_last() =~= before);
            if lines@.len() > 0 {
                assert(texts(lines@).last() == lines@.last()@);
            }
            assert(texts(lines@).push(was).drop_last() =~= texts(lines@));
            assert(!open ==> was.push(c) =~= seq![c]);
        }
        text::push_char(&mut line, c);
        open = true;
        if c == '\n' {
            let ghost ls = lines@;
            lines.push(line);
            assert(texts(lines@) =~= texts(ls).push(line@));
            line = String::new();
            open = false;
        }
    }
    assert(done =~= s@);
    if open {
        let ghost ls = lines@;
        lines.push(line);
        assert(texts(lines@) =~= texts(ls).push(line@));
    }
    lines
}

/// Reads the messages of a stream that is all there.
#[derive(Debug)]
pub struct SseReader {
    lines: Vec<String>,
    next: usize,
}

impl View for SseReader {
    type V = Seq<Seq<char>>;

    closed spec fn view(&self) -> Seq<Seq<char>> {
        texts(self.lines@).skip(self.next as int)
    }
}

impl SseReader {
    #[verifier::type_invariant]
    spec fn inv(self) -> bool {
        self.next <= self.lines@.len()
    }

    /// A reader at the start of the stream `s`.
    pub fn new(s: &str) -> (r: SseReader)
        ensures
            r@ == lines_of(s@),
    {
        let lines = split_lines(s);
        let r = SseReader { lines, next: 0 };
        assert(texts(r.lines@).skip(0) =~= texts(r.lines@));
        r
    }
}

/// Reads the next message of the stream.
pub fn read_sse_message(reader: &mut SseReader) -> (r: Option<SseMessage>)
    ensures
        (opt_message(r), final(reader)@) == next_message(fresh(), old(reader)@),
{
    let mut decoder = SseDecoder::new();
    let ghost all = reader@;
    proof {
        use_type_invariant(&*reader);
    }
    while reader.next < reader.lines.len()
        invariant
            reader.next <= reader.lines@.len(),
            all == old(reader)@,
            next_message(decoder@, reader@) == next_message(fresh(), all),
        decreases reader.lines@.len() - reader.next,
    {
        let ghost lines = reader@;
        let line = reader.lines[reader.next].as_str();
        assert(lines[0] == line@);
        let ghost before = decoder@;
        let message = decoder.push_line(line);
        reader.next = reader.next + 1;
        assert(reader@ =~= lines.skip(1));
        if message.is_some() {
            return message;
        }
    }
    assert(reader@ =~= Seq::empty());
    decoder.finish()
}

/// The document in a message's data.
pub fn parse_sse_json(message: &SseMessage) -> (r: Option<Json>)
    ensures
        opt_json(r) == message_json(message@),
{
    if message.data.as_str().is_empty() {
        return None;
    }
    Json::parse(message.data.as_str())
}

/// The document in a message's data, where the data is not empty.
pub open spec fn message_json(m: MessageView) -> Option<JsonView> {
    if m.data.len() == 0 {
        None
    } else {
        parsed_json(m.data)
    }
}

// ---------------------------------------------------------------------------------------------
// Writing
// ---------------------------------------------------------------------------------------------

/// Why an event cannot be written.
#[derive(Debug, Clone, Copy, PartialEq, Eq, Structural)]
pub enum SseError {
    /// The event has no text under `type`.
    MissingType,
}

impl SseError {
    /// What went wrong, in words.
    pub fn message(&self) -> (r: &'static str)
        ensures
            r@ == "SSE event missing type"@,
    {
        "SSE event missing type"
    }
}

/// The text of an event: its name and its document, ended by an empty line.
pub open spec fn event_text(name: Seq<char>, body: Seq<char>) -> Seq<char> {
    "event: "@ + name + "\r\ndata: "@ + body + "\r\n\r\n"@
}

/// Text without line breaks.
pub open spec fn no_line_break(s: Seq<char>) -> bool {
    forall|i: int| 0 <= i < s.len() ==> #[trigger] s[i] != '\n' && s[i] != '\r'
}

/// What an event is when it is written out: `None` where it has no type.
pub open spec fn event_bytes(event: JsonView) -> Option<Seq<u8>> {
    match member_str(event, "type"@) {
        Some(name) => Some(encode_utf8(event_text(name, json_text(event)))),
        None => None,
    }
}

/// Writes an event as the bytes of a message.
///
/// A reader of those bytes finds the event's type and document again, where the type has no line
/// break and the document is one that comes back from its text.
pub fn serialize_json_event(value: &Json) -> (r: Result<Vec<u8>, SseError>)
    ensures
        match r {
            Ok(bytes) => event_bytes(value@) == Some(bytes@),
            Err(e) => e == SseError::MissingType && event_bytes(value@) is None,
        },
        r is Ok && no_line_break(member_str(value@, "type"@)->0) && reads_back(value@) ==> ({
            let (message, rest) = next_message(fresh(), lines_of(decode_utf8(r->Ok_0@)));
            &&& message matches Some(m)
            &&& m.event == Some(trim_start_of(member_str(value@, "type"@)->0))
            &&& message_json(m) == Some(value@)
            &&& rest.len() == 0
        }),
{
    match value.get_str("type") {
        Some(name) => {
            let body = value.text();
            let mut out = text::concat3("event: ", name, "\r\ndata: ");
            out.append(body.as_str());
            out.append("\r\n\r\n");
            proof {
                assert(out@ == event_text(name@, body@));
                encode_utf8_decode_utf8(out@);
                if no_line_break(name@) && reads_back(value@) {
                    event_text_reads_back(name@, body@, Seq::empty());
                    assert(out@ + Seq::empty() =~= out@);
                }
            }
            Ok(out.as_str().as_bytes_vec())
        },
        None => Err(SseError::MissingType),
    }
}

// ---------------------------------------------------------------------------------------------
// Laws
// ---------------------------------------------------------------------------------------------

/// A message takes at least one line, and the lines after it are fewer.
pub proof fn message_takes_lines(d: DecoderView, lines: Seq<Seq<char>>)
    ensures
        next_message(d, lines).1.len() <= lines.len(),
        next_message(d, lines).0 is Some && !d.saw_any_line ==> next_message(d, lines).1.len()
            < lines.len(),
    decreases lines.len(),
{
    if lines.len() > 0 && !is_blank(lines[0]) {
        message_takes_lines(absorb(d, lines[0]), lines.skip(1));
    }
}

proof fn lemma_lines_append(a: Seq<char>, b: Seq<char>)
    requires
        ends_line(a) || a.len() == 0,
    ensures
        lines_of(a + b) == lines_of(a) + lines_of(b),
    decreases b.len(),
{
    if b.len() == 0 {
        assert(a + b =~= a);
        assert(lines_of(a) + lines_of(b) =~= lines_of(a));
    } else {
        let c = b.last();
        assert((a + b).drop_last() =~= a + b.drop_last());
        lemma_lines_append(a, b.drop_last());
        let la = lines_of(a);
        let lb = lines_of(b.drop_last());
        if lb.len() == 0 {
            assert(la + lb =~= la);
            if a.len() > 0 {
                lemma_last_line(a);
            }
            assert(add_char(la, c) =~= la + add_char(lb, c));
        } else {
            assert((la + lb).last() == lb.last());
            assert(add_char(la + lb, c) =~= la + add_char(lb, c));
        }
    }
}

proof fn lemma_last_line(s: Seq<char>)
    requires
        s.len() > 0,
    ensures
        lines_of(s).len() > 0,
        lines_of(s).last().len() > 0,
        lines_of(s).last().last() == s.last(),
{
}

proof fn lemma_open_line(s: Seq<char>)
    requires
        s.len() > 0,
        forall|i: int| 0 <= i < s.len() ==> s[i] != '\n',
    ensures
        lines_of(s) == seq![s],
    decreases s.len(),
{
    let rest = s.drop_last();
    if rest.len() == 0 {
        assert(lines_of(rest) =~= Seq::empty());
        assert(seq![s.last()] =~= s);
        assert(lines_of(s) =~= seq![s]);
    } else {
        assert(forall|i: int| 0 <= i < rest.len() ==> rest[i] == s[i]);
        lemma_open_line(rest);
        assert(rest.push(s.last()) =~= s);
        assert(lines_of(s) =~= seq![s]);
    }
}

proof fn lemma_one_line(s: Seq<char>)
    requires
        forall|i: int| 0 <= i < s.len() ==> s[i] != '\n',
    ensures
        lines_of(s.push('\n')) == seq![s.push('\n')],
{
    let t = s.push('\n');
    assert(t.drop_last() =~= s);
    if s.len() > 0 {
        lemma_open_line(s);
        assert(lines_of(t) =~= seq![t]);
    } else {
        assert(lines_of(s) =~= Seq::empty());
        assert(seq![t.last()] =~= t);
        assert(lines_of(t) =~= seq![t]);
    }
}

proof fn lemma_trimmed(content: Seq<char>)
    requires
        no_line_break(content),
    ensures
        trim_line_end_of(content + "\r\n"@) == content,
{
    reveal_strlit("\r\n");
    let s = content + "\r\n"@;
    assert(s.drop_last() =~= content.push('\r'));
    assert(content.push('\r').drop_last() =~= content);
    reveal_with_fuel(trim_line_end_of, 3);
}

/// A written event is read back as one message, with the event's name (but for white space at
/// its start) and its document's text, and what follows it is left as it is.
pub proof fn event_text_reads_back(name: Seq<char>, body: Seq<char>, after: Seq<char>)
    requires
        no_line_break(name),
        is_one_line(body),
    ensures
        next_message(fresh(), lines_of(event_text(name, body) + after)) == (
            Some(MessageView { event: Some(trim_start_of(name)), data: body }),
            lines_of(after),
        ),
{
    reveal_strlit("event: ");
    reveal_strlit("event:");
    reveal_strlit("data:");
    reveal_strlit("\r\ndata: ");
    reveal_strlit("\r\n\r\n");
    reveal_strlit("\r\n");
    reveal_strlit("\n");
    let c1 = "event: "@ + name;
    let c2 = "data: "@ + body;
    reveal_strlit("data: ");
    let l1 = c1 + "\r\n"@;
    let l2 = c2 + "\r\n"@;
    let l3 = "\r\n"@;
    assert(no_line_break(c1));
    assert(no_line_break(c2));
    let text = event_text(name, body) + after;
    assert(text =~= l1 + (l2 + (l3 + after)));
    assert(l1 =~= c1.push('\r').push('\n'));
    assert(l2 =~= c2.push('\r').push('\n'));
    assert(l3 =~= seq!['\r'].push('\n'));
    lemma_one_line(c1.push('\r'));
    lemma_one_line(c2.push('\r'));
    lemma_one_line(seq!['\r']);
    lemma_lines_append(l3, after);
    lemma_lines_append(l2, l3 + after);
    lemma_lines_append(l1, l2 + (l3 + after));
    let lines = lines_of(text);
    assert(lines =~= seq![l1, l2, l3] + lines_of(after));
    lemma_trimmed(c1);
    lemma_trimmed(c2);
    let d0 = fresh();
    let d1 = absorb(d0, l1);
    let d2 = absorb(d1, l2);
    assert(c1.take(6) =~= "event:"@);
    let v1 = c1.skip(6);
    assert(v1[0] == ' ');
    assert(v1.skip(1) =~= name);
    assert(trim_start_of(v1) == trim_start_of(name));
    assert(c2.take(5) =~= "data:"@);
    assert(c2[0] == 'd');
    assert(!starts_with(c2, "event:"@)) by {
        assert("event:"@[0] == 'e');
        if starts_with(c2, "event:"@) {
            assert(c2.take(6)[0] == c2[0]);
        }
    }
    let v2 = c2.skip(5);
    assert(v2[0] == ' ');
    assert(v2.skip(1) =~= body);
    assert(trim_start_of(v2) == trim_start_of(body));
    assert(trim_start_of(body) == body);
    assert(d1.event == Some(trim_start_of(name)));
    assert(d1.data =~= Seq::empty());
    assert(d2.data =~= seq![body]);
    assert(join_of(seq![body], "\n"@) =~= body) by {
        reveal_with_fuel(join_of, 2);
    }
    assert(!is_blank(l1)) by {
        assert(l1[0] == 'e');
    }
    assert(!is_blank(l2)) by {
        assert(l2[0] == 'd');
    }
    assert(is_blank(l3));
    let r1 = lines.skip(1);
    let r2 = r1.skip(1);
    assert(lines[0] == l1 && r1[0] == l2 && r2[0] == l3);
    assert(next_message(d2, r2) == (Some(message_so_far(d2)), r2.skip(1)));
    assert(next_message(d1, r1) == next_message(d2, r2));
    assert(next_message(d0, lines) == next_message(d1, r1));
    assert(r2.skip(1) =~= lines_of(after));
}

/// A line that begins with the word for it names the event or adds to the data, without the white
/// space before what it says; every other line only shows that a message is there.
pub proof fn lines_say_what_they_begin_with(d: DecoderView, said: Seq<char>, line: Seq<char>)
    requires
        no_line_break(said),
    ensures
        ({
            let named = absorb(d, "event:"@ + said + "\r\n"@);
            let told = absorb(d, "data:"@ + said + "\r\n"@);
            let other = absorb(d, line);
            let content = trim_line_end_of(line);
            &&& named.event == Some(trim_start_of(said)) && named.data == d.data
                && named.saw_any_line
            &&& told.event == d.event && told.data == d.data.push(trim_start_of(said))
                && told.saw_any_line
            &&& !starts_with(content, "event:"@) && !starts_with(content, "data:"@) ==> other.event
                == d.event && other.data == d.data && other.saw_any_line
        }),
{
    reveal_strlit("event:");
    reveal_strlit("data:");
    let e = "event:"@ + said;
    let t = "data:"@ + said;
    lemma_trimmed(e);
    lemma_trimmed(t);
    assert(e.subrange(0, 6) =~= "event:"@);
    assert(e.skip(6) =~= said);
    assert(t.subrange(0, 5) =~= "data:"@);
    assert(t.skip(5) =~= said);
    assert("event:"@[0] == 'e');
    assert(t[0] == 'd');
    if starts_with(t, "event:"@) {
        assert(t.subrange(0, 6)[0] == t[0]);
    }
}

/// A message ends at an empty line, and else where the lines end. Its data are the data lines,
/// with line feeds between them.
pub proof fn messages_end_at_empty_lines(
    d: DecoderView,
    line: Seq<char>,
    rest: Seq<Seq<char>>,
    first: Seq<char>,
    second: Seq<char>,
)
    ensures
        is_blank(line) <==> line == "\n"@ || line == "\r\n"@,
        is_blank(line) ==> next_message(d, seq![line] + rest) == (Some(message_so_far(d)), rest),
        !is_blank(line) ==> next_message(d, seq![line] + rest) == next_message(
            absorb(d, line),
            rest,
        ),
        d.saw_any_line ==> next_message(d, Seq::empty()).0 == Some(message_so_far(d)),
        !d.saw_any_line ==> next_message(d, Seq::empty()).0 is None,
        message_so_far(d).event == d.event,
        d.data.len() == 0 ==> message_so_far(d).data.len() == 0,
        d.data == seq![first] ==> message_so_far(d).data == first,
        d.data == seq![first, second] ==> message_so_far(d).data == first + "\n"@ + second,
        fresh().event is None && fresh().data.len() == 0 && !fresh().saw_any_line,
{
    assert((seq![line] + rest)[0] == line);
    assert((seq![line] + rest).skip(1) =~= rest);
    reveal_with_fuel(join_of, 3);
    assert(seq![first, second].drop_last() =~= seq![first]);
}

/// The lines of a text make up the text, one after the other; each ends at its only line feed,
/// but for the last, which may have none.
pub proof fn lines_make_up_the_text(s: Seq<char>)
    ensures
        join_of(lines_of(s), Seq::empty()) == s,
        forall|i: int| 0 <= i < lines_of(s).len() ==> (#[trigger] lines_of(s)[i]).len() > 0,
        forall|i: int| 0 <= i < lines_of(s).len() - 1 ==> ends_line(#[trigger] lines_of(s)[i]),
        forall|i: int, j: int|
            0 <= i < lines_of(s).len() && 0 <= j < lines_of(s)[i].len() - 1
                ==> #[trigger] lines_of(s)[i][j] != '\n',
    decreases s.len(),
{
    if s.len() > 0 {
        let before = lines_of(s.drop_last());
        let c = s.last();
        let after = lines_of(s);
        lines_make_up_the_text(s.drop_last());
        if before.len() == 0 || ends_line(before.last()) {
            assert(after.drop_last() =~= before);
            if before.len() == 0 {
                assert(s.drop_last() =~= Seq::empty());
                assert(after[0] =~= s);
            } else {
                assert(join_of(after, Seq::empty()) =~= join_of(before, Seq::empty())
                    + Seq::empty() + seq![c]);
                assert(join_of(after, Seq::empty()) =~= s);
            }
        } else {
            let front = before.drop_last();
            assert(after.drop_last() =~= front);
            assert(after.last() == before.last().push(c));
            if front.len() == 0 {
                assert(before[0] == s.drop_last());
                assert(after[0] =~= s);
            } else {
                assert(join_of(before, Seq::empty()) == join_of(front, Seq::empty())
                    + Seq::empty() + before.last());
                assert(join_of(after, Seq::empty()) == join_of(front, Seq::empty()) + Seq::empty()
                    + after.last());
                assert(join_of(after, Seq::empty()) =~= join_of(before, Seq::empty()).push(c));
                assert(s =~= s.drop_last().push(c));
            }
            assert forall|i: int| 0 <= i < after.len() - 1 implies ends_line(
                #[trigger] after[i],
            ) by {
                assert(after[i] == before[i]);
            }
            assert forall|i: int, j: int|
                0 <= i < after.len() && 0 <= j < after[i].len() - 1 implies #[trigger] after[i][j]
                != '\n' by {
                if i < front.len() {
                    assert(after[i] == before[i]);
                    assert(before[i][j] != '\n');
                } else {
                    assert(after[i][j] == before.last()[j]);
                    assert(before[before.len() - 1] == before.last());
                    if j < before.last().len() - 1 {
                        assert(before[before.len() - 1][j] != '\n');
                    }
                }
            }
        }
    } else {
        assert(lines_of(s).len() == 0);
    }
}

/// An event is written with the text under its type and its whole document; one without such a
/// text is not written. Empty data hold no document.
pub proof fn events_are_written_with_their_type(event: JsonView, m: MessageView)
    ensures
        match member_str(event, "type"@) {
            Some(name) => event_bytes(event) == Some(
                encode_utf8("event: "@ + name + "\r\ndata: "@ + json_text(event) + "\r\n\r\n"@),
            ),
            None => event_bytes(event) is None,
        },
        m.data.len() == 0 ==> message_json(m) is None,
        m.data.len() > 0 ==> message_json(m) == parsed_json(m.data),
{
}

} // verus!
