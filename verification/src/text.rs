//! Lines of a byte stream, as a buffered reader hands them out: a line ends
//! at a line feed, a carriage return just before that line feed belongs to
//! the terminator, and a last line without a line feed is a line as long as
//! it holds at least one byte.

use vstd::prelude::*;
use vstd::slice::slice_subrange;
use vstd::utf8::{decode_utf8, valid_utf8};

verus! {

/// The line feed.
pub const LF: u8 = 10;

/// The carriage return.
pub const CR: u8 = 13;

/// The number of bytes before the first line feed, or the length of `bytes`
/// where they hold none.
pub open spec fn line_end(bytes: Seq<u8>) -> nat
    decreases bytes.len(),
{
    if bytes.len() == 0 || bytes[0] == LF {
        0
    } else {
        1 + line_end(bytes.drop_first())
    }
}

/// A line without the carriage return that its terminator began with.
pub open spec fn without_cr(line: Seq<u8>) -> Seq<u8> {
    if line.len() > 0 && line.last() == CR {
        line.drop_last()
    } else {
        line
    }
}

/// The lines of `bytes`, in order and without their terminators.
pub open spec fn lines(bytes: Seq<u8>) -> Seq<Seq<u8>>
    decreases bytes.len(),
{
    if bytes.len() == 0 {
        Seq::empty()
    } else {
        let end = line_end(bytes) as int;
        if end < bytes.len() {
            seq![without_cr(bytes.take(end))] + lines(bytes.skip(end + 1))
        } else {
            seq![bytes]
        }
    }
}

/// What a list of borrowed lines holds.
pub open spec fn contents(list: Seq<&[u8]>) -> Seq<Seq<u8>> {
    list.map_values(|line: &[u8]| line@)
}

/// `line_end` is the one position that no line feed precedes and that is
/// either a line feed or the end.
pub proof fn lemma_line_end(bytes: Seq<u8>, end: int)
    requires
        0 <= end <= bytes.len(),
        forall|j: int| 0 <= j < end ==> bytes[j] != LF,
        end < bytes.len() ==> bytes[end] == LF,
    ensures
        line_end(bytes) == end,
    decreases bytes.len(),
{
    if end > 0 {
        let rest = bytes.drop_first();
        assert forall|j: int| 0 <= j < end - 1 implies rest[j] != LF by {
            assert(rest[j] == bytes[j + 1]);
        }
        lemma_line_end(rest, end - 1);
    }
}

/// The first line ends where the first line feed stands: no line feed comes
/// before `line_end`, and one stands there unless the bytes are used up.
pub proof fn lemma_line_end_is_first(bytes: Seq<u8>)
    ensures
        line_end(bytes) <= bytes.len(),
        forall|j: int| 0 <= j < line_end(bytes) ==> bytes[j] != LF,
        line_end(bytes) < bytes.len() ==> bytes[line_end(bytes) as int] == LF,
    decreases bytes.len(),
{
    if bytes.len() != 0 && bytes[0] != LF {
        let rest = bytes.drop_first();
        lemma_line_end_is_first(rest);
        assert forall|j: int| 0 <= j < line_end(bytes) implies bytes[j] != LF by {
            if j > 0 {
                assert(bytes[j] == rest[j - 1]);
            }
        }
        if line_end(bytes) < bytes.len() {
            assert(bytes[line_end(bytes) as int] == rest[line_end(rest) as int]);
        }
    }
}

/// A stretch without a line feed, closed by one, is one line.
pub proof fn lemma_one_line(line: Seq<u8>)
    requires
        forall|j: int| 0 <= j < line.len() ==> line[j] != LF,
    ensures
        lines(line.push(LF)) == seq![without_cr(line)],
{
    let bytes = line.push(LF);
    lemma_line_end(bytes, line.len() as int);
    assert(bytes.take(line.len() as int) =~= line);
    assert(bytes.skip(line.len() as int + 1) =~= Seq::<u8>::empty());
    assert(lines(Seq::<u8>::empty()) =~= Seq::<Seq<u8>>::empty());
    assert(lines(bytes) =~= seq![without_cr(line)]);
}

/// A stretch without a line feed that holds a byte, with nothing behind it,
/// is one line, and is taken whole.
pub proof fn lemma_last_line(line: Seq<u8>)
    requires
        line.len() > 0,
        forall|j: int| 0 <= j < line.len() ==> line[j] != LF,
    ensures
        lines(line) == seq![line],
{
    lemma_line_end(line, line.len() as int);
}

/// Behind bytes that end with a line feed, or behind none at all, a new
/// line starts: the lines of the whole are those of the two parts.
pub proof fn lemma_lines_concat(head: Seq<u8>, tail: Seq<u8>)
    requires
        head.len() > 0 ==> head.last() == LF,
    ensures
        lines(head + tail) == lines(head) + lines(tail),
    decreases head.len(),
{
    if head.len() == 0 {
        assert(head + tail =~= tail);
        assert(lines(head) + lines(tail) =~= lines(tail));
    } else {
        let whole = head + tail;
        let end = line_end(head) as int;
        lemma_line_end_is_first(head);
        assert(end < head.len());
        assert forall|j: int| 0 <= j < end implies whole[j] != LF by {
            assert(whole[j] == head[j]);
        }
        assert(whole[end] == head[end]);
        lemma_line_end(whole, end);
        assert(whole.take(end) =~= head.take(end));
        let rest = head.skip(end + 1);
        assert(whole.skip(end + 1) =~= rest + tail);
        if rest.len() > 0 {
            assert(rest.last() == head.last());
        }
        lemma_lines_concat(rest, tail);
        assert(lines(whole) =~= lines(head) + lines(tail));
    }
}

/// Splits `bytes` into its lines. Nothing is copied: each line borrows its
/// stretch of `bytes`.
pub fn split_lines<'a>(bytes: &'a [u8]) -> (list: Vec<&'a [u8]>)
    ensures
        contents(list@) == lines(bytes@),
{
    let mut list: Vec<&'a [u8]> = Vec::new();
    let mut start: usize = 0;
    let mut at: usize = 0;
    assert(bytes@.skip(0) =~= bytes@);
    assert(contents(list@) =~= Seq::<Seq<u8>>::empty());
    while at < bytes.len()
        invariant
            start <= at <= bytes.len(),
            forall|j: int| start <= j < at ==> bytes@[j] != LF,
            lines(bytes@) == contents(list@) + lines(bytes@.skip(start as int)),
        decreases bytes.len() - at,
    {
        if bytes[at] == LF {
            let stop: usize = if at > start && bytes[at - 1] == CR {
                at - 1
            } else {
                at
            };
            let line = slice_subrange(bytes, start, stop);
            proof {
                let tail = bytes@.skip(start as int);
                lemma_line_end(tail, at - start);
                assert(tail.take(at - start) =~= bytes@.subrange(start as int, at as int));
                assert(line@ =~= without_cr(tail.take(at - start)));
                assert(tail.skip(at - start + 1) =~= bytes@.skip(at + 1));
                assert(contents(list@.push(line)) =~= contents(list@) + seq![line@]);
            }
            list.push(line);
            start = at + 1;
        }
        at += 1;
    }
    if start < bytes.len() {
        let line = slice_subrange(bytes, start, bytes.len());
        proof {
            let tail = bytes@.skip(start as int);
            lemma_line_end(tail, tail.len() as int);
            assert(line@ =~= tail);
            assert(contents(list@.push(line)) =~= contents(list@) + seq![line@]);
        }
        list.push(line);
    }
    list
}

/// The error of `core::str::from_utf8`, carried and never looked into.
#[verifier::external_type_specification]
#[verifier::external_body]
pub struct ExUtf8Error(core::str::Utf8Error);

/// `core::str::from_utf8` accepts exactly the byte strings that are
/// well-formed UTF-8, and the string slice it then gives holds the characters
/// that those bytes encode.
pub assume_specification[ core::str::from_utf8 ](v: &[u8]) -> (r: Result<
    &str,
    core::str::Utf8Error,
>)
    ensures
        r is Ok <==> valid_utf8(v@),
        r matches Ok(text) ==> text@ == decode_utf8(v@),
;

/// The text that `line` encodes, or `None` where it is not UTF-8.
pub fn decode(line: &[u8]) -> (text: Option<String>)
    ensures
        text is Some <==> valid_utf8(line@),
        text matches Some(t) ==> t@ == decode_utf8(line@),
{
    match core::str::from_utf8(line) {
        Ok(text) => Some(text.to_owned()),
        Err(_) => None,
    }
}

} // verus!
