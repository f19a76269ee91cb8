//! Reading one LF-terminated UTF-8 line while never keeping more than a
//! fixed number of bytes.
//!
//! An oversized line is drained through its newline so the next line can
//! still be read; the returned text excludes the LF or CRLF delimiter. The
//! reading is done by a [`LineAssembler`] fed the chunks a buffered reader
//! hands out, or over bytes already in memory by [`read_bounded_line`].
use crate::text::{chars_to_string, str_to_chars, utf8_decode};
use vstd::prelude::*;
use vstd::utf8::{decode_utf8, valid_utf8};

verus! {

#[verifier::external_type_specification]
#[verifier::external_body]
pub struct ExIoError(std::io::Error);

#[derive(Debug)]
pub enum ReadFrameError {
    Io(std::io::Error),
    TooLong { limit: usize },
    InvalidUtf8,
}

/// What reading a line gives.
pub enum ReadLineView {
    /// The stream ended before the line began.
    End,
    /// The text of the line.
    Line(Seq<char>),
    /// The line was longer than the limit.
    TooLong { limit: nat },
    /// The line was not UTF-8.
    InvalidUtf8,
    /// The underlying reader failed.
    Io,
}

/// The view of a line read.
pub open spec fn read_result_view(result: Result<Option<String>, ReadFrameError>) -> ReadLineView {
    match result {
        Ok(None) => ReadLineView::End,
        Ok(Some(text)) => ReadLineView::Line(text@),
        Err(ReadFrameError::TooLong { limit }) => ReadLineView::TooLong { limit: limit as nat },
        Err(ReadFrameError::InvalidUtf8) => ReadLineView::InvalidUtf8,
        Err(ReadFrameError::Io(_)) => ReadLineView::Io,
    }
}

/// Index of the first LF of `bytes`.
pub open spec fn newline_index(bytes: Seq<u8>) -> Option<nat>
    decreases bytes.len(),
{
    if bytes.len() == 0 {
        None
    } else if bytes[0] == 10 {
        Some(0)
    } else {
        match newline_index(bytes.drop_first()) {
            Some(index) => Some(index + 1),
            None => None,
        }
    }
}

pub proof fn lemma_newline_index(bytes: Seq<u8>)
    ensures
        newline_index(bytes) matches Some(index) ==> index < bytes.len() && bytes[index as int]
            == 10 && forall|j: int| 0 <= j < index ==> bytes[j] != 10,
        newline_index(bytes) is None ==> forall|j: int| 0 <= j < bytes.len() ==> bytes[j] != 10,
    decreases bytes.len(),
{
    if bytes.len() > 0 {
        lemma_newline_index(bytes.drop_first());
        if bytes[0] != 10 {
            assert forall|j: int| 1 <= j < bytes.len() implies bytes[j] == bytes.drop_first()[j
                - 1] by {}
        }
    }
}

proof fn lemma_newline_index_at(bytes: Seq<u8>, index: nat)
    requires
        index < bytes.len(),
        bytes[index as int] == 10,
        forall|j: int| 0 <= j < index ==> bytes[j] != 10,
    ensures
        newline_index(bytes) == Some(index),
{
    lemma_newline_index(bytes);
    match newline_index(bytes) {
        Some(found) => {
            if found < index {
                assert(bytes[found as int] != 10);
            } else if found > index {
                assert(bytes[index as int] != 10);
            }
        },
        None => {
            assert(bytes[index as int] != 10);
        },
    }
}

proof fn lemma_no_newline(bytes: Seq<u8>)
    requires
        forall|j: int| 0 <= j < bytes.len() ==> bytes[j] != 10,
    ensures
        newline_index(bytes) is None,
{
    lemma_newline_index(bytes);
    if let Some(found) = newline_index(bytes) {
        assert(bytes[found as int] != 10);
    }
}

/// What the content of a line gives: too long, or one trailing CR dropped
/// and the rest decoded as UTF-8.
pub open spec fn line_outcome(content: Seq<u8>, limit: nat) -> ReadLineView {
    if content.len() > limit {
        ReadLineView::TooLong { limit }
    } else {
        let bytes = if content.len() > 0 && content.last() == 13 {
            content.drop_last()
        } else {
            content
        };
        if valid_utf8(bytes) {
            ReadLineView::Line(decode_utf8(bytes))
        } else {
            ReadLineView::InvalidUtf8
        }
    }
}

/// Reading one line from `stream`: how many bytes are consumed and what the
/// line gives.
pub open spec fn read_line_spec(stream: Seq<u8>, limit: nat) -> (nat, ReadLineView) {
    match newline_index(stream) {
        Some(index) => (index + 1, line_outcome(stream.take(index as int), limit)),
        None => if stream.len() == 0 {
            (0, ReadLineView::End)
        } else {
            (stream.len(), line_outcome(stream, limit))
        },
    }
}

/// The state of a line being read: its limit, the content bytes seen so far
/// and whether its newline has been seen.
pub struct AssemblerView {
    pub limit: nat,
    pub seen: Seq<u8>,
    pub complete: bool,
}

/// Feeding one chunk: its bytes up to the first newline join the line, and
/// the newline itself is consumed too.
pub open spec fn feed_spec(state: AssemblerView, chunk: Seq<u8>) -> (AssemblerView, nat) {
    match newline_index(chunk) {
        Some(index) => (
            AssemblerView {
                limit: state.limit,
                seen: state.seen + chunk.take(index as int),
                complete: true,
            },
            index + 1,
        ),
        None => (
            AssemblerView { limit: state.limit, seen: state.seen + chunk, complete: false },
            chunk.len(),
        ),
    }
}

/// What a line gives once its newline or the end of the stream is reached.
pub open spec fn finish_spec(state: AssemblerView) -> ReadLineView {
    if !state.complete && state.seen.len() == 0 {
        ReadLineView::End
    } else {
        line_outcome(state.seen, state.limit)
    }
}

/// Collects one line from successive chunks, keeping at most `limit` bytes.
pub struct LineAssembler {
    limit: usize,
    output: Vec<u8>,
    oversized: bool,
    complete: bool,
    seen: Ghost<Seq<u8>>,
}

impl View for LineAssembler {
    type V = AssemblerView;

    closed spec fn view(&self) -> AssemblerView {
        AssemblerView { limit: self.limit as nat, seen: self.seen@, complete: self.complete }
    }
}

impl LineAssembler {
    /// The kept bytes are the line's content unless it outgrew the limit.
    pub closed spec fn well_formed(self) -> bool {
        &&& self.oversized == (self.seen@.len() > self.limit)
        &&& !self.oversized ==> self.output@ == self.seen@
    }

    /// An assembler for a line of at most `limit` bytes.
    pub fn new(limit: usize) -> (assembler: Self)
        ensures
            assembler@ == (AssemblerView { limit: limit as nat, seen: Seq::empty(), complete: false }),
            assembler.well_formed(),
    {
        LineAssembler {
            limit,
            output: Vec::new(),
            oversized: false,
            complete: false,
            seen: Ghost(Seq::empty()),
        }
    }

    /// Whether the line's newline has been seen.
    pub fn is_complete(&self) -> (complete: bool)
        ensures
            complete == self@.complete,
    {
        self.complete
    }

    /// Take the line's bytes from `chunk`, up to and including its first
    /// newline; returns how many bytes were taken.
    pub fn feed(&mut self, chunk: &[u8]) -> (consumed: usize)
        requires
            old(self).well_formed(),
            !old(self)@.complete,
        ensures
            final(self).well_formed(),
            (final(self)@, consumed as nat) == feed_spec(old(self)@, chunk@),
    {
        proof {
            lemma_newline_index(chunk@);
        }
        let mut end: usize = 0;
        while end < chunk.len() && chunk[end] != 10
            invariant
                end <= chunk@.len(),
                forall|j: int| 0 <= j < end ==> chunk@[j] != 10,
            decreases chunk@.len() - end,
        {
            end = end + 1;
        }
        let found = end < chunk.len();
        proof {
            if found {
                lemma_newline_index_at(chunk@, end as nat);
            } else {
                lemma_no_newline(chunk@);
                assert(chunk@.take(end as int) =~= chunk@);
            }
        }
        let ghost content = chunk@.take(end as int);
        let ghost seen = self.seen@ + content;
        if !self.oversized {
            if end > self.limit || self.output.len() > self.limit - end {
                self.output = Vec::new();
                self.oversized = true;
            } else {
                append_prefix(&mut self.output, chunk, end);
            }
        }
        self.seen = Ghost(seen);
        self.complete = found;
        if found {
            end + 1
        } else {
            end
        }
    }

    /// The line, once its newline or the end of the stream is reached.
    pub fn finish(self) -> (result: Result<Option<String>, ReadFrameError>)
        requires
            self.well_formed(),
        ensures
            read_result_view(result) == finish_spec(self@),
    {
        if !self.complete && !self.oversized && self.output.len() == 0 {
            return Ok(None);
        }
        if self.oversized {
            return Err(ReadFrameError::TooLong { limit: self.limit });
        }
        let mut bytes = self.output;
        let len = bytes.len();
        if len > 0 && bytes[len - 1] == 13 {
            bytes.pop();
            assert(bytes@ =~= self.seen@.drop_last());
        }
        match utf8_decode(bytes.as_slice()) {
            Some(text) => {
                let chars = str_to_chars(text);
                Ok(Some(chars_to_string(chars.as_slice())))
            },
            None => Err(ReadFrameError::InvalidUtf8),
        }
    }
}

/// Append the first `end` bytes of `chunk`.
fn append_prefix(out: &mut Vec<u8>, chunk: &[u8], end: usize)
    requires
        end <= chunk@.len(),
    ensures
        final(out)@ == old(out)@ + chunk@.take(end as int),
{
    let ghost start = out@;
    let mut index: usize = 0;
    while index < end
        invariant
            index <= end <= chunk@.len(),
            out@ == start + chunk@.take(index as int),
        decreases end - index,
    {
        out.push(chunk[index]);
        index = index + 1;
        assert(out@ =~= start + chunk@.take(index as int));
    }
}

/// Read one line from `input` at `position`, moving `position` past it.
pub fn read_bounded_line(input: &[u8], position: &mut usize, limit: usize) -> (result: Result<
    Option<String>,
    ReadFrameError,
>)
    requires
        *old(position) <= input@.len(),
    ensures
        ({
            let (consumed, line) = read_line_spec(input@.skip(*old(position) as int), limit as nat);
            &&& *final(position) == *old(position) + consumed
            &&& read_result_view(result) == line
        }),
{
    let start = *position;
    let rest = vstd::slice::slice_subrange(input, start, input.len());
    assert(rest@ =~= input@.skip(start as int));
    let mut assembler = LineAssembler::new(limit);
    let consumed = assembler.feed(rest);
    proof {
        lemma_newline_index(rest@);
        assert(Seq::<u8>::empty() + rest@ =~= rest@);
        if let Some(index) = newline_index(rest@) {
            assert(Seq::<u8>::empty() + rest@.take(index as int) =~= rest@.take(index as int));
        }
    }
    *position = start + consumed;
    assembler.finish()
}

/// Feeding a line in two chunks, the first without a newline, is feeding it
/// in one: the result does not depend on how the reader splits its buffer.
pub proof fn lemma_feed_split(state: AssemblerView, first: Seq<u8>, second: Seq<u8>)
    requires
        newline_index(first) is None,
    ensures
        feed_spec(feed_spec(state, first).0, second).0 == feed_spec(state, first + second).0,
        feed_spec(state, first).1 + feed_spec(feed_spec(state, first).0, second).1 == feed_spec(
            state,
            first + second,
        ).1,
{
    let whole = first + second;
    lemma_newline_index(first);
    lemma_newline_index(second);
    match newline_index(second) {
        Some(index) => {
            let at = first.len() + index;
            assert(whole[at as int] == second[index as int]);
            assert forall|j: int| 0 <= j < first.len() + index implies whole[j] != 10 by {
                if j >= first.len() {
                    assert(whole[j] == second[j - first.len()]);
                }
            }
            lemma_newline_index_at(whole, at);
            assert(first + second.take(index as int) =~= whole.take(at as int));
            assert(state.seen + first + second.take(index as int) =~= state.seen + whole.take(at as int));
        },
        None => {
            assert forall|j: int| 0 <= j < whole.len() implies whole[j] != 10 by {
                if j >= first.len() {
                    assert(whole[j] == second[j - first.len()]);
                }
            }
            lemma_no_newline(whole);
            assert(state.seen + first + second =~= state.seen + whole);
        },
    }
}

/// Reading a whole stream at once is feeding it to a fresh assembler and
/// finishing.
pub proof fn lemma_read_is_feed(stream: Seq<u8>, limit: nat)
    ensures
        ({
            let fresh = AssemblerView { limit, seen: Seq::empty(), complete: false };
            let (state, consumed) = feed_spec(fresh, stream);
            read_line_spec(stream, limit) == (consumed, finish_spec(state))
        }),
{
    assert(Seq::<u8>::empty() + stream =~= stream);
    if let Some(index) = newline_index(stream) {
        assert(Seq::<u8>::empty() + stream.take(index as int) =~= stream.take(index as int));
    }
}

} // verus!
