//! The newline codec: turning a stream of byte chunks into discrete
//! lines, verbatim.
//!
//! A reader task feeds whatever chunks the socket hands it into a
//! `LineAssembler` and publishes every completed line.  The assembler's
//! contract pins the split exactly: the concatenation of the emitted
//! lines followed by the bytes still pending equals the bytes fed in,
//! every emitted line ends with the one `\n` it contains, and no `\n`
//! is ever left pending.  That decomposition is unique, so nothing is
//! lost, duplicated or reordered on the way from bytes to messages.

use vstd::prelude::*;

verus! {

/// The newline delimiter.
pub const LINE_DELIMITER: u8 = 10;

/// One complete line: non-empty, terminated by its only `\n`.
pub open spec fn is_line(s: Seq<u8>) -> bool {
    &&& s.len() > 0
    &&& s[s.len() - 1] == LINE_DELIMITER
    &&& forall|i: int| 0 <= i < s.len() - 1 ==> s[i] != LINE_DELIMITER
}

/// No `\n` anywhere: what may stay pending in the assembler.
pub open spec fn no_delimiter(s: Seq<u8>) -> bool {
    forall|i: int| 0 <= i < s.len() ==> s[i] != LINE_DELIMITER
}

/// The views of a vector of byte lines.
pub open spec fn line_views(ls: Seq<Vec<u8>>) -> Seq<Seq<u8>> {
    ls.map_values(|l: Vec<u8>| l@)
}

/// All the bytes of `lines`, in order.
pub open spec fn flat(lines: Seq<Seq<u8>>) -> Seq<u8>
    decreases lines.len(),
{
    if lines.len() == 0 {
        Seq::empty()
    } else {
        flat(lines.drop_last()) + lines.last()
    }
}

pub proof fn lemma_flat_push(lines: Seq<Seq<u8>>, line: Seq<u8>)
    ensures
        flat(lines.push(line)) == flat(lines) + line,
{
    assert(lines.push(line).drop_last() =~= lines);
    assert(lines.push(line).last() == line);
}

/// Accumulates bytes until a `\n` completes a line.
pub struct LineAssembler {
    buf: Vec<u8>,
}

impl LineAssembler {
    /// The bytes received so far that belong to no complete line yet.
    pub closed spec fn pending(self) -> Seq<u8> {
        self.buf@
    }

    /// A `\n` never stays pending: it always completes a line.
    pub open spec fn wf(self) -> bool {
        no_delimiter(self.pending())
    }

    pub fn new() -> (a: LineAssembler)
        ensures
            a.wf(),
            a.pending() == Seq::<u8>::empty(),
    {
        LineAssembler { buf: Vec::new() }
    }

    /// Feeds one chunk of bytes and returns the lines it completed, in
    /// order and verbatim, trailing delimiter included.
    pub fn feed(&mut self, chunk: &[u8]) -> (lines: Vec<Vec<u8>>)
        requires
            old(self).wf(),
        ensures
            final (self).wf(),
            flat(line_views(lines@)) + final (self).pending() == old(self).pending() + chunk@,
            forall|i: int| 0 <= i < lines@.len() ==> is_line(#[trigger] line_views(lines@)[i]),
    {
        let mut lines: Vec<Vec<u8>> = Vec::new();
        let mut i: usize = 0;
        while i < chunk.len()
            invariant
                i <= chunk.len(),
                no_delimiter(self.buf@),
                flat(line_views(lines@)) + self.buf@ == old(self).pending() + chunk@.subrange(
                    0,
                    i as int,
                ),
                forall|j: int| 0 <= j < lines@.len() ==> is_line(#[trigger] line_views(lines@)[j]),
            decreases chunk.len() - i,
        {
            let ghost prev_lines = lines@;
            let ghost prev_buf = self.buf@;
            let b = chunk[i];
            self.buf.push(b);
            proof {
                assert(chunk@.subrange(0, i + 1) =~= chunk@.subrange(0, i as int).push(b));
                assert((flat(line_views(prev_lines)) + prev_buf).push(b) =~= flat(
                    line_views(prev_lines),
                ) + prev_buf.push(b));
                assert((old(self).pending() + chunk@.subrange(0, i as int)).push(b) =~= old(
                    self,
                ).pending() + chunk@.subrange(0, i + 1));
            }
            if b == LINE_DELIMITER {
                let mut line: Vec<u8> = Vec::new();
                core::mem::swap(&mut line, &mut self.buf);
                assert(is_line(line@));
                lines.push(line);
                proof {
                    assert(line_views(lines@) =~= line_views(prev_lines).push(prev_buf.push(b)));
                    lemma_flat_push(line_views(prev_lines), prev_buf.push(b));
                    assert(flat(line_views(lines@)) + self.buf@ =~= flat(line_views(prev_lines))
                        + prev_buf.push(b));
                }
            }
            assert(flat(line_views(lines@)) + self.buf@ == old(self).pending() + chunk@.subrange(
                0,
                i + 1,
            ));
            i = i + 1;
        }
        proof {
            assert(chunk@.subrange(0, chunk@.len() as int) =~= chunk@);
        }
        lines
    }
}

/// Relies on `String::from_utf8`: it returns `Ok` exactly when the
/// bytes are valid UTF-8, and the returned string holds those bytes.
#[verifier::external_body]
fn string_from_utf8(bytes: &Vec<u8>) -> (r: Option<String>)
    ensures
        r is Some <==> vstd::utf8::valid_utf8(bytes@),
        r matches Some(s) ==> vstd::utf8::encode_utf8(s@) == bytes@,
{
    String::from_utf8(bytes.clone()).ok()
}

/// Decodes completed lines into text messages, in order, stopping at
/// the first line that is not valid UTF-8.  The flag reports whether
/// such a line was hit: a decode error is scoped to the connection that
/// sent the bytes, which is then closed, and never crashes the process.
pub fn decode_lines(lines: Vec<Vec<u8>>) -> (r: (Vec<String>, bool))
    ensures
        r.0@.len() <= lines@.len(),
        forall|j: int|
            0 <= j < r.0@.len() ==> vstd::utf8::valid_utf8(#[trigger] lines@[j]@)
                && vstd::utf8::encode_utf8(r.0@[j]@) == lines@[j]@,
        r.0@.len() < lines@.len() ==> !vstd::utf8::valid_utf8(lines@[r.0@.len() as int]@),
        r.1 <==> r.0@.len() < lines@.len(),
{
    let mut msgs: Vec<String> = Vec::new();
    let mut i: usize = 0;
    while i < lines.len()
        invariant
            i <= lines@.len(),
            msgs@.len() == i,
            forall|j: int|
                0 <= j < i ==> vstd::utf8::valid_utf8(#[trigger] lines@[j]@)
                    && vstd::utf8::encode_utf8(msgs@[j]@) == lines@[j]@,
        decreases lines@.len() - i,
    {
        match string_from_utf8(&lines[i]) {
            Some(s) => {
                msgs.push(s);
                i = i + 1;
            },
            None => {
                return (msgs, true);
            },
        }
    }
    (msgs, false)
}

} // verus!
