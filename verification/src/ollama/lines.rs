//! Splitting a streamed answer into lines as its bytes arrive.
use vstd::prelude::*;

verus! {

pub open spec fn no_newline(s: Seq<u8>) -> bool {
    forall|i: int| 0 <= i < s.len() ==> #[trigger] s[i] != 10u8
}

/// The bytes of complete lines, each followed by its newline.
pub open spec fn with_newlines(lines: Seq<Seq<u8>>) -> Seq<u8>
    decreases lines.len(),
{
    if lines.len() == 0 {
        Seq::empty()
    } else {
        with_newlines(lines.drop_last()) + lines.last().push(10u8)
    }
}

pub open spec fn line_views(v: Seq<Vec<u8>>) -> Seq<Seq<u8>> {
    v.map_values(|l: Vec<u8>| l@)
}

/// The bytes of a line that has not ended yet.
pub struct LineBuffer {
    buffer: Vec<u8>,
}

impl View for LineBuffer {
    type V = Seq<u8>;

    closed spec fn view(&self) -> Seq<u8> {
        self.buffer@
    }
}

impl LineBuffer {
    #[verifier::type_invariant]
    spec fn holds_one_partial_line(self) -> bool {
        no_newline(self.buffer@)
    }

    pub fn new() -> (r: LineBuffer)
        ensures
            r@ == Seq::<u8>::empty(),
    {
        LineBuffer { buffer: Vec::new() }
    }

    /// The lines a chunk completes, without their newlines. No byte is lost:
    /// the pending bytes and the chunk are the completed lines, each with its
    /// newline, followed by the bytes now pending.
    pub fn push_chunk(&mut self, chunk: &[u8]) -> (lines: Vec<Vec<u8>>)
        ensures
            old(self)@ + chunk@ == with_newlines(line_views(lines@)) + final(self)@,
            no_newline(final(self)@),
            forall|i: int| 0 <= i < lines.len() ==> no_newline(#[trigger] lines@[i]@),
    {
        proof {
            use_type_invariant(&*self);
        }
        let ghost start = self.buffer@;
        let mut lines: Vec<Vec<u8>> = Vec::new();
        let mut pending: Vec<u8> = Vec::new();
        std::mem::swap(&mut pending, &mut self.buffer);
        let mut i: usize = 0;
        while i < chunk.len()
            invariant
                i <= chunk.len(),
                start + chunk@.subrange(0, i as int) == with_newlines(line_views(lines@)) + pending@,
                no_newline(pending@),
                forall|k: int| 0 <= k < lines.len() ==> no_newline(#[trigger] lines@[k]@),
            decreases chunk.len() - i,
        {
            let byte = chunk[i];
            let ghost before = line_views(lines@);
            if byte == 10u8 {
                let mut line: Vec<u8> = Vec::new();
                std::mem::swap(&mut line, &mut pending);
                let ghost l = line@;
                lines.push(line);
                assert(line_views(lines@) =~= before.push(l));
                assert(line_views(lines@).drop_last() =~= before);
                assert(start + chunk@.subrange(0, i + 1) =~= (start + chunk@.subrange(0, i as int)).push(
                    10u8,
                ));
                assert(with_newlines(line_views(lines@)) =~= with_newlines(before) + l.push(10u8));
            } else {
                pending.push(byte);
                assert(start + chunk@.subrange(0, i + 1) =~= (start + chunk@.subrange(0, i as int)).push(
                    byte,
                ));
            }
            i = i + 1;
        }
        assert(chunk@.subrange(0, chunk.len() as int) =~= chunk@);
        self.buffer = pending;
        lines
    }

    /// The bytes of the last, unterminated line.
    pub fn finish(self) -> (rest: Vec<u8>)
        ensures
            rest@ == self@,
            no_newline(rest@),
    {
        proof {
            use_type_invariant(&self);
        }
        self.buffer
    }
}

} // verus!
