//! The connection reader's line framing: buffer incoming bytes and hand out
//! complete newline-terminated lines. Buffering is bounded: a line longer
//! than the framer's limit is a protocol error, not unbounded memory.

use vstd::prelude::*;

verus! {

/// The newline terminator.
pub open spec fn newline() -> u8 {
    10u8
}

/// A recoverable per-connection protocol error.
#[derive(Clone, Copy, PartialEq, Eq, Structural, Debug)]
pub enum FrameError {
    /// The current line grew past the framer's limit without a terminator.
    LineTooLong,
}

/// What feeding a chunk of bytes yields: the lines completed in order, the
/// bytes left buffered, and whether a line passed the limit (framing stops
/// there).
#[verifier::ext_equal]
pub ghost struct FeedV {
    /// The completed lines, terminators included.
    pub lines: Seq<Seq<u8>>,
    /// The incomplete line left in the buffer.
    pub rest: Seq<u8>,
    /// The current line passed the limit; the rest of the chunk was not
    /// consumed.
    pub toolong: bool,
}

/// Feeding `chunk` byte by byte into a framer whose buffer holds `buf`.
pub open spec fn feed_all(buf: Seq<u8>, chunk: Seq<u8>, limit: int) -> FeedV
    decreases chunk.len(),
{
    if chunk.len() == 0 {
        FeedV { lines: Seq::empty(), rest: buf, toolong: false }
    } else if chunk[0] == newline() {
        let sub = feed_all(Seq::empty(), chunk.skip(1), limit);
        FeedV { lines: seq![buf.push(newline())] + sub.lines, ..sub }
    } else if buf.len() + 1 < limit {
        feed_all(buf.push(chunk[0]), chunk.skip(1), limit)
    } else {
        FeedV { lines: Seq::empty(), rest: buf, toolong: true }
    }
}

/// Lines already completed, put in front of what a further feed yields.
pub open spec fn feed_combine(done: Seq<Seq<u8>>, v: FeedV) -> FeedV {
    FeedV { lines: done + v.lines, ..v }
}

/// Accumulates bytes of one line at a time.
pub struct LineFramer {
    max_line: usize,
    partial: Vec<u8>,
}

impl LineFramer {
    /// Bytes of the current incomplete line.
    pub closed spec fn buffered(self) -> Seq<u8> {
        self.partial@
    }

    /// The longest line the framer accepts, terminator included.
    pub closed spec fn limit(self) -> int {
        self.max_line as int
    }

    /// The buffer holds a proper prefix of one line: shorter than the
    /// limit and without a terminator.
    pub closed spec fn inv(self) -> bool {
        &&& self.max_line >= 2
        &&& self.partial@.len() < self.max_line
        &&& forall|k: int| 0 <= k < self.partial@.len() ==> self.partial@[k] != newline()
    }

    /// Buffering is bounded: the incomplete line is always shorter than the
    /// limit and holds no terminator.
    pub proof fn lemma_bounded_buffering(self)
        requires
            self.inv(),
        ensures
            self.buffered().len() < self.limit(),
            forall|k: int| 0 <= k < self.buffered().len() ==> self.buffered()[k] != newline(),
    {
    }

    /// A fresh framer that accepts lines of at most `max_line` bytes,
    /// terminator included.
    pub fn new(max_line: usize) -> (f: LineFramer)
        requires
            max_line >= 2,
        ensures
            f.inv(),
            f.limit() == max_line as int,
            f.buffered() == Seq::<u8>::empty(),
    {
        LineFramer { max_line, partial: Vec::new() }
    }

    /// Feed one byte from the connection. A terminator completes the
    /// buffered line (terminator included) and empties the buffer; any
    /// other byte is buffered, unless that would pass the limit, which is
    /// a `LineTooLong` protocol error and leaves the framer unchanged.
    pub fn feed_byte(&mut self, b: u8) -> (r: Result<Option<Vec<u8>>, FrameError>)
        requires
            old(self).inv(),
        ensures
            final(self).inv(),
            final(self).limit() == old(self).limit(),
            b == newline() ==> (r matches Ok(Some(line)) && line@ == old(self).buffered().push(
                newline(),
            ) && final(self).buffered() == Seq::<u8>::empty()),
            b != newline() && old(self).buffered().len() + 1 < old(self).limit() ==> r == Ok::<
                Option<Vec<u8>>,
                FrameError,
            >(None) && final(self).buffered() == old(self).buffered().push(b),
            b != newline() && old(self).buffered().len() + 1 >= old(self).limit() ==> r == Err::<
                Option<Vec<u8>>,
                FrameError,
            >(FrameError::LineTooLong) && final(self).buffered() == old(self).buffered(),
    {
        if b == 10 {
            self.partial.push(b);
            let mut line: Vec<u8> = Vec::new();
            core::mem::swap(&mut line, &mut self.partial);
            proof {
                assert(self.partial@ =~= Seq::<u8>::empty());
            }
            Ok(Some(line))
        } else if self.partial.len() + 1 < self.max_line {
            self.partial.push(b);
            Ok(None)
        } else {
            Err(FrameError::LineTooLong)
        }
    }

    /// Feed a whole chunk read from the connection. Returns the lines it
    /// completed, in arrival order, and whether framing stopped because the
    /// current line passed the limit; completed lines are handed out even
    /// then.
    pub fn feed_chunk(&mut self, chunk: &Vec<u8>) -> (r: (Vec<Vec<u8>>, bool))
        requires
            old(self).inv(),
        ensures
            final(self).inv(),
            final(self).limit() == old(self).limit(),
            ({
                let f = feed_all(old(self).buffered(), chunk@, old(self).limit());
                &&& r.0.deep_view() == f.lines
                &&& r.1 == f.toolong
                &&& final(self).buffered() == f.rest
            }),
    {
        let ghost limit = self.limit();
        let mut lines: Vec<Vec<u8>> = Vec::new();
        let mut i: usize = 0;
        proof {
            assert(chunk@.skip(0) =~= chunk@);
            assert(lines.deep_view() =~= Seq::<Seq<u8>>::empty());
            assert(feed_all(self.buffered(), chunk@, limit) =~~= feed_combine(
                lines.deep_view(),
                feed_all(self.buffered(), chunk@.skip(i as int), limit),
            ));
        }
        while i < chunk.len()
            invariant
                self.inv(),
                self.limit() == limit,
                limit == old(self).limit(),
                i <= chunk@.len(),
                feed_all(old(self).buffered(), chunk@, limit) == feed_combine(
                    lines.deep_view(),
                    feed_all(self.buffered(), chunk@.skip(i as int), limit),
                ),
            decreases chunk@.len() - i,
        {
            let ghost pre_lines = lines.deep_view();
            let ghost pre_buf = self.buffered();
            let ghost rest = chunk@.skip(i as int);
            proof {
                assert(rest[0] == chunk@[i as int]);
                assert(rest.skip(1) =~= chunk@.skip(i as int + 1));
            }
            match self.feed_byte(chunk[i]) {
                Ok(Some(line)) => {
                    lines.push(line);
                    proof {
                        assert(lines.deep_view() =~~= pre_lines.push(pre_buf.push(newline())));
                        let sub = feed_all(self.buffered(), rest.skip(1), limit);
                        assert(feed_all(pre_buf, rest, limit) =~~= feed_combine(
                            seq![pre_buf.push(newline())],
                            sub,
                        ));
                        assert(feed_combine(pre_lines, feed_all(pre_buf, rest, limit))
                            =~~= feed_combine(lines.deep_view(), sub));
                    }
                },
                Ok(None) => {
                    proof {
                        assert(feed_all(pre_buf, rest, limit) == feed_all(
                            self.buffered(),
                            rest.skip(1),
                            limit,
                        ));
                    }
                },
                Err(_) => {
                    proof {
                        assert(feed_all(pre_buf, rest, limit) =~~= (FeedV {
                            lines: Seq::empty(),
                            rest: pre_buf,
                            toolong: true,
                        }));
                        let f = feed_all(old(self).buffered(), chunk@, limit);
                        assert(f.lines =~~= lines.deep_view());
                    }
                    return (lines, true);
                },
            }
            i = i + 1;
        }
        proof {
            assert(chunk@.skip(i as int) =~= Seq::<u8>::empty());
            let f = feed_all(old(self).buffered(), chunk@, limit);
            assert(f.lines =~~= lines.deep_view());
        }
        (lines, false)
    }

    /// The peer is gone: a trailing incomplete line is discarded, exactly
    /// as an end of stream without a terminator emits no line.
    pub fn discard_partial(&mut self)
        requires
            old(self).inv(),
        ensures
            final(self).inv(),
            final(self).limit() == old(self).limit(),
            final(self).buffered() == Seq::<u8>::empty(),
    {
        self.partial.clear();
        proof {
            assert(self.partial@ =~= Seq::<u8>::empty());
        }
    }
}

} // verus!
