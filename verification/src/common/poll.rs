//! The part of the streaming assembler that both protocol versions share:
//! gathering the bytes of one packet from successive chunks.

use crate::common::error::{Error, ErrorView};
use crate::common::utils::{decode_raw_header, spec_decode_raw_header, VAR_INT_MAX};
use vstd::prelude::*;
use vstd::slice::slice_subrange;

verus! {

/// Largest size a packet can have: a remaining length of [`VAR_INT_MAX`]
/// and the five bytes of its fixed header.
pub const MAX_PACKET_SIZE: usize = 268_435_460;

/// The default ceiling on a packet's size: 256 MiB.
pub const DEFAULT_MAX_PACKET_SIZE: usize = 268_435_456;

/// What feeding a chunk to an assembler gives.
#[derive(Debug, Clone, PartialEq, Eq)]
pub enum Polled<P, E> {
    /// A whole packet, and the number of bytes of the chunk that belong to
    /// it. The rest of the chunk is the start of the next packet.
    Ready(P, usize),
    /// The chunk was taken whole and the packet is not yet complete.
    NeedMore(usize),
    /// The packet is malformed. The assembler stays failed.
    Error(E),
}

/// What the bytes received for a packet amount to.
pub enum PollView<P, E> {
    /// They begin with a whole packet of so many bytes.
    Ready(P, int),
    /// They are the beginning of a packet.
    NeedMore,
    /// They are no packet.
    Failed(E),
}

/// The bytes of the packet in flight.
pub struct FrameState {
    pending: Vec<u8>,
}

impl View for FrameState {
    type V = Seq<u8>;

    closed spec fn view(&self) -> Seq<u8> {
        self.pending@
    }
}

/// The raw header of `s` reads the same in every sequence that `s` begins,
/// unless `s` ends inside it.
pub proof fn lemma_raw_header_prefix(s: Seq<u8>, t: Seq<u8>)
    requires
        s.len() <= t.len(),
        t.subrange(0, s.len() as int) == s,
        spec_decode_raw_header(s, 0) != Err::<((u8, u32), int), ErrorView>(
            ErrorView::UnexpectedEof,
        ),
    ensures
        spec_decode_raw_header(t, 0) == spec_decode_raw_header(s, 0),
{
    assert forall|i: int| 0 <= i < s.len() implies s[i] == t[i] by {
        assert(t.subrange(0, s.len() as int)[i] == t[i]);
    }
}

/// Where the raw header of `t` is complete, a beginning of `t` that is too
/// short for it ends inside it.
pub proof fn lemma_raw_header_truncated(s: Seq<u8>, t: Seq<u8>)
    requires
        s.len() <= t.len(),
        t.subrange(0, s.len() as int) == s,
        spec_decode_raw_header(t, 0) matches Ok((_, n)) && s.len() < n,
    ensures
        spec_decode_raw_header(s, 0) == Err::<((u8, u32), int), ErrorView>(
            ErrorView::UnexpectedEof,
        ),
{
    assert forall|i: int| 0 <= i < s.len() implies s[i] == t[i] by {
        assert(t.subrange(0, s.len() as int)[i] == t[i]);
    }
}

/// Where the raw header of `t` is complete within its beginning `s`, it is
/// the raw header of `s` too.
pub proof fn lemma_raw_header_within(s: Seq<u8>, t: Seq<u8>)
    requires
        s.len() <= t.len(),
        t.subrange(0, s.len() as int) == s,
        spec_decode_raw_header(t, 0) matches Ok((_, n)) && n <= s.len(),
    ensures
        spec_decode_raw_header(s, 0) == spec_decode_raw_header(t, 0),
{
    assert forall|i: int| 0 <= i < s.len() implies s[i] == t[i] by {
        assert(t.subrange(0, s.len() as int)[i] == t[i]);
    }
}

/// The size of the packet that the fixed header at the start of `s`
/// announces: the header and the remaining length. Zero where `s` does not
/// begin with a whole header.
pub open spec fn spec_announced_size(s: Seq<u8>) -> int {
    match spec_decode_raw_header(s, 0) {
        Ok(((_, len), start)) => start + len,
        Err(_) => 0,
    }
}

/// The bytes of the chunks, one behind the other.
pub open spec fn spec_concat(chunks: Seq<Seq<u8>>) -> Seq<u8>
    decreases chunks.len(),
{
    if chunks.len() == 0 {
        Seq::empty()
    } else {
        chunks[0] + spec_concat(chunks.drop_first())
    }
}

impl FrameState {
    /// No byte received.
    pub fn new() -> (st: FrameState)
        ensures
            st@ == Seq::<u8>::empty(),
    {
        FrameState { pending: Vec::new() }
    }

    /// The number of bytes received.
    pub fn len(&self) -> (n: usize)
        ensures
            n == self@.len(),
    {
        self.pending.len()
    }

    /// Forgets the bytes received.
    pub fn reset(&mut self)
        ensures
            final(self)@ == Seq::<u8>::empty(),
    {
        self.pending.clear();
    }

    /// The bytes received from `start` on.
    pub fn tail(&self, start: usize) -> (s: &[u8])
        requires
            start <= self@.len(),
        ensures
            s@ == self@.subrange(start as int, self@.len() as int),
    {
        slice_subrange(self.pending.as_slice(), start, self.pending.len())
    }

    /// Takes bytes of `chunk` from `pos` on, one at a time, until the first
    /// byte of the packet and its remaining length are complete. Returns
    /// them with the header's length; `None` where the chunk ends first;
    /// `InvalidVarByteInt` where the remaining length is malformed. Takes
    /// nothing where the header is already complete.
    #[verifier::rlimit(50)]
    pub fn feed_header(&mut self, chunk: &[u8], pos: &mut usize) -> (res: Result<
        Option<(u8, u32, usize)>,
        Error,
    >)
        requires
            *old(pos) <= chunk@.len(),
        ensures
            *old(pos) <= *final(pos) <= chunk@.len(),
            final(self)@ == old(self)@ + chunk@.subrange(*old(pos) as int, *final(pos) as int),
            match res {
                Ok(Some((hd, len, n))) => spec_decode_raw_header(final(self)@, 0) == Ok::<
                    ((u8, u32), int),
                    ErrorView,
                >(((hd, len), n as int)) && n <= 5 && n <= final(self)@.len() && len
                    <= VAR_INT_MAX && (*final(pos) > *old(pos) ==> final(self)@.len() == n),
                Ok(None) => *final(pos) == chunk@.len() && spec_decode_raw_header(final(self)@, 0)
                    == Err::<((u8, u32), int), ErrorView>(ErrorView::UnexpectedEof),
                Err(e) => e == Error::InvalidVarByteInt && spec_decode_raw_header(final(self)@, 0)
                    == Err::<((u8, u32), int), ErrorView>(ErrorView::InvalidVarByteInt),
            },
    {
        loop
            invariant
                *old(pos) <= *pos <= chunk@.len(),
                self@ == old(self)@ + chunk@.subrange(*old(pos) as int, *pos as int),
                *pos > *old(pos) ==> spec_decode_raw_header(
                    self@.subrange(0, self@.len() - 1),
                    0,
                ) == Err::<((u8, u32), int), ErrorView>(ErrorView::UnexpectedEof),
            decreases chunk@.len() - *pos,
        {
            let mut offset: usize = 0;
            match decode_raw_header(self.pending.as_slice(), &mut offset) {
                Ok((hd, len)) => {
                    proof {
                        if *pos > *old(pos) && offset < self@.len() {
                            let shorter = self@.subrange(0, self@.len() - 1);
                            assert(self@.subrange(0, shorter.len() as int) == shorter);
                            if offset <= shorter.len() {
                                assert forall|i: int| 0 <= i < shorter.len() implies shorter[i]
                                    == self@[i] by {}
                            }
                        }
                    }
                    return Ok(Some((hd, len, offset)));
                },
                Err(e) => {
                    if !e.is_eof() {
                        return Err(Error::InvalidVarByteInt);
                    }
                },
            }
            if *pos >= chunk.len() {
                return Ok(None);
            }
            self.pending.push(chunk[*pos]);
            *pos = *pos + 1;
            assert(self@ =~= old(self)@ + chunk@.subrange(*old(pos) as int, *pos as int));
            assert(self@.subrange(0, self@.len() - 1) =~= old(self)@ + chunk@.subrange(
                *old(pos) as int,
                *pos - 1,
            ));
        }
    }

    /// Takes bytes of `chunk` from `pos` on until `total` bytes are
    /// received or the chunk ends, and says whether `total` was reached.
    pub fn feed_body(&mut self, chunk: &[u8], pos: &mut usize, total: usize) -> (complete: bool)
        requires
            *old(pos) <= chunk@.len(),
            old(self)@.len() <= total,
        ensures
            *old(pos) <= *final(pos) <= chunk@.len(),
            final(self)@ == old(self)@ + chunk@.subrange(*old(pos) as int, *final(pos) as int),
            complete == (final(self)@.len() == total),
            final(self)@.len() <= total,
            !complete ==> *final(pos) == chunk@.len(),
    {
        assert(self@ =~= old(self)@ + chunk@.subrange(*old(pos) as int, *pos as int));
        while self.pending.len() < total && *pos < chunk.len()
            invariant
                *old(pos) <= *pos <= chunk@.len(),
                self@ == old(self)@ + chunk@.subrange(*old(pos) as int, *pos as int),
                self@.len() <= total,
            decreases chunk@.len() - *pos,
        {
            self.pending.push(chunk[*pos]);
            *pos = *pos + 1;
            assert(self@ =~= old(self)@ + chunk@.subrange(*old(pos) as int, *pos as int));
        }
        self.pending.len() == total
    }
}

} // verus!
