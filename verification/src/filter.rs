//! Byte-stream filters, and the adapter that buffers what a filter emits.

use vstd::prelude::*;

verus! {

/// What a filter makes of one chunk of input.
pub struct Filtered<S, E> {
    /// The filter's state once it has stopped reading.
    pub state: S,
    /// The bytes it emits.
    pub output: Seq<u8>,
    /// The error it stops with, if it rejects the chunk. The state and the
    /// output are then those reached just before the rejected byte.
    pub error: Option<E>,
}

/// A stateful transformation of a byte stream, fed one chunk at a time.
///
/// The view of a filter is its state; `filtered` says, for a state and a
/// chunk, what the filter emits, which state it ends in and whether it
/// rejects the chunk.
pub trait Filter: Sized + View {
    /// Why a filter rejects its input.
    type Error;

    /// The state of a filter at the start of a stream.
    spec fn initial() -> Self::V;

    /// The effect of feeding `input` to a filter in state `state`.
    spec fn filtered(state: Self::V, input: Seq<u8>) -> Filtered<Self::V, Self::Error>;

    /// Creates a filter at the start of a stream.
    fn init() -> (filter: Self)
        ensures
            filter@ == Self::initial(),
    ;

    /// Feeds `input` to the filter and appends what it emits to `output`.
    fn filter(&mut self, input: &[u8], output: &mut Vec<u8>) -> (result: Result<(), Self::Error>)
        ensures
            final(self)@ == Self::filtered(old(self)@, input@).state,
            final(output)@ == old(output)@ + Self::filtered(old(self)@, input@).output,
            result == match Self::filtered(old(self)@, input@).error {
                Some(error) => Err::<(), Self::Error>(error),
                None => Ok::<(), Self::Error>(()),
            },
    ;
}

/// What an adapter holds, as contracts see it.
pub struct BufFilterView<S> {
    /// The state of the filter inside.
    pub state: S,
    /// What the filter emitted for the chunk fed last.
    pub buffer: Seq<u8>,
    /// The cursor: how many bytes of `buffer` have been served.
    pub pos: nat,
}

impl<S> BufFilterView<S> {
    /// The cursor does not lie beyond the end of the buffer.
    pub open spec fn wf(self) -> bool {
        self.pos <= self.buffer.len()
    }

    /// The buffered bytes that have not been served yet: those from the
    /// cursor on.
    pub open spec fn pending(self) -> Seq<u8> {
        if self.wf() {
            self.buffer.skip(self.pos as int)
        } else {
            Seq::empty()
        }
    }

    /// The adapter with `count` more bytes marked as served, or all of them
    /// where fewer are left.
    pub open spec fn advanced(self, count: nat) -> Self {
        BufFilterView {
            pos: if self.pos + count <= self.buffer.len() {
                self.pos + count
            } else {
                self.buffer.len()
            },
            ..self
        }
    }
}

/// Serves, piece by piece, the bytes that a filter emits for the chunks it is
/// fed. The adapter does no reading of its own: its owner hands it each chunk
/// of the underlying source when the buffered bytes have run out.
pub struct BufFilter<F: Filter> {
    buffer: Vec<u8>,
    pos: usize,
    filter: F,
}

impl<F: Filter> View for BufFilter<F> {
    type V = BufFilterView<F::V>;

    closed spec fn view(&self) -> BufFilterView<F::V> {
        BufFilterView { state: self.filter@, buffer: self.buffer@, pos: self.pos as nat }
    }
}

impl<F: Filter> BufFilter<F> {
    /// Creates an adapter with nothing buffered, around a fresh filter.
    pub fn new() -> (adapter: Self)
        ensures
            adapter@ == (BufFilterView { state: F::initial(), buffer: Seq::empty(), pos: 0 }),
    {
        Self { buffer: Vec::new(), pos: 0, filter: F::init() }
    }

    /// Whether every buffered byte has been served, so that the next chunk of
    /// the underlying source is due.
    pub fn is_exhausted(&self) -> (exhausted: bool)
        ensures
            exhausted == (self@.pending().len() == 0),
    {
        self.pos >= self.buffer.len()
    }

    /// The buffered bytes that have not been served yet.
    pub fn buffer(&self) -> (bytes: &[u8])
        ensures
            bytes@ == self@.pending(),
    {
        let end = self.buffer.len();
        let start = if self.pos <= end {
            self.pos
        } else {
            end
        };
        vstd::slice::slice_subrange(self.buffer.as_slice(), start, end)
    }

    /// Refills the buffer from `chunk`, the unread bytes of the underlying
    /// source, once every buffered byte has been served: the buffer then
    /// holds what the filter emits for the chunk, the cursor stands at its
    /// start, and the whole chunk is taken. While bytes are still buffered
    /// nothing is taken and nothing changes. Returns how many bytes of
    /// `chunk` were taken, or the filter's error.
    pub fn fill_buf(&mut self, chunk: &[u8]) -> (taken: Result<usize, F::Error>)
        ensures
            final(self)@.wf(),
            old(self)@.pending().len() != 0 ==> {
                &&& final(self)@ == old(self)@
                &&& taken == Ok::<usize, F::Error>(0)
            },
            old(self)@.pending().len() == 0 ==> {
                let filtered = F::filtered(old(self)@.state, chunk@);
                &&& final(self)@ == (BufFilterView {
                    state: filtered.state,
                    buffer: filtered.output,
                    pos: 0,
                })
                &&& taken == match filtered.error {
                    Some(error) => Err::<usize, F::Error>(error),
                    None => Ok::<usize, F::Error>(chunk.len()),
                }
            },
    {
        if self.pos >= self.buffer.len() {
            self.buffer.clear();
            self.pos = 0;
            match self.filter.filter(chunk, &mut self.buffer) {
                Ok(()) => Ok(chunk.len()),
                Err(error) => Err(error),
            }
        } else {
            Ok(0)
        }
    }

    /// Marks `amt` of the buffered bytes as served, or all of them where
    /// fewer are left.
    pub fn consume(&mut self, amt: usize)
        ensures
            final(self)@ == old(self)@.advanced(amt as nat),
            final(self)@.wf(),
    {
        let len = self.buffer.len();
        if self.pos <= len && amt < len - self.pos {
            self.pos = self.pos + amt;
        } else {
            self.pos = len;
        }
    }

    /// Serves buffered bytes into the front of `buf`: as many as are left, or
    /// as `buf` has room for. Returns their number; the rest of `buf` is not
    /// touched.
    pub fn read(&mut self, buf: &mut [u8]) -> (nread: usize)
        ensures
            nread == if old(self)@.pending().len() <= old(buf)@.len() {
                old(self)@.pending().len()
            } else {
                old(buf)@.len()
            },
            final(buf)@ == old(self)@.pending().take(nread as int) + old(buf)@.skip(nread as int),
            final(self)@ == old(self)@.advanced(nread as nat),
            final(self)@.wf(),
    {
        let len = if self.pos <= self.buffer.len() {
            self.buffer.len() - self.pos
        } else {
            0
        };
        let nread = if len <= buf.len() {
            len
        } else {
            buf.len()
        };
        let mut k: usize = 0;
        while k < nread
            invariant
                k <= nread,
                nread > 0 ==> self.pos + nread <= self.buffer.len(),
                nread <= buf@.len(),
                buf@.len() == old(buf)@.len(),
                *self == *old(self),
                buf@ == old(self)@.pending().take(k as int) + old(buf)@.skip(k as int),
            decreases nread - k,
        {
            buf[k] = self.buffer[self.pos + k];
            k += 1;
        }
        self.consume(nread);
        nread
    }
}

/// What is pending after bytes were marked as served is what was pending
/// before, without its first bytes.
pub proof fn lemma_advanced_pending<S>(view: BufFilterView<S>, count: nat)
    ensures
        view.advanced(count).wf(),
        view.advanced(count).pending() == view.pending().skip(
            if count <= view.pending().len() {
                count as int
            } else {
                view.pending().len() as int
            },
        ),
{
}

} // verus!
