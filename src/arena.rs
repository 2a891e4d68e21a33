//! The store of shared buffers that views address.

use vstd::prelude::*;

verus! {

/// `s` with the bytes from `at` on replaced by `src`, length unchanged.
pub open spec fn overwrite(s: Seq<u8>, at: int, src: Seq<u8>) -> Seq<u8> {
    Seq::new(s.len(), |i: int| if at <= i < at + src.len() { src[i - at] } else { s[i] })
}

/// Shared byte buffers, each known by its index.
///
/// A buffer's length is fixed when it is added. Every view of a buffer reads
/// and writes its bytes here, so a write through one view is seen through
/// every other view of the same buffer. Buffers live as long as the arena.
pub struct Arena {
    bufs: Vec<Vec<u8>>,
}

impl View for Arena {
    type V = Seq<Seq<u8>>;

    closed spec fn view(&self) -> Seq<Seq<u8>> {
        self.bufs@.map_values(|b: Vec<u8>| b@)
    }
}

impl Arena {
    /// An arena with no buffers.
    pub fn new() -> (r: Arena)
        ensures
            r@ == Seq::<Seq<u8>>::empty(),
    {
        let r = Arena { bufs: Vec::new() };
        assert(r@ =~= Seq::<Seq<u8>>::empty());
        r
    }

    /// The number of buffers held.
    pub fn num_buffers(&self) -> (r: usize)
        ensures
            r == self@.len(),
    {
        self.bufs.len()
    }

    /// Takes `bytes` as a new buffer, whose index is returned.
    pub(crate) fn add(&mut self, bytes: Vec<u8>) -> (id: usize)
        ensures
            final(self)@ == old(self)@.push(bytes@),
            id == old(self)@.len(),
    {
        let id = self.bufs.len();
        self.bufs.push(bytes);
        assert(final(self)@ =~= old(self)@.push(bytes@));
        id
    }

    pub(crate) fn bytes(&self, buf: usize) -> (r: &[u8])
        requires
            buf < self@.len(),
        ensures
            r@ == self@[buf as int],
    {
        self.bufs[buf].as_slice()
    }

    /// The bytes of buffer `buf`, from `lo` up to `hi`, to be written in place.
    pub(crate) fn range_mut(&mut self, buf: usize, lo: usize, hi: usize) -> (r: &mut [u8])
        requires
            buf < old(self)@.len(),
            lo <= hi <= old(self)@[buf as int].len(),
        ensures
            r@ == old(self)@[buf as int].subrange(lo as int, hi as int),
            final(self)@ =~~= old(self)@.update(
                buf as int,
                old(self)@[buf as int].subrange(0, lo as int) + final(r)@ + old(self)@[buf as int].subrange(
                    hi as int,
                    old(self)@[buf as int].len() as int,
                ),
            ),
    {
        let whole = self.bufs[buf].as_mut_slice();
        let (head, rest) = whole.split_at_mut(lo);
        let (mid, tail) = rest.split_at_mut(hi - lo);
        proof {
            assert(final(head)@ == head@);
            assert(final(tail)@ == tail@);
        }
        mid
    }

    pub(crate) fn get(&self, buf: usize, i: usize) -> (r: u8)
        requires
            buf < self@.len(),
            i < self@[buf as int].len(),
        ensures
            r == self@[buf as int][i as int],
    {
        self.bufs[buf][i]
    }

    pub(crate) fn set(&mut self, buf: usize, i: usize, b: u8)
        requires
            buf < old(self)@.len(),
            i < old(self)@[buf as int].len(),
        ensures
            final(self)@ == old(self)@.update(buf as int, old(self)@[buf as int].update(i as int, b)),
    {
        self.bufs[buf][i] = b;
        assert(final(self)@ =~= old(self)@.update(buf as int, old(self)@[buf as int].update(i as int, b)));
    }
}

} // verus!
