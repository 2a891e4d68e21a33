//! A double buffer for streaming: one half is filled while the other drains.

use vstd::prelude::*;

use crate::arena::Arena;
use crate::impls::{ROIobuf, RWIobuf};
use crate::raw::IobufView;

verus! {

/// A ring buffer made of two views over buffers of its own.
///
/// The input view's window is the room left to fill; the output view's
/// window is what is left to read. When the output is drained, the next
/// `pop_buf` turns what was filled into the output and the drained buffer,
/// reset, into the input.
pub struct IORingbuf {
    arena: Arena,
    i_buf: RWIobuf,
    o_buf: ROIobuf,
}

impl IORingbuf {
    /// The buffers of the ring.
    pub closed spec fn store(&self) -> Seq<Seq<u8>> {
        self.arena@
    }

    /// The view that is filled.
    pub closed spec fn input(&self) -> IobufView {
        self.i_buf@
    }

    /// The view that is drained.
    pub closed spec fn output(&self) -> IobufView {
        self.o_buf@
    }

    /// Both views live in the ring's own buffers, one buffer each.
    pub open spec fn wf(&self) -> bool {
        &&& self.input().lives_in(self.store())
        &&& self.output().lives_in(self.store())
        &&& self.input().buf != self.output().buf
    }

    /// A ring of `cap` bytes in all: the input gets `cap / 2` of them and
    /// starts empty of data; the output gets the rest and starts drained.
    pub fn new(cap: usize) -> (r: IORingbuf)
        requires
            cap - cap / 2 <= u32::MAX,
        ensures
            r.wf(),
            r.input() == IobufView::full(0, (cap / 2) as int),
            r.output() == IobufView::full(1, cap - cap / 2).flip_lo(),
            r.store() == seq![
                Seq::new((cap / 2) as nat, |i: int| 0u8),
                Seq::new((cap - cap / 2) as nat, |i: int| 0u8),
            ],
    {
        let left_size = cap / 2;
        let mut arena = Arena::new();
        let i_buf = RWIobuf::new(&mut arena, left_size);
        let mut o_buf = RWIobuf::new(&mut arena, cap - left_size);
        o_buf.flip_lo();
        let r = IORingbuf { arena, i_buf, o_buf: o_buf.read_only() };
        assert(r.store() =~= seq![
            Seq::new((cap / 2) as nat, |i: int| 0u8),
            Seq::new((cap - cap / 2) as nat, |i: int| 0u8),
        ]);
        r
    }

    /// The input view, to be filled, with the buffers it writes into.
    pub fn push_buf(&mut self) -> (r: (&mut RWIobuf, &mut Arena))
        ensures
            (*r.0)@ == old(self).input(),
            (*r.1)@ == old(self).store(),
            final(self).input() == final(r.0)@,
            final(self).store() == final(r.1)@,
            final(self).output() == old(self).output(),
    {
        (&mut self.i_buf, &mut self.arena)
    }

    /// The output view, to be drained, with the buffers it reads from.
    ///
    /// If the output is drained, what was filled becomes the output first,
    /// and the drained buffer, reset to its whole span, becomes the input.
    pub fn pop_buf(&mut self) -> (r: (&mut ROIobuf, &Arena))
        requires
            old(self).wf(),
        ensures
            (*r.0)@ == (if old(self).output().len() == 0 {
                old(self).input().flip_lo()
            } else {
                old(self).output()
            }),
            final(self).input() == (if old(self).output().len() == 0 {
                old(self).output().reset()
            } else {
                old(self).input()
            }),
            final(self).output() == final(r.0)@,
            (*r.1)@ == old(self).store(),
            final(self).store() == old(self).store(),
            (*r.0)@.lives_in(old(self).store()),
            final(self).input().lives_in(old(self).store()),
    {
        if self.o_buf.is_empty() {
            self.i_buf.flip_lo();
            self.o_buf.reset();
            let filled = self.i_buf.read_only();
            self.i_buf = self.o_buf.into_writable();
            self.o_buf = filled;
        }
        (&mut self.o_buf, &self.arena)
    }

    /// Whether nothing has been filled and nothing is left to read.
    pub fn is_empty(&self) -> (r: bool)
        ensures
            r == (self.input().len() == self.input().cap() && self.output().len() == 0),
    {
        self.i_buf.cap() == self.i_buf.len() && self.o_buf.is_empty()
    }

    /// Whether there is no room left to fill.
    pub fn is_full(&self) -> (r: bool)
        ensures
            r == (self.input().len() == 0),
    {
        self.i_buf.is_empty()
    }
}

} // verus!
