//! The two kinds of view: read-only and read-write.
//!
//! Both hold the same state and hand every operation to it; the read-write
//! kind adds the operations that write bytes.

use vstd::prelude::*;
use vstd::utf8::encode_utf8;

use crate::arena::Arena;
use crate::prim::{be_bytes, le_bytes, Prim};
use crate::raw::{IobufView, OutOfBounds, RawIobuf};

verus! {

/// A view that can read the bytes of its buffer but not write them.
///
/// Copies are cheap and address the same buffer; each copy moves its own
/// limits and window.
#[derive(Clone, Copy, Debug)]
pub struct ROIobuf {
    raw: RawIobuf,
}

/// A view that can read and write the bytes of its buffer.
///
/// Copies are cheap and address the same buffer; each copy moves its own
/// limits and window. `poke` and `fill` write at a position past the
/// window's start; only `fill` moves the window on.
///
/// A suffix `_be` reads or writes big-endian, `_le` little-endian. The
/// prefix `unsafe_` marks an operation without a bounds check: the caller
/// must already have shown that the range lies within bounds.
#[derive(Clone, Copy, Debug)]
pub struct RWIobuf {
    raw: RawIobuf,
}

impl View for ROIobuf {
    type V = IobufView;

    closed spec fn view(&self) -> IobufView {
        self.raw@
    }
}

impl View for RWIobuf {
    type V = IobufView;

    closed spec fn view(&self) -> IobufView {
        self.raw@
    }
}

impl ROIobuf {
    /// A new empty buffer, viewed whole.
    pub fn empty(arena: &mut Arena) -> (r: ROIobuf)
        ensures
            final(arena)@ == old(arena)@.push(Seq::<u8>::empty()),
            r@ == IobufView::full(old(arena)@.len() as int, 0),
    {
        let raw = RawIobuf::new(arena, 0);
        assert(Seq::new(0, |i: int| 0u8) =~= Seq::<u8>::empty());
        ROIobuf { raw }
    }

    /// Write access to the same buffer, limits and window. Only a holder of
    /// both capabilities over one buffer, such as the ring buffer, hands a
    /// read-only view back this way.
    pub(crate) fn into_writable(self) -> (r: RWIobuf)
        ensures
            r@ == self@,
    {
        RWIobuf { raw: self.raw }
    }

    /// A new buffer holding the bytes of `s`, viewed whole.
    pub fn from_str(arena: &mut Arena, s: &str) -> (r: ROIobuf)
        requires
            encode_utf8(s@).len() <= u32::MAX,
        ensures
            final(arena)@ == old(arena)@.push(encode_utf8(s@)),
            r@ == IobufView::full(old(arena)@.len() as int, encode_utf8(s@).len() as int),
    {
        ROIobuf { raw: RawIobuf::from_slice(arena, s.as_bytes()) }
    }

    /// A new buffer holding the bytes of `s`, viewed whole.
    pub fn from_string(arena: &mut Arena, s: String) -> (r: ROIobuf)
        requires
            encode_utf8(s@).len() <= u32::MAX,
        ensures
            final(arena)@ == old(arena)@.push(encode_utf8(s@)),
            r@ == IobufView::full(old(arena)@.len() as int, encode_utf8(s@).len() as int),
    {
        ROIobuf::from_str(arena, s.as_str())
    }

    /// Takes `v` as a new buffer, viewed whole.
    pub fn from_vec(arena: &mut Arena, v: Vec<u8>) -> (r: ROIobuf)
        requires
            v@.len() <= u32::MAX,
        ensures
            final(arena)@ == old(arena)@.push(v@),
            r@ == IobufView::full(old(arena)@.len() as int, v@.len() as int),
    {
        ROIobuf { raw: RawIobuf::from_vec(arena, v) }
    }

    /// A new buffer holding a copy of `s`, viewed whole.
    pub fn from_slice(arena: &mut Arena, s: &[u8]) -> (r: ROIobuf)
        requires
            s@.len() <= u32::MAX,
        ensures
            final(arena)@ == old(arena)@.push(s@),
            r@ == IobufView::full(old(arena)@.len() as int, s@.len() as int),
    {
        ROIobuf { raw: RawIobuf::from_slice(arena, s) }
    }

    /// The window's length.
    pub fn len(&self) -> (r: u32)
        ensures
            r == self@.len(),
    {
        self.raw.len()
    }

    /// The length of the limits.
    pub fn cap(&self) -> (r: u32)
        ensures
            r == self@.cap(),
    {
        self.raw.cap()
    }

    /// Whether the window is empty.
    pub fn is_empty(&self) -> (r: bool)
        ensures
            r == (self@.len() == 0),
    {
        self.raw.is_empty()
    }

    /// Whether `[pos, pos + len)` past the window's start lies within the window.
    pub fn check_range(&self, pos: u32, len: u32) -> (r: Result<(), OutOfBounds>)
        ensures
            r is Ok <==> self@.fits(pos as int, len as int),
    {
        self.raw.check_range(pos, len)
    }

    /// `check_range` with a `usize` length.
    pub fn check_range_uint(&self, pos: u32, len: usize) -> (r: Result<(), OutOfBounds>)
        ensures
            r is Ok <==> self@.fits(pos as int, len as int),
    {
        self.raw.check_range_uint(pos, len)
    }

    /// Makes the window `[pos, pos + len)` past its old start; the limits stay.
    pub fn sub_window(&mut self, pos: u32, len: u32) -> (r: Result<(), OutOfBounds>)
        ensures
            r is Ok <==> old(self)@.fits(pos as int, len as int),
            final(self)@ == (if r is Ok { old(self)@.sub_window(pos as int, len as int) } else { old(self)@ }),
            final(self)@.wf(),
    {
        self.raw.sub_window(pos, len)
    }

    /// Moves the window's start `pos` bytes on; its end stays.
    pub fn sub_window_from(&mut self, pos: u32) -> (r: Result<(), OutOfBounds>)
        ensures
            r is Ok <==> old(self)@.fits(pos as int, 0),
            final(self)@ == (if r is Ok { old(self)@.sub_window_from(pos as int) } else { old(self)@ }),
            final(self)@.wf(),
    {
        self.raw.sub_window_from(pos)
    }

    /// Makes the window `len` bytes long from its start.
    pub fn sub_window_to(&mut self, len: u32) -> (r: Result<(), OutOfBounds>)
        ensures
            r is Ok <==> old(self)@.fits(0, len as int),
            final(self)@ == (if r is Ok { old(self)@.sub_window_to(len as int) } else { old(self)@ }),
            final(self)@.wf(),
    {
        self.raw.sub_window_to(len)
    }

    /// `sub_window` without the check, which the caller has made.
    pub fn unsafe_sub_window(&mut self, pos: u32, len: u32)
        requires
            old(self)@.fits(pos as int, len as int),
        ensures
            final(self)@ == old(self)@.sub_window(pos as int, len as int),
            final(self)@.wf(),
    {
        self.raw.unsafe_sub_window(pos, len)
    }

    /// `sub_window_from` without the check, which the caller has made.
    pub fn unsafe_sub_window_from(&mut self, pos: u32)
        requires
            old(self)@.fits(pos as int, 0),
        ensures
            final(self)@ == old(self)@.sub_window_from(pos as int),
            final(self)@.wf(),
    {
        self.raw.unsafe_sub_window_from(pos)
    }

    /// `sub_window_to` without the check, which the caller has made.
    pub fn unsafe_sub_window_to(&mut self, len: u32)
        requires
            old(self)@.fits(0, len as int),
        ensures
            final(self)@ == old(self)@.sub_window_to(len as int),
            final(self)@.wf(),
    {
        self.raw.unsafe_sub_window_to(len)
    }

    /// A guard for a run of unchecked operations: the caller must have shown
    /// that `[pos, pos + len)` past the window's start lies within the window.
    pub fn check_range_fail(&self, pos: u32, len: u32)
        requires
            self@.fits(pos as int, len as int),
    {
        self.raw.check_range_fail(pos, len)
    }

    /// `check_range_fail` with a `usize` length.
    pub fn check_range_uint_fail(&self, pos: u32, len: usize)
        requires
            self@.fits(pos as int, len as int),
    {
        self.raw.check_range_uint_fail(pos, len)
    }

    /// Like `sub_window`, checked against the limits, and then narrows the
    /// limits to the new window.
    pub fn sub(&mut self, pos: u32, len: u32) -> (r: Result<(), OutOfBounds>)
        ensures
            r is Ok <==> old(self)@.can_sub(pos as int, len as int),
            final(self)@ == (if r is Ok { old(self)@.sub(pos as int, len as int) } else { old(self)@ }),
            final(self)@.wf(),
    {
        self.raw.sub(pos, len)
    }

    /// Like `sub_window_from`, and then narrows the limits to the new window.
    pub fn sub_from(&mut self, pos: u32) -> (r: Result<(), OutOfBounds>)
        ensures
            r is Ok <==> old(self)@.fits(pos as int, 0),
            final(self)@ == (if r is Ok { old(self)@.sub_from(pos as int) } else { old(self)@ }),
            final(self)@.wf(),
    {
        self.raw.sub_from(pos)
    }

    /// Like `sub_window_to`, checked against the limits, and then narrows the
    /// limits to the new window.
    pub fn sub_to(&mut self, len: u32) -> (r: Result<(), OutOfBounds>)
        ensures
            r is Ok <==> old(self)@.can_sub(0, len as int),
            final(self)@ == (if r is Ok { old(self)@.sub_to(len as int) } else { old(self)@ }),
            final(self)@.wf(),
    {
        self.raw.sub_to(len)
    }

    /// `sub` without the check, which the caller has made.
    pub fn unsafe_sub(&mut self, pos: u32, len: u32)
        requires
            old(self)@.can_sub(pos as int, len as int),
        ensures
            final(self)@ == old(self)@.sub(pos as int, len as int),
            final(self)@.wf(),
    {
        self.raw.unsafe_sub(pos, len)
    }

    /// `sub_from` without the check, which the caller has made.
    pub fn unsafe_sub_from(&mut self, pos: u32)
        requires
            old(self)@.fits(pos as int, 0),
        ensures
            final(self)@ == old(self)@.sub_from(pos as int),
            final(self)@.wf(),
    {
        self.raw.unsafe_sub_from(pos)
    }

    /// `sub_to` without the check, which the caller has made.
    pub fn unsafe_sub_to(&mut self, len: u32)
        requires
            old(self)@.can_sub(0, len as int),
        ensures
            final(self)@ == old(self)@.sub_to(len as int),
            final(self)@.wf(),
    {
        self.raw.unsafe_sub_to(len)
    }

    /// Sets limits and window, as offsets into the buffer. The new limits may
    /// not reach past the old ones and must hold the new window.
    pub fn set_limits_and_window(&mut self, limits: (u32, u32), window: (u32, u32)) -> (r: Result<
        (),
        OutOfBounds,
    >)
        ensures
            r is Ok <==> old(self)@.can_set(
                (limits.0 as int, limits.1 as int),
                (window.0 as int, window.1 as int),
            ),
            final(self)@ == (if r is Ok {
                old(self)@.set_limits_and_window(
                    (limits.0 as int, limits.1 as int),
                    (window.0 as int, window.1 as int),
                )
            } else {
                old(self)@
            }),
            final(self)@.wf(),
    {
        self.raw.set_limits_and_window(limits, window)
    }

    /// Shrinks the limits to the window, for good.
    pub fn narrow(&mut self)
        ensures
            final(self)@ == old(self)@.narrow(),
            final(self)@.wf(),
    {
        self.raw.narrow()
    }

    /// Moves the window's start `len` bytes on.
    pub fn advance(&mut self, len: u32) -> (r: Result<(), OutOfBounds>)
        ensures
            r is Ok <==> old(self)@.fits(len as int, 0),
            final(self)@ == (if r is Ok { old(self)@.advance(len as int) } else { old(self)@ }),
            final(self)@.wf(),
    {
        self.raw.advance(len)
    }

    /// `advance` without the check, which the caller has made.
    pub fn unsafe_advance(&mut self, len: u32)
        requires
            old(self)@.fits(len as int, 0),
        ensures
            final(self)@ == old(self)@.advance(len as int),
            final(self)@.wf(),
    {
        self.raw.unsafe_advance(len)
    }

    /// Moves the window's end `len` bytes on, within the limits.
    pub fn extend(&mut self, len: u32) -> (r: Result<(), OutOfBounds>)
        ensures
            r is Ok <==> old(self)@.can_extend(len as int),
            final(self)@ == (if r is Ok { old(self)@.extend(len as int) } else { old(self)@ }),
            final(self)@.wf(),
    {
        self.raw.extend(len)
    }

    /// `extend` without the check, which the caller has made.
    pub fn unsafe_extend(&mut self, len: u32)
        requires
            old(self)@.can_extend(len as int),
        ensures
            final(self)@ == old(self)@.extend(len as int),
            final(self)@.wf(),
    {
        self.raw.unsafe_extend(len)
    }

    /// Makes the window `len` bytes long from its start, within the limits.
    pub fn resize(&mut self, len: u32) -> (r: Result<(), OutOfBounds>)
        ensures
            r is Ok <==> old(self)@.can_resize(len as int),
            final(self)@ == (if r is Ok { old(self)@.resize(len as int) } else { old(self)@ }),
            final(self)@.wf(),
    {
        self.raw.resize(len)
    }

    /// `resize` without the check, which the caller has made.
    pub fn unsafe_resize(&mut self, len: u32)
        requires
            old(self)@.can_resize(len as int),
        ensures
            final(self)@ == old(self)@.resize(len as int),
            final(self)@.wf(),
    {
        self.raw.unsafe_resize(len)
    }

    /// Widens the window to the limits.
    pub fn rewind(&mut self)
        ensures
            final(self)@ == old(self)@.rewind(),
            final(self)@.wf(),
    {
        self.raw.rewind()
    }

    /// Widens limits and window to the whole buffer.
    pub fn reset(&mut self)
        ensures
            final(self)@ == old(self)@.reset(),
            final(self)@.wf(),
    {
        self.raw.reset()
    }

    /// From filling to draining: the window becomes what was filled, from
    /// the low limit up to the old window start.
    pub fn flip_lo(&mut self)
        ensures
            final(self)@ == old(self)@.flip_lo(),
            final(self)@.wf(),
    {
        self.raw.flip_lo()
    }

    /// From draining to filling: the window becomes what follows the old
    /// window, up to the high limit.
    pub fn flip_hi(&mut self)
        ensures
            final(self)@ == old(self)@.flip_hi(),
            final(self)@.wf(),
    {
        self.raw.flip_hi()
    }

    /// Copies `dst.len()` bytes from `pos` past the window's start into `dst`,
    /// or nothing if they are not all in the window.
    pub fn peek(&self, arena: &Arena, pos: u32, dst: &mut [u8]) -> (r: Result<(), OutOfBounds>)
        requires
            self@.lives_in(arena@),
        ensures
            r is Ok <==> self@.fits(pos as int, old(dst)@.len() as int),
            final(dst)@ == (if r is Ok {
                self@.window(arena@).subrange(pos as int, pos + old(dst)@.len())
            } else {
                old(dst)@
            }),
    {
        self.raw.peek(arena, pos, dst)
    }

    /// `peek` without the check, which the caller has made.
    pub fn unsafe_peek(&self, arena: &Arena, pos: u32, dst: &mut [u8])
        requires
            self@.lives_in(arena@),
            self@.fits(pos as int, old(dst)@.len() as int),
        ensures
            final(dst)@ == self@.window(arena@).subrange(pos as int, pos + old(dst)@.len()),
    {
        self.raw.unsafe_peek(arena, pos, dst)
    }

    /// Like `peek` at the window's start, then advances past what was read.
    pub fn consume(&mut self, arena: &Arena, dst: &mut [u8]) -> (r: Result<(), OutOfBounds>)
        requires
            old(self)@.lives_in(arena@),
        ensures
            r is Ok <==> old(self)@.fits(0, old(dst)@.len() as int),
            final(dst)@ == (if r is Ok {
                old(self)@.window(arena@).subrange(0, old(dst)@.len() as int)
            } else {
                old(dst)@
            }),
            final(self)@ == (if r is Ok { old(self)@.advance(old(dst)@.len() as int) } else { old(self)@ }),
            final(self)@.wf(),
    {
        self.raw.consume(arena, dst)
    }

    /// `consume` without the check, which the caller has made.
    pub fn unsafe_consume(&mut self, arena: &Arena, dst: &mut [u8])
        requires
            old(self)@.lives_in(arena@),
            old(self)@.fits(0, old(dst)@.len() as int),
        ensures
            final(dst)@ == old(self)@.window(arena@).subrange(0, old(dst)@.len() as int),
            final(self)@ == old(self)@.advance(old(dst)@.len() as int),
            final(self)@.wf(),
    {
        self.raw.unsafe_consume(arena, dst)
    }

    /// `peek_be` without the check, which the caller has made.
    pub fn unsafe_peek_be<T: Prim>(&self, arena: &Arena, pos: u32) -> (r: T)
        requires
            self@.lives_in(arena@),
            self@.fits(pos as int, T::width() as int),
        ensures
            r == self@.be_at::<T>(arena@, pos as int),
    {
        self.raw.unsafe_peek_be(arena, pos)
    }

    /// `peek_le` without the check, which the caller has made.
    pub fn unsafe_peek_le<T: Prim>(&self, arena: &Arena, pos: u32) -> (r: T)
        requires
            self@.lives_in(arena@),
            self@.fits(pos as int, T::width() as int),
        ensures
            r == self@.le_at::<T>(arena@, pos as int),
    {
        self.raw.unsafe_peek_le(arena, pos)
    }

    /// Reads a big-endian `T` at `pos` past the window's start.
    pub fn peek_be<T: Prim>(&self, arena: &Arena, pos: u32) -> (r: Result<T, OutOfBounds>)
        requires
            self@.lives_in(arena@),
        ensures
            r is Ok <==> self@.fits(pos as int, T::width() as int),
            r is Ok ==> r == Ok::<T, OutOfBounds>(self@.be_at::<T>(arena@, pos as int)),
    {
        self.raw.peek_be(arena, pos)
    }

    /// Reads a little-endian `T` at `pos` past the window's start.
    pub fn peek_le<T: Prim>(&self, arena: &Arena, pos: u32) -> (r: Result<T, OutOfBounds>)
        requires
            self@.lives_in(arena@),
        ensures
            r is Ok <==> self@.fits(pos as int, T::width() as int),
            r is Ok ==> r == Ok::<T, OutOfBounds>(self@.le_at::<T>(arena@, pos as int)),
    {
        self.raw.peek_le(arena, pos)
    }

    /// Reads a big-endian `T` at the window's start and advances past it.
    pub fn consume_be<T: Prim>(&mut self, arena: &Arena) -> (r: Result<T, OutOfBounds>)
        requires
            old(self)@.lives_in(arena@),
        ensures
            r is Ok <==> old(self)@.fits(0, T::width() as int),
            r is Ok ==> r == Ok::<T, OutOfBounds>(old(self)@.be_at::<T>(arena@, 0)),
            final(self)@ == (if r is Ok { old(self)@.advance(T::width() as int) } else { old(self)@ }),
            final(self)@.wf(),
    {
        self.raw.consume_be(arena)
    }

    /// Reads a little-endian `T` at the window's start and advances past it.
    pub fn consume_le<T: Prim>(&mut self, arena: &Arena) -> (r: Result<T, OutOfBounds>)
        requires
            old(self)@.lives_in(arena@),
        ensures
            r is Ok <==> old(self)@.fits(0, T::width() as int),
            r is Ok ==> r == Ok::<T, OutOfBounds>(old(self)@.le_at::<T>(arena@, 0)),
            final(self)@ == (if r is Ok { old(self)@.advance(T::width() as int) } else { old(self)@ }),
            final(self)@.wf(),
    {
        self.raw.consume_le(arena)
    }

    /// `consume_be` without the check, which the caller has made.
    pub fn unsafe_consume_be<T: Prim>(&mut self, arena: &Arena) -> (r: T)
        requires
            old(self)@.lives_in(arena@),
            old(self)@.fits(0, T::width() as int),
        ensures
            r == old(self)@.be_at::<T>(arena@, 0),
            final(self)@ == old(self)@.advance(T::width() as int),
            final(self)@.wf(),
    {
        self.raw.unsafe_consume_be(arena)
    }

    /// `consume_le` without the check, which the caller has made.
    pub fn unsafe_consume_le<T: Prim>(&mut self, arena: &Arena) -> (r: T)
        requires
            old(self)@.lives_in(arena@),
            old(self)@.fits(0, T::width() as int),
        ensures
            r == old(self)@.le_at::<T>(arena@, 0),
            final(self)@ == old(self)@.advance(T::width() as int),
            final(self)@.wf(),
    {
        self.raw.unsafe_consume_le(arena)
    }

    /// A copy of the window's bytes in a new buffer, viewed whole.
    pub fn deep_clone(&self, arena: &mut Arena) -> (r: RWIobuf)
        requires
            self@.lives_in(old(arena)@),
        ensures
            final(arena)@ == old(arena)@.push(self@.window(old(arena)@)),
            r@ == IobufView::full(old(arena)@.len() as int, self@.len()),
            r@.wf(),
    {
        RWIobuf { raw: self.raw.deep_clone(arena) }
    }

    /// The window's bytes.
    pub fn as_window_slice<'a>(&self, arena: &'a Arena) -> (r: &'a [u8])
        requires
            self@.lives_in(arena@),
        ensures
            r@ == self@.window(arena@),
    {
        self.raw.as_window_slice(arena)
    }

    /// The bytes within the limits.
    pub fn as_limit_slice<'a>(&self, arena: &'a Arena) -> (r: &'a [u8])
        requires
            self@.lives_in(arena@),
        ensures
            r@ == self@.limit_bytes(arena@),
    {
        self.raw.as_limit_slice(arena)
    }

    /// Whether `other`'s window starts in the same buffer where this one ends.
    pub fn is_extended_by_ro(&self, other: &ROIobuf) -> (r: bool)
        ensures
            r == self@.is_extended_by(other@),
    {
        self.raw.is_extended_by(&other.raw)
    }

    /// Whether `other`'s window starts in the same buffer where this one ends.
    pub fn is_extended_by_rw(&self, other: &RWIobuf) -> (r: bool)
        ensures
            r == self@.is_extended_by(other@),
    {
        self.raw.is_extended_by(&other.raw)
    }
}

impl RWIobuf {
    /// A new empty buffer, viewed whole.
    pub fn empty(arena: &mut Arena) -> (r: RWIobuf)
        ensures
            final(arena)@ == old(arena)@.push(Seq::<u8>::empty()),
            r@ == IobufView::full(old(arena)@.len() as int, 0),
    {
        let raw = RawIobuf::new(arena, 0);
        assert(Seq::new(0, |i: int| 0u8) =~= Seq::<u8>::empty());
        RWIobuf { raw }
    }

    /// A new buffer of `len` zero bytes, viewed whole.
    pub fn new(arena: &mut Arena, len: usize) -> (r: RWIobuf)
        requires
            len <= u32::MAX,
        ensures
            final(arena)@ == old(arena)@.push(Seq::new(len as nat, |i: int| 0u8)),
            r@ == IobufView::full(old(arena)@.len() as int, len as int),
    {
        RWIobuf { raw: RawIobuf::new(arena, len) }
    }

    /// A new buffer holding the bytes of `s`, viewed whole.
    pub fn from_string(arena: &mut Arena, s: String) -> (r: RWIobuf)
        requires
            encode_utf8(s@).len() <= u32::MAX,
        ensures
            final(arena)@ == old(arena)@.push(encode_utf8(s@)),
            r@ == IobufView::full(old(arena)@.len() as int, encode_utf8(s@).len() as int),
    {
        RWIobuf { raw: RawIobuf::from_slice(arena, s.as_str().as_bytes()) }
    }

    /// Takes `v` as a new buffer, viewed whole.
    pub fn from_vec(arena: &mut Arena, v: Vec<u8>) -> (r: RWIobuf)
        requires
            v@.len() <= u32::MAX,
        ensures
            final(arena)@ == old(arena)@.push(v@),
            r@ == IobufView::full(old(arena)@.len() as int, v@.len() as int),
    {
        RWIobuf { raw: RawIobuf::from_vec(arena, v) }
    }

    /// A new buffer holding a copy of `s`, viewed whole.
    pub fn from_slice(arena: &mut Arena, s: &[u8]) -> (r: RWIobuf)
        requires
            s@.len() <= u32::MAX,
        ensures
            final(arena)@ == old(arena)@.push(s@),
            r@ == IobufView::full(old(arena)@.len() as int, s@.len() as int),
    {
        RWIobuf { raw: RawIobuf::from_slice(arena, s) }
    }

    /// A read-only view with the same buffer, limits and window.
    pub fn read_only(&self) -> (r: ROIobuf)
        ensures
            r@ == self@,
    {
        ROIobuf { raw: self.raw }
    }

    /// The window's length.
    pub fn len(&self) -> (r: u32)
        ensures
            r == self@.len(),
    {
        self.raw.len()
    }

    /// The length of the limits.
    pub fn cap(&self) -> (r: u32)
        ensures
            r == self@.cap(),
    {
        self.raw.cap()
    }

    /// Whether the window is empty.
    pub fn is_empty(&self) -> (r: bool)
        ensures
            r == (self@.len() == 0),
    {
        self.raw.is_empty()
    }

    /// Whether `[pos, pos + len)` past the window's start lies within the window.
    pub fn check_range(&self, pos: u32, len: u32) -> (r: Result<(), OutOfBounds>)
        ensures
            r is Ok <==> self@.fits(pos as int, len as int),
    {
        self.raw.check_range(pos, len)
    }

    /// `check_range` with a `usize` length.
    pub fn check_range_uint(&self, pos: u32, len: usize) -> (r: Result<(), OutOfBounds>)
        ensures
            r is Ok <==> self@.fits(pos as int, len as int),
    {
        self.raw.check_range_uint(pos, len)
    }

    /// Makes the window `[pos, pos + len)` past its old start; the limits stay.
    pub fn sub_window(&mut self, pos: u32, len: u32) -> (r: Result<(), OutOfBounds>)
        ensures
            r is Ok <==> old(self)@.fits(pos as int, len as int),
            final(self)@ == (if r is Ok { old(self)@.sub_window(pos as int, len as int) } else { old(self)@ }),
            final(self)@.wf(),
    {
        self.raw.sub_window(pos, len)
    }

    /// Moves the window's start `pos` bytes on; its end stays.
    pub fn sub_window_from(&mut self, pos: u32) -> (r: Result<(), OutOfBounds>)
        ensures
            r is Ok <==> old(self)@.fits(pos as int, 0),
            final(self)@ == (if r is Ok { old(self)@.sub_window_from(pos as int) } else { old(self)@ }),
            final(self)@.wf(),
    {
        self.raw.sub_window_from(pos)
    }

    /// Makes the window `len` bytes long from its start.
    pub fn sub_window_to(&mut self, len: u32) -> (r: Result<(), OutOfBounds>)
        ensures
            r is Ok <==> old(self)@.fits(0, len as int),
            final(self)@ == (if r is Ok { old(self)@.sub_window_to(len as int) } else { old(self)@ }),
            final(self)@.wf(),
    {
        self.raw.sub_window_to(len)
    }

    /// `sub_window` without the check, which the caller has made.
    pub fn unsafe_sub_window(&mut self, pos: u32, len: u32)
        requires
            old(self)@.fits(pos as int, len as int),
        ensures
            final(self)@ == old(self)@.sub_window(pos as int, len as int),
            final(self)@.wf(),
    {
        self.raw.unsafe_sub_window(pos, len)
    }

    /// `sub_window_from` without the check, which the caller has made.
    pub fn unsafe_sub_window_from(&mut self, pos: u32)
        requires
            old(self)@.fits(pos as int, 0),
        ensures
            final(self)@ == old(self)@.sub_window_from(pos as int),
            final(self)@.wf(),
    {
        self.raw.unsafe_sub_window_from(pos)
    }

    /// `sub_window_to` without the check, which the caller has made.
    pub fn unsafe_sub_window_to(&mut self, len: u32)
        requires
            old(self)@.fits(0, len as int),
        ensures
            final(self)@ == old(self)@.sub_window_to(len as int),
            final(self)@.wf(),
    {
        self.raw.unsafe_sub_window_to(len)
    }

    /// A guard for a run of unchecked operations: the caller must have shown
    /// that `[pos, pos + len)` past the window's start lies within the window.
    pub fn check_range_fail(&self, pos: u32, len: u32)
        requires
            self@.fits(pos as int, len as int),
    {
        self.raw.check_range_fail(pos, len)
    }

    /// `check_range_fail` with a `usize` length.
    pub fn check_range_uint_fail(&self, pos: u32, len: usize)
        requires
            self@.fits(pos as int, len as int),
    {
        self.raw.check_range_uint_fail(pos, len)
    }

    /// Like `sub_window`, checked against the limits, and then narrows the
    /// limits to the new window.
    pub fn sub(&mut self, pos: u32, len: u32) -> (r: Result<(), OutOfBounds>)
        ensures
            r is Ok <==> old(self)@.can_sub(pos as int, len as int),
            final(self)@ == (if r is Ok { old(self)@.sub(pos as int, len as int) } else { old(self)@ }),
            final(self)@.wf(),
    {
        self.raw.sub(pos, len)
    }

    /// Like `sub_window_from`, and then narrows the limits to the new window.
    pub fn sub_from(&mut self, pos: u32) -> (r: Result<(), OutOfBounds>)
        ensures
            r is Ok <==> old(self)@.fits(pos as int, 0),
            final(self)@ == (if r is Ok { old(self)@.sub_from(pos as int) } else { old(self)@ }),
            final(self)@.wf(),
    {
        self.raw.sub_from(pos)
    }

    /// Like `sub_window_to`, checked against the limits, and then narrows the
    /// limits to the new window.
    pub fn sub_to(&mut self, len: u32) -> (r: Result<(), OutOfBounds>)
        ensures
            r is Ok <==> old(self)@.can_sub(0, len as int),
            final(self)@ == (if r is Ok { old(self)@.sub_to(len as int) } else { old(self)@ }),
            final(self)@.wf(),
    {
        self.raw.sub_to(len)
    }

    /// `sub` without the check, which the caller has made.
    pub fn unsafe_sub(&mut self, pos: u32, len: u32)
        requires
            old(self)@.can_sub(pos as int, len as int),
        ensures
            final(self)@ == old(self)@.sub(pos as int, len as int),
            final(self)@.wf(),
    {
        self.raw.unsafe_sub(pos, len)
    }

    /// `sub_from` without the check, which the caller has made.
    pub fn unsafe_sub_from(&mut self, pos: u32)
        requires
            old(self)@.fits(pos as int, 0),
        ensures
            final(self)@ == old(self)@.sub_from(pos as int),
            final(self)@.wf(),
    {
        self.raw.unsafe_sub_from(pos)
    }

    /// `sub_to` without the check, which the caller has made.
    pub fn unsafe_sub_to(&mut self, len: u32)
        requires
            old(self)@.can_sub(0, len as int),
        ensures
            final(self)@ == old(self)@.sub_to(len as int),
            final(self)@.wf(),
    {
        self.raw.unsafe_sub_to(len)
    }

    /// Sets limits and window, as offsets into the buffer. The new limits may
    /// not reach past the old ones and must hold the new window.
    pub fn set_limits_and_window(&mut self, limits: (u32, u32), window: (u32, u32)) -> (r: Result<
        (),
        OutOfBounds,
    >)
        ensures
            r is Ok <==> old(self)@.can_set(
                (limits.0 as int, limits.1 as int),
                (window.0 as int, window.1 as int),
            ),
            final(self)@ == (if r is Ok {
                old(self)@.set_limits_and_window(
                    (limits.0 as int, limits.1 as int),
                    (window.0 as int, window.1 as int),
                )
            } else {
                old(self)@
            }),
            final(self)@.wf(),
    {
        self.raw.set_limits_and_window(limits, window)
    }

    /// Shrinks the limits to the window, for good.
    pub fn narrow(&mut self)
        ensures
            final(self)@ == old(self)@.narrow(),
            final(self)@.wf(),
    {
        self.raw.narrow()
    }

    /// Moves the window's start `len` bytes on.
    pub fn advance(&mut self, len: u32) -> (r: Result<(), OutOfBounds>)
        ensures
            r is Ok <==> old(self)@.fits(len as int, 0),
            final(self)@ == (if r is Ok { old(self)@.advance(len as int) } else { old(self)@ }),
            final(self)@.wf(),
    {
        self.raw.advance(len)
    }

    /// `advance` without the check, which the caller has made.
    pub fn unsafe_advance(&mut self, len: u32)
        requires
            old(self)@.fits(len as int, 0),
        ensures
            final(self)@ == old(self)@.advance(len as int),
            final(self)@.wf(),
    {
        self.raw.unsafe_advance(len)
    }

    /// Moves the window's end `len` bytes on, within the limits.
    pub fn extend(&mut self, len: u32) -> (r: Result<(), OutOfBounds>)
        ensures
            r is Ok <==> old(self)@.can_extend(len as int),
            final(self)@ == (if r is Ok { old(self)@.extend(len as int) } else { old(self)@ }),
            final(self)@.wf(),
    {
        self.raw.extend(len)
    }

    /// `extend` without the check, which the caller has made.
    pub fn unsafe_extend(&mut self, len: u32)
        requires
            old(self)@.can_extend(len as int),
        ensures
            final(self)@ == old(self)@.extend(len as int),
            final(self)@.wf(),
    {
        self.raw.unsafe_extend(len)
    }

    /// Makes the window `len` bytes long from its start, within the limits.
    pub fn resize(&mut self, len: u32) -> (r: Result<(), OutOfBounds>)
        ensures
            r is Ok <==> old(self)@.can_resize(len as int),
            final(self)@ == (if r is Ok { old(self)@.resize(len as int) } else { old(self)@ }),
            final(self)@.wf(),
    {
        self.raw.resize(len)
    }

    /// `resize` without the check, which the caller has made.
    pub fn unsafe_resize(&mut self, len: u32)
        requires
            old(self)@.can_resize(len as int),
        ensures
            final(self)@ == old(self)@.resize(len as int),
            final(self)@.wf(),
    {
        self.raw.unsafe_resize(len)
    }

    /// Widens the window to the limits.
    pub fn rewind(&mut self)
        ensures
            final(self)@ == old(self)@.rewind(),
            final(self)@.wf(),
    {
        self.raw.rewind()
    }

    /// Widens limits and window to the whole buffer.
    pub fn reset(&mut self)
        ensures
            final(self)@ == old(self)@.reset(),
            final(self)@.wf(),
    {
        self.raw.reset()
    }

    /// From filling to draining: the window becomes what was filled, from
    /// the low limit up to the old window start.
    pub fn flip_lo(&mut self)
        ensures
            final(self)@ == old(self)@.flip_lo(),
            final(self)@.wf(),
    {
        self.raw.flip_lo()
    }

    /// From draining to filling: the window becomes what follows the old
    /// window, up to the high limit.
    pub fn flip_hi(&mut self)
        ensures
            final(self)@ == old(self)@.flip_hi(),
            final(self)@.wf(),
    {
        self.raw.flip_hi()
    }

    /// Copies `dst.len()` bytes from `pos` past the window's start into `dst`,
    /// or nothing if they are not all in the window.
    pub fn peek(&self, arena: &Arena, pos: u32, dst: &mut [u8]) -> (r: Result<(), OutOfBounds>)
        requires
            self@.lives_in(arena@),
        ensures
            r is Ok <==> self@.fits(pos as int, old(dst)@.len() as int),
            final(dst)@ == (if r is Ok {
                self@.window(arena@).subrange(pos as int, pos + old(dst)@.len())
            } else {
                old(dst)@
            }),
    {
        self.raw.peek(arena, pos, dst)
    }

    /// `peek` without the check, which the caller has made.
    pub fn unsafe_peek(&self, arena: &Arena, pos: u32, dst: &mut [u8])
        requires
            self@.lives_in(arena@),
            self@.fits(pos as int, old(dst)@.len() as int),
        ensures
            final(dst)@ == self@.window(arena@).subrange(pos as int, pos + old(dst)@.len()),
    {
        self.raw.unsafe_peek(arena, pos, dst)
    }

    /// Writes `src` at `pos` past the window's start, or nothing if it does
    /// not fit in the window.
    pub fn poke(&self, arena: &mut Arena, pos: u32, src: &[u8]) -> (r: Result<(), OutOfBounds>)
        requires
            self@.lives_in(old(arena)@),
        ensures
            r is Ok <==> self@.fits(pos as int, src@.len() as int),
            final(arena)@ == (if r is Ok {
                self@.written(old(arena)@, pos as int, src@)
            } else {
                old(arena)@
            }),
    {
        self.raw.poke(arena, pos, src)
    }

    /// `poke` without the check, which the caller has made.
    pub fn unsafe_poke(&self, arena: &mut Arena, pos: u32, src: &[u8])
        requires
            self@.lives_in(old(arena)@),
            self@.fits(pos as int, src@.len() as int),
        ensures
            final(arena)@ == self@.written(old(arena)@, pos as int, src@),
    {
        self.raw.unsafe_poke(arena, pos, src)
    }

    /// Like `peek` at the window's start, then advances past what was read.
    pub fn consume(&mut self, arena: &Arena, dst: &mut [u8]) -> (r: Result<(), OutOfBounds>)
        requires
            old(self)@.lives_in(arena@),
        ensures
            r is Ok <==> old(self)@.fits(0, old(dst)@.len() as int),
            final(dst)@ == (if r is Ok {
                old(self)@.window(arena@).subrange(0, old(dst)@.len() as int)
            } else {
                old(dst)@
            }),
            final(self)@ == (if r is Ok { old(self)@.advance(old(dst)@.len() as int) } else { old(self)@ }),
            final(self)@.wf(),
    {
        self.raw.consume(arena, dst)
    }

    /// `consume` without the check, which the caller has made.
    pub fn unsafe_consume(&mut self, arena: &Arena, dst: &mut [u8])
        requires
            old(self)@.lives_in(arena@),
            old(self)@.fits(0, old(dst)@.len() as int),
        ensures
            final(dst)@ == old(self)@.window(arena@).subrange(0, old(dst)@.len() as int),
            final(self)@ == old(self)@.advance(old(dst)@.len() as int),
            final(self)@.wf(),
    {
        self.raw.unsafe_consume(arena, dst)
    }

    /// Like `poke` at the window's start, then advances past what was written.
    pub fn fill(&mut self, arena: &mut Arena, src: &[u8]) -> (r: Result<(), OutOfBounds>)
        requires
            old(self)@.lives_in(old(arena)@),
        ensures
            r is Ok <==> old(self)@.fits(0, src@.len() as int),
            final(arena)@ == (if r is Ok {
                old(self)@.written(old(arena)@, 0, src@)
            } else {
                old(arena)@
            }),
            final(self)@ == (if r is Ok { old(self)@.advance(src@.len() as int) } else { old(self)@ }),
            final(self)@.wf(),
    {
        self.raw.fill(arena, src)
    }

    /// `fill` without the check, which the caller has made.
    pub fn unsafe_fill(&mut self, arena: &mut Arena, src: &[u8])
        requires
            old(self)@.lives_in(old(arena)@),
            old(self)@.fits(0, src@.len() as int),
        ensures
            final(arena)@ == old(self)@.written(old(arena)@, 0, src@),
            final(self)@ == old(self)@.advance(src@.len() as int),
            final(self)@.wf(),
    {
        self.raw.unsafe_fill(arena, src)
    }

    /// `peek_be` without the check, which the caller has made.
    pub fn unsafe_peek_be<T: Prim>(&self, arena: &Arena, pos: u32) -> (r: T)
        requires
            self@.lives_in(arena@),
            self@.fits(pos as int, T::width() as int),
        ensures
            r == self@.be_at::<T>(arena@, pos as int),
    {
        self.raw.unsafe_peek_be(arena, pos)
    }

    /// `peek_le` without the check, which the caller has made.
    pub fn unsafe_peek_le<T: Prim>(&self, arena: &Arena, pos: u32) -> (r: T)
        requires
            self@.lives_in(arena@),
            self@.fits(pos as int, T::width() as int),
        ensures
            r == self@.le_at::<T>(arena@, pos as int),
    {
        self.raw.unsafe_peek_le(arena, pos)
    }

    /// `poke_be` without the check, which the caller has made.
    pub fn unsafe_poke_be<T: Prim>(&self, arena: &mut Arena, pos: u32, t: T)
        requires
            self@.lives_in(old(arena)@),
            self@.fits(pos as int, T::width() as int),
        ensures
            final(arena)@ == self@.written(old(arena)@, pos as int, be_bytes(t.bits(), T::width())),
    {
        self.raw.unsafe_poke_be(arena, pos, t)
    }

    /// `poke_le` without the check, which the caller has made.
    pub fn unsafe_poke_le<T: Prim>(&self, arena: &mut Arena, pos: u32, t: T)
        requires
            self@.lives_in(old(arena)@),
            self@.fits(pos as int, T::width() as int),
        ensures
            final(arena)@ == self@.written(old(arena)@, pos as int, le_bytes(t.bits(), T::width())),
    {
        self.raw.unsafe_poke_le(arena, pos, t)
    }

    /// Reads a big-endian `T` at `pos` past the window's start.
    pub fn peek_be<T: Prim>(&self, arena: &Arena, pos: u32) -> (r: Result<T, OutOfBounds>)
        requires
            self@.lives_in(arena@),
        ensures
            r is Ok <==> self@.fits(pos as int, T::width() as int),
            r is Ok ==> r == Ok::<T, OutOfBounds>(self@.be_at::<T>(arena@, pos as int)),
    {
        self.raw.peek_be(arena, pos)
    }

    /// Reads a little-endian `T` at `pos` past the window's start.
    pub fn peek_le<T: Prim>(&self, arena: &Arena, pos: u32) -> (r: Result<T, OutOfBounds>)
        requires
            self@.lives_in(arena@),
        ensures
            r is Ok <==> self@.fits(pos as int, T::width() as int),
            r is Ok ==> r == Ok::<T, OutOfBounds>(self@.le_at::<T>(arena@, pos as int)),
    {
        self.raw.peek_le(arena, pos)
    }

    /// Reads a big-endian `T` at the window's start and advances past it.
    pub fn consume_be<T: Prim>(&mut self, arena: &Arena) -> (r: Result<T, OutOfBounds>)
        requires
            old(self)@.lives_in(arena@),
        ensures
            r is Ok <==> old(self)@.fits(0, T::width() as int),
            r is Ok ==> r == Ok::<T, OutOfBounds>(old(self)@.be_at::<T>(arena@, 0)),
            final(self)@ == (if r is Ok { old(self)@.advance(T::width() as int) } else { old(self)@ }),
            final(self)@.wf(),
    {
        self.raw.consume_be(arena)
    }

    /// Reads a little-endian `T` at the window's start and advances past it.
    pub fn consume_le<T: Prim>(&mut self, arena: &Arena) -> (r: Result<T, OutOfBounds>)
        requires
            old(self)@.lives_in(arena@),
        ensures
            r is Ok <==> old(self)@.fits(0, T::width() as int),
            r is Ok ==> r == Ok::<T, OutOfBounds>(old(self)@.le_at::<T>(arena@, 0)),
            final(self)@ == (if r is Ok { old(self)@.advance(T::width() as int) } else { old(self)@ }),
            final(self)@.wf(),
    {
        self.raw.consume_le(arena)
    }

    /// `consume_be` without the check, which the caller has made.
    pub fn unsafe_consume_be<T: Prim>(&mut self, arena: &Arena) -> (r: T)
        requires
            old(self)@.lives_in(arena@),
            old(self)@.fits(0, T::width() as int),
        ensures
            r == old(self)@.be_at::<T>(arena@, 0),
            final(self)@ == old(self)@.advance(T::width() as int),
            final(self)@.wf(),
    {
        self.raw.unsafe_consume_be(arena)
    }

    /// `consume_le` without the check, which the caller has made.
    pub fn unsafe_consume_le<T: Prim>(&mut self, arena: &Arena) -> (r: T)
        requires
            old(self)@.lives_in(arena@),
            old(self)@.fits(0, T::width() as int),
        ensures
            r == old(self)@.le_at::<T>(arena@, 0),
            final(self)@ == old(self)@.advance(T::width() as int),
            final(self)@.wf(),
    {
        self.raw.unsafe_consume_le(arena)
    }

    /// Writes `t` big-endian at `pos` past the window's start.
    pub fn poke_be<T: Prim>(&self, arena: &mut Arena, pos: u32, t: T) -> (r: Result<(), OutOfBounds>)
        requires
            self@.lives_in(old(arena)@),
        ensures
            r is Ok <==> self@.fits(pos as int, T::width() as int),
            final(arena)@ == (if r is Ok {
                self@.written(old(arena)@, pos as int, be_bytes(t.bits(), T::width()))
            } else {
                old(arena)@
            }),
    {
        self.raw.poke_be(arena, pos, t)
    }

    /// Writes `t` little-endian at `pos` past the window's start.
    pub fn poke_le<T: Prim>(&self, arena: &mut Arena, pos: u32, t: T) -> (r: Result<(), OutOfBounds>)
        requires
            self@.lives_in(old(arena)@),
        ensures
            r is Ok <==> self@.fits(pos as int, T::width() as int),
            final(arena)@ == (if r is Ok {
                self@.written(old(arena)@, pos as int, le_bytes(t.bits(), T::width()))
            } else {
                old(arena)@
            }),
    {
        self.raw.poke_le(arena, pos, t)
    }

    /// Writes `t` big-endian at the window's start and advances past it.
    pub fn fill_be<T: Prim>(&mut self, arena: &mut Arena, t: T) -> (r: Result<(), OutOfBounds>)
        requires
            old(self)@.lives_in(old(arena)@),
        ensures
            r is Ok <==> old(self)@.fits(0, T::width() as int),
            final(arena)@ == (if r is Ok {
                old(self)@.written(old(arena)@, 0, be_bytes(t.bits(), T::width()))
            } else {
                old(arena)@
            }),
            final(self)@ == (if r is Ok { old(self)@.advance(T::width() as int) } else { old(self)@ }),
            final(self)@.wf(),
    {
        self.raw.fill_be(arena, t)
    }

    /// Writes `t` little-endian at the window's start and advances past it.
    pub fn fill_le<T: Prim>(&mut self, arena: &mut Arena, t: T) -> (r: Result<(), OutOfBounds>)
        requires
            old(self)@.lives_in(old(arena)@),
        ensures
            r is Ok <==> old(self)@.fits(0, T::width() as int),
            final(arena)@ == (if r is Ok {
                old(self)@.written(old(arena)@, 0, le_bytes(t.bits(), T::width()))
            } else {
                old(arena)@
            }),
            final(self)@ == (if r is Ok { old(self)@.advance(T::width() as int) } else { old(self)@ }),
            final(self)@.wf(),
    {
        self.raw.fill_le(arena, t)
    }

    /// `fill_be` without the check, which the caller has made.
    pub fn unsafe_fill_be<T: Prim>(&mut self, arena: &mut Arena, t: T)
        requires
            old(self)@.lives_in(old(arena)@),
            old(self)@.fits(0, T::width() as int),
        ensures
            final(arena)@ == old(self)@.written(old(arena)@, 0, be_bytes(t.bits(), T::width())),
            final(self)@ == old(self)@.advance(T::width() as int),
            final(self)@.wf(),
    {
        self.raw.unsafe_fill_be(arena, t)
    }

    /// `fill_le` without the check, which the caller has made.
    pub fn unsafe_fill_le<T: Prim>(&mut self, arena: &mut Arena, t: T)
        requires
            old(self)@.lives_in(old(arena)@),
            old(self)@.fits(0, T::width() as int),
        ensures
            final(arena)@ == old(self)@.written(old(arena)@, 0, le_bytes(t.bits(), T::width())),
            final(self)@ == old(self)@.advance(T::width() as int),
            final(self)@.wf(),
    {
        self.raw.unsafe_fill_le(arena, t)
    }

    /// Copies the window down to the low limit and makes the window run
    /// from the end of the copy to the high limit.
    pub fn compact(&mut self, arena: &mut Arena)
        requires
            old(self)@.lives_in(old(arena)@),
        ensures
            final(arena)@ == old(self)@.compacted(old(arena)@),
            final(self)@ == old(self)@.compact(),
            final(self)@.wf(),
    {
        self.raw.compact(arena)
    }

    /// A copy of the window's bytes in a new buffer, viewed whole.
    pub fn deep_clone(&self, arena: &mut Arena) -> (r: RWIobuf)
        requires
            self@.lives_in(old(arena)@),
        ensures
            final(arena)@ == old(arena)@.push(self@.window(old(arena)@)),
            r@ == IobufView::full(old(arena)@.len() as int, self@.len()),
            r@.wf(),
    {
        RWIobuf { raw: self.raw.deep_clone(arena) }
    }

    /// The window's bytes.
    pub fn as_window_slice<'a>(&self, arena: &'a Arena) -> (r: &'a [u8])
        requires
            self@.lives_in(arena@),
        ensures
            r@ == self@.window(arena@),
    {
        self.raw.as_window_slice(arena)
    }

    /// The bytes within the limits.
    pub fn as_limit_slice<'a>(&self, arena: &'a Arena) -> (r: &'a [u8])
        requires
            self@.lives_in(arena@),
        ensures
            r@ == self@.limit_bytes(arena@),
    {
        self.raw.as_limit_slice(arena)
    }

    /// The window's bytes, to be written in place.
    pub fn as_window_slice_mut<'a>(&self, arena: &'a mut Arena) -> (r: &'a mut [u8])
        requires
            self@.lives_in(old(arena)@),
        ensures
            r@ == self@.window(old(arena)@),
            final(arena)@ == old(arena)@.update(
                self@.buf,
                old(arena)@[self@.buf].subrange(0, self@.lo) + final(r)@ + old(arena)@[self@.buf].subrange(
                    self@.hi,
                    self@.size,
                ),
            ),
    {
        self.raw.as_window_slice_mut(arena)
    }

    /// The bytes within the limits, to be written in place.
    pub fn as_limit_slice_mut<'a>(&self, arena: &'a mut Arena) -> (r: &'a mut [u8])
        requires
            self@.lives_in(old(arena)@),
        ensures
            r@ == self@.limit_bytes(old(arena)@),
            final(arena)@ == old(arena)@.update(
                self@.buf,
                old(arena)@[self@.buf].subrange(0, self@.lo_min) + final(r)@ + old(arena)@[self@.buf].subrange(
                    self@.hi_max,
                    self@.size,
                ),
            ),
    {
        self.raw.as_limit_slice_mut(arena)
    }

    /// Whether `other`'s window starts in the same buffer where this one ends.
    pub fn is_extended_by_ro(&self, other: &ROIobuf) -> (r: bool)
        ensures
            r == self@.is_extended_by(other@),
    {
        self.raw.is_extended_by(&other.raw)
    }

    /// Whether `other`'s window starts in the same buffer where this one ends.
    pub fn is_extended_by_rw(&self, other: &RWIobuf) -> (r: bool)
        ensures
            r == self@.is_extended_by(other@),
    {
        self.raw.is_extended_by(&other.raw)
    }
}

} // verus!
