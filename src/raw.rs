//! The windowed view: limits, window, and every operation on them.

use vstd::prelude::*;

use crate::arena::{overwrite, Arena};
use crate::prim::{
    be_bytes, be_value, le_bytes, le_value, lemma_be_bytes_len, lemma_be_value_bound,
    lemma_le_bytes_len, lemma_le_value_bound,
    lemma_pow256_mono, lemma_pow256_values, pow256, Prim,
};

verus! {

/// The one error of checked operations: the range asked for leaves the
/// window (for accessors) or the limits (for navigation).
#[derive(Clone, Copy, Debug, PartialEq, Eq, Structural)]
pub struct OutOfBounds;

/// What a view is: a buffer index, that buffer's length, the limits
/// `[lo_min, hi_max)` and the window `[lo, hi)`, as offsets into the buffer.
pub struct IobufView {
    pub buf: int,
    pub size: int,
    pub lo_min: int,
    pub lo: int,
    pub hi: int,
    pub hi_max: int,
}

impl IobufView {
    /// `0 <= lo_min <= lo <= hi <= hi_max <= size`, with offsets in `u32`.
    pub open spec fn wf(self) -> bool {
        &&& 0 <= self.buf <= usize::MAX
        &&& 0 <= self.lo_min <= self.lo <= self.hi <= self.hi_max <= self.size <= u32::MAX
    }

    /// A view over all of buffer `buf`, of length `size`.
    pub open spec fn full(buf: int, size: int) -> IobufView {
        IobufView { buf, size, lo_min: 0, lo: 0, hi: size, hi_max: size }
    }

    pub open spec fn len(self) -> int {
        self.hi - self.lo
    }

    pub open spec fn cap(self) -> int {
        self.hi_max - self.lo_min
    }

    /// The view addresses a buffer of `store` of the length it records.
    pub open spec fn lives_in(self, store: Seq<Seq<u8>>) -> bool {
        0 <= self.buf < store.len() && store[self.buf].len() == self.size
    }

    /// The bytes in the window.
    pub open spec fn window(self, store: Seq<Seq<u8>>) -> Seq<u8> {
        store[self.buf].subrange(self.lo, self.hi)
    }

    /// The bytes within the limits.
    pub open spec fn limit_bytes(self, store: Seq<Seq<u8>>) -> Seq<u8> {
        store[self.buf].subrange(self.lo_min, self.hi_max)
    }

    /// `store` after writing `src` at `pos` past the window's start.
    pub open spec fn written(self, store: Seq<Seq<u8>>, pos: int, src: Seq<u8>) -> Seq<Seq<u8>> {
        store.update(self.buf, overwrite(store[self.buf], self.lo + pos, src))
    }

    /// The `T` read big-endian at `pos` past the window's start.
    pub open spec fn be_at<T: Prim>(self, store: Seq<Seq<u8>>, pos: int) -> T {
        T::of_bits(be_value(self.window(store).subrange(pos, pos + T::width())))
    }

    /// The `T` read little-endian at `pos` past the window's start.
    pub open spec fn le_at<T: Prim>(self, store: Seq<Seq<u8>>, pos: int) -> T {
        T::of_bits(le_value(self.window(store).subrange(pos, pos + T::width())))
    }

    /// `store` after the window's bytes are copied down to the low limit.
    pub open spec fn compacted(self, store: Seq<Seq<u8>>) -> Seq<Seq<u8>> {
        store.update(self.buf, overwrite(store[self.buf], self.lo_min, self.window(store)))
    }

    /// `[pos, pos + len)` past the window's start lies within the window.
    pub open spec fn fits(self, pos: int, len: int) -> bool {
        pos + len <= self.len()
    }

    pub open spec fn set_window(self, lo: int, hi: int) -> IobufView {
        IobufView { lo, hi, ..self }
    }

    pub open spec fn set_limits(self, lo_min: int, hi_max: int) -> IobufView {
        IobufView { lo_min, hi_max, ..self }
    }

    pub open spec fn sub_window(self, pos: int, len: int) -> IobufView {
        self.set_window(self.lo + pos, self.lo + pos + len)
    }

    pub open spec fn sub_window_from(self, pos: int) -> IobufView {
        self.set_window(self.lo + pos, self.hi)
    }

    pub open spec fn sub_window_to(self, len: int) -> IobufView {
        self.set_window(self.lo, self.lo + len)
    }

    /// `[pos, pos + len)` past the window's start lies within the limits.
    pub open spec fn can_sub(self, pos: int, len: int) -> bool {
        self.lo + pos + len <= self.hi_max
    }

    pub open spec fn sub(self, pos: int, len: int) -> IobufView {
        self.sub_window(pos, len).narrow()
    }

    pub open spec fn sub_from(self, pos: int) -> IobufView {
        self.sub_window_from(pos).narrow()
    }

    pub open spec fn sub_to(self, len: int) -> IobufView {
        self.sub_window_to(len).narrow()
    }

    /// The new limits lie within the old ones and hold the new window.
    pub open spec fn can_set(self, limits: (int, int), window: (int, int)) -> bool {
        self.lo_min <= limits.0 <= window.0 <= window.1 <= limits.1 <= self.hi_max
    }

    pub open spec fn set_limits_and_window(self, limits: (int, int), window: (int, int)) -> IobufView {
        self.set_limits(limits.0, limits.1).set_window(window.0, window.1)
    }

    pub open spec fn narrow(self) -> IobufView {
        self.set_limits(self.lo, self.hi)
    }

    pub open spec fn advance(self, len: int) -> IobufView {
        self.set_window(self.lo + len, self.hi)
    }

    pub open spec fn can_extend(self, len: int) -> bool {
        self.hi + len <= self.hi_max
    }

    pub open spec fn extend(self, len: int) -> IobufView {
        self.set_window(self.lo, self.hi + len)
    }

    pub open spec fn can_resize(self, len: int) -> bool {
        self.lo + len <= self.hi_max
    }

    pub open spec fn resize(self, len: int) -> IobufView {
        self.set_window(self.lo, self.lo + len)
    }

    pub open spec fn rewind(self) -> IobufView {
        self.set_window(self.lo_min, self.hi_max)
    }

    pub open spec fn reset(self) -> IobufView {
        IobufView::full(self.buf, self.size)
    }

    /// From filling to draining: the window becomes what was filled, from
    /// the low limit up to the old window start.
    pub open spec fn flip_lo(self) -> IobufView {
        self.set_window(self.lo_min, self.lo)
    }

    /// From draining to filling: the window becomes what follows the old
    /// window, up to the high limit.
    pub open spec fn flip_hi(self) -> IobufView {
        self.set_window(self.hi, self.hi_max)
    }

    /// The window moved past the unread bytes once they sit at the low limit.
    pub open spec fn compact(self) -> IobufView {
        self.set_window(self.lo_min + self.len(), self.hi_max)
    }

    /// `other`'s window starts in the same buffer where this one ends.
    pub open spec fn is_extended_by(self, other: IobufView) -> bool {
        self.buf == other.buf && self.hi == other.lo
    }
}

/// The state of a view, shared by the read-only and the read-write kind.
#[derive(Clone, Copy, Debug)]
pub(crate) struct RawIobuf {
    buf: usize,
    size: u32,
    lo_min: u32,
    lo: u32,
    hi: u32,
    hi_max: u32,
}

impl View for RawIobuf {
    type V = IobufView;

    closed spec fn view(&self) -> IobufView {
        IobufView {
            buf: self.buf as int,
            size: self.size as int,
            lo_min: self.lo_min as int,
            lo: self.lo as int,
            hi: self.hi as int,
            hi_max: self.hi_max as int,
        }
    }
}

impl RawIobuf {
    #[verifier::type_invariant]
    spec fn inv(self) -> bool {
        self.lo_min <= self.lo <= self.hi <= self.hi_max <= self.size
    }

    /// A view over all of buffer `buf`, of length `size`.
    pub fn full(buf: usize, size: u32) -> (r: RawIobuf)
        ensures
            r@ == IobufView::full(buf as int, size as int),
    {
        RawIobuf { buf, size, lo_min: 0, lo: 0, hi: size, hi_max: size }
    }

    /// Takes `v` as a new buffer of `arena` and views all of it.
    pub fn from_vec(arena: &mut Arena, v: Vec<u8>) -> (r: RawIobuf)
        requires
            v@.len() <= u32::MAX,
        ensures
            final(arena)@ == old(arena)@.push(v@),
            r@ == IobufView::full(old(arena)@.len() as int, v@.len() as int),
    {
        let n = v.len() as u32;
        let id = arena.add(v);
        RawIobuf::full(id, n)
    }

    /// A new buffer of `len` zero bytes, viewed whole.
    pub fn new(arena: &mut Arena, len: usize) -> (r: RawIobuf)
        requires
            len <= u32::MAX,
        ensures
            final(arena)@ == old(arena)@.push(Seq::new(len as nat, |i: int| 0u8)),
            r@ == IobufView::full(old(arena)@.len() as int, len as int),
    {
        let mut v: Vec<u8> = Vec::new();
        let mut i: usize = 0;
        while i < len
            invariant
                i <= len,
                v@ == Seq::new(i as nat, |k: int| 0u8),
            decreases len - i,
        {
            v.push(0);
            i = i + 1;
            assert(v@ =~= Seq::new(i as nat, |k: int| 0u8));
        }
        RawIobuf::from_vec(arena, v)
    }

    /// A new buffer holding a copy of `s`, viewed whole.
    pub fn from_slice(arena: &mut Arena, s: &[u8]) -> (r: RawIobuf)
        requires
            s@.len() <= u32::MAX,
        ensures
            final(arena)@ == old(arena)@.push(s@),
            r@ == IobufView::full(old(arena)@.len() as int, s@.len() as int),
    {
        let mut v: Vec<u8> = Vec::new();
        let mut i: usize = 0;
        while i < s.len()
            invariant
                i <= s@.len(),
                v@ == s@.subrange(0, i as int),
            decreases s@.len() - i,
        {
            v.push(s[i]);
            i = i + 1;
            assert(v@ =~= s@.subrange(0, i as int));
        }
        assert(v@ =~= s@);
        RawIobuf::from_vec(arena, v)
    }

    /// The window's length.
    pub fn len(&self) -> (r: u32)
        ensures
            r == self@.len(),
    {
        proof {
            use_type_invariant(self);
        }
        self.hi - self.lo
    }

    /// The length of the limits.
    pub fn cap(&self) -> (r: u32)
        ensures
            r == self@.cap(),
    {
        proof {
            use_type_invariant(self);
        }
        self.hi_max - self.lo_min
    }

    /// Whether the window is empty.
    pub fn is_empty(&self) -> (r: bool)
        ensures
            r == (self@.len() == 0),
    {
        self.lo == self.hi
    }

    /// Whether `[pos, pos + len)` past the window's start lies within the window.
    pub fn check_range(&self, pos: u32, len: u32) -> (r: Result<(), OutOfBounds>)
        ensures
            r is Ok <==> self@.fits(pos as int, len as int),
    {
        self.check_range_uint(pos, len as usize)
    }

    /// `check_range` with a `usize` length.
    pub fn check_range_uint(&self, pos: u32, len: usize) -> (r: Result<(), OutOfBounds>)
        ensures
            r is Ok <==> self@.fits(pos as int, len as int),
    {
        proof {
            use_type_invariant(self);
        }
        let avail = self.hi - self.lo;
        if pos <= avail && len <= (avail - pos) as usize {
            Ok(())
        } else {
            Err(OutOfBounds)
        }
    }

    /// Makes the window `[pos, pos + len)` past its old start; the limits stay.
    pub fn sub_window(&mut self, pos: u32, len: u32) -> (r: Result<(), OutOfBounds>)
        ensures
            r is Ok <==> old(self)@.fits(pos as int, len as int),
            final(self)@ == (if r is Ok { old(self)@.sub_window(pos as int, len as int) } else { old(self)@ }),
            final(self)@.wf(),
    {
        proof {
            use_type_invariant(&*self);
        }
        if self.check_range(pos, len).is_ok() {
            self.unsafe_sub_window(pos, len);
            Ok(())
        } else {
            Err(OutOfBounds)
        }
    }

    /// Moves the window's start `pos` bytes on; its end stays.
    pub fn sub_window_from(&mut self, pos: u32) -> (r: Result<(), OutOfBounds>)
        ensures
            r is Ok <==> old(self)@.fits(pos as int, 0),
            final(self)@ == (if r is Ok { old(self)@.sub_window_from(pos as int) } else { old(self)@ }),
            final(self)@.wf(),
    {
        proof {
            use_type_invariant(&*self);
        }
        if pos <= self.hi - self.lo {
            self.unsafe_sub_window_from(pos);
            Ok(())
        } else {
            Err(OutOfBounds)
        }
    }

    /// Makes the window `len` bytes long from its start.
    pub fn sub_window_to(&mut self, len: u32) -> (r: Result<(), OutOfBounds>)
        ensures
            r is Ok <==> old(self)@.fits(0, len as int),
            final(self)@ == (if r is Ok { old(self)@.sub_window_to(len as int) } else { old(self)@ }),
            final(self)@.wf(),
    {
        proof {
            use_type_invariant(&*self);
        }
        if len <= self.hi - self.lo {
            self.unsafe_sub_window_to(len);
            Ok(())
        } else {
            Err(OutOfBounds)
        }
    }

    /// `sub_window` without the check, which the caller has made.
    pub fn unsafe_sub_window(&mut self, pos: u32, len: u32)
        requires
            old(self)@.fits(pos as int, len as int),
        ensures
            final(self)@ == old(self)@.sub_window(pos as int, len as int),
            final(self)@.wf(),
    {
        proof {
            use_type_invariant(&*self);
        }
        self.lo = self.lo + pos;
        self.hi = self.lo + len;
        proof {
            use_type_invariant(&*self);
        }
    }

    /// `sub_window_from` without the check, which the caller has made.
    pub fn unsafe_sub_window_from(&mut self, pos: u32)
        requires
            old(self)@.fits(pos as int, 0),
        ensures
            final(self)@ == old(self)@.sub_window_from(pos as int),
            final(self)@.wf(),
    {
        proof {
            use_type_invariant(&*self);
        }
        self.lo = self.lo + pos;
        proof {
            use_type_invariant(&*self);
        }
    }

    /// `sub_window_to` without the check, which the caller has made.
    pub fn unsafe_sub_window_to(&mut self, len: u32)
        requires
            old(self)@.fits(0, len as int),
        ensures
            final(self)@ == old(self)@.sub_window_to(len as int),
            final(self)@.wf(),
    {
        proof {
            use_type_invariant(&*self);
        }
        self.hi = self.lo + len;
        proof {
            use_type_invariant(&*self);
        }
    }

    /// A guard for a run of unchecked operations: the caller must have shown
    /// that `[pos, pos + len)` past the window's start lies within the window.
    pub fn check_range_fail(&self, pos: u32, len: u32)
        requires
            self@.fits(pos as int, len as int),
    {
    }

    /// `check_range_fail` with a `usize` length.
    pub fn check_range_uint_fail(&self, pos: u32, len: usize)
        requires
            self@.fits(pos as int, len as int),
    {
    }

    /// Like `sub_window`, checked against the limits, and then narrows the
    /// limits to the new window.
    pub fn sub(&mut self, pos: u32, len: u32) -> (r: Result<(), OutOfBounds>)
        ensures
            r is Ok <==> old(self)@.can_sub(pos as int, len as int),
            final(self)@ == (if r is Ok { old(self)@.sub(pos as int, len as int) } else { old(self)@ }),
            final(self)@.wf(),
    {
        proof {
            use_type_invariant(&*self);
        }
        if pos <= self.hi_max - self.lo && len <= self.hi_max - self.lo - pos {
            self.unsafe_sub(pos, len);
            Ok(())
        } else {
            Err(OutOfBounds)
        }
    }

    /// Like `sub_window_from`, and then narrows the limits to the new window.
    pub fn sub_from(&mut self, pos: u32) -> (r: Result<(), OutOfBounds>)
        ensures
            r is Ok <==> old(self)@.fits(pos as int, 0),
            final(self)@ == (if r is Ok { old(self)@.sub_from(pos as int) } else { old(self)@ }),
            final(self)@.wf(),
    {
        proof {
            use_type_invariant(&*self);
        }
        if pos <= self.hi - self.lo {
            self.unsafe_sub_from(pos);
            Ok(())
        } else {
            Err(OutOfBounds)
        }
    }

    /// Like `sub_window_to`, checked against the limits, and then narrows the
    /// limits to the new window.
    pub fn sub_to(&mut self, len: u32) -> (r: Result<(), OutOfBounds>)
        ensures
            r is Ok <==> old(self)@.can_sub(0, len as int),
            final(self)@ == (if r is Ok { old(self)@.sub_to(len as int) } else { old(self)@ }),
            final(self)@.wf(),
    {
        proof {
            use_type_invariant(&*self);
        }
        if len <= self.hi_max - self.lo {
            self.unsafe_sub_to(len);
            Ok(())
        } else {
            Err(OutOfBounds)
        }
    }

    /// `sub` without the check, which the caller has made.
    pub fn unsafe_sub(&mut self, pos: u32, len: u32)
        requires
            old(self)@.can_sub(pos as int, len as int),
        ensures
            final(self)@ == old(self)@.sub(pos as int, len as int),
            final(self)@.wf(),
    {
        proof {
            use_type_invariant(&*self);
        }
        let lo = self.lo + pos;
        *self = RawIobuf { buf: self.buf, size: self.size, lo_min: lo, lo, hi: lo + len, hi_max: lo + len };
        proof {
            use_type_invariant(&*self);
        }
    }

    /// `sub_from` without the check, which the caller has made.
    pub fn unsafe_sub_from(&mut self, pos: u32)
        requires
            old(self)@.fits(pos as int, 0),
        ensures
            final(self)@ == old(self)@.sub_from(pos as int),
            final(self)@.wf(),
    {
        proof {
            use_type_invariant(&*self);
        }
        let lo = self.lo + pos;
        *self = RawIobuf { buf: self.buf, size: self.size, lo_min: lo, lo, hi: self.hi, hi_max: self.hi };
        proof {
            use_type_invariant(&*self);
        }
    }

    /// `sub_to` without the check, which the caller has made.
    pub fn unsafe_sub_to(&mut self, len: u32)
        requires
            old(self)@.can_sub(0, len as int),
        ensures
            final(self)@ == old(self)@.sub_to(len as int),
            final(self)@.wf(),
    {
        proof {
            use_type_invariant(&*self);
        }
        let hi = self.lo + len;
        *self = RawIobuf { buf: self.buf, size: self.size, lo_min: self.lo, lo: self.lo, hi, hi_max: hi };
        proof {
            use_type_invariant(&*self);
        }
    }

    /// Sets limits and window, as offsets into the buffer. The new limits may
    /// not reach past the old ones and must hold the new window.
    pub fn set_limits_and_window(&mut self, limits: (u32, u32), window: (u32, u32)) -> (r: Result<
        (),
        OutOfBounds,
    >)
        ensures
            r is Ok <==> old(self)@.can_set(
                (limits.0 as int, limits.1 as int),
                (window.0 as int, window.1 as int),
            ),
            final(self)@ == (if r is Ok {
                old(self)@.set_limits_and_window(
                    (limits.0 as int, limits.1 as int),
                    (window.0 as int, window.1 as int),
                )
            } else {
                old(self)@
            }),
            final(self)@.wf(),
    {
        proof {
            use_type_invariant(&*self);
        }
        if self.lo_min <= limits.0 && limits.0 <= window.0 && window.0 <= window.1 && window.1
            <= limits.1 && limits.1 <= self.hi_max {
            *self = RawIobuf {
                buf: self.buf,
                size: self.size,
                lo_min: limits.0,
                lo: window.0,
                hi: window.1,
                hi_max: limits.1,
            };
            proof {
                use_type_invariant(&*self);
            }
            Ok(())
        } else {
            Err(OutOfBounds)
        }
    }

    /// Shrinks the limits to the window, for good.
    pub fn narrow(&mut self)
        ensures
            final(self)@ == old(self)@.narrow(),
            final(self)@.wf(),
    {
        proof {
            use_type_invariant(&*self);
        }
        self.lo_min = self.lo;
        self.hi_max = self.hi;
        proof {
            use_type_invariant(&*self);
        }
    }

    /// Moves the window's start `len` bytes on.
    pub fn advance(&mut self, len: u32) -> (r: Result<(), OutOfBounds>)
        ensures
            r is Ok <==> old(self)@.fits(len as int, 0),
            final(self)@ == (if r is Ok { old(self)@.advance(len as int) } else { old(self)@ }),
            final(self)@.wf(),
    {
        proof {
            use_type_invariant(&*self);
        }
        if len <= self.hi - self.lo {
            self.unsafe_advance(len);
            Ok(())
        } else {
            Err(OutOfBounds)
        }
    }

    /// `advance` without the check, which the caller has made.
    pub fn unsafe_advance(&mut self, len: u32)
        requires
            old(self)@.fits(len as int, 0),
        ensures
            final(self)@ == old(self)@.advance(len as int),
            final(self)@.wf(),
    {
        proof {
            use_type_invariant(&*self);
        }
        self.lo = self.lo + len;
        proof {
            use_type_invariant(&*self);
        }
    }

    /// Moves the window's end `len` bytes on, within the limits.
    pub fn extend(&mut self, len: u32) -> (r: Result<(), OutOfBounds>)
        ensures
            r is Ok <==> old(self)@.can_extend(len as int),
            final(self)@ == (if r is Ok { old(self)@.extend(len as int) } else { old(self)@ }),
            final(self)@.wf(),
    {
        proof {
            use_type_invariant(&*self);
        }
        if len <= self.hi_max - self.hi {
            self.unsafe_extend(len);
            Ok(())
        } else {
            Err(OutOfBounds)
        }
    }

    /// `extend` without the check, which the caller has made.
    pub fn unsafe_extend(&mut self, len: u32)
        requires
            old(self)@.can_extend(len as int),
        ensures
            final(self)@ == old(self)@.extend(len as int),
            final(self)@.wf(),
    {
        proof {
            use_type_invariant(&*self);
        }
        self.hi = self.hi + len;
        proof {
            use_type_invariant(&*self);
        }
    }

    /// Makes the window `len` bytes long from its start, within the limits.
    pub fn resize(&mut self, len: u32) -> (r: Result<(), OutOfBounds>)
        ensures
            r is Ok <==> old(self)@.can_resize(len as int),
            final(self)@ == (if r is Ok { old(self)@.resize(len as int) } else { old(self)@ }),
            final(self)@.wf(),
    {
        proof {
            use_type_invariant(&*self);
        }
        if len <= self.hi_max - self.lo {
            self.unsafe_resize(len);
            Ok(())
        } else {
            Err(OutOfBounds)
        }
    }

    /// `resize` without the check, which the caller has made.
    pub fn unsafe_resize(&mut self, len: u32)
        requires
            old(self)@.can_resize(len as int),
        ensures
            final(self)@ == old(self)@.resize(len as int),
            final(self)@.wf(),
    {
        proof {
            use_type_invariant(&*self);
        }
        self.hi = self.lo + len;
        proof {
            use_type_invariant(&*self);
        }
    }

    /// Widens the window to the limits.
    pub fn rewind(&mut self)
        ensures
            final(self)@ == old(self)@.rewind(),
            final(self)@.wf(),
    {
        proof {
            use_type_invariant(&*self);
        }
        self.lo = self.lo_min;
        self.hi = self.hi_max;
        proof {
            use_type_invariant(&*self);
        }
    }

    /// Widens limits and window to the whole buffer.
    pub fn reset(&mut self)
        ensures
            final(self)@ == old(self)@.reset(),
            final(self)@.wf(),
    {
        *self = RawIobuf::full(self.buf, self.size);
        proof {
            use_type_invariant(&*self);
        }
    }

    /// From filling to draining: the window becomes what was filled, from
    /// the low limit up to the old window start.
    pub fn flip_lo(&mut self)
        ensures
            final(self)@ == old(self)@.flip_lo(),
            final(self)@.wf(),
    {
        proof {
            use_type_invariant(&*self);
        }
        self.hi = self.lo;
        self.lo = self.lo_min;
        proof {
            use_type_invariant(&*self);
        }
    }

    /// From draining to filling: the window becomes what follows the old
    /// window, up to the high limit.
    pub fn flip_hi(&mut self)
        ensures
            final(self)@ == old(self)@.flip_hi(),
            final(self)@.wf(),
    {
        proof {
            use_type_invariant(&*self);
        }
        self.lo = self.hi;
        self.hi = self.hi_max;
        proof {
            use_type_invariant(&*self);
        }
    }

    /// Whether `other`'s window starts in the same buffer where this one ends.
    pub fn is_extended_by(&self, other: &RawIobuf) -> (r: bool)
        ensures
            r == self@.is_extended_by(other@),
    {
        self.buf == other.buf && self.hi == other.lo
    }

    /// Copies `dst.len()` bytes from `pos` past the window's start into `dst`,
    /// or nothing if they are not all in the window.
    pub fn peek(&self, arena: &Arena, pos: u32, dst: &mut [u8]) -> (r: Result<(), OutOfBounds>)
        requires
            self@.lives_in(arena@),
        ensures
            r is Ok <==> self@.fits(pos as int, old(dst)@.len() as int),
            final(dst)@ == (if r is Ok {
                self@.window(arena@).subrange(pos as int, pos + old(dst)@.len())
            } else {
                old(dst)@
            }),
    {
        if self.check_range_uint(pos, dst.len()).is_ok() {
            self.unsafe_peek(arena, pos, dst);
            Ok(())
        } else {
            Err(OutOfBounds)
        }
    }

    /// `peek` without the check, which the caller has made.
    pub fn unsafe_peek(&self, arena: &Arena, pos: u32, dst: &mut [u8])
        requires
            self@.lives_in(arena@),
            self@.fits(pos as int, old(dst)@.len() as int),
        ensures
            final(dst)@ == self@.window(arena@).subrange(pos as int, pos + old(dst)@.len()),
    {
        proof {
            use_type_invariant(self);
        }
        let n = dst.len();
        let start = (self.lo + pos) as usize;
        let mut i: usize = 0;
        while i < n
            invariant
                self@.lives_in(arena@),
                self@.fits(pos as int, n as int),
                self@.wf(),
                start == self@.lo + pos,
                i <= n,
                n == dst@.len(),
                forall|k: int| 0 <= k < i ==> dst@[k] == arena@[self@.buf][start + k],
            decreases n - i,
        {
            dst[i] = arena.get(self.buf, start + i);
            i = i + 1;
        }
        assert(dst@ =~= self@.window(arena@).subrange(pos as int, pos + n));
    }

    /// Writes `src` at `pos` past the window's start, or nothing if it does
    /// not fit in the window.
    pub fn poke(&self, arena: &mut Arena, pos: u32, src: &[u8]) -> (r: Result<(), OutOfBounds>)
        requires
            self@.lives_in(old(arena)@),
        ensures
            r is Ok <==> self@.fits(pos as int, src@.len() as int),
            final(arena)@ == (if r is Ok {
                self@.written(old(arena)@, pos as int, src@)
            } else {
                old(arena)@
            }),
    {
        if self.check_range_uint(pos, src.len()).is_ok() {
            self.unsafe_poke(arena, pos, src);
            Ok(())
        } else {
            Err(OutOfBounds)
        }
    }

    /// `poke` without the check, which the caller has made.
    pub fn unsafe_poke(&self, arena: &mut Arena, pos: u32, src: &[u8])
        requires
            self@.lives_in(old(arena)@),
            self@.fits(pos as int, src@.len() as int),
        ensures
            final(arena)@ == self@.written(old(arena)@, pos as int, src@),
    {
        proof {
            use_type_invariant(self);
        }
        let n = src.len();
        let start = (self.lo + pos) as usize;
        let ghost store = arena@;
        let ghost b = self@.buf;
        let mut i: usize = 0;
        while i < n
            invariant
                self@.lives_in(store),
                b == self@.buf,
                self@.fits(pos as int, n as int),
                self@.wf(),
                start == self@.lo + pos,
                i <= n,
                n == src@.len(),
                arena@.len() == store.len(),
                forall|j: int| 0 <= j < store.len() && j != b ==> arena@[j] == store[j],
                arena@[b].len() == store[b].len(),
                forall|k: int|
                    0 <= k < store[b].len() ==> arena@[b][k] == (if start <= k < start + i {
                        src@[k - start]
                    } else {
                        store[b][k]
                    }),
            decreases n - i,
        {
            arena.set(self.buf, start + i, src[i]);
            i = i + 1;
        }
        assert(arena@[b] =~= overwrite(store[b], start as int, src@));
        assert(arena@ =~= self@.written(store, pos as int, src@));
    }

    /// Like `peek` at the window's start, then advances past what was read.
    pub fn consume(&mut self, arena: &Arena, dst: &mut [u8]) -> (r: Result<(), OutOfBounds>)
        requires
            old(self)@.lives_in(arena@),
        ensures
            r is Ok <==> old(self)@.fits(0, old(dst)@.len() as int),
            final(dst)@ == (if r is Ok {
                old(self)@.window(arena@).subrange(0, old(dst)@.len() as int)
            } else {
                old(dst)@
            }),
            final(self)@ == (if r is Ok { old(self)@.advance(old(dst)@.len() as int) } else { old(self)@ }),
            final(self)@.wf(),
    {
        proof {
            use_type_invariant(&*self);
        }
        let n = dst.len();
        if self.check_range_uint(0, n).is_ok() {
            self.unsafe_consume(arena, dst);
            Ok(())
        } else {
            Err(OutOfBounds)
        }
    }

    /// `consume` without the check, which the caller has made.
    pub fn unsafe_consume(&mut self, arena: &Arena, dst: &mut [u8])
        requires
            old(self)@.lives_in(arena@),
            old(self)@.fits(0, old(dst)@.len() as int),
        ensures
            final(dst)@ == old(self)@.window(arena@).subrange(0, old(dst)@.len() as int),
            final(self)@ == old(self)@.advance(old(dst)@.len() as int),
            final(self)@.wf(),
    {
        let n = dst.len();
        self.unsafe_peek(arena, 0, dst);
        self.unsafe_advance(n as u32);
    }

    /// Like `poke` at the window's start, then advances past what was written.
    pub fn fill(&mut self, arena: &mut Arena, src: &[u8]) -> (r: Result<(), OutOfBounds>)
        requires
            old(self)@.lives_in(old(arena)@),
        ensures
            r is Ok <==> old(self)@.fits(0, src@.len() as int),
            final(arena)@ == (if r is Ok {
                old(self)@.written(old(arena)@, 0, src@)
            } else {
                old(arena)@
            }),
            final(self)@ == (if r is Ok { old(self)@.advance(src@.len() as int) } else { old(self)@ }),
            final(self)@.wf(),
    {
        proof {
            use_type_invariant(&*self);
        }
        if self.check_range_uint(0, src.len()).is_ok() {
            self.unsafe_fill(arena, src);
            Ok(())
        } else {
            Err(OutOfBounds)
        }
    }

    /// `fill` without the check, which the caller has made.
    pub fn unsafe_fill(&mut self, arena: &mut Arena, src: &[u8])
        requires
            old(self)@.lives_in(old(arena)@),
            old(self)@.fits(0, src@.len() as int),
        ensures
            final(arena)@ == old(self)@.written(old(arena)@, 0, src@),
            final(self)@ == old(self)@.advance(src@.len() as int),
            final(self)@.wf(),
    {
        self.unsafe_poke(arena, 0, src);
        self.unsafe_advance(src.len() as u32);
    }

    /// `peek_be` without the check, which the caller has made.
    pub fn unsafe_peek_be<T: Prim>(&self, arena: &Arena, pos: u32) -> (r: T)
        requires
            self@.lives_in(arena@),
            self@.fits(pos as int, T::width() as int),
        ensures
            r == self@.be_at::<T>(arena@, pos as int),
    {
        proof {
            use_type_invariant(self);
        }
        let n = T::size();
        let start = (self.lo + pos) as usize;
        let ghost w = self@.window(arena@).subrange(pos as int, pos + n);
        let mut acc: u64 = 0;
        let mut i: u32 = 0;
        while i < n
            invariant
                self@.lives_in(arena@),
                self@.fits(pos as int, n as int),
                self@.wf(),
                start == self@.lo + pos,
                1 <= n <= 8,
                w == self@.window(arena@).subrange(pos as int, pos + n),
                i <= n,
                acc as nat == be_value(w.subrange(0, i as int)),
            decreases n - i,
        {
            proof {
                lemma_be_value_bound(w.subrange(0, i as int));
                lemma_pow256_mono((i + 1) as nat, 8);
                lemma_pow256_values();
                assert(acc * 256 + 255 < pow256((i + 1) as nat)) by (nonlinear_arith)
                    requires
                        acc < pow256(i as nat),
                        pow256((i + 1) as nat) == 256 * pow256(i as nat),
                ;
            }
            let byte = arena.get(self.buf, start + i as usize);
            proof {
                assert(w.subrange(0, i + 1).drop_last() =~= w.subrange(0, i as int));
            }
            acc = acc * 256 + byte as u64;
            i = i + 1;
        }
        proof {
            assert(w.subrange(0, n as int) =~= w);
            lemma_be_value_bound(w);
        }
        T::from_bits(acc)
    }

    /// `peek_le` without the check, which the caller has made.
    pub fn unsafe_peek_le<T: Prim>(&self, arena: &Arena, pos: u32) -> (r: T)
        requires
            self@.lives_in(arena@),
            self@.fits(pos as int, T::width() as int),
        ensures
            r == self@.le_at::<T>(arena@, pos as int),
    {
        proof {
            use_type_invariant(self);
        }
        let n = T::size();
        let start = (self.lo + pos) as usize;
        let ghost w = self@.window(arena@).subrange(pos as int, pos + n);
        let mut acc: u64 = 0;
        let mut i: u32 = n;
        proof {
            assert(w.subrange(n as int, n as int) =~= Seq::<u8>::empty());
        }
        while i > 0
            invariant
                self@.lives_in(arena@),
                self@.fits(pos as int, n as int),
                self@.wf(),
                start == self@.lo + pos,
                1 <= n <= 8,
                w == self@.window(arena@).subrange(pos as int, pos + n),
                i <= n,
                acc as nat == le_value(w.subrange(i as int, n as int)),
            decreases i,
        {
            proof {
                lemma_le_value_bound(w.subrange(i as int, n as int));
                lemma_pow256_mono((n - i + 1) as nat, 8);
                lemma_pow256_values();
                assert(acc * 256 + 255 < pow256((n - i + 1) as nat)) by (nonlinear_arith)
                    requires
                        acc < pow256((n - i) as nat),
                        pow256((n - i + 1) as nat) == 256 * pow256((n - i) as nat),
                ;
            }
            let byte = arena.get(self.buf, start + (i - 1) as usize);
            proof {
                assert(w.subrange(i - 1, n as int).drop_first() =~= w.subrange(i as int, n as int));
            }
            acc = byte as u64 + acc * 256;
            i = i - 1;
        }
        proof {
            assert(w.subrange(0, n as int) =~= w);
            lemma_le_value_bound(w);
        }
        T::from_bits(acc)
    }

    /// `poke_be` without the check, which the caller has made.
    pub fn unsafe_poke_be<T: Prim>(&self, arena: &mut Arena, pos: u32, t: T)
        requires
            self@.lives_in(old(arena)@),
            self@.fits(pos as int, T::width() as int),
        ensures
            final(arena)@ == self@.written(old(arena)@, pos as int, be_bytes(t.bits(), T::width())),
    {
        proof {
            use_type_invariant(self);
        }
        let n = T::size();
        let start = (self.lo + pos) as usize;
        let ghost store = arena@;
        let ghost b = self@.buf;
        let ghost bytes = be_bytes(t.bits(), n as nat);
        proof {
            lemma_be_bytes_len(t.bits(), n as nat);
        }
        let mut x = t.to_bits();
        let mut i: u32 = n;
        while i > 0
            invariant
                self@.lives_in(store),
                b == self@.buf,
                self@.fits(pos as int, n as int),
                self@.wf(),
                start == self@.lo + pos,
                i <= n,
                bytes.len() == n,
                be_bytes(x as nat, i as nat) == bytes.subrange(0, i as int),
                arena@.len() == store.len(),
                forall|j: int| 0 <= j < store.len() && j != b ==> arena@[j] == store[j],
                arena@[b].len() == store[b].len(),
                forall|k: int|
                    0 <= k < store[b].len() ==> arena@[b][k] == (if start + i <= k < start + n {
                        bytes[k - start]
                    } else {
                        store[b][k]
                    }),
            decreases i,
        {
            proof {
                let head = be_bytes(x as nat, i as nat);
                assert(head[i - 1] == bytes.subrange(0, i as int)[i - 1]);
                assert(head.drop_last() =~= bytes.subrange(0, i as int).drop_last());
                assert(bytes.subrange(0, i as int).drop_last() =~= bytes.subrange(0, i - 1));
            }
            arena.set(self.buf, start + (i - 1) as usize, (x % 256) as u8);
            x = x / 256;
            i = i - 1;
        }
        assert(arena@[b] =~= overwrite(store[b], start as int, bytes));
        assert(arena@ =~= self@.written(store, pos as int, bytes));
    }

    /// `poke_le` without the check, which the caller has made.
    pub fn unsafe_poke_le<T: Prim>(&self, arena: &mut Arena, pos: u32, t: T)
        requires
            self@.lives_in(old(arena)@),
            self@.fits(pos as int, T::width() as int),
        ensures
            final(arena)@ == self@.written(old(arena)@, pos as int, le_bytes(t.bits(), T::width())),
    {
        proof {
            use_type_invariant(self);
        }
        let n = T::size();
        let start = (self.lo + pos) as usize;
        let ghost store = arena@;
        let ghost b = self@.buf;
        let ghost bytes = le_bytes(t.bits(), n as nat);
        proof {
            lemma_le_bytes_len(t.bits(), n as nat);
            assert(bytes.subrange(0, n as int) =~= bytes);
        }
        let mut x = t.to_bits();
        let mut i: u32 = 0;
        while i < n
            invariant
                self@.lives_in(store),
                b == self@.buf,
                self@.fits(pos as int, n as int),
                self@.wf(),
                start == self@.lo + pos,
                i <= n,
                bytes.len() == n,
                le_bytes(x as nat, (n - i) as nat) == bytes.subrange(i as int, n as int),
                arena@.len() == store.len(),
                forall|j: int| 0 <= j < store.len() && j != b ==> arena@[j] == store[j],
                arena@[b].len() == store[b].len(),
                forall|k: int|
                    0 <= k < store[b].len() ==> arena@[b][k] == (if start <= k < start + i {
                        bytes[k - start]
                    } else {
                        store[b][k]
                    }),
            decreases n - i,
        {
            proof {
                let tail = le_bytes(x as nat, (n - i) as nat);
                assert(tail[0] == bytes.subrange(i as int, n as int)[0]);
                assert(tail.drop_first() =~= bytes.subrange(i as int, n as int).drop_first());
                assert(bytes.subrange(i as int, n as int).drop_first() =~= bytes.subrange(i + 1, n as int));
            }
            arena.set(self.buf, start + i as usize, (x % 256) as u8);
            x = x / 256;
            i = i + 1;
        }
        assert(arena@[b] =~= overwrite(store[b], start as int, bytes));
        assert(arena@ =~= self@.written(store, pos as int, bytes));
    }

    /// Reads a big-endian `T` at `pos` past the window's start.
    pub fn peek_be<T: Prim>(&self, arena: &Arena, pos: u32) -> (r: Result<T, OutOfBounds>)
        requires
            self@.lives_in(arena@),
        ensures
            r is Ok <==> self@.fits(pos as int, T::width() as int),
            r is Ok ==> r == Ok::<T, OutOfBounds>(self@.be_at::<T>(arena@, pos as int)),
    {
        if self.check_range(pos, T::size()).is_ok() {
            Ok(self.unsafe_peek_be(arena, pos))
        } else {
            Err(OutOfBounds)
        }
    }

    /// Reads a little-endian `T` at `pos` past the window's start.
    pub fn peek_le<T: Prim>(&self, arena: &Arena, pos: u32) -> (r: Result<T, OutOfBounds>)
        requires
            self@.lives_in(arena@),
        ensures
            r is Ok <==> self@.fits(pos as int, T::width() as int),
            r is Ok ==> r == Ok::<T, OutOfBounds>(self@.le_at::<T>(arena@, pos as int)),
    {
        if self.check_range(pos, T::size()).is_ok() {
            Ok(self.unsafe_peek_le(arena, pos))
        } else {
            Err(OutOfBounds)
        }
    }

    /// Reads a big-endian `T` at the window's start and advances past it.
    pub fn consume_be<T: Prim>(&mut self, arena: &Arena) -> (r: Result<T, OutOfBounds>)
        requires
            old(self)@.lives_in(arena@),
        ensures
            r is Ok <==> old(self)@.fits(0, T::width() as int),
            r is Ok ==> r == Ok::<T, OutOfBounds>(old(self)@.be_at::<T>(arena@, 0)),
            final(self)@ == (if r is Ok { old(self)@.advance(T::width() as int) } else { old(self)@ }),
            final(self)@.wf(),
    {
        proof {
            use_type_invariant(&*self);
        }
        if self.check_range(0, T::size()).is_ok() {
            Ok(self.unsafe_consume_be(arena))
        } else {
            Err(OutOfBounds)
        }
    }

    /// Reads a little-endian `T` at the window's start and advances past it.
    pub fn consume_le<T: Prim>(&mut self, arena: &Arena) -> (r: Result<T, OutOfBounds>)
        requires
            old(self)@.lives_in(arena@),
        ensures
            r is Ok <==> old(self)@.fits(0, T::width() as int),
            r is Ok ==> r == Ok::<T, OutOfBounds>(old(self)@.le_at::<T>(arena@, 0)),
            final(self)@ == (if r is Ok { old(self)@.advance(T::width() as int) } else { old(self)@ }),
            final(self)@.wf(),
    {
        proof {
            use_type_invariant(&*self);
        }
        if self.check_range(0, T::size()).is_ok() {
            Ok(self.unsafe_consume_le(arena))
        } else {
            Err(OutOfBounds)
        }
    }

    /// `consume_be` without the check, which the caller has made.
    pub fn unsafe_consume_be<T: Prim>(&mut self, arena: &Arena) -> (r: T)
        requires
            old(self)@.lives_in(arena@),
            old(self)@.fits(0, T::width() as int),
        ensures
            r == old(self)@.be_at::<T>(arena@, 0),
            final(self)@ == old(self)@.advance(T::width() as int),
            final(self)@.wf(),
    {
        let r = self.unsafe_peek_be(arena, 0);
        self.unsafe_advance(T::size());
        r
    }

    /// `consume_le` without the check, which the caller has made.
    pub fn unsafe_consume_le<T: Prim>(&mut self, arena: &Arena) -> (r: T)
        requires
            old(self)@.lives_in(arena@),
            old(self)@.fits(0, T::width() as int),
        ensures
            r == old(self)@.le_at::<T>(arena@, 0),
            final(self)@ == old(self)@.advance(T::width() as int),
            final(self)@.wf(),
    {
        let r = self.unsafe_peek_le(arena, 0);
        self.unsafe_advance(T::size());
        r
    }

    /// Writes `t` big-endian at `pos` past the window's start.
    pub fn poke_be<T: Prim>(&self, arena: &mut Arena, pos: u32, t: T) -> (r: Result<(), OutOfBounds>)
        requires
            self@.lives_in(old(arena)@),
        ensures
            r is Ok <==> self@.fits(pos as int, T::width() as int),
            final(arena)@ == (if r is Ok {
                self@.written(old(arena)@, pos as int, be_bytes(t.bits(), T::width()))
            } else {
                old(arena)@
            }),
    {
        if self.check_range(pos, T::size()).is_ok() {
            self.unsafe_poke_be(arena, pos, t);
            Ok(())
        } else {
            Err(OutOfBounds)
        }
    }

    /// Writes `t` little-endian at `pos` past the window's start.
    pub fn poke_le<T: Prim>(&self, arena: &mut Arena, pos: u32, t: T) -> (r: Result<(), OutOfBounds>)
        requires
            self@.lives_in(old(arena)@),
        ensures
            r is Ok <==> self@.fits(pos as int, T::width() as int),
            final(arena)@ == (if r is Ok {
                self@.written(old(arena)@, pos as int, le_bytes(t.bits(), T::width()))
            } else {
                old(arena)@
            }),
    {
        if self.check_range(pos, T::size()).is_ok() {
            self.unsafe_poke_le(arena, pos, t);
            Ok(())
        } else {
            Err(OutOfBounds)
        }
    }

    /// Writes `t` big-endian at the window's start and advances past it.
    pub fn fill_be<T: Prim>(&mut self, arena: &mut Arena, t: T) -> (r: Result<(), OutOfBounds>)
        requires
            old(self)@.lives_in(old(arena)@),
        ensures
            r is Ok <==> old(self)@.fits(0, T::width() as int),
            final(arena)@ == (if r is Ok {
                old(self)@.written(old(arena)@, 0, be_bytes(t.bits(), T::width()))
            } else {
                old(arena)@
            }),
            final(self)@ == (if r is Ok { old(self)@.advance(T::width() as int) } else { old(self)@ }),
            final(self)@.wf(),
    {
        proof {
            use_type_invariant(&*self);
        }
        if self.check_range(0, T::size()).is_ok() {
            self.unsafe_fill_be(arena, t);
            Ok(())
        } else {
            Err(OutOfBounds)
        }
    }

    /// Writes `t` little-endian at the window's start and advances past it.
    pub fn fill_le<T: Prim>(&mut self, arena: &mut Arena, t: T) -> (r: Result<(), OutOfBounds>)
        requires
            old(self)@.lives_in(old(arena)@),
        ensures
            r is Ok <==> old(self)@.fits(0, T::width() as int),
            final(arena)@ == (if r is Ok {
                old(self)@.written(old(arena)@, 0, le_bytes(t.bits(), T::width()))
            } else {
                old(arena)@
            }),
            final(self)@ == (if r is Ok { old(self)@.advance(T::width() as int) } else { old(self)@ }),
            final(self)@.wf(),
    {
        proof {
            use_type_invariant(&*self);
        }
        if self.check_range(0, T::size()).is_ok() {
            self.unsafe_fill_le(arena, t);
            Ok(())
        } else {
            Err(OutOfBounds)
        }
    }

    /// `fill_be` without the check, which the caller has made.
    pub fn unsafe_fill_be<T: Prim>(&mut self, arena: &mut Arena, t: T)
        requires
            old(self)@.lives_in(old(arena)@),
            old(self)@.fits(0, T::width() as int),
        ensures
            final(arena)@ == old(self)@.written(old(arena)@, 0, be_bytes(t.bits(), T::width())),
            final(self)@ == old(self)@.advance(T::width() as int),
            final(self)@.wf(),
    {
        self.unsafe_poke_be(arena, 0, t);
        self.unsafe_advance(T::size());
    }

    /// `fill_le` without the check, which the caller has made.
    pub fn unsafe_fill_le<T: Prim>(&mut self, arena: &mut Arena, t: T)
        requires
            old(self)@.lives_in(old(arena)@),
            old(self)@.fits(0, T::width() as int),
        ensures
            final(arena)@ == old(self)@.written(old(arena)@, 0, le_bytes(t.bits(), T::width())),
            final(self)@ == old(self)@.advance(T::width() as int),
            final(self)@.wf(),
    {
        self.unsafe_poke_le(arena, 0, t);
        self.unsafe_advance(T::size());
    }

    /// Copies the window down to the low limit and makes the window run
    /// from the end of the copy to the high limit.
    pub fn compact(&mut self, arena: &mut Arena)
        requires
            old(self)@.lives_in(old(arena)@),
        ensures
            final(arena)@ == old(self)@.compacted(old(arena)@),
            final(self)@ == old(self)@.compact(),
            final(self)@.wf(),
    {
        proof {
            use_type_invariant(&*self);
        }
        let n = (self.hi - self.lo) as usize;
        let from = self.lo as usize;
        let to = self.lo_min as usize;
        let ghost store = arena@;
        let ghost b = self@.buf;
        let ghost w = self@.window(store);
        let mut i: usize = 0;
        while i < n
            invariant
                self@.lives_in(store),
                b == self@.buf,
                self@.wf(),
                w == self@.window(store),
                n == self@.len(),
                from == self@.lo,
                to == self@.lo_min,
                i <= n,
                arena@.len() == store.len(),
                forall|j: int| 0 <= j < store.len() && j != b ==> arena@[j] == store[j],
                arena@[b].len() == store[b].len(),
                forall|k: int|
                    0 <= k < store[b].len() ==> arena@[b][k] == (if to <= k < to + i {
                        w[k - to]
                    } else {
                        store[b][k]
                    }),
            decreases n - i,
        {
            let byte = arena.get(self.buf, from + i);
            arena.set(self.buf, to + i, byte);
            i = i + 1;
        }
        assert(arena@[b] =~= overwrite(store[b], to as int, w));
        assert(arena@ =~= self@.compacted(store));
        self.lo = self.lo_min + (n as u32);
        self.hi = self.hi_max;
        proof {
            use_type_invariant(&*self);
        }
    }

    /// A copy of the window's bytes in a new buffer, viewed whole.
    pub fn deep_clone(&self, arena: &mut Arena) -> (r: RawIobuf)
        requires
            self@.lives_in(old(arena)@),
        ensures
            final(arena)@ == old(arena)@.push(self@.window(old(arena)@)),
            r@ == IobufView::full(old(arena)@.len() as int, self@.len()),
            r@.wf(),
    {
        proof {
            use_type_invariant(self);
        }
        let n = (self.hi - self.lo) as usize;
        let from = self.lo as usize;
        let ghost w = self@.window(arena@);
        let mut bytes: Vec<u8> = Vec::new();
        let mut i: usize = 0;
        while i < n
            invariant
                self@.lives_in(arena@),
                self@.wf(),
                w == self@.window(arena@),
                n == self@.len(),
                from == self@.lo,
                i <= n,
                bytes@ == w.subrange(0, i as int),
            decreases n - i,
        {
            bytes.push(arena.get(self.buf, from + i));
            i = i + 1;
            assert(bytes@ =~= w.subrange(0, i as int));
        }
        assert(bytes@ =~= w);
        let id = arena.add(bytes);
        RawIobuf::full(id, n as u32)
    }

    /// The window's bytes.
    pub fn as_window_slice<'a>(&self, arena: &'a Arena) -> (r: &'a [u8])
        requires
            self@.lives_in(arena@),
        ensures
            r@ == self@.window(arena@),
    {
        proof {
            use_type_invariant(self);
        }
        let bytes = arena.bytes(self.buf);
        &bytes[self.lo as usize..self.hi as usize]
    }

    /// The bytes within the limits.
    pub fn as_limit_slice<'a>(&self, arena: &'a Arena) -> (r: &'a [u8])
        requires
            self@.lives_in(arena@),
        ensures
            r@ == self@.limit_bytes(arena@),
    {
        proof {
            use_type_invariant(self);
        }
        let bytes = arena.bytes(self.buf);
        &bytes[self.lo_min as usize..self.hi_max as usize]
    }

    /// The window's bytes, to be written in place.
    pub fn as_window_slice_mut<'a>(&self, arena: &'a mut Arena) -> (r: &'a mut [u8])
        requires
            self@.lives_in(old(arena)@),
        ensures
            r@ == self@.window(old(arena)@),
            final(arena)@ == old(arena)@.update(
                self@.buf,
                old(arena)@[self@.buf].subrange(0, self@.lo) + final(r)@ + old(arena)@[self@.buf].subrange(
                    self@.hi,
                    self@.size,
                ),
            ),
    {
        proof {
            use_type_invariant(self);
        }
        arena.range_mut(self.buf, self.lo as usize, self.hi as usize)
    }

    /// The bytes within the limits, to be written in place.
    pub fn as_limit_slice_mut<'a>(&self, arena: &'a mut Arena) -> (r: &'a mut [u8])
        requires
            self@.lives_in(old(arena)@),
        ensures
            r@ == self@.limit_bytes(old(arena)@),
            final(arena)@ == old(arena)@.update(
                self@.buf,
                old(arena)@[self@.buf].subrange(0, self@.lo_min) + final(r)@ + old(arena)@[self@.buf].subrange(
                    self@.hi_max,
                    self@.size,
                ),
            ),
    {
        proof {
            use_type_invariant(self);
        }
        arena.range_mut(self.buf, self.lo_min as usize, self.hi_max as usize)
    }
}

} // verus!
