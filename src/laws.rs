//! Laws that tie the operations on views together.

use vstd::prelude::*;

use crate::prim::{be_bytes, le_bytes, lemma_be_bytes_len, lemma_be_round_trip, lemma_le_bytes_len, lemma_le_round_trip, Prim};
use crate::raw::IobufView;

verus! {

/// Every navigation operation keeps `0 <= lo_min <= lo <= hi <= hi_max <= size`
/// whenever it succeeds.
pub proof fn lemma_navigation_keeps_bounds(v: IobufView, pos: int, len: int, limits: (int, int), window: (int, int))
    requires
        v.wf(),
        0 <= pos,
        0 <= len,
    ensures
        v.fits(pos, len) ==> v.sub_window(pos, len).wf(),
        v.fits(pos, 0) ==> v.sub_window_from(pos).wf() && v.sub_from(pos).wf() && v.advance(pos).wf(),
        v.fits(0, len) ==> v.sub_window_to(len).wf(),
        v.can_sub(pos, len) ==> v.sub(pos, len).wf(),
        v.can_sub(0, len) ==> v.sub_to(len).wf(),
        v.can_set(limits, window) ==> v.set_limits_and_window(limits, window).wf(),
        v.can_extend(len) ==> v.extend(len).wf(),
        v.can_resize(len) ==> v.resize(len).wf(),
        v.narrow().wf(),
        v.rewind().wf(),
        v.reset().wf(),
        v.flip_lo().wf(),
        v.flip_hi().wf(),
        v.compact().wf(),
{
}

/// Narrowing twice leaves the same limits and window as narrowing once.
pub proof fn lemma_narrow_idempotent(v: IobufView)
    ensures
        v.narrow().narrow() == v.narrow(),
{
}

/// Resetting and then rewinding gives the view a new view of the whole
/// buffer would have.
pub proof fn lemma_reset_rewind_is_fresh(v: IobufView)
    requires
        v.wf(),
    ensures
        v.reset().rewind() == IobufView::full(v.buf, v.size),
{
}

/// Reading a `T` where one was just written, in the same byte order, gives
/// it back.
pub proof fn lemma_poke_then_peek<T: Prim>(v: IobufView, store: Seq<Seq<u8>>, pos: int, t: T)
    requires
        v.wf(),
        v.lives_in(store),
        0 <= pos,
        v.fits(pos, T::width() as int),
    ensures
        v.be_at::<T>(v.written(store, pos, be_bytes(t.bits(), T::width())), pos) == t,
        v.le_at::<T>(v.written(store, pos, le_bytes(t.bits(), T::width())), pos) == t,
{
    t.lemma_bits();
    let w = T::width();
    lemma_be_bytes_len(t.bits(), w);
    lemma_le_bytes_len(t.bits(), w);
    lemma_be_round_trip(t.bits(), w);
    lemma_le_round_trip(t.bits(), w);
    let be = be_bytes(t.bits(), w);
    let le = le_bytes(t.bits(), w);
    assert(v.window(v.written(store, pos, be)).subrange(pos, pos + w) =~= be);
    assert(v.window(v.written(store, pos, le)).subrange(pos, pos + w) =~= le);
}

/// An access that would reach one byte past the window's end does not fit,
/// so the checked operations refuse it and change nothing.
pub proof fn lemma_one_past_end_refused(v: IobufView, pos: int, len: int)
    requires
        pos + len == v.len() + 1,
    ensures
        !v.fits(pos, len),
{
}

/// Bytes filled into a view that starts at its low limit are, after
/// `flip_lo`, exactly the window, in the order written.
pub proof fn lemma_fill_flip_consume(v: IobufView, store: Seq<Seq<u8>>, src: Seq<u8>)
    requires
        v.wf(),
        v.lives_in(store),
        v.fits(0, src.len() as int),
        v.lo == v.lo_min,
    ensures
        v.advance(src.len() as int).flip_lo().window(v.written(store, 0, src)) == src,
{
    assert(v.advance(src.len() as int).flip_lo().window(v.written(store, 0, src)) =~= src);
}

/// Bytes written through a view are read back through a copy of it, which
/// addresses the same buffer.
pub proof fn lemma_copies_share_bytes(a: IobufView, b: IobufView, store: Seq<Seq<u8>>, pos: int, src: Seq<u8>)
    requires
        a.wf(),
        a.lives_in(store),
        b == a,
        0 <= pos,
        a.fits(pos, src.len() as int),
    ensures
        b.window(a.written(store, pos, src)).subrange(pos, pos + src.len()) == src,
{
    assert(b.window(a.written(store, pos, src)).subrange(pos, pos + src.len()) =~= src);
}

/// After a deep clone, writes through the clone are not seen through the
/// original, and writes through the original are not seen through the clone.
pub proof fn lemma_deep_clone_unshared(o: IobufView, store: Seq<Seq<u8>>, pos: int, src: Seq<u8>)
    requires
        o.wf(),
        o.lives_in(store),
    ensures
        ({
            let cloned = store.push(o.window(store));
            let c = IobufView::full(store.len() as int, o.len());
            &&& c.window(cloned) == o.window(store)
            &&& o.window(c.written(cloned, pos, src)) == o.window(store)
            &&& c.window(o.written(cloned, pos, src)) == o.window(store)
        }),
{
    let cloned = store.push(o.window(store));
    let c = IobufView::full(store.len() as int, o.len());
    assert(c.window(cloned) =~= o.window(store));
    assert(o.window(c.written(cloned, pos, src)) =~= o.window(store));
    assert(c.window(o.written(cloned, pos, src)) =~= o.window(store));
}

} // verus!
