//! Properties that relate several calls on a cache, stated over the
//! predicates that the operations' own contracts use.

use crate::staging::{append_key, flatten, BufferCache};
use std::ops::Range;
use vstd::layout::size_of;
use vstd::prelude::*;

verus! {

/// Appending non-empty sequences one after another, with no flush between,
/// grows the length by the sum of their lengths, and each key starts where
/// the previous one ended: the keys are contiguous and do not overlap.
pub proof fn lemma_appends_are_contiguous<T>(
    states: Seq<BufferCache<T>>,
    inputs: Seq<Seq<T>>,
    keys: Seq<Range<u64>>,
)
    requires
        states.len() == inputs.len() + 1,
        keys.len() == inputs.len(),
        forall|i: int|
            0 <= i < inputs.len() ==> BufferCache::appended(
                #[trigger] states[i],
                inputs[i],
                states[i + 1],
                keys[i],
            ),
        forall|i: int| 0 <= i < inputs.len() ==> (#[trigger] inputs[i]).len() > 0,
    ensures
        states.last().contents() == states[0].contents() + flatten(inputs),
        states.last().spec_len() == states[0].spec_len() + flatten(inputs).len(),
        inputs.len() > 0 ==> keys[0].start == states[0].spec_len() as u64,
        forall|i: int| 0 <= i < keys.len() ==> (#[trigger] keys[i]).end == (states[i].spec_len() + inputs[i].len()) as u64,
        forall|i: int| 0 <= i < keys.len() - 1 ==> (#[trigger] keys[i + 1]).start == keys[i].end,
    decreases inputs.len(),
{
    let n = inputs.len() as int;
    if n == 0 {
        assert(states[0].contents() + flatten(inputs) =~= states[0].contents());
    } else {
        let s = states.drop_last();
        let p = inputs.drop_last();
        let k = keys.drop_last();
        assert forall|i: int| 0 <= i < p.len() implies BufferCache::appended(
            #[trigger] s[i],
            p[i],
            s[i + 1],
            k[i],
        ) by {
            assert(BufferCache::appended(states[i], inputs[i], states[i + 1], keys[i]));
        }
        assert forall|i: int| 0 <= i < p.len() implies (#[trigger] p[i]).len() > 0 by {
            assert(inputs[i].len() > 0);
        }
        lemma_appends_are_contiguous(s, p, k);
        assert(BufferCache::appended(states[n - 1], inputs[n - 1], states[n], keys[n - 1]));
        assert(states[n].contents() =~= states[n - 1].contents() + inputs[n - 1]);
        assert(states[0].contents() + flatten(inputs) =~= states[0].contents() + flatten(p)
            + inputs[n - 1]);
        assert forall|i: int| 0 <= i < keys.len() implies (#[trigger] keys[i]).end == (
        states[i].spec_len() + inputs[i].len()) as u64 by {
            assert(BufferCache::appended(states[i], inputs[i], states[i + 1], keys[i]));
        }
        assert forall|i: int| 0 <= i < keys.len() - 1 implies (#[trigger] keys[i + 1]).start
            == keys[i].end by {
            assert(BufferCache::appended(states[i], inputs[i], states[i + 1], keys[i]));
            assert(BufferCache::appended(states[i + 1], inputs[i + 1], states[i + 2], keys[i + 1]));
            assert(states[i + 1].contents() =~= states[i].contents() + inputs[i]);
        }
    }
}

/// A flush keeps the length and leaves nothing staged; a second flush with
/// nothing appended in between changes nothing.
pub proof fn lemma_second_flush_is_noop<T>(c0: BufferCache<T>, c1: BufferCache<T>, c2: BufferCache<T>)
    requires
        BufferCache::flushed(c0, c1),
        BufferCache::flushed(c1, c2),
    ensures
        c1.spec_len() == c0.spec_len(),
        c1.staged() == Seq::<T>::empty(),
        c2 == c1,
{
}

/// Appending `d1` to an empty cache and flushing, then appending `d2` and
/// flushing again, commits `d1` at the start of the buffer and `d2` right
/// after it.
pub proof fn lemma_grow_keeps_prior_data<T>(
    c0: BufferCache<T>,
    c1: BufferCache<T>,
    c2: BufferCache<T>,
    c3: BufferCache<T>,
    c4: BufferCache<T>,
    d1: Seq<T>,
    d2: Seq<T>,
    k1: Range<u64>,
    k2: Range<u64>,
)
    requires
        c0.spec_len() == 0,
        BufferCache::appended(c0, d1, c1, k1),
        BufferCache::flushed(c1, c2),
        BufferCache::appended(c2, d2, c3, k2),
        BufferCache::flushed(c3, c4),
    ensures
        c4.committed() == d1 + d2,
        d1.len() > 0 && d2.len() > 0 ==> {
            let b1 = d1.len() * size_of::<T>();
            let b = (d1.len() + d2.len()) * size_of::<T>();
            &&& c2.committed_bytes().len() == b1
            &&& c4.buffer_bytes() == b
            &&& c4.device_content().take(b1 as int) == c2.committed_bytes()
            &&& c4.device_content().take(b as int) == c4.committed_bytes()
        },
        c4.committed().subrange(0, d1.len() as int) == d1,
        c4.committed().subrange(d1.len() as int, (d1.len() + d2.len()) as int) == d2,
{
    assert(c0.committed() =~= Seq::<T>::empty());
    assert(c0.staged() =~= Seq::<T>::empty());
    assert(c2.committed() =~= d1);
    assert(c4.committed() =~= d1 + d2);
    assert(c4.committed().subrange(0, d1.len() as int) =~= d1);
    assert(c4.committed().subrange(d1.len() as int, (d1.len() + d2.len()) as int) =~= d2);
    if d1.len() > 0 && d2.len() > 0 {
        let sz = size_of::<T>();
        let b1 = d1.len() * sz;
        let b = (d1.len() + d2.len()) * sz;
        assert(c1.spec_len() == d1.len());
        assert(c3.spec_len() == d1.len() + d2.len());
        assert(b1 <= b) by (nonlinear_arith)
            requires b1 == d1.len() * sz, b == (d1.len() + d2.len()) * sz;
        assert(c3.committed_bytes() == c2.committed_bytes());
        assert(c4.device_content().take(b1 as int) =~= c4.device_content().take(b as int).take(
            b1 as int,
        ));
    }
}

/// After a reset the length is 0, and appending `d` and flushing commits
/// exactly `d` from position 0, into a buffer created afresh.
pub proof fn lemma_clear_starts_fresh<T>(
    c0: BufferCache<T>,
    c1: BufferCache<T>,
    c2: BufferCache<T>,
    c3: BufferCache<T>,
    d: Seq<T>,
    k: Range<u64>,
)
    requires
        BufferCache::cleared(c0, c1),
        BufferCache::appended(c1, d, c2, k),
        BufferCache::flushed(c2, c3),
    ensures
        c1.spec_len() == 0,
        k == append_key(0, d.len()),
        !c2.has_buffer(),
        c3.committed() == d,
        c3.has_buffer() == (d.len() > 0),
        d.len() > 0 ==> {
            let b = d.len() * size_of::<T>();
            &&& c3.committed_bytes().len() == b
            &&& c3.buffer_bytes() == (b + 3) / 4 * 4
            &&& c3.buffer_usage() == c0.usage()
            &&& c3.device_content().take(b as int) == c3.committed_bytes()
        },
{
    assert(c1.contents() =~= Seq::<T>::empty());
    assert(c2.contents() =~= d);
}

} // verus!
