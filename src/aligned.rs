//! `AlignedBufferCache`: typed appends of differently sized plain data into
//! one byte cache, padded so that every region starts at an aligned offset.

use crate::device::{
    accepted_usage, bytes_of, defined_usage, DeviceBuffer, MAP_ALIGNMENT, USAGE_COPY_DST,
    USAGE_COPY_SRC,
};
use crate::staging::{append_key, BufferCache};
use core::marker::PhantomData;
use std::ops::{Deref, Range};
use vstd::layout::size_of;
use vstd::prelude::*;

verus! {

/// Zero bytes that bring `len` up to the next multiple of `alignment`; none
/// when `len` is already a multiple.
pub open spec fn padding(len: nat, alignment: nat) -> nat {
    ((alignment - len % alignment) % alignment as int) as nat
}

/// A byte cache whose length is a multiple of `alignment` after every append.
pub struct AlignedBufferCache<T> {
    inner: BufferCache<u8>,
    alignment: u16,
    _marker: PhantomData<T>,
}

impl<T> AlignedBufferCache<T> {
    /// The underlying byte cache.
    pub closed spec fn inner(&self) -> BufferCache<u8> {
        self.inner
    }

    pub closed spec fn alignment(&self) -> nat {
        self.alignment as nat
    }

    pub open spec fn spec_len(&self) -> nat {
        self.inner().spec_len()
    }

    pub closed spec fn wf(&self) -> bool {
        &&& self.inner.wf()
        &&& self.alignment > 0
        &&& self.inner.spec_len() % (self.alignment as nat) == 0
        &&& self.inner.committed().len() % (self.alignment as nat) == 0
    }

    /// An empty cache over a byte cache whose buffers get the usage bits
    /// `buffer_usage` plus copy-source usage. Bits that wgpu does not define
    /// are not accepted.
    pub fn new(buffer_usage: u32, alignment: u16) -> (r: Self)
        requires
            alignment > 0,
            defined_usage(buffer_usage),
        ensures
            r.wf(),
            r.inner().usage() == buffer_usage | USAGE_COPY_SRC,
            r.alignment() == alignment,
            r.inner().contents() == Seq::<u8>::empty(),
            !r.inner().has_buffer(),
    {
        let r = AlignedBufferCache {
            inner: BufferCache::new(buffer_usage),
            alignment,
            _marker: PhantomData,
        };
        assert(r.inner().contents() =~= Seq::<u8>::empty());
        assert(r.inner().committed() =~= Seq::<u8>::empty());
        proof {
            vstd::arithmetic::div_mod::lemma_small_mod(0, alignment as nat);
        }
        r
    }

    /// Number of bytes in the inner cache, padding included.
    pub fn len(&self) -> (r: u64)
        requires
            self.wf(),
        ensures
            r == self.spec_len(),
            self.alignment() > 0,
            r as nat % self.alignment() == 0,
    {
        self.inner.len()
    }

    /// The flush of the inner byte cache.
    pub fn update(&mut self, device: &wgpu::Device, encoder: &mut wgpu::CommandEncoder)
        requires
            old(self).wf(),
            old(self).inner().flushable(),
        ensures
            final(self).wf(),
            final(self).alignment() == old(self).alignment(),
            BufferCache::flushed(old(self).inner(), final(self).inner()),
            old(self).inner().staged().len() == 0 ==> *final(encoder) == *old(encoder),
            !old(self).inner().has_buffer() ==> *final(encoder) == *old(encoder),
    {
        self.inner.update(device, encoder);
    }

    /// Empties the inner cache.
    pub fn clear(&mut self)
        requires
            old(self).wf(),
        ensures
            final(self).wf(),
            final(self).alignment() == old(self).alignment(),
            final(self).inner().contents() == Seq::<u8>::empty(),
            !final(self).inner().has_buffer(),
            final(self).inner().usage() == old(self).inner().usage(),
    {
        self.inner.clear();
        assert(self.inner().contents() =~= Seq::<u8>::empty());
        assert(self.inner.spec_len() == 0);
        assert(self.inner.committed().len() == 0);
    }
}

/// The device buffer of the inner cache, if a flush has created one.
impl<T> std::ops::Deref for AlignedBufferCache<T> {
    type Target = Option<DeviceBuffer>;

    fn deref(&self) -> (r: &Option<DeviceBuffer>)
        ensures
            *r == self.inner().device_buffer(),
            r.is_some() == self.inner().has_buffer(),
    {
        self.inner.deref()
    }
}

impl<T> AlignedBufferCache<T> {
    /// Stages `bytes` and returns their byte range (`0..0` when there are
    /// none), then stages zero bytes up to the next multiple of the alignment
    /// (none when already there).
    pub fn append_bytes(&mut self, bytes: Vec<u8>) -> (key: Range<u64>)
        requires
            old(self).wf(),
            old(self).spec_len() + bytes@.len() + old(self).alignment() <= u64::MAX,
        ensures
            final(self).wf(),
            final(self).alignment() == old(self).alignment(),
            ({
                let len0 = old(self).spec_len();
                let n = bytes@.len();
                let pad = padding(len0 + n, old(self).alignment());
                &&& key == append_key(len0, n)
                &&& final(self).inner().staged() == old(self).inner().staged() + bytes@ + Seq::new(
                    pad,
                    |i: int| 0u8,
                )
                &&& final(self).spec_len() == len0 + n + pad
                &&& final(self).spec_len() % old(self).alignment() == 0
                &&& final(self).inner().committed() == old(self).inner().committed()
                &&& final(self).inner().committed_bytes() == old(self).inner().committed_bytes()
                &&& final(self).inner().device_buffer() == old(self).inner().device_buffer()
                &&& final(self).inner().has_buffer() == old(self).inner().has_buffer()
                &&& final(self).inner().usage() == old(self).inner().usage()
            }),
    {
        let ghost pre = self.inner;
        let ghost data = bytes@;
        let out = self.inner.append(bytes);
        let len = self.inner.len();
        let a = self.alignment as u64;
        let pad = (a - len % a) % a;
        let mut zeros: Vec<u8> = Vec::new();
        let mut k: u64 = 0;
        while k < pad
            invariant
                k <= pad,
                zeros@ == Seq::new(k as nat, |i: int| 0u8),
            decreases pad - k,
        {
            zeros.push(0u8);
            k = k + 1;
            assert(zeros@ =~= Seq::new(k as nat, |i: int| 0u8));
        }
        self.inner.append(zeros);
        proof {
            lemma_padded_is_aligned(len as int, a as int);
            assert(self.inner.staged() =~= pre.staged() + data + zeros@);
        }
        out
    }
}

impl<T: bytemuck::Pod> AlignedBufferCache<T> {
    /// Appends the bytes of `vals` and returns their byte range (`0..0` when
    /// there are none), then pads with zero bytes up to the alignment.
    pub fn append(&mut self, vals: Vec<T>) -> (key: Range<u64>)
        requires
            old(self).wf(),
            old(self).spec_len() + vals@.len() * size_of::<T>() + old(self).alignment()
                <= u64::MAX,
        ensures
            final(self).wf(),
            final(self).alignment() == old(self).alignment(),
            ({
                let len0 = old(self).spec_len();
                let n = vals@.len() * size_of::<T>();
                let len1 = final(self).spec_len();
                &&& key == append_key(len0, n)
                &&& len1 == len0 + n + padding(len0 + n, old(self).alignment())
                &&& len1 % old(self).alignment() == 0
                &&& final(self).inner().contents().subrange(0, len0 as int)
                    == old(self).inner().contents()
                &&& forall|k: int|
                    len0 + n <= k < len1 ==> #[trigger] final(self).inner().contents()[k] == 0u8
                &&& final(self).inner().committed() == old(self).inner().committed()
                &&& final(self).inner().committed_bytes() == old(self).inner().committed_bytes()
                &&& final(self).inner().device_buffer() == old(self).inner().device_buffer()
                &&& final(self).inner().has_buffer() == old(self).inner().has_buffer()
                &&& final(self).inner().usage() == old(self).inner().usage()
            }),
    {
        let ghost pre = self.inner;
        let bytes = bytes_of(vals.as_slice());
        let mut data: Vec<u8> = Vec::new();
        let mut j: usize = 0;
        while j < bytes.len()
            invariant
                j <= bytes@.len(),
                data@ == bytes@.take(j as int),
            decreases bytes@.len() - j,
        {
            data.push(bytes[j]);
            j = j + 1;
            assert(data@ =~= bytes@.take(j as int));
        }
        assert(data@ =~= bytes@);
        let out = self.append_bytes(data);
        proof {
            let pad = padding(pre.spec_len() + bytes@.len(), self.alignment());
            assert(self.inner().contents() =~= pre.contents() + bytes@ + Seq::new(
                pad,
                |i: int| 0u8,
            ));
        }
        out
    }
}

/// With an alignment that is a multiple of the device's map alignment, a
/// cache whose byte length, plus 3 for rounding, fits a 64-bit count meets every condition of a
/// flush, with or without a grow-copy.
pub proof fn lemma_map_aligned_cache_is_flushable<T>(c: AlignedBufferCache<T>)
    requires
        c.wf(),
        c.alignment() % (MAP_ALIGNMENT as nat) == 0,
        c.spec_len() + 3 <= u64::MAX,
        accepted_usage(c.inner().usage()),
        accepted_usage(c.inner().usage() | USAGE_COPY_DST),
    ensures
        c.inner().flushable(),
{
    broadcast use vstd::layout::layout_of_primitives;
    let a = c.alignment() as int;
    let cl = c.inner().committed().len() as int;
    let sl = c.inner().staged().len() as int;
    assert(size_of::<u8>() == 1);
    assert(cl * 1 == cl);
    assert(sl * 1 == sl);
    assert(cl % 8 == 0) by {
        vstd::arithmetic::div_mod::lemma_fundamental_div_mod(cl, a);
        vstd::arithmetic::div_mod::lemma_fundamental_div_mod(a, 8);
        assert(cl == 8 * ((a / 8) * (cl / a))) by (nonlinear_arith)
            requires cl == a * (cl / a), a == 8 * (a / 8);
        vstd::arithmetic::div_mod::lemma_mod_multiples_basic((a / 8) * (cl / a), 8);
    }
    assert((cl + sl) % a == 0);
    assert(sl % 4 == 0) by {
        vstd::arithmetic::div_mod::lemma_fundamental_div_mod(cl + sl, a);
        vstd::arithmetic::div_mod::lemma_fundamental_div_mod(cl, a);
        vstd::arithmetic::div_mod::lemma_fundamental_div_mod(a, 8);
        assert(sl == 4 * (2 * (a / 8) * ((cl + sl) / a - cl / a))) by (nonlinear_arith)
            requires
                cl + sl == a * ((cl + sl) / a),
                cl == a * (cl / a),
                a == 8 * (a / 8);
        vstd::arithmetic::div_mod::lemma_mod_multiples_basic(
            2 * (a / 8) * ((cl + sl) / a - cl / a),
            4,
        );
    }
}

/// Adding the padding to a length gives a multiple of the alignment.
proof fn lemma_padded_is_aligned(len: int, a: int)
    requires
        len >= 0,
        a > 0,
    ensures
        (len + (a - len % a) % a) % a == 0,
{
    vstd::arithmetic::div_mod::lemma_fundamental_div_mod(len, a);
    let r = len % a;
    if r == 0 {
        vstd::arithmetic::div_mod::lemma_mod_self_0(a);
        assert((a - r) % a == 0);
    } else {
        vstd::arithmetic::div_mod::lemma_small_mod((a - r) as nat, a as nat);
        assert(len + (a - r) == a * (len / a + 1)) by (nonlinear_arith)
            requires len == a * (len / a) + r;
        vstd::arithmetic::div_mod::lemma_mod_multiples_basic(len / a + 1, a);
        assert((a * (len / a + 1)) % a == 0) by (nonlinear_arith)
            requires ((len / a + 1) * a) % a == 0;
    }
}

} // verus!
