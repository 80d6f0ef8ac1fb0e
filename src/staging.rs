//! `BufferCache`: appends land in a host staging list and are committed to a
//! single device buffer, grown by reallocation, at each flush.

use crate::device::{
    bytes_of, copy_prefix, create_buffer_init, create_mapped_buffer, accepted_usage, defined_usage,
    write_tail_and_unmap, DeviceBuffer, COPY_ALIGNMENT, MAP_ALIGNMENT, USAGE_COPY_DST,
    USAGE_COPY_SRC,
};
use std::ops::Range;
use vstd::layout::size_of;
use vstd::prelude::*;
use vstd::std_specs::convert::TryFromSpec;

verus! {

/// The key that an append of `n` elements onto `len` elements returns: the
/// new positions, or the empty sentinel `0..0` when nothing was added.
pub open spec fn append_key(len: nat, n: nat) -> Range<u64> {
    if n == 0 {
        Range { start: 0, end: 0 }
    } else {
        Range { start: len as u64, end: (len + n) as u64 }
    }
}

/// A key narrowed to `Int`: an error as soon as one bound does not fit.
pub open spec fn narrowed_key<Int: TryFrom<u64>>(key: Range<u64>) -> Result<
    Range<Int>,
    <Int as TryFrom<u64>>::Error,
> {
    match Int::try_from_spec(key.start) {
        Ok(start) => match Int::try_from_spec(key.end) {
            Ok(end) => Ok(Range { start, end }),
            Err(e) => Err(e),
        },
        Err(e) => Err(e),
    }
}

/// The elements of all the sequences, in order.
pub open spec fn flatten<T>(seqs: Seq<Seq<T>>) -> Seq<T>
    decreases seqs.len(),
{
    if seqs.len() == 0 {
        Seq::empty()
    } else {
        flatten(seqs.drop_last()) + seqs.last()
    }
}

/// Flattening a longer prefix adds the next sequence at the end.
pub proof fn lemma_flatten_take_step<T>(seqs: Seq<Seq<T>>, i: int)
    requires
        0 <= i < seqs.len(),
    ensures
        flatten(seqs.take(i + 1)) == flatten(seqs.take(i)) + seqs[i],
{
    assert(seqs.take(i + 1).drop_last() =~= seqs.take(i));
}

/// A prefix of the sequences flattens to no more elements than the whole.
pub proof fn lemma_flatten_take_len<T>(seqs: Seq<Seq<T>>, i: int)
    requires
        0 <= i <= seqs.len(),
    ensures
        flatten(seqs.take(i)).len() <= flatten(seqs).len(),
    decreases seqs.len() - i,
{
    if i == seqs.len() {
        assert(seqs.take(i) =~= seqs);
    } else {
        lemma_flatten_take_step(seqs, i);
        lemma_flatten_take_len(seqs, i + 1);
    }
}

/// A staging-and-flush cache of elements of `T`.
///
/// Its logical contents are the committed elements (those in the device
/// buffer) followed by the staged ones. Positions in that sequence never move:
/// a flush only moves elements from staged to committed.
pub struct BufferCache<T> {
    unwritten: Vec<T>,
    buffer: Option<DeviceBuffer>,
    buffer_usage: u32,
    buffer_len: u64,
    committed: Ghost<Seq<T>>,
    committed_bytes: Ghost<Seq<u8>>,
}

impl<T> BufferCache<T> {
    /// The elements already written to the device buffer, by position.
    pub closed spec fn committed(&self) -> Seq<T> {
        self.committed@
    }

    /// The bytes that flushes wrote for the committed elements, in order.
    pub closed spec fn committed_bytes(&self) -> Seq<u8> {
        self.committed_bytes@
    }

    /// The elements appended since the last flush.
    pub closed spec fn staged(&self) -> Seq<T> {
        self.unwritten@
    }

    /// The logical contents: committed, then staged.
    pub open spec fn contents(&self) -> Seq<T> {
        self.committed() + self.staged()
    }

    pub open spec fn spec_len(&self) -> nat {
        self.contents().len()
    }

    /// Whether a device buffer is held.
    pub open spec fn has_buffer(&self) -> bool {
        self.device_buffer().is_some()
    }

    /// The usage bits that buffers are created with.
    pub closed spec fn usage(&self) -> u32 {
        self.buffer_usage
    }

    /// The device buffer, if any.
    pub closed spec fn device_buffer(&self) -> Option<DeviceBuffer> {
        self.buffer
    }

    /// Byte size of the device buffer; 0 without one.
    pub open spec fn buffer_bytes(&self) -> nat {
        match self.device_buffer() {
            Some(b) => b.size(),
            None => 0,
        }
    }

    /// Usage bits of the device buffer; 0 without one.
    pub open spec fn buffer_usage(&self) -> u32 {
        match self.device_buffer() {
            Some(b) => b.usage(),
            None => 0,
        }
    }

    /// Bytes of the device buffer once its recorded commands have run.
    pub open spec fn device_content(&self) -> Seq<u8> {
        match self.device_buffer() {
            Some(b) => b.content(),
            None => Seq::empty(),
        }
    }

    pub closed spec fn wf(&self) -> bool {
        &&& self.committed@.len() == self.buffer_len
        &&& self.buffer.is_some() <==> self.buffer_len > 0
        &&& self.buffer_len + self.unwritten@.len() <= u64::MAX
        &&& defined_usage(self.buffer_usage)
        &&& self.buffer_usage & USAGE_COPY_SRC != 0
        &&& self.committed_bytes@.len() == self.buffer_len * size_of::<T>()
        &&& self.buffer matches Some(b) ==> {
            &&& b.content().len() == b.size()
            &&& b.size() >= self.committed_bytes@.len()
            &&& b.content().take(self.committed_bytes@.len() as int) == self.committed_bytes@
            &&& b.usage() & USAGE_COPY_SRC != 0
        }
    }

    /// What well-formedness gives a caller: the buffer is held exactly when
    /// something is committed, the length fits 64 bits, the usage has only
    /// defined bits and copy-source usage, and the buffer starts with the
    /// committed bytes.
    pub proof fn lemma_wf_facts(&self)
        requires
            self.wf(),
        ensures
            self.has_buffer() <==> self.committed().len() > 0,
            self.spec_len() <= u64::MAX,
            defined_usage(self.usage()),
            self.usage() & USAGE_COPY_SRC != 0,
            self.committed_bytes().len() == self.committed().len() * size_of::<T>(),
            self.has_buffer() ==> {
                &&& self.device_content().len() == self.buffer_bytes()
                &&& self.buffer_bytes() >= self.committed_bytes().len()
                &&& self.device_content().take(self.committed_bytes().len() as int)
                    == self.committed_bytes()
                &&& self.buffer_usage() & USAGE_COPY_SRC != 0
            },
    {
    }

    /// What a flush asks: the whole contents fit a 64-bit byte count with
    /// room to round up; where a grow-copy is needed the committed bytes
    /// start a mapped range and both parts respect the device's copy
    /// alignment; and the device accepts the usage of the buffer it creates.
    pub open spec fn flushable(&self) -> bool {
        &&& self.spec_len() * size_of::<T>() + 3 <= u64::MAX
        &&& (self.committed().len() == 0 && self.staged().len() > 0) ==> accepted_usage(
            self.usage(),
        )
        &&& (self.committed().len() > 0 && self.staged().len() > 0) ==> accepted_usage(
            self.usage() | USAGE_COPY_DST,
        )
        &&& (self.committed().len() > 0 && self.staged().len() > 0) ==> {
            &&& (self.committed().len() * size_of::<T>()) % (MAP_ALIGNMENT as nat) == 0
            &&& (self.staged().len() * size_of::<T>()) % (COPY_ALIGNMENT as nat) == 0
        }
    }

    /// `post` is `pre` after appending `vals`, which returned `key`.
    pub open spec fn appended(pre: Self, vals: Seq<T>, post: Self, key: Range<u64>) -> bool {
        &&& post.committed() == pre.committed()
        &&& post.committed_bytes() == pre.committed_bytes()
        &&& post.staged() == pre.staged() + vals
        &&& post.has_buffer() == pre.has_buffer()
        &&& post.device_buffer() == pre.device_buffer()
        &&& post.usage() == pre.usage()
        &&& key == append_key(pre.spec_len(), vals.len())
    }

    /// `post` is `pre` after a flush: everything is committed, in order, and
    /// with nothing staged the flush changes nothing. Otherwise the buffer
    /// held afterwards is new: without an earlier buffer it holds the staged
    /// bytes, rounded up to the copy alignment; with one it is exactly the
    /// full byte length, gets copy-destination usage too, and starts with
    /// the earlier committed bytes. Either way it starts with all committed
    /// bytes, the earlier ones first.
    pub open spec fn flushed(pre: Self, post: Self) -> bool {
        let bytes = pre.spec_len() * size_of::<T>();
        &&& post.committed() == pre.contents()
        &&& post.staged() == Seq::<T>::empty()
        &&& post.usage() == pre.usage()
        &&& post.has_buffer() == (pre.spec_len() > 0)
        &&& pre.staged().len() == 0 ==> post == pre
        &&& pre.staged().len() > 0 ==> {
            &&& post.committed_bytes().len() == bytes
            &&& post.committed_bytes().take(pre.committed_bytes().len() as int)
                == pre.committed_bytes()
            &&& post.device_content().take(bytes as int) == post.committed_bytes()
            &&& post.buffer_bytes() >= bytes
            &&& post.device_content().len() == post.buffer_bytes()
            &&& pre.has_buffer() ==> {
                &&& post.buffer_bytes() == bytes
                &&& post.buffer_usage() == pre.usage() | USAGE_COPY_DST
            }
            &&& !pre.has_buffer() ==> {
                &&& post.buffer_bytes() == (bytes + 3) / 4 * 4
                &&& post.buffer_usage() == pre.usage()
            }
        }
    }

    /// `post` is `pre` after a reset: empty, without a device buffer.
    pub open spec fn cleared(pre: Self, post: Self) -> bool {
        &&& post.committed() == Seq::<T>::empty()
        &&& post.committed_bytes() == Seq::<u8>::empty()
        &&& post.staged() == Seq::<T>::empty()
        &&& !post.has_buffer()
        &&& post.usage() == pre.usage()
    }

    /// An empty cache whose buffers get the usage bits `buffer_usage` plus
    /// copy-source usage. Bits that wgpu does not define are not accepted.
    pub fn new(buffer_usage: u32) -> (r: Self)
        requires
            defined_usage(buffer_usage),
        ensures
            r.wf(),
            r.committed() == Seq::<T>::empty(),
            r.committed_bytes() == Seq::<u8>::empty(),
            r.staged() == Seq::<T>::empty(),
            !r.has_buffer(),
            r.usage() == buffer_usage | USAGE_COPY_SRC,
    {
        let usage = buffer_usage | USAGE_COPY_SRC;
        assert(defined_usage(usage) && usage & USAGE_COPY_SRC != 0) by (bit_vector)
            requires
                usage == buffer_usage | 4u32,
                buffer_usage | 511u32 == 511u32,
        ;
        BufferCache {
            unwritten: Vec::new(),
            buffer: None,
            buffer_usage: usage,
            buffer_len: 0,
            committed: Ghost(Seq::empty()),
            committed_bytes: Ghost(Seq::empty()),
        }
    }

    /// Number of elements, committed and staged.
    pub fn len(&self) -> (r: u64)
        requires
            self.wf(),
        ensures
            r == self.spec_len(),
    {
        self.unwritten.len() as u64 + self.buffer_len
    }

    /// Stages `vals` after the current contents and returns their positions,
    /// or `0..0` when `vals` is empty.
    pub fn append(&mut self, vals: Vec<T>) -> (key: Range<u64>)
        requires
            old(self).wf(),
            old(self).spec_len() + vals@.len() <= u64::MAX,
        ensures
            final(self).wf(),
            Self::appended(*old(self), vals@, *final(self), key),
            final(self).spec_len() == old(self).spec_len() + vals@.len(),
            vals@.len() == 0 ==> key == (Range::<u64> { start: 0, end: 0 }),
    {
        let start = self.len();
        let mut vals = vals;
        self.unwritten.append(&mut vals);
        let end = self.len();
        if start == end {
            Range { start: 0, end: 0 }
        } else {
            Range { start, end }
        }
    }

    /// Appends each inner sequence in turn, as `append` would, and returns
    /// the range covered by all of them together with one result per inner
    /// sequence: its key narrowed to `Int`, or the error of the first bound
    /// that does not fit.
    pub fn append_many<Int: TryFrom<u64>>(&mut self, vals: Vec<Vec<T>>) -> (r: (
        Range<u64>,
        Vec<Result<Range<Int>, <Int as TryFrom<u64>>::Error>>,
    ))
        requires
            old(self).wf(),
            old(self).spec_len() + flatten(vals@.map_values(|v: Vec<T>| v@)).len() <= u64::MAX,
        ensures
            final(self).wf(),
            ({
                let views = vals@.map_values(|v: Vec<T>| v@);
                let len0 = old(self).spec_len();
                &&& final(self).committed() == old(self).committed()
                &&& final(self).staged() == old(self).staged() + flatten(views)
                &&& final(self).device_buffer() == old(self).device_buffer()
                &&& final(self).has_buffer() == old(self).has_buffer()
                &&& final(self).usage() == old(self).usage()
                &&& r.0 == (Range::<u64> {
                    start: len0 as u64,
                    end: (len0 + flatten(views).len()) as u64,
                })
                &&& r.1@.len() == vals@.len()
                &&& Int::obeys_try_from_spec() ==> forall|i: int|
                    #![trigger r.1@[i]]
                    0 <= i < vals@.len() ==> r.1@[i] == narrowed_key::<Int>(
                        append_key(len0 + flatten(views.take(i)).len(), views[i].len()),
                    )
            }),
    {
        let ghost views = vals@.map_values(|v: Vec<T>| v@);
        let ghost pre = *self;
        let start = self.len();
        let mut vals = vals;
        let mut out: Vec<Result<Range<Int>, <Int as TryFrom<u64>>::Error>> = Vec::new();
        let n = vals.len();
        let mut i: usize = 0;
        proof {
            assert(views.take(0) =~= Seq::<Seq<T>>::empty());
            assert(pre.staged() + flatten(views.take(0)) =~= pre.staged());
        }
        while i < n
            invariant
                0 <= i <= n,
                n == vals@.len(),
                views.len() == n,
                forall|j: int| i <= j < n ==> (#[trigger] vals@[j])@ == views[j],
                start == pre.spec_len(),
                pre.spec_len() + flatten(views).len() <= u64::MAX,
                self.wf(),
                self.committed() == pre.committed(),
                self.staged() == pre.staged() + flatten(views.take(i as int)),
                self.device_buffer() == pre.device_buffer(),
                self.has_buffer() == pre.has_buffer(),
                self.usage() == pre.usage(),
                out@.len() == i,
                Int::obeys_try_from_spec() ==> forall|j: int|
                    #![trigger out@[j]]
                    0 <= j < i ==> out@[j] == narrowed_key::<Int>(
                        append_key(start as nat + flatten(views.take(j)).len(), views[j].len()),
                    ),
            decreases n - i,
        {
            let mut inner: Vec<T> = Vec::new();
            std::mem::swap(&mut inner, &mut vals[i]);
            proof {
                lemma_flatten_take_step(views, i as int);
                lemma_flatten_take_len(views, i + 1);
            }
            let key = self.append(inner);
            proof {
                assert(self.staged() =~= pre.staged() + flatten(views.take(i + 1)));
            }
            let narrowed = match Int::try_from(key.start) {
                Ok(lo) => match Int::try_from(key.end) {
                    Ok(hi) => Ok(Range { start: lo, end: hi }),
                    Err(e) => Err(e),
                },
                Err(e) => Err(e),
            };
            out.push(narrowed);
            i = i + 1;
        }
        proof {
            assert(views.take(n as int) =~= views);
        }
        let end = self.len();
        (Range { start, end }, out)
    }

    /// Empties the cache: nothing staged, nothing committed, and the device
    /// buffer released, so the next flush starts a fresh buffer at offset 0.
    pub fn clear(&mut self)
        requires
            old(self).wf(),
        ensures
            final(self).wf(),
            Self::cleared(*old(self), *final(self)),
    {
        self.unwritten.clear();
        self.buffer = None;
        self.buffer_len = 0;
        self.committed = Ghost(Seq::empty());
        self.committed_bytes = Ghost(Seq::empty());
    }
}

/// The device buffer, if a flush has created one.
impl<T> std::ops::Deref for BufferCache<T> {
    type Target = Option<DeviceBuffer>;

    fn deref(&self) -> (r: &Option<DeviceBuffer>)
        ensures
            *r == self.device_buffer(),
            r.is_some() == self.has_buffer(),
    {
        &self.buffer
    }
}

impl<T: bytemuck::Pod> BufferCache<T> {
    /// The flush: commits the staged elements to the device buffer.
    ///
    /// With nothing staged it does nothing. Without a buffer it creates one
    /// holding exactly the staged bytes and records nothing. Otherwise it
    /// creates a buffer of the full byte length, writes the staged bytes into
    /// its tail, records a copy of the committed bytes into its head, and
    /// replaces the old buffer.
    #[verifier::rlimit(60)]
    pub fn update(&mut self, device: &wgpu::Device, encoder: &mut wgpu::CommandEncoder)
        requires
            old(self).wf(),
            old(self).flushable(),
        ensures
            final(self).wf(),
            Self::flushed(*old(self), *final(self)),
            old(self).staged().len() == 0 ==> *final(encoder) == *old(encoder),
            !old(self).has_buffer() ==> *final(encoder) == *old(encoder),
    {
        if self.unwritten.len() == 0 {
            assert(self.contents() =~= self.committed());
            assert(self.staged() =~= Seq::<T>::empty());
            return;
        }
        let ghost n = self.unwritten@.len();
        let ghost c = self.buffer_len as nat;
        let ghost sz = size_of::<T>();
        proof {
            assert(c * sz <= (c + n) * sz) by (nonlinear_arith)
                requires n >= 0;
            assert((c + n) * sz == c * sz + n * sz) by (nonlinear_arith);
        }
        let elem = core::mem::size_of::<T>() as u64;
        let ghost old_bytes = self.committed_bytes@;
        let new_buffer;
        match &self.buffer {
            Some(buffer) => {
                let start_of_free = self.buffer_len * elem;
                let bytes = bytes_of(self.unwritten.as_slice());
                let size = start_of_free + bytes.len() as u64;
                let usage = self.buffer_usage | USAGE_COPY_DST;
                let ghost u0 = self.buffer_usage;
                assert(usage & USAGE_COPY_DST != 0 && usage & USAGE_COPY_SRC != 0)
                    by (bit_vector)
                    requires
                        usage == u0 | 8u32,
                        u0 & 4u32 != 0,
                ;
                let mapped = create_mapped_buffer(device, size, usage);
                let mut filled = write_tail_and_unmap(mapped, start_of_free, bytes);
                copy_prefix(encoder, buffer, &mut filled, start_of_free);
                proof {
                    assert(filled.content() =~= self.committed_bytes@ + bytes@);
                }
                new_buffer = filled;
                proof {
                    self.committed_bytes@ = self.committed_bytes@ + bytes@;
                }
            },
            None => {
                let bytes = bytes_of(self.unwritten.as_slice());
                let b3 = bytes.len() as u64 + 3;
                assert(b3 / 4 * 4 <= b3 && b3 / 4 * 4 >= bytes@.len()) by (nonlinear_arith)
                    requires b3 == bytes@.len() + 3;
                let padded = b3 / 4 * 4;
                new_buffer = create_buffer_init(device, bytes, self.buffer_usage, padded);
                proof {
                    assert(self.committed_bytes@ + bytes@ =~= bytes@);
                    self.committed_bytes@ = bytes@;
                }
            },
        }
        self.buffer = Some(new_buffer);
        self.committed = Ghost(self.committed@ + self.unwritten@);
        self.buffer_len = self.buffer_len + self.unwritten.len() as u64;
        self.unwritten.clear();
        proof {
            let nb = self.committed_bytes@;
            assert(nb.take(old_bytes.len() as int) =~= old_bytes);
            assert(new_buffer.content().take(nb.len() as int) =~= nb);
        }
    }
}

} // verus!
