//! The device operations that a flush needs, and the byte view of plain data.
//!
//! Everything here is a thin shim over `wgpu` or `bytemuck`. The contracts
//! state what those crates' sources show of the calls made, and each
//! `requires` leaves out the inputs on which wgpu reports a validation error,
//! which its default error handler turns into a panic.

use vstd::layout::size_of;
use vstd::prelude::*;
use wgpu::util::DeviceExt;

verus! {

#[verifier::external_type_specification]
#[verifier::external_body]
pub struct ExDevice(wgpu::Device);

#[verifier::external_type_specification]
#[verifier::external_body]
pub struct ExCommandEncoder(wgpu::CommandEncoder);

#[verifier::external_type_specification]
#[verifier::external_body]
pub struct ExBuffer(wgpu::Buffer);

/// The alignment that device copies and mapped sizes must respect
/// (`wgpu::COPY_BUFFER_ALIGNMENT`).
pub const COPY_ALIGNMENT: u64 = 4;

/// The alignment of the start of a mapped range (`wgpu::MAP_ALIGNMENT`).
pub const MAP_ALIGNMENT: u64 = 8;

/// Usage flag bits, as `wgpu::BufferUsage::bits` gives them:
/// `wgpu::BufferUsage::MAP_READ`.
pub const USAGE_MAP_READ: u32 = 1;

/// `wgpu::BufferUsage::MAP_WRITE`.
pub const USAGE_MAP_WRITE: u32 = 2;

/// `wgpu::BufferUsage::COPY_SRC`.
pub const USAGE_COPY_SRC: u32 = 4;

/// `wgpu::BufferUsage::COPY_DST`.
pub const USAGE_COPY_DST: u32 = 8;

/// Every usage bit that wgpu defines (`MAP_READ` up to `INDIRECT`).
pub const USAGE_DEFINED: u32 = 511;

/// Usage bits that wgpu defines.
pub open spec fn defined_usage(usage: u32) -> bool {
    usage | USAGE_DEFINED == USAGE_DEFINED
}

/// Usage bits that wgpu accepts for a new buffer on any device: defined, not
/// empty, and either without a host-mapping flag or within one of the two
/// mappable combinations, `MAP_WRITE | COPY_SRC` and `MAP_READ | COPY_DST`.
/// Other mappable combinations need a device feature that is not assumed.
pub open spec fn accepted_usage(usage: u32) -> bool {
    &&& usage != 0
    &&& defined_usage(usage)
    &&& {
        ||| usage & (USAGE_MAP_READ | USAGE_MAP_WRITE) == 0
        ||| usage | (USAGE_MAP_WRITE | USAGE_COPY_SRC) == USAGE_MAP_WRITE | USAGE_COPY_SRC
        ||| usage | (USAGE_MAP_READ | USAGE_COPY_DST) == USAGE_MAP_READ | USAGE_COPY_DST
    }
}

/// A device buffer with the byte size and usage bits it was created with.
/// `content` models its bytes once the commands recorded so far have run;
/// the wrappers that create or change a buffer state it in their `ensures`.
pub struct DeviceBuffer {
    buffer: wgpu::Buffer,
    size: u64,
    usage: u32,
    content: Ghost<Seq<u8>>,
}

impl DeviceBuffer {
    pub closed spec fn size(&self) -> nat {
        self.size as nat
    }

    pub closed spec fn usage(&self) -> u32 {
        self.usage
    }

    pub closed spec fn content(&self) -> Seq<u8> {
        self.content@
    }

    /// The wgpu buffer, for binding in draw or compute commands.
    pub fn raw(&self) -> &wgpu::Buffer {
        &self.buffer
    }
}

/// A buffer created mapped for host writes, with its byte size and usage.
pub struct MappedBuffer {
    buffer: wgpu::Buffer,
    size: u64,
    usage: u32,
}

impl MappedBuffer {
    pub closed spec fn size(&self) -> nat {
        self.size as nat
    }

    pub closed spec fn usage(&self) -> u32 {
        self.usage
    }
}

/// Relies on `bytemuck::cast_slice`: the bytes of a slice of plain data,
/// `size_of::<T>()` of them per element; a cast to bytes never fails.
#[verifier::external_body]
pub(crate) fn bytes_of<T: bytemuck::Pod>(vals: &[T]) -> (r: &[u8])
    ensures
        r@.len() == vals@.len() * size_of::<T>(),
{
    bytemuck::cast_slice(vals)
}

/// Relies on `wgpu::util::DeviceExt::create_buffer_init`: a new buffer whose
/// size, `padded_size`, is the length of `contents` rounded up to the copy
/// alignment (0 for no contents), and whose first bytes are `contents`.
/// The usage must not hold a mapping flag outside wgpu's accepted
/// combinations (`UsageMismatch`), be empty (`EmptyUsage`), or hold an
/// undefined bit, which the conversion drops.
#[verifier::external_body]
pub(crate) fn create_buffer_init(
    device: &wgpu::Device,
    contents: &[u8],
    usage: u32,
    padded_size: u64,
) -> (r: DeviceBuffer)
    requires
        padded_size == (contents@.len() + 3) / 4 * 4,
        accepted_usage(usage),
    ensures
        r.size() == (contents@.len() + 3) / 4 * 4,
        r.usage() == usage,
        r.content().len() == r.size(),
        r.content().take(contents@.len() as int) == contents@,
{
    let buffer = device.create_buffer_init(
        &wgpu::util::BufferInitDescriptor {
            label: None,
            contents,
            usage: wgpu::BufferUsage::from_bits_truncate(usage),
        },
    );
    DeviceBuffer { buffer, size: padded_size, usage, content: Ghost(arbitrary()) }
}

/// Relies on `wgpu::Device::create_buffer` with `mapped_at_creation`: a new
/// buffer of `size` bytes, mapped for host writes. wgpu refuses a mapped
/// buffer whose size is not a multiple of the copy alignment, and a usage
/// that `accepted_usage` leaves out.
#[verifier::external_body]
pub(crate) fn create_mapped_buffer(device: &wgpu::Device, size: u64, usage: u32) -> (r:
    MappedBuffer)
    requires
        size % COPY_ALIGNMENT == 0,
        accepted_usage(usage),
    ensures
        r.size() == size,
        r.usage() == usage,
{
    let buffer = device.create_buffer(
        &wgpu::BufferDescriptor {
            label: None,
            size,
            usage: wgpu::BufferUsage::from_bits_truncate(usage),
            mapped_at_creation: true,
        },
    );
    MappedBuffer { buffer, size, usage }
}

/// Relies on `wgpu::Buffer::slice`, `wgpu::BufferSlice::get_mapped_range_mut`
/// and `wgpu::Buffer::unmap`: writes `bytes` at `offset`, up to the end of
/// the buffer, then unmaps it. wgpu panics on a mapped range whose start is
/// not a multiple of the map alignment or whose size is not a multiple of the
/// copy alignment, and on a slice copy whose lengths differ.
#[verifier::external_body]
pub(crate) fn write_tail_and_unmap(mapped: MappedBuffer, offset: u64, bytes: &[u8]) -> (r:
    DeviceBuffer)
    requires
        offset % MAP_ALIGNMENT == 0,
        bytes@.len() % (COPY_ALIGNMENT as nat) == 0,
        offset + bytes@.len() == mapped.size(),
    ensures
        r.size() == mapped.size(),
        r.usage() == mapped.usage(),
        r.content().len() == r.size(),
        r.content().skip(offset as int) == bytes@,
{
    mapped.buffer.slice(offset..).get_mapped_range_mut().copy_from_slice(bytes);
    mapped.buffer.unmap();
    DeviceBuffer {
        buffer: mapped.buffer,
        size: mapped.size,
        usage: mapped.usage,
        content: Ghost(arbitrary()),
    }
}

/// Relies on `wgpu::CommandEncoder::copy_buffer_to_buffer`: records a copy
/// of the first `size` bytes of `source` into the start of `destination`,
/// whose bytes, once the copy has run, are as stated. wgpu refuses a copy
/// size off the copy alignment, a copy that overruns either buffer, a source
/// without `COPY_SRC`, a destination without `COPY_DST`, and a copy from a
/// buffer to itself (here a shared and a unique borrow cannot alias).
#[verifier::external_body]
pub(crate) fn copy_prefix(
    encoder: &mut wgpu::CommandEncoder,
    source: &DeviceBuffer,
    destination: &mut DeviceBuffer,
    size: u64,
)
    requires
        size % COPY_ALIGNMENT == 0,
        size <= source.size(),
        size <= old(destination).size(),
        source.content().len() == source.size(),
        source.usage() & USAGE_COPY_SRC != 0,
        old(destination).usage() & USAGE_COPY_DST != 0,
    ensures
        final(destination).size() == old(destination).size(),
        final(destination).usage() == old(destination).usage(),
        final(destination).content() == source.content().take(size as int) + old(
            destination,
        ).content().skip(size as int),
{
    encoder.copy_buffer_to_buffer(&source.buffer, 0, &destination.buffer, 0, size)
}

} // verus!
