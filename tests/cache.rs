use buffer_cache::aligned::AlignedBufferCache;
use buffer_cache::staging::BufferCache;
use std::ops::Range;

fn cache() -> BufferCache<u32> {
    BufferCache::new(wgpu::BufferUsage::VERTEX.bits())
}

#[test]
fn new_cache_is_empty() {
    let c = cache();
    assert_eq!(c.len(), 0);
    assert!(c.is_none());
}

#[test]
fn appends_give_contiguous_keys() {
    let mut c = cache();
    let k1 = c.append(vec![1, 2, 3]);
    let k2 = c.append(vec![4]);
    let k3 = c.append(vec![5, 6]);
    assert_eq!(k1, 0..3);
    assert_eq!(k2, 3..4);
    assert_eq!(k3, 4..6);
    assert_eq!(k2.start, k1.end);
    assert_eq!(k3.start, k2.end);
    assert_eq!(c.len(), 6);
}

#[test]
fn empty_append_returns_sentinel() {
    let mut c = cache();
    c.append(vec![7, 8]);
    let k = c.append(Vec::new());
    assert_eq!(k, 0..0);
    assert_eq!(c.len(), 2);
}

#[test]
fn empty_append_on_empty_cache() {
    let mut c = cache();
    assert_eq!(c.append(Vec::new()), 0..0);
    assert_eq!(c.len(), 0);
}

#[test]
fn append_many_ranges() {
    let mut c = cache();
    c.append(vec![0, 0]);
    let (outer, inner): (Range<u64>, Vec<Result<Range<u16>, _>>) =
        c.append_many(vec![vec![1, 2], vec![3], vec![4, 5, 6]]);
    assert_eq!(outer, 2..8);
    assert_eq!(inner.len(), 3);
    assert_eq!(inner[0].clone().unwrap(), 2..4);
    assert_eq!(inner[1].clone().unwrap(), 4..5);
    assert_eq!(inner[2].clone().unwrap(), 5..8);
    assert_eq!(c.len(), 8);
}

#[test]
fn append_many_empty_inner_is_sentinel() {
    let mut c = cache();
    c.append(vec![9]);
    let (outer, inner): (Range<u64>, Vec<Result<Range<u32>, _>>) =
        c.append_many(vec![vec![1], Vec::new(), vec![2]]);
    assert_eq!(outer, 1..3);
    assert_eq!(inner[0].clone().unwrap(), 1..2);
    assert_eq!(inner[1].clone().unwrap(), 0..0);
    assert_eq!(inner[2].clone().unwrap(), 2..3);
}

#[test]
fn append_many_reports_narrowing_failures() {
    let mut c: BufferCache<u8> = BufferCache::new(wgpu::BufferUsage::INDEX.bits());
    c.append(vec![0u8; 65530]);
    let (outer, inner): (Range<u64>, Vec<Result<Range<u16>, _>>) =
        c.append_many(vec![vec![1u8; 3], vec![2u8; 4], Vec::new(), vec![3u8; 10]]);
    assert_eq!(outer, 65530..65547);
    assert_eq!(inner.len(), 4);
    assert_eq!(inner[0].clone().unwrap(), 65530..65533);
    assert!(inner[1].is_err());
    assert_eq!(inner[2].clone().unwrap(), 0..0);
    assert!(inner[3].is_err());
    assert_eq!(c.len(), 65547);
}

#[test]
fn append_many_with_nothing() {
    let mut c = cache();
    c.append(vec![1, 2]);
    let (outer, inner): (Range<u64>, Vec<Result<Range<u16>, _>>) = c.append_many(Vec::new());
    assert_eq!(outer, 2..2);
    assert!(inner.is_empty());
    assert_eq!(c.len(), 2);
}

#[test]
fn clear_resets_length() {
    let mut c = cache();
    c.append(vec![1, 2, 3]);
    c.clear();
    assert_eq!(c.len(), 0);
    assert!(c.is_none());
    assert_eq!(c.append(vec![4, 5]), 0..2);
    assert_eq!(c.len(), 2);
}

#[test]
fn aligned_append_pads_to_alignment() {
    let mut c: AlignedBufferCache<u8> = AlignedBufferCache::new(wgpu::BufferUsage::UNIFORM.bits(), 4);
    let k = c.append(vec![1u8, 2, 3]);
    assert_eq!(k, 0..3);
    assert_eq!(c.len(), 4);
    let k = c.append(vec![4u8]);
    assert_eq!(k, 4..5);
    assert_eq!(c.len(), 8);
}

#[test]
fn aligned_append_already_aligned_adds_no_padding() {
    let mut c: AlignedBufferCache<u8> = AlignedBufferCache::new(wgpu::BufferUsage::UNIFORM.bits(), 4);
    assert_eq!(c.append(vec![1u8, 2, 3, 4]), 0..4);
    assert_eq!(c.len(), 4);
    assert_eq!(c.append(vec![5u8, 6, 7, 8, 9, 10, 11, 12]), 4..12);
    assert_eq!(c.len(), 12);
}

#[test]
fn aligned_append_counts_bytes_of_wider_types() {
    let mut c: AlignedBufferCache<u32> = AlignedBufferCache::new(wgpu::BufferUsage::STORAGE.bits(), 16);
    let k = c.append(vec![1u32, 2, 3]);
    assert_eq!(k, 0..12);
    assert_eq!(c.len(), 16);
    let k = c.append(vec![4u32]);
    assert_eq!(k, 16..20);
    assert_eq!(c.len(), 32);
}

#[test]
fn aligned_empty_append() {
    let mut c: AlignedBufferCache<u16> = AlignedBufferCache::new(wgpu::BufferUsage::VERTEX.bits(), 8);
    c.append(vec![1u16]);
    assert_eq!(c.append(Vec::new()), 0..0);
    assert_eq!(c.len(), 8);
}

#[test]
fn aligned_clear_resets_length() {
    let mut c: AlignedBufferCache<u8> = AlignedBufferCache::new(wgpu::BufferUsage::VERTEX.bits(), 4);
    c.append(vec![1u8, 2, 3, 4, 5]);
    c.clear();
    assert_eq!(c.len(), 0);
    assert!(c.is_none());
    assert_eq!(c.append(vec![6u8]), 0..1);
    assert_eq!(c.len(), 4);
}

#[test]
fn alignment_of_one_never_pads() {
    let mut c: AlignedBufferCache<u8> = AlignedBufferCache::new(wgpu::BufferUsage::VERTEX.bits(), 1);
    assert_eq!(c.append(vec![1u8, 2, 3]), 0..3);
    assert_eq!(c.len(), 3);
}

#[test]
fn append_bytes_stages_bytes_then_zero_padding() {
    let mut c: AlignedBufferCache<u8> = AlignedBufferCache::new(wgpu::BufferUsage::VERTEX.bits(), 8);
    assert_eq!(c.append_bytes(vec![9u8, 8, 7]), 0..3);
    assert_eq!(c.len(), 8);
    assert_eq!(c.append_bytes(vec![1u8; 8]), 8..16);
    assert_eq!(c.len(), 16);
    assert_eq!(c.append_bytes(Vec::new()), 0..0);
    assert_eq!(c.len(), 16);
}

#[test]
fn aligned_cache_holds_no_buffer_before_flush() {
    let mut c: AlignedBufferCache<u32> = AlignedBufferCache::new(wgpu::BufferUsage::INDEX.bits(), 4);
    c.append(vec![1u32, 2]);
    assert!(c.is_none());
}

#[test]
fn new_accepts_mapping_usage() {
    let mut c: BufferCache<u8> = BufferCache::new(wgpu::BufferUsage::MAP_WRITE.bits());
    assert_eq!(c.append(vec![1u8, 2]), 0..2);
    assert_eq!(c.len(), 2);
    let mut a: AlignedBufferCache<u8> =
        AlignedBufferCache::new(wgpu::BufferUsage::MAP_READ.bits(), 4);
    assert_eq!(a.append(vec![1u8]), 0..1);
    assert_eq!(a.len(), 4);
}
