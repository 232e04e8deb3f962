//! Visibility compaction scenes and the per-batch draw records derived from
//! them.
//!
//! A compaction scene partitions a stream of source instances into batches of
//! consecutive sources. The device counts, scans, and scatters the visible
//! sources of each batch into indirect draw arguments; the host validates the
//! partition and lays out the per-batch uniform table the draws index.

use vstd::prelude::*;
use crate::error::LodWebGpuError;
use crate::records::{chunks_match, record_at, words_to_five_records};

verus! {

/// Bytes of one packed source record.
pub const PACKED_RECORD_BYTES: u64 = 4;
/// Bytes of one compacted range record.
pub const VISIBILITY_RANGE_RECORD_BYTES: u64 = 20;
/// Bytes of one indexed indirect draw record.
pub const INDEXED_INDIRECT_RECORD_BYTES: u64 = 20;
/// Bytes of the batch index read by one draw.
pub const DRAW_BATCH_INDEX_BYTES: u64 = 16;

/// Packed words of a visibility compaction scene: a uniform
/// `[batch_count, source_count, 0, 0]`, one `[first_source, source_count,
/// triangle_index_count, line_index_count]` record per batch, and one
/// eligibility flag per source.
#[derive(Clone, Debug)]
pub struct VisibilityCompactionSceneWords {
    pub uniform: [u32; 4],
    pub batches: Vec<[u32; 4]>,
    pub source_eligibility: Vec<u32>,
}

/// Sources covered by the first `n` batches.
pub open spec fn batch_prefix(batches: Seq<[u32; 4]>, n: int) -> int
    decreases n,
{
    if n <= 0 {
        0
    } else {
        batch_prefix(batches, n - 1) + batches[n - 1][1]
    }
}

/// The scene is well formed: the uniform's padding is zero, the tables have
/// the counts the uniform announces, every eligibility flag is 0 or 1, each
/// batch starts where the previous one ended with whole triangles and lines,
/// and the batches cover the source stream exactly.
pub open spec fn compaction_scene_valid(
    uniform: [u32; 4],
    batches: Seq<[u32; 4]>,
    eligibility: Seq<u32>,
) -> bool {
    &&& uniform[2] == 0 && uniform[3] == 0
    &&& batches.len() == uniform[0]
    &&& eligibility.len() == uniform[1]
    &&& forall|i: int| 0 <= i < eligibility.len() ==> #[trigger] eligibility[i] <= 1
    &&& forall|i: int|
        0 <= i < batches.len() ==> {
            &&& (#[trigger] batches[i])[0] == batch_prefix(batches, i)
            &&& batches[i][2] % 3 == 0
            &&& batches[i][3] % 2 == 0
        }
    &&& batch_prefix(batches, batches.len() as int) == uniform[1]
}

proof fn lemma_batch_prefix_monotone(batches: Seq<[u32; 4]>, a: int, b: int)
    requires
        0 <= a <= b,
    ensures
        batch_prefix(batches, a) <= batch_prefix(batches, b),
    decreases b,
{
    if a < b {
        lemma_batch_prefix_monotone(batches, a, b - 1);
    }
}

/// Counts of a validated compaction scene.
#[derive(Clone, Copy, Debug, PartialEq, Eq, Structural)]
pub struct VisibilityCompactionShape {
    pub batch_count: u32,
    pub source_count: u32,
}

/// Validate the packed words of a compaction scene, returning its counts; a
/// malformed scene is a payload error.
pub fn validate_visibility_compaction_scene(words: &VisibilityCompactionSceneWords) -> (r: Result<
    VisibilityCompactionShape,
    LodWebGpuError,
>)
    ensures
        r is Ok <==> compaction_scene_valid(
            words.uniform,
            words.batches@,
            words.source_eligibility@,
        ),
        r matches Ok(shape) ==> shape.batch_count == words.uniform[0] && shape.source_count
            == words.uniform[1],
        r matches Err(e) ==> e is Payload,
{
    let batch_count = words.uniform[0];
    let source_count = words.uniform[1];
    if words.uniform[2] != 0 || words.uniform[3] != 0 || words.batches.len() != batch_count as usize
        || words.source_eligibility.len() != source_count as usize {
        return Err(LodWebGpuError::payload("visibility compaction scene shape is malformed"));
    }
    let mut i: usize = 0;
    while i < words.source_eligibility.len()
        invariant
            i <= words.source_eligibility@.len(),
            forall|k: int| 0 <= k < i ==> #[trigger] words.source_eligibility@[k] <= 1,
        decreases words.source_eligibility@.len() - i,
    {
        if words.source_eligibility[i] > 1 {
            return Err(LodWebGpuError::payload("visibility compaction scene shape is malformed"));
        }
        i = i + 1;
    }
    let mut expected_first: u32 = 0;
    let mut b: usize = 0;
    while b < words.batches.len()
        invariant
            b <= words.batches@.len(),
            expected_first == batch_prefix(words.batches@, b as int),
            forall|k: int|
                0 <= k < b ==> {
                    &&& (#[trigger] words.batches@[k])[0] == batch_prefix(words.batches@, k)
                    &&& words.batches@[k][2] % 3 == 0
                    &&& words.batches@[k][3] % 2 == 0
                },
        decreases words.batches@.len() - b,
    {
        let batch = words.batches[b];
        if batch[0] != expected_first || batch[2] % 3 != 0 || batch[3] % 2 != 0 {
            return Err(
                LodWebGpuError::payload(
                    "visibility compaction batch ranges or geometry counts are not canonical",
                ),
            );
        }
        match expected_first.checked_add(batch[1]) {
            Some(next) => {
                expected_first = next;
            },
            None => {
                proof {
                    lemma_batch_prefix_monotone(
                        words.batches@,
                        b + 1,
                        words.batches@.len() as int,
                    );
                }
                return Err(
                    LodWebGpuError::payload("visibility compaction source count exceeds u32"),
                );
            },
        }
        b = b + 1;
    }
    if expected_first != source_count {
        return Err(
            LodWebGpuError::payload(
                "visibility compaction batches do not cover the source stream",
            ),
        );
    }
    Ok(VisibilityCompactionShape { batch_count, source_count })
}

/// Byte sizes of the device buffers of a compaction scene.
#[derive(Clone, Copy, Debug, PartialEq, Eq, Structural)]
pub struct VisibilityBufferSizes {
    /// Current visibility and compacted source instances, one word per
    /// source.
    pub source_bytes: u64,
    /// Per-batch visible counts.
    pub batch_count_bytes: u64,
    /// Compacted ranges.
    pub range_bytes: u64,
    /// Triangle and line indirect arguments (each).
    pub indirect_bytes: u64,
}

/// Buffer sizes of a compaction scene with the given counts.
pub fn visibility_buffer_sizes(batch_count: u32, source_count: u32) -> (sizes: VisibilityBufferSizes)
    ensures
        sizes.source_bytes == source_count * 4,
        sizes.batch_count_bytes == batch_count * 4,
        sizes.range_bytes == batch_count * 20,
        sizes.indirect_bytes == batch_count * 20,
{
    VisibilityBufferSizes {
        source_bytes: source_count as u64 * PACKED_RECORD_BYTES,
        batch_count_bytes: batch_count as u64 * PACKED_RECORD_BYTES,
        range_bytes: batch_count as u64 * VISIBILITY_RANGE_RECORD_BYTES,
        indirect_bytes: batch_count as u64 * INDEXED_INDIRECT_RECORD_BYTES,
    }
}

/// The draw batch-index record size rounded up to a multiple of the
/// uniform-offset alignment (an alignment of zero counts as one).
pub open spec fn batch_index_stride_spec(alignment: u32) -> int {
    let a: int = if alignment == 0 {
        1
    } else {
        alignment as int
    };
    ((16 + a - 1) / a) * a
}

/// Stride of the per-batch index uniform table under the device's uniform
/// offset alignment.
pub fn batch_index_uniform_stride(min_uniform_offset_alignment: u32) -> (r: Result<
    u32,
    LodWebGpuError,
>)
    ensures
        r is Ok,
        r matches Ok(stride) ==> stride == batch_index_stride_spec(min_uniform_offset_alignment)
            && stride >= 16,
{
    let a: u64 = if min_uniform_offset_alignment == 0 {
        1
    } else {
        min_uniform_offset_alignment as u64
    };
    let blocks = (DRAW_BATCH_INDEX_BYTES + a - 1) / a;
    proof {
        if a >= 16 {
            assert(blocks == 1) by (nonlinear_arith)
                requires
                    a >= 16,
                    blocks as int == (16 + a - 1) / (a as int),
            ;
        } else {
            assert(blocks <= 16) by (nonlinear_arith)
                requires
                    1 <= a < 16,
                    blocks as int == (16 + a - 1) / (a as int),
            ;
        }
        assert(blocks * a >= 16) by (nonlinear_arith)
            requires
                a >= 1,
                blocks as int == (16 + a - 1) / (a as int),
        ;
        assert(blocks * a <= 0xffff_ffff) by (nonlinear_arith)
            requires
                1 <= a <= 0xffff_ffff,
                a >= 16 ==> blocks == 1,
                a < 16 ==> blocks <= 16,
        ;
    }
    let stride = blocks * a;
    if stride > u32::MAX as u64 {
        return Err(LodWebGpuError::payload("draw batch-index stride exceeds u32"));
    }
    Ok(stride as u32)
}

/// Byte `b` (little-endian) of `value`.
pub open spec fn le_byte(value: u32, b: int) -> u8 {
    if b == 0 {
        (value % 256) as u8
    } else if b == 1 {
        ((value / 256) % 256) as u8
    } else if b == 2 {
        ((value / 65536) % 256) as u8
    } else {
        (value / 16777216) as u8
    }
}

/// The batch-index uniform table: record `i` (of `stride` bytes) begins with
/// the little-endian `u32` `i` and is zero elsewhere.
pub open spec fn batch_index_table_byte(stride: int, i: int, b: int) -> u8 {
    if b < 4 {
        le_byte(i as u32, b)
    } else {
        0
    }
}

/// Bytes of the per-batch index uniform table; a table larger than `usize`
/// is a payload error.
pub fn batch_index_uniform_table(batch_count: u32, stride: u32) -> (r: Result<
    Vec<u8>,
    LodWebGpuError,
>)
    requires
        batch_count == 0 || stride >= 4,
    ensures
        r is Ok <==> batch_count * stride <= usize::MAX,
        r matches Err(e) ==> e is Payload,
        r matches Ok(table) ==> {
            &&& table@.len() == batch_count * stride
            &&& forall|i: int, b: int|
                0 <= i < batch_count && 0 <= b < stride ==> #[trigger] table@[i * stride + b]
                    == batch_index_table_byte(stride as int, i, b)
        },
{
    proof {
        assert(batch_count * stride <= 0xffff_fffe_0000_0001) by (nonlinear_arith)
            requires
                batch_count <= 0xffff_ffff,
                stride <= 0xffff_ffff,
        ;
    }
    let total = batch_count as u64 * stride as u64;
    if total > usize::MAX as u64 {
        return Err(LodWebGpuError::payload("draw batch-index table is too large"));
    }
    let mut table: Vec<u8> = Vec::new();
    let mut i: u32 = 0;
    while i < batch_count
        invariant
            i <= batch_count,
            batch_count == 0 || stride >= 4,
            batch_count * stride <= usize::MAX,
            table@.len() == i * stride,
            forall|k: int, b: int|
                0 <= k < i && 0 <= b < stride ==> #[trigger] table@[k * stride + b]
                    == batch_index_table_byte(stride as int, k, b),
        decreases batch_count - i,
    {
        proof {
            assert(i * stride + stride <= batch_count * stride) by (nonlinear_arith)
                requires
                    i < batch_count,
            ;
        }
        let ghost before = table@;
        let ghost base = i * stride;
        assert(base >= 0) by (nonlinear_arith)
            requires
                base == i * stride,
        ;
        table.push((i % 256) as u8);
        table.push(((i / 256) % 256) as u8);
        table.push(((i / 65536) % 256) as u8);
        table.push((i / 16777216) as u8);
        assert forall|c: int| 0 <= c < 4 implies #[trigger] table@[base + c] == batch_index_table_byte(
            stride as int,
            i as int,
            c,
        ) by {
            if c == 0 {
            } else if c == 1 {
            } else if c == 2 {
            } else {
            }
        }
        let mut b: u32 = 4;
        while b < stride
            invariant
                4 <= b <= stride,
                base >= 0,
                table@.len() == base + b,
                base + stride <= usize::MAX,
                forall|k: int| 0 <= k < base ==> table@[k] == before[k],
                forall|c: int| 0 <= c < b ==> #[trigger] table@[base + c] == batch_index_table_byte(
                    stride as int,
                    i as int,
                    c,
                ),
            decreases stride - b,
        {
            let ghost pre = table@;
            table.push(0);
            assert forall|c: int| 0 <= c < b + 1 implies #[trigger] table@[base + c]
                == batch_index_table_byte(stride as int, i as int, c) by {
                if c < b {
                    assert(table@[base + c] == pre[base + c]);
                }
            }
            b = b + 1;
        }
        proof {
            assert forall|k: int, c: int| 0 <= k < i + 1 && 0 <= c < stride implies #[trigger] table@[k
                * stride + c] == batch_index_table_byte(stride as int, k, c) by {
                if k < i {
                    assert(k * stride + c < i * stride) by (nonlinear_arith)
                        requires
                            0 <= k < i,
                            0 <= c < stride,
                    ;
                    assert(0 <= k * stride + c) by (nonlinear_arith)
                        requires
                            0 <= k,
                            0 <= c,
                    ;
                    assert(table@[k * stride + c] == before[k * stride + c]);
                } else {
                    assert(k * stride + c == base + c);
                }
            }
            assert((i + 1) * stride == base + stride) by (nonlinear_arith)
                requires
                    base == i * stride,
            ;
        }
        i = i + 1;
    }
    Ok(table)
}

/// Width of the elements of an index buffer.
#[derive(Clone, Copy, Debug, PartialEq, Eq, Structural)]
pub enum IndexFormat {
    Uint16,
    Uint32,
}

/// Bytes of one index of the format.
pub open spec fn index_width(format: IndexFormat) -> u64 {
    match format {
        IndexFormat::Uint16 => 2,
        IndexFormat::Uint32 => 4,
    }
}

/// Which per-batch resources a draw binds besides its batch record.
#[derive(Clone, Copy, Debug, PartialEq, Eq, Structural)]
pub struct DrawBatchResidency {
    /// The pipeline binds PBR material textures and the environment.
    pub uses_pbr_bindings: bool,
    /// Number of resident material texture bind groups, `None` when no
    /// material textures are resident.
    pub material_texture_slots: Option<usize>,
    /// The PBR environment bindings are resident.
    pub environment_resident: bool,
}

/// Byte offsets of one indirect batch draw.
#[derive(Clone, Copy, Debug, PartialEq, Eq, Structural)]
pub struct DrawBatchOffsets {
    /// Dynamic offset of the batch record in the batch-index uniform table.
    pub dynamic_offset: u32,
    /// Offset of the batch's first index in its index buffer.
    pub index_byte_offset: u64,
    /// Offset of the batch's indirect arguments.
    pub indirect_offset: u64,
}

/// A draw of batch `batch_index` can be encoded: the batch exists, its
/// dynamic offset fits `u32`, and a PBR pipeline finds the material slot's
/// textures and the environment resident.
pub open spec fn draw_batch_allowed(
    batch_count: u32,
    stride: u32,
    batch_index: u32,
    material_slot: u32,
    residency: DrawBatchResidency,
) -> bool {
    &&& batch_index < batch_count
    &&& batch_index * stride <= u32::MAX
    &&& residency.uses_pbr_bindings ==> {
        &&& residency.material_texture_slots matches Some(n) && material_slot < n
        &&& residency.environment_resident
    }
}

/// Offsets of one compacted indirect batch draw; an out-of-range batch, an
/// overflowing dynamic offset, or a nonresident PBR binding is a payload
/// error.
pub fn draw_batch_offsets(
    batch_count: u32,
    stride: u32,
    batch_index: u32,
    material_slot: u32,
    residency: DrawBatchResidency,
    first_index: u32,
    format: IndexFormat,
) -> (r: Result<DrawBatchOffsets, LodWebGpuError>)
    ensures
        r is Ok <==> draw_batch_allowed(batch_count, stride, batch_index, material_slot, residency),
        r matches Err(e) ==> e is Payload,
        r matches Ok(offsets) ==> {
            &&& offsets.dynamic_offset == batch_index * stride
            &&& offsets.index_byte_offset == first_index * index_width(format)
            &&& offsets.indirect_offset == batch_index * 20
        },
{
    if batch_index >= batch_count {
        return Err(LodWebGpuError::payload("patch render batch index is out of range"));
    }
    let dynamic_offset = match batch_index.checked_mul(stride) {
        Some(o) => o,
        None => {
            return Err(LodWebGpuError::payload("patch render batch offset exceeds u32"));
        },
    };
    if residency.uses_pbr_bindings {
        match residency.material_texture_slots {
            None => {
                return Err(
                    LodWebGpuError::payload("PBR material texture bindings are not resident"),
                );
            },
            Some(n) => {
                if material_slot as usize >= n {
                    return Err(LodWebGpuError::payload("PBR material texture slot is not resident"));
                }
            },
        }
        if !residency.environment_resident {
            return Err(LodWebGpuError::payload("PBR environment bindings are not resident"));
        }
    }
    let width: u64 = match format {
        IndexFormat::Uint16 => 2,
        IndexFormat::Uint32 => 4,
    };
    Ok(
        DrawBatchOffsets {
            dynamic_offset,
            index_byte_offset: first_index as u64 * width,
            indirect_offset: batch_index as u64 * INDEXED_INDIRECT_RECORD_BYTES,
        },
    )
}

/// What a diagnostic visibility compaction reads back: the surviving source
/// instances in compacted order, then per batch its compacted range and its
/// triangle and line indirect arguments.
#[derive(Clone, Debug)]
pub struct VisibilityCompactionOutput {
    pub compacted_source_instances: Vec<u32>,
    pub compacted_ranges: Vec<[u32; 5]>,
    pub triangle_indirect_arguments: Vec<[u32; 5]>,
    pub line_indirect_arguments: Vec<[u32; 5]>,
}

/// Survivors a compaction reports: where its last range ends (first
/// survivor plus survivor count, saturating), none without ranges.
pub open spec fn reported_survivors(range_words: Seq<u32>) -> int {
    if range_words.len() < 5 {
        0
    } else {
        let end = range_words[range_words.len() - 2] + range_words[range_words.len() - 1];
        if end > u32::MAX {
            u32::MAX as int
        } else {
            end
        }
    }
}

/// Assemble the readbacks of a diagnostic compaction of `batch_count`
/// batches over `source_count` sources: each record readback holds one
/// five-word record per batch and the source readback one word per source.
/// A scene without batches reads nothing back and yields four empty lists.
/// More survivors than sources is a conformance error; otherwise the
/// compacted sources are cut to the survivors.
pub fn visibility_compaction_output(
    batch_count: u32,
    source_count: u32,
    range_words: Vec<u32>,
    triangle_words: Vec<u32>,
    line_words: Vec<u32>,
    source_words: Vec<u32>,
) -> (r: Result<VisibilityCompactionOutput, LodWebGpuError>)
    requires
        batch_count > 0 ==> {
            &&& range_words@.len() == 5 * batch_count
            &&& triangle_words@.len() == 5 * batch_count
            &&& line_words@.len() == 5 * batch_count
            &&& source_words@.len() == source_count
        },
    ensures
        r is Ok <==> batch_count == 0 || reported_survivors(range_words@) <= source_count,
        r matches Err(e) ==> e is Conformance,
        r matches Ok(out) ==> if batch_count == 0 {
            &&& out.compacted_source_instances@.len() == 0
            &&& out.compacted_ranges@.len() == 0
            &&& out.triangle_indirect_arguments@.len() == 0
            &&& out.line_indirect_arguments@.len() == 0
        } else {
            &&& out.compacted_ranges@.len() == batch_count
            &&& out.triangle_indirect_arguments@.len() == batch_count
            &&& out.line_indirect_arguments@.len() == batch_count
            &&& chunks_match(out.compacted_ranges@, range_words@)
            &&& chunks_match(out.triangle_indirect_arguments@, triangle_words@)
            &&& chunks_match(out.line_indirect_arguments@, line_words@)
            &&& out.compacted_source_instances@.len() == reported_survivors(range_words@)
            &&& out.compacted_source_instances@ == source_words@.take(
                reported_survivors(range_words@),
            )
        },
{
    if batch_count == 0 {
        return Ok(
            VisibilityCompactionOutput {
                compacted_source_instances: Vec::new(),
                compacted_ranges: Vec::new(),
                triangle_indirect_arguments: Vec::new(),
                line_indirect_arguments: Vec::new(),
            },
        );
    }
    let ghost range_view = range_words@;
    proof {
        assert(range_words@.len() % 5 == 0 && triangle_words@.len() % 5 == 0 && line_words@.len()
            % 5 == 0) by {
            assert((5 * batch_count) % 5 == 0) by (nonlinear_arith);
        }
        assert((5 * batch_count) / 5 == batch_count) by (nonlinear_arith);
    }
    let compacted_ranges = words_to_five_records(range_words, "visibility range")?;
    let triangle_indirect_arguments = words_to_five_records(
        triangle_words,
        "visibility triangle indirect",
    )?;
    let line_indirect_arguments = words_to_five_records(line_words, "visibility line indirect")?;
    let last = compacted_ranges[compacted_ranges.len() - 1];
    proof {
        let n = compacted_ranges@.len() - 1;
        assert(last@ == record_at(range_view, 5, n));
        assert(last[3] == range_view[n * 5 + 3]);
        assert(last[4] == range_view[n * 5 + 4]);
        assert(range_view.len() == n * 5 + 5);
    }
    let survivors = last[3].saturating_add(last[4]);
    if survivors > source_count {
        return Err(LodWebGpuError::conformance("visibility compaction emitted too many survivors"));
    }
    let keep = survivors as usize;
    let mut compacted_source_instances: Vec<u32> = Vec::new();
    let mut i: usize = 0;
    while i < keep
        invariant
            keep <= source_words@.len(),
            i <= keep,
            compacted_source_instances@ == source_words@.take(i as int),
        decreases keep - i,
    {
        compacted_source_instances.push(source_words[i]);
        i = i + 1;
        assert(compacted_source_instances@ =~= source_words@.take(i as int));
    }
    Ok(
        VisibilityCompactionOutput {
            compacted_source_instances,
            compacted_ranges,
            triangle_indirect_arguments,
            line_indirect_arguments,
        },
    )
}

} // verus!
