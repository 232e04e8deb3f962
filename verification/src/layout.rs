//! Byte layouts shared by device readbacks: row-aligned texture copies,
//! removal of row padding, and native-endian words.

use vstd::prelude::*;
use vstd::endian::{endianness, Endian};

verus! {

/// The machine's reading of four bytes as a `u32`.
pub open spec fn native_u32(b: Seq<u8>) -> u32 {
    match endianness() {
        Endian::Little => (b[0] as int + b[1] as int * 0x100 + b[2] as int * 0x1_0000 + b[3] as int
            * 0x100_0000) as u32,
        Endian::Big => (b[3] as int + b[2] as int * 0x100 + b[1] as int * 0x1_0000 + b[0] as int
            * 0x100_0000) as u32,
    }
}

/// `wgpu::COPY_BYTES_PER_ROW_ALIGNMENT`: the row pitch every buffer-texture
/// copy must be a multiple of. wgpu-types defines it as the constant 256.
#[verifier::external_body]
pub(crate) fn copy_bytes_per_row_alignment() -> (alignment: u32)
    ensures
        alignment == 256,
{
    wgpu::COPY_BYTES_PER_ROW_ALIGNMENT
}

/// `bytemuck::pod_read_unaligned::<[u32; 4]>`: reinterprets exactly sixteen
/// bytes, with no alignment demand, as four `u32` in the machine's byte order.
/// It panics unless the slice has exactly the target's size.
#[verifier::external_body]
pub(crate) fn read_native_words4(bytes: &[u8]) -> (words: [u32; 4])
    requires
        bytes@.len() == 16,
    ensures
        forall|k: int|
            0 <= k < 4 ==> #[trigger] words@[k] == native_u32(bytes@.subrange(4 * k, 4 * k + 4)),
{
    bytemuck::pod_read_unaligned::<[u32; 4]>(bytes)
}

/// Row pitches of one texture-to-buffer copy.
#[derive(Clone, Copy, Debug, PartialEq, Eq, Structural)]
pub struct ReadbackLayout {
    /// Payload bytes of one row.
    pub unpadded_bytes_per_row: u32,
    /// Row pitch rounded up to the copy alignment.
    pub bytes_per_row: u32,
    /// Bytes of the whole copy.
    pub byte_len: u64,
}

/// An RGBA8 image read back from an offscreen target: `size[1]` rows of
/// `size[0]` texels, at a pitch of `bytes_per_row` bytes.
#[derive(Clone, Debug, PartialEq, Eq)]
pub struct OffscreenRgba8Image {
    pub size: [u32; 2],
    pub bytes_per_row: usize,
    pub bytes: Vec<u8>,
}

/// `value` rounded up to a multiple of `alignment` (positive).
pub open spec fn round_up(value: int, alignment: int) -> int {
    ((value + alignment - 1) / alignment) * alignment
}

/// Layout of a copy of `rows` rows of `width` texels of `bytes_per_texel`
/// bytes, or `None` when a pitch exceeds `u32`.
pub open spec fn readback_layout_spec(width: u32, bytes_per_texel: u32, rows: u32) -> Option<
    ReadbackLayout,
> {
    let unpadded = width * bytes_per_texel;
    let padded = round_up(unpadded, 256);
    if unpadded > u32::MAX || padded > u32::MAX {
        None
    } else {
        Some(
            ReadbackLayout {
                unpadded_bytes_per_row: unpadded as u32,
                bytes_per_row: padded as u32,
                byte_len: (padded * rows) as u64,
            },
        )
    }
}

/// Row pitches of a texture readback; an overflowing pitch is a payload
/// error.
pub fn padded_readback_layout(width: u32, bytes_per_texel: u32, rows: u32) -> (r: Result<
    ReadbackLayout,
    crate::error::LodWebGpuError,
>)
    ensures
        match readback_layout_spec(width, bytes_per_texel, rows) {
            Some(layout) => r == Ok::<ReadbackLayout, crate::error::LodWebGpuError>(layout),
            None => r matches Err(e) && e is Payload,
        },
{
    let align = copy_bytes_per_row_alignment();
    let unpadded = width.checked_mul(bytes_per_texel);
    let unpadded = match unpadded {
        Some(u) => u,
        None => {
            return Err(crate::error::LodWebGpuError::payload("readback row size overflowed"));
        },
    };
    let blocks = (unpadded as u64 + 255) / 256;
    let padded = blocks * (align as u64);
    if padded > 0xffff_ffff {
        return Err(crate::error::LodWebGpuError::payload("readback padded row size overflowed"));
    }
    let bytes_per_row = padded as u32;
    proof {
        assert((bytes_per_row as int) * (rows as int) <= 0xffff_fffe_0000_0001) by (nonlinear_arith)
            requires
                bytes_per_row <= 0xffff_ffff,
                rows <= 0xffff_ffff,
        ;
    }
    let byte_len = (bytes_per_row as u64) * (rows as u64);
    Ok(ReadbackLayout { unpadded_bytes_per_row: unpadded, bytes_per_row, byte_len })
}

/// The first `unpadded` bytes of each of the first `rows` rows of pitch
/// `pitch`, concatenated.
pub open spec fn strip_rows(bytes: Seq<u8>, pitch: int, unpadded: int, rows: nat) -> Seq<u8>
    decreases rows,
{
    if rows == 0 {
        Seq::empty()
    } else {
        strip_rows(bytes, pitch, unpadded, (rows - 1) as nat) + bytes.subrange(
            (rows - 1) * pitch,
            (rows - 1) * pitch + unpadded,
        )
    }
}

/// Remove row padding from a mapped copy: every complete row of `pitch`
/// bytes contributes its first `unpadded` bytes; a trailing partial row is
/// ignored.
pub fn strip_row_padding(mapped: &[u8], pitch: usize, unpadded: usize) -> (out: Vec<u8>)
    requires
        0 < pitch,
        unpadded <= pitch,
    ensures
        out@ == strip_rows(mapped@, pitch as int, unpadded as int, mapped@.len() / (pitch as nat)),
{
    let len = mapped.len();
    let rows = len / pitch;
    let mut out: Vec<u8> = Vec::new();
    let mut r: usize = 0;
    while r < rows
        invariant
            r <= rows,
            rows == mapped@.len() / (pitch as nat),
            len == mapped@.len(),
            0 < pitch,
            unpadded <= pitch,
            out@ == strip_rows(mapped@, pitch as int, unpadded as int, r as nat),
        decreases rows - r,
    {
        proof {
            assert((r + 1) * pitch <= mapped@.len()) by (nonlinear_arith)
                requires
                    r < rows,
                    rows == mapped@.len() / (pitch as nat),
                    pitch > 0,
            {
                assert(rows * pitch <= mapped@.len());
                assert((r + 1) * pitch <= rows * pitch);
            }
            assert((r + 1) * pitch == r * pitch + pitch) by (nonlinear_arith);
        }
        let start = r * pitch;
        let ghost before = out@;
        let mut i: usize = 0;
        while i < unpadded
            invariant
                i <= unpadded <= pitch,
                start + pitch <= mapped@.len(),
                len == mapped@.len(),
                start == r * pitch,
                out@ == before + mapped@.subrange(start as int, start + i),
            decreases unpadded - i,
        {
            out.push(mapped[start + i]);
            i = i + 1;
            assert(out@ =~= before + mapped@.subrange(start as int, start + i));
        }
        r = r + 1;
        assert(out@ =~= strip_rows(mapped@, pitch as int, unpadded as int, r as nat));
    }
    out
}

/// The `u16` whose little-endian encoding is `lo, hi`.
pub open spec fn le_u16(lo: u8, hi: u8) -> u16 {
    (lo as int + hi as int * 256) as u16
}

/// Little-endian `u16` values of consecutive byte pairs; a trailing odd byte
/// is ignored.
pub fn le_u16_pairs(bytes: &[u8]) -> (out: Vec<u16>)
    ensures
        out@.len() == bytes@.len() / 2,
        forall|i: int|
            0 <= i < out@.len() ==> #[trigger] out@[i] == le_u16(bytes@[2 * i], bytes@[2 * i + 1]),
{
    let len = bytes.len();
    let n = len / 2;
    let mut out: Vec<u16> = Vec::new();
    let mut i: usize = 0;
    while i < n
        invariant
            i <= n,
            n == bytes@.len() / 2,
            len == bytes@.len(),
            out@.len() == i,
            forall|k: int|
                0 <= k < i ==> #[trigger] out@[k] == le_u16(bytes@[2 * k], bytes@[2 * k + 1]),
        decreases n - i,
    {
        let lo = bytes[2 * i];
        let hi = bytes[2 * i + 1];
        out.push(lo as u16 + (hi as u16) * 256);
        i = i + 1;
    }
    out
}

/// A readback row pitch is the smallest multiple of the copy alignment that
/// holds a row's payload, and the copy holds exactly `rows` such rows.
pub proof fn lemma_readback_pitch_is_minimal(width: u32, bytes_per_texel: u32, rows: u32)
    requires
        readback_layout_spec(width, bytes_per_texel, rows) is Some,
    ensures
        ({
            let layout = readback_layout_spec(width, bytes_per_texel, rows)->0;
            &&& layout.bytes_per_row % 256 == 0
            &&& layout.unpadded_bytes_per_row <= layout.bytes_per_row
            &&& layout.bytes_per_row < layout.unpadded_bytes_per_row + 256
            &&& layout.byte_len == layout.bytes_per_row * rows
        }),
{
    let unpadded = width * bytes_per_texel;
    let q = (unpadded + 255) / 256;
    assert(unpadded >= 0) by (nonlinear_arith)
        requires
            unpadded == width * bytes_per_texel,
    ;
    assert(q * 256 >= unpadded && q * 256 < unpadded + 256) by (nonlinear_arith)
        requires
            q == (unpadded + 255) / 256,
            unpadded >= 0,
    ;
    assert((q * 256) % 256 == 0) by (nonlinear_arith);
    assert(q >= 0);
    assert(0 <= q * 256 * rows <= 0xffff_fffe_0000_0001) by (nonlinear_arith)
        requires
            0 <= q * 256 <= 0xffff_ffff,
            rows <= 0xffff_ffff,
    ;
}

} // verus!
