//! Image-based-lighting cube layouts.
//!
//! A validated environment supplies RGBA cube faces, prefiltered specular mip
//! by mip and a single-level irradiance cube. Each face is uploaded as one
//! contiguous run of components, so the layout of the payload is fixed by the
//! descriptor alone.

use vstd::prelude::*;
use crate::error::LodWebGpuError;
use crate::layout::{padded_readback_layout, readback_layout_spec, ReadbackLayout};

verus! {

/// Bytes of the environment uniform.
pub const PBR_ENVIRONMENT_UNIFORM_BYTES: u64 = 16;
/// Faces of a cube.
pub const CUBE_FACES: u32 = 6;

/// Extents of one environment epoch.
#[derive(Clone, Copy, Debug, PartialEq, Eq, Structural)]
pub struct EnvironmentMapDescriptor {
    pub prefiltered_face_size: u32,
    pub prefiltered_mip_count: u32,
    pub irradiance_face_size: u32,
}

/// RGBA components of one square face.
pub open spec fn face_component_len(face_size: u32) -> int {
    face_size * face_size * 4
}

/// RGBA components of one face; a face whose component count exceeds
/// `usize` is a payload error.
pub fn rgba_face_component_len(face_size: u32) -> (r: Result<usize, LodWebGpuError>)
    ensures
        r is Ok <==> face_component_len(face_size) <= usize::MAX,
        r matches Ok(n) ==> n == face_component_len(face_size),
        r matches Err(e) ==> e is Payload,
{
    let size = face_size as u64;
    proof {
        assert(size * size <= 0xffff_fffe_0000_0001) by (nonlinear_arith)
            requires
                size <= 0xffff_ffff,
        ;
    }
    let texels = size * size;
    if texels > u64::MAX / 4 {
        proof {
            assert(face_component_len(face_size) > usize::MAX);
        }
        return Err(LodWebGpuError::payload("environment face size overflowed"));
    }
    let components = texels * 4;
    if components > usize::MAX as u64 {
        return Err(LodWebGpuError::payload("environment face size overflowed"));
    }
    Ok(components as usize)
}

/// The environment uniform: residency flag, prefiltered mip count (one when
/// nonresident), then two unused words.
pub open spec fn environment_uniform_spec(descriptor: Option<EnvironmentMapDescriptor>) -> Seq<u32> {
    match descriptor {
        Some(d) => seq![1u32, d.prefiltered_mip_count, 0u32, 0u32],
        None => seq![0u32, 1u32, 0u32, 0u32],
    }
}

/// The words of the environment uniform for a resident environment or the
/// nonresident placeholder.
pub fn pbr_environment_uniform_words(descriptor: Option<EnvironmentMapDescriptor>) -> (words: [u32; 4])
    ensures
        words@ == environment_uniform_spec(descriptor),
{
    let words = match descriptor {
        Some(d) => [1u32, d.prefiltered_mip_count, 0, 0],
        None => [0u32, 1, 0, 0],
    };
    assert(words@ =~= environment_uniform_spec(descriptor));
    words
}

/// Face size of mip `mip` of a cube whose base face is `base`: halved per
/// level, never below one.
pub open spec fn mip_face_size(base: u32, mip: u32) -> u32 {
    if base >> mip == 0 {
        1
    } else {
        base >> mip
    }
}

/// Face size of one mip level.
pub fn environment_face_size(base: u32, mip: u32) -> (size: u32)
    requires
        mip < 32,
    ensures
        size == mip_face_size(base, mip),
        size >= 1,
{
    let s = base >> mip;
    if s == 0 {
        1
    } else {
        s
    }
}

/// One cube face upload: its level, face, extent, and component range of the
/// payload.
#[derive(Clone, Copy, Debug, PartialEq, Eq, Structural)]
pub struct CubeFaceUpload {
    pub mip: u32,
    pub face: u32,
    pub face_size: u32,
    pub start: usize,
    pub end: usize,
}

/// Components of the prefiltered payload before mip `mip`: six faces per
/// earlier level.
pub open spec fn prefiltered_offset(base: u32, mip: nat) -> int
    decreases mip,
{
    if mip == 0 {
        0
    } else {
        prefiltered_offset(base, (mip - 1) as nat) + 6 * face_component_len(
            mip_face_size(base, (mip - 1) as u32),
        )
    }
}

/// The expected upload of face `face` of mip `mip` of the prefiltered cube.
pub open spec fn prefiltered_upload(base: u32, mip: u32, face: u32) -> CubeFaceUpload {
    let n = face_component_len(mip_face_size(base, mip));
    let start = prefiltered_offset(base, mip as nat) + face * n;
    CubeFaceUpload {
        mip,
        face,
        face_size: mip_face_size(base, mip),
        start: start as usize,
        end: (start + n) as usize,
    }
}

proof fn lemma_prefiltered_offset_monotone(base: u32, a: nat, b: nat)
    requires
        a <= b,
    ensures
        prefiltered_offset(base, a) <= prefiltered_offset(base, b),
    decreases b,
{
    if a < b {
        lemma_prefiltered_offset_monotone(base, a, (b - 1) as nat);
    }
}

/// The face uploads of the prefiltered cube, mip by mip and face by face over
/// one contiguous payload; a payload larger than `usize` is a payload error.
pub fn prefiltered_face_uploads(descriptor: EnvironmentMapDescriptor) -> (r: Result<
    Vec<CubeFaceUpload>,
    LodWebGpuError,
>)
    requires
        descriptor.prefiltered_mip_count <= 32,
    ensures
        r is Ok <==> prefiltered_offset(
            descriptor.prefiltered_face_size,
            descriptor.prefiltered_mip_count as nat,
        ) <= usize::MAX,
        r matches Err(e) ==> e is Payload,
        r matches Ok(uploads) ==> {
            &&& uploads@.len() == 6 * descriptor.prefiltered_mip_count
            &&& forall|m: int, f: int|
                0 <= m < descriptor.prefiltered_mip_count && 0 <= f < 6 ==> #[trigger] uploads@[6
                    * m + f] == prefiltered_upload(
                    descriptor.prefiltered_face_size,
                    m as u32,
                    f as u32,
                )
        },
{
    let base = descriptor.prefiltered_face_size;
    let count = descriptor.prefiltered_mip_count;
    let mut uploads: Vec<CubeFaceUpload> = Vec::new();
    let mut offset: usize = 0;
    let mut mip: u32 = 0;
    while mip < count
        invariant
            count <= 32,
            base == descriptor.prefiltered_face_size,
            count == descriptor.prefiltered_mip_count,
            mip <= count,
            offset == prefiltered_offset(base, mip as nat),
            uploads@.len() == 6 * mip,
            forall|m: int, f: int|
                0 <= m < mip && 0 <= f < 6 ==> #[trigger] uploads@[6 * m + f] == prefiltered_upload(
                    base,
                    m as u32,
                    f as u32,
                ),
        decreases count - mip,
    {
        let face_size = environment_face_size(base, mip);
        let n = match rgba_face_component_len(face_size) {
            Ok(n) => n,
            Err(e) => {
                proof {
                    lemma_prefiltered_offset_monotone(base, (mip + 1) as nat, count as nat);
                }
                return Err(e);
            },
        };
        let mut face: u32 = 0;
        while face < 6
            invariant
                count <= 32,
                base == descriptor.prefiltered_face_size,
                count == descriptor.prefiltered_mip_count,
                mip < count,
                face <= 6,
                face_size == mip_face_size(base, mip),
                n == face_component_len(face_size),
                offset == prefiltered_offset(base, mip as nat) + face * n,
                uploads@.len() == 6 * mip + face,
                forall|m: int, f: int|
                    0 <= m < mip && 0 <= f < 6 ==> #[trigger] uploads@[6 * m + f]
                        == prefiltered_upload(base, m as u32, f as u32),
                forall|f: int|
                    0 <= f < face ==> #[trigger] uploads@[6 * mip + f] == prefiltered_upload(
                        base,
                        mip,
                        f as u32,
                    ),
            decreases 6 - face,
        {
            proof {
                assert(face * n + n <= 6 * n && (face + 1) * n == face * n + n) by (nonlinear_arith)
                    requires
                        face < 6,
                ;
                assert(prefiltered_offset(base, (mip + 1) as nat) == prefiltered_offset(base, mip as nat) + 6 * n);
            }
            let end = match offset.checked_add(n) {
                Some(end) => end,
                None => {
                    proof {
                        lemma_prefiltered_offset_monotone(base, (mip + 1) as nat, count as nat);
                    }
                    return Err(
                        LodWebGpuError::payload("prefiltered environment face offset overflowed"),
                    );
                },
            };
            uploads.push(CubeFaceUpload { mip, face, face_size, start: offset, end });
            offset = end;
            face = face + 1;
        }
        mip = mip + 1;
    }
    Ok(uploads)
}

/// The face uploads of the single-level irradiance cube: face `f` covers
/// components `f * n .. (f + 1) * n` of its payload.
pub fn irradiance_face_uploads(descriptor: EnvironmentMapDescriptor) -> (r: Result<
    Vec<CubeFaceUpload>,
    LodWebGpuError,
>)
    requires
        6 * face_component_len(descriptor.irradiance_face_size) <= usize::MAX
            || face_component_len(descriptor.irradiance_face_size) > usize::MAX,
    ensures
        r is Ok <==> face_component_len(descriptor.irradiance_face_size) <= usize::MAX,
        r matches Err(e) ==> e is Payload,
        r matches Ok(uploads) ==> {
            let n = face_component_len(descriptor.irradiance_face_size);
            &&& uploads@.len() == 6
            &&& forall|f: int|
                0 <= f < 6 ==> #[trigger] uploads@[f] == (CubeFaceUpload {
                    mip: 0,
                    face: f as u32,
                    face_size: descriptor.irradiance_face_size,
                    start: (f * n) as usize,
                    end: (f * n + n) as usize,
                })
        },
{
    let n = rgba_face_component_len(descriptor.irradiance_face_size)?;
    let mut uploads: Vec<CubeFaceUpload> = Vec::new();
    let mut face: u32 = 0;
    while face < 6
        invariant
            n == face_component_len(descriptor.irradiance_face_size),
            6 * n <= usize::MAX,
            face <= 6,
            uploads@.len() == face,
            forall|f: int|
                0 <= f < face ==> #[trigger] uploads@[f] == (CubeFaceUpload {
                    mip: 0,
                    face: f as u32,
                    face_size: descriptor.irradiance_face_size,
                    start: (f * n) as usize,
                    end: (f * n + n) as usize,
                }),
        decreases 6 - face,
    {
        proof {
            assert(face * n + n <= 6 * n) by (nonlinear_arith)
                requires
                    face < 6,
            ;
        }
        let start = face as usize * n;
        uploads.push(
            CubeFaceUpload {
                mip: 0,
                face,
                face_size: descriptor.irradiance_face_size,
                start,
                end: start + n,
            },
        );
        face = face + 1;
    }
    Ok(uploads)
}

/// Both face sizes fit the device's 2D texture limit.
pub open spec fn environment_fits_device(d: EnvironmentMapDescriptor, maximum_dimension: u32) -> bool {
    d.prefiltered_face_size <= maximum_dimension && d.irradiance_face_size <= maximum_dimension
}

/// Reject an environment whose cube faces exceed the device limit.
pub fn validate_environment_face_sizes(
    descriptor: EnvironmentMapDescriptor,
    maximum_dimension: u32,
) -> (r: Result<(), LodWebGpuError>)
    ensures
        r is Ok <==> environment_fits_device(descriptor, maximum_dimension),
        r matches Err(e) ==> e is Payload,
{
    if descriptor.prefiltered_face_size > maximum_dimension {
        return Err(
            LodWebGpuError::payload("prefiltered environment face size exceeds device limit"),
        );
    }
    if descriptor.irradiance_face_size > maximum_dimension {
        return Err(
            LodWebGpuError::payload("irradiance environment face size exceeds device limit"),
        );
    }
    Ok(())
}

/// Base face size and level count of the prefiltered or the irradiance cube.
pub open spec fn cube_extent(d: EnvironmentMapDescriptor, prefiltered: bool) -> (u32, u32) {
    if prefiltered {
        (d.prefiltered_face_size, d.prefiltered_mip_count)
    } else {
        (d.irradiance_face_size, 1)
    }
}

/// Face size and RGBA16F row layout of a diagnostic read of one cube face:
/// the face must be below six and the mip inside the cube's chain.
pub fn environment_face_readback(
    descriptor: EnvironmentMapDescriptor,
    prefiltered: bool,
    mip: u32,
    face: u32,
) -> (r: Result<(u32, ReadbackLayout), LodWebGpuError>)
    requires
        descriptor.prefiltered_mip_count <= 32,
    ensures
        r is Ok <==> {
            &&& face < 6
            &&& mip < cube_extent(descriptor, prefiltered).1
            &&& readback_layout_spec(
                mip_face_size(cube_extent(descriptor, prefiltered).0, mip),
                8,
                mip_face_size(cube_extent(descriptor, prefiltered).0, mip),
            ) is Some
        },
        r matches Ok((size, layout)) ==> {
            &&& size == mip_face_size(cube_extent(descriptor, prefiltered).0, mip)
            &&& readback_layout_spec(size, 8, size) == Some(layout)
        },
        r matches Err(e) ==> e is Payload,
{
    if face >= 6 {
        return Err(LodWebGpuError::payload("environment diagnostic face must be below six"));
    }
    let (base, mip_count) = if prefiltered {
        (descriptor.prefiltered_face_size, descriptor.prefiltered_mip_count)
    } else {
        (descriptor.irradiance_face_size, 1)
    };
    if mip >= mip_count {
        return Err(LodWebGpuError::payload("environment diagnostic mip exceeds the cube's levels"));
    }
    let size = environment_face_size(base, mip);
    let layout = padded_readback_layout(size, 8, size)?;
    Ok((size, layout))
}

/// The prefiltered face uploads tile their payload: the first starts at zero,
/// each face ends where the next face (of the same level, or the first face
/// of the next level) starts, and the last ends at the payload's length.
pub proof fn lemma_prefiltered_uploads_tile(base: u32, count: u32, m: u32, f: u32)
    requires
        m < count,
        f < 6,
        prefiltered_offset(base, count as nat) <= usize::MAX,
    ensures
        m == 0 && f == 0 ==> prefiltered_upload(base, m, f).start == 0,
        f < 5 ==> prefiltered_upload(base, m, f).end == prefiltered_upload(
            base,
            m,
            (f + 1) as u32,
        ).start,
        f == 5 && m + 1 < count ==> prefiltered_upload(base, m, f).end == prefiltered_upload(
            base,
            (m + 1) as u32,
            0,
        ).start,
        f == 5 && m + 1 == count ==> prefiltered_upload(base, m, f).end == prefiltered_offset(
            base,
            count as nat,
        ),
{
    let n = face_component_len(mip_face_size(base, m));
    lemma_prefiltered_offset_monotone(base, 0, m as nat);
    lemma_prefiltered_offset_monotone(base, (m + 1) as nat, count as nat);
    assert(prefiltered_offset(base, (m + 1) as nat) == prefiltered_offset(base, m as nat) + 6 * n);
    assert(n >= 0) by (nonlinear_arith)
        requires
            n == face_component_len(mip_face_size(base, m)),
    ;
    assert(f * n + n <= 6 * n && (f + 1) * n == f * n + n) by (nonlinear_arith)
        requires
            f < 6,
            n >= 0,
    ;
    if f == 5 {
        assert(prefiltered_offset(base, m as nat) + f * n + n == prefiltered_offset(
            base,
            (m + 1) as nat,
        ));
    }
    if m + 1 == count {
        assert((m + 1) as nat == count as nat);
    }
    if m + 1 < count {
        lemma_prefiltered_offset_monotone(base, (m + 2) as nat, count as nat);
        let n2 = face_component_len(mip_face_size(base, (m + 1) as u32));
        assert(n2 >= 0) by (nonlinear_arith)
            requires
                n2 == face_component_len(mip_face_size(base, (m + 1) as u32)),
        ;
        assert(prefiltered_offset(base, (m + 2) as nat) == prefiltered_offset(base, (m + 1) as nat)
            + 6 * n2);
    }
}

} // verus!
