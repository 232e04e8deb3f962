//! Validation of packed patch-preparation scenes.
//!
//! A preparation scene describes every patch as a topology record whose
//! first ten words are binary32 values that must each hold an exact
//! non-negative integer (indices, a face corner count, a dyadic leaf depth
//! and path), followed by a subject index and a zero word. Source-face records
//! repeat the resident model's corner vertices as binary32 integers. The
//! checks below decide those properties on the bit patterns themselves.

use vstd::prelude::*;
use vstd::arithmetic::power2::{lemma2_to64, lemma2_to64_rest, lemma_pow2_strictly_increases, pow2};
use crate::error::LodWebGpuError;
use crate::render_words::{all_finite_bits, f32_bits_finite};

verus! {

/// The exact value of a binary32 bit pattern that denotes a non-negative
/// integer (negative zero included), `None` for a negative, fractional, or
/// non-finite value.
pub open spec fn f32_nonnegative_integer(bits: u32) -> Option<int> {
    let e = (bits >> 23u32) & 0xffu32;
    let m = bits & 0x7f_ffffu32;
    if bits == 0 || bits == 0x8000_0000 {
        Some(0)
    } else if bits >= 0x8000_0000 || e < 127 || e == 255 {
        None
    } else if e < 150 {
        if m & (((1u32 << (150 - e) as u32) - 1) as u32) == 0 {
            Some(((m | 0x80_0000u32) >> (150 - e) as u32) as int)
        } else {
            None
        }
    } else {
        Some((m | 0x80_0000u32) as int * pow2((e - 150) as nat) as int)
    }
}

/// `value`, or `u64::MAX` where it does not fit.
pub open spec fn saturate_to_u64(value: int) -> u64 {
    if value > u64::MAX {
        u64::MAX
    } else {
        value as u64
    }
}

/// The non-negative integer a bit pattern denotes, saturated to `u64`.
pub fn nonnegative_integer(bits: u32) -> (r: Option<u64>)
    ensures
        r == match f32_nonnegative_integer(bits) {
            Some(v) => Some(saturate_to_u64(v)),
            None => None::<u64>,
        },
{
    if bits == 0 || bits == 0x8000_0000 {
        return Some(0);
    }
    let e = (bits >> 23u32) & 0xffu32;
    let m = bits & 0x7f_ffffu32;
    if bits >= 0x8000_0000 || e < 127 || e == 255 {
        return None;
    }
    let significand = m | 0x80_0000u32;
    assert(significand < 0x100_0000 && significand >= 0x80_0000) by (bit_vector)
        requires
            significand == m | 0x80_0000u32,
            m == bits & 0x7f_ffffu32,
    ;
    if e < 150 {
        let s = 150 - e;
        assert(1u32 << s >= 1) by (bit_vector)
            requires
                1 <= s <= 23,
        ;
        if m & ((1u32 << s) - 1) != 0 {
            return None;
        }
        return Some((significand >> s) as u64);
    }
    let k = e - 150;
    proof {
        lemma2_to64();
        lemma2_to64_rest();
    }
    if k > 40 {
        proof {
            if k > 41 {
                lemma_pow2_strictly_increases(41, k as nat);
            }
            assert(significand as int * pow2(k as nat) as int > u64::MAX) by (nonlinear_arith)
                requires
                    significand >= 0x80_0000,
                    pow2(k as nat) >= 0x200_0000_0000,
            ;
        }
        return Some(u64::MAX);
    }
    proof {
        if k < 40 {
            lemma_pow2_strictly_increases(k as nat, 40);
        }
        assert(significand as int * pow2(k as nat) as int <= u64::MAX) by (nonlinear_arith)
            requires
                significand < 0x100_0000,
                pow2(k as nat) <= 0x100_0000_0000,
        ;
        vstd::bits::lemma_u64_shl_is_mul(significand as u64, k as u64);
    }
    Some((significand as u64) << (k as u64))
}

/// Packed words of a patch-preparation scene: uniform `[patch_count,
/// vertex_count, joint_count (zero when packed), morph_target_count]`, one
/// twelve-word topology record per patch, one 52-word source record per
/// resident face, and the 32-word subject records.
#[derive(Clone, Debug)]
pub struct PatchPreparationSceneWords {
    pub uniform: [u32; 4],
    pub topology: Vec<[u32; 12]>,
    pub source_faces: Vec<[u32; 52]>,
    pub subjects: Vec<[u32; 32]>,
}

/// Shape of the resident model a scene must match.
#[derive(Clone, Debug)]
pub struct PreparedModelShape {
    pub num_vertices: u32,
    pub num_faces: usize,
    pub num_morph_targets: usize,
    /// Corner vertex indices of each resident face.
    pub faces: Vec<Vec<u32>>,
}

/// The value of a bit pattern known to denote a non-negative integer.
pub open spec fn integer_of(bits: u32) -> int {
    match f32_nonnegative_integer(bits) {
        Some(v) => v,
        None => -1,
    }
}

/// A topology record is well formed: its ten real words are finite, the
/// first eight are non-negative integers, the corner count (word 3) is at
/// most five, the face (word 4) names a source record, the leaf depth (word 8)
/// is an integer of at most twelve and the leaf path (word 9) an integer
/// below `4^depth`, the subject (word 10) exists, and word 11 is zero.
pub open spec fn topology_record_valid(t: [u32; 12], source_count: int, subject_count: int) -> bool {
    &&& forall|i: int| 0 <= i < 10 ==> f32_bits_finite(#[trigger] t@[i])
    &&& forall|i: int| 0 <= i < 8 ==> (#[trigger] f32_nonnegative_integer(t@[i])) is Some
    &&& integer_of(t[3]) <= 5
    &&& integer_of(t[4]) < source_count
    &&& f32_nonnegative_integer(t[8]) is Some
    &&& integer_of(t[8]) <= 12
    &&& f32_nonnegative_integer(t[9]) is Some
    &&& integer_of(t[9]) < pow2((2 * integer_of(t[8])) as nat)
    &&& t[10] < subject_count
    &&& t[11] == 0
}

/// Every corner of every source record compared with the model (over the
/// faces both describe) encodes exactly the model's vertex index, saturating
/// at `u32::MAX` as a float-to-integer conversion does.
pub open spec fn source_faces_match(sources: Seq<[u32; 52]>, faces: Seq<Vec<u32>>) -> bool {
    forall|i: int, c: int|
        0 <= i < sources.len() && 0 <= i < faces.len() && 0 <= c < faces[i]@.len() ==> {
            let v = f32_nonnegative_integer(#[trigger] sources[i]@[4 * c]);
            &&& v is Some
            &&& (if integer_of(sources[i]@[4 * c]) > u32::MAX {
                u32::MAX as int
            } else {
                integer_of(sources[i]@[4 * c])
            }) == faces[i]@[c]
        }
}

/// The scene matches the model and every record is well formed.
pub open spec fn preparation_scene_valid(
    w: PatchPreparationSceneWords,
    model: PreparedModelShape,
) -> bool {
    &&& model.num_morph_targets <= u32::MAX
    &&& w.uniform[1] == model.num_vertices
    &&& w.uniform[2] == 0
    &&& w.uniform[3] == model.num_morph_targets
    &&& w.topology@.len() == w.uniform[0]
    &&& w.source_faces@.len() == model.num_faces
    &&& w.subjects@.len() > 0
    &&& forall|p: int|
        0 <= p < w.topology@.len() ==> topology_record_valid(
            #[trigger] w.topology@[p],
            w.source_faces@.len() as int,
            w.subjects@.len() as int,
        )
    &&& source_faces_match(w.source_faces@, model.faces@)
    &&& forall|i: int, k: int|
        0 <= i < w.source_faces@.len() && 0 <= k < 52 ==> f32_bits_finite(
            #[trigger] w.source_faces@[i]@[k],
        )
    &&& forall|i: int, k: int|
        0 <= i < w.subjects@.len() && 0 <= k < 32 ==> f32_bits_finite(
            #[trigger] w.subjects@[i]@[k],
        )
}

/// Whether one topology record is well formed.
fn topology_record_ok(t: [u32; 12], source_count: usize, subject_count: usize) -> (ok: bool)
    ensures
        ok == topology_record_valid(t, source_count as int, subject_count as int),
{
    let mut i: usize = 0;
    while i < 10
        invariant
            i <= 10,
            forall|k: int| 0 <= k < i ==> f32_bits_finite(#[trigger] t@[k]),
        decreases 10 - i,
    {
        if !crate::render_words::is_finite_bits(t[i]) {
            return false;
        }
        i = i + 1;
    }
    let mut values: [u64; 8] = [0; 8];
    let mut j: usize = 0;
    while j < 8
        invariant
            j <= 8,
            forall|k: int| 0 <= k < j ==> (#[trigger] f32_nonnegative_integer(t@[k])) is Some
                && values@[k] == saturate_to_u64(integer_of(t@[k])),
        decreases 8 - j,
    {
        match nonnegative_integer(t[j]) {
            Some(v) => {
                values[j] = v;
            },
            None => {
                return false;
            },
        }
        j = j + 1;
    }
    assert(f32_nonnegative_integer(t@[3]) is Some && f32_nonnegative_integer(t@[4]) is Some);
    if values[3] > 5 || values[4] >= source_count as u64 {
        return false;
    }
    let depth = match nonnegative_integer(t[8]) {
        Some(d) => d,
        None => {
            return false;
        },
    };
    if depth > 12 {
        return false;
    }
    let path = match nonnegative_integer(t[9]) {
        Some(p) => p,
        None => {
            return false;
        },
    };
    proof {
        lemma2_to64();
        vstd::bits::lemma_u64_shl_is_mul(1u64, (2 * depth) as u64);
    }
    let bound: u64 = 1u64 << (2 * depth);
    if path >= bound {
        return false;
    }
    (t[10] as usize) < subject_count && t[11] == 0
}

/// Whether the source records repeat the model's corner vertices.
fn source_faces_ok(sources: &Vec<[u32; 52]>, faces: &Vec<Vec<u32>>) -> (ok: bool)
    requires
        forall|i: int| 0 <= i < faces@.len() ==> (#[trigger] faces@[i])@.len() <= 13,
    ensures
        ok == source_faces_match(sources@, faces@),
{
    let n = if sources.len() < faces.len() {
        sources.len()
    } else {
        faces.len()
    };
    let mut i: usize = 0;
    while i < n
        invariant
            i <= n,
            n <= sources@.len(),
            n <= faces@.len(),
            n == sources@.len() || n == faces@.len(),
            forall|f: int| 0 <= f < faces@.len() ==> (#[trigger] faces@[f])@.len() <= 13,
            forall|f: int, c: int|
                0 <= f < i && 0 <= c < faces@[f]@.len() ==> {
                    let v = f32_nonnegative_integer(#[trigger] sources@[f]@[4 * c]);
                    &&& v is Some
                    &&& (if integer_of(sources@[f]@[4 * c]) > u32::MAX {
                        u32::MAX as int
                    } else {
                        integer_of(sources@[f]@[4 * c])
                    }) == faces@[f]@[c]
                },
        decreases n - i,
    {
        let source = sources[i];
        let corners = &faces[i];
        let mut c: usize = 0;
        while c < corners.len()
            invariant
                i < n,
                n <= sources@.len(),
                n <= faces@.len(),
                source == sources@[i as int],
                corners@ == faces@[i as int]@,
                corners@.len() <= 13,
                c <= corners@.len(),
                forall|f: int, k: int|
                    0 <= f < i && 0 <= k < faces@[f]@.len() ==> {
                        let v = f32_nonnegative_integer(#[trigger] sources@[f]@[4 * k]);
                        &&& v is Some
                        &&& (if integer_of(sources@[f]@[4 * k]) > u32::MAX {
                            u32::MAX as int
                        } else {
                            integer_of(sources@[f]@[4 * k])
                        }) == faces@[f]@[k]
                    },
                forall|k: int|
                    0 <= k < c ==> {
                        let v = f32_nonnegative_integer(#[trigger] sources@[i as int]@[4 * k]);
                        &&& v is Some
                        &&& (if integer_of(sources@[i as int]@[4 * k]) > u32::MAX {
                            u32::MAX as int
                        } else {
                            integer_of(sources@[i as int]@[4 * k])
                        }) == faces@[i as int]@[k]
                    },
            decreases corners@.len() - c,
        {
            let value = match nonnegative_integer(source[4 * c]) {
                Some(v) => v,
                None => {
                    return false;
                },
            };
            let converted: u32 = if value > u32::MAX as u64 {
                u32::MAX
            } else {
                value as u32
            };
            if converted != corners[c] {
                return false;
            }
            c = c + 1;
        }
        i = i + 1;
    }
    true
}

/// Validate a packed preparation scene against its resident model; any
/// mismatch or malformed record is a payload error.
pub fn validate_patch_preparation_scene(
    words: &PatchPreparationSceneWords,
    model: &PreparedModelShape,
) -> (r: Result<(), LodWebGpuError>)
    requires
        forall|i: int| 0 <= i < model.faces@.len() ==> (#[trigger] model.faces@[i])@.len() <= 13,
    ensures
        r is Ok <==> preparation_scene_valid(*words, *model),
        r matches Err(e) ==> e is Payload,
{
    if model.num_morph_targets > u32::MAX as usize {
        return Err(LodWebGpuError::payload("patch morph target count exceeds u32"));
    }
    let morph_targets = model.num_morph_targets as u32;
    if words.uniform[1] != model.num_vertices || words.uniform[2] != 0 || words.uniform[3]
        != morph_targets || words.topology.len() != words.uniform[0] as usize
        || words.source_faces.len() != model.num_faces || words.subjects.len() == 0 {
        return Err(LodWebGpuError::payload("patch preparation scene shape is malformed"));
    }
    let source_count = words.source_faces.len();
    let subject_count = words.subjects.len();
    let mut p: usize = 0;
    while p < words.topology.len()
        invariant
            p <= words.topology@.len(),
            source_count == words.source_faces@.len(),
            subject_count == words.subjects@.len(),
            forall|k: int|
                0 <= k < p ==> topology_record_valid(
                    #[trigger] words.topology@[k],
                    source_count as int,
                    subject_count as int,
                ),
        decreases words.topology@.len() - p,
    {
        if !topology_record_ok(words.topology[p], source_count, subject_count) {
            return Err(LodWebGpuError::payload("patch preparation topology is malformed"));
        }
        p = p + 1;
    }
    if !source_faces_ok(&words.source_faces, &model.faces) {
        return Err(
            LodWebGpuError::payload(
                "patch preparation source face does not match the resident model",
            ),
        );
    }
    let mut i: usize = 0;
    while i < words.source_faces.len()
        invariant
            i <= words.source_faces@.len(),
            forall|f: int, k: int|
                0 <= f < i && 0 <= k < 52 ==> f32_bits_finite(#[trigger] words.source_faces@[f]@[k]),
        decreases words.source_faces@.len() - i,
    {
        if !all_finite_bits(words.source_faces[i].as_slice()) {
            return Err(
                LodWebGpuError::payload("patch preparation source contains non-finite values"),
            );
        }
        i = i + 1;
    }
    let mut s: usize = 0;
    while s < words.subjects.len()
        invariant
            s <= words.subjects@.len(),
            forall|f: int, k: int|
                0 <= f < words.source_faces@.len() && 0 <= k < 52 ==> f32_bits_finite(
                    #[trigger] words.source_faces@[f]@[k],
                ),
            forall|f: int, k: int|
                0 <= f < s && 0 <= k < 32 ==> f32_bits_finite(#[trigger] words.subjects@[f]@[k]),
        decreases words.subjects@.len() - s,
    {
        if !all_finite_bits(words.subjects[s].as_slice()) {
            return Err(
                LodWebGpuError::payload("patch preparation source contains non-finite values"),
            );
        }
        s = s + 1;
    }
    Ok(())
}

/// Bytes of one prepared-patch record written by the preparation pass.
pub const PREPARED_PATCH_RECORD_BYTES: u64 = 208;

/// Sizes of the device state of one preparation scene.
#[derive(Clone, Copy, Debug, PartialEq, Eq, Structural)]
pub struct PatchPreparationSizes {
    pub subject_count: u32,
    /// Bytes of the prepared-record buffer (room for at least one record).
    pub prepared_bytes: u64,
}

/// Size a preparation scene of `patch_count` patches and `subject_len`
/// subject rows; a subject count beyond `u32` is a payload error.
pub fn patch_preparation_sizes(patch_count: u32, subject_len: usize) -> (r: Result<
    PatchPreparationSizes,
    LodWebGpuError,
>)
    ensures
        r is Ok <==> subject_len <= u32::MAX,
        r matches Ok(sizes) ==> {
            &&& sizes.subject_count == subject_len
            &&& sizes.prepared_bytes == 208 * (if patch_count == 0 {
                1
            } else {
                patch_count as int
            })
        },
        r matches Err(e) ==> e is Payload,
{
    if subject_len > u32::MAX as usize {
        return Err(LodWebGpuError::payload("patch subject count exceeds u32"));
    }
    let records: u64 = if patch_count == 0 {
        1
    } else {
        patch_count as u64
    };
    Ok(
        PatchPreparationSizes {
            subject_count: subject_len as u32,
            prepared_bytes: records * PREPARED_PATCH_RECORD_BYTES,
        },
    )
}

/// The preparation uniform with its dynamic joint-count word replaced.
pub fn with_joint_count(uniform: [u32; 4], num_joints: u32) -> (r: [u32; 4])
    ensures
        r@ == uniform@.update(2, num_joints),
{
    let mut words = uniform;
    words[2] = num_joints;
    assert(words@ =~= uniform@.update(2, num_joints));
    words
}

} // verus!
