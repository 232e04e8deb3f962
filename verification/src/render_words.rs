//! Word layouts of the patch renderer's frame-global, per-domain, and PBR
//! material records.
//!
//! Floating-point inputs are carried as their IEEE-754 binary32 bit patterns,
//! which are also exactly the words the shaders read. Finiteness and sign are
//! decided on those bit patterns.

use vstd::prelude::*;
use crate::error::LodWebGpuError;
use crate::frame_table::{
    lemma_row_in_bounds, lemma_with_row_rows, recorded_counters,
    FrameTableMemoDiagnostics, FrameTablePublication, RetainedFrameTable,
};
use crate::pbr::{channel_mask, pbr_texture_reference_mask, referenced_channels, PbrTextureReferences};

verus! {

/// Words of the frame-global render record.
pub const PATCH_RENDER_GLOBAL_WORDS: usize = 44;
/// Bytes of the frame-global render record.
pub const PATCH_RENDER_GLOBAL_BYTES: u64 = 176;
/// Words of one per-domain render record.
pub const PATCH_RENDER_DOMAIN_WORDS: usize = 20;
/// Bytes of one per-domain render record.
pub const PATCH_RENDER_DOMAIN_BYTES: u64 = 80;
/// Words of one PBR material record.
pub const PATCH_PBR_MATERIAL_WORDS: usize = 40;
/// Bytes of one PBR material record.
pub const PATCH_PBR_MATERIAL_BYTES: u64 = 160;
/// Bit pattern of `1.0f32`.
pub const F32_ONE_BITS: u32 = 0x3f80_0000;

/// A binary32 bit pattern denotes a finite value (its exponent is not all
/// ones).
pub open spec fn f32_bits_finite(bits: u32) -> bool {
    (bits >> 23u32) & 0xffu32 != 0xffu32
}

/// A binary32 bit pattern denotes NaN.
pub open spec fn f32_bits_nan(bits: u32) -> bool {
    !f32_bits_finite(bits) && bits & 0x007f_ffffu32 != 0
}

/// Two binary32 bit patterns compare equal as floats: neither is NaN, and
/// they are identical or both zero.
pub open spec fn f32_bits_eq(a: u32, b: u32) -> bool {
    !f32_bits_nan(a) && !f32_bits_nan(b) && (a == b || (a | b) & 0x7fff_ffffu32 == 0)
}

/// Whether a binary32 bit pattern is finite.
pub fn is_finite_bits(bits: u32) -> (finite: bool)
    ensures
        finite == f32_bits_finite(bits),
{
    (bits >> 23u32) & 0xffu32 != 0xffu32
}

/// Whether two binary32 bit patterns compare equal as floats.
pub fn float_bits_eq(a: u32, b: u32) -> (eq: bool)
    ensures
        eq == f32_bits_eq(a, b),
{
    let a_nan = (a >> 23u32) & 0xffu32 == 0xffu32 && a & 0x007f_ffffu32 != 0;
    let b_nan = (b >> 23u32) & 0xffu32 == 0xffu32 && b & 0x007f_ffffu32 != 0;
    !a_nan && !b_nan && (a == b || (a | b) & 0x7fff_ffffu32 == 0)
}

/// Every bit pattern of a slice is finite.
pub fn all_finite_bits(values: &[u32]) -> (finite: bool)
    ensures
        finite == forall|i: int| 0 <= i < values@.len() ==> f32_bits_finite(#[trigger] values@[i]),
{
    let mut i: usize = 0;
    while i < values.len()
        invariant
            i <= values@.len(),
            forall|k: int| 0 <= k < i ==> f32_bits_finite(#[trigger] values@[k]),
        decreases values@.len() - i,
    {
        if !is_finite_bits(values[i]) {
            return false;
        }
        i = i + 1;
    }
    true
}

/// Every pair of bit patterns at the same position compares equal as floats.
pub fn all_float_bits_eq(a: &[u32], b: &[u32]) -> (eq: bool)
    requires
        a@.len() == b@.len(),
    ensures
        eq == forall|i: int| 0 <= i < a@.len() ==> f32_bits_eq(#[trigger] a@[i], b@[i]),
{
    let mut i: usize = 0;
    while i < a.len()
        invariant
            i <= a@.len() == b@.len(),
            forall|k: int| 0 <= k < i ==> f32_bits_eq(#[trigger] a@[k], b@[k]),
        decreases a@.len() - i,
    {
        if !float_bits_eq(a[i], b[i]) {
            return false;
        }
        i = i + 1;
    }
    true
}

/// Focus sphere (center and radius) and whether focus shading is enabled.
#[derive(Clone, Copy, Debug, PartialEq, Eq)]
pub struct FocusFieldPacket {
    pub sphere: [u32; 4],
    pub enabled: bool,
}

/// Frame-global dynamic values consumed once by every prepared-surface
/// domain. Matrices are column-major; all real values are binary32 bit
/// patterns.
#[derive(Clone, Copy, Debug, PartialEq, Eq)]
pub struct PatchRenderGlobal {
    pub mvp: [u32; 16],
    pub mv: [u32; 16],
    pub use_qb: bool,
    /// The matcap style's shader code.
    pub matcap_style: u32,
    pub selected_node: Option<u32>,
    pub selected_face: Option<u32>,
    pub camera_position: [u32; 3],
    pub focus: FocusFieldPacket,
}

/// Batch/domain-local values: the conformal map (binary32 bit patterns) and
/// the material row.
#[derive(Clone, Copy, Debug, PartialEq, Eq)]
pub struct PatchRenderDomain {
    pub mobius: [u32; 16],
    pub material_slot: u32,
}

/// A frame-global record paired with one domain record.
#[derive(Clone, Copy, Debug, PartialEq, Eq)]
pub struct PatchRenderFrame {
    pub global: PatchRenderGlobal,
    pub domain: PatchRenderDomain,
}

/// `1` for true, `0` for false.
pub open spec fn bool_word(b: bool) -> u32 {
    if b {
        1
    } else {
        0
    }
}

/// An optional index, `u32::MAX` standing for none.
pub open spec fn index_or_max_word(index: Option<u32>) -> u32 {
    match index {
        Some(i) => i,
        None => u32::MAX,
    }
}

/// All real values of a global record are finite and the focus radius is
/// positive.
pub open spec fn global_valid(g: PatchRenderGlobal) -> bool {
    &&& forall|i: int| 0 <= i < 16 ==> f32_bits_finite(#[trigger] g.mvp@[i])
    &&& forall|i: int| 0 <= i < 16 ==> f32_bits_finite(#[trigger] g.mv@[i])
    &&& forall|i: int| 0 <= i < 3 ==> f32_bits_finite(#[trigger] g.camera_position@[i])
    &&& forall|i: int| 0 <= i < 4 ==> f32_bits_finite(#[trigger] g.focus.sphere@[i])
    &&& 0 < g.focus.sphere[3] < 0x7f80_0000
}

/// The 44 words of a global record: both matrices, the flags and selections,
/// the camera position, the focus flag as `0.0`/`1.0`, and the focus sphere.
pub open spec fn global_words(g: PatchRenderGlobal) -> Seq<u32> {
    g.mvp@ + g.mv@ + seq![
        bool_word(g.use_qb),
        g.matcap_style,
        index_or_max_word(g.selected_node),
        index_or_max_word(g.selected_face),
    ] + g.camera_position@ + seq![if g.focus.enabled {
        F32_ONE_BITS
    } else {
        0u32
    }] + g.focus.sphere@
}

/// The 20 words of a domain record: the conformal map, the material slot,
/// and three unused words.
pub open spec fn domain_words(d: PatchRenderDomain) -> Seq<u32> {
    d.mobius@ + seq![d.material_slot, 0u32, 0u32, 0u32]
}

/// All entries of a domain's conformal map are finite.
pub open spec fn domain_valid(d: PatchRenderDomain) -> bool {
    forall|i: int| 0 <= i < 16 ==> f32_bits_finite(#[trigger] d.mobius@[i])
}

/// Two global records agree under float comparison of their real values and
/// exact comparison of the rest.
pub open spec fn globals_agree(a: PatchRenderGlobal, b: PatchRenderGlobal) -> bool {
    &&& forall|i: int| 0 <= i < 16 ==> f32_bits_eq(#[trigger] a.mvp@[i], b.mvp@[i])
    &&& forall|i: int| 0 <= i < 16 ==> f32_bits_eq(#[trigger] a.mv@[i], b.mv@[i])
    &&& forall|i: int| 0 <= i < 3 ==> f32_bits_eq(#[trigger] a.camera_position@[i], b.camera_position@[i])
    &&& forall|i: int| 0 <= i < 4 ==> f32_bits_eq(#[trigger] a.focus.sphere@[i], b.focus.sphere@[i])
    &&& a.use_qb == b.use_qb
    &&& a.matcap_style == b.matcap_style
    &&& a.selected_node == b.selected_node
    &&& a.selected_face == b.selected_face
    &&& a.focus.enabled == b.focus.enabled
}

/// Copy `src` into `dest` starting at word `at`.
fn place<const N: usize>(dest: &mut [u32; 44], at: usize, src: [u32; N])
    requires
        at + N <= 44,
    ensures
        final(dest)@ == old(dest)@.subrange(0, at as int) + src@ + old(dest)@.subrange(
            at + N,
            44,
        ),
{
    let ghost before = dest@;
    let mut i: usize = 0;
    while i < N
        invariant
            at + N <= 44,
            i <= N,
            dest@.len() == 44,
            forall|k: int|
                0 <= k < 44 ==> #[trigger] dest@[k] == if at <= k < at + i {
                    src@[k - at]
                } else {
                    before[k]
                },
        decreases N - i,
    {
        dest[at + i] = src[i];
        i = i + 1;
    }
    assert(dest@ =~= before.subrange(0, at as int) + src@ + before.subrange(at + N, 44));
}

impl PatchRenderGlobal {
    /// The global record's words; non-finite values or a non-positive focus
    /// radius are a payload error.
    pub fn to_words(self) -> (r: Result<[u32; 44], LodWebGpuError>)
        ensures
            r is Ok <==> global_valid(self),
            r matches Ok(words) ==> words@ == global_words(self),
            r matches Err(e) ==> e is Payload,
    {
        let finite = all_finite_bits(self.mvp.as_slice()) && all_finite_bits(self.mv.as_slice())
            && all_finite_bits(self.camera_position.as_slice()) && all_finite_bits(
            self.focus.sphere.as_slice(),
        );
        let radius = self.focus.sphere[3];
        if !finite || radius == 0 || radius >= 0x7f80_0000 {
            return Err(LodWebGpuError::payload("patch render frame contains non-finite values"));
        }
        let mut words = [0u32; 44];
        place(&mut words, 0, self.mvp);
        place(&mut words, 16, self.mv);
        let selected_node = match self.selected_node {
            Some(n) => n,
            None => u32::MAX,
        };
        let selected_face = match self.selected_face {
            Some(f) => f,
            None => u32::MAX,
        };
        let use_qb: u32 = if self.use_qb {
            1
        } else {
            0
        };
        place(&mut words, 32, [use_qb, self.matcap_style, selected_node, selected_face]);
        place(&mut words, 36, self.camera_position);
        let enabled: u32 = if self.focus.enabled {
            F32_ONE_BITS
        } else {
            0
        };
        place(&mut words, 39, [enabled]);
        place(&mut words, 40, self.focus.sphere);
        assert(words@ =~= global_words(self));
        Ok(words)
    }

    /// Whether two global records agree (float comparison of real values).
    pub fn agrees_with(&self, other: &PatchRenderGlobal) -> (agree: bool)
        ensures
            agree == globals_agree(*self, *other),
    {
        all_float_bits_eq(self.mvp.as_slice(), other.mvp.as_slice()) && all_float_bits_eq(
            self.mv.as_slice(),
            other.mv.as_slice(),
        ) && all_float_bits_eq(self.camera_position.as_slice(), other.camera_position.as_slice())
            && all_float_bits_eq(self.focus.sphere.as_slice(), other.focus.sphere.as_slice())
            && self.use_qb == other.use_qb && self.matcap_style == other.matcap_style
            && self.selected_node == other.selected_node && self.selected_face
            == other.selected_face && self.focus.enabled == other.focus.enabled
    }
}

impl PatchRenderDomain {
    /// The domain record's words; a non-finite conformal map is a payload
    /// error.
    pub fn to_words(self) -> (r: Result<[u32; 20], LodWebGpuError>)
        ensures
            r is Ok <==> domain_valid(self),
            r matches Ok(words) ==> words@ == domain_words(self),
            r matches Err(e) ==> e is Payload,
    {
        if !all_finite_bits(self.mobius.as_slice()) {
            return Err(LodWebGpuError::payload("patch render domain contains non-finite values"));
        }
        let mut words = [0u32; 20];
        let mut i: usize = 0;
        while i < 16
            invariant
                i <= 16,
                forall|k: int| 0 <= k < i ==> words@[k] == self.mobius@[k],
                forall|k: int| 16 <= k < 20 ==> words@[k] == 0,
            decreases 16 - i,
        {
            words[i] = self.mobius[i];
            i = i + 1;
        }
        words[16] = self.material_slot;
        assert(words@ =~= domain_words(self));
        Ok(words)
    }
}

/// An authored PBR material: real factors as binary32 bit patterns, flags,
/// and texture references.
#[derive(Clone, Copy, Debug, PartialEq, Eq)]
pub struct PbrMaterial {
    pub base_color: [u32; 4],
    pub emissive_factor: [u32; 3],
    pub metallic: u32,
    pub roughness: u32,
    pub alpha_cutoff: u32,
    /// The alpha mode's shader value (a binary32 bit pattern).
    pub alpha_mode: u32,
    pub ior: u32,
    pub unlit: bool,
    pub double_sided: bool,
    pub has_specular: bool,
    pub has_sheen: bool,
    pub specular_color: [u32; 3],
    pub normal_scale: u32,
    pub sheen_color: [u32; 3],
    pub sheen_roughness: u32,
    pub normal_uv_scale: [u32; 2],
    pub normal_uv_offset: [u32; 2],
    pub normal_uv_rotation: u32,
    pub occlusion_strength: u32,
    pub base_uv_scale: [u32; 2],
    pub base_uv_rotation: u32,
    pub transmission_factor: u32,
    pub thickness_factor: u32,
    pub attenuation_distance: Option<u32>,
    pub attenuation_color: [u32; 3],
    pub textures: PbrTextureReferences,
}

/// The 40-word shader record of a material. Word 15 packs the sheen flag in
/// bit zero and the texture reference mask above it; an absent attenuation
/// distance is `0.0`; the last word is unused.
pub open spec fn material_words(m: PbrMaterial) -> Seq<u32> {
    m.base_color@ + m.emissive_factor@ + seq![
        m.metallic,
        m.roughness,
        m.alpha_cutoff,
        m.alpha_mode,
        m.ior,
        bool_word(m.unlit),
        bool_word(m.double_sided),
        bool_word(m.has_specular),
        (bool_word(m.has_sheen) + 2 * channel_mask(referenced_channels(m.textures))) as u32,
    ] + m.specular_color@ + seq![m.normal_scale] + m.sheen_color@ + seq![m.sheen_roughness]
        + m.normal_uv_scale@ + m.normal_uv_offset@ + seq![
        m.normal_uv_rotation,
        m.occlusion_strength,
    ] + m.base_uv_scale@ + seq![
        m.base_uv_rotation,
        m.transmission_factor,
        m.thickness_factor,
        match m.attenuation_distance {
            Some(d) => d,
            None => 0u32,
        },
    ] + m.attenuation_color@ + seq![0u32]
}

/// Copy `src` into the material record starting at word `at`.
fn place_material<const N: usize>(dest: &mut [u32; 40], at: usize, src: [u32; N])
    requires
        at + N <= 40,
    ensures
        final(dest)@ == old(dest)@.subrange(0, at as int) + src@ + old(dest)@.subrange(
            at + N,
            40,
        ),
{
    let ghost before = dest@;
    let mut i: usize = 0;
    while i < N
        invariant
            at + N <= 40,
            i <= N,
            dest@.len() == 40,
            forall|k: int|
                0 <= k < 40 ==> #[trigger] dest@[k] == if at <= k < at + i {
                    src@[k - at]
                } else {
                    before[k]
                },
        decreases N - i,
    {
        dest[at + i] = src[i];
        i = i + 1;
    }
    assert(dest@ =~= before.subrange(0, at as int) + src@ + before.subrange(at + N, 40));
}

fn flag_word(b: bool) -> (w: u32)
    ensures
        w == bool_word(b),
{
    if b {
        1
    } else {
        0
    }
}

/// The shader record of one authored material.
#[verifier::rlimit(40)]
pub fn patch_pbr_material_words(material: &PbrMaterial) -> (words: [u32; 40])
    ensures
        words@ == material_words(*material),
{
    let m = *material;
    let mask = pbr_texture_reference_mask(m.textures);
    proof {
        crate::pbr::lemma_channel_mask_bits(referenced_channels(m.textures));
    }
    let sheen = flag_word(m.has_sheen);
    assert(sheen | (mask << 1u32) == sheen + 2 * mask) by (bit_vector)
        requires
            sheen <= 1,
            mask < 64,
    ;
    let packed = sheen | (mask << 1u32);
    let attenuation = match m.attenuation_distance {
        Some(d) => d,
        None => 0,
    };
    let flags = [
        m.metallic,
        m.roughness,
        m.alpha_cutoff,
        m.alpha_mode,
        m.ior,
        flag_word(m.unlit),
        flag_word(m.double_sided),
        flag_word(m.has_specular),
        packed,
    ];
    let tail = [m.base_uv_rotation, m.transmission_factor, m.thickness_factor, attenuation];
    let mut words = [0u32; 40];
    place_material(&mut words, 0, m.base_color);
    let ghost acc = m.base_color@;
    assert(words@.subrange(0, 4) =~= acc);
    place_material(&mut words, 4, m.emissive_factor);
    let ghost acc = acc + m.emissive_factor@;
    assert(words@.subrange(0, 7) =~= acc);
    place_material(&mut words, 7, flags);
    let ghost acc = acc + flags@;
    assert(words@.subrange(0, 16) =~= acc);
    place_material(&mut words, 16, m.specular_color);
    let ghost acc = acc + m.specular_color@;
    assert(words@.subrange(0, 19) =~= acc);
    place_material(&mut words, 19, [m.normal_scale]);
    let ghost acc = acc + seq![m.normal_scale];
    assert(words@.subrange(0, 20) =~= acc);
    place_material(&mut words, 20, m.sheen_color);
    let ghost acc = acc + m.sheen_color@;
    assert(words@.subrange(0, 23) =~= acc);
    place_material(&mut words, 23, [m.sheen_roughness]);
    let ghost acc = acc + seq![m.sheen_roughness];
    assert(words@.subrange(0, 24) =~= acc);
    place_material(&mut words, 24, m.normal_uv_scale);
    let ghost acc = acc + m.normal_uv_scale@;
    assert(words@.subrange(0, 26) =~= acc);
    place_material(&mut words, 26, m.normal_uv_offset);
    let ghost acc = acc + m.normal_uv_offset@;
    assert(words@.subrange(0, 28) =~= acc);
    place_material(&mut words, 28, [m.normal_uv_rotation, m.occlusion_strength]);
    let ghost acc = acc + seq![m.normal_uv_rotation, m.occlusion_strength];
    assert(words@.subrange(0, 30) =~= acc);
    place_material(&mut words, 30, m.base_uv_scale);
    let ghost acc = acc + m.base_uv_scale@;
    assert(words@.subrange(0, 32) =~= acc);
    place_material(&mut words, 32, tail);
    let ghost acc = acc + tail@;
    assert(words@.subrange(0, 36) =~= acc);
    place_material(&mut words, 36, m.attenuation_color);
    let ghost acc = acc + m.attenuation_color@;
    assert(words@.subrange(0, 39) =~= acc);
    assert(words@[39] == 0);
    assert(flags@ =~= seq![
        m.metallic,
        m.roughness,
        m.alpha_cutoff,
        m.alpha_mode,
        m.ior,
        bool_word(m.unlit),
        bool_word(m.double_sided),
        bool_word(m.has_specular),
        (bool_word(m.has_sheen) + 2 * channel_mask(referenced_channels(m.textures))) as u32,
    ]);
    assert(words@ =~= acc + seq![0u32]);
    assert(words@ =~= material_words(m));
    words
}

/// The material table's words: one record per material, or the default
/// material's record alone for an empty table.
pub open spec fn material_table_words(materials: Seq<PbrMaterial>, default_material: PbrMaterial) -> Seq<u32> {
    if materials.len() == 0 {
        material_words(default_material)
    } else {
        materials.map_values(|m: PbrMaterial| material_words(m)).flatten()
    }
}

/// The records of the first `n` materials laid end to end.
proof fn lemma_material_records_prefix(materials: Seq<PbrMaterial>, n: int)
    requires
        0 <= n <= materials.len(),
    ensures
        ({
            let words = materials.subrange(0, n).map_values(|m: PbrMaterial| material_words(m)).flatten();
            &&& words.len() == 40 * n
            &&& forall|i: int|
                0 <= i < n ==> #[trigger] words.subrange(40 * i, 40 * i + 40) == material_words(
                    materials[i],
                )
        }),
    decreases n,
{
    let words = materials.subrange(0, n).map_values(|m: PbrMaterial| material_words(m)).flatten();
    if n == 0 {
        assert(materials.subrange(0, 0).map_values(|m: PbrMaterial| material_words(m)) =~= Seq::<
            Seq<u32>,
        >::empty());
        assert(words =~= Seq::<u32>::empty());
    } else {
        lemma_material_records_prefix(materials, n - 1);
        let prefix = materials.subrange(0, n - 1).map_values(|m: PbrMaterial| material_words(m));
        assert(materials.subrange(0, n).map_values(|m: PbrMaterial| material_words(m)) =~= prefix.push(
            material_words(materials[n - 1]),
        ));
        prefix.lemma_flatten_push(material_words(materials[n - 1]));
        let before = prefix.flatten();
        assert forall|i: int| 0 <= i < n implies #[trigger] words.subrange(40 * i, 40 * i + 40)
            == material_words(materials[i]) by {
            if i < n - 1 {
                assert(words.subrange(40 * i, 40 * i + 40) =~= before.subrange(40 * i, 40 * i + 40));
            } else {
                assert(words.subrange(40 * i, 40 * i + 40) =~= material_words(materials[n - 1]));
            }
        }
    }
}

/// A material table holds one 40-word record per material, material `i`'s
/// record in words `40 * i` up to `40 * i + 40`; an empty table holds the
/// default material's record alone. Either way it has `40 * max(n, 1)` words.
pub proof fn lemma_material_table_records(materials: Seq<PbrMaterial>, default_material: PbrMaterial)
    ensures
        material_table_words(materials, default_material).len() == 40 * (if materials.len() == 0 {
            1
        } else {
            materials.len() as int
        }),
        materials.len() == 0 ==> material_table_words(materials, default_material) == material_words(
            default_material,
        ),
        forall|i: int|
            0 <= i < materials.len() ==> #[trigger] material_table_words(
                materials,
                default_material,
            ).subrange(40 * i, 40 * i + 40) == material_words(materials[i]),
{
    if materials.len() > 0 {
        lemma_material_records_prefix(materials, materials.len() as int);
        assert(materials.subrange(0, materials.len() as int) =~= materials);
    }
}

/// Every material passed its own validation: `material_valid[i]` is the
/// outcome for `materials[i]` (a missing outcome counts as a failure).
pub open spec fn materials_validated(material_count: int, material_valid: Seq<bool>) -> bool {
    &&& material_count <= material_valid.len()
    &&& forall|i: int| 0 <= i < material_count ==> #[trigger] material_valid[i]
}

/// The words of a complete material table, in slot order; an empty table
/// uploads one record of `default_material`. A table too large to address,
/// or one with a material that failed its validation, is a payload error.
pub fn patch_pbr_material_table_words(
    materials: &[PbrMaterial],
    material_valid: &[bool],
    default_material: &PbrMaterial,
) -> (r: Result<Vec<u32>, LodWebGpuError>)
    ensures
        r is Ok <==> (if materials@.len() == 0 {
            1
        } else {
            materials@.len()
        }) * 40 <= usize::MAX && materials_validated(materials@.len() as int, material_valid@),
        r matches Ok(words) ==> words@ == material_table_words(materials@, *default_material),
        r matches Err(e) ==> e is Payload,
{
    let count = if materials.len() == 0 {
        1
    } else {
        materials.len()
    };
    if count > usize::MAX / 40 {
        return Err(LodWebGpuError::payload("PBR material table is too large"));
    }
    let mut words: Vec<u32> = Vec::new();
    if materials.len() == 0 {
        let record = patch_pbr_material_words(default_material);
        let mut k: usize = 0;
        while k < 40
            invariant
                k <= 40,
                words@ == record@.subrange(0, k as int),
            decreases 40 - k,
        {
            words.push(record[k]);
            k = k + 1;
        }
        assert(record@.subrange(0, 40) =~= record@);
        return Ok(words);
    }
    let mut i: usize = 0;
    while i < materials.len()
        invariant
            i <= materials@.len(),
            forall|j: int| 0 <= j < i ==> j < material_valid@.len() && #[trigger] material_valid@[j],
            words@ == materials@.subrange(0, i as int).map_values(
                |m: PbrMaterial| material_words(m),
            ).flatten(),
        decreases materials@.len() - i,
    {
        if i >= material_valid.len() || !material_valid[i] {
            proof {
                if i < material_valid@.len() {
                    assert(!material_valid@[i as int]);
                }
            }
            return Err(LodWebGpuError::payload("PBR material fails its validation"));
        }
        let record = patch_pbr_material_words(&materials[i]);
        let ghost before = words@;
        let mut k: usize = 0;
        while k < 40
            invariant
                k <= 40,
                words@ == before + record@.subrange(0, k as int),
                i < material_valid@.len() && material_valid@[i as int],
                forall|j: int| 0 <= j < i ==> j < material_valid@.len() && #[trigger] material_valid@[j],
            decreases 40 - k,
        {
            words.push(record[k]);
            k = k + 1;
        }
        proof {
            let prefix = materials@.subrange(0, i as int).map_values(|m: PbrMaterial| material_words(m));
            let next = materials@.subrange(0, i + 1).map_values(|m: PbrMaterial| material_words(m));
            assert(next =~= prefix.push(material_words(materials@[i as int])));
            prefix.lemma_flatten_push(material_words(materials@[i as int]));
            assert(record@.subrange(0, 40) =~= record@);
        }
        i = i + 1;
    }
    assert(materials@.subrange(0, materials@.len() as int) =~= materials@);
    assert(material_valid@[materials@.len() - 1]);
    assert(materials_validated(materials@.len() as int, material_valid@));
    Ok(words)
}

/// Every frame's global record agrees with the first frame's.
pub open spec fn frames_agree(frames: Seq<PatchRenderFrame>) -> bool {
    forall|i: int| 0 <= i < frames.len() ==> globals_agree(#[trigger] frames[i].global, frames[0].global)
}

/// A frame table is nonempty, agrees on its global record, and has one frame
/// per retained domain.
pub open spec fn frame_table_shape_ok(frames: Seq<PatchRenderFrame>, domain_count: u32) -> bool {
    &&& frames.len() > 0
    &&& frames_agree(frames)
    &&& frames.len() == domain_count
}

/// Number of leading frames whose domain record is valid.
pub open spec fn leading_valid_domains(frames: Seq<PatchRenderFrame>) -> nat
    decreases frames.len(),
{
    if frames.len() == 0 {
        0
    } else if leading_valid_domains(frames.drop_last()) < frames.len() - 1 {
        leading_valid_domains(frames.drop_last())
    } else if domain_valid(frames.last().domain) {
        frames.len()
    } else {
        (frames.len() - 1) as nat
    }
}

proof fn lemma_leading_valid_domains(frames: Seq<PatchRenderFrame>)
    ensures
        leading_valid_domains(frames) <= frames.len(),
        forall|j: int| 0 <= j < leading_valid_domains(frames) ==> domain_valid(#[trigger] frames[j].domain),
        leading_valid_domains(frames) < frames.len() ==> !domain_valid(
            frames[leading_valid_domains(frames) as int].domain,
        ),
    decreases frames.len(),
{
    if frames.len() > 0 {
        lemma_leading_valid_domains(frames.drop_last());
        assert forall|j: int| 0 <= j < frames.len() - 1 implies frames.drop_last()[j] == frames[j] by {}
    }
}

/// The table's publication for a frame: upload when it was unpublished or
/// `changed`, reuse otherwise.
pub open spec fn publication_for(table: RetainedFrameTable, changed: bool) -> FrameTablePublication {
    if !table.published_view() || changed {
        FrameTablePublication::Upload { bytes: table.byte_len_view() }
    } else {
        FrameTablePublication::Reuse
    }
}

/// The counters of a frame-table memo record: uploads, reuses, upload bytes.
pub open spec fn memo_counters(d: FrameTableMemoDiagnostics) -> (u64, u64, u64) {
    (d.uploads, d.reuses, d.upload_bytes)
}

/// When the first invalid domain is at `k`, exactly `k` domains lead valid.
proof fn lemma_leading_prefix(frames: Seq<PatchRenderFrame>, k: int)
    requires
        0 <= k < frames.len(),
        forall|j: int| 0 <= j < k ==> domain_valid(#[trigger] frames[j].domain),
        !domain_valid(frames[k].domain),
    ensures
        leading_valid_domains(frames) == k,
    decreases frames.len(),
{
    lemma_leading_valid_domains(frames);
    if k < frames.len() - 1 {
        assert forall|j: int| 0 <= j < frames.len() - 1 implies frames.drop_last()[j] == frames[j] by {}
        lemma_leading_prefix(frames.drop_last(), k);
    } else {
        assert forall|j: int| 0 <= j < frames.len() - 1 implies frames.drop_last()[j] == frames[j] by {}
        lemma_leading_all(frames.drop_last());
    }
}

/// When every domain is valid, all of them lead valid.
proof fn lemma_leading_all(frames: Seq<PatchRenderFrame>)
    requires
        forall|j: int| 0 <= j < frames.len() ==> domain_valid(#[trigger] frames[j].domain),
    ensures
        leading_valid_domains(frames) == frames.len(),
    decreases frames.len(),
{
    if frames.len() > 0 {
        assert forall|j: int| 0 <= j < frames.len() - 1 implies domain_valid(#[trigger] frames.drop_last()[j].domain) by {
            assert(frames.drop_last()[j] == frames[j]);
        }
        lemma_leading_all(frames.drop_last());
    }
}

/// Sizes of the per-scene tables of a patch render binding.
#[derive(Clone, Copy, Debug, PartialEq, Eq, Structural)]
pub struct PatchRenderBindingSizes {
    /// Bytes of the render-domain table, one row per batch.
    pub domain_bytes: u64,
    /// Words of its host staging table.
    pub domain_words: usize,
    /// Rows of the authored material table (one default row for none).
    pub material_count: u32,
}

/// Size the tables of a patch render binding: the prepared patches and the
/// visibility sources must form one nonempty shared domain with at least one
/// batch, the domain staging table must fit the address space, and the
/// material row count must fit `u32`.
pub fn patch_render_binding_sizes(
    patch_count: u32,
    source_count: u32,
    batch_count: u32,
    material_len: usize,
) -> (r: Result<PatchRenderBindingSizes, LodWebGpuError>)
    ensures
        r is Ok <==> {
            &&& patch_count != 0
            &&& source_count != 0
            &&& batch_count != 0
            &&& patch_count == source_count
            &&& batch_count * 20 <= usize::MAX
            &&& material_len <= u32::MAX
        },
        r matches Ok(sizes) ==> {
            &&& sizes.domain_bytes == batch_count * 80
            &&& sizes.domain_words == batch_count * 20
            &&& sizes.material_count == if material_len == 0 {
                1
            } else {
                material_len as int
            }
        },
        r matches Err(e) ==> e is Payload,
{
    if patch_count == 0 || source_count == 0 || batch_count == 0 || patch_count != source_count {
        return Err(
            LodWebGpuError::payload(
                "patch render bindings require one nonempty shared source-instance domain",
            ),
        );
    }
    let domain_bytes = batch_count as u64 * PATCH_RENDER_DOMAIN_BYTES;
    let domain_words = match (batch_count as usize).checked_mul(PATCH_RENDER_DOMAIN_WORDS) {
        Some(n) => n,
        None => {
            return Err(
                LodWebGpuError::payload("patch render domain staging table exceeds address space"),
            );
        },
    };
    let materials = if material_len == 0 {
        1
    } else {
        material_len
    };
    if materials > u32::MAX as usize {
        return Err(LodWebGpuError::payload("PBR material count exceeds u32"));
    }
    Ok(
        PatchRenderBindingSizes {
            domain_bytes,
            domain_words,
            material_count: materials as u32,
        },
    )
}

/// Stage the frame-global record of a complete frame table into its
/// retained table. The table must hold one frame per domain, all agreeing on
/// the global record, which must be valid; otherwise nothing is staged or
/// recorded. The commit's publication is recorded in `diagnostics`.
pub fn stage_patch_render_global(
    global_table: &mut RetainedFrameTable,
    frames: &[PatchRenderFrame],
    domain_count: u32,
    diagnostics: &mut FrameTableMemoDiagnostics,
) -> (r: Result<FrameTablePublication, LodWebGpuError>)
    requires
        old(global_table).wf(),
        old(global_table).row_words_view() == 44,
        old(global_table).words_view().len() == 44,
    ensures
        r is Ok <==> frame_table_shape_ok(frames@, domain_count) && global_valid(frames@[0].global),
        r matches Err(e) ==> e is Payload,
        r is Err ==> *final(global_table) == *old(global_table) && *final(diagnostics)
            == *old(diagnostics),
        r matches Ok(g) ==> {
            &&& g == publication_for(
                *old(global_table),
                old(global_table).row(0) != global_words(frames@[0].global),
            )
            &&& memo_counters(*final(diagnostics)) == recorded_counters(
                memo_counters(*old(diagnostics)),
                g,
            )
            &&& final(global_table).wf()
            &&& final(global_table).words_view() == global_words(frames@[0].global)
            &&& final(global_table).row_words_view() == 44
            &&& final(global_table).byte_len_view() == old(global_table).byte_len_view()
            &&& final(global_table).published_view()
        },
{
    if frames.len() == 0 {
        return Err(LodWebGpuError::payload("patch render frame table must be nonempty"));
    }
    let first = frames[0].global;
    let mut i: usize = 0;
    while i < frames.len()
        invariant
            i <= frames@.len(),
            first == frames@[0].global,
            forall|k: int| 0 <= k < i ==> globals_agree(#[trigger] frames@[k].global, first),
        decreases frames@.len() - i,
    {
        if !frames[i].global.agrees_with(&first) {
            return Err(
                LodWebGpuError::payload("patch render domains disagree on frame-global state"),
            );
        }
        i = i + 1;
    }
    if frames.len() != domain_count as usize {
        return Err(LodWebGpuError::payload("patch render domain table has the wrong record count"));
    }
    let global_words_now = first.to_words()?;
    let ghost old_global = *global_table;
    let must_upload = global_table.begin_update();
    let row_changed = global_table.replace_row(0, global_words_now.as_slice());
    let global_publication = global_table.commit(must_upload || row_changed);
    diagnostics.record(global_publication);
    proof {
        assert(global_table.words_view() =~= global_words(first)) by {
            assert(old_global.words_view().subrange(0, 0) =~= Seq::<u32>::empty());
            assert(old_global.words_view().subrange(44, 44) =~= Seq::<u32>::empty());
        }
    }
    assert(global_publication == publication_for(
        old_global,
        old_global.row(0) != global_words(first),
    ));
    Ok(global_publication)
}

/// Stage the domain records of a frame table of matching shape into the
/// retained domain table. The records are staged in order; a rejected record
/// invalidates the table (so its next stage uploads) and leaves it holding the
/// records staged before it, and nothing is recorded. On success the commit's
/// publication is recorded in `diagnostics`.
pub fn stage_patch_render_domains(
    domain_table: &mut RetainedFrameTable,
    frames: &[PatchRenderFrame],
    domain_count: u32,
    diagnostics: &mut FrameTableMemoDiagnostics,
) -> (r: Result<FrameTablePublication, LodWebGpuError>)
    requires
        frame_table_shape_ok(frames@, domain_count),
        old(domain_table).wf(),
        old(domain_table).row_words_view() == 20,
        old(domain_table).words_view().len() == 20 * domain_count,
    ensures
        r is Ok <==> forall|i: int| 0 <= i < frames@.len() ==> domain_valid(#[trigger] frames@[i].domain),
        r matches Err(e) ==> e is Payload,
        r is Err ==> *final(diagnostics) == *old(diagnostics),
        final(domain_table).wf(),
        final(domain_table).words_view().len() == old(domain_table).words_view().len(),
        final(domain_table).row_words_view() == 20,
        final(domain_table).byte_len_view() == old(domain_table).byte_len_view(),
        forall|j: int|
            0 <= j < frames@.len() ==> #[trigger] final(domain_table).row(j) == if j
                < leading_valid_domains(frames@) {
                domain_words(frames@[j].domain)
            } else {
                old(domain_table).row(j)
            },
        final(domain_table).published_view() == (leading_valid_domains(frames@) == frames@.len()),
        r matches Ok(d) ==> {
            &&& d == publication_for(
                *old(domain_table),
                exists|j: int|
                    0 <= j < frames@.len() && #[trigger] old(domain_table).row(j) != domain_words(
                        frames@[j].domain,
                    ),
            )
            &&& memo_counters(*final(diagnostics)) == recorded_counters(
                memo_counters(*old(diagnostics)),
                d,
            )
        },
{
    let ghost start = *domain_table;
    let ghost rw = 20int;
    let mut changed = domain_table.begin_update();
    let mut row: usize = 0;
    while row < frames.len()
        invariant
            rw == 20,
            start == *old(domain_table),
            *diagnostics == *old(diagnostics),
            frame_table_shape_ok(frames@, domain_count),
            domain_table.wf(),
            row <= frames@.len(),
            frames@.len() == domain_count,
            start.words_view().len() == 20 * domain_count,
            start.row_words_view() == 20,
            domain_table.words_view().len() == start.words_view().len(),
            domain_table.row_words_view() == 20,
            domain_table.byte_len_view() == start.byte_len_view(),
            domain_table.published_view() == start.published_view(),
            forall|j: int| 0 <= j < row ==> domain_valid(#[trigger] frames@[j].domain),
            forall|j: int|
                0 <= j < row ==> #[trigger] domain_table.row(j) == domain_words(frames@[j].domain),
            forall|j: int| row <= j < frames@.len() ==> #[trigger] domain_table.row(j) == start.row(j),
            changed == (!start.published_view() || exists|j: int|
                0 <= j < row && #[trigger] start.row(j) != domain_words(frames@[j].domain)),
        decreases frames@.len() - row,
    {
        let words = match frames[row].domain.to_words() {
            Ok(words) => words,
            Err(error) => {
                let ghost staged = *domain_table;
                domain_table.invalidate();
                proof {
                    lemma_leading_valid_domains(frames@);
                    lemma_leading_prefix(frames@, row as int);
                    assert forall|j: int| 0 <= j < frames@.len() implies #[trigger] domain_table.row(j)
                        == staged.row(j) by {}
                }
                return Err(error);
            },
        };
        let ghost before = *domain_table;
        proof {
            assert(domain_table.words_view().len() / 20 == domain_count) by {
                assert((20 * domain_count) / 20 == domain_count as int);
            }
            lemma_row_in_bounds(domain_table.words_view().len() as int, rw, row as int);
        }
        let replaced = domain_table.replace_row(row, words.as_slice());
        proof {
            assert forall|j: int| 0 <= j < frames@.len() implies #[trigger] domain_table.row(j) == if j
                == row {
                domain_words(frames@[j].domain)
            } else {
                before.row(j)
            } by {
                assert(before.words_view().len() / 20 == domain_count) by {
                    assert((20 * domain_count) / 20 == domain_count as int);
                }
                lemma_row_in_bounds(before.words_view().len() as int, rw, j);
                lemma_with_row_rows(before.words_view(), row as int, rw, words@, j);
            }
            assert(before.row(row as int) == start.row(row as int));
        }
        changed = changed || replaced;
        row = row + 1;
    }
    let ghost staged = *domain_table;
    let domain_publication = domain_table.commit(changed);
    diagnostics.record(domain_publication);
    proof {
        lemma_leading_valid_domains(frames@);
        lemma_leading_all(frames@);
        assert forall|j: int| 0 <= j < frames@.len() implies #[trigger] domain_table.row(j)
            == domain_words(frames@[j].domain) by {
            assert(staged.row(j) == domain_words(frames@[j].domain));
        }
    }
    Ok(domain_publication)
}

/// Stage one frame's global record and complete domain table into their
/// retained tables, reporting the publication of each. The table must hold
/// one frame per domain, all agreeing on the global record. Nothing is staged
/// when the table's shape or its global record is rejected; a rejected domain
/// record leaves the domain table unpublished, holding the records staged
/// before it. Each committed table's publication is recorded in
/// `diagnostics`: none when nothing is staged, only the global table's when a
/// domain record is rejected, both on success.
pub fn stage_patch_render_frames(
    global_table: &mut RetainedFrameTable,
    domain_table: &mut RetainedFrameTable,
    frames: &[PatchRenderFrame],
    domain_count: u32,
    diagnostics: &mut FrameTableMemoDiagnostics,
) -> (r: Result<(FrameTablePublication, FrameTablePublication), LodWebGpuError>)
    requires
        old(global_table).wf(),
        old(global_table).row_words_view() == 44,
        old(global_table).words_view().len() == 44,
        old(domain_table).wf(),
        old(domain_table).row_words_view() == 20,
        old(domain_table).words_view().len() == 20 * domain_count,
    ensures
        r is Ok <==> frame_table_shape_ok(frames@, domain_count) && global_valid(frames@[0].global)
            && forall|i: int| 0 <= i < frames@.len() ==> domain_valid(#[trigger] frames@[i].domain),
        r matches Err(e) ==> e is Payload,
        !(frame_table_shape_ok(frames@, domain_count) && global_valid(frames@[0].global)) ==> {
            &&& *final(global_table) == *old(global_table)
            &&& *final(domain_table) == *old(domain_table)
            &&& *final(diagnostics) == *old(diagnostics)
        },
        frame_table_shape_ok(frames@, domain_count) && global_valid(frames@[0].global) ==> {
            let global_publication = publication_for(
                *old(global_table),
                old(global_table).row(0) != global_words(frames@[0].global),
            );
            let after_global = recorded_counters(memo_counters(*old(diagnostics)), global_publication);
            &&& final(global_table).wf()
            &&& final(global_table).words_view() == global_words(frames@[0].global)
            &&& final(global_table).row_words_view() == 44
            &&& final(global_table).byte_len_view() == old(global_table).byte_len_view()
            &&& final(global_table).published_view()
            &&& final(domain_table).wf()
            &&& final(domain_table).words_view().len() == old(domain_table).words_view().len()
            &&& final(domain_table).row_words_view() == 20
            &&& final(domain_table).byte_len_view() == old(domain_table).byte_len_view()
            &&& forall|j: int|
                0 <= j < frames@.len() ==> #[trigger] final(domain_table).row(j) == if j
                    < leading_valid_domains(frames@) {
                    domain_words(frames@[j].domain)
                } else {
                    old(domain_table).row(j)
                }
            &&& final(domain_table).published_view() == (leading_valid_domains(frames@)
                == frames@.len())
            &&& r is Err ==> memo_counters(*final(diagnostics)) == after_global
            &&& r matches Ok((g, d)) ==> {
                &&& g == global_publication
                &&& d == publication_for(
                    *old(domain_table),
                    exists|j: int|
                        0 <= j < frames@.len() && #[trigger] old(domain_table).row(j)
                            != domain_words(frames@[j].domain),
                )
                &&& memo_counters(*final(diagnostics)) == recorded_counters(after_global, d)
            }
        },
{
    let global_publication = stage_patch_render_global(global_table, frames, domain_count, diagnostics)?;
    let domain_publication = stage_patch_render_domains(domain_table, frames, domain_count, diagnostics)?;
    Ok((global_publication, domain_publication))
}

/// Two recorded publications add exactly two to the upload and reuse counts
/// together, counted modulo 2^64 as the wrapping device counters are; while
/// neither count wraps, the sum grows by exactly two.
pub proof fn lemma_two_publications_counted(
    counters: (u64, u64, u64),
    first: FrameTablePublication,
    second: FrameTablePublication,
)
    ensures
        ({
            let after = recorded_counters(recorded_counters(counters, first), second);
            &&& (after.0 + after.1) % 0x1_0000_0000_0000_0000 == (counters.0 + counters.1 + 2)
                % 0x1_0000_0000_0000_0000
            &&& (counters.0 <= u64::MAX - 2 && counters.1 <= u64::MAX - 2) ==> after.0 + after.1
                == counters.0 + counters.1 + 2
        }),
{
}

/// An identical repeat of a successful frame reuses both device tables: the
/// tables a frame was just staged into hold its global and domain records
/// and are published, so staging the same frames again publishes two reuses
/// and adds exactly two to the wrapping reuse count, nothing to uploads or
/// bytes.
pub proof fn lemma_repeated_frames_reuse_both_tables(
    global_table: RetainedFrameTable,
    domain_table: RetainedFrameTable,
    frames: Seq<PatchRenderFrame>,
    counters: (u64, u64, u64),
)
    requires
        frames.len() > 0,
        global_table.row_words_view() == 44,
        global_table.words_view() == global_words(frames[0].global),
        global_table.published_view(),
        domain_table.published_view(),
        forall|j: int|
            0 <= j < frames.len() ==> #[trigger] domain_table.row(j) == domain_words(
                frames[j].domain,
            ),
    ensures
        publication_for(global_table, global_table.row(0) != global_words(frames[0].global))
            == FrameTablePublication::Reuse,
        publication_for(
            domain_table,
            exists|j: int|
                0 <= j < frames.len() && #[trigger] domain_table.row(j) != domain_words(
                    frames[j].domain,
                ),
        ) == FrameTablePublication::Reuse,
        recorded_counters(
            recorded_counters(counters, FrameTablePublication::Reuse),
            FrameTablePublication::Reuse,
        ).0 == counters.0,
        recorded_counters(
            recorded_counters(counters, FrameTablePublication::Reuse),
            FrameTablePublication::Reuse,
        ).1 as int == (counters.1 + 2) % 0x1_0000_0000_0000_0000,
        recorded_counters(
            recorded_counters(counters, FrameTablePublication::Reuse),
            FrameTablePublication::Reuse,
        ).2 == counters.2,
{
    assert(global_words(frames[0].global).len() == 44);
    assert(global_table.row(0) =~= global_table.words_view().subrange(0, 44));
    assert(global_table.words_view().subrange(0, 44) =~= global_table.words_view());
}

} // verus!
