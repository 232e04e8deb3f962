//! Residency of authored PBR material textures.
//!
//! A material references up to six texture channels by stable glTF index.
//! Residency evidence keeps authored references apart from the decoded
//! resources actually retained, so a referenced-but-missing image binds a
//! placeholder without shifting any texture index, and stays observable.

use vstd::prelude::*;
use crate::error::LodWebGpuError;
use crate::float_bits::{floor_log2, lemma_floor_log2_bounds, pow2};
use crate::render_words::PbrMaterial;

verus! {

pub const PBR_BASE_COLOR_TEXTURE_BIT: u32 = 1;
pub const PBR_METALLIC_ROUGHNESS_TEXTURE_BIT: u32 = 2;
pub const PBR_NORMAL_TEXTURE_BIT: u32 = 4;
pub const PBR_EMISSIVE_TEXTURE_BIT: u32 = 8;
pub const PBR_OCCLUSION_TEXTURE_BIT: u32 = 16;
pub const PBR_TRANSMISSION_TEXTURE_BIT: u32 = 32;
/// Texture channels of one material.
pub const PBR_TEXTURE_CHANNELS: usize = 6;
/// The portable atlas filters bilinearly in the shader.
pub const PORTABLE_PBR_ATLAS_USES_MANUAL_BILINEAR_FILTERING: bool = true;
/// The portable atlas filters trilinearly in the shader.
pub const PORTABLE_PBR_ATLAS_USES_MANUAL_TRILINEAR_FILTERING: bool = true;

/// Authored texture indices of one material's six channels.
#[derive(Clone, Copy, Debug, Default, PartialEq, Eq, Structural)]
pub struct PbrTextureReferences {
    pub base_color: Option<u32>,
    pub metallic_roughness: Option<u32>,
    pub normal: Option<u32>,
    pub emissive: Option<u32>,
    pub occlusion: Option<u32>,
    pub transmission: Option<u32>,
}

/// The channel references in bit order.
pub open spec fn channel_references(refs: PbrTextureReferences) -> Seq<Option<u32>> {
    seq![
        refs.base_color,
        refs.metallic_roughness,
        refs.normal,
        refs.emissive,
        refs.occlusion,
        refs.transmission,
    ]
}

/// `bit` when `present`, otherwise zero.
pub open spec fn bit_if(present: bool, bit: u32) -> u32 {
    if present {
        bit
    } else {
        0
    }
}

/// The mask with bit `k` set exactly for each channel `k` satisfying `pred`.
pub open spec fn channel_mask(present: Seq<bool>) -> u32 {
    (bit_if(present[0], 1) + bit_if(present[1], 2) + bit_if(present[2], 4) + bit_if(present[3], 8)
        + bit_if(present[4], 16) + bit_if(present[5], 32)) as u32
}

/// Which channels hold an authored reference.
pub open spec fn referenced_channels(refs: PbrTextureReferences) -> Seq<bool> {
    channel_references(refs).map_values(|r: Option<u32>| r is Some)
}

/// Whether `index` names an occupied slot of the texture table.
pub open spec fn slot_resident(occupancy: Option<Seq<bool>>, index: Option<u32>) -> bool {
    match (occupancy, index) {
        (Some(table), Some(slot)) => slot < table.len() && table[slot as int],
        _ => false,
    }
}

/// Which channels reference an occupied slot of the texture table.
pub open spec fn resident_channels(refs: PbrTextureReferences, occupancy: Option<Seq<bool>>) -> Seq<
    bool,
> {
    channel_references(refs).map_values(|r: Option<u32>| slot_resident(occupancy, r))
}

/// Bit `k` of a six-channel mask is set exactly when channel `k` is present.
pub proof fn lemma_channel_mask_bits(present: Seq<bool>)
    requires
        present.len() == 6,
    ensures
        channel_mask(present) < 64,
        forall|k: u32| k < 6 ==> ((channel_mask(present) >> k) & 1 == 1) == present[k as int],
{
    let m = channel_mask(present);
    let b0 = present[0];
    let b1 = present[1];
    let b2 = present[2];
    let b3 = present[3];
    let b4 = present[4];
    let b5 = present[5];
    assert(m == (if b0 { 1u32 } else { 0u32 }) + (if b1 { 2u32 } else { 0u32 }) + (if b2 { 4u32 } else { 0u32 }) + (if b3 { 8u32 } else { 0u32 }) + (if b4 { 16u32 } else { 0u32 }) + (if b5 { 32u32 } else { 0u32 }));
    assert(m < 64 && ((m >> 0u32) & 1 == 1) == b0 && ((m >> 1u32) & 1 == 1) == b1 && ((m >> 2u32) & 1 == 1) == b2 && ((m >> 3u32) & 1 == 1) == b3 && ((m >> 4u32) & 1 == 1) == b4 && ((m >> 5u32) & 1 == 1) == b5) by (bit_vector)
        requires
            m == (if b0 { 1u32 } else { 0u32 }) + (if b1 { 2u32 } else { 0u32 }) + (if b2 { 4u32 } else { 0u32 }) + (if b3 { 8u32 } else { 0u32 }) + (if b4 { 16u32 } else { 0u32 }) + (if b5 { 32u32 } else { 0u32 }),
    ;
    assert forall|k: u32| k < 6 implies ((m >> k) & 1 == 1) == present[k as int] by {
        if k == 0 {
        } else if k == 1 {
        } else if k == 2 {
        } else if k == 3 {
        } else if k == 4 {
        } else {
        }
    }
}

/// OR a channel bit into a mask holding only lower channel bits.
fn add_channel_bit(mask: u32, present: bool, bit: u32) -> (next: u32)
    requires
        bit == 1 || bit == 2 || bit == 4 || bit == 8 || bit == 16 || bit == 32,
        mask < bit,
    ensures
        next == mask + bit_if(present, bit),
{
    if present {
        assert(mask | bit == mask + bit) by (bit_vector)
            requires
                bit == 1u32 || bit == 2u32 || bit == 4u32 || bit == 8u32 || bit == 16u32 || bit
                    == 32u32,
                mask < bit,
        ;
        mask | bit
    } else {
        mask
    }
}

/// The mask of channels for which `present` holds, built in bit order.
fn mask_of_channels(present: [bool; 6]) -> (mask: u32)
    ensures
        mask == channel_mask(present@),
{
    let mut mask = add_channel_bit(0, present[0], PBR_BASE_COLOR_TEXTURE_BIT);
    mask = add_channel_bit(mask, present[1], PBR_METALLIC_ROUGHNESS_TEXTURE_BIT);
    mask = add_channel_bit(mask, present[2], PBR_NORMAL_TEXTURE_BIT);
    mask = add_channel_bit(mask, present[3], PBR_EMISSIVE_TEXTURE_BIT);
    mask = add_channel_bit(mask, present[4], PBR_OCCLUSION_TEXTURE_BIT);
    add_channel_bit(mask, present[5], PBR_TRANSMISSION_TEXTURE_BIT)
}

/// The mask of channels holding an authored texture reference.
pub fn pbr_texture_reference_mask(textures: PbrTextureReferences) -> (mask: u32)
    ensures
        mask == channel_mask(referenced_channels(textures)),
        (mask & PBR_BASE_COLOR_TEXTURE_BIT != 0) == (textures.base_color is Some),
        (mask & PBR_METALLIC_ROUGHNESS_TEXTURE_BIT != 0) == (textures.metallic_roughness is Some),
        (mask & PBR_NORMAL_TEXTURE_BIT != 0) == (textures.normal is Some),
        (mask & PBR_EMISSIVE_TEXTURE_BIT != 0) == (textures.emissive is Some),
        (mask & PBR_OCCLUSION_TEXTURE_BIT != 0) == (textures.occlusion is Some),
        (mask & PBR_TRANSMISSION_TEXTURE_BIT != 0) == (textures.transmission is Some),
{
    proof {
        lemma_reference_mask_names_each_channel(textures);
    }
    let present = [
        textures.base_color.is_some(),
        textures.metallic_roughness.is_some(),
        textures.normal.is_some(),
        textures.emissive.is_some(),
        textures.occlusion.is_some(),
        textures.transmission.is_some(),
    ];
    assert(present@ =~= referenced_channels(textures));
    mask_of_channels(present)
}

/// Per-material evidence separating authored references from resources that
/// were actually decoded and retained.
#[derive(Clone, Copy, Debug, Default, PartialEq, Eq, Structural)]
pub struct PbrMaterialTextureResidency {
    referenced_mask: u32,
    resident_mask: u32,
}

impl PbrMaterialTextureResidency {
    pub closed spec fn referenced_view(self) -> u32 {
        self.referenced_mask
    }

    pub closed spec fn resident_view(self) -> u32 {
        self.resident_mask
    }

    /// Channels with an authored texture reference.
    pub fn referenced_mask(self) -> (mask: u32)
        ensures
            mask == self.referenced_view(),
    {
        self.referenced_mask
    }

    /// Channels bound to a retained decoded texture.
    pub fn resident_mask(self) -> (mask: u32)
        ensures
            mask == self.resident_view(),
    {
        self.resident_mask
    }

    /// Referenced channels that fell back to a placeholder.
    pub fn unresolved_mask(self) -> (mask: u32)
        ensures
            mask == self.referenced_view() & !self.resident_view(),
    {
        self.referenced_mask & !self.resident_mask
    }
}

/// Whether `index` names an occupied slot of the (optional) texture table.
fn resolve_slot(occupancy: Option<&[bool]>, index: Option<u32>) -> (resident: bool)
    ensures
        resident == slot_resident(
            match occupancy {
                Some(t) => Some(t@),
                None => None,
            },
            index,
        ),
{
    match (occupancy, index) {
        (Some(table), Some(slot)) => {
            let slot = slot as usize;
            slot < table.len() && table[slot]
        },
        _ => false,
    }
}

/// The occupancy of an optional texture table as a sequence.
pub open spec fn occupancy_view(occupancy: Option<&[bool]>) -> Option<Seq<bool>> {
    match occupancy {
        Some(t) => Some(t@),
        None => None,
    }
}

/// Residency of one material against an optional texture table, given as
/// the occupancy of each stable texture slot: a channel is resident when it
/// references an in-range occupied slot.
pub fn material_texture_residency(
    textures: PbrTextureReferences,
    occupancy: Option<&[bool]>,
) -> (residency: PbrMaterialTextureResidency)
    ensures
        residency.referenced_view() == channel_mask(referenced_channels(textures)),
        residency.resident_view() == channel_mask(
            resident_channels(textures, occupancy_view(occupancy)),
        ),
        (residency.resident_view() & PBR_BASE_COLOR_TEXTURE_BIT != 0) == names_occupied_slot(
            occupancy_view(occupancy),
            textures.base_color,
        ),
        (residency.resident_view() & PBR_METALLIC_ROUGHNESS_TEXTURE_BIT != 0)
            == names_occupied_slot(occupancy_view(occupancy), textures.metallic_roughness),
        (residency.resident_view() & PBR_NORMAL_TEXTURE_BIT != 0) == names_occupied_slot(
            occupancy_view(occupancy),
            textures.normal,
        ),
        (residency.resident_view() & PBR_EMISSIVE_TEXTURE_BIT != 0) == names_occupied_slot(
            occupancy_view(occupancy),
            textures.emissive,
        ),
        (residency.resident_view() & PBR_OCCLUSION_TEXTURE_BIT != 0) == names_occupied_slot(
            occupancy_view(occupancy),
            textures.occlusion,
        ),
        (residency.resident_view() & PBR_TRANSMISSION_TEXTURE_BIT != 0) == names_occupied_slot(
            occupancy_view(occupancy),
            textures.transmission,
        ),
{
    proof {
        lemma_resident_mask_names_each_channel(textures, occupancy_view(occupancy));
    }
    let present = [
        resolve_slot(occupancy, textures.base_color),
        resolve_slot(occupancy, textures.metallic_roughness),
        resolve_slot(occupancy, textures.normal),
        resolve_slot(occupancy, textures.emissive),
        resolve_slot(occupancy, textures.occlusion),
        resolve_slot(occupancy, textures.transmission),
    ];
    assert(present@ =~= resident_channels(textures, occupancy_view(occupancy)));
    PbrMaterialTextureResidency {
        referenced_mask: pbr_texture_reference_mask(textures),
        resident_mask: mask_of_channels(present),
    }
}

/// Residency never claims a channel that was not referenced, so the
/// unresolved channels are exactly the referenced channels that are not
/// resident.
pub proof fn lemma_residency_within_references(
    textures: PbrTextureReferences,
    occupancy: Option<Seq<bool>>,
    k: u32,
)
    requires
        k < 6,
    ensures
        ((channel_mask(resident_channels(textures, occupancy)) >> k) & 1 == 1) ==> ((channel_mask(
            referenced_channels(textures),
        ) >> k) & 1 == 1),
        ((channel_mask(referenced_channels(textures)) >> k) & 1 == 1) && !((channel_mask(
            resident_channels(textures, occupancy),
        ) >> k) & 1 == 1) <==> (channel_references(textures)[k as int] is Some
            && !slot_resident(occupancy, channel_references(textures)[k as int])),
{
    lemma_channel_mask_bits(resident_channels(textures, occupancy));
    lemma_channel_mask_bits(referenced_channels(textures));
}

/// The named bits of a six-channel mask: bit `2^k` is set exactly when
/// channel `k` is present, and no bit above the sixth is set.
proof fn lemma_channel_mask_named_bits(present: Seq<bool>)
    requires
        present.len() == 6,
    ensures
        channel_mask(present) < 64,
        (channel_mask(present) & 1 != 0) == present[0],
        (channel_mask(present) & 2 != 0) == present[1],
        (channel_mask(present) & 4 != 0) == present[2],
        (channel_mask(present) & 8 != 0) == present[3],
        (channel_mask(present) & 16 != 0) == present[4],
        (channel_mask(present) & 32 != 0) == present[5],
{
    let m = channel_mask(present);
    let b0 = present[0];
    let b1 = present[1];
    let b2 = present[2];
    let b3 = present[3];
    let b4 = present[4];
    let b5 = present[5];
    assert(m == (if b0 { 1u32 } else { 0u32 }) + (if b1 { 2u32 } else { 0u32 }) + (if b2 { 4u32 } else { 0u32 }) + (if b3 { 8u32 } else { 0u32 }) + (if b4 { 16u32 } else { 0u32 }) + (if b5 { 32u32 } else { 0u32 }));
    assert(m < 64 && (m & 1 != 0) == b0 && (m & 2 != 0) == b1 && (m & 4 != 0) == b2 && (m & 8 != 0) == b3 && (m & 16 != 0) == b4 && (m & 32 != 0) == b5) by (bit_vector)
        requires
            m == (if b0 { 1u32 } else { 0u32 }) + (if b1 { 2u32 } else { 0u32 }) + (if b2 { 4u32 } else { 0u32 }) + (if b3 { 8u32 } else { 0u32 }) + (if b4 { 16u32 } else { 0u32 }) + (if b5 { 32u32 } else { 0u32 }),
    ;
}

/// Each channel of a material sets its own named bit of the referenced mask
/// (the mask `pbr_texture_reference_mask` returns and a residency reports as
/// referenced), and no other bit is set.
pub proof fn lemma_reference_mask_names_each_channel(textures: PbrTextureReferences)
    ensures
        ({
            let m = channel_mask(referenced_channels(textures));
            &&& m < 64
            &&& (m & PBR_BASE_COLOR_TEXTURE_BIT != 0) == (textures.base_color is Some)
            &&& (m & PBR_METALLIC_ROUGHNESS_TEXTURE_BIT != 0) == (textures.metallic_roughness is Some)
            &&& (m & PBR_NORMAL_TEXTURE_BIT != 0) == (textures.normal is Some)
            &&& (m & PBR_EMISSIVE_TEXTURE_BIT != 0) == (textures.emissive is Some)
            &&& (m & PBR_OCCLUSION_TEXTURE_BIT != 0) == (textures.occlusion is Some)
            &&& (m & PBR_TRANSMISSION_TEXTURE_BIT != 0) == (textures.transmission is Some)
        }),
{
    lemma_channel_mask_named_bits(referenced_channels(textures));
}

/// Whether a channel reference names an in-range occupied slot.
pub open spec fn names_occupied_slot(occupancy: Option<Seq<bool>>, index: Option<u32>) -> bool {
    &&& occupancy is Some
    &&& index is Some
    &&& index->Some_0 < occupancy->Some_0.len()
    &&& occupancy->Some_0[index->Some_0 as int]
}

/// Each channel of a material sets its own named bit of the resident mask
/// exactly when that channel's reference names an in-range occupied slot of
/// the texture table, and no other bit is set.
pub proof fn lemma_resident_mask_names_each_channel(
    textures: PbrTextureReferences,
    occupancy: Option<Seq<bool>>,
)
    ensures
        ({
            let m = channel_mask(resident_channels(textures, occupancy));
            &&& m < 64
            &&& (m & PBR_BASE_COLOR_TEXTURE_BIT != 0) == names_occupied_slot(
                occupancy,
                textures.base_color,
            )
            &&& (m & PBR_METALLIC_ROUGHNESS_TEXTURE_BIT != 0) == names_occupied_slot(
                occupancy,
                textures.metallic_roughness,
            )
            &&& (m & PBR_NORMAL_TEXTURE_BIT != 0) == names_occupied_slot(occupancy, textures.normal)
            &&& (m & PBR_EMISSIVE_TEXTURE_BIT != 0) == names_occupied_slot(
                occupancy,
                textures.emissive,
            )
            &&& (m & PBR_OCCLUSION_TEXTURE_BIT != 0) == names_occupied_slot(
                occupancy,
                textures.occlusion,
            )
            &&& (m & PBR_TRANSMISSION_TEXTURE_BIT != 0) == names_occupied_slot(
                occupancy,
                textures.transmission,
            )
        }),
{
    lemma_channel_mask_named_bits(resident_channels(textures, occupancy));
}

/// The portable texture record of a material holds each channel's texture
/// index in channel order (base color, metallic-roughness, normal, emissive,
/// occlusion, transmission), `u32::MAX` for a channel without one, then two
/// unused `u32::MAX` words.
pub proof fn lemma_texture_record_lists_each_channel(m: PbrTextureReferences)
    ensures
        ({
            let r = material_texture_record(m);
            &&& r.len() == 8
            &&& r[0] == (if m.base_color is Some { m.base_color->Some_0 } else { u32::MAX })
            &&& r[1] == (if m.metallic_roughness is Some {
                m.metallic_roughness->Some_0
            } else {
                u32::MAX
            })
            &&& r[2] == (if m.normal is Some { m.normal->Some_0 } else { u32::MAX })
            &&& r[3] == (if m.emissive is Some { m.emissive->Some_0 } else { u32::MAX })
            &&& r[4] == (if m.occlusion is Some { m.occlusion->Some_0 } else { u32::MAX })
            &&& r[5] == (if m.transmission is Some { m.transmission->Some_0 } else { u32::MAX })
            &&& r[6] == u32::MAX
            &&& r[7] == u32::MAX
        }),
{
}

/// The material in slot `slot` of a table, the table's default material
/// standing in for the single slot of an empty table.
pub open spec fn material_at(
    materials: Seq<PbrTextureReferences>,
    default_textures: PbrTextureReferences,
    slot: int,
) -> PbrTextureReferences {
    if slot < materials.len() {
        materials[slot]
    } else {
        default_textures
    }
}

/// Residency of every stable material slot; an empty material table has one
/// slot holding the default material.
pub fn material_residency_table(
    materials: &[PbrTextureReferences],
    default_textures: PbrTextureReferences,
    occupancy: Option<&[bool]>,
) -> (table: Vec<PbrMaterialTextureResidency>)
    ensures
        table@.len() == if materials@.len() == 0 {
            1
        } else {
            materials@.len()
        },
        forall|i: int|
            0 <= i < table@.len() ==> {
                let m = material_at(materials@, default_textures, i);
                &&& (#[trigger] table@[i]).referenced_view() == channel_mask(referenced_channels(m))
                &&& table@[i].resident_view() == channel_mask(
                    resident_channels(m, occupancy_view(occupancy)),
                )
            },
{
    let count = if materials.len() == 0 {
        1
    } else {
        materials.len()
    };
    let mut table: Vec<PbrMaterialTextureResidency> = Vec::new();
    let mut i: usize = 0;
    while i < count
        invariant
            i <= count,
            count == if materials@.len() == 0 {
                1
            } else {
                materials@.len()
            },
            table@.len() == i,
            forall|j: int|
                0 <= j < i ==> {
                    let m = material_at(materials@, default_textures, j);
                    &&& (#[trigger] table@[j]).referenced_view() == channel_mask(
                        referenced_channels(m),
                    )
                    &&& table@[j].resident_view() == channel_mask(
                        resident_channels(m, occupancy_view(occupancy)),
                    )
                },
        decreases count - i,
    {
        let material = if i < materials.len() {
            materials[i]
        } else {
            default_textures
        };
        table.push(material_texture_residency(material, occupancy));
        i = i + 1;
    }
    table
}

/// The portable material texture record: each channel's texture index or
/// `u32::MAX`, then two unused words.
pub open spec fn material_texture_record(m: PbrTextureReferences) -> Seq<u32> {
    channel_references(m).map_values(
        |r: Option<u32>|
            match r {
                Some(i) => i,
                None => u32::MAX,
            },
    ) + seq![u32::MAX, u32::MAX]
}

fn index_or_max(r: Option<u32>) -> (w: u32)
    ensures
        w == match r {
            Some(i) => i,
            None => u32::MAX,
        },
{
    match r {
        Some(i) => i,
        None => u32::MAX,
    }
}

/// One portable texture record per stable material slot (one default record
/// for an empty table).
pub fn portable_material_texture_records(
    materials: &[PbrTextureReferences],
    default_textures: PbrTextureReferences,
) -> (records: Vec<[u32; 8]>)
    ensures
        records@.len() == if materials@.len() == 0 {
            1
        } else {
            materials@.len()
        },
        forall|i: int|
            0 <= i < records@.len() ==> (#[trigger] records@[i])@ == material_texture_record(
                material_at(materials@, default_textures, i),
            ),
        forall|i: int|
            0 <= i < materials@.len() ==> {
                let m = #[trigger] materials@[i];
                &&& records@[i][0] == (if m.base_color is Some {
                    m.base_color->Some_0
                } else {
                    u32::MAX
                })
                &&& records@[i][1] == (if m.metallic_roughness is Some {
                    m.metallic_roughness->Some_0
                } else {
                    u32::MAX
                })
                &&& records@[i][2] == (if m.normal is Some { m.normal->Some_0 } else { u32::MAX })
                &&& records@[i][3] == (if m.emissive is Some {
                    m.emissive->Some_0
                } else {
                    u32::MAX
                })
                &&& records@[i][4] == (if m.occlusion is Some {
                    m.occlusion->Some_0
                } else {
                    u32::MAX
                })
                &&& records@[i][5] == (if m.transmission is Some {
                    m.transmission->Some_0
                } else {
                    u32::MAX
                })
            },
{
    let count = if materials.len() == 0 {
        1
    } else {
        materials.len()
    };
    let mut records: Vec<[u32; 8]> = Vec::new();
    let mut i: usize = 0;
    while i < count
        invariant
            i <= count,
            count == if materials@.len() == 0 {
                1
            } else {
                materials@.len()
            },
            records@.len() == i,
            forall|j: int|
                0 <= j < i ==> (#[trigger] records@[j])@ == material_texture_record(
                    material_at(materials@, default_textures, j),
                ),
        decreases count - i,
    {
        let m = if i < materials.len() {
            materials[i]
        } else {
            default_textures
        };
        let record = [
            index_or_max(m.base_color),
            index_or_max(m.metallic_roughness),
            index_or_max(m.normal),
            index_or_max(m.emissive),
            index_or_max(m.occlusion),
            index_or_max(m.transmission),
            u32::MAX,
            u32::MAX,
        ];
        assert(record@ =~= material_texture_record(m));
        records.push(record);
        i = i + 1;
    }
    proof {
        assert forall|i: int| 0 <= i < materials@.len() implies {
            let m = #[trigger] materials@[i];
            &&& records@[i][0] == (if m.base_color is Some { m.base_color->Some_0 } else { u32::MAX })
            &&& records@[i][1] == (if m.metallic_roughness is Some {
                m.metallic_roughness->Some_0
            } else {
                u32::MAX
            })
            &&& records@[i][2] == (if m.normal is Some { m.normal->Some_0 } else { u32::MAX })
            &&& records@[i][3] == (if m.emissive is Some { m.emissive->Some_0 } else { u32::MAX })
            &&& records@[i][4] == (if m.occlusion is Some { m.occlusion->Some_0 } else { u32::MAX })
            &&& records@[i][5] == (if m.transmission is Some {
                m.transmission->Some_0
            } else {
                u32::MAX
            })
        } by {
            assert(records@[i]@ == material_texture_record(materials@[i]));
            lemma_texture_record_lists_each_channel(materials@[i]);
        }
    }
    records
}

/// Outcome of an attempted allocation-preserving texture publication.
#[derive(Clone, Copy, Debug, PartialEq, Eq, Structural)]
pub enum PbrTextureTableUpdate {
    Updated,
    ShapeChanged,
}

/// Texture coordinate wrapping of one axis.
#[derive(Clone, Copy, Debug, PartialEq, Eq, Structural)]
pub enum TextureWrapMode {
    ClampToEdge,
    MirroredRepeat,
    Repeat,
}

/// Extent and wrapping of one decoded RGBA8 texture.
#[derive(Clone, Copy, Debug, PartialEq, Eq, Structural)]
pub struct TextureAssetDescriptor {
    pub width: u32,
    pub height: u32,
    pub wrap_s: TextureWrapMode,
    pub wrap_t: TextureWrapMode,
}

/// The portable shader's code for a wrap mode.
pub open spec fn portable_wrap_mode_spec(mode: TextureWrapMode) -> u32 {
    match mode {
        TextureWrapMode::ClampToEdge => 0,
        TextureWrapMode::MirroredRepeat => 1,
        TextureWrapMode::Repeat => 2,
    }
}

/// The portable shader's code for a wrap mode.
pub fn portable_wrap_mode(mode: TextureWrapMode) -> (code: u32)
    ensures
        code == portable_wrap_mode_spec(mode),
{
    match mode {
        TextureWrapMode::ClampToEdge => 0,
        TextureWrapMode::MirroredRepeat => 1,
        TextureWrapMode::Repeat => 2,
    }
}

/// An in-place update keeps the retained allocations only when the ordered
/// descriptor table is unchanged: same length, every retained slot occupied
/// with exactly the candidate's descriptor.
pub open spec fn same_texture_shape(
    assets: Seq<TextureAssetDescriptor>,
    retained: Seq<Option<TextureAssetDescriptor>>,
) -> bool {
    &&& assets.len() == retained.len()
    &&& forall|i: int| 0 <= i < assets.len() ==> retained[i] == Some(#[trigger] assets[i])
}

/// A retained slot holds exactly this descriptor: a texture of the same
/// width and height, sampled with the same wrap mode on both axes.
pub open spec fn retained_descriptor_is(
    retained: Option<TextureAssetDescriptor>,
    asset: TextureAssetDescriptor,
) -> bool {
    &&& retained is Some
    &&& retained->Some_0.width == asset.width
    &&& retained->Some_0.height == asset.height
    &&& retained->Some_0.wrap_s == asset.wrap_s
    &&& retained->Some_0.wrap_t == asset.wrap_t
}

/// Pixels are written in place only when every retained slot holds its
/// asset's whole descriptor, wrap modes included; a table of another length
/// or with any slot differing in size or wrap mode must be rebuilt.
pub proof fn lemma_in_place_texture_update_keeps_every_descriptor(
    assets: Seq<TextureAssetDescriptor>,
    retained: Seq<Option<TextureAssetDescriptor>>,
)
    ensures
        same_texture_shape(assets, retained) <==> (assets.len() == retained.len() && forall|i: int|
            0 <= i < assets.len() ==> retained_descriptor_is(retained[i], #[trigger] assets[i])),
{
    if assets.len() == retained.len() {
        assert((forall|i: int| 0 <= i < assets.len() ==> retained[i] == Some(#[trigger] assets[i]))
            <==> (forall|i: int|
            0 <= i < assets.len() ==> retained_descriptor_is(retained[i], #[trigger] assets[i]))) by {
            assert forall|i: int| 0 <= i < assets.len() implies (retained[i] == Some(assets[i])
                <==> retained_descriptor_is(retained[i], assets[i])) by {
                if retained_descriptor_is(retained[i], assets[i]) {
                    let r = retained[i]->Some_0;
                    assert(r == assets[i]);
                }
            }
        }
    }
}

/// Decide whether candidate descriptors can be published into a retained
/// table in place.
pub fn texture_table_update_kind(
    assets: &[TextureAssetDescriptor],
    retained: &[Option<TextureAssetDescriptor>],
) -> (update: PbrTextureTableUpdate)
    ensures
        (update == PbrTextureTableUpdate::Updated) == same_texture_shape(assets@, retained@),
        (update == PbrTextureTableUpdate::Updated) == (assets@.len() == retained@.len() && forall|
            i: int,
        |
            0 <= i < assets@.len() ==> retained_descriptor_is(retained@[i], #[trigger] assets@[i])),
{
    if assets.len() != retained.len() {
        return PbrTextureTableUpdate::ShapeChanged;
    }
    let mut i: usize = 0;
    while i < assets.len()
        invariant
            i <= assets@.len() == retained@.len(),
            forall|j: int| 0 <= j < i ==> retained@[j] == Some(#[trigger] assets@[j]),
        decreases assets@.len() - i,
    {
        let a = assets[i];
        let same = match retained[i] {
            Some(r) => r.width == a.width && r.height == a.height && r.wrap_s == a.wrap_s
                && r.wrap_t == a.wrap_t,
            None => false,
        };
        if !same {
            return PbrTextureTableUpdate::ShapeChanged;
        }
        i = i + 1;
    }
    proof {
        lemma_in_place_texture_update_keeps_every_descriptor(assets@, retained@);
    }
    PbrTextureTableUpdate::Updated
}

/// What one texture slot is checked against before upload: the extent its
/// descriptor declares, whether the asset passed its own validation, and,
/// for a decoded bitmap, the extent the bitmap really has.
#[derive(Clone, Copy, Debug, PartialEq, Eq)]
pub struct TextureSlotCheck {
    pub width: u32,
    pub height: u32,
    pub asset_valid: bool,
    pub source_extent: Option<[u32; 2]>,
}

/// Why a texture slot was refused.
#[derive(Clone, Copy, Debug, PartialEq, Eq, Structural)]
pub enum TextureSlotFaultKind {
    InvalidAsset,
    ExtentMismatch,
    ExceedsDeviceLimit,
}

/// The first refused slot of a texture table and why.
#[derive(Clone, Copy, Debug, PartialEq, Eq, Structural)]
pub struct TextureSlotFault {
    pub index: usize,
    pub kind: TextureSlotFaultKind,
}

/// The fault of one slot, checked in order: the asset's own validity, then
/// the bitmap's extent against the descriptor, then the device's largest 2D
/// texture dimension. An empty slot has none.
pub open spec fn texture_slot_fault(slot: Option<TextureSlotCheck>, maximum_dimension: u32) -> Option<
    TextureSlotFaultKind,
> {
    match slot {
        None => None,
        Some(s) => if !s.asset_valid {
            Some(TextureSlotFaultKind::InvalidAsset)
        } else if (s.source_extent matches Some(e) && (e[0] != s.width || e[1] != s.height)) {
            Some(TextureSlotFaultKind::ExtentMismatch)
        } else if s.width > maximum_dimension || s.height > maximum_dimension {
            Some(TextureSlotFaultKind::ExceedsDeviceLimit)
        } else {
            None
        },
    }
}

fn slot_fault(slot: Option<TextureSlotCheck>, maximum_dimension: u32) -> (fault: Option<
    TextureSlotFaultKind,
>)
    ensures
        fault == texture_slot_fault(slot, maximum_dimension),
{
    match slot {
        None => None,
        Some(s) => {
            if !s.asset_valid {
                return Some(TextureSlotFaultKind::InvalidAsset);
            }
            if let Some(e) = s.source_extent {
                if e[0] != s.width || e[1] != s.height {
                    return Some(TextureSlotFaultKind::ExtentMismatch);
                }
            }
            if s.width > maximum_dimension || s.height > maximum_dimension {
                Some(TextureSlotFaultKind::ExceedsDeviceLimit)
            } else {
                None
            }
        },
    }
}

/// Check a texture table's slots in order and report the first fault.
pub fn first_texture_slot_fault(slots: &[Option<TextureSlotCheck>], maximum_dimension: u32) -> (r:
    Option<TextureSlotFault>)
    ensures
        r is None <==> forall|i: int|
            0 <= i < slots@.len() ==> texture_slot_fault(#[trigger] slots@[i], maximum_dimension)
                is None,
        r matches Some(f) ==> {
            &&& f.index < slots@.len()
            &&& texture_slot_fault(slots@[f.index as int], maximum_dimension) == Some(f.kind)
            &&& forall|j: int|
                0 <= j < f.index ==> texture_slot_fault(#[trigger] slots@[j], maximum_dimension)
                    is None
        },
{
    let mut i: usize = 0;
    while i < slots.len()
        invariant
            i <= slots@.len(),
            forall|j: int|
                0 <= j < i ==> texture_slot_fault(#[trigger] slots@[j], maximum_dimension) is None,
        decreases slots@.len() - i,
    {
        if let Some(kind) = slot_fault(slots[i], maximum_dimension) {
            return Some(TextureSlotFault { index: i, kind });
        }
        i = i + 1;
    }
    None
}

/// Mip levels of a full chain down to 1x1 for a `width` x `height` image.
pub open spec fn texture_mip_level_count_spec(width: u32, height: u32) -> nat {
    let longest: nat = if width >= height {
        width as nat
    } else {
        height as nat
    };
    if longest == 0 {
        1
    } else {
        floor_log2(longest) + 1
    }
}

/// Mip levels of a full chain down to 1x1.
pub fn texture_mip_level_count(width: u32, height: u32) -> (count: u32)
    ensures
        count == texture_mip_level_count_spec(width, height),
        1 <= count <= 32,
{
    let longest = if width >= height {
        width
    } else {
        height
    };
    if longest == 0 {
        return 1;
    }
    let mut t = longest;
    let mut levels: u32 = 1;
    while t >= 2
        invariant
            1 <= t <= longest,
            levels + t <= longest + 1,
            floor_log2(longest as nat) + 1 == levels + floor_log2(t as nat),
        decreases t,
    {
        t = t / 2;
        levels = levels + 1;
    }
    proof {
        lemma_floor_log2_bounds(longest as nat);
        crate::float_bits::lemma_pow2_small();
        if floor_log2(longest as nat) >= 32 {
            crate::float_bits::lemma_pow2_monotone(32, floor_log2(longest as nat));
        }
    }
    levels
}

/// The descriptor of one mip level: both extents halved `mip_level` times,
/// never below one.
pub open spec fn mip_descriptor(d: TextureAssetDescriptor, mip_level: u32) -> TextureAssetDescriptor {
    let w = d.width as nat / pow2(mip_level as nat);
    let h = d.height as nat / pow2(mip_level as nat);
    TextureAssetDescriptor {
        width: if w == 0 {
            1
        } else {
            w as u32
        },
        height: if h == 0 {
            1
        } else {
            h as u32
        },
        ..d
    }
}

/// `value >> shift`, never below one.
fn halve_at_least_one(value: u32, shift: u32) -> (r: u32)
    requires
        shift < 32,
    ensures
        r == if value as nat / pow2(shift as nat) == 0 {
            1
        } else {
            (value as nat / pow2(shift as nat)) as u32
        },
{
    let mut v = value;
    let mut i: u32 = 0;
    assert(pow2(0) == 1) by {
        reveal_with_fuel(pow2, 1);
    }
    while i < shift
        invariant
            i <= shift,
            v as nat == value as nat / pow2(i as nat),
        decreases shift - i,
    {
        proof {
            crate::float_bits::lemma_pow2_positive(i as nat);
            assert(value as nat / pow2(i as nat) / 2 == value as nat / (pow2(i as nat) * 2)) by {
                vstd::arithmetic::div_mod::lemma_div_denominator(value as int, pow2(i as nat) as int, 2);
            }
        }
        v = v / 2;
        i = i + 1;
    }
    if v == 0 {
        1
    } else {
        v
    }
}

/// The descriptor of one mip level of a texture, rejecting a level outside
/// its chain.
pub fn texture_mip_descriptor(descriptor: TextureAssetDescriptor, mip_level: u32) -> (r: Result<
    TextureAssetDescriptor,
    LodWebGpuError,
>)
    ensures
        r is Ok <==> mip_level < texture_mip_level_count_spec(descriptor.width, descriptor.height),
        r matches Ok(d) ==> d == mip_descriptor(descriptor, mip_level),
        r matches Err(e) ==> e is Payload,
{
    let count = texture_mip_level_count(descriptor.width, descriptor.height);
    if mip_level >= count {
        return Err(LodWebGpuError::payload("PBR texture mip is outside its chain"));
    }
    Ok(
        TextureAssetDescriptor {
            width: halve_at_least_one(descriptor.width, mip_level),
            height: halve_at_least_one(descriptor.height, mip_level),
            ..descriptor
        },
    )
}

/// Allocation facts of a portable texture atlas plan, as the plan reports
/// them.
#[derive(Clone, Copy, Debug, Default, PartialEq, Eq)]
pub struct PortableAtlasPlanSummary {
    pub extent: [u32; 2],
    pub layer_count: u32,
    pub source_texels: u64,
    pub allocated_texels: u64,
    pub utilization_millionths: u32,
    pub source_mip_texels: u64,
    pub allocated_mip_texels: u64,
    pub mip_utilization_millionths: u32,
}

/// Allocation and filtering facts for one retained PBR texture table,
/// describing the resources that were actually created.
#[derive(Clone, Copy, Debug, Default, PartialEq, Eq)]
pub struct PbrTextureTableDiagnostics {
    pub texture_slots: usize,
    pub occupied_images: usize,
    pub individual_min_mip_level_count: u32,
    pub individual_max_mip_level_count: u32,
    pub individual_allocated_mip_texels: u64,
    pub portable_atlas_extent: [u32; 2],
    pub portable_atlas_layers: u32,
    pub portable_atlas_source_texels: u64,
    pub portable_atlas_allocated_texels: u64,
    pub portable_atlas_utilization_millionths: u32,
    pub portable_atlas_source_mip_texels: u64,
    pub portable_atlas_allocated_mip_texels: u64,
    pub portable_atlas_mip_utilization_millionths: u32,
    pub portable_atlas_mip_level_count: u32,
    pub portable_atlas_uses_manual_bilinear_filtering: bool,
    pub portable_atlas_uses_manual_trilinear_filtering: bool,
    pub total_allocated_mip_texels: u64,
    pub total_allocated_bytes: u64,
}

/// `value`, or `u64::MAX` where it does not fit.
pub open spec fn saturate_u64(value: int) -> u64 {
    if value > u64::MAX {
        u64::MAX
    } else {
        value as u64
    }
}

/// Diagnostics of a texture table: the individual mip texels are the plan's
/// source mip texels, totals add the atlas allocation (saturating), and bytes
/// count four per RGBA8 texel (saturating).
pub fn pbr_texture_table_diagnostics(
    texture_slots: usize,
    occupied_images: usize,
    individual_min_mip_level_count: u32,
    individual_max_mip_level_count: u32,
    plan: &PortableAtlasPlanSummary,
    portable_atlas_mip_level_count: u32,
) -> (d: PbrTextureTableDiagnostics)
    ensures
        d.texture_slots == texture_slots,
        d.occupied_images == occupied_images,
        d.individual_min_mip_level_count == individual_min_mip_level_count,
        d.individual_max_mip_level_count == individual_max_mip_level_count,
        d.individual_allocated_mip_texels == plan.source_mip_texels,
        d.portable_atlas_extent == plan.extent,
        d.portable_atlas_layers == plan.layer_count,
        d.portable_atlas_source_texels == plan.source_texels,
        d.portable_atlas_allocated_texels == plan.allocated_texels,
        d.portable_atlas_utilization_millionths == plan.utilization_millionths,
        d.portable_atlas_source_mip_texels == plan.source_mip_texels,
        d.portable_atlas_allocated_mip_texels == plan.allocated_mip_texels,
        d.portable_atlas_mip_utilization_millionths == plan.mip_utilization_millionths,
        d.portable_atlas_mip_level_count == portable_atlas_mip_level_count,
        d.portable_atlas_uses_manual_bilinear_filtering,
        d.portable_atlas_uses_manual_trilinear_filtering,
        d.total_allocated_mip_texels == saturate_u64(
            plan.source_mip_texels + plan.allocated_mip_texels,
        ),
        d.total_allocated_bytes == saturate_u64(
            saturate_u64(plan.source_mip_texels + plan.allocated_mip_texels) * 4,
        ),
{
    let total = plan.source_mip_texels.saturating_add(plan.allocated_mip_texels);
    let bytes = if total > u64::MAX / 4 {
        u64::MAX
    } else {
        total * 4
    };
    PbrTextureTableDiagnostics {
        texture_slots,
        occupied_images,
        individual_min_mip_level_count,
        individual_max_mip_level_count,
        individual_allocated_mip_texels: plan.source_mip_texels,
        portable_atlas_extent: plan.extent,
        portable_atlas_layers: plan.layer_count,
        portable_atlas_source_texels: plan.source_texels,
        portable_atlas_allocated_texels: plan.allocated_texels,
        portable_atlas_utilization_millionths: plan.utilization_millionths,
        portable_atlas_source_mip_texels: plan.source_mip_texels,
        portable_atlas_allocated_mip_texels: plan.allocated_mip_texels,
        portable_atlas_mip_utilization_millionths: plan.mip_utilization_millionths,
        portable_atlas_mip_level_count,
        portable_atlas_uses_manual_bilinear_filtering:
            PORTABLE_PBR_ATLAS_USES_MANUAL_BILINEAR_FILTERING,
        portable_atlas_uses_manual_trilinear_filtering:
            PORTABLE_PBR_ATLAS_USES_MANUAL_TRILINEAR_FILTERING,
        total_allocated_mip_texels: total,
        total_allocated_bytes: bytes,
    }
}

/// Number of occupied slots of a texture table.
pub open spec fn occupied_count(slots: Seq<Option<u32>>) -> nat
    decreases slots.len(),
{
    if slots.len() == 0 {
        0
    } else {
        occupied_count(slots.drop_last()) + if slots.last() is Some {
            1nat
        } else {
            0nat
        }
    }
}

/// Whether `(min, max)` is the range of the mip level counts of the occupied
/// slots, `(0, 0)` when no slot is occupied.
pub open spec fn is_mip_level_range(slots: Seq<Option<u32>>, min: u32, max: u32) -> bool {
    if forall|i: int| 0 <= i < slots.len() ==> (#[trigger] slots[i]) is None {
        min == 0 && max == 0
    } else {
        &&& exists|i: int| 0 <= i < slots.len() && #[trigger] slots[i] == Some(min)
        &&& exists|i: int| 0 <= i < slots.len() && #[trigger] slots[i] == Some(max)
        &&& forall|i: int|
            0 <= i < slots.len() && (#[trigger] slots[i]) is Some ==> min <= slots[i]->0 <= max
    }
}

/// The occupied-slot count and the mip level count range of the resources of
/// a texture table, given each slot's mip level count (`None` for an empty
/// slot).
pub fn texture_table_occupancy(mip_level_counts: &[Option<u32>]) -> (r: (usize, u32, u32))
    ensures
        r.0 == occupied_count(mip_level_counts@),
        is_mip_level_range(mip_level_counts@, r.1, r.2),
{
    let mut occupied: usize = 0;
    let mut min: u32 = 0;
    let mut max: u32 = 0;
    let mut i: usize = 0;
    while i < mip_level_counts.len()
        invariant
            i <= mip_level_counts@.len(),
            occupied == occupied_count(mip_level_counts@.subrange(0, i as int)),
            occupied <= i,
            is_mip_level_range(mip_level_counts@.subrange(0, i as int), min, max),
        decreases mip_level_counts@.len() - i,
    {
        let ghost prefix = mip_level_counts@.subrange(0, i as int);
        let ghost next = mip_level_counts@.subrange(0, i + 1);
        assert(next =~= prefix.push(mip_level_counts@[i as int]));
        assert(next.drop_last() =~= prefix);
        proof {
            if occupied > 0 {
                lemma_unoccupied_count_zero(prefix);
            } else {
                if exists|k: int| 0 <= k < prefix.len() && (#[trigger] prefix[k]) is Some {
                    let k = choose|k: int| 0 <= k < prefix.len() && (#[trigger] prefix[k]) is Some;
                    lemma_occupied_count_positive(prefix, k);
                }
            }
        }
        let ghost old_min = min;
        let ghost old_max = max;
        match mip_level_counts[i] {
            Some(count) => {
                if occupied == 0 {
                    min = count;
                    max = count;
                } else {
                    if count < min {
                        min = count;
                    }
                    if count > max {
                        max = count;
                    }
                }
                occupied = occupied + 1;
            },
            None => {},
        }
        proof {
            lemma_range_step(prefix, mip_level_counts@[i as int], old_min, old_max, min, max);
        }
        i = i + 1;
    }
    assert(mip_level_counts@.subrange(0, i as int) =~= mip_level_counts@);
    (occupied, min, max)
}

/// A sequence with no occupied slot has occupied count zero; one with an
/// occupied count of zero has no occupied slot.
proof fn lemma_unoccupied_count_zero(slots: Seq<Option<u32>>)
    ensures
        (occupied_count(slots) == 0) <==> (forall|i: int|
            0 <= i < slots.len() ==> (#[trigger] slots[i]) is None),
    decreases slots.len(),
{
    if slots.len() > 0 {
        lemma_unoccupied_count_zero(slots.drop_last());
        if occupied_count(slots) == 0 {
            assert forall|i: int| 0 <= i < slots.len() implies (#[trigger] slots[i]) is None by {
                if i < slots.len() - 1 {
                    assert(slots.drop_last()[i] == slots[i]);
                }
            }
        } else if slots.last() is None {
            let k = choose|k: int|
                0 <= k < slots.drop_last().len() && !(#[trigger] slots.drop_last()[k] is None);
            assert(slots[k] == slots.drop_last()[k]);
        }
    }
}

/// Extending a prefix by one slot updates its mip level range as the scan
/// does: the first occupied slot sets both ends, later ones widen them.
proof fn lemma_range_step(
    prefix: Seq<Option<u32>>,
    slot: Option<u32>,
    min: u32,
    max: u32,
    next_min: u32,
    next_max: u32,
)
    requires
        is_mip_level_range(prefix, min, max),
        match slot {
            None => next_min == min && next_max == max,
            Some(c) => if forall|k: int| 0 <= k < prefix.len() ==> (#[trigger] prefix[k]) is None {
                next_min == c && next_max == c
            } else {
                next_min == if c < min {
                    c
                } else {
                    min
                } && next_max == if c > max {
                    c
                } else {
                    max
                }
            },
        },
    ensures
        is_mip_level_range(prefix.push(slot), next_min, next_max),
{
    let next = prefix.push(slot);
    assert(forall|k: int| 0 <= k < prefix.len() ==> next[k] == prefix[k]);
    assert(next[prefix.len() as int] == slot);
    if forall|k: int| 0 <= k < prefix.len() ==> (#[trigger] prefix[k]) is None {
        match slot {
            None => {
                assert(forall|k: int| 0 <= k < next.len() ==> (#[trigger] next[k]) is None);
            },
            Some(c) => {
                assert(next[prefix.len() as int] == Some(next_min));
                assert(next[prefix.len() as int] == Some(next_max));
            },
        }
    } else {
        let w = choose|k: int| 0 <= k < prefix.len() && !(#[trigger] prefix[k] is None);
        assert(!(next[w] is None));
        let a = choose|k: int| 0 <= k < prefix.len() && #[trigger] prefix[k] == Some(min);
        let b = choose|k: int| 0 <= k < prefix.len() && #[trigger] prefix[k] == Some(max);
        assert(next[a] == prefix[a]);
        assert(next[b] == prefix[b]);
        match slot {
            None => {},
            Some(c) => {
                if c < min {
                    assert(next[prefix.len() as int] == Some(next_min));
                } else {
                    assert(next[a] == Some(next_min));
                }
                if c > max {
                    assert(next[prefix.len() as int] == Some(next_max));
                } else {
                    assert(next[b] == Some(next_max));
                }
            },
        }
    }
}

/// A sequence with an occupied slot has a positive occupied count.
proof fn lemma_occupied_count_positive(slots: Seq<Option<u32>>, k: int)
    requires
        0 <= k < slots.len(),
        slots[k] is Some,
    ensures
        occupied_count(slots) > 0,
    decreases slots.len(),
{
    if k < slots.len() - 1 {
        lemma_occupied_count_positive(slots.drop_last(), k);
    }
}

/// A full mip chain ends in a single texel: the last level of a texture's
/// chain is 1x1, whatever its aspect ratio.
pub proof fn lemma_last_mip_is_one_texel(descriptor: TextureAssetDescriptor)
    ensures
        ({
            let last = (texture_mip_level_count_spec(descriptor.width, descriptor.height) - 1) as u32;
            &&& mip_descriptor(descriptor, last).width == 1
            &&& mip_descriptor(descriptor, last).height == 1
        }),
{
    let w = descriptor.width as nat;
    let h = descriptor.height as nat;
    let longest: nat = if w >= h {
        w
    } else {
        h
    };
    if longest == 0 {
        assert(pow2(0) == 1) by {
            reveal_with_fuel(pow2, 1);
        }
    } else {
        let k = floor_log2(longest);
        lemma_floor_log2_bounds(longest);
        crate::float_bits::lemma_pow2_positive(k);
        let p = pow2(k);
        assert(pow2(k + 1) == 2 * p);
        assert(longest / p == 1) by (nonlinear_arith)
            requires
                p <= longest < 2 * p,
                p >= 1,
        ;
        assert(w / p <= 1 && h / p <= 1) by (nonlinear_arith)
            requires
                w <= longest,
                h <= longest,
                longest < 2 * p,
                p >= 1,
        ;
        assert((k + 1 - 1) as u32 == k) by {
            lemma_floor_log2_bounds(longest);
            crate::float_bits::lemma_pow2_small();
            if k >= 32 {
                crate::float_bits::lemma_pow2_monotone(32, k);
            }
        }
    }
}

/// Every material's referenced channels are resident.
pub open spec fn all_materials_resolved(residency: Seq<PbrMaterialTextureResidency>) -> bool {
    forall|i: int|
        0 <= i < residency.len() ==> (#[trigger] residency[i]).referenced_view() & !residency[i].resident_view() == 0
}

/// No material references any texture.
pub open spec fn all_materials_untextured(residency: Seq<PbrMaterialTextureResidency>) -> bool {
    forall|i: int| 0 <= i < residency.len() ==> (#[trigger] residency[i]).referenced_view() == 0
}

/// A resident scene can run an authored PBR frame exactly (no lowering, no
/// substituted resource) when the frame's material subset is supported
/// (`frame_supported`, as [`supports_basic_pbr_frame`] or
/// [`supports_focus_pbr_frame`] decides for the frame), the
/// material textures are resident with no unresolved channel, and a resident
/// environment is bound.
pub fn supports_resident_pbr_frame(
    frame_supported: bool,
    residency: Option<&[PbrMaterialTextureResidency]>,
    environment_resident: Option<bool>,
) -> (supported: bool)
    ensures
        supported == (frame_supported && (residency matches Some(r) && all_materials_resolved(
            r@,
        )) && environment_resident == Some(true)),
{
    if !frame_supported {
        return false;
    }
    let resolved = match residency {
        None => false,
        Some(table) => {
            let mut i: usize = 0;
            let mut all = true;
            while i < table.len()
                invariant
                    i <= table@.len(),
                    all == forall|k: int|
                        0 <= k < i ==> (#[trigger] table@[k]).referenced_view() & !table@[k].resident_view() == 0,
                decreases table@.len() - i,
            {
                if table[i].unresolved_mask() != 0 {
                    all = false;
                }
                i = i + 1;
            }
            all
        },
    };
    resolved && matches!(environment_resident, Some(true))
}

/// An adaptive overlay can use the resident untextured PBR path when its
/// scene supports PBR, no material references a texture, and a resident
/// environment is bound.
pub fn supports_resident_untextured_pbr(
    scene_supported: bool,
    residency: Option<&[PbrMaterialTextureResidency]>,
    environment_resident: Option<bool>,
) -> (supported: bool)
    ensures
        supported == (scene_supported && (residency matches Some(r) && all_materials_untextured(
            r@,
        )) && environment_resident == Some(true)),
{
    if !scene_supported {
        return false;
    }
    let untextured = match residency {
        None => false,
        Some(table) => {
            let mut i: usize = 0;
            let mut all = true;
            while i < table.len()
                invariant
                    i <= table@.len(),
                    all == forall|k: int| 0 <= k < i ==> (#[trigger] table@[k]).referenced_view() == 0,
                decreases table@.len() - i,
            {
                if table[i].referenced_mask() != 0 {
                    all = false;
                }
                i = i + 1;
            }
            all
        },
    };
    untextured && matches!(environment_resident, Some(true))
}

/// Where one texture mip level sits in the portable atlas.
#[derive(Clone, Copy, Debug, PartialEq, Eq)]
pub struct AtlasPlacement {
    pub origin: [u32; 2],
    pub layer: u32,
}

/// The portable descriptor record of an occupied texture slot: extent, wrap
/// codes, mip level count, first placement record, and an occupied flag.
pub open spec fn atlas_descriptor_record(
    d: TextureAssetDescriptor,
    slot: int,
    atlas_mip_levels: int,
) -> Seq<u32> {
    seq![
        d.width,
        d.height,
        portable_wrap_mode_spec(d.wrap_s),
        portable_wrap_mode_spec(d.wrap_t),
        texture_mip_level_count_spec(d.width, d.height) as u32,
        (slot * atlas_mip_levels) as u32,
        1u32,
        0u32,
    ]
}

/// The portable placement record of one mip level: origin, layer, and a
/// present flag.
pub open spec fn atlas_placement_record(p: AtlasPlacement) -> Seq<u32> {
    seq![p.origin[0], p.origin[1], p.layer, 1u32]
}

/// The plan holds an entry for every mip level of every occupied slot, and
/// reserves at least that many placement records per slot.
pub open spec fn atlas_plan_covers(
    descriptors: Seq<Option<TextureAssetDescriptor>>,
    atlas_mip_levels: int,
    placements: Seq<Vec<Option<AtlasPlacement>>>,
) -> bool {
    forall|slot: int|
        0 <= slot < descriptors.len() && (#[trigger] descriptors[slot]) is Some ==> {
            let n = texture_mip_level_count_spec(
                descriptors[slot]->0.width,
                descriptors[slot]->0.height,
            ) as int;
            &&& n <= atlas_mip_levels
            &&& n <= placements.len()
            &&& forall|mip: int| 0 <= mip < n ==> slot < (#[trigger] placements[mip])@.len()
        }
}

/// The records can be built: their count fits `usize`, every occupied slot's
/// first placement record fits `u32`, and every mip level of every occupied
/// slot has a placement.
pub open spec fn atlas_records_available(
    descriptors: Seq<Option<TextureAssetDescriptor>>,
    atlas_mip_levels: int,
    placements: Seq<Vec<Option<AtlasPlacement>>>,
) -> bool {
    &&& descriptors.len() * atlas_mip_levels <= usize::MAX
    &&& forall|slot: int|
        0 <= slot < descriptors.len() && (#[trigger] descriptors[slot]) is Some ==> {
            &&& slot * atlas_mip_levels <= u32::MAX
            &&& forall|mip: int|
                0 <= mip < texture_mip_level_count_spec(
                    descriptors[slot]->0.width,
                    descriptors[slot]->0.height,
                ) ==> (#[trigger] placements[mip])@[slot] is Some
        }
}

/// The expected descriptor record of slot `slot` (zeros for an empty slot).
pub open spec fn expected_descriptor_record(
    descriptors: Seq<Option<TextureAssetDescriptor>>,
    slot: int,
    atlas_mip_levels: int,
) -> Seq<u32> {
    match descriptors[slot] {
        Some(d) => atlas_descriptor_record(d, slot, atlas_mip_levels),
        None => Seq::new(8, |k: int| 0u32),
    }
}

/// The expected placement record of mip `mip` of slot `slot` (zeros past the
/// slot's chain or for an empty slot).
pub open spec fn expected_placement_record(
    descriptors: Seq<Option<TextureAssetDescriptor>>,
    placements: Seq<Vec<Option<AtlasPlacement>>>,
    slot: int,
    mip: int,
) -> Seq<u32> {
    match descriptors[slot] {
        Some(d) => if mip < texture_mip_level_count_spec(d.width, d.height) {
            atlas_placement_record(placements[mip]@[slot]->0)
        } else {
            Seq::new(4, |k: int| 0u32)
        },
        None => Seq::new(4, |k: int| 0u32),
    }
}

/// Descriptor records (one per slot, at least one) and mip placement records
/// (`atlas_mip_levels` per slot, at least one) of the portable atlas.
pub fn portable_atlas_records(
    descriptors: &[Option<TextureAssetDescriptor>],
    atlas_mip_levels: u32,
    placements: &[Vec<Option<AtlasPlacement>>],
) -> (r: Result<(Vec<[u32; 8]>, Vec<[u32; 4]>), LodWebGpuError>)
    requires
        atlas_plan_covers(descriptors@, atlas_mip_levels as int, placements@),
    ensures
        r is Ok <==> atlas_records_available(descriptors@, atlas_mip_levels as int, placements@),
        r matches Err(e) ==> e is Payload,
        r matches Ok((records, mips)) ==> {
            &&& records@.len() == if descriptors@.len() == 0 {
                1
            } else {
                descriptors@.len()
            }
            &&& forall|slot: int|
                0 <= slot < descriptors@.len() ==> (#[trigger] records@[slot])@
                    == expected_descriptor_record(descriptors@, slot, atlas_mip_levels as int)
            &&& descriptors@.len() == 0 ==> records@[0]@ == Seq::new(8, |k: int| 0u32)
            &&& mips@.len() == if descriptors@.len() * atlas_mip_levels == 0 {
                1
            } else {
                descriptors@.len() * atlas_mip_levels
            }
            &&& forall|slot: int, mip: int|
                0 <= slot < descriptors@.len() && 0 <= mip < atlas_mip_levels ==> (
                #[trigger] mips@[slot * atlas_mip_levels + mip])@ == expected_placement_record(
                    descriptors@,
                    placements@,
                    slot,
                    mip,
                )
            &&& descriptors@.len() * atlas_mip_levels == 0 ==> mips@[0]@ == Seq::new(
                4,
                |k: int| 0u32,
            )
        },
{
    let len = descriptors.len();
    let levels = atlas_mip_levels as usize;
    let total = match len.checked_mul(levels) {
        Some(t) => t,
        None => {
            return Err(
                LodWebGpuError::payload("portable PBR mip placement count overflowed usize"),
            );
        },
    };
    let mut records: Vec<[u32; 8]> = Vec::new();
    let mut mips: Vec<[u32; 4]> = Vec::new();
    let mut slot: usize = 0;
    while slot < len
        invariant
            len == descriptors@.len(),
            levels == atlas_mip_levels,
            total == len * levels,
            atlas_plan_covers(descriptors@, atlas_mip_levels as int, placements@),
            slot <= len,
            records@.len() == slot,
            mips@.len() == slot * levels,
            forall|s: int|
                0 <= s < slot ==> (#[trigger] records@[s])@ == expected_descriptor_record(
                    descriptors@,
                    s,
                    levels as int,
                ),
            forall|s: int, m: int|
                0 <= s < slot && 0 <= m < levels ==> (#[trigger] mips@[s * levels + m])@
                    == expected_placement_record(descriptors@, placements@, s, m),
            forall|s: int|
                0 <= s < slot && (#[trigger] descriptors@[s]) is Some ==> {
                    &&& s * levels <= u32::MAX
                    &&& forall|mip: int|
                        0 <= mip < texture_mip_level_count_spec(
                            descriptors@[s]->0.width,
                            descriptors@[s]->0.height,
                        ) ==> (#[trigger] placements@[mip])@[s] is Some
                },
        decreases len - slot,
    {
        assert(slot * levels + levels <= total) by (nonlinear_arith)
            requires
                slot < len,
                total == len * levels,
        ;
        let base = slot * levels;
        let mip_count: usize = match descriptors[slot] {
            Some(d) => {
                if base > u32::MAX as usize {
                    proof {
                        assert(!atlas_records_available(descriptors@, atlas_mip_levels as int, placements@)) by {
                            assert(descriptors@[slot as int] is Some);
                        }
                    }
                    return Err(
                        LodWebGpuError::payload("portable PBR mip placement offset exceeded u32"),
                    );
                }
                let count = texture_mip_level_count(d.width, d.height);
                records.push(
                    [
                        d.width,
                        d.height,
                        portable_wrap_mode(d.wrap_s),
                        portable_wrap_mode(d.wrap_t),
                        count,
                        base as u32,
                        1,
                        0,
                    ],
                );
                count as usize
            },
            None => {
                records.push([0u32; 8]);
                0
            },
        };
        proof {
            assert(records@[slot as int]@ =~= expected_descriptor_record(descriptors@, slot as int, levels as int));
            assert(descriptors@[slot as int] is Some ==> mip_count <= levels);
        }
        proof {
            assert forall|s: int, m: int| 0 <= s < slot && 0 <= m < levels implies #[trigger] (s
                * levels + m) < base by {
                assert(s * levels + m < slot * levels) by (nonlinear_arith)
                    requires
                        0 <= s < slot,
                        0 <= m < levels,
                ;
            }
        }
        let mut mip: usize = 0;
        while mip < levels
            invariant
                forall|s: int, m: int| 0 <= s < slot && 0 <= m < levels ==> #[trigger] (s * levels + m) < base,
                len == descriptors@.len(),
                levels == atlas_mip_levels,
                slot < len,
                base == slot * levels,
                base + levels <= total,
                total == len * levels,
                atlas_plan_covers(descriptors@, atlas_mip_levels as int, placements@),
                mip_count == match descriptors@[slot as int] {
                    Some(d) => texture_mip_level_count_spec(d.width, d.height) as int,
                    None => 0int,
                },
                mip_count <= levels,
                mip <= levels,
                mips@.len() == base + mip,
                forall|s: int, m: int|
                    0 <= s < slot && 0 <= m < levels ==> (#[trigger] mips@[s * levels + m])@
                        == expected_placement_record(descriptors@, placements@, s, m),
                forall|m: int|
                    0 <= m < mip ==> (#[trigger] mips@[base + m])@ == expected_placement_record(
                        descriptors@,
                        placements@,
                        slot as int,
                        m,
                    ),
                forall|m: int| 0 <= m < mip && m < mip_count ==> (#[trigger] placements@[m])@[slot as int] is Some,
            decreases levels - mip,
        {
            if mip < mip_count {
                let column = &placements[mip];
                match column[slot] {
                    Some(p) => {
                        mips.push([p.origin[0], p.origin[1], p.layer, 1]);
                    },
                    None => {
                        proof {
                            assert(!atlas_records_available(descriptors@, atlas_mip_levels as int, placements@)) by {
                                assert(descriptors@[slot as int] is Some);
                                assert(placements@[mip as int]@[slot as int] is None);
                            }
                        }
                        return Err(
                            LodWebGpuError::payload("portable PBR texture mip has no placement"),
                        );
                    },
                }
            } else {
                mips.push([0u32; 4]);
            }
            proof {
                assert(mips@[base + mip]@ =~= expected_placement_record(descriptors@, placements@, slot as int, mip as int));
            }
            mip = mip + 1;
        }
        proof {
            assert forall|s: int, m: int|
                0 <= s < slot + 1 && 0 <= m < levels implies (#[trigger] mips@[s * levels + m])@
                    == expected_placement_record(descriptors@, placements@, s, m) by {
                if s == slot {
                    assert(s * levels + m == base + m);
                } else {
                    assert(s * levels + m < base);
                }
            }
            assert(base + levels == (slot + 1) * levels) by (nonlinear_arith)
                requires
                    base == slot * levels,
            ;
        }
        slot = slot + 1;
    }
    let ghost scanned = mips@;
    if len == 0 {
        records.push([0u32; 8]);
        assert(records@[0]@ =~= Seq::new(8, |k: int| 0u32));
    }
    if total == 0 {
        mips.push([0u32; 4]);
        assert(mips@[0]@ =~= Seq::new(4, |k: int| 0u32));
    }
    assert forall|s: int, m: int| 0 <= s < len && 0 <= m < atlas_mip_levels implies (
    #[trigger] mips@[s * atlas_mip_levels + m])@ == expected_placement_record(
        descriptors@,
        placements@,
        s,
        m,
    ) by {
        assert(s * levels + m < len * levels) by (nonlinear_arith)
            requires
                0 <= s < len,
                0 <= m < levels,
        ;
        assert(mips@[s * levels + m] == scanned[s * levels + m]);
    }
    Ok((records, mips))
}

/// Where one mip of a texture slot lies in the portable atlas.
#[derive(Clone, Copy, Debug, PartialEq, Eq)]
pub struct PortableAtlasRegion {
    /// Texel origin and array layer of the mip's placement.
    pub origin: [u32; 3],
    /// Extent of the mip.
    pub descriptor: TextureAssetDescriptor,
}

/// The region of mip `mip_level` of slot `index`: the slot must hold a
/// texture with that mip, and the atlas plan must place it.
pub open spec fn portable_atlas_region_spec(
    descriptors: Seq<Option<TextureAssetDescriptor>>,
    mip_placements: Seq<Seq<Option<AtlasPlacement>>>,
    index: u32,
    mip_level: u32,
) -> Option<PortableAtlasRegion> {
    if index >= descriptors.len() || mip_level >= mip_placements.len() || index
        >= mip_placements[mip_level as int].len() {
        None
    } else {
        match (descriptors[index as int], mip_placements[mip_level as int][index as int]) {
            (Some(d), Some(p)) => if mip_level < texture_mip_level_count_spec(d.width, d.height) {
                Some(
                    PortableAtlasRegion {
                        origin: [p.origin[0], p.origin[1], p.layer],
                        descriptor: mip_descriptor(d, mip_level),
                    },
                )
            } else {
                None
            },
            _ => None,
        }
    }
}

/// Locate one mip of a texture slot in the portable atlas, for reading it
/// back as evidence.
pub fn portable_atlas_region(
    descriptors: &[Option<TextureAssetDescriptor>],
    mip_placements: &Vec<Vec<Option<AtlasPlacement>>>,
    index: u32,
    mip_level: u32,
) -> (r: Result<PortableAtlasRegion, LodWebGpuError>)
    ensures
        match portable_atlas_region_spec(
            descriptors@,
            mip_placements@.map_values(|row: Vec<Option<AtlasPlacement>>| row@),
            index,
            mip_level,
        ) {
            Some(region) => r == Ok::<PortableAtlasRegion, LodWebGpuError>(region),
            None => r matches Err(e) && e is Payload,
        },
{
    let ghost placements = mip_placements@.map_values(|row: Vec<Option<AtlasPlacement>>| row@);
    if index as usize >= descriptors.len() {
        return Err(LodWebGpuError::payload("portable PBR texture index is empty or out of range"));
    }
    let descriptor = match descriptors[index as usize] {
        Some(d) => d,
        None => {
            return Err(
                LodWebGpuError::payload("portable PBR texture index is empty or out of range"),
            );
        },
    };
    let mip = texture_mip_descriptor(descriptor, mip_level)?;
    if mip_level as usize >= mip_placements.len() {
        return Err(LodWebGpuError::payload("portable PBR texture mip has no placement"));
    }
    let row = &mip_placements[mip_level as usize];
    proof {
        assert(placements[mip_level as int] == row@);
    }
    if index as usize >= row.len() {
        return Err(LodWebGpuError::payload("portable PBR texture mip has no placement"));
    }
    match row[index as usize] {
        Some(p) => Ok(PortableAtlasRegion { origin: [p.origin[0], p.origin[1], p.layer], descriptor: mip }),
        None => Err(LodWebGpuError::payload("portable PBR texture mip has no placement")),
    }
}

/// One batch of a scene as the PBR feature subset sees it: whether its PBR
/// draw class is opaque, and the material it resolves to (with whether that
/// material's alpha mode is blending).
#[derive(Clone, Copy, Debug, PartialEq, Eq)]
pub struct PbrSubsetBatch {
    pub opaque_class: bool,
    pub alpha_blend: bool,
    pub material: PbrMaterial,
}

/// A binary32 bit pattern denotes a value strictly above zero (positive
/// infinity included, NaN excluded).
pub open spec fn f32_bits_positive(bits: u32) -> bool {
    0 < bits <= 0x7f80_0000
}

/// A batch lies in the authored PBR subset: opaque, its material neither
/// blends nor transmits, and has no sheen.
pub open spec fn pbr_batch_supported(batch: PbrSubsetBatch) -> bool {
    &&& batch.opaque_class
    &&& !batch.alpha_blend
    &&& !f32_bits_positive(batch.material.transmission_factor)
    &&& !batch.material.has_sheen
}

/// A scene lies in the authored PBR subset: it passed its own validation, it
/// is nonempty, and every batch lies in the subset.
pub open spec fn pbr_subset_supported(scene_valid: bool, batches: Seq<PbrSubsetBatch>) -> bool {
    &&& scene_valid
    &&& batches.len() > 0
    &&& forall|i: int| 0 <= i < batches.len() ==> pbr_batch_supported(#[trigger] batches[i])
}

/// Check that a scene lies in the authored PBR subset; anything outside it is
/// a payload error.
pub fn validate_pbr_material_subset(scene_valid: bool, batches: &[PbrSubsetBatch]) -> (r: Result<
    (),
    LodWebGpuError,
>)
    ensures
        r is Ok <==> pbr_subset_supported(scene_valid, batches@),
        r matches Err(e) ==> e is Payload,
{
    if !scene_valid {
        return Err(LodWebGpuError::payload("render scene fails its contract"));
    }
    if batches.len() == 0 {
        return Err(LodWebGpuError::payload("basic WebGPU PBR requires a nonempty scene"));
    }
    let mut i: usize = 0;
    while i < batches.len()
        invariant
            i <= batches@.len(),
            forall|k: int| 0 <= k < i ==> pbr_batch_supported(#[trigger] batches@[k]),
        decreases batches@.len() - i,
    {
        let batch = batches[i];
        if !batch.opaque_class {
            return Err(LodWebGpuError::payload("basic WebGPU PBR batch is not opaque"));
        }
        let transmission = batch.material.transmission_factor;
        if batch.alpha_blend || (0 < transmission && transmission <= 0x7f80_0000) {
            return Err(
                LodWebGpuError::payload("basic WebGPU PBR batch requires blending or transmission"),
            );
        }
        if batch.material.has_sheen {
            return Err(LodWebGpuError::payload("basic WebGPU PBR batch requires sheen"));
        }
        i = i + 1;
    }
    Ok(())
}

/// Check that the single-target PBR pipeline can render a frame: the scene
/// lies in the subset and the frame requests no focus post-processing.
pub fn validate_basic_pbr_frame(
    scene_valid: bool,
    batches: &[PbrSubsetBatch],
    focus_requested: bool,
) -> (r: Result<(), LodWebGpuError>)
    ensures
        r is Ok <==> pbr_subset_supported(scene_valid, batches@) && !focus_requested,
        r matches Err(e) ==> e is Payload,
{
    validate_pbr_material_subset(scene_valid, batches)?;
    if focus_requested {
        return Err(
            LodWebGpuError::payload("basic WebGPU PBR does not yet support focus post-processing"),
        );
    }
    Ok(())
}

/// Check that the focus PBR pipeline can render a frame: the scene lies in
/// the subset and the frame carries a focus post-processing packet.
pub fn validate_focus_pbr_frame(
    scene_valid: bool,
    batches: &[PbrSubsetBatch],
    focus_requested: bool,
) -> (r: Result<(), LodWebGpuError>)
    ensures
        r is Ok <==> pbr_subset_supported(scene_valid, batches@) && focus_requested,
        r matches Err(e) ==> e is Payload,
{
    validate_pbr_material_subset(scene_valid, batches)?;
    if !focus_requested {
        return Err(LodWebGpuError::payload("focus WebGPU PBR requires a focus postprocess packet"));
    }
    Ok(())
}

/// Whether the single-target PBR pipeline can render the frame.
pub fn supports_basic_pbr_frame(
    scene_valid: bool,
    batches: &[PbrSubsetBatch],
    focus_requested: bool,
) -> (supported: bool)
    ensures
        supported == (pbr_subset_supported(scene_valid, batches@) && !focus_requested),
{
    validate_basic_pbr_frame(scene_valid, batches, focus_requested).is_ok()
}

/// Whether the focus PBR pipeline can render the frame; never both this and
/// [`supports_basic_pbr_frame`] for one frame.
pub fn supports_focus_pbr_frame(
    scene_valid: bool,
    batches: &[PbrSubsetBatch],
    focus_requested: bool,
) -> (supported: bool)
    ensures
        supported == (pbr_subset_supported(scene_valid, batches@) && focus_requested),
{
    validate_focus_pbr_frame(scene_valid, batches, focus_requested).is_ok()
}

} // verus!
