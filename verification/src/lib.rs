//! Verified host-side logic for Quilting's WebGPU backend: retained
//! frame-table memoization, pick requests and readback decoding, focus pass
//! planning, PBR residency masks, and the integer record layouts exchanged
//! with the device.

pub mod adapter;
pub mod atlas;
pub mod environment;
pub mod error;
pub mod float_bits;
pub mod focus;
pub mod frame_table;
pub mod layout;
pub mod lod_epochs;
pub mod overlay;
pub mod patch_frame;
pub mod pbr;
pub mod picking;
pub mod preparation;
pub mod pose;
pub mod records;
pub mod render_words;
pub mod scene;
pub mod visibility;
