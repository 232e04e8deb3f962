//! The error reported by every fallible operation of the backend.

use vstd::prelude::*;

verus! {

/// Failure classes of the WebGPU backend. Each carries a human-readable
/// explanation; callers branch on the class, never on the text.
#[derive(Debug)]
pub enum LodWebGpuError {
    Shader(String),
    Payload(String),
    Conformance(String),
    Mapping(String),
    Poll(String),
}

impl LodWebGpuError {
    /// A payload (input-shape) error with the given explanation.
    pub fn payload(message: &str) -> (e: LodWebGpuError)
        ensures
            e matches LodWebGpuError::Payload(text) && text@ == message@,
    {
        LodWebGpuError::Payload(message.to_owned())
    }

    /// A conformance error (the device produced evidence the contract rules
    /// out) with the given explanation.
    pub fn conformance(message: &str) -> (e: LodWebGpuError)
        ensures
            e matches LodWebGpuError::Conformance(text) && text@ == message@,
    {
        LodWebGpuError::Conformance(message.to_owned())
    }

    /// A readback-mapping error with the given explanation.
    pub fn mapping(message: &str) -> (e: LodWebGpuError)
        ensures
            e matches LodWebGpuError::Mapping(text) && text@ == message@,
    {
        LodWebGpuError::Mapping(message.to_owned())
    }
}

} // verus!
