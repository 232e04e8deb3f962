//! Publication policy for dynamic pose inputs of a retained preparation family.

use vstd::prelude::*;

verus! {

/// Whether a retained preparation family must publish its dynamic pose inputs
/// before encoding. `Reuse` is valid only while the caller retains the exact
/// model and preparation epoch that received the previous successful publish.
#[derive(Clone, Copy, Debug, PartialEq, Eq, Structural)]
pub enum PoseUploadPolicy {
    /// Publish shared dynamic pose buffers and preparation-local uniforms.
    Publish,
    /// Reuse the shared dynamic pose while initializing local preparation
    /// uniforms for a newly retained scene family.
    PublishPreparation,
    /// Reuse both shared and preparation-local pose state.
    Reuse,
}

/// The shared dynamic pose buffers are written.
pub open spec fn publishes_dynamic(policy: PoseUploadPolicy) -> bool {
    policy == PoseUploadPolicy::Publish
}

/// The preparation-local uniforms are written.
pub open spec fn publishes_preparation(policy: PoseUploadPolicy) -> bool {
    policy != PoseUploadPolicy::Reuse
}

impl PoseUploadPolicy {
    /// Shared dynamic pose buffers are written only under `Publish`.
    pub fn should_publish_dynamic(self) -> (r: bool)
        ensures
            r == publishes_dynamic(self),
    {
        matches!(self, PoseUploadPolicy::Publish)
    }

    /// Preparation-local uniforms are written under every policy but `Reuse`.
    pub fn should_publish_preparation(self) -> (r: bool)
        ensures
            r == publishes_preparation(self),
    {
        !matches!(self, PoseUploadPolicy::Reuse)
    }
}

/// No policy uploads the shared dynamic pose while leaving a preparation
/// family's local uniforms stale: publishing the dynamic pose implies
/// publishing the preparation uniforms.
pub proof fn lemma_dynamic_publication_implies_preparation(policy: PoseUploadPolicy)
    ensures
        publishes_dynamic(policy) ==> publishes_preparation(policy),
{
}

} // verus!
