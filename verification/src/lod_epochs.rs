//! Identities and epochs of uploaded classifier models, and the dispatch
//! sequence of resident LOD reconciliation.
//!
//! Every uploaded model gets a fresh identity. Each classification of a model
//! starts a new epoch and retires the resident (reconciled) view of the
//! previous one; reconciliation publishes a resident view tagged with the
//! classification epoch it closed over.

use vstd::prelude::*;
use crate::error::LodWebGpuError;

verus! {

/// Faces classified by one workgroup.
pub const LOD_WORKGROUP_SIZE: u32 = 64;
/// Jacobi passes of resident reconciliation.
pub const RESIDENT_LOD_RECONCILIATION_PASSES: usize = 10;

/// Source of fresh model identities, starting at one.
pub struct ModelIdentityAllocator {
    next: u64,
}

impl ModelIdentityAllocator {
    /// The identity the next allocation hands out.
    pub closed spec fn next_view(&self) -> u64 {
        self.next
    }

    /// An allocator whose first identity is one.
    pub fn new() -> (allocator: Self)
        ensures
            allocator.next_view() == 1,
    {
        ModelIdentityAllocator { next: 1 }
    }

    /// Hand out the next identity; once `u64::MAX` is reached every further
    /// allocation fails and the allocator stays put.
    pub fn allocate(&mut self) -> (r: Result<u64, LodWebGpuError>)
        ensures
            r is Ok <==> old(self).next_view() < u64::MAX,
            r matches Ok(id) ==> id == old(self).next_view() && final(self).next_view() == id + 1,
            r matches Err(e) ==> e is Payload && final(self).next_view() == old(self).next_view(),
    {
        let identity = self.next;
        match self.next.checked_add(1) {
            Some(next) => {
                self.next = next;
                Ok(identity)
            },
            None => Err(LodWebGpuError::payload("WebGPU model identity overflowed")),
        }
    }
}

/// Identities handed out by successive allocations strictly increase, so no
/// two uploaded models share an identity: `first` was handed out by an
/// allocator that then advanced to `between`, whose allocation handed out
/// `second`.
pub proof fn lemma_identities_increase(
    between: ModelIdentityAllocator,
    first: u64,
    second: u64,
)
    requires
        between.next_view() == first + 1,
        second == between.next_view(),
    ensures
        first < second,
{
}

/// Adjacency grading of resident reconciliation.
#[derive(Clone, Copy, Debug, PartialEq, Eq, Structural)]
pub enum FaceLodGrading {
    TwoToOne,
    FourToOne,
}

/// Classification epochs of one model and its latest resident view.
pub struct LodModelEpochs {
    identity: u64,
    classification_epoch: u64,
    resident_epoch: Option<(u64, FaceLodGrading)>,
}

impl LodModelEpochs {
    pub closed spec fn identity_view(&self) -> u64 {
        self.identity
    }

    pub closed spec fn classification_epoch_view(&self) -> u64 {
        self.classification_epoch
    }

    pub closed spec fn resident_view(&self) -> Option<(u64, FaceLodGrading)> {
        self.resident_epoch
    }

    /// A freshly uploaded model: no classification, no resident view.
    pub fn new(identity: u64) -> (epochs: Self)
        ensures
            epochs.identity_view() == identity,
            epochs.classification_epoch_view() == 0,
            epochs.resident_view() is None,
    {
        LodModelEpochs { identity, classification_epoch: 0, resident_epoch: None }
    }

    /// The model's identity.
    pub fn identity(&self) -> (id: u64)
        ensures
            id == self.identity_view(),
    {
        self.identity
    }

    /// The latest classification epoch.
    pub fn classification_epoch(&self) -> (epoch: u64)
        ensures
            epoch == self.classification_epoch_view(),
    {
        self.classification_epoch
    }

    /// Start a classification: the epoch advances by one and the previous
    /// resident view is retired. An exhausted epoch counter is a payload error
    /// and changes nothing.
    pub fn begin_classification(&mut self) -> (r: Result<u64, LodWebGpuError>)
        ensures
            final(self).identity_view() == old(self).identity_view(),
            r is Ok <==> old(self).classification_epoch_view() < u64::MAX,
            r matches Ok(epoch) ==> {
                &&& epoch == old(self).classification_epoch_view() + 1
                &&& final(self).classification_epoch_view() == epoch
                &&& final(self).resident_view() is None
            },
            r matches Err(e) ==> e is Payload && *final(self) == *old(self),
    {
        match self.classification_epoch.checked_add(1) {
            Some(epoch) => {
                self.classification_epoch = epoch;
                self.resident_epoch = None;
                Ok(epoch)
            },
            None => Err(LodWebGpuError::payload("LOD classification epoch overflowed")),
        }
    }

    /// Publish the resident view reconciled from classification `epoch`.
    pub fn publish_resident(&mut self, epoch: u64, grading: FaceLodGrading)
        ensures
            final(self).identity_view() == old(self).identity_view(),
            final(self).classification_epoch_view() == old(self).classification_epoch_view(),
            final(self).resident_view() == Some((epoch, grading)),
    {
        self.resident_epoch = Some((epoch, grading));
    }

    /// The latest resident view, if one is published.
    pub fn latest_resident(&self) -> (r: Option<(u64, FaceLodGrading)>)
        ensures
            r == self.resident_view(),
    {
        self.resident_epoch
    }

    /// Retire the resident view (its camera or pose request is stale).
    pub fn invalidate_resident(&mut self)
        ensures
            final(self).identity_view() == old(self).identity_view(),
            final(self).classification_epoch_view() == old(self).classification_epoch_view(),
            final(self).resident_view() is None,
    {
        self.resident_epoch = None;
    }
}

/// A resident view is never older than it claims: after a classification
/// starts there is no resident view until reconciliation of that epoch
/// publishes one, and the published view carries exactly that epoch.
pub proof fn lemma_resident_view_tracks_latest_classification(
    classified: LodModelEpochs,
    reconciled: LodModelEpochs,
    grading: FaceLodGrading,
)
    requires
        classified.resident_view() is None,
        reconciled.classification_epoch_view() == classified.classification_epoch_view(),
        reconciled.resident_view() == Some((classified.classification_epoch_view(), grading)),
    ensures
        match reconciled.resident_view() {
            Some((epoch, _)) => epoch == reconciled.classification_epoch_view(),
            None => false,
        },
{
}

/// Workgroups covering `face_count` faces.
pub open spec fn workgroups_spec(face_count: u32) -> int {
    (face_count as int + LOD_WORKGROUP_SIZE - 1) / (LOD_WORKGROUP_SIZE as int)
}

/// Workgroups of one classification pass over `face_count` faces.
pub fn classification_workgroups(face_count: u32) -> (groups: u32)
    ensures
        groups == workgroups_spec(face_count),
{
    face_count / LOD_WORKGROUP_SIZE + if face_count % LOD_WORKGROUP_SIZE == 0 {
        0
    } else {
        1
    }
}

/// One dispatch of resident reconciliation and the ping-pong buffer it
/// writes.
#[derive(Clone, Copy, Debug, PartialEq, Eq, Structural)]
pub enum ReconcileDispatch {
    /// Seed the ping buffer from the classifier output.
    Seed,
    /// One Jacobi pass reading ping and writing pong.
    Forward,
    /// One Jacobi pass reading pong and writing ping.
    Backward,
    /// Canonicalize and look up the atlas from the ping buffer.
    Pack,
}

/// The reconciliation sequence: nothing for an empty model; otherwise seed,
/// ten Jacobi passes alternating forward and backward, then pack.
pub open spec fn reconciliation_plan_spec(face_count: u32) -> Seq<ReconcileDispatch> {
    if workgroups_spec(face_count) == 0 {
        Seq::empty()
    } else {
        seq![ReconcileDispatch::Seed] + Seq::new(
            10,
            |i: int|
                if i % 2 == 0 {
                    ReconcileDispatch::Forward
                } else {
                    ReconcileDispatch::Backward
                },
        ) + seq![ReconcileDispatch::Pack]
    }
}

/// The dispatch sequence of one resident reconciliation.
pub fn resident_reconciliation_plan(face_count: u32) -> (plan: Vec<ReconcileDispatch>)
    ensures
        plan@ == reconciliation_plan_spec(face_count),
{
    let mut plan: Vec<ReconcileDispatch> = Vec::new();
    if classification_workgroups(face_count) == 0 {
        return plan;
    }
    plan.push(ReconcileDispatch::Seed);
    let mut iteration: usize = 0;
    while iteration < RESIDENT_LOD_RECONCILIATION_PASSES
        invariant
            iteration <= 10,
            plan@ == seq![ReconcileDispatch::Seed] + Seq::new(
                iteration as nat,
                |i: int|
                    if i % 2 == 0 {
                        ReconcileDispatch::Forward
                    } else {
                        ReconcileDispatch::Backward
                    },
            ),
        decreases 10 - iteration,
    {
        if iteration % 2 == 0 {
            plan.push(ReconcileDispatch::Forward);
        } else {
            plan.push(ReconcileDispatch::Backward);
        }
        iteration = iteration + 1;
        assert(plan@ =~= seq![ReconcileDispatch::Seed] + Seq::new(
            iteration as nat,
            |i: int|
                if i % 2 == 0 {
                    ReconcileDispatch::Forward
                } else {
                    ReconcileDispatch::Backward
                },
        ));
    }
    plan.push(ReconcileDispatch::Pack);
    plan
}

/// The reconciled field ends where the pack dispatch reads it: the last
/// Jacobi pass of a nonempty plan writes the ping buffer, and the seed
/// writes ping before the first forward pass reads it.
pub proof fn lemma_reconciliation_ends_in_ping(face_count: u32)
    requires
        workgroups_spec(face_count) > 0,
    ensures
        reconciliation_plan_spec(face_count).len() == 12,
        reconciliation_plan_spec(face_count)[0] == ReconcileDispatch::Seed,
        reconciliation_plan_spec(face_count)[1] == ReconcileDispatch::Forward,
        reconciliation_plan_spec(face_count)[10] == ReconcileDispatch::Backward,
        reconciliation_plan_spec(face_count)[11] == ReconcileDispatch::Pack,
{
}

/// Bit pattern of the binary32 value nearest `1e-6`, the smallest skinning
/// weight through which a joint influences a vertex.
pub const JOINT_WEIGHT_EPSILON_BITS: u32 = 0x3586_37bd;

/// Whether a binary32 weight, given by its bits, is at least `1e-6`: among
/// non-negative values bit order is numeric order, infinity is the largest,
/// and negative values and NaNs compare below.
pub open spec fn weight_significant(bits: u32) -> bool {
    JOINT_WEIGHT_EPSILON_BITS <= bits <= 0x7f80_0000
}

/// The largest `joint + 1` over the first `k` influences of one vertex whose
/// weight is significant, or zero.
pub open spec fn vertex_joint_capacity(joints: Seq<u16>, weights: Seq<u32>, k: int) -> nat
    decreases k,
{
    if k <= 0 {
        0
    } else {
        let earlier = vertex_joint_capacity(joints, weights, k - 1);
        let here: nat = if weight_significant(weights[k - 1]) {
            joints[k - 1] as nat + 1
        } else {
            0
        };
        if here > earlier {
            here
        } else {
            earlier
        }
    }
}

/// The influences of a vertex pair each joint index with the weight at the
/// same position; extra entries of the longer list are ignored.
pub open spec fn influence_count(joints: Seq<u16>, weights: Seq<u32>) -> int {
    if joints.len() < weights.len() {
        joints.len() as int
    } else {
        weights.len() as int
    }
}

/// The largest `joint + 1` over the first `n` vertices, or zero.
pub open spec fn model_joint_capacity(joints: Seq<Seq<u16>>, weights: Seq<Seq<u32>>, n: int) -> nat
    decreases n,
{
    if n <= 0 {
        0
    } else {
        let earlier = model_joint_capacity(joints, weights, n - 1);
        let here = vertex_joint_capacity(
            joints[n - 1],
            weights[n - 1],
            influence_count(joints[n - 1], weights[n - 1]),
        );
        if here > earlier {
            here
        } else {
            earlier
        }
    }
}

/// Joint matrices a model's pose buffer holds: one past the largest joint
/// that influences some vertex with a significant weight, and at least one.
/// Vertices pair with weight lists position by position, the longer list's
/// extra vertices ignored.
pub fn joint_capacity(joint_indices: &Vec<Vec<u16>>, joint_weight_bits: &Vec<Vec<u32>>) -> (capacity:
    usize)
    ensures
        capacity == ({
            let vertices = if joint_indices@.len() < joint_weight_bits@.len() {
                joint_indices@.len() as int
            } else {
                joint_weight_bits@.len() as int
            };
            let c = model_joint_capacity(
                joint_indices@.map_values(|v: Vec<u16>| v@),
                joint_weight_bits@.map_values(|v: Vec<u32>| v@),
                vertices,
            );
            if c == 0 {
                1
            } else {
                c
            }
        }),
{
    let ghost joints = joint_indices@.map_values(|v: Vec<u16>| v@);
    let ghost weights = joint_weight_bits@.map_values(|v: Vec<u32>| v@);
    let vertices = if joint_indices.len() < joint_weight_bits.len() {
        joint_indices.len()
    } else {
        joint_weight_bits.len()
    };
    let mut best: usize = 0;
    let mut v: usize = 0;
    while v < vertices
        invariant
            v <= vertices <= joint_indices@.len(),
            vertices <= joint_weight_bits@.len(),
            joints == joint_indices@.map_values(|x: Vec<u16>| x@),
            weights == joint_weight_bits@.map_values(|x: Vec<u32>| x@),
            best == model_joint_capacity(joints, weights, v as int),
            best <= 0x1_0000,
        decreases vertices - v,
    {
        let js = &joint_indices[v];
        let ws = &joint_weight_bits[v];
        proof {
            assert(joints[v as int] == js@);
            assert(weights[v as int] == ws@);
        }
        let n = if js.len() < ws.len() {
            js.len()
        } else {
            ws.len()
        };
        let mut here: usize = 0;
        let mut k: usize = 0;
        while k < n
            invariant
                k <= n <= js@.len(),
                n <= ws@.len(),
                here == vertex_joint_capacity(js@, ws@, k as int),
                here <= 0x1_0000,
            decreases n - k,
        {
            let w = ws[k];
            if JOINT_WEIGHT_EPSILON_BITS <= w && w <= 0x7f80_0000 {
                let candidate = js[k] as usize + 1;
                if candidate > here {
                    here = candidate;
                }
            }
            k = k + 1;
        }
        if here > best {
            best = here;
        }
        v = v + 1;
    }
    if best == 0 {
        1
    } else {
        best
    }
}

} // verus!
