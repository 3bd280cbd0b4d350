use rapier3d_f64::dynamics::{CCDSolver, IntegrationParameters, JointSet, RigidBodySet};
use rapier3d_f64::geometry::{BroadPhase, ColliderSet, NarrowPhase};
use rapier3d_f64::pipeline::{PhysicsPipeline, QueryPipeline};
use vstd::prelude::*;

verus! {

/// `rapier3d_f64::pipeline::PhysicsPipeline`, carried and never looked into.
#[verifier::external_type_specification]
#[verifier::external_body]
pub struct ExPhysicsPipeline(PhysicsPipeline);

/// `rapier3d_f64::dynamics::IntegrationParameters`, carried and never looked
/// into.
#[verifier::external_type_specification]
#[verifier::external_body]
pub struct ExIntegrationParameters(IntegrationParameters);

/// `rapier3d_f64::geometry::BroadPhase`, carried and never looked into.
#[verifier::external_type_specification]
#[verifier::external_body]
pub struct ExBroadPhase(BroadPhase);

/// `rapier3d_f64::geometry::NarrowPhase`, carried and never looked into.
#[verifier::external_type_specification]
#[verifier::external_body]
pub struct ExNarrowPhase(NarrowPhase);

/// `rapier3d_f64::dynamics::RigidBodySet`; what it holds goes by the name
/// `body_handles`.
#[verifier::external_type_specification]
#[verifier::external_body]
pub struct ExRigidBodySet(RigidBodySet);

/// `rapier3d_f64::geometry::ColliderSet`; what it holds goes by the name
/// `collider_handles`.
#[verifier::external_type_specification]
#[verifier::external_body]
pub struct ExColliderSet(ColliderSet);

/// `rapier3d_f64::dynamics::JointSet`; what it holds goes by the name
/// `joint_handles`.
#[verifier::external_type_specification]
#[verifier::external_body]
pub struct ExJointSet(JointSet);

/// `rapier3d_f64::dynamics::CCDSolver`, carried and never looked into.
#[verifier::external_type_specification]
#[verifier::external_body]
pub struct ExCCDSolver(CCDSolver);

/// `rapier3d_f64::pipeline::QueryPipeline`, carried and never looked into.
#[verifier::external_type_specification]
#[verifier::external_body]
pub struct ExQueryPipeline(QueryPipeline);

/// The rigid bodies of a set: the handles that `iter` yields, each as the
/// two numbers that `into_raw_parts` makes of it.
pub uninterp spec fn body_handles(bodies: RigidBodySet) -> Set<(usize, u64)>;

/// The colliders of a set: the handles that `iter` yields, each as the two
/// numbers that `into_raw_parts` makes of it.
pub uninterp spec fn collider_handles(colliders: ColliderSet) -> Set<(usize, u64)>;

/// The joints of a set: the handles that `iter` yields, each as the two
/// numbers that `into_raw_parts` makes of it.
pub uninterp spec fn joint_handles(joints: JointSet) -> Set<(usize, u64)>;

/// `PhysicsPipeline::new` builds a pipeline; nothing is claimed of it.
pub assume_specification[ PhysicsPipeline::new ]() -> (out: PhysicsPipeline);

/// `IntegrationParameters::default` gives the engine's own settings; nothing
/// is claimed of them.
pub assume_specification[ <IntegrationParameters as Default>::default ]() -> (out:
    IntegrationParameters);

/// `BroadPhase::new` builds a broad phase; nothing is claimed of it.
pub assume_specification[ BroadPhase::new ]() -> (out: BroadPhase);

/// `RigidBodySet::new` builds a set without any rigid body.
pub assume_specification[ RigidBodySet::new ]() -> (out: RigidBodySet)
    ensures
        body_handles(out) == Set::<(usize, u64)>::empty(),
;

/// `ColliderSet::new` builds a set without any collider.
pub assume_specification[ ColliderSet::new ]() -> (out: ColliderSet)
    ensures
        collider_handles(out) == Set::<(usize, u64)>::empty(),
;

/// `JointSet::new` builds a set without any joint.
pub assume_specification[ JointSet::new ]() -> (out: JointSet)
    ensures
        joint_handles(out) == Set::<(usize, u64)>::empty(),
;

/// `CCDSolver::new` builds a solver; nothing is claimed of it.
pub assume_specification[ CCDSolver::new ]() -> (out: CCDSolver);

/// Everything the simulation of one scene consists of.
pub struct PhysicsWorld {
    pub pipeline: PhysicsPipeline,
    pub integration_parameters: IntegrationParameters,
    pub broad_phase: BroadPhase,
    pub narrow_phase: NarrowPhase,
    pub bodies: RigidBodySet,
    pub colliders: ColliderSet,
    pub joints: JointSet,
    pub ccd_solver: CCDSolver,
    pub query_pipeline: QueryPipeline,
}

impl PhysicsWorld {
    /// The world holds no body, no collider and no joint.
    pub open spec fn is_empty(self) -> bool {
        &&& body_handles(self.bodies) == Set::<(usize, u64)>::empty()
        &&& collider_handles(self.colliders) == Set::<(usize, u64)>::empty()
        &&& joint_handles(self.joints) == Set::<(usize, u64)>::empty()
    }

    /// An empty world around the two parts that know how shapes collide.
    pub fn new(narrow_phase: NarrowPhase, query_pipeline: QueryPipeline) -> (out: PhysicsWorld)
        ensures
            out.is_empty(),
            out.narrow_phase == narrow_phase,
            out.query_pipeline == query_pipeline,
    {
        PhysicsWorld {
            pipeline: PhysicsPipeline::new(),
            integration_parameters: IntegrationParameters::default(),
            broad_phase: BroadPhase::new(),
            narrow_phase,
            bodies: RigidBodySet::new(),
            colliders: ColliderSet::new(),
            joints: JointSet::new(),
            ccd_solver: CCDSolver::new(),
            query_pipeline,
        }
    }
}

} // verus!
