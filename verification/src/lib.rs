//! Collision shapes for authored 3-D scenes.
//!
//! A scene marks collision intent in two ways: a node whose name starts with
//! `collider` lends the mesh of its first mesh-carrying child, and a node may
//! carry a metadata payload that declares analytic shapes. This crate scans a
//! scene once, builds one shape per marked node, removes the consumed nodes
//! and can hand a finished shape to the node that a name suffix points at.
//!
//! Real numbers never take part in a decision here. They are carried by their
//! IEEE-754 binary64 bit pattern, see [`math`].

pub mod collider;
pub mod extraction;
pub mod extras_collider;
pub mod hydration;
pub mod json;
pub mod lists;
pub mod math;
pub mod mesh_collider;
pub mod names;
pub mod scene;
pub mod serialized;

pub use collider::{Collider, Triangle};
pub use extraction::{
    extract_insert_scene_colliders, extract_insert_scene_colliders_with_report,
    get_scene_colliders, ColliderFromSceneError, Reparenting,
};
pub use hydration::hydrate_serialized_colliders;
pub use math::{Quat, Transform, Vec3};
pub use scene::{MeshStore, Node, SceneGraph};
pub use serialized::SerializedCollider;
