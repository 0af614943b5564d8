//! Collision shapes.

use crate::lists::copied;
use crate::math::Vec3;
use vstd::prelude::*;

verus! {

/// Three indices into a vertex buffer.
#[derive(Clone, Copy, Debug, PartialEq, Eq, Hash, Structural)]
pub struct Triangle {
    pub a: u32,
    pub b: u32,
    pub c: u32,
}

impl Triangle {
    pub open spec fn spec_new(a: u32, b: u32, c: u32) -> Triangle {
        Triangle { a, b, c }
    }

    #[verifier::when_used_as_spec(spec_new)]
    pub fn new(a: u32, b: u32, c: u32) -> (t: Triangle)
        ensures
            t == Triangle::spec_new(a, b, c),
    {
        Triangle { a, b, c }
    }
}

/// A collision shape.
///
/// `Cuboid` is a box given by its half extents. `ConvexHull` is the convex
/// polytope around a set of points. `ConvexMesh` is a triangulated boundary
/// that is itself convex and closed. `TriMesh` is any set of triangles, with
/// no constraint on its topology.
#[derive(Debug, PartialEq, Eq)]
pub enum Collider {
    Cuboid { half_extents: Vec3 },
    ConvexHull { vertices: Vec<Vec3> },
    ConvexMesh { vertices: Vec<Vec3>, triangles: Vec<Triangle> },
    TriMesh { vertices: Vec<Vec3>, triangles: Vec<Triangle> },
}

/// What a [`Collider`] holds.
pub ghost enum ColliderView {
    Cuboid { half_extents: Vec3 },
    ConvexHull { vertices: Seq<Vec3> },
    ConvexMesh { vertices: Seq<Vec3>, triangles: Seq<Triangle> },
    TriMesh { vertices: Seq<Vec3>, triangles: Seq<Triangle> },
}

impl View for Collider {
    type V = ColliderView;

    open spec fn view(&self) -> ColliderView {
        match *self {
            Collider::Cuboid { half_extents } => ColliderView::Cuboid { half_extents },
            Collider::ConvexHull { vertices } => ColliderView::ConvexHull { vertices: vertices@ },
            Collider::ConvexMesh { vertices, triangles } => ColliderView::ConvexMesh {
                vertices: vertices@,
                triangles: triangles@,
            },
            Collider::TriMesh { vertices, triangles } => ColliderView::TriMesh {
                vertices: vertices@,
                triangles: triangles@,
            },
        }
    }
}

impl Collider {
    /// A copy that holds the same shape.
    pub fn duplicate(&self) -> (copy: Collider)
        ensures
            copy@ == self@,
    {
        match self {
            Collider::Cuboid { half_extents } => Collider::Cuboid { half_extents: *half_extents },
            Collider::ConvexHull { vertices } => Collider::ConvexHull {
                vertices: copied(vertices),
            },
            Collider::ConvexMesh { vertices, triangles } => Collider::ConvexMesh {
                vertices: copied(vertices),
                triangles: copied(triangles),
            },
            Collider::TriMesh { vertices, triangles } => Collider::TriMesh {
                vertices: copied(vertices),
                triangles: copied(triangles),
            },
        }
    }
}

} // verus!
