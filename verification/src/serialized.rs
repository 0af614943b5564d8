//! A shape as bytes, for attachment that has to wait.
//!
//! A shape is first laid out as a run of 64-bit words, which this module
//! defines and proves to be read back unchanged. `bincode` then turns the
//! words into bytes and back. Bytes are handed out only after they were read
//! back and gave the same words, so what is handed out holds the shape.
//!
//! The words of a shape are its tag, then the number of its vertices and of
//! its triangles where it has them, then three words for every vertex and
//! three for every triangle:
//!
//! ```text
//! cuboid       0  x  y  z
//! convex hull  1  n  (x y z)*n
//! convex mesh  2  n  m  (x y z)*n  (a b c)*m
//! tri mesh     3  n  m  (x y z)*n  (a b c)*m
//! ```

use crate::collider::{Collider, ColliderView, Triangle};
use crate::lists::copied;
use crate::math::Vec3;
use vstd::bytes::spec_u64_to_le_bytes;
use vstd::prelude::*;

verus! {

/// Tag of a cuboid.
pub const TAG_CUBOID: u64 = 0;

/// Tag of a convex hull.
pub const TAG_CONVEX_HULL: u64 = 1;

/// Tag of a convex mesh.
pub const TAG_CONVEX_MESH: u64 = 2;

/// Tag of a triangle mesh.
pub const TAG_TRI_MESH: u64 = 3;

/// The bytes that `bincode::serialize` gives for a run of words, `None` where
/// it reports an error.
pub uninterp spec fn bincode_bytes(words: Seq<u64>) -> Option<Seq<u8>>;

/// The words that `bincode::deserialize` reads from a run of bytes, `None`
/// where it reports an error.
pub uninterp spec fn bincode_words(bytes: Seq<u8>) -> Option<Seq<u64>>;

/// The bytes of a run of words as `bincode` lays them out: the number of the
/// words, then the words in order, each number as eight bytes with the lowest
/// byte first.
pub open spec fn words_as_bytes(words: Seq<u64>) -> Seq<u8> {
    Seq::new(
        8 + 8 * words.len(),
        |i: int|
            if i < 8 {
                spec_u64_to_le_bytes(words.len() as u64)[i]
            } else {
                spec_u64_to_le_bytes(words[(i - 8) / 8])[(i - 8) % 8]
            },
    )
}

/// `bincode::serialize` on a vector of words. An error comes back as `None`.
/// The contract names the outcome, `bincode_bytes` of the words, and says of
/// the bytes that come back that they are laid out as `words_as_bytes` has
/// it: the function writes a length and every integer at a fixed width of
/// eight bytes, little-endian. It does not say that bytes do come back.
#[verifier::external_body]
pub(crate) fn words_to_bytes(words: &Vec<u64>) -> (r: Option<Vec<u8>>)
    ensures
        match r {
            Some(bytes) => bincode_bytes(words@) == Some(bytes@) && bytes@ == words_as_bytes(
                words@,
            ),
            None => bincode_bytes(words@) is None,
        },
{
    bincode::serialize(words).ok()
}

/// `bincode::deserialize` to a vector of words. An error comes back as
/// `None`. The contract only names the outcome: it is `bincode_words` of the
/// bytes.
#[verifier::external_body]
pub(crate) fn bytes_to_words(bytes: &Vec<u8>) -> (r: Option<Vec<u64>>)
    ensures
        match r {
            Some(words) => bincode_words(bytes@) == Some(words@),
            None => bincode_words(bytes@) is None,
        },
{
    bincode::deserialize::<Vec<u64>>(bytes).ok()
}

/// The words of a run of vectors: `x`, `y`, `z` of each, in order.
pub open spec fn vector_words(vectors: Seq<Vec3>) -> Seq<u64> {
    Seq::new(
        3 * vectors.len(),
        |i: int|
            if i % 3 == 0 {
                vectors[i / 3].x
            } else if i % 3 == 1 {
                vectors[i / 3].y
            } else {
                vectors[i / 3].z
            },
    )
}

/// The words of a run of triangles: `a`, `b`, `c` of each, in order.
pub open spec fn triangle_words(triangles: Seq<Triangle>) -> Seq<u64> {
    Seq::new(
        3 * triangles.len(),
        |i: int|
            if i % 3 == 0 {
                triangles[i / 3].a as u64
            } else if i % 3 == 1 {
                triangles[i / 3].b as u64
            } else {
                triangles[i / 3].c as u64
            },
    )
}

/// The words of a shape.
pub open spec fn collider_words(collider: ColliderView) -> Seq<u64> {
    match collider {
        ColliderView::Cuboid { half_extents } => seq![
            TAG_CUBOID,
            half_extents.x,
            half_extents.y,
            half_extents.z,
        ],
        ColliderView::ConvexHull { vertices } => seq![TAG_CONVEX_HULL, vertices.len() as u64]
            + vector_words(vertices),
        ColliderView::ConvexMesh { vertices, triangles } => seq![
            TAG_CONVEX_MESH,
            vertices.len() as u64,
            triangles.len() as u64,
        ] + vector_words(vertices) + triangle_words(triangles),
        ColliderView::TriMesh { vertices, triangles } => seq![
            TAG_TRI_MESH,
            vertices.len() as u64,
            triangles.len() as u64,
        ] + vector_words(vertices) + triangle_words(triangles),
    }
}

/// The `count` vectors that `words` holds from `start` on.
pub open spec fn vectors_at(words: Seq<u64>, start: int, count: int) -> Seq<Vec3> {
    Seq::new(
        count as nat,
        |k: int|
            Vec3 { x: words[start + 3 * k], y: words[start + 3 * k + 1], z: words[start + 3 * k + 2] },
    )
}

/// The `count` triangles that `words` holds from `start` on.
pub open spec fn triangles_at(words: Seq<u64>, start: int, count: int) -> Seq<Triangle> {
    Seq::new(
        count as nat,
        |k: int|
            Triangle {
                a: words[start + 3 * k] as u32,
                b: words[start + 3 * k + 1] as u32,
                c: words[start + 3 * k + 2] as u32,
            },
    )
}

/// Whether every word from `start` on fits an index.
pub open spec fn indices_from(words: Seq<u64>, start: int) -> bool {
    forall|i: int| start <= i < words.len() ==> #[trigger] words[i] <= u32::MAX
}

/// Whether `words` is laid out as a mesh: two counts, then exactly as many
/// words as they ask for, those of the triangles fitting an index.
pub open spec fn mesh_layout(words: Seq<u64>) -> bool {
    &&& words.len() >= 3
    &&& words.len() - 3 == 3 * words[1] + 3 * words[2]
    &&& indices_from(words, 3 + 3 * words[1])
}

/// The shape that a run of words spells out, `None` where it spells out none.
pub open spec fn words_collider(words: Seq<u64>) -> Option<ColliderView> {
    if words.len() == 0 {
        None
    } else if words[0] == TAG_CUBOID {
        if words.len() == 4 {
            Some(
                ColliderView::Cuboid {
                    half_extents: Vec3 { x: words[1], y: words[2], z: words[3] },
                },
            )
        } else {
            None
        }
    } else if words[0] == TAG_CONVEX_HULL {
        if words.len() >= 2 && words.len() - 2 == 3 * words[1] {
            Some(ColliderView::ConvexHull { vertices: vectors_at(words, 2, words[1] as int) })
        } else {
            None
        }
    } else if words[0] == TAG_CONVEX_MESH {
        if mesh_layout(words) {
            Some(
                ColliderView::ConvexMesh {
                    vertices: vectors_at(words, 3, words[1] as int),
                    triangles: triangles_at(words, 3 + 3 * words[1], words[2] as int),
                },
            )
        } else {
            None
        }
    } else if words[0] == TAG_TRI_MESH {
        if mesh_layout(words) {
            Some(
                ColliderView::TriMesh {
                    vertices: vectors_at(words, 3, words[1] as int),
                    triangles: triangles_at(words, 3 + 3 * words[1], words[2] as int),
                },
            )
        } else {
            None
        }
    } else {
        None
    }
}

/// Whether the counts of a shape fit a word. Every shape that is held in
/// memory does.
pub open spec fn countable(collider: ColliderView) -> bool {
    match collider {
        ColliderView::Cuboid { .. } => true,
        ColliderView::ConvexHull { vertices } => vertices.len() <= usize::MAX,
        ColliderView::ConvexMesh { vertices, triangles } => vertices.len() <= usize::MAX
            && triangles.len() <= usize::MAX,
        ColliderView::TriMesh { vertices, triangles } => vertices.len() <= usize::MAX
            && triangles.len() <= usize::MAX,
    }
}

proof fn lemma_vectors_read_back(front: Seq<u64>, vectors: Seq<Vec3>, back: Seq<u64>)
    ensures
        vectors_at(front + vector_words(vectors) + back, front.len() as int, vectors.len() as int)
            == vectors,
{
    let words = front + vector_words(vectors) + back;
    let start = front.len() as int;
    let read = vectors_at(words, start, vectors.len() as int);
    assert forall|k: int| 0 <= k < vectors.len() implies read[k] == vectors[k] by {
        assert(words[start + 3 * k] == vector_words(vectors)[3 * k]);
        assert(words[start + 3 * k + 1] == vector_words(vectors)[3 * k + 1]);
        assert(words[start + 3 * k + 2] == vector_words(vectors)[3 * k + 2]);
    }
    assert(read =~= vectors);
}

proof fn lemma_triangles_read_back(front: Seq<u64>, triangles: Seq<Triangle>)
    ensures
        triangles_at(
            front + triangle_words(triangles),
            front.len() as int,
            triangles.len() as int,
        ) == triangles,
        indices_from(front + triangle_words(triangles), front.len() as int),
{
    let words = front + triangle_words(triangles);
    let start = front.len() as int;
    let read = triangles_at(words, start, triangles.len() as int);
    assert forall|k: int| 0 <= k < triangles.len() implies read[k] == triangles[k] by {
        assert(words[start + 3 * k] == triangle_words(triangles)[3 * k]);
        assert(words[start + 3 * k + 1] == triangle_words(triangles)[3 * k + 1]);
        assert(words[start + 3 * k + 2] == triangle_words(triangles)[3 * k + 2]);
    }
    assert(read =~= triangles);
    assert forall|i: int| start <= i < words.len() implies #[trigger] words[i] <= u32::MAX by {
        assert(words[i] == triangle_words(triangles)[i - start]);
    }
}

proof fn lemma_mesh_read_back(tag: u64, vertices: Seq<Vec3>, triangles: Seq<Triangle>)
    requires
        vertices.len() <= usize::MAX,
        triangles.len() <= usize::MAX,
    ensures
        ({
            let words = seq![tag, vertices.len() as u64, triangles.len() as u64] + vector_words(
                vertices,
            ) + triangle_words(triangles);
            &&& words[0] == tag
            &&& mesh_layout(words)
            &&& vectors_at(words, 3, words[1] as int) == vertices
            &&& triangles_at(words, 3 + 3 * words[1], words[2] as int) == triangles
        }),
{
    let head = seq![tag, vertices.len() as u64, triangles.len() as u64];
    let words = head + vector_words(vertices) + triangle_words(triangles);
    assert(words[0] == head[0]);
    assert(words[1] == head[1]);
    assert(words[2] == head[2]);
    lemma_vectors_read_back(head, vertices, triangle_words(triangles));
    lemma_triangles_read_back(head + vector_words(vertices), triangles);
}

/// The words of a shape spell out that shape again.
pub proof fn lemma_words_round_trip(collider: ColliderView)
    requires
        countable(collider),
    ensures
        words_collider(collider_words(collider)) == Some(collider),
{
    match collider {
        ColliderView::Cuboid { half_extents } => {},
        ColliderView::ConvexHull { vertices } => {
            let head = seq![TAG_CONVEX_HULL, vertices.len() as u64];
            let words = collider_words(collider);
            assert(words == head + vector_words(vertices) + Seq::<u64>::empty());
            assert(words[0] == head[0]);
            assert(words[1] == head[1]);
            lemma_vectors_read_back(head, vertices, Seq::empty());
        },
        ColliderView::ConvexMesh { vertices, triangles } => {
            lemma_mesh_read_back(TAG_CONVEX_MESH, vertices, triangles);
        },
        ColliderView::TriMesh { vertices, triangles } => {
            lemma_mesh_read_back(TAG_TRI_MESH, vertices, triangles);
        },
    }
}

fn push_vectors(words: &mut Vec<u64>, vectors: &Vec<Vec3>)
    ensures
        final(words)@ == old(words)@ + vector_words(vectors@),
{
    let ghost before = words@;
    let mut i: usize = 0;
    while i < vectors.len()
        invariant
            i <= vectors.len(),
            words@ == before + vector_words(vectors@).take(3 * i),
        decreases vectors.len() - i,
    {
        let v = vectors[i];
        words.push(v.x);
        words.push(v.y);
        words.push(v.z);
        i += 1;
    }
}

fn push_triangles(words: &mut Vec<u64>, triangles: &Vec<Triangle>)
    ensures
        final(words)@ == old(words)@ + triangle_words(triangles@),
{
    let ghost before = words@;
    let mut i: usize = 0;
    while i < triangles.len()
        invariant
            i <= triangles.len(),
            words@ == before + triangle_words(triangles@).take(3 * i),
        decreases triangles.len() - i,
    {
        let t = triangles[i];
        words.push(t.a as u64);
        words.push(t.b as u64);
        words.push(t.c as u64);
        i += 1;
    }
}

/// Lays a shape out as words.
pub fn collider_to_words(collider: &Collider) -> (words: Vec<u64>)
    ensures
        words@ == collider_words(collider@),
{
    let mut words: Vec<u64> = Vec::new();
    match collider {
        Collider::Cuboid { half_extents } => {
            words.push(TAG_CUBOID);
            words.push(half_extents.x);
            words.push(half_extents.y);
            words.push(half_extents.z);
        },
        Collider::ConvexHull { vertices } => {
            words.push(TAG_CONVEX_HULL);
            words.push(vertices.len() as u64);
            push_vectors(&mut words, vertices);
        },
        Collider::ConvexMesh { vertices, triangles } => {
            words.push(TAG_CONVEX_MESH);
            words.push(vertices.len() as u64);
            words.push(triangles.len() as u64);
            push_vectors(&mut words, vertices);
            push_triangles(&mut words, triangles);
        },
        Collider::TriMesh { vertices, triangles } => {
            words.push(TAG_TRI_MESH);
            words.push(vertices.len() as u64);
            words.push(triangles.len() as u64);
            push_vectors(&mut words, vertices);
            push_triangles(&mut words, triangles);
        },
    }
    words
}

fn read_vectors(words: &Vec<u64>, start: usize, count: usize) -> (vectors: Vec<Vec3>)
    requires
        start + 3 * count <= words.len(),
    ensures
        vectors@ == vectors_at(words@, start as int, count as int),
{
    let mut vectors: Vec<Vec3> = Vec::new();
    let mut k: usize = 0;
    while k < count
        invariant
            k <= count,
            start + 3 * count <= words.len(),
            vectors@ == vectors_at(words@, start as int, count as int).take(k as int),
        decreases count - k,
    {
        let at: usize = start + 3 * k;
        vectors.push(Vec3::new(words[at], words[at + 1], words[at + 2]));
        k += 1;
    }
    vectors
}

fn read_triangles(words: &Vec<u64>, start: usize, count: usize) -> (r: Option<Vec<Triangle>>)
    requires
        start + 3 * count == words.len(),
    ensures
        match r {
            Some(triangles) => indices_from(words@, start as int) && triangles@ == triangles_at(
                words@,
                start as int,
                count as int,
            ),
            None => !indices_from(words@, start as int),
        },
{
    let mut triangles: Vec<Triangle> = Vec::new();
    let mut k: usize = 0;
    while k < count
        invariant
            k <= count,
            start + 3 * count == words.len(),
            forall|i: int| start <= i < start + 3 * k ==> #[trigger] words@[i] <= u32::MAX,
            triangles@ == triangles_at(words@, start as int, count as int).take(k as int),
        decreases count - k,
    {
        let at: usize = start + 3 * k;
        let a: u64 = words[at];
        let b: u64 = words[at + 1];
        let c: u64 = words[at + 2];
        if a > 0xFFFF_FFFF || b > 0xFFFF_FFFF || c > 0xFFFF_FFFF {
            return None;
        }
        triangles.push(Triangle::new(a as u32, b as u32, c as u32));
        k += 1;
    }
    Some(triangles)
}

/// Reads the vertices and triangles of a mesh from its words.
fn read_mesh(words: &Vec<u64>) -> (r: Option<(Vec<Vec3>, Vec<Triangle>)>)
    ensures
        match r {
            Some(mesh) => mesh_layout(words@) && mesh.0@ == vectors_at(
                words@,
                3,
                words@[1] as int,
            ) && mesh.1@ == triangles_at(words@, 3 + 3 * words@[1], words@[2] as int),
            None => !mesh_layout(words@),
        },
{
    if words.len() < 3 {
        return None;
    }
    let rest: usize = words.len() - 3;
    if rest % 3 != 0 {
        return None;
    }
    let total: usize = rest / 3;
    let n: u64 = words[1];
    let m: u64 = words[2];
    if n > total as u64 {
        return None;
    }
    if m != total as u64 - n {
        return None;
    }
    let n: usize = n as usize;
    let m: usize = m as usize;
    let vertices = read_vectors(words, 3, n);
    match read_triangles(words, 3 + 3 * n, m) {
        None => None,
        Some(triangles) => Some((vertices, triangles)),
    }
}

/// Reads a shape from its words.
pub fn collider_from_words(words: &Vec<u64>) -> (r: Option<Collider>)
    ensures
        match r {
            Some(collider) => words_collider(words@) == Some(collider@),
            None => words_collider(words@) is None,
        },
{
    if words.len() == 0 {
        return None;
    }
    let tag: u64 = words[0];
    if tag == TAG_CUBOID {
        if words.len() == 4 {
            Some(Collider::Cuboid { half_extents: Vec3::new(words[1], words[2], words[3]) })
        } else {
            None
        }
    } else if tag == TAG_CONVEX_HULL {
        if words.len() < 2 {
            return None;
        }
        let rest: usize = words.len() - 2;
        let n: u64 = words[1];
        if rest % 3 != 0 || n != (rest / 3) as u64 {
            return None;
        }
        Some(Collider::ConvexHull { vertices: read_vectors(words, 2, rest / 3) })
    } else if tag == TAG_CONVEX_MESH {
        match read_mesh(words) {
            None => None,
            Some((vertices, triangles)) => Some(Collider::ConvexMesh { vertices, triangles }),
        }
    } else if tag == TAG_TRI_MESH {
        match read_mesh(words) {
            None => None,
            Some((vertices, triangles)) => Some(Collider::TriMesh { vertices, triangles }),
        }
    } else {
        None
    }
}

/// A shape as bytes: the placeholder that a node carries until the shape
/// itself can be attached.
#[derive(Debug, PartialEq, Eq)]
pub struct SerializedCollider {
    pub collider: Vec<u8>,
}

impl View for SerializedCollider {
    type V = Seq<u8>;

    open spec fn view(&self) -> Seq<u8> {
        self.collider@
    }
}

/// The bytes of a shape: those that `bincode` gives for its words, where it
/// gives any and reads the same words back from them. `None` otherwise, and
/// for a shape whose counts fit no word.
pub open spec fn encoded(collider: ColliderView) -> Option<Seq<u8>> {
    if !countable(collider) {
        None
    } else {
        match bincode_bytes(collider_words(collider)) {
            Some(bytes) => if bincode_words(bytes) == Some(collider_words(collider)) {
                Some(bytes)
            } else {
                None
            },
            None => None,
        }
    }
}

/// The shape that a run of bytes holds, `None` where it holds none.
pub open spec fn decoded(bytes: Seq<u8>) -> Option<ColliderView> {
    match bincode_words(bytes) {
        Some(words) => words_collider(words),
        None => None,
    }
}

/// A shape that has bytes comes back from them.
pub proof fn lemma_bytes_round_trip(collider: ColliderView)
    requires
        encoded(collider) is Some,
    ensures
        decoded(encoded(collider).unwrap()) == Some(collider),
{
    lemma_words_round_trip(collider);
}

/// The counts of a shape that is held in memory fit a word.
pub proof fn lemma_held_is_countable(collider: Collider)
    ensures
        countable(collider@),
{
    match collider {
        Collider::Cuboid { .. } => {},
        Collider::ConvexHull { vertices } => {
            assert(vertices@.len() == vertices.len());
        },
        Collider::ConvexMesh { vertices, triangles } => {
            assert(vertices@.len() == vertices.len());
            assert(triangles@.len() == triangles.len());
        },
        Collider::TriMesh { vertices, triangles } => {
            assert(vertices@.len() == vertices.len());
            assert(triangles@.len() == triangles.len());
        },
    }
}

/// Whether two runs of words are the same.
fn same_words(a: &Vec<u64>, b: &Vec<u64>) -> (r: bool)
    ensures
        r == (a@ == b@),
{
    if a.len() != b.len() {
        return false;
    }
    let mut i: usize = 0;
    while i < a.len()
        invariant
            i <= a.len(),
            a.len() == b.len(),
            forall|k: int| 0 <= k < i ==> a@[k] == b@[k],
        decreases a.len() - i,
    {
        if a[i] != b[i] {
            return false;
        }
        i += 1;
    }
    assert(a@ =~= b@);
    true
}

impl Default for SerializedCollider {
    fn default() -> (placeholder: SerializedCollider)
        ensures
            placeholder@ == Seq::<u8>::empty(),
    {
        SerializedCollider { collider: Vec::new() }
    }
}

impl SerializedCollider {
    /// Turns a shape into bytes, and makes sure that the bytes hold it: they
    /// are read back, and handed out only where they give the words of the
    /// shape again. So a placeholder that comes from here always decodes, and
    /// to the shape that it was made from.
    pub fn encode(collider: &Collider) -> (r: Option<SerializedCollider>)
        ensures
            match r {
                Some(placeholder) => {
                    &&& encoded(collider@) == Some(placeholder@)
                    &&& placeholder@ == words_as_bytes(collider_words(collider@))
                    &&& decoded(placeholder@) == Some(collider@)
                },
                None => encoded(collider@) is None,
            },
    {
        let words = collider_to_words(collider);
        let bytes = match words_to_bytes(&words) {
            Some(bytes) => bytes,
            None => {
                return None;
            },
        };
        let read_back = match bytes_to_words(&bytes) {
            Some(read_back) => read_back,
            None => {
                return None;
            },
        };
        if !same_words(&read_back, &words) {
            return None;
        }
        proof {
            lemma_held_is_countable(*collider);
            lemma_words_round_trip(collider@);
        }
        Some(SerializedCollider { collider: bytes })
    }

    /// Reads the shape back. `None` means that the bytes hold no shape.
    pub fn decode(&self) -> (r: Option<Collider>)
        ensures
            match r {
                Some(collider) => decoded(self@) == Some(collider@),
                None => decoded(self@) is None,
            },
    {
        match bytes_to_words(&self.collider) {
            Some(words) => collider_from_words(&words),
            None => None,
        }
    }

    /// A copy with the same bytes.
    pub fn duplicate(&self) -> (copy: SerializedCollider)
        ensures
            copy@ == self@,
    {
        SerializedCollider { collider: copied(&self.collider) }
    }
}

} // verus!
