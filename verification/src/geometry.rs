//! Points, spheres and the overlap test.

use vstd::prelude::*;

verus! {

/// A length, coordinate or other real quantity, counted in thousandths.
pub type Fixed = i32;

/// The number one, in thousandths.
pub const UNIT: Fixed = 1000;

/// A position in space.
#[derive(Clone, Copy, Debug, PartialEq, Eq, Structural)]
pub struct Point {
    pub x: Fixed,
    pub y: Fixed,
    pub z: Fixed,
}

/// A sphere and the identifier of the material it is made of.
#[derive(Clone, Debug, PartialEq, Eq)]
pub struct Sphere {
    pub center: Point,
    pub radius: Fixed,
    pub material: String,
}

/// What a [`Sphere`] is to the contracts: its geometry and the characters of
/// its material identifier.
pub struct SphereView {
    pub center: Point,
    pub radius: Fixed,
    pub material: Seq<char>,
}

impl View for Sphere {
    type V = SphereView;

    open spec fn view(&self) -> SphereView {
        SphereView { center: self.center, radius: self.radius, material: self.material@ }
    }
}

/// The views of a list of spheres, in order.
pub open spec fn sphere_views(shapes: Seq<Sphere>) -> Seq<SphereView> {
    Seq::new(shapes.len(), |i: int| shapes[i]@)
}

/// The square of the Euclidean distance between two points.
pub open spec fn dist_sq(a: Point, b: Point) -> int {
    (a.x - b.x) * (a.x - b.x) + (a.y - b.y) * (a.y - b.y) + (a.z - b.z) * (a.z - b.z)
}

/// `distance` is the Euclidean distance between the two points.
pub open spec fn is_distance(distance: real, a: Point, b: Point) -> bool {
    distance >= 0real && distance * distance == dist_sq(a, b) as real
}

/// Two spheres overlap when their centers are strictly closer than the sum
/// of their radii. Comparing squares avoids the square root:
/// [`lemma_overlap_compares_distance`] shows that nothing is lost.
pub open spec fn spheres_overlap(a: SphereView, b: SphereView) -> bool {
    let reach = a.radius + b.radius;
    reach > 0 && dist_sq(a.center, b.center) < reach * reach
}

/// Whether `sphere` overlaps at least one member of `placed`.
pub open spec fn overlaps_any(sphere: SphereView, placed: Seq<SphereView>) -> bool {
    exists|i: int| 0 <= i < placed.len() && spheres_overlap(sphere, #[trigger] placed[i])
}

proof fn lemma_square_bound(d: int)
    by (nonlinear_arith)
    requires
        -0x1_0000_0000 < d < 0x1_0000_0000,
    ensures
        0 <= d * d < 0x1_0000_0000_0000_0000,
{
}

proof fn lemma_square_of_negation(d: int)
    by (nonlinear_arith)
    ensures
        (0 - d) * (0 - d) == d * d,
{
}

proof fn lemma_square_order(d: real, s: real)
    by (nonlinear_arith)
    requires
        d >= 0real,
    ensures
        d < s <==> s > 0real && d * d < s * s,
{
}

/// Two spheres overlap exactly when the distance between their centers is
/// less than the sum of their radii.
pub proof fn lemma_overlap_compares_distance(a: SphereView, b: SphereView, distance: real)
    requires
        is_distance(distance, a.center, b.center),
    ensures
        spheres_overlap(a, b) <==> distance < (a.radius + b.radius) as real,
{
    let reach = a.radius + b.radius;
    lemma_square_order(distance, reach as real);
    assert((reach as real) * (reach as real) == (reach * reach) as real) by (nonlinear_arith);
}

/// The order of the two spheres does not matter to the overlap test.
pub proof fn lemma_overlap_symmetric(a: SphereView, b: SphereView)
    ensures
        spheres_overlap(a, b) == spheres_overlap(b, a),
{
    lemma_square_of_negation(a.center.x - b.center.x);
    lemma_square_of_negation(a.center.y - b.center.y);
    lemma_square_of_negation(a.center.z - b.center.z);
    assert(dist_sq(a.center, b.center) == dist_sq(b.center, a.center));
}

impl Sphere {
    /// Tests this sphere against one other.
    pub fn overlaps(&self, other: &Sphere) -> (hit: bool)
        ensures
            hit == spheres_overlap(self@, other@),
    {
        let reach: i64 = self.radius as i64 + other.radius as i64;
        if reach <= 0 {
            return false;
        }
        let dx: i64 = self.center.x as i64 - other.center.x as i64;
        let dy: i64 = self.center.y as i64 - other.center.y as i64;
        let dz: i64 = self.center.z as i64 - other.center.z as i64;
        proof {
            lemma_square_bound(dx as int);
            lemma_square_bound(dy as int);
            lemma_square_bound(dz as int);
            lemma_square_bound(reach as int);
        }
        let gap: i128 = (dx as i128) * (dx as i128) + (dy as i128) * (dy as i128) + (dz as i128)
            * (dz as i128);
        gap < (reach as i128) * (reach as i128)
    }
}

/// Tests `sphere` against every sphere of `shapes`.
pub fn overlap(sphere: &Sphere, shapes: &Vec<Sphere>) -> (found: bool)
    ensures
        found == overlaps_any(sphere@, sphere_views(shapes@)),
{
    let mut i: usize = 0;
    while i < shapes.len()
        invariant
            i <= shapes.len(),
            forall|k: int|
                0 <= k < i ==> !spheres_overlap(sphere@, #[trigger] sphere_views(shapes@)[k]),
        decreases shapes.len() - i,
    {
        if sphere.overlaps(&shapes[i]) {
            assert(spheres_overlap(sphere@, sphere_views(shapes@)[i as int]));
            return true;
        }
        i += 1;
    }
    false
}

} // verus!
