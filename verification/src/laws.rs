//! What holds of every populated scene, whatever was drawn.

use vstd::prelude::*;
use crate::geometry::{
    is_distance, lemma_overlap_compares_distance, lemma_overlap_symmetric, spheres_overlap,
    SphereView,
};
use crate::material::{kind_of_draws, MaterialKind};
use crate::scene::{anchor_materials, anchor_spheres, exempt, SceneView};

verus! {

/// No two spheres of a populated scene overlap: the distance between their
/// centers is at least the sum of their radii. The one exception, which the
/// layout of the anchors makes, is the first anchor with each of the other
/// two.
pub proof fn lemma_no_overlap(scene: SceneView, count: nat, i: int, j: int, distance: real)
    requires
        scene.populated(count),
        0 <= i < scene.shapes.len(),
        0 <= j < scene.shapes.len(),
        i != j,
        !exempt(i, j),
        !exempt(j, i),
        is_distance(distance, scene.shapes[i].center, scene.shapes[j].center),
    ensures
        !spheres_overlap(scene.shapes[i], scene.shapes[j]),
        distance >= (scene.shapes[i].radius + scene.shapes[j].radius) as real,
{
    if j < i {
        lemma_overlap_symmetric(scene.shapes[i], scene.shapes[j]);
    }
    lemma_overlap_compares_distance(scene.shapes[i], scene.shapes[j], distance);
}

/// Every sphere of a populated scene has a positive radius.
pub proof fn lemma_radii_positive(scene: SceneView, count: nat, i: int)
    requires
        scene.populated(count),
        0 <= i < scene.shapes.len(),
    ensures
        scene.shapes[i].radius > 0,
{
    if i < 3 {
        assert(scene.shapes.subrange(0, 3)[i] == scene.shapes[i]);
    }
}

/// The first anchor does cut into each of the other two, in every populated
/// scene.
pub proof fn lemma_anchors_cross(scene: SceneView, count: nat)
    requires
        scene.populated(count),
    ensures
        spheres_overlap(scene.shapes[0], scene.shapes[1]),
        spheres_overlap(scene.shapes[0], scene.shapes[2]),
{
    let anchors = scene.shapes.subrange(0, 3);
    assert(anchors[0] == scene.shapes[0]);
    assert(anchors[1] == scene.shapes[1]);
    assert(anchors[2] == scene.shapes[2]);
    lemma_inner_anchors_cross(anchors[0], anchors[1]);
    lemma_inner_anchors_cross(anchors[0], anchors[2]);
}

/// Two spheres of radius 3.0, one unit apart along `x`, level in `y` and
/// four units apart along `z`, overlap.
proof fn lemma_inner_anchors_cross(a: SphereView, b: SphereView)
    by (nonlinear_arith)
    requires
        a.center.x - b.center.x == 1000 || a.center.x - b.center.x == -1000,
        a.center.y == b.center.y,
        a.center.z - b.center.z == 4000 || a.center.z - b.center.z == -4000,
        a.radius == 3000,
        b.radius == 3000,
    ensures
        spheres_overlap(a, b),
{
}

/// A scene populated with `count` random spheres holds exactly `3 + count`
/// spheres and exactly `3 + count` materials, and the material identifier
/// of every sphere is a key of the materials.
pub proof fn lemma_counts(scene: SceneView, count: nat)
    requires
        scene.populated(count),
    ensures
        scene.shapes.len() == 3 + count,
        scene.materials.dom().finite(),
        scene.materials.dom().len() == 3 + count,
        forall|i: int|
            0 <= i < scene.shapes.len() ==> scene.materials.contains_key(
                (#[trigger] scene.shapes[i]).material,
            ),
{
}

/// In a populated scene every lambertian or metal material has a fuzz and
/// no refraction index, and every dielectric material has a refraction
/// index and no fuzz.
pub proof fn lemma_attributes_exclusive(scene: SceneView, count: nat, key: Seq<char>)
    requires
        scene.populated(count),
        scene.materials.contains_key(key),
    ensures
        scene.materials[key].well_formed(),
        scene.materials[key].kind != MaterialKind::Dielectric ==> scene.materials[key].fuzz is Some
            && scene.materials[key].refraction_index is None,
        scene.materials[key].kind == MaterialKind::Dielectric
            ==> scene.materials[key].refraction_index is Some && scene.materials[key].fuzz is None,
{
    let j = choose|j: int|
        0 <= j < scene.shapes.len() && (#[trigger] scene.shapes[j]).material == key;
    if j < 3 {
        assert(scene.shapes.subrange(0, 3)[j] == scene.shapes[j]);
        assert(anchor_materials().contains_key(key));
    }
}

/// The anchors do not depend on what is drawn: any two populated scenes
/// begin with the same three spheres, made of the same three materials.
pub proof fn lemma_anchors_fixed(
    first: SceneView,
    first_count: nat,
    second: SceneView,
    second_count: nat,
    i: int,
)
    requires
        first.populated(first_count),
        second.populated(second_count),
        0 <= i < 3,
    ensures
        first.shapes[i] == anchor_spheres()[i],
        first.shapes[i] == second.shapes[i],
        first.materials[first.shapes[i].material]
            == anchor_materials()[anchor_spheres()[i].material],
        first.materials[first.shapes[i].material] == second.materials[second.shapes[i].material],
{
    assert(first.shapes.subrange(0, 3)[i] == first.shapes[i]);
    assert(second.shapes.subrange(0, 3)[i] == second.shapes[i]);
    assert(anchor_materials().contains_key(anchor_spheres()[i].material));
}

/// A scene populated with no random sphere is the three anchors and their
/// three materials, and nothing else.
pub proof fn lemma_anchors_alone(scene: SceneView)
    requires
        scene.populated(0),
    ensures
        scene.shapes == anchor_spheres(),
        scene.materials == anchor_materials(),
{
    assert(scene.shapes.subrange(0, 3) == scene.shapes);
    assert forall|key: Seq<char>|
        scene.materials.contains_key(key) implies anchor_materials().contains_key(key) by {
        let j = choose|j: int|
            0 <= j < scene.shapes.len() && (#[trigger] scene.shapes[j]).material == key;
        assert(anchor_spheres()[j].material == key);
    }
    assert(scene.materials =~= anchor_materials());
}

/// The pairs of draws that can come up: the first from `0..3`, the second
/// from `0..2`.
pub open spec fn draws() -> Set<(int, int)> {
    Set::new(|draw: (int, int)| 0 <= draw.0 < 3 && 0 <= draw.1 < 2)
}

/// The pairs of draws that choose `kind`.
pub open spec fn draws_choosing(kind: MaterialKind) -> Set<(int, int)> {
    draws().filter(|draw: (int, int)| kind_of_draws(draw.0, draw.1) == kind)
}

/// Of the six pairs of draws, four choose lambertian, one chooses metal and
/// one dielectric.
pub proof fn lemma_kind_shares()
    ensures
        draws().finite(),
        draws().len() == 6,
        draws_choosing(MaterialKind::Lambertian).len() == 4,
        draws_choosing(MaterialKind::Metal).len() == 1,
        draws_choosing(MaterialKind::Dielectric).len() == 1,
{
    assert(draws() =~= set![
        (0int, 0int),
        (0int, 1int),
        (1int, 0int),
        (1int, 1int),
        (2int, 0int),
        (2int, 1int),
    ]);
    assert(draws_choosing(MaterialKind::Lambertian) =~= set![
        (1int, 0int),
        (1int, 1int),
        (2int, 0int),
        (2int, 1int),
    ]);
    assert(draws_choosing(MaterialKind::Metal) =~= set![(0int, 1int)]);
    assert(draws_choosing(MaterialKind::Dielectric) =~= set![(0int, 0int)]);
}

} // verus!
