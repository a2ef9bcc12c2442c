//! The scene and the algorithm that populates it.

use vstd::prelude::*;
use crate::geometry::{
    lemma_overlap_symmetric, overlap, overlaps_any, sphere_views, spheres_overlap, Fixed, Point,
    Sphere, SphereView,
};
use crate::material::{
    brown_material, dielectric_material, generate_material, is_generated, metal_material, Color,
    Material,
};
use crate::source::{is_uuid_text, random_in};
use crate::table::MaterialTable;

verus! {

/// The camera settings, carried through to the scene unchanged.
#[derive(Clone, Copy, Debug, PartialEq, Eq, Structural)]
pub struct Camera {
    pub pixel_samples: usize,
    pub vfov: Fixed,
    pub lookfrom: Point,
    pub lookat: Point,
    pub vup: Point,
    pub defocus_angle: Fixed,
    pub focus_dist: Fixed,
    pub aspect_ratio: Fixed,
    pub image_width: usize,
    pub max_depth: usize,
    pub background: Color,
}

impl Camera {
    /// The ranges that make sense to a renderer: at least one sample per
    /// pixel, and a positive aspect ratio.
    pub open spec fn valid(&self) -> bool {
        self.pixel_samples >= 1 && self.aspect_ratio > 0
    }

    /// Checks the ranges of [`Camera::valid`].
    pub fn is_valid(&self) -> (ok: bool)
        ensures
            ok == self.valid(),
    {
        self.pixel_samples >= 1 && self.aspect_ratio > 0
    }
}

/// A camera, the materials by identifier, and the spheres in the order in
/// which they were placed.
#[derive(Clone, Debug, PartialEq, Eq)]
pub struct Scene {
    pub camera: Camera,
    pub materials: MaterialTable,
    pub shapes: Vec<Sphere>,
}

/// What a [`Scene`] is to the contracts.
pub struct SceneView {
    pub camera: Camera,
    pub materials: Map<Seq<char>, Material>,
    pub shapes: Seq<SphereView>,
}

impl View for Scene {
    type V = SceneView;

    open spec fn view(&self) -> SceneView {
        SceneView {
            camera: self.camera,
            materials: self.materials@,
            shapes: sphere_views(self.shapes@),
        }
    }
}

/// Why a sphere could not be added.
#[derive(Clone, Copy, Debug, PartialEq, Eq, Structural)]
pub enum PopulateError {
    /// Every candidate position, up to the limit on attempts, cut into a
    /// sphere already placed.
    PlacementExhausted,
    /// The identifier of the sphere's material was already taken.
    DuplicateIdentifier,
}

/// Radius of each anchor sphere: 3.0.
pub const ANCHOR_RADIUS: Fixed = 3000;

/// Radius of each random sphere: 1.0.
pub const SMALL_RADIUS: Fixed = 1000;

/// Height of the center of each random sphere: 1.0.
pub const SMALL_HEIGHT: Fixed = 1000;

/// Least `x` and `z` of the center of a random sphere: -30.0.
pub const REGION_START: Fixed = -30_000;

/// The `x` and `z` of the center of a random sphere stay below this: 30.0.
pub const REGION_END: Fixed = 30_000;

/// The three anchor spheres, in the order in which every scene lists them.
pub open spec fn anchor_spheres() -> Seq<SphereView> {
    seq![
        SphereView {
            center: Point { x: 0, y: 3000, z: 0 },
            radius: ANCHOR_RADIUS,
            material: "brown"@,
        },
        SphereView {
            center: Point { x: 1000, y: 3000, z: 4000 },
            radius: ANCHOR_RADIUS,
            material: "metal"@,
        },
        SphereView {
            center: Point { x: (-1000) as Fixed, y: 3000, z: (-4000) as Fixed },
            radius: ANCHOR_RADIUS,
            material: "dielectric"@,
        },
    ]
}

/// The materials of the anchor spheres under their fixed identifiers.
pub open spec fn anchor_materials() -> Map<Seq<char>, Material> {
    Map::<Seq<char>, Material>::empty().insert("brown"@, brown_material()).insert(
        "metal"@,
        metal_material(),
    ).insert("dielectric"@, dielectric_material())
}

/// A random sphere: unit radius, unit height, inside the region.
pub open spec fn is_small_sphere(sphere: SphereView) -> bool {
    &&& sphere.radius == SMALL_RADIUS
    &&& sphere.center.y == SMALL_HEIGHT
    &&& REGION_START <= sphere.center.x < REGION_END
    &&& REGION_START <= sphere.center.z < REGION_END
}

/// The first anchor cuts into each of the other two, as they were laid out
/// by hand; `exempt(i, j)` holds of exactly those two pairs of positions.
pub open spec fn exempt(i: int, j: int) -> bool {
    i == 0 && (j == 1 || j == 2)
}

/// Spheres and materials as they stand once the anchors and `count` random
/// spheres are in.
pub open spec fn arranged(
    shapes: Seq<SphereView>,
    materials: Map<Seq<char>, Material>,
    count: nat,
) -> bool {
    &&& shapes.len() == 3 + count
    &&& shapes.subrange(0, 3) == anchor_spheres()
    &&& forall|j: int| 3 <= j < shapes.len() ==> is_small_sphere(#[trigger] shapes[j])
    &&& forall|j: int| 3 <= j < shapes.len() ==> is_uuid_text((#[trigger] shapes[j]).material)
    &&& forall|i: int, j: int|
        3 <= i < j < shapes.len() ==> (#[trigger] shapes[i]).material != (
        #[trigger] shapes[j]).material
    &&& forall|i: int, j: int|
        0 <= i < j < shapes.len() && !exempt(i, j) ==> !spheres_overlap(
            #[trigger] shapes[i],
            #[trigger] shapes[j],
        )
    &&& materials.dom().finite()
    &&& materials.dom().len() == 3 + count
    &&& anchor_materials().submap_of(materials)
    &&& forall|j: int|
        0 <= j < shapes.len() ==> materials.contains_key((#[trigger] shapes[j]).material)
    &&& forall|j: int|
        3 <= j < shapes.len() ==> is_generated(materials[(#[trigger] shapes[j]).material])
    &&& forall|key: Seq<char>|
        materials.contains_key(key) ==> exists|j: int|
            0 <= j < shapes.len() && (#[trigger] shapes[j]).material == key
}

impl SceneView {
    /// The scene holds the anchors and `count` random spheres: see
    /// [`arranged`].
    pub open spec fn populated(self, count: nat) -> bool {
        arranged(self.shapes, self.materials, count)
    }
}

/// Puts in the three anchor spheres and their materials: a brown matte
/// sphere, a metal one and a glass one, each under its fixed identifier.
/// Whatever one of the three identifiers named before, it names the
/// anchor's material afterwards.
pub fn add_large_spheres(materials: &mut MaterialTable, shapes: &mut Vec<Sphere>)
    requires
        old(materials).wf(),
    ensures
        final(materials).wf(),
        final(materials)@ == old(materials)@.insert("brown"@, brown_material()).insert(
            "metal"@,
            metal_material(),
        ).insert("dielectric"@, dielectric_material()),
        sphere_views(final(shapes)@) == sphere_views(old(shapes)@) + anchor_spheres(),
{
    materials.insert("brown".to_string(), Material::diffuse(Color { r: 100, g: 40, b: 0 }));
    shapes.push(
        Sphere {
            center: Point { x: 0, y: 3000, z: 0 },
            radius: ANCHOR_RADIUS,
            material: "brown".to_string(),
        },
    );

    materials.insert("metal".to_string(), Material::reflective());
    shapes.push(
        Sphere {
            center: Point { x: 1000, y: 3000, z: 4000 },
            radius: ANCHOR_RADIUS,
            material: "metal".to_string(),
        },
    );

    materials.insert("dielectric".to_string(), Material::refractive());
    shapes.push(
        Sphere {
            center: Point { x: -1000, y: 3000, z: -4000 },
            radius: ANCHOR_RADIUS,
            material: "dielectric".to_string(),
        },
    );
}

/// The random sphere at `(x, 1.0, z)` made of `material`.
pub open spec fn small_sphere(x: Fixed, z: Fixed, material: Seq<char>) -> SphereView {
    SphereView {
        center: Point { x, y: SMALL_HEIGHT, z },
        radius: SMALL_RADIUS,
        material,
    }
}

/// Makes the random sphere at `(x, 1.0, z)`.
pub fn small_sphere_at(x: Fixed, z: Fixed, material_id: &String) -> (sphere: Sphere)
    ensures
        sphere@ == small_sphere(x, z, material_id@),
{
    Sphere {
        center: Point { x, y: SMALL_HEIGHT, z },
        radius: SMALL_RADIUS,
        material: material_id.clone(),
    }
}

/// One step of rejection sampling: appends `candidate` if it overlaps none
/// of `shapes`, and leaves `shapes` alone if it does.
pub fn try_place(shapes: &mut Vec<Sphere>, candidate: Sphere) -> (accepted: bool)
    ensures
        accepted == !overlaps_any(candidate@, sphere_views(old(shapes)@)),
        final(shapes)@ == (if accepted {
            old(shapes)@.push(candidate)
        } else {
            old(shapes)@
        }),
{
    if overlap(&candidate, shapes) {
        false
    } else {
        shapes.push(candidate);
        true
    }
}

/// A coordinate inside the region of the random spheres.
pub open spec fn in_region(v: Fixed) -> bool {
    REGION_START <= v < REGION_END
}

/// No position in the region is free: wherever a random sphere is put, it
/// cuts into one of `shapes`.
pub open spec fn region_blocked(shapes: Seq<SphereView>, material: Seq<char>) -> bool {
    forall|x: Fixed, z: Fixed|
        in_region(x) && in_region(z) ==> overlaps_any(
            #[trigger] small_sphere(x, z, material),
            shapes,
        )
}

/// Every position in the region is free of `shapes`.
pub open spec fn region_free(shapes: Seq<SphereView>, material: Seq<char>) -> bool {
    forall|x: Fixed, z: Fixed|
        in_region(x) && in_region(z) ==> !overlaps_any(
            #[trigger] small_sphere(x, z, material),
            shapes,
        )
}

/// Rejection sampling for one sphere: draws positions in the region until
/// one is free of every sphere of `shapes`, and appends the sphere there.
/// Gives up, leaving `shapes` as it was, once `max_attempts` candidates
/// have been turned down.
///
/// Where every position is free one attempt is enough; where none is, or no
/// attempt is allowed, the search fails. In between, the draws decide.
pub fn place_sphere(shapes: &mut Vec<Sphere>, material_id: &String, max_attempts: u64) -> (placed:
    bool)
    ensures
        placed ==> {
            &&& final(shapes)@.len() == old(shapes)@.len() + 1
            &&& final(shapes)@.drop_last() == old(shapes)@
            &&& is_small_sphere(final(shapes)@.last()@)
            &&& final(shapes)@.last()@.material == material_id@
            &&& !overlaps_any(final(shapes)@.last()@, sphere_views(old(shapes)@))
        },
        !placed ==> final(shapes)@ == old(shapes)@,
        max_attempts == 0 ==> !placed,
        region_blocked(sphere_views(old(shapes)@), material_id@) ==> !placed,
        max_attempts > 0 && region_free(sphere_views(old(shapes)@), material_id@) ==> placed,
{
    let mut attempts: u64 = 0;
    while attempts < max_attempts
        invariant
            attempts <= max_attempts,
            shapes@ == old(shapes)@,
            attempts > 0 ==> !region_free(sphere_views(old(shapes)@), material_id@),
        decreases max_attempts - attempts,
    {
        let x: Fixed = random_in(REGION_START, REGION_END);
        let z: Fixed = random_in(REGION_START, REGION_END);
        let candidate = small_sphere_at(x, z, material_id);
        if try_place(shapes, candidate) {
            return true;
        }
        attempts += 1;
    }
    false
}

/// Adds one random sphere made of `material`, which goes into `materials`
/// under `id`. An identifier that is already taken is refused and nothing
/// changes. Otherwise the material is registered first and a place for the
/// sphere is sought as [`place_sphere`] does; if none is found the material
/// stays registered.
pub fn add_sphere(
    materials: &mut MaterialTable,
    shapes: &mut Vec<Sphere>,
    id: String,
    material: Material,
    max_attempts: u64,
) -> (result: Result<(), PopulateError>)
    requires
        old(materials).wf(),
    ensures
        final(materials).wf(),
        old(materials)@.contains_key(id@) ==> {
            &&& result == Err::<(), PopulateError>(PopulateError::DuplicateIdentifier)
            &&& final(materials)@ == old(materials)@
        },
        !old(materials)@.contains_key(id@) ==> {
            &&& result != Err::<(), PopulateError>(PopulateError::DuplicateIdentifier)
            &&& final(materials)@ == old(materials)@.insert(id@, material)
            &&& max_attempts == 0 || region_blocked(sphere_views(old(shapes)@), id@)
                ==> result is Err
            &&& max_attempts > 0 && region_free(sphere_views(old(shapes)@), id@) ==> result is Ok
        },
        result is Ok ==> {
            &&& final(shapes)@.len() == old(shapes)@.len() + 1
            &&& final(shapes)@.drop_last() == old(shapes)@
            &&& is_small_sphere(final(shapes)@.last()@)
            &&& final(shapes)@.last()@.material == id@
            &&& !overlaps_any(final(shapes)@.last()@, sphere_views(old(shapes)@))
        },
        result is Err ==> final(shapes)@ == old(shapes)@,
{
    if materials.contains(&id) {
        return Err(PopulateError::DuplicateIdentifier);
    }
    materials.insert(id.clone(), material);
    if place_sphere(shapes, &id, max_attempts) {
        Ok(())
    } else {
        Err(PopulateError::PlacementExhausted)
    }
}

/// The three anchor identifiers differ from each other and from every
/// random identifier.
proof fn lemma_anchor_names(text: Seq<char>)
    ensures
        "brown"@ != "metal"@,
        "brown"@ != "dielectric"@,
        "metal"@ != "dielectric"@,
        is_uuid_text(text) ==> text != "brown"@ && text != "metal"@ && text != "dielectric"@,
{
    reveal_strlit("brown");
    reveal_strlit("metal");
    reveal_strlit("dielectric");
    assert("brown"@[0] != "metal"@[0]);
}

/// Two spheres of radius 3.0, two units apart along `x`, level in `y` and
/// eight units apart along `z`, do not overlap.
proof fn lemma_outer_anchors_apart(a: SphereView, b: SphereView)
    by (nonlinear_arith)
    requires
        a.center.x - b.center.x == 2000,
        a.center.y == b.center.y,
        a.center.z - b.center.z == 8000,
        a.radius == 3000,
        b.radius == 3000,
    ensures
        !spheres_overlap(a, b),
{
}

/// The anchors alone are the scene with no random sphere.
proof fn lemma_anchors_arranged()
    ensures
        arranged(anchor_spheres(), anchor_materials(), 0),
{
    let shapes = anchor_spheres();
    let materials = anchor_materials();
    lemma_anchor_names(Seq::empty());
    assert(shapes.subrange(0, 3) == shapes);
    assert(materials.dom() == set!["brown"@, "metal"@, "dielectric"@]);
    assert(!spheres_overlap(shapes[1], shapes[2])) by {
        lemma_outer_anchors_apart(shapes[1], shapes[2]);
    }
    assert forall|key: Seq<char>| materials.contains_key(key) implies exists|j: int|
        0 <= j < shapes.len() && (#[trigger] shapes[j]).material == key by {
        if key == "brown"@ {
            assert(shapes[0].material == key);
        } else if key == "metal"@ {
            assert(shapes[1].material == key);
        } else {
            assert(shapes[2].material == key);
        }
    }
}

/// A random sphere that is free of every sphere so far, made of a material
/// under an identifier that is not yet taken, extends the arrangement by
/// one.
proof fn lemma_arranged_step(
    shapes: Seq<SphereView>,
    materials: Map<Seq<char>, Material>,
    count: nat,
    sphere: SphereView,
    material: Material,
)
    requires
        arranged(shapes, materials, count),
        is_small_sphere(sphere),
        is_uuid_text(sphere.material),
        is_generated(material),
        !materials.contains_key(sphere.material),
        !overlaps_any(sphere, shapes),
    ensures
        arranged(shapes.push(sphere), materials.insert(sphere.material, material), count + 1),
{
    let after = shapes.push(sphere);
    let table = materials.insert(sphere.material, material);
    let last = shapes.len() as int;
    assert(after.subrange(0, 3) == shapes.subrange(0, 3));
    assert forall|i: int, j: int| 3 <= i < j < after.len() implies (#[trigger] after[i]).material
        != (#[trigger] after[j]).material by {
        if j == last {
            assert(materials.contains_key(shapes[i].material));
        }
    }
    assert forall|i: int, j: int|
        0 <= i < j < after.len() && !exempt(i, j) implies !spheres_overlap(
        #[trigger] after[i],
        #[trigger] after[j],
    ) by {
        if j == last {
            assert(!spheres_overlap(sphere, shapes[i]));
            lemma_overlap_symmetric(sphere, shapes[i]);
        }
    }
    assert(anchor_materials().submap_of(table)) by {
        assert forall|key: Seq<char>| anchor_materials().contains_key(key) implies key
            != sphere.material by {}
    }
    assert forall|j: int| 0 <= j < after.len() implies table.contains_key(
        (#[trigger] after[j]).material,
    ) by {
        if j < last {
            assert(materials.contains_key(shapes[j].material));
        }
    }
    assert forall|j: int| 3 <= j < after.len() implies is_generated(
        table[(#[trigger] after[j]).material],
    ) by {
        if j < last {
            assert(materials.contains_key(shapes[j].material));
            assert(is_generated(materials[shapes[j].material]));
        }
    }
    assert forall|key: Seq<char>| table.contains_key(key) implies exists|j: int|
        0 <= j < after.len() && (#[trigger] after[j]).material == key by {
        if key == sphere.material {
            assert(after[last].material == key);
        } else {
            let j = choose|j: int| 0 <= j < shapes.len() && (#[trigger] shapes[j]).material == key;
            assert(after[j].material == key);
        }
    }
}

/// An identifier that is already taken in an arrangement, yet has the shape
/// of a random one, belongs to a random sphere: there is one.
proof fn lemma_taken_identifier(
    shapes: Seq<SphereView>,
    materials: Map<Seq<char>, Material>,
    count: nat,
    id: Seq<char>,
)
    requires
        arranged(shapes, materials, count),
        is_uuid_text(id),
        materials.contains_key(id),
    ensures
        count >= 1,
{
    lemma_anchor_names(id);
    let j = choose|j: int| 0 <= j < shapes.len() && (#[trigger] shapes[j]).material == id;
    if j < 3 {
        assert(shapes.subrange(0, 3)[j] == shapes[j]);
    }
}

/// Builds a scene: the three anchor spheres first, then `count` random
/// spheres, each of a freshly generated material and none cutting into any
/// sphere placed before it. For each random sphere at most `max_attempts`
/// positions are tried.
///
/// The anchors are the same whatever is drawn. With no random sphere asked
/// for the scene is the anchors alone; with no attempt allowed the first
/// random sphere finds no place. Otherwise chance decides, and whatever it
/// decides, a scene that comes back is [`SceneView::populated`].
pub fn populate_scene(camera: Camera, count: usize, max_attempts: u64) -> (result: Result<
    Scene,
    PopulateError,
>)
    ensures
        count == 0 ==> result is Ok,
        count > 0 && max_attempts == 0 ==> result == Err::<Scene, PopulateError>(
            PopulateError::PlacementExhausted,
        ),
        match result {
            Ok(scene) => {
                &&& scene@.camera == camera
                &&& scene@.populated(count as nat)
                &&& scene.materials.wf()
            },
            Err(PopulateError::PlacementExhausted) => count >= 1,
            Err(PopulateError::DuplicateIdentifier) => count >= 2,
        },
{
    let mut materials = MaterialTable::new();
    let mut shapes: Vec<Sphere> = Vec::new();
    add_large_spheres(&mut materials, &mut shapes);
    proof {
        lemma_anchors_arranged();
        assert(sphere_views(shapes@) == anchor_spheres());
    }
    let mut placed: usize = 0;
    while placed < count
        invariant
            placed <= count,
            max_attempts == 0 ==> placed == 0,
            materials.wf(),
            arranged(sphere_views(shapes@), materials@, placed as nat),
        decreases count - placed,
    {
        let ghost before = sphere_views(shapes@);
        let ghost table = materials@;
        let (id, material) = generate_material();
        let ghost key = id@;
        match add_sphere(&mut materials, &mut shapes, id, material, max_attempts) {
            Ok(()) => {
                proof {
                    let sphere = shapes@.last()@;
                    assert(sphere_views(shapes@) == before.push(sphere));
                    lemma_arranged_step(before, table, placed as nat, sphere, material);
                }
            },
            Err(error) => {
                proof {
                    if table.contains_key(key) {
                        lemma_taken_identifier(before, table, placed as nat, key);
                    }
                }
                return Err(error);
            },
        }
        placed += 1;
    }
    Ok(Scene { camera, materials, shapes })
}

} // verus!
