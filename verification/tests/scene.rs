use scene_gen::geometry::{overlap, Point, Sphere};
use scene_gen::material::{Color, Material, MaterialKind};
use scene_gen::scene::{
    add_large_spheres, add_sphere, place_sphere, populate_scene, small_sphere_at, try_place,
    Camera, PopulateError, Scene, ANCHOR_RADIUS, REGION_END, REGION_START, SMALL_HEIGHT,
    SMALL_RADIUS,
};
use scene_gen::table::MaterialTable;

fn camera() -> Camera {
    Camera {
        pixel_samples: 10,
        vfov: 22_000,
        lookfrom: Point { x: 0, y: 5000, z: 40_000 },
        lookat: Point { x: 0, y: 0, z: 0 },
        vup: Point { x: 0, y: 1000, z: 0 },
        defocus_angle: 400,
        focus_dist: 19_000,
        aspect_ratio: 1300,
        image_width: 50,
        max_depth: 10,
        background: Color { r: 100, g: 100, b: 100 },
    }
}

fn anchors() -> Vec<Sphere> {
    vec![
        Sphere {
            center: Point { x: 0, y: 3000, z: 0 },
            radius: 3000,
            material: String::from("brown"),
        },
        Sphere {
            center: Point { x: 1000, y: 3000, z: 4000 },
            radius: 3000,
            material: String::from("metal"),
        },
        Sphere {
            center: Point { x: -1000, y: 3000, z: -4000 },
            radius: 3000,
            material: String::from("dielectric"),
        },
    ]
}

fn brown() -> Material {
    Material {
        kind: MaterialKind::Lambertian,
        color: Color { r: 100, g: 40, b: 0 },
        fuzz: Some(1000),
        refraction_index: None,
    }
}

fn distance(a: &Sphere, b: &Sphere) -> f64 {
    let dx = (a.center.x as f64 - b.center.x as f64) / 1000.0;
    let dy = (a.center.y as f64 - b.center.y as f64) / 1000.0;
    let dz = (a.center.z as f64 - b.center.z as f64) / 1000.0;
    (dx * dx + dy * dy + dz * dz).sqrt()
}

fn assert_populated(scene: &Scene, count: usize) {
    // Counts, and every identifier resolves.
    assert_eq!(scene.shapes.len(), 3 + count);
    assert_eq!(scene.materials.len(), 3 + count);
    assert_eq!(scene.materials.entries.len(), 3 + count);
    for sphere in &scene.shapes {
        assert!(scene.materials.contains(&sphere.material));
    }
    // The anchors come first.
    assert_eq!(&scene.shapes[..3], &anchors()[..]);
    assert_eq!(scene.materials.get(&String::from("brown")), Some(brown()));
    assert_eq!(scene.materials.get(&String::from("metal")), Some(Material::reflective()));
    assert_eq!(scene.materials.get(&String::from("dielectric")), Some(Material::refractive()));
    // The random spheres.
    for sphere in &scene.shapes[3..] {
        assert_eq!(sphere.radius, 1000);
        assert_eq!(sphere.center.y, 1000);
        assert!(-30_000 <= sphere.center.x && sphere.center.x < 30_000);
        assert!(-30_000 <= sphere.center.z && sphere.center.z < 30_000);
        assert_eq!(sphere.material.len(), 36);
    }
    // No two spheres overlap, but for the first anchor and the other two.
    for j in 0..scene.shapes.len() {
        for i in 0..j {
            if i == 0 && j <= 2 {
                continue;
            }
            let (a, b) = (&scene.shapes[i], &scene.shapes[j]);
            assert!(!a.overlaps(b));
            assert!(distance(a, b) >= (a.radius as f64 + b.radius as f64) / 1000.0);
        }
    }
    // The optional attributes exclude each other.
    for entry in &scene.materials.entries {
        let material = entry.material;
        match material.kind {
            MaterialKind::Lambertian | MaterialKind::Metal => {
                assert!(material.fuzz.is_some());
                assert!(material.refraction_index.is_none());
            }
            MaterialKind::Dielectric => {
                assert!(material.refraction_index.is_some());
                assert!(material.fuzz.is_none());
            }
        }
    }
    // Each random sphere has a material of its own.
    let mut ids: Vec<&String> = scene.shapes.iter().map(|sphere| &sphere.material).collect();
    ids.sort();
    ids.dedup();
    assert_eq!(ids.len(), 3 + count);
}

#[test]
fn the_layout_constants_have_their_documented_values() {
    assert_eq!(ANCHOR_RADIUS, 3000);
    assert_eq!(SMALL_RADIUS, 1000);
    assert_eq!(SMALL_HEIGHT, 1000);
    assert_eq!(REGION_START, -30_000);
    assert_eq!(REGION_END, 30_000);
}

#[test]
fn no_random_spheres_gives_the_anchors_alone() {
    let scene = populate_scene(camera(), 0, 100).unwrap();
    assert_eq!(scene.camera, camera());
    assert_eq!(scene.shapes, anchors());
    assert_eq!(scene.materials.len(), 3);
    let ids: Vec<&str> = scene.materials.entries.iter().map(|entry| entry.id.as_str()).collect();
    assert_eq!(ids, vec!["brown", "metal", "dielectric"]);
    assert_eq!(scene.materials.entries[0].material, brown());
    assert_eq!(
        scene.materials.entries[1].material,
        Material {
            kind: MaterialKind::Metal,
            color: Color { r: 255, g: 255, b: 255 },
            fuzz: Some(50),
            refraction_index: None,
        }
    );
    assert_eq!(
        scene.materials.entries[2].material,
        Material {
            kind: MaterialKind::Dielectric,
            color: Color { r: 255, g: 255, b: 255 },
            fuzz: None,
            refraction_index: Some(1600),
        }
    );
    assert_populated(&scene, 0);
}

#[test]
fn no_random_spheres_needs_no_attempts() {
    let scene = populate_scene(camera(), 0, 0).unwrap();
    assert_eq!(scene.shapes, anchors());
}

#[test]
fn fifty_random_spheres_find_their_places() {
    let scene = populate_scene(camera(), 50, u64::MAX).unwrap();
    assert_eq!(scene.camera, camera());
    assert_populated(&scene, 50);
}

#[test]
fn one_random_sphere() {
    let scene = populate_scene(camera(), 1, u64::MAX).unwrap();
    assert_populated(&scene, 1);
}

#[test]
fn a_dense_scene_keeps_its_spheres_apart() {
    let scene = populate_scene(camera(), 400, u64::MAX).unwrap();
    assert_populated(&scene, 400);
}

#[test]
fn anchors_do_not_depend_on_the_draws() {
    let first = populate_scene(camera(), 20, u64::MAX).unwrap();
    let second = populate_scene(camera(), 35, u64::MAX).unwrap();
    assert_eq!(&first.shapes[..3], &second.shapes[..3]);
    assert_eq!(&first.materials.entries[..3], &second.materials.entries[..3]);
    assert_ne!(&first.shapes[3..23], &second.shapes[3..23]);
}

#[test]
fn the_camera_is_carried_through() {
    let mut other = camera();
    other.pixel_samples = 77;
    other.vfov = 90_000;
    other.background = Color { r: 1, g: 2, b: 3 };
    let scene = populate_scene(other, 3, u64::MAX).unwrap();
    assert_eq!(scene.camera, other);
}

#[test]
fn without_attempts_the_first_random_sphere_finds_no_place() {
    assert_eq!(populate_scene(camera(), 1, 0), Err(PopulateError::PlacementExhausted));
    assert_eq!(populate_scene(camera(), 50, 0), Err(PopulateError::PlacementExhausted));
}

#[test]
fn more_spheres_than_the_region_holds_exhaust_the_placement() {
    // Unit discs with centers in a square of 60 by 60 lie in one of 62 by
    // 62, which has room for fewer than 1300 of them.
    assert_eq!(populate_scene(camera(), 1500, 25), Err(PopulateError::PlacementExhausted));
}

#[test]
fn add_large_spheres_appends_the_anchors() {
    let mut materials = MaterialTable::new();
    let mut shapes = vec![small_sphere_at(20_000, 20_000, &String::from("x"))];
    add_large_spheres(&mut materials, &mut shapes);
    assert_eq!(shapes.len(), 4);
    assert_eq!(shapes[0], small_sphere_at(20_000, 20_000, &String::from("x")));
    assert_eq!(&shapes[1..], &anchors()[..]);
    assert_eq!(materials.len(), 3);
    assert_eq!(materials.get(&String::from("brown")), Some(brown()));
}

#[test]
fn add_large_spheres_takes_over_its_identifiers() {
    let mut materials = MaterialTable::new();
    materials.insert(String::from("metal"), Material::refractive());
    materials.insert(String::from("other"), Material::refractive());
    let mut shapes = Vec::new();
    add_large_spheres(&mut materials, &mut shapes);
    assert_eq!(materials.len(), 4);
    assert_eq!(materials.get(&String::from("metal")), Some(Material::reflective()));
    assert_eq!(materials.get(&String::from("other")), Some(Material::refractive()));
    assert_eq!(materials.get(&String::from("dielectric")), Some(Material::refractive()));
    assert_eq!(shapes, anchors());
}

#[test]
fn the_first_anchor_cuts_into_the_other_two() {
    let anchors = anchors();
    assert!(anchors[0].overlaps(&anchors[1]));
    assert!(anchors[0].overlaps(&anchors[2]));
    assert!(!anchors[1].overlaps(&anchors[2]));
}

#[test]
fn small_sphere_at_sits_at_unit_height_with_unit_radius() {
    assert_eq!(
        small_sphere_at(-12_345, 678, &String::from("id")),
        Sphere {
            center: Point { x: -12_345, y: 1000, z: 678 },
            radius: 1000,
            material: String::from("id"),
        }
    );
}

#[test]
fn try_place_accepts_a_free_candidate() {
    let mut shapes = anchors();
    let candidate = small_sphere_at(10_000, 10_000, &String::from("id"));
    assert!(try_place(&mut shapes, candidate.clone()));
    assert_eq!(shapes.len(), 4);
    assert_eq!(&shapes[..3], &anchors()[..]);
    assert_eq!(shapes[3], candidate);
}

#[test]
fn try_place_refuses_an_overlapping_candidate() {
    let mut shapes = anchors();
    assert!(!try_place(&mut shapes, small_sphere_at(0, 0, &String::from("id"))));
    assert_eq!(shapes, anchors());
    // A unit sphere at (x, 1, 0) is sqrt(x * x + 4) from the first anchor,
    // and the two reach 4: they overlap while x * x is below 12.
    assert!(!try_place(&mut shapes, small_sphere_at(3464, 0, &String::from("id"))));
    assert!(!try_place(&mut shapes, small_sphere_at(-3464, 0, &String::from("id"))));
    assert_eq!(shapes, anchors());
    assert!(try_place(&mut shapes, small_sphere_at(3465, 0, &String::from("id"))));
    assert_eq!(shapes.len(), 4);
}

#[test]
fn try_place_accepts_a_candidate_that_touches() {
    // Unit spheres at the same height, two units apart.
    let mut shapes = vec![small_sphere_at(20_000, 20_000, &String::from("a"))];
    assert!(!try_place(&mut shapes, small_sphere_at(21_999, 20_000, &String::from("b"))));
    assert!(try_place(&mut shapes, small_sphere_at(22_000, 20_000, &String::from("b"))));
    assert_eq!(shapes.len(), 2);
}

#[test]
fn place_sphere_needs_one_attempt_where_all_is_free() {
    let mut shapes = Vec::new();
    assert!(place_sphere(&mut shapes, &String::from("id"), 1));
    assert_eq!(shapes.len(), 1);
    let center = shapes[0].center;
    assert_eq!(shapes[0], small_sphere_at(center.x, center.z, &String::from("id")));
    assert!(-30_000 <= shapes[0].center.x && shapes[0].center.x < 30_000);
    assert!(-30_000 <= shapes[0].center.z && shapes[0].center.z < 30_000);
}

#[test]
fn place_sphere_without_attempts_places_nothing() {
    let mut shapes = Vec::new();
    assert!(!place_sphere(&mut shapes, &String::from("id"), 0));
    assert!(shapes.is_empty());
}

#[test]
fn place_sphere_gives_up_where_nothing_is_free() {
    let cover = Sphere {
        center: Point { x: 0, y: 0, z: 0 },
        radius: 100_000,
        material: String::from("cover"),
    };
    let mut shapes = vec![cover.clone()];
    assert!(!place_sphere(&mut shapes, &String::from("id"), 500));
    assert_eq!(shapes, vec![cover]);
}

#[test]
fn place_sphere_keeps_clear_of_what_is_there() {
    let mut shapes = anchors();
    for _ in 0..100 {
        let before = shapes.clone();
        assert!(place_sphere(&mut shapes, &String::from("id"), u64::MAX));
        assert_eq!(&shapes[..before.len()], &before[..]);
        assert!(!overlap(&shapes[before.len()], &before));
    }
}

#[test]
fn place_sphere_draws_different_positions() {
    let mut positions = std::collections::HashSet::new();
    for _ in 0..50 {
        let mut shapes = Vec::new();
        assert!(place_sphere(&mut shapes, &String::from("id"), 1));
        positions.insert((shapes[0].center.x, shapes[0].center.z));
    }
    assert!(positions.len() > 40);
}

#[test]
fn add_sphere_refuses_a_taken_identifier() {
    let mut materials = MaterialTable::new();
    let mut shapes = Vec::new();
    add_large_spheres(&mut materials, &mut shapes);
    let result =
        add_sphere(&mut materials, &mut shapes, String::from("brown"), Material::refractive(), 100);
    assert_eq!(result, Err(PopulateError::DuplicateIdentifier));
    assert_eq!(shapes, anchors());
    assert_eq!(materials.len(), 3);
    assert_eq!(materials.get(&String::from("brown")), Some(brown()));
}

#[test]
fn add_sphere_registers_the_material_and_places_the_sphere() {
    let mut materials = MaterialTable::new();
    let mut shapes = Vec::new();
    add_large_spheres(&mut materials, &mut shapes);
    let glass = Material::refractive();
    let result = add_sphere(&mut materials, &mut shapes, String::from("new"), glass, u64::MAX);
    assert_eq!(result, Ok(()));
    assert_eq!(materials.len(), 4);
    assert_eq!(materials.get(&String::from("new")), Some(Material::refractive()));
    assert_eq!(shapes.len(), 4);
    assert_eq!(shapes[3].material, "new");
    assert!(!overlap(&shapes[3], &anchors()));
}

#[test]
fn add_sphere_keeps_the_material_when_no_place_is_found() {
    let cover = Sphere {
        center: Point { x: 0, y: 0, z: 0 },
        radius: 100_000,
        material: String::from("cover"),
    };
    let mut materials = MaterialTable::new();
    materials.insert(String::from("cover"), Material::reflective());
    let mut shapes = vec![cover.clone()];
    let result =
        add_sphere(&mut materials, &mut shapes, String::from("new"), Material::refractive(), 200);
    assert_eq!(result, Err(PopulateError::PlacementExhausted));
    assert_eq!(shapes, vec![cover]);
    assert_eq!(materials.len(), 2);
    assert_eq!(materials.get(&String::from("new")), Some(Material::refractive()));
}

#[test]
fn add_sphere_without_attempts_is_exhausted() {
    let mut materials = MaterialTable::new();
    let mut shapes = Vec::new();
    let result =
        add_sphere(&mut materials, &mut shapes, String::from("new"), Material::refractive(), 0);
    assert_eq!(result, Err(PopulateError::PlacementExhausted));
    assert!(shapes.is_empty());
}

#[test]
fn a_camera_needs_a_sample_and_a_positive_aspect_ratio() {
    assert!(camera().is_valid());
    let mut blind = camera();
    blind.pixel_samples = 0;
    assert!(!blind.is_valid());
    let mut flat = camera();
    flat.aspect_ratio = 0;
    assert!(!flat.is_valid());
    flat.aspect_ratio = -1300;
    assert!(!flat.is_valid());
    flat.aspect_ratio = 1;
    assert!(flat.is_valid());
}
