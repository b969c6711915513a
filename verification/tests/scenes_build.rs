use raytracer::image::Image;
use raytracer::scenes;

fn tiny_image() -> Image {
    // A 2x2 grid with distinct corner colours.
    let data: Vec<u8> = vec![
        200, 40, 40, 40, 200, 40,
        40, 40, 200, 200, 200, 40,
    ];
    Image::new(2, 2, data).expect("consistent extents")
}

#[test]
fn checkered_spheres_scene_builds() {
    let s = scenes::checkered_spheres();
    assert_eq!(s.world.objects.len(), 2);
    assert_eq!(s.materials.len(), 1);
    assert_eq!(s.camera.image_width, 1200);
    assert!(s.camera.image_height >= 1);
}

#[test]
fn quads_scene_builds() {
    let s = scenes::quads();
    assert_eq!(s.world.objects.len(), 5);
    assert_eq!(s.materials.len(), 5);
}

#[test]
fn light_scene_builds() {
    let s = scenes::light();
    assert_eq!(s.world.objects.len(), 4);
    assert_eq!(s.materials.len(), 3);
}

#[test]
fn cornell_box_scene_builds() {
    let s = scenes::cornell_box();
    assert_eq!(s.world.objects.len(), 8);
    assert_eq!(s.materials.len(), 4);
    assert_eq!(s.camera.image_width, 1000);
}

#[test]
fn earth_scene_builds() {
    let s = scenes::earth(tiny_image());
    assert_eq!(s.world.objects.len(), 1);
    assert_eq!(s.materials.len(), 1);
}

#[test]
fn spheres_and_cubes_scene_builds() {
    let s = scenes::spheres_and_cubes(tiny_image(), tiny_image());
    // The fixed furniture is always present; the random field varies.
    assert!(s.world.objects.len() >= 4);
    assert!(s.materials.len() >= 4);
}

#[test]
fn final_scene_builds() {
    let s = scenes::final_scene(tiny_image(), tiny_image());
    // 400 ground boxes, 8 fixed pieces, 1000 drifting spheres.
    assert_eq!(s.world.objects.len(), 1408);
    assert_eq!(s.materials.len(), 8);
}
