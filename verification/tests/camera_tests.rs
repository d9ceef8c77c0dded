use particle_field::camera::Camera;

fn test_camera(zoom_tenths: i32) -> Camera {
    let mut cam = Camera::new(800, 600);
    cam.set_zoom_level(zoom_tenths);
    cam
}

#[test]
fn new_camera_starts_at_home_zoom() {
    let cam = Camera::new(800, 600);
    assert_eq!(cam.width, 800);
    assert_eq!(cam.height, 600);
    assert_eq!(cam.pan_x, 0);
    assert_eq!(cam.pan_y, 0);
    assert_eq!(cam.zoom_tenths, -44);
    assert_eq!(cam.zoom_factor, 3104);
}

#[test]
fn zoom_factor_follows_level() {
    assert_eq!(test_camera(0).zoom_factor, 65536);
    assert_eq!(test_camera(2).zoom_factor, 75281);
    assert_eq!(test_camera(-2).zoom_factor, 57052);
    assert_eq!(test_camera(20).zoom_factor, 262144);
    assert_eq!(test_camera(200).zoom_factor, 68719476736);
    // Even at the lowest kept level the factor stays strictly positive.
    assert_eq!(test_camera(-160).zoom_factor, 1);
}

#[test]
fn scene_to_canvas_unit_point() {
    // At zoom factor 1.0 the shorter side (600 px) spans one scene unit.
    let cam = test_camera(0);
    assert_eq!(cam.scene_to_canvas(65536, 65536), (1000, -300));
    assert_eq!(cam.scene_to_canvas(0, 0), (400, 300));
}

#[test]
fn canvas_to_scene_inverts_exactly_on_pixel_centres() {
    let cam = test_camera(0);
    assert_eq!(cam.canvas_to_scene(1000, -300), (65536, 65536));
    assert_eq!(cam.canvas_to_scene(400, 300), (0, 0));
}

#[test]
fn round_trip_error_within_one_pixel() {
    let cam = test_camera(-44);
    // One pixel spans SCALE^2 / (600 * 3104) scene units here.
    let pixel = 65536i64 * 65536 / (600 * 3104);
    for &p in &[0i64, 65536, -65536, 123456, -9876543, 655360] {
        let c = cam.scene_to_canvas(p, p);
        let back = cam.canvas_to_scene(c.0, c.1);
        assert!((back.0 - p).abs() <= pixel + 2);
        assert!((back.1 - p).abs() <= pixel + 2);
    }
}

#[test]
fn vertical_axis_is_inverted() {
    let cam = test_camera(0);
    // Scene +y is up; canvas +y is down.
    let above = cam.scene_to_canvas(0, 65536);
    let below = cam.scene_to_canvas(0, -65536);
    assert!(above.1 < below.1);
}

#[test]
fn zoom_to_pointer_keeps_cursor_point_zoom_in() {
    let mut cam = test_camera(0);
    let before = cam.canvas_to_scene(500, 200);
    cam.zoom_about_pointer(true, 500, 200);
    assert_eq!(cam.zoom_tenths, 2);
    let after = cam.canvas_to_scene(500, 200);
    assert_eq!(before, after);
}

#[test]
fn zoom_to_pointer_keeps_cursor_point_zoom_out() {
    let mut cam = test_camera(-44);
    cam.pan_x = 123456;
    cam.pan_y = -654321;
    let before = cam.canvas_to_scene(17, 583);
    cam.zoom_about_pointer(false, 17, 583);
    assert_eq!(cam.zoom_tenths, -46);
    let after = cam.canvas_to_scene(17, 583);
    assert_eq!(before, after);
}

#[test]
fn zoom_level_saturates_at_range_ends() {
    let mut cam = test_camera(200);
    cam.zoom_about_pointer(true, 400, 300);
    assert_eq!(cam.zoom_tenths, 200);
    let mut cam = test_camera(-160);
    cam.zoom_about_pointer(false, 400, 300);
    assert_eq!(cam.zoom_tenths, -160);
}
