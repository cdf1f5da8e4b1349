use pawngfx::math::{Vector2, Vector4};
use pawngfx::raster::{
    behind_near_plane, centre_of, coverage, rasterize, set_up, Coverage, Fate, PixelRect,
    RasterIn, Setup,
};
use pawngfx::buffer::Buffers;
use pawngfx::render::Renderer;

fn clip(x: f64, y: f64, z: f64, w: f64) -> Vector4<f64> {
    Vector4::new(x, y, z, w)
}

fn front_clip() -> (Vector4<f64>, Vector4<f64>, Vector4<f64>) {
    (clip(-1.0, 1.0, 0.25, 1.0), clip(-1.0, 0.0, 0.5, 1.0), clip(0.0, 1.0, 1.0, 1.0))
}

fn corner(x: f64, y: f64, z: f64, inv_w: f64) -> RasterIn<f64> {
    RasterIn { s: Vector2::new(x, y), z, inv_w }
}

fn front_setup() -> Setup<f64> {
    Setup {
        c0: corner(0.0, 0.0, 0.25, 1.0),
        c1: corner(0.0, 2.0, 0.5, 1.0),
        c2: corner(2.0, 0.0, 1.0, 1.0),
        inv_area: 0.25,
    }
}

#[test]
fn set_up_projects_a_triangle_in_front_of_the_viewer() {
    let (fate, setup) = set_up(front_clip(), 4.0, 4.0, 1e-9);
    assert_eq!(fate, Fate::Rendered);
    assert_eq!(setup, Some(front_setup()));
}

#[test]
fn set_up_divides_by_w() {
    let scaled = (clip(-2.0, 2.0, 0.5, 2.0), clip(-4.0, 0.0, 2.0, 4.0), clip(0.0, 8.0, 8.0, 8.0));
    let (fate, setup) = set_up(scaled, 4.0, 4.0, 1e-9);
    assert_eq!(fate, Fate::Rendered);
    let setup = setup.unwrap();
    assert_eq!(setup.c0, corner(0.0, 0.0, 0.25, 0.5));
    assert_eq!(setup.c1, corner(0.0, 2.0, 0.5, 0.25));
    assert_eq!(setup.c2, corner(2.0, 0.0, 1.0, 0.125));
    assert_eq!(setup.inv_area, 0.25);
}

#[test]
fn set_up_rejects_at_the_near_plane_first() {
    let (a, b, c) = front_clip();
    for w in [0.0, -1.0] {
        assert_eq!(set_up((clip(a.x, a.y, a.z, w), b, c), 4.0, 4.0, 1e-9), (Fate::ClippedAway, None));
        assert_eq!(set_up((a, clip(b.x, b.y, b.z, w), c), 4.0, 4.0, 1e-9), (Fate::ClippedAway, None));
        assert_eq!(set_up((a, b, clip(c.x, c.y, c.z, w)), 4.0, 4.0, 1e-9), (Fate::ClippedAway, None));
    }
    assert!(behind_near_plane((1.0, 0.0, 1.0)));
    assert!(behind_near_plane((1.0, 1.0, -0.5)));
    assert!(!behind_near_plane((1.0, 0.25, 3.0)));
}

#[test]
fn set_up_culls_what_faces_away_or_has_no_area() {
    let (a, b, c) = front_clip();
    assert_eq!(set_up((a, c, b), 4.0, 4.0, 1e-9), (Fate::Culled, None));
    for epsilon in [1e-9, 0.0, -1.0] {
        assert_eq!(set_up((a, a, a), 4.0, 4.0, epsilon), (Fate::Culled, None));
        assert_eq!(set_up((a, b, b), 4.0, 4.0, epsilon), (Fate::Culled, None));
    }
    assert_eq!(set_up(front_clip(), 4.0, 4.0, 5.0), (Fate::Culled, None));
}

#[test]
fn coverage_interpolates_depth_perspective_correctly() {
    let setup = Setup {
        c0: corner(0.0, 0.0, 0.25, 1.0),
        c1: corner(0.0, 2.0, 0.5, 0.5),
        c2: corner(2.0, 0.0, 1.0, 0.25),
        inv_area: 0.25,
    };
    let c = coverage(&setup, Vector2::new(0.5, 0.5)).unwrap();
    assert_eq!((c.w0, c.w1, c.w2), (0.5, 0.25, 0.25));
    assert_eq!(c.w0 + c.w1 + c.w2, 1.0);
    assert_eq!(c.inv_w, 0.6875);
    assert_eq!(c.z, 0.25 / 0.6875);
    assert!(0.25 <= c.z && c.z <= 1.0);
}

#[test]
fn coverage_at_a_corner_is_the_depth_of_the_corner() {
    let setup = front_setup();
    assert_eq!(coverage(&setup, Vector2::new(0.0, 0.0)).unwrap().z, 0.25);
    assert_eq!(coverage(&setup, Vector2::new(0.0, 2.0)).unwrap().z, 0.5);
    assert_eq!(coverage(&setup, Vector2::new(2.0, 0.0)).unwrap().z, 1.0);
}

#[test]
fn coverage_is_absent_outside_the_triangle() {
    let setup = front_setup();
    assert_eq!(coverage(&setup, Vector2::new(1.5, 1.5)), None);
    assert_eq!(coverage(&setup, Vector2::new(-0.5, 0.5)), None);
    assert_eq!(coverage(&setup, Vector2::new(0.5, -0.5)), None);
    assert_eq!(coverage(&setup, Vector2::new(f64::NAN, 0.5)), None);
    assert!(coverage(&setup, Vector2::new(1.0, 1.0)).is_some());
}

#[test]
fn pixel_centres_lie_half_a_pixel_in() {
    assert_eq!(centre_of::<f64>(0, 0), Vector2::new(0.5, 0.5));
    assert_eq!(centre_of::<f64>(3, 7), Vector2::new(3.5, 7.5));
    assert_eq!(centre_of::<f64>(-1, 2), Vector2::new(-0.5, 2.5));
}

#[test]
fn rasterize_stores_the_interpolated_depth() {
    let mut target = Renderer::new(4, 4, f64::INFINITY);
    let asked = std::cell::Cell::new(0);
    target.rasterize(-3, -3, 9, 9, &front_setup(), &|x, y, c: Coverage<f64>| {
        asked.set(asked.get() + 1);
        assert_eq!(c.inv_w, 1.0);
        [x as u8, y as u8, 9, 255]
    });
    assert_eq!(asked.get(), 3);
    let mut frame = vec![0u8; 64];
    target.present(&mut frame);
    let pixel = |x: usize, y: usize| frame[4 * (4 * y + x)..4 * (4 * y + x) + 4].to_vec();
    assert_eq!(pixel(0, 0), vec![0, 0, 9, 255]);
    assert_eq!(pixel(1, 0), vec![1, 0, 9, 255]);
    assert_eq!(pixel(0, 1), vec![0, 1, 9, 255]);
    for (x, y) in [(2, 0), (1, 1), (0, 2), (3, 3)] {
        assert_eq!(pixel(x, y), vec![77; 4]);
    }
}

#[test]
fn rasterize_tests_depth_with_the_formula() {
    let mut buffers = Buffers::new(4, 4, f64::INFINITY);
    let bounds = PixelRect { min_x: 0, min_y: 0, max_x: 3, max_y: 3 };
    rasterize(&mut buffers, 4, 4, bounds, &front_setup(), &|_, _, _| [1, 1, 1, 1]);
    let mut expected = vec![f64::INFINITY; 16];
    expected[0] = 0.5;
    expected[1] = 0.875;
    expected[4] = 0.625;
    assert_eq!(buffers.z_buffer, expected);

    buffers.store(0, 0.4, [8, 8, 8, 8]);
    buffers.store(1, 0.9, [8, 8, 8, 8]);
    rasterize(&mut buffers, 4, 4, bounds, &front_setup(), &|_, _, _| [2, 2, 2, 2]);
    assert_eq!(buffers.z_buffer[0], 0.4);
    assert_eq!(&buffers.f_buffer[0..4], &[8, 8, 8, 8]);
    assert_eq!(buffers.z_buffer[1], 0.875);
    assert_eq!(&buffers.f_buffer[4..8], &[2, 2, 2, 2]);
    assert_eq!(buffers.z_buffer[4], 0.625);
    assert_eq!(&buffers.f_buffer[16..20], &[1, 1, 1, 1]);
}

#[test]
fn nearer_of_two_triangles_wins_in_either_order() {
    let near = Setup {
        c0: corner(0.0, 0.0, 0.2, 1.0),
        c1: corner(0.0, 4.0, 0.2, 1.0),
        c2: corner(4.0, 0.0, 0.2, 1.0),
        inv_area: 0.0625,
    };
    let far = Setup {
        c0: corner(0.0, 0.0, 0.8, 1.0),
        c1: corner(0.0, 4.0, 0.8, 1.0),
        c2: corner(4.0, 0.0, 0.8, 1.0),
        inv_area: 0.0625,
    };
    let bounds = PixelRect { min_x: 0, min_y: 0, max_x: 3, max_y: 3 };
    for near_first in [true, false] {
        let mut buffers = Buffers::new(4, 4, f64::INFINITY);
        let order = if near_first { [(near, 1u8), (far, 2u8)] } else { [(far, 2u8), (near, 1u8)] };
        for (setup, tint) in order {
            rasterize(&mut buffers, 4, 4, bounds, &setup, &|_, _, _| [tint; 4]);
        }
        assert!((buffers.z_buffer[0] - 0.2).abs() < 1e-15);
        assert_eq!(&buffers.f_buffer[0..4], &[1; 4]);
        assert!((buffers.z_buffer[5] - 0.2).abs() < 1e-15);
        assert_eq!(&buffers.f_buffer[20..24], &[1; 4]);
    }
}
