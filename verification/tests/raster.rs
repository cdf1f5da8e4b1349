use pawngfx::buffer::{is_addressable, Buffers, DEFAULT_BG_COLOR};
use pawngfx::geometry::edge_function;
use pawngfx::math::{barycentric_interpolate, is_at_most, is_less, Vector2};
use pawngfx::raster::{
    barycentric, clip_rect, covers, draw_triangle_shaded, is_backfacing, triage, Fate, PixelRect,
};
use pawngfx::render::Renderer;

fn v(x: f64, y: f64) -> Vector2<f64> {
    Vector2::new(x, y)
}

#[test]
fn point_inside_triangle() {
    let v0 = Vector2 { x: 0.0, y: 0.0 };
    let v1 = Vector2 { x: 1.0, y: 0.0 };
    let v2 = Vector2 { x: 0.0, y: 1.0 };
    let p_inside = Vector2 { x: 0.25, y: 0.25 };
    let p_outside = Vector2 { x: 1.5, y: 1.5 };

    let ef0_inside = edge_function(v0, v1, p_inside);
    let ef1_inside = edge_function(v1, v2, p_inside);
    let ef2_inside = edge_function(v2, v0, p_inside);

    let ef0_outside = edge_function(v0, v1, p_outside);
    let ef1_outside = edge_function(v1, v2, p_outside);
    let ef2_outside = edge_function(v2, v0, p_outside);

    assert!(
        ef0_inside <= 0.0 && ef1_inside <= 0.0 && ef2_inside <= 0.0,
        "Point should be inside the triangle"
    );
    assert!(
        ef0_outside < 0.0 || ef1_outside < 0.0 || ef2_outside < 0.0,
        "Point should be outside the triangle"
    );
}

#[test]
fn edge_function_is_twice_the_signed_area() {
    assert_eq!(edge_function(v(0.0, 0.0), v(0.0, 2.0), v(2.0, 0.0)), 4.0);
    assert_eq!(edge_function(v(0.0, 0.0), v(2.0, 0.0), v(0.0, 2.0)), -4.0);
    assert_eq!(edge_function(v(1.0, 1.0), v(3.0, 3.0), v(2.0, 2.0)), 0.0);
    assert_eq!(
        edge_function(Vector2::new(0i64, 0), Vector2::new(0, 2), Vector2::new(2, 0)),
        4
    );
}

#[test]
fn barycentric_weights_partition_unity() {
    let (s0, s1, s2) = (v(0.0, 0.0), v(0.0, 2.0), v(2.0, 0.0));
    let area = edge_function(s0, s1, s2);
    assert_eq!(area, 4.0);
    let w = barycentric(s0, s1, s2, v(0.5, 0.5), 1.0 / area);
    assert_eq!(w, (0.5, 0.25, 0.25));
    assert_eq!(w.0 + w.1 + w.2, 1.0);
    assert!(covers(w));
}

#[test]
fn barycentric_weights_sum_to_one_across_the_triangle() {
    let (s0, s1, s2) = (v(1.25, 0.5), v(3.0, 7.75), v(9.5, 2.0));
    let area = edge_function(s0, s1, s2);
    for y in 0..8 {
        for x in 0..10 {
            let p = v(x as f64 + 0.5, y as f64 + 0.5);
            let w = barycentric(s0, s1, s2, p, 1.0 / area);
            if covers(w) {
                assert!((w.0 + w.1 + w.2 - 1.0).abs() < 1e-9);
            }
        }
    }
}

#[test]
fn covers_rejects_a_weight_that_is_not_a_number() {
    assert!(!covers((f64::NAN, 0.5, 0.5)));
    assert!(!covers((0.5, f64::NAN, 0.5)));
    assert!(!covers((0.5, 0.5, f64::NAN)));
}

#[test]
fn covers_rejects_a_negative_weight() {
    assert!(covers((0.0, 0.0, 1.0)));
    assert!(covers((0.5, 0.5, 0.0)));
    assert!(!covers((-0.25, 0.75, 0.5)));
    assert!(!covers((0.75, -0.25, 0.5)));
    assert!(!covers((0.75, 0.5, -0.25)));
    assert!(covers((1i32, 0, 0)));
    assert!(!covers((1i32, -1, 1)));
}

#[test]
fn reversed_winding_is_culled() {
    assert!(!is_backfacing(v(0.0, 0.0), v(0.0, 2.0), v(2.0, 0.0)));
    assert!(is_backfacing(v(0.0, 0.0), v(2.0, 0.0), v(0.0, 2.0)));
    assert!(!is_backfacing(v(0.0, 0.0), v(1.0, 1.0), v(2.0, 2.0)));
}

fn draw(buffers: &mut Buffers<f64>, w: i32, h: i32, s: [Vector2<f64>; 3], z: f64, color: [u8; 4]) {
    if is_backfacing(s[0], s[1], s[2]) {
        return;
    }
    let area = edge_function(s[0], s[1], s[2]);
    let inv_area = 1.0 / area;
    let min_x = s.iter().map(|p| p.x).fold(f64::INFINITY, f64::min).floor() as i32;
    let min_y = s.iter().map(|p| p.y).fold(f64::INFINITY, f64::min).floor() as i32;
    let max_x = s.iter().map(|p| p.x).fold(f64::NEG_INFINITY, f64::max).ceil() as i32;
    let max_y = s.iter().map(|p| p.y).fold(f64::NEG_INFINITY, f64::max).ceil() as i32;
    let bounds = clip_rect(min_x, min_y, max_x, max_y, w, h);
    draw_triangle_shaded(
        buffers,
        w,
        h,
        bounds,
        |x, y| {
            let p = Vector2::new(x as f64 + 0.5, y as f64 + 0.5);
            if covers(barycentric(s[0], s[1], s[2], p, inv_area)) {
                Some(z)
            } else {
                None
            }
        },
        |_, _| color,
    );
}

#[test]
fn back_facing_triangle_writes_no_pixel() {
    let mut buffers = Buffers::new(4, 4, f64::INFINITY);
    draw(&mut buffers, 4, 4, [v(0.0, 0.0), v(2.0, 0.0), v(0.0, 2.0)], 0.5, [1, 2, 3, 4]);
    assert!(buffers.f_buffer.iter().all(|&b| b == DEFAULT_BG_COLOR));
    assert!(buffers.z_buffer.iter().all(|&z| z == f64::INFINITY));
}

#[test]
fn front_facing_triangle_covers_its_pixels() {
    let mut buffers = Buffers::new(4, 4, f64::INFINITY);
    draw(&mut buffers, 4, 4, [v(0.0, 0.0), v(0.0, 2.0), v(2.0, 0.0)], 0.5, [1, 2, 3, 4]);
    let covered = [(0, 0), (1, 0), (0, 1)];
    for y in 0..4usize {
        for x in 0..4usize {
            let i = y * 4 + x;
            if covered.contains(&(x, y)) {
                assert_eq!(buffers.z_buffer[i], 0.5);
                assert_eq!(&buffers.f_buffer[4 * i..4 * i + 4], &[1, 2, 3, 4]);
            } else {
                assert_eq!(buffers.z_buffer[i], f64::INFINITY);
                assert_eq!(&buffers.f_buffer[4 * i..4 * i + 4], &[DEFAULT_BG_COLOR; 4]);
            }
        }
    }
}

#[test]
fn nearer_triangle_wins_in_either_draw_order() {
    let tri = [v(0.0, 0.0), v(0.0, 4.0), v(4.0, 0.0)];
    let near = [10, 20, 30, 255];
    let far = [200, 100, 50, 255];
    for near_first in [true, false] {
        let mut buffers = Buffers::new(4, 4, f64::INFINITY);
        if near_first {
            draw(&mut buffers, 4, 4, tri, 0.2, near);
            draw(&mut buffers, 4, 4, tri, 0.8, far);
        } else {
            draw(&mut buffers, 4, 4, tri, 0.8, far);
            draw(&mut buffers, 4, 4, tri, 0.2, near);
        }
        assert_eq!(buffers.z_buffer[0], 0.2);
        assert_eq!(&buffers.f_buffer[0..4], &near);
        assert_eq!(buffers.z_buffer[5], 0.2);
        assert_eq!(&buffers.f_buffer[20..24], &near);
    }
}

#[test]
fn write_fragment_keeps_the_nearer_depth() {
    let mut buffers = Buffers::new(2, 1, f64::INFINITY);
    assert!(buffers.write_fragment(1, 0.8, [9, 9, 9, 9]));
    assert!(buffers.write_fragment(1, 0.2, [1, 2, 3, 4]));
    assert!(!buffers.write_fragment(1, 0.8, [9, 9, 9, 9]));
    assert!(!buffers.write_fragment(1, 0.2, [7, 7, 7, 7]));
    assert_eq!(buffers.z_buffer, vec![f64::INFINITY, 0.2]);
    assert_eq!(buffers.f_buffer, vec![77, 77, 77, 77, 1, 2, 3, 4]);
}

#[test]
fn write_fragment_never_stores_a_depth_that_is_not_a_number() {
    let mut buffers = Buffers::new(1, 1, f64::INFINITY);
    assert!(!buffers.write_fragment(0, f64::NAN, [1, 1, 1, 1]));
    assert_eq!(buffers.f_buffer, vec![77; 4]);
}

#[test]
fn store_overwrites_without_a_test() {
    let mut buffers = Buffers::new(1, 2, 0u32);
    buffers.store(1, 9, [1, 2, 3, 4]);
    assert_eq!(buffers.z_buffer, vec![0, 9]);
    assert_eq!(buffers.f_buffer, vec![77, 77, 77, 77, 1, 2, 3, 4]);
}

#[test]
fn is_less_is_strict() {
    assert!(is_less(&1.0, &2.0));
    assert!(!is_less(&2.0, &2.0));
    assert!(!is_less(&3, &2));
}

#[test]
fn clip_rect_clamps_to_the_target() {
    assert_eq!(
        clip_rect(-3, 2, 900, 5, 640, 480),
        PixelRect { min_x: 0, min_y: 2, max_x: 639, max_y: 5 }
    );
    assert_eq!(
        clip_rect(10, -7, 20, 1000, 640, 480),
        PixelRect { min_x: 10, min_y: 0, max_x: 20, max_y: 479 }
    );
    assert_eq!(
        clip_rect(700, 500, 800, 600, 640, 480),
        PixelRect { min_x: 700, min_y: 500, max_x: 639, max_y: 479 }
    );
    assert_eq!(clip_rect(0, 0, 5, 5, 0, 0), PixelRect { min_x: 0, min_y: 0, max_x: -1, max_y: -1 });
}

#[test]
fn draw_visits_only_the_block() {
    let mut buffers = Buffers::new(3, 3, 100u32);
    let bounds = PixelRect { min_x: 1, min_y: 1, max_x: 2, max_y: 1 };
    draw_triangle_shaded(&mut buffers, 3, 3, bounds, |x, y| Some((x + 10 * y) as u32), |x, y| {
        [x as u8, y as u8, 0, 255]
    });
    assert_eq!(buffers.z_buffer, vec![100, 100, 100, 100, 11, 12, 100, 100, 100]);
    assert_eq!(&buffers.f_buffer[16..24], &[1, 1, 0, 255, 2, 1, 0, 255]);
    assert!(buffers.f_buffer[..16].iter().all(|&b| b == 77));
    assert!(buffers.f_buffer[24..].iter().all(|&b| b == 77));
}

#[test]
fn draw_on_an_empty_block_changes_nothing() {
    let mut buffers = Buffers::new(2, 2, 5u32);
    let bounds = PixelRect { min_x: 1, min_y: 0, max_x: 0, max_y: 1 };
    draw_triangle_shaded(&mut buffers, 2, 2, bounds, |_, _| Some(0u32), |_, _| [0; 4]);
    assert_eq!(buffers.z_buffer, vec![5; 4]);
    assert_eq!(buffers.f_buffer, vec![77; 16]);
}

#[test]
fn draw_shades_only_pixels_that_pass_the_depth_test() {
    let mut buffers = Buffers::new(2, 1, 5u32);
    buffers.store(0, 1, [8, 8, 8, 8]);
    let bounds = PixelRect { min_x: 0, min_y: 0, max_x: 1, max_y: 0 };
    let shaded = std::cell::Cell::new(0);
    draw_triangle_shaded(&mut buffers, 2, 1, bounds, |_, _| Some(3u32), |_, _| {
        shaded.set(shaded.get() + 1);
        [1, 1, 1, 1]
    });
    assert_eq!(shaded.get(), 1);
    assert_eq!(buffers.z_buffer, vec![1, 3]);
    assert_eq!(buffers.f_buffer, vec![8, 8, 8, 8, 1, 1, 1, 1]);
}

#[test]
fn barycentric_interpolate_weighs_three_values() {
    assert_eq!(barycentric_interpolate(0.5, 0.25, 0.25, 4.0, 8.0, 16.0), 8.0);
    assert_eq!(barycentric_interpolate(1.0, 0.0, 0.0, 4.0, 8.0, 16.0), 4.0);
    assert_eq!(barycentric_interpolate(2, 3, 4, 1, 10, 100), 432);
}

#[test]
fn buffers_start_clear() {
    let buffers = Buffers::new(3, 2, 1.0f64);
    assert_eq!(buffers.f_buffer, vec![77; 24]);
    assert_eq!(buffers.z_buffer, vec![1.0; 6]);
    let none = Buffers::new(0, 5, 1.0f64);
    assert!(none.f_buffer.is_empty() && none.z_buffer.is_empty());
}

#[test]
fn buffers_reset_and_resize() {
    let mut buffers = Buffers::new(2, 1, 9u32);
    buffers.store(0, 1, [1, 2, 3, 4]);
    buffers.resize(2, 2, 7);
    assert_eq!(buffers.z_buffer, vec![1, 9, 7, 7]);
    assert_eq!(&buffers.f_buffer[..4], &[1, 2, 3, 4]);
    assert_eq!(buffers.f_buffer.len(), 16);
    buffers.resize(1, 1, 7);
    assert_eq!(buffers.z_buffer, vec![1]);
    assert_eq!(buffers.f_buffer, vec![1, 2, 3, 4]);
    buffers.reset(6);
    assert_eq!(buffers.z_buffer, vec![6]);
    assert_eq!(buffers.f_buffer, vec![77; 4]);
}

#[test]
fn renderer_draws_clips_and_presents() {
    let mut r = Renderer::new(2, 2, f64::INFINITY);
    assert_eq!(r.size(), (2, 2));
    r.draw_triangle(-5, 1, 9, 9, |_, _| Some(0.5), |x, _| [x as u8, 0, 0, 255]);
    let mut target = vec![0u8; 16];
    r.present(&mut target);
    assert_eq!(target, vec![77, 77, 77, 77, 77, 77, 77, 77, 0, 0, 0, 255, 1, 0, 0, 255]);
    r.reset_buffers();
    r.present(&mut target);
    assert_eq!(target, vec![77; 16]);
    r.resize(1, 1);
    assert_eq!(r.size(), (1, 1));
    let mut small = vec![0u8; 4];
    r.present(&mut small);
    assert_eq!(small, vec![77; 4]);
}

fn front() -> (pawngfx::math::Vector2<f64>, pawngfx::math::Vector2<f64>, pawngfx::math::Vector2<f64>) {
    (v(0.0, 0.0), v(0.0, 2.0), v(2.0, 0.0))
}

#[test]
fn triangle_in_front_of_the_viewer_is_rendered() {
    assert_eq!(triage((1.0, 2.0, 0.5), front(), 1e-9), Fate::Rendered);
}

#[test]
fn triangle_with_a_corner_behind_the_viewer_is_clipped_away() {
    assert_eq!(triage((1.0, 0.0, 0.5), front(), 1e-9), Fate::ClippedAway);
    assert_eq!(triage((-1.0, 2.0, 0.5), front(), 1e-9), Fate::ClippedAway);
    assert_eq!(triage((1.0, 2.0, -0.5), front(), 1e-9), Fate::ClippedAway);
    let back = (v(0.0, 0.0), v(2.0, 0.0), v(0.0, 2.0));
    assert_eq!(triage((1.0, 1.0, -1.0), back, 1e-9), Fate::ClippedAway);
}

#[test]
fn back_facing_triangle_is_culled() {
    let back = (v(0.0, 0.0), v(2.0, 0.0), v(0.0, 2.0));
    assert_eq!(triage((1.0, 1.0, 1.0), back, 1e-9), Fate::Culled);
}

#[test]
fn triangle_without_area_is_culled() {
    let line = (v(0.0, 0.0), v(1.0, 1.0), v(2.0, 2.0));
    assert_eq!(triage((1.0, 1.0, 1.0), line, 1e-9), Fate::Culled);
    let sliver = (v(0.0, 0.0), v(0.0, 1e-5), v(1e-5, 0.0));
    assert_eq!(triage((1.0, 1.0, 1.0), sliver, 1e-9), Fate::Culled);
    assert_eq!(triage((1.0, 1.0, 1.0), sliver, 1e-11), Fate::Rendered);
    let broken = (v(0.0, 0.0), v(f64::NAN, 1.0), v(1.0, 0.0));
    assert_eq!(triage((1.0, 1.0, 1.0), broken, 1e-9), Fate::Culled);
}

#[test]
fn triage_on_whole_numbers() {
    let tri = (Vector2::new(0i64, 0), Vector2::new(0, 2), Vector2::new(2, 0));
    assert_eq!(triage((1i64, 1, 1), tri, 1), Fate::Rendered);
    assert_eq!(triage((1i64, 1, 1), tri, 5), Fate::Culled);
    assert_eq!(triage((0i64, 1, 1), tri, 1), Fate::ClippedAway);
}

#[test]
fn is_at_most_is_not_strict() {
    assert!(is_at_most(&1.0, &2.0));
    assert!(is_at_most(&2.0, &2.0));
    assert!(!is_at_most(&3.0, &2.0));
    assert!(!is_at_most(&f64::NAN, &2.0));
}

#[test]
fn edge_functions_sum_to_the_area_on_whole_numbers() {
    let (s0, s1, s2) = (Vector2::new(-3i64, 7), Vector2::new(12, 40), Vector2::new(25, -9));
    let area = edge_function(s0, s1, s2);
    for (px, py) in [(0i64, 0), (5, 5), (-100, 33), (12, 40)] {
        let p = Vector2::new(px, py);
        let sum = edge_function(s1, s2, p) + edge_function(s2, s0, p) + edge_function(s0, s1, p);
        assert_eq!(sum, area);
    }
    assert_eq!(edge_function(s0, s2, s1), -area);
}

#[test]
fn plot_tests_one_pixel_and_drops_what_is_off_the_target() {
    let mut r = Renderer::new(2, 2, 10u32);
    assert!(r.plot(1, 0, 5, [1, 2, 3, 4]));
    assert!(!r.plot(1, 0, 5, [9, 9, 9, 9]));
    assert!(!r.plot(1, 0, 7, [9, 9, 9, 9]));
    assert!(!r.plot(2, 0, 1, [9, 9, 9, 9]));
    assert!(!r.plot(0, 2, 1, [9, 9, 9, 9]));
    assert!(!r.plot(-1, 0, 1, [9, 9, 9, 9]));
    assert!(!r.plot(0, -1, 1, [9, 9, 9, 9]));
    let mut target = vec![0u8; 16];
    r.present(&mut target);
    assert_eq!(target, vec![77, 77, 77, 77, 1, 2, 3, 4, 77, 77, 77, 77, 77, 77, 77, 77]);
}

#[test]
fn targets_must_be_addressable() {
    assert!(is_addressable(0, 0));
    assert!(is_addressable(1920, 1080));
    assert!(is_addressable(32768, 32767));
    assert!(!is_addressable(32768, 32768));
    assert!(!is_addressable(65536, 65536));
    assert!(is_addressable(i32::MAX as u32, 0));
    assert!(!is_addressable(i32::MAX as u32 + 1, 0));
    assert!(!is_addressable(0, u32::MAX));
}

#[test]
fn triangle_without_area_is_culled_whatever_the_threshold() {
    let point = (v(3.0, 3.0), v(3.0, 3.0), v(3.0, 3.0));
    let line = (v(0.0, 0.0), v(1.0, 1.0), v(2.0, 2.0));
    for epsilon in [1e-9, 0.0, -0.0, -1.0, f64::NEG_INFINITY, f64::NAN] {
        assert_eq!(triage((1.0, 1.0, 1.0), point, epsilon), Fate::Culled);
        assert_eq!(triage((1.0, 1.0, 1.0), line, epsilon), Fate::Culled);
    }
    let whole = (Vector2::new(5u64, 5), Vector2::new(5, 5), Vector2::new(5, 5));
    assert_eq!(triage((1u64, 1, 1), whole, 0), Fate::Culled);
}
