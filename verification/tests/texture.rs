use pawngfx::error::FileError;
use pawngfx::texture::{box_average, wrap_uv, Mip, Texture, Wrap};

fn average(a: f64, b: f64, c: f64, d: f64) -> f64 {
    (a + b + c + d) * 0.25
}

fn ramp(w: usize, h: usize) -> Vec<f64> {
    (0..w * h).map(|i| i as f64).collect()
}

fn floor_log2(n: usize) -> usize {
    (usize::BITS - 1 - n.leading_zeros()) as usize
}

#[test]
fn mip_new_checks_the_texel_count() {
    assert!(Mip::new(2, 3, ramp(2, 3)).is_ok());
    assert!(matches!(Mip::new(2, 3, ramp(2, 2)), Err(FileError::Invalid)));
    assert!(matches!(Mip::new(0, 3, Vec::<f64>::new()), Err(FileError::Invalid)));
    assert!(matches!(Mip::new(3, 0, Vec::<f64>::new()), Err(FileError::Invalid)));
    assert!(matches!(Mip::new(usize::MAX, 2, vec![1.0]), Err(FileError::Invalid)));
}

#[test]
fn texel_reads_row_major() {
    let m = Mip::new(3, 2, ramp(3, 2)).unwrap();
    assert_eq!(m.width(), 3);
    assert_eq!(m.height(), 2);
    assert_eq!(m.texel(0, 0), 0.0);
    assert_eq!(m.texel(2, 0), 2.0);
    assert_eq!(m.texel(0, 1), 3.0);
    assert_eq!(m.texel(2, 1), 5.0);
}

#[test]
fn bi_taps_clamp_at_the_last_column_and_row() {
    let m = Mip::new(3, 2, ramp(3, 2)).unwrap();
    assert_eq!(m.bi_taps(0, 0), [0.0, 3.0, 1.0, 4.0]);
    assert_eq!(m.bi_taps(2, 0), [2.0, 5.0, 2.0, 5.0]);
    assert_eq!(m.bi_taps(1, 1), [4.0, 4.0, 5.0, 5.0]);
    assert_eq!(m.bi_taps(2, 1), [5.0, 5.0, 5.0, 5.0]);
}

#[test]
fn reduce_averages_two_by_two_blocks() {
    let m = Mip::new(4, 2, ramp(4, 2)).unwrap();
    let r = m.reduce(&average);
    assert_eq!(r.width(), 2);
    assert_eq!(r.height(), 1);
    assert_eq!(r.texel(0, 0), (0.0 + 1.0 + 4.0 + 5.0) * 0.25);
    assert_eq!(r.texel(1, 0), (2.0 + 3.0 + 6.0 + 7.0) * 0.25);
}

#[test]
fn reduce_hands_the_block_over_in_reading_order() {
    let m = Mip::new(2, 2, vec![1u32, 2, 3, 4]).unwrap();
    let r = m.reduce(&|a, b, c, d| a * 1000 + b * 100 + c * 10 + d);
    assert_eq!(r.texel(0, 0), 1234);
}

#[test]
fn reduce_clamps_reads_on_a_single_row() {
    let m = Mip::new(5, 1, ramp(5, 1)).unwrap();
    let r = m.reduce(&average);
    assert_eq!(r.width(), 2);
    assert_eq!(r.height(), 1);
    assert_eq!(r.texel(0, 0), (0.0 + 1.0 + 0.0 + 1.0) * 0.25);
    assert_eq!(r.texel(1, 0), (2.0 + 3.0 + 2.0 + 3.0) * 0.25);
}

#[test]
fn texture_new_rejects_malformed_data() {
    assert!(matches!(Texture::new(2, 2, ramp(2, 1), Wrap::Clamp), Err(FileError::Invalid)));
    assert!(matches!(Texture::new(0, 0, Vec::<f64>::new(), Wrap::Clamp), Err(FileError::Invalid)));
    let t = Texture::new(2, 2, ramp(2, 2), Wrap::Mirror).unwrap();
    assert_eq!(t.level_count(), 1);
    assert_eq!(t.wrap(), Wrap::Mirror);
    assert_eq!(t.dimensions(), (2, 2));
}

#[test]
fn default_texture_is_empty_and_clamped() {
    let t = Texture::<f64>::default();
    assert_eq!(t.level_count(), 0);
    assert_eq!(t.max_lod(), 0);
    assert_eq!(t.wrap(), Wrap::Clamp);
}

#[test]
fn mip_chain_ends_at_one_texel() {
    for (w, h) in [(1, 1), (2, 2), (4, 4), (8, 2), (5, 3), (1, 7), (16, 1), (33, 17), (1024, 1024)]
    {
        let mut t = Texture::new(w, h, ramp(w, h), Wrap::Repeat).unwrap();
        t.bake(average);
        let longest = if w > h { w } else { h };
        assert_eq!(t.level_count(), floor_log2(longest) + 1, "{w}x{h}");
        assert_eq!(t.max_lod(), floor_log2(longest));
        let last = t.get_level(t.level_count() - 1);
        assert_eq!((last.width(), last.height()), (1, 1));
        assert_eq!(t.dimensions(), (w, h));
        assert_eq!(t.size(), longest);
        assert_eq!(t.wrap(), Wrap::Repeat);
    }
}

#[test]
fn mip_chain_halves_each_side() {
    let mut t = Texture::new(5, 3, ramp(5, 3), Wrap::Clamp).unwrap();
    t.bake(average);
    let sizes: Vec<(usize, usize)> =
        (0..t.level_count()).map(|l| (t.get_level(l).width(), t.get_level(l).height())).collect();
    assert_eq!(sizes, vec![(5, 3), (2, 1), (1, 1)]);
    let level1 = t.get_level(1);
    assert_eq!(level1.texel(0, 0), (0.0 + 1.0 + 5.0 + 6.0) * 0.25);
    assert_eq!(level1.texel(1, 0), (2.0 + 3.0 + 7.0 + 8.0) * 0.25);
    let level2 = t.get_level(2);
    assert_eq!(level2.texel(0, 0), (level1.texel(0, 0) + level1.texel(1, 0)) * 2.0 * 0.25);
}

#[test]
fn constant_texture_stays_constant_down_the_chain() {
    let mut t = Texture::new(8, 8, vec![0.5f64; 64], Wrap::Clamp).unwrap();
    t.bake(average);
    assert_eq!(t.level_count(), 4);
    for l in 0..t.level_count() {
        let m = t.get_level(l);
        for y in 0..m.height() {
            for x in 0..m.width() {
                assert_eq!(m.texel(x, y), 0.5);
            }
        }
    }
}

#[test]
fn get_level_holds_at_the_coarsest_level() {
    let mut t = Texture::new(4, 4, ramp(4, 4), Wrap::Clamp).unwrap();
    t.bake(average);
    assert_eq!(t.get_level(0).width(), 4);
    assert_eq!(t.get_level(1).width(), 2);
    assert_eq!(t.get_level(2).width(), 1);
    assert_eq!(t.get_level(3).width(), 1);
    assert_eq!(t.get_level(usize::MAX).width(), 1);
}

#[test]
fn level_pair_gives_a_level_and_the_next_coarser() {
    let mut t = Texture::new(4, 4, ramp(4, 4), Wrap::Clamp).unwrap();
    t.bake(average);
    let (a, b) = t.level_pair(0);
    assert_eq!((a.width(), b.width()), (4, 2));
    let (a, b) = t.level_pair(1);
    assert_eq!((a.width(), b.width()), (2, 1));
    let (a, b) = t.level_pair(2);
    assert_eq!((a.width(), b.width()), (1, 1));
    let (a, b) = t.level_pair(usize::MAX);
    assert_eq!((a.width(), b.width()), (1, 1));
}

#[test]
fn repeat_wraps_modulo_one() {
    assert_eq!(wrap_uv(Wrap::Repeat, 1.25), wrap_uv(Wrap::Repeat, 0.25));
    assert_eq!(wrap_uv(Wrap::Repeat, 1.25), 0.25);
    assert_eq!(wrap_uv(Wrap::Repeat, 0.25), 0.25);
    assert_eq!(wrap_uv(Wrap::Repeat, -0.25), 0.75);
    assert_eq!(wrap_uv(Wrap::Repeat, 3.0), 0.0);
    assert_eq!(wrap_uv(Wrap::Repeat, -2.5), 0.5);
}

#[test]
fn mirror_wraps_modulo_two_and_reflects() {
    assert_eq!(wrap_uv(Wrap::Mirror, 1.25), wrap_uv(Wrap::Mirror, 0.75));
    assert_eq!(wrap_uv(Wrap::Mirror, 1.25), 0.75);
    assert_eq!(wrap_uv(Wrap::Mirror, 0.75), 0.75);
    assert_eq!(wrap_uv(Wrap::Mirror, 2.25), 0.25);
    assert_eq!(wrap_uv(Wrap::Mirror, -0.25), 0.25);
    assert_eq!(wrap_uv(Wrap::Mirror, 1.0), 1.0);
    assert_eq!(wrap_uv(Wrap::Mirror, 2.0), 0.0);
}

#[test]
fn clamp_holds_at_the_ends() {
    assert_eq!(wrap_uv(Wrap::Clamp, 1.25), wrap_uv(Wrap::Clamp, 1.0));
    assert_eq!(wrap_uv(Wrap::Clamp, 1.25), 1.0);
    assert_eq!(wrap_uv(Wrap::Clamp, -3.0), 0.0);
    assert_eq!(wrap_uv(Wrap::Clamp, 0.4), 0.4);
    assert!(wrap_uv(Wrap::Clamp, f64::NAN).is_nan());
}

#[test]
fn wrapped_coordinates_pick_the_same_texel() {
    let m = Mip::new(5, 1, ramp(5, 1)).unwrap();
    let texel = |u: f64| m.texel((u * (m.width() as f64 - 1.0)) as usize, 0);
    assert_eq!(texel(wrap_uv(Wrap::Repeat, 1.25)), texel(0.25));
    assert_eq!(texel(wrap_uv(Wrap::Mirror, 1.25)), texel(0.75));
    assert_eq!(texel(wrap_uv(Wrap::Clamp, 1.25)), texel(1.0));
    assert_eq!(texel(0.25), 1.0);
    assert_eq!(texel(0.75), 3.0);
    assert_eq!(texel(1.0), 4.0);
}

#[test]
fn box_average_is_the_mean_of_four() {
    assert_eq!(box_average::<f64, f64>(1.0, 2.0, 3.0, 6.0), 3.0);
    assert_eq!(box_average::<f64, f64>(0.5, 0.5, 0.5, 0.5), 0.5);
    let mut t = Texture::new(2, 2, vec![1.0, 2.0, 3.0, 6.0], Wrap::Clamp).unwrap();
    t.bake(box_average::<f64, f64>);
    assert_eq!(t.get_level(1).texel(0, 0), 3.0);
}

#[test]
fn texture_wraps_by_its_own_mode() {
    let t = Texture::new(1, 1, vec![0.0], Wrap::Mirror).unwrap();
    assert_eq!(t.wrap_uv(1.25), 0.75);
    let r = Texture::new(1, 1, vec![0.0], Wrap::Repeat).unwrap();
    assert_eq!(r.wrap_uv(1.25), 0.25);
    assert_eq!(Texture::<f64>::default().wrap_uv(1.25), 1.0);
}

#[test]
fn wrap_round_trips_on_whole_numbers() {
    for p in 0u64..6 {
        assert_eq!(wrap_uv(Wrap::Repeat, p + 1), wrap_uv(Wrap::Repeat, p));
        assert_eq!(wrap_uv(Wrap::Mirror, p + 2), wrap_uv(Wrap::Mirror, p));
        assert_eq!(wrap_uv(Wrap::Clamp, p + 1), wrap_uv(Wrap::Clamp, 1));
    }
    for p in 0u64..=2 {
        assert_eq!(wrap_uv(Wrap::Mirror, 2 - p), wrap_uv(Wrap::Mirror, p));
    }
    assert_eq!(wrap_uv(Wrap::Clamp, 0u64), 0);
}
