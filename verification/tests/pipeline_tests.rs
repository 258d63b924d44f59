//! End-to-end runs of the verified core with its real collaborators: the
//! palette crate interpolating each segment's interior in linear RGB, and
//! simdnoise sampling the elevation field.

use palette::{LinSrgb, Srgb};
use terrain_generator_2d::colour::Colour;
use terrain_generator_2d::ramp::{build_ramp, default_segments, RampSegment};
use terrain_generator_2d::raster::{render_terrain, ElevationField};

/// The documented interpolation tuning: both endpoint colours decoded from
/// sRGB bytes into linear RGB, sampled evenly along the linear path, and each
/// sample scaled by 255 and truncated toward zero.
fn segment_fill(seg: &RampSegment) -> Vec<Colour> {
    let a = Srgb::new(seg.colour_a.r, seg.colour_a.g, seg.colour_a.b)
        .into_format::<f32>()
        .into_linear();
    let b = Srgb::new(seg.colour_b.r, seg.colour_b.g, seg.colour_b.b)
        .into_format::<f32>()
        .into_linear();
    let gradient = palette::Gradient::new(vec![a, b]);
    let steps = seg.end - seg.start + 1;
    gradient
        .take(steps)
        .map(|c: LinSrgb<f32>| {
            Colour::new(
                (c.red * 255.0) as u8,
                (c.green * 255.0) as u8,
                (c.blue * 255.0) as u8,
            )
        })
        .collect()
}

fn default_fills(segs: &[RampSegment]) -> Vec<Vec<Colour>> {
    segs.iter().map(segment_fill).collect()
}

fn noise_field(width: usize, height: usize, seed: i32) -> ElevationField {
    let noise = simdnoise::NoiseBuilder::fbm_2d(width, height)
        .with_seed(seed)
        .with_freq(0.0006)
        .with_lacunarity(2.2)
        .with_octaves(64)
        .with_gain(0.65)
        .generate_scaled(0.0, 255.0);
    let samples: Vec<i64> = noise.iter().map(|&v| v as i64).collect();
    assert_eq!(samples.len(), width * height);
    ElevationField::new(width, height, samples)
}

#[test]
fn grey_ramp_scenario() {
    // A single black-to-white segment over the whole table and a field of
    // four known samples on one row.
    let segments = vec![RampSegment::new(
        Colour::new(0, 0, 0),
        Colour::new(255, 255, 255),
        0,
        255,
    )];
    let fills = default_fills(&segments);
    assert_eq!(fills[0].len(), 256);
    let field = ElevationField::new(4, 1, vec![0, 85, 170, 255]);
    let img = render_terrain(&field, &segments, &fills);
    assert_eq!(img.width, 4);
    assert_eq!(img.height, 1);
    // The boundary entries are the declared endpoint colours exactly.
    assert_eq!(img.pixels[0], Colour::new(0, 0, 0));
    assert_eq!(img.pixels[3], Colour::new(255, 255, 255));
    // Black to white in linear RGB keeps the channels equal; truncation may
    // land one below the sample value.
    for p in [img.pixels[1], img.pixels[2]] {
        assert_eq!(p.r, p.g);
        assert_eq!(p.g, p.b);
    }
    assert!(img.pixels[1].r == 85 || img.pixels[1].r == 84);
    assert!(img.pixels[2].r == 170 || img.pixels[2].r == 169);
}

#[test]
fn interior_is_monotonic_along_each_default_segment() {
    // Strictly between a segment's bounds the interpolated entries follow
    // the linear path with no channel reversal.
    let segs = default_segments();
    for seg in segs.iter() {
        let fill = segment_fill(seg);
        assert_eq!(fill.len(), seg.end - seg.start + 1);
        if fill.len() < 4 {
            continue;
        }
        let interior = &fill[1..fill.len() - 1];
        for w in interior.windows(2) {
            if seg.colour_a.r <= seg.colour_b.r {
                assert!(w[0].r <= w[1].r);
            } else {
                assert!(w[0].r >= w[1].r);
            }
            if seg.colour_a.g <= seg.colour_b.g {
                assert!(w[0].g <= w[1].g);
            } else {
                assert!(w[0].g >= w[1].g);
            }
            if seg.colour_a.b <= seg.colour_b.b {
                assert!(w[0].b <= w[1].b);
            } else {
                assert!(w[0].b >= w[1].b);
            }
        }
    }
}

#[test]
fn default_palette_boundaries_are_exact() {
    let segs = default_segments();
    let fills = default_fills(&segs);
    let ramp = build_ramp(&segs, &fills);
    assert_eq!(ramp.table.len(), 256);
    // The default ranges never overlap, so every declared boundary colour
    // stands in the finished table.
    for seg in segs.iter() {
        assert_eq!(ramp.table[seg.start], seg.colour_a);
        if seg.end > seg.start {
            assert_eq!(ramp.table[seg.end], seg.colour_b);
        }
    }
}

#[test]
fn same_seed_renders_byte_identical_images() {
    let segs = default_segments();
    let fills = default_fills(&segs);
    let field_one = noise_field(64, 48, 1234);
    let field_two = noise_field(64, 48, 1234);
    assert_eq!(field_one.samples, field_two.samples);
    let img_one = render_terrain(&field_one, &segs, &fills);
    let img_two = render_terrain(&field_two, &segs, &fills);
    assert_eq!(img_one.pixels, img_two.pixels);
}

#[test]
fn full_pipeline_renders_every_pixel_from_the_table() {
    let segs = default_segments();
    let fills = default_fills(&segs);
    let ramp = build_ramp(&segs, &fills);
    let field = noise_field(32, 16, 77);
    let img = render_terrain(&field, &segs, &fills);
    assert_eq!(img.pixels.len(), 32 * 16);
    for (k, p) in img.pixels.iter().enumerate() {
        let v = field.samples[k];
        let idx = if v < 0 { -v } else { v };
        let idx = if idx > 255 { 255 } else { idx } as usize;
        assert_eq!(*p, ramp.table[idx]);
    }
}
