use ascii_art::get_image;
use ascii_art::get_str_ascii;
use ascii_art::pixel_intensity;
use ascii_art::AsciiError;
use ascii_art::Pixel;
use ascii_art::PixelGrid;

fn px(r: u8, g: u8, b: u8, a: u8) -> Pixel {
    Pixel { r, g, b, a }
}

/// A grid where every pixel has the same value.
fn uniform_grid(width: u32, height: u32, p: Pixel) -> PixelGrid {
    let mut rows: Vec<Vec<Pixel>> = Vec::new();
    for _y in 0..height {
        let mut row: Vec<Pixel> = Vec::new();
        for _x in 0..width {
            row.push(p);
        }
        rows.push(row);
    }
    PixelGrid::new(width, height, rows).unwrap()
}

#[test]
fn ramp_boundary_values() {
    assert_eq!(get_str_ascii(0), " ");
    assert_eq!(get_str_ascii(31), " ");
    assert_eq!(get_str_ascii(32), ".");
    assert_eq!(get_str_ascii(223), "=");
    assert_eq!(get_str_ascii(224), "@");
    assert_eq!(get_str_ascii(255), "@");
}

#[test]
fn ramp_every_band() {
    let expected = [" ", ".", ",", "-", "~", "+", "=", "@"];
    for band in 0..8u8 {
        assert_eq!(get_str_ascii(band * 32), expected[band as usize]);
        assert_eq!(get_str_ascii(band * 32 + 31), expected[band as usize]);
    }
}

#[test]
fn intensity_sums_truncated_channels() {
    assert_eq!(pixel_intensity(px(255, 255, 255, 255)), 255);
    assert_eq!(pixel_intensity(px(0, 0, 0, 255)), 0);
    assert_eq!(pixel_intensity(px(100, 100, 100, 255)), 99);
    // each channel truncates before the sum: 5/3 + 5/3 + 5/3 = 3, not 5
    assert_eq!(pixel_intensity(px(5, 5, 5, 255)), 3);
}

#[test]
fn intensity_zero_when_fully_transparent() {
    assert_eq!(pixel_intensity(px(255, 255, 255, 0)), 0);
    assert_eq!(pixel_intensity(px(17, 200, 91, 0)), 0);
    // any nonzero alpha keeps the color-derived intensity
    assert_eq!(pixel_intensity(px(255, 255, 255, 1)), 255);
}

#[test]
fn transparent_pixels_render_as_space() {
    let g = uniform_grid(3, 1, px(250, 12, 77, 0));
    let canvas = get_image(&g, 1).unwrap();
    assert_eq!(canvas, vec![vec![" ", " ", " ", ""]]);
}

#[test]
fn quantizer_scenarios() {
    let white = uniform_grid(1, 1, px(255, 255, 255, 255));
    assert_eq!(get_image(&white, 1).unwrap(), vec![vec!["@", ""]]);
    let black = uniform_grid(1, 1, px(0, 0, 0, 255));
    assert_eq!(get_image(&black, 1).unwrap(), vec![vec![" ", ""]]);
    let gray = uniform_grid(1, 1, px(100, 100, 100, 255));
    assert_eq!(get_image(&gray, 1).unwrap(), vec![vec!["-", ""]]);
}

#[test]
fn row_count_equals_height_and_odd_rows_empty_at_scale_one() {
    let g = uniform_grid(2, 5, px(0, 0, 0, 255));
    let canvas = get_image(&g, 1).unwrap();
    assert_eq!(canvas.len(), 5);
    for (y, row) in canvas.iter().enumerate() {
        if y % 2 == 0 {
            assert_eq!(row, &vec![" ", " ", ""]);
        } else {
            assert!(row.is_empty());
        }
    }
}

#[test]
fn sampled_row_has_ceil_width_over_scale_glyphs_and_one_terminator() {
    let g = uniform_grid(5, 1, px(0, 0, 0, 255));
    let canvas = get_image(&g, 2).unwrap();
    // ceil(5 / 2) = 3 glyphs, then exactly one empty terminator
    assert_eq!(canvas[0].len(), 4);
    assert_eq!(canvas[0][3], "");
    assert_eq!(canvas[0].iter().filter(|s| s.is_empty()).count(), 1);
}

#[test]
fn scale_larger_than_image_samples_origin_only() {
    let g = uniform_grid(3, 3, px(255, 255, 255, 255));
    let canvas = get_image(&g, 4).unwrap();
    assert_eq!(canvas, vec![vec!["@", ""], vec![], vec![]]);
}

#[test]
fn zero_scale_is_rejected() {
    let g = uniform_grid(2, 2, px(9, 9, 9, 255));
    assert_eq!(get_image(&g, 0), Err(AsciiError::InvalidScale));
    let empty = uniform_grid(0, 0, px(0, 0, 0, 0));
    assert_eq!(get_image(&empty, 0), Err(AsciiError::InvalidScale));
}

#[test]
fn empty_image_renders_empty_grid() {
    let empty = uniform_grid(0, 0, px(0, 0, 0, 0));
    assert_eq!(get_image(&empty, 1).unwrap(), Vec::<Vec<&str>>::new());
    // zero width still terminates each sampled row
    let thin = uniform_grid(0, 2, px(0, 0, 0, 0));
    assert_eq!(get_image(&thin, 1).unwrap(), vec![vec![""], vec![]]);
}

#[test]
fn rendering_is_deterministic() {
    let mut rows: Vec<Vec<Pixel>> = Vec::new();
    for y in 0..4u32 {
        let mut row: Vec<Pixel> = Vec::new();
        for x in 0..6u32 {
            let v = (x * 40 + y * 13) as u8;
            row.push(px(v, v.wrapping_mul(3), v / 2, 255));
        }
        rows.push(row);
    }
    let g = PixelGrid::new(6, 4, rows.clone()).unwrap();
    let g2 = PixelGrid::new(6, 4, rows).unwrap();
    let first = get_image(&g, 2).unwrap();
    let second = get_image(&g2, 2).unwrap();
    assert_eq!(first, second);
}

#[test]
fn grid_constructor_rejects_mismatched_dimensions() {
    let rows = vec![vec![px(0, 0, 0, 255); 3], vec![px(0, 0, 0, 255); 2]];
    assert!(PixelGrid::new(3, 2, rows).is_none());
    let short = vec![vec![px(0, 0, 0, 255); 3]];
    assert!(PixelGrid::new(3, 2, short).is_none());
    let good = vec![vec![px(0, 0, 0, 255); 3], vec![px(0, 0, 0, 255); 3]];
    assert!(PixelGrid::new(3, 2, good).is_some());
}
