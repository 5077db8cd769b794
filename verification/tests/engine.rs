use mandelbrot::color::{color_pixel, to_rgb_bytes};
use mandelbrot::escape::is_point_in_set;
use mandelbrot::fixed::SCALE;
use mandelbrot::render::{derive_height, generate_image, iteration_budget, render_grid, RenderError};
use mandelbrot::viewport::ViewportState;
use mandelbrot::zoom::ZOOM_POWER;

fn classic_view() -> ViewportState {
    ViewportState { center_re: -2_500_000, center_im: 0, zoom: SCALE }
}

#[test]
fn initial_view_is_classic_framing() {
    let vp = ViewportState::initial();
    assert_eq!(vp, classic_view());
}

#[test]
fn escape_index_stays_below_budget() {
    // An escaping point reports an index strictly below the budget; a
    // bounded point reports no index at all.
    let far_out = is_point_in_set(3 * SCALE, 0, 50);
    assert!(matches!(far_out, Some(i) if i < 50));
    let origin = is_point_in_set(0, 0, 50);
    assert_eq!(origin, None);
}

#[test]
fn renders_are_deterministic() {
    let vp = classic_view();
    let first = generate_image(16, 12, &vp, 1).unwrap();
    let second = generate_image(16, 12, &vp, 1).unwrap();
    assert_eq!(first.0, second.0);
    assert_eq!(first.1, second.1);
}

#[test]
fn mapping_is_strictly_monotonic_per_axis() {
    let vp = classic_view();
    let width: usize = 64;
    let height: usize = 48;
    for x in 0..width - 1 {
        assert!(vp.map_re(x, width) < vp.map_re(x + 1, width));
    }
    for y in 0..height - 1 {
        assert!(vp.map_im(y, height) < vp.map_im(y + 1, height));
    }
}

#[test]
fn statistics_are_ordered_after_render() {
    let vp = classic_view();
    let (_, stats) = render_grid(8, 6, &vp, 8);
    assert!(stats.lowest <= stats.highest);
}

#[test]
fn color_channels_stay_within_byte_range() {
    let samples: [(u32, u32, u32); 5] = [(0, 0, 10), (5, 0, 10), (10, 0, 10), (7, 7, 7), (3, 1, 4)];
    for (count, lowest, highest) in samples {
        let px = color_pixel(count, lowest, highest);
        assert_eq!(px >> 24, 255);
        assert!((px >> 16) & 0xFF <= 255);
        assert!((px >> 8) & 0xFF <= 255);
        assert!(px & 0xFF <= 255);
    }
}

#[test]
fn color_ramp_exact_values() {
    // Halfway up the ramp: red truncates to 127, green/blue saturate.
    assert_eq!(color_pixel(5, 0, 10), 0xFF7FFFFF);
    // Bottom of the ramp: near-black, fully opaque.
    assert_eq!(color_pixel(0, 0, 10), 0xFF000000);
    // Top of the ramp: white.
    assert_eq!(color_pixel(10, 0, 10), 0xFFFFFFFF);
    // Degenerate statistics fall back to the ramp's origin.
    assert_eq!(color_pixel(7, 7, 7), 0xFF000000);
}

#[test]
fn zoom_round_trip_restores_zoom_exactly() {
    let vp = classic_view();
    let inner = vp.zoom_in(13, 7, 64, 48);
    assert_eq!(inner.zoom, vp.zoom * ZOOM_POWER);
    let back = inner.zoom_out(13, 7, 64, 48);
    assert_eq!(back.zoom, vp.zoom);
}

#[test]
fn zoom_in_recenters_on_clicked_point() {
    let vp = classic_view();
    let inner = vp.zoom_in(0, 0, 4, 4);
    // Pixel (0, 0) of the classic view lies at (-2.25, -1.2).
    assert_eq!(inner.center_re, -22_500_000);
    assert_eq!(inner.center_im, -12_000_000);
    assert_eq!(inner.zoom, 3 * SCALE);
}

#[test]
fn zoom_out_recenters_on_mirrored_point() {
    let vp = classic_view();
    let inner = vp.zoom_in(0, 0, 4, 4);
    let back = inner.zoom_out(0, 0, 4, 4);
    // The mirrored pixel (3, 3) of the inner view, located with the inner
    // zoom factor 3.0: base (-2.9166666, -1.6) plus the full spans
    // (1.1666666, 0.8).
    assert_eq!(back.zoom, SCALE);
    assert_eq!(back.center_re, -29_166_666 + 11_666_666);
    assert_eq!(back.center_im, -16_000_000 + 8_000_000);
}

#[test]
fn top_left_of_classic_view_escapes_immediately() {
    // width = 4, height = 4, centre (-0.25, 0), zoom 1, budget 4: pixel
    // (0, 0) maps to (-2.25, -1.2), which lies outside radius 2 and so
    // escapes at step 0.
    let vp = classic_view();
    let (grid, stats) = render_grid(4, 4, &vp, 4);
    assert_eq!(grid[0], 0);
    assert_eq!(stats.lowest, 0);
}

#[test]
fn set_center_never_escapes() {
    // Pixel (4, 2) of an 8 x 5 classic view maps exactly onto the centre
    // (-0.25, 0), an interior point: a large budget still finds no escape.
    let vp = classic_view();
    assert_eq!(vp.map_re(4, 8), -2_500_000);
    assert_eq!(vp.map_im(2, 5), 0);
    assert_eq!(is_point_in_set(-2_500_000, 0, 1000), None);
}

#[test]
fn fully_divergent_render_yields_degenerate_statistics() {
    // A viewport far outside radius 2: every pixel escapes at step 0, the
    // statistics collapse, and every pixel gets the fallback colour rather
    // than anything divided by zero.
    let vp = ViewportState { center_re: 100 * SCALE, center_im: 0, zoom: SCALE };
    let (buffer, stats) = generate_image(4, 4, &vp, 1).unwrap();
    assert_eq!(stats.lowest, 0);
    assert_eq!(stats.highest, 0);
    assert_eq!(buffer.len(), 16);
    for px in buffer {
        assert_eq!(px, 0xFF000000);
    }
}

#[test]
fn undersized_dimensions_are_rejected() {
    let vp = classic_view();
    assert_eq!(generate_image(1, 4, &vp, 1), Err(RenderError::InvalidDimension));
    assert_eq!(generate_image(4, 0, &vp, 1), Err(RenderError::InvalidDimension));
}

#[test]
fn budget_follows_width_and_scale() {
    assert_eq!(iteration_budget(1024, 1), 1024);
    assert_eq!(iteration_budget(1024, 3), 341);
}

#[test]
fn height_follows_fixed_aspect_ratio() {
    assert_eq!(derive_height(1024), 702);
    assert_eq!(derive_height(35), 24);
}

#[test]
fn rgb_bytes_drop_alpha_and_keep_channel_order() {
    let buffer: Vec<u32> = vec![0xFF123456, 0xFF000000];
    let bytes = to_rgb_bytes(&buffer);
    assert_eq!(bytes, vec![0x12, 0x34, 0x56, 0x00, 0x00, 0x00]);
}
