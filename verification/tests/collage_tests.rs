use img_collage::CollageError;
use img_collage::collage::{collage_webp_persistent, collage_webp_transient, write_webp};
use img_collage::grid::compute_grid;
use img_collage::placement::resolve_placement;
use img_collage::supported_extension;

/// A solid-color RGBA image of the given size, losslessly encoded as WebP.
fn make_solid_webp(w: u32, h: u32, rgba: [u8; 4]) -> Vec<u8> {
    let mut data: Vec<u8> = Vec::new();
    for _ in 0..(w * h) {
        data.extend_from_slice(&rgba);
    }
    let mut out: Vec<u8> = Vec::new();
    let enc = image::codecs::webp::WebPEncoder::new_lossless(&mut out);
    enc.encode(&data, w, h, image::ExtendedColorType::Rgba8).unwrap();
    out
}

fn decode_rgba(bytes: &[u8]) -> (u32, u32, Vec<u8>) {
    let img = image::load_from_memory(bytes).unwrap().to_rgba8();
    let (w, h) = img.dimensions();
    (w, h, img.into_raw())
}

#[test]
fn grid_ten_images() {
    let g = compute_grid(10, 200).unwrap();
    assert_eq!(g.columns, 4);
    assert_eq!(g.rows, 3);
    assert_eq!(g.canvas_width, 800);
    assert_eq!(g.canvas_height, 600);
    assert!(g.columns * g.rows >= 10);
}

#[test]
fn grid_nine_images() {
    let g = compute_grid(9, 200).unwrap();
    assert_eq!(g.columns, 3);
    assert_eq!(g.rows, 3);
}

#[test]
fn grid_single_image() {
    let g = compute_grid(1, 200).unwrap();
    assert_eq!(g.columns, 1);
    assert_eq!(g.rows, 1);
    assert_eq!(g.canvas_width, 200);
    assert_eq!(g.canvas_height, 200);
}

#[test]
fn grid_zero_images_is_empty_input() {
    let r = compute_grid(0, 200);
    assert_eq!(r.unwrap_err(), CollageError::EmptyInput);
    assert_eq!(CollageError::EmptyInput.describe(), "no images found");
}

#[test]
fn grid_oversized_canvas_refused() {
    let r = compute_grid(1, u32::MAX);
    assert_eq!(r.unwrap_err(), CollageError::CanvasTooLarge);
}

#[test]
fn placement_square_fills_cell() {
    let g = compute_grid(4, 150).unwrap();
    let p = resolve_placement(0, 100, 100, &g);
    assert_eq!(p.scaled_w, 150);
    assert_eq!(p.scaled_h, 150);
    assert_eq!(p.offset_x, 0);
    assert_eq!(p.offset_y, 0);
}

#[test]
fn placement_scales_and_centers() {
    let g = compute_grid(4, 150).unwrap();
    // 50x200 in a 150-cell: the longer side fills the cell; the shorter
    // side is 50 * 150 / 200 = 37.5, rounded half away from zero to 38.
    let p = resolve_placement(1, 50, 200, &g);
    assert_eq!(p.scaled_w, 38);
    assert_eq!(p.scaled_h, 150);
    assert_eq!(p.cell_x, 150);
    assert_eq!(p.cell_y, 0);
    assert_eq!(p.offset_x, 150 + (150 - 38) / 2);
    assert_eq!(p.offset_y, 0);
    assert!(p.scaled_w <= 150 && p.scaled_h <= 150);
    assert_eq!(p.scaled_w.max(p.scaled_h), 150);
}

#[test]
fn placement_centering_odd_and_even_slack() {
    let g = compute_grid(2, 150).unwrap();
    // 100x200 scales to 75x150: slack 75 is odd, floored half is 37.
    let p = resolve_placement(0, 100, 200, &g);
    assert_eq!(p.scaled_w, 75);
    assert_eq!(p.offset_x - p.cell_x, 37);
    // 50x200 scales to 38x150: slack 112 is even, half is 56.
    let q = resolve_placement(1, 50, 200, &g);
    assert_eq!(q.scaled_w, 38);
    assert_eq!(q.offset_x - q.cell_x, 56);
}

#[test]
fn placement_thin_source_floors_at_one_pixel() {
    let g = compute_grid(1, 100).unwrap();
    let p = resolve_placement(0, 1, 1000, &g);
    assert_eq!(p.scaled_w, 1);
    assert_eq!(p.scaled_h, 100);
}

#[test]
fn extension_filter() {
    assert!(supported_extension(&b"webp".to_vec()));
    assert!(supported_extension(&b"WEBP".to_vec()));
    assert!(supported_extension(&b"jpg".to_vec()));
    assert!(supported_extension(&b"JpEg".to_vec()));
    assert!(!supported_extension(&b"png".to_vec()));
    assert!(!supported_extension(&b"jpgx".to_vec()));
    assert!(!supported_extension(&b"".to_vec()));
}

#[test]
fn write_webp_rejects_wrong_length() {
    let r = write_webp(2, 2, &vec![0u8; 15]);
    assert_eq!(r.unwrap_err(), CollageError::EncodeFailed);
}

#[test]
fn write_webp_rejects_oversized_dimensions() {
    let r = write_webp(20000, 1, &vec![0u8; 80000]);
    assert_eq!(r.unwrap_err(), CollageError::EncodeFailed);
}

#[test]
fn empty_input_produces_no_output() {
    let files: Vec<Vec<u8>> = Vec::new();
    let r = collage_webp_transient(&files, 200);
    assert_eq!(r.unwrap_err(), CollageError::EmptyInput);
}

#[test]
fn transient_and_persistent_identical() {
    let files = vec![
        make_solid_webp(100, 100, [255, 0, 0, 255]),
        make_solid_webp(50, 200, [0, 255, 0, 255]),
        make_solid_webp(300, 100, [0, 0, 255, 255]),
        make_solid_webp(100, 100, [255, 255, 0, 255]),
    ];
    let transient = collage_webp_transient(&files, 150).unwrap();
    let map = memmap2::MmapMut::map_anon(300 * 300 * 4).unwrap();
    let persistent = collage_webp_persistent(map, &files, 150).unwrap();
    assert_eq!(transient, persistent);
}

#[test]
fn persistent_buffer_size_mismatch() {
    let files = vec![make_solid_webp(10, 10, [1, 2, 3, 255])];
    let map = memmap2::MmapMut::map_anon(16).unwrap();
    let r = collage_webp_persistent(map, &files, 10);
    assert_eq!(r.unwrap_err(), CollageError::BufferSizeMismatch);
}

#[test]
fn decode_failure_leaves_cell_transparent() {
    let files = vec![
        make_solid_webp(100, 100, [200, 10, 10, 255]),
        b"this is not an image".to_vec(),
        make_solid_webp(50, 100, [10, 10, 200, 255]),
    ];
    let out = collage_webp_transient(&files, 100).unwrap();
    let (w, h, px) = decode_rgba(&out);
    // Three images: 2x2 grid of 100-cells; dimensions are unchanged by
    // the failure.
    assert_eq!((w, h), (200, 200));
    // The failed image's whole cell (top right) stays transparent-white
    // background.
    for y in 0..100u32 {
        for x in 100..200u32 {
            let i = ((y * w + x) * 4) as usize;
            assert_eq!(&px[i..i + 4], &[255, 255, 255, 0]);
        }
    }
    // The neighbours are still composited: their cell centers are opaque.
    let c0 = ((50 * w + 50) * 4) as usize;
    assert_eq!(px[c0 + 3], 255);
    assert!(px[c0] > 100);
    let c2 = ((150 * w + 50) * 4) as usize;
    assert_eq!(px[c2 + 3], 255);
    assert!(px[c2 + 2] > 100);
}

#[test]
fn round_trip_dimensions() {
    let files = vec![
        make_solid_webp(30, 30, [5, 6, 7, 255]),
        make_solid_webp(40, 20, [8, 9, 10, 255]),
    ];
    let out = collage_webp_transient(&files, 120).unwrap();
    let (w, h, px) = decode_rgba(&out);
    assert_eq!(w, 2 * 120);
    assert_eq!(h, 1 * 120);
    // The first image really was resampled up to its cell: its center
    // keeps the solid source color.
    let c = ((60 * w + 60) * 4) as usize;
    assert_eq!(px[c + 3], 255);
    assert!((px[c] as i32 - 5).abs() <= 1);
    assert!((px[c + 1] as i32 - 6).abs() <= 1);
}

#[test]
fn narrow_image_centered_with_transparent_margins() {
    // One 50x100 image in a 100-cell: scaled to 50x100 and centered at
    // x = 25, leaving transparent background on both margins.
    let files = vec![make_solid_webp(50, 100, [20, 180, 40, 255])];
    let out = collage_webp_transient(&files, 100).unwrap();
    let (w, h, px) = decode_rgba(&out);
    assert_eq!((w, h), (100, 100));
    let margin = ((50 * w + 10) * 4) as usize;
    assert_eq!(&px[margin..margin + 4], &[255, 255, 255, 0]);
    let right_margin = ((50 * w + 90) * 4) as usize;
    assert_eq!(&px[right_margin..right_margin + 4], &[255, 255, 255, 0]);
    let center = ((50 * w + 50) * 4) as usize;
    assert_eq!(px[center + 3], 255);
    assert!((px[center + 1] as i32 - 180).abs() <= 1);
}
