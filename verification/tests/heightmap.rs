//! End-to-end tests of the heightmap renderer and its PNG output.
use perlin_noise::noise::PerlinNoise;

#[test]
fn four_by_four_image_round_trips_through_png() {
    let engine = PerlinNoise::new();
    // frequency 2.0 and amplitude 1.0 in the fixed-point scale
    let bytes = engine.generate_image(4, 4, 2048, 1024);
    let decoded = image::load_from_memory(&bytes).expect("output is not a decodable image");
    assert_eq!(decoded.width(), 4);
    assert_eq!(decoded.height(), 4);
    assert!(matches!(decoded.color(), image::ColorType::L8));
    let gray = decoded.into_luma8();
    let pixels: Vec<u8> = gray.into_raw();
    assert_eq!(pixels.len(), 16);
}

#[test]
fn rendered_pixels_match_the_png_payload() {
    let engine = PerlinNoise::new();
    let pixels = engine.render_pixels(8, 8, 2048, 1024);
    assert_eq!(pixels.len(), 64);
    let bytes = engine.generate_image(8, 8, 2048, 1024);
    let decoded = image::load_from_memory(&bytes).expect("output is not a decodable image");
    let decoded_pixels: Vec<u8> = decoded.into_luma8().into_raw();
    assert_eq!(pixels, decoded_pixels);
}

#[test]
fn zero_amplitude_renders_mid_gray() {
    let engine = PerlinNoise::new();
    // with amplitude zero every noise value maps to (0 + 1) * 127.5
    let pixels = engine.render_pixels(3, 3, 4096, 0);
    assert_eq!(pixels.len(), 9);
    for v in pixels.iter() {
        assert_eq!(*v, 127);
    }
}

#[test]
fn one_pixel_image_renders() {
    let engine = PerlinNoise::new();
    let pixels = engine.render_pixels(1, 1, 1024, 1024);
    // the single pixel samples the lattice origin, where noise is zero
    assert_eq!(pixels, vec![127u8]);
}
