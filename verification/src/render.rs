//! Rendering the noise field as an 8-bit grayscale heightmap and encoding
//! it as PNG bytes.
use crate::math::Vec2;
use crate::noise::PerlinNoise;
use vstd::arithmetic::div_mod::{
    lemma_div_is_ordered, lemma_div_multiples_vanish, lemma_div_pos_is_pos,
    lemma_fundamental_div_mod_converse,
};
use vstd::prelude::*;

verus! {

/// Upper bound on each image dimension (2^15): keeps the pixel count
/// `width * height` within 2^30 (an in-range `usize` even on 32-bit
/// targets) and every per-pixel product of the coordinate mapping within
/// `i64`.
pub const MAX_DIMENSION: u32 = 32768;

/// Upper bound on the fixed-point frequency (2^20, or 1024 whole periods
/// across the image): with it, `pixel * frequency` stays within 2^35 and
/// every sampled coordinate within 2^20 fixed-point steps.
pub const MAX_FREQUENCY: i64 = 0x10_0000;

/// Upper bound on the fixed-point amplitude (2^14, or 16 whole units):
/// with it, `noise * amplitude` stays within 2^36.
pub const MAX_AMPLITUDE: i64 = 0x4000;

/// The noise-space coordinate sampled for pixel `p` of an axis of `n`
/// pixels: the pixel's fraction of the axis, scaled by the frequency
/// (fixed-point, rounded down).
pub open spec fn spec_pixel_coord(p: int, n: int, frequency: int) -> int {
    p * frequency / n
}

/// The 8-bit intensity of a noise value (squared fixed-point scale):
/// `[-1, 1]` is mapped affinely onto `[0, 255]`, rounding down, and values
/// beyond one unit either way are clamped.
pub open spec fn spec_intensity(value: int) -> u8 {
    let fu = crate::FP_UNIT as int;
    if value <= -fu {
        0u8
    } else if value >= fu {
        255u8
    } else {
        (((value + fu) * 255) / (2 * fu)) as u8
    }
}

/// The pixel at `(px, py)` of the rendered heightmap: the noise at the
/// pixel's noise-space point, scaled by the amplitude and mapped to an
/// intensity.
#[verifier::opaque]
pub open spec fn spec_pixel(
    grads: Seq<Vec2<i64>>,
    perm: Seq<usize>,
    px: int,
    py: int,
    width: int,
    height: int,
    frequency: int,
    amplitude: int,
) -> u8 {
    let x = spec_pixel_coord(px, width, frequency);
    let y = spec_pixel_coord(py, height, frequency);
    spec_intensity(
        crate::noise::spec_noise(grads, perm, x, y) * amplitude / (crate::FP_ONE as int),
    )
}

/// The whole rendered heightmap, row by row: entry `k` is the pixel at
/// column `k % width` of row `k / width`.
pub open spec fn spec_pixel_grid(
    grads: Seq<Vec2<i64>>,
    perm: Seq<usize>,
    width: int,
    height: int,
    frequency: int,
    amplitude: int,
) -> Seq<u8> {
    Seq::new(
        (width * height) as nat,
        |k: int|
            spec_pixel(grads, perm, k % width, k / width, width, height, frequency, amplitude),
    )
}

/// The PNG encoding of an 8-bit single-channel image, as the `image` crate
/// produces it.  The encoder is deterministic: the bytes depend on the
/// dimensions and pixels alone.
pub uninterp spec fn png_encoding(width: u32, height: u32, pixels: Seq<u8>) -> Seq<u8>;

/// Relies on image::GrayImage::from_raw and image::ImageBuffer::write_to
/// with image::ImageFormat::Png: encodes an 8-bit single-channel pixel
/// grid, row by row, as PNG bytes, a deterministic function of the
/// dimensions and the pixels.  For nonzero dimensions the call cannot
/// fail: `from_raw` accepts a buffer of exactly `width * height` bytes,
/// the PNG encoder rejects only zero-sized images, and writing to an
/// in-memory cursor cannot raise an I/O error — so bytes always come
/// back.  A zero dimension surfaces as `None`.
#[verifier::external_body]
fn encode_gray_png(width: u32, height: u32, pixels: Vec<u8>) -> (r: Option<Vec<u8>>)
    requires
        pixels@.len() == width * height,
    ensures
        r matches Some(b) ==> b@ == png_encoding(width, height, pixels@),
        width >= 1 && height >= 1 ==> r is Some,
{
    let img = match image::GrayImage::from_raw(width, height, pixels) {
        Some(img) => img,
        None => return None,
    };
    let mut buf: Vec<u8> = Vec::new();
    let mut cursor = std::io::Cursor::new(&mut buf);
    match img.write_to(&mut cursor, image::ImageFormat::Png) {
        Ok(()) => Some(buf),
        Err(_) => None,
    }
}

/// The coordinate of pixel `p` along an axis of `n` pixels, scaled by the
/// fixed-point `frequency`.
fn pixel_coord(p: u32, n: u32, frequency: i64) -> (c: i64)
    requires
        1 <= n <= MAX_DIMENSION,
        p < n,
        0 <= frequency <= MAX_FREQUENCY,
    ensures
        c == spec_pixel_coord(p as int, n as int, frequency as int),
        0 <= c <= frequency,
{
    proof {
        assert(0 <= (p as int) * (frequency as int) <= (n as int) * (frequency as int))
            by (nonlinear_arith)
            requires
                0 <= p as int <= n as int,
                0 <= frequency,
                n as int <= 32768,
                frequency <= 0x10_0000,
        ;
        assert((n as int) * (frequency as int) <= 0x8_0000_0000i64) by (nonlinear_arith)
            requires
                0 <= n as int <= 32768,
                0 <= frequency <= 0x10_0000,
        ;
        lemma_div_pos_is_pos((p as int) * (frequency as int), n as int);
        lemma_div_is_ordered(
            (p as int) * (frequency as int),
            (n as int) * (frequency as int),
            n as int,
        );
        lemma_div_multiples_vanish(frequency as int, n as int);
    }
    let num = (p as i64) * frequency;
    num.checked_div_euclid(n as i64).unwrap()
}

/// The 8-bit intensity of a fixed-point noise value.
fn intensity(value: i64) -> (r: u8)
    requires
        -0x1000_0000 <= value <= 0x1000_0000,
    ensures
        r == spec_intensity(value as int),
{
    let fu = crate::FP_UNIT;
    if value <= -fu {
        0
    } else if value >= fu {
        255
    } else {
        let num = (value + fu) * 255;
        proof {
            lemma_div_pos_is_pos(num as int, 2 * fu as int);
            lemma_div_is_ordered(num as int, (2 * fu as int) * 255, 2 * fu as int);
            lemma_div_multiples_vanish(255, 2 * fu as int);
        }
        num.checked_div_euclid(2 * fu).unwrap() as u8
    }
}

impl PerlinNoise {
    /// One pixel of the rendered heightmap.
    fn render_one_pixel(
        &self,
        px: u32,
        py: u32,
        width: u32,
        height: u32,
        frequency: i64,
        amplitude: i64,
    ) -> (b: u8)
        requires
            self.wf(),
            1 <= width <= MAX_DIMENSION,
            1 <= height <= MAX_DIMENSION,
            px < width,
            py < height,
            0 <= frequency <= MAX_FREQUENCY,
            0 <= amplitude <= MAX_AMPLITUDE,
        ensures
            b == spec_pixel(
                self.spec_gradients(),
                self.spec_permutations(),
                px as int,
                py as int,
                width as int,
                height as int,
                frequency as int,
                amplitude as int,
            ),
    {
        let x = pixel_coord(px, width, frequency);
        let y = pixel_coord(py, height, frequency);
        let noise = self.calculate_noise(Vec2::new(x, y));
        proof {
            assert(-0x8_0000_0000i64 <= noise * amplitude <= 0x8_0000_0000i64)
                by (nonlinear_arith)
                requires
                    -0x20_0000 <= noise <= 0x20_0000,
                    0 <= amplitude <= 0x4000,
            ;
            crate::math::lemma_div_fits_i64(noise as int * amplitude as int, 1024);
            lemma_div_is_ordered(
                -0x8_0000_0000,
                noise as int * amplitude as int,
                crate::FP_ONE as int,
            );
            lemma_div_is_ordered(
                noise as int * amplitude as int,
                0x8_0000_0000,
                crate::FP_ONE as int,
            );
        }
        let value = (noise * amplitude).checked_div_euclid(crate::FP_ONE).unwrap();
        let b = intensity(value);
        proof {
            reveal(crate::render::spec_pixel);
        }
        b
    }

    /// The rendered heightmap of this engine: `width * height` pixels, row
    /// by row, each the clamped, amplitude-scaled noise value at the
    /// pixel's noise-space point.
    #[verifier::rlimit(100)]
    pub fn render_pixels(
        &self,
        width: u32,
        height: u32,
        frequency: i64,
        amplitude: i64,
    ) -> (pixels: Vec<u8>)
        requires
            self.wf(),
            1 <= width <= MAX_DIMENSION,
            1 <= height <= MAX_DIMENSION,
            0 <= frequency <= MAX_FREQUENCY,
            0 <= amplitude <= MAX_AMPLITUDE,
        ensures
            pixels@ == spec_pixel_grid(
                self.spec_gradients(),
                self.spec_permutations(),
                width as int,
                height as int,
                frequency as int,
                amplitude as int,
            ),
    {
        let ghost grid = spec_pixel_grid(
            self.spec_gradients(),
            self.spec_permutations(),
            width as int,
            height as int,
            frequency as int,
            amplitude as int,
        );
        let mut pixels: Vec<u8> = Vec::new();
        let mut py: u32 = 0;
        proof {
            assert((width as int) * (height as int) <= 0x4000_0000) by (nonlinear_arith)
                requires
                    0 <= width as int <= 32768,
                    0 <= height as int <= 32768,
            ;
        }
        while py < height
            invariant
                self.wf(),
                1 <= width <= MAX_DIMENSION,
                1 <= height <= MAX_DIMENSION,
                0 <= frequency <= MAX_FREQUENCY,
                0 <= amplitude <= MAX_AMPLITUDE,
                py <= height,
                grid == spec_pixel_grid(
                    self.spec_gradients(),
                    self.spec_permutations(),
                    width as int,
                    height as int,
                    frequency as int,
                    amplitude as int,
                ),
                pixels@.len() == (py as int) * (width as int),
                forall|k: int| 0 <= k < pixels@.len() ==> pixels@[k] == grid[k],
            decreases height - py,
        {
            let mut px: u32 = 0;
            while px < width
                invariant
                    self.wf(),
                    1 <= width <= MAX_DIMENSION,
                    1 <= height <= MAX_DIMENSION,
                    0 <= frequency <= MAX_FREQUENCY,
                    0 <= amplitude <= MAX_AMPLITUDE,
                    py < height,
                    px <= width,
                    grid == spec_pixel_grid(
                        self.spec_gradients(),
                        self.spec_permutations(),
                        width as int,
                        height as int,
                        frequency as int,
                        amplitude as int,
                    ),
                    pixels@.len() == (py as int) * (width as int) + px as int,
                    forall|k: int| 0 <= k < pixels@.len() ==> pixels@[k] == grid[k],
                decreases width - px,
            {
                let b = self.render_one_pixel(px, py, width, height, frequency, amplitude);
                let ghost k = (py as int) * (width as int) + px as int;
                proof {
                    assert(k < (width as int) * (height as int)) by (nonlinear_arith)
                        requires
                            k == (py as int) * (width as int) + px as int,
                            0 <= (px as int) < (width as int),
                            0 <= (py as int) < (height as int),
                    ;
                    lemma_fundamental_div_mod_converse(k, width as int, py as int, px as int);
                    assert(b == grid[k]);
                }
                pixels.push(b);
                px = px + 1;
            }
            proof {
                assert(((py as int) + 1) * (width as int) == (py as int) * (width as int)
                    + width as int) by (nonlinear_arith);
            }
            py = py + 1;
        }
        proof {
            assert(pixels@.len() == grid.len()) by (nonlinear_arith)
                requires
                    pixels@.len() == (py as int) * (width as int),
                    py as int == height as int,
                    grid.len() == ((width as int) * (height as int)) as nat,
            ;
            assert(pixels@ =~= grid);
        }
        pixels
    }

    /// The PNG bytes of the rendered heightmap: exactly the encoding of
    /// the pixel grid of `render_pixels` for these parameters.  With the
    /// nonzero dimensions the precondition asks for, encoding cannot fail,
    /// so a buffer is always returned.
    pub fn generate_image(
        &self,
        width: u32,
        height: u32,
        frequency: i64,
        amplitude: i64,
    ) -> (r: Vec<u8>)
        requires
            self.wf(),
            1 <= width <= MAX_DIMENSION,
            1 <= height <= MAX_DIMENSION,
            0 <= frequency <= MAX_FREQUENCY,
            0 <= amplitude <= MAX_AMPLITUDE,
        ensures
            r@ == png_encoding(
                width,
                height,
                spec_pixel_grid(
                    self.spec_gradients(),
                    self.spec_permutations(),
                    width as int,
                    height as int,
                    frequency as int,
                    amplitude as int,
                ),
            ),
    {
        let pixels = self.render_pixels(width, height, frequency, amplitude);
        encode_gray_png(width, height, pixels).unwrap()
    }
}

} // verus!
