//! Plain-text PPM output.

use vstd::prelude::*;
use crate::rtweekend::interval::Interval;
use crate::rtweekend::scalar::INFINITY;
use crate::rtweekend::vec3::Color;

verus! {

/// The decimal digits of `n` as ASCII, most significant first; `0` is "0".
pub open spec fn decimal_spec(n: nat) -> Seq<u8>
    decreases n,
{
    if n < 10 {
        seq![(48 + n) as u8]
    } else {
        decimal_spec(n / 10).push((48 + n % 10) as u8)
    }
}

/// The line of one pixel: the three channels in decimal, separated by single
/// spaces and ended by a newline.
pub open spec fn pixel_line_spec(pixel: [u8; 3]) -> Seq<u8> {
    decimal_spec(pixel[0] as nat) + seq![32u8] + decimal_spec(pixel[1] as nat) + seq![32u8]
        + decimal_spec(pixel[2] as nat) + seq![10u8]
}

/// The header of a plain PPM: the magic number, the width and the height, and
/// the largest channel value, 255.
pub open spec fn header_spec(width: u32, height: u32) -> Seq<u8> {
    seq![80u8, 51u8, 10u8] + decimal_spec(width as nat) + seq![32u8] + decimal_spec(height as nat)
        + seq![10u8, 50u8, 53u8, 53u8, 10u8]
}

/// The lines of the first `n` pixels, in order.
pub open spec fn body_spec(pixels: Seq<[u8; 3]>, n: nat) -> Seq<u8>
    decreases n,
{
    if n == 0 || n > pixels.len() {
        Seq::empty()
    } else {
        body_spec(pixels, (n - 1) as nat) + pixel_line_spec(pixels[n - 1])
    }
}

/// Appends the decimal digits of `n` to `out`.
pub fn write_decimal(n: u32, out: &mut Vec<u8>)
    ensures
        final(out)@ == old(out)@ + decimal_spec(n as nat),
    decreases n,
{
    if n >= 10 {
        write_decimal(n / 10, out);
    }
    let digit: u8 = (48 + n % 10) as u8;
    out.push(digit);
    proof {
        if n >= 10 {
            assert(final(out)@ =~= old(out)@ + decimal_spec(n as nat));
        } else {
            assert(final(out)@ =~= old(out)@ + decimal_spec(n as nat));
        }
    }
}

/// Appends the line of one pixel to `out`.
pub fn write_pixel(pixel: &[u8; 3], out: &mut Vec<u8>)
    ensures
        final(out)@ == old(out)@ + pixel_line_spec(*pixel),
{
    write_decimal(pixel[0] as u32, out);
    out.push(32u8);
    write_decimal(pixel[1] as u32, out);
    out.push(32u8);
    write_decimal(pixel[2] as u32, out);
    out.push(10u8);
    proof {
        assert(final(out)@ =~= old(out)@ + pixel_line_spec(*pixel));
    }
}

/// Appends the header of a `width` by `height` image to `out`.
pub fn write_header(width: u32, height: u32, out: &mut Vec<u8>)
    ensures
        final(out)@ == old(out)@ + header_spec(width, height),
{
    out.push(80u8);
    out.push(51u8);
    out.push(10u8);
    write_decimal(width, out);
    out.push(32u8);
    write_decimal(height, out);
    out.push(10u8);
    out.push(50u8);
    out.push(53u8);
    out.push(53u8);
    out.push(10u8);
    proof {
        assert(final(out)@ =~= old(out)@ + header_spec(width, height));
    }
}

/// Rank of 0.999: the brightest intensity that is written.
pub const BRIGHTEST: i64 = 0x3FEF_F7CE_D916_872B;

/// The intensities that are written: from black up to `BRIGHTEST`.
pub open spec fn intensity_spec() -> Interval {
    Interval { min: 0, max: BRIGHTEST }
}

/// A channel as it goes into gamma correction: what is not a number counts as
/// black.
pub open spec fn sanitized_spec(channel: i64) -> i64 {
    if -INFINITY <= channel <= INFINITY {
        channel
    } else {
        0
    }
}

/// The gamma-corrected intensity of a linear one: its root if it is positive,
/// and black otherwise.
pub open spec fn gamma_spec(linear_component: i64, root: spec_fn(i64) -> i64) -> i64 {
    if linear_component > 0 {
        root(linear_component)
    } else {
        0
    }
}

/// The level, from 0 to 255, at which a linear channel is written: the channel
/// is sanitized, gamma-corrected and clamped to the intensities that are
/// written, and the result is turned into a level.
pub open spec fn quantized_spec(
    channel: i64,
    root: spec_fn(i64) -> i64,
    level: spec_fn(i64) -> u8,
) -> u8 {
    level(intensity_spec().clamp_spec(gamma_spec(sanitized_spec(channel), root)))
}

/// The levels of the three channels of a colour.
pub open spec fn levels_spec(
    pixel_color: Color,
    root: spec_fn(i64) -> i64,
    level: spec_fn(i64) -> u8,
) -> [u8; 3] {
    [
        quantized_spec(pixel_color.e[0], root, level),
        quantized_spec(pixel_color.e[1], root, level),
        quantized_spec(pixel_color.e[2], root, level),
    ]
}

/// The lines of the first `n` colours, in order.
pub open spec fn lines_spec(
    pixels: Seq<Color>,
    n: nat,
    root: spec_fn(i64) -> i64,
    level: spec_fn(i64) -> u8,
) -> Seq<u8>
    decreases n,
{
    if n == 0 || n > pixels.len() {
        Seq::empty()
    } else {
        lines_spec(pixels, (n - 1) as nat, root, level) + pixel_line_spec(
            levels_spec(pixels[n - 1], root, level),
        )
    }
}

/// Every answer that the two functions can give is the answer of the models.
pub open spec fn models_levels<R: Fn(i64) -> i64, L: Fn(i64) -> u8>(
    root: &R,
    level: &L,
    root_model: spec_fn(i64) -> i64,
    level_model: spec_fn(i64) -> u8,
) -> bool {
    &&& forall|x: i64, y: i64| #[trigger] root.ensures((x,), y) ==> y == root_model(x)
    &&& forall|x: i64, y: u8| #[trigger] level.ensures((x,), y) ==> y == level_model(x)
}

/// The gamma-corrected intensity of a linear one. `root` takes the square
/// root of a positive intensity.
pub fn linear_to_gamma<R: Fn(i64) -> i64>(linear_component: i64, root: &R) -> (gamma: i64)
    requires
        forall|x: i64| #[trigger] root.requires((x,)),
    ensures
        linear_component <= 0 ==> gamma == 0,
        linear_component > 0 ==> root.ensures((linear_component,), gamma),
{
    if linear_component > 0 {
        return root(linear_component);
    }
    0
}

/// The level at which a linear channel is written. `level` turns an intensity
/// from black up to `BRIGHTEST` into a level.
pub fn quantize<R: Fn(i64) -> i64, L: Fn(i64) -> u8>(channel: i64, root: &R, level: &L) -> (byte:
    u8)
    requires
        forall|x: i64| #[trigger] root.requires((x,)),
        forall|x: i64| #[trigger] level.requires((x,)),
    ensures
        forall|root_model: spec_fn(i64) -> i64, level_model: spec_fn(i64) -> u8| #[trigger]
            models_levels(root, level, root_model, level_model) ==> byte == quantized_spec(
                channel,
                root_model,
                level_model,
            ),
{
    let mut clean = channel;
    if clean > INFINITY || clean < -INFINITY {
        clean = 0;
    }
    let gamma = linear_to_gamma(clean, root);
    let intensity = Interval { min: 0, max: BRIGHTEST };
    level(intensity.clamp(gamma))
}

/// Appends the line of one colour to `out`: its three channels, each
/// sanitized, gamma-corrected, clamped and turned into a level.
pub fn write_color<R: Fn(i64) -> i64, L: Fn(i64) -> u8>(
    pixel_color: &Color,
    out: &mut Vec<u8>,
    root: &R,
    level: &L,
)
    requires
        forall|x: i64| #[trigger] root.requires((x,)),
        forall|x: i64| #[trigger] level.requires((x,)),
    ensures
        forall|root_model: spec_fn(i64) -> i64, level_model: spec_fn(i64) -> u8| #[trigger]
            models_levels(root, level, root_model, level_model) ==> final(out)@ == old(out)@
                + pixel_line_spec(levels_spec(*pixel_color, root_model, level_model)),
{
    let rbyte = quantize(pixel_color.e[0], root, level);
    let gbyte = quantize(pixel_color.e[1], root, level);
    let bbyte = quantize(pixel_color.e[2], root, level);
    let bytes = [rbyte, gbyte, bbyte];
    write_pixel(&bytes, out);
    proof {
        assert forall|root_model: spec_fn(i64) -> i64, level_model: spec_fn(i64) -> u8| #[trigger]
            models_levels(root, level, root_model, level_model) implies bytes == levels_spec(
            *pixel_color,
            root_model,
            level_model,
        ) by {
            assert(bytes =~= levels_spec(*pixel_color, root_model, level_model));
        }
    }
}

/// The image of the given colours as plain PPM: the header, then one line per
/// pixel.
pub open spec fn image_spec(
    width: u32,
    height: u32,
    pixels: Seq<Color>,
    root: spec_fn(i64) -> i64,
    level: spec_fn(i64) -> u8,
) -> Seq<u8> {
    header_spec(width, height) + lines_spec(pixels, pixels.len(), root, level)
}

/// Serializes an image whose colours are given row by row.
pub fn write_image<R: Fn(i64) -> i64, L: Fn(i64) -> u8>(
    width: u32,
    height: u32,
    pixels: &Vec<Color>,
    root: &R,
    level: &L,
) -> (out: Vec<u8>)
    requires
        pixels.len() == width * height,
        forall|x: i64| #[trigger] root.requires((x,)),
        forall|x: i64| #[trigger] level.requires((x,)),
    ensures
        forall|root_model: spec_fn(i64) -> i64, level_model: spec_fn(i64) -> u8| #[trigger]
            models_levels(root, level, root_model, level_model) ==> out@ == image_spec(
                width,
                height,
                pixels@,
                root_model,
                level_model,
            ),
{
    let mut out: Vec<u8> = Vec::new();
    write_header(width, height, &mut out);
    let mut i: usize = 0;
    while i < pixels.len()
        invariant
            i <= pixels.len(),
            forall|x: i64| #[trigger] root.requires((x,)),
            forall|x: i64| #[trigger] level.requires((x,)),
            forall|root_model: spec_fn(i64) -> i64, level_model: spec_fn(i64) -> u8| #[trigger]
                models_levels(root, level, root_model, level_model) ==> out@ == header_spec(
                    width,
                    height,
                ) + lines_spec(pixels@, i as nat, root_model, level_model),
        decreases pixels.len() - i,
    {
        let ghost before = out@;
        write_color(&pixels[i], &mut out, root, level);
        proof {
            assert forall|root_model: spec_fn(i64) -> i64, level_model: spec_fn(i64) -> u8|
             #[trigger]
                models_levels(root, level, root_model, level_model) implies out@ == header_spec(
                width,
                height,
            ) + lines_spec(pixels@, (i + 1) as nat, root_model, level_model) by {
                assert(out@ =~= header_spec(width, height) + lines_spec(
                    pixels@,
                    (i + 1) as nat,
                    root_model,
                    level_model,
                ));
            }
        }
        i += 1;
    }
    out
}

/// A whole image as plain PPM: the header, then one line per pixel.
pub open spec fn ppm_spec(width: u32, height: u32, pixels: Seq<[u8; 3]>) -> Seq<u8> {
    header_spec(width, height) + body_spec(pixels, pixels.len())
}

/// Serializes an image whose pixels are given row by row.
pub fn write_ppm(width: u32, height: u32, pixels: &Vec<[u8; 3]>) -> (out: Vec<u8>)
    requires
        pixels.len() == width * height,
    ensures
        out@ == ppm_spec(width, height, pixels@),
{
    let mut out: Vec<u8> = Vec::new();
    write_header(width, height, &mut out);
    let mut i: usize = 0;
    while i < pixels.len()
        invariant
            i <= pixels.len(),
            out@ == header_spec(width, height) + body_spec(pixels@, i as nat),
        decreases pixels.len() - i,
    {
        write_pixel(&pixels[i], &mut out);
        proof {
            assert(out@ =~= header_spec(width, height) + body_spec(pixels@, (i + 1) as nat));
        }
        i += 1;
    }
    out
}

} // verus!
