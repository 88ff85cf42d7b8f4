//! Display conversion: averaging the summed samples, gamma correction
//! (gamma 2), clamping, conversion to 8-bit channels, and plotting into
//! an RGBA frame buffer.

use vstd::prelude::*;
use crate::fixed::{Fixed, SCALE, tdiv, fdiv, sqrt_floor, lemma_tdiv_le};
use crate::vec3::{Vec3, clampi};
use crate::raytracer::{ColourPosition, colour_sum_bounded};

verus! {

/// One channel of the displayed colour: the summed samples averaged,
/// square-rooted (gamma 2), clamped to `[0, 0.999]` and scaled to eight
/// bits.
pub open spec fn drawn_channel_spec(c: int, samples_per_pixel: int) -> int {
    let scaled = fdiv(c, samples_per_pixel * (SCALE as int));
    let root = sqrt_floor(scaled * (SCALE as int));
    let clamped = clampi(root, 0, 999_000_000);
    tdiv(256 * clamped, SCALE as int)
}

/// One channel, as executed.
fn drawn_channel(c: Fixed, samples_per_pixel: u32) -> (b: u8)
    requires
        1 <= samples_per_pixel <= 100_000,
        0 <= c.v <= (samples_per_pixel as int) * (SCALE as int),
    ensures
        b as int == drawn_channel_spec(c.v as int, samples_per_pixel as int),
{
    let divisor: Fixed = Fixed { v: (samples_per_pixel as i64) * SCALE };
    proof {
        lemma_tdiv_le(c.v * (SCALE as int), divisor.v as int, 1_000_000_000);
    }
    let scaled: Fixed = c.div(divisor);
    let root: Fixed = scaled.sqrt();
    assert(root.v <= 1_000_000_000) by (nonlinear_arith)
        requires
            root.v * root.v <= scaled.v * (SCALE as int),
            0 <= scaled.v <= 1_000_000_000,
            root.v >= 0,
    ;
    let clamped: Fixed = root.clamp(Fixed { v: 0 }, Fixed { v: 999_000_000 });
    let b64: u64 = (256u64 * (clamped.v as u64)) / 1_000_000_000u64;
    b64 as u8
}

/// The three displayed channels of a pixel.
pub fn drawn_colour(pixel_colour: Vec3, samples_per_pixel: u32) -> (rgb: (u8, u8, u8))
    requires
        1 <= samples_per_pixel <= 100_000,
        colour_sum_bounded(pixel_colour, samples_per_pixel as int),
    ensures
        rgb.0 as int == drawn_channel_spec(pixel_colour.x.v as int, samples_per_pixel as int),
        rgb.1 as int == drawn_channel_spec(pixel_colour.y.v as int, samples_per_pixel as int),
        rgb.2 as int == drawn_channel_spec(pixel_colour.z.v as int, samples_per_pixel as int),
    {
    (
        drawn_channel(pixel_colour.x, samples_per_pixel),
        drawn_channel(pixel_colour.y, samples_per_pixel),
        drawn_channel(pixel_colour.z, samples_per_pixel),
    )
}

/// The displayed channels with a fully opaque alpha.
pub fn drawn_colour_with_alpha(pixel_colour: Vec3, samples_per_pixel: u32) -> (rgba: (
    u8,
    u8,
    u8,
    u8,
))
    requires
        1 <= samples_per_pixel <= 100_000,
        colour_sum_bounded(pixel_colour, samples_per_pixel as int),
    ensures
        rgba.0 as int == drawn_channel_spec(pixel_colour.x.v as int, samples_per_pixel as int),
        rgba.1 as int == drawn_channel_spec(pixel_colour.y.v as int, samples_per_pixel as int),
        rgba.2 as int == drawn_channel_spec(pixel_colour.z.v as int, samples_per_pixel as int),
        rgba.3 == 0xFFu8,
{
    let rgb: (u8, u8, u8) = drawn_colour(pixel_colour, samples_per_pixel);
    (rgb.0, rgb.1, rgb.2, 0xFF)
}

/// The frame after one pixel is plotted: four bytes at the unflipped
/// row-major position.
pub open spec fn plot_pixel_spec(
    frame: Seq<u8>,
    x: int,
    y: int,
    colour: Seq<u8>,
    window_width: int,
    window_height: int,
) -> Seq<u8> {
    let idx = (x + (window_height - 1 - y) * window_width) * 4;
    frame.update(idx, colour[0]).update(idx + 1, colour[1]).update(idx + 2, colour[2]).update(
        idx + 3,
        colour[3],
    )
}

/// Write one pixel's four bytes into the frame buffer, flipping the row
/// so the image's origin lands at the bottom.
pub fn plot_pixel(
    buffer: &mut Vec<u8>,
    x: usize,
    y: usize,
    colour: &Vec<u8>,
    window_width: u32,
    window_height: u32,
)
    requires
        2 <= window_width <= 10_000,
        2 <= window_height <= 20_000,
        x < window_width as int,
        y < window_height as int,
        old(buffer).len() == (window_width as int) * (window_height as int) * 4,
        colour.len() == 4,
    ensures
        final(buffer)@ == plot_pixel_spec(
            old(buffer)@,
            x as int,
            y as int,
            colour@,
            window_width as int,
            window_height as int,
        ),
        final(buffer).len() == old(buffer).len(),
{
    let yy: usize = (window_height - 1) as usize - y;
    proof {
        assert(0 <= yy as int * (window_width as int) <= 200_000_000 && (x as int + yy as int * (
        window_width as int)) * 4 + 3 < (window_width as int) * (window_height as int) * 4)
            by (nonlinear_arith)
            requires
                0 <= x < window_width as int,
                yy as int == window_height as int - 1 - y as int,
                0 <= y < window_height as int,
                2 <= window_width <= 10_000,
                2 <= window_height <= 20_000,
        ;
    }
    let i: usize = (x + yy * (window_width as usize)) * 4;
    buffer.set(i, colour[0]);
    buffer.set(i + 1, colour[1]);
    buffer.set(i + 2, colour[2]);
    buffer.set(i + 3, colour[3]);
}

/// The frame after a batch of pixel events is plotted in order.
pub open spec fn draw_spec(
    frame: Seq<u8>,
    colour_buffer: Seq<ColourPosition>,
    samples_per_pixel: int,
    window_width: int,
    window_height: int,
) -> Seq<u8>
    decreases colour_buffer.len(),
{
    if colour_buffer.len() == 0 {
        frame
    } else {
        let cp = colour_buffer.last();
        let prev = draw_spec(
            frame,
            colour_buffer.drop_last(),
            samples_per_pixel,
            window_width,
            window_height,
        );
        let rgba = seq![
            drawn_channel_spec(cp.colour.x.v as int, samples_per_pixel) as u8,
            drawn_channel_spec(cp.colour.y.v as int, samples_per_pixel) as u8,
            drawn_channel_spec(cp.colour.z.v as int, samples_per_pixel) as u8,
            0xFFu8,
        ];
        plot_pixel_spec(
            prev,
            cp.point.0 as int,
            cp.point.1 as int,
            rgba,
            window_width,
            window_height,
        )
    }
}

/// Every event's coordinates lie inside the window and its colour inside
/// the accumulation bound.
pub open spec fn batch_wf(
    colour_buffer: Seq<ColourPosition>,
    samples_per_pixel: int,
    window_width: int,
    window_height: int,
) -> bool {
    forall|k: int|
        0 <= k < colour_buffer.len() ==> {
            &&& (#[trigger] colour_buffer[k]).point.0 < window_width
            &&& colour_buffer[k].point.1 < window_height
            &&& colour_sum_bounded(colour_buffer[k].colour, samples_per_pixel)
        }
}

/// Convert a batch of completed pixels and plot each into the frame, in
/// order.
pub fn draw(
    frame: &mut Vec<u8>,
    colour_buffer: &Vec<ColourPosition>,
    samples_per_pixel: u32,
    window_height: u32,
    window_width: u32,
)
    requires
        2 <= window_width <= 10_000,
        2 <= window_height <= 20_000,
        1 <= samples_per_pixel <= 100_000,
        old(frame).len() == (window_width as int) * (window_height as int) * 4,
        batch_wf(
            colour_buffer@,
            samples_per_pixel as int,
            window_width as int,
            window_height as int,
        ),
    ensures
        final(frame)@ == draw_spec(
            old(frame)@,
            colour_buffer@,
            samples_per_pixel as int,
            window_width as int,
            window_height as int,
        ),
        final(frame).len() == old(frame).len(),
{
    let ghost frame0 = frame@;
    let n: usize = colour_buffer.len();
    let mut k: usize = 0;
    while k < n
        invariant
            k <= n,
            n == colour_buffer@.len(),
            2 <= window_width <= 10_000,
            2 <= window_height <= 20_000,
            1 <= samples_per_pixel <= 100_000,
            batch_wf(
                colour_buffer@,
                samples_per_pixel as int,
                window_width as int,
                window_height as int,
            ),
            frame@.len() == (window_width as int) * (window_height as int) * 4,
            frame@ == draw_spec(
                frame0,
                colour_buffer@.take(k as int),
                samples_per_pixel as int,
                window_width as int,
                window_height as int,
            ),
        decreases n - k,
    {
        let cp: &ColourPosition = &colour_buffer[k];
        let rgba: (u8, u8, u8, u8) = drawn_colour_with_alpha(cp.colour, samples_per_pixel);
        let mut colour: Vec<u8> = Vec::new();
        colour.push(rgba.0);
        colour.push(rgba.1);
        colour.push(rgba.2);
        colour.push(rgba.3);
        plot_pixel(
            frame,
            cp.point.0 as usize,
            cp.point.1 as usize,
            &colour,
            window_width,
            window_height,
        );
        proof {
            assert(colour_buffer@.take(k + 1).drop_last() =~= colour_buffer@.take(k as int));
            assert(colour_buffer@.take(k + 1).last() == colour_buffer@[k as int]);
            assert(colour@ =~= seq![
                drawn_channel_spec(cp.colour.x.v as int, samples_per_pixel as int) as u8,
                drawn_channel_spec(cp.colour.y.v as int, samples_per_pixel as int) as u8,
                drawn_channel_spec(cp.colour.z.v as int, samples_per_pixel as int) as u8,
                0xFFu8,
            ]);
        }
        k = k + 1;
    }
    proof {
        assert(colour_buffer@.take(n as int) =~= colour_buffer@);
    }
}

} // verus!
