//! The Box Blur filter: `iterations` sequential passes, each replacing every
//! pixel with the truncated per-channel mean over the square neighborhood of
//! half-width `radius`, read from a snapshot of the buffer as it stood at the
//! start of the pass. Neighbors outside the image are left out of both the
//! sum and the divisor — never clamped or wrapped — so the divisor shrinks
//! near edges and corners.

use vstd::prelude::*;
use vstd::arithmetic::div_mod::{
    lemma_div_is_ordered, lemma_div_multiples_vanish, lemma_div_pos_is_pos,
};
use crate::abi::{checked_buffer_len, dims_representable, spec_buffer_len};
use crate::params::{
    BlurParams, decode_blur_params, default_blur_params, spec_config_text,
    spec_decoded_blur_params,
};
use crate::pixel::{byte_index, lemma_index_decompose, lemma_pixel_index, snapshot_bytes};

verus! {

/// Lowest coordinate inside the averaging window centered at `a` with
/// half-width `r` (the window is cut off at the image edge).
pub open spec fn window_lo(a: int, r: int) -> int {
    if a - r < 0 {
        0
    } else {
        a - r
    }
}

/// One past the highest coordinate inside the averaging window centered at
/// `a` with half-width `r`, on an axis of extent `n`.
pub open spec fn window_hi(a: int, r: int, n: int) -> int {
    if a + r + 1 > n {
        n
    } else {
        a + r + 1
    }
}

/// The number of in-range neighbors of pixel `(x, y)` under half-width `r`:
/// the area of the clipped window. It is at least 1, since the pixel itself
/// always lies inside.
pub open spec fn window_count(w: int, h: int, r: int, x: int, y: int) -> int {
    (window_hi(x, r, w) - window_lo(x, r)) * (window_hi(y, r, h) - window_lo(y, r))
}

/// Sum of channel `c` over the pixels of row `y` with column in `[x0, x1)`.
pub open spec fn row_sum(img: Seq<u8>, w: int, y: int, x0: int, x1: int, c: int) -> int
    decreases x1 - x0,
{
    if x1 <= x0 {
        0
    } else {
        row_sum(img, w, y, x0, x1 - 1, c) + img[byte_index(w, x1 - 1, y, c)]
    }
}

/// Sum of channel `c` over the pixel rectangle `[x0, x1) x [y0, y1)`.
pub open spec fn box_sum(img: Seq<u8>, w: int, x0: int, x1: int, y0: int, y1: int, c: int) -> int
    decreases y1 - y0,
{
    if y1 <= y0 {
        0
    } else {
        box_sum(img, w, x0, x1, y0, y1 - 1, c) + row_sum(img, w, y1 - 1, x0, x1, c)
    }
}

/// Channel `c` of pixel `(x, y)` after one blur pass: the channel sum over
/// the clipped window, divided by the number of in-range neighbors, truncated
/// toward zero.
pub open spec fn blur_channel_at(
    img: Seq<u8>,
    w: int,
    h: int,
    r: int,
    x: int,
    y: int,
    c: int,
) -> int {
    box_sum(img, w, window_lo(x, r), window_hi(x, r, w), window_lo(y, r), window_hi(y, r, h), c)
        / window_count(w, h, r, x, y)
}

/// The byte at flat index `i` after one blur pass, the index decomposed into
/// its pixel coordinates and channel.
pub open spec fn blur_byte_at(img: Seq<u8>, w: int, h: int, r: int, i: int) -> u8 {
    let c = i % 4;
    let p = i / 4;
    let x = p % w;
    let y = p / w;
    blur_channel_at(img, w, h, r, x, y, c) as u8
}

/// The whole image after one blur pass with half-width `r`.
pub open spec fn blur_pass_spec(img: Seq<u8>, w: int, h: int, r: int) -> Seq<u8> {
    Seq::new((w * h * 4) as nat, |i: int| blur_byte_at(img, w, h, r, i))
}

/// The image after `n` sequential blur passes, each reading the result of
/// the pass before it.
pub open spec fn blur_iter_spec(img: Seq<u8>, w: int, h: int, r: int, n: nat) -> Seq<u8>
    decreases n,
{
    if n == 0 {
        img
    } else {
        blur_pass_spec(blur_iter_spec(img, w, h, r, (n - 1) as nat), w, h, r)
    }
}

/// A row sum of `k` bytes lies between 0 and `k * 255`.
pub proof fn lemma_row_sum_bounds(img: Seq<u8>, w: int, y: int, x0: int, x1: int, c: int)
    requires
        x0 <= x1,
    ensures
        0 <= row_sum(img, w, y, x0, x1, c) <= (x1 - x0) * 255,
    decreases x1 - x0,
{
    if x1 <= x0 {
    } else {
        lemma_row_sum_bounds(img, w, y, x0, x1 - 1, c);
    }
}

/// A box sum over an `a` by `b` rectangle lies between 0 and `a * b * 255`.
pub proof fn lemma_box_sum_bounds(img: Seq<u8>, w: int, x0: int, x1: int, y0: int, y1: int, c: int)
    requires
        x0 <= x1,
        y0 <= y1,
    ensures
        0 <= box_sum(img, w, x0, x1, y0, y1, c) <= (y1 - y0) * (x1 - x0) * 255,
    decreases y1 - y0,
{
    if y1 <= y0 {
    } else {
        lemma_box_sum_bounds(img, w, x0, x1, y0, y1 - 1, c);
        lemma_row_sum_bounds(img, w, y1 - 1, x0, x1, c);
        assert((y1 - 1 - y0) * (x1 - x0) * 255 + (x1 - x0) * 255 == (y1 - y0) * (x1 - x0) * 255)
            by (nonlinear_arith);
    }
}

/// Computes channel `c` of pixel `(x, y)` of one blur pass over `src`: the
/// sum over the clipped window in a 64-bit accumulator — wide enough for
/// every in-range neighborhood, whose byte count never exceeds the buffer
/// length — divided by the number of in-range neighbors.
fn blur_channel(
    src: &Vec<u8>,
    width: usize,
    height: usize,
    radius: u32,
    x: usize,
    y: usize,
    c: usize,
) -> (b: u8)
    requires
        src@.len() == width * height * 4,
        width * height * 4 <= u32::MAX,
        x < width,
        y < height,
        c < 4,
    ensures
        b == blur_channel_at(
            src@,
            width as int,
            height as int,
            radius as int,
            x as int,
            y as int,
            c as int,
        ),
{
    let ghost w = width as int;
    let ghost h = height as int;
    let ghost r = radius as int;
    let ghost img = src@;

    let rad = radius as usize;
    let xlo = if x >= rad {
        x - rad
    } else {
        0
    };
    let xhi = if rad >= width - x {
        width
    } else {
        x + rad + 1
    };
    let ylo = if y >= rad {
        y - rad
    } else {
        0
    };
    let yhi = if rad >= height - y {
        height
    } else {
        y + rad + 1
    };
    proof {
        assert(xlo as int == window_lo(x as int, r));
        assert(xhi as int == window_hi(x as int, r, w));
        assert(ylo as int == window_lo(y as int, r));
        assert(yhi as int == window_hi(y as int, r, h));
        assert(xlo <= x < xhi && ylo <= y < yhi);
        assert(width * height <= width * height * 4) by (nonlinear_arith)
            requires
                width >= 0,
                height >= 0,
        ;
        assert((xhi - xlo) * (yhi - ylo) <= width * height) by (nonlinear_arith)
            requires
                1 <= xhi - xlo <= width,
                1 <= yhi - ylo <= height,
        ;
        assert(1 <= (xhi - xlo) * (yhi - ylo)) by (nonlinear_arith)
            requires
                1 <= xhi - xlo,
                1 <= yhi - ylo,
        ;
    }
    let count: u64 = ((xhi - xlo) as u64) * ((yhi - ylo) as u64);

    let mut sum: u64 = 0;
    let mut ny = ylo;
    while ny < yhi
        invariant
            src@ == img,
            img.len() == width * height * 4,
            width * height * 4 <= u32::MAX,
            w == width as int,
            h == height as int,
            x < width,
            y < height,
            c < 4,
            ylo <= ny <= yhi,
            xlo <= x < xhi <= width,
            ylo <= y < yhi <= height,
            sum == box_sum(img, w, xlo as int, xhi as int, ylo as int, ny as int, c as int),
        decreases yhi - ny,
    {
        let mut nx = xlo;
        while nx < xhi
            invariant
                src@ == img,
                img.len() == width * height * 4,
                width * height * 4 <= u32::MAX,
                w == width as int,
                h == height as int,
                x < width,
                y < height,
                c < 4,
                ylo <= ny < yhi,
                xlo <= nx <= xhi,
                xlo <= x < xhi <= width,
                ylo <= y < yhi <= height,
                sum == box_sum(img, w, xlo as int, xhi as int, ylo as int, ny as int, c as int)
                    + row_sum(img, w, ny as int, xlo as int, nx as int, c as int),
            decreases xhi - nx,
        {
            proof {
                lemma_pixel_index(w, h, nx as int, ny as int, c as int);
                lemma_box_sum_bounds(img, w, xlo as int, xhi as int, ylo as int, ny as int, c as int);
                lemma_row_sum_bounds(img, w, ny as int, xlo as int, nx as int, c as int);
                assert((ny - ylo) * (xhi - xlo) * 255 + (nx - xlo) * 255 + 255 < u64::MAX)
                    by (nonlinear_arith)
                    requires
                        0 <= ny - ylo <= height,
                        0 <= xhi - xlo <= width,
                        0 <= nx - xlo <= width,
                        width * height * 4 <= u32::MAX,
                        width >= 1,
                        height >= 1,
                ;
            }
            sum = sum + (src[(ny * width + nx) * 4 + c] as u64);
            nx += 1;
        }
        ny += 1;
    }
    proof {
        lemma_box_sum_bounds(img, w, xlo as int, xhi as int, ylo as int, yhi as int, c as int);
        assert((yhi - ylo) * (xhi - xlo) * 255 == (count as int) * 255) by (nonlinear_arith)
            requires
                count == (xhi - xlo) * (yhi - ylo),
        ;
        lemma_div_is_ordered(sum as int, (count as int) * 255, count as int);
        lemma_div_multiples_vanish(255, count as int);
        lemma_div_pos_is_pos(sum as int, count as int);
    }
    (sum / count) as u8
}

/// One blur pass: writes into `dst` the blur of `src`, pixel by pixel.
fn blur_pass(src: &Vec<u8>, dst: &mut Vec<u8>, width: usize, height: usize, radius: u32)
    requires
        src@.len() == width * height * 4,
        old(dst)@.len() == width * height * 4,
        width * height * 4 <= u32::MAX,
    ensures
        final(dst)@ == blur_pass_spec(src@, width as int, height as int, radius as int),
{
    let ghost w = width as int;
    let ghost h = height as int;
    let ghost r = radius as int;
    let ghost img = src@;
    let mut y: usize = 0;
    while y < height
        invariant
            y <= height,
            src@ == img,
            img.len() == width * height * 4,
            dst@.len() == width * height * 4,
            width * height * 4 <= u32::MAX,
            w == width as int,
            h == height as int,
            r == radius as int,
            forall|i: int| 0 <= i < (y * width) * 4 ==> dst@[i] == blur_byte_at(img, w, h, r, i),
        decreases height - y,
    {
        let mut x: usize = 0;
        while x < width
            invariant
                y < height,
                x <= width,
                src@ == img,
                img.len() == width * height * 4,
                dst@.len() == width * height * 4,
                width * height * 4 <= u32::MAX,
                w == width as int,
                h == height as int,
                r == radius as int,
                forall|i: int|
                    0 <= i < (y * width + x) * 4 ==> dst@[i] == blur_byte_at(img, w, h, r, i),
            decreases width - x,
        {
            let mut c: usize = 0;
            while c < 4
                invariant
                    y < height,
                    x < width,
                    c <= 4,
                    src@ == img,
                    img.len() == width * height * 4,
                    dst@.len() == width * height * 4,
                    width * height * 4 <= u32::MAX,
                    w == width as int,
                    h == height as int,
                    r == radius as int,
                    forall|i: int|
                        0 <= i < (y * width + x) * 4 + c ==> dst@[i] == blur_byte_at(
                            img,
                            w,
                            h,
                            r,
                            i,
                        ),
                decreases 4 - c,
            {
                proof {
                    lemma_pixel_index(w, h, x as int, y as int, c as int);
                }
                let b = blur_channel(src, width, height, radius, x, y, c);
                dst.set((y * width + x) * 4 + c, b);
                c += 1;
            }
            x += 1;
        }
        proof {
            assert((y + 1) * width == y * width + width) by (nonlinear_arith);
        }
        y += 1;
    }
    proof {
        assert(dst@ =~= blur_pass_spec(img, w, h, r));
    }
}

/// Applies the Box Blur filter in place: `iterations` sequential passes, the
/// snapshot refreshed from the live buffer between passes.
pub fn apply_blur(data: &mut Vec<u8>, width: usize, height: usize, params: BlurParams)
    requires
        old(data)@.len() == width * height * 4,
        width * height * 4 <= u32::MAX,
    ensures
        final(data)@ == blur_iter_spec(
            old(data)@,
            width as int,
            height as int,
            params.radius as int,
            params.iterations as nat,
        ),
{
    let ghost w = width as int;
    let ghost h = height as int;
    let ghost r = params.radius as int;
    let ghost img = old(data)@;
    let mut it: u32 = 0;
    while it < params.iterations
        invariant
            it <= params.iterations,
            data@.len() == width * height * 4,
            width * height * 4 <= u32::MAX,
            w == width as int,
            h == height as int,
            r == params.radius as int,
            data@ == blur_iter_spec(img, w, h, r, it as nat),
        decreases params.iterations - it,
    {
        let snapshot = snapshot_bytes(data);
        blur_pass(&snapshot, data, width, height, params.radius);
        proof {
            assert(blur_iter_spec(img, w, h, r, (it + 1) as nat) == blur_pass_spec(
                blur_iter_spec(img, w, h, r, it as nat),
                w,
                h,
                r,
            ));
        }
        it += 1;
    }
}

/// Blurring an image with no pixels changes nothing, however many passes run.
pub proof fn lemma_blur_iter_empty(img: Seq<u8>, w: int, h: int, r: int, n: nat)
    requires
        img.len() == 0,
        w * h * 4 == 0,
    ensures
        blur_iter_spec(img, w, h, r, n) == img,
    decreases n,
{
    if n == 0 {
    } else {
        lemma_blur_iter_empty(img, w, h, r, (n - 1) as nat);
        assert(blur_pass_spec(img, w, h, r) =~= img);
    }
}

/// The image shows a single color: every byte equals the byte of the same
/// channel in the first pixel.
pub open spec fn uniform_image(img: Seq<u8>) -> bool {
    forall|i: int| 0 <= i < img.len() ==> #[trigger] img[i] == img[i % 4]
}

/// On a uniform image, a row sum of `k` bytes of channel `c` is `k` times the
/// channel value.
proof fn lemma_row_sum_uniform(img: Seq<u8>, w: int, h: int, y: int, x0: int, x1: int, c: int)
    requires
        0 <= x0 <= x1 <= w,
        0 <= y < h,
        0 <= c < 4,
        img.len() == w * h * 4,
        uniform_image(img),
    ensures
        row_sum(img, w, y, x0, x1, c) == (x1 - x0) * img[c],
    decreases x1 - x0,
{
    if x1 <= x0 {
        assert((x1 - x0) * img[c] == 0) by (nonlinear_arith)
            requires
                x1 == x0,
        ;
    } else {
        lemma_row_sum_uniform(img, w, h, y, x0, x1 - 1, c);
        lemma_pixel_index(w, h, x1 - 1, y, c);
        assert((x1 - x0) * img[c] == (x1 - 1 - x0) * img[c] + img[c]) by (nonlinear_arith);
    }
}

/// On a uniform image, a box sum over an `a` by `b` rectangle of channel `c`
/// is `a * b` times the channel value.
proof fn lemma_box_sum_uniform(
    img: Seq<u8>,
    w: int,
    h: int,
    x0: int,
    x1: int,
    y0: int,
    y1: int,
    c: int,
)
    requires
        0 <= x0 <= x1 <= w,
        0 <= y0 <= y1 <= h,
        0 <= c < 4,
        img.len() == w * h * 4,
        uniform_image(img),
    ensures
        box_sum(img, w, x0, x1, y0, y1, c) == (y1 - y0) * (x1 - x0) * img[c],
    decreases y1 - y0,
{
    if y1 <= y0 {
        assert((y1 - y0) * (x1 - x0) * img[c] == 0) by (nonlinear_arith)
            requires
                y1 == y0,
        ;
    } else {
        lemma_box_sum_uniform(img, w, h, x0, x1, y0, y1 - 1, c);
        lemma_row_sum_uniform(img, w, h, y1 - 1, x0, x1, c);
        assert((y1 - y0) * (x1 - x0) * img[c] == (y1 - 1 - y0) * (x1 - x0) * img[c] + (x1 - x0)
            * img[c]) by (nonlinear_arith);
    }
}

/// One blur pass leaves a uniform image unchanged: every window sum is the
/// neighbor count times the channel value, and the division restores it.
proof fn lemma_blur_pass_uniform(img: Seq<u8>, w: int, h: int, r: int)
    requires
        0 <= w,
        0 <= h,
        0 <= r,
        img.len() == w * h * 4,
        uniform_image(img),
    ensures
        blur_pass_spec(img, w, h, r) == img,
{
    assert forall|i: int| 0 <= i < w * h * 4 implies blur_pass_spec(img, w, h, r)[i] == img[i] by {
        assert(0 < w && 0 < h) by (nonlinear_arith)
            requires
                0 <= w,
                0 <= h,
                0 <= i < w * h * 4,
        ;
        lemma_index_decompose(w, h, i);
        let c = i % 4;
        let x = (i / 4) % w;
        let y = (i / 4) / w;
        let xl = window_lo(x, r);
        let xh = window_hi(x, r, w);
        let yl = window_lo(y, r);
        let yh = window_hi(y, r, h);
        lemma_box_sum_uniform(img, w, h, xl, xh, yl, yh, c);
        let count = window_count(w, h, r, x, y);
        assert((yh - yl) * (xh - xl) * img[c] == count * (img[c] as int)) by (nonlinear_arith)
            requires
                count == (xh - xl) * (yh - yl),
        ;
        assert(0 < count) by (nonlinear_arith)
            requires
                count == (xh - xl) * (yh - yl),
                1 <= xh - xl,
                1 <= yh - yl,
        ;
        lemma_div_multiples_vanish(img[c] as int, count);
    }
    assert(blur_pass_spec(img, w, h, r) =~= img);
}

/// Law: Box Blur on a uniform-color image is a fixed point — for any radius
/// and any number of iterations, every byte after filtering equals its value
/// before.
pub proof fn lemma_blur_uniform_fixed_point(img: Seq<u8>, w: int, h: int, r: int, n: nat)
    requires
        0 <= w,
        0 <= h,
        0 <= r,
        img.len() == w * h * 4,
        uniform_image(img),
    ensures
        blur_iter_spec(img, w, h, r, n) == img,
    decreases n,
{
    if n == 0 {
    } else {
        lemma_blur_uniform_fixed_point(img, w, h, r, (n - 1) as nat);
        lemma_blur_pass_uniform(img, w, h, r);
    }
}

/// Law: Box Blur on a 1 by 1 image is a no-op for any radius and any number
/// of iterations — the only pixel's only in-range neighbor is itself.
pub proof fn lemma_blur_single_pixel_noop(img: Seq<u8>, r: int, n: nat)
    requires
        0 <= r,
        img.len() == 4,
    ensures
        blur_iter_spec(img, 1, 1, r, n) == img,
{
    assert(uniform_image(img));
    lemma_blur_uniform_fixed_point(img, 1, 1, r, n);
}

/// Law: blur iterations compose sequentially — blurring with `m + n` passes
/// equals blurring with `m` passes, taking the resulting buffer as a fresh
/// input, and blurring it with `n` more.
pub proof fn lemma_blur_iterations_compose(
    img: Seq<u8>,
    w: int,
    h: int,
    r: int,
    m: nat,
    n: nat,
)
    ensures
        blur_iter_spec(img, w, h, r, (m + n) as nat) == blur_iter_spec(
            blur_iter_spec(img, w, h, r, m),
            w,
            h,
            r,
            n,
        ),
    decreases n,
{
    if n == 0 {
    } else {
        lemma_blur_iterations_compose(img, w, h, r, m, (n - 1) as nat);
    }
}

/// Law: a radius of 0 makes every pass a no-op — each pixel's window holds
/// only the pixel itself, whatever the number of iterations.
pub proof fn lemma_blur_zero_radius_noop(img: Seq<u8>, w: int, h: int, n: nat)
    requires
        0 <= w,
        0 <= h,
        img.len() == w * h * 4,
    ensures
        blur_iter_spec(img, w, h, 0, n) == img,
    decreases n,
{
    if n == 0 {
    } else {
        lemma_blur_zero_radius_noop(img, w, h, (n - 1) as nat);
        assert forall|i: int| 0 <= i < w * h * 4 implies blur_pass_spec(img, w, h, 0)[i]
            == img[i] by {
            assert(0 < w && 0 < h) by (nonlinear_arith)
                requires
                    0 <= w,
                    0 <= h,
                    0 <= i < w * h * 4,
            ;
            lemma_index_decompose(w, h, i);
            let c = i % 4;
            let x = (i / 4) % w;
            let y = (i / 4) / w;
            let a = window_hi(x, 0, w) - window_lo(x, 0);
            let b = window_hi(y, 0, h) - window_lo(y, 0);
            assert(a == 1 && b == 1);
            assert(a * b == 1) by (nonlinear_arith)
                requires
                    a == 1,
                    b == 1,
            ;
            assert(box_sum(img, w, x, x + 1, y, y, c) == 0);
            assert(row_sum(img, w, y, x, x, c) == 0);
            assert(box_sum(img, w, x, x + 1, y, y + 1, c) == row_sum(img, w, y, x, x + 1, c));
            assert(row_sum(img, w, y, x, x + 1, c) == img[byte_index(w, x, y, c)]);
        }
        assert(blur_pass_spec(img, w, h, 0) =~= img);
    }
}

/// The Box Blur filter entry point: validates the dimensions with the
/// overflow-checked sequence, decodes the configuration text, and blurs the
/// buffer in place by exactly the record that text decodes to (absent text
/// behaves as an empty document, and unusable fields as the default record).
/// Returns 0 on success and -1 exactly when the buffer length
/// `width * height * 4` is not representable; zero-size images always succeed
/// untouched, and the status never depends on the configuration text.
pub fn process_image(width: u32, height: u32, data: &mut Vec<u8>, params: Option<&str>) -> (r:
    i32)
    requires
        dims_representable(width, height) ==> old(data)@.len() == spec_buffer_len(width, height),
    ensures
        r == 0 || r == -1,
        r == 0 <==> dims_representable(width, height),
        !dims_representable(width, height) ==> final(data)@ == old(data)@,
        dims_representable(width, height) ==> ({
            let p = spec_decoded_blur_params(spec_config_text(params));
            final(data)@ == blur_iter_spec(
                old(data)@,
                width as int,
                height as int,
                p.radius as int,
                p.iterations as nat,
            )
        }),
        dims_representable(width, height) && params is None ==> final(data)@ == blur_iter_spec(
            old(data)@,
            width as int,
            height as int,
            default_blur_params().radius as int,
            default_blur_params().iterations as nat,
        ),
        width == 0 || height == 0 ==> r == 0 && final(data)@ == old(data)@,
{
    proof {
        if width == 0 || height == 0 {
            assert(width * height * 4 == 0) by (nonlinear_arith)
                requires
                    width == 0 || height == 0,
            ;
        }
    }
    match checked_buffer_len(width, height) {
        Some(_len) => {
            let w = width as usize;
            let h = height as usize;
            let text = match params {
                Some(t) => t,
                None => "",
            };
            proof {
                reveal_strlit("");
                assert(""@ =~= Seq::<char>::empty());
                assert(text@ == spec_config_text(params));
            }
            let p = decode_blur_params(text);
            apply_blur(data, w, h, p);
            proof {
                if width == 0 || height == 0 {
                    lemma_blur_iter_empty(
                        old(data)@,
                        width as int,
                        height as int,
                        p.radius as int,
                        p.iterations as nat,
                    );
                }
            }
            0
        },
        None => -1,
    }
}

} // verus!
