//! The Mirror filter: a single pass over a full copy of the original buffer,
//! copying the pixel at the reflected source coordinate into every position.
//! The two flags are independent and compose; both set is a point reflection
//! through the image center.

use vstd::prelude::*;
use crate::abi::{checked_buffer_len, dims_representable, spec_buffer_len};
use crate::params::{
    MirrorParams, decode_mirror_params, default_mirror_params, spec_config_text,
    spec_decoded_mirror_params,
};
use crate::pixel::{byte_index, lemma_index_decompose, lemma_pixel_index, snapshot_bytes};

verus! {

/// The byte at flat index `i` of the mirrored image: the index decomposes
/// into channel `c` of pixel `(x, y)`, whose value comes from the source
/// pixel `(w-1-x if horizontal else x, h-1-y if vertical else y)`.
pub open spec fn mirror_byte_at(
    img: Seq<u8>,
    w: int,
    h: int,
    horizontal: bool,
    vertical: bool,
    i: int,
) -> u8 {
    let c = i % 4;
    let p = i / 4;
    let x = p % w;
    let y = p / w;
    let sx = if horizontal {
        w - 1 - x
    } else {
        x
    };
    let sy = if vertical {
        h - 1 - y
    } else {
        y
    };
    img[byte_index(w, sx, sy, c)]
}

/// The whole mirrored image of a `w` by `h` RGBA8 buffer.
pub open spec fn spec_mirror(
    img: Seq<u8>,
    w: int,
    h: int,
    horizontal: bool,
    vertical: bool,
) -> Seq<u8> {
    Seq::new((w * h * 4) as nat, |i: int| mirror_byte_at(img, w, h, horizontal, vertical, i))
}

/// Applies the Mirror filter in place: the buffer becomes the image reflected
/// along each axis whose flag is set.
pub fn apply_mirror(data: &mut Vec<u8>, width: usize, height: usize, params: MirrorParams)
    requires
        old(data)@.len() == width * height * 4,
        width * height * 4 <= u32::MAX,
    ensures
        final(data)@ == spec_mirror(
            old(data)@,
            width as int,
            height as int,
            params.horizontal,
            params.vertical,
        ),
{
    let ghost img = old(data)@;
    let ghost w = width as int;
    let ghost h = height as int;
    let snapshot = snapshot_bytes(data);
    let mut y: usize = 0;
    while y < height
        invariant
            y <= height,
            snapshot@ == img,
            img.len() == width * height * 4,
            data@.len() == width * height * 4,
            width * height * 4 <= u32::MAX,
            w == width as int,
            h == height as int,
            forall|i: int|
                0 <= i < (y * width) * 4 ==> data@[i] == mirror_byte_at(
                    img,
                    w,
                    h,
                    params.horizontal,
                    params.vertical,
                    i,
                ),
        decreases height - y,
    {
        let mut x: usize = 0;
        while x < width
            invariant
                y < height,
                x <= width,
                snapshot@ == img,
                img.len() == width * height * 4,
                data@.len() == width * height * 4,
                width * height * 4 <= u32::MAX,
                w == width as int,
                h == height as int,
                forall|i: int|
                    0 <= i < (y * width + x) * 4 ==> data@[i] == mirror_byte_at(
                        img,
                        w,
                        h,
                        params.horizontal,
                        params.vertical,
                        i,
                    ),
            decreases width - x,
        {
            let sx = if params.horizontal {
                width - 1 - x
            } else {
                x
            };
            let sy = if params.vertical {
                height - 1 - y
            } else {
                y
            };
            proof {
                lemma_pixel_index(w, h, x as int, y as int, 3);
                lemma_pixel_index(w, h, sx as int, sy as int, 3);
            }
            let dst = (y * width + x) * 4;
            let src = (sy * width + sx) * 4;
            let mut c: usize = 0;
            while c < 4
                invariant
                    y < height,
                    x < width,
                    c <= 4,
                    sx < width,
                    sy < height,
                    snapshot@ == img,
                    img.len() == width * height * 4,
                    data@.len() == width * height * 4,
                    width * height * 4 <= u32::MAX,
                    w == width as int,
                    h == height as int,
                    sx as int == if params.horizontal { w - 1 - x as int } else { x as int },
                    sy as int == if params.vertical { h - 1 - y as int } else { y as int },
                    dst == (y * width + x) * 4,
                    src == (sy * width + sx) * 4,
                    dst + 4 <= data@.len(),
                    src + 4 <= snapshot@.len(),
                    forall|i: int|
                        0 <= i < (y * width + x) * 4 + c ==> data@[i] == mirror_byte_at(
                            img,
                            w,
                            h,
                            params.horizontal,
                            params.vertical,
                            i,
                        ),
                decreases 4 - c,
            {
                let b = snapshot[src + c];
                data.set(dst + c, b);
                proof {
                    lemma_pixel_index(w, h, x as int, y as int, c as int);
                    lemma_pixel_index(w, h, sx as int, sy as int, c as int);
                    assert(data@[byte_index(w, x as int, y as int, c as int)] == mirror_byte_at(
                        img,
                        w,
                        h,
                        params.horizontal,
                        params.vertical,
                        byte_index(w, x as int, y as int, c as int),
                    ));
                }
                c += 1;
            }
            x += 1;
        }
        proof {
            assert((y + 1) * width == y * width + width) by (nonlinear_arith);
        }
        y += 1;
    }
    proof {
        assert(data@ =~= spec_mirror(img, w, h, params.horizontal, params.vertical));
    }
}

/// Law: mirroring a `w` by 1 row with `horizontal` set and `vertical` clear
/// reverses the row — every channel of the pixel at position `x` afterwards
/// holds the value the pixel at position `w - 1 - x` held before.
pub proof fn lemma_mirror_reverses_row(img: Seq<u8>, w: int)
    requires
        0 < w,
        img.len() == w * 1 * 4,
    ensures
        forall|x: int, c: int|
            0 <= x < w && 0 <= c < 4 ==> spec_mirror(img, w, 1, true, false)[byte_index(
                w,
                x,
                0,
                c,
            )] == img[byte_index(w, w - 1 - x, 0, c)],
{
    assert forall|x: int, c: int| 0 <= x < w && 0 <= c < 4 implies spec_mirror(
        img,
        w,
        1,
        true,
        false,
    )[byte_index(w, x, 0, c)] == img[byte_index(w, w - 1 - x, 0, c)] by {
        lemma_pixel_index(w, 1, x, 0, c);
        lemma_pixel_index(w, 1, w - 1 - x, 0, c);
    }
}

/// Law: the two Mirror flags are independent and compose — setting both
/// equals mirroring vertically first and then mirroring that result
/// horizontally (a point reflection through the image center, not a
/// rotation).
pub proof fn lemma_mirror_flags_compose(img: Seq<u8>, w: int, h: int)
    requires
        0 <= w,
        0 <= h,
        img.len() == w * h * 4,
    ensures
        spec_mirror(img, w, h, true, true) == spec_mirror(
            spec_mirror(img, w, h, false, true),
            w,
            h,
            true,
            false,
        ),
{
    let both = spec_mirror(img, w, h, true, true);
    let vert = spec_mirror(img, w, h, false, true);
    let composed = spec_mirror(vert, w, h, true, false);
    assert(0 <= w * h * 4) by (nonlinear_arith)
        requires
            0 <= w,
            0 <= h,
    ;
    assert forall|i: int| 0 <= i < w * h * 4 implies both[i] == composed[i] by {
        assert(0 < w && 0 < h) by (nonlinear_arith)
            requires
                0 <= w,
                0 <= h,
                0 <= i < w * h * 4,
        ;
        lemma_index_decompose(w, h, i);
        let c = i % 4;
        let x = (i / 4) % w;
        let y = (i / 4) / w;
        lemma_pixel_index(w, h, w - 1 - x, y, c);
        lemma_pixel_index(w, h, w - 1 - x, h - 1 - y, c);
    }
    assert(both =~= composed);
}

/// The Mirror filter entry point: validates the dimensions with the
/// overflow-checked sequence, decodes the configuration text, and mirrors the
/// buffer in place by exactly the record that text decodes to (absent text
/// behaves as an empty document, and unusable fields as the default record).
/// Returns 0 on success and -1 exactly when the buffer length
/// `width * height * 4` is not representable; zero-size images always succeed
/// untouched, and the status never depends on the configuration text.
pub fn process_image(width: u32, height: u32, data: &mut Vec<u8>, params: Option<&str>) -> (r:
    i32)
    requires
        dims_representable(width, height) ==> old(data)@.len() == spec_buffer_len(width, height),
    ensures
        r == 0 || r == -1,
        r == 0 <==> dims_representable(width, height),
        !dims_representable(width, height) ==> final(data)@ == old(data)@,
        dims_representable(width, height) ==> ({
            let p = spec_decoded_mirror_params(spec_config_text(params));
            final(data)@ == spec_mirror(
                old(data)@,
                width as int,
                height as int,
                p.horizontal,
                p.vertical,
            )
        }),
        dims_representable(width, height) && params is None ==> final(data)@ == spec_mirror(
            old(data)@,
            width as int,
            height as int,
            default_mirror_params().horizontal,
            default_mirror_params().vertical,
        ),
        width == 0 || height == 0 ==> r == 0 && final(data)@ == old(data)@,
{
    proof {
        if width == 0 || height == 0 {
            assert(width * height * 4 == 0) by (nonlinear_arith)
                requires
                    width == 0 || height == 0,
            ;
        }
    }
    match checked_buffer_len(width, height) {
        Some(_len) => {
            let w = width as usize;
            let h = height as usize;
            let text = match params {
                Some(t) => t,
                None => "",
            };
            proof {
                reveal_strlit("");
                assert(""@ =~= Seq::<char>::empty());
                assert(text@ == spec_config_text(params));
            }
            let p = decode_mirror_params(text);
            apply_mirror(data, w, h, p);
            proof {
                if width == 0 || height == 0 {
                    assert(data@ =~= old(data)@);
                }
            }
            0
        },
        None => -1,
    }
}

} // verus!
