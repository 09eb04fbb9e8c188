//! Synthesis of a pixel buffer: tightly packed RGBA bytes, row by row from
//! the top.

use vstd::prelude::*;

verus! {

/// The four bytes of the pixel `(x, y)` in a buffer that is `width` pixels
/// wide.
pub open spec fn pixel_bytes(buf: Seq<u8>, width: int, x: int, y: int) -> Seq<u8> {
    buf.subrange(4 * (y * width + x), 4 * (y * width + x) + 4)
}

/// Whether `bytes` is a pixel that `get_px` may return for `(x, y)`.
pub open spec fn drawn_by<F: Fn(usize, usize) -> [u8; 4]>(
    get_px: F,
    x: usize,
    y: usize,
    bytes: Seq<u8>,
) -> bool {
    exists|px: [u8; 4]| call_ensures(get_px, (x, y), px) && px@ == bytes
}

/// A pixel that comes earlier in row-major order ends before the later one
/// begins.
pub proof fn lemma_pixel_order(width: int, x0: int, y0: int, x: int, y: int)
    requires
        0 <= x0 < width,
        0 <= x <= width,
        0 <= y0,
        y0 < y || (y0 == y && x0 < x),
    ensures
        0 <= y0 * width + x0,
        y0 * width + x0 + 1 <= y * width + x,
{
    assert(0 <= y0 * width) by (nonlinear_arith)
        requires
            0 <= y0,
            0 <= width,
    ;
    if y0 < y {
        assert((y0 + 1) * width <= y * width) by (nonlinear_arith)
            requires
                y0 + 1 <= y,
                0 <= width,
        ;
        assert((y0 + 1) * width == y0 * width + width) by (nonlinear_arith);
    }
}

/// Fills a buffer of `width` by `height` pixels, asking `get_px` for each
/// pixel once, row by row.
#[verifier::rlimit(40)]
pub fn draw<F: Fn(usize, usize) -> [u8; 4]>(width: usize, height: usize, get_px: F) -> (buf: Vec<u8>)
    requires
        forall|x: usize, y: usize| x < width && y < height ==> call_requires(get_px, (x, y)),
    ensures
        buf@.len() == width * height * 4,
        forall|x: usize, y: usize|
            x < width && y < height ==> drawn_by(
                get_px,
                x,
                y,
                #[trigger] pixel_bytes(buf@, width as int, x as int, y as int),
            ),
{
    let mut buf: Vec<u8> = Vec::new();
    let mut y: usize = 0;
    while y < height
        invariant
            y <= height,
            buf@.len() == 4 * (y * width),
            forall|x: usize, y: usize| x < width && y < height ==> call_requires(get_px, (x, y)),
            forall|x0: usize, y0: usize|
                x0 < width && y0 < y ==> drawn_by(
                    get_px,
                    x0,
                    y0,
                    #[trigger] pixel_bytes(buf@, width as int, x0 as int, y0 as int),
                ),
        decreases height - y,
    {
        let mut x: usize = 0;
        while x < width
            invariant
                y < height,
                x <= width,
                buf@.len() == 4 * (y * width + x),
                forall|x: usize, y: usize| x < width && y < height ==> call_requires(get_px, (x, y)),
                forall|x0: usize, y0: usize|
                    x0 < width && (y0 < y || (y0 == y && x0 < x)) ==> drawn_by(
                        get_px,
                        x0,
                        y0,
                        #[trigger] pixel_bytes(buf@, width as int, x0 as int, y0 as int),
                    ),
            decreases width - x,
        {
            let px: [u8; 4] = get_px(x, y);
            let ghost before = buf@;
            buf.push(px[0]);
            buf.push(px[1]);
            buf.push(px[2]);
            buf.push(px[3]);
            proof {
                let w = width as int;
                assert(pixel_bytes(buf@, w, x as int, y as int) =~= px@);
                assert forall|x0: usize, y0: usize|
                    x0 < width && (y0 < y || (y0 == y && x0 < x + 1)) implies drawn_by(
                    get_px,
                    x0,
                    y0,
                    #[trigger] pixel_bytes(buf@, w, x0 as int, y0 as int),
                ) by {
                    if y0 == y && x0 == x {
                    } else {
                        lemma_pixel_order(w, x0 as int, y0 as int, x as int, y as int);
                        assert(pixel_bytes(buf@, w, x0 as int, y0 as int) =~= pixel_bytes(
                            before,
                            w,
                            x0 as int,
                            y0 as int,
                        ));
                    }
                }
            }
            x = x + 1;
        }
        proof {
            assert((y + 1) * width == y * width + width) by (nonlinear_arith);
        }
        y = y + 1;
    }
    proof {
        assert(width * height * 4 == 4 * (height * width)) by (nonlinear_arith);
    }
    buf
}

} // verus!
