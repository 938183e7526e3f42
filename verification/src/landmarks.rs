//! The integer side of running a face-landmark model: reading the model's
//! input layout off its declared shape, placing pixels in the input tensor,
//! and reading the flat output as points.
use vstd::prelude::*;

verus! {

/// Channel layout of the model's image input.
#[derive(Debug, Clone, Copy, PartialEq, Eq, Structural)]
pub enum Layout {
    /// `[N, C, H, W]`
    Nchw,
    /// `[N, H, W, C]`
    Nhwc,
}

/// Input size assumed for a dynamic (`-1`) or unrecognized dimension, a
/// common export size for lightweight face-landmark models.
pub const FALLBACK_INPUT_SIZE: u32 = 192;

/// A declared dimension, or the fallback size when it is dynamic.
pub open spec fn dim_or_fallback(d: i64) -> u32 {
    if d > 0 {
        d as u32
    } else {
        FALLBACK_INPUT_SIZE
    }
}

/// The model's expected `(width, height, layout)` read from its declared
/// input shape: a rank-4 shape with 3 in position 1 is NCHW, with 3 in
/// position 3 is NHWC; anything else is taken as a square NHWC input of the
/// fallback size.
pub open spec fn layout_of(shape: Seq<i64>) -> (u32, u32, Layout) {
    if shape.len() == 4 && shape[1] == 3 {
        (dim_or_fallback(shape[3]), dim_or_fallback(shape[2]), Layout::Nchw)
    } else if shape.len() == 4 && shape[3] == 3 {
        (dim_or_fallback(shape[2]), dim_or_fallback(shape[1]), Layout::Nhwc)
    } else {
        (FALLBACK_INPUT_SIZE, FALLBACK_INPUT_SIZE, Layout::Nhwc)
    }
}

fn dim_or(d: i64) -> (r: u32)
    ensures
        r == dim_or_fallback(d),
{
    if d > 0 {
        d as u32
    } else {
        FALLBACK_INPUT_SIZE
    }
}

/// Guess the model's expected `(width, height, layout)` from its declared
/// input shape. Dynamic dimensions (`-1`) fall back to 192px.
pub fn infer_layout(shape: &[i64]) -> (r: (u32, u32, Layout))
    ensures
        r == layout_of(shape@),
{
    if shape.len() == 4 && shape[1] == 3 {
        (dim_or(shape[3]), dim_or(shape[2]), Layout::Nchw)
    } else if shape.len() == 4 && shape[3] == 3 {
        (dim_or(shape[2]), dim_or(shape[1]), Layout::Nhwc)
    } else {
        // Unrecognized rank/shape: assume NHWC square input as a best guess.
        (FALLBACK_INPUT_SIZE, FALLBACK_INPUT_SIZE, Layout::Nhwc)
    }
}

/// How the layout is read off a rank-4 input shape: the channel count 3 in
/// position 1 means NCHW (width from position 3, height from position 2),
/// otherwise in position 3 NHWC (width from position 2, height from
/// position 1); a positive dimension is taken as it is and a dynamic one
/// (`-1`, or any other non-positive value) becomes 192. The batch dimension
/// in position 0, often dynamic in exported models, never matters.
pub proof fn lemma_layout_from_channels(shape: Seq<i64>, batch: i64)
    requires
        shape.len() == 4,
    ensures
        layout_of(shape.update(0, batch)) == layout_of(shape),
        shape[1] == 3 ==> layout_of(shape).2 == Layout::Nchw,
        shape[1] == 3 && 0 < shape[3] <= u32::MAX ==> layout_of(shape).0 == shape[3],
        shape[1] == 3 && shape[3] <= 0 ==> layout_of(shape).0 == 192,
        shape[1] == 3 && 0 < shape[2] <= u32::MAX ==> layout_of(shape).1 == shape[2],
        shape[1] == 3 && shape[2] <= 0 ==> layout_of(shape).1 == 192,
        shape[1] != 3 && shape[3] == 3 ==> layout_of(shape).2 == Layout::Nhwc,
        shape[1] != 3 && shape[3] == 3 && 0 < shape[2] <= u32::MAX ==> layout_of(shape).0 == shape[2],
        shape[1] != 3 && shape[3] == 3 && shape[2] <= 0 ==> layout_of(shape).0 == 192,
        shape[1] != 3 && shape[3] == 3 && 0 < shape[1] <= u32::MAX ==> layout_of(shape).1 == shape[1],
        shape[1] != 3 && shape[3] == 3 && shape[1] <= 0 ==> layout_of(shape).1 == 192,
        shape[1] != 3 && shape[3] != 3 ==> layout_of(shape) == (192u32, 192u32, Layout::Nhwc),
{
    let other = shape.update(0, batch);
    assert(other[1] == shape[1] && other[2] == shape[2] && other[3] == shape[3]);
}

/// A shape that is not of rank 4 gives a square NHWC input of 192 pixels.
pub proof fn lemma_layout_fallback(shape: Seq<i64>)
    requires
        shape.len() != 4,
    ensures
        layout_of(shape) == (192u32, 192u32, Layout::Nhwc),
{
}

/// The input tensor's shape for a single image of `width` x `height`.
pub open spec fn shape_for(layout: Layout, width: u32, height: u32) -> Seq<i64> {
    match layout {
        Layout::Nchw => seq![1i64, 3i64, height as i64, width as i64],
        Layout::Nhwc => seq![1i64, height as i64, width as i64, 3i64],
    }
}

/// The input tensor's shape for one `width` x `height` RGB image.
pub fn input_shape(layout: Layout, width: u32, height: u32) -> (shape: Vec<i64>)
    ensures
        shape@ == shape_for(layout, width, height),
{
    let shape = match layout {
        Layout::Nchw => vec![1, 3, height as i64, width as i64],
        Layout::Nhwc => vec![1, height as i64, width as i64, 3],
    };
    assert(shape@ =~= shape_for(layout, width, height));
    shape
}

/// Where channel `c` of pixel `(x, y)` goes in the flat input tensor.
pub open spec fn tensor_index(layout: Layout, w: int, h: int, x: int, y: int, c: int) -> int {
    match layout {
        Layout::Nchw => c * w * h + y * w + x,
        Layout::Nhwc => (y * w + x) * 3 + c,
    }
}

/// What each layout means for the flat input tensor: the first channel of
/// the top-left pixel is element 0; in NCHW the next pixel along a row is
/// the next element, the next row `w` elements on and the next channel a
/// whole `w * h` plane on; in NHWC the next channel is the next element,
/// the next pixel 3 elements on and the next row `3 * w` elements on.
pub proof fn lemma_tensor_index_strides(layout: Layout, w: int, h: int, x: int, y: int, c: int)
    ensures
        tensor_index(layout, w, h, 0, 0, 0) == 0,
        layout == Layout::Nchw ==> {
            &&& tensor_index(layout, w, h, x + 1, y, c) == tensor_index(layout, w, h, x, y, c) + 1
            &&& tensor_index(layout, w, h, x, y + 1, c) == tensor_index(layout, w, h, x, y, c) + w
            &&& tensor_index(layout, w, h, x, y, c + 1) == tensor_index(layout, w, h, x, y, c) + w * h
        },
        layout == Layout::Nhwc ==> {
            &&& tensor_index(layout, w, h, x, y, c + 1) == tensor_index(layout, w, h, x, y, c) + 1
            &&& tensor_index(layout, w, h, x + 1, y, c) == tensor_index(layout, w, h, x, y, c) + 3
            &&& tensor_index(layout, w, h, x, y + 1, c) == tensor_index(layout, w, h, x, y, c) + 3 * w
        },
{
    assert((c + 1) * w * h == c * w * h + w * h) by (nonlinear_arith);
    assert((y + 1) * w == y * w + w) by (nonlinear_arith);
    assert(((y + 1) * w + x) * 3 == (y * w + x) * 3 + 3 * w) by (nonlinear_arith);
    assert(0 * w * h == 0 && 0 * w == 0) by (nonlinear_arith);
}

proof fn lemma_row_major(w: int, h: int, x: int, y: int)
    requires
        0 <= x < w,
        0 <= y < h,
    ensures
        0 <= y * w + x < w * h,
{
    assert(y * w + x < (y + 1) * w) by (nonlinear_arith)
        requires
            x < w,
    ;
    assert((y + 1) * w <= h * w) by (nonlinear_arith)
        requires
            y + 1 <= h,
            0 <= w,
    ;
    assert(0 <= y * w) by (nonlinear_arith)
        requires
            0 <= y,
            0 <= w,
    ;
    assert(h * w == w * h) by (nonlinear_arith);
}

/// The flat input tensor index of channel `c` of pixel `(x, y)` of a
/// `width` x `height` RGB image.
pub fn input_index(layout: Layout, width: usize, height: usize, x: usize, y: usize, c: usize) -> (i: usize)
    requires
        x < width,
        y < height,
        c < 3,
        width * height * 3 <= usize::MAX,
    ensures
        i == tensor_index(layout, width as int, height as int, x as int, y as int, c as int),
        i < width * height * 3,
{
    proof {
        lemma_row_major(width as int, height as int, x as int, y as int);
    }
    match layout {
        Layout::Nchw => {
            proof {
                assert(c * (width * height) + (width * height) <= 3 * (width * height)) by (nonlinear_arith)
                    requires
                        c < 3,
                ;
                assert(c * width * height == c * (width * height)) by (nonlinear_arith);
                assert(3 * (width * height) == width * height * 3) by (nonlinear_arith);
                assert(c * width <= width * height * 3) by (nonlinear_arith)
                    requires
                        c < 3,
                        1 <= height,
                ;
                assert(c * width * height + y * width + x < width * height * 3);
            }
            c * width * height + y * width + x
        },
        Layout::Nhwc => {
            proof {
                assert((y * width + x) * 3 + c < width * height * 3) by (nonlinear_arith)
                    requires
                        y * width + x < width * height,
                        c < 3,
                ;
            }
            (y * width + x) * 3 + c
        },
    }
}

/// Distinct pixels and channels go to distinct places in the input tensor,
/// all within its `width * height * 3` elements: packing an image writes
/// each element at most once and never out of range.
pub proof fn lemma_input_index_injective(
    layout: Layout,
    w: int,
    h: int,
    x1: int,
    y1: int,
    c1: int,
    x2: int,
    y2: int,
    c2: int,
)
    requires
        0 <= x1 < w,
        0 <= y1 < h,
        0 <= c1 < 3,
        0 <= x2 < w,
        0 <= y2 < h,
        0 <= c2 < 3,
        tensor_index(layout, w, h, x1, y1, c1) == tensor_index(layout, w, h, x2, y2, c2),
    ensures
        x1 == x2,
        y1 == y2,
        c1 == c2,
        0 <= tensor_index(layout, w, h, x1, y1, c1) < w * h * 3,
{
    lemma_row_major(w, h, x1, y1);
    lemma_row_major(w, h, x2, y2);
    let p1 = y1 * w + x1;
    let p2 = y2 * w + x2;
    match layout {
        Layout::Nchw => {
            let a = w * h;
            assert(c1 * w * h == c1 * a && c2 * w * h == c2 * a) by (nonlinear_arith)
                requires
                    a == w * h,
            ;
            lemma_split_unique(a, c1, p1, c2, p2);
            lemma_split_unique(w, y1, x1, y2, x2);
            assert(c1 * a + p1 < 3 * a) by (nonlinear_arith)
                requires
                    0 <= c1 < 3,
                    0 <= p1 < a,
            ;
            assert(3 * a == w * h * 3) by (nonlinear_arith)
                requires
                    a == w * h,
            ;
        },
        Layout::Nhwc => {
            assert(p1 * 3 + c1 == 3 * p1 + c1 && p2 * 3 + c2 == 3 * p2 + c2);
            lemma_split_unique(3, p1, c1, p2, c2);
            lemma_split_unique(w, y1, x1, y2, x2);
            assert(p1 * 3 + c1 < w * h * 3) by (nonlinear_arith)
                requires
                    p1 < w * h,
                    c1 < 3,
            ;
        },
    }
}

/// `q * d + r` with `0 <= r < d` determines `q` and `r`.
proof fn lemma_split_unique(d: int, q1: int, r1: int, q2: int, r2: int)
    requires
        0 <= r1 < d,
        0 <= r2 < d,
        0 <= q1,
        0 <= q2,
        q1 * d + r1 == q2 * d + r2,
    ensures
        q1 == q2,
        r1 == r2,
{
    if q1 < q2 {
        assert(q1 * d + r1 < q2 * d + r2) by (nonlinear_arith)
            requires
                q1 < q2,
                0 <= r1 < d,
                0 <= r2,
        ;
    } else if q2 < q1 {
        assert(q2 * d + r2 < q1 * d + r1) by (nonlinear_arith)
            requires
                q2 < q1,
                0 <= r2 < d,
                0 <= r1,
        ;
    }
}

/// How many values each landmark takes in a flat model output of `len`
/// values: `(x, y, z)` triples when the output is non-empty and a multiple of
/// three long, `(x, y)` pairs otherwise.
pub open spec fn stride_for(len: nat) -> nat {
    if len > 0 && len % 3 == 0 {
        3
    } else {
        2
    }
}

/// Values per landmark in a flat model output of `len` values; the output
/// holds `len / stride` whole landmarks (a trailing partial one is dropped).
pub fn values_per_point(len: usize) -> (stride: usize)
    ensures
        stride == stride_for(len as nat),
{
    if len > 0 && len % 3 == 0 {
        3
    } else {
        2
    }
}

} // verus!
