//! Frames: `height × width` pixels of three bytes each, stored row by row
//! in blue-green-red order, and the layout conversions between frames and
//! the buffers that codecs and models exchange.

use vstd::prelude::*;

verus! {

/// A BGR image: `height` rows of `width` pixels, three bytes per pixel.
#[derive(Debug, Clone)]
pub struct Frame {
    pub height: usize,
    pub width: usize,
    pub data: Vec<u8>,
}

impl Frame {
    /// The buffer holds exactly three bytes per pixel.
    pub open spec fn wf(&self) -> bool {
        self.data@.len() == self.height * self.width * 3
    }

    /// Number of pixels.
    pub open spec fn pixels(&self) -> int {
        self.height * self.width
    }

    /// Channel `c` (0 = blue, 1 = green, 2 = red) of pixel number `p`,
    /// counted row by row.
    pub open spec fn chan(&self, p: int, c: int) -> u8 {
        self.data@[3 * p + c]
    }

    /// Channel `c` of the pixel in row `y`, column `x`.
    pub open spec fn at(&self, y: int, x: int, c: int) -> u8 {
        self.chan(y * self.width + x, c)
    }

    /// A frame of the given size with every byte set to `value`.
    pub fn filled(height: usize, width: usize, value: u8) -> (f: Frame)
        requires
            height * width * 3 <= usize::MAX,
        ensures
            f.wf(),
            f.height == height,
            f.width == width,
            forall|i: int| 0 <= i < f.data@.len() ==> f.data@[i] == value,
    {
        proof {
            vstd::arithmetic::mul::lemma_mul_nonnegative(height as int, width as int);
        }
        let n = height * width * 3;
        let mut data: Vec<u8> = Vec::new();
        let mut i: usize = 0;
        while i < n
            invariant
                i <= n,
                data@.len() == i,
                forall|j: int| 0 <= j < i ==> data@[j] == value,
            decreases n - i,
        {
            data.push(value);
            i = i + 1;
        }
        Frame { height, width, data }
    }

    /// A frame over an existing buffer, or `None` when the buffer does not
    /// hold exactly three bytes per pixel.
    pub fn from_vec(height: usize, width: usize, data: Vec<u8>) -> (r: Option<Frame>)
        ensures
            r is Some <==> data@.len() == height * width * 3,
            r matches Some(f) ==> f.height == height && f.width == width && f.data@ == data@,
    {
        let len = data.len();
        match height.checked_mul(width) {
            None => {
                proof {
                    vstd::arithmetic::mul::lemma_mul_nonnegative(height as int, width as int);
                }
                None
            },
            Some(n) => match n.checked_mul(3) {
                None => None,
                Some(expected) => {
                    if len == expected {
                        Some(Frame { height, width, data })
                    } else {
                        None
                    }
                },
            },
        }
    }
}

/// Byte `c` of pixel `(py, px)` of a crop with `cw` columns equals the
/// source byte at the offset `(y0, x0)`.
pub open spec fn crop_matches(out: Seq<u8>, frame: Frame, y0: int, x0: int, cw: int, py: int, px: int, c: int) -> bool {
    out[(py * cw + px) * 3 + c] == frame.at(y0 + py, x0 + px, c)
}

/// Copy the region of rows `y0..y1` and columns `x0..x1` into a new frame.
pub fn crop_frame(frame: &Frame, y0: usize, x0: usize, y1: usize, x1: usize) -> (out: Frame)
    requires
        frame.wf(),
        y0 <= y1 <= frame.height,
        x0 <= x1 <= frame.width,
    ensures
        out.wf(),
        out.height == y1 - y0,
        out.width == x1 - x0,
        forall|dy: int, dx: int, c: int|
            0 <= dy < y1 - y0 && 0 <= dx < x1 - x0 && 0 <= c < 3 ==> #[trigger] out.at(dy, dx, c)
                == frame.at(y0 + dy, x0 + dx, c),
{
    let w = frame.width;
    let total = frame.data.len();
    let ch = y1 - y0;
    let cw = x1 - x0;
    let mut data: Vec<u8> = Vec::new();
    let mut dy: usize = 0;
    proof {
        vstd::arithmetic::mul::lemma_mul_inequality(y1 as int, frame.height as int, w as int);
        vstd::arithmetic::mul::lemma_mul_inequality(ch as int, y1 as int, cw as int);
        vstd::arithmetic::mul::lemma_mul_inequality(cw as int, w as int, y1 as int);
        vstd::arithmetic::mul::lemma_mul_is_commutative(y1 as int, w as int);
    }
    while dy < ch
        invariant
            frame.wf(),
            w == frame.width,
            y0 <= y1 <= frame.height,
            x0 <= x1 <= frame.width,
            ch == y1 - y0,
            cw == x1 - x0,
            dy <= ch,
            ch * cw <= y1 * w <= frame.height * w,
            frame.height * w * 3 <= usize::MAX,
            data@.len() == dy * cw * 3,
            forall|py: int, px: int, c: int|
                0 <= py < dy && 0 <= px < cw && 0 <= c < 3 ==> #[trigger] crop_matches(data@, *frame, y0 as int, x0 as int, cw as int, py, px, c),
        decreases ch - dy,
    {
        let y = y0 + dy;
        proof {
            vstd::arithmetic::mul::lemma_mul_inequality(y as int + 1, frame.height as int, w as int);
            vstd::arithmetic::mul::lemma_mul_is_distributive_add_other_way(w as int, y as int, 1);
            vstd::arithmetic::mul::lemma_mul_is_distributive_add_other_way(cw as int, dy as int, 1);
        }
        let row_in = y * w;
        let ghost out_base = dy * cw;
        let mut dx: usize = 0;
        while dx < cw
            invariant
                frame.wf(),
                w == frame.width,
                x0 <= x1 <= frame.width,
                cw == x1 - x0,
                dx <= cw,
                row_in == y * w,
                y == y0 + dy,
                dy < ch,
                ch == y1 - y0,
                (y + 1) * w <= frame.height * w,
                frame.height * w * 3 <= usize::MAX,
                (y + 1) * w == y * w + w,
                out_base == dy * cw,
                (dy + 1) * cw == out_base + cw,
                data@.len() == (out_base + dx) * 3,
                forall|py: int, px: int, c: int|
                    0 <= py < dy && 0 <= px < cw && 0 <= c < 3 ==> #[trigger] crop_matches(data@, *frame, y0 as int, x0 as int, cw as int, py, px, c),
                forall|px: int, c: int|
                    0 <= px < dx && 0 <= c < 3 ==> #[trigger] crop_matches(data@, *frame, y0 as int, x0 as int, cw as int, dy as int, px, c),
            decreases cw - dx,
        {
            let ghost old_data = data@;
            let p = row_in + x0 + dx;
            data.push(frame.data[3 * p]);
            data.push(frame.data[3 * p + 1]);
            data.push(frame.data[3 * p + 2]);
            proof {
                assert forall|px: int, c: int| 0 <= px < dx + 1 && 0 <= c < 3 implies
                    #[trigger] crop_matches(data@, *frame, y0 as int, x0 as int, cw as int, dy as int, px, c) by {
                    assert(dy * cw == out_base);
                    if px < dx {
                        assert(crop_matches(old_data, *frame, y0 as int, x0 as int, cw as int, dy as int, px, c));
                        assert((out_base + px) * 3 + c < old_data.len());
                        assert(data@[(out_base + px) * 3 + c] == old_data[(out_base + px) * 3 + c]);
                    } else {
                        assert(data@[(out_base + px) * 3 + c] == frame.data@[3 * p + c]);
                        assert(frame.at(y0 + dy, x0 + px, c) == frame.data@[3 * ((y0 + dy) * w + x0 + px) + c]);
                        assert((y0 + dy) * w == row_in);
                        assert(3 * p + c == 3 * ((y0 + dy) * w + x0 + px) + c);
                        assert((dy * cw + px) * 3 + c == (out_base + px) * 3 + c);
                    }
                }
                assert forall|py: int, px: int, c: int|
                    0 <= py < dy && 0 <= px < cw && 0 <= c < 3 implies #[trigger] crop_matches(data@, *frame, y0 as int, x0 as int, cw as int, py, px, c) by {
                    assert(crop_matches(old_data, *frame, y0 as int, x0 as int, cw as int, py, px, c));
                    assert((py * cw + px) * 3 + c < (out_base as int) * 3) by (nonlinear_arith)
                        requires 0 <= py < dy, 0 <= px < cw, 0 <= c < 3, out_base == dy * cw;
                }
            }
            dx = dx + 1;
        }
        proof {
            assert forall|py: int, px: int, c: int|
                0 <= py < dy + 1 && 0 <= px < cw && 0 <= c < 3 implies #[trigger] crop_matches(data@, *frame, y0 as int, x0 as int, cw as int, py, px, c) by {
            }
        }
        dy = dy + 1;
    }
    assert(data@.len() == ch * cw * 3);
    let out = Frame { height: ch, width: cw, data };
    assert forall|dy: int, dx: int, c: int|
        0 <= dy < y1 - y0 && 0 <= dx < x1 - x0 && 0 <= c < 3 implies #[trigger] out.at(dy, dx, c)
            == frame.at(y0 + dy, x0 + dx, c) by {
        assert(crop_matches(out.data@, *frame, y0 as int, x0 as int, cw as int, dy, dx, c));
        assert(out.at(dy, dx, c) == out.data@[3 * (dy * cw + dx) + c]);
    }
    out
}


/// `out` holds the pixels of `f` row by row in red-green-blue order.
pub open spec fn is_rgb_interleaved_of(out: Seq<u8>, f: Frame) -> bool {
    &&& out.len() == 3 * f.pixels()
    &&& forall|p: int, c: int| 0 <= p < f.pixels() && 0 <= c < 3 ==> out[3 * p + 2 - c] == #[trigger] f.chan(p, c)
}

/// `out` holds the red plane, then the green plane, then the blue plane of
/// `f`, each plane row by row.
pub open spec fn is_rgb_planes_of(out: Seq<u8>, f: Frame) -> bool {
    &&& out.len() == 3 * f.pixels()
    &&& forall|p: int| 0 <= p < f.pixels() ==> out[p] == #[trigger] f.chan(p, 2)
    &&& forall|p: int| 0 <= p < f.pixels() ==> out[f.pixels() + p] == #[trigger] f.chan(p, 1)
    &&& forall|p: int| 0 <= p < f.pixels() ==> out[2 * f.pixels() + p] == #[trigger] f.chan(p, 0)
}

/// Two well-formed frames of the same size with the same bytes in every
/// channel of every pixel have the same buffer.
pub proof fn lemma_frame_ext(f: Frame, g: Frame)
    requires
        f.wf(),
        g.wf(),
        f.height == g.height,
        f.width == g.width,
        forall|p: int, c: int| 0 <= p < f.pixels() && 0 <= c < 3 ==> #[trigger] f.chan(p, c) == g.chan(p, c),
    ensures
        f.data@ == g.data@,
{
    assert forall|i: int| 0 <= i < f.data@.len() implies f.data@[i] == g.data@[i] by {
        let p = i / 3;
        let c = i % 3;
        vstd::arithmetic::div_mod::lemma_fundamental_div_mod(i, 3);
        assert(0 <= p < f.pixels());
        assert(f.chan(p, c) == g.chan(p, c));
    }
    assert(f.data@ =~= g.data@);
}

/// The frame's pixels row by row in red-green-blue order.
pub open spec fn rgb_interleaved(f: Frame) -> Seq<u8> {
    Seq::new((3 * f.pixels()) as nat, |i: int| f.chan(i / 3, 2 - i % 3))
}

/// The interleaved red-green-blue bytes of a frame are determined by it.
pub proof fn lemma_rgb_interleaved_unique(rgb: Seq<u8>, f: Frame)
    requires
        f.wf(),
        is_rgb_interleaved_of(rgb, f),
    ensures
        rgb == rgb_interleaved(f),
{
    let other = rgb_interleaved(f);
    assert forall|i: int| 0 <= i < rgb.len() implies other[i] == rgb[i] by {
        let p = i / 3;
        let c = 2 - i % 3;
        vstd::arithmetic::div_mod::lemma_fundamental_div_mod(i, 3);
        assert(0 <= p < f.pixels());
        assert(rgb[3 * p + 2 - c] == f.chan(p, c));
    }
    assert(other =~= rgb);
}

/// The frame's pixels row by row in red-green-blue order, as image
/// encoders take them.
pub fn bgr_to_rgb_interleaved(frame: &Frame) -> (out: Vec<u8>)
    requires
        frame.wf(),
    ensures
        is_rgb_interleaved_of(out@, *frame),
        out@ == rgb_interleaved(*frame),
{
    let n = frame.data.len() / 3;
    let mut out: Vec<u8> = Vec::new();
    let mut p: usize = 0;
    while p < n
        invariant
            frame.wf(),
            n == frame.pixels(),
            3 * n <= usize::MAX,
            p <= n,
            out@.len() == 3 * p,
            forall|q: int, c: int| 0 <= q < p && 0 <= c < 3 ==> out@[3 * q + 2 - c] == #[trigger] frame.chan(q, c),
        decreases n - p,
    {
        out.push(frame.data[3 * p + 2]);
        out.push(frame.data[3 * p + 1]);
        out.push(frame.data[3 * p]);
        p = p + 1;
    }
    proof {
        lemma_rgb_interleaved_unique(out@, *frame);
    }
    out
}

/// A frame of `width × height` pixels from a buffer that holds them row by
/// row in red-green-blue order (bytes past the last pixel are ignored).
pub fn rgb_interleaved_to_bgr(width: u32, height: u32, rgb: &Vec<u8>) -> (out: Frame)
    requires
        rgb@.len() >= (width as int) * (height as int) * 3,
    ensures
        out.wf(),
        out.width == width,
        out.height == height,
        forall|p: int, c: int| 0 <= p < out.pixels() && 0 <= c < 3 ==> #[trigger] out.chan(p, c) == rgb@[3 * p + 2 - c],
{
    let ghost wh = (width as int) * (height as int);
    proof {
        vstd::arithmetic::mul::lemma_mul_nonnegative(width as int, height as int);
        vstd::arithmetic::mul::lemma_mul_is_commutative(width as int, height as int);
    }
    let len = rgb.len();
    assert(wh <= len / 3);
    let n = (width as usize) * (height as usize);
    let mut data: Vec<u8> = Vec::new();
    let mut p: usize = 0;
    while p < n
        invariant
            n == wh,
            rgb@.len() >= 3 * wh,
            rgb@.len() <= usize::MAX,
            p <= n,
            data@.len() == 3 * p,
            forall|q: int, c: int| 0 <= q < p && 0 <= c < 3 ==> #[trigger] data@[3 * q + c] == rgb@[3 * q + 2 - c],
        decreases n - p,
    {
        data.push(rgb[3 * p + 2]);
        data.push(rgb[3 * p + 1]);
        data.push(rgb[3 * p]);
        p = p + 1;
    }
    let out = Frame { height: height as usize, width: width as usize, data };
    assert forall|p: int, c: int| 0 <= p < out.pixels() && 0 <= c < 3 implies #[trigger] out.chan(p, c) == rgb@[3 * p + 2 - c] by {
        assert(out.data@[3 * p + c] == rgb@[3 * p + 2 - c]);
    }
    out
}

/// The red, green and blue planes of the frame, as the models take them.
pub fn bgr_to_rgb_planes(frame: &Frame) -> (out: Vec<u8>)
    requires
        frame.wf(),
    ensures
        is_rgb_planes_of(out@, *frame),
{
    let n = frame.data.len() / 3;
    let mut out: Vec<u8> = Vec::new();
    let mut c: usize = 0;
    while c < 3
        invariant
            frame.wf(),
            n == frame.pixels(),
            3 * n <= usize::MAX,
            c <= 3,
            out@.len() == c * n,
            c >= 1 ==> forall|p: int| 0 <= p < n ==> out@[p] == #[trigger] frame.chan(p, 2),
            c >= 2 ==> forall|p: int| 0 <= p < n ==> out@[n + p] == #[trigger] frame.chan(p, 1),
            c >= 3 ==> forall|p: int| 0 <= p < n ==> out@[2 * n + p] == #[trigger] frame.chan(p, 0),
        decreases 3 - c,
    {
        let ghost before = out@;
        let src = 2 - c;
        let mut p: usize = 0;
        while p < n
            invariant
                frame.wf(),
                n == frame.pixels(),
                3 * n <= usize::MAX,
                c < 3,
                src == 2 - c,
                p <= n,
                out@.len() == c * n + p,
                out@.subrange(0, c * n) == before,
                forall|q: int| 0 <= q < p ==> out@[c * n + q] == #[trigger] frame.chan(q, src as int),
            decreases n - p,
        {
            out.push(frame.data[3 * p + src]);
            p = p + 1;
            proof {
                assert(out@.subrange(0, c * n) =~= before);
            }
        }
        proof {
            if c >= 1 {
                assert forall|q: int| 0 <= q < n implies out@[q] == #[trigger] frame.chan(q, 2) by {
                    assert(out@[q] == out@.subrange(0, c * n)[q]);
                }
            }
            if c >= 2 {
                assert forall|q: int| 0 <= q < n implies out@[n + q] == #[trigger] frame.chan(q, 1) by {
                    assert(out@[n + q] == out@.subrange(0, c * n)[n + q]);
                }
            }
        }
        c = c + 1;
    }
    out
}

/// A frame from red, green and blue planes of `height × width` pixels.
pub fn rgb_planes_to_bgr(planes: &Vec<u8>, height: usize, width: usize) -> (out: Frame)
    requires
        planes@.len() == 3 * (height * width),
    ensures
        out.wf(),
        out.height == height,
        out.width == width,
        is_rgb_planes_of(planes@, out),
{
    let n = planes.len() / 3;
    let mut data: Vec<u8> = Vec::new();
    let mut p: usize = 0;
    while p < n
        invariant
            n == height * width,
            planes@.len() == 3 * n,
            3 * n <= usize::MAX,
            p <= n,
            data@.len() == 3 * p,
            forall|q: int| 0 <= q < p ==> #[trigger] data@[3 * q] == planes@[2 * n + q],
            forall|q: int| 0 <= q < p ==> #[trigger] data@[3 * q + 1] == planes@[n + q],
            forall|q: int| 0 <= q < p ==> #[trigger] data@[3 * q + 2] == planes@[q],
        decreases n - p,
    {
        data.push(planes[2 * n + p]);
        data.push(planes[n + p]);
        data.push(planes[p]);
        p = p + 1;
    }
    let out = Frame { height, width, data };
    assert(out.pixels() == n);
    assert forall|q: int| 0 <= q < n implies planes@[q] == #[trigger] out.chan(q, 2) by {
        assert(out.data@[3 * q + 2] == planes@[q]);
    }
    assert forall|q: int| 0 <= q < n implies planes@[n + q] == #[trigger] out.chan(q, 1) by {
        assert(out.data@[3 * q + 1] == planes@[n + q]);
    }
    assert forall|q: int| 0 <= q < n implies planes@[2 * n + q] == #[trigger] out.chan(q, 0) by {
        assert(out.data@[3 * q] == planes@[2 * n + q]);
    }
    out
}

/// Splitting a frame into planes and joining them again gives back the
/// same frame.
pub proof fn lemma_planes_roundtrip(f: Frame, planes: Seq<u8>, g: Frame)
    requires
        f.wf(),
        g.wf(),
        g.height == f.height,
        g.width == f.width,
        is_rgb_planes_of(planes, f),
        is_rgb_planes_of(planes, g),
    ensures
        g.data@ == f.data@,
{
    assert forall|p: int, c: int| 0 <= p < f.pixels() && 0 <= c < 3 implies #[trigger] f.chan(p, c) == g.chan(p, c) by {
        if c == 0 {
            assert(planes[2 * f.pixels() + p] == f.chan(p, 0));
            assert(planes[2 * g.pixels() + p] == g.chan(p, 0));
        } else if c == 1 {
            assert(planes[f.pixels() + p] == f.chan(p, 1));
            assert(planes[g.pixels() + p] == g.chan(p, 1));
        } else {
            assert(planes[p] == f.chan(p, 2));
            assert(planes[p] == g.chan(p, 2));
        }
    }
    lemma_frame_ext(f, g);
}

/// Turning a frame into interleaved red-green-blue bytes and back gives the
/// same frame.
pub proof fn lemma_interleaved_roundtrip(f: Frame, rgb: Seq<u8>, g: Frame)
    requires
        f.wf(),
        g.wf(),
        g.height == f.height,
        g.width == f.width,
        is_rgb_interleaved_of(rgb, f),
        forall|p: int, c: int| 0 <= p < g.pixels() && 0 <= c < 3 ==> #[trigger] g.chan(p, c) == rgb[3 * p + 2 - c],
    ensures
        g.data@ == f.data@,
{
    assert forall|p: int, c: int| 0 <= p < f.pixels() && 0 <= c < 3 implies #[trigger] f.chan(p, c) == g.chan(p, c) by {
        assert(rgb[3 * p + 2 - c] == f.chan(p, c));
        assert(g.chan(p, c) == rgb[3 * p + 2 - c]);
    }
    lemma_frame_ext(f, g);
}

} // verus!
