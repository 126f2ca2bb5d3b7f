use vstd::prelude::*;
use vstd::arithmetic::div_mod::*;
use vstd::arithmetic::mul::*;

use crate::error::TimelineError;

verus! {

/// Bytes per pixel: blue, green, red and an unused (opaque) fourth byte.
pub const BYTES_PER_PIXEL: usize = 4;

/// Value written to the fourth byte of every pixel this library produces.
pub const OPAQUE: u8 = 255;

/// A BGRx image: `width * height` pixels, row-major, four bytes each, with
/// an optional presentation timestamp in nanoseconds.
pub struct Frame {
    pub data: Vec<u8>,
    pub width: usize,
    pub height: usize,
    pub pts: Option<u64>,
}

/// Position in a BGRx buffer of byte `c` of pixel `(x, y)` in an image `w`
/// pixels wide.
pub open spec fn pixel_index(w: nat, x: nat, y: nat, c: nat) -> nat {
    (y * w + x) * 4 + c
}

/// Byte `c` of pixel `(x, y)`.
pub open spec fn channel(data: Seq<u8>, w: nat, x: nat, y: nat, c: nat) -> u8 {
    data[pixel_index(w, x, y, c) as int]
}

/// Horizontal coordinate of the pixel that byte `i` belongs to.
pub open spec fn x_of(w: nat, i: nat) -> nat {
    ((i / 4) % w) as nat
}

/// Vertical coordinate of the pixel that byte `i` belongs to.
pub open spec fn y_of(w: nat, i: nat) -> nat {
    ((i / 4) / w) as nat
}

/// Which byte of its pixel byte `i` is.
pub open spec fn c_of(i: nat) -> nat {
    i % 4
}

impl Frame {
    /// The buffer holds exactly `width * height` pixels.
    pub open spec fn wf(&self) -> bool {
        self.data@.len() == self.width * self.height * 4
    }
}

/// Sum of byte `c` over the first `n` pixels of row `y`.
pub open spec fn row_sum(data: Seq<u8>, w: nat, y: nat, c: nat, n: nat) -> nat
    decreases n,
{
    if n == 0 {
        0
    } else {
        row_sum(data, w, y, c, (n - 1) as nat) + channel(data, w, (n - 1) as nat, y, c) as nat
    }
}

/// Byte `c` of row `y` after collapsing the row to one pixel: the truncated
/// average of the row's colour bytes; the fourth byte is opaque.
pub open spec fn collapsed_channel(data: Seq<u8>, w: nat, y: nat, c: nat) -> u8 {
    if c == 3 {
        OPAQUE
    } else {
        (row_sum(data, w, y, c, w) / w) as u8
    }
}

/// A `w` by `h` image collapsed to a single column of `h` pixels.
pub open spec fn collapsed(data: Seq<u8>, w: nat, h: nat) -> Seq<u8> {
    Seq::new(h * 4, |i: int| collapsed_channel(data, w, (i / 4) as nat, (i % 4) as nat))
}

/// Source rows `[from, to)` averaged into output row `y` when resampling
/// from `h_in` to `h_out` rows: `from = floor(y * h_in / h_out)`,
/// `to = floor((y + 1) * h_in / h_out)`, widened to one row when empty.
pub open spec fn source_rows(h_in: nat, h_out: nat, y: nat) -> (nat, nat) {
    let from = (h_in * y / h_out) as nat;
    let to = (h_in * (y + 1) / h_out) as nat;
    if to == from {
        (from, from + 1)
    } else {
        (from, to)
    }
}

/// Sum of byte `c` of column `x` over the `n` rows starting at `from`.
pub open spec fn column_sum(data: Seq<u8>, w: nat, x: nat, c: nat, from: nat, n: nat) -> nat
    decreases n,
{
    if n == 0 {
        0
    } else {
        column_sum(data, w, x, c, from, (n - 1) as nat) + channel(
            data,
            w,
            x,
            (from + n - 1) as nat,
            c,
        ) as nat
    }
}

/// Byte `c` of pixel `(x, y)` after resampling from `h_in` to `h_out` rows:
/// the truncated average over the source rows; the fourth byte is opaque.
pub open spec fn resampled_channel(
    data: Seq<u8>,
    w: nat,
    h_in: nat,
    h_out: nat,
    x: nat,
    y: nat,
    c: nat,
) -> u8 {
    if c == 3 {
        OPAQUE
    } else {
        let (from, to) = source_rows(h_in, h_out, y);
        (column_sum(data, w, x, c, from, (to - from) as nat) / ((to - from) as nat)) as u8
    }
}

/// A `w` pixels wide image of `h_in` rows resampled to `h_out` rows.
pub open spec fn resampled(data: Seq<u8>, w: nat, h_in: nat, h_out: nat) -> Seq<u8> {
    Seq::new(
        w * h_out * 4,
        |i: int|
            resampled_channel(
                data,
                w,
                h_in,
                h_out,
                x_of(w, i as nat),
                y_of(w, i as nat),
                c_of(i as nat),
            ),
    )
}

/// The rows averaged into an output row form a non-empty range of source rows.
pub proof fn lemma_source_rows_bounds(h_in: nat, h_out: nat, y: nat)
    requires
        h_in >= 1,
        y < h_out,
    ensures
        source_rows(h_in, h_out, y).0 < source_rows(h_in, h_out, y).1 <= h_in,
{
    let a = h_in * y;
    let b = h_in * (y + 1);
    assert(a <= b && b <= h_in * h_out && a < h_in * h_out) by (nonlinear_arith)
        requires a == h_in * y, b == h_in * (y + 1), y < h_out, h_in >= 1;
    lemma_div_is_ordered(a as int, b as int, h_out as int);
    lemma_div_is_ordered(b as int, (h_in * h_out) as int, h_out as int);
    lemma_div_multiples_vanish(h_in as int, h_out as int);
    lemma_mul_is_commutative(h_in as int, h_out as int);
    lemma_fundamental_div_mod(a as int, h_out as int);
    lemma_mod_pos_bound(a as int, h_out as int);
    assert(a / h_out < h_in) by (nonlinear_arith)
        requires a == h_out * (a / h_out) + a % h_out, 0 <= a % h_out, a < h_in * h_out,
            h_out >= 1;
}

/// The image with the fourth byte of every pixel set to opaque.
pub open spec fn opaque_of(data: Seq<u8>) -> Seq<u8> {
    Seq::new(data.len(), |i: int| if i % 4 == 3 { OPAQUE } else { data[i] })
}

/// Byte `i` of an image `dw` pixels wide lies in the `sw` by `sh` rectangle
/// whose top left pixel is `(dx, dy)`.
pub open spec fn in_rect(dw: nat, i: nat, sw: nat, sh: nat, dx: nat, dy: nat) -> bool {
    &&& dx <= x_of(dw, i) < dx + sw
    &&& dy <= y_of(dw, i) < dy + sh
}

/// Image `dst`, `dw` pixels wide, with the `sw` by `sh` image `src` pasted
/// over it at `(dx, dy)`.
pub open spec fn pasted(
    dst: Seq<u8>,
    dw: nat,
    src: Seq<u8>,
    sw: nat,
    sh: nat,
    dx: nat,
    dy: nat,
) -> Seq<u8> {
    Seq::new(
        dst.len(),
        |i: int|
            if in_rect(dw, i as nat, sw, sh, dx, dy) {
                channel(
                    src,
                    sw,
                    (x_of(dw, i as nat) - dx) as nat,
                    (y_of(dw, i as nat) - dy) as nat,
                    c_of(i as nat),
                )
            } else {
                dst[i]
            },
    )
}

/// Byte `i` has been pasted once the rows above row `y` of the rectangle and
/// the first `x` pixels of row `y` are done.
pub open spec fn pasted_before(
    dw: nat,
    i: nat,
    sw: nat,
    sh: nat,
    dx: nat,
    dy: nat,
    x: nat,
    y: nat,
) -> bool {
    &&& in_rect(dw, i, sw, sh, dx, dy)
    &&& (y_of(dw, i) < dy + y || (y_of(dw, i) == dy + y && x_of(dw, i) < dx + x))
}

/// Resampling an image to its own height keeps every colour byte and makes
/// the fourth byte opaque, so an opaque image comes back unchanged.
pub proof fn lemma_resample_same_height_is_identity(data: Seq<u8>, w: nat, h: nat)
    requires
        data.len() == w * h * 4,
        forall|i: int| 0 <= i < data.len() && i % 4 == 3 ==> data[i] == OPAQUE,
    ensures
        resampled(data, w, h, h) == data,
{
    let r = resampled(data, w, h, h);
    if w == 0 {
        lemma_mul_basics(h as int);
        assert(r =~= data);
    } else {
        assert forall|i: int| 0 <= i < data.len() implies r[i] == data[i] by {
            lemma_decompose(w, h, i as nat);
            let x = x_of(w, i as nat);
            let y = y_of(w, i as nat);
            let c = c_of(i as nat);
            lemma_mul_is_commutative(h as int, y as int);
            lemma_mul_is_commutative(h as int, y as int + 1);
            lemma_div_multiples_vanish(y as int, h as int);
            lemma_div_multiples_vanish(y as int + 1, h as int);
            assert(source_rows(h, h, y) == (y, y + 1));
            assert(column_sum(data, w, x, c, y, 0) == 0);
            assert(column_sum(data, w, x, c, y, 1) == channel(data, w, x, y, c) as nat);
            assert(channel(data, w, x, y, c) == data[i]);
            assert(r[i] == resampled_channel(data, w, h, h, x, y, c));
            if c == 3 {
                assert(i % 4 == 3);
            } else {
                let v = channel(data, w, x, y, c) as nat;
                lemma_div_basics(v as int);
                assert(v / 1 == v);
                assert(resampled_channel(data, w, h, h, x, y, c) == (v / 1) as u8);
            }
        }
        assert(r =~= data);
    }
}

/// Pasting the same image at the same place twice leaves the same bytes as
/// pasting it once.
pub proof fn lemma_paste_twice_is_paste_once(
    dst: Seq<u8>,
    dw: nat,
    src: Seq<u8>,
    sw: nat,
    sh: nat,
    dx: nat,
    dy: nat,
)
    ensures
        pasted(pasted(dst, dw, src, sw, sh, dx, dy), dw, src, sw, sh, dx, dy) == pasted(
            dst,
            dw,
            src,
            sw,
            sh,
            dx,
            dy,
        ),
{
    assert(pasted(pasted(dst, dw, src, sw, sh, dx, dy), dw, src, sw, sh, dx, dy) =~= pasted(
        dst,
        dw,
        src,
        sw,
        sh,
        dx,
        dy,
    ));
}

/// The byte of pixel `(x, y)` lies inside the buffer, and its position
/// splits back into `x`, `y` and `c`.
pub proof fn lemma_index_parts(w: nat, h: nat, x: nat, y: nat, c: nat)
    requires
        x < w,
        y < h,
        c < 4,
    ensures
        pixel_index(w, x, y, c) < w * h * 4,
        x_of(w, pixel_index(w, x, y, c)) == x,
        y_of(w, pixel_index(w, x, y, c)) == y,
        c_of(pixel_index(w, x, y, c)) == c,
{
    let p = y * w + x;
    let i = pixel_index(w, x, y, c);
    lemma_fundamental_div_mod_converse(i as int, 4, p as int, c as int);
    lemma_fundamental_div_mod_converse(p as int, w as int, y as int, x as int);
    assert(p < w * h) by (nonlinear_arith)
        requires p == y * w + x, x < w, y < h;
    assert(i < w * h * 4) by (nonlinear_arith)
        requires i == p * 4 + c, p < w * h, c < 4;
}

/// Every byte of a `w` by `h` buffer is byte `c_of(i)` of pixel
/// `(x_of(i), y_of(i))`.
pub proof fn lemma_decompose(w: nat, h: nat, i: nat)
    requires
        w >= 1,
        i < w * h * 4,
    ensures
        x_of(w, i) < w,
        y_of(w, i) < h,
        c_of(i) < 4,
        pixel_index(w, x_of(w, i), y_of(w, i), c_of(i)) == i,
{
    let p = i / 4;
    lemma_fundamental_div_mod(i as int, 4);
    lemma_fundamental_div_mod(p as int, w as int);
    lemma_mod_pos_bound(p as int, w as int);
    lemma_mul_is_commutative(w as int, (p / w) as int);
    assert(p < w * h) by (nonlinear_arith)
        requires i == 4 * p + i % 4, 0 <= i % 4, i < w * h * 4;
    assert(p / w < h) by (nonlinear_arith)
        requires p == w * (p / w) + p % w, 0 <= p % w, p < w * h, w >= 1;
}

proof fn lemma_mul_le_nat(a: nat, b: nat, w: nat)
    requires
        a <= b,
    ensures
        a * w * 4 <= b * w * 4,
{
    assert(a * w * 4 <= b * w * 4) by (nonlinear_arith)
        requires a <= b;
}

/// An average of bytes is a byte.
proof fn lemma_average_is_byte(sum: nat, n: nat)
    requires
        n >= 1,
        sum <= 255 * n,
    ensures
        sum / n <= 255,
{
    lemma_div_is_ordered(sum as int, 255 * n as int, n as int);
    lemma_div_multiples_vanish(255, n as int);
    lemma_mul_is_commutative(255, n as int);
}

/// Position of byte `c` of pixel `(x, y)`, computed without overflow.
fn index_of(w: usize, h: usize, x: usize, y: usize, c: usize) -> (r: usize)
    requires
        x < w,
        y < h,
        c < 4,
        w * h * 4 <= usize::MAX,
    ensures
        r == pixel_index(w as nat, x as nat, y as nat, c as nat),
        r < w * h * 4,
{
    proof {
        lemma_index_parts(w as nat, h as nat, x as nat, y as nat, c as nat);
        assert(y * w + x <= y * w + x + c);
        assert(y * w <= y * w + x);
    }
    (y * w + x) * 4 + c
}

impl Frame {
    /// A frame over a decoded buffer. Fails with `BufferUnavailable` unless
    /// the buffer holds exactly `width * height` BGRx pixels.
    pub fn from_parts(data: Vec<u8>, width: usize, height: usize, pts: Option<u64>) -> (r: Result<
        Frame,
        TimelineError,
    >)
        ensures
            match r {
                Ok(f) => data@.len() == width * height * 4 && f.wf() && f.data == data && f.width
                    == width && f.height == height && f.pts == pts,
                Err(e) => data@.len() != width * height * 4 && e == TimelineError::BufferUnavailable,
            },
    {
        let n = data.len();
        let pixels = match width.checked_mul(height) {
            Some(p) => p,
            None => {
                assert(width * height * 4 > usize::MAX) by (nonlinear_arith)
                    requires width * height > usize::MAX;
                return Err(TimelineError::BufferUnavailable);
            },
        };
        let bytes = match pixels.checked_mul(BYTES_PER_PIXEL) {
            Some(b) => b,
            None => return Err(TimelineError::BufferUnavailable),
        };
        if n != bytes {
            return Err(TimelineError::BufferUnavailable);
        }
        Ok(Frame { data, width, height, pts })
    }

    /// The same frame with every pixel made opaque; colours, size and
    /// timestamp are kept.
    pub fn opaque(&self) -> (r: Frame)
        ensures
            r.data@ == opaque_of(self.data@),
            r.width == self.width,
            r.height == self.height,
            r.pts == self.pts,
    {
        let mut data = self.data.clone();
        let mut i: usize = 0;
        while i < data.len()
            invariant
                data@.len() == self.data@.len(),
                i <= data@.len(),
                forall|j: int| 0 <= j < i ==> #[trigger] data@[j] == opaque_of(self.data@)[j],
                forall|j: int| i <= j < data@.len() ==> #[trigger] data@[j] == self.data@[j],
            decreases data@.len() - i,
        {
            if i % 4 == 3 {
                data[i] = OPAQUE;
            }
            i = i + 1;
        }
        assert(data@ =~= opaque_of(self.data@));
        Frame { data, width: self.width, height: self.height, pts: self.pts }
    }

    /// A black frame of `width * height` pixels without a timestamp.
    pub fn new(width: usize, height: usize) -> (r: Frame)
        requires
            width * height * 4 <= usize::MAX,
        ensures
            r.wf(),
            r.width == width,
            r.height == height,
            r.pts is None,
            forall|i: int| 0 <= i < r.data@.len() ==> r.data@[i] == 0,
    {
        proof {
            lemma_mul_is_associative(width as int, height as int, 4);
        }
        let data = vec![0u8; width * height * 4];
        Frame { data, width, height, pts: None }
    }

    /// Pastes `other` over this frame with its top left pixel at `(dx, dy)`.
    /// Bytes outside that rectangle are left as they are.
    pub fn copy(&mut self, other: &Frame, dx: usize, dy: usize)
        requires
            old(self).wf(),
            other.wf(),
            dx + other.width <= old(self).width,
            dy + other.height <= old(self).height,
        ensures
            final(self).wf(),
            final(self).width == old(self).width,
            final(self).height == old(self).height,
            final(self).pts == old(self).pts,
            final(self).data@ == pasted(
                old(self).data@,
                old(self).width as nat,
                other.data@,
                other.width as nat,
                other.height as nat,
                dx as nat,
                dy as nat,
            ),
    {
        let dw = self.width;
        let dh = self.height;
        let sw = other.width;
        let sh = other.height;
        let ghost old_data = self.data@;
        let ghost target = pasted(
            old_data,
            dw as nat,
            other.data@,
            sw as nat,
            sh as nat,
            dx as nat,
            dy as nat,
        );
        let n = self.data.len();
        let m = other.data.len();
        assert(n == dw * dh * 4);
        assert(m == sw * sh * 4);
        let mut y: usize = 0;
        while y < sh
            invariant
                self.wf(),
                other.wf(),
                self.width == dw,
                self.height == dh,
                other.width == sw,
                other.height == sh,
                self.pts == old(self).pts,
                old_data == old(self).data@,
                dw * dh * 4 <= usize::MAX,
                sw * sh * 4 <= usize::MAX,
                dx + sw <= dw,
                dy + sh <= dh,
                y <= sh,
                target == pasted(old_data, dw as nat, other.data@, sw as nat, sh as nat, dx as nat, dy as nat),
                self.data@.len() == old_data.len(),
                forall|i: int|
                    0 <= i < self.data@.len() ==> #[trigger] self.data@[i] == if pasted_before(
                        dw as nat,
                        i as nat,
                        sw as nat,
                        sh as nat,
                        dx as nat,
                        dy as nat,
                        0,
                        y as nat,
                    ) {
                        target[i]
                    } else {
                        old_data[i]
                    },
            decreases sh - y,
        {
            let mut x: usize = 0;
            while x < sw
                invariant
                    self.wf(),
                    other.wf(),
                    self.width == dw,
                    self.height == dh,
                    other.width == sw,
                    other.height == sh,
                    self.pts == old(self).pts,
                    old_data == old(self).data@,
                    dw * dh * 4 <= usize::MAX,
                    sw * sh * 4 <= usize::MAX,
                    dx + sw <= dw,
                    dy + sh <= dh,
                    y < sh,
                    x <= sw,
                    target == pasted(old_data, dw as nat, other.data@, sw as nat, sh as nat, dx as nat, dy as nat),
                    self.data@.len() == old_data.len(),
                    forall|i: int|
                        0 <= i < self.data@.len() ==> #[trigger] self.data@[i] == if pasted_before(
                            dw as nat,
                            i as nat,
                            sw as nat,
                            sh as nat,
                            dx as nat,
                            dy as nat,
                            x as nat,
                            y as nat,
                        ) {
                            target[i]
                        } else {
                            old_data[i]
                        },
                decreases sw - x,
            {
                let ghost before = self.data@;
                let k0 = index_of(dw, dh, x + dx, y + dy, 0);
                let k1 = index_of(dw, dh, x + dx, y + dy, 1);
                let k2 = index_of(dw, dh, x + dx, y + dy, 2);
                let k3 = index_of(dw, dh, x + dx, y + dy, 3);
                let v0 = other.data[index_of(sw, sh, x, y, 0)];
                let v1 = other.data[index_of(sw, sh, x, y, 1)];
                let v2 = other.data[index_of(sw, sh, x, y, 2)];
                let v3 = other.data[index_of(sw, sh, x, y, 3)];
                self.data[k0] = v0;
                self.data[k1] = v1;
                self.data[k2] = v2;
                self.data[k3] = v3;
                proof {
                    let ghost px = (x + dx) as nat;
                    let ghost py = (y + dy) as nat;
                    lemma_index_parts(dw as nat, dh as nat, px, py, 0);
                    lemma_index_parts(dw as nat, dh as nat, px, py, 1);
                    lemma_index_parts(dw as nat, dh as nat, px, py, 2);
                    lemma_index_parts(dw as nat, dh as nat, px, py, 3);
                    assert forall|i: int| 0 <= i < self.data@.len() implies #[trigger] self.data@[i]
                        == if pasted_before(
                        dw as nat,
                        i as nat,
                        sw as nat,
                        sh as nat,
                        dx as nat,
                        dy as nat,
                        (x + 1) as nat,
                        y as nat,
                    ) {
                        target[i]
                    } else {
                        old_data[i]
                    } by {
                        lemma_decompose(dw as nat, dh as nat, i as nat);
                        if i != k0 && i != k1 && i != k2 && i != k3 {
                            assert(self.data@[i] == before[i]);
                            if x_of(dw as nat, i as nat) == px && y_of(dw as nat, i as nat) == py {
                                assert(i == pixel_index(dw as nat, px, py, c_of(i as nat)));
                            }
                        }
                    }
                }
                x = x + 1;
            }
            y = y + 1;
        }
        assert(self.data@ =~= target);
    }

    /// Resamples the frame to `height` rows: each output row is the box
    /// average of the source rows that `source_rows` names. The fourth byte
    /// of every pixel becomes opaque; the timestamp is kept.
    pub fn resample(&self, height: usize) -> (r: Frame)
        requires
            self.wf(),
            self.width >= 1 && height >= 1 ==> self.height >= 1,
            self.width * height * 4 <= usize::MAX,
        ensures
            r.wf(),
            r.width == self.width,
            r.height == height,
            r.pts == self.pts,
            r.data@ == resampled(self.data@, self.width as nat, self.height as nat, height as nat),
    {
        let w = self.width;
        let h_in = self.height;
        let ghost target = resampled(self.data@, w as nat, h_in as nat, height as nat);
        let n = self.data.len();
        assert(n == w * h_in * 4);
        if w == 0 {
            assert(target.len() == 0) by {
                lemma_mul_basics(height as int);
            };
            assert(target =~= Seq::<u8>::empty());
            return Frame { data: Vec::new(), width: w, height, pts: self.pts };
        }
        proof {
            lemma_mul_is_commutative(w as int, height as int);
        }
        let mut out: Vec<u8> = Vec::new();
        let mut y: usize = 0;
        while y < height
            invariant
                self.wf(),
                w == self.width,
                h_in == self.height,
                w * h_in * 4 <= usize::MAX,
                w * height * 4 <= usize::MAX,
                w >= 1,
                height >= 1 ==> h_in >= 1,
                y <= height,
                target == resampled(self.data@, w as nat, h_in as nat, height as nat),
                target.len() == height * w * 4,
                out@.len() == y * w * 4,
                forall|j: int| 0 <= j < out@.len() ==> out@[j] == target[j],
            decreases height - y,
        {
            proof {
                lemma_source_rows_bounds(h_in as nat, height as nat, y as nat);
            }
            assert((h_in as u128) * (y as u128 + 1) <= u128::MAX) by (nonlinear_arith)
                requires h_in <= usize::MAX, y < usize::MAX, usize::MAX < 0x1_0000_0000_0000_0000;
            assert((h_in as u128) * (y as u128) <= (h_in as u128) * (y as u128 + 1)) by (nonlinear_arith);
            let prod_from = (h_in as u128) * (y as u128);
            let prod_to = (h_in as u128) * (y as u128 + 1);
            let from = (prod_from / height as u128) as usize;
            let mut to = (prod_to / height as u128) as usize;
            if to == from {
                to = from + 1;
            }
            assert((from as nat, to as nat) == source_rows(h_in as nat, height as nat, y as nat));
            let mut x: usize = 0;
            while x < w
                invariant
                    self.wf(),
                    w == self.width,
                    h_in == self.height,
                    w * h_in * 4 <= usize::MAX,
                    w * height * 4 <= usize::MAX,
                    y < height,
                    x <= w,
                    from < to <= h_in,
                    (from as nat, to as nat) == source_rows(h_in as nat, height as nat, y as nat),
                    target == resampled(self.data@, w as nat, h_in as nat, height as nat),
                    target.len() == height * w * 4,
                    out@.len() == pixel_index(w as nat, x as nat, y as nat, 0),
                    forall|j: int| 0 <= j < out@.len() ==> out@[j] == target[j],
                decreases w - x,
            {
                let mut b: u128 = 0;
                let mut g: u128 = 0;
                let mut r: u128 = 0;
                let mut k: usize = from;
                while k < to
                    invariant
                        self.wf(),
                        w == self.width,
                        h_in == self.height,
                        w * h_in * 4 <= usize::MAX,
                        x < w,
                        from <= k <= to <= h_in,
                        b == column_sum(self.data@, w as nat, x as nat, 0, from as nat, (k - from) as nat),
                        g == column_sum(self.data@, w as nat, x as nat, 1, from as nat, (k - from) as nat),
                        r == column_sum(self.data@, w as nat, x as nat, 2, from as nat, (k - from) as nat),
                        b <= 255 * (k - from),
                        g <= 255 * (k - from),
                        r <= 255 * (k - from),
                    decreases to - k,
                {
                    b = b + self.data[index_of(w, h_in, x, k, 0)] as u128;
                    g = g + self.data[index_of(w, h_in, x, k, 1)] as u128;
                    r = r + self.data[index_of(w, h_in, x, k, 2)] as u128;
                    k = k + 1;
                }
                let count = (to - from) as u128;
                proof {
                    lemma_average_is_byte(b as nat, count as nat);
                    lemma_average_is_byte(g as nat, count as nat);
                    lemma_average_is_byte(r as nat, count as nat);
                    lemma_index_parts(w as nat, height as nat, x as nat, y as nat, 0);
                    lemma_index_parts(w as nat, height as nat, x as nat, y as nat, 1);
                    lemma_index_parts(w as nat, height as nat, x as nat, y as nat, 2);
                    lemma_index_parts(w as nat, height as nat, x as nat, y as nat, 3);
                }
                let ghost start = out@.len();
                out.push((b / count) as u8);
                out.push((g / count) as u8);
                out.push((r / count) as u8);
                out.push(OPAQUE);
                proof {
                    assert forall|j: int| 0 <= j < out@.len() implies out@[j] == target[j] by {
                        if j >= start {
                            assert(j == pixel_index(w as nat, x as nat, y as nat, (j - start) as nat));
                        }
                    }
                }
                x = x + 1;
            }
            proof {
                assert(out@.len() == (y + 1) * w * 4) by (nonlinear_arith)
                    requires out@.len() == (y * w + w) * 4;
                lemma_mul_le_nat(y as nat + 1, height as nat, w as nat);
            }
            y = y + 1;
        }
        assert(out@ =~= target);
        Frame { data: out, width: w, height, pts: self.pts }
    }

    /// Scales the frame to `width` by `height` pixels with box averaging.
    ///
    /// Only a target one pixel wide, a timeline column, is computed here:
    /// every row is collapsed to its average colour and the column is then
    /// resampled to `height` rows. For any other width the result is `None`
    /// and scaling is left to the media backend.
    pub fn scale(&self, width: usize, height: usize) -> (r: Option<Frame>)
        requires
            self.wf(),
            self.width >= 1,
            height >= 1 ==> self.height >= 1,
            height * 4 <= usize::MAX,
        ensures
            r is Some <==> width == 1,
            r matches Some(f) ==> {
                &&& f.wf()
                &&& f.width == 1
                &&& f.height == height
                &&& f.pts == self.pts
                &&& f.data@ == resampled(
                    collapsed(self.data@, self.width as nat, self.height as nat),
                    1,
                    self.height as nat,
                    height as nat,
                )
            },
    {
        if width != 1 {
            return None;
        }
        let column = self.collapse();
        Some(column.resample(height))
    }

    /// Collapses every row to its average colour, giving a frame one pixel
    /// wide. The timestamp is kept.
    pub fn collapse(&self) -> (r: Frame)
        requires
            self.wf(),
            self.width >= 1,
        ensures
            r.wf(),
            r.width == 1,
            r.height == self.height,
            r.pts == self.pts,
            r.data@ == collapsed(self.data@, self.width as nat, self.height as nat),
    {
        let w = self.width;
        let h = self.height;
        let ghost target = collapsed(self.data@, w as nat, h as nat);
        proof {
            assert(h * 4 <= w * h * 4) by (nonlinear_arith)
                requires w >= 1;
        }
        let n = self.data.len();
        assert(n == w * h * 4);
        let mut out: Vec<u8> = Vec::new();
        let mut y: usize = 0;
        while y < h
            invariant
                self.wf(),
                w * h * 4 <= usize::MAX,
                w == self.width,
                h == self.height,
                w >= 1,
                y <= h,
                h * 4 <= usize::MAX,
                target == collapsed(self.data@, w as nat, h as nat),
                out@.len() == y * 4,
                forall|j: int| 0 <= j < out@.len() ==> out@[j] == target[j],
            decreases h - y,
        {
            let mut b: u128 = 0;
            let mut g: u128 = 0;
            let mut r: u128 = 0;
            let mut x: usize = 0;
            while x < w
                invariant
                    self.wf(),
                    w * h * 4 <= usize::MAX,
                    w == self.width,
                    h == self.height,
                    y < h,
                    x <= w,
                    b == row_sum(self.data@, w as nat, y as nat, 0, x as nat),
                    g == row_sum(self.data@, w as nat, y as nat, 1, x as nat),
                    r == row_sum(self.data@, w as nat, y as nat, 2, x as nat),
                    b <= 255 * x,
                    g <= 255 * x,
                    r <= 255 * x,
                decreases w - x,
            {
                b = b + self.data[index_of(w, h, x, y, 0)] as u128;
                g = g + self.data[index_of(w, h, x, y, 1)] as u128;
                r = r + self.data[index_of(w, h, x, y, 2)] as u128;
                x = x + 1;
            }
            proof {
                lemma_average_is_byte(b as nat, w as nat);
                lemma_average_is_byte(g as nat, w as nat);
                lemma_average_is_byte(r as nat, w as nat);
            }
            let ghost start = out@.len();
            out.push((b / w as u128) as u8);
            out.push((g / w as u128) as u8);
            out.push((r / w as u128) as u8);
            out.push(OPAQUE);
            proof {
                assert forall|j: int| 0 <= j < out@.len() implies out@[j] == target[j] by {
                    if j >= start {
                        assert(j / 4 == y);
                        assert(j % 4 == j - start);
                    }
                }
            }
            y = y + 1;
        }
        assert(out@ =~= target);
        Frame { data: out, width: 1, height: h, pts: self.pts }
    }
}

} // verus!
