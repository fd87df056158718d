//! Crop geometry of the capture: the client area of the captured window inside
//! the captured frame, and the aspect-ratio crop with its alignment.

use vstd::prelude::*;

verus! {

/// A rectangle as `(x, y, width, height)` in frame pixels.
pub type Rect = (i32, i32, i32, i32);

/// `n / d` rounded to the nearest integer, halves away from zero (`n >= 0`, `d > 0`).
pub open spec fn round_div(n: int, d: int) -> int {
    (2 * n + d) / (2 * d)
}

pub open spec fn clamp_int(v: int, lo: int, hi: int) -> int {
    if v < lo {
        lo
    } else if v > hi {
        hi
    } else {
        v
    }
}

/// How far the kept part is moved into the slack for an alignment code:
/// 0 = start (left/top), 2 = end (right/bottom), anything else = centre.
/// Codes outside 0..=2 are first clamped into that range.
pub open spec fn aligned_offset(slack: int, align: int) -> int {
    let a = clamp_int(align, 0, 2);
    if a == 0 {
        0
    } else if a == 2 {
        slack
    } else {
        slack / 2
    }
}

/// The crop of `rect` to the ratio `aspect_w : aspect_h`.
/// A rectangle wider than the ratio loses width, one taller loses height; the
/// kept length is the other length times the ratio, rounded to the nearest
/// pixel and at least one pixel. Empty rectangles and zero ratio terms leave
/// the rectangle unchanged.
pub open spec fn aspect_crop(rect: Rect, aspect_w: nat, aspect_h: nat, align_x: int, align_y: int) -> (int, int, int, int) {
    let (x, y, w, h) = rect;
    if w <= 0 || h <= 0 || aspect_w == 0 || aspect_h == 0 {
        (x as int, y as int, w as int, h as int)
    } else if w * aspect_h > h * aspect_w {
        let new_w = clamp_int(round_div(h * aspect_w, aspect_h as int), 1, w as int);
        (x + aligned_offset(w - new_w, align_x), y as int, new_w, h as int)
    } else if w * aspect_h < h * aspect_w {
        let new_h = clamp_int(round_div(w * aspect_h, aspect_w as int), 1, h as int);
        (x as int, y + aligned_offset(h - new_h, align_y), w as int, new_h)
    } else {
        (x as int, y as int, w as int, h as int)
    }
}

/// The crop's moved corner fits in `i32`.
pub open spec fn aspect_crop_fits(rect: Rect, aspect_w: nat, aspect_h: nat, align_x: int, align_y: int) -> bool {
    let r = aspect_crop(rect, aspect_w, aspect_h, align_x, align_y);
    r.0 <= i32::MAX && r.1 <= i32::MAX
}

fn clamp_align(a: i32) -> (r: i32)
    ensures
        r == clamp_int(a as int, 0, 2),
{
    if a < 0 {
        0
    } else if a > 2 {
        2
    } else {
        a
    }
}

fn offset_for(slack: i32, align: i32) -> (r: i32)
    requires
        slack >= 0,
    ensures
        r == aligned_offset(slack as int, align as int),
        0 <= r <= slack,
{
    let a = clamp_align(align);
    if a == 0 {
        0
    } else if a == 2 {
        slack
    } else {
        slack / 2
    }
}

/// Monotonicity of a product of naturals, used for overflow bounds.
pub proof fn lemma_mul_le(a: int, b: int, a_max: int, b_max: int)
    requires
        0 <= a <= a_max,
        0 <= b <= b_max,
    ensures
        0 <= a * b <= a_max * b_max,
{
    assert(0 <= a * b <= a_max * b_max) by (nonlinear_arith)
        requires
            0 <= a <= a_max,
            0 <= b <= b_max,
    ;
}

/// `round_div(n, d)` stays at most `m` when `n <= m * d`.
pub proof fn lemma_round_div_le(n: int, d: int, m: int)
    requires
        n >= 0,
        d > 0,
        n <= m * d,
    ensures
        0 <= round_div(n, d) <= m,
{
    let q = round_div(n, d);
    lemma_round_div_close(n, d);
    assert(q <= m) by (nonlinear_arith)
        requires
            2 * (q * d - n) <= d,
            n <= m * d,
            d > 0,
    ;
}

/// `round_div(a * b, c)`, at least 1, computed without overflow.
fn scaled_length(a: i32, b: u32, c: u32, limit: i32) -> (r: i32)
    requires
        a > 0,
        c > 0,
        limit >= 1,
        a * b <= limit * c,
    ensures
        r == (if round_div(a * b, c as int) < 1 { 1 } else { round_div(a * b, c as int) }),
        r == clamp_int(round_div(a * b, c as int), 1, limit as int),
        1 <= r <= limit,
{
    proof {
        lemma_mul_le(a as int, b as int, 0x7fff_ffff, 0xffff_ffff);
        lemma_round_div_le(a * b, c as int, limit as int);
    }
    let n: u128 = (a as u128) * (b as u128);
    let q: u128 = (2 * n + (c as u128)) / (2 * (c as u128));
    if q < 1 {
        1
    } else {
        q as i32
    }
}

/// Crops `rect` to the ratio `aspect_w : aspect_h` (terms in any common unit),
/// aligning the kept part by `align_x` / `align_y` (0 = left/top, 1 = centre,
/// 2 = right/bottom; other codes are clamped into that range).
pub fn crop_to_aspect(rect: Rect, aspect_w: u32, aspect_h: u32, align_x: i32, align_y: i32) -> (r: Rect)
    requires
        aspect_crop_fits(rect, aspect_w as nat, aspect_h as nat, align_x as int, align_y as int),
    ensures
        (r.0 as int, r.1 as int, r.2 as int, r.3 as int) == aspect_crop(rect, aspect_w as nat, aspect_h as nat, align_x as int, align_y as int),
{
    let (x, y, w, h) = rect;
    if w <= 0 || h <= 0 || aspect_w == 0 || aspect_h == 0 {
        return rect;
    }
    proof {
        lemma_mul_le(w as int, aspect_h as int, 0x7fff_ffff, 0xffff_ffff);
        lemma_mul_le(h as int, aspect_w as int, 0x7fff_ffff, 0xffff_ffff);
    }
    let wide: u128 = (w as u128) * (aspect_h as u128);
    let tall: u128 = (h as u128) * (aspect_w as u128);
    if wide > tall {
        let new_w = scaled_length(h, aspect_w, aspect_h, w);
        let dx = offset_for(w - new_w, align_x);
        (x + dx, y, new_w, h)
    } else if wide < tall {
        let new_h = scaled_length(w, aspect_h, aspect_w, h);
        let dy = offset_for(h - new_h, align_y);
        (x, y + dy, w, new_h)
    } else {
        rect
    }
}

/// The client area of the captured window as a rectangle in the captured frame,
/// from the window's client rectangle `(left, top, right, bottom)`, the screen
/// position of the client area's top-left corner, and the top-left corner of the
/// window's visible frame bounds. The area is moved inside the frame's
/// top/left edge and cut at its right/bottom edge; it is absent when either
/// the client rectangle or what remains of it inside the frame is empty.
pub open spec fn client_area(
    client: (i32, i32, i32, i32),
    origin: (i32, i32),
    bounds_origin: (i32, i32),
    frame_w: i32,
    frame_h: i32,
) -> Option<(int, int, int, int)> {
    let cw = client.2 - client.0;
    let ch = client.3 - client.1;
    if cw <= 0 || ch <= 0 {
        None
    } else {
        let x = if origin.0 - bounds_origin.0 > 0 { origin.0 - bounds_origin.0 } else { 0 };
        let y = if origin.1 - bounds_origin.1 > 0 { origin.1 - bounds_origin.1 } else { 0 };
        let w = if x + cw > frame_w { frame_w - x } else { cw };
        let h = if y + ch > frame_h { frame_h - y } else { ch };
        if w <= 0 || h <= 0 {
            None
        } else {
            Some((x, y, w, h))
        }
    }
}

pub open spec fn fits_i32(v: int) -> bool {
    i32::MIN <= v <= i32::MAX
}

/// Every intermediate value of `client_area` fits in `i32`.
pub open spec fn client_area_fits(
    client: (i32, i32, i32, i32),
    origin: (i32, i32),
    bounds_origin: (i32, i32),
    frame_w: i32,
    frame_h: i32,
) -> bool {
    let cw = client.2 - client.0;
    let ch = client.3 - client.1;
    &&& fits_i32(cw)
    &&& fits_i32(ch)
    &&& (cw > 0 && ch > 0) ==> {
        let x = if origin.0 - bounds_origin.0 > 0 { origin.0 - bounds_origin.0 } else { 0 };
        let y = if origin.1 - bounds_origin.1 > 0 { origin.1 - bounds_origin.1 } else { 0 };
        &&& fits_i32(origin.0 - bounds_origin.0)
        &&& fits_i32(origin.1 - bounds_origin.1)
        &&& fits_i32(x + cw)
        &&& fits_i32(y + ch)
        &&& fits_i32(frame_w - x)
        &&& fits_i32(frame_h - y)
    }
}

/// A rectangle with positive size that lies inside a `frame_w` x `frame_h` frame.
pub open spec fn inside_frame(r: (int, int, int, int), frame_w: int, frame_h: int) -> bool {
    &&& 0 <= r.0
    &&& 0 <= r.1
    &&& r.2 > 0
    &&& r.3 > 0
    &&& r.0 + r.2 <= frame_w
    &&& r.1 + r.3 <= frame_h
}

pub open spec fn rect_int(r: Rect) -> (int, int, int, int) {
    (r.0 as int, r.1 as int, r.2 as int, r.3 as int)
}

/// Whether `client_area_in_frame` can be applied to these values: every
/// intermediate value of the client area computation fits in `i32`.
pub fn client_area_in_range(
    client: (i32, i32, i32, i32),
    origin: (i32, i32),
    bounds_origin: (i32, i32),
    frame_w: i32,
    frame_h: i32,
) -> (r: bool)
    ensures
        r == client_area_fits(client, origin, bounds_origin, frame_w, frame_h),
{
    let lo: i64 = i32::MIN as i64;
    let hi: i64 = i32::MAX as i64;
    let cw: i64 = client.2 as i64 - client.0 as i64;
    let ch: i64 = client.3 as i64 - client.1 as i64;
    if cw < lo || cw > hi || ch < lo || ch > hi {
        return false;
    }
    if cw <= 0 || ch <= 0 {
        return true;
    }
    let dx: i64 = origin.0 as i64 - bounds_origin.0 as i64;
    let dy: i64 = origin.1 as i64 - bounds_origin.1 as i64;
    let x: i64 = if dx > 0 { dx } else { 0 };
    let y: i64 = if dy > 0 { dy } else { 0 };
    let right: i64 = x + cw;
    let bottom: i64 = y + ch;
    let rest_w: i64 = frame_w as i64 - x;
    let rest_h: i64 = frame_h as i64 - y;
    lo <= dx && dx <= hi && lo <= dy && dy <= hi && right <= hi && right >= lo && bottom <= hi && bottom >= lo
        && rest_w >= lo && rest_w <= hi && rest_h >= lo && rest_h <= hi
}

/// Where the client area of the captured window lies in the captured frame
/// (the title bar and borders cut away). See `client_area`.
pub fn client_area_in_frame(
    client: (i32, i32, i32, i32),
    origin: (i32, i32),
    bounds_origin: (i32, i32),
    frame_w: i32,
    frame_h: i32,
) -> (r: Option<Rect>)
    requires
        client_area_fits(client, origin, bounds_origin, frame_w, frame_h),
    ensures
        r matches Some(a) ==> client_area(client, origin, bounds_origin, frame_w, frame_h) == Some(rect_int(a)),
        r is None ==> client_area(client, origin, bounds_origin, frame_w, frame_h) is None,
        r matches Some(a) ==> inside_frame(rect_int(a), frame_w as int, frame_h as int),
{
    let cw = client.2 - client.0;
    let ch = client.3 - client.1;
    if cw <= 0 || ch <= 0 {
        return None;
    }
    let dx = origin.0 - bounds_origin.0;
    let dy = origin.1 - bounds_origin.1;
    let x = if dx > 0 { dx } else { 0 };
    let y = if dy > 0 { dy } else { 0 };
    let w = if x + cw > frame_w { frame_w - x } else { cw };
    let h = if y + ch > frame_h { frame_h - y } else { ch };
    if w <= 0 || h <= 0 {
        None
    } else {
        Some((x, y, w, h))
    }
}

/// The crop options of the capture.
#[derive(Clone, Copy, Debug, PartialEq, Eq)]
pub struct CropOptions {
    /// Cut the title bar and borders away (keep the client area).
    pub client_only: bool,
    /// Crop further to the aspect ratio below.
    pub aspect_crop: bool,
    pub aspect_w: u32,
    pub aspect_h: u32,
    pub align_x: i32,
    pub align_y: i32,
}

/// The region of a `frame_w` x `frame_h` frame that is sent to the output:
/// the client area when `client_only` is set and one was found (else the whole
/// frame), then cropped to the aspect ratio when `aspect_crop` is set.
pub open spec fn output_region(
    opts: CropOptions,
    client: Option<Rect>,
    frame_w: i32,
    frame_h: i32,
) -> (int, int, int, int) {
    let base: Rect = if opts.client_only && client is Some { client->0 } else { (0, 0, frame_w, frame_h) };
    if opts.aspect_crop {
        aspect_crop(base, opts.aspect_w as nat, opts.aspect_h as nat, opts.align_x as int, opts.align_y as int)
    } else {
        rect_int(base)
    }
}

/// The rectangle the output region is cut from: the client area when the
/// title bar is cut away and a client area was found, else the whole frame.
pub open spec fn region_base(opts: CropOptions, client: Option<Rect>, frame_w: i32, frame_h: i32) -> (int, int, int, int) {
    match client {
        Some(c) => if opts.client_only { rect_int(c) } else { (0, 0, frame_w as int, frame_h as int) },
        None => (0, 0, frame_w as int, frame_h as int),
    }
}

/// With the aspect crop on, the output region has the chosen ratio within
/// rounding, whether it is cut from the client area or from the whole frame:
/// it lies inside its base, keeps one side of the base, and its other side is
/// the kept side times the ratio to within half a ratio term (or one pixel).
/// With the aspect crop off, the region is the base itself.
pub proof fn law_region_has_the_chosen_ratio(opts: CropOptions, client: Option<Rect>, frame_w: i32, frame_h: i32)
    requires
        frame_w > 0,
        frame_h > 0,
        client matches Some(c) ==> inside_frame(rect_int(c), frame_w as int, frame_h as int),
    ensures
        ({
            let b = region_base(opts, client, frame_w, frame_h);
            let r = output_region(opts, client, frame_w, frame_h);
            let (aw, ah) = (opts.aspect_w as int, opts.aspect_h as int);
            &&& !opts.aspect_crop ==> r == b
            &&& opts.aspect_crop ==> b.0 <= r.0 && r.0 + r.2 <= b.0 + b.2 && b.1 <= r.1 && r.1 + r.3 <= b.1 + b.3
            &&& opts.aspect_crop && aw > 0 && ah > 0 ==> {
                ||| r.3 == b.3 && (r.2 == 1 || -ah <= 2 * (r.2 * ah - r.3 * aw) <= ah)
                ||| r.2 == b.2 && (r.3 == 1 || -aw <= 2 * (r.3 * aw - r.2 * ah) <= aw)
            }
        }),
{
    let base: Rect = match client {
        Some(c) => if opts.client_only { c } else { (0, 0, frame_w, frame_h) },
        None => (0, 0, frame_w, frame_h),
    };
    assert(rect_int(base) == region_base(opts, client, frame_w, frame_h));
    lemma_aspect_crop_inside(base, opts.aspect_w as nat, opts.aspect_h as nat, opts.align_x as int, opts.align_y as int);
    if opts.aspect_w > 0 && opts.aspect_h > 0 {
        lemma_aspect_crop_ratio(base, opts.aspect_w as nat, opts.aspect_h as nat, opts.align_x as int, opts.align_y as int);
    }
}

/// The region of the frame to show, see `output_region`. It always lies inside
/// the frame.
pub fn region_in_frame(opts: &CropOptions, client: Option<Rect>, frame_w: i32, frame_h: i32) -> (r: Rect)
    requires
        frame_w > 0,
        frame_h > 0,
        client matches Some(c) ==> inside_frame(rect_int(c), frame_w as int, frame_h as int),
    ensures
        rect_int(r) == output_region(*opts, client, frame_w, frame_h),
        inside_frame(rect_int(r), frame_w as int, frame_h as int),
        !opts.aspect_crop ==> rect_int(r) == region_base(*opts, client, frame_w, frame_h),
        opts.aspect_crop && opts.aspect_w > 0 && opts.aspect_h > 0 ==> ({
            let b = region_base(*opts, client, frame_w, frame_h);
            let (aw, ah) = (opts.aspect_w as int, opts.aspect_h as int);
            ||| r.3 == b.3 && (r.2 == 1 || -ah <= 2 * (r.2 * ah - r.3 * aw) <= ah)
            ||| r.2 == b.2 && (r.3 == 1 || -aw <= 2 * (r.3 * aw - r.2 * ah) <= aw)
        }),
{
    proof {
        law_region_has_the_chosen_ratio(*opts, client, frame_w, frame_h);
    }
    let base: Rect = match client {
        Some(c) => if opts.client_only { c } else { (0, 0, frame_w, frame_h) },
        None => (0, 0, frame_w, frame_h),
    };
    if opts.aspect_crop {
        proof {
            lemma_aspect_crop_inside(base, opts.aspect_w as nat, opts.aspect_h as nat, opts.align_x as int, opts.align_y as int);
        }
        crop_to_aspect(base, opts.aspect_w, opts.aspect_h, opts.align_x, opts.align_y)
    } else {
        base
    }
}

/// A cached region may be reused for a frame of the same size for half a second.
pub fn crop_cache_fresh(cached_w: i32, cached_h: i32, frame_w: i32, frame_h: i32, age_ms: u64) -> (r: bool)
    ensures
        r == (cached_w == frame_w && cached_h == frame_h && age_ms < 500),
{
    cached_w == frame_w && cached_h == frame_h && age_ms < 500
}

/// `round_div` is within half a unit of the exact quotient.
pub proof fn lemma_round_div_close(n: int, d: int)
    requires
        n >= 0,
        d > 0,
    ensures
        -d <= 2 * (round_div(n, d) * d - n) <= d,
        round_div(n, d) >= 0,
{
    let q = round_div(n, d);
    assert(2 * d * q <= 2 * n + d < 2 * d * q + 2 * d) by (nonlinear_arith)
        requires
            q == (2 * n + d) / (2 * d),
            d > 0,
            n >= 0,
    ;
    assert(q >= 0) by (nonlinear_arith)
        requires
            q == (2 * n + d) / (2 * d),
            d > 0,
            n >= 0,
    ;
    assert(2 * (q * d) == 2 * d * q) by (nonlinear_arith);
}

/// Rounding `h * a / b` never reaches past `w` when `w * b > h * a`.
proof fn lemma_round_below(h: int, w: int, a: int, b: int)
    requires
        h > 0,
        w > 0,
        a > 0,
        b > 0,
        w * b > h * a,
    ensures
        round_div(h * a, b) <= w,
{
    let q = round_div(h * a, b);
    lemma_round_div_close(h * a, b);
    assert(q <= w) by (nonlinear_arith)
        requires
            2 * (q * b - h * a) <= b,
            w * b > h * a,
            b > 0,
    ;
}

/// The aspect crop stays inside the rectangle it crops, keeps at least one
/// pixel in each direction, and changes at most one of the two directions.
pub proof fn lemma_aspect_crop_inside(rect: Rect, aspect_w: nat, aspect_h: nat, align_x: int, align_y: int)
    requires
        rect.2 > 0,
        rect.3 > 0,
    ensures
        ({
            let r = aspect_crop(rect, aspect_w, aspect_h, align_x, align_y);
            &&& rect.0 <= r.0
            &&& r.0 + r.2 <= rect.0 + rect.2
            &&& rect.1 <= r.1
            &&& r.1 + r.3 <= rect.1 + rect.3
            &&& r.2 >= 1
            &&& r.3 >= 1
            &&& (r.0 == rect.0 && r.2 == rect.2) || (r.1 == rect.1 && r.3 == rect.3)
        }),
{
}

/// Alignment of the aspect crop: code 0 keeps the left (top) edge, code 2 keeps
/// the right (bottom) edge, and the centre code leaves margins on both sides
/// that differ by at most one pixel, the extra pixel on the right (bottom).
pub proof fn lemma_aspect_crop_alignment(rect: Rect, aspect_w: nat, aspect_h: nat, align_x: int, align_y: int)
    requires
        rect.2 > 0,
        rect.3 > 0,
    ensures
        ({
            let r = aspect_crop(rect, aspect_w, aspect_h, align_x, align_y);
            let left = r.0 - rect.0;
            let right = (rect.0 + rect.2) - (r.0 + r.2);
            let top = r.1 - rect.1;
            let bottom = (rect.1 + rect.3) - (r.1 + r.3);
            &&& align_x <= 0 ==> left == 0
            &&& align_x >= 2 ==> right == 0
            &&& align_x == 1 ==> 0 <= right - left <= 1
            &&& align_y <= 0 ==> top == 0
            &&& align_y >= 2 ==> bottom == 0
            &&& align_y == 1 ==> 0 <= bottom - top <= 1
        }),
{
}

/// The kept length follows the ratio: a rectangle wider than the ratio keeps
/// the width `height * aspect_w / aspect_h` rounded to the nearest pixel (at
/// least one pixel), a taller one keeps the height `width * aspect_h / aspect_w`
/// rounded likewise, and one that already has the ratio is unchanged.
pub proof fn lemma_aspect_crop_ratio(rect: Rect, aspect_w: nat, aspect_h: nat, align_x: int, align_y: int)
    requires
        rect.2 > 0,
        rect.3 > 0,
        aspect_w > 0,
        aspect_h > 0,
    ensures
        ({
            let r = aspect_crop(rect, aspect_w, aspect_h, align_x, align_y);
            let (w, h) = (rect.2 as int, rect.3 as int);
            let (aw, ah) = (aspect_w as int, aspect_h as int);
            &&& w * ah > h * aw ==> r.3 == h && (r.2 == 1 || -ah <= 2 * (r.2 * ah - h * aw) <= ah)
            &&& w * ah < h * aw ==> r.2 == w && (r.3 == 1 || -aw <= 2 * (r.3 * aw - w * ah) <= aw)
            &&& w * ah == h * aw ==> r == (rect.0 as int, rect.1 as int, w, h)
        }),
{
    let (w, h) = (rect.2 as int, rect.3 as int);
    let (aw, ah) = (aspect_w as int, aspect_h as int);
    if w * ah > h * aw {
        lemma_round_div_close(h * aw, ah);
        lemma_round_below(h, w, aw, ah);
    } else if w * ah < h * aw {
        lemma_round_div_close(w * ah, aw);
        lemma_round_below(w, h, ah, aw);
    }
}

} // verus!
