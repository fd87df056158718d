//! The preview image: a mapped capture sampled down to the preview size. An
//! 8-bit BGRA capture is turned into RGBA here; of a 16-bit (HDR) capture the
//! sampled channels are gathered for tone mapping.

use vstd::prelude::*;

verus! {

/// Where byte `k` of preview pixel (`row`, `col`) lies in a preview `pw` pixels wide.
pub open spec fn pixel_at(pw: int, row: int, col: int, k: int) -> int {
    (row * pw + col) * 4 + k
}

/// The source line (or column) sampled for preview line (or column) `i`, when
/// `src_len` source lines are shown on `dst_len` preview lines.
pub open spec fn sampled(i: int, src_len: int, dst_len: int) -> int {
    i * src_len / dst_len
}

/// Byte `k` of preview pixel (`row`, `col`): the sampled BGRA source pixel with
/// red and blue swapped, and full opacity.
pub open spec fn preview_byte(
    src: Seq<u8>,
    pitch: int,
    cw: int,
    ch: int,
    pw: int,
    ph: int,
    row: int,
    col: int,
    k: int,
) -> u8 {
    let base = sampled(row, ch, ph) * pitch + sampled(col, cw, pw) * 4;
    if k == 0 {
        src[base + 2]
    } else if k == 1 {
        src[base + 1]
    } else if k == 2 {
        src[base]
    } else {
        255
    }
}

proof fn lemma_sampled_below(i: int, src_len: int, dst_len: int)
    requires
        0 <= i < dst_len,
        src_len > 0,
    ensures
        0 <= sampled(i, src_len, dst_len) < src_len,
        i * src_len < dst_len * src_len,
{
    assert(0 <= i * src_len < dst_len * src_len) by (nonlinear_arith)
        requires
            0 <= i < dst_len,
            src_len > 0,
    ;
    assert(0 <= (i * src_len) / dst_len < src_len) by (nonlinear_arith)
        requires
            0 <= i * src_len < dst_len * src_len,
            dst_len > 0,
    ;
}

proof fn lemma_source_index(s_row: int, s_col: int, pitch: int, cw: int, ch: int)
    requires
        0 <= s_row < ch,
        0 <= s_col < cw,
        pitch >= cw * 4,
    ensures
        0 <= s_row * pitch,
        s_row * pitch + s_col * 4 + 3 < (ch - 1) * pitch + cw * 4,
{
    assert(0 <= s_row * pitch <= (ch - 1) * pitch) by (nonlinear_arith)
        requires
            0 <= s_row <= ch - 1,
            pitch >= 0,
    ;
}

proof fn lemma_pixel_order(pw: int, r: int, c: int, row: int, col: int, k: int)
    requires
        pw > 0,
        0 <= c < pw,
        0 <= col <= pw,
        0 <= r,
        0 <= k < 4,
        r < row || (r == row && c < col),
    ensures
        0 <= pixel_at(pw, r, c, k) < pixel_at(pw, row, col, 0),
{
    assert(0 <= r * pw + c < row * pw + col) by (nonlinear_arith)
        requires
            pw > 0,
            0 <= c < pw,
            0 <= col <= pw,
            0 <= r,
            r < row || (r == row && c < col),
    ;
}

proof fn lemma_row_end(pw: int, row: int)
    ensures
        pixel_at(pw, row, pw, 0) == pixel_at(pw, row + 1, 0, 0),
{
    assert(row * pw + pw == (row + 1) * pw) by (nonlinear_arith);
}

/// The preview image, `pw` x `ph` RGBA pixels, of a `cw` x `ch` BGRA image
/// stored `pitch` bytes per line in `src`, each preview pixel taking the
/// source pixel at the proportional position (see `preview_byte`).
pub fn bgra_preview(src: &[u8], pitch: usize, cw: usize, ch: usize, pw: usize, ph: usize) -> (out: Vec<u8>)
    requires
        cw > 0,
        ch > 0,
        pw > 0,
        ph > 0,
        pitch >= cw * 4,
        (ch - 1) * pitch + cw * 4 <= src@.len(),
        pw * ph * 4 <= usize::MAX,
        ph * ch <= usize::MAX,
        pw * cw <= usize::MAX,
    ensures
        out@.len() == pw * ph * 4,
        forall|row: int, col: int, k: int|
            0 <= row < ph && 0 <= col < pw && 0 <= k < 4 ==> #[trigger] out@[pixel_at(pw as int, row, col, k)]
                == preview_byte(src@, pitch as int, cw as int, ch as int, pw as int, ph as int, row, col, k),
{
    let src_len = src.len();
    let mut out: Vec<u8> = Vec::new();
    let mut row: usize = 0;
    while row < ph
        invariant
            cw > 0,
            ch > 0,
            pw > 0,
            ph > 0,
            pitch >= cw * 4,
            (ch - 1) * pitch + cw * 4 <= src@.len(),
            src_len == src@.len(),
            pw * ph * 4 <= usize::MAX,
            ph * ch <= usize::MAX,
            pw * cw <= usize::MAX,
            row <= ph,
            out@.len() == pixel_at(pw as int, row as int, 0, 0),
            forall|r: int, c: int, k: int|
                0 <= r < row && 0 <= c < pw && 0 <= k < 4 ==> #[trigger] out@[pixel_at(pw as int, r, c, k)]
                    == preview_byte(src@, pitch as int, cw as int, ch as int, pw as int, ph as int, r, c, k),
        decreases ph - row,
    {
        proof {
            lemma_sampled_below(row as int, ch as int, ph as int);
        }
        let src_row = row * ch / ph;
        proof {
            lemma_source_index(src_row as int, 0, pitch as int, cw as int, ch as int);
        }
        let line = src_row * pitch;
        let mut col: usize = 0;
        while col < pw
            invariant
                cw > 0,
                ch > 0,
                pw > 0,
                ph > 0,
                pitch >= cw * 4,
                (ch - 1) * pitch + cw * 4 <= src@.len(),
                src_len == src@.len(),
                pw * ph * 4 <= usize::MAX,
                pw * cw <= usize::MAX,
                row < ph,
                src_row == sampled(row as int, ch as int, ph as int),
                src_row < ch,
                line == src_row * pitch,
                col <= pw,
                out@.len() == pixel_at(pw as int, row as int, col as int, 0),
                forall|r: int, c: int, k: int|
                    0 <= k < 4 && 0 <= c < pw && (0 <= r < row || (r == row && 0 <= c < col))
                        ==> #[trigger] out@[pixel_at(pw as int, r, c, k)] == preview_byte(
                        src@,
                        pitch as int,
                        cw as int,
                        ch as int,
                        pw as int,
                        ph as int,
                        r,
                        c,
                        k,
                    ),
            decreases pw - col,
        {
            proof {
                lemma_sampled_below(col as int, cw as int, pw as int);
            }
            let src_col = col * cw / pw;
            proof {
                lemma_source_index(src_row as int, src_col as int, pitch as int, cw as int, ch as int);
                assert(pixel_at(pw as int, row as int, col as int, 0) + 4 <= pw * ph * 4) by (nonlinear_arith)
                    requires
                        0 <= row < ph,
                        0 <= col < pw,
                {
                }
            }
            let at = line + src_col * 4;
            let ghost before = out@;
            out.push(src[at + 2]);
            out.push(src[at + 1]);
            out.push(src[at]);
            out.push(255u8);
            proof {
                assert forall|r: int, c: int, k: int|
                    0 <= k < 4 && 0 <= c < pw && (0 <= r < row || (r == row && 0 <= c < col + 1))
                        implies #[trigger] out@[pixel_at(pw as int, r, c, k)] == preview_byte(
                        src@,
                        pitch as int,
                        cw as int,
                        ch as int,
                        pw as int,
                        ph as int,
                        r,
                        c,
                        k,
                    ) by {
                    if r == row && c == col {
                    } else {
                        lemma_pixel_order(pw as int, r, c, row as int, col as int, k);
                        assert(out@[pixel_at(pw as int, r, c, k)] == before[pixel_at(pw as int, r, c, k)]);
                    }
                }
            }
            col += 1;
        }
        proof {
            lemma_row_end(pw as int, row as int);
        }
        row += 1;
    }
    proof {
        assert(pixel_at(pw as int, ph as int, 0, 0) == pw * ph * 4) by (nonlinear_arith);
    }
    out
}

/// Where channel `c` of sampled pixel (`row`, `col`) lies in a sample list
/// `pw` pixels wide (three channels per pixel).
pub open spec fn sample_at(pw: int, row: int, col: int, c: int) -> int {
    (row * pw + col) * 3 + c
}

proof fn lemma_sample_order(pw: int, r: int, c: int, row: int, col: int, k: int)
    requires
        pw > 0,
        0 <= c < pw,
        0 <= col <= pw,
        0 <= r,
        0 <= k < 3,
        r < row || (r == row && c < col),
    ensures
        0 <= sample_at(pw, r, c, k) < sample_at(pw, row, col, 0),
{
    assert(0 <= r * pw + c < row * pw + col) by (nonlinear_arith)
        requires
            pw > 0,
            0 <= c < pw,
            0 <= col <= pw,
            0 <= r,
            r < row || (r == row && c < col),
    ;
}

/// The red, green and blue channels (in that order) of the source pixels a
/// `pw` x `ph` preview shows of a `cw` x `ch` image of four 16-bit channels
/// (RGBA) per pixel, stored `pitch` units per line in `src`; each preview
/// pixel takes the source pixel at the proportional position.
pub fn rgba16_samples(src: &[u16], pitch: usize, cw: usize, ch: usize, pw: usize, ph: usize) -> (out: Vec<u16>)
    requires
        cw > 0,
        ch > 0,
        pw > 0,
        ph > 0,
        pitch >= cw * 4,
        (ch - 1) * pitch + cw * 4 <= src@.len(),
        pw * ph * 3 <= usize::MAX,
        ph * ch <= usize::MAX,
        pw * cw <= usize::MAX,
    ensures
        out@.len() == pw * ph * 3,
        forall|row: int, col: int, c: int|
            0 <= row < ph && 0 <= col < pw && 0 <= c < 3 ==> #[trigger] out@[sample_at(pw as int, row, col, c)]
                == src@[sampled(row, ch as int, ph as int) * pitch + sampled(col, cw as int, pw as int) * 4 + c],
{
    let src_len = src.len();
    let mut out: Vec<u16> = Vec::new();
    let mut row: usize = 0;
    while row < ph
        invariant
            cw > 0,
            ch > 0,
            pw > 0,
            ph > 0,
            pitch >= cw * 4,
            (ch - 1) * pitch + cw * 4 <= src@.len(),
            src_len == src@.len(),
            pw * ph * 3 <= usize::MAX,
            ph * ch <= usize::MAX,
            pw * cw <= usize::MAX,
            row <= ph,
            out@.len() == sample_at(pw as int, row as int, 0, 0),
            forall|r: int, cl: int, c: int|
                0 <= r < row && 0 <= cl < pw && 0 <= c < 3 ==> #[trigger] out@[sample_at(pw as int, r, cl, c)]
                    == src@[sampled(r, ch as int, ph as int) * pitch + sampled(cl, cw as int, pw as int) * 4 + c],
        decreases ph - row,
    {
        proof {
            lemma_sampled_below(row as int, ch as int, ph as int);
        }
        let src_row = row * ch / ph;
        proof {
            lemma_source_index(src_row as int, 0, pitch as int, cw as int, ch as int);
        }
        let line = src_row * pitch;
        let mut col: usize = 0;
        while col < pw
            invariant
                cw > 0,
                ch > 0,
                pw > 0,
                ph > 0,
                pitch >= cw * 4,
                (ch - 1) * pitch + cw * 4 <= src@.len(),
                src_len == src@.len(),
                pw * ph * 3 <= usize::MAX,
                pw * cw <= usize::MAX,
                row < ph,
                src_row == sampled(row as int, ch as int, ph as int),
                src_row < ch,
                line == src_row * pitch,
                col <= pw,
                out@.len() == sample_at(pw as int, row as int, col as int, 0),
                forall|r: int, cl: int, c: int|
                    0 <= c < 3 && 0 <= cl < pw && (0 <= r < row || (r == row && 0 <= cl < col))
                        ==> #[trigger] out@[sample_at(pw as int, r, cl, c)] == src@[sampled(r, ch as int, ph as int)
                        * pitch + sampled(cl, cw as int, pw as int) * 4 + c],
            decreases pw - col,
        {
            proof {
                lemma_sampled_below(col as int, cw as int, pw as int);
            }
            let src_col = col * cw / pw;
            proof {
                lemma_source_index(src_row as int, src_col as int, pitch as int, cw as int, ch as int);
                assert(sample_at(pw as int, row as int, col as int, 0) + 3 <= pw * ph * 3) by (nonlinear_arith)
                    requires
                        0 <= row < ph,
                        0 <= col < pw,
                {
                }
            }
            let at = line + src_col * 4;
            let ghost before = out@;
            out.push(src[at]);
            out.push(src[at + 1]);
            out.push(src[at + 2]);
            proof {
                assert forall|r: int, cl: int, c: int|
                    0 <= c < 3 && 0 <= cl < pw && (0 <= r < row || (r == row && 0 <= cl < col + 1))
                        implies #[trigger] out@[sample_at(pw as int, r, cl, c)] == src@[sampled(r, ch as int, ph as int)
                        * pitch + sampled(cl, cw as int, pw as int) * 4 + c] by {
                    if r == row && cl == col {
                    } else {
                        lemma_sample_order(pw as int, r, cl, row as int, col as int, c);
                        assert(out@[sample_at(pw as int, r, cl, c)] == before[sample_at(pw as int, r, cl, c)]);
                    }
                }
            }
            col += 1;
        }
        proof {
            assert(sample_at(pw as int, row as int, pw as int, 0) == sample_at(pw as int, row + 1, 0, 0)) by (nonlinear_arith);
        }
        row += 1;
    }
    proof {
        assert(sample_at(pw as int, ph as int, 0, 0) == pw * ph * 3) by (nonlinear_arith);
    }
    out
}

} // verus!
