//! The first recognition channel: counting the red pixels of a fixed region
//! of a captured frame, and copying that region out.
//!
//! A frame is RGBA, four bytes per pixel, rows of `frame_width` pixels.  A
//! region is `(x, y, w, h)` in pixels.  How a pixel is judged red or black
//! is handed in by the caller as a pair of classifiers.
use vstd::prelude::*;

verus! {

/// What the red-pixel count of a region came to.
#[derive(Debug, Clone, Copy, PartialEq, Eq, Structural)]
pub struct ChannelAResult {
    pub triggered: bool,
    pub red_pixel_count: u32,
    pub black_pixel_count: u32,
}

/// The region lies inside a frame of `frame_len` bytes whose rows are
/// `frame_width` pixels wide, and its rows can be numbered in `u32`.
pub open spec fn roi_fits(frame_len: int, frame_width: u32, roi: (u32, u32, u32, u32)) -> bool {
    roi.3 == 0 || (roi.1 + roi.3 - 1 <= u32::MAX && (roi.1 + roi.3 - 1) * frame_width * 4 + (roi.0
        + roi.2) * 4 <= frame_len)
}

/// Byte offset of pixel `(dx, dy)` of the region in the frame.
pub open spec fn px_off(frame_width: u32, roi: (u32, u32, u32, u32), dy: int, dx: int) -> int {
    (roi.1 + dy) * frame_width * 4 + (roi.0 + dx) * 4
}

/// A classifier that answers for every colour, always the same way.
pub open spec fn decides<F: Fn(u8, u8, u8) -> bool>(f: F) -> bool {
    &&& forall|r: u8, g: u8, b: u8| #[trigger] f.requires((r, g, b))
    &&& forall|r: u8, g: u8, b: u8, x: bool, y: bool|
        #[trigger] f.ensures((r, g, b), x) && #[trigger] f.ensures((r, g, b), y) ==> x == y
}

/// The classifier's answer for the pixel at byte offset `off`.
pub open spec fn judged<F: Fn(u8, u8, u8) -> bool>(f: F, frame: Seq<u8>, off: int) -> bool {
    f.ensures((frame[off], frame[off + 1], frame[off + 2]), true)
}

/// The number of pixels of the region that `f` accepts before pixel
/// `(dx, dy)` in row order: all of rows `0..dy`, then columns `0..dx` of
/// row `dy`.
pub open spec fn count_before<F: Fn(u8, u8, u8) -> bool>(
    f: F,
    frame: Seq<u8>,
    frame_width: u32,
    roi: (u32, u32, u32, u32),
    dy: nat,
    dx: nat,
) -> nat
    decreases dy, dx,
{
    if dx > 0 {
        count_before(f, frame, frame_width, roi, dy, (dx - 1) as nat) + if judged(
            f,
            frame,
            px_off(frame_width, roi, dy as int, dx - 1),
        ) {
            1nat
        } else {
            0nat
        }
    } else if dy > 0 {
        count_before(f, frame, frame_width, roi, (dy - 1) as nat, roi.2 as nat)
    } else {
        0
    }
}

/// The count of red pixels reaches `max` at pixel `(dx, dy)`, which is red.
pub open spec fn stops_at<F: Fn(u8, u8, u8) -> bool>(
    red: F,
    frame: Seq<u8>,
    frame_width: u32,
    roi: (u32, u32, u32, u32),
    max: u32,
    dy: nat,
    dx: nat,
) -> bool {
    &&& dy < roi.3
    &&& dx < roi.2
    &&& judged(red, frame, px_off(frame_width, roi, dy as int, dx as int))
    &&& count_before(red, frame, frame_width, roi, dy, dx) + 1 >= max
}

/// Pixel `(dx2, dy2)` comes before `(dx, dy)` in row order.
pub open spec fn earlier(dy2: nat, dx2: nat, dy: nat, dx: nat) -> bool {
    dy2 < dy || (dy2 == dy && dx2 < dx)
}

proof fn lemma_offset_in_frame(frame_len: int, frame_width: u32, roi: (u32, u32, u32, u32), dy: int, dx: int)
    requires
        roi_fits(frame_len, frame_width, roi),
        0 <= dy < roi.3,
        0 <= dx < roi.2,
    ensures
        0 <= (roi.1 + dy) * frame_width,
        (roi.1 + dy) * frame_width * 4 <= px_off(frame_width, roi, dy, dx),
        px_off(frame_width, roi, dy, dx) + 4 <= frame_len,
{
    let a = roi.1 + dy;
    let b = roi.1 + roi.3 - 1;
    assert(a * frame_width <= b * frame_width) by (nonlinear_arith)
        requires
            0 <= a <= b,
            0 <= frame_width,
    ;
    assert(0 <= a * frame_width) by (nonlinear_arith)
        requires
            0 <= a,
            0 <= frame_width,
    ;
}

/// Counts the red pixels of the region in row order, and the black ones
/// met on the way.  Once the red count reaches `max_threshold` the region
/// holds something else than what is looked for: the count stops there and
/// nothing is triggered.  A count at or above `max_threshold` never
/// triggers, even when no red pixel was read; otherwise the region triggers
/// when it holds at least `min_threshold` red pixels.
pub fn detect_red_in_roi<F: Fn(u8, u8, u8) -> bool, G: Fn(u8, u8, u8) -> bool>(
    frame: &[u8],
    frame_width: u32,
    roi: (u32, u32, u32, u32),
    min_threshold: u32,
    max_threshold: u32,
    is_red: F,
    is_black: G,
) -> (r: ChannelAResult)
    requires
        roi_fits(frame@.len() as int, frame_width, roi),
        roi.2 * roi.3 <= u32::MAX,
        decides(is_red),
        decides(is_black),
    ensures
        ({
            let fr = frame@;
            let total_red = count_before(is_red, fr, frame_width, roi, roi.3 as nat, 0);
            let total_black = count_before(is_black, fr, frame_width, roi, roi.3 as nat, 0);
            if exists|dy: nat, dx: nat|
                #[trigger] stops_at(is_red, fr, frame_width, roi, max_threshold, dy, dx) {
                exists|dy: nat, dx: nat|
                    {
                        &&& #[trigger] stops_at(is_red, fr, frame_width, roi, max_threshold, dy, dx)
                        &&& forall|dy2: nat, dx2: nat|
                            earlier(dy2, dx2, dy, dx) ==> !#[trigger] stops_at(
                                is_red,
                                fr,
                                frame_width,
                                roi,
                                max_threshold,
                                dy2,
                                dx2,
                            )
                        &&& !r.triggered
                        &&& r.red_pixel_count == count_before(is_red, fr, frame_width, roi, dy, dx) + 1
                        &&& r.black_pixel_count == count_before(is_black, fr, frame_width, roi, dy, dx)
                    }
            } else {
                &&& r.triggered == (total_red >= min_threshold && total_red < max_threshold)
                &&& r.red_pixel_count == total_red
                &&& r.black_pixel_count == total_black
            }
        }),
{
    let ghost fr = frame@;
    let (rx, ry, rw, rh) = roi;
    let mut red_count: u32 = 0;
    let mut black_count: u32 = 0;
    let mut dy: u32 = 0;
    while dy < rh
        invariant
            fr == frame@,
            roi == (rx, ry, rw, rh),
            roi_fits(fr.len() as int, frame_width, roi),
            rw * rh <= u32::MAX,
            decides(is_red),
            decides(is_black),
            dy <= rh,
            red_count == count_before(is_red, fr, frame_width, roi, dy as nat, 0),
            black_count == count_before(is_black, fr, frame_width, roi, dy as nat, 0),
            red_count <= dy * rw,
            black_count <= dy * rw,
            forall|dy2: nat, dx2: nat|
                earlier(dy2, dx2, dy as nat, 0) ==> !#[trigger] stops_at(
                    is_red,
                    fr,
                    frame_width,
                    roi,
                    max_threshold,
                    dy2,
                    dx2,
                ),
        decreases rh - dy,
    {
        let mut dx: u32 = 0;
        while dx < rw
            invariant
                fr == frame@,
                roi == (rx, ry, rw, rh),
                roi_fits(fr.len() as int, frame_width, roi),
                rw * rh <= u32::MAX,
                decides(is_red),
                decides(is_black),
                dy < rh,
                dx <= rw,
                red_count == count_before(is_red, fr, frame_width, roi, dy as nat, dx as nat),
                black_count == count_before(is_black, fr, frame_width, roi, dy as nat, dx as nat),
                red_count <= dy * rw + dx,
                black_count <= dy * rw + dx,
                forall|dy2: nat, dx2: nat|
                    earlier(dy2, dx2, dy as nat, dx as nat) ==> !#[trigger] stops_at(
                        is_red,
                        fr,
                        frame_width,
                        roi,
                        max_threshold,
                        dy2,
                        dx2,
                    ),
            decreases rw - dx,
        {
            proof {
                lemma_offset_in_frame(fr.len() as int, frame_width, roi, dy as int, dx as int);
                assert(dy * rw + dx < rw * rh) by (nonlinear_arith)
                    requires
                        dy < rh,
                        dx < rw,
                ;
            }
            assert(fr.len() == frame.len());
            let ry_dy: usize = (ry + dy) as usize;
            let fwu: usize = frame_width as usize;
            assert(ry_dy * fwu * 4 <= fr.len());
            assert(ry_dy * fwu <= fr.len());
            let row: usize = ry_dy * fwu * 4;
            let idx: usize = row + rx as usize * 4 + dx as usize * 4;
            let r = frame[idx];
            let g = frame[idx + 1];
            let b = frame[idx + 2];
            let red = is_red(r, g, b);
            let black = is_black(r, g, b);
            proof {
                assert(idx == px_off(frame_width, roi, dy as int, dx as int));
                if !red {
                    if judged(is_red, fr, idx as int) {
                        assert(is_red.ensures((r, g, b), true));
                    }
                }
                if !black {
                    if judged(is_black, fr, idx as int) {
                        assert(is_black.ensures((r, g, b), true));
                    }
                }
                assert(red == judged(is_red, fr, idx as int));
                assert(black == judged(is_black, fr, idx as int));
            }
            if red {
                red_count += 1;
                if red_count >= max_threshold {
                    proof {
                        assert(stops_at(is_red, fr, frame_width, roi, max_threshold, dy as nat, dx as nat));
                    }
                    return ChannelAResult {
                        triggered: false,
                        red_pixel_count: red_count,
                        black_pixel_count: black_count,
                    };
                }
            }
            if black {
                black_count += 1;
            }
            proof {
                assert forall|dy2: nat, dx2: nat|
                    earlier(dy2, dx2, dy as nat, (dx + 1) as nat) implies !#[trigger] stops_at(
                    is_red,
                    fr,
                    frame_width,
                    roi,
                    max_threshold,
                    dy2,
                    dx2,
                ) by {
                    if !earlier(dy2, dx2, dy as nat, dx as nat) {
                        assert(dy2 == dy && dx2 == dx);
                    }
                }
            }
            dx += 1;
        }
        proof {
            assert(count_before(is_red, fr, frame_width, roi, (dy + 1) as nat, 0) == count_before(
                is_red,
                fr,
                frame_width,
                roi,
                dy as nat,
                rw as nat,
            ));
            assert(count_before(is_black, fr, frame_width, roi, (dy + 1) as nat, 0) == count_before(
                is_black,
                fr,
                frame_width,
                roi,
                dy as nat,
                rw as nat,
            ));
            assert forall|dy2: nat, dx2: nat|
                earlier(dy2, dx2, (dy + 1) as nat, 0) implies !#[trigger] stops_at(
                is_red,
                fr,
                frame_width,
                roi,
                max_threshold,
                dy2,
                dx2,
            ) by {
                if dy2 == dy && dx2 >= rw {
                    assert(!stops_at(is_red, fr, frame_width, roi, max_threshold, dy2, dx2));
                } else if dy2 == dy {
                    assert(earlier(dy2, dx2, dy as nat, rw as nat));
                }
            }
            assert((dy + 1) * rw == dy * rw + rw) by (nonlinear_arith);
        }
        dy += 1;
    }
    proof {
        assert forall|dy2: nat, dx2: nat|
            !#[trigger] stops_at(is_red, fr, frame_width, roi, max_threshold, dy2, dx2) by {
            if dy2 < rh {
                assert(earlier(dy2, dx2, rh as nat, 0));
            }
        }
    }
    ChannelAResult {
        triggered: red_count >= min_threshold && red_count < max_threshold,
        red_pixel_count: red_count,
        black_pixel_count: black_count,
    }
}

/// Byte offset in the copy of byte `j` of row `dy` of the region.
pub open spec fn crop_off(roi: (u32, u32, u32, u32), dy: int, j: int) -> int {
    dy * (roi.2 * 4) + j
}

/// Copies the region row by row into `dst`, packed: row `dy` of the
/// region goes to bytes `dy * w * 4 ..` of `dst`; the rest of `dst` stays.
pub fn crop_roi(frame: &[u8], frame_width: u32, roi: (u32, u32, u32, u32), dst: &mut [u8])
    requires
        roi_fits(frame@.len() as int, frame_width, roi),
        roi.2 * 4 <= u32::MAX,
        roi.3 * (roi.2 * 4) <= old(dst)@.len(),
    ensures
        final(dst)@.len() == old(dst)@.len(),
        forall|dy: int, j: int|
            0 <= dy < roi.3 && 0 <= j < roi.2 * 4 ==> #[trigger] final(dst)@[crop_off(roi, dy, j)]
                == frame@[(roi.1 + dy) * frame_width * 4 + roi.0 * 4 + j],
        forall|k: int|
            roi.3 * (roi.2 * 4) <= k < old(dst)@.len() ==> #[trigger] final(dst)@[k] == old(dst)@[k],
{
    let (rx, ry, rw, rh) = roi;
    let stride: usize = (rw * 4) as usize;
    let ghost d0 = dst@;
    let mut dy: u32 = 0;
    while dy < rh
        invariant
            roi == (rx, ry, rw, rh),
            roi_fits(frame@.len() as int, frame_width, roi),
            stride == rw * 4,
            rh * stride <= d0.len(),
            dst@.len() == d0.len(),
            dy <= rh,
            forall|dy2: int, j: int|
                0 <= dy2 < dy && 0 <= j < stride ==> #[trigger] dst@[crop_off(roi, dy2, j)]
                    == frame@[(ry + dy2) * frame_width * 4 + rx * 4 + j],
            forall|k: int| dy * stride <= k < d0.len() ==> #[trigger] dst@[k] == d0[k],
        decreases rh - dy,
    {
        proof {
            if rw > 0 {
                lemma_offset_in_frame(frame@.len() as int, frame_width, roi, dy as int, (rw - 1) as int);
            }
            assert((dy + 1) * stride <= rh * stride) by (nonlinear_arith)
                requires
                    dy < rh,
            ;
            assert((dy + 1) * stride == dy * stride + stride) by (nonlinear_arith);
            assert(0 <= (ry + dy) * frame_width) by (nonlinear_arith)
                requires
                    0 <= ry + dy,
            ;
        }
        let ghost row_d = dst@;
        assert(dst@.len() == dst.len());
        let dst_start: usize = dy as usize * stride;
        let ry_dy: usize = (ry + dy) as usize;
        let fwu: usize = frame_width as usize;
        assert(frame@.len() == frame.len());
        assert(rw == 0 || ry_dy * fwu * 4 + rx * 4 + stride <= frame@.len());
        let base: usize = if stride > 0 {
            assert(ry_dy * fwu * 4 <= frame@.len());
            assert(ry_dy * fwu <= frame@.len());
            ry_dy * fwu * 4 + rx as usize * 4
        } else {
            0
        };
        let mut j: usize = 0;
        assert(d0.len() <= usize::MAX);
        while j < stride
            invariant
                roi == (rx, ry, rw, rh),
                stride == rw * 4,
                dy < rh,
                dst_start == dy * stride,
                dst_start + stride <= d0.len(),
                dst@.len() == d0.len(),
                ry_dy == ry + dy,
                fwu == frame_width,
                stride > 0 ==> base == ry_dy * fwu * 4 + rx * 4,
                stride > 0 ==> base + stride <= frame@.len(),
                j <= stride,
                d0.len() <= usize::MAX,
                frame@.len() <= usize::MAX,
                row_d.len() == d0.len(),
                forall|k: int|
                    0 <= k < d0.len() && !(dst_start <= k < dst_start + j) ==> #[trigger] dst@[k]
                        == row_d[k],
                forall|i: int| 0 <= i < j ==> #[trigger] dst@[dst_start + i] == frame@[(ry + dy) * frame_width
                    * 4 + rx * 4 + i],
            decreases stride - j,
        {
            let src = base + j;
            dst[dst_start + j] = frame[src];
            j += 1;
        }
        proof {
            assert forall|dy2: int, j2: int|
                0 <= dy2 < dy + 1 && 0 <= j2 < stride implies #[trigger] dst@[crop_off(roi, dy2, j2)]
                == frame@[(ry + dy2) * frame_width * 4 + rx * 4 + j2] by {
                if dy2 == dy {
                    assert(crop_off(roi, dy2, j2) == dst_start + j2);
                } else {
                    assert(dy2 * stride + j2 < dy * stride) by (nonlinear_arith)
                        requires
                            dy2 < dy,
                            j2 < stride,
                    ;
                    assert(crop_off(roi, dy2, j2) == dy2 * stride + j2);
                }
            }
        }
        dy += 1;
    }
}

} // verus!
