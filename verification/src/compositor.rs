//! The viewport compositor: paints the decoded image into the destination
//! buffer, aspect-ratio preserved, scaled by the zoom factor, centered, and
//! clipped at the buffer edges, over an opaque black background.
//!
//! All geometry is exact. The scale factor `min(fw/iw, fh/ih) * zoom/1000`
//! is carried as the integer fraction `num / den`; scaled extents round down
//! (`iw * num / den`), and nearest-neighbor sampling maps a destination
//! coordinate `v` back to the source coordinate `v * den / num`, clamped to
//! the last row or column as a defensive measure against any rounding past
//! the edge.

use vstd::prelude::*;
use crate::nav::{ZOOM_MIN_MILLI, ZOOM_MAX_MILLI, MAX_DIMENSION};
use vstd::arithmetic::mul::{
    lemma_mul_upper_bound,
    lemma_mul_nonnegative,
    lemma_mul_is_commutative,
};
use vstd::arithmetic::div_mod::{
    lemma_multiply_divide_lt,
    lemma_div_pos_is_pos,
    lemma_div_multiples_vanish,
    lemma_fundamental_div_mod,
    lemma_fundamental_div_mod_converse,
    lemma_mod_division_less_than_divisor,
};

verus! {

/// True when nothing can be drawn: a zero-size image or a zero-size buffer.
pub open spec fn degenerate(iw: int, ih: int, fw: int, fh: int) -> bool {
    iw == 0 || ih == 0 || fw == 0 || fh == 0
}

/// Numerator of the exact scale fraction: the binding fit dimension times
/// the zoom in thousandths. The width binds when `fw/iw <= fh/ih`, that is,
/// when `fw * ih <= fh * iw`.
pub open spec fn scale_num(iw: int, ih: int, fw: int, fh: int, z: int) -> int {
    if fw * ih <= fh * iw {
        fw * z
    } else {
        fh * z
    }
}

/// Denominator of the exact scale fraction.
pub open spec fn scale_den(iw: int, ih: int, fw: int, fh: int) -> int {
    if fw * ih <= fh * iw {
        iw * 1000
    } else {
        ih * 1000
    }
}

/// Width of the scaled image in destination samples, rounded down.
pub open spec fn scaled_width(iw: int, ih: int, fw: int, fh: int, z: int) -> int {
    if degenerate(iw, ih, fw, fh) {
        0
    } else {
        iw * scale_num(iw, ih, fw, fh, z) / scale_den(iw, ih, fw, fh)
    }
}

/// Height of the scaled image in destination samples, rounded down.
pub open spec fn scaled_height(iw: int, ih: int, fw: int, fh: int, z: int) -> int {
    if degenerate(iw, ih, fw, fh) {
        0
    } else {
        ih * scale_num(iw, ih, fw, fh, z) / scale_den(iw, ih, fw, fh)
    }
}

/// Horizontal centering offset: half the spare width, floored at zero when
/// the scaled image overflows the buffer.
pub open spec fn offset_x(iw: int, ih: int, fw: int, fh: int, z: int) -> int {
    if degenerate(iw, ih, fw, fh) {
        0
    } else if fw > scaled_width(iw, ih, fw, fh, z) {
        (fw - scaled_width(iw, ih, fw, fh, z)) / 2
    } else {
        0
    }
}

/// Vertical centering offset: half the spare height, floored at zero.
pub open spec fn offset_y(iw: int, ih: int, fw: int, fh: int, z: int) -> int {
    if degenerate(iw, ih, fw, fh) {
        0
    } else if fh > scaled_height(iw, ih, fw, fh, z) {
        (fh - scaled_height(iw, ih, fw, fh, z)) / 2
    } else {
        0
    }
}

/// Nearest-neighbor source coordinate for the scaled-space coordinate `v`:
/// `v / scale` rounded down, clamped to the last valid index of a source
/// axis of `size` samples.
pub open spec fn source_coord(v: int, num: int, den: int, size: int) -> int {
    let raw = v * den / num;
    if raw <= size - 1 {
        raw
    } else {
        size - 1
    }
}

/// The cleared background: opaque black, so zero everywhere except the
/// alpha sample at byte offset 3 of each pixel.
pub open spec fn background_byte(i: int) -> u8 {
    if i % 4 == 3 {
        255u8
    } else {
        0u8
    }
}

/// Whether destination pixel `(fx, fy)` receives an image sample: it lies
/// in the scaled, centered image rectangle and inside the buffer.
pub open spec fn drawn(iw: int, ih: int, fw: int, fh: int, z: int, fx: int, fy: int) -> bool {
    &&& !degenerate(iw, ih, fw, fh)
    &&& offset_x(iw, ih, fw, fh, z) <= fx < offset_x(iw, ih, fw, fh, z) + scaled_width(
        iw,
        ih,
        fw,
        fh,
        z,
    )
    &&& offset_y(iw, ih, fw, fh, z) <= fy < offset_y(iw, ih, fw, fh, z) + scaled_height(
        iw,
        ih,
        fw,
        fh,
        z,
    )
    &&& fx < fw
    &&& fy < fh
}

/// The image byte that lands at frame byte `i`, for a drawn pixel: byte
/// `i % 4` of the nearest source sample.
pub open spec fn source_byte(
    img: Seq<u8>,
    iw: int,
    ih: int,
    fw: int,
    fh: int,
    z: int,
    i: int,
) -> u8 {
    let p = i / 4;
    let c = i % 4;
    let fx = p % fw;
    let fy = p / fw;
    let num = scale_num(iw, ih, fw, fh, z);
    let den = scale_den(iw, ih, fw, fh);
    let sx = source_coord(fx - offset_x(iw, ih, fw, fh, z), num, den, iw);
    let sy = source_coord(fy - offset_y(iw, ih, fw, fh, z), num, den, ih);
    img[(sy * iw + sx) * 4 + c]
}

/// The specified content of frame byte `i` after one compositing pass over
/// an image of `iw * ih` samples into a buffer of `fw * fh` samples at zoom
/// `z` thousandths.
pub open spec fn composited_byte(
    img: Seq<u8>,
    iw: int,
    ih: int,
    fw: int,
    fh: int,
    z: int,
    i: int,
) -> u8 {
    if degenerate(iw, ih, fw, fh) {
        background_byte(i)
    } else {
        let p = i / 4;
        let fx = p % fw;
        let fy = p / fw;
        if drawn(iw, ih, fw, fh, z, fx, fy) {
            source_byte(img, iw, ih, fw, fh, z, i)
        } else {
            background_byte(i)
        }
    }
}

/// Painting progress: whether pixel `(fx, fy)` lies strictly before the
/// cursor that has finished `rows` full image rows and `cols` pixels of the
/// next one.
spec fn row_col_done(
    iw: int,
    ih: int,
    fw: int,
    fh: int,
    z: int,
    fx: int,
    fy: int,
    rows: int,
    cols: int,
) -> bool {
    ||| fy - offset_y(iw, ih, fw, fh, z) < rows
    ||| (fy - offset_y(iw, ih, fw, fh, z) == rows && fx - offset_x(iw, ih, fw, fh, z) < cols)
}

/// The content of frame byte `i` while the painting pass is underway.
spec fn partial_byte(
    img: Seq<u8>,
    iw: int,
    ih: int,
    fw: int,
    fh: int,
    z: int,
    rows: int,
    cols: int,
    i: int,
) -> u8 {
    let p = i / 4;
    let fx = p % fw;
    let fy = p / fw;
    if drawn(iw, ih, fw, fh, z, fx, fy) && row_col_done(iw, ih, fw, fh, z, fx, fy, rows, cols) {
        source_byte(img, iw, ih, fw, fh, z, i)
    } else {
        background_byte(i)
    }
}

/// The geometry of one composited frame: the scaled extents of the image
/// and the centering offsets of its top-left corner.
#[derive(Clone, Copy, Debug, PartialEq, Eq, Structural)]
pub struct Layout {
    /// Width of the scaled image in destination samples.
    pub scaled_w: u32,
    /// Height of the scaled image in destination samples.
    pub scaled_h: u32,
    /// Horizontal offset of the image's left edge in the buffer.
    pub offset_x: u32,
    /// Vertical offset of the image's top edge in the buffer.
    pub offset_y: u32,
}

/// The exact scale fraction as machine integers.
fn scale_fraction(iw: u32, ih: u32, fw: u32, fh: u32, zoom_milli: u32) -> (r: (u64, u64))
    requires
        1 <= iw <= MAX_DIMENSION,
        1 <= ih <= MAX_DIMENSION,
        1 <= fw <= MAX_DIMENSION,
        1 <= fh <= MAX_DIMENSION,
        ZOOM_MIN_MILLI <= zoom_milli <= ZOOM_MAX_MILLI,
    ensures
        r.0 == scale_num(iw as int, ih as int, fw as int, fh as int, zoom_milli as int),
        r.1 == scale_den(iw as int, ih as int, fw as int, fh as int),
        100 <= r.0 <= 327675000,
        1000 <= r.1 <= 65535000,
{
    proof {
        lemma_mul_upper_bound(fw as int, 65535, ih as int, 65535);
        lemma_mul_upper_bound(fh as int, 65535, iw as int, 65535);
        lemma_mul_upper_bound(fw as int, 65535, zoom_milli as int, 5000);
        lemma_mul_upper_bound(fh as int, 65535, zoom_milli as int, 5000);
        assert((fw as int) * (zoom_milli as int) >= 100 && (fh as int) * (zoom_milli as int)
            >= 100) by (nonlinear_arith)
            requires
                fw as int >= 1,
                fh as int >= 1,
                zoom_milli as int >= 100,
        ;
    }
    if (fw as u64) * (ih as u64) <= (fh as u64) * (iw as u64) {
        ((fw as u64) * (zoom_milli as u64), (iw as u64) * 1000)
    } else {
        ((fh as u64) * (zoom_milli as u64), (ih as u64) * 1000)
    }
}

/// Computes the frame geometry for an image of `iw * ih` samples painted
/// into a buffer of `fw * fh` samples at zoom `zoom_milli` thousandths.
/// Degenerate inputs yield an all-zero layout.
pub fn compute_layout(iw: u32, ih: u32, fw: u32, fh: u32, zoom_milli: u32) -> (l: Layout)
    requires
        iw <= MAX_DIMENSION,
        ih <= MAX_DIMENSION,
        fw <= MAX_DIMENSION,
        fh <= MAX_DIMENSION,
        ZOOM_MIN_MILLI <= zoom_milli <= ZOOM_MAX_MILLI,
    ensures
        l.scaled_w == scaled_width(iw as int, ih as int, fw as int, fh as int, zoom_milli as int),
        l.scaled_h == scaled_height(iw as int, ih as int, fw as int, fh as int, zoom_milli as int),
        l.offset_x == offset_x(iw as int, ih as int, fw as int, fh as int, zoom_milli as int),
        l.offset_y == offset_y(iw as int, ih as int, fw as int, fh as int, zoom_milli as int),
        l.scaled_w <= 327675,
        l.scaled_h <= 327675,
        l.offset_x <= 32767,
        l.offset_y <= 32767,
{
    if iw == 0 || ih == 0 || fw == 0 || fh == 0 {
        return Layout { scaled_w: 0, scaled_h: 0, offset_x: 0, offset_y: 0 };
    }
    let fr: (u64, u64) = scale_fraction(iw, ih, fw, fh, zoom_milli);
    let num: u64 = fr.0;
    let den: u64 = fr.1;
    proof {
        let iwi: int = iw as int;
        let ihi: int = ih as int;
        let fwi: int = fw as int;
        let fhi: int = fh as int;
        let zi: int = zoom_milli as int;
        let numi: int = num as int;
        let deni: int = den as int;
        lemma_mul_upper_bound(iwi, 65535, numi, 327675000);
        lemma_mul_upper_bound(ihi, 65535, numi, 327675000);
        lemma_mul_nonnegative(iwi, numi);
        lemma_mul_nonnegative(ihi, numi);
        if fwi * ihi <= fhi * iwi {
            assert(iwi * numi < deni * 327676 && ihi * numi < deni * 327676) by (nonlinear_arith)
                requires
                    numi == fwi * zi,
                    deni == iwi * 1000,
                    fwi * ihi <= fhi * iwi,
                    1 <= iwi,
                    1 <= ihi,
                    1 <= fwi <= 65535,
                    1 <= fhi <= 65535,
                    100 <= zi <= 5000,
            ;
        } else {
            assert(iwi * numi < deni * 327676 && ihi * numi < deni * 327676) by (nonlinear_arith)
                requires
                    numi == fhi * zi,
                    deni == ihi * 1000,
                    fwi * ihi > fhi * iwi,
                    1 <= iwi,
                    1 <= ihi,
                    1 <= fwi <= 65535,
                    1 <= fhi <= 65535,
                    100 <= zi <= 5000,
            ;
        }
        lemma_multiply_divide_lt(iwi * numi, deni, 327676);
        lemma_multiply_divide_lt(ihi * numi, deni, 327676);
        lemma_div_pos_is_pos(iwi * numi, deni);
        lemma_div_pos_is_pos(ihi * numi, deni);
    }
    let sw64: u64 = (iw as u64) * num / den;
    let sh64: u64 = (ih as u64) * num / den;
    let sw: u32 = sw64 as u32;
    let sh: u32 = sh64 as u32;
    let ox: u32 = if fw > sw {
        (fw - sw) / 2
    } else {
        0
    };
    let oy: u32 = if fh > sh {
        (fh - sh) / 2
    } else {
        0
    };
    Layout { scaled_w: sw, scaled_h: sh, offset_x: ox, offset_y: oy }
}

/// Repaints the destination buffer: clears it to opaque black, then — unless
/// a dimension is zero — copies one nearest source sample into every pixel
/// of the scaled, centered image rectangle, skipping pixels that fall
/// outside the buffer. Every byte of the result is pinned down by
/// `composited_byte`.
#[verifier::loop_isolation(false)]
pub fn composite(
    frame: &mut Vec<u8>,
    img: &Vec<u8>,
    iw: u32,
    ih: u32,
    fw: u32,
    fh: u32,
    zoom_milli: u32,
)
    requires
        old(frame)@.len() == 4 * (fw as int) * (fh as int),
        img@.len() == 4 * (iw as int) * (ih as int),
        ZOOM_MIN_MILLI <= zoom_milli <= ZOOM_MAX_MILLI,
        iw <= MAX_DIMENSION,
        ih <= MAX_DIMENSION,
        fw <= MAX_DIMENSION,
        fh <= MAX_DIMENSION,
    ensures
        final(frame)@.len() == old(frame)@.len(),
        forall|i: int|
            0 <= i < final(frame)@.len() ==> final(frame)@[i] == composited_byte(
                img@,
                iw as int,
                ih as int,
                fw as int,
                fh as int,
                zoom_milli as int,
                i,
            ),
{
    let ghost iwi: int = iw as int;
    let ghost ihi: int = ih as int;
    let ghost fwi: int = fw as int;
    let ghost fhi: int = fh as int;
    let ghost zi: int = zoom_milli as int;
    let total: usize = frame.len();
    let mut i: usize = 0;
    while i < total
        invariant
            frame@.len() == total,
            i <= total,
            forall|j: int| 0 <= j < i ==> frame@[j] == background_byte(j),
        decreases total - i,
    {
        if i % 4 == 3 {
            frame.set(i, 255u8);
        } else {
            frame.set(i, 0u8);
        }
        i += 1;
    }
    if iw == 0 || ih == 0 || fw == 0 || fh == 0 {
        return ;
    }
    // Binding the length to a machine word tells the verifier that
    // `4 * iw * ih` fits in `usize`, which the sample index arithmetic
    // below relies on.
    let _img_len: usize = img.len();
    let lay: Layout = compute_layout(iw, ih, fw, fh, zoom_milli);
    let sw: u32 = lay.scaled_w;
    let sh: u32 = lay.scaled_h;
    let ox: u32 = lay.offset_x;
    let oy: u32 = lay.offset_y;
    let fr: (u64, u64) = scale_fraction(iw, ih, fw, fh, zoom_milli);
    let num: u64 = fr.0;
    let den: u64 = fr.1;
    let mut y: u32 = 0;
    while y < sh && oy + y < fh
        invariant
            y <= sh,
            frame@.len() == total,
            forall|j: int|
                0 <= j < frame@.len() ==> frame@[j] == partial_byte(
                    img@,
                    iwi,
                    ihi,
                    fwi,
                    fhi,
                    zi,
                    y as int,
                    0,
                    j,
                ),
        decreases sh - y,
    {
        let fy: u32 = oy + y;
        proof {
            lemma_mul_upper_bound(y as int, 327675, den as int, 65535000);
            lemma_mul_nonnegative(y as int, den as int);
            lemma_div_pos_is_pos((y as int) * (den as int), num as int);
        }
        let sy64: u64 = (y as u64) * den / num;
        let sy: u32 = if sy64 <= (ih - 1) as u64 {
            sy64 as u32
        } else {
            ih - 1
        };
        let mut x: u32 = 0;
        while x < sw
            invariant
                x <= sw,
                y < sh,
                fy == oy + y,
                fy < fh,
                sy as int == source_coord(
                    y as int,
                    scale_num(iwi, ihi, fwi, fhi, zi),
                    scale_den(iwi, ihi, fwi, fhi),
                    ihi,
                ),
                sy < ih,
                frame@.len() == total,
                forall|j: int|
                    0 <= j < frame@.len() ==> frame@[j] == partial_byte(
                        img@,
                        iwi,
                        ihi,
                        fwi,
                        fhi,
                        zi,
                        y as int,
                        x as int,
                        j,
                    ),
            decreases sw - x,
        {
            let fx: u32 = ox + x;
            if fx < fw {
                proof {
                    lemma_mul_upper_bound(x as int, 327675, den as int, 65535000);
                    lemma_mul_nonnegative(x as int, den as int);
                    lemma_div_pos_is_pos((x as int) * (den as int), num as int);
                }
                let sx64: u64 = (x as u64) * den / num;
                let sx: u32 = if sx64 <= (iw - 1) as u64 {
                    sx64 as u32
                } else {
                    iw - 1
                };
                proof {
                    assert((sy as int) * iwi + (sx as int) < iwi * ihi && 4 * (iwi * ihi) == 4
                        * iwi * ihi) by (nonlinear_arith)
                        requires
                            (sy as int) < ihi,
                            (sx as int) < iwi,
                            0 <= sy as int,
                            0 <= sx as int,
                            0 < iwi,
                            0 < ihi,
                    ;
                    assert((fy as int) * fwi + (fx as int) < fwi * fhi && 4 * (fwi * fhi) == 4
                        * fwi * fhi) by (nonlinear_arith)
                        requires
                            (fy as int) < fhi,
                            (fx as int) < fwi,
                            0 <= fy as int,
                            0 <= fx as int,
                            0 < fwi,
                            0 < fhi,
                    ;
                }
                let si: usize = ((sy as usize) * (iw as usize) + (sx as usize)) * 4;
                let di: usize = ((fy as usize) * (fw as usize) + (fx as usize)) * 4;
                frame.set(di, img[si]);
                frame.set(di + 1, img[si + 1]);
                frame.set(di + 2, img[si + 2]);
                frame.set(di + 3, img[si + 3]);
                proof {
                    let p: int = (fy as int) * fwi + (fx as int);
                    assert forall|j: int| 0 <= j < frame@.len() implies frame@[j] == partial_byte(
                        img@,
                        iwi,
                        ihi,
                        fwi,
                        fhi,
                        zi,
                        y as int,
                        x as int + 1,
                        j,
                    ) by {
                        lemma_mod_division_less_than_divisor(j, 4);
                        lemma_fundamental_div_mod(j, 4);
                        let pj: int = j / 4;
                        lemma_div_pos_is_pos(j, 4);
                        lemma_mod_division_less_than_divisor(pj, fwi);
                        lemma_fundamental_div_mod(pj, fwi);
                        if 4 * p <= j < 4 * p + 4 {
                            lemma_fundamental_div_mod_converse(j, 4, p, j - 4 * p);
                            lemma_fundamental_div_mod_converse(p, fwi, fy as int, fx as int);
                        } else {
                            if pj % fwi == fx as int && pj / fwi == fy as int {
                                lemma_mul_is_commutative(fwi, pj / fwi);
                                assert(false);
                            }
                        }
                    };
                }
            } else {
                proof {
                    assert forall|j: int| 0 <= j < frame@.len() implies frame@[j] == partial_byte(
                        img@,
                        iwi,
                        ihi,
                        fwi,
                        fhi,
                        zi,
                        y as int,
                        x as int + 1,
                        j,
                    ) by {
                        lemma_mod_division_less_than_divisor(j, 4);
                        lemma_fundamental_div_mod(j, 4);
                        let pj: int = j / 4;
                        lemma_div_pos_is_pos(j, 4);
                        lemma_mod_division_less_than_divisor(pj, fwi);
                        lemma_fundamental_div_mod(pj, fwi);
                    };
                }
            }
            x += 1;
        }
        proof {
            assert forall|j: int| 0 <= j < frame@.len() implies frame@[j] == partial_byte(
                img@,
                iwi,
                ihi,
                fwi,
                fhi,
                zi,
                y as int + 1,
                0,
                j,
            ) by {
                lemma_mod_division_less_than_divisor(j, 4);
                lemma_fundamental_div_mod(j, 4);
                let pj: int = j / 4;
                lemma_div_pos_is_pos(j, 4);
                lemma_mod_division_less_than_divisor(pj, fwi);
                lemma_fundamental_div_mod(pj, fwi);
            };
        }
        y += 1;
    }
    proof {
        assert forall|j: int| 0 <= j < frame@.len() implies frame@[j] == composited_byte(
            img@,
            iwi,
            ihi,
            fwi,
            fhi,
            zi,
            j,
        ) by {
            lemma_mod_division_less_than_divisor(j, 4);
            lemma_fundamental_div_mod(j, 4);
            let pj: int = j / 4;
            lemma_div_pos_is_pos(j, 4);
            lemma_mod_division_less_than_divisor(pj, fwi);
            lemma_fundamental_div_mod(pj, fwi);
        };
    }
}

impl crate::nav::Session {
    /// The presentation-facing repaint entry point: paints this session's
    /// resident decoded image into the destination buffer at the session's
    /// current zoom.
    pub fn composite_into(&self, frame: &mut Vec<u8>, fw: u32, fh: u32)
        requires
            self.wf(),
            old(frame)@.len() == 4 * (fw as int) * (fh as int),
            fw <= MAX_DIMENSION,
            fh <= MAX_DIMENSION,
        ensures
            final(frame)@.len() == old(frame)@.len(),
            forall|i: int|
                0 <= i < final(frame)@.len() ==> final(frame)@[i] == composited_byte(
                    self.image_data@,
                    self.image_width as int,
                    self.image_height as int,
                    fw as int,
                    fh as int,
                    self.zoom_milli as int,
                    i,
                ),
    {
        composite(
            frame,
            &self.image_data,
            self.image_width,
            self.image_height,
            fw,
            fh,
            self.zoom_milli,
        );
    }
}

/// Law: with any zero dimension, compositing only clears — every byte of
/// the frame is the opaque-black background, and no sample is written.
pub proof fn lemma_degenerate_clears(
    img: Seq<u8>,
    iw: int,
    ih: int,
    fw: int,
    fh: int,
    z: int,
    i: int,
)
    requires
        degenerate(iw, ih, fw, fh),
    ensures
        composited_byte(img, iw, ih, fw, fh, z, i) == background_byte(i),
{
}

/// Law: a drawn pixel always lies inside the destination buffer — an
/// over-zoomed image is clipped, never written out of bounds.
pub proof fn lemma_drawn_within_frame(iw: int, ih: int, fw: int, fh: int, z: int, fx: int, fy: int)
    requires
        drawn(iw, ih, fw, fh, z, fx, fy),
    ensures
        0 <= fx < fw,
        0 <= fy < fh,
{
}

/// One axis of the sampling bound: a coordinate strictly inside the scaled
/// extent `size * num / den` maps back under `v * den / num` to a source
/// index strictly inside the axis.
proof fn lemma_axis_sample(v: int, num: int, den: int, size: int)
    requires
        0 < num,
        0 < den,
        0 <= v < size * num / den,
    ensures
        0 <= v * den / num < size,
        source_coord(v, num, den, size) == v * den / num,
{
    let q = size * num / den;
    lemma_fundamental_div_mod(size * num, den);
    lemma_mod_division_less_than_divisor(size * num, den);
    assert(v * den < size * num) by (nonlinear_arith)
        requires
            v + 1 <= q,
            size * num >= den * q,
            0 < den,
            0 <= v,
    ;
    lemma_mul_is_commutative(size, num);
    lemma_multiply_divide_lt(v * den, num, size);
    lemma_mul_nonnegative(v, den);
    lemma_div_pos_is_pos(v * den, num);
}

/// Law: for every pixel of the scaled image rectangle the nearest-neighbor
/// source sample lies inside the image even before the defensive clamp, so
/// the clamp in `source_coord` never changes the sampled index.
pub proof fn lemma_sample_within_source(iw: int, ih: int, fw: int, fh: int, z: int, x: int, y: int)
    requires
        1 <= iw,
        1 <= ih,
        1 <= fw,
        1 <= fh,
        ZOOM_MIN_MILLI <= z <= ZOOM_MAX_MILLI,
        0 <= x < scaled_width(iw, ih, fw, fh, z),
        0 <= y < scaled_height(iw, ih, fw, fh, z),
    ensures
        0 <= x * scale_den(iw, ih, fw, fh) / scale_num(iw, ih, fw, fh, z) < iw,
        0 <= y * scale_den(iw, ih, fw, fh) / scale_num(iw, ih, fw, fh, z) < ih,
        source_coord(x, scale_num(iw, ih, fw, fh, z), scale_den(iw, ih, fw, fh), iw) == x
            * scale_den(iw, ih, fw, fh) / scale_num(iw, ih, fw, fh, z),
        source_coord(y, scale_num(iw, ih, fw, fh, z), scale_den(iw, ih, fw, fh), ih) == y
            * scale_den(iw, ih, fw, fh) / scale_num(iw, ih, fw, fh, z),
{
    let num = scale_num(iw, ih, fw, fh, z);
    let den = scale_den(iw, ih, fw, fh);
    assert(0 < num) by (nonlinear_arith)
        requires
            num == fw * z || num == fh * z,
            1 <= fw,
            1 <= fh,
            100 <= z,
    ;
    lemma_axis_sample(x, num, den, iw);
    lemma_axis_sample(y, num, den, ih);
}

/// Law: whenever the final scale is exactly 1 — the zoom exactly cancels
/// the fit scale, so the scale fraction is 1 — every drawn pixel copies the
/// source sample at the same coordinates relative to the image's top-left
/// corner: sampling at unit scale drifts by nothing.
pub proof fn lemma_unit_scale_copies(
    img: Seq<u8>,
    iw: int,
    ih: int,
    fw: int,
    fh: int,
    z: int,
    i: int,
)
    requires
        1 <= iw,
        1 <= ih,
        1 <= fw,
        1 <= fh,
        scale_num(iw, ih, fw, fh, z) == scale_den(iw, ih, fw, fh),
        img.len() == 4 * iw * ih,
        0 <= i,
        drawn(iw, ih, fw, fh, z, (i / 4) % fw, (i / 4) / fw),
    ensures
        composited_byte(img, iw, ih, fw, fh, z, i) == ({
            let p = i / 4;
            let x = p % fw - offset_x(iw, ih, fw, fh, z);
            let y = p / fw - offset_y(iw, ih, fw, fh, z);
            img[(y * iw + x) * 4 + i % 4]
        }),
{
    let num = scale_num(iw, ih, fw, fh, z);
    let p = i / 4;
    let x = p % fw - offset_x(iw, ih, fw, fh, z);
    let y = p / fw - offset_y(iw, ih, fw, fh, z);
    lemma_mul_is_commutative(iw, num);
    lemma_mul_is_commutative(ih, num);
    lemma_div_multiples_vanish(iw, num);
    lemma_div_multiples_vanish(ih, num);
    assert(scaled_width(iw, ih, fw, fh, z) == iw);
    assert(scaled_height(iw, ih, fw, fh, z) == ih);
    lemma_mul_is_commutative(x, num);
    lemma_mul_is_commutative(y, num);
    lemma_div_multiples_vanish(x, num);
    lemma_div_multiples_vanish(y, num);
}

/// Law: when the image and the buffer have the same dimensions and the zoom
/// is exactly fit, the scale is exactly 1 and compositing is the identity —
/// every destination byte equals the corresponding source byte.
pub proof fn lemma_exact_fit_identity(img: Seq<u8>, iw: int, ih: int, i: int)
    requires
        1 <= iw,
        1 <= ih,
        img.len() == 4 * iw * ih,
        0 <= i < 4 * iw * ih,
    ensures
        composited_byte(img, iw, ih, iw, ih, 1000, i) == img[i],
{
    lemma_mul_is_commutative(iw, ih);
    let num = scale_num(iw, ih, iw, ih, 1000);
    let den = scale_den(iw, ih, iw, ih);
    lemma_mul_is_commutative(iw, den);
    lemma_mul_is_commutative(ih, den);
    lemma_div_multiples_vanish(iw, den);
    lemma_div_multiples_vanish(ih, den);
    assert(scaled_width(iw, ih, iw, ih, 1000) == iw);
    assert(scaled_height(iw, ih, iw, ih, 1000) == ih);
    assert(4 * (iw * ih) == 4 * iw * ih) by (nonlinear_arith);
    let p = i / 4;
    let c = i % 4;
    lemma_div_pos_is_pos(i, 4);
    lemma_mod_division_less_than_divisor(i, 4);
    lemma_fundamental_div_mod(i, 4);
    lemma_multiply_divide_lt(i, 4, iw * ih);
    let fx = p % iw;
    let fy = p / iw;
    lemma_mod_division_less_than_divisor(p, iw);
    lemma_div_pos_is_pos(p, iw);
    lemma_multiply_divide_lt(p, iw, ih);
    lemma_fundamental_div_mod(p, iw);
    lemma_mul_is_commutative(iw, fy);
    lemma_mul_is_commutative(fx, den);
    lemma_mul_is_commutative(fy, den);
    lemma_div_multiples_vanish(fx, den);
    lemma_div_multiples_vanish(fy, den);
    assert(drawn(iw, ih, iw, ih, 1000, fx, fy));
    assert(source_byte(img, iw, ih, iw, ih, 1000, i) == img[(fy * iw + fx) * 4 + c]);
    assert((fy * iw + fx) * 4 + c == i) by (nonlinear_arith)
        requires
            i == 4 * p + c,
            p == iw * fy + fx,
    ;
}

} // verus!
