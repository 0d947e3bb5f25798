use vstd::prelude::*;
use crate::color::Rgba;
use crate::raster::{is_rect, solid, Raster};

verus! {

/// Where a logo goes on a QR image: the logo is scaled to a square of side
/// `logo_side`, centred at `logo_offset` on both axes of an opaque white
/// square of side `pad_side`, which is placed at (`pad_x`, `pad_y`).
#[derive(Clone, Copy, Debug, PartialEq, Eq, Structural)]
pub struct LogoLayout {
    pub logo_side: u32,
    pub pad_side: u32,
    pub logo_offset: u32,
    pub pad_x: u32,
    pub pad_y: u32,
}

pub open spec fn min(a: int, b: int) -> int {
    if a <= b {
        a
    } else {
        b
    }
}

/// The layout for a QR image of `width` by `height` pixels: the logo side is
/// a fifth of the shorter side, rounded down; the white square's side is
/// 1.2 times that, rounded to the nearest integer; both are centred, offsets
/// rounded down.
pub open spec fn layout_of(width: int, height: int) -> LogoLayout {
    let logo = min(width, height) / 5;
    let pad = (12 * logo + 5) / 10;
    LogoLayout {
        logo_side: logo as u32,
        pad_side: pad as u32,
        logo_offset: ((pad - logo) / 2) as u32,
        pad_x: ((width - pad) / 2) as u32,
        pad_y: ((height - pad) / 2) as u32,
    }
}

/// Computes `layout_of` for a QR image of `width` by `height` pixels.
pub fn logo_layout(width: u32, height: u32) -> (r: LogoLayout)
    ensures
        r == layout_of(width as int, height as int),
        r.logo_side <= r.pad_side <= width,
        r.pad_side <= height,
        r.pad_x + r.pad_side <= width,
        r.pad_y + r.pad_side <= height,
        r.logo_offset + r.logo_side <= r.pad_side,
{
    let shorter = if width <= height {
        width
    } else {
        height
    };
    let logo = shorter / 5;
    let pad = ((12 * logo as u64 + 5) / 10) as u32;
    LogoLayout {
        logo_side: logo,
        pad_side: pad,
        logo_offset: (pad - logo) / 2,
        pad_x: (width - pad) / 2,
        pad_y: (height - pad) / 2,
    }
}

/// Relies on `image::imageops::resize` with `FilterType::Lanczos3`: the
/// result is `side` by `side` pixels. Nothing is claimed of its pixels, which
/// come from `f32::sin`, whose precision std leaves unspecified.
#[verifier::external_body]
fn resize_square(img: &Raster, side: u32) -> (r: Raster)
    requires
        img.wf(),
        side > 0,
    ensures
        r.wf(),
        r.spec_width() == side,
        r.spec_height() == side,
{
    let src = image::RgbaImage::from_fn(img.width, img.height, |x, y| image::Rgba(img.pixel(x, y).channels()));
    let out = image::imageops::resize(&src, side, side, image::imageops::FilterType::Lanczos3);
    let rows = out.rows().map(|row| row.map(|p| Rgba { r: p[0], g: p[1], b: p[2], a: p[3] }).collect()).collect();
    Raster { width: out.width(), height: out.height(), rows }
}

/// Name for what `image::imageops::overlay` makes of `bottom` when `top` is
/// laid over it with its corner at (`x`, `y`).
pub uninterp spec fn overlaid(bottom: Seq<Seq<Rgba>>, top: Seq<Seq<Rgba>>, x: int, y: int) -> Seq<
    Seq<Rgba>,
>;

/// Relies on `image::imageops::overlay`: it blends each pixel of `top` over
/// the pixel of `bottom` beneath it, clipped to `bottom`, keeps the size of
/// `bottom` and every pixel outside the covered rectangle, and depends on the
/// two images and the corner alone. The blend (`Rgba::blend`) keeps the pixel
/// beneath where the top pixel is fully transparent and takes the top pixel
/// where it is fully opaque. `bottom` must be at least one pixel wide: the
/// rows of a zero-width image are not read back.
#[verifier::external_body]
fn overlay_at(bottom: &mut Raster, top: &Raster, x: u32, y: u32)
    requires
        old(bottom).wf(),
        old(bottom).spec_width() > 0,
        top.wf(),
    ensures
        final(bottom).wf(),
        final(bottom).spec_width() == old(bottom).spec_width(),
        final(bottom).spec_height() == old(bottom).spec_height(),
        final(bottom)@ == overlaid(old(bottom)@, top@, x as int, y as int),
        forall|px: int, py: int|
            0 <= px < old(bottom).spec_width() && 0 <= py < old(bottom).spec_height() && !(x <= px
                < x + top.spec_width() && y <= py < y + top.spec_height())
                ==> #[trigger] final(bottom)@[py][px] == old(bottom)@[py][px],
        forall|px: int, py: int|
            x <= px < old(bottom).spec_width() && y <= py < old(bottom).spec_height() && px < x
                + top.spec_width() && py < y + top.spec_height() ==> {
                let t = top@[py - y][px - x];
                &&& t.a == 255 ==> #[trigger] final(bottom)@[py][px] == t
                &&& t.a == 0 ==> final(bottom)@[py][px] == old(bottom)@[py][px]
            },
{
    let mut img = image::RgbaImage::from_fn(bottom.width, bottom.height, |x, y| image::Rgba(bottom.pixel(x, y).channels()));
    let over = image::RgbaImage::from_fn(top.width, top.height, |x, y| image::Rgba(top.pixel(x, y).channels()));
    image::imageops::overlay(&mut img, &over, x as i64, y as i64);
    bottom.rows = img.rows().map(|row| row.map(|p| Rgba { r: p[0], g: p[1], b: p[2], a: p[3] }).collect()).collect();
}

/// The white square of a layout with the scaled logo laid over its centre.
pub open spec fn logo_tile(scaled: Seq<Seq<Rgba>>, l: LogoLayout) -> Seq<Seq<Rgba>> {
    overlaid(
        solid(l.pad_side as nat, l.pad_side as nat, Rgba::opaque(255, 255, 255)),
        scaled,
        l.logo_offset as int,
        l.logo_offset as int,
    )
}

/// What pixel (`tx`, `ty`) of the white square shows, where the blend fixes
/// it: opaque white outside the logo, the logo pixel where it is fully
/// opaque, white where it is fully transparent; `None` where it is partly
/// transparent.
pub open spec fn in_tile(scaled: Seq<Seq<Rgba>>, l: LogoLayout, tx: int, ty: int) -> Option<Rgba> {
    let o = l.logo_offset as int;
    if o <= tx < o + l.logo_side && o <= ty < o + l.logo_side {
        let p = scaled[ty - o][tx - o];
        if p.a == 255 {
            Some(p)
        } else if p.a == 0 {
            Some(Rgba::opaque(255, 255, 255))
        } else {
            None
        }
    } else {
        Some(Rgba::opaque(255, 255, 255))
    }
}

/// Whether pixel (`px`, `py`) lies in the white square of layout `l`.
pub open spec fn in_square(l: LogoLayout, px: int, py: int) -> bool {
    l.pad_x <= px < l.pad_x + l.pad_side && l.pad_y <= py < l.pad_y + l.pad_side
}

/// Whether pixel (`px`, `py`) lies in the logo area of layout `l`.
pub open spec fn in_logo_area(l: LogoLayout, px: int, py: int) -> bool {
    let x0 = l.pad_x + l.logo_offset;
    let y0 = l.pad_y + l.logo_offset;
    x0 <= px < x0 + l.logo_side && y0 <= py < y0 + l.logo_side
}

/// Whether `out` is the `width` by `height` image `qr` with the scaled logo
/// `scaled` placed as layout `l` says: the white square with the logo over it
/// is laid over `qr`, pixels outside the square are kept, and within the
/// square each pixel is what `in_tile` gives, wherever that is fixed.
pub open spec fn logo_placed(
    qr: Seq<Seq<Rgba>>,
    width: int,
    height: int,
    scaled: Seq<Seq<Rgba>>,
    l: LogoLayout,
    out: Seq<Seq<Rgba>>,
) -> bool {
    &&& out == overlaid(qr, logo_tile(scaled, l), l.pad_x as int, l.pad_y as int)
    &&& forall|px: int, py: int|
        0 <= px < width && 0 <= py < height && !in_square(l, px, py) ==> #[trigger] out[py][px]
            == qr[py][px]
    &&& forall|px: int, py: int|
        in_square(l, px, py) && in_tile(scaled, l, px - l.pad_x, py - l.pad_y) is Some
            ==> #[trigger] out[py][px] == in_tile(scaled, l, px - l.pad_x, py - l.pad_y)->0
}

/// Lays an already scaled logo over the centre of `qr`: `scaled` must be a
/// square of the logo side that `layout_of` gives for `qr`; it is set on a
/// white square 1.2 times as large, and the square is laid over the middle
/// of the image. When the logo side is zero the image is returned as it was.
pub fn embed_scaled_logo(qr: Raster, scaled: &Raster) -> (r: Raster)
    requires
        qr.wf(),
        scaled.wf(),
        scaled.spec_width() == layout_of(qr.spec_width() as int, qr.spec_height() as int).logo_side,
        scaled.spec_height() == layout_of(qr.spec_width() as int, qr.spec_height() as int).logo_side,
    ensures
        r.wf(),
        r.spec_width() == qr.spec_width(),
        r.spec_height() == qr.spec_height(),
        ({
            let l = layout_of(qr.spec_width() as int, qr.spec_height() as int);
            if l.logo_side == 0 {
                r@ == qr@
            } else {
                logo_placed(qr@, qr.spec_width() as int, qr.spec_height() as int, scaled@, l, r@)
            }
        }),
{
    let l = logo_layout(qr.width(), qr.height());
    if l.logo_side == 0 {
        return qr;
    }
    let mut tile = Raster::filled(l.pad_side, l.pad_side, Rgba { r: 255, g: 255, b: 255, a: 255 });
    let ghost white_tile = tile@;
    overlay_at(&mut tile, scaled, l.logo_offset, l.logo_offset);
    let mut out = qr;
    overlay_at(&mut out, &tile, l.pad_x, l.pad_y);
    proof {
        let white = Rgba::opaque(255, 255, 255);
        let o = l.logo_offset as int;
        assert forall|px: int, py: int|
            in_square(l, px, py) && in_tile(scaled@, l, px - l.pad_x, py - l.pad_y) is Some implies #[trigger] out@[py][px]
            == in_tile(scaled@, l, px - l.pad_x, py - l.pad_y)->0 by {
            let tx = px - l.pad_x;
            let ty = py - l.pad_y;
            assert(white_tile[ty][tx] == white);
            let t = tile@[ty][tx];
            if o <= tx < o + l.logo_side && o <= ty < o + l.logo_side {
                let p = scaled@[ty - o][tx - o];
                assert(p.a == 255 ==> t == p);
                assert(p.a == 0 ==> t == white);
            } else {
                assert(t == white);
            }
            assert(t.a == 255 ==> out@[py][px] == t);
        }
    }
    out
}

/// Lays `logo` over the centre of `qr`: the logo is scaled to a fifth of the
/// shorter side, set on a white square 1.2 times as large, and the square is
/// laid over the middle of the image. No check is made that the code still
/// scans. When the logo side rounds down to zero the image is returned as it
/// was. What holds is stated for some scaled logo of the right size, since
/// the scaling itself is not pinned down.
pub fn embed_logo(qr: Raster, logo: &Raster) -> (r: Raster)
    requires
        qr.wf(),
        logo.wf(),
    ensures
        r.wf(),
        r.spec_width() == qr.spec_width(),
        r.spec_height() == qr.spec_height(),
        qr.spec_width() < 5 || qr.spec_height() < 5 ==> r@ == qr@,
        ({
            let l = layout_of(qr.spec_width() as int, qr.spec_height() as int);
            if l.logo_side == 0 {
                r@ == qr@
            } else {
                &&& forall|px: int, py: int|
                    0 <= px < qr.spec_width() && 0 <= py < qr.spec_height() && !in_square(l, px, py)
                        ==> #[trigger] r@[py][px] == qr@[py][px]
                &&& forall|px: int, py: int|
                    in_square(l, px, py) && !in_logo_area(l, px, py) ==> #[trigger] r@[py][px]
                        == Rgba::opaque(255, 255, 255)
                &&& exists|s: Seq<Seq<Rgba>>|
                    is_rect(s, l.logo_side as nat, l.logo_side as nat) && #[trigger] logo_placed(
                        qr@,
                        qr.spec_width() as int,
                        qr.spec_height() as int,
                        s,
                        l,
                        r@,
                    )
            }
        }),
{
    let l = logo_layout(qr.width(), qr.height());
    if l.logo_side == 0 {
        return qr;
    }
    let ghost q = qr@;
    let ghost w = qr.spec_width() as int;
    let ghost h = qr.spec_height() as int;
    let scaled = resize_square(logo, l.logo_side);
    let out = embed_scaled_logo(qr, &scaled);
    proof {
        assert(is_rect(scaled@, l.logo_side as nat, l.logo_side as nat));
        assert(logo_placed(q, w, h, scaled@, l, out@));
        assert forall|px: int, py: int|
            in_square(l, px, py) && !in_logo_area(l, px, py) implies #[trigger] out@[py][px]
                == Rgba::opaque(255, 255, 255) by {
            assert(in_tile(scaled@, l, px - l.pad_x, py - l.pad_y) == Some(Rgba::opaque(255, 255, 255)));
        }
    }
    out
}

} // verus!
