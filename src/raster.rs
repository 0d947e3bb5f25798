use vstd::prelude::*;
use crate::color::Rgba;
use crate::error::QrgenError;
use vstd::arithmetic::div_mod::{lemma_fundamental_div_mod, lemma_fundamental_div_mod_converse, lemma_mod_pos_bound};
use crate::grid::{encode, qr_symbol, EcLevel, ModuleGrid, MAX_SYMBOL_WIDTH};

verus! {

/// An image of `width` by `height` RGBA pixels, held row by row.
pub struct Raster {
    pub(crate) width: u32,
    pub(crate) height: u32,
    pub(crate) rows: Vec<Vec<Rgba>>,
}

impl View for Raster {
    type V = Seq<Seq<Rgba>>;

    closed spec fn view(&self) -> Seq<Seq<Rgba>> {
        self.rows@.map_values(|r: Vec<Rgba>| r@)
    }
}

/// `height` rows of `width` pixels, all of color `c`.
pub open spec fn solid(width: nat, height: nat, c: Rgba) -> Seq<Seq<Rgba>> {
    Seq::new(height, |y: int| Seq::new(width, |x: int| c))
}

/// Rows of `height` pixels each `width` long.
pub open spec fn is_rect(p: Seq<Seq<Rgba>>, width: nat, height: nat) -> bool {
    &&& p.len() == height
    &&& forall|y: int| 0 <= y < height ==> (#[trigger] p[y]).len() == width
}

impl Raster {
    pub closed spec fn spec_width(&self) -> nat {
        self.width as nat
    }

    pub closed spec fn spec_height(&self) -> nat {
        self.height as nat
    }

    pub open spec fn wf(&self) -> bool {
        is_rect(self@, self.spec_width(), self.spec_height())
    }

    pub fn width(&self) -> (r: u32)
        ensures
            r == self.spec_width(),
    {
        self.width
    }

    pub fn height(&self) -> (r: u32)
        ensures
            r == self.spec_height(),
    {
        self.height
    }

    /// The pixel in column `x` and row `y`.
    pub fn pixel(&self, x: u32, y: u32) -> (r: Rgba)
        requires
            self.wf(),
            x < self.spec_width(),
            y < self.spec_height(),
        ensures
            r == self@[y as int][x as int],
    {
        assert(self@[y as int] == self.rows@[y as int]@);
        self.rows[y as usize][x as usize]
    }

    /// An image of `width` by `height` pixels, all of color `c`.
    pub fn filled(width: u32, height: u32, c: Rgba) -> (r: Raster)
        ensures
            r.wf(),
            r.spec_width() == width,
            r.spec_height() == height,
            r@ == solid(width as nat, height as nat, c),
    {
        let mut rows: Vec<Vec<Rgba>> = Vec::new();
        let mut y: u32 = 0;
        while y < height
            invariant
                y <= height,
                rows@.len() == y,
                forall|i: int| 0 <= i < y ==> (#[trigger] rows@[i])@.len() == width,
                forall|i: int, j: int| 0 <= i < y && 0 <= j < width ==> rows@[i]@[j] == c,
            decreases height - y,
        {
            let mut row: Vec<Rgba> = Vec::new();
            let mut x: u32 = 0;
            while x < width
                invariant
                    x <= width,
                    row@.len() == x,
                    forall|j: int| 0 <= j < x ==> row@[j] == c,
                decreases width - x,
            {
                row.push(c);
                x = x + 1;
            }
            rows.push(row);
            y = y + 1;
        }
        let r = Raster { width, height, rows };
        assert forall|i: int| 0 <= i < height implies (#[trigger] r@[i]).len() == width by {
            assert(r@[i] == rows@[i]@);
        }
        assert(r@ =~= solid(width as nat, height as nat, c)) by {
            assert forall|y: int| 0 <= y < height implies r@[y] =~= solid(
                width as nat,
                height as nat,
                c,
            )[y] by {
                assert(r@[y] == rows@[y]@);
            }
        }
        r
    }

    /// An image from its rows; `None` unless every row has the length of the
    /// first and the sizes fit in a `u32`.
    pub fn from_rows(rows: Vec<Vec<Rgba>>) -> (r: Option<Raster>)
        ensures
            r is Some <==> rows@.len() <= u32::MAX && (rows@.len() == 0 || (rows@[0]@.len()
                <= u32::MAX && forall|i: int|
                0 <= i < rows@.len() ==> (#[trigger] rows@[i])@.len() == rows@[0]@.len())),
            r is Some ==> r->0.wf() && r->0@ == rows@.map_values(|v: Vec<Rgba>| v@),
    {
        if rows.len() > u32::MAX as usize {
            return None;
        }
        if rows.len() == 0 {
            return Some(Raster { width: 0, height: 0, rows });
        }
        let w = rows[0].len();
        if w > u32::MAX as usize {
            return None;
        }
        let mut i: usize = 0;
        while i < rows.len()
            invariant
                0 <= i <= rows@.len(),
                w == rows@[0]@.len(),
                forall|j: int| 0 <= j < i ==> (#[trigger] rows@[j])@.len() == w,
            decreases rows@.len() - i,
        {
            if rows[i].len() != w {
                return None;
            }
            i = i + 1;
        }
        let r = Raster { width: w as u32, height: rows.len() as u32, rows };
        assert forall|y: int| 0 <= y < r.spec_height() implies (#[trigger] r@[y]).len()
            == r.spec_width() by {
            assert(r@[y] == r.rows@[y]@);
        }
        Some(r)
    }
}

/// Side of the image that a grid of side `width` makes, in pixels.
pub open spec fn image_side(width: int, border: int, module_size: int) -> int {
    (width + 2 * border) * module_size
}

/// The module that pixel coordinate `p` falls in, counted from the grid's
/// first module (negative or past the grid inside the border).
pub open spec fn module_index(p: int, module_size: int, border: int) -> int {
    p / module_size - border
}

/// The color of pixel (`x`, `y`) of a rasterized grid: `fill` where the pixel
/// lies in the block of a dark module, `back` elsewhere.
pub open spec fn raster_pixel(
    width: int,
    modules: Seq<bool>,
    module_size: int,
    border: int,
    fill: Rgba,
    back: Rgba,
    x: int,
    y: int,
) -> Rgba {
    let mx = module_index(x, module_size, border);
    let my = module_index(y, module_size, border);
    if module_size > 0 && 0 <= mx < width && 0 <= my < width && modules[my * width + mx] {
        fill
    } else {
        back
    }
}

/// The image of a grid: square, `image_side` pixels on a side.
pub open spec fn raster_of(
    width: int,
    modules: Seq<bool>,
    module_size: int,
    border: int,
    fill: Rgba,
    back: Rgba,
) -> Seq<Seq<Rgba>> {
    let side = image_side(width, border, module_size);
    Seq::new(
        side as nat,
        |y: int|
            Seq::new(
                side as nat,
                |x: int| raster_pixel(width, modules, module_size, border, fill, back, x, y),
            ),
    )
}

/// With the grid and the border fixed, a larger module size gives a larger image.
pub proof fn larger_modules_larger_image(width: int, border: int, size1: int, size2: int)
    requires
        width >= 1,
        border >= 0,
        0 <= size1 < size2,
    ensures
        image_side(width, border, size1) < image_side(width, border, size2),
{
    assert((width + 2 * border) * size1 < (width + 2 * border) * size2) by (nonlinear_arith)
        requires
            width + 2 * border >= 1,
            size1 < size2,
    ;
}

/// With the grid and a module size of at least one pixel fixed, a wider
/// border gives a larger image.
pub proof fn wider_border_larger_image(width: int, border1: int, border2: int, size: int)
    requires
        width >= 0,
        0 <= border1 < border2,
        size >= 1,
    ensures
        image_side(width, border1, size) < image_side(width, border2, size),
{
    assert((width + 2 * border1) * size < (width + 2 * border2) * size) by (nonlinear_arith)
        requires
            width + 2 * border1 < width + 2 * border2,
            size >= 1,
    ;
}

/// Whether pixel (`x`, `y`) lies in the `size`-pixel block of some dark
/// module, the grid being drawn `border` modules in from the edges.
pub open spec fn in_dark_block(
    width: int,
    modules: Seq<bool>,
    size: int,
    border: int,
    x: int,
    y: int,
) -> bool {
    exists|mx: int, my: int|
        0 <= mx < width && 0 <= my < width && #[trigger] modules[my * width + mx] && (mx + border)
            * size <= x < (mx + border + 1) * size && (my + border) * size <= y < (my + border + 1)
            * size
}

proof fn lemma_block_of(p: int, size: int, q: int)
    requires
        size >= 1,
        q * size <= p < (q + 1) * size,
    ensures
        p / size == q,
{
    assert((q + 1) * size == q * size + size) by (nonlinear_arith);
    lemma_fundamental_div_mod_converse(p, size, q, p - q * size);
}

proof fn lemma_block_bounds(p: int, size: int)
    requires
        size >= 1,
        p >= 0,
    ensures
        (p / size) * size <= p < (p / size + 1) * size,
{
    lemma_fundamental_div_mod(p, size);
    lemma_mod_pos_bound(p, size);
    assert((p / size + 1) * size == (p / size) * size + size) by (nonlinear_arith);
    assert(size * (p / size) == (p / size) * size) by (nonlinear_arith);
}

/// Every pixel of the block of a dark module is the fill color.
pub proof fn dark_block_is_fill(
    width: int,
    modules: Seq<bool>,
    size: int,
    border: int,
    fill: Rgba,
    back: Rgba,
    mx: int,
    my: int,
    dx: int,
    dy: int,
)
    requires
        size >= 1,
        border >= 0,
        0 <= mx < width,
        0 <= my < width,
        modules[my * width + mx],
        0 <= dx < size,
        0 <= dy < size,
    ensures
        raster_of(width, modules, size, border, fill, back)[(my + border) * size + dy][(mx
            + border) * size + dx] == fill,
{
    let x = (mx + border) * size + dx;
    let y = (my + border) * size + dy;
    assert((mx + border + 1) * size == (mx + border) * size + size) by (nonlinear_arith);
    assert((my + border + 1) * size == (my + border) * size + size) by (nonlinear_arith);
    lemma_block_of(x, size, mx + border);
    lemma_block_of(y, size, my + border);
    assert(x < (width + 2 * border) * size && y < (width + 2 * border) * size) by (nonlinear_arith)
        requires
            x < (mx + border) * size + size,
            y < (my + border) * size + size,
            mx + border + 1 <= width + 2 * border,
            my + border + 1 <= width + 2 * border,
            size >= 1,
            x == (mx + border) * size + dx,
            y == (my + border) * size + dy,
    ;
    assert(0 <= x && 0 <= y) by (nonlinear_arith)
        requires
            mx + border >= 0,
            my + border >= 0,
            size >= 1,
            dx >= 0,
            dy >= 0,
            x == (mx + border) * size + dx,
            y == (my + border) * size + dy,
    ;
}

/// Every pixel of the image outside the blocks of the dark modules is the
/// background color.
pub proof fn elsewhere_is_back(
    width: int,
    modules: Seq<bool>,
    size: int,
    border: int,
    fill: Rgba,
    back: Rgba,
    x: int,
    y: int,
)
    requires
        size >= 1,
        border >= 0,
        0 <= x < image_side(width, border, size),
        0 <= y < image_side(width, border, size),
        !in_dark_block(width, modules, size, border, x, y),
    ensures
        raster_of(width, modules, size, border, fill, back)[y][x] == back,
{
    let mx = module_index(x, size, border);
    let my = module_index(y, size, border);
    if 0 <= mx < width && 0 <= my < width && modules[my * width + mx] {
        lemma_block_bounds(x, size);
        lemma_block_bounds(y, size);
        assert(in_dark_block(width, modules, size, border, x, y));
    }
}

fn pixel_color(
    grid: &ModuleGrid,
    module_size: u32,
    border: u32,
    fill: Rgba,
    back: Rgba,
    x: u32,
    y: u32,
) -> (r: Rgba)
    requires
        grid.wf(),
        module_size > 0,
    ensures
        r == raster_pixel(
            grid.spec_width() as int,
            grid.modules(),
            module_size as int,
            border as int,
            fill,
            back,
            x as int,
            y as int,
        ),
{
    let qx = x / module_size;
    let qy = y / module_size;
    let w = grid.width();
    if qx < border || qy < border {
        return back;
    }
    let mx = (qx - border) as usize;
    let my = (qy - border) as usize;
    if mx < w && my < w && grid.module(mx, my) {
        fill
    } else {
        back
    }
}

/// Draws a grid: an image of side `(width + 2 * border) * module_size`,
/// every pixel `back` but the `module_size`-pixel block of each dark module,
/// which is `fill`; the grid starts `border` modules in from each edge.
/// Fails with `ImageTooLarge` when the side does not fit in a `u32`.
pub fn rasterize(grid: &ModuleGrid, module_size: u32, border: u32, fill: Rgba, back: Rgba) -> (r:
    Result<Raster, QrgenError>)
    requires
        grid.wf(),
    ensures
        image_side(grid.spec_width() as int, border as int, module_size as int) > u32::MAX
            ==> r == Err::<Raster, QrgenError>(QrgenError::ImageTooLarge(module_size, border)),
        image_side(grid.spec_width() as int, border as int, module_size as int) <= u32::MAX
            ==> r is Ok,
        r is Ok ==> ({
            let img = r->Ok_0;
            let side = image_side(grid.spec_width() as int, border as int, module_size as int);
            &&& img.wf()
            &&& img.spec_width() == side
            &&& img.spec_height() == side
            &&& img@ == raster_of(
                grid.spec_width() as int,
                grid.modules(),
                module_size as int,
                border as int,
                fill,
                back,
            )
        }),
{
    let w = grid.width() as u64;
    let span = w + 2 * (border as u64);
    if module_size > 0 && span > u32::MAX as u64 {
        assert(span * module_size >= span) by (nonlinear_arith)
            requires
                module_size >= 1,
                span >= 0,
        ;
        return Err(QrgenError::ImageTooLarge(module_size, border));
    }
    assert(span * module_size <= u32::MAX * u32::MAX) by (nonlinear_arith)
        requires
            module_size == 0 || span <= u32::MAX,
            module_size <= u32::MAX,
    ;
    let side64 = span * (module_size as u64);
    if side64 > u32::MAX as u64 {
        return Err(QrgenError::ImageTooLarge(module_size, border));
    }
    let side = side64 as u32;
    assert(side > 0 ==> module_size > 0) by (nonlinear_arith)
        requires
            side == span * module_size,
    ;
    let ghost gw = grid.spec_width() as int;
    let ghost expected = raster_of(gw, grid.modules(), module_size as int, border as int, fill, back);
    let mut rows: Vec<Vec<Rgba>> = Vec::new();
    let mut y: u32 = 0;
    while y < side
        invariant
            y <= side,
            side == image_side(gw, border as int, module_size as int),
            expected.len() == side,
            expected == raster_of(gw, grid.modules(), module_size as int, border as int, fill, back),
            side > 0 ==> module_size > 0,
            grid.wf(),
            gw == grid.spec_width(),
            rows@.len() == y,
            forall|i: int| 0 <= i < y ==> (#[trigger] rows@[i])@ == expected[i],
        decreases side - y,
    {
        let mut row: Vec<Rgba> = Vec::new();
        let mut x: u32 = 0;
        while x < side
            invariant
                x <= side,
                y < side,
                module_size > 0,
                side == image_side(gw, border as int, module_size as int),
                grid.wf(),
                gw == grid.spec_width(),
                row@.len() == x,
                forall|j: int|
                    0 <= j < x ==> row@[j] == raster_pixel(
                        gw,
                        grid.modules(),
                        module_size as int,
                        border as int,
                        fill,
                        back,
                        j,
                        y as int,
                    ),
            decreases side - x,
        {
            row.push(pixel_color(grid, module_size, border, fill, back, x, y));
            x = x + 1;
        }
        assert(row@ =~= expected[y as int]) by {
            assert(expected[y as int].len() == side);
            assert forall|j: int| 0 <= j < side implies row@[j] == expected[y as int][j] by {}
        }
        rows.push(row);
        y = y + 1;
    }
    let img = Raster { width: side, height: side, rows };
    assert(img@ =~= expected) by {
        assert forall|i: int| 0 <= i < side implies img@[i] == expected[i] by {
            assert(img@[i] == rows@[i]@);
        }
    }
    Ok(img)
}

/// Encodes `data` at `error_correction` and draws the symbol as `rasterize`
/// does. The empty text gives the smallest symbol, 21 modules wide.
pub fn create_qr_code(
    data: &str,
    error_correction: EcLevel,
    size: u32,
    border: u32,
    fill_color: Rgba,
    back_color: Rgba,
) -> (r: Result<Raster, QrgenError>)
    ensures
        match qr_symbol(data@, error_correction) {
            None => r is Err && r->Err_0 is EncodingFailure && r->Err_0->EncodingFailure_0@
                == data@,
            Some((w, d)) => if image_side(w as int, border as int, size as int) > u32::MAX {
                r == Err::<Raster, QrgenError>(QrgenError::ImageTooLarge(size, border))
            } else {
                &&& r is Ok
                &&& r->Ok_0.wf()
                &&& r->Ok_0.spec_width() == image_side(w as int, border as int, size as int)
                &&& r->Ok_0.spec_height() == image_side(w as int, border as int, size as int)
                &&& size >= 1 ==> r->Ok_0.spec_width() >= 21 * size
                &&& r->Ok_0@ == raster_of(
                    w as int,
                    d,
                    size as int,
                    border as int,
                    fill_color,
                    back_color,
                )
            },
        },
        data@.len() == 0 && size >= 1 && image_side(21, border as int, size as int) <= u32::MAX
            ==> r is Ok && r->Ok_0.spec_width() == image_side(21, border as int, size as int)
            && r->Ok_0.spec_height() == image_side(21, border as int, size as int)
            && r->Ok_0.spec_width() > 0,
{
    let grid = match encode(data, error_correction) {
        Ok(g) => g,
        Err(e) => return Err(e),
    };
    proof {
        let w = grid.spec_width() as int;
        assert(size >= 1 ==> image_side(w, border as int, size as int) >= 21 * size) by (
        nonlinear_arith)
            requires
                w >= 21,
                border >= 0,
        ;
    }
    rasterize(&grid, size, border, fill_color, back_color)
}

} // verus!
