use vstd::prelude::*;
use crate::text::{same_text, upper_of, uppercase};
use crate::error::QrgenError;

verus! {

/// Side of the largest QR symbol (version 40), in modules.
pub const MAX_SYMBOL_WIDTH: usize = 177;

/// QR error-correction level.
#[derive(Clone, Copy, Debug, PartialEq, Eq, Structural)]
pub enum EcLevel {
    L,
    M,
    Q,
    H,
}

pub open spec fn ec_level_of(s: Seq<char>) -> Option<EcLevel> {
    if upper_of(s) == "L"@ {
        Some(EcLevel::L)
    } else if upper_of(s) == "M"@ {
        Some(EcLevel::M)
    } else if upper_of(s) == "Q"@ {
        Some(EcLevel::Q)
    } else if upper_of(s) == "H"@ {
        Some(EcLevel::H)
    } else {
        None
    }
}

/// Reads an error-correction level: a token whose upper case (as
/// `str::to_uppercase` gives it) is L, M, Q or H.
pub fn parse_error_correction(s: &str) -> (r: Result<EcLevel, QrgenError>)
    ensures
        match ec_level_of(s@) {
            Some(l) => r == Ok::<EcLevel, QrgenError>(l),
            None => r is Err && r->Err_0 is InvalidErrorCorrection
                && r->Err_0->InvalidErrorCorrection_0@ == s@,
        },
{
    let upper = uppercase(s);
    if same_text(upper.as_str(), "L") {
        Ok(EcLevel::L)
    } else if same_text(upper.as_str(), "M") {
        Ok(EcLevel::M)
    } else if same_text(upper.as_str(), "Q") {
        Ok(EcLevel::Q)
    } else if same_text(upper.as_str(), "H") {
        Ok(EcLevel::H)
    } else {
        Err(QrgenError::InvalidErrorCorrection(String::from_str(s)))
    }
}

/// A square grid of modules, `true` for dark, stored row by row.
pub struct ModuleGrid {
    width: usize,
    dark: Vec<bool>,
}

impl ModuleGrid {
    pub closed spec fn spec_width(&self) -> nat {
        self.width as nat
    }

    pub closed spec fn modules(&self) -> Seq<bool> {
        self.dark@
    }

    pub open spec fn wf(&self) -> bool {
        &&& self.spec_width() <= MAX_SYMBOL_WIDTH
        &&& self.modules().len() == self.spec_width() * self.spec_width()
    }

    /// Whether the module in column `x` and row `y` is dark.
    pub open spec fn is_dark(&self, x: int, y: int) -> bool {
        self.modules()[y * self.spec_width() + x]
    }

    /// A grid of side `width` from its modules, row by row; `None` unless
    /// there are `width * width` of them and `width` is at most 177.
    pub fn new(width: usize, dark: Vec<bool>) -> (r: Option<ModuleGrid>)
        ensures
            r is Some <==> width <= MAX_SYMBOL_WIDTH && dark@.len() == width * width,
            r is Some ==> r->0.wf() && r->0.spec_width() == width && r->0.modules() == dark@,
    {
        if width > MAX_SYMBOL_WIDTH {
            return None;
        }
        assert(width * width <= MAX_SYMBOL_WIDTH * MAX_SYMBOL_WIDTH) by (nonlinear_arith)
            requires
                width <= MAX_SYMBOL_WIDTH,
        ;
        if dark.len() == width * width {
            Some(ModuleGrid { width, dark })
        } else {
            None
        }
    }

    pub fn width(&self) -> (r: usize)
        ensures
            r == self.spec_width(),
    {
        self.width
    }

    /// Whether the module in column `x` and row `y` is dark.
    pub fn module(&self, x: usize, y: usize) -> (r: bool)
        requires
            self.wf(),
            x < self.spec_width(),
            y < self.spec_width(),
        ensures
            r == self.is_dark(x as int, y as int),
    {
        proof {
            let w = self.width as int;
            assert(y * w + x < w * w && 0 <= y * w && w * w <= 177 * 177) by (nonlinear_arith)
                requires
                    0 <= x < w,
                    0 <= y < w,
                    w <= 177,
            ;
            assert(self.dark@.len() == w * w);
        }
        self.dark[y * self.width + x]
    }
}

#[verifier::external_type_specification]
#[verifier::external_body]
pub struct ExQrError(qrcode::types::QrError);

/// Name for the symbol that qrcode's encoder builds for a text at a level:
/// its width and its modules row by row, or `None` where it refuses the text.
pub uninterp spec fn qr_symbol(text: Seq<char>, level: EcLevel) -> Option<(nat, Seq<bool>)>;

/// Relies on `qrcode::QrCode::with_error_correction_level`, read back through
/// `QrCode::width` and `QrCode::to_colors`: the symbol depends on the text
/// and the level alone, is a normal QR symbol of version 1 to 40 (so 21 to
/// 177 modules wide), and holds `width * width` modules row by row. The empty
/// text needs no data bits, so `find_min_version` gives it version 1 (21
/// modules wide) at every level.
#[verifier::external_body]
fn encode_symbol(text: &str, level: EcLevel) -> (r: Result<ModuleGrid, qrcode::types::QrError>)
    ensures
        match r {
            Ok(g) => g.wf() && 21 <= g.spec_width() && qr_symbol(text@, level) == Some(
                (g.spec_width(), g.modules()),
            ),
            Err(_) => qr_symbol(text@, level) is None,
        },
        text@.len() == 0 ==> r is Ok && r->Ok_0.spec_width() == 21,
{
    let level = match level {
        EcLevel::L => qrcode::EcLevel::L,
        EcLevel::M => qrcode::EcLevel::M,
        EcLevel::Q => qrcode::EcLevel::Q,
        EcLevel::H => qrcode::EcLevel::H,
    };
    let code = qrcode::QrCode::with_error_correction_level(text, level)?;
    let dark = code.to_colors().into_iter().map(|c| c == qrcode::Color::Dark).collect();
    Ok(ModuleGrid { width: code.width(), dark })
}

/// Encodes `text` at `level` into its module grid.
pub fn encode(text: &str, level: EcLevel) -> (r: Result<ModuleGrid, QrgenError>)
    ensures
        match qr_symbol(text@, level) {
            None => r is Err && r->Err_0 is EncodingFailure && r->Err_0->EncodingFailure_0@
                == text@,
            Some((w, d)) => r is Ok && r->Ok_0.wf() && r->Ok_0.spec_width() == w
                && r->Ok_0.modules() == d && 21 <= w,
        },
        text@.len() == 0 ==> r is Ok && r->Ok_0.spec_width() == 21,
{
    match encode_symbol(text, level) {
        Ok(g) => Ok(g),
        Err(_) => Err(QrgenError::EncodingFailure(String::from_str(text))),
    }
}

/// The character at column `cx` of line `cy` of a drawing with a quiet zone
/// of `quiet` modules: a full block where it falls in a dark module, each
/// module being two characters wide and one line high, else a space.
pub open spec fn drawn_char(modules: Seq<bool>, width: int, quiet: int, cx: int, cy: int) -> char {
    let mx = cx / 2 - quiet;
    let my = cy - quiet;
    if 0 <= mx < width && 0 <= my < width && modules[my * width + mx] {
        '\u{2588}'
    } else {
        ' '
    }
}

/// A grid drawn as text: `width + 2 * quiet` lines of `2 * (width + 2 * quiet)`
/// characters each, joined by newlines, with no newline at the end.
pub open spec fn text_drawing(modules: Seq<bool>, width: int, quiet: int) -> Seq<char> {
    let side = width + 2 * quiet;
    let line = 2 * side;
    if side <= 0 {
        Seq::empty()
    } else {
        Seq::new(
            (side * (line + 1) - 1) as nat,
            |i: int|
                if i % (line + 1) == line {
                    '\n'
                } else {
                    drawn_char(modules, width, quiet, i % (line + 1), i / (line + 1))
                },
        )
    }
}

/// Relies on `qrcode::render::Renderer::<char>`, built with a four-module
/// quiet zone (the one `QrCode::render` uses for normal symbols) and modules
/// of two by one characters: `build` fills a canvas of that many lines and
/// characters with `'\u{2588}'` for dark modules and `' '` elsewhere, and
/// joins its lines with `'\n'`. `Renderer::new` panics unless there are
/// `width * width` modules, which `wf` ensures; the canvas panics on an empty
/// drawing, which a zero width without quiet zone would give.
#[verifier::external_body]
fn draw_text(grid: &ModuleGrid, quiet_zone: bool) -> (r: String)
    requires
        grid.wf(),
        quiet_zone || grid.spec_width() > 0,
    ensures
        r@ == text_drawing(
            grid.modules(),
            grid.spec_width() as int,
            if quiet_zone {
                4
            } else {
                0
            },
        ),
{
    let colors: Vec<qrcode::Color> = grid.dark.iter().map(
        |&d| if d { qrcode::Color::Dark } else { qrcode::Color::Light },
    ).collect();
    qrcode::render::Renderer::<char>::new(&colors, grid.width, 4)
        .quiet_zone(quiet_zone)
        .module_dimensions(2, 1)
        .build()
}

/// Draws a grid as text, each module two characters wide and one line high,
/// with a quiet zone of four modules when `quiet_zone` is set.
pub fn render_terminal(grid: &ModuleGrid, quiet_zone: bool) -> (r: String)
    requires
        grid.wf(),
        quiet_zone || grid.spec_width() > 0,
    ensures
        r@ == text_drawing(
            grid.modules(),
            grid.spec_width() as int,
            if quiet_zone {
                4
            } else {
                0
            },
        ),
{
    draw_text(grid, quiet_zone)
}

/// Encodes `data` at `level` and draws it as text with a quiet zone.
pub fn terminal_text(data: &str, level: EcLevel) -> (r: Result<String, QrgenError>)
    ensures
        match qr_symbol(data@, level) {
            None => r is Err && r->Err_0 is EncodingFailure && r->Err_0->EncodingFailure_0@
                == data@,
            Some((w, d)) => r is Ok && r->Ok_0@ == text_drawing(d, w as int, 4),
        },
{
    let grid = encode(data, level)?;
    Ok(render_terminal(&grid, true))
}

} // verus!
