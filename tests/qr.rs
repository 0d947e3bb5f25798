use qrgen::{
    create_qr_code, embed_logo, embed_scaled_logo, encode, logo_layout, rasterize, render_terminal, terminal_text,
    EcLevel, LogoLayout, ModuleGrid, QrgenError, Raster, Rgba,
};

const BLACK: Rgba = Rgba { r: 0, g: 0, b: 0, a: 255 };
const WHITE: Rgba = Rgba { r: 255, g: 255, b: 255, a: 255 };

#[test]
fn test_create_qr_code_basic() {
    let img = create_qr_code("test", EcLevel::M, 10, 4, BLACK, WHITE);
    assert!(img.is_ok());
    let img = img.unwrap();
    assert!(img.width() > 0);
    assert!(img.height() > 0);
}

#[test]
fn test_create_qr_code_url() {
    let img = create_qr_code("https://example.com", EcLevel::M, 10, 4, BLACK, WHITE);
    assert!(img.is_ok());
}

#[test]
fn test_create_qr_code_custom_size() {
    let img = create_qr_code("test", EcLevel::M, 20, 4, BLACK, WHITE).unwrap();
    let img_small = create_qr_code("test", EcLevel::M, 10, 4, BLACK, WHITE).unwrap();
    assert!(img.width() > img_small.width());
}

#[test]
fn test_create_qr_code_custom_border() {
    let img = create_qr_code("test", EcLevel::M, 10, 10, BLACK, WHITE).unwrap();
    let img_small_border = create_qr_code("test", EcLevel::M, 10, 4, BLACK, WHITE).unwrap();
    assert!(img.width() > img_small_border.width());
}

#[test]
fn test_create_qr_code_all_error_levels() {
    for level in [EcLevel::L, EcLevel::M, EcLevel::Q, EcLevel::H] {
        let img = create_qr_code("test", level, 10, 4, BLACK, WHITE);
        assert!(img.is_ok());
    }
}

#[test]
fn test_create_qr_code_custom_colors() {
    let img = create_qr_code(
        "test",
        EcLevel::M,
        10,
        4,
        Rgba { r: 0, g: 0, b: 255, a: 255 },
        Rgba { r: 255, g: 255, b: 0, a: 255 },
    );
    assert!(img.is_ok());
}

#[test]
fn test_create_qr_code_empty_string() {
    let img = create_qr_code("", EcLevel::M, 10, 4, BLACK, WHITE);
    assert!(img.is_ok());
}

#[test]
fn test_create_qr_code_long_text() {
    let long_text = "A".repeat(1000);
    let img = create_qr_code(&long_text, EcLevel::M, 10, 4, BLACK, WHITE);
    assert!(img.is_ok());
}

#[test]
fn test_create_qr_code_special_characters() {
    let img = create_qr_code("Hello! @#$%^&*() ä½ å¥½ ðŸŽ‰", EcLevel::M, 10, 4, BLACK, WHITE);
    assert!(img.is_ok());
}

#[test]
fn test_print_terminal() {
    let result = terminal_text("test", EcLevel::M);
    assert!(result.is_ok());
}

fn two_by_two() -> ModuleGrid {
    ModuleGrid::new(2, vec![true, false, false, true]).unwrap()
}

#[test]
fn image_side_is_exact() {
    let img = create_qr_code("test", EcLevel::M, 10, 4, BLACK, WHITE).unwrap();
    let grid = encode("test", EcLevel::M).unwrap();
    assert_eq!(grid.width(), 21);
    assert_eq!(img.width(), (21 + 2 * 4) * 10);
    assert_eq!(img.height(), 290);
    let img = rasterize(&two_by_two(), 3, 1, BLACK, WHITE).unwrap();
    assert_eq!((img.width(), img.height()), (12, 12));
}

#[test]
fn image_grows_with_module_size_and_border() {
    let g = two_by_two();
    let w = |size: u32, border: u32| rasterize(&g, size, border, BLACK, WHITE).unwrap().width();
    assert!(w(1, 0) < w(2, 0));
    assert!(w(5, 2) < w(6, 2));
    assert!(w(3, 0) < w(3, 1));
    assert!(w(3, 4) < w(3, 10));
}

#[test]
fn dark_blocks_are_fill_and_the_rest_is_background() {
    let fill = Rgba { r: 1, g: 2, b: 3, a: 255 };
    let back = Rgba { r: 9, g: 8, b: 7, a: 255 };
    let img = rasterize(&two_by_two(), 3, 1, fill, back).unwrap();
    for y in 0..12u32 {
        for x in 0..12u32 {
            let dark = (3..6).contains(&x) && (3..6).contains(&y) || (6..9).contains(&x) && (6..9).contains(&y);
            assert_eq!(img.pixel(x, y), if dark { fill } else { back }, "pixel {} {}", x, y);
        }
    }
}

#[test]
fn empty_payload_gives_a_smallest_symbol() {
    let grid = encode("", EcLevel::M).unwrap();
    assert_eq!(grid.width(), 21);
    let img = create_qr_code("", EcLevel::M, 10, 4, BLACK, WHITE).unwrap();
    assert_eq!(img.width(), 290);
    assert_eq!(img.pixel(0, 0), WHITE);
    assert_eq!(img.pixel(40, 40), BLACK);
}

#[test]
fn zero_module_size_gives_an_empty_image() {
    let img = create_qr_code("x", EcLevel::L, 0, 4, BLACK, WHITE).unwrap();
    assert_eq!((img.width(), img.height()), (0, 0));
}

#[test]
fn oversized_image_is_refused() {
    let r = create_qr_code("x", EcLevel::L, u32::MAX, 4, BLACK, WHITE);
    assert!(matches!(r, Err(QrgenError::ImageTooLarge(s, 4)) if s == u32::MAX));
    let r = rasterize(&two_by_two(), 2, u32::MAX, BLACK, WHITE);
    assert!(matches!(r, Err(QrgenError::ImageTooLarge(2, b)) if b == u32::MAX));
}

#[test]
fn too_long_payload_fails_to_encode() {
    let text = "A".repeat(5000);
    assert_eq!(
        create_qr_code(&text, EcLevel::H, 1, 0, BLACK, WHITE).err(),
        Some(QrgenError::EncodingFailure(text.clone()))
    );
    assert_eq!(terminal_text(&text, EcLevel::H), Err(QrgenError::EncodingFailure(text.clone())));
}

#[test]
fn grid_constructor_checks_shape() {
    assert!(ModuleGrid::new(2, vec![true; 3]).is_none());
    assert!(ModuleGrid::new(178, vec![false; 178 * 178]).is_none());
    let g = two_by_two();
    assert!(g.module(0, 0) && !g.module(1, 0) && g.module(1, 1));
}

#[test]
fn terminal_drawing_uses_blocks() {
    let text = terminal_text("test", EcLevel::M).unwrap();
    assert!(text.contains('\u{2588}'));
    let lines: Vec<&str> = text.lines().collect();
    assert_eq!(lines.len(), 21 + 8);
    assert_eq!(lines[0].chars().count(), (21 + 8) * 2);
    let bare = render_terminal(&two_by_two(), false);
    assert_eq!(bare, "\u{2588}\u{2588}  \n  \u{2588}\u{2588}");
    let framed = render_terminal(&two_by_two(), true);
    let blank = " ".repeat(20);
    let row_a = format!("{}\u{2588}\u{2588}{}", " ".repeat(8), " ".repeat(10));
    let row_b = format!("{}\u{2588}\u{2588}{}", " ".repeat(10), " ".repeat(8));
    let mut expected: Vec<String> = vec![blank.clone(); 10];
    expected[4] = row_a;
    expected[5] = row_b;
    assert_eq!(framed, expected.join("\n"));
    let empty = ModuleGrid::new(0, vec![]).unwrap();
    assert_eq!(render_terminal(&empty, true), vec![" ".repeat(16); 8].join("\n"));
}

#[test]
fn logo_layout_is_exact() {
    assert_eq!(
        logo_layout(290, 290),
        LogoLayout { logo_side: 58, pad_side: 70, logo_offset: 6, pad_x: 110, pad_y: 110 }
    );
    assert_eq!(
        logo_layout(100, 60),
        LogoLayout { logo_side: 12, pad_side: 14, logo_offset: 1, pad_x: 43, pad_y: 23 }
    );
    assert_eq!(logo_layout(15, 15).pad_side, 4);
    assert_eq!(logo_layout(4, 100).logo_side, 0);
}

fn solid(w: u32, h: u32, c: Rgba) -> Raster {
    Raster::filled(w, h, c)
}

#[test]
fn logo_is_laid_over_the_centre() {
    let red = Rgba { r: 255, g: 0, b: 0, a: 255 };
    let qr = solid(100, 100, BLACK);
    let logo = solid(7, 3, red);
    let out = embed_logo(qr, &logo);
    assert_eq!((out.width(), out.height()), (100, 100));
    // layout: logo 20, white square 24 at 38, logo at 40..60
    assert_eq!(out.pixel(37, 37), BLACK);
    assert_eq!(out.pixel(38, 38), WHITE);
    assert_eq!(out.pixel(61, 61), WHITE);
    assert_eq!(out.pixel(62, 62), BLACK);
    let centre = out.pixel(50, 50);
    assert!(centre.r > 200 && centre.g < 50 && centre.b < 50);
}

#[test]
fn logo_on_a_tiny_image_changes_nothing() {
    let qr = solid(4, 4, BLACK);
    let logo = solid(10, 10, WHITE);
    let out = embed_logo(qr, &logo);
    assert_eq!((out.width(), out.height()), (4, 4));
    assert_eq!(out.pixel(2, 2), BLACK);
    let empty = embed_logo(solid(0, 0, BLACK), &logo);
    assert_eq!(empty.width(), 0);
    let out = embed_logo(solid(5, 5, BLACK), &solid(0, 0, WHITE));
    assert_eq!(out.width(), 5);
}

#[test]
fn raster_from_rows_checks_shape() {
    assert!(Raster::from_rows(vec![vec![BLACK; 2], vec![WHITE; 3]]).is_none());
    let r = Raster::from_rows(vec![vec![BLACK, WHITE], vec![WHITE, BLACK]]).unwrap();
    assert_eq!((r.width(), r.height()), (2, 2));
    assert_eq!(r.pixel(1, 0), WHITE);
}

#[test]
fn transparent_logo_leaves_a_white_square() {
    let clear = Rgba { r: 10, g: 20, b: 30, a: 0 };
    let out = embed_logo(solid(100, 100, BLACK), &solid(5, 5, clear));
    for y in 38..62u32 {
        for x in 38..62u32 {
            assert_eq!(out.pixel(x, y), WHITE, "pixel {} {}", x, y);
        }
    }
    assert_eq!(out.pixel(37, 50), BLACK);
}

#[test]
fn scaled_logo_is_placed_exactly() {
    let red = Rgba { r: 255, g: 0, b: 0, a: 255 };
    let clear = Rgba { r: 1, g: 2, b: 3, a: 0 };
    let rows: Vec<Vec<Rgba>> =
        (0..20).map(|y| vec![if y < 10 { red } else { clear }; 20]).collect();
    let scaled = Raster::from_rows(rows).unwrap();
    let out = embed_scaled_logo(solid(100, 100, BLACK), &scaled);
    // square 24 wide at 38, logo 20 wide at 40
    assert_eq!(out.pixel(38, 45), WHITE);
    assert_eq!(out.pixel(40, 40), red);
    assert_eq!(out.pixel(59, 49), red);
    assert_eq!(out.pixel(45, 50), WHITE);
    assert_eq!(out.pixel(59, 59), WHITE);
    assert_eq!(out.pixel(62, 50), BLACK);
    let tiny = embed_scaled_logo(solid(4, 9, BLACK), &solid(0, 0, WHITE));
    assert_eq!(tiny.pixel(3, 8), BLACK);
}

#[test]
fn empty_payload_is_smallest_at_every_level() {
    for level in [EcLevel::L, EcLevel::M, EcLevel::Q, EcLevel::H] {
        assert_eq!(encode("", level).unwrap().width(), 21);
        let img = create_qr_code("", level, 3, 2, BLACK, WHITE).unwrap();
        assert_eq!((img.width(), img.height()), (75, 75));
    }
}
