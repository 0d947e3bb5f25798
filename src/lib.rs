//! Turn text payloads into QR code images: payload templates, color tokens,
//! rasterization of a module grid, logo overlay and terminal rendering.
mod color;
mod error;
mod grid;
mod logo;
mod raster;
mod templates;
mod text;

pub use color::{hex_digit, parse_color, Rgba};
pub use error::{QrgenError, TemplateKind};
pub use grid::{
    encode, parse_error_correction, render_terminal, terminal_text, EcLevel, ModuleGrid,
    MAX_SYMBOL_WIDTH,
};
pub use logo::{embed_logo, embed_scaled_logo, logo_layout, LogoLayout};
pub use raster::{create_qr_code, rasterize, Raster};
pub use templates::{
    apply_template, email_template, phone_template, sms_template, template_kind_of,
    vcard_from_answers, vcard_template, wifi_from_answers, wifi_template,
};
pub use text::same_text;
