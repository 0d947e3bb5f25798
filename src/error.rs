use vstd::prelude::*;

verus! {

/// The kind of a template payload.
#[derive(Clone, Copy, Debug, PartialEq, Eq, Structural)]
pub enum TemplateKind {
    Wifi,
    Vcard,
    Sms,
    Email,
    Phone,
}

/// Every way a request can fail. Each variant carries the input that caused it.
#[derive(Debug, PartialEq, Eq)]
pub enum QrgenError {
    /// A `#` token that is not `#` followed by exactly six hex digits.
    InvalidColorFormat(String),
    /// A token that names no supported color.
    UnknownColor(String),
    /// A template name outside the supported set.
    UnknownTemplate(String),
    /// An error-correction token other than L, M, Q or H (any case).
    InvalidErrorCorrection(String),
    /// The raw template input lacks fields; the caller has to ask for them.
    NeedsPrompt(TemplateKind),
    /// The QR encoder rejected this payload at the chosen level.
    EncodingFailure(String),
    /// The image side for this module size and border does not fit in a `u32`.
    ImageTooLarge(u32, u32),
}

} // verus!
