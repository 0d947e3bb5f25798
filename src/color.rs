use vstd::prelude::*;
use crate::error::QrgenError;
use crate::text::{chars_of, lower_of, lowercase, same_text};

verus! {

/// An RGBA color, one byte per channel.
#[derive(Clone, Copy, Debug, PartialEq, Eq, Structural)]
pub struct Rgba {
    pub r: u8,
    pub g: u8,
    pub b: u8,
    pub a: u8,
}

impl Rgba {
    pub open spec fn opaque(r: u8, g: u8, b: u8) -> Rgba {
        Rgba { r, g, b, a: 255 }
    }

    /// The four channels in the order red, green, blue, alpha.
    pub fn channels(&self) -> (c: [u8; 4])
        ensures
            c@ == seq![self.r, self.g, self.b, self.a],
    {
        let c = [self.r, self.g, self.b, self.a];
        assert(c@ =~= seq![self.r, self.g, self.b, self.a]);
        c
    }
}

pub open spec fn is_hex_digit(c: char) -> bool {
    ('0' <= c <= '9') || ('a' <= c <= 'f') || ('A' <= c <= 'F')
}

pub open spec fn hex_value(c: char) -> int {
    if '0' <= c <= '9' {
        c as int - '0' as int
    } else if 'a' <= c <= 'f' {
        c as int - 'a' as int + 10
    } else {
        c as int - 'A' as int + 10
    }
}

/// The byte written by the two hex digits `hi` and `lo`.
pub open spec fn hex_byte(hi: char, lo: char) -> u8 {
    (16 * hex_value(hi) + hex_value(lo)) as u8
}

/// `#` followed by exactly six hex digits.
pub open spec fn is_hex_color(s: Seq<char>) -> bool {
    &&& s.len() == 7
    &&& s[0] == '#'
    &&& forall|i: int| 1 <= i < 7 ==> is_hex_digit(#[trigger] s[i])
}

pub open spec fn hex_color(s: Seq<char>) -> Rgba {
    Rgba::opaque(hex_byte(s[1], s[2]), hex_byte(s[3], s[4]), hex_byte(s[5], s[6]))
}

/// The supported color names, written in lower case.
pub open spec fn named_color(name: Seq<char>) -> Option<Rgba> {
    if name == "black"@ {
        Some(Rgba::opaque(0, 0, 0))
    } else if name == "white"@ {
        Some(Rgba::opaque(255, 255, 255))
    } else if name == "red"@ {
        Some(Rgba::opaque(255, 0, 0))
    } else if name == "green"@ {
        Some(Rgba::opaque(0, 255, 0))
    } else if name == "blue"@ {
        Some(Rgba::opaque(0, 0, 255))
    } else if name == "yellow"@ {
        Some(Rgba::opaque(255, 255, 0))
    } else if name == "cyan"@ {
        Some(Rgba::opaque(0, 255, 255))
    } else if name == "magenta"@ {
        Some(Rgba::opaque(255, 0, 255))
    } else if name == "darkblue"@ {
        Some(Rgba::opaque(0, 0, 139))
    } else if name == "darkgreen"@ {
        Some(Rgba::opaque(0, 100, 0))
    } else if name == "lightgray"@ {
        Some(Rgba::opaque(211, 211, 211))
    } else if name == "lightyellow"@ {
        Some(Rgba::opaque(255, 255, 224))
    } else {
        None
    }
}

/// The color a token stands for, if any: a `#` token must be a hex color,
/// any other token must lower-case (as `str::to_lowercase` does) to a
/// supported name.
pub open spec fn resolve_color(s: Seq<char>) -> Option<Rgba> {
    if s.len() > 0 && s[0] == '#' {
        if is_hex_color(s) {
            Some(hex_color(s))
        } else {
            None
        }
    } else {
        named_color(lower_of(s))
    }
}

/// A token that does not start with `#` is recognised exactly when its lower
/// case is a supported name, and two such tokens with the same lower case
/// resolve to the same color, or both fail.
pub proof fn color_case_insensitive(s: Seq<char>, t: Seq<char>)
    requires
        !(s.len() > 0 && s[0] == '#'),
        !(t.len() > 0 && t[0] == '#'),
    ensures
        resolve_color(s) == named_color(lower_of(s)),
        lower_of(s) == lower_of(t) ==> resolve_color(s) == resolve_color(t),
{
}

/// A `#` token with six hex digits resolves to the opaque color whose red,
/// green and blue bytes are the three digit pairs read in base 16; a `#`
/// token of any other length, or with any other character, fails.
pub proof fn hex_color_exact(s: Seq<char>)
    requires
        s.len() > 0,
        s[0] == '#',
    ensures
        is_hex_color(s) ==> resolve_color(s) == Some(hex_color(s)) && hex_color(s).a == 255
            && hex_color(s).r as int == 16 * hex_value(s[1]) + hex_value(s[2])
            && hex_color(s).g as int == 16 * hex_value(s[3]) + hex_value(s[4])
            && hex_color(s).b as int == 16 * hex_value(s[5]) + hex_value(s[6]),
        s.len() != 7 ==> resolve_color(s) is None,
        (exists|i: int| 1 <= i < s.len() && !is_hex_digit(#[trigger] s[i])) ==> resolve_color(
            s,
        ) is None,
{
    if is_hex_color(s) {
        assert(is_hex_digit(s[1]) && is_hex_digit(s[2]) && is_hex_digit(s[3]));
        assert(is_hex_digit(s[4]) && is_hex_digit(s[5]) && is_hex_digit(s[6]));
    }
}

/// The value of a hex digit, or `None` for any other character.
pub fn hex_digit(c: char) -> (r: Option<u8>)
    ensures
        r is Some <==> is_hex_digit(c),
        r is Some ==> r->0 as int == hex_value(c),
{
    if '0' <= c && c <= '9' {
        Some((c as u32 - '0' as u32) as u8)
    } else if 'a' <= c && c <= 'f' {
        Some((c as u32 - 'a' as u32 + 10) as u8)
    } else if 'A' <= c && c <= 'F' {
        Some((c as u32 - 'A' as u32 + 10) as u8)
    } else {
        None
    }
}

fn hex_pair(hi: char, lo: char) -> (r: Option<u8>)
    ensures
        r is Some <==> is_hex_digit(hi) && is_hex_digit(lo),
        r is Some ==> r->0 == hex_byte(hi, lo),
{
    match (hex_digit(hi), hex_digit(lo)) {
        (Some(h), Some(l)) => Some(16 * h + l),
        _ => None,
    }
}

/// Resolves a color token: `#RRGGBB` in hex digits of either case, or a
/// token whose lower case is one of black, white, red, green, blue, yellow,
/// cyan, magenta, darkblue, darkgreen, lightgray, lightyellow. Every color is
/// opaque.
pub fn parse_color(color_str: &str) -> (r: Result<Rgba, QrgenError>)
    ensures
        match resolve_color(color_str@) {
            Some(c) => r == Ok::<Rgba, QrgenError>(c),
            None => r is Err && if color_str@.len() > 0 && color_str@[0] == '#' {
                r->Err_0 is InvalidColorFormat && r->Err_0->InvalidColorFormat_0@ == color_str@
            } else {
                r->Err_0 is UnknownColor && r->Err_0->UnknownColor_0@ == color_str@
            },
        },
{
    let chars = chars_of(color_str);
    if chars.len() > 0 && chars[0] == '#' {
        if chars.len() == 7 {
            let r = hex_pair(chars[1], chars[2]);
            let g = hex_pair(chars[3], chars[4]);
            let b = hex_pair(chars[5], chars[6]);
            if let (Some(r), Some(g), Some(b)) = (r, g, b) {
                assert(is_hex_color(color_str@)) by {
                    assert forall|i: int| 1 <= i < 7 implies is_hex_digit(#[trigger] chars@[i]) by {
                        if i == 1 || i == 2 {
                        } else if i == 3 || i == 4 {
                        } else {
                        }
                    }
                }
                return Ok(Rgba { r, g, b, a: 255 });
            }
        }
        return Err(QrgenError::InvalidColorFormat(String::from_str(color_str)));
    }
    let low = lowercase(color_str);
    if same_text(low.as_str(), "black") {
        Ok(Rgba { r: 0, g: 0, b: 0, a: 255 })
    } else if same_text(low.as_str(), "white") {
        Ok(Rgba { r: 255, g: 255, b: 255, a: 255 })
    } else if same_text(low.as_str(), "red") {
        Ok(Rgba { r: 255, g: 0, b: 0, a: 255 })
    } else if same_text(low.as_str(), "green") {
        Ok(Rgba { r: 0, g: 255, b: 0, a: 255 })
    } else if same_text(low.as_str(), "blue") {
        Ok(Rgba { r: 0, g: 0, b: 255, a: 255 })
    } else if same_text(low.as_str(), "yellow") {
        Ok(Rgba { r: 255, g: 255, b: 0, a: 255 })
    } else if same_text(low.as_str(), "cyan") {
        Ok(Rgba { r: 0, g: 255, b: 255, a: 255 })
    } else if same_text(low.as_str(), "magenta") {
        Ok(Rgba { r: 255, g: 0, b: 255, a: 255 })
    } else if same_text(low.as_str(), "darkblue") {
        Ok(Rgba { r: 0, g: 0, b: 139, a: 255 })
    } else if same_text(low.as_str(), "darkgreen") {
        Ok(Rgba { r: 0, g: 100, b: 0, a: 255 })
    } else if same_text(low.as_str(), "lightgray") {
        Ok(Rgba { r: 211, g: 211, b: 211, a: 255 })
    } else if same_text(low.as_str(), "lightyellow") {
        Ok(Rgba { r: 255, g: 255, b: 224, a: 255 })
    } else {
        Err(QrgenError::UnknownColor(String::from_str(color_str)))
    }
}

} // verus!
