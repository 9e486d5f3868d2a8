//! Themes: the colours of a theme file as `#rrggbb` texts, read into their
//! red, green and blue channels, and the names of the built-in themes.

use crate::text::{ascii_lower_chars, ascii_lower_seq, chars_eq_str, chars_of, string_of};
use vstd::prelude::*;
use vstd::utf8::{encode_utf8, is_char_boundary};

verus! {

#[derive(Debug, Clone)]
pub struct ThemeConfig {
    pub name: String,
    pub background: String,
    pub panel_bg: String,
    pub border: String,
    pub text_primary: String,
    pub text_secondary: String,
    pub accent: String,
}

/// A colour's red, green and blue channels.
#[derive(Debug, Clone, Copy, PartialEq, Eq, Structural)]
pub struct Rgb {
    pub r: u8,
    pub g: u8,
    pub b: u8,
}

/// The value of an ASCII hexadecimal digit, in either case.
pub open spec fn hex_digit(c: u8) -> Option<u8> {
    if 48 <= c <= 57 {
        Some((c - 48) as u8)
    } else if 97 <= c <= 102 {
        Some((c - 87) as u8)
    } else if 65 <= c <= 70 {
        Some((c - 55) as u8)
    } else {
        None
    }
}

/// `u8::from_str_radix(.., 16)` on a piece of two bytes: two digits, or a
/// `+` and one digit.
pub open spec fn channel_value(a: u8, b: u8) -> Option<u8> {
    if a == 43 {
        hex_digit(b)
    } else {
        match (hex_digit(a), hex_digit(b)) {
            (Some(x), Some(y)) => Some((x * 16 + y) as u8),
            _ => None,
        }
    }
}

/// Whether a colour text has the `#rrggbb` shape: seven bytes, the first `#`.
pub open spec fn color_shape(bytes: Seq<u8>) -> bool {
    bytes.len() == 7 && bytes[0] == 35
}

/// The colour that a text names, or the message of what is wrong with it.
pub open spec fn color_result(hex: Seq<char>, bytes: Seq<u8>) -> Result<Rgb, Seq<char>> {
    if !color_shape(bytes) {
        Err("expected color in #rrggbb format, got "@ + hex)
    } else {
        match channel_value(bytes[1], bytes[2]) {
            None => Err("invalid red channel"@),
            Some(r) => match channel_value(bytes[3], bytes[4]) {
                None => Err("invalid green channel"@),
                Some(g) => match channel_value(bytes[5], bytes[6]) {
                    None => Err("invalid blue channel"@),
                    Some(b) => Ok(Rgb { r, g, b }),
                },
            },
        }
    }
}

/// A colour text that can be cut into its channels: where it has the
/// `#rrggbb` shape, its bytes 3 and 5 begin characters.
pub open spec fn color_cuttable(hex: Seq<char>) -> bool {
    color_shape(encode_utf8(hex)) ==> is_char_boundary(encode_utf8(hex), 3) && is_char_boundary(
        encode_utf8(hex),
        5,
    )
}

pub open spec fn same_result(r: Result<Rgb, String>, s: Result<Rgb, Seq<char>>) -> bool {
    match (r, s) {
        (Ok(a), Ok(b)) => a == b,
        (Err(e), Err(m)) => e@ == m,
        _ => false,
    }
}

fn hex_digit_of(c: u8) -> (r: Option<u8>)
    ensures
        r == hex_digit(c),
{
    if 48 <= c && c <= 57 {
        Some(c - 48)
    } else if 97 <= c && c <= 102 {
        Some(c - 87)
    } else if 65 <= c && c <= 70 {
        Some(c - 55)
    } else {
        None
    }
}

fn channel_of(a: u8, b: u8) -> (r: Option<u8>)
    ensures
        r == channel_value(a, b),
{
    if a == 43 {
        hex_digit_of(b)
    } else {
        match (hex_digit_of(a), hex_digit_of(b)) {
            (Some(x), Some(y)) => Some(x * 16 + y),
            _ => None,
        }
    }
}

/// A `#rrggbb` colour's channels.
pub fn parse_color(hex: &str) -> (r: Result<Rgb, String>)
    requires
        color_cuttable(hex@),
    ensures
        same_result(r, color_result(hex@, encode_utf8(hex@))),
{
    let bytes = hex.as_bytes();
    if hex.len() != 7 || bytes[0] != 35 {
        let mut e = String::from_str("expected color in #rrggbb format, got ");
        e.append(hex);
        return Err(e);
    }
    let r = match channel_of(bytes[1], bytes[2]) {
        Some(v) => v,
        None => return Err(String::from_str("invalid red channel")),
    };
    let g = match channel_of(bytes[3], bytes[4]) {
        Some(v) => v,
        None => return Err(String::from_str("invalid green channel")),
    };
    let b = match channel_of(bytes[5], bytes[6]) {
        Some(v) => v,
        None => return Err(String::from_str("invalid blue channel")),
    };
    Ok(Rgb { r, g, b })
}

/// The channels of a theme's colours. The border glow is the border's colour
/// and the dim text the secondary text's, each with less opacity.
#[derive(Debug, Clone, Copy)]
pub struct ThemeColors {
    pub background: Rgb,
    pub panel_bg: Rgb,
    pub border: Rgb,
    pub text_primary: Rgb,
    pub text_secondary: Rgb,
    pub accent: Rgb,
}

pub open spec fn config_cuttable(c: ThemeConfig) -> bool {
    &&& color_cuttable(c.background@)
    &&& color_cuttable(c.panel_bg@)
    &&& color_cuttable(c.border@)
    &&& color_cuttable(c.text_primary@)
    &&& color_cuttable(c.text_secondary@)
    &&& color_cuttable(c.accent@)
}

pub open spec fn col(s: String) -> Result<Rgb, Seq<char>> {
    color_result(s@, encode_utf8(s@))
}

/// The theme's colours, or the first error among them, read in the order
/// background, panel, border, primary text, secondary text, accent.
pub open spec fn theme_result(c: ThemeConfig) -> Result<ThemeColors, Seq<char>> {
    match (col(c.background), col(c.panel_bg), col(c.border), col(c.text_primary), col(c.text_secondary), col(c.accent)) {
        (Ok(bg), Ok(pb), Ok(bo), Ok(tp), Ok(ts), Ok(ac)) => Ok(
            ThemeColors { background: bg, panel_bg: pb, border: bo, text_primary: tp, text_secondary: ts, accent: ac },
        ),
        (Err(e), _, _, _, _, _) => Err(e),
        (Ok(_), Err(e), _, _, _, _) => Err(e),
        (Ok(_), Ok(_), Err(e), _, _, _) => Err(e),
        (Ok(_), Ok(_), Ok(_), Err(e), _, _) => Err(e),
        (Ok(_), Ok(_), Ok(_), Ok(_), Err(e), _) => Err(e),
        (Ok(_), Ok(_), Ok(_), Ok(_), Ok(_), Err(e)) => Err(e),
    }
}

impl ThemeConfig {
    /// The theme's colours.
    pub fn to_theme(&self) -> (r: Result<ThemeColors, String>)
        requires
            config_cuttable(*self),
        ensures
            match (r, theme_result(*self)) {
                (Ok(a), Ok(b)) => a == b,
                (Err(e), Err(m)) => e@ == m,
                _ => false,
            },
    {
        let background = match parse_color(self.background.as_str()) {
            Ok(c) => c,
            Err(e) => return Err(e),
        };
        let panel_bg = match parse_color(self.panel_bg.as_str()) {
            Ok(c) => c,
            Err(e) => return Err(e),
        };
        let border = match parse_color(self.border.as_str()) {
            Ok(c) => c,
            Err(e) => return Err(e),
        };
        let text_primary = match parse_color(self.text_primary.as_str()) {
            Ok(c) => c,
            Err(e) => return Err(e),
        };
        let text_secondary = match parse_color(self.text_secondary.as_str()) {
            Ok(c) => c,
            Err(e) => return Err(e),
        };
        let accent = match parse_color(self.accent.as_str()) {
            Ok(c) => c,
            Err(e) => return Err(e),
        };
        Ok(ThemeColors { background, panel_bg, border, text_primary, text_secondary, accent })
    }
}

#[derive(Debug, Clone, Copy, PartialEq, Eq, Structural)]
pub enum BuiltinTheme {
    Tron,
    Matrix,
    Amber,
}

/// The built-in theme of a name, in any ASCII case.
pub fn builtin_theme(name: &str) -> (r: Result<BuiltinTheme, String>)
    ensures
        ascii_lower_seq(name@) == "tron"@ ==> r == Ok::<BuiltinTheme, String>(BuiltinTheme::Tron),
        ascii_lower_seq(name@) == "matrix"@ ==> r == Ok::<BuiltinTheme, String>(BuiltinTheme::Matrix),
        ascii_lower_seq(name@) == "amber"@ ==> r == Ok::<BuiltinTheme, String>(BuiltinTheme::Amber),
        !(ascii_lower_seq(name@) == "tron"@ || ascii_lower_seq(name@) == "matrix"@
            || ascii_lower_seq(name@) == "amber"@) ==> (r matches Err(e) && e@
            == "unknown builtin theme: "@ + ascii_lower_seq(name@)),
{
    let low = ascii_lower_chars(chars_of(name).as_slice());
    proof {
        reveal_strlit("tron");
        reveal_strlit("matrix");
        reveal_strlit("amber");
        assert("tron"@.len() != "matrix"@.len());
        assert("tron"@.len() != "amber"@.len());
        assert("matrix"@.len() != "amber"@.len());
    }
    if chars_eq_str(low.as_slice(), "tron") {
        Ok(BuiltinTheme::Tron)
    } else if chars_eq_str(low.as_slice(), "matrix") {
        Ok(BuiltinTheme::Matrix)
    } else if chars_eq_str(low.as_slice(), "amber") {
        Ok(BuiltinTheme::Amber)
    } else {
        let mut e = String::from_str("unknown builtin theme: ");
        e.append(string_of(low.as_slice()).as_str());
        Err(e)
    }
}

} // verus!
