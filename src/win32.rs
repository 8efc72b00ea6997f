//! Unpacking the words of a Windows message parameter. The windowing layer
//! hands over the raw parameter value as an integer.

use vstd::prelude::*;

use crate::window::WindowBorderStyle;

verus! {

/// The low 16 bits of `l`.
#[allow(non_snake_case)]
pub fn LOWORD(l: u32) -> (r: u16)
    ensures
        r == l % 0x10000,
{
    proof {
        assert((l & 0xffff) == l % 0x10000) by (bit_vector);
    }
    (l & 0xffff) as u16
}

/// The high 16 bits of `l`.
#[allow(non_snake_case)]
pub fn HIWORD(l: u32) -> (r: u16)
    ensures
        r == l / 0x10000,
{
    proof {
        assert(((l >> 16) & 0xffff) == l / 0x10000) by (bit_vector);
    }
    ((l >> 16) & 0xffff) as u16
}

/// A 16-bit word read as a signed coordinate: words from 0x8000 up stand for
/// negative values.
pub open spec fn signed_word(w: u16) -> int {
    if w < 0x8000 {
        w as int
    } else {
        w - 0x10000
    }
}

/// The signed x coordinate packed in the low word of a message parameter.
#[allow(non_snake_case)]
pub fn GET_X_LPARAM(lp: isize) -> (r: i32)
    ensures
        r == signed_word(((lp as u32) % 0x10000) as u16),
{
    let w = LOWORD(lp as u32);
    proof {
        assert((w as i16) as int == signed_word(w)) by (bit_vector);
    }
    w as i16 as i32
}

/// The signed y coordinate packed in the high word of the low 32 bits of a
/// message parameter.
#[allow(non_snake_case)]
pub fn GET_Y_LPARAM(lp: isize) -> (r: i32)
    ensures
        r == signed_word(((lp as u32) / 0x10000) as u16),
{
    let w = HIWORD(lp as u32);
    proof {
        assert((w as i16) as int == signed_word(w)) by (bit_vector);
    }
    w as i16 as i32
}

pub const WS_BORDER: u32 = 0x0080_0000;

pub const WS_DLGFRAME: u32 = 0x0040_0000;

pub const WS_SYSMENU: u32 = 0x0008_0000;

pub const WS_THICKFRAME: u32 = 0x0004_0000;

pub const WS_MINIMIZEBOX: u32 = 0x0002_0000;

pub const WS_EX_TOOLWINDOW: u32 = 0x0000_0080;

/// `v` with the bits of `s` set when `b` holds and cleared otherwise.
pub open spec fn set_if(v: u32, s: u32, b: bool) -> u32 {
    if b {
        v | s
    } else {
        v & !s
    }
}

fn apply_if(v: u32, s: u32, b: bool) -> (r: u32)
    ensures
        r == set_if(v, s, b),
{
    if b {
        v | s
    } else {
        v & !s
    }
}

/// The native style and extended style of a window with the given border
/// style and resizability, starting from the styles it has now: a border,
/// dialog frame and system menu unless borderless, a sizing frame only when
/// resizable with a border, a minimize box only with a normal border, and the
/// tool-window extended style only for a tool border. Other bits are kept.
pub fn window_styles(style: u32, ex_style: u32, border_style: WindowBorderStyle, resizable: bool) -> (r: (
    u32,
    u32,
))
    ensures
        r.0 == set_if(
            set_if(
                set_if(
                    set_if(
                        set_if(style, WS_DLGFRAME, border_style != WindowBorderStyle::Borderless),
                        WS_BORDER,
                        border_style != WindowBorderStyle::Borderless,
                    ),
                    WS_THICKFRAME,
                    resizable && border_style != WindowBorderStyle::Borderless,
                ),
                WS_MINIMIZEBOX,
                border_style == WindowBorderStyle::Normal,
            ),
            WS_SYSMENU,
            border_style != WindowBorderStyle::Borderless,
        ),
        r.1 == set_if(ex_style, WS_EX_TOOLWINDOW, border_style == WindowBorderStyle::Tool),
{
    let bordered = border_style != WindowBorderStyle::Borderless;
    let mut s = apply_if(style, WS_DLGFRAME, bordered);
    s = apply_if(s, WS_BORDER, bordered);
    s = apply_if(s, WS_THICKFRAME, resizable && bordered);
    s = apply_if(s, WS_MINIMIZEBOX, border_style == WindowBorderStyle::Normal);
    s = apply_if(s, WS_SYSMENU, bordered);
    let ex = apply_if(ex_style, WS_EX_TOOLWINDOW, border_style == WindowBorderStyle::Tool);
    (s, ex)
}

} // verus!
