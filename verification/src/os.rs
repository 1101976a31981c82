//! Terminal escape sequences: cursor moves, colors and styles as text.
//! Opening, sizing and writing to the terminal itself is done by the program around the library.

pub mod input_crossterm;

use crate::texel_types::SymbolStyle;
use vstd::prelude::*;

verus! {

/// Character of the decimal digit `d`
pub open spec fn digit_char(d: nat) -> char {
    (d + 48) as char
}

/// Decimal digits of `n`, most significant first, without leading zeros
pub open spec fn decimal(n: nat) -> Seq<char>
    decreases n,
{
    if n < 10 {
        seq![digit_char(n)]
    } else {
        decimal(n / 10).push(digit_char(n % 10))
    }
}

/// Control sequence introducer
pub open spec fn csi() -> Seq<char> {
    seq!['\x1b', '[']
}

/// Sequence moving the cursor to the zero based column `x` and row `y`
pub open spec fn move_to_seq(x: u16, y: u16) -> Seq<char> {
    csi() + decimal((y + 1) as nat) + seq![';'] + decimal((x + 1) as nat) + seq!['H']
}

/// Sequence resetting the colors
pub open spec fn reset_seq() -> Seq<char> {
    csi() + seq!['0', 'm']
}

/// Sequence selecting the 256 color palette entry `color` for the background
pub open spec fn bg_seq(color: u8) -> Seq<char> {
    csi() + seq!['4', '8', ';', '5', ';'] + decimal(color as nat) + seq!['m']
}

/// Sequence selecting the 256 color palette entry `color` for the foreground
pub open spec fn fg_seq(color: u8) -> Seq<char> {
    csi() + seq!['3', '8', ';', '5', ';'] + decimal(color as nat) + seq!['m']
}

/// Graphic rendition code of a symbol style
pub open spec fn style_code(style: SymbolStyle) -> char {
    match style {
        SymbolStyle::Bold => '1',
        SymbolStyle::Italic => '3',
        SymbolStyle::Underline => '4',
    }
}

/// Sequence switching a symbol style on
pub open spec fn style_seq(style: SymbolStyle) -> Seq<char> {
    csi() + seq![style_code(style), 'm']
}

/// Screen coordinate for `v`: negative values go to the edge, others are cut to 16 bits
pub open spec fn screen_coord(v: i32) -> u16 {
    (if v < 0 {
        0i32
    } else {
        v
    }) as u16
}

/// Rows of a blank black screen `w` wide, from row `from` up to row `h`
pub open spec fn black_rows(w: u16, from: nat, h: nat) -> Seq<char>
    decreases h - from,
{
    if from >= h {
        Seq::empty()
    } else {
        move_to_seq(0, from as u16) + bg_seq(16) + Seq::new(w as nat, |i: int| ' ') + black_rows(
            w,
            from + 1,
            h,
        )
    }
}

/// `crossterm::cursor::MoveTo` written out: `ESC [ y+1 ; x+1 H`.
#[verifier::external_body]
fn move_to_text(x: u16, y: u16) -> (r: String)
    requires
        x < u16::MAX,
        y < u16::MAX,
    ensures
        r@ == move_to_seq(x, y),
{
    crossterm::cursor::MoveTo(x, y).to_string()
}

/// `crossterm::style::ResetColor` written out: `ESC [ 0 m`.
#[verifier::external_body]
fn reset_color_text() -> (r: String)
    ensures
        r@ == reset_seq(),
{
    crossterm::style::ResetColor.to_string()
}

/// `crossterm::style::SetBackgroundColor` of an ANSI palette value written out:
/// `ESC [ 48;5; color m`.
#[verifier::external_body]
fn set_background_text(color: u8) -> (r: String)
    ensures
        r@ == bg_seq(color),
{
    crossterm::style::SetBackgroundColor(crossterm::style::Color::AnsiValue(color)).to_string()
}

/// `crossterm::style::SetForegroundColor` of an ANSI palette value written out:
/// `ESC [ 38;5; color m`.
#[verifier::external_body]
fn set_foreground_text(color: u8) -> (r: String)
    ensures
        r@ == fg_seq(color),
{
    crossterm::style::SetForegroundColor(crossterm::style::Color::AnsiValue(color)).to_string()
}

/// `crossterm::style::SetAttribute` of bold, italic or underlined written out:
/// `ESC [ code m` with the codes 1, 3 and 4.
#[verifier::external_body]
fn set_attribute_text(style: SymbolStyle) -> (r: String)
    ensures
        r@ == style_seq(style),
{
    let attribute = match style {
        SymbolStyle::Bold => crossterm::style::Attribute::Bold,
        SymbolStyle::Italic => crossterm::style::Attribute::Italic,
        SymbolStyle::Underline => crossterm::style::Attribute::Underlined,
    };
    crossterm::style::SetAttribute(attribute).to_string()
}

/// Escape sequences of the terminal
pub struct Terminal;

impl Terminal {
    /// Moves the cursor; negative coordinates go to the edge
    pub fn goto(x: i32, y: i32) -> (r: String)
        requires
            screen_coord(x) < u16::MAX,
            screen_coord(y) < u16::MAX,
        ensures
            r@ == move_to_seq(screen_coord(x), screen_coord(y)),
    {
        let o_x: i32 = if x < 0 {
            0
        } else {
            x
        };
        let o_y: i32 = if y < 0 {
            0
        } else {
            y
        };
        move_to_text(o_x as u16, o_y as u16)
    }

    /// Resets the colors
    pub fn reset_sequence() -> (r: String)
        ensures
            r@ == reset_seq(),
    {
        reset_color_text()
    }

    /// Switches the style on
    pub fn style_sequence(style: SymbolStyle) -> (r: String)
        ensures
            r@ == style_seq(style),
    {
        set_attribute_text(style)
    }

    /// Palette entry of the color cube coordinates `r`, `g`, `b`
    pub fn rgb_u8(r: u8, g: u8, b: u8) -> (c: u8)
        requires
            16 + 36 * r + 6 * g + b <= 255,
        ensures
            c == 16 + 36 * r + 6 * g + b,
    {
        16 + 36 * r + 6 * g + b
    }

    /// Palette entry of the gray `shade`
    pub fn grayscale_u8(shade: u8) -> (c: u8)
        requires
            shade <= 23,
        ensures
            c == 0xE8 + shade,
    {
        0xE8 + shade
    }

    /// Selects the background color
    pub fn bg_color_sequence(color: u8) -> (r: String)
        ensures
            r@ == bg_seq(color),
    {
        set_background_text(color)
    }

    /// Selects the foreground color
    pub fn fg_color_sequence(color: u8) -> (r: String)
        ensures
            r@ == fg_seq(color),
    {
        set_foreground_text(color)
    }

    /// Text that turns a screen of the given size black: a color reset, then every row
    /// filled with blanks on black
    pub fn blank_to_black(size: (u16, u16)) -> (r: String)
        ensures
            r@ == reset_seq() + black_rows(size.0, 0, size.1 as nat),
    {
        let mut empty_line = String::new();
        let mut i: u16 = 0;
        while i < size.0
            invariant
                i <= size.0,
                empty_line@ == Seq::new(i as nat, |k: int| ' '),
            decreases size.0 - i,
        {
            proof {
                reveal_strlit(" ");
            }
            empty_line.append(" ");
            i = i + 1;
            assert(empty_line@ =~= Seq::new(i as nat, |k: int| ' '));
        }
        let mut out = reset_color_text();
        let mut y: u16 = 0;
        while y < size.1
            invariant
                y <= size.1,
                empty_line@ == Seq::new(size.0 as nat, |k: int| ' '),
                out@ + black_rows(size.0, y as nat, size.1 as nat) == reset_seq() + black_rows(
                    size.0,
                    0,
                    size.1 as nat,
                ),
            decreases size.1 - y,
        {
            let line = move_to_text(0, y);
            let bg = set_background_text(16);
            let ghost before = out@;
            out.append(line.as_str());
            out.append(bg.as_str());
            out.append(empty_line.as_str());
            assert(out@ =~= before + move_to_seq(0, y) + bg_seq(16) + empty_line@);
            assert(black_rows(size.0, y as nat, size.1 as nat) =~= move_to_seq(0, y) + bg_seq(16)
                + empty_line@ + black_rows(size.0, (y + 1) as nat, size.1 as nat));
            y = y + 1;
        }
        out
    }
}

} // verus!
