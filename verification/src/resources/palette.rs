use crate::common::{index_from_one, spec_index_from_one, Error};
use crate::os::{decimal, Terminal};
use crate::texel_types::{ColorMode, Position2D, SymbolStyle, SymbolStyles, Texel, DEFAULT_BG_U8, DEFAULT_FG_U8};
use vstd::prelude::*;

verus! {

/// Palette width on screen
pub const PALETTE_W: i32 = 16;

/// Palette height on screen
pub const PALETTE_H: i32 = 14;

/// Palette distance from the left screen edge
pub const PALETTE_OFFSET: i32 = 24;

/// Number of colors in the 6x6x6 color cube
pub const MAX_COLOR_INDEX: u8 = 216;

/// Number of colors in a palette
pub const COLORS_IN_PALETTE: usize = 16;

/// Number of symbols in a palette
pub const SYMBOLS_IN_PALETTE: usize = 16;

/// Palette entry of the color cube coordinates `r`, `g`, `b` (each 0 to 5)
pub open spec fn spec_cc(r: u8, g: u8, b: u8) -> int {
    16 + 36 * r + 6 * g + b
}

/// Palette entry of the color cube coordinates `r`, `g`, `b` (each 0 to 5)
pub fn cc(r: u8, g: u8, b: u8) -> (c: u8)
    requires
        r <= 5,
        g <= 5,
        b <= 5,
    ensures
        c == spec_cc(r, g, b),
{
    16 + 36 * r + 6 * g + b
}

/// Colors of the default palette: gray, black, the primaries and their mixes
pub open spec fn default_palette_colors() -> Seq<u8> {
    seq![
        spec_cc(3, 3, 3) as u8,
        spec_cc(0, 0, 0) as u8,
        spec_cc(5, 0, 0) as u8,
        spec_cc(0, 5, 0) as u8,
        spec_cc(0, 0, 5) as u8,
        spec_cc(5, 5, 0) as u8,
        spec_cc(0, 5, 5) as u8,
        spec_cc(5, 0, 5) as u8,
        spec_cc(2, 5, 2) as u8,
        spec_cc(5, 2, 2) as u8,
        spec_cc(2, 2, 5) as u8,
        spec_cc(2, 5, 5) as u8,
        spec_cc(5, 5, 2) as u8,
        spec_cc(5, 2, 5) as u8,
        27u8,
        28u8,
    ]
}

/// Key selecting each palette entry, `1` to `9`, `0`, then `a` to `f`
pub open spec fn color_selector() -> Seq<char> {
    seq!['1', '2', '3', '4', '5', '6', '7', '8', '9', '0', 'a', 'b', 'c', 'd', 'e', 'f']
}

/// Palette slot of a digit read from the keyboard: `1` is the first entry, `0` the tenth
pub open spec fn color_slot(index: usize) -> int {
    if index == 0 {
        9
    } else if index < 10 {
        index - 1
    } else {
        index as int
    }
}

/// Cube index of a position inside the palette, the cast bytes of row times width plus column
pub open spec fn spec_pos_to_base(pos: Position2D) -> int {
    ((pos.y * PALETTE_W) as u8) + (pos.x as u8)
}

/// Color cube coordinates of a cube index
pub open spec fn spec_base_to_rgb(base: u8) -> (u8, u8, u8) {
    ((base / 36) as u8, ((base / 6) % 6) as u8, (base % 6) as u8)
}

/// `termion::color::Reset.fg_str()`: the sequence resetting the foreground, `ESC [ 39 m`.
#[verifier::external_body]
fn termion_reset_fg() -> (r: &'static str)
    ensures
        r@ == seq!['\x1b', '[', '3', '9', 'm'],
{
    termion::color::Reset.fg_str()
}

/// `termion::color::Reset.bg_str()`: the sequence resetting the background, `ESC [ 49 m`.
#[verifier::external_body]
fn termion_reset_bg() -> (r: &'static str)
    ensures
        r@ == seq!['\x1b', '[', '4', '9', 'm'],
{
    termion::color::Reset.bg_str()
}

/// `termion::color::AnsiValue(color).fg_string()`: `ESC [ 38;5; color m`.
#[verifier::external_body]
fn termion_fg_string(color: u8) -> (r: String)
    ensures
        r@ == crate::os::fg_seq(color),
{
    termion::color::AnsiValue(color).fg_string()
}

/// `termion::color::AnsiValue(color).bg_string()`: `ESC [ 48;5; color m`.
#[verifier::external_body]
fn termion_bg_string(color: u8) -> (r: String)
    ensures
        r@ == crate::os::bg_seq(color),
{
    termion::color::AnsiValue(color).bg_string()
}

/// Sixteen colors to pick from
/// The arithmetic of `ColorPalette::pos_to_color` stays within 32 bits and the cube index
/// within a byte
pub open spec fn pos_to_color_fits(pos: Position2D, screen_h: u16) -> bool {
    &&& i32::MIN <= pos.x - PALETTE_OFFSET
    &&& i32::MIN <= pos.y - (screen_h - PALETTE_H) <= i32::MAX
    &&& i32::MIN <= (pos.y - (screen_h - PALETTE_H)) * PALETTE_W <= i32::MAX
    &&& spec_pos_to_base(
        Position2D { x: (pos.x - PALETTE_OFFSET) as i32, y: (pos.y - (screen_h - PALETTE_H)) as i32 },
    ) <= u8::MAX
}

/// Color under the screen position `pos` of a palette drawn at the bottom of a screen
/// `screen_h` rows high: the cube color, black past the cube
pub open spec fn spec_pos_to_color(pos: Position2D, screen_h: u16) -> u8 {
    let base = spec_pos_to_base(
        Position2D { x: (pos.x - PALETTE_OFFSET) as i32, y: (pos.y - (screen_h - PALETTE_H)) as i32 },
    );
    if base >= MAX_COLOR_INDEX {
        16
    } else {
        (base + 16) as u8
    }
}

/// Luminance of a color on the cube's 0 to 5 scale: 0.2126 r + 0.7151 g + 0.0721 b rounded
/// down, where r, g, b are the cube coordinates of `color - 16` taken modulo 256
pub open spec fn spec_luminance(color: u8) -> int {
    let base = (color - 16) % 256;
    let r = base / 36;
    let g = (base / 6) % 6;
    let b = base % 6;
    (2126 * r + 7151 * g + 721 * b) / 10000
}

/// A gray that stands out against `color`: dark on a bright color, light on a dark one
pub open spec fn spec_invert_luminance(color: u8) -> u8 {
    if spec_luminance(color) >= 2 {
        (0xE8 + 5) as u8
    } else {
        (0xE8 + 17) as u8
    }
}

/// Background and foreground of a palette entry shown as `color` in mode `cm`: the entry's
/// color on the side `cm` selects, a contrasting gray on the other
pub open spec fn color_pair(color: u8, cm: ColorMode) -> (u8, u8) {
    match cm {
        ColorMode::Bg => (color, spec_invert_luminance(color)),
        ColorMode::Fg => (spec_invert_luminance(color), color),
    }
}

/// Bold only
pub open spec fn bold_styles() -> SymbolStyles {
    SymbolStyles { bold: true, italic: false, underline: false }
}

/// Texel `i` of a palette line starting at `start_x` on row `y`
pub open spec fn color_line_texel(colors: Seq<u8>, start_x: i32, y: i32, cm: ColorMode, i: int) -> Texel {
    Texel {
        pos: Position2D { x: (start_x + i) as i32, y },
        bg: color_pair(colors[i], cm).0,
        fg: color_pair(colors[i], cm).1,
        symbol: color_selector()[i],
        styles: bold_styles(),
    }
}

/// Texel showing palette slot `index` of `colors` at `pos` in mode `cm`
pub open spec fn spec_selector_texel(colors: Seq<u8>, index: usize, pos: Position2D, cm: ColorMode) -> Texel {
    Texel {
        pos,
        bg: color_pair(colors[index as int], cm).0,
        fg: color_pair(colors[index as int], cm).1,
        symbol: (spec_index_from_one(index) as u8) as char,
        styles: bold_styles(),
    }
}

/// Luminance of `color`, see `spec_luminance`
pub fn luminance(color: u8) -> (r: u8)
    ensures
        r == spec_luminance(color),
{
    let base = color.wrapping_sub(16);
    assert(base == (color - 16) % 256);
    let r = (base / 36) as u32;
    let g = ((base / 6) % 6) as u32;
    let b = (base % 6) as u32;
    ((2126 * r + 7151 * g + 721 * b) / 10000) as u8
}

/// A gray that stands out against `color`
pub fn invert_luminance(color: u8) -> (r: u8)
    ensures
        r == spec_invert_luminance(color),
{
    if luminance(color) >= 2 {
        Terminal::grayscale_u8(5)
    } else {
        Terminal::grayscale_u8(17)
    }
}

pub struct ColorPalette {
    colors: [u8; 16],
}

impl ColorPalette {
    /// The palette's colors in slot order
    pub closed spec fn spec_colors(&self) -> Seq<u8> {
        self.colors@
    }

    pub proof fn lemma_len(&self)
        ensures
            self.spec_colors().len() == COLORS_IN_PALETTE,
    {
    }

    /// The default palette
    pub fn default_palette() -> (r: ColorPalette)
        ensures
            r.spec_colors() == default_palette_colors(),
    {
        let colors: [u8; 16] = [
            cc(3, 3, 3),
            cc(0, 0, 0),
            cc(5, 0, 0),
            cc(0, 5, 0),
            cc(0, 0, 5),
            cc(5, 5, 0),
            cc(0, 5, 5),
            cc(5, 0, 5),
            cc(2, 5, 2),
            cc(5, 2, 2),
            cc(2, 2, 5),
            cc(2, 5, 5),
            cc(5, 5, 2),
            cc(5, 2, 5),
            27,
            28,
        ];
        let r = ColorPalette { colors };
        assert(r.spec_colors() =~= default_palette_colors());
        r
    }

    /// Palette of the given colors; slots past their end hold 0
    pub fn from_colors(colors: &[u8]) -> (r: ColorPalette)
        requires
            colors@.len() <= COLORS_IN_PALETTE,
        ensures
            forall|i: int|
                0 <= i < COLORS_IN_PALETTE ==> #[trigger] r.spec_colors()[i] == if i < colors@.len() {
                    colors@[i]
                } else {
                    0u8
                },
    {
        let mut palette_colors: [u8; 16] = [0; 16];
        let mut i: usize = 0;
        while i < colors.len()
            invariant
                colors@.len() <= 16,
                i <= colors@.len(),
                palette_colors@.len() == 16,
                forall|j: int|
                    0 <= j < 16 ==> #[trigger] palette_colors@[j] == if j < i {
                        colors@[j]
                    } else {
                        0u8
                    },
            decreases colors@.len() - i,
        {
            palette_colors[i] = colors[i];
            i = i + 1;
        }
        ColorPalette { colors: palette_colors }
    }

    /// Color picked with the digit `index` (1 to 9, 0, then 10 to 15)
    pub fn color(&self, index: usize) -> (r: u8)
        requires
            index < COLORS_IN_PALETTE,
        ensures
            r == self.spec_colors()[color_slot(index)],
    {
        let mut i = index;
        if index == 0 {
            i = 9;
        } else if index < 10 {
            i = index - 1;
        }
        self.colors[i]
    }

    /// Sets the color in slot `index`; an index past the palette is an error
    pub fn set_color(&mut self, index: usize, color: u8) -> (r: Result<(), Error>)
        ensures
            index < COLORS_IN_PALETTE ==> r is Ok && final(self).spec_colors() == old(
                self,
            ).spec_colors().update(index as int, color),
            index >= COLORS_IN_PALETTE ==> final(self).spec_colors() == old(self).spec_colors() && (
            r matches Err(Error::ExecutionError(m)) && m@ == "Index out of bounds"@),
    {
        if index >= 16 {
            return Err(Error::execution("Index out of bounds"));
        }
        self.colors[index] = color;
        Ok(())
    }

    /// Background of a region being selected: a dark gray
    pub fn subselection_bg_u8() -> (r: u8)
        ensures
            r == 0xE8 + 10,
    {
        Terminal::grayscale_u8(10)
    }

    /// Cube index of a position inside the palette
    pub fn pos_to_base(pos: Position2D) -> (r: u8)
        requires
            i32::MIN <= pos.y * PALETTE_W <= i32::MAX,
            spec_pos_to_base(pos) <= u8::MAX,
        ensures
            r == spec_pos_to_base(pos),
    {
        (pos.y * PALETTE_W) as u8 + pos.x as u8
    }

    /// Color cube coordinates of a cube index
    pub fn base_to_rgb(base: u8) -> (r: (u8, u8, u8))
        ensures
            r == spec_base_to_rgb(base),
    {
        (base / 36, (base / 6) % 6, base % 6)
    }

    /// Texel showing palette slot `index` at `pos` in mode `cm`: the digit picking it (as a
    /// byte, `index_from_one`) in bold, in the slot's color and a contrasting gray
    pub fn selector_texel(&self, index: usize, pos: Position2D, cm: ColorMode) -> (r: Texel)
        requires
            index < COLORS_IN_PALETTE,
        ensures
            r == spec_selector_texel(self.spec_colors(), index, pos, cm),
    {
        let color = self.colors[index];
        let (bg, fg) = match cm {
            ColorMode::Bg => (color, invert_luminance(color)),
            ColorMode::Fg => (invert_luminance(color), color),
        };
        let s_u8 = index_from_one(index) as u8;
        Texel { pos, fg, bg, symbol: s_u8 as char, styles: SymbolStyles::only(SymbolStyle::Bold) }
    }

    /// Texels of the palette line starting at `start_x` on row `y` in mode `cm`: the key of
    /// each slot in bold, in the slot's color and a contrasting gray
    pub fn line_texels(&self, start_x: i32, y: i32, cm: ColorMode) -> (r: Vec<Texel>)
        requires
            start_x + COLORS_IN_PALETTE <= i32::MAX,
        ensures
            r@.len() == COLORS_IN_PALETTE,
            forall|i: int|
                0 <= i < COLORS_IN_PALETTE ==> #[trigger] r@[i] == color_line_texel(self.spec_colors(), start_x, y, cm, i),
    {
        let selector = ['1', '2', '3', '4', '5', '6', '7', '8', '9', '0', 'a', 'b', 'c', 'd', 'e', 'f'];
        assert(selector@ =~= color_selector());
        let mut result: Vec<Texel> = Vec::new();
        let mut x = start_x;
        let mut i: usize = 0;
        while i < 16
            invariant
                i <= 16,
                self.colors@.len() == 16,
                selector@ == color_selector(),
                start_x + 16 <= i32::MAX,
                x == start_x + i,
                result@.len() == i,
                forall|k: int|
                    0 <= k < i ==> #[trigger] result@[k] == color_line_texel(self.colors@, start_x, y, cm, k),
            decreases 16 - i,
        {
            let color = self.colors[i];
            let (bg, fg) = match cm {
                ColorMode::Bg => (color, invert_luminance(color)),
                ColorMode::Fg => (invert_luminance(color), color),
            };
            result.push(
                Texel { pos: Position2D { x, y }, fg, bg, symbol: selector[i], styles: SymbolStyles::only(SymbolStyle::Bold) },
            );
            x = x + 1;
            i = i + 1;
        }
        result
    }

    /// Color under the screen position `pos` of a palette drawn at the bottom of a screen
    /// `screen_h` rows high; positions past the cube give black
    pub fn pos_to_color(pos: Position2D, screen_h: u16) -> (r: u8)
        requires
            pos_to_color_fits(pos, screen_h),
        ensures
            r == spec_pos_to_color(pos, screen_h),
    {
        let min_y: i32 = screen_h as i32 - PALETTE_H;
        let rel = Position2D { x: pos.x - PALETTE_OFFSET, y: pos.y - min_y };
        let mut base = Self::pos_to_base(rel);
        if base >= MAX_COLOR_INDEX {
            base = 0;
        }
        base + 16
    }

    /// Sequence resetting the foreground color
    pub fn default_fg() -> (r: &'static str)
        ensures
            r@ == seq!['\x1b', '[', '3', '9', 'm'],
    {
        termion_reset_fg()
    }

    /// Sequence resetting the background color
    pub fn default_bg() -> (r: &'static str)
        ensures
            r@ == seq!['\x1b', '[', '4', '9', 'm'],
    {
        termion_reset_bg()
    }

    /// Sequence selecting `color` for the foreground
    pub fn u8_to_fg(color: u8) -> (r: String)
        ensures
            r@ == crate::os::fg_seq(color),
    {
        termion_fg_string(color)
    }

    /// Sequence selecting `color` for the background
    pub fn u8_to_bg(color: u8) -> (r: String)
        ensures
            r@ == crate::os::bg_seq(color),
    {
        termion_bg_string(color)
    }

    /// Status line text of the palette: each entry's selector drawn in its colors, where
    /// every entry replaces the text before it, so the last one is what remains
    pub fn line_str(&self) -> (r: String)
        ensures
            r@ == crate::os::bg_seq(self.spec_colors()[15]) + crate::os::fg_seq(
                self.spec_colors()[15],
            ) + seq![color_selector()[15]],
    {
        let selector: [&'static str; 16] = [
            "1",
            "2",
            "3",
            "4",
            "5",
            "6",
            "7",
            "8",
            "9",
            "0",
            "a",
            "b",
            "c",
            "d",
            "e",
            "f",
        ];
        let mut result = String::new();
        let mut i: usize = 0;
        while i < 16
            invariant
                i <= 16,
                self.colors@.len() == 16,
                selector@ == seq![
                    "1",
                    "2",
                    "3",
                    "4",
                    "5",
                    "6",
                    "7",
                    "8",
                    "9",
                    "0",
                    "a",
                    "b",
                    "c",
                    "d",
                    "e",
                    "f",
                ],
                i > 0 ==> result@ == crate::os::bg_seq(self.colors@[i - 1]) + crate::os::fg_seq(
                    self.colors@[i - 1],
                ) + selector@[i - 1]@,
            decreases 16 - i,
        {
            let c = self.colors[i];
            let mut line = Self::u8_to_bg(c);
            let fg = Self::u8_to_fg(c);
            line.append(fg.as_str());
            line.append(selector[i]);
            result = line;
            i = i + 1;
        }
        proof {
            reveal_strlit("f");
            assert(selector@[15]@ =~= seq![color_selector()[15]]);
        }
        result
    }
}

/// Symbols of the default palette
pub open spec fn default_symbols() -> Seq<char> {
    seq!['|', '-', '_', '=', '\\', '/', '[', ']', '~', 'O', '*', '^', '#', '@', '!', '?']
}

/// The texel of a palette line for the `i`th of its 32 cells: symbols with a blank after each
pub open spec fn symbol_line_texel(symbols: Seq<char>, start_x: i32, y: i32, i: int) -> Texel {
    Texel {
        pos: Position2D { x: (start_x + i) as i32, y },
        symbol: if i % 2 == 0 {
            symbols[i / 2]
        } else {
            ' '
        },
        bg: DEFAULT_BG_U8,
        fg: DEFAULT_FG_U8,
        styles: SymbolStyles::spec_empty(),
    }
}

/// Sixteen symbols to draw with
pub struct SymbolPalette {
    symbols: [char; 16],
}

impl SymbolPalette {
    /// The palette's symbols in slot order
    pub closed spec fn spec_symbols(&self) -> Seq<char> {
        self.symbols@
    }

    pub proof fn lemma_len(&self)
        ensures
            self.spec_symbols().len() == SYMBOLS_IN_PALETTE,
    {
    }

    /// The default palette
    pub fn default_palette() -> (r: SymbolPalette)
        ensures
            r.spec_symbols() == default_symbols(),
    {
        let r = SymbolPalette {
            symbols: ['|', '-', '_', '=', '\\', '/', '[', ']', '~', 'O', '*', '^', '#', '@', '!', '?'],
        };
        assert(r.spec_symbols() =~= default_symbols());
        r
    }

    /// Palette of the given symbols; slots past their end hold blanks
    pub fn from_symbols(symbols: &[char]) -> (r: SymbolPalette)
        requires
            symbols@.len() <= SYMBOLS_IN_PALETTE,
        ensures
            forall|i: int|
                0 <= i < SYMBOLS_IN_PALETTE ==> #[trigger] r.spec_symbols()[i] == if i
                    < symbols@.len() {
                    symbols@[i]
                } else {
                    ' '
                },
    {
        let mut chars: [char; 16] = [' '; 16];
        let mut i: usize = 0;
        while i < symbols.len()
            invariant
                symbols@.len() <= 16,
                i <= symbols@.len(),
                chars@.len() == 16,
                forall|j: int|
                    0 <= j < 16 ==> #[trigger] chars@[j] == if j < i {
                        symbols@[j]
                    } else {
                        ' '
                    },
            decreases symbols@.len() - i,
        {
            chars[i] = symbols[i];
            i = i + 1;
        }
        SymbolPalette { symbols: chars }
    }

    /// Symbol in slot `index`
    pub fn symbol(&self, index: usize) -> (r: char)
        requires
            index < SYMBOLS_IN_PALETTE,
        ensures
            r == self.spec_symbols()[index as int],
    {
        self.symbols[index]
    }

    /// Sets the symbol in slot `index`; an index past the palette is an error
    pub fn set_symbol(&mut self, index: usize, symbol: char) -> (r: Result<(), Error>)
        ensures
            index < SYMBOLS_IN_PALETTE ==> r is Ok && final(self).spec_symbols() == old(
                self,
            ).spec_symbols().update(index as int, symbol),
            index >= SYMBOLS_IN_PALETTE ==> final(self).spec_symbols() == old(self).spec_symbols()
                && (r matches Err(Error::ExecutionError(m)) && m@ == "Symbol index out of bounds"@),
    {
        if index >= 16 {
            return Err(Error::execution("Symbol index out of bounds"));
        }
        self.symbols[index] = symbol;
        Ok(())
    }

    /// Texels of the palette line starting at `start_x` on row `y`: each symbol followed by
    /// a blank, in the default colors
    pub fn line_texels(&self, start_x: i32, y: i32) -> (r: Vec<Texel>)
        requires
            start_x + 32 <= i32::MAX,
        ensures
            r@.len() == 32,
            forall|i: int|
                0 <= i < 32 ==> #[trigger] r@[i] == symbol_line_texel(self.spec_symbols(), start_x, y, i),
    {
        let mut result: Vec<Texel> = Vec::new();
        let mut x = start_x;
        let mut k: usize = 0;
        while k < 16
            invariant
                k <= 16,
                self.symbols@.len() == 16,
                start_x + 32 <= i32::MAX,
                x == start_x + 2 * k,
                result@.len() == 2 * k,
                forall|i: int|
                    0 <= i < 2 * k ==> #[trigger] result@[i] == symbol_line_texel(
                        self.symbols@,
                        start_x,
                        y,
                        i,
                    ),
            decreases 16 - k,
        {
            result.push(
                Texel {
                    pos: Position2D { x, y },
                    symbol: self.symbols[k],
                    bg: DEFAULT_BG_U8,
                    fg: DEFAULT_FG_U8,
                    styles: SymbolStyles::new(),
                },
            );
            x = x + 1;
            result.push(
                Texel {
                    pos: Position2D { x, y },
                    symbol: ' ',
                    bg: DEFAULT_BG_U8,
                    fg: DEFAULT_FG_U8,
                    styles: SymbolStyles::new(),
                },
            );
            x = x + 1;
            proof {
                let n = 2 * k as int;
                assert(n / 2 == k as int) by (nonlinear_arith)
                    requires
                        n == 2 * k,
                ;
                assert((n + 1) / 2 == k as int) by (nonlinear_arith)
                    requires
                        n == 2 * k,
                ;
                assert(n % 2 == 0) by (nonlinear_arith)
                    requires
                        n == 2 * k,
                ;
                assert((n + 1) % 2 == 1) by (nonlinear_arith)
                    requires
                        n == 2 * k,
                ;
                assert(result@[n] == symbol_line_texel(self.symbols@, start_x, y, n));
                assert(result@[n + 1] == symbol_line_texel(self.symbols@, start_x, y, n + 1));
            }
            k = k + 1;
        }
        result
    }
}

} // verus!
