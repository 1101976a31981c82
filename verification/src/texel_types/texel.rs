use crate::texel_types::Position2D;
use vstd::prelude::*;

verus! {

/// Symbol styles
#[derive(Debug, Clone, Copy, PartialEq, Eq, Structural)]
pub enum SymbolStyle {
    Bold,
    Italic,
    Underline,
}

/// Background / foreground selector
#[derive(Debug, Clone, Copy, PartialEq, Eq, Structural)]
pub enum ColorMode {
    Bg,
    Fg,
}

/// Set of `SymbolStyle`, one flag per style.
#[derive(Debug, Clone, Copy, PartialEq, Eq, Structural)]
pub struct SymbolStyles {
    pub bold: bool,
    pub italic: bool,
    pub underline: bool,
}

impl SymbolStyles {
    pub open spec fn has(self, style: SymbolStyle) -> bool {
        match style {
            SymbolStyle::Bold => self.bold,
            SymbolStyle::Italic => self.italic,
            SymbolStyle::Underline => self.underline,
        }
    }

    /// The set with `style` set to `on`, all other flags kept.
    pub open spec fn with(self, style: SymbolStyle, on: bool) -> SymbolStyles {
        match style {
            SymbolStyle::Bold => SymbolStyles { bold: on, ..self },
            SymbolStyle::Italic => SymbolStyles { italic: on, ..self },
            SymbolStyle::Underline => SymbolStyles { underline: on, ..self },
        }
    }

    /// The set with `style` flipped.
    pub open spec fn toggled(self, style: SymbolStyle) -> SymbolStyles {
        self.with(style, !self.has(style))
    }

    pub open spec fn spec_empty() -> SymbolStyles {
        SymbolStyles { bold: false, italic: false, underline: false }
    }

    /// Empty set
    pub fn new() -> (r: Self)
        ensures
            r == Self::spec_empty(),
    {
        SymbolStyles { bold: false, italic: false, underline: false }
    }

    /// Set holding only `style`
    pub fn only(style: SymbolStyle) -> (r: Self)
        ensures
            r == Self::spec_empty().with(style, true),
    {
        let mut r = Self::new();
        r.insert(style);
        r
    }

    pub fn contains(&self, style: SymbolStyle) -> (r: bool)
        ensures
            r == self.has(style),
    {
        match style {
            SymbolStyle::Bold => self.bold,
            SymbolStyle::Italic => self.italic,
            SymbolStyle::Underline => self.underline,
        }
    }

    pub fn insert(&mut self, style: SymbolStyle)
        ensures
            *final(self) == old(self).with(style, true),
    {
        match style {
            SymbolStyle::Bold => self.bold = true,
            SymbolStyle::Italic => self.italic = true,
            SymbolStyle::Underline => self.underline = true,
        }
    }

    pub fn remove(&mut self, style: SymbolStyle)
        ensures
            *final(self) == old(self).with(style, false),
    {
        match style {
            SymbolStyle::Bold => self.bold = false,
            SymbolStyle::Italic => self.italic = false,
            SymbolStyle::Underline => self.underline = false,
        }
    }

    /// Flips the given style: removes it when present, inserts it otherwise.
    pub fn toggle(&mut self, style: SymbolStyle)
        ensures
            *final(self) == old(self).toggled(style),
    {
        if self.contains(style) {
            self.remove(style);
        } else {
            self.insert(style);
        }
    }
}

/// Sprite texel with plain coordinates (sprite file format V1)
#[derive(Debug, Clone, Copy, PartialEq, Eq, Structural)]
pub struct TexelV1 {
    pub x: i32,
    pub y: i32,
    pub symbol: char,
    pub styles: SymbolStyles,
    pub fg: u8,
    pub bg: u8,
}

impl TexelV1 {
    /// The texel shifted by `(dx, dy)`.
    pub open spec fn shifted(self, dx: int, dy: int) -> TexelV1 {
        TexelV1 { x: (self.x + dx) as i32, y: (self.y + dy) as i32, ..self }
    }

    /// Copy of this texel moved so that `pos` becomes the origin
    pub fn moved_from(&self, pos: Position2D) -> (r: Self)
        requires
            i32::MIN <= self.x - pos.x <= i32::MAX,
            i32::MIN <= self.y - pos.y <= i32::MAX,
        ensures
            r == self.shifted(-pos.x, -pos.y),
    {
        let mut result = *self;
        result.x = result.x - pos.x;
        result.y = result.y - pos.y;
        result
    }

    /// This texel moved by `pos`
    pub fn move_by(self, pos: Position2D) -> (r: Self)
        requires
            i32::MIN <= self.x + pos.x <= i32::MAX,
            i32::MIN <= self.y + pos.y <= i32::MAX,
        ensures
            r == self.shifted(pos.x as int, pos.y as int),
    {
        let mut moved = self;
        moved.x = moved.x + pos.x;
        moved.y = moved.y + pos.y;
        moved
    }

    pub fn override_bg(&mut self, bg: u8)
        ensures
            *final(self) == (TexelV1 { bg, ..*old(self) }),
    {
        self.bg = bg;
    }
}

/// Screen texel, a symbol with styles and colors at a 2D position
#[derive(Debug, Clone, Copy, PartialEq, Eq, Structural)]
pub struct Texel {
    pub pos: Position2D,
    pub symbol: char,
    pub styles: SymbolStyles,
    pub fg: u8,
    pub bg: u8,
}

/// Default background color for sprites
pub const DEFAULT_BG_U8: u8 = 16;

/// Default foreground color for sprites
pub const DEFAULT_FG_U8: u8 = 0xE8 + 16;

/// The texel drawn for the `i`th character of a line starting at `start`.
pub open spec fn line_texel(c: char, start: Position2D, i: int) -> Texel {
    Texel {
        symbol: c,
        pos: Position2D { x: (start.x + i) as i32, y: start.y },
        styles: SymbolStyles::spec_empty(),
        bg: DEFAULT_BG_U8,
        fg: DEFAULT_FG_U8,
    }
}

/// One texel per character of `s`, laid out to the right of `start`
pub fn texels_from_str(s: &str, start: Position2D) -> (r: Vec<Texel>)
    requires
        start.x + s@.len() <= i32::MAX + 1,
    ensures
        r@.len() == s@.len(),
        forall|i: int| 0 <= i < s@.len() ==> #[trigger] r@[i] == line_texel(s@[i], start, i),
{
    let n = s.unicode_len();
    let mut result: Vec<Texel> = Vec::new();
    let mut i: usize = 0;
    while i < n
        invariant
            n == s@.len(),
            i <= n,
            start.x + n <= i32::MAX + 1,
            result@.len() == i,
            forall|j: int| 0 <= j < i ==> #[trigger] result@[j] == line_texel(s@[j], start, j),
        decreases n - i,
    {
        let c = s.get_char(i);
        let x = (start.x as i64 + i as i64) as i32;
        result.push(
            Texel {
                symbol: c,
                pos: Position2D { x, y: start.y },
                styles: SymbolStyles::new(),
                bg: DEFAULT_BG_U8,
                fg: DEFAULT_FG_U8,
            },
        );
        proof {
            assert(result@[i as int] == line_texel(s@[i as int], start, i as int));
        }
        i = i + 1;
    }
    result
}

/// Writes the characters of `s` into the symbols of `texels` from `start_x` on.
/// Nothing is written, and `false` returned, when the text would run past the end.
pub fn write_to_texels(s: &str, texels: &mut Vec<Texel>, start_x: usize) -> (r: bool)
    ensures
        r == (start_x + s@.len() <= old(texels)@.len()),
        final(texels)@.len() == old(texels)@.len(),
        forall|i: int|
            0 <= i < old(texels)@.len() ==> #[trigger] final(texels)@[i] == if r && start_x <= i
                < start_x + s@.len() {
                Texel { symbol: s@[i - start_x], ..old(texels)@[i] }
            } else {
                old(texels)@[i]
            },
{
    let n = s.unicode_len();
    if n > texels.len() || start_x > texels.len() - n {
        return false;
    }
    let mut i: usize = 0;
    while i < n
        invariant
            n == s@.len(),
            i <= n,
            start_x + n <= old(texels)@.len(),
            start_x + n <= texels@.len(),
            texels@.len() == old(texels)@.len(),
            forall|k: int|
                0 <= k < old(texels)@.len() ==> #[trigger] texels@[k] == if start_x <= k < start_x
                    + i {
                    Texel { symbol: s@[k - start_x], ..old(texels)@[k] }
                } else {
                    old(texels)@[k]
                },
        decreases n - i,
    {
        let c = s.get_char(i);
        assert(start_x + i < texels.len());
        let j: usize = start_x + i;
        let mut t = texels[j];
        t.symbol = c;
        texels.set(j, t);
        i = i + 1;
    }
    true
}

} // verus!
