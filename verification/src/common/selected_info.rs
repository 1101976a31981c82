//! The status line in the bottom right corner: unsaved marker, colors, position of the
//! selection, its frame, and the viewport offset.

use crate::os::{decimal, Terminal};
use crate::resources::State;
use crate::texel_types::{
    line_texel, texels_from_str, write_to_texels, ColorMode, Position, Position2D, Sprite, SymbolStyle,
    SymbolStyles, Texel,
};
use vstd::prelude::*;

verus! {

/// Status of the selected objects and of the viewport
#[derive(Debug, Clone, Copy)]
pub struct SelectedInfo {
    pub selected_count: usize,
    pub frame_index: usize,
    pub frame_count: usize,
    /// top left position
    pub pos: Position,
    /// viewport offset
    pub offset: Position2D,
}

/// Layout of the status line
pub const SELECTED_INFO_TEMPLATE: &'static str = "*▞     ,   ,    :    /    :    ,    ";

/// Decimal text of `x`, with a minus sign when negative
pub open spec fn signed_decimal(x: int) -> Seq<char> {
    if x < 0 {
        seq!['-'] + decimal((-x) as nat)
    } else {
        decimal(x as nat)
    }
}

/// The line with the symbols from `start` on replaced by `s`, unchanged when `s` would not
/// fit
pub open spec fn written(line: Seq<Texel>, s: Seq<char>, start: int) -> Seq<Texel> {
    if 0 <= start && start + s.len() <= line.len() {
        Seq::new(
            line.len(),
            |i: int|
                if start <= i < start + s.len() {
                    with_symbol(line[i], s[i - start])
                } else {
                    line[i]
                },
        )
    } else {
        line
    }
}

/// The texel with its symbol replaced
pub open spec fn with_symbol(t: Texel, c: char) -> Texel {
    Texel { symbol: c, ..t }
}

/// Coordinates written right aligned in fields ending at `start_x`, `start_x + 4` and,
/// with a third one, `start_x + 8`
pub open spec fn coords_written(line: Seq<Texel>, x: i32, y: i32, z: Option<i32>, start_x: int) -> Seq<Texel> {
    let sx = signed_decimal(x as int);
    let sy = signed_decimal(y as int);
    let l = written(written(line, sx, start_x - sx.len()), sy, start_x + 4 - sy.len());
    match z {
        Some(z) => written(l, signed_decimal(z as int), start_x + 8 - signed_decimal(z as int).len()),
        None => l,
    }
}

/// The colors and styles of the status line: the unsaved marker in bold, the current
/// colors, the selection position in bold white, the frame in dark green, the viewport
/// offset in dark blue
pub open spec fn styled(line: Seq<Texel>, colors: (u8, u8), unsaved: bool) -> Seq<Texel> {
    Seq::new(
        line.len(),
        |i: int|
            if i == 0 {
                Texel {
                    styles: SymbolStyles::spec_empty().with(SymbolStyle::Bold, true),
                    symbol: if unsaved {
                        '*'
                    } else {
                        ' '
                    },
                    ..line[i]
                }
            } else if i == 1 {
                Texel { fg: colors.1, bg: colors.0, ..line[i] }
            } else if 3 <= i < 16 {
                Texel { styles: SymbolStyles::spec_empty().with(SymbolStyle::Bold, true), fg: 255u8, ..line[i] }
            } else if 17 <= i < 26 {
                Texel { fg: 71u8, ..line[i] }
            } else if i >= 27 {
                Texel { fg: 61u8, ..line[i] }
            } else {
                line[i]
            },
    )
}

/// The template laid out on the last row, ending one column before the right edge
pub open spec fn template_line(start: Position2D) -> Seq<Texel> {
    let t = SELECTED_INFO_TEMPLATE@;
    Seq::new(t.len(), |i: int| line_texel(t[i], start, i))
}

/// The status line of `info` on a screen `w` by `h` with the current `colors` (background,
/// foreground)
pub open spec fn info_line(info: SelectedInfo, colors: (u8, u8), unsaved: bool, w: u16, h: u16) -> Seq<Texel> {
    let start = Position2D { x: (w - 38 - 1) as i32, y: (h - 1) as i32 };
    let l0 = template_line(start);
    let l1 = if info.selected_count > 0 {
        coords_written(
            coords_written(l0, info.pos.x, info.pos.y, Some(info.pos.z), 7),
            (info.frame_index as i32 + 1) as i32,
            info.frame_count as i32,
            None,
            21,
        )
    } else {
        l0
    };
    styled(coords_written(l1, info.offset.x, info.offset.y, None, 31), colors, unsaved)
}

/// Text of the decimal digits of `n`
pub fn digits_of(n: u32) -> (r: Vec<char>)
    ensures
        r@ == decimal(n as nat),
    decreases n,
{
    let d: u8 = (n % 10) as u8;
    let c: char = (48u8 + d) as char;
    if n < 10 {
        let mut v: Vec<char> = Vec::new();
        v.push(c);
        assert(v@ =~= decimal(n as nat));
        v
    } else {
        let mut v = digits_of(n / 10);
        v.push(c);
        v
    }
}

/// Decimal text of `x`, as `format!("{}", x)` writes it
pub fn decimal_string(x: i32) -> (r: String)
    ensures
        r@ == signed_decimal(x as int),
{
    let mut chars: Vec<char> = Vec::new();
    let magnitude: u32 = if x < 0 {
        chars.push('-');
        (-(x as i64)) as u32
    } else {
        x as u32
    };
    let digits = digits_of(magnitude);
    let mut i: usize = 0;
    let ghost start = chars@;
    while i < digits.len()
        invariant
            i <= digits@.len(),
            chars@ == start + digits@.take(i as int),
        decreases digits@.len() - i,
    {
        chars.push(digits[i]);
        assert(digits@.take(i + 1) =~= digits@.take(i as int).push(digits@[i as int]));
        i = i + 1;
    }
    assert(digits@.take(digits@.len() as int) =~= digits@);
    assert(chars@ =~= signed_decimal(x as int));
    crate::common::text::string_of(&chars)
}

/// Ten to the power `k`
pub open spec fn pow10(k: nat) -> nat
    decreases k,
{
    if k == 0 {
        1
    } else {
        10 * pow10((k - 1) as nat)
    }
}

proof fn lemma_decimal_len(n: nat, k: nat)
    requires
        1 <= k,
        n < pow10(k),
    ensures
        1 <= decimal(n).len() <= k,
    decreases n,
{
    if n >= 10 {
        assert(k >= 2) by {
            if k == 1 {
                assert(pow10(1) == 10 * pow10(0));
            }
        }
        assert(pow10(k) == 10 * pow10((k - 1) as nat));
        lemma_decimal_len(n / 10, (k - 1) as nat);
    }
}

/// Decimal text of any `u32` has at most ten characters
pub proof fn lemma_u32_text(n: u32)
    ensures
        1 <= decimal(n as nat).len() <= 10,
{
    assert(pow10(10) == 10_000_000_000) by {
        reveal_with_fuel(pow10, 11);
    }
    lemma_decimal_len(n as nat, 10);
}

/// Decimal text of any `i32` has at most eleven characters
pub proof fn lemma_i32_text(x: i32)
    ensures
        1 <= signed_decimal(x as int).len() <= 11,
{
    assert(pow10(10) == 10_000_000_000) by {
        reveal_with_fuel(pow10, 11);
    }
    lemma_decimal_len(if x < 0 { (-x) as nat } else { x as nat }, 10);
}

fn write_text(s: &String, line: &mut Vec<Texel>, start_x: usize)
    ensures
        final(line)@ == written(old(line)@, s@, start_x as int),
        final(line)@.len() == old(line)@.len(),
{
    let text = s.as_str();
    write_to_texels(text, line, start_x);
    assert(line@ =~= written(old(line)@, s@, start_x as int));
}

/// Writes coordinates right aligned in fields ending at `start_x`, `start_x + 4` and, with
/// a third one, `start_x + 8`; returns the width used
fn write_coords_to_line(x: i32, y: i32, maybe_z: Option<i32>, start_x: usize, line: &mut Vec<Texel>) -> (r: usize)
    requires
        signed_decimal(x as int).len() <= start_x,
        start_x >= 7,
        start_x < 64,
    ensures
        final(line)@ == coords_written(old(line)@, x, y, maybe_z, start_x as int),
        final(line)@.len() == old(line)@.len(),
        r == if maybe_z is Some {
            8usize
        } else {
            4usize
        },
{
    proof {
        lemma_i32_text(y);
        if let Some(z) = maybe_z {
            lemma_i32_text(z);
        }
    }
    let str_x = decimal_string(x);
    let str_y = decimal_string(y);
    write_text(&str_x, line, start_x - str_x.unicode_len());
    write_text(&str_y, line, start_x + 4 - str_y.unicode_len());
    if let Some(z) = maybe_z {
        let str_z = decimal_string(z);
        write_text(&str_z, line, start_x + 8 - str_z.unicode_len());
        8
    } else {
        4
    }
}

fn restyle(line: &mut Vec<Texel>, i: usize, fg: u8, bold: bool)
    requires
        i < old(line)@.len(),
    ensures
        final(line)@ == old(line)@.update(
            i as int,
            if bold {
                Texel { styles: SymbolStyles::spec_empty().with(SymbolStyle::Bold, true), fg, ..old(line)@[i as int] }
            } else {
                Texel { fg, ..old(line)@[i as int] }
            },
        ),
{
    let mut t = line[i];
    t.fg = fg;
    if bold {
        t.styles = SymbolStyles::only(SymbolStyle::Bold);
    }
    line.set(i, t);
}

impl SelectedInfo {
    /// Nothing selected, the position at its largest and the viewport at the origin
    pub fn default_info() -> (r: Self)
        ensures
            r.selected_count == 0 && r.frame_index == 0 && r.frame_count == 0,
            r.pos == (Position { x: i32::MAX, y: i32::MAX, z: 0 }),
            r.offset == (Position2D { x: 0, y: 0 }),
    {
        SelectedInfo {
            selected_count: 0,
            frame_index: 0,
            frame_count: 0,
            pos: Position { x: i32::MAX, y: i32::MAX, z: 0 },
            offset: Position2D { x: 0, y: 0 },
        }
    }

    /// Nothing selected yet, with the viewport at `pos`
    pub fn from_offset(pos: Position2D) -> (r: Self)
        ensures
            r.selected_count == 0 && r.frame_index == 0 && r.frame_count == 0,
            r.pos == (Position { x: i32::MAX, y: i32::MAX, z: 0 }),
            r.offset == pos,
    {
        let mut result = SelectedInfo::default_info();
        result.offset = pos;
        result
    }

    /// Counts a selected sprite at `pos`: its frame is shown, the position is the top left
    /// of all counted, and the depth is shown only for a single one
    pub fn append(&mut self, sprite: &Sprite, pos: &Position)
        requires
            old(self).selected_count < usize::MAX,
        ensures
            final(self).selected_count == old(self).selected_count + 1,
            final(self).frame_index == sprite.body.index,
            final(self).frame_count == sprite.body.frames@.len(),
            final(self).pos.x == if pos.x < old(self).pos.x {
                pos.x
            } else {
                old(self).pos.x
            },
            final(self).pos.y == if pos.y < old(self).pos.y {
                pos.y
            } else {
                old(self).pos.y
            },
            final(self).pos.z == if final(self).selected_count > 1 {
                0
            } else {
                pos.z
            },
            final(self).offset == old(self).offset,
    {
        self.selected_count = self.selected_count + 1;
        self.frame_index = sprite.body.frame_index();
        self.frame_count = sprite.body.frame_count();
        if pos.x < self.pos.x {
            self.pos.x = pos.x;
        }
        if pos.y < self.pos.y {
            self.pos.y = pos.y;
        }
        self.pos.z = pos.z;
        if self.selected_count > 1 {
            self.pos.z = 0;
        }
    }

    /// The status line on a screen `w` by `h`
    pub fn texels(&self, state: &State, w: u16, h: u16) -> (r: Vec<Texel>)
        requires
            self.selected_count > 0 ==> signed_decimal(self.pos.x as int).len() <= 7 && (self.frame_index as i32)
                < i32::MAX,
            h >= 1,
        ensures
            r@ == info_line(
                *self,
                state.spec_selected_color(),
                state.spec_unsaved_changes(),
                w,
                h,
            ),
    {
        proof {
            reveal_strlit("*▞     ,   ,    :    /    :    ,    ");
            lemma_i32_text(self.offset.x);
        }
        let start = Position2D { x: w as i32 - 38 - 1, y: h as i32 - 1 };
        let mut line = texels_from_str(SELECTED_INFO_TEMPLATE, start);
        assert(line@ =~= template_line(start));
        assert(line@.len() == 36);
        if self.selected_count > 0 {
            write_coords_to_line(self.pos.x, self.pos.y, Some(self.pos.z), 7, &mut line);
            proof {
                lemma_i32_text((self.frame_index as i32 + 1) as i32);
            }
            write_coords_to_line(self.frame_index as i32 + 1, self.frame_count as i32, None, 21, &mut line);
        }
        write_coords_to_line(self.offset.x, self.offset.y, None, 31, &mut line);
        assert(line@.len() == 36);
        let ghost before = line@;
        let white = Terminal::grayscale_u8(23);
        let dark_green = Terminal::rgb_u8(1, 3, 1);
        let dark_blue = Terminal::rgb_u8(1, 1, 3);
        let mut t1 = line[1];
        t1.fg = state.color(ColorMode::Fg);
        t1.bg = state.color(ColorMode::Bg);
        line.set(1, t1);
        let mut t0 = line[0];
        t0.styles = SymbolStyles::only(SymbolStyle::Bold);
        t0.symbol = if state.unsaved_changes() {
            '*'
        } else {
            ' '
        };
        line.set(0, t0);
        let mut i: usize = 3;
        while i < line.len()
            invariant
                3 <= i <= line@.len(),
                line@.len() == before.len(),
                line@.len() == 36,
                white == 0xE8 + 23,
                dark_green == 16 + 36 + 18 + 1,
                dark_blue == 16 + 36 + 6 + 3,
                forall|k: int|
                    0 <= k < line@.len() ==> #[trigger] line@[k] == if k < 3 || k >= i {
                        if k < 3 {
                            styled(before, state.spec_selected_color(), state.spec_unsaved_changes())[k]
                        } else {
                            before[k]
                        }
                    } else {
                        styled(before, state.spec_selected_color(), state.spec_unsaved_changes())[k]
                    },
            decreases line@.len() - i,
        {
            if i < 16 {
                restyle(&mut line, i, white, true);
            } else if 17 <= i && i < 26 {
                restyle(&mut line, i, dark_green, false);
            } else if i >= 27 {
                restyle(&mut line, i, dark_blue, false);
            }
            i = i + 1;
        }
        assert(line@ =~= styled(before, state.spec_selected_color(), state.spec_unsaved_changes()));
        line
    }
}

} // verus!
