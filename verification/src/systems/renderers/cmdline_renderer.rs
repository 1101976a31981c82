//! The status line at the bottom of the screen: the unsaved marker and the selected colors,
//! then the error shown, or what the current mode shows there.

use crate::common::text::{append, push_char};
use crate::common::{error_text, Mode, SelectMode};
use crate::os::Terminal;
use crate::resources::palette::{bold_styles, color_line_texel, spec_selector_texel, symbol_line_texel};
use crate::resources::sync_term::{lemma_put_all_concat, line_texels, put, put_all, SyncTerm};
use crate::resources::{
    CmdLine, CmdView, ColorPalette, State, SymbolPalette, COLORS_IN_PALETTE, PALETTE_H, PALETTE_OFFSET,
    SYMBOLS_IN_PALETTE,
};
use crate::texel_types::{Position2D, SymbolStyle, SymbolStyles, Texel, DEFAULT_BG_U8, DEFAULT_FG_U8};
use vstd::prelude::*;

verus! {

/// The light gray of the mode name
pub open spec fn status_white() -> u8 {
    255
}

/// `--NAME--` for the mode
pub open spec fn mode_banner(mode: Mode) -> Seq<char> {
    seq!['-', '-'] + mode.spec_name() + seq!['-', '-']
}

/// The unsaved marker and the swatch of the selected colors (background, foreground), left
/// of the position status on a screen `w` by `h`
pub open spec fn selected_colors_texels(colors: (u8, u8), unsaved: bool, w: int, h: int) -> Seq<Texel> {
    line_texels(
        w - 39,
        (h - 1) as i32,
        seq![
            if unsaved {
                '*'
            } else {
                ' '
            },
        ],
        DEFAULT_BG_U8,
        DEFAULT_FG_U8,
        SymbolStyles::spec_empty(),
    ) + line_texels(w - 38, (h - 1) as i32, seq!['▞'], colors.0, colors.1, SymbolStyles::spec_empty())
}

/// Cell `k` of the color cube shown above the status line: the cube's `k`th color, sixteen
/// cells a row
pub open spec fn cube_texel(h: int, k: int) -> Texel {
    Texel {
        pos: Position2D { x: (PALETTE_OFFSET + k % 16) as i32, y: (h - PALETTE_H + k / 16) as i32 },
        symbol: ' ',
        bg: (16 + k) as u8,
        fg: DEFAULT_FG_U8,
        styles: SymbolStyles::spec_empty(),
    }
}

/// The thirteen rows of the color cube shown while a palette color is picked
pub open spec fn color_cube_texels(h: int) -> Seq<Texel> {
    Seq::new(208, |k: int| cube_texel(h, k))
}

/// The mode name in bold light gray from column `x` of the bottom row
pub open spec fn banner_texels(mode: Mode, x: int, h: int) -> Seq<Texel> {
    line_texels(x, (h - 1) as i32, mode_banner(mode), DEFAULT_BG_U8, status_white(), bold_styles())
}

/// What the status line draws for the mode, after the selected colors
pub open spec fn mode_texels(mode: Mode, cmd: CmdView, symbols: Seq<char>, colors: Seq<u8>, h: int) -> Seq<Texel> {
    let y = (h - 1) as i32;
    match mode {
        Mode::Quitting(_) => Seq::empty(),
        Mode::Command => line_texels(
            0,
            y,
            seq![':'] + cmd.cmd,
            DEFAULT_BG_U8,
            DEFAULT_FG_U8,
            SymbolStyles::spec_empty(),
        ),
        Mode::Edit => banner_texels(mode, 0, h) + Seq::new(
            32,
            |i: int| symbol_line_texel(symbols, PALETTE_OFFSET, y, i),
        ),
        Mode::Color(cm) => banner_texels(mode, 0, h) + Seq::new(
            16,
            |i: int| color_line_texel(colors, PALETTE_OFFSET, y, cm, i),
        ),
        Mode::SelectSymbol(index) => banner_texels(mode, 1, h) + line_texels(
            PALETTE_OFFSET + 2 * index,
            y,
            seq![symbols[index as int]],
            DEFAULT_BG_U8,
            status_white(),
            bold_styles(),
        ),
        Mode::SelectColor(index, cm) => color_cube_texels(h) + banner_texels(mode, 1, h) + seq![
            spec_selector_texel(colors, index, Position2D { x: (PALETTE_OFFSET + index) as i32, y }, cm),
        ],
        _ => banner_texels(mode, 0, h),
    }
}

/// What the status line draws on a screen `w` by `h`, in order
pub open spec fn status_texels(state: State, cmd: CmdView, symbols: Seq<char>, colors: Seq<u8>, w: int, h: int) -> Seq<Texel> {
    selected_colors_texels(state.spec_selected_color(), state.spec_unsaved_changes(), w, h) + match state.spec_error() {
        Some(e) => line_texels(1, (h - 1) as i32, error_text(e), 196, 231, bold_styles()),
        None => mode_texels(state.spec_mode(), cmd, symbols, colors, h),
    }
}

/// Where the status line leaves the cursor on a screen `w` by `h`
pub open spec fn status_cursor(state: State, cmd: CmdView, w: int, h: int) -> (i32, i32) {
    let corner = ((w - 1) as i32, (h - 1) as i32);
    let cursor = (state.spec_cursor().x, state.spec_cursor().y);
    if state.spec_error() is Some {
        corner
    } else {
        match state.spec_mode() {
            Mode::Command => ((1 + cmd.cursor) as i32, h as i32),
            Mode::Object(SelectMode::Region) | Mode::Write | Mode::Edit | Mode::SelectColor(_, _) => cursor,
            Mode::SelectSymbol(_) => (w as i32, (h - 1) as i32),
            _ => corner,
        }
    }
}

/// Whether the texts of the status line fit the screen's coordinates, and the palette slot
/// that the mode picks exists
pub open spec fn status_fits(state: State, cmd: CmdView) -> bool {
    &&& cmd.cmd.len() < i32::MAX
    &&& (state.spec_error() matches Some(e) ==> error_text(e).len() < i32::MAX)
    &&& (state.spec_mode() matches Mode::SelectSymbol(i) ==> i < SYMBOLS_IN_PALETTE)
    &&& (state.spec_mode() matches Mode::SelectColor(i, _) ==> i < COLORS_IN_PALETTE)
}

/// `--NAME--` for the mode
fn banner(mode: Mode) -> (r: String)
    ensures
        r@ == mode_banner(mode),
{
    let mut s = String::new();
    push_char(&mut s, '-');
    push_char(&mut s, '-');
    append(&mut s, mode.to_str());
    push_char(&mut s, '-');
    push_char(&mut s, '-');
    assert(s@ =~= mode_banner(mode));
    s
}

/// Draws the mode name in bold light gray from column `x` of the bottom row
fn print_banner(out: &mut SyncTerm, mode: Mode, x: i32, h: i32)
    requires
        old(out).wf(),
        0 <= x <= 1,
        0 < h < u16::MAX,
    ensures
        final(out).wf(),
        final(out).width() == old(out).width(),
        final(out).height() == old(out).height(),
        final(out).origin() == old(out).origin(),
        final(out).previous() == old(out).previous(),
        final(out).cursor() == old(out).cursor(),
        final(out).current() == put_all(
            old(out).width(),
            old(out).height(),
            old(out).origin(),
            old(out).current(),
            banner_texels(mode, x as int, h as int),
        ),
{
    proof {
        mode.lemma_name_len();
    }
    let text = banner(mode);
    out.write_line(x, h - 1, text.as_str(), DEFAULT_BG_U8, Terminal::grayscale_u8(23), SymbolStyles::only(SymbolStyle::Bold));
}

/// Draws the unsaved marker and the swatch of the selected colors, and leaves the cursor
/// in the bottom right corner
fn print_selected_colors(out: &mut SyncTerm, state: &State, w: i32, h: i32)
    requires
        old(out).wf(),
        0 < w < u16::MAX,
        0 < h < u16::MAX,
    ensures
        final(out).wf(),
        final(out).width() == old(out).width(),
        final(out).height() == old(out).height(),
        final(out).origin() == old(out).origin(),
        final(out).previous() == old(out).previous(),
        final(out).cursor() == ((w - 1) as i32, (h - 1) as i32),
        final(out).current() == put_all(
            old(out).width(),
            old(out).height(),
            old(out).origin(),
            old(out).current(),
            selected_colors_texels(state.spec_selected_color(), state.spec_unsaved_changes(), w as int, h as int),
        ),
{
    let ghost (gw, gh, go) = (out.width(), out.height(), out.origin());
    let ghost c0 = out.current();
    let saved_symbol = if state.unsaved_changes() {
        "*"
    } else {
        " "
    };
    proof {
        reveal_strlit("*");
        reveal_strlit(" ");
        reveal_strlit("▞");
    }
    let bg = state.color(crate::texel_types::ColorMode::Bg);
    let fg = state.color(crate::texel_types::ColorMode::Fg);
    out.write_line_default(w - 39, h - 1, saved_symbol);
    out.write_line(w - 38, h - 1, "▞", bg, fg, SymbolStyles::new());
    out.set_cursor_pos(w - 1, h - 1);
    proof {
        let a = line_texels((w - 39) as int, (h - 1) as i32, saved_symbol@, DEFAULT_BG_U8, DEFAULT_FG_U8, SymbolStyles::spec_empty());
        let b = line_texels((w - 38) as int, (h - 1) as i32, "▞"@, bg, fg, SymbolStyles::spec_empty());
        lemma_put_all_concat(gw, gh, go, c0, a, b);
        assert(a + b =~= selected_colors_texels(state.spec_selected_color(), state.spec_unsaved_changes(), w as int, h as int));
    }
}

/// Draws the color cube above the status line, row after row
fn print_color_cube(out: &mut SyncTerm, h: i32)
    requires
        old(out).wf(),
        0 < h < u16::MAX,
    ensures
        final(out).wf(),
        final(out).width() == old(out).width(),
        final(out).height() == old(out).height(),
        final(out).origin() == old(out).origin(),
        final(out).previous() == old(out).previous(),
        final(out).cursor() == old(out).cursor(),
        final(out).current() == put_all(
            old(out).width(),
            old(out).height(),
            old(out).origin(),
            old(out).current(),
            color_cube_texels(h as int),
        ),
{
    let ghost (gw, gh, go) = (out.width(), out.height(), out.origin());
    let ghost c0 = out.current();
    let ghost cube = color_cube_texels(h as int);
    let min_y = h - PALETTE_H;
    let mut count: u8 = 0;
    while count < 208
        invariant
            0 < h < u16::MAX,
            min_y == h - PALETTE_H,
            count <= 208,
            cube == color_cube_texels(h as int),
            cube.len() == 208,
            out.wf(),
            out.width() == gw,
            out.height() == gh,
            out.origin() == go,
            out.previous() == old(out).previous(),
            out.cursor() == old(out).cursor(),
            c0 == old(out).current(),
            out.current() == put_all(gw, gh, go, c0, cube.take(count as int)),
        decreases 208 - count,
    {
        let (r, g, b) = ColorPalette::base_to_rgb(count);
        assert(36 * (count / 36) + 6 * ((count / 6) % 6) + count % 6 == count) by (nonlinear_arith)
            requires
                count < 216,
        ;
        let x = PALETTE_OFFSET + (count % 16) as i32;
        let y = min_y + (count / 16) as i32;
        let t = Texel {
            pos: Position2D { x, y },
            symbol: ' ',
            bg: Terminal::rgb_u8(r, g, b),
            fg: DEFAULT_FG_U8,
            styles: SymbolStyles::new(),
        };
        assert(t == cube_texel(h as int, count as int));
        assert(cube.take(count + 1).drop_last() =~= cube.take(count as int));
        out.write_texel(t);
        count = count + 1;
    }
    assert(cube.take(208) =~= cube);
}

/// Draws the status line: the unsaved marker and the selected colors, then the error when
/// there is one, or what the mode shows (the command typed, the mode name, the palettes),
/// and leaves the cursor where the mode wants it
pub fn render_cmdline(state: &State, cmdline: &CmdLine, symbols: &SymbolPalette, colors: &ColorPalette, out: &mut SyncTerm)
    requires
        old(out).wf(),
        state.wf(),
        cmdline.wf(),
        status_fits(*state, cmdline@),
    ensures
        final(out).wf(),
        final(out).width() == old(out).width(),
        final(out).height() == old(out).height(),
        final(out).origin() == old(out).origin(),
        final(out).previous() == old(out).previous(),
        final(out).current() == put_all(
            old(out).width(),
            old(out).height(),
            old(out).origin(),
            old(out).current(),
            status_texels(*state, cmdline@, symbols.spec_symbols(), colors.spec_colors(), old(out).width(), old(out).height()),
        ),
        final(out).cursor() == status_cursor(*state, cmdline@, old(out).width(), old(out).height()),
{
    let (sx, sy) = out.size();
    let w = sx as i32;
    let h = sy as i32;
    let ghost (gw, gh, go) = (out.width(), out.height(), out.origin());
    let ghost c0 = out.current();
    let ghost sel = selected_colors_texels(state.spec_selected_color(), state.spec_unsaved_changes(), gw, gh);
    print_selected_colors(out, state, w, h);
    let ghost c1 = out.current();
    let y = h - 1;
    let bold = SymbolStyles::only(SymbolStyle::Bold);
    let white = Terminal::grayscale_u8(23);
    if let Some(error) = state.error() {
        let text = error.to_string();
        out.write_line(1, y, text.as_str(), Terminal::rgb_u8(5, 0, 0), Terminal::rgb_u8(5, 5, 5), bold);
        proof {
            lemma_put_all_concat(gw, gh, go, c0, sel, line_texels(1, y, error_text(error@), 196, 231, bold_styles()));
        }
        return;
    }
    let mode = state.mode();
    let ghost rest = mode_texels(mode, cmdline@, symbols.spec_symbols(), colors.spec_colors(), gh);
    match mode {
        Mode::Quitting(_) => {
            assert(sel + rest =~= sel);
        },
        Mode::Command => {
            let mut text = String::new();
            push_char(&mut text, ':');
            append(&mut text, cmdline.cmd().as_str());
            out.write_line_default(0, y, text.as_str());
            out.set_cursor_pos(1 + cmdline.cursor_pos() as i32, h);
        },
        Mode::Object(select) => {
            print_banner(out, mode, 0, h);
            match select {
                SelectMode::Region => {
                    let cursor = state.cursor();
                    out.set_cursor_pos(cursor.x, cursor.y);
                },
                _ => {},
            }
        },
        Mode::Help(_) => {
            print_banner(out, mode, 0, h);
        },
        Mode::Write => {
            print_banner(out, mode, 0, h);
            let cursor = state.cursor();
            out.set_cursor_pos(cursor.x, cursor.y);
        },
        Mode::Edit => {
            print_banner(out, mode, 0, h);
            let ghost c2 = out.current();
            let line = symbols.line_texels(PALETTE_OFFSET, y);
            let ghost banner_part = banner_texels(mode, 0, gh);
            assert(line@ =~= Seq::new(32, |i: int| symbol_line_texel(symbols.spec_symbols(), PALETTE_OFFSET, y, i)));
            out.write_texels(line);
            let cursor = state.cursor();
            out.set_cursor_pos(cursor.x, cursor.y);
            proof {
                lemma_put_all_concat(gw, gh, go, c1, banner_part, line@);
            }
        },
        Mode::Color(cm) => {
            print_banner(out, mode, 0, h);
            let line = colors.line_texels(PALETTE_OFFSET, y, cm);
            let ghost banner_part = banner_texels(mode, 0, gh);
            assert(line@ =~= Seq::new(16, |i: int| color_line_texel(colors.spec_colors(), PALETTE_OFFSET, y, cm, i)));
            out.write_texels(line);
            proof {
                lemma_put_all_concat(gw, gh, go, c1, banner_part, line@);
            }
        },
        Mode::SelectSymbol(index) => {
            print_banner(out, mode, 1, h);
            let ghost banner_part = banner_texels(mode, 1, gh);
            proof {
                symbols.lemma_len();
            }
            let mut text = String::new();
            push_char(&mut text, symbols.symbol(index));
            let x = PALETTE_OFFSET + (index * 2) as i32;
            out.write_line(x, y, text.as_str(), DEFAULT_BG_U8, white, bold);
            out.set_cursor_pos(w, y);
            proof {
                lemma_put_all_concat(gw, gh, go, c1, banner_part, line_texels(x as int, y, text@, DEFAULT_BG_U8, 255, bold_styles()));
                assert(text@ =~= seq![symbols.spec_symbols()[index as int]]);
            }
        },
        Mode::SelectColor(index, cm) => {
            print_color_cube(out, h);
            let ghost cube = color_cube_texels(gh);
            let ghost banner_part = banner_texels(mode, 1, gh);
            print_banner(out, mode, 1, h);
            let t = colors.selector_texel(index, Position2D { x: PALETTE_OFFSET + index as i32, y }, cm);
            let ghost c3 = out.current();
            out.write_texel(t);
            let cursor = state.cursor();
            out.set_cursor_pos(cursor.x, cursor.y);
            proof {
                assert(seq![t].drop_last() =~= Seq::<Texel>::empty());
                assert(put_all(gw, gh, go, c3, Seq::<Texel>::empty()) == c3);
                assert(put_all(gw, gh, go, c3, seq![t]) == put(gw, gh, go, c3, t));
                lemma_put_all_concat(gw, gh, go, c1, cube, banner_part);
                lemma_put_all_concat(gw, gh, go, c1, cube + banner_part, seq![t]);
            }
        },
    }
    proof {
        lemma_put_all_concat(gw, gh, go, c0, sel, rest);
    }
}

} // verus!
