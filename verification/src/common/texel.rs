//! Texels written out as terminal text.

use crate::common::text::append;
use crate::os::{bg_seq, fg_seq, move_to_seq, reset_seq, screen_coord, style_seq, Terminal};
use crate::texel_types::{SymbolStyle, SymbolStyles, Texel};
use vstd::prelude::*;

verus! {

/// Text of the style sequences of `styles` (bold, italic, underline in that order), where
/// each style present repeats the text so far before its own sequence
pub open spec fn styles_text(styles: SymbolStyles) -> Seq<char> {
    let a = if styles.bold {
        style_seq(SymbolStyle::Bold)
    } else {
        Seq::<char>::empty()
    };
    let b = if styles.italic {
        a + a + style_seq(SymbolStyle::Italic)
    } else {
        a
    };
    if styles.underline {
        b + b + style_seq(SymbolStyle::Underline)
    } else {
        b
    }
}

/// A texel as terminal text: cursor move, colors, styles, the symbol, then a color reset
pub open spec fn texel_text(t: Texel) -> Seq<char> {
    move_to_seq(screen_coord(t.pos.x), screen_coord(t.pos.y)) + bg_seq(t.bg) + fg_seq(t.fg) + styles_text(t.styles)
        + seq![t.symbol] + reset_seq()
}

/// Texels written as terminal text
pub trait TexelExt {
    /// The texel's screen coordinates can be written
    spec fn printable(&self) -> bool;

    /// The terminal text of the texel
    spec fn text_of(&self) -> Seq<char>;

    /// The texel as terminal text
    fn to_string(&self) -> (r: String)
        requires
            self.printable(),
        ensures
            r@ == self.text_of(),
    ;
}

/// Style sequences of `styles`
pub fn styles_to_str(styles: SymbolStyles) -> (r: String)
    ensures
        r@ == styles_text(styles),
{
    let mut result = String::new();
    if styles.bold {
        let before = result.clone();
        append(&mut result, before.as_str());
        append(&mut result, Terminal::style_sequence(SymbolStyle::Bold).as_str());
    }
    if styles.italic {
        let before = result.clone();
        append(&mut result, before.as_str());
        append(&mut result, Terminal::style_sequence(SymbolStyle::Italic).as_str());
    }
    if styles.underline {
        let before = result.clone();
        append(&mut result, before.as_str());
        append(&mut result, Terminal::style_sequence(SymbolStyle::Underline).as_str());
    }
    result
}

impl TexelExt for Texel {
    open spec fn printable(&self) -> bool {
        screen_coord(self.pos.x) < u16::MAX && screen_coord(self.pos.y) < u16::MAX
    }

    open spec fn text_of(&self) -> Seq<char> {
        texel_text(*self)
    }

    /// Cursor move, colors, styles, the symbol, then a color reset
    fn to_string(&self) -> (r: String) {
        let mut s = Terminal::goto(self.pos.x, self.pos.y);
        append(&mut s, Terminal::bg_color_sequence(self.bg).as_str());
        append(&mut s, Terminal::fg_color_sequence(self.fg).as_str());
        append(&mut s, styles_to_str(self.styles).as_str());
        crate::common::text::push_char(&mut s, self.symbol);
        append(&mut s, Terminal::reset_sequence().as_str());
        s
    }
}

} // verus!
