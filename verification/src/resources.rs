pub mod cmdline;
pub mod palette;
pub mod state;
pub mod sync_term;

pub use cmdline::{
    auto_complete, spec_input, AutoComplete, AutoCompleteView, CmdLine, CmdView, Completion, CompletionView, FileListing,
};

pub use palette::{
    bold_styles, color_line_texel, color_pair, invert_luminance, luminance, spec_invert_luminance, spec_luminance,
    spec_selector_texel,
    cc, color_selector, color_slot, default_palette_colors, default_symbols, pos_to_color_fits, spec_base_to_rgb, spec_pos_to_color,
    spec_cc, spec_pos_to_base, symbol_line_texel, ColorPalette, SymbolPalette, COLORS_IN_PALETTE,
    MAX_COLOR_INDEX, PALETTE_H, PALETTE_OFFSET, PALETTE_W, SYMBOLS_IN_PALETTE,
};
pub use state::{
    frame_mode, frame_offset, frame_previous_mode, frame_unsaved, frame_wf, offset_in, pushed_history, redo_after_undo_restores, reverse_mode_undoes_set_mode,
    undo_after_push_returns_previous, Snapshot, SnapshotView, State, StateFrame, HISTORY_CAPACITY,
};
pub use sync_term::{SyncTerm, TexelBuf};
