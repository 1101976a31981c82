//! Sprite, texel and geometry types of the editor and their operations.

mod dimension;
mod position;
mod scene;
mod sprite;
mod texel;

pub use dimension::{u16_or_zero, Dimension};
pub use position::{Bounds, Direction, Position, Position2D, Translation};
pub use scene::{
    copy_labels, current_bookmarks, first_label_at, has_label, label_put, labels_put_all, put_label, current_objects, dim_of, labels_view, lemma_sprite_ok, scene_ok,
    sprite_ok, Scene, SceneData, SceneV1, SceneV2, SceneView, Sprite, SpriteData};
pub use sprite::{
    any_frame_empty, color_of, keeps_texel, lemma_max_below, first_at, flat, has_at, is_first_at, frame_with_symbol, without_blanks, max_x_seq, max_y_seq, min_x_seq,
    min_y_seq, normalized, normalized_bounds, place_texel, place_texels, shift_frames, spread_fits,
    symbol_texel, text_texels, texel_in, texel_pos, texels_inside_moved, texels_outside, with_color, SpriteModel,
    SpriteV1, Which, SPRITE_MAX_BYTES,
};
pub use texel::{
    line_texel, texels_from_str, write_to_texels, ColorMode, SymbolStyle, SymbolStyles, Texel, TexelV1,
    DEFAULT_BG_U8, DEFAULT_FG_U8,
};
