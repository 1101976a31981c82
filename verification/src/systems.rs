//! The editor's systems: actions applied to the scene and state, history recording, and
//! input events turned into actions.

pub mod action_handler;
pub mod clip;
pub mod dispatch;
pub mod edit;
pub mod history_handler;
pub mod input_handler;
pub mod layout;
pub mod renderers;
pub mod scene_actions;
pub mod select;

pub use action_handler::{
    clear_subselection, deselect_obj, import_sprite, new_position, new_sprite, offset_fits, offset_position,
    placed, spec_new_position, AfterSave, IoRequest,
};
pub use dispatch::handle_action;
pub use history_handler::preserve_history;
pub use input_handler::handle_event;
