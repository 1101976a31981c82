//! Turning input events into queued actions, by the mode the editor is in.

use crate::common::{action_result, Action, ActionView, Event, InputEvent, Mode, MoveMeta, SelectMode};
use crate::resources::{
    frame_mode, pos_to_color_fits, spec_input, spec_pos_to_color, CmdLine, ColorPalette, FileListing,
    State, StateFrame, SymbolPalette, COLORS_IN_PALETTE, SYMBOLS_IN_PALETTE,
};
use crate::resources::cmdline::entries_view;
use crate::texel_types::{ColorMode, Direction, Translation};
use vstd::prelude::*;

verus! {

/// The actions queued for `a`: none for `Noop`
pub open spec fn pushed(a: Action) -> Seq<Action> {
    if a is Noop {
        Seq::empty()
    } else {
        seq![a]
    }
}

/// Moving by one cell or to an edge, shared by the modes that move things
pub open spec fn movement_action(e: Event) -> Action {
    match e {
        Event::Left(MoveMeta::Relative) | Event::ArrowLeft => Action::Translate(Translation::Relative(-1i32, 0, 0)),
        Event::Up(MoveMeta::Relative) | Event::ArrowUp => Action::Translate(Translation::Relative(0, -1i32, 0)),
        Event::Down(MoveMeta::Relative) | Event::ArrowDown => Action::Translate(Translation::Relative(0, 1, 0)),
        Event::Right(MoveMeta::Relative) | Event::ArrowRight => Action::Translate(Translation::Relative(1, 0, 0)),
        Event::Left(MoveMeta::ToEdge) => Action::Translate(Translation::ToEdge(Direction::Left)),
        Event::Up(MoveMeta::ToEdge) => Action::Translate(Translation::ToEdge(Direction::Top)),
        Event::Down(MoveMeta::ToEdge) => Action::Translate(Translation::ToEdge(Direction::Bottom)),
        Event::Right(MoveMeta::ToEdge) => Action::Translate(Translation::ToEdge(Direction::Right)),
        _ => Action::Noop,
    }
}

/// The action of an event in object mode
pub open spec fn objmode_action(e: Event) -> Action {
    match e {
        Event::Mode(mode) => Action::SetMode(mode),
        Event::SelectObject(which, sticky) => Action::SelectObject(which, sticky),
        Event::SelectFrame(which) => Action::SelectFrame(which),
        Event::SelectRegion => Action::SetMode(Mode::Object(SelectMode::Region)),
        Event::SelectPalette(index) => if index < 10 {
            Action::Bookmark(index, false)
        } else {
            Action::Noop
        },
        Event::EditPalette(index) => if index < 10 {
            Action::Bookmark(index, true)
        } else {
            Action::Noop
        },
        Event::Cancel => Action::Cancel,
        Event::Delete | Event::Backspace => Action::Delete,
        Event::DeleteFrame => Action::DeleteFrame,
        Event::NewFrame => Action::NewFrame,
        Event::Undo => Action::Undo,
        Event::Redo => Action::Redo,
        Event::Clipboard(op) => Action::Clipboard(op),
        Event::ToggleMetadata => Action::ToggleMetadata,
        Event::NewObject => Action::NewObject,
        Event::Duplicate(count) => Action::Duplicate(count),
        Event::Deselect => Action::Deselect,
        Event::Above => Action::Translate(Translation::Relative(0, 0, -1i32)),
        Event::Below => Action::Translate(Translation::Relative(0, 0, 1)),
        Event::ApplyColor(cm) => Action::ApplyColor(cm),
        Event::ApplyStyle(style) => Action::ApplyStyle(style),
        _ => movement_action(e),
    }
}

/// The actions of an event in region selection mode
pub open spec fn region_actions(e: Event) -> Seq<Action> {
    match e {
        Event::Mode(mode) => seq![Action::SetMode(mode)],
        Event::SelectRegion => seq![Action::SelectRegion],
        Event::Cancel => seq![Action::Cancel],
        Event::Confirm => seq![Action::ApplyRegion],
        Event::Delete | Event::Backspace => seq![Action::ApplyRegion, Action::Delete],
        Event::Undo => seq![Action::Undo],
        Event::Redo => seq![Action::Redo],
        Event::Clipboard(op) => seq![Action::Clipboard(op)],
        Event::ToggleMetadata => seq![Action::ToggleMetadata],
        Event::Deselect => seq![Action::Deselect],
        _ => pushed(movement_action(e)),
    }
}

/// The action of an event in edit mode; palette entries are the `symbols`
pub open spec fn edit_action(e: Event, symbols: Seq<char>) -> Action {
    match e {
        Event::Mode(mode) => Action::SetMode(mode),
        Event::EditPalette(index) => Action::SetMode(Mode::SelectSymbol(index)),
        Event::SelectPalette(index) => Action::ApplySymbol(symbols[index as int]),
        Event::Clipboard(op) => Action::Clipboard(op),
        Event::ToggleMetadata => Action::ToggleMetadata,
        Event::Cancel => Action::Cancel,
        Event::Delete | Event::Backspace => Action::Delete,
        Event::DeleteFrame => Action::DeleteFrame,
        Event::NewFrame => Action::NewFrame,
        Event::SelectRegion => Action::SelectRegion,
        Event::SelectFrame(which) => Action::SelectFrame(which),
        Event::Undo => Action::Undo,
        Event::Redo => Action::Redo,
        Event::Deselect => Action::Deselect,
        Event::Above => Action::Translate(Translation::Relative(0, 0, -1i32)),
        Event::Below => Action::Translate(Translation::Relative(0, 0, 1)),
        Event::PickColor(cm) => Action::PickColor(cm),
        Event::ApplyColor(cm) => Action::ApplyColor(cm),
        Event::ApplyStyle(style) => Action::ApplyStyle(style),
        _ => movement_action(e),
    }
}

/// The actions of an event in write mode: a typed character is written and the cursor
/// moves on
pub open spec fn write_actions(event: InputEvent) -> Seq<Action> {
    match event.0 {
        Event::Cancel => seq![Action::Cancel],
        Event::ArrowLeft => seq![Action::Translate(Translation::Relative(-1i32, 0, 0))],
        Event::ArrowUp => seq![Action::Translate(Translation::Relative(0, -1i32, 0))],
        Event::ArrowDown => seq![Action::Translate(Translation::Relative(0, 1, 0))],
        Event::ArrowRight => seq![Action::Translate(Translation::Relative(1, 0, 0))],
        Event::Confirm => seq![
            Action::Translate(Translation::ToEdge(Direction::Left)),
            Action::Translate(Translation::Relative(0, 1, 0)),
        ],
        Event::Delete | Event::Backspace => seq![
            Action::Translate(Translation::Relative(-1i32, 0, 0)),
            Action::Delete,
        ],
        Event::Deselect => seq![Action::Deselect],
        _ => typed_actions(event.1),
    }
}

/// The actions of a typed character in write mode: it is written and the cursor moves on
pub open spec fn typed_actions(typed: Option<char>) -> Seq<Action> {
    match typed {
        Some(c) => seq![Action::ApplySymbol(c), Action::Translate(Translation::Relative(1, 0, 0))],
        None => Seq::empty(),
    }
}

/// The action of an event in color selection mode, where the cursor picks a color
pub open spec fn color_select_action(e: Event) -> Action {
    match e {
        Event::Cancel => Action::Cancel,
        Event::Confirm => Action::ReverseMode,
        _ => movement_action(e),
    }
}

/// The action of an event in help mode: the command line, else back out of help
pub open spec fn help_action(e: Event) -> Action {
    match e {
        Event::Mode(Mode::Command) => Action::SetMode(Mode::Command),
        _ => Action::ReverseMode,
    }
}

/// The state after queuing `actions`
pub open spec fn queued(f: StateFrame, actions: Seq<Action>) -> StateFrame {
    StateFrame { actions: f.actions + actions, ..f }
}

fn movement(e: Event) -> (r: Action)
    ensures
        r == movement_action(e),
{
    match e {
        Event::Left(MoveMeta::Relative) | Event::ArrowLeft => Action::Translate(Translation::Relative(-1i32, 0, 0)),
        Event::Up(MoveMeta::Relative) | Event::ArrowUp => Action::Translate(Translation::Relative(0, -1i32, 0)),
        Event::Down(MoveMeta::Relative) | Event::ArrowDown => Action::Translate(Translation::Relative(0, 1, 0)),
        Event::Right(MoveMeta::Relative) | Event::ArrowRight => Action::Translate(Translation::Relative(1, 0, 0)),
        Event::Left(MoveMeta::ToEdge) => Action::Translate(Translation::ToEdge(Direction::Left)),
        Event::Up(MoveMeta::ToEdge) => Action::Translate(Translation::ToEdge(Direction::Top)),
        Event::Down(MoveMeta::ToEdge) => Action::Translate(Translation::ToEdge(Direction::Bottom)),
        Event::Right(MoveMeta::ToEdge) => Action::Translate(Translation::ToEdge(Direction::Right)),
        _ => Action::Noop,
    }
}

fn queue(state: &mut State, action: Action)
    ensures
        final(state).frame() == queued(old(state).frame(), pushed(action)),
        final(state).wf() == old(state).wf(),
{
    state.push_action(action);
    assert(final(state).frame().actions =~= old(state).frame().actions + pushed(action));
}

/// Object mode: selecting, moving and editing whole objects
pub fn objmode_event(event: InputEvent, state: &mut State)
    ensures
        final(state).frame() == queued(old(state).frame(), pushed(objmode_action(event.0))),
        final(state).wf() == old(state).wf(),
{
    let action = match event.0 {
        Event::Mode(mode) => Action::SetMode(mode),
        Event::SelectObject(which, sticky) => Action::SelectObject(which, sticky),
        Event::SelectFrame(which) => Action::SelectFrame(which),
        Event::SelectRegion => Action::SetMode(Mode::Object(SelectMode::Region)),
        Event::SelectPalette(index) => {
            if index < 10 {
                Action::Bookmark(index, false)
            } else {
                Action::Noop
            }
        },
        Event::EditPalette(index) => {
            if index < 10 {
                Action::Bookmark(index, true)
            } else {
                Action::Noop
            }
        },
        Event::Cancel => Action::Cancel,
        Event::Delete | Event::Backspace => Action::Delete,
        Event::DeleteFrame => Action::DeleteFrame,
        Event::NewFrame => Action::NewFrame,
        Event::Undo => Action::Undo,
        Event::Redo => Action::Redo,
        Event::Clipboard(op) => Action::Clipboard(op),
        Event::ToggleMetadata => Action::ToggleMetadata,
        Event::NewObject => Action::NewObject,
        Event::Duplicate(count) => Action::Duplicate(count),
        Event::Deselect => Action::Deselect,
        Event::Above => Action::Translate(Translation::Relative(0, 0, -1i32)),
        Event::Below => Action::Translate(Translation::Relative(0, 0, 1)),
        Event::ApplyColor(cm) => Action::ApplyColor(cm),
        Event::ApplyStyle(style) => Action::ApplyStyle(style),
        _ => movement(event.0),
    };
    queue(state, action);
}

/// Region selection mode: marking a region and turning it into a selection
pub fn objmode_region_event(event: InputEvent, state: &mut State)
    ensures
        final(state).frame() == queued(old(state).frame(), region_actions(event.0)),
        final(state).wf() == old(state).wf(),
{
    let action = match event.0 {
        Event::Mode(mode) => Action::SetMode(mode),
        Event::SelectRegion => Action::SelectRegion,
        Event::Cancel => Action::Cancel,
        Event::Confirm => Action::ApplyRegion,
        Event::Delete | Event::Backspace => {
            queue(state, Action::ApplyRegion);
            Action::Delete
        },
        Event::Undo => Action::Undo,
        Event::Redo => Action::Redo,
        Event::Clipboard(op) => Action::Clipboard(op),
        Event::ToggleMetadata => Action::ToggleMetadata,
        Event::Deselect => Action::Deselect,
        _ => movement(event.0),
    };
    queue(state, action);
    assert(final(state).frame().actions =~= old(state).frame().actions + region_actions(event.0));
}

/// Edit mode: painting symbols, colors and styles on the selected object
pub fn edit_event(event: InputEvent, state: &mut State, palette: &SymbolPalette)
    requires
        event.0 matches Event::SelectPalette(index) ==> index < SYMBOLS_IN_PALETTE,
    ensures
        final(state).frame() == queued(old(state).frame(), pushed(edit_action(event.0, palette.spec_symbols()))),
        final(state).wf() == old(state).wf(),
{
    let action = match event.0 {
        Event::Mode(mode) => Action::SetMode(mode),
        Event::EditPalette(index) => Action::SetMode(Mode::SelectSymbol(index)),
        Event::SelectPalette(index) => Action::ApplySymbol(palette.symbol(index)),
        Event::Clipboard(op) => Action::Clipboard(op),
        Event::ToggleMetadata => Action::ToggleMetadata,
        Event::Cancel => Action::Cancel,
        Event::Delete | Event::Backspace => Action::Delete,
        Event::DeleteFrame => Action::DeleteFrame,
        Event::NewFrame => Action::NewFrame,
        Event::SelectRegion => Action::SelectRegion,
        Event::SelectFrame(which) => Action::SelectFrame(which),
        Event::Undo => Action::Undo,
        Event::Redo => Action::Redo,
        Event::Deselect => Action::Deselect,
        Event::Above => Action::Translate(Translation::Relative(0, 0, -1i32)),
        Event::Below => Action::Translate(Translation::Relative(0, 0, 1)),
        Event::PickColor(cm) => Action::PickColor(cm),
        Event::ApplyColor(cm) => Action::ApplyColor(cm),
        Event::ApplyStyle(style) => Action::ApplyStyle(style),
        _ => movement(event.0),
    };
    queue(state, action);
}

fn write_char(c: char, state: &mut State)
    ensures
        final(state).frame() == queued(old(state).frame(), typed_actions(Some(c))),
        final(state).wf() == old(state).wf(),
{
    state.push_action(Action::ApplySymbol(c));
    state.push_action(Action::Translate(Translation::Relative(1, 0, 0)));
    assert(state.frame().actions =~= old(state).frame().actions + typed_actions(Some(c)));
}

/// Write mode: typed characters are written one after the other
pub fn write_event(event: InputEvent, state: &mut State)
    ensures
        final(state).frame() == queued(old(state).frame(), write_actions(event)),
        final(state).wf() == old(state).wf(),
{
    let ghost before = state.frame().actions;
    match event.0 {
        Event::Cancel => queue(state, Action::Cancel),
        Event::ArrowLeft => queue(state, Action::Translate(Translation::Relative(-1i32, 0, 0))),
        Event::ArrowUp => queue(state, Action::Translate(Translation::Relative(0, -1i32, 0))),
        Event::ArrowDown => queue(state, Action::Translate(Translation::Relative(0, 1, 0))),
        Event::ArrowRight => queue(state, Action::Translate(Translation::Relative(1, 0, 0))),
        Event::Confirm => {
            queue(state, Action::Translate(Translation::ToEdge(Direction::Left)));
            queue(state, Action::Translate(Translation::Relative(0, 1, 0)));
            assert(state.frame().actions =~= before + write_actions(event));
        },
        Event::Delete | Event::Backspace => {
            queue(state, Action::Translate(Translation::Relative(-1i32, 0, 0)));
            queue(state, Action::Delete);
            assert(state.frame().actions =~= before + write_actions(event));
        },
        Event::Deselect => queue(state, Action::Deselect),
        _ => {
            assert(write_actions(event) == typed_actions(event.1));
            if let Some(c) = event.1 {
                write_char(c, state);
            } else {
                assert(state.frame().actions =~= before + write_actions(event));
            }
        },
    }
    assert(state.frame().actions =~= old(state).frame().actions + write_actions(event));
}

/// Color mode: a palette entry becomes the color, or is chosen for editing
pub fn color_event(event: InputEvent, state: &mut State, cm: ColorMode, palette: &ColorPalette)
    requires
        event.0 matches Event::SelectPalette(index) ==> index < COLORS_IN_PALETTE,
    ensures
        final(state).wf() == old(state).wf(),
        final(state).frame() == match event.0 {
            Event::Mode(Mode::Command) => queued(
                old(state).frame(),
                seq![Action::ReverseMode, Action::SetMode(Mode::Command)],
            ),
            Event::EditPalette(index) => queued(old(state).frame(), seq![Action::SetMode(Mode::SelectColor(index, cm))]),
            Event::SelectPalette(index) => {
                let color = palette.spec_colors()[crate::resources::color_slot(index)];
                let sc = old(state).frame().selected_color;
                queued(
                    StateFrame {
                        selected_color: match cm {
                            ColorMode::Bg => (color, sc.1),
                            ColorMode::Fg => (sc.0, color),
                        },
                        ..old(state).frame()
                    },
                    seq![Action::ReverseMode],
                )
            },
            Event::Cancel => queued(old(state).frame(), seq![Action::Cancel]),
            _ => old(state).frame(),
        },
{
    match event.0 {
        Event::Mode(Mode::Command) => {
            queue(state, Action::ReverseMode);
            queue(state, Action::SetMode(Mode::Command));
            assert(final(state).frame().actions =~= old(state).frame().actions + seq![
                Action::ReverseMode,
                Action::SetMode(Mode::Command),
            ]);
        },
        Event::EditPalette(index) => queue(state, Action::SetMode(Mode::SelectColor(index, cm))),
        Event::SelectPalette(index) => {
            let color = palette.color(index);
            state.set_color(color, cm);
            queue(state, Action::ReverseMode);
        },
        Event::Cancel => queue(state, Action::Cancel),
        _ => {},
    }
}

/// Symbol selection mode: the typed character becomes palette symbol `index`
pub fn symbol_select_event(event: InputEvent, state: &mut State, index: usize, palette: &mut SymbolPalette)
    ensures
        final(state).wf() == old(state).wf(),
        event.0 is Cancel ==> final(state).frame() == queued(old(state).frame(), seq![Action::Cancel])
            && final(palette).spec_symbols() == old(palette).spec_symbols(),
        !(event.0 is Cancel) ==> match event.1 {
            None => final(state).frame() == old(state).frame() && final(palette).spec_symbols() == old(
                palette,
            ).spec_symbols(),
            Some(c) => if index < SYMBOLS_IN_PALETTE {
                final(state).frame() == queued(old(state).frame(), seq![Action::ReverseMode])
                    && final(palette).spec_symbols() == old(palette).spec_symbols().update(index as int, c)
            } else {
                final(state).frame() == (StateFrame {
                    error: Some(crate::common::ErrorView::ExecutionError("Symbol index out of bounds"@)),
                    ..old(state).frame()
                }) && final(palette).spec_symbols() == old(palette).spec_symbols()
            },
        },
{
    match event.0 {
        Event::Cancel => queue(state, Action::Cancel),
        _ => {
            if let Some(c) = event.1 {
                match palette.set_symbol(index, c) {
                    Ok(_) => queue(state, Action::ReverseMode),
                    Err(err) => {
                        state.set_error(err);
                    },
                }
            }
        },
    }
}

/// Color selection mode: the cursor moves over the color cube and confirming sets palette
/// color `index` to the one under it
pub fn color_select_event(
    event: InputEvent,
    state: &mut State,
    index: usize,
    palette: &mut ColorPalette,
    screen_h: u16,
)
    requires
        event.0 is Confirm ==> pos_to_color_fits(old(state).spec_cursor(), screen_h),
    ensures
        final(state).wf() == old(state).wf(),
        event.0 is Confirm && index < COLORS_IN_PALETTE ==> final(palette).spec_colors() == old(
            palette,
        ).spec_colors().update(index as int, spec_pos_to_color(old(state).spec_cursor(), screen_h))
            && final(state).frame() == queued(old(state).frame(), seq![Action::ReverseMode]),
        event.0 is Confirm && index >= COLORS_IN_PALETTE ==> final(palette).spec_colors() == old(
            palette,
        ).spec_colors() && final(state).frame() == queued(
            StateFrame {
                error: Some(crate::common::ErrorView::ExecutionError("Index out of bounds"@)),
                ..old(state).frame()
            },
            seq![Action::ReverseMode],
        ),
        !(event.0 is Confirm) ==> final(palette).spec_colors() == old(palette).spec_colors()
            && final(state).frame() == queued(old(state).frame(), pushed(color_select_action(event.0))),
{
    let action = match event.0 {
        Event::Cancel => Action::Cancel,
        Event::Confirm => {
            let color = ColorPalette::pos_to_color(state.cursor(), screen_h);
            if let Err(err) = palette.set_color(index, color) {
                state.set_error(err);
            }
            Action::ReverseMode
        },
        _ => movement(event.0),
    };
    queue(state, action);
}

/// Help mode: any event leaves help, except that the command line can be opened from it
pub fn help_event(event: InputEvent, state: &mut State)
    ensures
        final(state).frame() == queued(old(state).frame(), seq![help_action(event.0)]),
        final(state).wf() == old(state).wf(),
{
    let action = match event.0 {
        Event::Mode(Mode::Command) => Action::SetMode(Mode::Command),
        _ => Action::ReverseMode,
    };
    queue(state, action);
}

/// The actions queued for the result of a command line input, as views: a command is
/// preceded by leaving the command line (unless it is that itself), an error leaves it
pub open spec fn cmdline_actions(res: Result<ActionView, crate::common::ErrorView>) -> Seq<ActionView> {
    match res {
        Ok(a) => if a is Noop {
            Seq::empty()
        } else if a is ReverseMode {
            seq![a]
        } else {
            seq![ActionView::ReverseMode, a]
        },
        Err(_) => seq![ActionView::ReverseMode],
    }
}

/// Views of queued actions
pub open spec fn action_views(s: Seq<Action>) -> Seq<ActionView> {
    s.map_values(|a: Action| a@)
}

/// Command mode: the command line takes the event, and a finished command is queued
pub fn cmdline_event(event: InputEvent, state: &mut State, cmdline: &mut CmdLine, listing: &FileListing)
    requires
        old(cmdline).wf(),
        old(cmdline)@.history.len() < usize::MAX,
        old(cmdline)@.cmd.len() < usize::MAX,
    ensures
        final(cmdline).wf(),
        final(state).wf() == old(state).wf(),
        ({
            let entries = match listing.entries {
                Ok(es) => Ok(entries_view(es@)),
                Err(e) => Err(e@),
            };
            let (v, a, res) = spec_input(old(cmdline)@, old(cmdline).completion(), event, listing.is_dir, entries);
            &&& final(cmdline)@ == v
            &&& final(cmdline).completion() == a
            &&& final(state).frame() == (StateFrame {
                actions: final(state).frame().actions,
                error: match res {
                    Err(e) => Some(e),
                    Ok(_) => old(state).frame().error,
                },
                ..old(state).frame()
            })
            &&& action_views(final(state).frame().actions) == action_views(old(state).frame().actions)
                + cmdline_actions(res)
        }),
{
    let result = cmdline.input(event, listing);
    let ghost res = action_result(result);
    match result {
        Ok(action) => {
            if action.is_some() && !action.is_reverse_mode() {
                queue(state, Action::ReverseMode);
            }
            let ghost mid = state.frame().actions;
            queue(state, action);
            assert(action_views(final(state).frame().actions) =~= action_views(old(state).frame().actions)
                + cmdline_actions(res));
        },
        Err(err) => {
            state.set_error(err);
            queue(state, Action::ReverseMode);
            assert(action_views(final(state).frame().actions) =~= action_views(old(state).frame().actions)
                + cmdline_actions(res));
        },
    }
}

/// What handling an event in the current mode needs: palette indices within the palette,
/// the command line in order, and the color under the cursor computable
pub open spec fn event_fits(state: State, event: InputEvent, cmdline: CmdLine, screen_h: u16) -> bool {
    match frame_mode(state.frame()) {
        Mode::Command => {
            &&& cmdline.wf()
            &&& cmdline@.history.len() < usize::MAX
            &&& cmdline@.cmd.len() < usize::MAX
        },
        Mode::Color(_) => event.0 matches Event::SelectPalette(index) ==> index < COLORS_IN_PALETTE,
        Mode::Edit => event.0 matches Event::SelectPalette(index) ==> index < SYMBOLS_IN_PALETTE,
        Mode::SelectColor(_, _) => event.0 is Confirm ==> pos_to_color_fits(state.spec_cursor(), screen_h),
        _ => true,
    }
}

/// Handles one input event by the mode the editor is in; the command line, palettes and
/// the listing of the directory being completed are those of the program
pub fn handle_event(
    event: InputEvent,
    state: &mut State,
    cmdline: &mut CmdLine,
    symbols: &mut SymbolPalette,
    colors: &mut ColorPalette,
    listing: &FileListing,
    screen_h: u16,
)
    requires
        old(state).wf(),
        event_fits(*old(state), event, *old(cmdline), screen_h),
    ensures
        final(state).wf(),
        frame_mode(old(state).frame()) is Command ==> final(cmdline).wf(),
        !(frame_mode(old(state).frame()) is Command) ==> *final(cmdline) == *old(cmdline),
        frame_mode(old(state).frame()) == Mode::Object(SelectMode::Object) ==> final(state).frame() == queued(
            old(state).frame(),
            pushed(objmode_action(event.0)),
        ),
        frame_mode(old(state).frame()) == Mode::Object(SelectMode::Region) ==> final(state).frame() == queued(
            old(state).frame(),
            region_actions(event.0),
        ),
        frame_mode(old(state).frame()) == Mode::Edit ==> final(state).frame() == queued(
            old(state).frame(),
            pushed(edit_action(event.0, old(symbols).spec_symbols())),
        ),
        frame_mode(old(state).frame()) == Mode::Write ==> final(state).frame() == queued(
            old(state).frame(),
            write_actions(event),
        ),
        frame_mode(old(state).frame()) is Help ==> final(state).frame() == queued(
            old(state).frame(),
            seq![help_action(event.0)],
        ),
        frame_mode(old(state).frame()) is Quitting ==> final(state).frame() == old(state).frame(),
        !(frame_mode(old(state).frame()) is SelectSymbol) ==> final(symbols).spec_symbols() == old(
            symbols,
        ).spec_symbols(),
        !(frame_mode(old(state).frame()) is SelectColor) ==> final(colors).spec_colors() == old(colors).spec_colors(),
{
    match state.mode() {
        Mode::Command => cmdline_event(event, state, cmdline, listing),
        Mode::Object(SelectMode::Object) => objmode_event(event, state),
        Mode::Object(SelectMode::Region) => objmode_region_event(event, state),
        Mode::Color(cm) => color_event(event, state, cm, colors),
        Mode::SelectSymbol(index) => symbol_select_event(event, state, index, symbols),
        Mode::SelectColor(index, _) => color_select_event(event, state, index, colors, screen_h),
        Mode::Edit => edit_event(event, state, symbols),
        Mode::Write => write_event(event, state),
        Mode::Help(_) => help_event(event, state),
        Mode::Quitting(_) => {},
    }
}

} // verus!
verus! {

/// The command line opens from object, region selection, edit and help mode; in write mode
/// the `:` typed is written like any other character
pub proof fn command_line_from_modes(symbols: Seq<char>)
    ensures
        objmode_action(Event::Mode(Mode::Command)) == Action::SetMode(Mode::Command),
        region_actions(Event::Mode(Mode::Command)) == seq![Action::SetMode(Mode::Command)],
        edit_action(Event::Mode(Mode::Command), symbols) == Action::SetMode(Mode::Command),
        help_action(Event::Mode(Mode::Command)) == Action::SetMode(Mode::Command),
        write_actions((Event::Mode(Mode::Command), Some(':'))) == seq![
            Action::ApplySymbol(':'),
            Action::Translate(Translation::Relative(1, 0, 0)),
        ],
{
    assert(typed_actions(Some(':')) =~= seq![
        Action::ApplySymbol(':'),
        Action::Translate(Translation::Relative(1, 0, 0)),
    ]);
}

/// Escape cancels in every mode that moves or edits, and any key leaves help
pub proof fn escape_cancels(e: Event, typed: Option<char>, symbols: Seq<char>)
    requires
        e is Cancel,
    ensures
        objmode_action(e) == Action::Cancel,
        region_actions(e) == seq![Action::Cancel],
        edit_action(e, symbols) == Action::Cancel,
        write_actions((e, typed)) == seq![Action::Cancel],
        color_select_action(e) == Action::Cancel,
        help_action(e) == Action::ReverseMode,
{
}

} // verus!
