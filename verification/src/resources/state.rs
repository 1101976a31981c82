use crate::common::{Action, Clipboard, ClipboardView, Error, ErrorView, InputEvent, Mode};
use crate::texel_types::{
    Bounds, ColorMode, Position, Position2D, Scene, SceneView, Translation, DEFAULT_BG_U8, DEFAULT_FG_U8,
};
use std::collections::VecDeque;
use vstd::prelude::*;

verus! {

/// Number of snapshots kept for undo / redo
pub const HISTORY_CAPACITY: usize = 20;

/// Abstract snapshot: the scene and the indexes of selected objects
pub struct SnapshotView {
    pub scene: SceneView,
    pub selections: Seq<usize>,
}

/// Snapshot of editor state: the scene and the indexes of selected objects
pub struct Snapshot {
    pub scene: Scene,
    pub selections: Vec<usize>,
}

impl View for Snapshot {
    type V = SnapshotView;

    open spec fn view(&self) -> SnapshotView {
        SnapshotView { scene: self.scene@, selections: self.selections@ }
    }
}

fn copy_indexes(v: &Vec<usize>) -> (r: Vec<usize>)
    ensures
        r@ == v@,
{
    let mut r: Vec<usize> = Vec::new();
    let mut i: usize = 0;
    while i < v.len()
        invariant
            i <= v@.len(),
            r@ == v@.take(i as int),
        decreases v@.len() - i,
    {
        r.push(v[i]);
        proof {
            assert(v@.take(i + 1) =~= v@.take(i as int).push(v@[i as int]));
        }
        i = i + 1;
    }
    proof {
        assert(v@.take(v@.len() as int) =~= v@);
    }
    r
}

impl Snapshot {
    /// Snapshot of a scene with nothing selected
    pub fn from_scene(scene: Scene) -> (r: Snapshot)
        ensures
            r@ == (SnapshotView { scene: scene@, selections: Seq::empty() }),
    {
        Snapshot { scene, selections: Vec::new() }
    }

    /// Snapshot of a scene with the given selection
    pub fn from_parts(scene: Scene, selections: Vec<usize>) -> (r: Snapshot)
        ensures
            r@ == (SnapshotView { scene: scene@, selections: selections@ }),
    {
        Snapshot { scene, selections }
    }

    /// Empty scene, nothing selected
    pub fn empty() -> (r: Snapshot)
        ensures
            r@.scene matches SceneView::V2(d) && d.objects.len() == 0 && d.bookmarks.len() == 0,
            r@.selections.len() == 0,
    {
        Snapshot { scene: Scene::default_scene(), selections: Vec::new() }
    }

    /// Copy of the snapshot
    pub fn duplicate(&self) -> (r: Snapshot)
        ensures
            r@ == self@,
    {
        Snapshot { scene: self.scene.duplicate(), selections: copy_indexes(&self.selections) }
    }
}

/// Editor state: error, event and action queues, mode stack, undo history,
/// selected colors, save state and viewport
pub struct State {
    error: Option<Error>,
    events: VecDeque<InputEvent>,
    actions: VecDeque<Action>,
    modes: VecDeque<Mode>,
    history: VecDeque<Snapshot>,
    history_index: usize,
    selected_color: (u8, u8),
    /// save file path, changes, change "start" index
    save_state: (Option<String>, usize, usize),
    offset: Position2D,
    pub dirty: bool,
    pub clipboard: Clipboard,
    pub cursor: Position2D,
    /// previous mouse position for dragging
    pub mouse_entry: Position2D,
    pub show_meta: bool,
}

/// Offset to use in `mode`: help is shown unscrolled; the command line keeps the
/// offset of the mode it was entered from.
pub open spec fn offset_in(mode: Mode, previous: Option<Mode>, offset: Position2D) -> Position2D {
    match mode {
        Mode::Help(_) => Position2D { x: 0, y: 0 },
        Mode::Command => match previous {
            Some(Mode::Help(_)) => Position2D { x: 0, y: 0 },
            _ => offset,
        },
        _ => offset,
    }
}

/// Abstract private editor state
pub struct StateFrame {
    pub hist: Seq<SnapshotView>,
    pub modes: Seq<Mode>,
    pub history_index: usize,
    pub error: Option<ErrorView>,
    pub events: Seq<InputEvent>,
    pub actions: Seq<Action>,
    pub selected_color: (u8, u8),
    pub save_path: Option<Seq<char>>,
    pub changes: usize,
    pub saved_index: usize,
    pub offset: Position2D,
    pub dirty: bool,
    pub clipboard: ClipboardView,
    pub cursor: Position2D,
    pub mouse_entry: Position2D,
    pub show_meta: bool,
}

/// There is always a mode, the first being object selection, no mode directly repeats the
/// one below it, the history holds between one and `HISTORY_CAPACITY` snapshots and the
/// index selects one.
pub open spec fn frame_wf(f: StateFrame) -> bool {
    &&& f.modes.len() > 0
    &&& f.modes[0] == Mode::Object(crate::common::SelectMode::Object)
    &&& forall|i: int| 0 <= i < f.modes.len() - 1 ==> #[trigger] f.modes[i] != f.modes[i + 1]
    &&& 0 < f.hist.len() <= HISTORY_CAPACITY
    &&& f.history_index < f.hist.len()
}

/// Current mode
pub open spec fn frame_mode(f: StateFrame) -> Mode {
    f.modes.last()
}

/// Mode below the current one
pub open spec fn frame_previous_mode(f: StateFrame) -> Option<Mode> {
    if f.modes.len() > 1 {
        Some(f.modes[f.modes.len() - 2])
    } else {
        None
    }
}

/// Viewport offset in effect for the current mode
pub open spec fn frame_offset(f: StateFrame) -> Position2D {
    offset_in(frame_mode(f), frame_previous_mode(f), f.offset)
}

/// Whether there are changes since the last save
pub open spec fn frame_unsaved(f: StateFrame) -> bool {
    f.changes > 0 && f.history_index != f.saved_index
}

/// History after recording `snap` with the current snapshot at `index`: snapshots past
/// `index` are discarded, the oldest snapshot is dropped when the history is still full,
/// and `snap` goes last.
pub open spec fn pushed_history(h: Seq<SnapshotView>, index: int, snap: SnapshotView) -> Seq<
    SnapshotView,
> {
    let h1 = if 0 <= index < h.len() {
        h.take(index + 1)
    } else {
        h
    };
    let h2 = if h1.len() >= HISTORY_CAPACITY {
        h1.drop_first()
    } else {
        h1
    };
    h2.push(snap)
}

impl State {
    /// Abstract private state
    pub closed spec fn frame(&self) -> StateFrame {
        StateFrame {
            hist: Seq::new(self.history@.len(), |i: int| self.history@[i]@),
            modes: self.modes@,
            history_index: self.history_index,
            error: match self.error {
                Some(e) => Some(e@),
                None => None,
            },
            events: self.events@,
            actions: self.actions@,
            selected_color: self.selected_color,
            save_path: match self.save_state.0 {
                Some(p) => Some(p@),
                None => None,
            },
            changes: self.save_state.1,
            saved_index: self.save_state.2,
            offset: self.offset,
            dirty: self.dirty,
            clipboard: self.clipboard@,
            cursor: self.cursor,
            mouse_entry: self.mouse_entry,
            show_meta: self.show_meta,
        }
    }

    /// The snapshots of the history.
    pub open spec fn hist(&self) -> Seq<SnapshotView> {
        self.frame().hist
    }

    /// Modes, oldest first; the last one is the current mode.
    pub open spec fn mode_stack(&self) -> Seq<Mode> {
        self.frame().modes
    }

    pub open spec fn spec_history_index(&self) -> usize {
        self.frame().history_index
    }

    pub open spec fn spec_error(&self) -> Option<ErrorView> {
        self.frame().error
    }

    pub open spec fn spec_events(&self) -> Seq<InputEvent> {
        self.frame().events
    }

    pub open spec fn spec_actions(&self) -> Seq<Action> {
        self.frame().actions
    }

    pub open spec fn spec_selected_color(&self) -> (u8, u8) {
        self.frame().selected_color
    }

    /// Save file path, if any
    pub open spec fn spec_save_path(&self) -> Option<Seq<char>> {
        self.frame().save_path
    }

    /// Number of changes counted since the last save
    pub open spec fn spec_changes(&self) -> usize {
        self.frame().changes
    }

    /// History index at the last save
    pub open spec fn spec_saved_index(&self) -> usize {
        self.frame().saved_index
    }

    pub open spec fn spec_offset_field(&self) -> Position2D {
        self.frame().offset
    }

    pub open spec fn spec_dirty(&self) -> bool {
        self.frame().dirty
    }

    pub open spec fn spec_clipboard(&self) -> ClipboardView {
        self.frame().clipboard
    }

    pub open spec fn spec_cursor(&self) -> Position2D {
        self.frame().cursor
    }

    pub open spec fn spec_mouse_entry(&self) -> Position2D {
        self.frame().mouse_entry
    }

    pub open spec fn spec_show_meta(&self) -> bool {
        self.frame().show_meta
    }

    pub open spec fn spec_mode(&self) -> Mode {
        self.mode_stack().last()
    }

    pub open spec fn spec_previous_mode(&self) -> Option<Mode> {
        if self.mode_stack().len() > 1 {
            Some(self.mode_stack()[self.mode_stack().len() - 2])
        } else {
            None
        }
    }

    /// There is always a mode, no mode directly repeats the one below it, the history
    /// holds between one and `HISTORY_CAPACITY` snapshots and the index selects one.
    pub open spec fn wf(&self) -> bool {
        frame_wf(self.frame())
    }

    /// Help topic shown: that of the current mode, or of the previous one (help with the
    /// command line over it); only when some mode lies below
    pub open spec fn spec_show_help(&self) -> Option<usize> {
        if self.mode_stack().len() > 1 {
            match self.spec_mode() {
                Mode::Help(i) => Some(i),
                _ => match self.spec_previous_mode() {
                    Some(Mode::Help(i)) => Some(i),
                    _ => None,
                },
            }
        } else {
            None
        }
    }

    /// Viewport offset in effect for the current mode
    pub open spec fn current_offset(&self) -> Position2D {
        offset_in(self.spec_mode(), self.spec_previous_mode(), self.spec_offset_field())
    }

    pub open spec fn spec_unsaved_changes(&self) -> bool {
        self.spec_changes() > 0 && self.spec_history_index() != self.spec_saved_index()
    }

    /// Fresh state: object mode, an empty scene in the history, default colors
    pub fn default_state() -> (r: State)
        ensures
            r.wf(),
            r.mode_stack() == seq![Mode::Object(crate::common::SelectMode::Object)],
            r.hist().len() == 1,
            r.hist()[0].scene matches SceneView::V2(d) && d.objects.len() == 0 && d.bookmarks.len()
                == 0,
            r.hist()[0].selections.len() == 0,
            r.spec_history_index() == 0,
            r.spec_error() is None,
            r.spec_events().len() == 0,
            r.spec_actions().len() == 0,
            r.spec_selected_color() == (DEFAULT_BG_U8, DEFAULT_FG_U8),
            r.spec_save_path() is None,
            r.spec_changes() == 0,
            r.spec_saved_index() == 0,
            r.spec_offset_field() == (Position2D { x: 0, y: 0 }),
            !r.spec_dirty(),
            r.spec_clipboard() is Empty,
            r.spec_cursor() == (Position2D { x: 0, y: 0 }),
            r.spec_mouse_entry() == (Position2D { x: 0, y: 0 }),
            !r.spec_show_meta(),
    {
        let mut result = State {
            error: None,
            events: VecDeque::new(),
            actions: VecDeque::new(),
            modes: VecDeque::new(),
            history: VecDeque::new(),
            history_index: 0,
            selected_color: (DEFAULT_BG_U8, DEFAULT_FG_U8),
            save_state: (None, 0, 0),
            dirty: false,
            clipboard: Clipboard::Empty,
            cursor: Position2D { x: 0, y: 0 },
            offset: Position2D { x: 0, y: 0 },
            mouse_entry: Position2D { x: 0, y: 0 },
            show_meta: false,
        };
        result.modes.push_back(Mode::default_mode());
        result.history.push_back(Snapshot::empty());
        assert(result.mode_stack() =~= seq![Mode::Object(crate::common::SelectMode::Object)]);
        result
    }

    /// Moves the viewport offset field by the translation within `bounds`; returns whether
    /// the move was accepted
    pub fn translate_offset(&mut self, t: Translation, bounds: Bounds) -> (r: bool)
        requires
            Position::apply_fits(
                Position { x: old(self).spec_offset_field().x, y: old(self).spec_offset_field().y, z: 0 },
                t,
                bounds,
            ),
        ensures
            ({
                let (p, ok) = Position::spec_apply(
                    Position { x: old(self).spec_offset_field().x, y: old(self).spec_offset_field().y, z: 0 },
                    t,
                    bounds,
                );
                &&& r == ok
                &&& final(self).frame() == (StateFrame {
                    offset: if ok {
                        Position2D { x: p.x, y: p.y }
                    } else {
                        old(self).spec_offset_field()
                    },
                    ..old(self).frame()
                })
            }),
    {
        self.offset.apply(t, bounds)
    }

    /// Moves the cursor by the translation within `bounds`; returns whether the move was
    /// accepted
    pub fn translate_cursor(&mut self, t: Translation, bounds: Bounds) -> (r: bool)
        requires
            Position::apply_fits(
                Position { x: old(self).spec_cursor().x, y: old(self).spec_cursor().y, z: 0 },
                t,
                bounds,
            ),
        ensures
            ({
                let (p, ok) = Position::spec_apply(
                    Position { x: old(self).spec_cursor().x, y: old(self).spec_cursor().y, z: 0 },
                    t,
                    bounds,
                );
                &&& r == ok
                &&& final(self).frame() == (StateFrame {
                    cursor: if ok {
                        Position2D { x: p.x, y: p.y }
                    } else {
                        old(self).spec_cursor()
                    },
                    ..old(self).frame()
                })
            }),
    {
        self.cursor.apply(t, bounds)
    }

    /// Moves the cursor
    pub fn set_cursor(&mut self, cursor: Position2D)
        ensures
            final(self).frame() == (StateFrame { cursor, ..old(self).frame() }),
    {
        self.cursor = cursor;
    }

    /// Marks whether the scene changed since the last snapshot
    pub fn set_dirty(&mut self, dirty: bool)
        ensures
            final(self).frame() == (StateFrame { dirty, ..old(self).frame() }),
    {
        self.dirty = dirty;
    }

    /// Replaces the clipboard
    pub fn set_clipboard(&mut self, clipboard: Clipboard)
        ensures
            final(self).frame() == (StateFrame { clipboard: clipboard@, ..old(self).frame() }),
    {
        self.clipboard = clipboard;
    }

    /// Shows or hides the metadata
    pub fn set_show_meta(&mut self, show_meta: bool)
        ensures
            final(self).frame() == (StateFrame { show_meta, ..old(self).frame() }),
    {
        self.show_meta = show_meta;
    }

    /// Records the mouse position a drag started at
    pub fn set_mouse_entry(&mut self, mouse_entry: Position2D)
        ensures
            final(self).frame() == (StateFrame { mouse_entry, ..old(self).frame() }),
    {
        self.mouse_entry = mouse_entry;
    }

    /// The clipboard
    pub fn clipboard(&self) -> (r: &Clipboard)
        ensures
            r@ == self.spec_clipboard(),
    {
        &self.clipboard
    }

    /// The cursor
    pub fn cursor(&self) -> (r: Position2D)
        ensures
            r == self.spec_cursor(),
    {
        self.cursor
    }

    /// Whether metadata is shown
    pub fn show_meta(&self) -> (r: bool)
        ensures
            r == self.spec_show_meta(),
    {
        self.show_meta
    }

    /// Whether the scene changed since the last snapshot
    pub fn dirty(&self) -> (r: bool)
        ensures
            r == self.spec_dirty(),
    {
        self.dirty
    }

    /// Mouse position a drag started at
    pub fn mouse_entry(&self) -> (r: Position2D)
        ensures
            r == self.spec_mouse_entry(),
    {
        self.mouse_entry
    }

    pub fn error(&self) -> (r: &Option<Error>)
        ensures
            self.spec_error() == match r {
                Some(e) => Some(e@),
                None => None::<ErrorView>,
            },
    {
        &self.error
    }

    /// Selected color for the given mode
    pub fn color(&self, cm: ColorMode) -> (r: u8)
        ensures
            r == (match cm {
                ColorMode::Bg => self.spec_selected_color().0,
                ColorMode::Fg => self.spec_selected_color().1,
            }),
    {
        match cm {
            ColorMode::Bg => self.selected_color.0,
            ColorMode::Fg => self.selected_color.1,
        }
    }

    pub fn set_color(&mut self, color: u8, cm: ColorMode)
        ensures
            final(self).frame() == (StateFrame { selected_color: final(self).frame().selected_color, ..old(self).frame() }),
            final(self).spec_selected_color() == (match cm {
                ColorMode::Bg => (color, old(self).spec_selected_color().1),
                ColorMode::Fg => (old(self).spec_selected_color().0, color),
            }),
            final(self).wf() == old(self).wf(),
            final(self).mode_stack() == old(self).mode_stack(),
            final(self).hist() == old(self).hist(),
            final(self).spec_history_index() == old(self).spec_history_index(),
            final(self).spec_actions() == old(self).spec_actions(),
            final(self).spec_error() == old(self).spec_error(),
    {
        match cm {
            ColorMode::Bg => self.selected_color.0 = color,
            ColorMode::Fg => self.selected_color.1 = color,
        }
    }

    /// Swaps background and foreground color; returns false (nothing to preserve)
    pub fn swap_color(&mut self) -> (r: bool)
        ensures
            final(self).frame() == (StateFrame { selected_color: final(self).frame().selected_color, ..old(self).frame() }),
            !r,
            final(self).spec_selected_color() == (old(self).spec_selected_color().1, old(
                self,
            ).spec_selected_color().0),
            final(self).wf() == old(self).wf(),
            final(self).mode_stack() == old(self).mode_stack(),
            final(self).hist() == old(self).hist(),
            final(self).spec_history_index() == old(self).spec_history_index(),
    {
        let (bg, fg) = self.selected_color;
        self.selected_color = (fg, bg);
        false
    }

    /// Viewport offset in effect for the current mode
    pub fn offset(&self) -> (r: Position2D)
        requires
            self.wf(),
        ensures
            r == offset_in(self.spec_mode(), self.spec_previous_mode(), self.spec_offset_field()),
    {
        match self.mode() {
            Mode::Help(_) => Position2D { x: 0, y: 0 },
            Mode::Command => match self.previous_mode() {
                Some(Mode::Help(_)) => Position2D { x: 0, y: 0 },
                _ => self.offset,
            },
            _ => self.offset,
        }
    }

    pub fn set_offset(&mut self, offset: Position2D)
        ensures
            final(self).frame() == (StateFrame { offset: final(self).frame().offset, ..old(self).frame() }),
            final(self).spec_offset_field() == offset,
            final(self).wf() == old(self).wf(),
            final(self).mode_stack() == old(self).mode_stack(),
            final(self).hist() == old(self).hist(),
            final(self).spec_history_index() == old(self).spec_history_index(),
    {
        self.offset = offset;
    }

    /// Sets the error; returns false (nothing to preserve)
    pub fn set_error(&mut self, error: Error) -> (r: bool)
        ensures
            final(self).frame() == (StateFrame { error: final(self).frame().error, ..old(self).frame() }),
            !r,
            final(self).spec_error() == Some(error@),
            final(self).wf() == old(self).wf(),
            final(self).mode_stack() == old(self).mode_stack(),
            final(self).hist() == old(self).hist(),
            final(self).spec_history_index() == old(self).spec_history_index(),
            final(self).spec_actions() == old(self).spec_actions(),
    {
        self.error = Some(error);
        false
    }

    /// Clears the error; returns false (nothing to preserve)
    pub fn clear_error(&mut self) -> (r: bool)
        ensures
            final(self).frame() == (StateFrame { error: final(self).frame().error, ..old(self).frame() }),
            !r,
            final(self).spec_error() is None,
            final(self).wf() == old(self).wf(),
            final(self).mode_stack() == old(self).mode_stack(),
            final(self).hist() == old(self).hist(),
            final(self).spec_history_index() == old(self).spec_history_index(),
            final(self).spec_actions() == old(self).spec_actions(),
    {
        self.error = None;
        false
    }

    /// Current mode
    pub fn mode(&self) -> (r: Mode)
        requires
            self.wf(),
        ensures
            r == self.spec_mode(),
    {
        self.modes[self.modes.len() - 1]
    }

    /// Whether there are changes since the last save
    pub fn unsaved_changes(&self) -> (r: bool)
        ensures
            r == self.spec_unsaved_changes(),
    {
        self.save_state.1 > 0 && self.history_index != self.save_state.2
    }

    /// Enters `mode` unless it is already current; entering queues `ClearError`.
    /// Returns whether the mode changed.
    pub fn set_mode(&mut self, mode: Mode) -> (r: bool)
        requires
            old(self).wf(),
        ensures
            final(self).frame() == (StateFrame { modes: final(self).frame().modes, actions: final(self).frame().actions, ..old(self).frame() }),
            final(self).wf(),
            r == (mode != old(self).spec_mode()),
            r ==> final(self).mode_stack() == old(self).mode_stack().push(mode),
            r ==> final(self).spec_actions() == old(self).spec_actions().push(Action::ClearError),
            !r ==> final(self).mode_stack() == old(self).mode_stack(),
            !r ==> final(self).spec_actions() == old(self).spec_actions(),
            final(self).hist() == old(self).hist(),
            final(self).spec_history_index() == old(self).spec_history_index(),
            final(self).spec_error() == old(self).spec_error(),
            final(self).spec_offset_field() == old(self).spec_offset_field(),
    {
        if self.mode() != mode {
            self.push_action(Action::ClearError);
            self.modes.push_back(mode);
            return true;
        }
        false
    }

    /// Back to the default mode, leaving every other mode
    pub fn reset_mode(&mut self)
        requires
            old(self).wf(),
        ensures
            final(self).frame() == (StateFrame { modes: final(self).frame().modes, ..old(self).frame() }),
            final(self).wf(),
            final(self).mode_stack() == seq![Mode::Object(crate::common::SelectMode::Object)],
            final(self).hist() == old(self).hist(),
            final(self).spec_history_index() == old(self).spec_history_index(),
            final(self).spec_actions() == old(self).spec_actions(),
            final(self).spec_error() == old(self).spec_error(),
            final(self).spec_offset_field() == old(self).spec_offset_field(),
            final(self).spec_dirty() == old(self).spec_dirty(),
            final(self).spec_changes() == old(self).spec_changes(),
            final(self).spec_saved_index() == old(self).spec_saved_index(),
            final(self).spec_save_path() == old(self).spec_save_path(),
    {
        self.modes.clear();
        self.modes.push_back(Mode::default_mode());
        assert(self.modes@ =~= seq![Mode::Object(crate::common::SelectMode::Object)]);
    }

    /// Returns to the previous mode if there is one; returns whether it did.
    pub fn reverse_mode(&mut self) -> (r: bool)
        requires
            old(self).wf(),
        ensures
            final(self).frame() == (StateFrame { modes: final(self).frame().modes, ..old(self).frame() }),
            final(self).wf(),
            r == (old(self).mode_stack().len() > 1),
            r ==> final(self).mode_stack() == old(self).mode_stack().drop_last(),
            !r ==> final(self).mode_stack() == old(self).mode_stack(),
            final(self).hist() == old(self).hist(),
            final(self).spec_history_index() == old(self).spec_history_index(),
            final(self).spec_actions() == old(self).spec_actions(),
            final(self).spec_error() == old(self).spec_error(),
    {
        if self.modes.len() > 1 {
            self.modes.pop_back();
            assert(self.modes@ =~= old(self).modes@.drop_last());
            return true;
        }
        false
    }

    /// The mode below the current one, if any
    pub fn previous_mode(&self) -> (r: Option<Mode>)
        ensures
            r == self.spec_previous_mode(),
    {
        if self.modes.len() > 1 {
            Some(self.modes[self.modes.len() - 2])
        } else {
            None
        }
    }

    /// Help topic to show: that of the current mode, or of the previous one (help with the
    /// command line over it); only when some mode lies below.
    pub fn show_help(&self) -> (r: Option<usize>)
        requires
            self.wf(),
        ensures
            r == self.spec_show_help(),
    {
        if self.modes.len() > 1 {
            if let Mode::Help(index) = self.mode() {
                return Some(index);
            } else if let Some(previous_mode) = self.previous_mode() {
                if let Mode::Help(index) = previous_mode {
                    return Some(index);
                }
            }
            None
        } else {
            None
        }
    }

    /// The file to save to: the given path, else the current save file
    pub fn save_file(&self, new_path: &Option<String>) -> (r: Result<String, Error>)
        ensures
            match new_path {
                Some(p) => r matches Ok(s) && s@ == p@,
                None => match self.spec_save_path() {
                    Some(p) => r matches Ok(s) && s@ == p,
                    None => r matches Err(Error::ExecutionError(m)) && m@ == "No file path specified"@,
                },
            },
    {
        if let Some(path) = new_path {
            Ok(path.clone())
        } else if let Some(path) = &self.save_state.0 {
            Ok(path.clone())
        } else {
            Err(Error::execution("No file path specified"))
        }
    }

    /// Save file name, or "NONE"
    pub fn filename(&self) -> (r: &str)
        ensures
            r@ == match self.spec_save_path() {
                Some(p) => p,
                None => "NONE"@,
            },
    {
        match &self.save_state.0 {
            Some(p) => p.as_str(),
            None => "NONE",
        }
    }

    /// Records a save to `path` at the current history index; returns false
    pub fn saved(&mut self, path: String) -> (r: bool)
        ensures
            final(self).frame() == (StateFrame { save_path: final(self).frame().save_path, changes: final(self).frame().changes, saved_index: final(self).frame().saved_index, ..old(self).frame() }),
            !r,
            final(self).spec_save_path() == Some(path@),
            final(self).spec_changes() == 0,
            final(self).spec_saved_index() == old(self).spec_history_index(),
            !final(self).spec_unsaved_changes(),
            final(self).wf() == old(self).wf(),
            final(self).mode_stack() == old(self).mode_stack(),
            final(self).hist() == old(self).hist(),
            final(self).spec_history_index() == old(self).spec_history_index(),
    {
        self.save_state = (Some(path), 0, self.history_index);
        false
    }

    /// Marks the current history point as saved, keeping the file name; returns false
    pub fn clear_changes(&mut self) -> (r: bool)
        ensures
            final(self).frame() == (StateFrame { save_path: final(self).frame().save_path, changes: final(self).frame().changes, saved_index: final(self).frame().saved_index, ..old(self).frame() }),
            !r,
            final(self).spec_save_path() == old(self).spec_save_path(),
            final(self).spec_changes() == 0,
            final(self).spec_saved_index() == old(self).spec_history_index(),
            !final(self).spec_unsaved_changes(),
            final(self).wf() == old(self).wf(),
            final(self).mode_stack() == old(self).mode_stack(),
            final(self).hist() == old(self).hist(),
            final(self).spec_history_index() == old(self).spec_history_index(),
    {
        self.save_state.1 = 0;
        self.save_state.2 = self.history_index;
        false
    }

    /// Forgets the save file; returns false
    pub fn reset_save_file(&mut self) -> (r: bool)
        ensures
            final(self).frame() == (StateFrame { save_path: final(self).frame().save_path, changes: final(self).frame().changes, saved_index: final(self).frame().saved_index, ..old(self).frame() }),
            !r,
            final(self).spec_save_path() is None,
            final(self).spec_changes() == 0,
            final(self).spec_saved_index() == 0,
            final(self).wf() == old(self).wf(),
            final(self).mode_stack() == old(self).mode_stack(),
            final(self).hist() == old(self).hist(),
            final(self).spec_history_index() == old(self).spec_history_index(),
    {
        self.save_state = (None, 0, 0);
        false
    }

    /// Whether the editor is quitting
    pub fn quitting(&self) -> (r: bool)
        requires
            self.wf(),
        ensures
            r == (self.spec_mode() is Quitting),
    {
        match self.mode() {
            Mode::Quitting(_) => true,
            _ => false,
        }
    }

    pub fn push_event(&mut self, event: InputEvent)
        ensures
            final(self).frame() == (StateFrame { events: final(self).frame().events, ..old(self).frame() }),
            final(self).spec_events() == old(self).spec_events().push(event),
            final(self).wf() == old(self).wf(),
            final(self).mode_stack() == old(self).mode_stack(),
            final(self).hist() == old(self).hist(),
            final(self).spec_history_index() == old(self).spec_history_index(),
            final(self).spec_actions() == old(self).spec_actions(),
    {
        self.events.push_back(event)
    }

    /// Oldest queued event
    pub fn pop_event(&mut self) -> (r: Option<InputEvent>)
        ensures
            final(self).frame() == (StateFrame { events: final(self).frame().events, ..old(self).frame() }),
            old(self).spec_events().len() == 0 ==> r is None && final(self).spec_events() == old(
                self,
            ).spec_events(),
            old(self).spec_events().len() > 0 ==> r == Some(old(self).spec_events()[0])
                && final(self).spec_events() == old(self).spec_events().drop_first(),
            final(self).wf() == old(self).wf(),
            final(self).mode_stack() == old(self).mode_stack(),
            final(self).hist() == old(self).hist(),
            final(self).spec_history_index() == old(self).spec_history_index(),
            final(self).spec_actions() == old(self).spec_actions(),
    {
        let r = self.events.pop_front();
        proof {
            if old(self).events@.len() > 0 {
                assert(self.events@ =~= old(self).events@.drop_first());
            }
        }
        r
    }

    /// Queues the action unless it is `Noop`
    pub fn push_action(&mut self, action: Action)
        ensures
            final(self).frame() == (StateFrame { actions: final(self).frame().actions, ..old(self).frame() }),
            final(self).spec_actions() == if action is Noop {
                old(self).spec_actions()
            } else {
                old(self).spec_actions().push(action)
            },
            final(self).wf() == old(self).wf(),
            final(self).mode_stack() == old(self).mode_stack(),
            final(self).hist() == old(self).hist(),
            final(self).spec_history_index() == old(self).spec_history_index(),
            final(self).spec_error() == old(self).spec_error(),
            final(self).spec_events() == old(self).spec_events(),
            final(self).spec_offset_field() == old(self).spec_offset_field(),
    {
        if !action.is_some() {
            return;
        }
        self.actions.push_back(action);
    }

    /// Oldest queued action
    pub fn pop_action(&mut self) -> (r: Option<Action>)
        ensures
            final(self).frame() == (StateFrame { actions: final(self).frame().actions, ..old(self).frame() }),
            old(self).spec_actions().len() == 0 ==> r is None && final(self).spec_actions() == old(
                self,
            ).spec_actions(),
            old(self).spec_actions().len() > 0 ==> r == Some(old(self).spec_actions()[0])
                && final(self).spec_actions() == old(self).spec_actions().drop_first(),
            final(self).wf() == old(self).wf(),
            final(self).mode_stack() == old(self).mode_stack(),
            final(self).hist() == old(self).hist(),
            final(self).spec_history_index() == old(self).spec_history_index(),
            final(self).spec_events() == old(self).spec_events(),
    {
        let r = self.actions.pop_front();
        proof {
            if old(self).actions@.len() > 0 {
                assert(self.actions@ =~= old(self).actions@.drop_first());
            }
        }
        r
    }

    /// Whether the history needs a snapshot: after a dirtying change, or to record the
    /// selection while the history holds only the initial snapshot
    pub fn needs_preserving(&self) -> (r: bool)
        ensures
            r == (self.spec_dirty() || self.hist().len() == 1),
    {
        self.dirty || self.history.len() == 1
    }

    /// Restarts the history from `scene`
    pub fn clear_history(&mut self, scene: Scene)
        requires
            old(self).wf(),
        ensures
            final(self).frame() == (StateFrame { hist: final(self).frame().hist, history_index: final(self).frame().history_index, dirty: final(self).frame().dirty, ..old(self).frame() }),
            final(self).wf(),
            final(self).hist() == seq![SnapshotView { scene: scene@, selections: Seq::empty() }],
            final(self).spec_history_index() == 0,
            !final(self).spec_dirty(),
            final(self).mode_stack() == old(self).mode_stack(),
            final(self).spec_save_path() == old(self).spec_save_path(),
            final(self).spec_changes() == old(self).spec_changes(),
            final(self).spec_saved_index() == old(self).spec_saved_index(),
    {
        self.history.clear();
        self.history.push_back(Snapshot::from_scene(scene));
        self.history_index = 0;
        self.dirty = false;
        assert(self.hist() =~= seq![SnapshotView { scene: scene@, selections: Seq::empty() }]);
    }

    /// Records the scene and selection after a change. Without a pending change only the
    /// initial snapshot is refreshed, and only when something is selected.
    pub fn push_history(&mut self, scene: Scene, selections: Vec<usize>)
        requires
            old(self).wf(),
            old(self).spec_dirty() ==> old(self).spec_changes() < usize::MAX,
        ensures
            final(self).frame() == (StateFrame { hist: final(self).frame().hist, history_index: final(self).frame().history_index, changes: final(self).frame().changes, dirty: final(self).frame().dirty, ..old(self).frame() }),
            final(self).wf(),
            !final(self).spec_dirty(),
            !old(self).spec_dirty() ==> {
                &&& final(self).hist() == if old(self).hist().len() == 1 && selections@.len() > 0 {
                    seq![SnapshotView { scene: scene@, selections: selections@ }]
                } else {
                    old(self).hist()
                }
                &&& final(self).spec_history_index() == old(self).spec_history_index()
                &&& final(self).spec_changes() == old(self).spec_changes()
            },
            old(self).spec_dirty() ==> {
                &&& final(self).hist() == pushed_history(
                    old(self).hist(),
                    old(self).spec_history_index() as int,
                    SnapshotView { scene: scene@, selections: selections@ },
                )
                &&& final(self).spec_history_index() == final(self).hist().len() - 1
                &&& final(self).spec_changes() == old(self).spec_changes() + 1
            },
            final(self).mode_stack() == old(self).mode_stack(),
            final(self).spec_save_path() == old(self).spec_save_path(),
            final(self).spec_saved_index() == old(self).spec_saved_index(),
            final(self).spec_error() == old(self).spec_error(),
            final(self).spec_actions() == old(self).spec_actions(),
            final(self).spec_offset_field() == old(self).spec_offset_field(),
    {
        let ghost h0 = self.hist();
        let ghost index = self.history_index as int;
        let ghost snap = SnapshotView { scene: scene@, selections: selections@ };
        if !self.dirty {
            if self.history.len() == 1 && selections.len() > 0 {
                self.history.pop_front();
                self.history.push_back(Snapshot::from_parts(scene, selections));
                assert(self.hist() =~= seq![snap]);
            }
            return;
        }
        if self.history_index + 1 < self.history.len() {
            self.history.truncate(self.history_index + 1);
            assert(self.hist() =~= h0.take(index + 1));
        } else {
            assert(h0.take(index + 1) =~= h0);
        }
        let ghost h1 = self.hist();
        if self.history.len() >= HISTORY_CAPACITY {
            self.history.pop_front();
            assert(self.hist() =~= h1.drop_first());
        }
        let ghost h2 = self.hist();
        self.history.push_back(Snapshot::from_parts(scene, selections));
        assert(self.hist() =~= h2.push(snap));
        assert(self.hist() =~= pushed_history(h0, index, snap));
        self.history_index = self.history.len() - 1;
        self.dirty = false;
        self.save_state.1 = self.save_state.1 + 1;
    }

    /// Steps back in the history; returns the snapshot stepped to, `None` at the oldest.
    /// Each step counts as a change.
    pub fn undo(&mut self) -> (r: Option<Snapshot>)
        requires
            old(self).wf(),
            old(self).spec_history_index() > 0 ==> old(self).spec_changes() < usize::MAX,
        ensures
            final(self).frame() == (StateFrame { history_index: final(self).frame().history_index, changes: final(self).frame().changes, ..old(self).frame() }),
            final(self).wf(),
            final(self).hist() == old(self).hist(),
            old(self).spec_history_index() == 0 ==> {
                &&& r is None
                &&& final(self).spec_history_index() == 0
                &&& final(self).spec_changes() == old(self).spec_changes()
            },
            old(self).spec_history_index() > 0 ==> {
                &&& r matches Some(s) && s@ == old(self).hist()[old(self).spec_history_index() - 1]
                &&& final(self).spec_history_index() == old(self).spec_history_index() - 1
                &&& final(self).spec_changes() == old(self).spec_changes() + 1
            },
            final(self).mode_stack() == old(self).mode_stack(),
            final(self).spec_dirty() == old(self).spec_dirty(),
            final(self).spec_save_path() == old(self).spec_save_path(),
            final(self).spec_saved_index() == old(self).spec_saved_index(),
            final(self).spec_error() == old(self).spec_error(),
            final(self).spec_actions() == old(self).spec_actions(),
            final(self).spec_offset_field() == old(self).spec_offset_field(),
    {
        if self.history_index == 0 {
            return None;
        }
        self.history_index = self.history_index - 1;
        self.save_state.1 = self.save_state.1 + 1;
        Some(self.history[self.history_index].duplicate())
    }

    /// Steps forward in the history; returns the snapshot stepped to, `None` at the newest.
    /// Each step counts as a change.
    pub fn redo(&mut self) -> (r: Option<Snapshot>)
        requires
            old(self).wf(),
            old(self).spec_history_index() + 1 < old(self).hist().len() ==> old(
                self,
            ).spec_changes() < usize::MAX,
        ensures
            final(self).frame() == (StateFrame { history_index: final(self).frame().history_index, changes: final(self).frame().changes, ..old(self).frame() }),
            final(self).wf(),
            final(self).hist() == old(self).hist(),
            old(self).spec_history_index() + 1 >= old(self).hist().len() ==> {
                &&& r is None
                &&& final(self).spec_history_index() == old(self).spec_history_index()
                &&& final(self).spec_changes() == old(self).spec_changes()
            },
            old(self).spec_history_index() + 1 < old(self).hist().len() ==> {
                &&& r matches Some(s) && s@ == old(self).hist()[old(self).spec_history_index() + 1]
                &&& final(self).spec_history_index() == old(self).spec_history_index() + 1
                &&& final(self).spec_changes() == old(self).spec_changes() + 1
            },
            final(self).mode_stack() == old(self).mode_stack(),
            final(self).spec_dirty() == old(self).spec_dirty(),
            final(self).spec_save_path() == old(self).spec_save_path(),
            final(self).spec_saved_index() == old(self).spec_saved_index(),
            final(self).spec_error() == old(self).spec_error(),
            final(self).spec_actions() == old(self).spec_actions(),
            final(self).spec_offset_field() == old(self).spec_offset_field(),
    {
        if self.history.len() == 0 || self.history_index >= self.history.len() - 1 {
            return None;
        }
        self.history_index = self.history_index + 1;
        self.save_state.1 = self.save_state.1 + 1;
        Some(self.history[self.history_index].duplicate())
    }
}

/// Undoing right after a change was recorded steps back to the snapshot that was current
/// before the change, whatever the history held and wherever it was being browsed.
pub proof fn undo_after_push_returns_previous(h: Seq<SnapshotView>, index: int, snap: SnapshotView)
    requires
        0 <= index < h.len() <= HISTORY_CAPACITY,
    ensures
        ({
            let h2 = pushed_history(h, index, snap);
            &&& 2 <= h2.len() <= HISTORY_CAPACITY
            &&& h2[h2.len() - 1] == snap
            &&& h2[h2.len() - 2] == h[index]
        }),
{
}

/// Redo right after a successful undo is available and returns the snapshot that was
/// current before the undo.
pub proof fn redo_after_undo_restores(before: State, after: State)
    requires
        before.wf(),
        before.spec_history_index() > 0,
        after.hist() == before.hist(),
        after.spec_history_index() == before.spec_history_index() - 1,
    ensures
        after.spec_history_index() + 1 < after.hist().len(),
        after.spec_history_index() + 1 == before.spec_history_index(),
        after.hist()[after.spec_history_index() + 1] == before.hist()[before.spec_history_index()
            as int],
{
    assert(before.hist().len() == before.history@.len());
}

/// Leaving a mode entered by `set_mode` with `reverse_mode` gives back the mode stack
/// from before.
pub proof fn reverse_mode_undoes_set_mode(stack: Seq<Mode>, mode: Mode)
    requires
        stack.len() > 0,
    ensures
        stack.push(mode).len() > 1,
        stack.push(mode).drop_last() == stack,
{
    assert(stack.push(mode).drop_last() =~= stack);
}

} // verus!
