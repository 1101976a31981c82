//! Decisions taken when the editor starts: whether the terminal is large enough, and what
//! the command line asks to load.

use crate::common::Action;
use crate::resources::{State, StateFrame};
use vstd::prelude::*;

verus! {

/// The terminal is at least 60 columns by 16 rows
pub open spec fn terminal_size_fits(ts: (u16, u16)) -> bool {
    ts.0 >= 60 && ts.1 >= 16
}

/// Whether the terminal is large enough for the editor
pub fn terminal_size_ok(ts: (u16, u16)) -> (r: bool)
    ensures
        r == terminal_size_fits(ts),
{
    !(ts.0 < 60 || ts.1 < 16)
}

/// Actions reading each of the files
pub open spec fn read_actions(paths: Seq<String>) -> Seq<Action> {
    paths.map_values(|p: String| Action::Read(p))
}

/// Acts on the files named after the program's name in `args`: a single file that does
/// not exist (`single_exists` is false) becomes the save file of a new scene; otherwise
/// each file is queued to be read, and a single one is also the save file. Returns whether
/// any file was named.
pub fn load_from(args: &Vec<String>, single_exists: bool, state: &mut State) -> (r: bool)
    ensures
        r == (args@.len() > 1),
        args@.len() <= 1 ==> final(state).frame() == old(state).frame(),
        args@.len() == 2 && !single_exists ==> final(state).frame() == (StateFrame {
            save_path: Some(args@[1]@),
            changes: 0,
            saved_index: old(state).spec_history_index(),
            ..old(state).frame()
        }),
        args@.len() == 2 && single_exists ==> final(state).frame() == (StateFrame {
            actions: old(state).spec_actions() + read_actions(args@.skip(1)),
            save_path: Some(args@[1]@),
            changes: 0,
            saved_index: old(state).spec_history_index(),
            ..old(state).frame()
        }),
        args@.len() > 2 ==> final(state).frame() == (StateFrame {
            actions: old(state).spec_actions() + read_actions(args@.skip(1)),
            ..old(state).frame()
        }),
{
    if args.len() > 1 {
        if args.len() == 2 && !single_exists {
            state.saved(args[1].clone());
        } else {
            let mut i: usize = 1;
            while i < args.len()
                invariant
                    1 <= i <= args@.len(),
                    state.frame() == (StateFrame {
                        actions: old(state).spec_actions() + read_actions(args@.subrange(1, i as int)),
                        ..old(state).frame()
                    }),
                decreases args@.len() - i,
            {
                state.push_action(Action::Read(args[i].clone()));
                assert(read_actions(args@.subrange(1, i + 1)) =~= read_actions(args@.subrange(1, i as int)).push(
                    Action::Read(args@[i as int]),
                ));
                i = i + 1;
            }
            assert(args@.subrange(1, args@.len() as int) =~= args@.skip(1));
            if args.len() == 2 {
                state.saved(args[1].clone());
            }
        }
        true
    } else {
        false
    }
}

} // verus!
