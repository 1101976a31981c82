//! Recording the scene in the undo history after the actions of a frame.

use crate::components::{ObjectView, World};
use crate::resources::{pushed_history, SnapshotView, State, StateFrame};
use crate::systems::action_handler::{scene_from_world, spec_scene_of};
use vstd::prelude::*;

verus! {

/// Indices of the selected objects, in order
pub open spec fn selected_indices(objs: Seq<ObjectView>) -> Seq<usize>
    decreases objs.len(),
{
    if objs.len() == 0 {
        Seq::empty()
    } else {
        let rest = selected_indices(objs.drop_last());
        if objs.last().selected {
            rest.push((objs.len() - 1) as usize)
        } else {
            rest
        }
    }
}

/// Records the world in the history when the state asks for it (after a change, or to
/// record the first selection): the scene with its bookmarks and the indices of the
/// selected objects.
pub fn preserve_history(world: &World, state: &mut State)
    requires
        world.wf(),
        old(state).wf(),
        old(state).spec_dirty() ==> old(state).spec_changes() < usize::MAX,
    ensures
        final(state).wf(),
        !(old(state).spec_dirty() || old(state).hist().len() == 1) ==> final(state).frame() == old(state).frame(),
        old(state).spec_dirty() || old(state).hist().len() == 1 ==> {
            let snap = SnapshotView { scene: spec_scene_of(world@), selections: selected_indices(world@.objects) };
            &&& final(state).frame() == (StateFrame {
                hist: final(state).frame().hist,
                history_index: final(state).frame().history_index,
                changes: final(state).frame().changes,
                dirty: false,
                ..old(state).frame()
            })
            &&& !old(state).spec_dirty() ==> {
                &&& final(state).hist() == if snap.selections.len() > 0 {
                    seq![snap]
                } else {
                    old(state).hist()
                }
                &&& final(state).spec_history_index() == old(state).spec_history_index()
                &&& final(state).spec_changes() == old(state).spec_changes()
            }
            &&& old(state).spec_dirty() ==> {
                &&& final(state).hist() == pushed_history(
                    old(state).hist(),
                    old(state).spec_history_index() as int,
                    snap,
                )
                &&& final(state).spec_history_index() == final(state).hist().len() - 1
                &&& final(state).spec_changes() == old(state).spec_changes() + 1
            }
        },
{
    if !state.needs_preserving() {
        return;
    }
    let mut selections: Vec<usize> = Vec::new();
    let mut i: usize = 0;
    while i < world.objects.len()
        invariant
            i <= world@.objects.len(),
            selections@ == selected_indices(world@.objects.take(i as int)),
        decreases world@.objects.len() - i,
    {
        assert(world@.objects.take(i + 1).drop_last() =~= world@.objects.take(i as int));
        assert(world@.objects[i as int] == world.objects@[i as int]@);
        if world.objects[i].selected {
            selections.push(i);
        }
        i = i + 1;
    }
    assert(world@.objects.take(world@.objects.len() as int) =~= world@.objects);
    let scene = scene_from_world(world);
    state.push_history(scene, selections);
}

} // verus!
