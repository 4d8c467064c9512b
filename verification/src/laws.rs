//! Laws of the event reducers: round trips and cycles that hold of every
//! well-formed state.

use crate::state::{
    first_index_of, lemma_first_index_of, lemma_spec_find_workspace, no_dups, remove_first,
    spec_find_workspace, spec_layout_effects, spec_window_known, st_destroy, st_go_to,
    st_map_managed, st_shift_focus, st_swap, st_toggle_fullscreen, state_wf, wrap_next, wrap_prev,
    StateModel, NUM_WORKSPACES,
};
use crate::workspace::{ws_focused_window, ws_wf, WorkspaceModel};
use vstd::prelude::*;

verus! {

/// Law: mapping a fresh managed window and then destroying it restores
/// the exact pre-state — workspace lists, focus, weights and all.
///
/// The focus restriction is what destruction's focus-clamping forces:
/// mapping moves the focus onto the new last window, and destroying it
/// clamps the focus back to the last remaining one, which is the old
/// focus only where the old focus already sat at the end (or nowhere).
pub proof fn map_then_destroy_restores(s: StateModel, w: u32)
    requires
        state_wf(s),
        !spec_window_known(s, w),
        !s.fullscreen.contains(w),
        !s.order.contains(w),
        s.workspaces[s.current].focus is None || s.workspaces[s.current].focus == Some(
            s.workspaces[s.current].windows.len() - 1,
        ),
    ensures
        st_destroy(st_map_managed(s, w), w) == s,
{
    let s2 = st_map_managed(s, w);
    let ws = s.workspaces[s.current];
    let ws2 = s2.workspaces[s.current];
    lemma_spec_find_workspace(s, w);
    lemma_spec_find_workspace(s2, w);
    assert(ws2.windows[ws.windows.len() as int] == w);
    assert(ws2.windows.contains(w));
    assert(!s2.docks.contains(w));
    let k = spec_find_workspace(s2, w, 0);
    assert(k <= s.current);
    assert(k == s.current) by {
        if k < s.current {
            assert(s2.workspaces[k] == s.workspaces[k]);
        }
    }
    // The window sits at the end, and nowhere earlier.
    lemma_first_index_of(ws2.windows, w);
    let i = first_index_of(ws2.windows, w);
    assert forall|m: int| 0 <= m < ws.windows.len() implies ws2.windows[m] != w by {
        assert(ws.windows.contains(ws.windows[m])) by {
            assert(ws.windows[m] == ws.windows[m]);
        }
    }
    assert(i == ws.windows.len());
    let s3 = st_destroy(s2, w);
    assert(s3.workspaces[s.current].windows =~= ws.windows);
    assert(s3.workspaces[s.current].weights =~= ws.weights);
    assert(s3.workspaces[s.current].focus == ws.focus);
    assert(s3.workspaces =~= s.workspaces);
    crate::state::lemma_remove_first_push(s.order, w);
    assert(!s.fullscreen.contains(w) ==> remove_first(s.fullscreen, w) == s.fullscreen);
    assert(s3 =~= s);
}

/// Law: switching to a workspace twice is the same as switching once.
pub proof fn go_to_workspace_idempotent(s: StateModel, k: int)
    ensures
        st_go_to(st_go_to(s, k), k) == st_go_to(s, k),
{
    let s2 = st_go_to(s, k);
    if !(k >= NUM_WORKSPACES || k == s.current || k < 0) {
        assert(s2.current == k);
    }
    assert(st_go_to(s2, k) =~= s2);
}

/// Law: swapping the focused window left and then right restores the
/// window order, the weights and the focus.
pub proof fn swap_left_right_restores(s: StateModel)
    requires
        state_wf(s),
    ensures
        st_swap(st_swap(s, false), true) == s,
{
    let ws = s.workspaces[s.current];
    let len = ws.windows.len() as int;
    if len == 0 {
        assert(st_swap(st_swap(s, false), true) =~= s);
    } else {
        assert(ws_wf(ws));
        let f = ws.focus.unwrap();
        let j = wrap_prev(f, len);
        let s2 = st_swap(s, false);
        let ws2 = s2.workspaces[s.current];
        assert(ws2.windows.len() == len);
        assert(wrap_next(j, len) == f);
        let s3 = st_swap(s2, true);
        assert(s3.workspaces[s.current].windows =~= ws.windows);
        assert(s3.workspaces[s.current].weights =~= ws.weights);
        assert(s3.workspaces =~= s.workspaces);
        assert(s3 =~= s);
    }
}

/// The state after `k` focus rotations forward.
pub open spec fn iterate_next(s: StateModel, k: nat) -> StateModel
    decreases k,
{
    if k == 0 {
        s
    } else {
        st_shift_focus(iterate_next(s, (k - 1) as nat), true)
    }
}

/// After `k` steps the focus has advanced by `k`, wrapping once at most.
proof fn lemma_iterate_next(s: StateModel, k: nat)
    requires
        state_wf(s),
        s.workspaces[s.current].windows.len() > 0,
        k <= s.workspaces[s.current].windows.len(),
    ensures
        iterate_next(s, k) == (StateModel {
            workspaces: s.workspaces.update(
                s.current,
                WorkspaceModel {
                    focus: Some(
                        {
                            let ws = s.workspaces[s.current];
                            let len = ws.windows.len() as int;
                            let f = ws.focus.unwrap();
                            if f + k < len {
                                f + k
                            } else {
                                f + k - len
                            }
                        },
                    ),
                    ..s.workspaces[s.current]
                },
            ),
            ..s
        }),
    decreases k,
{
    let ws = s.workspaces[s.current];
    let len = ws.windows.len() as int;
    let f = ws.focus.unwrap();
    if k == 0 {
        assert(iterate_next(s, 0) == s);
        assert((StateModel {
            workspaces: s.workspaces.update(
                s.current,
                WorkspaceModel { focus: Some(f), ..ws },
            ),
            ..s
        }) =~= s) by {
            assert(WorkspaceModel { focus: Some(f), ..ws } =~= ws);
            assert(s.workspaces.update(s.current, ws) =~= s.workspaces);
        }
    } else {
        lemma_iterate_next(s, (k - 1) as nat);
        let prev = iterate_next(s, (k - 1) as nat);
        let fp = if f + k - 1 < len {
            f + k - 1
        } else {
            f + k - 1 - len
        };
        assert(prev.workspaces[s.current].focus == Some(fp));
        assert(prev.workspaces[s.current].windows.len() == len);
        let fnext = wrap_next(fp, len);
        assert(iterate_next(s, k) == st_shift_focus(prev, true));
        assert(st_shift_focus(prev, true) =~= StateModel {
            workspaces: s.workspaces.update(
                s.current,
                WorkspaceModel { focus: Some(fnext), ..ws },
            ),
            ..s
        }) by {
            assert(prev.workspaces.update(
                s.current,
                WorkspaceModel { focus: Some(fnext), ..prev.workspaces[s.current] },
            ) =~= s.workspaces.update(
                s.current,
                WorkspaceModel { focus: Some(fnext), ..ws },
            ));
        }
    }
}

/// Law: rotating the focus forward once per window of the current
/// workspace brings the focus back to the window it started on.
pub proof fn next_window_full_cycle(s: StateModel)
    requires
        state_wf(s),
    ensures
        iterate_next(s, s.workspaces[s.current].windows.len()) == s,
{
    let ws = s.workspaces[s.current];
    let len = ws.windows.len();
    if len == 0 {
        assert(iterate_next(s, 0) == s);
    } else {
        lemma_iterate_next(s, len);
        let f = ws.focus.unwrap();
        assert(iterate_next(s, len) =~= s) by {
            assert(WorkspaceModel { focus: Some(f), ..ws } =~= ws);
            assert(s.workspaces.update(s.current, ws) =~= s.workspaces);
        }
    }
}

/// After removing one occurrence from a duplicate-free list, the value
/// is gone.
proof fn lemma_remove_first_not_contains(fs: Seq<u32>, w: u32)
    requires
        no_dups(fs),
        fs.contains(w),
    ensures
        !remove_first(fs, w).contains(w),
{
    lemma_first_index_of(fs, w);
    let i = first_index_of(fs, w);
    let fs2 = fs.remove(i);
    if fs2.contains(w) {
        let m = choose|m: int| 0 <= m < fs2.len() && fs2[m] == w;
        if m < i {
            assert(fs[m] == w);
        } else {
            assert(fs[m + 1] == w);
        }
    }
}

/// Law: toggling fullscreen twice restores the exact state, whenever the
/// focused window was not already fullscreen; and in every case it
/// restores the layout output.
pub proof fn toggle_fullscreen_twice_restores(s: StateModel)
    requires
        state_wf(s),
        ws_focused_window(s.workspaces[s.current]) matches Some(w) ==> !s.fullscreen.contains(w),
    ensures
        st_toggle_fullscreen(st_toggle_fullscreen(s)) == s,
{
    match ws_focused_window(s.workspaces[s.current]) {
        None => {
            assert(st_toggle_fullscreen(st_toggle_fullscreen(s)) =~= s);
        }
        Some(w) => {
            let s2 = st_toggle_fullscreen(s);
            assert(s2.fullscreen == s.fullscreen.push(w));
            assert(s2.fullscreen.contains(w)) by {
                assert(s2.fullscreen[s.fullscreen.len() as int] == w);
            }
            assert(ws_focused_window(s2.workspaces[s2.current]) == Some(w));
            crate::state::lemma_remove_first_push(s.fullscreen, w);
            assert(st_toggle_fullscreen(s2) =~= s);
        }
    }
}

/// Law: even when the focused window was already fullscreen, toggling
/// twice leaves the layout output unchanged (only the recorded order of
/// the fullscreen list can differ).
pub proof fn toggle_fullscreen_twice_same_layout(s: StateModel)
    requires
        state_wf(s),
    ensures
        spec_layout_effects(st_toggle_fullscreen(st_toggle_fullscreen(s))) == spec_layout_effects(
            s,
        ),
{
    match ws_focused_window(s.workspaces[s.current]) {
        None => {
            assert(st_toggle_fullscreen(st_toggle_fullscreen(s)) == s);
        }
        Some(w) => {
            if s.fullscreen.contains(w) {
                let s2 = st_toggle_fullscreen(s);
                assert(s2.fullscreen == remove_first(s.fullscreen, w));
                lemma_remove_first_not_contains(s.fullscreen, w);
                assert(ws_focused_window(s2.workspaces[s2.current]) == Some(w));
                let s3 = st_toggle_fullscreen(s2);
                assert(s3.fullscreen == remove_first(s.fullscreen, w).push(w));
                lemma_first_index_of(s.fullscreen, w);
                let i = first_index_of(s.fullscreen, w);
                assert forall|x: u32| s3.fullscreen.contains(x) == s.fullscreen.contains(x) by {
                    if s3.fullscreen.contains(x) {
                        let m = choose|m: int|
                            0 <= m < s3.fullscreen.len() && s3.fullscreen[m] == x;
                        if m == s3.fullscreen.len() - 1 {
                            assert(s.fullscreen[i] == x);
                        } else if m < i {
                            assert(s.fullscreen[m] == x);
                        } else {
                            assert(s.fullscreen[m + 1] == x);
                        }
                    }
                    if s.fullscreen.contains(x) {
                        let m = choose|m: int| 0 <= m < s.fullscreen.len() && s.fullscreen[m] == x;
                        if m == i {
                            assert(s3.fullscreen[s3.fullscreen.len() - 1] == x);
                        } else if m < i {
                            assert(s3.fullscreen[m] == x);
                        } else {
                            assert(s3.fullscreen[m - 1] == x);
                        }
                    }
                }
                assert(spec_layout_effects(s3) =~= spec_layout_effects(s));
            } else {
                toggle_fullscreen_twice_restores(s);
            }
        }
    }
}

} // verus!
