//! Builders for the EWMH properties a desktop environment reads off the
//! root window and each client: stateless except for the interned atom
//! identifiers and the root and check window IDs.

use crate::effect::{Effect, Effects};
use crate::state::{spec_usable_height, State, StateModel, NUM_WORKSPACES};
use crate::workspace::ws_focused_window;
use vstd::prelude::*;
use vstd::string::StringExecFns;

verus! {

/// The atoms the manager interns at startup, by their X identifiers.
#[derive(Clone, Copy, Debug, PartialEq, Eq, Structural)]
pub struct AtomTable {
    pub number_of_desktops: u32,
    pub current_desktop: u32,
    pub supported: u32,
    pub supporting_wm_check: u32,
    pub wm_window_type: u32,
    pub wm_window_type_dock: u32,
    pub wm_protocols: u32,
    pub wm_delete_window: u32,
    pub wm_desktop: u32,
    pub wm_name: u32,
    pub wm_state: u32,
    pub wm_state_fullscreen: u32,
    pub client_list: u32,
    pub active_window: u32,
    pub workarea: u32,
    pub desktop_geometry: u32,
    pub close_window: u32,
    pub utf8_string: u32,
}

/// Publishes the EWMH property set on the root window and the hidden
/// check window.
pub struct EwmhManager {
    pub atoms: AtomTable,
    pub root: u32,
    pub check_window: u32,
}

/// `e` sets the WINDOW-typed property `atom` on `window` to `values`.
pub open spec fn is_window_prop(e: Effect, window: u32, atom: u32, values: Seq<u32>) -> bool {
    &&& e matches Effect::SetWindowProperty { window: w2, atom: a2, values: v2 }
    &&& w2 == window
    &&& a2 == atom
    &&& v2@ == values
}

/// `e` sets the CARDINAL-list property `atom` on `window` to `values`.
pub open spec fn is_cardinal_list(e: Effect, window: u32, atom: u32, values: Seq<u32>) -> bool {
    &&& e matches Effect::SetCardinal32List { window: w2, atom: a2, values: v2 }
    &&& w2 == window
    &&& a2 == atom
    &&& v2@ == values
}

/// `e` sets the ATOM-list property `atom` on `window` to `values`.
pub open spec fn is_atom_list(e: Effect, window: u32, atom: u32, values: Seq<u32>) -> bool {
    &&& e matches Effect::SetAtomList { window: w2, atom: a2, values: v2 }
    &&& w2 == window
    &&& a2 == atom
    &&& v2@ == values
}

/// `e` sets the UTF-8 string property `atom` on `window` to `value`.
pub open spec fn is_utf8_string(e: Effect, window: u32, atom: u32, value: Seq<char>) -> bool {
    &&& e matches Effect::SetUtf8String { window: w2, atom: a2, value: v2 }
    &&& w2 == window
    &&& a2 == atom
    &&& v2@ == value
}

/// The `_NET_WORKAREA` payload: one `{x, y, w, h}` quadruple per
/// desktop, all honoring the dock reservation.
pub open spec fn spec_workarea_values(s: StateModel) -> Seq<u32> {
    Seq::new(
        (4 * NUM_WORKSPACES) as nat,
        |i: int|
            if i % 4 == 0 {
                0u32
            } else if i % 4 == 1 {
                0u32
            } else if i % 4 == 2 {
                s.screen.width
            } else {
                spec_usable_height(s) as u32
            },
    )
}

/// The `_NET_ACTIVE_WINDOW` payload: the focused window, or nothing.
pub open spec fn spec_active_window_values(s: StateModel) -> Seq<u32> {
    match ws_focused_window(s.workspaces[s.current]) {
        Some(w) => seq![w],
        None => Seq::empty(),
    }
}

/// The `_NET_WM_STATE` payload for `window`.
pub open spec fn spec_wm_state_values(e: EwmhManager, s: StateModel, window: u32) -> Seq<u32> {
    if s.fullscreen.contains(window) {
        seq![e.atoms.wm_state_fullscreen]
    } else {
        Seq::empty()
    }
}


/// Managed windows on the workspaces before `k`, counted.
pub open spec fn spec_windows_before(s: StateModel, k: int) -> int
    decreases k,
{
    if k <= 0 {
        0
    } else {
        spec_windows_before(s, k - 1) + s.workspaces[k - 1].windows.len()
    }
}

/// The `(window, desktop)` pairs of one workspace, in window order.
pub open spec fn spec_ws_pairs(s: StateModel, k: int) -> Seq<(u32, u32)> {
    Seq::new(
        s.workspaces[k].windows.len(),
        |i: int| (s.workspaces[k].windows[i], k as u32),
    )
}

/// The `(window, desktop)` pairs of all workspaces before `k`, in
/// workspace order then window order.
pub open spec fn spec_desktop_pairs(s: StateModel, k: int) -> Seq<(u32, u32)>
    decreases k,
{
    if k <= 0 {
        Seq::empty()
    } else {
        spec_desktop_pairs(s, k - 1) + spec_ws_pairs(s, k - 1)
    }
}

proof fn lemma_desktop_pairs_len(s: StateModel, k: int)
    ensures
        spec_desktop_pairs(s, k).len() == spec_windows_before(s, k),
        spec_windows_before(s, k) >= 0,
    decreases k,
{
    if k > 0 {
        lemma_desktop_pairs_len(s, k - 1);
    }
}

/// Where workspace `k`'s window `i` sits in the flat pair list.
pub proof fn lemma_desktop_pairs_index(s: StateModel, k: int, i: int, m: int)
    requires
        0 <= k < m,
        0 <= i < s.workspaces[k].windows.len(),
    ensures
        0 <= spec_windows_before(s, k) + i < spec_desktop_pairs(s, m).len(),
        spec_desktop_pairs(s, m)[spec_windows_before(s, k) + i] == (
            s.workspaces[k].windows[i],
            k as u32,
        ),
    decreases m,
{
    lemma_desktop_pairs_len(s, k);
    lemma_desktop_pairs_len(s, m);
    if k == m - 1 {
        lemma_desktop_pairs_len(s, m - 1);
    } else {
        lemma_desktop_pairs_index(s, k, i, m - 1);
        lemma_desktop_pairs_len(s, m - 1);
    }
}

impl EwmhManager {
    pub fn new(atoms: AtomTable, root: u32, check_window: u32) -> (r: EwmhManager)
        ensures
            r.atoms == atoms,
            r.root == root,
            r.check_window == check_window,
    {
        EwmhManager { atoms, root, check_window }
    }

    /// The one-time hints published at startup: the supporting-WM-check
    /// pair, the manager's name, the desktop count, and the supported
    /// atom list.
    pub fn publish_hints(&self) -> (r: Effects)
        ensures
            r@.len() == 5,
            is_window_prop(
                r@[0],
                self.root,
                self.atoms.supporting_wm_check,
                seq![self.check_window],
            ),
            is_window_prop(
                r@[1],
                self.check_window,
                self.atoms.supporting_wm_check,
                seq![self.check_window],
            ),
            is_utf8_string(r@[2], self.check_window, self.atoms.wm_name, "ferriswm"@),
            r@[3] == (Effect::SetCardinal32 {
                window: self.root,
                atom: self.atoms.number_of_desktops,
                value: NUM_WORKSPACES as u32,
            }),
            is_atom_list(
                r@[4],
                self.root,
                self.atoms.supported,
                seq![
                    self.atoms.number_of_desktops,
                    self.atoms.current_desktop,
                    self.atoms.supported,
                    self.atoms.supporting_wm_check,
                    self.atoms.wm_window_type,
                    self.atoms.wm_name,
                    self.atoms.wm_desktop,
                    self.atoms.wm_state,
                    self.atoms.wm_state_fullscreen,
                    self.atoms.client_list,
                    self.atoms.active_window,
                    self.atoms.workarea,
                    self.atoms.desktop_geometry,
                    self.atoms.close_window,
                ],
            ),
    {
        let mut check_value: Vec<u32> = Vec::new();
        check_value.push(self.check_window);
        let mut check_value2: Vec<u32> = Vec::new();
        check_value2.push(self.check_window);
        let mut supported: Vec<u32> = Vec::new();
        supported.push(self.atoms.number_of_desktops);
        supported.push(self.atoms.current_desktop);
        supported.push(self.atoms.supported);
        supported.push(self.atoms.supporting_wm_check);
        supported.push(self.atoms.wm_window_type);
        supported.push(self.atoms.wm_name);
        supported.push(self.atoms.wm_desktop);
        supported.push(self.atoms.wm_state);
        supported.push(self.atoms.wm_state_fullscreen);
        supported.push(self.atoms.client_list);
        supported.push(self.atoms.active_window);
        supported.push(self.atoms.workarea);
        supported.push(self.atoms.desktop_geometry);
        supported.push(self.atoms.close_window);
        proof {
            assert(check_value@ =~= seq![self.check_window]);
            assert(check_value2@ =~= seq![self.check_window]);
            assert(supported@ =~= seq![
                self.atoms.number_of_desktops,
                self.atoms.current_desktop,
                self.atoms.supported,
                self.atoms.supporting_wm_check,
                self.atoms.wm_window_type,
                self.atoms.wm_name,
                self.atoms.wm_desktop,
                self.atoms.wm_state,
                self.atoms.wm_state_fullscreen,
                self.atoms.client_list,
                self.atoms.active_window,
                self.atoms.workarea,
                self.atoms.desktop_geometry,
                self.atoms.close_window,
            ]);
        }
        let mut out: Effects = Vec::new();
        out.push(
            Effect::SetWindowProperty {
                window: self.root,
                atom: self.atoms.supporting_wm_check,
                values: check_value,
            },
        );
        out.push(
            Effect::SetWindowProperty {
                window: self.check_window,
                atom: self.atoms.supporting_wm_check,
                values: check_value2,
            },
        );
        out.push(
            Effect::SetUtf8String {
                window: self.check_window,
                atom: self.atoms.wm_name,
                value: String::from_str("ferriswm"),
            },
        );
        out.push(
            Effect::SetCardinal32 {
                window: self.root,
                atom: self.atoms.number_of_desktops,
                value: NUM_WORKSPACES as u32,
            },
        );
        out.push(
            Effect::SetAtomList {
                window: self.root,
                atom: self.atoms.supported,
                values: supported,
            },
        );
        out
    }

    /// The `_NET_DESKTOP_GEOMETRY` effect.
    pub fn desktop_geometry_effect(&self, width: u32, height: u32) -> (r: Effect)
        ensures
            is_cardinal_list(r, self.root, self.atoms.desktop_geometry, seq![width, height]),
    {
        let mut values: Vec<u32> = Vec::new();
        values.push(width);
        values.push(height);
        proof {
            assert(values@ =~= seq![width, height]);
        }
        Effect::SetCardinal32List {
            window: self.root,
            atom: self.atoms.desktop_geometry,
            values,
        }
    }

    /// The `_NET_CLIENT_LIST` effect: all managed windows in creation
    /// order.
    pub fn client_list_effect(&self, windows: Vec<u32>) -> (r: Effect)
        ensures
            is_window_prop(r, self.root, self.atoms.client_list, windows@),
    {
        Effect::SetWindowProperty {
            window: self.root,
            atom: self.atoms.client_list,
            values: windows,
        }
    }

    /// The `_NET_CURRENT_DESKTOP` effect.
    pub fn current_desktop_effect(&self, desktop: usize) -> (r: Effect)
        requires
            desktop <= u32::MAX,
        ensures
            r == (Effect::SetCardinal32 {
                window: self.root,
                atom: self.atoms.current_desktop,
                value: desktop as u32,
            }),
    {
        Effect::SetCardinal32 {
            window: self.root,
            atom: self.atoms.current_desktop,
            value: desktop as u32,
        }
    }

    /// The `_NET_ACTIVE_WINDOW` effect: the focused window, or an empty
    /// list if none.
    pub fn active_window_effect(&self, focused: Option<u32>) -> (r: Effect)
        ensures
            is_window_prop(
                r,
                self.root,
                self.atoms.active_window,
                match focused {
                    Some(w) => seq![w],
                    None => Seq::empty(),
                },
            ),
    {
        let mut values: Vec<u32> = Vec::new();
        match focused {
            Some(w) => {
                values.push(w);
                proof {
                    assert(values@ =~= seq![w]);
                }
            }
            None => {}
        }
        Effect::SetWindowProperty {
            window: self.root,
            atom: self.atoms.active_window,
            values,
        }
    }

    /// The `_NET_WORKAREA` effect: one `{x, y, w, h}` per desktop.
    #[verifier::loop_isolation(false)]
    pub fn workarea_effect(&self, x: u32, y: u32, width: u32, height: u32) -> (r: Effect)
        ensures
            is_cardinal_list(
                r,
                self.root,
                self.atoms.workarea,
                Seq::new(
                    (4 * NUM_WORKSPACES) as nat,
                    |i: int|
                        if i % 4 == 0 {
                            x
                        } else if i % 4 == 1 {
                            y
                        } else if i % 4 == 2 {
                            width
                        } else {
                            height
                        },
                ),
            ),
    {
        let ghost target = Seq::new(
            (4 * NUM_WORKSPACES) as nat,
            |i: int|
                if i % 4 == 0 {
                    x
                } else if i % 4 == 1 {
                    y
                } else if i % 4 == 2 {
                    width
                } else {
                    height
                },
        );
        let mut values: Vec<u32> = Vec::new();
        let mut idx: usize = 0;
        while idx < 4 * NUM_WORKSPACES
            invariant
                0 <= idx <= 4 * NUM_WORKSPACES,
                values@ == target.take(idx as int),
            decreases 4 * NUM_WORKSPACES - idx,
        {
            let v = if idx % 4 == 0 {
                x
            } else if idx % 4 == 1 {
                y
            } else if idx % 4 == 2 {
                width
            } else {
                height
            };
            values.push(v);
            proof {
                assert(values@ =~= target.take(idx as int + 1));
            }
            idx = idx + 1;
        }
        proof {
            assert(target.take(4 * (NUM_WORKSPACES as int)) =~= target);
        }
        Effect::SetCardinal32List { window: self.root, atom: self.atoms.workarea, values }
    }

    /// The `_NET_WM_DESKTOP` effect for one window.
    pub fn window_desktop_effect(&self, window: u32, desktop: u32) -> (r: Effect)
        ensures
            r == (Effect::SetCardinal32 { window, atom: self.atoms.wm_desktop, value: desktop }),
    {
        Effect::SetCardinal32 { window, atom: self.atoms.wm_desktop, value: desktop }
    }

    /// The `_NET_WM_STATE` effect for one window: holds the fullscreen
    /// atom exactly when the window is fullscreen.
    pub fn window_fullscreen_state_effect(&self, window: u32, fullscreen: bool) -> (r: Effect)
        ensures
            is_atom_list(
                r,
                window,
                self.atoms.wm_state,
                if fullscreen {
                    seq![self.atoms.wm_state_fullscreen]
                } else {
                    Seq::empty()
                },
            ),
    {
        let mut values: Vec<u32> = Vec::new();
        if fullscreen {
            values.push(self.atoms.wm_state_fullscreen);
            proof {
                assert(values@ =~= seq![self.atoms.wm_state_fullscreen]);
            }
        }
        Effect::SetAtomList { window, atom: self.atoms.wm_state, values }
    }

    /// The per-state EWMH synchronization, emitted after every reducer:
    /// the client list, the current desktop, the active window, the
    /// workarea, and per managed window its desktop index and its
    /// fullscreen state.
    pub fn sync_effects(&self, state: &State) -> (r: Effects)
        requires
            state.inv(),
        ensures
            ({
                let s = state@;
                let pairs = spec_desktop_pairs(s, NUM_WORKSPACES as int);
                &&& r@.len() == 4 + 2 * pairs.len()
                &&& is_window_prop(r@[0], self.root, self.atoms.client_list, s.order)
                &&& r@[1] == (Effect::SetCardinal32 {
                    window: self.root,
                    atom: self.atoms.current_desktop,
                    value: s.current as u32,
                })
                &&& is_window_prop(
                    r@[2],
                    self.root,
                    self.atoms.active_window,
                    spec_active_window_values(s),
                )
                &&& is_cardinal_list(r@[3], self.root, self.atoms.workarea, spec_workarea_values(s))
                &&& forall|j: int|
                    #![trigger pairs[j]]
                    0 <= j < pairs.len() ==> {
                        &&& r@[4 + 2 * j] == (Effect::SetCardinal32 {
                            window: pairs[j].0,
                            atom: self.atoms.wm_desktop,
                            value: pairs[j].1,
                        })
                        &&& is_atom_list(
                            r@[4 + 2 * j + 1],
                            pairs[j].0,
                            self.atoms.wm_state,
                            spec_wm_state_values(*self, s, pairs[j].0),
                        )
                    }
            }),
    {
        let ghost s = state@;
        proof {
            state.lemma_inv();
        }

        // Flatten the workspaces into (window, desktop) pairs.
        let mut pairs: Vec<(u32, u32)> = Vec::new();
        let mut k: usize = 0;
        while k < NUM_WORKSPACES
            invariant
                state.inv(),
                s == state@,
                crate::state::state_wf(s),
                0 <= k <= NUM_WORKSPACES,
                pairs@ == spec_desktop_pairs(s, k as int),
            decreases NUM_WORKSPACES - k,
        {
            let n = state.workspace_len(k);
            let ghost base_pairs = pairs@;
            let mut i: usize = 0;
            while i < n
                invariant
                    state.inv(),
                    s == state@,
                    crate::state::state_wf(s),
                    0 <= k < NUM_WORKSPACES,
                    0 <= i <= n,
                    n == s.workspaces[k as int].windows.len(),
                    base_pairs == spec_desktop_pairs(s, k as int),
                    pairs@ == base_pairs + spec_ws_pairs(s, k as int).take(i as int),
                decreases n - i,
            {
                let w = state.workspace_window_at(k, i);
                pairs.push((w, k as u32));
                proof {
                    assert(pairs@ =~= base_pairs + spec_ws_pairs(s, k as int).take(i as int + 1));
                }
                i = i + 1;
            }
            proof {
                assert(spec_ws_pairs(s, k as int).take(n as int) =~= spec_ws_pairs(s, k as int));
                assert(pairs@ =~= spec_desktop_pairs(s, k as int + 1));
            }
            k = k + 1;
        }
        let ghost allpairs = spec_desktop_pairs(s, NUM_WORKSPACES as int);

        // The four root-window properties, then one desktop index and one
        // window-state effect per managed window.
        let mut out: Effects = Vec::new();
        out.push(self.client_list_effect(state.client_list_windows()));
        out.push(self.current_desktop_effect(state.current_workspace_id()));
        out.push(self.active_window_effect(state.focused_window()));
        let screen = state.screen();
        out.push(self.workarea_effect(0, 0, screen.width, state.usable_screen_height()));

        let m = pairs.len();
        let mut j: usize = 0;
        while j < m
            invariant
                state.inv(),
                s == state@,
                0 <= j <= m,
                pairs@ == allpairs,
                m == allpairs.len(),
                out@.len() == 4 + 2 * j,
                is_window_prop(out@[0], self.root, self.atoms.client_list, s.order),
                out@[1] == (Effect::SetCardinal32 {
                    window: self.root,
                    atom: self.atoms.current_desktop,
                    value: s.current as u32,
                }),
                is_window_prop(
                    out@[2],
                    self.root,
                    self.atoms.active_window,
                    spec_active_window_values(s),
                ),
                is_cardinal_list(out@[3], self.root, self.atoms.workarea, spec_workarea_values(s)),
                forall|j2: int|
                    #![trigger allpairs[j2]]
                    0 <= j2 < j ==> {
                        &&& out@[4 + 2 * j2] == (Effect::SetCardinal32 {
                            window: allpairs[j2].0,
                            atom: self.atoms.wm_desktop,
                            value: allpairs[j2].1,
                        })
                        &&& is_atom_list(
                            out@[4 + 2 * j2 + 1],
                            allpairs[j2].0,
                            self.atoms.wm_state,
                            spec_wm_state_values(*self, s, allpairs[j2].0),
                        )
                    },
            decreases m - j,
        {
            let p = pairs[j];
            out.push(self.window_desktop_effect(p.0, p.1));
            let fs = state.is_window_fullscreen(p.0);
            out.push(self.window_fullscreen_state_effect(p.0, fs));
            j = j + 1;
        }
        out
    }
}

} // verus!
