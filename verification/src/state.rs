//! The window-state engine: the per-workspace client model, dock and
//! fullscreen tracking, the focus, and the event reducers that turn X
//! events and user actions into effects.
//!
//! Reducers are total: they never fail, they only return effects that
//! may fail later at the X server.

use crate::effect::{Effect, Effects};
use crate::layout::{
    sat_sub, spec_layout_order, Layout, LayoutManager, LayoutType, Rect,
};
use crate::workspace::{
    ws_focused_window, ws_push, ws_push_weighted, ws_remove, ws_wf, Workspace, WorkspaceModel,
};
use vstd::prelude::*;

verus! {

/// Number of virtual desktops.
pub const NUM_WORKSPACES: usize = 10;

/// Screen dimensions, border widths and dock heights are X11 values
/// that fit 16 bits.
pub const MAX_DIMENSION: u32 = 0xffff;

/// The window gap is kept small enough that `screen width + gap` always
/// fits an `i32` coordinate.
pub const MAX_WINDOW_GAP: u32 = 0x7fff_0000;

/// The screen the manager drives. Immutable after initialization.
#[derive(Clone, Copy, Debug, PartialEq, Eq, Structural)]
pub struct ScreenConfig {
    pub width: u32,
    pub height: u32,
    pub focused_border_pixel: u32,
    pub normal_border_pixel: u32,
}

/// How a window presenting itself to the manager is treated.
#[derive(Debug, Copy, Clone, Eq, PartialEq, Structural)]
pub enum WindowType {
    /// Normal client windows the WM should manage (tile/focus/workspace).
    Managed,
    /// Windows that manage themselves (override-redirect popups, menus).
    Unmanaged,
    /// Dock/panel windows (EWMH dock window type).
    Dock,
}

/// The grammar of user-initiated state change, bound to keys.
#[derive(Debug, Clone, PartialEq, Eq)]
pub enum ActionEvent {
    Spawn(String),
    Kill,
    NextWindow,
    PrevWindow,
    SwapLeft,
    SwapRight,
    IncreaseWindowWeight(u32),
    DecreaseWindowWeight(u32),
    IncreaseWindowGap(u32),
    DecreaseWindowGap(u32),
    GoToWorkspace(usize),
    SendToWorkspace(usize),
    ToggleFullscreen,
    CycleLayout,
}

/// The mathematical content of the full manager state.
#[verifier::ext_equal]
pub ghost struct StateModel {
    pub screen: ScreenConfig,
    pub workspaces: Seq<WorkspaceModel>,
    pub current: int,
    pub docks: Seq<u32>,
    pub fullscreen: Seq<u32>,
    pub order: Seq<u32>,
    pub pending_unmaps: Seq<u32>,
    pub border_width: u32,
    pub window_gap: u32,
    pub dock_height: u32,
    pub layout_index: int,
}

/// No value occurs twice.
pub open spec fn no_dups(s: Seq<u32>) -> bool {
    forall|i: int, j: int| 0 <= i < j < s.len() ==> s[i] != s[j]
}

/// The index of the first occurrence of `w` in `s`, or `-1`.
pub open spec fn first_index_of(s: Seq<u32>, w: u32) -> int
    decreases s.len(),
{
    if s.len() == 0 {
        -1
    } else if s[0] == w {
        0
    } else if first_index_of(s.drop_first(), w) == -1 {
        -1
    } else {
        1 + first_index_of(s.drop_first(), w)
    }
}

pub proof fn lemma_first_index_of(s: Seq<u32>, w: u32)
    ensures
        s.contains(w) <==> 0 <= first_index_of(s, w) < s.len(),
        !s.contains(w) ==> first_index_of(s, w) == -1,
        0 <= first_index_of(s, w) ==> s[first_index_of(s, w)] == w,
        forall|k: int| 0 <= k < first_index_of(s, w) ==> s[k] != w,
    decreases s.len(),
{
    if s.len() > 0 && s[0] != w {
        lemma_first_index_of(s.drop_first(), w);
        if s.contains(w) {
            let i = choose|i: int| 0 <= i < s.len() && s[i] == w;
            assert(s.drop_first()[i - 1] == w);
        }
        if s.drop_first().contains(w) {
            let i = choose|i: int| 0 <= i < s.len() - 1 && s.drop_first()[i] == w;
            assert(s[i + 1] == w);
        }
        assert forall|k: int| 0 <= k < first_index_of(s, w) implies s[k] != w by {
            if k > 0 {
                assert(s.drop_first()[k - 1] == s[k]);
            }
        }
    }
}

/// `s` with the first occurrence of `w` removed, if there is one.
pub open spec fn remove_first(s: Seq<u32>, w: u32) -> Seq<u32> {
    if s.contains(w) {
        s.remove(first_index_of(s, w))
    } else {
        s
    }
}

/// Removing a value just appended to a sequence that did not hold it
/// restores the sequence.
pub proof fn lemma_remove_first_push(s: Seq<u32>, w: u32)
    requires
        !s.contains(w),
    ensures
        remove_first(s.push(w), w) == s,
{
    let s2 = s.push(w);
    lemma_first_index_of(s2, w);
    assert(s2[s.len() as int] == w);
    assert(s2.contains(w));
    let i = first_index_of(s2, w);
    assert forall|k: int| 0 <= k < s.len() implies s2[k] != w by {
        assert(s[k] == s2[k]);
        assert(s.contains(s[k])) by {
            assert(s[k] == s[k]);
        }
    }
    assert(i == s.len());
    assert(s2.remove(i) =~= s);
}

/// The first workspace at or after `k` that lists `w`, else
/// `NUM_WORKSPACES`.
pub open spec fn spec_find_workspace(s: StateModel, w: u32, k: int) -> int
    decreases NUM_WORKSPACES - k,
{
    if k < 0 || k >= NUM_WORKSPACES {
        NUM_WORKSPACES as int
    } else if s.workspaces[k].windows.contains(w) {
        k
    } else {
        spec_find_workspace(s, w, k + 1)
    }
}

pub proof fn lemma_spec_find_workspace(s: StateModel, w: u32)
    requires
        s.workspaces.len() == NUM_WORKSPACES,
    ensures
        0 <= spec_find_workspace(s, w, 0) <= NUM_WORKSPACES,
        spec_find_workspace(s, w, 0) < NUM_WORKSPACES ==> s.workspaces[spec_find_workspace(
            s,
            w,
            0,
        )].windows.contains(w),
        forall|k: int|
            0 <= k < spec_find_workspace(s, w, 0) ==> !(#[trigger] s.workspaces[k]).windows.contains(
                w,
            ),
        spec_find_workspace(s, w, 0) == NUM_WORKSPACES ==> forall|k: int|
            0 <= k < NUM_WORKSPACES ==> !(#[trigger] s.workspaces[k]).windows.contains(w),
{
    lemma_spec_find_workspace_rec(s, w, 0);
}

proof fn lemma_spec_find_workspace_rec(s: StateModel, w: u32, k0: int)
    requires
        s.workspaces.len() == NUM_WORKSPACES,
        0 <= k0 <= NUM_WORKSPACES,
    ensures
        k0 <= spec_find_workspace(s, w, k0) <= NUM_WORKSPACES,
        spec_find_workspace(s, w, k0) < NUM_WORKSPACES ==> s.workspaces[spec_find_workspace(
            s,
            w,
            k0,
        )].windows.contains(w),
        forall|k: int|
            k0 <= k < spec_find_workspace(s, w, k0) ==> !(#[trigger] s.workspaces[k]).windows.contains(
                w,
            ),
    decreases NUM_WORKSPACES - k0,
{
    if k0 < NUM_WORKSPACES && !s.workspaces[k0].windows.contains(w) {
        lemma_spec_find_workspace_rec(s, w, k0 + 1);
    }
}

/// A window the state already tracks, as dock or managed.
pub open spec fn spec_window_known(s: StateModel, w: u32) -> bool {
    s.docks.contains(w) || spec_find_workspace(s, w, 0) < NUM_WORKSPACES
}

/// Global invariants: ten well-formed workspaces, a current index in
/// range, duplicate-free dock and fullscreen lists, and the dimension
/// bounds that keep every layout coordinate within an `i32`.
pub open spec fn state_wf(s: StateModel) -> bool {
    &&& s.workspaces.len() == NUM_WORKSPACES
    &&& 0 <= s.current < NUM_WORKSPACES
    &&& forall|k: int| 0 <= k < s.workspaces.len() ==> ws_wf(#[trigger] s.workspaces[k])
    &&& no_dups(s.docks)
    &&& no_dups(s.fullscreen)
    &&& s.screen.width <= MAX_DIMENSION
    &&& s.screen.height <= MAX_DIMENSION
    &&& s.border_width <= MAX_DIMENSION
    &&& s.window_gap <= MAX_WINDOW_GAP
    &&& s.dock_height <= MAX_DIMENSION
    &&& 0 <= s.layout_index < spec_layout_order().len()
}

/// The full manager state.
pub struct State {
    screen: ScreenConfig,
    workspaces: Vec<Workspace>,
    current_workspace: usize,
    docks: Vec<u32>,
    fullscreen: Vec<u32>,
    client_order: Vec<u32>,
    pending_unmaps: Vec<u32>,
    border_width: u32,
    window_gap: u32,
    dock_height: u32,
    layout_manager: LayoutManager,
}

impl View for State {
    type V = StateModel;

    closed spec fn view(&self) -> StateModel {
        StateModel {
            screen: self.screen,
            workspaces: self.workspaces@.map_values(|w: Workspace| w@),
            current: self.current_workspace as int,
            docks: self.docks@,
            fullscreen: self.fullscreen@,
            order: self.client_order@,
            pending_unmaps: self.pending_unmaps@,
            border_width: self.border_width,
            window_gap: self.window_gap,
            dock_height: self.dock_height,
            layout_index: self.layout_manager.current_index(),
        }
    }
}

/// Finds the first occurrence of `w` in a window list.
fn find_first(v: &Vec<u32>, w: u32) -> (r: Option<usize>)
    ensures
        r is Some <==> v@.contains(w),
        r is Some ==> r.unwrap() as int == first_index_of(v@, w),
{
    proof {
        lemma_first_index_of(v@, w);
    }
    let n = v.len();
    let mut i: usize = 0;
    while i < n
        invariant
            0 <= i <= n,
            n == v@.len(),
            forall|k: int| 0 <= k < i ==> v@[k] != w,
        decreases n - i,
    {
        if v[i] == w {
            proof {
                lemma_first_index_of(v@, w);
            }
            return Some(i);
        }
        i = i + 1;
    }
    None
}

/// Whether a window list holds `w`.
fn list_contains(v: &Vec<u32>, w: u32) -> (r: bool)
    ensures
        r == v@.contains(w),
{
    match find_first(v, w) {
        Some(_) => true,
        None => false,
    }
}

/// Removes the first occurrence of `w`, if any.
fn list_remove_first(v: &mut Vec<u32>, w: u32)
    ensures
        final(v)@ == remove_first(old(v)@, w),
{
    proof {
        lemma_first_index_of(old(v)@, w);
    }
    match find_first(v, w) {
        Some(i) => {
            let _ = v.remove(i);
        }
        None => {}
    }
}

impl State {
    /// The executable state is well-formed: the model invariants hold
    /// and the layout manager addresses its registration order.
    pub closed spec fn inv(&self) -> bool {
        &&& state_wf(self@)
        &&& self.layout_manager.wf()
    }

    /// A fresh state: ten empty workspaces, desktop 0 current, nothing
    /// tracked, the default layout in effect.
    pub fn new(screen: ScreenConfig, border_width: u32, window_gap: u32, dock_height: u32) -> (r:
        State)
        requires
            screen.width <= MAX_DIMENSION,
            screen.height <= MAX_DIMENSION,
            border_width <= MAX_DIMENSION,
            window_gap <= MAX_DIMENSION,
            dock_height <= MAX_DIMENSION,
        ensures
            r.inv(),
            r@ == (StateModel {
                screen,
                workspaces: Seq::new(NUM_WORKSPACES as nat, |k: int| empty_workspace()),
                current: 0,
                docks: Seq::empty(),
                fullscreen: Seq::empty(),
                order: Seq::empty(),
                pending_unmaps: Seq::empty(),
                border_width,
                window_gap,
                dock_height,
                layout_index: 0,
            }),
    {
        let mut workspaces: Vec<Workspace> = Vec::new();
        let mut k: usize = 0;
        while k < NUM_WORKSPACES
            invariant
                0 <= k <= NUM_WORKSPACES,
                workspaces@.len() == k,
                forall|i: int| 0 <= i < k ==> (#[trigger] workspaces@[i])@ == empty_workspace(),
            decreases NUM_WORKSPACES - k,
        {
            workspaces.push(Workspace::new());
            k = k + 1;
        }
        let r = State {
            screen,
            workspaces,
            current_workspace: 0,
            docks: Vec::new(),
            fullscreen: Vec::new(),
            client_order: Vec::new(),
            pending_unmaps: Vec::new(),
            border_width,
            window_gap,
            dock_height,
            layout_manager: LayoutManager::new(),
        };
        proof {
            r.layout_manager.lemma_wf();
            assert(r@.workspaces =~= Seq::new(NUM_WORKSPACES as nat, |i: int| empty_workspace()));
            assert(r@ =~= StateModel {
                screen,
                workspaces: Seq::new(NUM_WORKSPACES as nat, |i: int| empty_workspace()),
                current: 0,
                docks: Seq::empty(),
                fullscreen: Seq::empty(),
                order: Seq::empty(),
                pending_unmaps: Seq::empty(),
                border_width,
                window_gap,
                dock_height,
                layout_index: 0,
            });
        }
        r
    }

    /// The screen configuration.
    pub fn screen(&self) -> (r: ScreenConfig)
        ensures
            r == self@.screen,
    {
        self.screen
    }

    /// The index of the current workspace.
    pub fn current_workspace_id(&self) -> (r: usize)
        ensures
            r as int == self@.current,
    {
        self.current_workspace
    }

    /// The focused window of the current workspace, if any.
    pub fn focused_window(&self) -> (r: Option<u32>)
        requires
            self.inv(),
        ensures
            r == ws_focused_window(self@.workspaces[self@.current]),
    {
        self.workspaces[self.current_workspace].get_focused_window()
    }

    /// The screen height left over after the dock reservation.
    pub fn usable_screen_height(&self) -> (r: u32)
        ensures
            r as int == spec_usable_height(self@),
    {
        if self.docks.len() > 0 {
            if self.screen.height >= self.dock_height {
                self.screen.height - self.dock_height
            } else {
                0
            }
        } else {
            self.screen.height
        }
    }

    /// All managed windows, in the order they were mapped.
    pub fn client_list_windows(&self) -> (r: Vec<u32>)
        ensures
            r@ == self@.order,
    {
        let mut out: Vec<u32> = Vec::new();
        let n = self.client_order.len();
        let mut i: usize = 0;
        while i < n
            invariant
                0 <= i <= n,
                n == self.client_order@.len(),
                out@ == self.client_order@.take(i as int),
            decreases n - i,
        {
            out.push(self.client_order[i]);
            proof {
                assert(out@ =~= self.client_order@.take(i as int + 1));
            }
            i = i + 1;
        }
        proof {
            assert(self.client_order@.take(n as int) =~= self.client_order@);
        }
        out
    }

    /// The workspace a window sits on, if it is managed.
    pub fn window_workspace(&self, window: u32) -> (r: Option<usize>)
        requires
            self.inv(),
        ensures
            r is Some <==> spec_find_workspace(self@, window, 0) < NUM_WORKSPACES,
            r is Some ==> r.unwrap() as int == spec_find_workspace(self@, window, 0),
    {
        proof {
            lemma_spec_find_workspace(self@, window);
        }
        let mut k: usize = 0;
        while k < NUM_WORKSPACES
            invariant
                self.inv(),
                0 <= k <= NUM_WORKSPACES,
                forall|k2: int|
                    0 <= k2 < k ==> !(#[trigger] self@.workspaces[k2]).windows.contains(window),
            decreases NUM_WORKSPACES - k,
        {
            proof {
                assert(self@.workspaces[k as int] == self.workspaces@[k as int]@);
            }
            if self.workspaces[k].contains(window) {
                proof {
                    lemma_spec_find_workspace(self@, window);
                }
                return Some(k);
            }
            k = k + 1;
        }
        None
    }

    /// What the executable invariant gives of the model.
    pub proof fn lemma_inv(&self)
        requires
            self.inv(),
        ensures
            state_wf(self@),
    {
    }

    /// The number of windows on workspace `k`.
    pub fn workspace_len(&self, k: usize) -> (r: usize)
        requires
            self.inv(),
            k < NUM_WORKSPACES,
        ensures
            r == self@.workspaces[k as int].windows.len(),
    {
        proof {
            assert(self@.workspaces[k as int] == self.workspaces@[k as int]@);
        }
        self.workspaces[k].num_of_windows()
    }

    /// The window at position `i` of workspace `k`.
    pub fn workspace_window_at(&self, k: usize, i: usize) -> (r: u32)
        requires
            self.inv(),
            k < NUM_WORKSPACES,
            i < self@.workspaces[k as int].windows.len(),
        ensures
            r == self@.workspaces[k as int].windows[i as int],
    {
        proof {
            assert(self@.workspaces[k as int] == self.workspaces@[k as int]@);
        }
        self.workspaces[k].window_at(i)
    }

    /// Whether the window is in the fullscreen set.
    pub fn is_window_fullscreen(&self, window: u32) -> (r: bool)
        ensures
            r == self@.fullscreen.contains(window),
    {
        list_contains(&self.fullscreen, window)
    }
}

/// A workspace with no windows and no focus.
pub open spec fn empty_workspace() -> WorkspaceModel {
    WorkspaceModel { windows: Seq::empty(), weights: Seq::empty(), focus: None }
}

/// The screen height available to layouts, after the dock reservation.
pub open spec fn spec_usable_height(s: StateModel) -> int {
    if s.docks.len() > 0 {
        sat_sub(s.screen.height as int, s.dock_height as int)
    } else {
        s.screen.height as int
    }
}

/// The area handed to the layout engine: the full screen, less the strip
/// at the top a dock reserves.
pub open spec fn spec_layout_area(s: StateModel) -> Rect {
    Rect {
        x: 0,
        y: if s.docks.len() > 0 {
            s.dock_height as i32
        } else {
            0
        },
        w: s.screen.width,
        h: spec_usable_height(s) as u32,
    }
}

/// The layout algorithm currently in effect.
pub open spec fn spec_current_layout(s: StateModel) -> LayoutType {
    spec_layout_order()[s.layout_index]
}

/// The rectangle the current layout gives window `i` of the current
/// workspace.
pub open spec fn spec_layout_rect(s: StateModel, i: int) -> Rect {
    spec_current_layout(s).rect_at(
        spec_layout_area(s),
        s.workspaces[s.current].weights,
        s.border_width,
        s.window_gap,
        i,
    )
}

/// The configure effect for window `i` of the current workspace: its
/// layout rectangle, or the whole screen if it is fullscreen.
pub open spec fn spec_window_configure(s: StateModel, i: int) -> Effect {
    let ws = s.workspaces[s.current];
    let w = ws.windows[i];
    if s.fullscreen.contains(w) {
        Effect::ConfigurePositionSize {
            window: w,
            x: 0,
            y: 0,
            w: s.screen.width,
            h: s.screen.height,
        }
    } else {
        let r = spec_layout_rect(s, i);
        // The layout works in area-relative coordinates; the dock
        // reservation shifts every rectangle down.
        Effect::Configure {
            window: w,
            x: r.x,
            y: (spec_layout_area(s).y + r.y) as i32,
            w: r.w,
            h: r.h,
            border: s.border_width,
        }
    }
}

/// Every layout rectangle's y offset is small enough that adding the
/// dock reservation stays within an `i32`.
pub proof fn lemma_layout_rect_bounds(s: StateModel, i: int)
    requires
        state_wf(s),
        s.workspaces[s.current].windows.len() >= 1,
        0 <= i < s.workspaces[s.current].windows.len(),
    ensures
        0 <= spec_layout_rect(s, i).y <= MAX_WINDOW_GAP,
{
    let area = spec_layout_area(s);
    let kind = spec_current_layout(s);
    if kind == LayoutType::MasterLayout {
        crate::layout::lemma_master_frame_bounds(area, s.window_gap, i as nat);
    }
}

/// The border effect for window `i` of the current workspace: the
/// focused window gets the focused pixel, the rest the normal one.
pub open spec fn spec_window_border(s: StateModel, i: int) -> Effect {
    let ws = s.workspaces[s.current];
    Effect::SetBorder {
        window: ws.windows[i],
        pixel: if ws.focus == Some(i) {
            s.screen.focused_border_pixel
        } else {
            s.screen.normal_border_pixel
        },
        width: s.border_width,
    }
}

/// A full re-layout of the current workspace: one configure and one
/// border effect per window, in window order.
pub open spec fn spec_layout_effects(s: StateModel) -> Seq<Effect> {
    let n = s.workspaces[s.current].windows.len() as int;
    Seq::new(
        (2 * n) as nat,
        |k: int|
            if k % 2 == 0 {
                spec_window_configure(s, k / 2)
            } else {
                spec_window_border(s, k / 2)
            },
    )
}

/// A configure-only pass over the current workspace.
pub open spec fn spec_configure_effects(s: StateModel) -> Seq<Effect> {
    let n = s.workspaces[s.current].windows.len();
    Seq::new(n, |k: int| spec_window_configure(s, k))
}

/// Focus and raise the current workspace's focused window, if any.
pub open spec fn spec_focus_refresh(s: StateModel) -> Seq<Effect> {
    match ws_focused_window(s.workspaces[s.current]) {
        Some(f) => seq![Effect::Focus(f), Effect::Raise(f)],
        None => Seq::empty(),
    }
}

/// The current layout accepts the current workspace whenever it is
/// non-empty: the state invariant keeps every dimension small enough.
pub proof fn lemma_layout_req(s: StateModel)
    requires
        state_wf(s),
        s.workspaces[s.current].windows.len() >= 1,
    ensures
        spec_current_layout(s).generate_req(
            spec_layout_area(s),
            s.workspaces[s.current].weights,
            s.border_width,
            s.window_gap,
        ),
{
    let area = spec_layout_area(s);
    assert(area.w == s.screen.width);
    assert(area.h <= s.screen.height);
    assert(ws_wf(s.workspaces[s.current]));
}

impl State {
    /// The area handed to the layout engine.
    fn layout_area(&self) -> (r: Rect)
        requires
            self.inv(),
        ensures
            r == spec_layout_area(self@),
    {
        Rect {
            x: 0,
            y: if self.docks.len() > 0 {
                self.dock_height as i32
            } else {
                0
            },
            w: self.screen.width,
            h: if self.docks.len() > 0 {
                if self.screen.height >= self.dock_height {
                    self.screen.height - self.dock_height
                } else {
                    0
                }
            } else {
                self.screen.height
            },
        }
    }

    /// Appends the re-layout effects for the current workspace: one
    /// configure per window, and with `with_borders` also one border
    /// effect per window.
    fn push_window_configures(&self, out: &mut Effects, with_borders: bool)
        requires
            self.inv(),
        ensures
            with_borders ==> final(out)@ == old(out)@ + spec_layout_effects(self@),
            !with_borders ==> final(out)@ == old(out)@ + spec_configure_effects(self@),
    {
        let ghost s = self@;
        let ws_index = self.current_workspace;
        let n = self.workspaces[ws_index].num_of_windows();
        if n == 0 {
            proof {
                assert(old(out)@ + spec_layout_effects(s) =~= old(out)@);
                assert(old(out)@ + spec_configure_effects(s) =~= old(out)@);
            }
            return ;
        }
        proof {
            lemma_layout_req(s);
            self.layout_manager.lemma_wf();
        }
        let area = self.layout_area();
        let kind = self.layout_manager.get_current_layout();
        let rects = kind.generate_layout(
            area,
            self.workspaces[ws_index].weights().as_slice(),
            self.border_width,
            self.window_gap,
        );
        let mut i: usize = 0;
        while i < n
            invariant
                self.inv(),
                s == self@,
                ws_index == self@.current,
                0 <= i <= n,
                n == s.workspaces[s.current].windows.len(),
                area == spec_layout_area(s),
                rects@.len() == n,
                forall|j: int| 0 <= j < n ==> rects@[j] == spec_layout_rect(s, j),
                with_borders ==> out@ == old(out)@ + spec_layout_effects(s).take(2 * i),
                !with_borders ==> out@ == old(out)@ + spec_configure_effects(s).take(i as int),
            decreases n - i,
        {
            let w = self.workspaces[ws_index].window_at(i);
            if list_contains(&self.fullscreen, w) {
                out.push(
                    Effect::ConfigurePositionSize {
                        window: w,
                        x: 0,
                        y: 0,
                        w: self.screen.width,
                        h: self.screen.height,
                    },
                );
            } else {
                proof {
                    lemma_layout_rect_bounds(s, i as int);
                }
                let rect = rects[i];
                out.push(
                    Effect::Configure {
                        window: w,
                        x: rect.x,
                        y: area.y + rect.y,
                        w: rect.w,
                        h: rect.h,
                        border: self.border_width,
                    },
                );
            }
            if with_borders {
                let focused = match self.workspaces[ws_index].get_focus() {
                    Some(f) => f == i,
                    None => false,
                };
                out.push(
                    Effect::SetBorder {
                        window: w,
                        pixel: if focused {
                            self.screen.focused_border_pixel
                        } else {
                            self.screen.normal_border_pixel
                        },
                        width: self.border_width,
                    },
                );
                proof {
                    assert(out@ =~= old(out)@ + spec_layout_effects(s).take(2 * (i + 1)));
                }
            } else {
                proof {
                    assert(out@ =~= old(out)@ + spec_configure_effects(s).take(i as int + 1));
                }
            }
            i = i + 1;
        }
        proof {
            assert(spec_layout_effects(s).take(2 * (n as int)) =~= spec_layout_effects(s));
            assert(spec_configure_effects(s).take(n as int) =~= spec_configure_effects(s));
        }
    }

    /// Appends focus-and-raise effects for the focused window, if any.
    fn push_focus_refresh(&self, out: &mut Effects)
        requires
            self.inv(),
        ensures
            final(out)@ == old(out)@ + spec_focus_refresh(self@),
    {
        match self.focused_window() {
            Some(f) => {
                out.push(Effect::Focus(f));
                out.push(Effect::Raise(f));
                proof {
                    assert(out@ =~= old(out)@ + spec_focus_refresh(self@));
                }
            }
            None => {
                proof {
                    assert(out@ =~= old(out)@ + spec_focus_refresh(self@));
                }
            }
        }
    }

    /// Whether the state already tracks `window`, as dock or managed.
    fn window_known(&self, window: u32) -> (r: bool)
        requires
            self.inv(),
        ensures
            r == spec_window_known(self@, window),
    {
        if list_contains(&self.docks, window) {
            return true;
        }
        match self.window_workspace(window) {
            Some(_) => true,
            None => false,
        }
    }
}

/// A managed window mapped: appended to the current workspace with the
/// default weight, focused, and recorded in creation order.
pub open spec fn st_map_managed(s: StateModel, window: u32) -> StateModel {
    let ws = s.workspaces[s.current];
    let ws2 = WorkspaceModel { focus: Some(ws.windows.len() as int), ..ws_push(ws, window) };
    StateModel {
        workspaces: s.workspaces.update(s.current, ws2),
        order: s.order.push(window),
        ..s
    }
}

/// The effects of mapping a managed window: border, map, raise, focus,
/// button grab, enter-notify subscription, then a re-layout.
pub open spec fn spec_map_managed_effects(s: StateModel, window: u32) -> Seq<Effect> {
    seq![
        Effect::SetBorder {
            window,
            pixel: s.screen.focused_border_pixel,
            width: s.border_width,
        },
        Effect::MapWindow(window),
        Effect::Raise(window),
        Effect::Focus(window),
        Effect::GrabButton(window),
        Effect::SubscribeEnterNotify(window),
    ] + spec_layout_effects(st_map_managed(s, window))
}

/// A dock window mapped: added to the dock set.
pub open spec fn st_map_dock(s: StateModel, window: u32) -> StateModel {
    StateModel { docks: s.docks.push(window), ..s }
}

/// The effects of mapping a dock: map it, then re-lay the current
/// workspace under the new dock reservation.
pub open spec fn spec_map_dock_effects(s: StateModel, window: u32) -> Seq<Effect> {
    seq![Effect::MapWindow(window)] + spec_layout_effects(st_map_dock(s, window))
}

/// A window gone: removed from docks, or from its workspace together
/// with its weight, its fullscreen membership and its place in the
/// creation order. Unknown windows change nothing.
pub open spec fn st_destroy(s: StateModel, window: u32) -> StateModel {
    if s.docks.contains(window) {
        StateModel {
            docks: remove_first(s.docks, window),
            fullscreen: remove_first(s.fullscreen, window),
            ..s
        }
    } else {
        let k = spec_find_workspace(s, window, 0);
        if k < NUM_WORKSPACES {
            let ws = s.workspaces[k];
            let ws2 = ws_remove(ws, first_index_of(ws.windows, window));
            StateModel {
                workspaces: s.workspaces.update(k, ws2),
                fullscreen: remove_first(s.fullscreen, window),
                order: remove_first(s.order, window),
                ..s
            }
        } else {
            s
        }
    }
}

/// The effects of a window leaving: a re-layout and fresh focus effects,
/// but only when it sat on the current workspace.
pub open spec fn spec_destroy_effects(s: StateModel, window: u32) -> Seq<Effect> {
    if s.docks.contains(window) {
        Seq::empty()
    } else {
        let k = spec_find_workspace(s, window, 0);
        if k < NUM_WORKSPACES && k == s.current {
            let s2 = st_destroy(s, window);
            spec_layout_effects(s2) + spec_focus_refresh(s2)
        } else {
            Seq::empty()
        }
    }
}

/// An unmap notification: one the manager itself caused is absorbed;
/// any other means the client left, as on destroy.
pub open spec fn st_unmap(s: StateModel, window: u32) -> StateModel {
    if s.pending_unmaps.contains(window) {
        StateModel { pending_unmaps: remove_first(s.pending_unmaps, window), ..s }
    } else {
        st_destroy(s, window)
    }
}

pub open spec fn spec_unmap_effects(s: StateModel, window: u32) -> Seq<Effect> {
    if s.pending_unmaps.contains(window) {
        Seq::empty()
    } else {
        spec_destroy_effects(s, window)
    }
}

impl State {
    /// Reducer for a MapRequest event: a dock joins the dock set, a
    /// managed window joins the current workspace and takes the focus,
    /// an unmanaged or already-known window changes nothing.
    pub fn on_map_request(&mut self, window: u32, window_type: WindowType) -> (r: Effects)
        requires
            old(self).inv(),
        ensures
            final(self).inv(),
            state_wf(final(self)@),
            spec_window_known(old(self)@, window) || window_type == WindowType::Unmanaged
                ==> final(self)@ == old(self)@ && r@ == Seq::<Effect>::empty(),
            !spec_window_known(old(self)@, window) && window_type == WindowType::Dock ==> {
                &&& final(self)@ == st_map_dock(old(self)@, window)
                &&& r@ == spec_map_dock_effects(old(self)@, window)
            },
            !spec_window_known(old(self)@, window) && window_type == WindowType::Managed ==> {
                &&& final(self)@ == st_map_managed(old(self)@, window)
                &&& r@ == spec_map_managed_effects(old(self)@, window)
            },
    {
        let ghost s = old(self)@;
        if self.window_known(window) {
            return Vec::new();
        }
        match window_type {
            WindowType::Unmanaged => Vec::new(),
            WindowType::Dock => {
                self.docks.push(window);
                proof {
                    assert(self@ =~= st_map_dock(s, window));
                }
                let mut out: Effects = Vec::new();
                out.push(Effect::MapWindow(window));
                self.push_window_configures(&mut out, true);
                proof {
                    assert(out@ =~= spec_map_dock_effects(s, window));
                }
                out
            }
            WindowType::Managed => {
                proof {
                    lemma_spec_find_workspace(s, window);
                    assert(self@.workspaces[self@.current]
                        == self.workspaces@[self.current_workspace as int]@);
                }
                let k = self.current_workspace;
                let n = self.workspaces[k].num_of_windows();
                self.workspaces[k].push_window(window);
                let _ = self.workspaces[k].set_focus(n);
                self.client_order.push(window);
                proof {
                    assert(self@.workspaces =~= s.workspaces.update(
                        s.current,
                        self.workspaces@[k as int]@,
                    ));
                    assert(self@ =~= st_map_managed(s, window));
                }
                let mut out: Effects = Vec::new();
                out.push(
                    Effect::SetBorder {
                        window,
                        pixel: self.screen.focused_border_pixel,
                        width: self.border_width,
                    },
                );
                out.push(Effect::MapWindow(window));
                out.push(Effect::Raise(window));
                out.push(Effect::Focus(window));
                out.push(Effect::GrabButton(window));
                out.push(Effect::SubscribeEnterNotify(window));
                self.push_window_configures(&mut out, true);
                proof {
                    assert(out@ =~= spec_map_managed_effects(s, window));
                }
                out
            }
        }
    }

    /// Reducer for a DestroyNotify event.
    pub fn on_destroy(&mut self, window: u32) -> (r: Effects)
        requires
            old(self).inv(),
        ensures
            final(self).inv(),
            state_wf(final(self)@),
            final(self)@ == st_destroy(old(self)@, window),
            r@ == spec_destroy_effects(old(self)@, window),
    {
        let ghost s = old(self)@;
        if list_contains(&self.docks, window) {
            list_remove_first(&mut self.docks, window);
            list_remove_first(&mut self.fullscreen, window);
            proof {
                assert(self@ =~= st_destroy(s, window));
                lemma_remove_first_wf(s.docks, window);
                lemma_remove_first_wf(s.fullscreen, window);
            }
            return Vec::new();
        }
        match self.window_workspace(window) {
            Some(k) => {
                proof {
                    assert(self@.workspaces[k as int] == self.workspaces@[k as int]@);
                }
                let i = match self.workspaces[k].index_of(window) {
                    Some(i) => i,
                    None => {
                        proof {
                            lemma_spec_find_workspace(s, window);
                            assert(false);
                        }
                        0
                    }
                };
                proof {
                    lemma_first_index_of(s.workspaces[k as int].windows, window);
                }
                let _ = self.workspaces[k].remove_window(i);
                list_remove_first(&mut self.fullscreen, window);
                list_remove_first(&mut self.client_order, window);
                proof {
                    assert(self@.workspaces =~= s.workspaces.update(
                        k as int,
                        self.workspaces@[k as int]@,
                    ));
                    assert(self@ =~= st_destroy(s, window));
                    lemma_remove_first_wf(s.fullscreen, window);
                }
                let mut out: Effects = Vec::new();
                if k == self.current_workspace {
                    self.push_window_configures(&mut out, true);
                    self.push_focus_refresh(&mut out);
                    proof {
                        assert(out@ =~= spec_destroy_effects(s, window));
                    }
                } else {
                    proof {
                        assert(out@ =~= spec_destroy_effects(s, window));
                    }
                }
                out
            }
            None => {
                proof {
                    assert(self@ =~= st_destroy(s, window));
                }
                Vec::new()
            }
        }
    }

    /// Reducer for an UnmapNotify event: an unmap the manager itself
    /// requested is absorbed; any other is treated as the window leaving.
    pub fn on_unmap(&mut self, window: u32) -> (r: Effects)
        requires
            old(self).inv(),
        ensures
            final(self).inv(),
            state_wf(final(self)@),
            final(self)@ == st_unmap(old(self)@, window),
            r@ == spec_unmap_effects(old(self)@, window),
    {
        let ghost s = old(self)@;
        if list_contains(&self.pending_unmaps, window) {
            list_remove_first(&mut self.pending_unmaps, window);
            proof {
                assert(self@ =~= st_unmap(s, window));
            }
            return Vec::new();
        }
        self.on_destroy(window)
    }
}

/// The focus cursor moved onto `window`, wherever it is managed.
pub open spec fn st_set_focus(s: StateModel, window: u32) -> StateModel {
    let k = spec_find_workspace(s, window, 0);
    if k < NUM_WORKSPACES {
        let ws = s.workspaces[k];
        let ws2 = WorkspaceModel { focus: Some(first_index_of(ws.windows, window)), ..ws };
        StateModel { workspaces: s.workspaces.update(k, ws2), ..s }
    } else {
        s
    }
}

/// The effects of focusing `window`: focus, raise, the focused border
/// pixel on it and the normal pixel on the window that loses the focus —
/// all only when `window` sits on the current workspace.
pub open spec fn spec_set_focus_effects(s: StateModel, window: u32) -> Seq<Effect> {
    let k = spec_find_workspace(s, window, 0);
    if k < NUM_WORKSPACES && k == s.current {
        let prev = ws_focused_window(s.workspaces[k]);
        seq![
            Effect::Focus(window),
            Effect::Raise(window),
            Effect::SetBorder {
                window,
                pixel: s.screen.focused_border_pixel,
                width: s.border_width,
            },
        ] + if prev is Some && prev.unwrap() != window {
            seq![
                Effect::SetBorder {
                    window: prev.unwrap(),
                    pixel: s.screen.normal_border_pixel,
                    width: s.border_width,
                },
            ]
        } else {
            Seq::empty()
        }
    } else {
        Seq::empty()
    }
}

/// The workspace switch: every window of the old workspace is unmapped
/// (and the unmaps recorded as self-inflicted), the new workspace's
/// windows are mapped, configured, and its focused window focused.
pub open spec fn st_go_to(s: StateModel, target: int) -> StateModel {
    if target >= NUM_WORKSPACES || target == s.current || target < 0 {
        s
    } else {
        StateModel {
            current: target,
            pending_unmaps: s.pending_unmaps + s.workspaces[s.current].windows,
            ..s
        }
    }
}

pub open spec fn spec_go_to_effects(s: StateModel, target: int) -> Seq<Effect> {
    if target >= NUM_WORKSPACES || target == s.current || target < 0 {
        Seq::empty()
    } else {
        let s2 = st_go_to(s, target);
        s.workspaces[s.current].windows.map_values(|w: u32| Effect::Unmap(w))
            + s.workspaces[target].windows.map_values(|w: u32| Effect::MapWindow(w))
            + spec_configure_effects(s2) + (match ws_focused_window(s.workspaces[target]) {
            Some(f) => seq![Effect::Focus(f)],
            None => Seq::<Effect>::empty(),
        })
    }
}

/// Where `focus_window` sends the focus: the desktop the hint names, or
/// the desktop the window is found on.
pub open spec fn spec_focus_target(s: StateModel, window: u32, hint: Option<usize>) -> int {
    if hint is Some && (hint.unwrap() as int) < NUM_WORKSPACES {
        hint.unwrap() as int
    } else {
        spec_find_workspace(s, window, 0)
    }
}

/// Focusing a window in response to a client message: switch to its
/// workspace first when the hint or the lookup says so.
pub open spec fn st_focus_window(s: StateModel, window: u32, hint: Option<usize>) -> StateModel {
    let t = spec_focus_target(s, window, hint);
    if t < NUM_WORKSPACES && t != s.current {
        st_set_focus(st_go_to(s, t), window)
    } else {
        st_set_focus(s, window)
    }
}

pub open spec fn spec_focus_window_effects(s: StateModel, window: u32, hint: Option<usize>) -> Seq<
    Effect,
> {
    let t = spec_focus_target(s, window, hint);
    if t < NUM_WORKSPACES && t != s.current {
        spec_go_to_effects(s, t) + spec_set_focus_effects(st_go_to(s, t), window)
    } else {
        spec_set_focus_effects(s, window)
    }
}

impl State {
    /// Reducer for a click or activation: move the focus cursor onto
    /// `window` and recolor the borders, if it is on the current
    /// workspace.
    pub fn set_focus(&mut self, window: u32) -> (r: Effects)
        requires
            old(self).inv(),
        ensures
            final(self).inv(),
            state_wf(final(self)@),
            final(self)@ == st_set_focus(old(self)@, window),
            r@ == spec_set_focus_effects(old(self)@, window),
    {
        let ghost s = old(self)@;
        match self.window_workspace(window) {
            Some(k) => {
                proof {
                    assert(self@.workspaces[k as int] == self.workspaces@[k as int]@);
                    lemma_spec_find_workspace(s, window);
                }
                let prev = if k == self.current_workspace {
                    self.workspaces[k].get_focused_window()
                } else {
                    None
                };
                let i = match self.workspaces[k].index_of(window) {
                    Some(i) => i,
                    None => {
                        proof {
                            assert(false);
                        }
                        0
                    }
                };
                proof {
                    lemma_first_index_of(s.workspaces[k as int].windows, window);
                }
                let _ = self.workspaces[k].set_focus(i);
                proof {
                    assert(self@.workspaces =~= s.workspaces.update(
                        k as int,
                        self.workspaces@[k as int]@,
                    ));
                    assert(self@ =~= st_set_focus(s, window));
                }
                let mut out: Effects = Vec::new();
                if k == self.current_workspace {
                    out.push(Effect::Focus(window));
                    out.push(Effect::Raise(window));
                    out.push(
                        Effect::SetBorder {
                            window,
                            pixel: self.screen.focused_border_pixel,
                            width: self.border_width,
                        },
                    );
                    match prev {
                        Some(p) if p != window => {
                            out.push(
                                Effect::SetBorder {
                                    window: p,
                                    pixel: self.screen.normal_border_pixel,
                                    width: self.border_width,
                                },
                            );
                        }
                        _ => {}
                    }
                    proof {
                        assert(out@ =~= spec_set_focus_effects(s, window));
                    }
                } else {
                    proof {
                        assert(out@ =~= spec_set_focus_effects(s, window));
                    }
                }
                out
            }
            None => {
                proof {
                    assert(self@ =~= st_set_focus(s, window));
                    assert(Seq::<Effect>::empty() =~= spec_set_focus_effects(s, window));
                }
                Vec::new()
            }
        }
    }

    /// Reducer for a workspace switch: a no-op on the current or an
    /// out-of-range index.
    pub fn go_to_workspace(&mut self, target: usize) -> (r: Effects)
        requires
            old(self).inv(),
        ensures
            final(self).inv(),
            state_wf(final(self)@),
            final(self)@ == st_go_to(old(self)@, target as int),
            r@ == spec_go_to_effects(old(self)@, target as int),
    {
        let ghost s = old(self)@;
        if target >= NUM_WORKSPACES || target == self.current_workspace {
            proof {
                assert(self@ =~= st_go_to(s, target as int));
            }
            return Vec::new();
        }
        let ghost s2 = st_go_to(s, target as int);
        let mut out: Effects = Vec::new();
        let cur = self.current_workspace;
        let n = self.workspaces[cur].num_of_windows();
        let mut i: usize = 0;
        while i < n
            invariant
                0 <= i <= n,
                self.inv(),
                cur == s.current,
                cur < self.workspaces@.len(),
                n == s.workspaces[s.current].windows.len(),
                self@ == (StateModel {
                    pending_unmaps: s.pending_unmaps + s.workspaces[s.current].windows.take(
                        i as int,
                    ),
                    ..s
                }),
                out@ == s.workspaces[s.current].windows.take(i as int).map_values(
                    |w: u32| Effect::Unmap(w),
                ),
            decreases n - i,
        {
            proof {
                assert(self@.workspaces[cur as int] == self.workspaces@[cur as int]@);
            }
            let w = self.workspaces[cur].window_at(i);
            out.push(Effect::Unmap(w));
            self.pending_unmaps.push(w);
            proof {
                assert(self@ =~= StateModel {
                    pending_unmaps: s.pending_unmaps + s.workspaces[s.current].windows.take(
                        i as int + 1,
                    ),
                    ..s
                });
                assert(out@ =~= s.workspaces[s.current].windows.take(i as int + 1).map_values(
                    |w: u32| Effect::Unmap(w),
                ));
            }
            i = i + 1;
        }
        self.current_workspace = target;
        proof {
            assert(s.workspaces[s.current].windows.take(n as int) =~= s.workspaces[
                s.current].windows);
            assert(self@ =~= s2);
        }
        let ghost unmaps = s.workspaces[s.current].windows.map_values(
            |w: u32| Effect::Unmap(w),
        );
        let m = self.workspaces[target].num_of_windows();
        let mut j: usize = 0;
        while j < m
            invariant
                0 <= j <= m,
                self.inv(),
                self@ == s2,
                target == s2.current,
                target < self.workspaces@.len(),
                m == s2.workspaces[s2.current].windows.len(),
                s2.workspaces[s2.current] == s.workspaces[target as int],
                out@ == unmaps + s.workspaces[target as int].windows.take(j as int).map_values(
                    |w: u32| Effect::MapWindow(w),
                ),
            decreases m - j,
        {
            proof {
                assert(self@.workspaces[target as int] == self.workspaces@[target as int]@);
            }
            let w = self.workspaces[target].window_at(j);
            out.push(Effect::MapWindow(w));
            proof {
                assert(out@ =~= unmaps + s.workspaces[target as int].windows.take(
                    j as int + 1,
                ).map_values(|w: u32| Effect::MapWindow(w)));
            }
            j = j + 1;
        }
        proof {
            assert(s.workspaces[target as int].windows.take(m as int) =~= s.workspaces[
                target as int].windows);
        }
        self.push_window_configures(&mut out, false);
        match self.focused_window() {
            Some(f) => out.push(Effect::Focus(f)),
            None => {}
        }
        proof {
            assert(out@ =~= spec_go_to_effects(s, target as int));
        }
        out
    }

    /// Reducer for an activation client message: switch workspace if the
    /// hint or the lookup says the window lives elsewhere, then focus it.
    pub fn focus_window(&mut self, window: u32, desktop_hint: Option<usize>) -> (r: Effects)
        requires
            old(self).inv(),
        ensures
            final(self).inv(),
            state_wf(final(self)@),
            final(self)@ == st_focus_window(old(self)@, window, desktop_hint),
            r@ == spec_focus_window_effects(old(self)@, window, desktop_hint),
    {
        let ghost s = old(self)@;
        let target = match desktop_hint {
            Some(d) if d < NUM_WORKSPACES => Some(d),
            _ => self.window_workspace(window),
        };
        proof {
            lemma_spec_find_workspace(s, window);
        }
        match target {
            Some(t) if t != self.current_workspace => {
                let mut out = self.go_to_workspace(t);
                let mut rest = self.set_focus(window);
                out.append(&mut rest);
                proof {
                    assert(out@ =~= spec_focus_window_effects(s, window, desktop_hint));
                }
                out
            }
            _ => {
                let out = self.set_focus(window);
                proof {
                    assert(out@ =~= spec_focus_window_effects(s, window, desktop_hint));
                }
                out
            }
        }
    }
}

/// The focus index after one step forward, wrapping at the end.
pub open spec fn wrap_next(f: int, len: int) -> int {
    if f + 1 >= len {
        0
    } else {
        f + 1
    }
}

/// The focus index after one step back, wrapping at the start.
pub open spec fn wrap_prev(f: int, len: int) -> int {
    if f == 0 {
        len - 1
    } else {
        f - 1
    }
}

/// The focus rotated by one on the current workspace.
pub open spec fn st_shift_focus(s: StateModel, forward: bool) -> StateModel {
    let ws = s.workspaces[s.current];
    let len = ws.windows.len() as int;
    if len == 0 {
        s
    } else {
        let f = ws.focus.unwrap();
        let f2 = if forward {
            wrap_next(f, len)
        } else {
            wrap_prev(f, len)
        };
        StateModel {
            workspaces: s.workspaces.update(
                s.current,
                WorkspaceModel { focus: Some(f2), ..ws },
            ),
            ..s
        }
    }
}

pub open spec fn spec_shift_focus_effects(s: StateModel, forward: bool) -> Seq<Effect> {
    let ws = s.workspaces[s.current];
    let len = ws.windows.len() as int;
    if len == 0 {
        Seq::empty()
    } else {
        let f = ws.focus.unwrap();
        let f2 = if forward {
            wrap_next(f, len)
        } else {
            wrap_prev(f, len)
        };
        let w2 = ws.windows[f2];
        seq![
            Effect::Focus(w2),
            Effect::Raise(w2),
            Effect::SetBorder {
                window: w2,
                pixel: s.screen.focused_border_pixel,
                width: s.border_width,
            },
        ] + if f2 != f {
            seq![
                Effect::SetBorder {
                    window: ws.windows[f],
                    pixel: s.screen.normal_border_pixel,
                    width: s.border_width,
                },
            ]
        } else {
            Seq::empty()
        }
    }
}

/// The focused window exchanged with its neighbour; the focus follows
/// the window to its new place.
pub open spec fn st_swap(s: StateModel, right: bool) -> StateModel {
    let ws = s.workspaces[s.current];
    let len = ws.windows.len() as int;
    if len == 0 {
        s
    } else {
        let f = ws.focus.unwrap();
        let j = if right {
            wrap_next(f, len)
        } else {
            wrap_prev(f, len)
        };
        let ws2 = WorkspaceModel {
            windows: ws.windows.update(f, ws.windows[j]).update(j, ws.windows[f]),
            weights: ws.weights.update(f, ws.weights[j]).update(j, ws.weights[f]),
            focus: Some(j),
        };
        StateModel { workspaces: s.workspaces.update(s.current, ws2), ..s }
    }
}

pub open spec fn spec_swap_effects(s: StateModel, right: bool) -> Seq<Effect> {
    if s.workspaces[s.current].windows.len() == 0 {
        Seq::empty()
    } else {
        spec_layout_effects(st_swap(s, right))
    }
}

/// The focused window's weight adjusted by `n`, clamped to stay at
/// least 1 (and, upward, to fit its 32 bits).
pub open spec fn st_adjust_weight(s: StateModel, up: bool, n: u32) -> StateModel {
    let ws = s.workspaces[s.current];
    if ws.focus is None {
        s
    } else {
        let f = ws.focus.unwrap();
        let w0 = ws.weights[f] as int;
        let w2 = if up {
            if w0 + n <= u32::MAX {
                w0 + n
            } else {
                u32::MAX as int
            }
        } else {
            if w0 - n >= 1 {
                w0 - n
            } else {
                1
            }
        };
        StateModel {
            workspaces: s.workspaces.update(
                s.current,
                WorkspaceModel { weights: ws.weights.update(f, w2 as u32), ..ws },
            ),
            ..s
        }
    }
}

pub open spec fn spec_adjust_weight_effects(s: StateModel, up: bool, n: u32) -> Seq<Effect> {
    if s.workspaces[s.current].focus is None {
        Seq::empty()
    } else {
        spec_layout_effects(st_adjust_weight(s, up, n))
    }
}

/// The global window gap adjusted by `n`, clamped to `[0, MAX_WINDOW_GAP]`.
pub open spec fn st_adjust_gap(s: StateModel, up: bool, n: u32) -> StateModel {
    let g0 = s.window_gap as int;
    let g2 = if up {
        if g0 + n <= MAX_WINDOW_GAP {
            g0 + n
        } else {
            MAX_WINDOW_GAP as int
        }
    } else {
        if g0 - n >= 0 {
            g0 - n
        } else {
            0
        }
    };
    StateModel { window_gap: g2 as u32, ..s }
}

pub open spec fn spec_adjust_gap_effects(s: StateModel, up: bool, n: u32) -> Seq<Effect> {
    spec_layout_effects(st_adjust_gap(s, up, n))
}

/// The focused window moved from the current workspace to `target`,
/// keeping its weight; the focus on the current workspace falls to the
/// replacement window.
pub open spec fn st_send_to(s: StateModel, target: int) -> StateModel {
    let ws = s.workspaces[s.current];
    if target < 0 || target >= NUM_WORKSPACES || target == s.current || ws.focus is None {
        s
    } else {
        let f = ws.focus.unwrap();
        let w = ws.windows[f];
        if s.workspaces[target].windows.contains(w) {
            s
        } else {
            StateModel {
                workspaces: s.workspaces.update(s.current, ws_remove(ws, f)).update(
                    target,
                    ws_push_weighted(s.workspaces[target], w, ws.weights[f]),
                ),
                pending_unmaps: s.pending_unmaps.push(w),
                ..s
            }
        }
    }
}

pub open spec fn spec_send_to_effects(s: StateModel, target: int) -> Seq<Effect> {
    let ws = s.workspaces[s.current];
    if target < 0 || target >= NUM_WORKSPACES || target == s.current || ws.focus is None
        || s.workspaces[target].windows.contains(ws.windows[ws.focus.unwrap()]) {
        Seq::empty()
    } else {
        let s2 = st_send_to(s, target);
        seq![Effect::Unmap(ws.windows[ws.focus.unwrap()])] + spec_layout_effects(s2)
            + spec_focus_refresh(s2)
    }
}

/// The focused window's fullscreen membership flipped.
pub open spec fn st_toggle_fullscreen(s: StateModel) -> StateModel {
    match ws_focused_window(s.workspaces[s.current]) {
        None => s,
        Some(w) => {
            if s.fullscreen.contains(w) {
                StateModel { fullscreen: remove_first(s.fullscreen, w), ..s }
            } else {
                StateModel { fullscreen: s.fullscreen.push(w), ..s }
            }
        }
    }
}

/// Entering fullscreen covers the whole screen (over the dock) and
/// raises the window; leaving re-lays the workspace.
pub open spec fn spec_toggle_fullscreen_effects(s: StateModel) -> Seq<Effect> {
    match ws_focused_window(s.workspaces[s.current]) {
        None => Seq::empty(),
        Some(w) => {
            if s.fullscreen.contains(w) {
                spec_layout_effects(st_toggle_fullscreen(s))
            } else {
                seq![
                    Effect::ConfigurePositionSize {
                        window: w,
                        x: 0,
                        y: 0,
                        w: s.screen.width,
                        h: s.screen.height,
                    },
                    Effect::Raise(w),
                ]
            }
        }
    }
}

/// The next registered layout takes effect.
pub open spec fn st_cycle_layout(s: StateModel) -> StateModel {
    StateModel {
        layout_index: (s.layout_index + 1) % (spec_layout_order().len() as int),
        ..s
    }
}

pub open spec fn spec_cycle_layout_effects(s: StateModel) -> Seq<Effect> {
    spec_layout_effects(st_cycle_layout(s))
}

/// The state transition of one user action. `Spawn` and `Kill` are
/// handled outside the reducer and leave the state unchanged.
pub open spec fn st_apply_action(s: StateModel, action: ActionEvent) -> StateModel {
    match action {
        ActionEvent::Spawn(_) => s,
        ActionEvent::Kill => s,
        ActionEvent::NextWindow => st_shift_focus(s, true),
        ActionEvent::PrevWindow => st_shift_focus(s, false),
        ActionEvent::SwapLeft => st_swap(s, false),
        ActionEvent::SwapRight => st_swap(s, true),
        ActionEvent::IncreaseWindowWeight(n) => st_adjust_weight(s, true, n),
        ActionEvent::DecreaseWindowWeight(n) => st_adjust_weight(s, false, n),
        ActionEvent::IncreaseWindowGap(n) => st_adjust_gap(s, true, n),
        ActionEvent::DecreaseWindowGap(n) => st_adjust_gap(s, false, n),
        ActionEvent::GoToWorkspace(i) => st_go_to(s, i as int),
        ActionEvent::SendToWorkspace(i) => st_send_to(s, i as int),
        ActionEvent::ToggleFullscreen => st_toggle_fullscreen(s),
        ActionEvent::CycleLayout => st_cycle_layout(s),
    }
}

pub open spec fn spec_action_effects(s: StateModel, action: ActionEvent) -> Seq<Effect> {
    match action {
        ActionEvent::Spawn(_) => Seq::empty(),
        ActionEvent::Kill => Seq::empty(),
        ActionEvent::NextWindow => spec_shift_focus_effects(s, true),
        ActionEvent::PrevWindow => spec_shift_focus_effects(s, false),
        ActionEvent::SwapLeft => spec_swap_effects(s, false),
        ActionEvent::SwapRight => spec_swap_effects(s, true),
        ActionEvent::IncreaseWindowWeight(n) => spec_adjust_weight_effects(s, true, n),
        ActionEvent::DecreaseWindowWeight(n) => spec_adjust_weight_effects(s, false, n),
        ActionEvent::IncreaseWindowGap(n) => spec_adjust_gap_effects(s, true, n),
        ActionEvent::DecreaseWindowGap(n) => spec_adjust_gap_effects(s, false, n),
        ActionEvent::GoToWorkspace(i) => spec_go_to_effects(s, i as int),
        ActionEvent::SendToWorkspace(i) => spec_send_to_effects(s, i as int),
        ActionEvent::ToggleFullscreen => spec_toggle_fullscreen_effects(s),
        ActionEvent::CycleLayout => spec_cycle_layout_effects(s),
    }
}

impl State {
    /// Rotates the focus by one on the current workspace.
    fn shift_focus(&mut self, forward: bool) -> (r: Effects)
        requires
            old(self).inv(),
        ensures
            final(self).inv(),
            state_wf(final(self)@),
            final(self)@ == st_shift_focus(old(self)@, forward),
            r@ == spec_shift_focus_effects(old(self)@, forward),
    {
        let ghost s = old(self)@;
        let k = self.current_workspace;
        proof {
            assert(self@.workspaces[k as int] == self.workspaces@[k as int]@);
        }
        let len = self.workspaces[k].num_of_windows();
        if len == 0 {
            proof {
                assert(self@ =~= st_shift_focus(s, forward));
            }
            return Vec::new();
        }
        let f = match self.workspaces[k].get_focus() {
            Some(f) => f,
            None => {
                proof {
                    assert(false);
                }
                0
            }
        };
        let f2 = if forward {
            if f + 1 >= len {
                0
            } else {
                f + 1
            }
        } else {
            if f == 0 {
                len - 1
            } else {
                f - 1
            }
        };
        let w_old = self.workspaces[k].window_at(f);
        let w_new = self.workspaces[k].window_at(f2);
        let _ = self.workspaces[k].set_focus(f2);
        proof {
            assert(self@.workspaces =~= s.workspaces.update(
                s.current,
                self.workspaces@[k as int]@,
            ));
            assert(self@ =~= st_shift_focus(s, forward));
        }
        let mut out: Effects = Vec::new();
        out.push(Effect::Focus(w_new));
        out.push(Effect::Raise(w_new));
        out.push(
            Effect::SetBorder {
                window: w_new,
                pixel: self.screen.focused_border_pixel,
                width: self.border_width,
            },
        );
        if f2 != f {
            out.push(
                Effect::SetBorder {
                    window: w_old,
                    pixel: self.screen.normal_border_pixel,
                    width: self.border_width,
                },
            );
        }
        proof {
            assert(out@ =~= spec_shift_focus_effects(s, forward));
        }
        out
    }

    /// Exchanges the focused window with its neighbour and re-lays the
    /// workspace.
    fn swap_focused(&mut self, right: bool) -> (r: Effects)
        requires
            old(self).inv(),
        ensures
            final(self).inv(),
            state_wf(final(self)@),
            final(self)@ == st_swap(old(self)@, right),
            r@ == spec_swap_effects(old(self)@, right),
    {
        let ghost s = old(self)@;
        let k = self.current_workspace;
        proof {
            assert(self@.workspaces[k as int] == self.workspaces@[k as int]@);
        }
        let len = self.workspaces[k].num_of_windows();
        if len == 0 {
            proof {
                assert(self@ =~= st_swap(s, right));
            }
            return Vec::new();
        }
        let f = match self.workspaces[k].get_focus() {
            Some(f) => f,
            None => {
                proof {
                    assert(false);
                }
                0
            }
        };
        let j = if right {
            if f + 1 >= len {
                0
            } else {
                f + 1
            }
        } else {
            if f == 0 {
                len - 1
            } else {
                f - 1
            }
        };
        self.workspaces[k].swap_windows(f, j);
        let _ = self.workspaces[k].set_focus(j);
        proof {
            assert(self@.workspaces =~= s.workspaces.update(
                s.current,
                self.workspaces@[k as int]@,
            ));
            assert(self@ =~= st_swap(s, right));
        }
        let mut out: Effects = Vec::new();
        self.push_window_configures(&mut out, true);
        proof {
            assert(out@ =~= spec_swap_effects(s, right));
        }
        out
    }

    /// Adjusts the focused window's weight and re-lays the workspace.
    fn adjust_weight(&mut self, up: bool, n: u32) -> (r: Effects)
        requires
            old(self).inv(),
        ensures
            final(self).inv(),
            state_wf(final(self)@),
            final(self)@ == st_adjust_weight(old(self)@, up, n),
            r@ == spec_adjust_weight_effects(old(self)@, up, n),
    {
        let ghost s = old(self)@;
        let k = self.current_workspace;
        proof {
            assert(self@.workspaces[k as int] == self.workspaces@[k as int]@);
        }
        let f = match self.workspaces[k].get_focus() {
            Some(f) => f,
            None => {
                proof {
                    assert(self@ =~= st_adjust_weight(s, up, n));
                }
                return Vec::new();
            }
        };
        let w0 = self.workspaces[k].weight_at(f);
        let w2 = if up {
            if w0 <= u32::MAX - n {
                w0 + n
            } else {
                u32::MAX
            }
        } else {
            if w0 > n {
                w0 - n
            } else {
                1
            }
        };
        self.workspaces[k].set_weight(f, w2);
        proof {
            assert(self@.workspaces =~= s.workspaces.update(
                s.current,
                self.workspaces@[k as int]@,
            ));
            assert(self@ =~= st_adjust_weight(s, up, n));
        }
        let mut out: Effects = Vec::new();
        self.push_window_configures(&mut out, true);
        proof {
            assert(out@ =~= spec_adjust_weight_effects(s, up, n));
        }
        out
    }

    /// Adjusts the global window gap and re-lays the workspace.
    fn adjust_gap(&mut self, up: bool, n: u32) -> (r: Effects)
        requires
            old(self).inv(),
        ensures
            final(self).inv(),
            state_wf(final(self)@),
            final(self)@ == st_adjust_gap(old(self)@, up, n),
            r@ == spec_adjust_gap_effects(old(self)@, up, n),
    {
        let ghost s = old(self)@;
        let g0 = self.window_gap;
        self.window_gap = if up {
            if n <= MAX_WINDOW_GAP && g0 <= MAX_WINDOW_GAP - n {
                g0 + n
            } else {
                MAX_WINDOW_GAP
            }
        } else {
            if g0 >= n {
                g0 - n
            } else {
                0
            }
        };
        proof {
            assert(self@ =~= st_adjust_gap(s, up, n));
        }
        let mut out: Effects = Vec::new();
        self.push_window_configures(&mut out, true);
        proof {
            assert(out@ =~= spec_adjust_gap_effects(s, up, n));
        }
        out
    }

    /// Moves the focused window to another workspace; the focus falls to
    /// the replacement window on the current one.
    fn send_to_workspace(&mut self, target: usize) -> (r: Effects)
        requires
            old(self).inv(),
        ensures
            final(self).inv(),
            state_wf(final(self)@),
            final(self)@ == st_send_to(old(self)@, target as int),
            r@ == spec_send_to_effects(old(self)@, target as int),
    {
        let ghost s = old(self)@;
        let k = self.current_workspace;
        proof {
            assert(self@.workspaces[k as int] == self.workspaces@[k as int]@);
        }
        if target >= NUM_WORKSPACES || target == k {
            proof {
                assert(self@ =~= st_send_to(s, target as int));
            }
            return Vec::new();
        }
        proof {
            assert(self@.workspaces[target as int] == self.workspaces@[target as int]@);
        }
        let f = match self.workspaces[k].get_focus() {
            Some(f) => f,
            None => {
                proof {
                    assert(self@ =~= st_send_to(s, target as int));
                }
                return Vec::new();
            }
        };
        let window = self.workspaces[k].window_at(f);
        let weight = self.workspaces[k].weight_at(f);
        if self.workspaces[target].contains(window) {
            proof {
                assert(self@ =~= st_send_to(s, target as int));
            }
            return Vec::new();
        }
        let _ = self.workspaces[k].remove_window(f);
        self.workspaces[target].push_window_weighted(window, weight);
        self.pending_unmaps.push(window);
        proof {
            assert(self@.workspaces =~= s.workspaces.update(
                k as int,
                ws_remove(s.workspaces[k as int], f as int),
            ).update(
                target as int,
                ws_push_weighted(
                    s.workspaces[target as int],
                    window,
                    s.workspaces[k as int].weights[f as int],
                ),
            ));
            assert(self@ =~= st_send_to(s, target as int));
        }
        let mut out: Effects = Vec::new();
        out.push(Effect::Unmap(window));
        self.push_window_configures(&mut out, true);
        self.push_focus_refresh(&mut out);
        proof {
            assert(out@ =~= spec_send_to_effects(s, target as int));
        }
        out
    }

    /// Flips the focused window's fullscreen state: covering the whole
    /// screen on entry, back to its layout rectangle on exit.
    pub fn toggle_fullscreen(&mut self) -> (r: Effects)
        requires
            old(self).inv(),
        ensures
            final(self).inv(),
            state_wf(final(self)@),
            final(self)@ == st_toggle_fullscreen(old(self)@),
            r@ == spec_toggle_fullscreen_effects(old(self)@),
    {
        let ghost s = old(self)@;
        let window = match self.focused_window() {
            Some(w) => w,
            None => {
                proof {
                    assert(self@ =~= st_toggle_fullscreen(s));
                }
                return Vec::new();
            }
        };
        if list_contains(&self.fullscreen, window) {
            list_remove_first(&mut self.fullscreen, window);
            proof {
                lemma_remove_first_wf(s.fullscreen, window);
                assert(self@ =~= st_toggle_fullscreen(s));
            }
            let mut out: Effects = Vec::new();
            self.push_window_configures(&mut out, true);
            proof {
                assert(out@ =~= spec_toggle_fullscreen_effects(s));
            }
            out
        } else {
            self.fullscreen.push(window);
            proof {
                assert(self@ =~= st_toggle_fullscreen(s));
            }
            let mut out: Effects = Vec::new();
            out.push(
                Effect::ConfigurePositionSize {
                    window,
                    x: 0,
                    y: 0,
                    w: self.screen.width,
                    h: self.screen.height,
                },
            );
            out.push(Effect::Raise(window));
            proof {
                assert(out@ =~= spec_toggle_fullscreen_effects(s));
            }
            out
        }
    }

    /// Advances to the next layout algorithm and re-lays the workspace.
    fn cycle_layout(&mut self) -> (r: Effects)
        requires
            old(self).inv(),
        ensures
            final(self).inv(),
            state_wf(final(self)@),
            final(self)@ == st_cycle_layout(old(self)@),
            r@ == spec_cycle_layout_effects(old(self)@),
    {
        let ghost s = old(self)@;
        proof {
            self.layout_manager.lemma_wf();
        }
        self.layout_manager.cycle_layout();
        proof {
            self.layout_manager.lemma_wf();
            assert(self@ =~= st_cycle_layout(s));
        }
        let mut out: Effects = Vec::new();
        self.push_window_configures(&mut out, true);
        proof {
            assert(out@ =~= spec_cycle_layout_effects(s));
        }
        out
    }

    /// Reducer for one user action. `Spawn` and `Kill` are handled by
    /// the caller (they need a process or an X query) and change nothing
    /// here.
    pub fn apply_action(&mut self, action: ActionEvent) -> (r: Effects)
        requires
            old(self).inv(),
        ensures
            final(self).inv(),
            state_wf(final(self)@),
            final(self)@ == st_apply_action(old(self)@, action),
            r@ == spec_action_effects(old(self)@, action),
    {
        match action {
            ActionEvent::Spawn(_) => Vec::new(),
            ActionEvent::Kill => Vec::new(),
            ActionEvent::NextWindow => self.shift_focus(true),
            ActionEvent::PrevWindow => self.shift_focus(false),
            ActionEvent::SwapLeft => self.swap_focused(false),
            ActionEvent::SwapRight => self.swap_focused(true),
            ActionEvent::IncreaseWindowWeight(n) => self.adjust_weight(true, n),
            ActionEvent::DecreaseWindowWeight(n) => self.adjust_weight(false, n),
            ActionEvent::IncreaseWindowGap(n) => self.adjust_gap(true, n),
            ActionEvent::DecreaseWindowGap(n) => self.adjust_gap(false, n),
            ActionEvent::GoToWorkspace(i) => self.go_to_workspace(i),
            ActionEvent::SendToWorkspace(i) => self.send_to_workspace(i),
            ActionEvent::ToggleFullscreen => self.toggle_fullscreen(),
            ActionEvent::CycleLayout => self.cycle_layout(),
        }
    }
}

/// A dock found at startup: tracked without effects.
pub open spec fn st_track_dock(s: StateModel, window: u32) -> StateModel {
    if spec_window_known(s, window) {
        s
    } else {
        st_map_dock(s, window)
    }
}

/// A managed window found at startup: appended to the workspace its
/// desktop property names, without effects and without stealing focus.
pub open spec fn st_track_managed(s: StateModel, window: u32, desktop: int) -> StateModel {
    if desktop < 0 || desktop >= NUM_WORKSPACES || spec_window_known(s, window) {
        s
    } else {
        StateModel {
            workspaces: s.workspaces.update(desktop, ws_push(s.workspaces[desktop], window)),
            order: s.order.push(window),
            ..s
        }
    }
}

/// The windows of all workspaces before `k`, skipping the current one.
pub open spec fn spec_rest_windows(s: StateModel, k: int) -> Seq<u32>
    decreases k,
{
    if k <= 0 {
        Seq::empty()
    } else if k - 1 == s.current {
        spec_rest_windows(s, k - 1)
    } else {
        spec_rest_windows(s, k - 1) + s.workspaces[k - 1].windows
    }
}

/// `spec_rest_windows` reads only the workspaces and the current index.
proof fn lemma_rest_windows_same(a: StateModel, b: StateModel, k: int)
    requires
        a.workspaces == b.workspaces,
        a.current == b.current,
    ensures
        spec_rest_windows(a, k) == spec_rest_windows(b, k),
    decreases k,
{
    if k > 0 {
        lemma_rest_windows_same(a, b, k - 1);
    }
}

/// The desktop the startup hint selects: the hinted one, clamped into
/// range; without a hint the current one stays.
pub open spec fn spec_startup_desktop(s: StateModel, hint: Option<usize>) -> int {
    match hint {
        Some(d) => if (d as int) < NUM_WORKSPACES {
            d as int
        } else {
            NUM_WORKSPACES - 1
        },
        None => s.current,
    }
}

/// The startup pass: the hinted workspace becomes current, its windows
/// are mapped and laid out, every other workspace's windows are
/// unmapped (and those unmaps recorded as self-inflicted).
pub open spec fn st_startup_finalize(s: StateModel, hint: Option<usize>) -> StateModel {
    let s1 = StateModel { current: spec_startup_desktop(s, hint), ..s };
    StateModel {
        pending_unmaps: s1.pending_unmaps + spec_rest_windows(s1, NUM_WORKSPACES as int),
        ..s1
    }
}

pub open spec fn spec_startup_finalize_effects(s: StateModel, hint: Option<usize>) -> Seq<Effect> {
    let s2 = st_startup_finalize(s, hint);
    s2.workspaces[s2.current].windows.map_values(|w: u32| Effect::MapWindow(w))
        + spec_layout_effects(s2) + spec_rest_windows(s2, NUM_WORKSPACES as int).map_values(
        |w: u32| Effect::Unmap(w),
    ) + spec_focus_refresh(s2)
}

impl State {
    /// Records a dock discovered during the startup scan. No effects.
    pub fn track_startup_dock(&mut self, window: u32)
        requires
            old(self).inv(),
        ensures
            final(self).inv(),
            state_wf(final(self)@),
            final(self)@ == st_track_dock(old(self)@, window),
    {
        let ghost s = old(self)@;
        if self.window_known(window) {
            return ;
        }
        self.docks.push(window);
        proof {
            assert(self@ =~= st_track_dock(s, window));
        }
    }

    /// Records a managed window discovered during the startup scan,
    /// on the desktop its hint names. No effects.
    pub fn track_startup_managed(&mut self, window: u32, desktop: usize)
        requires
            old(self).inv(),
        ensures
            final(self).inv(),
            state_wf(final(self)@),
            final(self)@ == st_track_managed(old(self)@, window, desktop as int),
    {
        let ghost s = old(self)@;
        if desktop >= NUM_WORKSPACES {
            return ;
        }
        if self.window_known(window) {
            return ;
        }
        proof {
            lemma_spec_find_workspace(s, window);
            assert(self@.workspaces[desktop as int] == self.workspaces@[desktop as int]@);
        }
        self.workspaces[desktop].push_window(window);
        self.client_order.push(window);
        proof {
            assert(self@.workspaces =~= s.workspaces.update(
                desktop as int,
                self.workspaces@[desktop as int]@,
            ));
            assert(self@ =~= st_track_managed(s, window, desktop as int));
        }
    }

    /// Ends the startup scan: switches to the hinted desktop, maps and
    /// lays out its windows, unmaps everything else.
    pub fn startup_finalize(&mut self, current_desktop_hint: Option<usize>) -> (r: Effects)
        requires
            old(self).inv(),
        ensures
            final(self).inv(),
            state_wf(final(self)@),
            final(self)@ == st_startup_finalize(old(self)@, current_desktop_hint),
            r@ == spec_startup_finalize_effects(old(self)@, current_desktop_hint),
    {
        let ghost s = old(self)@;
        self.current_workspace = match current_desktop_hint {
            Some(d) => if d < NUM_WORKSPACES {
                d
            } else {
                NUM_WORKSPACES - 1
            },
            None => self.current_workspace,
        };
        let ghost s1 = StateModel { current: spec_startup_desktop(s, current_desktop_hint), ..s };
        proof {
            assert(self@ =~= s1);
        }
        let cur = self.current_workspace;
        let mut out: Effects = Vec::new();

        // Map the current workspace's windows.
        let n = self.workspaces[cur].num_of_windows();
        let mut i: usize = 0;
        while i < n
            invariant
                0 <= i <= n,
                self.inv(),
                self@ == s1,
                cur == s1.current,
                cur < self.workspaces@.len(),
                n == s1.workspaces[s1.current].windows.len(),
                out@ == s1.workspaces[s1.current].windows.take(i as int).map_values(
                    |w: u32| Effect::MapWindow(w),
                ),
            decreases n - i,
        {
            proof {
                assert(self@.workspaces[cur as int] == self.workspaces@[cur as int]@);
            }
            let w = self.workspaces[cur].window_at(i);
            out.push(Effect::MapWindow(w));
            proof {
                assert(out@ =~= s1.workspaces[s1.current].windows.take(i as int + 1).map_values(
                    |w: u32| Effect::MapWindow(w),
                ));
            }
            i = i + 1;
        }
        proof {
            assert(s1.workspaces[s1.current].windows.take(n as int) =~= s1.workspaces[
                s1.current].windows);
        }

        // Lay it out.
        self.push_window_configures(&mut out, true);
        let ghost maps_and_layout = s1.workspaces[s1.current].windows.map_values(
            |w: u32| Effect::MapWindow(w),
        ) + spec_layout_effects(s1);

        // Unmap every other workspace's windows.
        let mut k: usize = 0;
        while k < NUM_WORKSPACES
            invariant
                0 <= k <= NUM_WORKSPACES,
                self.inv(),
                cur == s1.current,
                self@ == (StateModel {
                    pending_unmaps: s1.pending_unmaps + spec_rest_windows(s1, k as int),
                    ..s1
                }),
                out@ == maps_and_layout + spec_rest_windows(s1, k as int).map_values(
                    |w: u32| Effect::Unmap(w),
                ),
            decreases NUM_WORKSPACES - k,
        {
            let ghost pend0 = self@.pending_unmaps;
            let ghost out0 = out@;
            if k != cur {
                let m = self.workspaces[k].num_of_windows();
                let mut j: usize = 0;
                while j < m
                    invariant
                        0 <= j <= m,
                        self.inv(),
                        k != cur,
                        k < NUM_WORKSPACES,
                        cur == s1.current,
                        k < self.workspaces@.len(),
                        m == s1.workspaces[k as int].windows.len(),
                        self@ == (StateModel {
                            pending_unmaps: pend0 + s1.workspaces[k as int].windows.take(j as int),
                            ..s1
                        }),
                        pend0 == s1.pending_unmaps + spec_rest_windows(s1, k as int),
                        out@ == out0 + s1.workspaces[k as int].windows.take(j as int).map_values(
                            |w: u32| Effect::Unmap(w),
                        ),
                    decreases m - j,
                {
                    proof {
                        assert(self@.workspaces[k as int] == self.workspaces@[k as int]@);
                    }
                    let w = self.workspaces[k].window_at(j);
                    out.push(Effect::Unmap(w));
                    self.pending_unmaps.push(w);
                    proof {
                        assert(self@ =~= StateModel {
                            pending_unmaps: pend0 + s1.workspaces[k as int].windows.take(
                                j as int + 1,
                            ),
                            ..s1
                        });
                        assert(out@ =~= out0 + s1.workspaces[k as int].windows.take(
                            j as int + 1,
                        ).map_values(|w: u32| Effect::Unmap(w)));
                    }
                    j = j + 1;
                }
                proof {
                    assert(s1.workspaces[k as int].windows.take(m as int) =~= s1.workspaces[
                        k as int].windows);
                    assert(spec_rest_windows(s1, k as int + 1) =~= spec_rest_windows(s1, k as int)
                        + s1.workspaces[k as int].windows);
                    assert(self@.pending_unmaps =~= s1.pending_unmaps + spec_rest_windows(
                        s1,
                        k as int + 1,
                    ));
                    assert(self@ =~= StateModel {
                        pending_unmaps: s1.pending_unmaps + spec_rest_windows(s1, k as int + 1),
                        ..s1
                    });
                    assert(out@ =~= maps_and_layout + spec_rest_windows(s1, k as int + 1).map_values(
                        |w: u32| Effect::Unmap(w),
                    ));
                }
            } else {
                proof {
                    assert(spec_rest_windows(s1, k as int + 1) =~= spec_rest_windows(s1, k as int));
                }
            }
            k = k + 1;
        }

        // Focus the current workspace's focused window.
        self.push_focus_refresh(&mut out);
        proof {
            let s2 = st_startup_finalize(s, current_desktop_hint);
            lemma_rest_windows_same(s1, s2, NUM_WORKSPACES as int);
            assert(self@ =~= s2);
            assert(spec_layout_effects(s1) =~= spec_layout_effects(s2));
            assert(out@ =~= spec_startup_finalize_effects(s, current_desktop_hint));
        }
        out
    }
}

/// Removing an element keeps a duplicate-free list duplicate-free.
pub proof fn lemma_remove_first_wf(s: Seq<u32>, w: u32)
    requires
        no_dups(s),
    ensures
        no_dups(remove_first(s, w)),
{
    if s.contains(w) {
        lemma_first_index_of(s, w);
        let i = first_index_of(s, w);
        let s2 = s.remove(i);
        assert forall|a: int, b: int| 0 <= a < b < s2.len() implies s2[a] != s2[b] by {
            let a0 = if a < i {
                a
            } else {
                a + 1
            };
            let b0 = if b < i {
                b
            } else {
                b + 1
            };
            assert(s2[a] == s[a0] && s2[b] == s[b0]);
        }
    }
}

} // verus!
