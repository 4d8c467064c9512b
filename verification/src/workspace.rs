//! One virtual desktop: an ordered list of windows with a focus cursor
//! and a per-window layout weight.

use vstd::prelude::*;

verus! {

/// The mathematical content of a workspace.
#[verifier::ext_equal]
pub ghost struct WorkspaceModel {
    pub windows: Seq<u32>,
    pub weights: Seq<u32>,
    pub focus: Option<int>,
}

/// Workspace invariants: one weight per window, every weight at least 1,
/// no window listed twice, and a focus cursor that is `Some` exactly on
/// a non-empty workspace and always in range.
pub open spec fn ws_wf(m: WorkspaceModel) -> bool {
    &&& m.weights.len() == m.windows.len()
    &&& (m.windows.len() == 0 <==> m.focus is None)
    &&& (m.focus is Some ==> 0 <= m.focus.unwrap() < m.windows.len())
    &&& (forall|i: int, j: int|
        0 <= i < j < m.windows.len() ==> m.windows[i] != m.windows[j])
    &&& (forall|i: int| 0 <= i < m.weights.len() ==> m.weights[i] >= 1)
}

/// Where the focus lands after the window count changes: kept if still
/// in range, clamped to the new last window, `None` on empty.
pub open spec fn ws_focus_after_removal(focus: Option<int>, new_len: int) -> Option<int> {
    if new_len == 0 {
        None
    } else if focus is Some && focus.unwrap() < new_len {
        focus
    } else {
        Some(new_len - 1)
    }
}

/// A window appended at the end with the given weight; an empty focus
/// moves onto it.
pub open spec fn ws_push_weighted(m: WorkspaceModel, window: u32, weight: u32) -> WorkspaceModel {
    WorkspaceModel {
        windows: m.windows.push(window),
        weights: m.weights.push(weight),
        focus: if m.focus is None {
            Some(m.windows.len() as int)
        } else {
            m.focus
        },
    }
}

/// A window appended at the end, with the default weight 1; an empty
/// focus moves onto it.
pub open spec fn ws_push(m: WorkspaceModel, window: u32) -> WorkspaceModel {
    ws_push_weighted(m, window, 1)
}

/// The window at index `i` removed; the tail shifts and the focus is
/// re-clamped.
pub open spec fn ws_remove(m: WorkspaceModel, i: int) -> WorkspaceModel {
    WorkspaceModel {
        windows: m.windows.remove(i),
        weights: m.weights.remove(i),
        focus: ws_focus_after_removal(m.focus, m.windows.len() - 1),
    }
}

/// The subsequence of `s` at the positions `keep` marks.
pub open spec fn filter_mask(s: Seq<u32>, keep: Seq<bool>) -> Seq<u32>
    recommends
        s.len() == keep.len(),
    decreases s.len(),
{
    if s.len() == 0 || keep.len() == 0 {
        Seq::empty()
    } else if keep.last() {
        filter_mask(s.drop_last(), keep.drop_last()).push(s.last())
    } else {
        filter_mask(s.drop_last(), keep.drop_last())
    }
}

/// Everything the mask keeps comes from the source sequence.
pub proof fn lemma_filter_mask_subset(s: Seq<u32>, keep: Seq<bool>, x: u32)
    requires
        s.len() == keep.len(),
        filter_mask(s, keep).contains(x),
    ensures
        s.contains(x),
    decreases s.len(),
{
    if s.len() > 0 {
        let f = filter_mask(s, keep);
        if keep.last() && f.last() == x {
            assert(s[s.len() - 1] == x);
        } else {
            let prev = filter_mask(s.drop_last(), keep.drop_last());
            assert(prev.contains(x)) by {
                let i = choose|i: int| 0 <= i < f.len() && f[i] == x;
                assert(prev[i] == x);
            }
            lemma_filter_mask_subset(s.drop_last(), keep.drop_last(), x);
            let j = choose|j: int| 0 <= j < s.len() - 1 && s.drop_last()[j] == x;
            assert(s[j] == x);
        }
    }
}

/// Filtering a duplicate-free sequence leaves it duplicate-free, and its
/// length never grows.
pub proof fn lemma_filter_mask_no_dups(s: Seq<u32>, keep: Seq<bool>)
    requires
        s.len() == keep.len(),
        forall|i: int, j: int| 0 <= i < j < s.len() ==> s[i] != s[j],
    ensures
        filter_mask(s, keep).len() <= s.len(),
        forall|i: int, j: int|
            0 <= i < j < filter_mask(s, keep).len() ==> filter_mask(s, keep)[i] != filter_mask(
                s,
                keep,
            )[j],
        forall|x: u32| filter_mask(s, keep).contains(x) ==> s.contains(x),
    decreases s.len(),
{
    assert forall|x: u32| filter_mask(s, keep).contains(x) implies s.contains(x) by {
        lemma_filter_mask_subset(s, keep, x);
    }
    if s.len() > 0 {
        lemma_filter_mask_no_dups(s.drop_last(), keep.drop_last());
        let prev = filter_mask(s.drop_last(), keep.drop_last());
        if keep.last() {
            assert forall|i: int, j: int|
                0 <= i < j < filter_mask(s, keep).len() implies filter_mask(s, keep)[i]
                != filter_mask(s, keep)[j] by {
                if j == filter_mask(s, keep).len() - 1 {
                    if prev.contains(s.last()) {
                        lemma_filter_mask_subset(s.drop_last(), keep.drop_last(), s.last());
                        let m = choose|m: int| 0 <= m < s.len() - 1 && s.drop_last()[m] == s.last();
                        assert(s[m] == s[s.len() - 1]);
                    }
                    assert(prev.contains(prev[i])) by {
                        assert(prev[i] == prev[i]);
                    }
                }
            }
        }
    }
}

/// The focused window, if any.
pub open spec fn ws_focused_window(m: WorkspaceModel) -> Option<u32> {
    match m.focus {
        Some(f) => Some(m.windows[f]),
        None => None,
    }
}

/// An ordered list of windows with a focus cursor.
pub struct Workspace {
    windows: Vec<u32>,
    weights: Vec<u32>,
    focus: Option<usize>,
}

impl View for Workspace {
    type V = WorkspaceModel;

    closed spec fn view(&self) -> WorkspaceModel {
        WorkspaceModel {
            windows: self.windows@,
            weights: self.weights@,
            focus: match self.focus {
                Some(f) => Some(f as int),
                None => None,
            },
        }
    }
}

impl Workspace {
    /// An empty workspace with no focus.
    pub fn new() -> (r: Workspace)
        ensures
            r@ == (WorkspaceModel { windows: Seq::empty(), weights: Seq::empty(), focus: None::<int> }),
            ws_wf(r@),
    {
        let r = Workspace { windows: Vec::new(), weights: Vec::new(), focus: None };
        proof {
            assert(r@ =~= WorkspaceModel {
                windows: Seq::empty(),
                weights: Seq::empty(),
                focus: None::<int>,
            });
        }
        r
    }

    /// The focused window, if any.
    pub fn get_focused_window(&self) -> (r: Option<u32>)
        requires
            ws_wf(self@),
        ensures
            r == ws_focused_window(self@),
    {
        match self.focus {
            Some(f) => Some(self.windows[f]),
            None => None,
        }
    }

    pub fn num_of_windows(&self) -> (r: usize)
        ensures
            r == self@.windows.len(),
    {
        self.windows.len()
    }

    /// Moves the focus cursor; rejects an out-of-range index.
    pub fn set_focus(&mut self, idx: usize) -> (r: bool)
        ensures
            r == (idx < old(self)@.windows.len()),
            r ==> final(self)@ == (WorkspaceModel { focus: Some(idx as int), ..old(self)@ }),
            !r ==> final(self)@ == old(self)@,
            ws_wf(old(self)@) ==> ws_wf(final(self)@),
    {
        if idx >= self.windows.len() {
            return false;
        }
        self.focus = Some(idx);
        true
    }

    pub fn get_focus(&self) -> (r: Option<usize>)
        ensures
            r is Some <==> self@.focus is Some,
            r is Some ==> r.unwrap() as int == self@.focus.unwrap(),
    {
        self.focus
    }

    /// Appends a window (not yet present) with the given weight.
    pub fn push_window_weighted(&mut self, window: u32, weight: u32)
        requires
            ws_wf(old(self)@),
            !old(self)@.windows.contains(window),
            weight >= 1,
        ensures
            final(self)@ == ws_push_weighted(old(self)@, window, weight),
            ws_wf(final(self)@),
    {
        self.windows.push(window);
        self.weights.push(weight);
        if self.focus.is_none() {
            self.focus = Some(self.windows.len() - 1);
        }
        proof {
            assert(final(self)@ =~= ws_push_weighted(old(self)@, window, weight));
            assert forall|i: int, j: int|
                0 <= i < j < final(self)@.windows.len() implies final(self)@.windows[i]
                != final(self)@.windows[j] by {
                if j == final(self)@.windows.len() - 1 {
                    assert(old(self)@.windows.contains(old(self)@.windows[i]));
                }
            }
        }
    }

    /// Appends a window (not yet present) with the default weight.
    pub fn push_window(&mut self, window: u32)
        requires
            ws_wf(old(self)@),
            !old(self)@.windows.contains(window),
        ensures
            final(self)@ == ws_push(old(self)@, window),
            ws_wf(final(self)@),
    {
        self.push_window_weighted(window, 1);
    }

    /// Removes the window at `idx`, re-clamping the focus.
    pub fn remove_window(&mut self, idx: usize) -> (r: Option<u32>)
        requires
            ws_wf(old(self)@),
        ensures
            r is Some <==> idx < old(self)@.windows.len(),
            idx < old(self)@.windows.len() ==> {
                &&& r == Some(old(self)@.windows[idx as int])
                &&& final(self)@ == ws_remove(old(self)@, idx as int)
            },
            idx >= old(self)@.windows.len() ==> final(self)@ == old(self)@,
            ws_wf(final(self)@),
    {
        if idx < self.windows.len() {
            let window = self.windows.remove(idx);
            let _ = self.weights.remove(idx);
            self.update_focus();
            proof {
                assert(final(self)@ =~= ws_remove(old(self)@, idx as int));
            }
            return Some(window);
        }
        None
    }

    /// Re-clamps the focus cursor after the window list shrank.
    fn update_focus(&mut self)
        requires
            old(self)@.weights.len() == old(self)@.windows.len(),
        ensures
            final(self)@ == (WorkspaceModel {
                focus: ws_focus_after_removal(
                    old(self)@.focus,
                    old(self)@.windows.len() as int,
                ),
                ..old(self)@
            }),
    {
        if self.windows.is_empty() {
            self.focus = None;
            proof {
                assert(final(self)@ =~= WorkspaceModel {
                    focus: ws_focus_after_removal(
                        old(self)@.focus,
                        old(self)@.windows.len() as int,
                    ),
                    ..old(self)@
                });
            }
            return;
        }

        match self.focus {
            Some(f) if f < self.windows.len() => {}
            _ => self.focus = Some(self.windows.len() - 1),
        }
        proof {
            assert(final(self)@ =~= WorkspaceModel {
                focus: ws_focus_after_removal(old(self)@.focus, old(self)@.windows.len() as int),
                ..old(self)@
            });
        }
    }

    /// Removes the focused window, if any.
    pub fn removed_focused_window(&mut self) -> (r: Option<u32>)
        requires
            ws_wf(old(self)@),
        ensures
            old(self)@.focus is None ==> r is None && final(self)@ == old(self)@,
            old(self)@.focus is Some ==> {
                &&& r == Some(old(self)@.windows[old(self)@.focus.unwrap()])
                &&& final(self)@ == ws_remove(old(self)@, old(self)@.focus.unwrap())
            },
            ws_wf(final(self)@),
    {
        match self.focus {
            Some(idx) => self.remove_window(idx),
            None => None,
        }
    }

    /// The windows in order.
    pub fn iter_windows(&self) -> (r: &Vec<u32>)
        ensures
            r@ == self@.windows,
    {
        &self.windows
    }

    /// The window at index `idx`.
    pub fn window_at(&self, idx: usize) -> (r: u32)
        requires
            idx < self@.windows.len(),
        ensures
            r == self@.windows[idx as int],
    {
        self.windows[idx]
    }

    /// The weight of the window at index `idx`.
    pub fn weight_at(&self, idx: usize) -> (r: u32)
        requires
            ws_wf(self@),
            idx < self@.windows.len(),
        ensures
            r == self@.weights[idx as int],
    {
        self.weights[idx]
    }

    /// Replaces the weight of the window at index `idx`.
    pub fn set_weight(&mut self, idx: usize, weight: u32)
        requires
            ws_wf(old(self)@),
            idx < old(self)@.windows.len(),
            weight >= 1,
        ensures
            final(self)@ == (WorkspaceModel {
                weights: old(self)@.weights.update(idx as int, weight),
                ..old(self)@
            }),
            ws_wf(final(self)@),
    {
        self.weights[idx] = weight;
        proof {
            assert(final(self)@ =~= WorkspaceModel {
                weights: old(self)@.weights.update(idx as int, weight),
                ..old(self)@
            });
        }
    }

    /// The weights in order.
    pub fn weights(&self) -> (r: &Vec<u32>)
        ensures
            r@ == self@.weights,
    {
        &self.weights
    }

    /// Exchanges the windows (and their weights) at `i` and `j`.
    pub fn swap_windows(&mut self, i: usize, j: usize)
        requires
            ws_wf(old(self)@),
            i < old(self)@.windows.len(),
            j < old(self)@.windows.len(),
        ensures
            final(self)@ == (WorkspaceModel {
                windows: old(self)@.windows.update(i as int, old(self)@.windows[j as int]).update(
                    j as int,
                    old(self)@.windows[i as int],
                ),
                weights: old(self)@.weights.update(i as int, old(self)@.weights[j as int]).update(
                    j as int,
                    old(self)@.weights[i as int],
                ),
                ..old(self)@
            }),
            ws_wf(final(self)@),
    {
        let wi = self.windows[i];
        let wj = self.windows[j];
        self.windows[i] = wj;
        self.windows[j] = wi;
        let gi = self.weights[i];
        let gj = self.weights[j];
        self.weights[i] = gj;
        self.weights[j] = gi;
        proof {
            assert(final(self)@ =~= WorkspaceModel {
                windows: old(self)@.windows.update(i as int, old(self)@.windows[j as int]).update(
                    j as int,
                    old(self)@.windows[i as int],
                ),
                weights: old(self)@.weights.update(i as int, old(self)@.weights[j as int]).update(
                    j as int,
                    old(self)@.weights[i as int],
                ),
                ..old(self)@
            });
            assert forall|a: int, b: int|
                0 <= a < b < final(self)@.windows.len() implies final(self)@.windows[a]
                != final(self)@.windows[b] by {}
        }
    }

    /// Keeps only the windows the predicate accepts (with their
    /// weights), then re-clamps the focus.
    pub fn retain<F: Fn(&u32) -> bool>(&mut self, f: F)
        requires
            ws_wf(old(self)@),
            forall|w: u32| #[trigger] f.requires((&w,)),
        ensures
            ws_wf(final(self)@),
            exists|keep: Seq<bool>|
                {
                    &&& keep.len() == old(self)@.windows.len()
                    &&& (forall|k: int|
                        0 <= k < keep.len() ==> f.ensures(
                            (&old(self)@.windows[k],),
                            #[trigger] keep[k],
                        ))
                    &&& final(self)@.windows == filter_mask(old(self)@.windows, keep)
                    &&& final(self)@.weights == filter_mask(old(self)@.weights, keep)
                    &&& final(self)@.focus == ws_focus_after_removal(
                        old(self)@.focus,
                        filter_mask(old(self)@.windows, keep).len() as int,
                    )
                },
    {
        let n = self.windows.len();
        let mut new_windows: Vec<u32> = Vec::new();
        let mut new_weights: Vec<u32> = Vec::new();
        let ghost mut keep: Seq<bool> = Seq::empty();
        let mut i: usize = 0;
        while i < n
            invariant
                ws_wf(old(self)@),
                self == old(self),
                forall|w: u32| #[trigger] f.requires((&w,)),
                0 <= i <= n,
                n == self@.windows.len(),
                keep.len() == i,
                forall|k: int|
                    0 <= k < i ==> f.ensures((&self@.windows[k],), #[trigger] keep[k]),
                new_windows@.len() == new_weights@.len(),
                new_windows@ == filter_mask(self@.windows.take(i as int), keep),
                new_weights@ == filter_mask(self@.weights.take(i as int), keep),
            decreases n - i,
        {
            let w = self.windows[i];
            let b = f(&w);
            let ghost keep0 = keep;
            proof {
                keep = keep0.push(b);
            }
            if b {
                new_windows.push(w);
                new_weights.push(self.weights[i]);
            }
            proof {
                assert(self@.windows.take(i as int + 1).drop_last() =~= self@.windows.take(
                    i as int,
                ));
                assert(self@.weights.take(i as int + 1).drop_last() =~= self@.weights.take(
                    i as int,
                ));
                assert(keep.drop_last() =~= keep0);
                assert(self@.windows.take(i as int + 1).last() == self@.windows[i as int]);
                assert(self@.weights.take(i as int + 1).last() == self@.weights[i as int]);
                assert(new_windows@ =~= filter_mask(self@.windows.take(i as int + 1), keep));
                assert(new_weights@ =~= filter_mask(self@.weights.take(i as int + 1), keep));
            }
            i = i + 1;
        }
        proof {
            assert(self@.windows.take(n as int) =~= self@.windows);
            assert(self@.weights.take(n as int) =~= self@.weights);
            lemma_filter_mask_no_dups(self@.windows, keep);
            assert forall|k: int|
                0 <= k < new_weights@.len() implies new_weights@[k] >= 1 by {
                assert(new_weights@.contains(new_weights@[k])) by {
                    assert(new_weights@[k] == new_weights@[k]);
                }
                lemma_filter_mask_subset(self@.weights, keep, new_weights@[k]);
            }
        }
        self.windows = new_windows;
        self.weights = new_weights;
        self.update_focus();
        proof {
            let kept = keep;
            assert(final(self)@.windows == filter_mask(old(self)@.windows, kept));
        }
    }

    /// Whether the workspace lists `window`.
    pub fn contains(&self, window: u32) -> (r: bool)
        ensures
            r == self@.windows.contains(window),
    {
        let n = self.windows.len();
        let mut i: usize = 0;
        while i < n
            invariant
                0 <= i <= n,
                n == self@.windows.len(),
                forall|k: int| 0 <= k < i ==> self@.windows[k] != window,
            decreases n - i,
        {
            if self.windows[i] == window {
                return true;
            }
            i = i + 1;
        }
        false
    }

    /// The index of `window`, if present.
    pub fn index_of(&self, window: u32) -> (r: Option<usize>)
        ensures
            r is Some ==> {
                &&& r.unwrap() < self@.windows.len()
                &&& self@.windows[r.unwrap() as int] == window
                &&& forall|k: int| 0 <= k < r.unwrap() as int ==> self@.windows[k] != window
            },
            r is None ==> !self@.windows.contains(window),
    {
        let n = self.windows.len();
        let mut i: usize = 0;
        while i < n
            invariant
                0 <= i <= n,
                n == self@.windows.len(),
                forall|k: int| 0 <= k < i ==> self@.windows[k] != window,
            decreases n - i,
        {
            if self.windows[i] == window {
                return Some(i);
            }
            i = i + 1;
        }
        None
    }
}

} // verus!
