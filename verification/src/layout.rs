//! The layout engine: pure geometry turning a screen area and a list of
//! per-window weights into one rectangle per window.

use vstd::arithmetic::div_mod::{
    lemma_div_is_ordered, lemma_div_multiples_vanish, lemma_fundamental_div_mod,
};
use vstd::arithmetic::mul::lemma_mul_inequality;
use vstd::prelude::*;

verus! {

/// A screen-space rectangle. Width and height are strictly positive in
/// every rectangle the layout engine emits.
#[derive(Clone, Copy, Debug, PartialEq, Eq, Structural)]
pub struct Rect {
    pub x: i32,
    pub y: i32,
    pub w: u32,
    pub h: u32,
}

/// Mathematical padding: `max(1, dim - 2*border)`.
pub open spec fn spec_pad(dim: int, border: int) -> int {
    if dim - 2 * border >= 1 {
        dim - 2 * border
    } else {
        1
    }
}

/// Shrinks a dimension by a border on both sides, clamping to 1 so that
/// the result is always a positive extent.
pub fn pad(dim: u32, border: u32) -> (r: u32)
    ensures
        r == spec_pad(dim as int, border as int),
{
    let b2: u64 = 2 * (border as u64);
    if (dim as u64) > b2 {
        dim - 2 * border
    } else {
        1
    }
}

/// Sum of a weight sequence.
pub open spec fn seq_sum(s: Seq<u32>) -> int
    decreases s.len(),
{
    if s.len() == 0 {
        0
    } else {
        seq_sum(s.drop_last()) + s.last()
    }
}

pub proof fn lemma_seq_sum_take_succ(s: Seq<u32>, i: int)
    requires
        0 <= i < s.len(),
    ensures
        seq_sum(s.take(i + 1)) == seq_sum(s.take(i)) + s[i],
{
    assert(s.take(i + 1).drop_last() =~= s.take(i));
    assert(s.take(i + 1).last() == s[i]);
}

pub proof fn lemma_seq_sum_nonneg(s: Seq<u32>)
    ensures
        seq_sum(s) >= 0,
    decreases s.len(),
{
    if s.len() > 0 {
        lemma_seq_sum_nonneg(s.drop_last());
    }
}

/// If every weight is at least 1, the sum is at least the length.
pub proof fn lemma_seq_sum_ge_len(s: Seq<u32>)
    requires
        forall|i: int| 0 <= i < s.len() ==> s[i] >= 1,
    ensures
        seq_sum(s) >= s.len(),
    decreases s.len(),
{
    if s.len() > 0 {
        lemma_seq_sum_ge_len(s.drop_last());
    }
}

/// Prefix sums are monotone in the prefix length.
pub proof fn lemma_seq_sum_take_mono(s: Seq<u32>, i: int, j: int)
    requires
        0 <= i <= j <= s.len(),
    ensures
        seq_sum(s.take(i)) <= seq_sum(s.take(j)),
    decreases j - i,
{
    if i < j {
        lemma_seq_sum_take_mono(s, i, j - 1);
        lemma_seq_sum_take_succ(s, j - 1);
    }
}

/// Prefix sums grow by at least one per element when weights are positive.
pub proof fn lemma_seq_sum_take_grows(s: Seq<u32>, i: int, j: int)
    requires
        0 <= i < j <= s.len(),
        forall|k: int| 0 <= k < s.len() ==> s[k] >= 1,
    ensures
        seq_sum(s.take(i)) + (j - i) <= seq_sum(s.take(j)),
    decreases j - i,
{
    lemma_seq_sum_take_succ(s, j - 1);
    if i < j - 1 {
        lemma_seq_sum_take_grows(s, i, j - 1);
    }
}

/// A prefix sum never exceeds the total.
pub proof fn lemma_seq_sum_take_le_total(s: Seq<u32>, i: int)
    requires
        0 <= i <= s.len(),
    ensures
        seq_sum(s.take(i)) <= seq_sum(s),
{
    lemma_seq_sum_take_mono(s, i, s.len() as int);
    assert(s.take(s.len() as int) =~= s);
}

/// `d * (a / d) <= a` for positive `d` and nonnegative `a`.
proof fn lemma_mul_div_le(a: int, d: int)
    requires
        a >= 0,
        d >= 1,
    ensures
        d * (a / d) <= a,
        a / d >= 0,
{
    lemma_fundamental_div_mod(a, d);
    lemma_div_is_ordered(0, a, d);
}

/// The pixel column width one weight unit occupies.
pub open spec fn horizontal_partition(area: Rect, weights: Seq<u32>) -> int {
    area.w as int / seq_sum(weights)
}

/// The raw (unpadded) cell width window `i` occupies.
pub open spec fn horizontal_cell(area: Rect, weights: Seq<u32>, i: int) -> int {
    (area.w as int * weights[i] as int) / seq_sum(weights)
}

/// The rectangle the horizontal layout gives window `i`: side-by-side
/// columns of equal height, each `area.w * weights[i] / total` wide
/// before padding.
pub open spec fn horizontal_rect(
    area: Rect,
    weights: Seq<u32>,
    border_width: u32,
    window_gap: u32,
    i: int,
) -> Rect {
    let tb = border_width + window_gap;
    let p = horizontal_partition(area, weights);
    Rect {
        x: (seq_sum(weights.take(i)) * p + window_gap) as i32,
        y: window_gap as i32,
        w: spec_pad(horizontal_cell(area, weights, i), tb) as u32,
        h: spec_pad(area.h as int, tb) as u32,
    }
}

/// Inputs on which the horizontal layout is defined: at least one window,
/// positive weights (the total must not be zero), and dimensions small
/// enough that every coordinate fits an `i32`.
pub open spec fn horizontal_req(
    area: Rect,
    weights: Seq<u32>,
    border_width: u32,
    window_gap: u32,
) -> bool {
    &&& weights.len() >= 1
    &&& forall|i: int| 0 <= i < weights.len() ==> weights[i] >= 1
    &&& area.w + window_gap <= i32::MAX
    &&& border_width + window_gap <= u32::MAX
}

/// Bounds shared by every value the horizontal layout computes, proved
/// once so both the implementation and the laws can rely on them.
pub proof fn lemma_horizontal_bounds(area: Rect, weights: Seq<u32>, i: int)
    requires
        weights.len() >= 1,
        forall|k: int| 0 <= k < weights.len() ==> weights[k] >= 1,
        0 <= i <= weights.len(),
    ensures
        seq_sum(weights) >= 1,
        0 <= seq_sum(weights.take(i)),
        seq_sum(weights.take(i)) <= seq_sum(weights),
        0 <= horizontal_partition(area, weights),
        seq_sum(weights.take(i)) * horizontal_partition(area, weights) <= area.w as int,
        i < weights.len() ==> 0 <= horizontal_cell(area, weights, i) <= area.w as int,
{
    let total = seq_sum(weights);
    let p = horizontal_partition(area, weights);
    lemma_seq_sum_ge_len(weights);
    lemma_seq_sum_nonneg(weights.take(i));
    lemma_seq_sum_take_le_total(weights, i);
    lemma_mul_div_le(area.w as int, total);
    lemma_mul_inequality(seq_sum(weights.take(i)), total, p);
    if i < weights.len() {
        assert(weights[i] <= total) by {
            lemma_seq_sum_take_succ(weights, i);
            lemma_seq_sum_nonneg(weights.take(i));
            lemma_seq_sum_take_le_total(weights, i + 1);
        }
        lemma_mul_inequality(weights[i] as int, total, area.w as int);
        vstd::arithmetic::mul::lemma_mul_is_commutative(weights[i] as int, area.w as int);
        vstd::arithmetic::mul::lemma_mul_is_commutative(total, area.w as int);
        lemma_div_is_ordered(area.w as int * weights[i] as int, area.w as int * total, total);
        lemma_div_multiples_vanish(area.w as int, total);
        lemma_div_is_ordered(0, area.w as int * weights[i] as int, total);
        assert(area.w as int * weights[i] as int >= 0) by {
            vstd::arithmetic::mul::lemma_mul_nonnegative(area.w as int, weights[i] as int);
        }
    }
}

/// A layout algorithm: a pure function from a screen area and per-window
/// weights to one rectangle per window.
///
/// Every algorithm returns exactly one rectangle per weight, and every
/// rectangle has strictly positive width and height.
pub trait Layout {
    /// The inputs the algorithm accepts.
    spec fn generate_req(
        &self,
        area: Rect,
        weights: Seq<u32>,
        border_width: u32,
        window_gap: u32,
    ) -> bool;

    /// The rectangle the algorithm gives window `i`.
    spec fn rect_at(
        &self,
        area: Rect,
        weights: Seq<u32>,
        border_width: u32,
        window_gap: u32,
        i: int,
    ) -> Rect;

    fn generate_layout(
        &self,
        area: Rect,
        weights: &[u32],
        border_width: u32,
        window_gap: u32,
    ) -> (r: Vec<Rect>)
        requires
            self.generate_req(area, weights@, border_width, window_gap),
        ensures
            r@.len() == weights@.len(),
            forall|i: int|
                0 <= i < r@.len() ==> r@[i] == self.rect_at(
                    area,
                    weights@,
                    border_width,
                    window_gap,
                    i,
                ),
            forall|i: int| 0 <= i < r@.len() ==> (#[trigger] r@[i]).w >= 1 && r@[i].h >= 1,
    ;
}

/// Side-by-side columns of equal height, widths proportional to the
/// weights.
pub struct HorizontalLayout;

impl Layout for HorizontalLayout {
    open spec fn generate_req(
        &self,
        area: Rect,
        weights: Seq<u32>,
        border_width: u32,
        window_gap: u32,
    ) -> bool {
        horizontal_req(area, weights, border_width, window_gap)
    }

    open spec fn rect_at(
        &self,
        area: Rect,
        weights: Seq<u32>,
        border_width: u32,
        window_gap: u32,
        i: int,
    ) -> Rect {
        horizontal_rect(area, weights, border_width, window_gap, i)
    }

    fn generate_layout(
        &self,
        area: Rect,
        weights: &[u32],
        border_width: u32,
        window_gap: u32,
    ) -> (r: Vec<Rect>) {
        let n = weights.len();
        let ghost ws = weights@;
        proof {
            lemma_horizontal_bounds(area, ws, 0);
        }

        let mut total: u128 = 0;
        let mut k: usize = 0;
        while k < n
            invariant
                n == ws.len(),
                0 <= k <= n,
                weights@ == ws,
                total == seq_sum(ws.take(k as int)),
                total <= k * 0xffff_ffffu128,
            decreases n - k,
        {
            proof {
                lemma_seq_sum_take_succ(ws, k as int);
            }
            total = total + (weights[k] as u128);
            k = k + 1;
        }
        proof {
            assert(ws.take(n as int) =~= ws);
        }

        let partitions: u128 = (area.w as u128) / total;
        let tb: u32 = border_width + window_gap;
        let inner_h: u32 = pad(area.h, tb);

        let mut cumulative: u128 = 0;
        let mut layout: Vec<Rect> = Vec::new();
        let mut idx: usize = 0;
        while idx < n
            invariant
                n == ws.len(),
                0 <= idx <= n,
                weights@ == ws,
                horizontal_req(area, ws, border_width, window_gap),
                total == seq_sum(ws),
                total >= 1,
                partitions == horizontal_partition(area, ws),
                tb == border_width + window_gap,
                inner_h == spec_pad(area.h as int, tb as int),
                cumulative == seq_sum(ws.take(idx as int)),
                layout@.len() == idx,
                forall|j: int|
                    0 <= j < idx ==> layout@[j] == horizontal_rect(
                        area,
                        ws,
                        border_width,
                        window_gap,
                        j,
                    ),
                forall|j: int|
                    0 <= j < idx ==> (#[trigger] layout@[j]).w >= 1 && layout@[j].h >= 1,
            decreases n - idx,
        {
            proof {
                lemma_horizontal_bounds(area, ws, idx as int);
                lemma_horizontal_bounds(area, ws, idx as int + 1);
                lemma_seq_sum_take_succ(ws, idx as int);
            }
            assert(total >= 1);
            let weight = weights[idx];
            proof {
                vstd::arithmetic::mul::lemma_mul_upper_bound(
                    area.w as int,
                    0xffff_ffff,
                    weight as int,
                    0xffff_ffff,
                );
            }
            let cell: u128 = (area.w as u128) * (weight as u128) / total;
            let inner_w: u32 = pad(cell as u32, tb);
            let x: u128 = cumulative * partitions + (window_gap as u128);
            layout.push(
                Rect { x: x as i32, y: window_gap as i32, w: inner_w, h: inner_h },
            );
            cumulative = cumulative + (weight as u128);
            idx = idx + 1;
        }
        layout
    }
}

/// Saturating subtraction over the mathematical integers.
pub open spec fn sat_sub(a: int, b: int) -> int {
    if a >= b {
        a - b
    } else {
        0
    }
}

/// The larger of two integers.
pub open spec fn int_max(a: int, b: int) -> int {
    if a >= b {
        a
    } else {
        b
    }
}

/// The remainder rectangle `(x, y, w, h)` the dwindle layout still has
/// available before emitting window `k`, after `k` non-terminal splits.
pub open spec fn master_frame(area: Rect, window_gap: u32, k: nat) -> (int, int, int, int)
    decreases k,
{
    if k == 0 {
        (
            window_gap as int,
            window_gap as int,
            sat_sub(area.w as int, window_gap as int),
            sat_sub(area.h as int, window_gap as int),
        )
    } else {
        let km1 = (k - 1) as nat;
        let (x, y, w, h) = master_frame(area, window_gap, km1);
        if km1 % 2 == 0 {
            (x + w / 2, y, w / 2, h)
        } else {
            (x, y + h / 2, w, h / 2)
        }
    }
}

/// The remainder stays inside the original area and all its components
/// stay nonnegative, whatever the number of splits.
pub proof fn lemma_master_frame_bounds(area: Rect, window_gap: u32, k: nat)
    ensures
        0 <= master_frame(area, window_gap, k).0,
        0 <= master_frame(area, window_gap, k).1,
        0 <= master_frame(area, window_gap, k).2,
        0 <= master_frame(area, window_gap, k).3,
        master_frame(area, window_gap, k).0 + master_frame(area, window_gap, k).2 <= int_max(
            window_gap as int,
            area.w as int,
        ),
        master_frame(area, window_gap, k).1 + master_frame(area, window_gap, k).3 <= int_max(
            window_gap as int,
            area.h as int,
        ),
    decreases k,
{
    if k > 0 {
        lemma_master_frame_bounds(area, window_gap, (k - 1) as nat);
    }
}

/// The rectangle the dwindle layout gives window `i` of `n`: the last
/// window takes the whole remainder; an even index takes the left half,
/// an odd index the top half, each padded by `border + gap/2`.
pub open spec fn master_rect(
    area: Rect,
    border_width: u32,
    window_gap: u32,
    i: int,
    n: int,
) -> Rect {
    let tb = border_width as int + (window_gap as int) / 2;
    let (x, y, w, h) = master_frame(area, window_gap, i as nat);
    if i == n - 1 {
        Rect { x: x as i32, y: y as i32, w: spec_pad(w, tb) as u32, h: spec_pad(h, tb) as u32 }
    } else if i % 2 == 0 {
        Rect { x: x as i32, y: y as i32, w: spec_pad(w / 2, tb) as u32, h: spec_pad(h, tb) as u32 }
    } else {
        Rect { x: x as i32, y: y as i32, w: spec_pad(w, tb) as u32, h: spec_pad(h / 2, tb) as u32 }
    }
}

/// Inputs on which the dwindle layout is defined: dimensions and gap
/// small enough that every coordinate fits an `i32`.
pub open spec fn master_req(area: Rect, border_width: u32, window_gap: u32) -> bool {
    &&& area.w <= i32::MAX
    &&& area.h <= i32::MAX
    &&& window_gap <= i32::MAX
    &&& border_width + window_gap <= u32::MAX
}

/// A dwindle spiral: the first window takes the dominant half, the rest
/// recursively occupy the other half, alternating horizontal and
/// vertical splits. Weight values are ignored; only the count matters.
pub struct MasterLayout;

impl Layout for MasterLayout {
    open spec fn generate_req(
        &self,
        area: Rect,
        weights: Seq<u32>,
        border_width: u32,
        window_gap: u32,
    ) -> bool {
        master_req(area, border_width, window_gap)
    }

    open spec fn rect_at(
        &self,
        area: Rect,
        weights: Seq<u32>,
        border_width: u32,
        window_gap: u32,
        i: int,
    ) -> Rect {
        master_rect(area, border_width, window_gap, i, weights.len() as int)
    }

    fn generate_layout(
        &self,
        area: Rect,
        weights: &[u32],
        border_width: u32,
        window_gap: u32,
    ) -> (r: Vec<Rect>) {
        let n = weights.len();
        let total_border: u32 = border_width + window_gap / 2;
        let mut prev_x: u32 = window_gap;
        let mut prev_y: u32 = window_gap;
        let mut prev_w: u32 = if area.w >= window_gap {
            area.w - window_gap
        } else {
            0
        };
        let mut prev_h: u32 = if area.h >= window_gap {
            area.h - window_gap
        } else {
            0
        };
        let mut layout: Vec<Rect> = Vec::new();
        let mut i: usize = 0;
        while i < n
            invariant
                0 <= i <= n,
                n == weights@.len(),
                master_req(area, border_width, window_gap),
                total_border == border_width + window_gap / 2,
                i < n ==> (prev_x as int, prev_y as int, prev_w as int, prev_h as int)
                    == master_frame(area, window_gap, i as nat),
                layout@.len() == i,
                forall|j: int|
                    0 <= j < i ==> layout@[j] == master_rect(
                        area,
                        border_width,
                        window_gap,
                        j,
                        n as int,
                    ),
                forall|j: int|
                    0 <= j < i ==> (#[trigger] layout@[j]).w >= 1 && layout@[j].h >= 1,
            decreases n - i,
        {
            proof {
                lemma_master_frame_bounds(area, window_gap, i as nat);
            }
            if i == n - 1 {
                layout.push(
                    Rect {
                        x: prev_x as i32,
                        y: prev_y as i32,
                        w: pad(prev_w, total_border),
                        h: pad(prev_h, total_border),
                    },
                );
            } else if i % 2 == 0 {
                let inner_w = prev_w / 2;
                layout.push(
                    Rect {
                        x: prev_x as i32,
                        y: prev_y as i32,
                        w: pad(inner_w, total_border),
                        h: pad(prev_h, total_border),
                    },
                );
                prev_x = prev_x + inner_w;
                prev_w = inner_w;
            } else {
                let inner_h = prev_h / 2;
                layout.push(
                    Rect {
                        x: prev_x as i32,
                        y: prev_y as i32,
                        w: pad(prev_w, total_border),
                        h: pad(inner_h, total_border),
                    },
                );
                prev_y = prev_y + inner_h;
                prev_h = inner_h;
            }
            i = i + 1;
        }
        layout
    }
}

/// The registered layout algorithms, as a tagged variant.
#[derive(Debug, Hash, PartialEq, Eq, Clone, Copy, Structural)]
pub enum LayoutType {
    HorizontalLayout,
    MasterLayout,
}

impl Layout for LayoutType {
    open spec fn generate_req(
        &self,
        area: Rect,
        weights: Seq<u32>,
        border_width: u32,
        window_gap: u32,
    ) -> bool {
        match self {
            LayoutType::HorizontalLayout => HorizontalLayout.generate_req(
                area,
                weights,
                border_width,
                window_gap,
            ),
            LayoutType::MasterLayout => MasterLayout.generate_req(
                area,
                weights,
                border_width,
                window_gap,
            ),
        }
    }

    open spec fn rect_at(
        &self,
        area: Rect,
        weights: Seq<u32>,
        border_width: u32,
        window_gap: u32,
        i: int,
    ) -> Rect {
        match self {
            LayoutType::HorizontalLayout => HorizontalLayout.rect_at(
                area,
                weights,
                border_width,
                window_gap,
                i,
            ),
            LayoutType::MasterLayout => MasterLayout.rect_at(
                area,
                weights,
                border_width,
                window_gap,
                i,
            ),
        }
    }

    fn generate_layout(
        &self,
        area: Rect,
        weights: &[u32],
        border_width: u32,
        window_gap: u32,
    ) -> (r: Vec<Rect>) {
        match self {
            LayoutType::HorizontalLayout => HorizontalLayout.generate_layout(
                area,
                weights,
                border_width,
                window_gap,
            ),
            LayoutType::MasterLayout => MasterLayout.generate_layout(
                area,
                weights,
                border_width,
                window_gap,
            ),
        }
    }
}

/// Two rectangles have disjoint open interiors: they are separated along
/// the x axis or along the y axis.
pub open spec fn rects_disjoint(a: Rect, b: Rect) -> bool {
    ||| a.x + a.w <= b.x
    ||| b.x + b.w <= a.x
    ||| a.y + a.h <= b.y
    ||| b.y + b.h <= a.y
}

/// The pixel area of a rectangle.
pub open spec fn rect_area(r: Rect) -> int {
    r.w as int * r.h as int
}

/// Law: every horizontal rectangle shares the same y position and the
/// same height.
pub proof fn horizontal_same_row(
    area: Rect,
    weights: Seq<u32>,
    border_width: u32,
    window_gap: u32,
)
    ensures
        forall|i: int, j: int|
            0 <= i < weights.len() && 0 <= j < weights.len() ==> {
                &&& (#[trigger] horizontal_rect(area, weights, border_width, window_gap, i)).y == (
                #[trigger] horizontal_rect(area, weights, border_width, window_gap, j)).y
                &&& horizontal_rect(area, weights, border_width, window_gap, i).h
                    == horizontal_rect(area, weights, border_width, window_gap, j).h
            },
{
}

/// Law: horizontal x positions are strictly increasing, whenever the
/// area is wide enough to give each weight unit at least one pixel
/// column. (With fewer pixels than weight units every column collapses
/// onto the gap offset.)
pub proof fn horizontal_x_strictly_increasing(
    area: Rect,
    weights: Seq<u32>,
    border_width: u32,
    window_gap: u32,
)
    requires
        horizontal_req(area, weights, border_width, window_gap),
        weights.len() >= 2 ==> seq_sum(weights) <= area.w,
    ensures
        forall|i: int, j: int|
            0 <= i < j < weights.len()
                ==> (#[trigger] horizontal_rect(area, weights, border_width, window_gap, i)).x
                < (#[trigger] horizontal_rect(area, weights, border_width, window_gap, j)).x,
{
    let total = seq_sum(weights);
    let p = horizontal_partition(area, weights);
    assert forall|i: int, j: int| 0 <= i < j < weights.len() implies (
        #[trigger] horizontal_rect(area, weights, border_width, window_gap, i)).x < (
        #[trigger] horizontal_rect(area, weights, border_width, window_gap, j)).x by {
        lemma_horizontal_bounds(area, weights, i);
        lemma_horizontal_bounds(area, weights, j);
        assert(p >= 1) by {
            lemma_seq_sum_ge_len(weights);
            lemma_div_is_ordered(total, area.w as int, total);
            lemma_div_multiples_vanish(1, total);
        }
        let ci = seq_sum(weights.take(i));
        let cj = seq_sum(weights.take(j));
        lemma_seq_sum_take_grows(weights, i, j);
        lemma_mul_inequality(ci + 1, cj, p);
        assert((ci + 1) * p == ci * p + p) by (nonlinear_arith);
    }
}

/// Law: horizontal rectangles are pairwise disjoint, exactly when each
/// padded cell width does not spill past the next window's column
/// start. (Integer rounding can make a cell up to one weight's worth
/// wider than the columns it owns; padding usually absorbs that.)
pub proof fn horizontal_rects_disjoint(
    area: Rect,
    weights: Seq<u32>,
    border_width: u32,
    window_gap: u32,
)
    requires
        horizontal_req(area, weights, border_width, window_gap),
        forall|i: int|
            0 <= i < weights.len() - 1 ==> spec_pad(
                #[trigger] horizontal_cell(area, weights, i),
                border_width + window_gap,
            ) <= weights[i] * horizontal_partition(area, weights),
    ensures
        forall|i: int, j: int|
            0 <= i < j < weights.len() ==> rects_disjoint(
                #[trigger] horizontal_rect(area, weights, border_width, window_gap, i),
                #[trigger] horizontal_rect(area, weights, border_width, window_gap, j),
            ),
{
    let total = seq_sum(weights);
    let p = horizontal_partition(area, weights);
    let tb = border_width + window_gap;
    assert forall|i: int, j: int| 0 <= i < j < weights.len() implies rects_disjoint(
        #[trigger] horizontal_rect(area, weights, border_width, window_gap, i),
        #[trigger] horizontal_rect(area, weights, border_width, window_gap, j),
    ) by {
        lemma_horizontal_bounds(area, weights, i);
        lemma_horizontal_bounds(area, weights, i + 1);
        lemma_horizontal_bounds(area, weights, j);
        let ci = seq_sum(weights.take(i));
        let ci1 = seq_sum(weights.take(i + 1));
        let cj = seq_sum(weights.take(j));
        lemma_seq_sum_take_succ(weights, i);
        assert(ci1 * p == ci * p + weights[i] * p) by (nonlinear_arith)
            requires
                ci1 == ci + weights[i],
        ;
        lemma_seq_sum_take_mono(weights, i + 1, j);
        lemma_mul_inequality(ci1, cj, p);
        let cell = horizontal_cell(area, weights, i);
        assert(0 <= cell <= area.w as int);
        assert(spec_pad(cell, tb as int) <= weights[i] * p);
    }
}

/// All the weights of one sequence are a common multiple of another's.
pub open spec fn weights_scaled(w1: Seq<u32>, w2: Seq<u32>, c: u32) -> bool {
    &&& w1.len() == w2.len()
    &&& forall|i: int| 0 <= i < w1.len() ==> w2[i] == c * w1[i]
}

proof fn lemma_seq_sum_scaled(w1: Seq<u32>, w2: Seq<u32>, c: u32)
    requires
        weights_scaled(w1, w2, c),
    ensures
        seq_sum(w2) == c * seq_sum(w1),
    decreases w1.len(),
{
    if w1.len() == 0 {
        assert(seq_sum(w2) == 0);
        assert(c * 0 == 0) by (nonlinear_arith);
    } else {
        assert(weights_scaled(w1.drop_last(), w2.drop_last(), c));
        lemma_seq_sum_scaled(w1.drop_last(), w2.drop_last(), c);
        assert(c * seq_sum(w1.drop_last()) + c * (w1.last() as int) == c * seq_sum(w1))
            by (nonlinear_arith)
            requires
                seq_sum(w1) == seq_sum(w1.drop_last()) + w1.last(),
        ;
    }
}

/// Law: scaling every weight by a common factor leaves the layout
/// unchanged, whenever the scaled total still divides the area width
/// evenly. (When it does not, integer rounding of the per-unit column
/// width can shift the x positions.)
pub proof fn horizontal_scale_invariant(
    area: Rect,
    w1: Seq<u32>,
    w2: Seq<u32>,
    border_width: u32,
    window_gap: u32,
    c: u32,
)
    requires
        horizontal_req(area, w1, border_width, window_gap),
        weights_scaled(w1, w2, c),
        c >= 1,
        area.w as int % (c * seq_sum(w1)) == 0,
    ensures
        forall|i: int|
            0 <= i < w1.len() ==> horizontal_rect(area, w1, border_width, window_gap, i)
                == horizontal_rect(area, w2, border_width, window_gap, i),
{
    let t1 = seq_sum(w1);
    let t2 = seq_sum(w2);
    let wd = area.w as int;
    lemma_seq_sum_ge_len(w1);
    lemma_seq_sum_scaled(w1, w2, c);
    assert(t2 >= 1) by (nonlinear_arith)
        requires
            t2 == c * t1,
            c >= 1,
            t1 >= 1,
    ;
    let m = wd / t2;
    assert(wd == t2 * m) by {
        lemma_fundamental_div_mod(wd, t2);
    }
    assert(m >= 0) by {
        lemma_div_is_ordered(0, wd, t2);
    }
    // The per-unit column widths: exact division on both sides.
    assert(wd / t1 == c * m) by {
        assert(wd == t1 * (c * m)) by (nonlinear_arith)
            requires
                wd == t2 * m,
                t2 == c * t1,
        ;
        lemma_div_multiples_vanish(c * m, t1);
    }
    assert(wd / t2 == m);
    assert forall|i: int| 0 <= i < w1.len() implies horizontal_rect(
        area,
        w1,
        border_width,
        window_gap,
        i,
    ) == horizontal_rect(area, w2, border_width, window_gap, i) by {
        // Cells are exact multiples on both sides and coincide.
        assert(wd * w1[i] as int == t1 * (m * c * w1[i] as int)) by (nonlinear_arith)
            requires
                wd == t2 * m,
                t2 == c * t1,
        ;
        lemma_div_multiples_vanish(m * c * w1[i] as int, t1);
        assert(horizontal_cell(area, w1, i) == m * c * w1[i] as int);
        assert(wd * w2[i] as int == t2 * (m * c * w1[i] as int)) by (nonlinear_arith)
            requires
                wd == t2 * m,
                w2[i] == c * w1[i],
        ;
        lemma_div_multiples_vanish(m * c * w1[i] as int, t2);
        assert(horizontal_cell(area, w2, i) == m * c * w1[i] as int);
        // Prefix sums scale, so the x positions coincide too.
        assert(w1.take(i) =~= w1.take(i));
        assert(weights_scaled(w1.take(i), w2.take(i), c));
        lemma_seq_sum_scaled(w1.take(i), w2.take(i), c);
        let ci = seq_sum(w1.take(i));
        assert((c * ci) * m == ci * (c * m)) by (nonlinear_arith);
    }
}

proof fn lemma_spec_pad_mono(d1: int, d2: int, b: int)
    requires
        d1 <= d2,
    ensures
        spec_pad(d1, b) <= spec_pad(d2, b),
{
}

/// One dwindle step never grows the emitted area.
proof fn lemma_master_area_step(area: Rect, border_width: u32, window_gap: u32, i: int, n: int)
    requires
        master_req(area, border_width, window_gap),
        0 <= i,
        i + 1 < n,
    ensures
        rect_area(master_rect(area, border_width, window_gap, i + 1, n)) <= rect_area(
            master_rect(area, border_width, window_gap, i, n),
        ),
{
    let tb = border_width as int + (window_gap as int) / 2;
    lemma_master_frame_bounds(area, window_gap, i as nat);
    lemma_master_frame_bounds(area, window_gap, (i + 1) as nat);
    let (x, y, w, h) = master_frame(area, window_gap, i as nat);
    let ri = master_rect(area, border_width, window_gap, i, n);
    let rj = master_rect(area, border_width, window_gap, i + 1, n);
    if i % 2 == 0 {
        lemma_spec_pad_mono(h / 2, h, tb);
        assert(rj.w as int <= ri.w as int && rj.h as int <= ri.h as int);
    } else {
        lemma_spec_pad_mono(w / 2, w, tb);
        assert(rj.w as int <= ri.w as int && rj.h as int <= ri.h as int);
    }
    lemma_mul_upper_bound_wrap(rj.w as int, ri.w as int, rj.h as int, ri.h as int);
}

proof fn lemma_mul_upper_bound_wrap(x: int, xb: int, y: int, yb: int)
    requires
        0 <= x <= xb,
        0 <= y <= yb,
    ensures
        x * y <= xb * yb,
{
    vstd::arithmetic::mul::lemma_mul_upper_bound(x, xb, y, yb);
}

proof fn lemma_master_area_mono(area: Rect, border_width: u32, window_gap: u32, i: int, j: int, n: int)
    requires
        master_req(area, border_width, window_gap),
        0 <= i <= j < n,
    ensures
        rect_area(master_rect(area, border_width, window_gap, j, n)) <= rect_area(
            master_rect(area, border_width, window_gap, i, n),
        ),
    decreases j - i,
{
    if i < j {
        lemma_master_area_step(area, border_width, window_gap, j - 1, n);
        lemma_master_area_mono(area, border_width, window_gap, i, j - 1, n);
    }
}

/// Law: dwindle areas are non-increasing with the window index, so the
/// master window (index 0) always has the largest area.
pub proof fn master_areas_nonincreasing(area: Rect, border_width: u32, window_gap: u32, n: int)
    requires
        master_req(area, border_width, window_gap),
        n >= 1,
    ensures
        forall|i: int, j: int|
            0 <= i <= j < n ==> rect_area(
                #[trigger] master_rect(area, border_width, window_gap, j, n),
            ) <= rect_area(#[trigger] master_rect(area, border_width, window_gap, i, n)),
        forall|j: int|
            0 <= j < n ==> rect_area(#[trigger] master_rect(area, border_width, window_gap, j, n))
                <= rect_area(master_rect(area, border_width, window_gap, 0, n)),
{
    assert forall|i: int, j: int| 0 <= i <= j < n implies rect_area(
        #[trigger] master_rect(area, border_width, window_gap, j, n),
    ) <= rect_area(#[trigger] master_rect(area, border_width, window_gap, i, n)) by {
        lemma_master_area_mono(area, border_width, window_gap, i, j, n);
    }
    assert forall|j: int| 0 <= j < n implies rect_area(
        #[trigger] master_rect(area, border_width, window_gap, j, n),
    ) <= rect_area(master_rect(area, border_width, window_gap, 0, n)) by {
        lemma_master_area_mono(area, border_width, window_gap, 0, j, n);
    }
}

/// The emitted rectangle at index `i` stays inside its half of the
/// remainder: true exactly when the dimensions it receives have not
/// collapsed to zero (padding clamps a zero extent up to one pixel,
/// which would spill into the other half).
pub open spec fn master_fits(area: Rect, window_gap: u32, i: int, n: int) -> bool {
    let (x, y, w, h) = master_frame(area, window_gap, i as nat);
    if i == n - 1 {
        w >= 1 && h >= 1
    } else if i % 2 == 0 {
        w / 2 >= 1 && h >= 1
    } else {
        w >= 1 && h / 2 >= 1
    }
}

/// Later remainders are nested inside earlier ones.
proof fn lemma_master_frame_nested(area: Rect, window_gap: u32, i: nat, j: nat)
    requires
        i <= j,
    ensures
        master_frame(area, window_gap, i).0 <= master_frame(area, window_gap, j).0,
        master_frame(area, window_gap, i).1 <= master_frame(area, window_gap, j).1,
        master_frame(area, window_gap, j).0 + master_frame(area, window_gap, j).2 <= master_frame(
            area,
            window_gap,
            i,
        ).0 + master_frame(area, window_gap, i).2,
        master_frame(area, window_gap, j).1 + master_frame(area, window_gap, j).3 <= master_frame(
            area,
            window_gap,
            i,
        ).1 + master_frame(area, window_gap, i).3,
    decreases j - i,
{
    if i < j {
        lemma_master_frame_nested(area, window_gap, i, (j - 1) as nat);
        lemma_master_frame_bounds(area, window_gap, (j - 1) as nat);
    }
}

/// Law: dwindle rectangles are pairwise disjoint, whenever no remainder
/// dimension has collapsed to zero before its window is emitted.
pub proof fn master_rects_disjoint(area: Rect, border_width: u32, window_gap: u32, n: int)
    requires
        master_req(area, border_width, window_gap),
        forall|i: int| 0 <= i < n ==> master_fits(area, window_gap, i, n),
    ensures
        forall|i: int, j: int|
            0 <= i < j < n ==> rects_disjoint(
                #[trigger] master_rect(area, border_width, window_gap, i, n),
                #[trigger] master_rect(area, border_width, window_gap, j, n),
            ),
{
    let tb = border_width as int + (window_gap as int) / 2;
    assert forall|i: int, j: int| 0 <= i < j < n implies rects_disjoint(
        #[trigger] master_rect(area, border_width, window_gap, i, n),
        #[trigger] master_rect(area, border_width, window_gap, j, n),
    ) by {
        lemma_master_frame_bounds(area, window_gap, i as nat);
        lemma_master_frame_bounds(area, window_gap, (i + 1) as nat);
        lemma_master_frame_bounds(area, window_gap, j as nat);
        lemma_master_frame_nested(area, window_gap, (i + 1) as nat, j as nat);
        let (xi, yi, wi, hi) = master_frame(area, window_gap, i as nat);
        let (xj, yj, wj, hj) = master_frame(area, window_gap, j as nat);
        let ri = master_rect(area, border_width, window_gap, i, n);
        let rj = master_rect(area, border_width, window_gap, j, n);
        assert(master_fits(area, window_gap, i, n));
        assert(master_fits(area, window_gap, j, n));
        // The later rectangle lies inside the later remainder.
        if j == n - 1 {
            assert(rj.x + rj.w <= xj + wj && rj.y + rj.h <= yj + hj);
        } else if j % 2 == 0 {
            assert(rj.x + rj.w <= xj + wj && rj.y + rj.h <= yj + hj);
        } else {
            assert(rj.x + rj.w <= xj + wj && rj.y + rj.h <= yj + hj);
        }
        // The earlier rectangle lies inside the half that was carved
        // away, whose far edge is where the next remainder begins.
        if i % 2 == 0 {
            assert(ri.x + ri.w <= xi + wi / 2);
            assert(master_frame(area, window_gap, (i + 1) as nat).0 == xi + wi / 2);
            assert(xi + wi / 2 <= rj.x);
        } else {
            assert(ri.y + ri.h <= yi + hi / 2);
            assert(master_frame(area, window_gap, (i + 1) as nat).1 == yi + hi / 2);
            assert(yi + hi / 2 <= rj.y);
        }
    }
}

/// Law: dwindle rectangles stay within the original area, whenever the
/// gap fits the area and no remainder dimension has collapsed.
pub proof fn master_rects_within_bounds(area: Rect, border_width: u32, window_gap: u32, n: int)
    requires
        master_req(area, border_width, window_gap),
        window_gap <= area.w,
        window_gap <= area.h,
        forall|i: int| 0 <= i < n ==> master_fits(area, window_gap, i, n),
    ensures
        forall|i: int|
            0 <= i < n ==> {
                let r = #[trigger] master_rect(area, border_width, window_gap, i, n);
                &&& r.x >= 0
                &&& r.y >= 0
                &&& r.x + r.w <= area.w
                &&& r.y + r.h <= area.h
            },
{
    assert forall|i: int| 0 <= i < n implies {
        let r = #[trigger] master_rect(area, border_width, window_gap, i, n);
        &&& r.x >= 0
        &&& r.y >= 0
        &&& r.x + r.w <= area.w
        &&& r.y + r.h <= area.h
    } by {
        lemma_master_frame_bounds(area, window_gap, i as nat);
        assert(master_fits(area, window_gap, i, n));
    }
}

/// The layout registration order: the sequence `cycle_layout` walks.
pub open spec fn spec_layout_order() -> Seq<LayoutType> {
    seq![LayoutType::HorizontalLayout, LayoutType::MasterLayout]
}

/// Builds the ordered list of registered layouts.
pub fn build_layout_map() -> (r: Vec<LayoutType>)
    ensures
        r@ == spec_layout_order(),
{
    let mut v: Vec<LayoutType> = Vec::new();
    v.push(LayoutType::HorizontalLayout);
    v.push(LayoutType::MasterLayout);
    proof {
        assert(v@ =~= spec_layout_order());
    }
    v
}

/// Holds the registered layouts in insertion order together with the
/// index of the current one.
pub struct LayoutManager {
    layouts: Vec<LayoutType>,
    current: usize,
}

impl LayoutManager {
    /// The manager holds the registration order and a valid index.
    pub closed spec fn wf(&self) -> bool {
        &&& self.layouts@ == spec_layout_order()
        &&& self.current < self.layouts@.len()
    }

    /// The algorithm currently in effect.
    pub closed spec fn current_spec(&self) -> LayoutType {
        self.layouts@[self.current as int]
    }

    /// The position of the current algorithm in registration order.
    pub closed spec fn current_index(&self) -> int {
        self.current as int
    }

    /// What well-formedness guarantees: the current index addresses the
    /// registration order.
    pub proof fn lemma_wf(&self)
        requires
            self.wf(),
        ensures
            0 <= self.current_index() < spec_layout_order().len(),
            self.current_spec() == spec_layout_order()[self.current_index()],
    {
    }

    /// Starts on the default layout, the first registered one.
    pub fn new() -> (r: LayoutManager)
        ensures
            r.wf(),
            r.current_index() == 0,
            r.current_spec() == LayoutType::HorizontalLayout,
    {
        let layouts = build_layout_map();
        LayoutManager { layouts, current: 0 }
    }

    /// Returns the algorithm currently in effect.
    pub fn get_current_layout(&self) -> (r: LayoutType)
        requires
            self.wf(),
        ensures
            r == self.current_spec(),
    {
        self.layouts[self.current]
    }

    /// Advances to the next registered layout, wrapping around.
    pub fn cycle_layout(&mut self)
        requires
            old(self).wf(),
        ensures
            final(self).wf(),
            final(self).current_index() == (old(self).current_index() + 1) % (
            spec_layout_order().len() as int),
    {
        self.current = (self.current + 1) % self.layouts.len();
    }
}

} // verus!
