//! The layout engine: a pure function from an ordered window list and an
//! available rectangle to one target rectangle per window.
//!
//! The default algorithm is master-stack: the first window takes the left
//! half of the area (the whole area when it is alone); the remaining windows
//! are stacked in the right half, each with an equal share of the height.
//! Further algorithms are added as variants of `LayoutState`, all behind the
//! same contract.

use vstd::prelude::*;

use crate::geometry::{Point, Rect, Size, MAX_EXTENT};

verus! {

/// One window paired with the rectangle the layout assigns to it.
#[derive(Clone, Copy, PartialEq, Eq, Structural, Debug)]
pub struct Placement {
    pub window: u64,
    pub geometry: Rect,
}

/// The master-stack algorithm. It keeps no state of its own.
#[derive(Clone, Copy, PartialEq, Eq, Structural, Debug)]
pub struct MasterStack {
}

/// The layout in use; a closed set of tagged variants, not open dispatch.
#[derive(Clone, Copy, PartialEq, Eq, Structural, Debug)]
pub enum LayoutState {
    MasterStack(MasterStack),
}

impl LayoutState {
    pub fn master_stack() -> (r: LayoutState)
        ensures
            r == LayoutState::MasterStack(MasterStack {  }),
    {
        LayoutState::MasterStack(MasterStack {  })
    }
}

/// The rectangle the master-stack algorithm gives window `i` of `count`.
pub open spec fn master_stack_rect(i: int, count: int, area: Rect) -> Rect
    recommends
        0 <= i < count,
        area.wf(),
{
    let half_width = area.size.w as int / 2;
    let stack_height = if count > 1 {
        area.size.h as int / (count - 1)
    } else {
        area.size.h as int
    };
    if i == 0 {
        if count > 1 {
            Rect {
                loc: area.loc,
                size: Size { w: half_width as i32, h: area.size.h },
            }
        } else {
            area
        }
    } else {
        Rect {
            loc: Point {
                x: (area.loc.x + half_width) as i32,
                y: (area.loc.y + stack_height * (i - 1)) as i32,
            },
            size: Size { w: half_width as i32, h: stack_height as i32 },
        }
    }
}

/// The whole answer of the master-stack layout for a window list.
pub open spec fn placements_of(windows: Seq<u64>, area: Rect) -> Seq<Placement> {
    Seq::new(
        windows.len(),
        |i: int| Placement { window: windows[i], geometry: master_stack_rect(i, windows.len() as int, area) },
    )
}

/// An equal share of `h` taken `j` times stays within `h`.
pub proof fn lemma_div_mul_le(h: int, k: int, j: int)
    requires
        0 <= h,
        1 <= k,
        0 <= j <= k,
    ensures
        0 <= (h / k) * j,
        (h / k) * j <= h,
{
    let q = h / k;
    assert(0 <= q && q * k <= h) by (nonlinear_arith)
        requires
            0 <= h,
            1 <= k,
            q == h / k,
    ;
    assert(q * j <= q * k) by (nonlinear_arith)
        requires
            0 <= q,
            j <= k,
    ;
    assert(0 <= q * j) by (nonlinear_arith)
        requires
            0 <= q,
            0 <= j,
    ;
}

impl MasterStack {
    /// Tile `windows` into `area`: the answer is exactly `placements_of`.
    pub fn placement(&self, windows: &Vec<u64>, area: Rect) -> (r: Vec<Placement>)
        requires
            area.wf(),
            windows.len() < 0x8000_0000,
        ensures
            r@ == placements_of(windows@, area),
    {
        let count = windows.len();
        let count_i = count as i32;
        let half_width = area.size.w / 2;
        let stack_height = if count_i > 1 {
            area.size.h / (count_i - 1)
        } else {
            area.size.h
        };

        let mut result: Vec<Placement> = Vec::new();
        let mut i: usize = 0;
        while i < count
            invariant
                0 <= i <= count,
                count == windows.len(),
                count < 0x8000_0000,
                count_i == count as i32,
                area.wf(),
                half_width == area.size.w / 2,
                stack_height == if count_i > 1 {
                    area.size.h as int / (count as int - 1)
                } else {
                    area.size.h as int
                },
                result@ =~= placements_of(windows@, area).take(i as int),
            decreases count - i,
        {
            let mut x = area.loc.x;
            let mut y = area.loc.y;
            let mut width = area.size.w;
            let mut height = area.size.h;

            if count_i > 1 {
                width = half_width;
            }
            if i > 0 {
                proof {
                    lemma_div_mul_le(area.size.h as int, count as int - 1, i as int - 1);
                }
                x = area.loc.x + half_width;
                y = area.loc.y + stack_height * (i as i32 - 1);
                width = half_width;
                height = stack_height;
            }

            let geometry = Rect { loc: Point { x, y }, size: Size { w: width, h: height } };
            result.push(Placement { window: windows[i], geometry });
            proof {
                assert(result@ =~= placements_of(windows@, area).take(i + 1));
            }
            i = i + 1;
        }
        proof {
            assert(result@ =~= placements_of(windows@, area));
        }
        result
    }
}

impl LayoutState {
    /// What the layout in use answers for a window list and an area.
    pub open spec fn spec_placement(self, windows: Seq<u64>, area: Rect) -> Seq<Placement> {
        match self {
            LayoutState::MasterStack(_) => placements_of(windows, area),
        }
    }

    pub fn placement(&self, windows: &Vec<u64>, area: Rect) -> (r: Vec<Placement>)
        requires
            area.wf(),
            windows.len() < 0x8000_0000,
        ensures
            r@ == self.spec_placement(windows@, area),
    {
        match self {
            LayoutState::MasterStack(layout) => layout.placement(windows, area),
        }
    }
}

/// The layout is a function of its inputs: any two answers that meet
/// `placement`'s contract on the same inputs are the same, rectangle for
/// rectangle.  With no windows the answer is empty.
pub proof fn lemma_placement_deterministic(
    r1: Seq<Placement>,
    r2: Seq<Placement>,
    windows: Seq<u64>,
    area: Rect,
)
    requires
        r1 == placements_of(windows, area),
        r2 == placements_of(windows, area),
    ensures
        r1 == r2,
        windows.len() == 0 ==> r1.len() == 0,
{
}

/// Sum of the areas of a run of rectangles.
pub open spec fn sum_areas(s: Seq<Rect>) -> int
    decreases s.len(),
{
    if s.len() == 0 {
        0
    } else {
        s[0].spec_area() + sum_areas(s.drop_first())
    }
}

proof fn lemma_sum_areas_constant(s: Seq<Rect>, a: int)
    requires
        forall|i: int| 0 <= i < s.len() ==> #[trigger] s[i].spec_area() == a,
    ensures
        sum_areas(s) == s.len() * a,
    decreases s.len(),
{
    if s.len() == 0 {
    } else {
        lemma_sum_areas_constant(s.drop_first(), a);
        assert(s[0].spec_area() == a);
        assert(s.len() * a == a + (s.len() - 1) * a) by (nonlinear_arith);
    }
}

/// The rectangles of every window after the first, in order.
spec fn stack_rects(count: int, area: Rect) -> Seq<Rect> {
    Seq::new((count - 1) as nat, |j: int| master_stack_rect(j + 1, count, area))
}

/// The union of the returned rectangles never covers more than the area:
/// the sum of their areas is at most the area of `area`.
pub proof fn lemma_placement_area_bound(windows: Seq<u64>, area: Rect)
    requires
        area.wf(),
    ensures
        sum_areas(placements_of(windows, area).map_values(|p: Placement| p.geometry))
            <= area.spec_area(),
{
    let n = windows.len() as int;
    let rects = placements_of(windows, area).map_values(|p: Placement| p.geometry);
    let w = area.size.w as int;
    let h = area.size.h as int;
    assert(0 <= w * h) by (nonlinear_arith)
        requires
            0 <= w,
            0 <= h,
    ;
    if n == 0 {
    } else if n == 1 {
        assert(rects =~= seq![area]);
        assert(sum_areas(rects) == area.spec_area() + sum_areas(rects.drop_first()));
    } else {
        let half = w / 2;
        let sh = h / (n - 1);
        let master_area = half * h;
        let stack_area = half * sh;
        assert(rects.drop_first() =~= stack_rects(n, area));
        assert(rects[0].spec_area() == master_area);
        assert forall|i: int| 0 <= i < stack_rects(n, area).len() implies #[trigger] stack_rects(
            n,
            area,
        )[i].spec_area() == stack_area by {
            assert(stack_rects(n, area)[i] == master_stack_rect(i + 1, n, area));
        }
        lemma_sum_areas_constant(stack_rects(n, area), stack_area);
        assert(sum_areas(rects) == master_area + (n - 1) * stack_area);
        // (n - 1) copies of an equal height share stay within the height.
        lemma_div_mul_le(h, n - 1, n - 1);
        assert((n - 1) * stack_area == half * ((n - 1) * sh)) by (nonlinear_arith)
            requires
                stack_area == half * sh,
        ;
        assert(half * ((n - 1) * sh) <= half * h) by (nonlinear_arith)
            requires
                0 <= half,
                (n - 1) * sh <= h,
        ;
        // Two half widths stay within the width.
        assert(master_area + half * h <= w * h) by (nonlinear_arith)
            requires
                master_area == half * h,
                0 <= h,
                2 * half <= w,
        ;
    }
}

/// One window alone is given the whole area.
pub proof fn lemma_master_stack_single(area: Rect)
    requires
        area.wf(),
    ensures
        master_stack_rect(0, 1, area) == area,
{
}

/// With three windows: the first takes the left half at full height; the
/// other two stack in the right half, each at half the height.
pub proof fn lemma_master_stack_three(area: Rect)
    requires
        area.wf(),
    ensures
        master_stack_rect(0, 3, area) == (Rect {
            loc: area.loc,
            size: Size { w: (area.size.w / 2) as i32, h: area.size.h },
        }),
        master_stack_rect(1, 3, area) == (Rect {
            loc: Point { x: (area.loc.x + area.size.w / 2) as i32, y: area.loc.y },
            size: Size { w: (area.size.w / 2) as i32, h: (area.size.h / 2) as i32 },
        }),
        master_stack_rect(2, 3, area) == (Rect {
            loc: Point {
                x: (area.loc.x + area.size.w / 2) as i32,
                y: (area.loc.y + area.size.h / 2) as i32,
            },
            size: Size { w: (area.size.w / 2) as i32, h: (area.size.h / 2) as i32 },
        }),
{
}

/// Every master-stack rectangle lies within the area it was computed for.
pub proof fn lemma_master_stack_rect_in_zone(i: int, count: int, area: Rect)
    requires
        area.wf(),
        0 <= i < count,
    ensures
        ({
            let r = master_stack_rect(i, count, area);
            &&& area.loc.x <= r.loc.x
            &&& r.loc.x <= area.loc.x + area.size.w
            &&& area.loc.y <= r.loc.y
            &&& r.loc.y <= area.loc.y + area.size.h
            &&& 0 <= r.size.w <= area.size.w
            &&& 0 <= r.size.h <= area.size.h
        }),
{
    let w = area.size.w as int;
    let h = area.size.h as int;
    if count > 1 {
        lemma_div_mul_le(w, 2, 1);
        lemma_div_mul_le(h, count - 1, 1);
        if i > 0 {
            lemma_div_mul_le(h, count - 1, i - 1);
        }
    }
}

} // verus!
