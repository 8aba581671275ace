use vstd::prelude::*;

verus! {

/// Width of the strip that bridges a row's right edge and its child panel.
pub const CORRIDOR_WIDTH: i32 = 10;

/// How far the corridor reaches above and below the row.
pub const CORRIDOR_PAD: i32 = 6;

/// A screen position in whole logical pixels.
#[derive(Clone, Copy, PartialEq, Eq, Structural, Debug)]
pub struct Point {
    pub x: i32,
    pub y: i32,
}

/// An axis-aligned rectangle; both edges belong to it.
#[derive(Clone, Copy, PartialEq, Eq, Structural, Debug)]
pub struct Rect {
    pub min_x: i32,
    pub min_y: i32,
    pub max_x: i32,
    pub max_y: i32,
}

impl Rect {
    pub open spec fn spec_contains(&self, p: Point) -> bool {
        self.min_x <= p.x <= self.max_x && self.min_y <= p.y <= self.max_y
    }

    /// The strip right of this row that leads into its child panel.
    pub open spec fn spec_corridor_contains(&self, p: Point) -> bool {
        &&& self.max_x <= p.x <= self.max_x + CORRIDOR_WIDTH
        &&& self.min_y - CORRIDOR_PAD <= p.y <= self.max_y + CORRIDOR_PAD
    }

    pub fn contains(&self, p: Point) -> (r: bool)
        ensures
            r == self.spec_contains(p),
    {
        self.min_x <= p.x && p.x <= self.max_x && self.min_y <= p.y && p.y <= self.max_y
    }

    pub fn corridor_contains(&self, p: Point) -> (r: bool)
        ensures
            r == self.spec_corridor_contains(p),
    {
        let x = p.x as i64;
        let y = p.y as i64;
        (self.max_x as i64) <= x && x <= (self.max_x as i64) + (CORRIDOR_WIDTH as i64) && (
        self.min_y as i64) - (CORRIDOR_PAD as i64) <= y && y <= (self.max_y as i64) + (
        CORRIDOR_PAD as i64)
    }
}

/// Where one open panel and its rows were painted.
pub struct PanelGeometry {
    pub rect: Rect,
    pub rows: Vec<Rect>,
}

/// The rectangles painted in the previous frame: the menu bar, each top-level
/// entry, and each open panel, outermost first.
pub struct GeometryCache {
    pub bar: Rect,
    pub top_items: Vec<Rect>,
    pub panels: Vec<PanelGeometry>,
}

impl GeometryCache {
    /// Nothing painted yet.
    pub fn new() -> (r: Self)
        ensures
            r.top_items@.len() == 0,
            r.panels@.len() == 0,
            r.bar == (Rect { min_x: 0, min_y: 0, max_x: 0, max_y: 0 }),
    {
        GeometryCache {
            bar: Rect { min_x: 0, min_y: 0, max_x: 0, max_y: 0 },
            top_items: Vec::new(),
            panels: Vec::new(),
        }
    }

    /// Row `r` of the panel at level `d` (1 for the outermost) holds `p`.
    pub open spec fn row_hit(&self, d: int, r: int, p: Point) -> bool {
        &&& 1 <= d <= self.panels@.len()
        &&& 0 <= r < self.panels@[d - 1].rows@.len()
        &&& self.panels@[d - 1].rows@[r].spec_contains(p)
    }

    /// Top-level entry `t` holds `p`.
    pub open spec fn top_hit(&self, t: int, p: Point) -> bool {
        0 <= t < self.top_items@.len() && self.top_items@[t].spec_contains(p)
    }

    /// `p` lies on the menu bar or on one of the first `depth` panels.
    pub open spec fn inside_menus(&self, depth: int, p: Point) -> bool {
        self.bar.spec_contains(p) || exists|k: int|
            0 <= k < depth && k < self.panels@.len() && #[trigger] self.panels@[k].rect.spec_contains(p)
    }

    /// The first top-level entry that holds `p`.
    pub fn find_top(&self, p: Point) -> (r: Option<usize>)
        ensures
            r.is_some() ==> self.top_hit(r.unwrap() as int, p) && forall|t: int|
                0 <= t < r.unwrap() ==> !#[trigger] self.top_hit(t, p),
            r.is_none() ==> forall|t: int| !#[trigger] self.top_hit(t, p),
    {
        let mut t: usize = 0;
        while t < self.top_items.len()
            invariant
                t <= self.top_items@.len(),
                forall|u: int| 0 <= u < t ==> !#[trigger] self.top_hit(u, p),
            decreases self.top_items@.len() - t,
        {
            if self.top_items[t].contains(p) {
                return Some(t);
            }
            t = t + 1;
        }
        None
    }

    /// The first row that holds `p` in the deepest of the panels at levels
    /// `1..=depth` where any row does.
    pub fn find_row(&self, depth: usize, p: Point) -> (r: Option<(usize, usize)>)
        ensures
            r.is_some() ==> {
                let (d, i) = r.unwrap();
                &&& 1 <= d <= depth
                &&& self.row_hit(d as int, i as int, p)
                &&& forall|j: int| 0 <= j < i ==> !#[trigger] self.row_hit(d as int, j, p)
                &&& forall|e: int, j: int| d < e <= depth ==> !#[trigger] self.row_hit(e, j, p)
            },
            r.is_none() ==> forall|e: int, j: int| 1 <= e <= depth ==> !#[trigger] self.row_hit(e, j, p),
    {
        let mut d: usize = if depth < self.panels.len() {
            depth
        } else {
            self.panels.len()
        };
        while d > 0
            invariant
                d <= depth,
                d <= self.panels@.len(),
                forall|e: int, j: int| d < e <= depth ==> !#[trigger] self.row_hit(e, j, p),
            decreases d,
        {
            let rows = &self.panels[d - 1].rows;
            let mut i: usize = 0;
            while i < rows.len()
                invariant
                    1 <= d <= self.panels@.len(),
                    d <= depth,
                    forall|e: int, j: int| d < e <= depth ==> !#[trigger] self.row_hit(e, j, p),
                    rows == &self.panels@[d - 1].rows,
                    i <= rows@.len(),
                    forall|j: int| 0 <= j < i ==> !#[trigger] self.row_hit(d as int, j, p),
                decreases rows@.len() - i,
            {
                if rows[i].contains(p) {
                    return Some((d, i));
                }
                i = i + 1;
            }
            d = d - 1;
        }
        None
    }

    /// Whether `p` lies on the menu bar or on one of the first `depth` panels.
    pub fn is_inside_menus(&self, depth: usize, p: Point) -> (r: bool)
        ensures
            r == self.inside_menus(depth as int, p),
    {
        if self.bar.contains(p) {
            return true;
        }
        let mut k: usize = 0;
        while k < depth && k < self.panels.len()
            invariant
                k <= depth,
                k <= self.panels@.len(),
                forall|u: int| 0 <= u < k ==> !#[trigger] self.panels@[u].rect.spec_contains(p),
            decreases depth - k,
        {
            if self.panels[k].rect.contains(p) {
                return true;
            }
            k = k + 1;
        }
        false
    }
}

} // verus!
