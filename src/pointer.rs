use vstd::prelude::*;
use crate::geometry::{GeometryCache, Point};
use crate::navigation::{single, InputMode, MenuState};
use crate::tree::MenuTree;

verus! {

/// The path after the pointer rests on row `r` of the panel at level `d`: the
/// row becomes the highlight of that panel, deeper panels close, and the row's
/// own panel opens when it has one. Resting on the row whose panel is already
/// open changes nothing; a row that the tree no longer has is ignored.
pub open spec fn hover_row_path<A>(tree: MenuTree<A>, p: Seq<usize>, d: int, r: usize) -> Seq<usize> {
    let panel = tree.panel(p.take(d + 1));
    if p.len() > d + 1 && p[d] == r {
        p
    } else if r < panel.len() {
        if panel[r as int].opens() {
            p.take(d + 1).update(d, r).push(0)
        } else {
            p.take(d + 1).update(d, r)
        }
    } else {
        p
    }
}

/// The pointer keeps the panel opened from row `p[k]` (of the panel at level
/// `k`) alive: it lies on that row, in the corridor right of it, or on the panel
/// it opened.
pub open spec fn touch(g: GeometryCache, p: Seq<usize>, k: int, ptr: Point) -> bool {
    ||| (k - 1 < g.panels@.len() && p[k] < g.panels@[k - 1].rows@.len() && (
    g.panels@[k - 1].rows@[p[k] as int].spec_contains(ptr) || g.panels@[k
        - 1].rows@[p[k] as int].spec_corridor_contains(ptr)))
    ||| (k < g.panels@.len() && g.panels@[k].rect.spec_contains(ptr))
}

/// `(d, r)` is the row that a hover or click at `ptr` lands on among the open
/// panels of `p`: the first row that holds it in the deepest such panel.
pub open spec fn row_target(g: GeometryCache, p: Seq<usize>, ptr: Point, d: int, r: int) -> bool {
    &&& 1 <= d < p.len()
    &&& g.row_hit(d, r, ptr)
    &&& forall|j: int| 0 <= j < r ==> !#[trigger] g.row_hit(d, j, ptr)
    &&& forall|e: int, j: int| d < e < p.len() ==> !#[trigger] g.row_hit(e, j, ptr)
}

pub open spec fn no_row_target(g: GeometryCache, p: Seq<usize>, ptr: Point) -> bool {
    forall|e: int, j: int| 1 <= e < p.len() ==> !#[trigger] g.row_hit(e, j, ptr)
}

/// `q` is what the hover resolver leaves of `p` when the pointer is on no row:
/// the panels that no touch justifies close, outermost panel excepted.
pub open spec fn retracted(g: GeometryCache, p: Seq<usize>, ptr: Point, q: Seq<usize>) -> bool {
    if p.len() < 3 {
        q == p
    } else {
        &&& 2 <= q.len() <= p.len()
        &&& q == p.take(q.len() as int)
        &&& q.len() >= 3 ==> touch(g, p, q.len() - 2, ptr)
        &&& forall|k: int| q.len() - 2 < k <= p.len() - 2 ==> !#[trigger] touch(g, p, k, ptr)
    }
}

/// What a click does to the path, the one-frame guard and the activation token,
/// and the path of the item it activates.
pub struct PointerStep {
    pub path: Seq<usize>,
    pub guard: bool,
    pub token: u64,
    pub activated: Option<Seq<usize>>,
}

/// A click on top-level entry `t`: a plain action fires and nothing stays
/// selected; a drop-down entry toggles its panel, and opening it records the
/// click's id.
pub open spec fn click_top_step<A>(tree: MenuTree<A>, p: Seq<usize>, guard: bool, token: u64, t: usize, id: u64) -> PointerStep {
    let same = PointerStep { path: p, guard, token, activated: None };
    if t < tree.n_simple() {
        PointerStep { path: seq![], activated: Some(seq![t]), ..same }
    } else if p.len() >= 2 && p[0] == t {
        PointerStep { path: seq![t], guard: false, ..same }
    } else if tree.top_opens(t as int) {
        PointerStep { path: seq![t, 0usize], guard: true, token: id, activated: None }
    } else {
        same
    }
}

/// A click on row `r` of the panel at level `d`: an enabled leaf fires and every
/// panel closes; anything else is left to hover.
pub open spec fn click_row_step<A>(tree: MenuTree<A>, p: Seq<usize>, guard: bool, token: u64, d: int, r: usize) -> PointerStep {
    let panel = tree.panel(p.take(d + 1));
    if r < panel.len() && panel[r as int].enabled && panel[r as int].children@.len() == 0 {
        PointerStep { path: seq![p[0]], guard, token, activated: Some(p.take(d + 1).update(d, r)) }
    } else {
        PointerStep { path: p, guard, token, activated: None }
    }
}

/// A click outside every menu region closes the panels, unless it is the very
/// click that opened them.
pub open spec fn outside_click_step(p: Seq<usize>, guard: bool, token: u64, id: u64) -> PointerStep {
    if p.len() >= 2 && id > token {
        PointerStep { path: p.take(1), guard, token, activated: None }
    } else {
        PointerStep { path: p, guard, token, activated: None }
    }
}

impl MenuState {
    pub open spec fn open_depth(&self) -> nat {
        if self.path@.len() == 0 {
            0
        } else {
            (self.path@.len() - 1) as nat
        }
    }

    /// The pointer rests on row `r` of the open panel at level `d`.
    pub fn hover_row<A>(&mut self, tree: &MenuTree<A>, d: usize, r: usize)
        requires
            old(self).wf(tree),
            1 <= d < old(self).path@.len(),
        ensures
            final(self).path@ == hover_row_path(*tree, old(self).path@, d as int, r),
            final(self).mode == old(self).mode,
            final(self).submenu_just_opened == old(self).submenu_just_opened,
            final(self).last_activation_token == old(self).last_activation_token,
            final(self).wf(tree),
    {
        let ghost p = self.path@;
        let len = self.path.len();
        if len > d + 1 && self.path[d] == r {
            return;
        }
        let panel = tree.panel_prefix(&self.path, d + 1);
        if r < panel.len() {
            let opens = panel[r].enabled && panel[r].children.len() > 0;
            let ghost q = p.take(d + 1).update(d as int, r);
            proof {
                tree.lemma_prefix(p, d + 1);
                tree.lemma_set_last(p.take(d + 1), r);
                if opens {
                    tree.lemma_push(q);
                }
            }
            self.path.truncate(d + 1);
            self.path.set(d, r);
            assert(self.path@ =~= q);
            if opens {
                self.path.push(0);
            }
        }
    }

    pub fn touches(&self, g: &GeometryCache, k: usize, ptr: Point) -> (b: bool)
        requires
            1 <= k < self.path@.len(),
        ensures
            b == touch(*g, self.path@, k as int, ptr),
    {
        let i = self.path[k];
        if k - 1 < g.panels.len() && i < g.panels[k - 1].rows.len() {
            let row = &g.panels[k - 1].rows[i];
            if row.contains(ptr) || row.corridor_contains(ptr) {
                return true;
            }
        }
        k < g.panels.len() && g.panels[k].rect.contains(ptr)
    }

    /// The pointer is on no row: close each nested panel that the pointer no
    /// longer justifies, keeping those that lead to a justified one.
    pub fn retract<A>(&mut self, tree: &MenuTree<A>, g: &GeometryCache, ptr: Point)
        requires
            old(self).wf(tree),
        ensures
            retracted(*g, old(self).path@, ptr, final(self).path@),
            final(self).mode == old(self).mode,
            final(self).submenu_just_opened == old(self).submenu_just_opened,
            final(self).last_activation_token == old(self).last_activation_token,
            final(self).wf(tree),
    {
        let ghost p = self.path@;
        let len = self.path.len();
        if len < 3 {
            return;
        }
        let mut k: usize = len - 2;
        while k > 0 && !self.touches(g, k, ptr)
            invariant
                k <= len - 2,
                len == self.path@.len(),
                self.path@ == p,
                forall|j: int| k < j <= len - 2 ==> !#[trigger] touch(*g, p, j, ptr),
            decreases k,
        {
            k = k - 1;
        }
        proof {
            tree.lemma_prefix(p, k + 2);
        }
        self.path.truncate(k + 2);
        assert(self.path@ == p.take(self.path@.len() as int));
    }

    /// One frame of pointer hover. Only pointer-driven mode lets hover open or
    /// close nested panels; the outermost panel opens and closes by clicks.
    pub fn hover<A>(&mut self, tree: &MenuTree<A>, g: &GeometryCache, ptr: Point)
        requires
            old(self).wf(tree),
        ensures
            old(self).mode == InputMode::Keyboard || old(self).path@.len() < 2 ==> final(self).path@
                == old(self).path@,
            old(self).mode == InputMode::Mouse && old(self).path@.len() >= 2 ==> {
                ||| exists|d: int, r: int|
                    row_target(*g, old(self).path@, ptr, d, r) && final(self).path@
                        == hover_row_path(*tree, old(self).path@, d, r as usize)
                ||| no_row_target(*g, old(self).path@, ptr) && retracted(
                    *g,
                    old(self).path@,
                    ptr,
                    final(self).path@,
                )
            },
            final(self).mode == old(self).mode,
            final(self).submenu_just_opened == old(self).submenu_just_opened,
            final(self).last_activation_token == old(self).last_activation_token,
            final(self).wf(tree),
    {
        let len = self.path.len();
        if self.mode == InputMode::Keyboard || len < 2 {
            return;
        }
        let ghost p = self.path@;
        match g.find_row(len - 1, ptr) {
            Some((d, r)) => {
                assert(row_target(*g, p, ptr, d as int, r as int));
                self.hover_row(tree, d, r);
            },
            None => {
                assert(no_row_target(*g, p, ptr));
                self.retract(tree, g, ptr);
            },
        }
    }

    /// A click on top-level entry `t`; returns the path of the action it fires.
    pub fn click_top<A>(&mut self, tree: &MenuTree<A>, t: usize, id: u64) -> (act: Option<Vec<usize>>)
        requires
            old(self).wf(tree),
            t < tree.n_top(),
        ensures
            ({
                let s = click_top_step(*tree, old(self).path@, old(self).submenu_just_opened, old(self).last_activation_token, t, id);
                &&& final(self).path@ == s.path
                &&& final(self).submenu_just_opened == s.guard
                &&& final(self).last_activation_token == s.token
                &&& act.is_some() == s.activated.is_some()
                &&& act.is_some() ==> act.unwrap()@ == s.activated.unwrap()
            }),
            final(self).mode == old(self).mode,
            final(self).wf(tree),
            act.is_some() ==> tree.valid_path(act.unwrap()@),
    {
        let len = self.path.len();
        if t < tree.menu_items.len() {
            self.path = Vec::new();
            assert(self.path@ =~= seq![]);
            Some(single(t))
        } else if len >= 2 && self.path[0] == t {
            self.path = single(t);
            self.submenu_just_opened = false;
            None
        } else if tree.top_opens_exec(t) {
            let mut v = single(t);
            v.push(0);
            assert(v@ =~= seq![t, 0usize]);
            assert(v@.drop_first() =~= seq![0usize]);
            self.path = v;
            self.submenu_just_opened = true;
            self.last_activation_token = id;
            None
        } else {
            None
        }
    }

    /// A click on row `r` of the open panel at level `d`; returns the path of the
    /// item it fires.
    pub fn click_row<A>(&mut self, tree: &MenuTree<A>, d: usize, r: usize) -> (act: Option<Vec<usize>>)
        requires
            old(self).wf(tree),
            1 <= d < old(self).path@.len(),
        ensures
            ({
                let s = click_row_step(*tree, old(self).path@, old(self).submenu_just_opened, old(self).last_activation_token, d as int, r);
                &&& final(self).path@ == s.path
                &&& final(self).submenu_just_opened == s.guard
                &&& final(self).last_activation_token == s.token
                &&& act.is_some() == s.activated.is_some()
                &&& act.is_some() ==> act.unwrap()@ == s.activated.unwrap()
            }),
            final(self).mode == old(self).mode,
            final(self).wf(tree),
            act.is_some() ==> tree.valid_path(act.unwrap()@),
    {
        let ghost p = self.path@;
        let len = self.path.len();
        assert(d + 1 <= len);
        let panel = tree.panel_prefix(&self.path, d + 1);
        if r < panel.len() && panel[r].enabled && panel[r].children.len() == 0 {
            proof {
                tree.lemma_prefix(p, d + 1);
                tree.lemma_set_last(p.take(d + 1), r);
                tree.lemma_prefix(p, 1);
            }
            let t = self.path[0];
            let mut fired = single(t);
            std::mem::swap(&mut self.path, &mut fired);
            fired.truncate(d + 1);
            fired.set(d, r);
            assert(self.path@ =~= seq![p[0]]);
            assert(self.path@ =~= p.take(1));
            Some(fired)
        } else {
            None
        }
    }

    /// A click outside the menu bar and every open panel, by click `id`.
    pub fn outside_click(&mut self, id: u64)
        ensures
            ({
                let s = outside_click_step(old(self).path@, old(self).submenu_just_opened, old(self).last_activation_token, id);
                &&& final(self).path@ == s.path
                &&& final(self).submenu_just_opened == s.guard
                &&& final(self).last_activation_token == s.token
            }),
            final(self).mode == old(self).mode,
    {
        if self.path.len() >= 2 && id > self.last_activation_token {
            self.path.truncate(1);
        }
    }
}

} // verus!
