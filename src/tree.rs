use vstd::prelude::*;
use crate::items::{MenuItem, SubMenuItem};

verus! {

/// `p` walks down from `items`: each index is in range, and every index but the
/// last names an item that opens a nested panel.
pub open spec fn valid_in<A>(items: Seq<SubMenuItem<A>>, p: Seq<usize>) -> bool
    decreases p.len(),
{
    if p.len() == 0 {
        true
    } else {
        &&& p[0] < items.len()
        &&& (p.len() == 1 || (items[p[0] as int].opens() && valid_in(
            items[p[0] as int].children@,
            p.drop_first(),
        )))
    }
}

/// `p` walks down from `items` by indices in range, whatever the items'
/// enabled flags.
pub open spec fn reaches<A>(items: Seq<SubMenuItem<A>>, p: Seq<usize>) -> bool
    decreases p.len(),
{
    if p.len() == 0 {
        true
    } else {
        p[0] < items.len() && (p.len() == 1 || reaches(items[p[0] as int].children@, p.drop_first()))
    }
}

/// The panel that holds the last index of `p`.
pub open spec fn panel_of<A>(items: Seq<SubMenuItem<A>>, p: Seq<usize>) -> Seq<SubMenuItem<A>>
    decreases p.len(),
{
    if p.len() <= 1 {
        items
    } else {
        panel_of(items[p[0] as int].children@, p.drop_first())
    }
}

pub proof fn lemma_prefix_valid<A>(items: Seq<SubMenuItem<A>>, p: Seq<usize>, n: int)
    requires
        valid_in(items, p),
        1 <= n <= p.len(),
    ensures
        valid_in(items, p.take(n)),
    decreases p.len(),
{
    if n > 1 {
        lemma_prefix_valid(items[p[0] as int].children@, p.drop_first(), n - 1);
        assert(p.take(n).drop_first() =~= p.drop_first().take(n - 1));
    }
}

pub proof fn lemma_last_in_panel<A>(items: Seq<SubMenuItem<A>>, p: Seq<usize>)
    requires
        valid_in(items, p),
        p.len() >= 1,
    ensures
        p.last() < panel_of(items, p).len(),
    decreases p.len(),
{
    if p.len() > 1 {
        assert(p.drop_first().last() == p.last());
        lemma_last_in_panel(items[p[0] as int].children@, p.drop_first());
    }
}

pub proof fn lemma_push_child<A>(items: Seq<SubMenuItem<A>>, p: Seq<usize>, j: usize)
    requires
        valid_in(items, p),
        p.len() >= 1,
        panel_of(items, p)[p.last() as int].opens(),
        j < panel_of(items, p)[p.last() as int].children@.len(),
    ensures
        valid_in(items, p.push(j)),
        panel_of(items, p.push(j)) == panel_of(items, p)[p.last() as int].children@,
    decreases p.len(),
{
    assert(p.push(j)[0] == p[0]);
    if p.len() > 1 {
        assert(p.drop_first().last() == p.last());
        lemma_push_child(items[p[0] as int].children@, p.drop_first(), j);
        assert(p.push(j).drop_first() =~= p.drop_first().push(j));
    } else {
        assert(p.push(j).drop_first() =~= seq![j]);
        assert(valid_in(items[p[0] as int].children@, seq![j]));
        assert(panel_of(items[p[0] as int].children@, seq![j]) == items[p[0] as int].children@);
    }
}

pub proof fn lemma_push_child_converse<A>(items: Seq<SubMenuItem<A>>, p: Seq<usize>, j: usize)
    requires
        valid_in(items, p.push(j)),
        p.len() >= 1,
    ensures
        panel_of(items, p)[p.last() as int].opens(),
        j < panel_of(items, p)[p.last() as int].children@.len(),
    decreases p.len(),
{
    assert(p.push(j)[0] == p[0]);
    if p.len() > 1 {
        assert(p.drop_first().last() == p.last());
        assert(p.push(j).drop_first() =~= p.drop_first().push(j));
        lemma_push_child_converse(items[p[0] as int].children@, p.drop_first(), j);
    } else {
        assert(p.push(j).drop_first() =~= seq![j]);
        assert(valid_in(items[p[0] as int].children@, seq![j]));
        assert(seq![j][0] == j);
    }
}

pub proof fn lemma_update_last<A>(items: Seq<SubMenuItem<A>>, p: Seq<usize>, j: usize)
    requires
        valid_in(items, p),
        p.len() >= 1,
        j < panel_of(items, p).len(),
    ensures
        valid_in(items, p.update(p.len() - 1, j)),
        panel_of(items, p.update(p.len() - 1, j)) == panel_of(items, p),
    decreases p.len(),
{
    if p.len() > 1 {
        lemma_update_last(items[p[0] as int].children@, p.drop_first(), j);
        assert(p.update(p.len() - 1, j).drop_first() =~= p.drop_first().update(
            p.len() - 2,
            j,
        ));
    }
}

/// The configured menus: plain top-level actions first, then the entries with a
/// drop-down panel. A top-level index counts across both lists in that order.
pub struct MenuTree<A> {
    pub menu_items: Vec<(String, Option<A>)>,
    pub menu_items_with_submenus: Vec<MenuItem<A>>,
}

impl<A> MenuTree<A> {
    pub open spec fn n_simple(&self) -> nat {
        self.menu_items@.len()
    }

    pub open spec fn n_top(&self) -> nat {
        self.menu_items@.len() + self.menu_items_with_submenus@.len()
    }

    pub open spec fn entry(&self, t: int) -> MenuItem<A> {
        self.menu_items_with_submenus@[t - self.n_simple()]
    }

    /// Top-level entry `t` opens a non-empty, enabled drop-down panel.
    pub open spec fn top_opens(&self, t: int) -> bool {
        &&& self.n_simple() <= t < self.n_top()
        &&& self.entry(t).enabled
        &&& self.entry(t).subitems@.len() > 0
    }

    pub open spec fn top_panel(&self, t: int) -> Seq<SubMenuItem<A>> {
        self.entry(t).subitems@
    }

    /// A selection path: a top-level index, then the highlighted index in each
    /// open panel, outermost first.
    pub open spec fn valid_path(&self, p: Seq<usize>) -> bool {
        p.len() == 0 || (p[0] < self.n_top() && (p.len() == 1 || (self.top_opens(p[0] as int)
            && valid_in(self.top_panel(p[0] as int), p.drop_first()))))
    }

    /// `p` names an item of some drop-down panel: a drop-down entry, then
    /// indices in range, with no regard to which items are enabled.
    pub open spec fn names_item(&self, p: Seq<usize>) -> bool {
        &&& p.len() >= 2
        &&& self.n_simple() <= p[0] < self.n_top()
        &&& reaches(self.top_panel(p[0] as int), p.drop_first())
    }

    /// The panel that holds the last index of a path of length two or more.
    pub open spec fn panel(&self, p: Seq<usize>) -> Seq<SubMenuItem<A>> {
        panel_of(self.top_panel(p[0] as int), p.drop_first())
    }

    /// The highlighted item of the innermost open panel.
    pub open spec fn cursor(&self, p: Seq<usize>) -> SubMenuItem<A> {
        self.panel(p)[p.last() as int]
    }

    pub proof fn lemma_prefix(&self, p: Seq<usize>, n: int)
        requires
            self.valid_path(p),
            0 <= n <= p.len(),
        ensures
            self.valid_path(p.take(n)),
    {
        if n >= 2 {
            lemma_prefix_valid(self.top_panel(p[0] as int), p.drop_first(), n - 1);
            assert(p.take(n).drop_first() =~= p.drop_first().take(n - 1));
        }
        if n == 1 {
            assert(p.take(n)[0] == p[0]);
        }
    }

    pub proof fn lemma_cursor(&self, p: Seq<usize>)
        requires
            self.valid_path(p),
            p.len() >= 2,
        ensures
            p.last() < self.panel(p).len(),
    {
        assert(p.drop_first().last() == p.last());
        lemma_last_in_panel(self.top_panel(p[0] as int), p.drop_first());
    }

    pub proof fn lemma_push(&self, p: Seq<usize>)
        requires
            self.valid_path(p),
            p.len() >= 2,
            self.cursor(p).opens(),
        ensures
            self.valid_path(p.push(0)),
            self.panel(p.push(0)) == self.cursor(p).children@,
    {
        self.lemma_push_at(p, 0);
    }

    /// A path extends by one index exactly when its cursor opens a panel that
    /// has that index.
    pub proof fn lemma_push_at(&self, p: Seq<usize>, j: usize)
        requires
            self.valid_path(p),
            p.len() >= 2,
        ensures
            self.valid_path(p.push(j)) <==> (self.cursor(p).opens() && j
                < self.cursor(p).children@.len()),
            self.valid_path(p.push(j)) ==> self.panel(p.push(j)) == self.cursor(p).children@,
    {
        assert(p.push(j).drop_first() =~= p.drop_first().push(j));
        assert(p.drop_first().last() == p.last());
        assert(p.push(j)[0] == p[0]);
        if self.cursor(p).opens() && j < self.cursor(p).children@.len() {
            lemma_push_child(self.top_panel(p[0] as int), p.drop_first(), j);
        }
        if self.valid_path(p.push(j)) {
            lemma_push_child_converse(self.top_panel(p[0] as int), p.drop_first(), j);
            lemma_push_child(self.top_panel(p[0] as int), p.drop_first(), j);
        }
    }

    pub proof fn lemma_set_last(&self, p: Seq<usize>, j: usize)
        requires
            self.valid_path(p),
            p.len() >= 2,
            j < self.panel(p).len(),
        ensures
            self.valid_path(p.update(p.len() - 1, j)),
            self.panel(p.update(p.len() - 1, j)) == self.panel(p),
    {
        lemma_update_last(self.top_panel(p[0] as int), p.drop_first(), j);
        assert(p.update(p.len() - 1, j).drop_first() =~= p.drop_first().update(
            p.len() - 2,
            j,
        ));
    }

    /// The panel that holds the last index of `p`.
    pub fn panel_exec(&self, p: &Vec<usize>) -> (r: &Vec<SubMenuItem<A>>)
        requires
            self.valid_path(p@),
            p@.len() >= 2,
        ensures
            r@ == self.panel(p@),
    {
        assert(p@.take(p@.len() as int) =~= p@);
        self.panel_prefix(p, p.len())
    }

    /// The panel at level `n - 1`: the one that holds index `n - 1` of `p`.
    pub fn panel_prefix(&self, p: &Vec<usize>, n: usize) -> (r: &Vec<SubMenuItem<A>>)
        requires
            self.valid_path(p@),
            2 <= n <= p@.len(),
        ensures
            r@ == self.panel(p@.take(n as int)),
    {
        let ghost q = p@.take(n as int);
        proof {
            self.lemma_prefix(p@, n as int);
        }
        let ns = self.menu_items.len();
        let mut cur: &Vec<SubMenuItem<A>> = &self.menu_items_with_submenus[p[0] - ns].subitems;
        let mut k: usize = 1;
        assert(q.subrange(1, n as int) =~= q.drop_first());
        while k < n - 1
            invariant
                1 <= k < n,
                n <= p@.len(),
                q == p@.take(n as int),
                valid_in(cur@, q.subrange(k as int, n as int)),
                panel_of(cur@, q.subrange(k as int, n as int)) == self.panel(q),
            decreases n - k,
        {
            let ghost s = q.subrange(k as int, n as int);
            assert(s.drop_first() =~= q.subrange(k + 1, n as int));
            assert(s[0] == p@[k as int]);
            cur = &cur[p[k]].children;
            k = k + 1;
        }
        cur
    }

    /// The item that `p` names, enabled or not.
    pub fn item_at(&self, p: &Vec<usize>) -> (r: Option<&SubMenuItem<A>>)
        ensures
            r.is_some() == self.names_item(p@),
            r.is_some() ==> *r.unwrap() == self.cursor(p@),
    {
        let len = p.len();
        if len < 2 {
            return None;
        }
        let t = p[0];
        let ns = self.menu_items.len();
        if t < ns || t - ns >= self.menu_items_with_submenus.len() {
            return None;
        }
        let mut cur: &Vec<SubMenuItem<A>> = &self.menu_items_with_submenus[t - ns].subitems;
        let mut k: usize = 1;
        assert(p@.subrange(1, len as int) =~= p@.drop_first());
        while k < len - 1
            invariant
                1 <= k < len,
                len == p@.len(),
                self.n_simple() <= p@[0] < self.n_top(),
                self.names_item(p@) == reaches(cur@, p@.subrange(k as int, len as int)),
                panel_of(cur@, p@.subrange(k as int, len as int)) == self.panel(p@),
            decreases len - k,
        {
            let ghost q = p@.subrange(k as int, len as int);
            assert(q[0] == p@[k as int]);
            assert(q.drop_first() =~= p@.subrange(k + 1, len as int));
            if p[k] >= cur.len() {
                return None;
            }
            cur = &cur[p[k]].children;
            k = k + 1;
        }
        let ghost q = p@.subrange(k as int, len as int);
        assert(q =~= seq![p@[k as int]]);
        assert(p@.last() == p@[k as int]);
        if p[k] < cur.len() {
            Some(&cur[p[k]])
        } else {
            None
        }
    }

    /// Whether `p` is a path of this tree.
    pub fn is_valid_path(&self, p: &Vec<usize>) -> (r: bool)
        ensures
            r == self.valid_path(p@),
    {
        let len = p.len();
        if len == 0 {
            return true;
        }
        let t = p[0];
        if !self.top_count_exceeds(t) {
            return false;
        }
        if len == 1 {
            return true;
        }
        let ns = self.menu_items.len();
        if !self.top_opens_exec(t) {
            return false;
        }
        let mut cur: &Vec<SubMenuItem<A>> = &self.menu_items_with_submenus[t - ns].subitems;
        let mut k: usize = 1;
        assert(p@.subrange(1, len as int) =~= p@.drop_first());
        while k < len
            invariant
                1 <= k <= len,
                len == p@.len(),
                self.valid_path(p@) == valid_in(cur@, p@.subrange(k as int, len as int)),
            decreases len - k,
        {
            let ghost q = p@.subrange(k as int, len as int);
            assert(q[0] == p@[k as int]);
            if p[k] >= cur.len() {
                return false;
            }
            if k + 1 == len {
                assert(q.len() == 1);
                return true;
            }
            let it = &cur[p[k]];
            if !(it.enabled && it.children.len() > 0) {
                return false;
            }
            assert(q.drop_first() =~= p@.subrange(k + 1, len as int));
            cur = &it.children;
            k = k + 1;
        }
        assert(p@.subrange(len as int, len as int) =~= seq![]);
        true
    }

    /// More than `k` top-level entries exist.
    pub fn top_count_exceeds(&self, k: usize) -> (r: bool)
        ensures
            r == (self.n_top() > k),
    {
        let ns = self.menu_items.len();
        if k < ns {
            true
        } else {
            k - ns < self.menu_items_with_submenus.len()
        }
    }

    pub fn top_opens_exec(&self, t: usize) -> (r: bool)
        ensures
            r == self.top_opens(t as int),
    {
        let ns = self.menu_items.len();
        if t < ns || t - ns >= self.menu_items_with_submenus.len() {
            false
        } else {
            let e = &self.menu_items_with_submenus[t - ns];
            e.enabled && e.subitems.len() > 0
        }
    }
}

} // verus!
