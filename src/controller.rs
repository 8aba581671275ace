use vstd::prelude::*;
use crate::geometry::{GeometryCache, Point};
use crate::items::{KeyChord, MenuItem, SubMenuItem};
use crate::navigation::{key_step, InputMode, MenuState, NavKey};
use crate::pointer::{
    click_row_step,
    click_top_step,
    hover_row_path,
    no_row_target,
    outside_click_step,
    retracted,
    row_target,
    PointerStep,
};
use crate::shortcuts::{
    collect_shortcuts,
    distinct_from,
    fires_by_shortcut,
    hit_under,
    lemma_fires_by_shortcut,
    shortcut_hit,
};
use crate::navigation::single;
use crate::tree::MenuTree;

verus! {

/// The state after a run of navigation keys, and the paths they activated.
pub struct NavRun {
    pub mode: InputMode,
    pub path: Seq<usize>,
    pub guard: bool,
    pub acts: Seq<Seq<usize>>,
}

/// The navigation keys of one frame, applied in order.
pub open spec fn keys_run<A>(
    tree: MenuTree<A>,
    mode: InputMode,
    p: Seq<usize>,
    guard: bool,
    keys: Seq<NavKey>,
) -> NavRun
    decreases keys.len(),
{
    if keys.len() == 0 {
        NavRun { mode, path: p, guard, acts: seq![] }
    } else {
        let r = keys_run(tree, mode, p, guard, keys.drop_last());
        let s = key_step(tree, r.mode, r.path, r.guard, keys.last());
        NavRun {
            mode: s.mode,
            path: s.path,
            guard: s.guard,
            acts: match s.activated {
                Some(a) => r.acts.push(a),
                None => r.acts,
            },
        }
    }
}

/// Escape decides the frame: it is among the keys, and keyboard navigation is
/// on at some point of the frame (on when it starts, or turned on by Alt or
/// Ctrl+F2 in it).
pub open spec fn escapes(mode: InputMode, keys: Seq<NavKey>) -> bool {
    keys.contains(NavKey::Escape) && (mode == InputMode::Keyboard || keys.contains(NavKey::Activate))
}

/// The navigation keys of one frame. When Escape decides the frame, the frame
/// ends with nothing selected, keyboard navigation off and nothing activated,
/// whatever the other keys are and in whatever order; otherwise the keys apply
/// in order, starting with the one-frame guard clear.
pub open spec fn frame_keys<A>(tree: MenuTree<A>, mode: InputMode, p: Seq<usize>, keys: Seq<NavKey>) -> NavRun {
    if escapes(mode, keys) {
        NavRun { mode: InputMode::Mouse, path: seq![], guard: false, acts: seq![] }
    } else {
        keys_run(tree, mode, p, false, keys)
    }
}

/// Whether `k` is among `keys`.
pub fn has_key(keys: &Vec<NavKey>, k: NavKey) -> (r: bool)
    ensures
        r == keys@.contains(k),
{
    let mut i: usize = 0;
    while i < keys.len()
        invariant
            i <= keys@.len(),
            forall|j: int| 0 <= j < i ==> keys@[j] != k,
        decreases keys@.len() - i,
    {
        if keys[i] == k {
            assert(keys@[i as int] == k);
            return true;
        }
        i = i + 1;
    }
    false
}

/// The paths held by a list of vectors.
pub open spec fn views(v: Seq<Vec<usize>>) -> Seq<Seq<usize>> {
    v.map_values(|x: Vec<usize>| x@)
}

/// `q` is the longest prefix of `p` that is still a path of the tree.
pub open spec fn revalidated<A>(tree: MenuTree<A>, p: Seq<usize>, q: Seq<usize>) -> bool {
    &&& q.len() <= p.len()
    &&& q == p.take(q.len() as int)
    &&& tree.valid_path(q)
    &&& q.len() < p.len() ==> !tree.valid_path(p.take(q.len() as int + 1))
}

/// The hover resolver's effect on the path, as `MenuState::hover` performs it.
pub open spec fn hover_rel<A>(
    tree: MenuTree<A>,
    g: GeometryCache,
    ptr: Point,
    mode: InputMode,
    p: Seq<usize>,
    q: Seq<usize>,
) -> bool {
    if mode == InputMode::Keyboard || p.len() < 2 {
        q == p
    } else {
        ||| exists|d: int, r: int|
            row_target(g, p, ptr, d, r) && q == hover_row_path(tree, p, d, r as usize)
        ||| no_row_target(g, p, ptr) && retracted(g, p, ptr, q)
    }
}

/// What a primary click at `ptr` does: on a top-level entry, on a row of an open
/// panel, outside every menu region, or elsewhere on the menus (nothing).
pub open spec fn click_rel<A>(
    tree: MenuTree<A>,
    g: GeometryCache,
    ptr: Point,
    id: u64,
    p: Seq<usize>,
    guard: bool,
    token: u64,
    s: PointerStep,
) -> bool {
    let same = PointerStep { path: p, guard, token, activated: None };
    let depth = if p.len() == 0 { 0 } else { p.len() - 1 };
    ||| exists|t: int|
        g.top_hit(t, ptr) && (forall|u: int| 0 <= u < t ==> !#[trigger] g.top_hit(u, ptr)) && s == (
        if t < tree.n_top() {
            click_top_step(tree, p, guard, token, t as usize, id)
        } else {
            same
        })
    ||| (forall|u: int| !#[trigger] g.top_hit(u, ptr)) && exists|d: int, r: int|
        row_target(g, p, ptr, d, r) && s == click_row_step(tree, p, guard, token, d, r as usize)
    ||| (forall|u: int| !#[trigger] g.top_hit(u, ptr)) && no_row_target(g, p, ptr) && (if g.inside_menus(
        depth,
        ptr,
    ) {
        s == same
    } else {
        s == outside_click_step(p, guard, token, id)
    })
}

/// What one frame produced: the paths of the items that fired, shortcut hits
/// first, then the item activated by navigation keys and clicks.
pub struct FrameOutput {
    pub shortcuts: Vec<Vec<usize>>,
    pub activations: Vec<Vec<usize>>,
}

/// After the selection `q0` survived revalidation, the rest of a frame: the
/// navigation keys, then hover and the click, against the previous frame's
/// geometry; `acts` holds the paths activated on the way.
pub open spec fn frame_rest<A>(
    tree: MenuTree<A>,
    g: GeometryCache,
    mode: InputMode,
    q0: Seq<usize>,
    token: u64,
    keys: Seq<NavKey>,
    pointer: Option<Point>,
    click: Option<u64>,
    final_mode: InputMode,
    final_path: Seq<usize>,
    final_token: u64,
    acts: Seq<Seq<usize>>,
) -> bool {
    let r = frame_keys(tree, mode, q0, keys);
    &&& final_mode == r.mode
    &&& match pointer {
        None => final_path == r.path && final_token == token && acts == r.acts,
        Some(ptr) => exists|q1: Seq<usize>|
            #![trigger hover_rel(tree, g, ptr, r.mode, r.path, q1)]
            hover_rel(tree, g, ptr, r.mode, r.path, q1) && match click {
                None => final_path == q1 && final_token == token && acts == r.acts,
                Some(id) => exists|s: PointerStep|
                    #![trigger click_rel(tree, g, ptr, id, q1, false, token, s)]
                    click_rel(tree, g, ptr, id, q1, false, token, s) && final_path == s.path
                        && final_token == s.token && acts == match s.activated {
                        Some(a) => r.acts.push(a),
                        None => r.acts,
                    },
            },
    }
}

/// What the host reports for one frame.
pub struct FrameInput {
    /// Key combinations pressed this frame, for shortcut dispatch.
    pub chords: Vec<KeyChord>,
    /// Navigation keys pressed this frame, in order.
    pub keys: Vec<NavKey>,
    /// Where the pointer is, if it is over the window.
    pub pointer: Option<Point>,
    /// The id of this frame's primary click at `pointer`; ids grow by one per
    /// physical click.
    pub click: Option<u64>,
}

/// The menu model of a title bar: what is configured, and what is open.
pub struct TitleBar<A> {
    pub menus: MenuTree<A>,
    pub state: MenuState,
}

impl<A> TitleBar<A> {
    pub fn new() -> (r: Self)
        ensures
            r.menus.menu_items@.len() == 0,
            r.menus.menu_items_with_submenus@.len() == 0,
            r.state.mode == InputMode::Mouse,
            r.state.path@.len() == 0,
            !r.state.submenu_just_opened,
            r.state.last_activation_token == 0,
    {
        TitleBar {
            menus: MenuTree { menu_items: Vec::new(), menu_items_with_submenus: Vec::new() },
            state: MenuState::new(),
        }
    }

    /// Appends a top-level entry without a panel; `callback` runs when it is
    /// activated.
    pub fn add_menu_item(self, label: &str, callback: Option<A>) -> (r: Self)
        ensures
            r.menus.menu_items@.len() == self.menus.menu_items@.len() + 1,
            r.menus.menu_items@.drop_last() == self.menus.menu_items@,
            r.menus.menu_items@.last().0@ == label@,
            r.menus.menu_items@.last().1 == callback,
            r.menus.menu_items_with_submenus == self.menus.menu_items_with_submenus,
            r.state == self.state,
    {
        let mut s = self;
        s.menus.menu_items.push((label.to_string(), callback));
        proof {
            assert(s.menus.menu_items@.drop_last() =~= self.menus.menu_items@);
        }
        s
    }

    /// Appends a top-level entry with a drop-down panel.
    pub fn add_menu_with_submenu(self, menu_item: MenuItem<A>) -> (r: Self)
        ensures
            r.menus.menu_items_with_submenus@ == self.menus.menu_items_with_submenus@.push(menu_item),
            r.menus.menu_items == self.menus.menu_items,
            r.state == self.state,
    {
        let mut s = self;
        s.menus.menu_items_with_submenus.push(menu_item);
        s
    }

    /// Drops the part of the selection that the tree no longer has.
    pub fn revalidate(&mut self)
        ensures
            revalidated(old(self).menus, old(self).state.path@, final(self).state.path@),
            final(self).menus == old(self).menus,
            final(self).state.mode == old(self).state.mode,
            final(self).state.submenu_just_opened == old(self).state.submenu_just_opened,
            final(self).state.last_activation_token == old(self).state.last_activation_token,
    {
        let ghost p = self.state.path@;
        let len = self.state.path.len();
        if len == 0 {
            assert(p.take(0) =~= p);
            return;
        }
        let t = self.state.path[0];
        assert(p.take(1) =~= seq![t]);
        if !self.menus.top_count_exceeds(t) {
            self.state.path.clear();
            assert(self.state.path@ =~= p.take(0));
            return;
        }
        if len == 1 {
            assert(p.take(1) =~= p);
            return;
        }
        let ns = self.menus.menu_items.len();
        assert(p.take(2) =~= seq![t, p[1]]);
        assert(p.take(2).drop_first() =~= seq![p[1]]);
        if !self.menus.top_opens_exec(t)
            || self.state.path[1] >= self.menus.menu_items_with_submenus[t - ns].subitems.len() {
            self.state.path.truncate(1);
            return;
        }
        let mut cur: &Vec<SubMenuItem<A>> = &self.menus.menu_items_with_submenus[t - ns].subitems;
        let mut n: usize = 2;
        let mut done = false;
        while n < len && !done
            invariant
                2 <= n <= len,
                len == p.len(),
                self.state.path@ == p,
                self.menus.valid_path(p.take(n as int)),
                cur@ == self.menus.panel(p.take(n as int)),
                done ==> n < len && !self.menus.valid_path(p.take(n + 1)),
            decreases len - n + (if done { 0int } else { 1int }),
        {
            let ghost q = p.take(n as int);
            proof {
                self.menus.lemma_cursor(q);
                self.menus.lemma_push_at(q, p[n as int]);
                assert(q.push(p[n as int]) =~= p.take(n + 1));
                assert(q.last() == p[n - 1]);
            }
            let item = &cur[self.state.path[n - 1]];
            let j = self.state.path[n];
            if item.enabled && item.children.len() > 0 && j < item.children.len() {
                cur = &item.children;
                n = n + 1;
            } else {
                done = true;
            }
        }
        self.state.path.truncate(n);
        assert(self.state.path@ =~= p.take(n as int));
    }

    /// A primary click `id` at `ptr`, against the previous frame's geometry.
    pub fn handle_click(&mut self, g: &GeometryCache, ptr: Point, id: u64) -> (act: Option<Vec<usize>>)
        requires
            old(self).state.wf(&old(self).menus),
        ensures
            ({
                let s = PointerStep {
                    path: final(self).state.path@,
                    guard: final(self).state.submenu_just_opened,
                    token: final(self).state.last_activation_token,
                    activated: match act {
                        Some(v) => Some(v@),
                        None => None,
                    },
                };
                click_rel(
                    old(self).menus,
                    *g,
                    ptr,
                    id,
                    old(self).state.path@,
                    old(self).state.submenu_just_opened,
                    old(self).state.last_activation_token,
                    s,
                )
            }),
            final(self).menus == old(self).menus,
            final(self).state.mode == old(self).state.mode,
            final(self).state.wf(&final(self).menus),
            act.is_some() ==> final(self).menus.valid_path(act.unwrap()@),
    {
        let ghost p = self.state.path@;
        let len = self.state.path.len();
        match g.find_top(ptr) {
            Some(t) => {
                if self.menus.top_count_exceeds(t) {
                    return self.state.click_top(&self.menus, t, id);
                }
                return None;
            },
            None => {},
        }
        let depth = if len == 0 {
            0
        } else {
            len - 1
        };
        match g.find_row(depth, ptr) {
            Some((d, r)) => {
                assert(row_target(*g, p, ptr, d as int, r as int));
                self.state.click_row(&self.menus, d, r)
            },
            None => {
                assert(no_row_target(*g, p, ptr));
                if !g.is_inside_menus(depth, ptr) {
                    self.state.outside_click(id);
                    proof {
                        if p.len() >= 2 && id > old(self).state.last_activation_token {
                            self.menus.lemma_prefix(p, 1);
                        }
                    }
                }
                None
            },
        }
    }

    /// Applies one frame's navigation keys; returns what they activated. Escape
    /// wins a frame in which keyboard navigation is on at some point; otherwise
    /// the keys apply in order. The one-frame guard starts the frame clear and
    /// is clear again when it ends. Pointer input, and with it the closing of
    /// panels by a click outside them, is handled by `handle_click` and
    /// `update`, not here.
    pub fn handle_keyboard_navigation(&mut self, keys: &Vec<NavKey>) -> (acts: Vec<Vec<usize>>)
        requires
            old(self).state.wf(&old(self).menus),
        ensures
            ({
                let r = frame_keys(old(self).menus, old(self).state.mode, old(self).state.path@, keys@);
                &&& final(self).state.mode == r.mode
                &&& final(self).state.path@ == r.path
                &&& views(acts@) == r.acts
            }),
            !final(self).state.submenu_just_opened,
            final(self).menus == old(self).menus,
            final(self).state.last_activation_token == old(self).state.last_activation_token,
            final(self).state.wf(&final(self).menus),
    {
        self.state.submenu_just_opened = false;
        if has_key(keys, NavKey::Escape) && (self.state.mode == InputMode::Keyboard || has_key(
            keys,
            NavKey::Activate,
        )) {
            self.state.mode = InputMode::Mouse;
            self.state.path = Vec::new();
            assert(self.state.path@ =~= seq![]);
            let none: Vec<Vec<usize>> = Vec::new();
            assert(views(none@) =~= seq![]);
            return none;
        }
        let mut acts: Vec<Vec<usize>> = Vec::new();
        let mut i: usize = 0;
        assert(keys@.take(0) =~= seq![]);
        assert(views(acts@) =~= seq![]);
        while i < keys.len()
            invariant
                i <= keys@.len(),
                self.menus == old(self).menus,
                self.state.wf(&self.menus),
                self.state.last_activation_token == old(self).state.last_activation_token,
                ({
                    let r = keys_run(
                        old(self).menus,
                        old(self).state.mode,
                        old(self).state.path@,
                        false,
                        keys@.take(i as int),
                    );
                    &&& self.state.mode == r.mode
                    &&& self.state.path@ == r.path
                    &&& self.state.submenu_just_opened == r.guard
                    &&& views(acts@) == r.acts
                }),
            decreases keys@.len() - i,
        {
            assert(keys@.take(i + 1).drop_last() =~= keys@.take(i as int));
            assert(keys@.take(i + 1).last() == keys@[i as int]);
            let ghost before = acts@;
            match self.state.apply_key(&self.menus, keys[i]) {
                Some(a) => {
                    acts.push(a);
                    assert(views(acts@) =~= views(before).push(acts@.last()@));
                },
                None => {},
            }
            i = i + 1;
        }
        assert(keys@.take(keys@.len() as int) =~= keys@);
        self.state.submenu_just_opened = false;
        acts
    }

    /// The path of every enabled leaf, anywhere in the menus, whose shortcut is
    /// among `chords`, each once, whether or not any menu is open or enabled.
    pub fn check_keyboard_shortcuts(&self, chords: &Vec<KeyChord>) -> (r: Vec<Vec<usize>>)
        ensures
            forall|p: Seq<usize>| #[trigger]
                fires_by_shortcut(self.menus, p, chords@) ==> views(r@).contains(p),
            forall|k: int| 0 <= k < r@.len() ==> fires_by_shortcut(self.menus, #[trigger] r@[k]@, chords@),
            distinct_from(r@, 0),
    {
        let ns = self.menus.menu_items.len();
        let nsub = self.menus.menu_items_with_submenus.len();
        let mut out: Vec<Vec<usize>> = Vec::new();
        let mut j: usize = 0;
        while j < nsub
            invariant
                j <= nsub,
                ns == self.menus.n_simple(),
                nsub == self.menus.menu_items_with_submenus@.len(),
                forall|p: Seq<usize>| #[trigger]
                    fires_by_shortcut(self.menus, p, chords@) && p[0] < ns + j ==> views(out@).contains(p),
                forall|k: int| 0 <= k < out@.len() ==> fires_by_shortcut(self.menus, #[trigger] out@[k]@, chords@),
                forall|k: int| 0 <= k < out@.len() ==> (#[trigger] out@[k]@)[0] < ns + j,
                distinct_from(out@, 0),
            decreases nsub - j,
        {
            let e = &self.menus.menu_items_with_submenus[j];
            let ghost before = out@;
            if ns <= usize::MAX - j {
                let t = ns + j;
                let prefix = single(t);
                assert(self.menus.entry(t as int) == *e);
                collect_shortcuts(&e.subitems, chords, &prefix, &mut out);
                assert forall|k: int| 0 <= k < before.len() implies #[trigger] out@[k]@ == before[k]@ by {
                    assert(views(out@).take(before.len() as int) == views(before));
                    assert(views(out@)[k] == views(before)[k]);
                };
                assert forall|p: Seq<usize>| #[trigger]
                    fires_by_shortcut(self.menus, p, chords@) && p[0] < ns + j + 1 implies views(out@).contains(p) by {
                    lemma_fires_by_shortcut(self.menus, p, chords@);
                    if p[0] == t {
                        assert(prefix@ + p.drop_first() =~= p);
                    } else {
                        let w = choose|w: int| 0 <= w < views(before).len() && views(before)[w] == p;
                        assert(views(out@)[w] == views(before)[w]);
                    }
                };
                assert forall|k: int| 0 <= k < out@.len() implies fires_by_shortcut(self.menus, #[trigger] out@[k]@, chords@) && out@[k]@[0] < ns + j + 1 by {
                    if k >= before.len() {
                        let v = out@[k]@;
                        assert(hit_under(e.subitems@, prefix@, v, chords@));
                        assert(v.take(1) =~= seq![t]);
                        assert(v[0] == v.take(1)[0]);
                        assert(v.drop_first() =~= v.skip(1));
                        lemma_fires_by_shortcut(self.menus, v, chords@);
                    }
                };
                assert forall|a: int, b: int| 0 <= a < b < out@.len() implies #[trigger] out@[a]@ != #[trigger] out@[b]@ by {
                    if a < before.len() && b >= before.len() {
                        let v = out@[b]@;
                        assert(hit_under(e.subitems@, prefix@, v, chords@));
                        assert(v.take(1)[0] == t);
                        assert(out@[a]@[0] != out@[b]@[0]);
                    }
                };
            } else {
                assert forall|p: Seq<usize>| #[trigger]
                    fires_by_shortcut(self.menus, p, chords@) && p[0] < ns + j + 1 implies views(out@).contains(p) by {
                    assert(p[0] != ns + j);
                };
            }
            j = j + 1;
        }
        assert forall|p: Seq<usize>| #[trigger] fires_by_shortcut(self.menus, p, chords@) implies views(out@).contains(p) by {
            assert(p[0] < ns + nsub);
        };
        out
    }

    /// The configured callback of the item at `p`, if `p` is a path of the tree.
    pub open spec fn spec_callback(&self, p: Seq<usize>) -> Option<A> {
        if p.len() == 1 && p[0] < self.menus.n_simple() {
            self.menus.menu_items@[p[0] as int].1
        } else if self.menus.names_item(p) {
            self.menus.cursor(p).callback
        } else {
            None
        }
    }

    /// The callback to run for an activated or shortcut path; `None` when the
    /// item has none or the tree has no such item.
    pub fn callback_at(&self, p: &Vec<usize>) -> (r: Option<&A>)
        ensures
            r.is_some() == self.spec_callback(p@).is_some(),
            r.is_some() ==> *r.unwrap() == self.spec_callback(p@).unwrap(),
    {
        if p.len() == 1 {
            if p[0] < self.menus.menu_items.len() {
                return self.menus.menu_items[p[0]].1.as_ref();
            }
            return None;
        }
        match self.menus.item_at(p) {
            Some(it) => it.callback.as_ref(),
            None => None,
        }
    }

    /// Top-level entry `t` shows the keyboard highlight.
    pub fn is_top_selected(&self, t: usize) -> (r: bool)
        ensures
            r == (self.state.mode == InputMode::Keyboard && self.state.path@.len() >= 1
                && self.state.path@[0] == t),
    {
        self.state.mode == InputMode::Keyboard && self.state.path.len() >= 1 && self.state.path[0]
            == t
    }

    /// The drop-down panel of top-level entry `t` is open.
    pub fn is_submenu_open(&self, t: usize) -> (r: bool)
        ensures
            r == (self.state.path@.len() >= 2 && self.state.path@[0] == t),
    {
        self.state.path.len() >= 2 && self.state.path[0] == t
    }

    /// Row `r` of the open panel at level `d` shows the keyboard highlight.
    pub fn is_row_selected(&self, d: usize, r: usize) -> (b: bool)
        ensures
            b == (self.state.mode == InputMode::Keyboard && 1 <= d < self.state.path@.len()
                && self.state.path@[d as int] == r),
    {
        self.state.mode == InputMode::Keyboard && 1 <= d && d < self.state.path.len()
            && self.state.path[d] == r
    }

    /// Row `r` of the open panel at level `d` has its own panel open.
    pub fn is_child_open(&self, d: usize, r: usize) -> (b: bool)
        ensures
            b == (1 <= d && d + 1 < self.state.path@.len() && self.state.path@[d as int] == r),
    {
        1 <= d && d < self.state.path.len() && d + 1 < self.state.path.len() && self.state.path[d] == r
    }

    /// One frame: revalidate the selection, dispatch shortcuts, apply the
    /// navigation keys, then hover and the click against the previous frame's
    /// geometry; the one-frame guard ends with the frame.
    pub fn update(&mut self, input: &FrameInput, g: &GeometryCache) -> (out: FrameOutput)
        ensures
            final(self).menus == old(self).menus,
            final(self).state.wf(&final(self).menus),
            !final(self).state.submenu_just_opened,
            forall|p: Seq<usize>| #[trigger]
                fires_by_shortcut(old(self).menus, p, input.chords@) ==> views(out.shortcuts@).contains(p),
            forall|k: int|
                0 <= k < out.shortcuts@.len() ==> fires_by_shortcut(
                    old(self).menus,
                    #[trigger] out.shortcuts@[k]@,
                    input.chords@,
                ),
            distinct_from(out.shortcuts@, 0),
            exists|q0: Seq<usize>|
                #![trigger revalidated(old(self).menus, old(self).state.path@, q0)]
                revalidated(old(self).menus, old(self).state.path@, q0) && frame_rest(
                    old(self).menus,
                    *g,
                    old(self).state.mode,
                    q0,
                    old(self).state.last_activation_token,
                    input.keys@,
                    input.pointer,
                    input.click,
                    final(self).state.mode,
                    final(self).state.path@,
                    final(self).state.last_activation_token,
                    views(out.activations@),
                ),
    {
        self.revalidate();
        let ghost q0 = self.state.path@;
        let shortcuts = self.check_keyboard_shortcuts(&input.chords);
        let mut activations = self.handle_keyboard_navigation(&input.keys);
        let ghost r = frame_keys(self.menus, old(self).state.mode, q0, input.keys@);
        let ghost acts0 = activations@;
        match input.pointer {
            Some(ptr) => {
                self.state.hover(&self.menus, g, ptr);
                let ghost q1 = self.state.path@;
                assert(hover_rel(self.menus, *g, ptr, r.mode, r.path, q1));
                match input.click {
                    Some(id) => {
                        let a = self.handle_click(g, ptr, id);
                        let ghost s = PointerStep {
                            path: self.state.path@,
                            guard: self.state.submenu_just_opened,
                            token: self.state.last_activation_token,
                            activated: if a.is_some() {
                                Some(a.unwrap()@)
                            } else {
                                None
                            },
                        };
                        assert(click_rel(self.menus, *g, ptr, id, q1, false, old(self).state.last_activation_token, s));
                        match a {
                            Some(v) => {
                                activations.push(v);
                                assert(views(activations@) =~= views(acts0).push(s.activated.unwrap()));
                            },
                            None => {},
                        }
                    },
                    None => {},
                }
            },
            None => {},
        }
        self.state.submenu_just_opened = false;
        FrameOutput { shortcuts, activations }
    }
}

} // verus!