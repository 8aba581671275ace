use vstd::prelude::*;
use crate::tree::MenuTree;

verus! {

/// Which input drives the menus: pointer hover, or discrete arrow keys.
#[derive(Clone, Copy, PartialEq, Eq, Structural, Debug)]
pub enum InputMode {
    Mouse,
    Keyboard,
}

/// A navigation key event. `Activate` stands for Alt, or Ctrl+F2.
#[derive(Clone, Copy, PartialEq, Eq, Structural, Debug)]
pub enum NavKey {
    ArrowLeft,
    ArrowRight,
    ArrowUp,
    ArrowDown,
    Enter,
    Space,
    Escape,
    Activate,
}

/// What is open and what is highlighted, kept across frames.
///
/// `path` is empty when nothing is selected; `[t]` highlights top-level entry `t`;
/// each further index is the highlighted row of one more open panel.
pub struct MenuState {
    pub mode: InputMode,
    pub path: Vec<usize>,
    pub submenu_just_opened: bool,
    pub last_activation_token: u64,
}

/// The state after one key, and the path of the item activated by it, if any.
pub struct NavStep {
    pub mode: InputMode,
    pub path: Seq<usize>,
    pub guard: bool,
    pub activated: Option<Seq<usize>>,
}

/// The path with one panel fewer open, or with the top-level highlight moved,
/// as ArrowLeft does.
pub open spec fn left_path<A>(tree: MenuTree<A>, p: Seq<usize>) -> Seq<usize> {
    if p.len() == 0 {
        p
    } else if p.len() == 1 {
        if p[0] > 0 {
            seq![(p[0] - 1) as usize]
        } else {
            p
        }
    } else if p.len() == 2 {
        if !tree.cursor(p).opens() && p[0] > 0 {
            seq![(p[0] - 1) as usize]
        } else {
            seq![p[0]]
        }
    } else {
        p.drop_last()
    }
}

/// The state after one navigation key.
pub open spec fn key_step<A>(
    tree: MenuTree<A>,
    mode: InputMode,
    p: Seq<usize>,
    guard: bool,
    key: NavKey,
) -> NavStep {
    let same = NavStep { mode, path: p, guard, activated: None };
    if key == NavKey::Activate {
        if mode == InputMode::Mouse || p.len() == 0 {
            NavStep {
                mode: InputMode::Keyboard,
                path: if tree.n_top() > 0 {
                    seq![0usize]
                } else {
                    seq![]
                },
                guard: false,
                activated: None,
            }
        } else {
            same
        }
    } else if mode == InputMode::Mouse {
        same
    } else if key == NavKey::Escape {
        NavStep { mode: InputMode::Mouse, path: seq![], guard: false, activated: None }
    } else if key == NavKey::ArrowLeft {
        NavStep { path: left_path(tree, p), ..same }
    } else if key == NavKey::ArrowRight {
        if p.len() >= 2 && tree.cursor(p).opens() {
            NavStep { path: p.push(0), guard: true, ..same }
        } else if p.len() >= 1 && p[0] < usize::MAX && p[0] + 1 < tree.n_top() {
            NavStep { path: seq![(p[0] + 1) as usize], ..same }
        } else {
            same
        }
    } else if key == NavKey::ArrowUp {
        if p.len() >= 2 && p.last() > 0 {
            NavStep { path: p.update(p.len() - 1, (p.last() - 1) as usize), ..same }
        } else {
            same
        }
    } else if key == NavKey::ArrowDown {
        if p.len() >= 2 && p.last() + 1 < tree.panel(p).len() {
            NavStep { path: p.update(p.len() - 1, (p.last() + 1) as usize), ..same }
        } else {
            same
        }
    } else {
        // Enter or Space
        if guard {
            same
        } else if p.len() >= 2 {
            if tree.cursor(p).opens() {
                NavStep { path: p.push(0), guard: true, ..same }
            } else if tree.cursor(p).enabled && tree.cursor(p).children@.len() == 0 {
                NavStep { path: seq![p[0]], activated: Some(p), ..same }
            } else {
                same
            }
        } else if p.len() == 1 {
            if tree.top_opens(p[0] as int) {
                NavStep { path: seq![p[0], 0usize], guard: true, ..same }
            } else if p[0] < tree.n_simple() {
                NavStep { path: seq![], activated: Some(p), ..same }
            } else {
                same
            }
        } else {
            same
        }
    }
}

pub(crate) fn single(x: usize) -> (r: Vec<usize>)
    ensures
        r@ == seq![x],
{
    let mut v: Vec<usize> = Vec::new();
    v.push(x);
    v
}

impl MenuState {
    pub open spec fn wf<A>(&self, tree: &MenuTree<A>) -> bool {
        tree.valid_path(self.path@)
    }

    /// Nothing selected, pointer-driven, no click recorded.
    pub fn new() -> (r: Self)
        ensures
            r.mode == InputMode::Mouse,
            r.path@ == Seq::<usize>::empty(),
            !r.submenu_just_opened,
            r.last_activation_token == 0,
    {
        MenuState {
            mode: InputMode::Mouse,
            path: Vec::new(),
            submenu_just_opened: false,
            last_activation_token: 0,
        }
    }

    /// Applies one navigation key and returns the path of the item it activates.
    pub fn apply_key<A>(&mut self, tree: &MenuTree<A>, key: NavKey) -> (act: Option<Vec<usize>>)
        requires
            old(self).wf(tree),
        ensures
            ({
                let s = key_step(*tree, old(self).mode, old(self).path@, old(self).submenu_just_opened, key);
                &&& final(self).mode == s.mode
                &&& final(self).path@ == s.path
                &&& final(self).submenu_just_opened == s.guard
                &&& act.is_some() == s.activated.is_some()
                &&& act.is_some() ==> act.unwrap()@ == s.activated.unwrap()
            }),
            final(self).last_activation_token == old(self).last_activation_token,
            final(self).wf(tree),
            act.is_some() ==> tree.valid_path(act.unwrap()@),
    {
        let len = self.path.len();
        let ghost p = self.path@;
        proof {
            if p.len() >= 2 {
                tree.lemma_cursor(p);
            }
        }
        match key {
            NavKey::Activate => {
                if self.mode == InputMode::Mouse || len == 0 {
                    self.mode = InputMode::Keyboard;
                    self.submenu_just_opened = false;
                    if tree.top_count_exceeds(0) {
                        self.path = single(0);
                    } else {
                        self.path = Vec::new();
                        assert(self.path@ =~= seq![]);
                    }
                }
                return None;
            },
            _ => {},
        }
        if self.mode == InputMode::Mouse {
            return None;
        }
        match key {
            NavKey::Escape => {
                self.mode = InputMode::Mouse;
                self.path = Vec::new();
                self.submenu_just_opened = false;
                assert(self.path@ =~= seq![]);
                None
            },
            NavKey::ArrowLeft => {
                if len == 1 {
                    let t = self.path[0];
                    if t > 0 {
                        self.path = single(t - 1);
                    }
                } else if len == 2 {
                    let t = self.path[0];
                    let panel = tree.panel_exec(&self.path);
                    let c = &panel[self.path[1]];
                    let opens = c.enabled && c.children.len() > 0;
                    if !opens && t > 0 {
                        self.path = single(t - 1);
                    } else {
                        self.path = single(t);
                    }
                } else if len > 2 {
                    proof {
                        tree.lemma_prefix(p, p.len() - 1);
                    }
                    self.path.pop();
                    assert(self.path@ =~= p.drop_last());
                }
                None
            },
            NavKey::ArrowRight => {
                if len >= 2 {
                    let panel = tree.panel_exec(&self.path);
                    let c = &panel[self.path[len - 1]];
                    if c.enabled && c.children.len() > 0 {
                        proof {
                            tree.lemma_push(p);
                        }
                        self.path.push(0);
                        self.submenu_just_opened = true;
                        return None;
                    }
                }
                if len >= 1 {
                    let t = self.path[0];
                    if t < usize::MAX && tree.top_count_exceeds(t + 1) {
                        self.path = single(t + 1);
                    }
                }
                None
            },
            NavKey::ArrowUp => {
                if len >= 2 {
                    let j = self.path[len - 1];
                    if j > 0 {
                        proof {
                            tree.lemma_set_last(p, (j - 1) as usize);
                        }
                        self.path.set(len - 1, j - 1);
                    }
                }
                None
            },
            NavKey::ArrowDown => {
                if len >= 2 {
                    let j = self.path[len - 1];
                    let n = tree.panel_exec(&self.path).len();
                    if j + 1 < n {
                        proof {
                            tree.lemma_set_last(p, (j + 1) as usize);
                        }
                        self.path.set(len - 1, j + 1);
                    }
                }
                None
            },
            _ => {
                // Enter or Space
                if self.submenu_just_opened {
                    return None;
                }
                if len >= 2 {
                    let panel = tree.panel_exec(&self.path);
                    let c = &panel[self.path[len - 1]];
                    if c.enabled && c.children.len() > 0 {
                        proof {
                            tree.lemma_push(p);
                        }
                        self.path.push(0);
                        self.submenu_just_opened = true;
                        None
                    } else if c.enabled && c.children.len() == 0 {
                        let t = self.path[0];
                        let mut done = single(t);
                        std::mem::swap(&mut self.path, &mut done);
                        Some(done)
                    } else {
                        None
                    }
                } else if len == 1 {
                    let t = self.path[0];
                    if tree.top_opens_exec(t) {
                        let mut v = single(t);
                        v.push(0);
                        assert(v@ =~= seq![t, 0usize]);
                        assert(v@.drop_first() =~= seq![0usize]);
                        self.path = v;
                        self.submenu_just_opened = true;
                        None
                    } else if t < tree.menu_items.len() {
                        let mut done: Vec<usize> = Vec::new();
                        std::mem::swap(&mut self.path, &mut done);
                        assert(self.path@ =~= seq![]);
                        Some(done)
                    } else {
                        None
                    }
                } else {
                    None
                }
            },
        }
    }
}

} // verus!
