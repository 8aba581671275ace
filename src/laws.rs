use vstd::prelude::*;
use crate::controller::{frame_keys, keys_run};
use crate::navigation::{key_step, InputMode, NavKey};
use crate::pointer::{click_row_step, click_top_step, outside_click_step};
use crate::tree::MenuTree;

verus! {

/// `n` presses of Enter.
pub open spec fn enters(n: nat) -> Seq<NavKey> {
    Seq::new(n, |i: int| NavKey::Enter)
}

/// `n` presses of ArrowRight.
pub open spec fn arrows_right(n: nat) -> Seq<NavKey> {
    Seq::new(n, |i: int| NavKey::ArrowRight)
}

proof fn lemma_arrows_right<A>(tree: MenuTree<A>, guard: bool, k: nat)
    requires
        k < tree.n_top(),
        tree.n_top() <= usize::MAX,
    ensures
        keys_run(tree, InputMode::Keyboard, seq![0usize], guard, arrows_right(k)).path == seq![k as usize],
        keys_run(tree, InputMode::Keyboard, seq![0usize], guard, arrows_right(k)).mode == InputMode::Keyboard,
        keys_run(tree, InputMode::Keyboard, seq![0usize], guard, arrows_right(k)).guard == guard,
        keys_run(tree, InputMode::Keyboard, seq![0usize], guard, arrows_right(k)).acts.len() == 0,
    decreases k,
{
    if k > 0 {
        assert(arrows_right(k).drop_last() =~= arrows_right((k - 1) as nat));
        lemma_arrows_right(tree, guard, (k - 1) as nat);
    } else {
        assert(arrows_right(k) =~= seq![]);
    }
}

/// With `N` top-level entries and entry 0 highlighted by the keyboard, a frame
/// of `N - 1` presses of ArrowRight highlights entry `N - 1`, and one more press
/// changes nothing: the highlight does not wrap around.
pub proof fn law_arrow_right_stops_at_last<A>(tree: MenuTree<A>)
    requires
        1 <= tree.n_top() <= usize::MAX,
    ensures
        ({
            let r = frame_keys(
                tree,
                InputMode::Keyboard,
                seq![0usize],
                arrows_right((tree.n_top() - 1) as nat),
            );
            let s = frame_keys(tree, r.mode, r.path, seq![NavKey::ArrowRight]);
            &&& r.path == seq![(tree.n_top() - 1) as usize]
            &&& r.mode == InputMode::Keyboard
            &&& r.acts.len() == 0
            &&& s.path == r.path
            &&& s.mode == r.mode
            &&& s.acts.len() == 0
        }),
{
    let k = (tree.n_top() - 1) as nat;
    lemma_arrows_right(tree, false, k);
    assert(!arrows_right(k).contains(NavKey::Escape)) by {
        if arrows_right(k).contains(NavKey::Escape) {
            let i = choose|i: int| 0 <= i < arrows_right(k).len() && arrows_right(k)[i] == NavKey::Escape;
            assert(arrows_right(k)[i] == NavKey::ArrowRight);
        }
    };
    let one = seq![NavKey::ArrowRight];
    assert(!one.contains(NavKey::Escape)) by {
        if one.contains(NavKey::Escape) {
            let i = choose|i: int| 0 <= i < one.len() && one[i] == NavKey::Escape;
            assert(one[i] == NavKey::ArrowRight);
        }
    };
    assert(one.drop_last() =~= seq![]);
    assert(one.last() == NavKey::ArrowRight);
    let r = frame_keys(tree, InputMode::Keyboard, seq![0usize], arrows_right(k));
    let r0 = keys_run(tree, r.mode, r.path, false, seq![]);
    assert(r0.path == r.path && r0.mode == r.mode && r0.acts.len() == 0);
}

/// The click that opens a drop-down panel never closes it again as an outside
/// click; a later click outside the menus does close it, back to the
/// highlighted top-level entry.
pub proof fn law_opening_click_does_not_close<A>(
    tree: MenuTree<A>,
    p: Seq<usize>,
    guard: bool,
    token: u64,
    t: usize,
    id: u64,
    later: u64,
)
    requires
        tree.valid_path(p),
        tree.top_opens(t as int),
        !(p.len() >= 2 && p[0] == t),
        later > id,
    ensures
        ({
            let opened = click_top_step(tree, p, guard, token, t, id);
            let same_click = outside_click_step(opened.path, opened.guard, opened.token, id);
            let next_click = outside_click_step(opened.path, opened.guard, opened.token, later);
            &&& opened.path == seq![t, 0usize]
            &&& opened.token == id
            &&& same_click.path == opened.path
            &&& next_click.path == seq![t]
        }),
{
    let opened = click_top_step(tree, p, guard, token, t, id);
    assert(opened.path.take(1) =~= seq![t]);
}

/// Enter on a highlighted item that opens a panel highlights that panel's first
/// row and activates nothing, nor does another Enter in the same frame. In the
/// next frame, Enter on that first row, when it is an enabled leaf, activates it
/// and closes every panel, leaving only the top-level highlight.
pub proof fn law_enter_opens_then_activates<A>(tree: MenuTree<A>, p: Seq<usize>)
    requires
        tree.valid_path(p),
        p.len() >= 2,
        tree.cursor(p).opens(),
    ensures
        ({
            let first = key_step(tree, InputMode::Keyboard, p, false, NavKey::Enter);
            let again = key_step(tree, first.mode, first.path, first.guard, NavKey::Enter);
            let next = key_step(tree, first.mode, first.path, false, NavKey::Enter);
            let child = tree.cursor(p).children@[0];
            &&& first.path == p.push(0)
            &&& first.activated.is_none()
            &&& first.mode == InputMode::Keyboard
            &&& again.activated.is_none()
            &&& again.path == first.path
            &&& (child.enabled && child.children@.len() == 0) ==> {
                &&& next.activated == Some(p.push(0))
                &&& next.path == seq![p[0]]
                &&& next.mode == InputMode::Keyboard
            }
        }),
{
    tree.lemma_push(p);
    assert(p.push(0).last() == 0);
    assert(p.push(0)[0] == p[0]);
}

/// Escape with keyboard navigation on and any panel open closes everything and
/// turns keyboard navigation off.
pub proof fn law_escape_closes_all<A>(tree: MenuTree<A>, p: Seq<usize>, guard: bool)
    requires
        p.len() >= 2,
    ensures
        ({
            let s = key_step(tree, InputMode::Keyboard, p, guard, NavKey::Escape);
            &&& s.path.len() == 0
            &&& s.mode == InputMode::Mouse
            &&& s.activated.is_none()
        }),
{
}

/// Over whole frames of navigation keys, as `handle_keyboard_navigation` and
/// `update` apply them: Enter on a highlighted item that opens a panel
/// highlights its first row and activates nothing in that frame, however often
/// Enter is pressed in it. In the next frame Enter on that first row, when it is
/// an enabled leaf, activates it and leaves only the top-level highlight.
pub proof fn law_enter_frames_open_then_activate<A>(tree: MenuTree<A>, p: Seq<usize>, n: nat)
    requires
        tree.valid_path(p),
        p.len() >= 2,
        tree.cursor(p).opens(),
        n >= 1,
    ensures
        ({
            let first = frame_keys(tree, InputMode::Keyboard, p, enters(n));
            let next = frame_keys(tree, InputMode::Keyboard, first.path, enters(1));
            let child = tree.cursor(p).children@[0];
            &&& first.path == p.push(0)
            &&& first.acts.len() == 0
            &&& first.mode == InputMode::Keyboard
            &&& (child.enabled && child.children@.len() == 0) ==> {
                &&& next.acts == seq![p.push(0)]
                &&& next.path == seq![p[0]]
                &&& next.mode == InputMode::Keyboard
            }
        }),
    decreases n,
{
    lemma_enters_run(tree, p, n);
    lemma_no_escape_in_enters(n);
    lemma_no_escape_in_enters(1);
    let first = keys_run(tree, InputMode::Keyboard, p, false, enters(n));
    assert(enters(1).drop_last() =~= enters(0));
    assert(enters(1).last() == NavKey::Enter);
    assert(enters(0) =~= seq![]);
    let n0 = keys_run(tree, InputMode::Keyboard, first.path, false, enters(0));
    assert(n0.path == first.path && n0.mode == InputMode::Keyboard && !n0.guard && n0.acts.len() == 0);
    law_enter_opens_then_activates(tree, p);
    let s = key_step(tree, InputMode::Keyboard, first.path, false, NavKey::Enter);
    if s.activated.is_some() {
        assert(n0.acts.push(s.activated.unwrap()) =~= seq![s.activated.unwrap()]);
    }
}

proof fn lemma_no_escape_in_enters(n: nat)
    ensures
        !enters(n).contains(NavKey::Escape),
{
    if enters(n).contains(NavKey::Escape) {
        let i = choose|i: int| 0 <= i < enters(n).len() && enters(n)[i] == NavKey::Escape;
        assert(enters(n)[i] == NavKey::Enter);
    }
}

proof fn lemma_enters_run<A>(tree: MenuTree<A>, p: Seq<usize>, n: nat)
    requires
        tree.valid_path(p),
        p.len() >= 2,
        tree.cursor(p).opens(),
        n >= 1,
    ensures
        keys_run(tree, InputMode::Keyboard, p, false, enters(n)).path == p.push(0),
        keys_run(tree, InputMode::Keyboard, p, false, enters(n)).acts.len() == 0,
        keys_run(tree, InputMode::Keyboard, p, false, enters(n)).mode == InputMode::Keyboard,
        keys_run(tree, InputMode::Keyboard, p, false, enters(n)).guard,
    decreases n,
{
    law_enter_opens_then_activates(tree, p);
    assert(enters(n).drop_last() =~= enters((n - 1) as nat));
    assert(enters(n).last() == NavKey::Enter);
    assert(enters(0) =~= seq![]);
    let r0 = keys_run(tree, InputMode::Keyboard, p, false, enters(0));
    assert(r0.path == p && r0.mode == InputMode::Keyboard && !r0.guard && r0.acts.len() == 0);
    if n > 1 {
        lemma_enters_run(tree, p, (n - 1) as nat);
    }
}

/// Escape wins any frame in which keyboard navigation is on at some point:
/// whatever other keys share the frame, and in whatever order, the frame ends
/// with nothing selected, keyboard navigation off and nothing activated.
pub proof fn law_escape_wins_frame<A>(tree: MenuTree<A>, mode: InputMode, p: Seq<usize>, keys: Seq<NavKey>)
    requires
        keys.contains(NavKey::Escape),
        mode == InputMode::Keyboard || keys.contains(NavKey::Activate),
    ensures
        ({
            let r = frame_keys(tree, mode, p, keys);
            &&& r.path.len() == 0
            &&& r.mode == InputMode::Mouse
            &&& r.acts.len() == 0
        }),
{
}

/// A highlighted disabled leaf never activates by Enter or Space.
pub proof fn law_disabled_leaf_ignores_enter<A>(tree: MenuTree<A>, p: Seq<usize>, mode: InputMode, guard: bool)
    requires
        tree.valid_path(p),
        p.len() >= 2,
        !tree.cursor(p).enabled,
        tree.cursor(p).children@.len() == 0,
    ensures
        key_step(tree, mode, p, guard, NavKey::Enter).activated.is_none(),
        key_step(tree, mode, p, guard, NavKey::Space).activated.is_none(),
        key_step(tree, mode, p, guard, NavKey::Enter).path == p,
{
}

/// A click on the row of a disabled leaf never activates it.
pub proof fn law_disabled_leaf_ignores_click<A>(
    tree: MenuTree<A>,
    p: Seq<usize>,
    guard: bool,
    token: u64,
    d: int,
    r: usize,
)
    requires
        tree.valid_path(p),
        1 <= d < p.len(),
        r < tree.panel(p.take(d + 1)).len(),
        !tree.panel(p.take(d + 1))[r as int].enabled,
    ensures
        click_row_step(tree, p, guard, token, d, r).activated.is_none(),
        click_row_step(tree, p, guard, token, d, r).path == p,
{
}

} // verus!
