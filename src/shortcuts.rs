use vstd::prelude::*;
use crate::controller::views;
use crate::items::{KeyChord, SubMenuItem};
use crate::tree::{panel_of, reaches, MenuTree};

verus! {

/// Some chord of this frame is the item's shortcut.
pub open spec fn pressed<A>(it: SubMenuItem<A>, chords: Seq<KeyChord>) -> bool {
    it.shortcut.is_some() && exists|c: int|
        0 <= c < chords.len() && it.shortcut.unwrap().spec_matches(&#[trigger] chords[c])
}

/// `q` leads from `items` to an enabled leaf whose shortcut was pressed; the
/// items on the way may be disabled.
pub open spec fn shortcut_hit<A>(items: Seq<SubMenuItem<A>>, q: Seq<usize>, chords: Seq<KeyChord>) -> bool {
    &&& q.len() >= 1
    &&& reaches(items, q)
    &&& panel_of(items, q)[q.last() as int].enabled
    &&& panel_of(items, q)[q.last() as int].children@.len() == 0
    &&& pressed(panel_of(items, q)[q.last() as int], chords)
}

/// `p` names an enabled leaf, anywhere in the tree, whose shortcut was pressed;
/// whether the menus above it are enabled does not matter.
pub open spec fn fires_by_shortcut<A>(tree: MenuTree<A>, p: Seq<usize>, chords: Seq<KeyChord>) -> bool {
    &&& tree.names_item(p)
    &&& tree.cursor(p).enabled
    &&& tree.cursor(p).children@.len() == 0
    &&& pressed(tree.cursor(p), chords)
}

pub proof fn lemma_fires_by_shortcut<A>(tree: MenuTree<A>, p: Seq<usize>, chords: Seq<KeyChord>)
    requires
        p.len() >= 2,
    ensures
        fires_by_shortcut(tree, p, chords) <==> (tree.n_simple() <= p[0] < tree.n_top()
            && shortcut_hit(tree.top_panel(p[0] as int), p.drop_first(), chords)),
{
    assert(p.drop_first().last() == p.last());
}

/// No path occurs twice among the views of `v` from index `start` on.
pub open spec fn distinct_from(v: Seq<Vec<usize>>, start: int) -> bool {
    forall|a: int, b: int|
        start <= a < b < v.len() ==> #[trigger] v[a]@ != #[trigger] v[b]@
}

/// `v` is `prefix` followed by a shortcut hit under `items`.
pub open spec fn hit_under<A>(items: Seq<SubMenuItem<A>>, prefix: Seq<usize>, v: Seq<usize>, chords: Seq<KeyChord>) -> bool {
    &&& prefix.len() <= v.len()
    &&& v.take(prefix.len() as int) == prefix
    &&& shortcut_hit(items, v.skip(prefix.len() as int), chords)
}

pub fn is_pressed<A>(it: &SubMenuItem<A>, chords: &Vec<KeyChord>) -> (r: bool)
    ensures
        r == pressed(*it, chords@),
{
    match &it.shortcut {
        None => false,
        Some(s) => {
            let mut c: usize = 0;
            while c < chords.len()
                invariant
                    c <= chords@.len(),
                    it.shortcut == Some(*s),
                    forall|k: int| 0 <= k < c ==> !s.spec_matches(&#[trigger] chords@[k]),
                decreases chords@.len() - c,
            {
                if s.matches(&chords[c]) {
                    return true;
                }
                c = c + 1;
            }
            false
        },
    }
}

pub(crate) fn extended(prefix: &Vec<usize>, i: usize) -> (r: Vec<usize>)
    ensures
        r@ == prefix@.push(i),
{
    let mut r: Vec<usize> = Vec::new();
    let mut k: usize = 0;
    while k < prefix.len()
        invariant
            k <= prefix@.len(),
            r@ == prefix@.take(k as int),
        decreases prefix@.len() - k,
    {
        r.push(prefix[k]);
        k = k + 1;
        assert(r@ =~= prefix@.take(k as int));
    }
    r.push(i);
    assert(r@ =~= prefix@.push(i));
    r
}

/// Appends to `out` the path, behind `prefix`, of every enabled leaf under
/// `items` whose shortcut was pressed, each once, and nothing else.
pub fn collect_shortcuts<A>(
    items: &Vec<SubMenuItem<A>>,
    chords: &Vec<KeyChord>,
    prefix: &Vec<usize>,
    out: &mut Vec<Vec<usize>>,
)
    ensures
        final(out)@.len() >= old(out)@.len(),
        views(final(out)@).take(old(out)@.len() as int) == views(old(out)@),
        forall|q: Seq<usize>| #[trigger]
            shortcut_hit(items@, q, chords@) ==> views(final(out)@).contains(prefix@ + q),
        forall|k: int|
            old(out)@.len() <= k < final(out)@.len() ==> hit_under(items@, prefix@, #[trigger] final(out)@[k]@, chords@),
        distinct_from(final(out)@, old(out)@.len() as int),
    decreases items,
{
    let ghost start = old(out)@;
    let ghost pl = prefix@.len() as int;
    let mut i: usize = 0;
    assert(views(out@).take(start.len() as int) =~= views(start));
    while i < items.len()
        invariant
            i <= items@.len(),
            pl == prefix@.len(),
            out@.len() >= start.len(),
            views(out@).take(start.len() as int) == views(start),
            forall|q: Seq<usize>| #[trigger]
                shortcut_hit(items@, q, chords@) && q[0] < i ==> views(out@).contains(prefix@ + q),
            forall|k: int|
                start.len() <= k < out@.len() ==> hit_under(items@, prefix@, #[trigger] out@[k]@, chords@),
            forall|k: int| start.len() <= k < out@.len() ==> (#[trigger] out@[k]@)[pl] < i,
            distinct_from(out@, start.len() as int),
        decreases items@.len() - i,
    {
        let it = &items[i];
        let np = extended(prefix, i);
        let ghost before = out@;
        assert(np@[pl] == i);
        assert forall|q: Seq<usize>| #[trigger]
            shortcut_hit(items@, q, chords@) && q[0] == i && q.len() == 1 implies q =~= seq![i]
            && it.enabled && it.children@.len() == 0 && pressed(*it, chords@) by {
            assert(q.last() == i);
        };
        assert forall|q: Seq<usize>| #[trigger]
            shortcut_hit(items@, q, chords@) && q[0] == i && q.len() > 1 implies it.children@.len() > 0
            && shortcut_hit(it.children@, q.drop_first(), chords@) by {
            assert(q.drop_first().last() == q.last());
            assert(reaches(it.children@, q.drop_first()));
            assert(q.drop_first()[0] < it.children@.len());
        };
        if it.children.len() > 0 {
            proof {
                assert(decreases_to!(items => items@[i as int]));
            }
            collect_shortcuts(&it.children, chords, &np, out);
            assert forall|q: Seq<usize>| #[trigger]
                shortcut_hit(items@, q, chords@) && q[0] == i implies views(out@).contains(
                prefix@ + q,
            ) by {
                let r = q.drop_first();
                assert(np@ + r =~= prefix@ + q);
            };
            assert forall|k: int| start.len() <= k < out@.len() implies hit_under(items@, prefix@, #[trigger] out@[k]@, chords@) && (out@[k]@)[pl] < i + 1 by {
                if k >= before.len() {
                    let v = out@[k]@;
                    assert(hit_under(it.children@, np@, v, chords@));
                    let r = v.skip(np@.len() as int);
                    let q = v.skip(prefix@.len() as int);
                    assert(q.drop_first() =~= r);
                    assert(v.take(prefix@.len() as int) =~= v.take(np@.len() as int).take(prefix@.len() as int));
                    assert(np@.take(prefix@.len() as int) =~= prefix@);
                    assert(q[0] == v[prefix@.len() as int]);
                    assert(v.take(np@.len() as int)[prefix@.len() as int] == np@[prefix@.len() as int]);
                    assert(q.last() == r.last());
                    assert(shortcut_hit(items@, q, chords@));
                } else {
                    assert(views(out@)[k] == views(before)[k]);
                    assert(out@[k]@ == before[k]@);
                }
            };
            assert forall|a: int, b: int| start.len() <= a < b < out@.len() implies #[trigger] out@[a]@ != #[trigger] out@[b]@ by {
                if b < before.len() {
                    assert(views(out@)[a] == views(before)[a]);
                    assert(views(out@)[b] == views(before)[b]);
                } else if a < before.len() {
                    assert(views(out@)[a] == views(before)[a]);
                    let v = out@[b]@;
                    assert(hit_under(it.children@, np@, v, chords@));
                    assert(v.take(np@.len() as int)[pl] == np@[pl]);
                    assert(out@[a]@[pl] != out@[b]@[pl]);
                }
            };
            assert(views(out@).take(start.len() as int) =~= views(start)) by {
                assert(views(out@).take(before.len() as int) == views(before));
                assert(views(before).take(start.len() as int) == views(start));
            };
        } else if it.enabled && is_pressed(it, chords) {
            let ghost q = seq![i];
            assert(shortcut_hit(items@, q, chords@)) by {
                assert(q.last() == i);
            };
            assert(prefix@ + q =~= np@);
            out.push(np);
            assert(views(out@) =~= views(before).push(prefix@ + q));
            assert(views(out@).take(start.len() as int) =~= views(before).take(
                start.len() as int,
            ));
            assert(views(out@)[before.len() as int] == prefix@ + q);
            assert forall|k: int| start.len() <= k < out@.len() implies hit_under(items@, prefix@, #[trigger] out@[k]@, chords@) && (out@[k]@)[pl] < i + 1 by {
                if k < before.len() {
                    assert(out@[k] == before[k]);
                } else {
                    assert(out@[k]@ == prefix@ + q);
                    assert((prefix@ + q).take(prefix@.len() as int) =~= prefix@);
                    assert((prefix@ + q).skip(prefix@.len() as int) =~= q);
                }
            };
            assert forall|a: int, b: int| start.len() <= a < b < out@.len() implies #[trigger] out@[a]@ != #[trigger] out@[b]@ by {
                assert(out@[a] == before[a]);
                if b < before.len() {
                    assert(out@[b] == before[b]);
                } else {
                    assert(out@[b]@ == np@);
                    assert(out@[a]@[pl] != out@[b]@[pl]);
                }
            };
        }
        assert forall|q: Seq<usize>| #[trigger]
            shortcut_hit(items@, q, chords@) && q[0] < i + 1 implies views(out@).contains(
            prefix@ + q,
        ) by {
            if q[0] < i {
                let w = choose|w: int| 0 <= w < views(before).len() && views(before)[w] == prefix@ + q;
                assert(views(out@).take(before.len() as int) == views(before)) by {
                    if out@.len() > before.len() {
                    } else {
                        assert(views(out@) =~= views(before));
                    }
                };
                assert(views(out@)[w] == views(before)[w]);
            } else if q.len() == 1 {
                assert(views(out@)[before.len() as int] == prefix@ + q);
            }
        };
        i = i + 1;
    }
}

} // verus!
