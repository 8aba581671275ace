use vstd::prelude::*;
use crate::geometry::{Point, Rect};

verus! {

/// A minimal horizontal bar of clickable items.
pub struct MenuBar<A> {
    pub items: Vec<MenuItem<A>>,
}

impl<A> Default for MenuBar<A> {
    fn default() -> (r: Self)
        ensures
            r.items@.len() == 0,
    {
        Self::new()
    }
}

/// One item of a `MenuBar`: its text and the action a click runs.
pub struct MenuItem<A> {
    pub label: String,
    pub action: Option<A>,
}

impl<A> MenuBar<A> {
    pub fn new() -> (r: Self)
        ensures
            r.items@.len() == 0,
    {
        MenuBar { items: Vec::new() }
    }

    /// Appends an item; returns the bar for chaining.
    pub fn add_item(self, label: &str, action: Option<A>) -> (r: Self)
        ensures
            r.items@.len() == self.items@.len() + 1,
            r.items@.drop_last() == self.items@,
            r.items@.last().label@ == label@,
            r.items@.last().action == action,
    {
        let mut s = self;
        s.items.push(MenuItem { label: label.to_string(), action });
        proof {
            assert(s.items@.drop_last() =~= self.items@);
        }
        s
    }

    /// The item under `p`, given where each item was painted (same order as
    /// the items); the first one that holds it.
    pub fn hit_test(&self, rects: &Vec<Rect>, p: Point) -> (r: Option<usize>)
        ensures
            r.is_some() ==> {
                let i = r.unwrap() as int;
                &&& i < self.items@.len()
                &&& i < rects@.len()
                &&& rects@[i].spec_contains(p)
                &&& forall|j: int| 0 <= j < i ==> !(#[trigger] rects@[j]).spec_contains(p)
            },
            r.is_none() ==> forall|j: int|
                0 <= j < rects@.len() && j < self.items@.len() ==> !(#[trigger] rects@[j]).spec_contains(p),
    {
        let mut i: usize = 0;
        while i < rects.len() && i < self.items.len()
            invariant
                i <= rects@.len(),
                i <= self.items@.len(),
                forall|j: int| 0 <= j < i ==> !(#[trigger] rects@[j]).spec_contains(p),
            decreases rects@.len() - i,
        {
            if rects[i].contains(p) {
                return Some(i);
            }
            i = i + 1;
        }
        None
    }

    /// The action that a click on item `i` runs.
    pub fn action_on_click(&self, i: usize) -> (r: Option<&A>)
        ensures
            r.is_some() == (i < self.items@.len() && self.items@[i as int].action.is_some()),
            r.is_some() ==> *r.unwrap() == self.items@[i as int].action.unwrap(),
    {
        if i < self.items.len() {
            self.items[i].action.as_ref()
        } else {
            None
        }
    }
}

} // verus!
