use vstd::prelude::*;

use crate::item::Item;
use crate::store::views;

verus! {

/// The items of a list and the position of its cursor.
pub struct ListView {
    pub items: Seq<(Seq<char>, bool)>,
    pub selected: Option<int>,
}

impl ListView {
    /// The cursor is on an item exactly when there is one.
    pub open spec fn wf(self) -> bool {
        match self.selected {
            None => self.items.len() == 0,
            Some(i) => 0 <= i < self.items.len(),
        }
    }

    /// The cursor moved one down, back to the top after the last item.
    pub open spec fn next(self) -> ListView {
        match self.selected {
            None => self,
            Some(i) => ListView { items: self.items, selected: Some((i + 1) % (self.items.len() as int)) },
        }
    }

    /// The cursor moved one up, to the last item from the first.
    pub open spec fn prev(self) -> ListView {
        match self.selected {
            None => self,
            Some(i) => ListView {
                items: self.items,
                selected: Some((i + self.items.len() - 1) % (self.items.len() as int)),
            },
        }
    }

    /// An item appended; on an empty list the cursor goes to it.
    pub open spec fn pushed(self, item: (Seq<char>, bool)) -> ListView {
        ListView {
            items: self.items.push(item),
            selected: if self.items.len() == 0 {
                Some(0)
            } else {
                self.selected
            },
        }
    }

    /// The item under the cursor flipped.
    pub open spec fn toggled(self) -> ListView {
        match self.selected {
            None => self,
            Some(i) => ListView {
                items: self.items.update(i, (self.items[i].0, !self.items[i].1)),
                selected: self.selected,
            },
        }
    }

    /// The item under the cursor taken out; the cursor goes to the item before it, or to the
    /// last one when the first was taken out, or nowhere when none is left.
    pub open spec fn removed(self) -> ListView {
        match self.selected {
            None => self,
            Some(i) => ListView {
                items: self.items.remove(i),
                selected: if self.items.len() == 1 {
                    None
                } else {
                    Some((i + self.items.len() - 2) % (self.items.len() - 1))
                },
            },
        }
    }

    /// The cursor moved `k` times down.
    pub open spec fn next_n(self, k: nat) -> ListView
        decreases k,
    {
        if k == 0 {
            self
        } else {
            self.next_n((k - 1) as nat).next()
        }
    }

    /// The cursor moved `k` times up.
    pub open spec fn prev_n(self, k: nat) -> ListView
        decreases k,
    {
        if k == 0 {
            self
        } else {
            self.prev_n((k - 1) as nat).prev()
        }
    }
}

/// Where the cursor of a list starts: on the first item, if there is one.
pub open spec fn first_selected(n: nat) -> Option<int> {
    if n == 0 {
        None
    } else {
        Some(0)
    }
}

proof fn lemma_mod_cases(a: int, n: int)
    requires
        0 < n,
        0 <= a < 2 * n,
    ensures
        a < n ==> a % n == a,
        a >= n ==> a % n == a - n,
{
    if a < n {
        vstd::arithmetic::div_mod::lemma_small_mod(a as nat, n as nat);
    } else {
        vstd::arithmetic::div_mod::lemma_mod_sub_multiples_vanish(a, n);
        vstd::arithmetic::div_mod::lemma_small_mod((a - n) as nat, n as nat);
    }
}

/// The items of one day, in the order shown and stored, with a cursor on one of them.
#[derive(Debug)]
pub struct SelectableList {
    items: Vec<Item>,
    selected: Option<usize>,
}

impl View for SelectableList {
    type V = ListView;

    closed spec fn view(&self) -> ListView {
        ListView {
            items: views(self.items@),
            selected: match self.selected {
                Some(i) => Some(i as int),
                None => None,
            },
        }
    }
}

impl SelectableList {
    /// A list of these items, with the cursor on the first one.
    pub fn new(items: Vec<Item>) -> (r: SelectableList)
        ensures
            r@.wf(),
            r@.items == views(items@),
            r@.selected == first_selected(items@.len()),
    {
        let selected = if items.len() == 0 {
            None
        } else {
            Some(0)
        };
        SelectableList { items, selected }
    }

    /// The items, in order.
    pub fn items(&self) -> (r: &Vec<Item>)
        ensures
            views(r@) == self@.items,
    {
        &self.items
    }

    /// The position of the cursor, if the list has items.
    pub fn selected(&self) -> (r: Option<usize>)
        ensures
            r matches Some(i) ==> self@.selected == Some(i as int),
            r is None ==> self@.selected is None,
    {
        self.selected
    }

    /// The number of items.
    pub fn len(&self) -> (r: usize)
        ensures
            r == self@.items.len(),
    {
        self.items.len()
    }

    /// Appends an item; on an empty list the cursor goes to it, else it stays where it was.
    pub fn push(&mut self, item: Item)
        requires
            old(self)@.wf(),
        ensures
            final(self)@.wf(),
            final(self)@ == old(self)@.pushed(item@),
    {
        let ghost old_items = self.items@;
        if self.items.len() == 0 {
            self.selected = Some(0);
        }
        self.items.push(item);
        assert(views(self.items@) =~= views(old_items).push(item@));
    }

    /// Moves the cursor one down, back to the first item after the last; nothing on an empty list.
    pub fn next(&mut self)
        requires
            old(self)@.wf(),
        ensures
            final(self)@ == old(self)@.next(),
            final(self)@.wf(),
    {
        match self.selected {
            Some(i) => {
                let n = self.items.len();
                let j = if i + 1 == n { 0 } else { i + 1 };
                proof {
                    lemma_mod_cases(i + 1, n as int);
                }
                self.selected = Some(j);
            },
            None => {},
        }
    }

    /// Moves the cursor one up, to the last item from the first; nothing on an empty list.
    pub fn prev(&mut self)
        requires
            old(self)@.wf(),
        ensures
            final(self)@ == old(self)@.prev(),
            final(self)@.wf(),
    {
        match self.selected {
            Some(i) => {
                let n = self.items.len();
                let j = if i == 0 { n - 1 } else { i - 1 };
                proof {
                    lemma_mod_cases(i + n - 1, n as int);
                }
                self.selected = Some(j);
            },
            None => {},
        }
    }

    /// Flips the item under the cursor; nothing on an empty list.
    pub fn toggle_selected(&mut self)
        requires
            old(self)@.wf(),
        ensures
            final(self)@.wf(),
            final(self)@ == old(self)@.toggled(),
    {
        match self.selected {
            Some(i) => {
                let ghost old_items = self.items@;
                let mut it = self.items.remove(i);
                it.toggle();
                self.items.insert(i, it);
                assert(views(self.items@) =~= views(old_items).update(
                    i as int,
                    (views(old_items)[i as int].0, !views(old_items)[i as int].1),
                ));
            },
            None => {},
        }
    }

    /// Removes the item under the cursor, which goes to the item before it (the last one
    /// when the first was removed), or nowhere when none is left; nothing on an empty list.
    pub fn remove_selected(&mut self)
        requires
            old(self)@.wf(),
        ensures
            final(self)@.wf(),
            final(self)@ == old(self)@.removed(),
    {
        match self.selected {
            Some(i) => {
                let ghost old_items = self.items@;
                self.items.remove(i);
                assert(views(self.items@) =~= views(old_items).remove(i as int));
                let n = self.items.len();
                if n == 0 {
                    self.selected = None;
                } else {
                    let j = if i == 0 { n - 1 } else { i - 1 };
                    proof {
                        lemma_mod_cases(i + n - 1, n as int);
                    }
                    self.selected = Some(j);
                }
            },
            None => {},
        }
    }
}

proof fn lemma_next_n(v: ListView, k: nat)
    requires
        v.wf(),
        v.selected is Some,
    ensures
        v.next_n(k).items == v.items,
        v.next_n(k).selected == Some((v.selected->0 + k) % (v.items.len() as int)),
    decreases k,
{
    let i = v.selected->0;
    let n = v.items.len() as int;
    if k == 0 {
        vstd::arithmetic::div_mod::lemma_small_mod(i as nat, n as nat);
    } else {
        lemma_next_n(v, (k - 1) as nat);
        vstd::arithmetic::div_mod::lemma_add_mod_noop_right(1, i + k - 1, n);
    }
}

proof fn lemma_prev_n(v: ListView, k: nat)
    requires
        v.wf(),
        v.selected is Some,
    ensures
        v.prev_n(k).items == v.items,
        v.prev_n(k).selected == Some((v.selected->0 - k) % (v.items.len() as int)),
    decreases k,
{
    let i = v.selected->0;
    let n = v.items.len() as int;
    if k == 0 {
        vstd::arithmetic::div_mod::lemma_small_mod(i as nat, n as nat);
    } else {
        lemma_prev_n(v, (k - 1) as nat);
        vstd::arithmetic::div_mod::lemma_add_mod_noop_right(n - 1, i - k + 1, n);
        vstd::arithmetic::div_mod::lemma_mod_add_multiples_vanish(i - k, n);
    }
}

/// Moving the cursor down as many times as there are items brings it back where it
/// started, and so does moving it up; on an empty list either move leaves it as it is.
pub proof fn lemma_wraparound(v: ListView)
    requires
        v.wf(),
    ensures
        v.next_n(v.items.len()) == v,
        v.prev_n(v.items.len()) == v,
        v.items.len() == 0 ==> v.next() == v && v.prev() == v,
{
    let n = v.items.len();
    if n > 0 {
        let i = v.selected->0;
        lemma_next_n(v, n);
        lemma_prev_n(v, n);
        vstd::arithmetic::div_mod::lemma_mod_add_multiples_vanish(i, n as int);
        vstd::arithmetic::div_mod::lemma_mod_add_multiples_vanish(i - n, n as int);
        vstd::arithmetic::div_mod::lemma_small_mod(i as nat, n as nat);
    } else {
        assert(v.next_n(0) == v);
        assert(v.prev_n(0) == v);
    }
}

} // verus!
