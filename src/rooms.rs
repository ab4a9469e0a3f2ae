//! Rooms to clean and the operator's ordered choice of them.
use vstd::prelude::*;
use crate::api::{Extra, Region, StartRegions};

verus! {

/// A named room and the region that stands for it.
pub struct Room {
    pub name: String,
    pub region: Region,
}

impl Room {
    /// The room's name, as it is shown.
    pub fn label(&self) -> (r: String)
        ensures
            r@ == self.name@,
    {
        self.name.clone()
    }
}

/// An input event of an interactive front end.
pub enum Event<I> {
    Input(I),
}

/// Items that can each be chosen, with a cursor. Chosen items come first, in the order the
/// operator gave them.
pub struct StatefulList<T> {
    pub items: Vec<(T, bool)>,
    pub selected: Option<usize>,
}

/// The items whose mark is `mark`, in their order.
pub open spec fn marked<T>(items: Seq<(T, bool)>, mark: bool) -> Seq<(T, bool)>
    decreases items.len(),
{
    if items.len() == 0 {
        Seq::empty()
    } else if items.last().1 == mark {
        marked(items.drop_last(), mark).push(items.last())
    } else {
        marked(items.drop_last(), mark)
    }
}

/// The chosen items, then the others, each group in its former order.
pub open spec fn chosen_first<T>(items: Seq<(T, bool)>) -> Seq<(T, bool)> {
    marked(items, true) + marked(items, false)
}

/// The regions of the chosen rooms, in the order the operator gave them.
pub open spec fn chosen_regions(items: Seq<(Room, bool)>) -> Seq<Region> {
    marked(items, true).map_values(|x: (Room, bool)| x.0.region)
}

/// The cursor after moving down one item, wrapping from the last to the first.
pub open spec fn cursor_after_next(selected: Option<usize>, len: nat) -> usize {
    match selected {
        Some(i) => if len == 0 || i >= len - 1 {
            0
        } else {
            (i + 1) as usize
        },
        None => 0,
    }
}

/// The cursor after moving up one item, wrapping from the first to the last; on an empty
/// list the first place stays where it is.
pub open spec fn cursor_after_previous(selected: Option<usize>, len: nat) -> usize {
    match selected {
        Some(i) => if i > 0 {
            (i - 1) as usize
        } else if len == 0 {
            0
        } else {
            (len - 1) as usize
        },
        None => 0,
    }
}

/// Two items trade places.
pub open spec fn swapped<A>(s: Seq<A>, i: int, j: int) -> Seq<A> {
    s.update(i, s[j]).update(j, s[i])
}

impl<T> StatefulList<T> {
    /// A list of the given items, without a cursor.
    pub fn with_items(items: Vec<(T, bool)>) -> (r: StatefulList<T>)
        ensures
            r.items == items,
            r.selected is None,
    {
        StatefulList { items, selected: None }
    }

    /// Moves the cursor down, wrapping to the first item.
    pub fn next(&mut self)
        ensures
            final(self).items == old(self).items,
            final(self).selected == Some(cursor_after_next(old(self).selected, old(self).items.len() as nat)),
    {
        let len = self.items.len();
        let i = match self.selected {
            Some(i) => {
                if len == 0 || i >= len - 1 {
                    0
                } else {
                    i + 1
                }
            },
            None => 0,
        };
        self.selected = Some(i);
    }

    /// Moves the cursor up, wrapping to the last item.
    pub fn previous(&mut self)
        ensures
            final(self).items == old(self).items,
            final(self).selected == Some(cursor_after_previous(old(self).selected, old(self).items.len() as nat)),
    {
        let len = self.items.len();
        let i = match self.selected {
            Some(i) => {
                if i > 0 {
                    i - 1
                } else if len == 0 {
                    0
                } else {
                    len - 1
                }
            },
            None => 0,
        };
        self.selected = Some(i);
    }

    /// Removes the cursor.
    pub fn unselect(&mut self)
        ensures
            final(self).items == old(self).items,
            final(self).selected is None,
    {
        self.selected = None;
    }

    /// Chooses the item under the cursor, or gives it up, then puts the chosen items first.
    pub fn select(&mut self)
        ensures
            final(self).selected == old(self).selected,
            ({
                let old_items = old(self).items@;
                match old(self).selected {
                    Some(i) if i < old_items.len() => final(self).items@ == chosen_first(
                        old_items.update(i as int, (old_items[i as int].0, !old_items[i as int].1)),
                    ),
                    _ => final(self).items@ == old_items,
                }
            }),
    {
        match self.selected {
            Some(i) => {
                if i < self.items.len() {
                    let ghost s = self.items@;
                    let (item, chosen) = self.items.remove(i);
                    self.items.insert(i, (item, !chosen));
                    assert(self.items@ =~= s.update(i as int, (s[i as int].0, !s[i as int].1)));
                    self.put_chosen_first();
                }
            },
            None => {},
        }
    }

    fn put_chosen_first(&mut self)
        ensures
            final(self).selected == old(self).selected,
            final(self).items@ == chosen_first(old(self).items@),
    {
        let ghost all = self.items@;
        let mut chosen: Vec<(T, bool)> = Vec::new();
        let mut others: Vec<(T, bool)> = Vec::new();
        let ghost mut k: int = 0;
        while self.items.len() > 0
            invariant
                0 <= k <= all.len(),
                self.items@ == all.skip(k),
                self.selected == old(self).selected,
                chosen@ == marked(all.take(k), true),
                others@ == marked(all.take(k), false),
            decreases self.items.len(),
        {
            let item = self.items.remove(0);
            proof {
                assert(item == all[k]);
                assert(all.take(k + 1).drop_last() =~= all.take(k));
                assert(all.take(k + 1).last() == all[k]);
                assert(self.items@ =~= all.skip(k + 1));
                k = k + 1;
            }
            if item.1 {
                chosen.push(item);
            } else {
                others.push(item);
            }
        }
        assert(all.take(k) =~= all);
        chosen.append(&mut others);
        self.items = chosen;
    }

    /// Moves the item under the cursor up one place, with the cursor, when both it and the
    /// item above are chosen.
    pub fn move_up(&mut self)
        ensures
            ({
                let s = old(self).items@;
                match old(self).selected {
                    Some(i) if 0 < i < s.len() && s[i as int].1 && s[i - 1].1 => {
                        &&& final(self).items@ == swapped(s, i as int, i - 1)
                        &&& final(self).selected == Some((i - 1) as usize)
                    },
                    _ => final(self).items@ == s && final(self).selected == old(self).selected,
                }
            }),
    {
        match self.selected {
            Some(i) => {
                if i > 0 && i < self.items.len() && self.items[i].1 && self.items[i - 1].1 {
                    let ghost s = self.items@;
                    let elem = self.items.remove(i);
                    self.items.insert(i - 1, elem);
                    assert(self.items@ =~= swapped(s, i as int, i - 1));
                    self.selected = Some(i - 1);
                }
            },
            None => {},
        }
    }

    /// Moves the item under the cursor down one place, with the cursor, when both it and the
    /// item below are chosen.
    pub fn move_down(&mut self)
        ensures
            ({
                let s = old(self).items@;
                match old(self).selected {
                    Some(i) if i + 1 < s.len() && s[i as int].1 && s[i + 1].1 => {
                        &&& final(self).items@ == swapped(s, i as int, i + 1)
                        &&& final(self).selected == Some((i + 1) as usize)
                    },
                    _ => final(self).items@ == s && final(self).selected == old(self).selected,
                }
            }),
    {
        match self.selected {
            Some(i) => {
                if self.items.len() > 0 && i < self.items.len() - 1 && self.items[i].1
                    && self.items[i + 1].1 {
                    let ghost s = self.items@;
                    let elem = self.items.remove(i + 1);
                    self.items.insert(i, elem);
                    assert(self.items@ =~= swapped(s, i as int, i + 1));
                    self.selected = Some(i + 1);
                }
            },
            None => {},
        }
    }
}

impl StatefulList<Room> {
    /// The regions of the chosen rooms, in order.
    pub fn chosen_regions(&self) -> (r: Vec<Region>)
        ensures
            r@ == chosen_regions(self.items@),
    {
        let mut r: Vec<Region> = Vec::new();
        let mut i: usize = 0;
        while i < self.items.len()
            invariant
                0 <= i <= self.items.len(),
                r@ == chosen_regions(self.items@.take(i as int)),
            decreases self.items.len() - i,
        {
            proof {
                assert(self.items@.take(i + 1).drop_last() =~= self.items@.take(i as int));
            }
            if self.items[i].1 {
                r.push(self.items[i].0.region.copy());
            }
            i = i + 1;
            assert(r@ =~= chosen_regions(self.items@.take(i as int)));
        }
        assert(self.items@.take(i as int) =~= self.items@);
        r
    }

    /// A start of the chosen rooms, in order, on the given map.
    pub fn start_job(&self, pmap_id: &str, user_pmapv_id: &str) -> (r: Extra)
        ensures
            r->StartRegions_0.pmap_id@ == pmap_id@,
            r->StartRegions_0.user_pmapv_id@ == user_pmapv_id@,
            r->StartRegions_0.ordered == 1,
            r->StartRegions_0.regions@ == chosen_regions(self.items@),
    {
        Extra::StartRegions(
            StartRegions {
                pmap_id: String::from_str(pmap_id),
                user_pmapv_id: String::from_str(user_pmapv_id),
                ordered: 1,
                regions: self.chosen_regions(),
            },
        )
    }
}

} // verus!
