//! Items with their places in a grid filled row by row.

use vstd::prelude::*;

verus! {

/// Hands out items together with their place `(x, y)` in a grid of the given width that
/// is filled row by row.
pub struct Enumerate2d<T> {
    items: Vec<T>,
    count: usize,
    width: usize,
}

impl<T: Copy> Enumerate2d<T> {
    pub closed spec fn items(&self) -> Seq<T> {
        self.items@
    }

    pub closed spec fn count(&self) -> nat {
        self.count as nat
    }

    pub closed spec fn width(&self) -> nat {
        self.width as nat
    }

    pub open spec fn wf(&self) -> bool {
        self.width() > 0 && self.count() <= self.items().len()
    }

    pub fn new(items: Vec<T>, width: usize) -> (r: Enumerate2d<T>)
        requires
            width > 0,
        ensures
            r.wf(),
            r.items() == items@,
            r.count() == 0,
            r.width() == width,
    {
        Enumerate2d { items, count: 0, width }
    }

    /// The next item with its place, or `None` once every item was handed out.
    pub fn next(&mut self) -> (r: Option<((usize, usize), T)>)
        requires
            old(self).wf(),
        ensures
            final(self).wf(),
            final(self).items() == old(self).items(),
            final(self).width() == old(self).width(),
            old(self).count() < old(self).items().len() ==> final(self).count() == old(self).count() + 1
                && r == Some(
                (
                    (
                        (old(self).count() % old(self).width()) as usize,
                        (old(self).count() / old(self).width()) as usize,
                    ),
                    old(self).items()[old(self).count() as int],
                ),
            ),
            old(self).count() >= old(self).items().len() ==> final(self).count() == old(self).count()
                && r.is_none(),
    {
        if self.count >= self.items.len() {
            return None;
        }
        let a = self.items[self.count];
        let x = self.count % self.width;
        let y = self.count / self.width;
        self.count += 1;
        Some(((x, y), a))
    }
}

} // verus!
