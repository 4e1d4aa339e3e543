//! Page navigation and a two-list transfer widget.

use vstd::prelude::*;
use crate::callback::Handler;

verus! {

/// Page navigation over pages `1..=total_pages`.
#[derive(Clone)]
pub struct HringrPagination {
    pub current_page: usize,
    pub total_pages: usize,
    pub on_change: Handler<usize>,
}

impl HringrPagination {
    /// Creates a new HringrPagination, on page 1.
    pub fn new(total_pages: usize, on_change: impl Fn(usize) + Send + Sync + 'static) -> (r: Self)
        requires
            forall|a: usize| call_requires(on_change, (a,)),
        ensures
            r.current_page == 1,
            r.total_pages == total_pages,
            forall|a: usize| #[trigger] r.on_change.promises(a) == call_ensures(on_change, (a,), ()),
    {
        HringrPagination { current_page: 1, total_pages, on_change: Handler::new(on_change) }
    }

    /// Sets the current page, clamped to `1..=total_pages` (there must be at
    /// least one page).
    pub fn current_page(self, page: usize) -> (r: Self)
        requires
            self.total_pages >= 1,
        ensures
            r.total_pages == self.total_pages,
            r.current_page == (if page < 1 { 1 } else if page > self.total_pages { self.total_pages } else { page }),
            r == (HringrPagination { current_page: r.current_page, ..self }),
    {
        let current_page = if page < 1 { 1 } else if page > self.total_pages { self.total_pages } else { page };
        HringrPagination { current_page, ..self }
    }

    /// The page numbers shown as buttons: `1..=min(total_pages, 5)`.
    pub fn visible_pages(&self) -> (r: Vec<usize>)
        ensures
            r@.len() == (if self.total_pages < 5 { self.total_pages } else { 5 }),
            forall|i: int| 0 <= i < r@.len() ==> r@[i] == i + 1,
    {
        let last: usize = if self.total_pages < 5 { self.total_pages } else { 5 };
        let mut r: Vec<usize> = Vec::new();
        let mut i: usize = 1;
        while i <= last
            invariant
                last <= 5,
                1 <= i <= last + 1,
                r@.len() == i - 1,
                forall|k: int| 0 <= k < r@.len() ==> r@[k] == k + 1,
            decreases last + 1 - i,
        {
            r.push(i);
            i = i + 1;
        }
        r
    }
}

/// Two lists of items with controls to move items between them.
#[derive(Clone)]
pub struct GeriTransfer<T> {
    left_items: Vec<T>,
    right_items: Vec<T>,
}

/// A copy of a slice made item by item with `Clone`.
fn clone_all<T: Clone>(items: &[T]) -> (r: Vec<T>)
    ensures
        r@.len() == items@.len(),
        forall|i: int| 0 <= i < items@.len() ==> cloned::<T>(items@[i], r@[i]),
{
    let mut r: Vec<T> = Vec::new();
    let n = items.len();
    let mut i: usize = 0;
    while i < n
        invariant
            n == items@.len(),
            i <= n,
            r@.len() == i,
            forall|k: int| 0 <= k < i ==> cloned::<T>(items@[k], r@[k]),
        decreases n - i,
    {
        r.push(items[i].clone());
        i = i + 1;
    }
    r
}

impl<T: Clone> GeriTransfer<T> {
    /// The items of the left list.
    pub closed spec fn left(&self) -> Seq<T> {
        self.left_items@
    }

    /// The items of the right list.
    pub closed spec fn right(&self) -> Seq<T> {
        self.right_items@
    }

    pub fn new(left: &[T], right: &[T]) -> (r: Self)
        ensures
            r.left().len() == left@.len(),
            r.right().len() == right@.len(),
            forall|i: int| 0 <= i < left@.len() ==> cloned::<T>(left@[i], r.left()[i]),
            forall|i: int| 0 <= i < right@.len() ==> cloned::<T>(right@[i], r.right()[i]),
    {
        GeriTransfer { left_items: clone_all(left), right_items: clone_all(right) }
    }
}

} // verus!
