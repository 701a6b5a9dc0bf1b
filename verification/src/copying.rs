//! Copies that keep what a value holds.
use vstd::prelude::*;

verus! {

/// A value that can be copied without changing its view.
pub trait Copied: DeepView + Sized {
    fn copied(&self) -> (r: Self)
        ensures
            r.deep_view() == self.deep_view(),
    ;
}

impl Copied for String {
    fn copied(&self) -> (r: Self) {
        self.clone()
    }
}

impl<T: Copied> Copied for Option<T> {
    fn copied(&self) -> (r: Self) {
        match self {
            Some(value) => Some(value.copied()),
            None => None,
        }
    }
}

impl<T: Copied> Copied for Vec<T> {
    fn copied(&self) -> (r: Self) {
        let mut r: Vec<T> = Vec::new();
        let mut i: usize = 0;
        let ghost all = self.deep_view();
        while i < self.len()
            invariant
                i <= self@.len(),
                all == self.deep_view(),
                all.len() == self@.len(),
                r.deep_view() == all.take(i as int),
            decreases self@.len() - i,
        {
            let ghost before = r.deep_view();
            r.push(self[i].copied());
            assert(r.deep_view() =~= before.push(self@[i as int].deep_view()));
            assert(all.take(i + 1) =~= all.take(i as int).push(self@[i as int].deep_view()));
            i += 1;
        }
        assert(all.take(all.len() as int) =~= all);
        r
    }
}

} // verus!
