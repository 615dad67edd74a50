//! Copies that keep the view.

use vstd::prelude::*;

verus! {

/// A value that can be copied so that the copy has the same view.
pub trait Replicate: DeepView + Sized {
    fn replicate(&self) -> (r: Self)
        ensures
            r.deep_view() == self.deep_view(),
    ;
}

impl Replicate for String {
    fn replicate(&self) -> (r: Self) {
        self.clone()
    }
}

impl Replicate for i64 {
    fn replicate(&self) -> (r: Self) {
        *self
    }
}

impl Replicate for usize {
    fn replicate(&self) -> (r: Self) {
        *self
    }
}

impl<T: Replicate> Replicate for Option<T> {
    fn replicate(&self) -> (r: Self) {
        match self {
            Some(t) => Some(t.replicate()),
            None => None,
        }
    }
}

impl<T: Replicate> Replicate for Vec<T> {
    fn replicate(&self) -> (r: Self) {
        let mut out: Vec<T> = Vec::new();
        let mut i: usize = 0;
        while i < self.len()
            invariant
                i <= self.len(),
                out.len() == i,
                forall|j: int| 0 <= j < i ==> out[j].deep_view() == self[j].deep_view(),
            decreases self.len() - i,
        {
            out.push(self[i].replicate());
            i += 1;
        }
        assert(out.deep_view() =~= self.deep_view());
        out
    }
}

} // verus!
