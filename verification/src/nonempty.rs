//! A vector with at least one element, kept non-empty by construction.

use vstd::prelude::*;

verus! {

/// A non-empty vector: the first element, then the rest. Emptiness is
/// impossible by shape, so no invariant needs carrying around.
#[derive(Debug, Clone)]
pub struct NonEmptyVec<T> {
    pub head: T,
    pub tail: Vec<T>,
}

impl<T> View for NonEmptyVec<T> {
    type V = Seq<T>;

    open spec fn view(&self) -> Seq<T> {
        seq![self.head] + self.tail@
    }
}

impl<T> NonEmptyVec<T> {
    /// The singleton vector.
    pub fn new(head: T) -> (r: Self)
        ensures
            r@ =~= seq![head],
    {
        NonEmptyVec { head, tail: Vec::new() }
    }

    /// Append one element.
    pub fn push(&mut self, t: T)
        ensures
            final(self)@ =~= old(self)@.push(t),
    {
        self.tail.push(t);
    }

    /// How many elements there are; always at least one.
    pub fn len(&self) -> (r: usize)
        requires
            self@.len() <= usize::MAX,
        ensures
            r == self@.len(),
            r >= 1,
    {
        1 + self.tail.len()
    }

    /// The element at `i`.
    pub fn get(&self, i: usize) -> (r: &T)
        requires
            i < self@.len(),
        ensures
            *r == self@[i as int],
    {
        if i == 0 {
            &self.head
        } else {
            &self.tail[i - 1]
        }
    }

    /// Wrap a vector, refusing an empty one.
    pub fn from_vec(items: Vec<T>) -> (r: Option<Self>)
        ensures
            match r {
                Some(ne) => items@.len() > 0 && ne@ =~= items@,
                None => items@.len() == 0,
            },
    {
        let mut items = items;
        if items.len() == 0 {
            None
        } else {
            let head = items.remove(0);
            Some(NonEmptyVec { head, tail: items })
        }
    }

    /// The elements as a plain vector.
    pub fn into_vec(self) -> (r: Vec<T>)
        ensures
            r@ =~= self@,
    {
        let mut out: Vec<T> = Vec::new();
        out.push(self.head);
        let mut tail = self.tail;
        let ghost tail_view = tail@;
        let ghost done: int = 0;
        while tail.len() > 0
            invariant
                0 <= done <= tail_view.len(),
                tail@ == tail_view.skip(done),
                out@ == seq![self.head] + tail_view.take(done),
            decreases tail@.len(),
        {
            let t = tail.remove(0);
            out.push(t);
            proof {
                assert(tail_view.take(done + 1) =~= tail_view.take(done).push(tail_view[done]));
                assert(tail@ =~= tail_view.skip(done + 1));
            }
            proof {
                done = done + 1;
            }
        }
        proof {
            assert(tail_view.take(done) =~= tail_view);
        }
        out
    }
}

} // verus!
