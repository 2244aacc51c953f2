//! An item source over the elements of a vector.
use crate::stream::ItemSource;
use vstd::prelude::*;

verus! {

/// Hands out the elements of a vector, first to last.
///
/// The elements are held in reverse, so that each one is taken from the end.
pub struct VecItems<T> {
    reversed: Vec<T>,
    pulls: Ghost<nat>,
}

impl<T> VecItems<T> {
    /// Hands out the elements of `v`, first to last.
    pub fn new(v: Vec<T>) -> (r: Self)
        ensures
            r.source_inv(),
            r.items() == v@,
            r.pulls() == 0,
    {
        let ghost initial = v@;
        let mut v = v;
        let mut reversed: Vec<T> = Vec::new();
        while v.len() > 0
            invariant
                v@ == initial.take(v.len() as int),
                reversed.len() + v.len() == initial.len(),
                forall|j: int|
                    0 <= j < reversed.len() ==> #[trigger] reversed@[j] == initial[initial.len() - 1 - j],
            decreases v.len(),
        {
            let x = v.pop().unwrap();
            reversed.push(x);
        }
        let r = VecItems { reversed, pulls: Ghost(0) };
        assert(r.items() =~= initial);
        r
    }
}

impl<T> ItemSource for VecItems<T> {
    type Item = T;

    closed spec fn source_inv(&self) -> bool {
        true
    }

    closed spec fn items(&self) -> Seq<T> {
        Seq::new(self.reversed.len() as nat, |i: int| self.reversed@[self.reversed.len() - 1 - i])
    }

    closed spec fn pulls(&self) -> nat {
        self.pulls@
    }

    fn next_item(&mut self) -> (r: Option<T>) {
        self.pulls = Ghost(self.pulls@ + 1);
        let ghost before = self.items();
        let r = self.reversed.pop();
        assert(self.items() =~= if before.len() > 0 { before.drop_first() } else { before });
        r
    }
}

} // verus!
