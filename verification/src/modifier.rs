use vstd::prelude::*;

verus! {

/// A value that knows how to apply itself to a target of type `F`: a status,
/// a header line, a body, or several of them in a tuple.
pub trait Modifier<F: View>: Sized {
    /// What applying this value may do: a target that holds `pre` may hold
    /// `post` afterwards. Unless an implementor says more, anything.
    open spec fn modifies(self, pre: F::V, post: F::V) -> bool {
        true
    }

    /// Applies this value to `target`.
    fn modify(self, target: &mut F)
        ensures
            self.modifies(old(target)@, final(target)@),
    ;
}

/// Two modifiers apply one after the other, the left one first.
impl<F: View, M1: Modifier<F>, M2: Modifier<F>> Modifier<F> for (M1, M2) {
    open spec fn modifies(self, pre: F::V, post: F::V) -> bool {
        exists|mid: F::V| self.0.modifies(pre, mid) && self.1.modifies(mid, post)
    }

    fn modify(self, target: &mut F) {
        self.0.modify(target);
        let ghost mid = target@;
        self.1.modify(target);
        assert(self.0.modifies(old(target)@, mid) && self.1.modifies(mid, target@));
    }
}

/// Three modifiers apply from left to right.
impl<F: View, M1: Modifier<F>, M2: Modifier<F>, M3: Modifier<F>> Modifier<F> for (M1, M2, M3) {
    open spec fn modifies(self, pre: F::V, post: F::V) -> bool {
        exists|first: F::V, second: F::V|
            {
                &&& self.0.modifies(pre, first)
                &&& self.1.modifies(first, second)
                &&& self.2.modifies(second, post)
            }
    }

    fn modify(self, target: &mut F) {
        self.0.modify(target);
        let ghost first = target@;
        self.1.modify(target);
        let ghost second = target@;
        self.2.modify(target);
        assert(self.0.modifies(old(target)@, first) && self.1.modifies(first, second) && self.2.modifies(
            second,
            target@,
        ));
    }
}

} // verus!
