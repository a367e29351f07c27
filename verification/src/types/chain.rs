use vstd::prelude::*;

verus! {

/// An append-only sequence with constant-time head access, iteration from
/// newest to oldest, and in-place replacement of an element (the validator
/// tests tamper with a block through it).
pub struct Chain<T> {
    items: Vec<T>,
}

impl<T> View for Chain<T> {
    type V = Seq<T>;

    closed spec fn view(&self) -> Seq<T> {
        self.items@
    }
}

/// Iterates a chain from its newest element to its oldest.
pub struct ChainIter<'a, T> {
    chain: &'a Chain<T>,
    remaining: usize,
}

impl<'a, T> View for ChainIter<'a, T> {
    type V = Seq<T>;

    /// The elements still to be yielded, newest first.
    closed spec fn view(&self) -> Seq<T> {
        self.chain@.take(self.remaining as int).reverse()
    }
}

impl<'a, T> ChainIter<'a, T> {
    /// Never more elements left than the chain holds.
    #[verifier::type_invariant]
    closed spec fn wf(&self) -> bool {
        self.remaining <= self.chain@.len()
    }

    pub fn next(&mut self) -> (r: Option<&'a T>)
        ensures
            match r {
                None => old(self)@.len() == 0 && final(self)@ == old(self)@,
                Some(x) => old(self)@.len() > 0 && *x == old(self)@[0] && final(self)@ == old(
                    self,
                )@.drop_first(),
            },
    {
        proof {
            use_type_invariant(&*self);
        }
        if self.remaining == 0 {
            None
        } else {
            let i = self.remaining - 1;
            self.remaining = i;
            let x = self.chain.get(i);
            proof {
                let s = self.chain@;
                assert(old(self)@[0] == s[i as int]);
                assert(final(self)@ =~= old(self)@.drop_first());
            }
            Some(x)
        }
    }
}

impl<T> Chain<T> {
    pub fn new() -> (r: Self)
        ensures
            r@ == Seq::<T>::empty(),
    {
        Chain { items: Vec::new() }
    }

    pub fn append(&mut self, item: T)
        ensures
            final(self)@ == old(self)@.push(item),
    {
        self.items.push(item);
    }

    pub fn len(&self) -> (r: usize)
        ensures
            r == self@.len(),
    {
        self.items.len()
    }

    /// The newest element, if any.
    pub fn head(&self) -> (r: Option<&T>)
        ensures
            match r {
                Some(x) => self@.len() > 0 && *x == self@.last(),
                None => self@.len() == 0,
            },
    {
        if self.items.len() == 0 {
            None
        } else {
            Some(&self.items[self.items.len() - 1])
        }
    }

    /// The element `i` places from the oldest end.
    pub fn get(&self, i: usize) -> (r: &T)
        requires
            i < self@.len(),
        ensures
            *r == self@[i as int],
    {
        &self.items[i]
    }

    /// Replaces the element `i` places from the oldest end.
    pub fn set(&mut self, i: usize, item: T)
        requires
            i < old(self)@.len(),
        ensures
            final(self)@ == old(self)@.update(i as int, item),
    {
        let slot = &mut self.items[i];
        *slot = item;
    }

    pub fn iter(&self) -> (r: ChainIter<T>)
        ensures
            r@ == self@.reverse(),
    {
        let r = ChainIter { chain: self, remaining: self.items.len() };
        proof {
            assert(self@.take(self@.len() as int) =~= self@);
        }
        r
    }
}

} // verus!
