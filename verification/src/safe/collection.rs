//! Wrappers for working with data structures that act like collections.

use vstd::prelude::*;

verus! {

/// `i` is the position of the first item of `s` that `f` may accept, every
/// item before it being one that `f` may reject.
pub open spec fn first_match<T, F: Fn(&T) -> bool>(s: Seq<T>, f: F, i: int) -> bool {
    &&& 0 <= i < s.len()
    &&& call_ensures(f, (&s[i],), true)
    &&& forall|j: int| 0 <= j < i ==> call_ensures(f, (&#[trigger] s[j],), false)
}

/// `f` may reject every item of `s`.
pub open spec fn no_match<T, F: Fn(&T) -> bool>(s: Seq<T>, f: F) -> bool {
    forall|j: int| 0 <= j < s.len() ==> call_ensures(f, (&#[trigger] s[j],), false)
}

/// `f` can be called on every item of `s`.
pub open spec fn callable_on<T, F: Fn(&T) -> bool>(s: Seq<T>, f: F) -> bool {
    forall|j: int| 0 <= j < s.len() ==> call_requires(f, (&#[trigger] s[j],))
}

/// `j` is a position in a sequence of `len` items.
pub open spec fn in_bounds(j: int, len: nat) -> bool {
    0 <= j < len
}

/// The position of the first item of `s` that `wanted` holds of.
pub open spec fn first_position<T>(s: Seq<T>, wanted: spec_fn(T) -> bool) -> Option<int>
    decreases s.len(),
{
    if s.len() == 0 {
        None
    } else if wanted(s.first()) {
        Some(0)
    } else {
        match first_position(s.drop_first(), wanted) {
            Some(i) => Some(i + 1),
            None => None,
        }
    }
}

/// The first position is one of an item that is wanted, with no such item
/// before it; there is none exactly where no item is wanted.
pub proof fn lemma_first_position<T>(s: Seq<T>, wanted: spec_fn(T) -> bool)
    ensures
        match first_position(s, wanted) {
            Some(i) => 0 <= i < s.len() && wanted(s[i]) && forall|j: int|
                0 <= j < i ==> !wanted(#[trigger] s[j]),
            None => forall|j: int| 0 <= j < s.len() ==> !wanted(#[trigger] s[j]),
        },
    decreases s.len(),
{
    if s.len() > 0 && !wanted(s.first()) {
        let rest = s.drop_first();
        lemma_first_position(rest, wanted);
        match first_position(rest, wanted) {
            Some(i) => {
                assert forall|j: int| 0 <= j < i + 1 implies !wanted(#[trigger] s[j]) by {
                    if j > 0 {
                        assert(s[j] == rest[j - 1]);
                    }
                }
            },
            None => {
                assert forall|j: int| 0 <= j < s.len() implies !wanted(#[trigger] s[j]) by {
                    if j > 0 {
                        assert(s[j] == rest[j - 1]);
                    }
                }
            },
        }
    }
}

/// A position of a wanted item with no wanted item before it is the first
/// position.
pub proof fn lemma_first_position_at<T>(s: Seq<T>, wanted: spec_fn(T) -> bool, i: int)
    requires
        0 <= i < s.len(),
        wanted(s[i]),
        forall|j: int| 0 <= j < i ==> !wanted(#[trigger] s[j]),
    ensures
        first_position(s, wanted) == Some(i),
{
    lemma_first_position(s, wanted);
}

/// # List
/// Represents a sequence of items. It is a wrapper around Vec that does not expose the underlying Vec.
#[derive(Debug, PartialEq, Eq)]
pub struct List<T> {
    items: Vec<T>,
}

impl<T> View for List<T> {
    type V = Seq<T>;

    closed spec fn view(&self) -> Seq<T> {
        self.items@
    }
}

impl<T> List<T> {
    /// Creates an empty List.
    pub fn new() -> (list: List<T>)
        ensures
            list@ == Seq::<T>::empty(),
    {
        List { items: Vec::new() }
    }

    /// Creates a new List from a Vec.
    pub fn from(items: Vec<T>) -> (list: List<T>)
        ensures
            list@ == items@,
    {
        List { items }
    }

    /// Adds an item to the end of the List.
    pub fn add(&mut self, item: T)
        ensures
            final(self)@ == old(self)@.push(item),
    {
        self.items.push(item);
    }

    /// Position of the first item that satisfies the predicate.
    fn position<F>(&self, f: &F) -> (found: Option<usize>) where F: Fn(&T) -> bool
        requires
            callable_on(self@, *f),
        ensures
            match found {
                Some(i) => first_match(self@, *f, i as int),
                None => no_match(self@, *f),
            },
    {
        let mut i: usize = 0;
        while i < self.items.len()
            invariant
                i <= self.items.len(),
                callable_on(self@, *f),
                forall|j: int| 0 <= j < i ==> call_ensures(*f, (&#[trigger] self@[j],), false),
            decreases self.items.len() - i,
        {
            if f(&self.items[i]) {
                return Some(i);
            }
            i += 1;
        }
        None
    }

    /// Returns true if an item satisfies the predicate.
    pub fn has<F>(&self, f: F) -> (found: bool) where F: Fn(&T) -> bool
        requires
            callable_on(self@, f),
        ensures
            found ==> exists|i: int| first_match(self@, f, i),
            !found ==> no_match(self@, f),
    {
        match self.position(&f) {
            None => false,
            Some(_) => true,
        }
    }

    /// Returns an immutable reference to the first item that satisfies the predicate.
    pub fn get<F>(&self, f: F) -> (found: Option<&T>) where F: Fn(&T) -> bool
        requires
            callable_on(self@, f),
        ensures
            match found {
                Some(item) => exists|i: int| first_match(self@, f, i) && *item == self@[i],
                None => no_match(self@, f),
            },
    {
        match self.position(&f) {
            None => None,
            Some(position) => Some(&self.items[position]),
        }
    }

    /// Returns a mutable reference to the first item that satisfies the predicate.
    pub fn get_mut<F>(&mut self, f: F) -> (found: Option<&mut T>) where F: Fn(&T) -> bool
        requires
            callable_on(old(self)@, f),
        ensures
            match found {
                Some(item) => exists|i: int|
                    first_match(old(self)@, f, i) && *item == old(self)@[i] && final(self)@
                        == old(self)@.update(i, *final(item)),
                None => no_match(old(self)@, f) && final(self)@ == old(self)@,
            },
    {
        match self.position(&f) {
            None => None,
            Some(position) => Some(&mut self.items[position]),
        }
    }

    /// Applies a closure to all the items in the List.
    ///
    /// Each item is left as one call of the closure on it may leave it.
    pub fn apply<F>(&mut self, mut f: F) where F: FnMut(&mut T) -> ()
        requires
            forall|x: &mut T| old(self)@.contains(*x) ==> #[trigger] call_requires(f, (x,)),
        ensures
            final(self)@.len() == old(self)@.len(),
            forall|j: int|
                #[trigger] in_bounds(j, old(self)@.len()) ==> exists|x: &mut T|
                    #[trigger] call_ensures(f, (x,), ()) && *x == old(self)@[j]
                        && *final(x) == final(self)@[j],
    {
        let ghost f0 = f;
        let mut i: usize = 0;
        while i < self.items.len()
            invariant
                f == f0,
                i <= self.items.len(),
                self@.len() == old(self)@.len(),
                forall|x: &mut T| old(self)@.contains(*x) ==> #[trigger] call_requires(f, (x,)),
                forall|j: int| i <= j < self@.len() ==> #[trigger] self@[j] == old(self)@[j],
                forall|j: int|
                    #[trigger] in_bounds(j, i as nat) ==> exists|x: &mut T|
                        #[trigger] call_ensures(f, (x,), ()) && *x == old(self)@[j]
                            && *final(x) == self@[j],
            decreases self.items.len() - i,
        {
            let ghost done = i as int;
            f(&mut self.items[i]);
            i += 1;
            assert forall|j: int| #[trigger] in_bounds(j, i as nat) implies exists|x: &mut T|
                #[trigger] call_ensures(f, (x,), ()) && *x == old(self)@[j]
                    && *final(x) == self@[j] by {
                if j < done {
                    assert(in_bounds(j, done as nat));
                }
            }
        }
    }

    /// The items in their order, to be read.
    pub fn as_slice(&self) -> (items: &[T])
        ensures
            items@ == self@,
    {
        self.items.as_slice()
    }

    /// Returns true if List contains no items.
    pub fn is_empty(&self) -> (empty: bool)
        ensures
            empty == (self@.len() == 0),
    {
        self.items.is_empty()
    }
}

} // verus!
