//! Canonical storage for every object of the kernel.
//!
//! A [`Store`] owns all finalized instances of one object kind and hands out
//! identity-bearing [`Handle`]s. Insertion deduplicates: a value that is
//! structurally equal to an already-stored one yields the existing handle,
//! so handle equality is identity equality, and structurally equal objects
//! share one identity. Nothing is ever removed; a store lives for one
//! modeling pass.

use core::marker::PhantomData;
use vstd::prelude::*;

verus! {

/// A kind of object that a [`Store`] can hold: it must know its own notion
/// of structural equality, which insertion deduplicates by.
pub trait StoreItem: Sized {
    /// Structural equality of two values, as a mathematical relation.
    spec fn same_spec(&self, other: &Self) -> bool;

    /// Decide structural equality.
    fn same(&self, other: &Self) -> (r: bool)
        ensures
            r == self.same_spec(other),
    ;

    /// Structural equality is reflexive.
    proof fn lemma_same_reflexive(&self)
        ensures
            self.same_spec(self),
    ;
}

/// A reference to exactly one stored instance of `T`.
///
/// Two handles are equal precisely when they refer to the same stored
/// instance; handles are totally ordered by that identity, so they can
/// serve as map and set keys.
#[derive(Debug, Hash, PartialEq, Eq, PartialOrd, Ord)]
pub struct Handle<T> {
    index: usize,
    object: PhantomData<T>,
}

impl<T> Copy for Handle<T> {

}

impl<T> Clone for Handle<T> {
    fn clone(&self) -> (r: Self)
        ensures
            r == *self,
    {
        Handle { index: self.index, object: PhantomData }
    }
}

impl<T> View for Handle<T> {
    type V = int;

    closed spec fn view(&self) -> int {
        self.index as int
    }
}

impl<T> Handle<T> {
    /// The identity of the stored instance the handle refers to.
    pub fn id(&self) -> (r: usize)
        ensures
            r as int == self@,
    {
        self.index
    }
}

/// What one call to [`Store::insert`] does: `post` is the store's contents
/// after inserting `v` into `pre`, and `h` is the index of the returned
/// handle. The handle refers to the first stored value structurally equal
/// to `v`; the store grows only if no such value was present.
pub open spec fn insert_result<T: StoreItem>(pre: Seq<T>, post: Seq<T>, v: T, h: int) -> bool {
    &&& 0 <= h < post.len()
    &&& post[h].same_spec(&v)
    &&& forall|j: int| 0 <= j < h ==> !(#[trigger] post[j].same_spec(&v))
    &&& if exists|j: int| 0 <= j < pre.len() && (#[trigger] pre[j].same_spec(&v)) {
        post == pre
    } else {
        post == pre.push(v) && h == pre.len()
    }
}

/// The canonical, deduplicating container for all instances of `T`.
pub struct Store<T> {
    items: Vec<T>,
}

impl<T> View for Store<T> {
    type V = Seq<T>;

    closed spec fn view(&self) -> Seq<T> {
        self.items@
    }
}

impl<T: StoreItem> Store<T> {
    /// Create an empty store.
    pub fn new() -> (r: Self)
        ensures
            r@ =~= Seq::<T>::empty(),
    {
        Self { items: Vec::new() }
    }

    /// The number of stored instances.
    pub fn len(&self) -> (r: usize)
        ensures
            r == self@.len(),
    {
        self.items.len()
    }

    /// Access the instance a handle refers to.
    pub fn get(&self, h: &Handle<T>) -> (r: &T)
        requires
            0 <= h@ < self@.len(),
        ensures
            *r == self@[h@],
    {
        &self.items[h.index]
    }

    /// Insert a value, deduplicating by structural equality: if a
    /// structurally equal value is already stored, its existing handle is
    /// returned and the store does not change; otherwise the value is
    /// appended and a fresh handle to it is returned.
    pub fn insert(&mut self, value: T) -> (h: Handle<T>)
        ensures
            insert_result(old(self)@, final(self)@, value, h@),
            old(self)@.is_prefix_of(final(self)@),
            forall|j: int| 0 <= j < old(self)@.len() ==> final(self)@[j] == old(self)@[j],
    {
        let n = self.items.len();
        let mut i: usize = 0;
        while i < n
            invariant
                n == self.items@.len(),
                i <= n,
                *self == *old(self),
                forall|j: int| 0 <= j < i ==> !(#[trigger] self.items@[j].same_spec(&value)),
            decreases n - i,
        {
            if self.items[i].same(&value) {
                proof {
                    assert(old(self)@ =~= self@.subrange(0, old(self)@.len() as int));
                }
                return Handle { index: i, object: PhantomData };
            }
            i += 1;
        }
        proof {
            value.lemma_same_reflexive();
        }
        let idx = self.items.len();
        self.items.push(value);
        proof {
            assert(old(self)@ =~= self@.subrange(0, old(self)@.len() as int));
        }
        Handle { index: idx, object: PhantomData }
    }
}

/// Insertion is idempotent: inserting a value and then inserting it again
/// returns the same handle both times and leaves the store unchanged by
/// the second insertion.
pub proof fn lemma_insert_idempotent<T: StoreItem>(
    pre: Seq<T>,
    mid: Seq<T>,
    post: Seq<T>,
    v: T,
    h1: int,
    h2: int,
)
    requires
        insert_result(pre, mid, v, h1),
        insert_result(mid, post, v, h2),
    ensures
        h2 == h1,
        post == mid,
{
    assert(0 <= h1 < mid.len() && mid[h1].same_spec(&v));
    assert(post == mid);
    if h2 < h1 {
        assert(post[h2].same_spec(&v));
        assert(!mid[h2].same_spec(&v));
    }
    if h1 < h2 {
        assert(!post[h1].same_spec(&v));
    }
}

} // verus!
