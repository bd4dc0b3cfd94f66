//! A vector whose length never exceeds the limit it was created with.
use vstd::prelude::*;

verus! {

/// What `push` answers when the vector is already at its limit.
pub const PUSH_ERROR: &'static str = "The maximum vector length has been exceeded";

/// What `remove` answers when the index is past the end.
pub const REMOVE_ERROR: &'static str = "The maximum vector index has been exceeded";

/// The contents after a `push` of `item` onto contents `s` under limit `limit`:
/// the item is appended only while there is room.
pub open spec fn after_push<T>(s: Seq<T>, limit: nat, item: T) -> Seq<T> {
    if s.len() < limit {
        s.push(item)
    } else {
        s
    }
}

/// The contents after a `remove` at `index` from contents `s`: the element
/// there is taken out only when the index is in range.
pub open spec fn after_remove<T>(s: Seq<T>, index: int) -> Seq<T> {
    if 0 <= index < s.len() {
        s.remove(index)
    } else {
        s
    }
}

/// The contents after pushing the elements of `items` one by one, in order.
pub open spec fn after_pushes<T>(s: Seq<T>, limit: nat, items: Seq<T>) -> Seq<T>
    decreases items.len(),
{
    if items.len() == 0 {
        s
    } else {
        after_pushes(after_push(s, limit, items[0]), limit, items.drop_first())
    }
}

/// The contents after `k` removes at index 0.
pub open spec fn after_front_removes<T>(s: Seq<T>, k: nat) -> Seq<T>
    decreases k,
{
    if k == 0 {
        s
    } else {
        after_remove(after_front_removes(s, (k - 1) as nat), 0)
    }
}

/// A vector with a maximum length.
pub struct LimitedVec<T> {
    vec: Vec<T>,
    max_size: usize,
}

impl<T> View for LimitedVec<T> {
    type V = Seq<T>;

    closed spec fn view(&self) -> Seq<T> {
        self.vec@
    }
}

impl<T> LimitedVec<T> {
    /// Every value keeps its length within its limit.
    #[verifier::type_invariant]
    spec fn within_limit(self) -> bool {
        self.vec@.len() <= self.max_size
    }

    /// The maximum length the vector was created with.
    pub closed spec fn limit(&self) -> nat {
        self.max_size as nat
    }

    /// The vector holds no more elements than its limit.
    pub open spec fn wf(&self) -> bool {
        self@.len() <= self.limit()
    }

    /// An empty vector that will hold at most `max_size` elements.
    pub fn new(max_size: usize) -> (r: Self)
        ensures
            r@ == Seq::<T>::empty(),
            r.limit() == max_size,
            r.wf(),
    {
        Self { vec: Vec::with_capacity(max_size), max_size }
    }

    /// Appends `item` if the vector is below its limit; otherwise leaves the
    /// vector as it is and answers `PUSH_ERROR`.
    pub fn push(&mut self, item: T) -> (r: Result<(), &'static str>)
        ensures
            final(self)@ == after_push(old(self)@, old(self).limit(), item),
            final(self).limit() == old(self).limit(),
            r is Ok <==> old(self)@.len() < old(self).limit(),
            r is Err ==> r->Err_0 == PUSH_ERROR,
            final(self).wf(),
    {
        proof { use_type_invariant(&*self); }
        if self.vec.len() < self.max_size {
            // The elements are moved out while they change, so that the
            // length bound holds at every point.
            let mut items = Vec::new();
            std::mem::swap(&mut items, &mut self.vec);
            items.push(item);
            self.vec = items;
            Ok(())
        } else {
            Err(PUSH_ERROR)
        }
    }

    /// The number of elements, which is never above the limit.
    pub fn len(&self) -> (r: usize)
        ensures
            r == self@.len(),
            r <= self.limit(),
    {
        proof { use_type_invariant(self); }
        self.vec.len()
    }

    /// The maximum length the vector was created with.
    pub fn max_size(&self) -> (r: usize)
        ensures
            r == self.limit(),
    {
        self.max_size
    }

    /// Whether there are no elements.
    pub fn is_empty(&self) -> (r: bool)
        ensures
            r <==> self@.len() == 0,
            self.wf(),
    {
        proof { use_type_invariant(self); }
        self.vec.is_empty()
    }

    /// Takes out the element at `index`, shifting the later ones down; answers
    /// `REMOVE_ERROR` and changes nothing when `index` is past the end.
    pub fn remove(&mut self, index: usize) -> (r: Result<T, &'static str>)
        ensures
            final(self)@ == after_remove(old(self)@, index as int),
            final(self).limit() == old(self).limit(),
            index < old(self)@.len() ==> r == Ok::<T, &'static str>(old(self)@[index as int]),
            index >= old(self)@.len() ==> r == Err::<T, &'static str>(REMOVE_ERROR),
            final(self).wf(),
    {
        proof { use_type_invariant(&*self); }
        if index < self.vec.len() {
            let mut items = Vec::new();
            std::mem::swap(&mut items, &mut self.vec);
            let item = items.remove(index);
            self.vec = items;
            Ok(item)
        } else {
            Err(REMOVE_ERROR)
        }
    }
}

/// Removing the last element right after an accepted push gives back the
/// pushed item and the contents from before the push.
pub proof fn lemma_remove_last_undoes_push<T>(s: Seq<T>, limit: nat, item: T)
    requires
        s.len() < limit,
    ensures
        after_push(s, limit, item)[s.len() as int] == item,
        after_remove(after_push(s, limit, item), s.len() as int) == s,
{
    assert(s.push(item).remove(s.len() as int) =~= s);
}

/// Used as a queue (push at the back, remove at index 0) the vector is first
/// in, first out: the front element is not changed by a push, and taking the
/// front before or after an accepted push leaves the same contents.
pub proof fn lemma_first_in_first_out<T>(s: Seq<T>, limit: nat, item: T)
    requires
        0 < s.len() < limit,
    ensures
        after_push(s, limit, item)[0] == s[0],
        after_remove(after_push(s, limit, item), 0) == after_push(after_remove(s, 0), limit, item),
{
    assert(s.push(item).remove(0) =~= s.remove(0).push(item));
}

/// Pushes that all find room append their items in order.
pub proof fn lemma_pushes_append<T>(s: Seq<T>, limit: nat, items: Seq<T>)
    requires
        s.len() + items.len() <= limit,
    ensures
        after_pushes(s, limit, items) == s + items,
    decreases items.len(),
{
    if items.len() > 0 {
        lemma_pushes_append(s.push(items[0]), limit, items.drop_first());
        assert(s.push(items[0]) + items.drop_first() =~= s + items);
    }
}

/// `k` removes at index 0 take off the first `k` elements.
pub proof fn lemma_front_removes_skip<T>(s: Seq<T>, k: nat)
    requires
        k <= s.len(),
    ensures
        after_front_removes(s, k) == s.skip(k as int),
    decreases k,
{
    if k > 0 {
        lemma_front_removes_skip(s, (k - 1) as nat);
        assert(s.skip(k - 1).remove(0) =~= s.skip(k as int));
    }
}

/// The vector is a bounded first-in, first-out queue: after pushing `items`
/// (no more than the limit) into an empty vector, successive removes at index 0
/// find the items in the order they were pushed, and after the last of them
/// the vector is empty.
pub proof fn lemma_bounded_queue<T>(limit: nat, items: Seq<T>)
    requires
        items.len() <= limit,
    ensures
        after_pushes(Seq::<T>::empty(), limit, items) == items,
        forall|k: nat| k < items.len() ==> {
            &&& #[trigger] after_front_removes(items, k).len() > 0
            &&& after_front_removes(items, k)[0] == items[k as int]
        },
        after_front_removes(items, items.len()).len() == 0,
{
    lemma_pushes_append(Seq::<T>::empty(), limit, items);
    assert(Seq::<T>::empty() + items =~= items);
    assert forall|k: nat| k < items.len() implies {
        &&& #[trigger] after_front_removes(items, k).len() > 0
        &&& after_front_removes(items, k)[0] == items[k as int]
    } by {
        lemma_front_removes_skip(items, k);
    }
    lemma_front_removes_skip(items, items.len());
}

/// A push that finds the vector at its limit changes nothing.
pub proof fn lemma_refused_push_changes_nothing<T>(s: Seq<T>, limit: nat, item: T)
    requires
        s.len() >= limit,
    ensures
        after_push(s, limit, item) == s,
{
}

/// A remove at an index outside the vector changes nothing.
pub proof fn lemma_refused_remove_changes_nothing<T>(s: Seq<T>, index: int)
    requires
        index < 0 || index >= s.len(),
    ensures
        after_remove(s, index) == s,
{
}

/// No sequence of accepted or refused pushes and removes takes the contents
/// past the limit.
pub proof fn lemma_calls_stay_within_limit<T>(s: Seq<T>, limit: nat, item: T, index: int)
    requires
        s.len() <= limit,
    ensures
        after_push(s, limit, item).len() <= limit,
        after_remove(s, index).len() <= limit,
{
}

} // verus!
