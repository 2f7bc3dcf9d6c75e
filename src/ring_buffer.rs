//! Fixed-capacity overwrite buffer: pushing into a full buffer evicts the
//! oldest element first, so the buffer always holds the most recent items in
//! insertion order.

use std::collections::VecDeque;
use vstd::prelude::*;
use vstd::std_specs::iter::IteratorSpec;

verus! {

broadcast use vstd::std_specs::vecdeque::group_vec_dequeue_axioms;

/// The sequence after pushing `x` onto `s` in a buffer holding at most `cap` items.
pub open spec fn push_evict<T>(s: Seq<T>, x: T, cap: nat) -> Seq<T> {
    if s.len() >= cap {
        s.drop_first().push(x)
    } else {
        s.push(x)
    }
}

/// The sequence after pushing every element of `items`, in order, onto `s`.
pub open spec fn push_all<T>(s: Seq<T>, items: Seq<T>, cap: nat) -> Seq<T>
    decreases items.len(),
{
    if items.len() == 0 {
        s
    } else {
        push_all(push_evict(s, items[0], cap), items.drop_first(), cap)
    }
}

/// The last `n` elements of `s` (all of `s` when it is shorter).
pub open spec fn last_n<T>(s: Seq<T>, n: nat) -> Seq<T> {
    if s.len() <= n {
        s
    } else {
        s.subrange(s.len() - n, s.len() as int)
    }
}

/// Taking the last `n` elements twice, with more elements appended in
/// between, is the same as taking them once at the end.
proof fn lemma_last_n_append<T>(a: Seq<T>, b: Seq<T>, n: nat)
    ensures
        last_n(last_n(a, n) + b, n) == last_n(a + b, n),
{
    let ab = a + b;
    let lb = last_n(a, n) + b;
    if a.len() > n {
        let k = a.len() - n;
        assert(lb =~= ab.subrange(k, ab.len() as int));
        if lb.len() > n {
            assert(last_n(lb, n) =~= last_n(ab, n));
        } else {
            assert(ab.len() > n);
            assert(last_n(lb, n) =~= last_n(ab, n));
        }
    } else {
        assert(lb =~= ab);
    }
}

/// Pushing into a buffer that respects its capacity keeps the last `cap` items.
proof fn lemma_push_evict_is_last_n<T>(s: Seq<T>, x: T, cap: nat)
    requires
        0 < cap,
        s.len() <= cap,
    ensures
        push_evict(s, x, cap) == last_n(s.push(x), cap),
        push_evict(s, x, cap).len() <= cap,
{
    if s.len() >= cap {
        assert(s.drop_first().push(x) =~= s.push(x).subrange(1, s.len() + 1 as int));
    }
}

/// Pushing a sequence of items into a buffer of capacity `cap` that starts
/// out holding `s` leaves it holding the last `cap` items of `s` followed by
/// the pushed items.
pub proof fn lemma_push_all_keeps_latest<T>(s: Seq<T>, items: Seq<T>, cap: nat)
    requires
        0 < cap,
        s.len() <= cap,
    ensures
        push_all(s, items, cap) == last_n(s + items, cap),
    decreases items.len(),
{
    if items.len() == 0 {
        assert(s + items =~= s);
    } else {
        let s1 = push_evict(s, items[0], cap);
        lemma_push_evict_is_last_n(s, items[0], cap);
        lemma_push_all_keeps_latest(s1, items.drop_first(), cap);
        lemma_last_n_append(s.push(items[0]), items.drop_first(), cap);
        assert(s.push(items[0]) + items.drop_first() =~= s + items);
    }
}

/// A pushed item is always the newest element afterwards, and the buffer
/// never exceeds its capacity.
pub proof fn lemma_pushed_is_newest<T>(s: Seq<T>, x: T, cap: nat)
    requires
        0 < cap,
        s.len() <= cap,
    ensures
        push_evict(s, x, cap).len() > 0,
        push_evict(s, x, cap).last() == x,
        push_evict(s, x, cap).len() <= cap,
{
}

/// After `capacity + k` pushes into an empty buffer, it holds exactly the last
/// `capacity` pushed items, in push order.
pub proof fn lemma_overflow_keeps_last_capacity<T>(items: Seq<T>, cap: nat)
    requires
        0 < cap,
        items.len() >= cap,
    ensures
        push_all(Seq::<T>::empty(), items, cap) == items.subrange(items.len() - cap, items.len() as int),
        push_all(Seq::<T>::empty(), items, cap).len() == cap,
{
    lemma_push_all_keeps_latest(Seq::<T>::empty(), items, cap);
    assert(Seq::<T>::empty() + items =~= items);
}

/// A fixed-capacity buffer that discards its oldest element when full.
#[derive(Debug)]
pub struct RingBuffer<T> {
    data: VecDeque<T>,
    capacity: usize,
}

impl<T> View for RingBuffer<T> {
    type V = Seq<T>;

    /// The stored items, oldest first.
    closed spec fn view(&self) -> Seq<T> {
        self.data@
    }
}

impl<T> RingBuffer<T> {
    /// The maximum number of items the buffer holds.
    pub closed spec fn spec_capacity(&self) -> nat {
        self.capacity as nat
    }

    /// A buffer never holds more than its (positive) capacity.
    pub open spec fn wf(&self) -> bool {
        &&& 0 < self.spec_capacity()
        &&& self@.len() <= self.spec_capacity()
    }

    /// Creates an empty buffer that holds at most `capacity` items.
    pub fn new(capacity: usize) -> (r: Self)
        requires
            capacity > 0,
        ensures
            r.wf(),
            r@ == Seq::<T>::empty(),
            r.spec_capacity() == capacity,
    {
        RingBuffer { data: VecDeque::with_capacity(capacity), capacity }
    }

    /// Appends `item` as the newest element, evicting the oldest one first when
    /// the buffer is full.
    pub fn push(&mut self, item: T)
        requires
            old(self).wf(),
        ensures
            final(self).wf(),
            final(self).spec_capacity() == old(self).spec_capacity(),
            final(self)@ == push_evict(old(self)@, item, old(self).spec_capacity()),
    {
        if self.data.len() >= self.capacity {
            let _ = self.data.pop_front();
        }
        self.data.push_back(item);
    }

    /// All items, oldest first.
    pub fn get_all(&self) -> (r: Vec<&T>)
        ensures
            r@ == self@.as_ref(),
    {
        let mut out: Vec<&T> = Vec::new();
        let n = self.data.len();
        let mut i: usize = 0;
        while i < n
            invariant
                n == self@.len(),
                i <= n,
                out@ == self@.as_ref().subrange(0, i as int),
            decreases n - i,
        {
            out.push(&self.data[i]);
            i = i + 1;
        }
        proof {
            assert(out@ =~= self@.as_ref());
        }
        out
    }

    /// The number of stored items.
    pub fn len(&self) -> (r: usize)
        ensures
            r == self@.len(),
    {
        self.data.len()
    }

    /// Whether no item is stored.
    pub fn is_empty(&self) -> (r: bool)
        ensures
            r == (self@.len() == 0),
    {
        self.data.len() == 0
    }

    /// Whether the buffer holds as many items as its capacity.
    pub fn is_full(&self) -> (r: bool)
        ensures
            r == (self@.len() >= self.spec_capacity()),
    {
        self.data.len() >= self.capacity
    }

    /// The maximum number of items the buffer holds.
    pub fn capacity(&self) -> (r: usize)
        ensures
            r == self.spec_capacity(),
    {
        self.capacity
    }

    /// Removes every item; the capacity is unchanged.
    pub fn clear(&mut self)
        requires
            old(self).wf(),
        ensures
            final(self).wf(),
            final(self)@ == Seq::<T>::empty(),
            final(self).spec_capacity() == old(self).spec_capacity(),
    {
        self.data.clear();
    }

    /// The oldest item, if any.
    pub fn peek_oldest(&self) -> (r: Option<&T>)
        ensures
            self@.len() == 0 ==> r is None,
            self@.len() > 0 ==> r == Some(&self@[0]),
    {
        if self.data.len() == 0 {
            None
        } else {
            Some(&self.data[0])
        }
    }

    /// The newest item, if any.
    pub fn peek_newest(&self) -> (r: Option<&T>)
        ensures
            self@.len() == 0 ==> r is None,
            self@.len() > 0 ==> r == Some(&self@.last()),
    {
        let n = self.data.len();
        if n == 0 {
            None
        } else {
            Some(&self.data[n - 1])
        }
    }

    /// The item at position `i`, counting from the oldest.
    pub fn get(&self, i: usize) -> (r: &T)
        requires
            i < self@.len(),
        ensures
            *r == self@[i as int],
    {
        &self.data[i]
    }

    /// An iterator over the items, oldest first.
    pub fn iter(&self) -> (r: std::collections::vec_deque::Iter<'_, T>)
        ensures
            r.remaining() == self@.as_ref(),
    {
        self.data.iter()
    }
}

} // verus!
