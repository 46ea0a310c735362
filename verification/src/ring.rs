//! A fixed-capacity sliding window: the newest value pushes the oldest out.

use vstd::prelude::*;

verus! {

/// A circular buffer that always holds exactly `capacity` values.
///
/// Its view lists the values from the oldest to the newest, whatever the
/// position of the write cursor in the storage.
pub struct Ring<T> {
    slots: Vec<T>,
    oldest: usize,
}

impl<T> View for Ring<T> {
    type V = Seq<T>;

    closed spec fn view(&self) -> Seq<T> {
        self.slots@.subrange(self.oldest as int, self.slots@.len() as int) + self.slots@.subrange(
            0,
            self.oldest as int,
        )
    }
}

/// The window after `value` has entered `window`: the oldest value leaves
/// and `value` becomes the newest. An empty window stays empty.
pub open spec fn slide<T>(window: Seq<T>, value: T) -> Seq<T> {
    window.push(value).drop_first()
}

/// The window after every value of `values` has entered it, first to last.
pub open spec fn slide_all<T>(window: Seq<T>, values: Seq<T>) -> Seq<T>
    decreases values.len(),
{
    if values.len() == 0 {
        window
    } else {
        slide(slide_all(window, values.drop_last()), values.last())
    }
}

/// The `index`-th pair of adjacent values of `window`.
pub open spec fn pair_at<T>(window: Seq<T>, index: int) -> (T, T) {
    (window[2 * index], window[2 * index + 1])
}

/// The adjacent, non-overlapping pairs of `window` in order; a last value
/// without a partner is left out.
pub open spec fn paired<T>(window: Seq<T>) -> Seq<(T, T)> {
    Seq::new((window.len() / 2) as nat, |i: int| pair_at(window, i))
}

/// A vector of `count` copies of `value`.
pub fn filled<T: Copy>(count: usize, value: T) -> (copies: Vec<T>)
    ensures
        copies@ == Seq::new(count as nat, |i: int| value),
{
    let mut copies: Vec<T> = Vec::new();
    let mut done: usize = 0;
    while done < count
        invariant
            done <= count,
            copies@ == Seq::new(done as nat, |i: int| value),
        decreases count - done,
    {
        copies.push(value);
        done = done + 1;
        assert(copies@ =~= Seq::new(done as nat, |i: int| value));
    }
    copies
}

impl<T: Copy> Ring<T> {
    /// The write cursor points into the storage.
    pub closed spec fn wf(&self) -> bool {
        self.oldest < self.slots@.len() || (self.oldest == 0 && self.slots@.len() == 0)
    }

    /// A window of `capacity` copies of `fill`.
    pub fn new(capacity: usize, fill: T) -> (ring: Self)
        ensures
            ring.wf(),
            ring@ == Seq::new(capacity as nat, |i: int| fill),
    {
        let ring = Ring { slots: filled(capacity, fill), oldest: 0 };
        assert(ring@ =~= Seq::new(capacity as nat, |i: int| fill));
        ring
    }

    /// The number of values in the window; it never changes.
    pub fn capacity(&self) -> (capacity: usize)
        requires
            self.wf(),
        ensures
            capacity == self@.len(),
    {
        self.slots.len()
    }

    /// Pushes `value` in as the newest and drops the oldest.
    pub fn enqueue(&mut self, value: T)
        requires
            old(self).wf(),
        ensures
            final(self).wf(),
            final(self)@ == slide(old(self)@, value),
            final(self)@.len() == old(self)@.len(),
    {
        let capacity: usize = self.slots.len();
        if capacity > 0 {
            self.slots.set(self.oldest, value);
            if self.oldest + 1 < capacity {
                self.oldest = self.oldest + 1;
            } else {
                self.oldest = 0;
            }
        }
        assert(self@ =~= slide(old(self)@, value));
    }

    /// The value at `index`, counted from the oldest.
    pub fn get(&self, index: usize) -> (value: T)
        requires
            self.wf(),
            index < self@.len(),
        ensures
            value == self@[index as int],
    {
        let tail: usize = self.slots.len() - self.oldest;
        if index < tail {
            self.slots[self.oldest + index]
        } else {
            self.slots[index - tail]
        }
    }

    /// The `index`-th pair of adjacent values, counted from the oldest.
    pub fn pair(&self, index: usize) -> (pair: (T, T))
        requires
            self.wf(),
            index < self@.len() / 2,
        ensures
            pair == pair_at(self@, index as int),
    {
        let capacity: usize = self.capacity();
        assert(2 * index + 1 < capacity);
        (self.get(2 * index), self.get(2 * index + 1))
    }

    /// All pairs of adjacent values, oldest first. The window is left as
    /// it is, so the pairs can be taken again at any time.
    pub fn pairs(&self) -> (pairs: Vec<(T, T)>)
        requires
            self.wf(),
        ensures
            pairs@ == paired(self@),
    {
        let count: usize = self.capacity() / 2;
        let mut pairs: Vec<(T, T)> = Vec::new();
        let mut index: usize = 0;
        while index < count
            invariant
                self.wf(),
                count == self@.len() / 2,
                index <= count,
                pairs@ == Seq::new(index as nat, |i: int| pair_at(self@, i)),
            decreases count - index,
        {
            pairs.push(self.pair(index));
            index = index + 1;
            assert(pairs@ =~= Seq::new(index as nat, |i: int| pair_at(self@, i)));
        }
        pairs
    }
}

/// Sliding `values` through `window` leaves the last `window.len()` values
/// of the two laid end to end.
pub proof fn lemma_slide_all_is_suffix<T>(window: Seq<T>, values: Seq<T>)
    ensures
        slide_all(window, values) == (window + values).subrange(
            values.len() as int,
            (window.len() + values.len()) as int,
        ),
    decreases values.len(),
{
    let joined = window + values;
    if values.len() == 0 {
        assert(joined.subrange(0, window.len() as int) =~= window);
    } else {
        let earlier = values.drop_last();
        lemma_slide_all_is_suffix(window, earlier);
        let before = (window + earlier).subrange(
            earlier.len() as int,
            (window.len() + earlier.len()) as int,
        );
        assert(slide(before, values.last()) =~= joined.subrange(
            values.len() as int,
            (window.len() + values.len()) as int,
        ));
    }
}

/// Once as many values have entered as the window holds, nothing of what
/// it held before is left: the window is the latest `window.len()` values.
pub proof fn law_window_forgets<T>(window: Seq<T>, values: Seq<T>)
    requires
        values.len() >= window.len(),
    ensures
        slide_all(window, values) == values.subrange(
            values.len() - window.len(),
            values.len() as int,
        ),
{
    lemma_slide_all_is_suffix(window, values);
    assert((window + values).subrange(
        values.len() as int,
        (window.len() + values.len()) as int,
    ) =~= values.subrange(values.len() - window.len(), values.len() as int));
}

} // verus!
