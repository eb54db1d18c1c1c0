//! A circular store, either bounded (overwriting the oldest element once
//! full) or unbounded (growing forever). The view presents the elements in
//! chronological order, oldest first, regardless of where the write cursor
//! physically stands.

use vstd::prelude::*;

use crate::indexed::HasLength;

verus! {

/// Fixed-or-unbounded circular buffer. With `max_elements == Some(m)` the
/// buffer holds at most `m` elements and `push` overwrites the oldest once
/// full; with `None` it grows without bound.
#[derive(Debug)]
pub struct RingBuffer<T> {
    data: Vec<T>,
    max_elements: Option<usize>,
    next_index: usize,
}

impl<T> View for RingBuffer<T> {
    type V = Seq<T>;

    /// The elements in chronological order, oldest first.
    closed spec fn view(&self) -> Seq<T> {
        self.data@.subrange(self.next_index as int, self.data@.len() as int)
            + self.data@.subrange(0, self.next_index as int)
    }
}

impl<T> RingBuffer<T> {
    /// The bound this buffer was created with.
    pub closed spec fn capacity(&self) -> Option<usize> {
        self.max_elements
    }

    /// Well-formed: the write cursor stands at the end while the buffer is
    /// still filling, and wraps within the bound once the buffer is full.
    pub closed spec fn wf(&self) -> bool {
        &&& self.next_index <= self.data@.len()
        &&& match self.max_elements {
            None => self.next_index == self.data@.len(),
            Some(m) => {
                &&& self.data@.len() <= m
                &&& (self.data@.len() < m ==> self.next_index == self.data@.len())
                &&& (0 < m == self.data@.len() ==> self.next_index < m)
            },
        }
    }

    pub fn new(max_elements: Option<usize>) -> (buf: RingBuffer<T>)
        ensures
            buf.wf(),
            buf@ == Seq::<T>::empty(),
            buf.capacity() == max_elements,
    {
        let data: Vec<T> = match max_elements {
            Some(max) => Vec::with_capacity(max),
            None => Vec::new(),
        };
        let buf = RingBuffer { data, max_elements, next_index: 0 };
        proof {
            assert(buf@ =~= Seq::<T>::empty());
        }
        buf
    }

    pub fn len(&self) -> (n: usize)
        requires
            self.wf(),
        ensures
            n == self@.len(),
    {
        self.data.len()
    }

    /// Append an element; once a bounded buffer is full, the oldest element
    /// is overwritten instead. A buffer bounded at zero cannot take an
    /// element at all, so it is left out here.
    pub fn push(&mut self, element: T)
        requires
            old(self).wf(),
            old(self).capacity() != Some(0usize),
        ensures
            final(self).wf(),
            final(self).capacity() == old(self).capacity(),
            match old(self).capacity() {
                Some(m) if old(self)@.len() == m => final(self)@ == old(self)@.subrange(
                    1,
                    old(self)@.len() as int,
                ).push(element),
                _ => final(self)@ == old(self)@.push(element),
            },
    {
        match self.max_elements {
            None => {
                self.data.push(element);
                self.next_index = self.data.len();
                proof {
                    assert(self@ =~= old(self)@.push(element));
                }
            },
            Some(m) => {
                if self.next_index >= self.data.len() {
                    // Still filling: append in place.
                    self.data.push(element);
                } else {
                    // Full: overwrite the oldest element.
                    self.data.set(self.next_index, element);
                }
                // Advance the cursor modulo the bound; the cursor never
                // exceeds the bound, so one comparison implements the wrap.
                self.next_index = if self.next_index + 1 == m {
                    0
                } else {
                    self.next_index + 1
                };
                proof {
                    if old(self)@.len() == m {
                        assert(self@ =~= old(self)@.subrange(1, old(self)@.len() as int).push(
                            element,
                        ));
                    } else {
                        assert(self@ =~= old(self)@.push(element));
                    }
                }
            },
        }
    }

    /// The element `index` positions from the oldest (0 is the oldest).
    pub fn get(&self, index: usize) -> (element: &T)
        requires
            self.wf(),
            index < self@.len(),
        ensures
            *element == self@[index as int],
    {
        let wrap_at = self.data.len() - self.next_index;
        if index < wrap_at {
            &self.data[self.next_index + index]
        } else {
            &self.data[index - wrap_at]
        }
    }

    /// The element `index` positions back from the newest (0 is the newest).
    pub fn get_recent(&self, index: usize) -> (element: &T)
        requires
            self.wf(),
            index < self@.len(),
        ensures
            *element == self@[self@.len() - 1 - index],
    {
        self.get(self.data.len() - 1 - index)
    }

    /// Replace the element `index` positions back from the newest, returning
    /// the previous value.
    pub fn replace_recent(&mut self, index: usize, element: T) -> (prev: T)
        requires
            old(self).wf(),
            index < old(self)@.len(),
        ensures
            final(self).wf(),
            final(self).capacity() == old(self).capacity(),
            prev == old(self)@[old(self)@.len() - 1 - index],
            final(self)@ == old(self)@.update(old(self)@.len() - 1 - index, element),
    {
        let chrono = self.data.len() - 1 - index;
        let wrap_at = self.data.len() - self.next_index;
        let physical = if chrono < wrap_at {
            self.next_index + chrono
        } else {
            chrono - wrap_at
        };
        let mut element = element;
        let ghost new_element = element;
        self.data.set_and_swap(physical, &mut element);
        proof {
            assert(self@ =~= old(self)@.update(old(self)@.len() - 1 - index, new_element));
        }
        element
    }

    /// The elements from chronological position `start_index` on, oldest
    /// first; positions past the end are clamped, giving an empty result.
    pub fn iter(&self, start_index: usize) -> (items: Vec<&T>)
        requires
            self.wf(),
        ensures
            items@.len() == if start_index <= self@.len() {
                self@.len() - start_index
            } else {
                0
            },
            forall|i: int|
                0 <= i < items@.len() ==> *(#[trigger] items@[i]) == self@[start_index + i],
    {
        let mut items: Vec<&T> = Vec::new();
        let len = self.data.len();
        let mut j: usize = if start_index < len {
            start_index
        } else {
            len
        };
        let ghost skip = j;
        while j < len
            invariant
                self.wf(),
                skip <= j <= len == self@.len(),
                items@.len() == j - skip,
                forall|i: int| 0 <= i < items@.len() ==> *(#[trigger] items@[i]) == self@[skip + i],
            decreases len - j,
        {
            items.push(self.get(j));
            j = j + 1;
        }
        items
    }

    /// The most recent `num` elements in chronological order; if fewer are
    /// stored, all of them.
    pub fn most_recent(&self, num: usize) -> (items: Vec<&T>)
        requires
            self.wf(),
        ensures
            items@.len() == if num <= self@.len() {
                num as int
            } else {
                self@.len() as int
            },
            forall|i: int|
                0 <= i < items@.len() ==> *(#[trigger] items@[i]) == self@[self@.len()
                    - items@.len() + i],
    {
        let start_index = if num > self.data.len() {
            // Scrolled back past the beginning: stop there.
            0
        } else {
            self.data.len() - num
        };
        self.iter(start_index)
    }
}

impl<T> HasLength for RingBuffer<T> {
    open spec fn spec_wf(&self) -> bool {
        self.wf()
    }

    open spec fn spec_len(&self) -> nat {
        self@.len()
    }

    fn len(&self) -> (n: usize) {
        RingBuffer::len(self)
    }
}

} // verus!
