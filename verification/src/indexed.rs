//! A bounds-clamped position into a length-aware container, used for the
//! scrollback offset and the input-history position. Moving the cursor
//! clamps at the container's bounds instead of wrapping or failing.

use vstd::prelude::*;

verus! {

/// A container that can report its length, so that a cursor into it can be
/// clamped. `spec_wf` is whatever well-formedness the container needs for
/// its length to be meaningful.
pub trait HasLength {
    spec fn spec_wf(&self) -> bool;

    spec fn spec_len(&self) -> nat;

    fn len(&self) -> (n: usize)
        requires
            self.spec_wf(),
        ensures
            n == self.spec_len(),
    ;
}

/// A clamped index into `data`. The index never exceeds the position of the
/// last element; an optional limit set with `set_limit` caps it further
/// (for example at "length minus one viewport", so that the last page of a
/// scrollback stays full). The owner re-applies the limit when the wanted
/// cap changes; the cap at the last element always holds by itself.
pub struct Indexed<T> {
    pub index: usize,
    pub limit: Option<usize>,
    pub data: T,
}

impl<T: HasLength> Indexed<T> {
    /// The highest position the cursor may take: the last element, further
    /// capped by the installed limit. Zero on an empty container.
    pub open spec fn max_index(&self) -> nat {
        let base: nat = if self.data.spec_len() == 0 {
            0
        } else {
            (self.data.spec_len() - 1) as nat
        };
        match self.limit {
            Some(l) => if l < base {
                l as nat
            } else {
                base
            },
            None => base,
        }
    }

    /// Well-formed: the cursor stands at a position it may take.
    pub open spec fn wf(&self) -> bool {
        self.index <= self.max_index()
    }

    pub fn new(data: T) -> (r: Indexed<T>)
        ensures
            r.wf(),
            r.index == 0,
            r.limit is None,
            r.data == data,
    {
        Indexed { index: 0, limit: None, data }
    }

    pub fn index(&self) -> (i: usize)
        ensures
            i == self.index,
    {
        self.index
    }

    /// The current cap, computed from the container's current length.
    fn current_cap(&self) -> (cap: usize)
        requires
            self.data.spec_wf(),
        ensures
            cap == self.max_index(),
    {
        let len = self.data.len();
        let base = if len == 0 {
            0
        } else {
            len - 1
        };
        match self.limit {
            Some(l) => if l < base {
                l
            } else {
                base
            },
            None => base,
        }
    }

    /// Move to `index`, clamped at the current cap.
    pub fn set_index(&mut self, index: usize)
        requires
            old(self).data.spec_wf(),
        ensures
            final(self).data == old(self).data,
            final(self).limit == old(self).limit,
            final(self).index == if index <= old(self).max_index() {
                index as nat
            } else {
                old(self).max_index()
            },
            final(self).wf(),
    {
        let cap = self.current_cap();
        self.index = if index < cap {
            index
        } else {
            cap
        };
    }

    /// Move `amount` positions toward older entries, clamped at the cap.
    pub fn increment_index(&mut self, amount: usize)
        requires
            old(self).data.spec_wf(),
        ensures
            final(self).data == old(self).data,
            final(self).limit == old(self).limit,
            final(self).index == if old(self).index + amount <= old(self).max_index() {
                old(self).index + amount
            } else {
                old(self).max_index() as int
            },
            final(self).wf(),
    {
        let cap = self.current_cap();
        let idx = self.index;
        self.index = if idx > cap {
            cap
        } else if amount > cap - idx {
            cap
        } else {
            idx + amount
        };
    }

    /// Move `amount` positions toward newer entries, stopping at zero.
    pub fn decrement_index(&mut self, amount: usize)
        ensures
            final(self).data == old(self).data,
            final(self).limit == old(self).limit,
            final(self).index == if amount <= old(self).index {
                old(self).index - amount
            } else {
                0
            },
            old(self).wf() ==> final(self).wf(),
    {
        self.index = if amount > self.index {
            0
        } else {
            self.index - amount
        };
    }

    /// Jump back to the newest position.
    pub fn reset_index(&mut self)
        ensures
            final(self).data == old(self).data,
            final(self).limit == old(self).limit,
            final(self).index == 0,
            final(self).wf(),
    {
        self.index = 0;
    }

    /// Install a new limit and re-clamp the current position under it.
    pub fn set_limit(&mut self, limit: usize)
        requires
            old(self).data.spec_wf(),
        ensures
            final(self).data == old(self).data,
            final(self).limit == Some(limit),
            final(self).index == if old(self).index <= final(self).max_index() {
                old(self).index as nat
            } else {
                final(self).max_index()
            },
            final(self).wf(),
    {
        self.limit = Some(limit);
        let cap = self.current_cap();
        if self.index > cap {
            self.index = cap;
        }
    }
}

/// Without an installed limit the cap over a non-empty container is exactly
/// the last element, so a move toward older entries lands at the smaller of
/// `index + amount` and `length - 1`.
pub proof fn lemma_cap_is_last_element<T: HasLength>(c: &Indexed<T>)
    requires
        c.limit is None,
        c.data.spec_len() > 0,
    ensures
        c.max_index() == c.data.spec_len() - 1,
{
}

/// A well-formed cursor over a non-empty container always addresses a valid
/// element: the reported index is strictly below the container's length,
/// whatever sequence of moves and container growth produced the state.
pub proof fn lemma_index_below_len<T: HasLength>(c: &Indexed<T>)
    requires
        c.wf(),
        c.data.spec_len() > 0,
    ensures
        c.index < c.data.spec_len(),
{
}

} // verus!
