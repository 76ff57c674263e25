//! A generic selection list: an ordered sequence of items plus an optional
//! selected index. Moving the selection wraps at both ends; on an empty list
//! the selection stays absent.
use vstd::prelude::*;

verus! {

pub struct StatefulList<T> {
    pub items: Vec<T>,
    pub selected: Option<usize>,
}

/// One advance of the selection over a list of length `len`:
/// no selection picks index 0, otherwise the index steps forward and wraps;
/// an empty list keeps the selection absent.
pub open spec fn advance_spec(sel: Option<usize>, len: nat) -> Option<usize> {
    if len == 0 {
        sel
    } else {
        match sel {
            None => Some(0usize),
            Some(i) => if i + 1 < len {
                Some((i + 1) as usize)
            } else {
                Some(0usize)
            },
        }
    }
}

/// One retreat of the selection: no selection picks index 0, index 0 wraps to
/// `len - 1`, otherwise the index steps back; an empty list keeps the
/// selection absent.
pub open spec fn retreat_spec(sel: Option<usize>, len: nat) -> Option<usize> {
    if len == 0 {
        sel
    } else {
        match sel {
            None => Some(0usize),
            Some(i) => if i == 0 {
                Some(((len - 1) as usize))
            } else {
                Some(((i - 1) as usize))
            },
        }
    }
}

/// The selection after `n` advances from `sel`.
pub open spec fn advance_n_spec(sel: Option<usize>, len: nat, n: nat) -> Option<usize>
    decreases n,
{
    if n == 0 {
        sel
    } else {
        advance_spec(advance_n_spec(sel, len, (n - 1) as nat), len)
    }
}

impl<T> StatefulList<T> {
    /// The selection, when present, points into the items.
    pub open spec fn wf(self) -> bool {
        match self.selected {
            None => true,
            Some(i) => i < self.items.len(),
        }
    }

    pub fn with_items(items: Vec<T>) -> (r: StatefulList<T>)
        ensures
            r.items == items,
            r.selected is None,
            r.wf(),
    {
        StatefulList { items, selected: None }
    }

    /// Move the selection forward one step, wrapping past the end.
    pub fn next(&mut self)
        requires
            old(self).wf(),
        ensures
            final(self).wf(),
            final(self).items == old(self).items,
            final(self).selected == advance_spec(old(self).selected, old(self).items.len() as nat),
    {
        if self.items.len() == 0 {
            return ;
        }
        let i: usize = match self.selected {
            Some(i) => {
                if i >= self.items.len() - 1 {
                    0
                } else {
                    i + 1
                }
            },
            None => 0,
        };
        self.selected = Some(i);
    }

    /// Move the selection back one step, wrapping past the start.
    pub fn previous(&mut self)
        requires
            old(self).wf(),
        ensures
            final(self).wf(),
            final(self).items == old(self).items,
            final(self).selected == retreat_spec(old(self).selected, old(self).items.len() as nat),
    {
        if self.items.len() == 0 {
            return ;
        }
        let i: usize = match self.selected {
            Some(i) => {
                if i == 0 {
                    self.items.len() - 1
                } else {
                    i - 1
                }
            },
            None => 0,
        };
        self.selected = Some(i);
    }
}

/// Wrap law for a selected start: from index `i` of a list of length `len`,
/// `len` advances return the selection to `i`.
pub proof fn lemma_advance_full_cycle(i: usize, len: usize)
    requires
        0 < len,
        i < len,
    ensures
        advance_n_spec(Some(i), len as nat, len as nat) == Some(i),
{
    lemma_advance_partial(i, len, ((len - i) as usize));
    assert(advance_n_spec(Some(i), len as nat, ((len - i) as nat)) == Some(0usize));
    lemma_advance_partial(0, len, i);
    lemma_advance_n_add(Some(i), len as nat, (len - i) as nat, i as nat);
}

/// After `k` advances from index `i` with `i + k < len`, the selection is at
/// `i + k`; advancing exactly to `len` wraps to 0.
proof fn lemma_advance_partial(i: usize, len: usize, k: usize)
    requires
        0 < len,
        i < len,
        i + k <= len,
    ensures
        advance_n_spec(Some(i), len as nat, k as nat) == (if i + k < len {
            Some((i + k) as usize)
        } else {
            Some(0usize)
        }),
    decreases k,
{
    if k > 0 {
        lemma_advance_partial(i, len, (k - 1) as usize);
        assert(advance_n_spec(Some(i), len as nat, k as nat) == advance_spec(
            advance_n_spec(Some(i), len as nat, (k - 1) as nat),
            len as nat,
        ));
    }
}

/// Advancing `a + b` times is advancing `a` times, then `b` times.
proof fn lemma_advance_n_add(sel: Option<usize>, len: nat, a: nat, b: nat)
    ensures
        advance_n_spec(sel, len, a + b) == advance_n_spec(advance_n_spec(sel, len, a), len, b),
    decreases b,
{
    if b > 0 {
        lemma_advance_n_add(sel, len, a, (b - 1) as nat);
        assert(advance_n_spec(sel, len, a + b) == advance_spec(
            advance_n_spec(sel, len, (a + b - 1) as nat),
            len,
        ));
    }
}

/// Wrap law from no selection: over a list of length `len >= 1`, the first
/// advance selects index 0 and `len` further advances return it to index 0;
/// a retreat from index 0 yields index `len - 1`.
pub proof fn lemma_wrap_navigation(len: usize)
    requires
        0 < len,
    ensures
        advance_n_spec(None, len as nat, 1) == Some(0usize),
        advance_n_spec(None, len as nat, (len + 1) as nat) == Some(0usize),
        retreat_spec(Some(0usize), len as nat) == Some(((len - 1) as usize)),
{
    assert(advance_n_spec(None, len as nat, 0) == None::<usize>);
    assert(advance_n_spec(None, len as nat, 1) == advance_spec(
        advance_n_spec(None, len as nat, 0),
        len as nat,
    ));
    lemma_advance_n_add(None, len as nat, 1, len as nat);
    lemma_advance_full_cycle(0usize, len);
}

} // verus!
