//! The operation log: an in-memory ring bounded to the most recent 100
//! formatted entries, mirroring an unbounded durable sink. The caller writes
//! each returned line to the sink; the ghost `history` records every line
//! ever appended, so the ring is provably the tail of the sink.
use vstd::prelude::*;

use crate::stamp::{log_line_spec, format_log_line, Stamp};
use crate::text::chars_to_string;

verus! {

/// Capacity of the in-memory ring.
pub const LOG_CAPACITY: usize = 100;

pub struct OperationLog {
    /// The most recent entries, oldest first.
    pub entries: Vec<Vec<char>>,
    /// Every entry ever appended, in order; the model of the durable sink.
    pub history: Ghost<Seq<Seq<char>>>,
}

/// The view of the ring entries.
pub open spec fn ring_view(entries: Seq<Vec<char>>) -> Seq<Seq<char>> {
    entries.map_values(|l: Vec<char>| l@)
}

impl OperationLog {
    /// The ring holds exactly the last `LOG_CAPACITY` lines of the history.
    pub open spec fn wf(self) -> bool {
        &&& self.entries.len() <= LOG_CAPACITY
        &&& ring_view(self.entries@) == self.history@.skip(
            self.history@.len() - self.entries.len(),
        )
        &&& (self.history@.len() > LOG_CAPACITY ==> self.entries.len() == LOG_CAPACITY)
        &&& (self.history@.len() <= LOG_CAPACITY ==> self.entries.len() == self.history@.len())
    }

    pub fn new() -> (r: OperationLog)
        ensures
            r.wf(),
            r.history@ == Seq::<Seq<char>>::empty(),
            r.entries@.len() == 0,
    {
        let r = OperationLog { entries: Vec::new(), history: Ghost(Seq::empty()) };
        proof {
            assert(ring_view(r.entries@) =~= r.history@.skip(0));
        }
        r
    }

    /// Appends one already-formatted line: the ring gains it and drops its
    /// oldest entry when full; the history gains it unconditionally.
    pub fn push_line(&mut self, line: Vec<char>)
        requires
            old(self).wf(),
        ensures
            final(self).wf(),
            final(self).history@ == old(self).history@.push(line@),
    {
        let ghost olde = self.entries@;
        let ghost oldh = self.history@;
        if self.entries.len() == LOG_CAPACITY {
            self.entries.remove(0);
        }
        self.entries.push(line);
        proof {
            self.history@ = self.history@.push(line@);
            let newh = self.history@;
            let n = self.entries@.len() as int;
            let off = newh.len() - n;
            assert forall|i: int|
                0 <= i < n implies ring_view(self.entries@)[i] == newh.skip(off)[i] by {
                assert(ring_view(self.entries@)[i] == self.entries@[i]@);
                if i < n - 1 {
                    if olde.len() == LOG_CAPACITY {
                        assert(self.entries@[i] == olde[i + 1]);
                        assert(ring_view(olde)[i + 1] == oldh.skip(oldh.len() - olde.len())[i + 1]);
                    } else {
                        assert(self.entries@[i] == olde[i]);
                        assert(ring_view(olde)[i] == oldh.skip(oldh.len() - olde.len())[i]);
                    }
                } else {
                    assert(self.entries@[i] == line);
                }
            }
            assert(ring_view(self.entries@) =~= newh.skip(off));
        }
    }

    /// Formats `message` with its timestamp, appends it to the ring, and
    /// returns the formatted line for the durable sink.
    pub fn append(&mut self, at: &Stamp, message: &Vec<char>) -> (line: String)
        requires
            old(self).wf(),
        ensures
            final(self).wf(),
            line@ == log_line_spec(*at, message@),
            final(self).history@ == old(self).history@.push(line@),
    {
        let formatted = format_log_line(at, message);
        let line = chars_to_string(&formatted);
        self.push_line(formatted);
        line
    }

    /// How many entries the ring holds.
    pub fn len(&self) -> (n: usize)
        ensures
            n == self.entries@.len(),
    {
        self.entries.len()
    }

    /// The ring entry at `i`, oldest first.
    pub fn entry(&self, i: usize) -> (r: &Vec<char>)
        requires
            i < self.entries@.len(),
        ensures
            r@ == ring_view(self.entries@)[i as int],
    {
        &self.entries[i]
    }
}

/// Log bound law: the ring is never longer than the capacity, and is exactly
/// the most recent lines of the durable history, in order.
pub proof fn lemma_log_bound(log: OperationLog)
    requires
        log.wf(),
    ensures
        log.entries@.len() <= LOG_CAPACITY,
        log.history@.len() >= LOG_CAPACITY ==> log.entries@.len() == LOG_CAPACITY,
        forall|i: int|
            0 <= i < log.entries@.len() ==> ring_view(log.entries@)[i] == log.history@[
                log.history@.len() - log.entries@.len() + i
            ],
{
}

} // verus!
