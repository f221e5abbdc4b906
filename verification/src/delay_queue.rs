//! The queue behind the delay adapter: values wait under the instant they are due, and the
//! queue's timer, once set, fires at the earliest instant pending.

use vstd::prelude::*;

verus! {

/// `entries` is sorted by strictly increasing instant, and no instant has an empty list.
pub open spec fn sorted_entries<T>(entries: Seq<(u64, Seq<T>)>) -> bool {
    &&& forall|i: int, j: int| 0 <= i < j < entries.len() ==> entries[i].0 < entries[j].0
    &&& forall|i: int| 0 <= i < entries.len() ==> (#[trigger] entries[i]).1.len() > 0
}

/// `entries` with `value` added under `instant`: after the values already due then, or in a
/// new list in its sorted place.
pub open spec fn insert_sorted<T>(entries: Seq<(u64, Seq<T>)>, instant: u64, value: T) -> Seq<(u64, Seq<T>)>
    decreases entries.len(),
{
    if entries.len() == 0 {
        seq![(instant, seq![value])]
    } else if entries[0].0 == instant {
        entries.update(0, (instant, entries[0].1.push(value)))
    } else if instant < entries[0].0 {
        seq![(instant, seq![value])] + entries
    } else {
        seq![entries[0]] + insert_sorted(entries.skip(1), instant, value)
    }
}

/// What the queue gives when polled.
#[derive(Debug)]
pub enum DelayPop<T> {
    /// Nothing is pending: the timer is not set.
    Empty,
    /// The timer has not fired yet.
    NotReady,
    /// A value whose instant has come.
    Value(T),
}

/// Values waiting for their instants (in nanoseconds on the queue's clock), and the instant
/// the queue's timer is set to.
#[derive(Debug)]
pub struct DelayQueue<T> {
    timer: Option<u64>,
    pending: Vec<(u64, Vec<T>)>,
}

impl<T> DelayQueue<T> {
    /// The pending values under each instant, earliest instant first, each list in the order
    /// pushed.
    pub closed spec fn entries(&self) -> Seq<(u64, Seq<T>)> {
        self.pending@.map_values(|e: (u64, Vec<T>)| (e.0, e.1@))
    }

    /// The instant the timer is set to, if it is set.
    pub closed spec fn spec_timer(&self) -> Option<u64> {
        self.timer
    }

    /// The entries are sorted, and the timer is set exactly when something is pending.
    pub open spec fn wf(&self) -> bool {
        &&& sorted_entries(self.entries())
        &&& (self.spec_timer() is None <==> self.entries().len() == 0)
        &&& self.spec_timer() matches Some(t) ==> self.entries()[0].0 <= t
    }

    /// An empty queue with its timer unset.
    pub fn new() -> (queue: DelayQueue<T>)
        ensures
            queue.wf(),
            queue.entries() == Seq::<(u64, Seq<T>)>::empty(),
            queue.spec_timer() is None,
    {
        let queue = DelayQueue { timer: None, pending: Vec::new() };
        assert(queue.entries() =~= Seq::<(u64, Seq<T>)>::empty());
        queue
    }


    /// The instant the timer is set to: the caller sleeps until then before polling again.
    pub fn timer(&self) -> (t: Option<u64>)
        ensures
            t == self.spec_timer(),
    {
        self.timer
    }
    /// Adds `value`, due at `instant`. An unset timer is set to `instant`; a set timer is left
    /// as it is, even when `instant` is earlier.
    pub fn push(&mut self, instant: u64, value: T)
        requires
            old(self).wf(),
        ensures
            final(self).wf(),
            final(self).entries() == insert_sorted(old(self).entries(), instant, value),
            final(self).spec_timer() == (match old(self).spec_timer() {
                Some(t) => Some(t),
                None => Some(instant),
            }),
    {
        if self.timer.is_none() {
            self.timer = Some(instant);
        }
        let ghost before = self.entries();
        let n = self.pending.len();
        let mut i: usize = 0;
        assert(before.skip(0) =~= before);
        assert(before.take(0) =~= Seq::<(u64, Seq<T>)>::empty());
        while i < n && self.pending[i].0 < instant
            invariant
                i <= n,
                n == self.pending@.len(),
                self.entries() == before,
                sorted_entries(before),
                forall|j: int| 0 <= j < i ==> before[j].0 < instant,
                insert_sorted(before, instant, value) == before.take(i as int) + insert_sorted(
                    before.skip(i as int),
                    instant,
                    value,
                ),
            decreases n - i,
        {
            proof {
                let rest = before.skip(i as int);
                assert(rest[0] == before[i as int]);
                assert(rest.skip(1) =~= before.skip(i + 1));
                assert(before.take(i + 1) =~= before.take(i as int) + seq![before[i as int]]);
            }
            i = i + 1;
        }
        let ghost rest = before.skip(i as int);
        if i < n && self.pending[i].0 == instant {
            let (key, mut values) = self.pending.remove(i);
            let ghost old_values = values@;
            values.push(value);
            self.pending.insert(i, (key, values));
            proof {
                assert(rest[0] == before[i as int]);
                assert(insert_sorted(rest, instant, value) == rest.update(0, (instant, old_values.push(value))));
                assert(self.entries() =~= before.take(i as int) + rest.update(0, (instant, old_values.push(value))));
            }
        } else {
            let mut values: Vec<T> = Vec::new();
            values.push(value);
            self.pending.insert(i, (instant, values));
            proof {
                if i < n {
                    assert(rest[0] == before[i as int]);
                }
                assert(insert_sorted(rest, instant, value) == seq![(instant, seq![value])] + rest);
                assert(self.entries() =~= before.take(i as int) + (seq![(instant, seq![value])] + rest));
            }
        }
        proof {
            assert(before =~= before.take(i as int) + rest);
            lemma_insert_sorted_keeps_order(before, instant, value, -1);
        }
    }

    /// Polls the queue at time `now`. With the timer unset, nothing is pending. Before the
    /// timer's instant, nothing is ready. Otherwise the value pushed last under the earliest
    /// instant is taken, that instant's list is dropped when it empties, and the timer is set
    /// to the earliest instant still pending, or unset.
    pub fn pop(&mut self, now: u64) -> (res: DelayPop<T>)
        requires
            old(self).wf(),
        ensures
            final(self).wf(),
            old(self).spec_timer() is None ==> res is Empty && final(self).entries() == old(self).entries()
                && final(self).spec_timer() == old(self).spec_timer(),
            (old(self).spec_timer() matches Some(t) && now < t) ==> res is NotReady && final(self).entries()
                == old(self).entries() && final(self).spec_timer() == old(self).spec_timer(),
            (old(self).spec_timer() matches Some(t) && now >= t) ==> {
                let first = old(self).entries()[0];
                let rest = if first.1.len() == 1 {
                    old(self).entries().skip(1)
                } else {
                    old(self).entries().update(0, (first.0, first.1.drop_last()))
                };
                &&& res == DelayPop::Value(first.1.last())
                &&& first.0 <= now
                &&& final(self).entries() == rest
                &&& final(self).spec_timer() == (if rest.len() == 0 {
                    None
                } else {
                    Some(rest[0].0)
                })
            },
    {
        let due = match self.timer {
            None => {
                return DelayPop::Empty;
            },
            Some(due) => due,
        };
        if now < due {
            return DelayPop::NotReady;
        }
        let ghost before = self.entries();
        let (key, mut values) = self.pending.remove(0);
        assert(before[0] == (key, values@));
        let value = values.pop().unwrap();
        if values.len() > 0 {
            self.pending.insert(0, (key, values));
            assert(self.entries() =~= before.update(0, (key, before[0].1.drop_last())));
        } else {
            assert(self.entries() =~= before.skip(1));
        }
        if self.pending.len() == 0 {
            self.timer = None;
        } else {
            self.timer = Some(self.pending[0].0);
        }
        proof {
            let after = self.entries();
            assert forall|a: int, b: int| 0 <= a < b < after.len() implies after[a].0 < after[b].0 by {
                if after.len() == before.len() {
                    assert(after[b] == before[b]);
                    if a > 0 {
                        assert(after[a] == before[a]);
                    }
                } else {
                    assert(after[a] == before[a + 1] && after[b] == before[b + 1]);
                }
            }
            assert forall|a: int| 0 <= a < after.len() implies (#[trigger] after[a]).1.len() > 0 by {
                if after.len() == before.len() {
                    if a > 0 {
                        assert(after[a] == before[a]);
                    }
                } else {
                    assert(after[a] == before[a + 1]);
                }
            }
        }
        DelayPop::Value(value)
    }
}

/// Inserting keeps the entries sorted, and adds no instant below the bound `lo` that the
/// instant and every entry lie above.
pub proof fn lemma_insert_sorted_keeps_order<T>(entries: Seq<(u64, Seq<T>)>, instant: u64, value: T, lo: int)
    requires
        sorted_entries(entries),
        instant > lo,
        forall|j: int| 0 <= j < entries.len() ==> (#[trigger] entries[j]).0 > lo,
    ensures
        sorted_entries(insert_sorted(entries, instant, value)),
        insert_sorted(entries, instant, value).len() > 0,
        insert_sorted(entries, instant, value)[0].0 <= instant,
        entries.len() > 0 ==> insert_sorted(entries, instant, value)[0].0 <= entries[0].0,
        forall|i: int| 0 <= i < insert_sorted(entries, instant, value).len() ==> (#[trigger] insert_sorted(entries, instant, value)[i]).0 > lo,
    decreases entries.len(),
{
    let result = insert_sorted(entries, instant, value);
    if entries.len() == 0 {
    } else if entries[0].0 == instant {
        assert forall|i: int| 0 <= i < result.len() implies (#[trigger] result[i]).1.len() > 0 by {
            if i > 0 {
                assert(result[i] == entries[i]);
            }
        }
    } else if instant < entries[0].0 {
        assert forall|a: int, b: int| 0 <= a < b < result.len() implies result[a].0 < result[b].0 by {
            assert(result[b] == entries[b - 1]);
            if a > 0 {
                assert(result[a] == entries[a - 1]);
            }
        }
        assert forall|i: int| 0 <= i < result.len() implies (#[trigger] result[i]).1.len() > 0 by {
            if i > 0 {
                assert(result[i] == entries[i - 1]);
            }
        }
        assert forall|i: int| 0 <= i < result.len() implies (#[trigger] result[i]).0 > lo by {
            if i > 0 {
                assert(result[i] == entries[i - 1]);
            }
        }
    } else {
        let tail = entries.skip(1);
        assert forall|a: int, b: int| 0 <= a < b < tail.len() implies tail[a].0 < tail[b].0 by {
            assert(tail[a] == entries[a + 1] && tail[b] == entries[b + 1]);
        }
        assert forall|j: int| 0 <= j < tail.len() implies (#[trigger] tail[j]).0 > entries[0].0 by {
            assert(tail[j] == entries[j + 1]);
        }
        assert forall|j: int| 0 <= j < tail.len() implies (#[trigger] tail[j]).1.len() > 0 by {
            assert(tail[j] == entries[j + 1]);
        }
        lemma_insert_sorted_keeps_order(tail, instant, value, entries[0].0 as int);
        let inserted = insert_sorted(tail, instant, value);
        assert(result == seq![entries[0]] + inserted);
        assert forall|a: int, b: int| 0 <= a < b < result.len() implies result[a].0 < result[b].0 by {
            assert(result[b] == inserted[b - 1]);
            if a > 0 {
                assert(result[a] == inserted[a - 1]);
            }
        }
        assert forall|i: int| 0 <= i < result.len() implies (#[trigger] result[i]).1.len() > 0 by {
            if i > 0 {
                assert(result[i] == inserted[i - 1]);
            }
        }
        assert forall|i: int| 0 <= i < result.len() implies (#[trigger] result[i]).0 > lo by {
            if i > 0 {
                assert(result[i] == inserted[i - 1]);
            }
        }
    }
}

} // verus!
