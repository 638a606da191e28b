use vstd::prelude::*;

verus! {

/// Accounting model of the bounded connection pool: a fixed capacity and
/// the number of connections currently checked out. The real pool keeps
/// this count behind its own lock; the model states the discipline that
/// count obeys.
pub struct PoolGauge {
    pub capacity: u64,
    pub checked_out: u64,
}

/// One caller action against the pool: an acquisition attempt or the
/// return of a held connection.
pub enum PoolEvent {
    Acquire,
    Release,
}

impl PoolGauge {
    /// The pool invariant: never more connections out than capacity.
    pub open spec fn inv(self) -> bool {
        self.checked_out <= self.capacity
    }

    /// A fresh pool has nothing checked out.
    pub fn new(capacity: u64) -> (r: PoolGauge)
        ensures
            r.inv(),
            r.capacity == capacity,
            r.checked_out == 0,
    {
        PoolGauge { capacity, checked_out: 0 }
    }

    /// One acquisition attempt: a connection is handed out only below
    /// capacity; at capacity the caller is refused and must wait.
    pub fn try_acquire(&mut self) -> (r: bool)
        requires
            old(self).inv(),
        ensures
            final(self).inv(),
            final(self).capacity == old(self).capacity,
            r == (old(self).checked_out < old(self).capacity),
            final(self).checked_out == if r {
                old(self).checked_out + 1
            } else {
                old(self).checked_out as int
            },
    {
        if self.checked_out < self.capacity {
            self.checked_out += 1;
            true
        } else {
            false
        }
    }

    /// Returns a held connection to the pool, unconditionally — a broken
    /// connection too; revalidation happens on the next acquisition.
    pub fn release(&mut self)
        requires
            old(self).inv(),
            old(self).checked_out > 0,
        ensures
            final(self).inv(),
            final(self).capacity == old(self).capacity,
            final(self).checked_out == old(self).checked_out - 1,
    {
        self.checked_out -= 1;
    }
}

/// The pool state one caller event leads to: an acquisition at capacity
/// hands nothing out, a release of nothing held changes nothing.
pub open spec fn gauge_step(g: PoolGauge, e: PoolEvent) -> PoolGauge {
    match e {
        PoolEvent::Acquire => if g.checked_out < g.capacity {
            PoolGauge { capacity: g.capacity, checked_out: (g.checked_out + 1) as u64 }
        } else {
            g
        },
        PoolEvent::Release => if g.checked_out > 0 {
            PoolGauge { capacity: g.capacity, checked_out: (g.checked_out - 1) as u64 }
        } else {
            g
        },
    }
}

/// The pool state a whole sequence of caller events leads to.
pub open spec fn gauge_run(g: PoolGauge, es: Seq<PoolEvent>) -> PoolGauge
    decreases es.len(),
{
    if es.len() == 0 {
        g
    } else {
        gauge_run(gauge_step(g, es[0]), es.drop_first())
    }
}

/// However many acquisitions and releases concurrent callers issue, and
/// in whatever interleaving, the number of connections checked out never
/// exceeds the pool's capacity.
pub proof fn lemma_pool_capacity_bound(g: PoolGauge, es: Seq<PoolEvent>)
    requires
        g.inv(),
    ensures
        gauge_run(g, es).inv(),
        gauge_run(g, es).capacity == g.capacity,
    decreases es.len(),
{
    if es.len() == 0 {
    } else {
        lemma_pool_capacity_bound(gauge_step(g, es[0]), es.drop_first());
    }
}

} // verus!
