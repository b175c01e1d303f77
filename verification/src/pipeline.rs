//! The bounded task pool, the aggregation channel and the driver protocol,
//! as one verified state machine.
//!
//! Each transition is an executable method whose contract says exactly how
//! the state moves: a task acquires a pool slot only while one is free,
//! releases it exactly once when it finishes, and drops its producer
//! handle with it; the driver drops its own handle after spawning; the
//! consumer's `recv` signals end-of-stream exactly when the queue is
//! drained and no producer remains. The well-formedness invariant keeps
//! the slot counter equal to the number of slot-holding tasks and below
//! the capacity at every reachable state.
//!
//! The concurrency itself (the scheduler, the real semaphore and channel)
//! is outside work; this module is the protocol those primitives must
//! follow, and [`Pipeline::run_serial`] is the whole driver run under a
//! serial schedule.

use vstd::prelude::*;

use crate::extract::{
    expected_error, extract_records, page_ok, records_of, ExtractError,
};
use crate::record::{container_views, record_views, ContainerView, RawContainer, Record, RecordView};

verus! {

/// Where one fetch-and-extract task stands in its life.
#[derive(Debug, Clone, Copy, PartialEq, Eq)]
pub enum TaskPhase {
    /// Spawned, still waiting for a pool slot.
    Spawned,
    /// Holding a pool slot and doing its fetch-and-extract work.
    Holding,
    /// Finished, its slot released and its producer handle dropped.
    Finished,
}

/// One pool slot if the task holds one, none otherwise.
pub open spec fn holding_weight(p: TaskPhase) -> nat {
    if p is Holding {
        1nat
    } else {
        0nat
    }
}

/// One producer handle if the task still owns one (every task that has
/// not finished does), none otherwise.
pub open spec fn unfinished_weight(p: TaskPhase) -> nat {
    if p is Finished {
        0nat
    } else {
        1nat
    }
}

/// How many of the tasks hold a pool slot.
pub open spec fn count_holding(s: Seq<TaskPhase>) -> nat
    decreases s.len(),
{
    if s.len() == 0 {
        0nat
    } else {
        count_holding(s.drop_last()) + holding_weight(s.last())
    }
}

/// How many of the tasks still own a producer handle.
pub open spec fn count_unfinished(s: Seq<TaskPhase>) -> nat
    decreases s.len(),
{
    if s.len() == 0 {
        0nat
    } else {
        count_unfinished(s.drop_last()) + unfinished_weight(s.last())
    }
}

proof fn lemma_count_push(s: Seq<TaskPhase>, v: TaskPhase)
    ensures
        count_holding(s.push(v)) == count_holding(s) + holding_weight(v),
        count_unfinished(s.push(v)) == count_unfinished(s) + unfinished_weight(v),
{
    assert(s.push(v).drop_last() =~= s);
    assert(s.push(v).last() == v);
}

proof fn lemma_count_update(s: Seq<TaskPhase>, i: int, v: TaskPhase)
    requires
        0 <= i < s.len(),
    ensures
        count_holding(s.update(i, v)) == count_holding(s) - holding_weight(s[i])
            + holding_weight(v),
        count_unfinished(s.update(i, v)) == count_unfinished(s) - unfinished_weight(s[i])
            + unfinished_weight(v),
    decreases s.len(),
{
    let t = s.update(i, v);
    if i == s.len() - 1 {
        assert(t.drop_last() =~= s.drop_last());
        assert(t.last() == v);
    } else {
        assert(t.drop_last() =~= s.drop_last().update(i, v));
        assert(t.last() == s.last());
        lemma_count_update(s.drop_last(), i, v);
    }
}

proof fn lemma_all_finished_counts(s: Seq<TaskPhase>)
    requires
        forall|i: int| 0 <= i < s.len() ==> s[i] is Finished,
    ensures
        count_unfinished(s) == 0,
        count_holding(s) == 0,
    decreases s.len(),
{
    if s.len() > 0 {
        assert(forall|i: int|
            0 <= i < s.drop_last().len() ==> s.drop_last()[i] == s[i]);
        lemma_all_finished_counts(s.drop_last());
    }
}

/// The pipeline's whole observable state: the pool capacity, one phase per
/// spawned task, the pool's outstanding-slot counter, whether the driver
/// still owns its original producer handle, and the queue of records sent
/// but not yet received.
pub struct Pipeline {
    pub capacity: usize,
    pub tasks: Vec<TaskPhase>,
    pub slots_held: usize,
    pub driver_open: bool,
    pub queue: Vec<Record>,
}

impl Pipeline {
    /// How many producer handles of the aggregation channel are open: one
    /// per unfinished task, plus the driver's own while it keeps it. The
    /// channel is closed exactly when this reaches zero.
    pub open spec fn open_producers(self) -> nat {
        count_unfinished(self.tasks@) + if self.driver_open {
            1nat
        } else {
            0nat
        }
    }

    /// The state invariant: the slot counter agrees with the tasks that
    /// hold a slot, and never exceeds the capacity.
    pub open spec fn wf(self) -> bool {
        &&& 1 <= self.capacity
        &&& self.slots_held == count_holding(self.tasks@)
        &&& self.slots_held <= self.capacity
    }

    /// Every task has run to its end, successful or not.
    pub open spec fn all_finished(self) -> bool {
        forall|i: int| 0 <= i < self.tasks@.len() ==> self.tasks@[i] is Finished
    }

    /// A fresh pipeline: no task yet, no slot held, the driver's producer
    /// handle open, the queue empty.
    pub fn new(capacity: usize) -> (p: Pipeline)
        requires
            1 <= capacity,
        ensures
            p.wf(),
            p.capacity == capacity,
            p.tasks@.len() == 0,
            p.slots_held == 0,
            p.driver_open,
            p.queue@.len() == 0,
    {
        Pipeline {
            capacity,
            tasks: Vec::new(),
            slots_held: 0,
            driver_open: true,
            queue: Vec::new(),
        }
    }

    /// The driver spawns one more task, fire-and-forget. Spawning clones a
    /// producer handle from the driver's own, so it needs that handle
    /// still open; nothing else moves.
    pub fn spawn_task(&mut self)
        requires
            old(self).wf(),
            old(self).driver_open,
        ensures
            final(self).wf(),
            final(self).tasks@ == old(self).tasks@.push(TaskPhase::Spawned),
            final(self).capacity == old(self).capacity,
            final(self).slots_held == old(self).slots_held,
            final(self).driver_open,
            final(self).queue@ == old(self).queue@,
    {
        proof {
            lemma_count_push(self.tasks@, TaskPhase::Spawned);
        }
        self.tasks.push(TaskPhase::Spawned);
    }

    /// A spawned task acquires one pool slot. The step is enabled only
    /// while a slot is free — that is what suspension on acquisition
    /// means — and raises the outstanding count by exactly one.
    pub fn acquire_slot(&mut self, i: usize)
        requires
            old(self).wf(),
            i < old(self).tasks@.len(),
            old(self).tasks@[i as int] is Spawned,
            old(self).slots_held < old(self).capacity,
        ensures
            final(self).wf(),
            final(self).tasks@ == old(self).tasks@.update(i as int, TaskPhase::Holding),
            final(self).slots_held == old(self).slots_held + 1,
            final(self).capacity == old(self).capacity,
            final(self).driver_open == old(self).driver_open,
            final(self).queue@ == old(self).queue@,
    {
        proof {
            lemma_count_update(self.tasks@, i as int, TaskPhase::Holding);
        }
        self.tasks[i] = TaskPhase::Holding;
        self.slots_held = self.slots_held + 1;
    }

    /// A task holding a slot sends one record to the aggregation channel.
    /// Sending never blocks — the channel is unbounded — and the queue
    /// keeps arrival order, so one task's records stay in emission order.
    pub fn emit(&mut self, i: usize, rec: Record)
        requires
            old(self).wf(),
            i < old(self).tasks@.len(),
            old(self).tasks@[i as int] is Holding,
        ensures
            final(self).wf(),
            final(self).queue@ == old(self).queue@.push(rec),
            final(self).tasks@ == old(self).tasks@,
            final(self).capacity == old(self).capacity,
            final(self).slots_held == old(self).slots_held,
            final(self).driver_open == old(self).driver_open,
    {
        self.queue.push(rec);
    }

    /// A task ends — after its emissions on success, straight away on
    /// failure. Its slot is released exactly once and its producer handle
    /// dropped with it; no other task's phase and nothing already queued
    /// changes, so one task's failure never disturbs the others.
    pub fn finish_task(&mut self, i: usize)
        requires
            old(self).wf(),
            i < old(self).tasks@.len(),
            old(self).tasks@[i as int] is Holding,
        ensures
            final(self).wf(),
            final(self).tasks@ == old(self).tasks@.update(i as int, TaskPhase::Finished),
            final(self).slots_held == old(self).slots_held - 1,
            final(self).capacity == old(self).capacity,
            final(self).driver_open == old(self).driver_open,
            final(self).queue@ == old(self).queue@,
    {
        proof {
            lemma_count_update(self.tasks@, i as int, TaskPhase::Finished);
        }
        self.tasks[i] = TaskPhase::Finished;
        self.slots_held = self.slots_held - 1;
    }

    /// After issuing every spawn, the driver drops its own producer
    /// handle, so that closure of the channel comes to depend on task
    /// completion alone.
    pub fn drop_driver_handle(&mut self)
        requires
            old(self).wf(),
            old(self).driver_open,
        ensures
            final(self).wf(),
            !final(self).driver_open,
            final(self).tasks@ == old(self).tasks@,
            final(self).capacity == old(self).capacity,
            final(self).slots_held == old(self).slots_held,
            final(self).queue@ == old(self).queue@,
    {
        self.driver_open = false;
    }

    /// The consumer takes one item from the channel. The step is enabled
    /// when it would not suspend: either an item is queued, or no producer
    /// is left to send one. It signals end-of-stream — `None` — exactly
    /// when the queue is empty, which under the enabling condition means
    /// the channel is closed and drained.
    pub fn recv(&mut self) -> (r: Option<Record>)
        requires
            old(self).wf(),
            old(self).queue@.len() > 0 || old(self).open_producers() == 0,
        ensures
            final(self).wf(),
            r is None <==> old(self).queue@.len() == 0,
            r is None ==> old(self).open_producers() == 0,
            old(self).queue@.len() > 0 ==> r == Some(old(self).queue@[0])
                && final(self).queue@ == old(self).queue@.drop_first(),
            old(self).queue@.len() == 0 ==> final(self).queue@ == old(self).queue@,
            final(self).tasks@ == old(self).tasks@,
            final(self).capacity == old(self).capacity,
            final(self).slots_held == old(self).slots_held,
            final(self).driver_open == old(self).driver_open,
    {
        if self.queue.len() > 0 {
            let rec = self.queue.remove(0);
            proof {
                assert(self.queue@ =~= old(self).queue@.drop_first());
            }
            Some(rec)
        } else {
            None
        }
    }

    /// The consumer's whole drain loop, once every producer is gone: it
    /// receives until end-of-stream and terminates — even with zero tasks
    /// — handing back everything still queued, in queue order.
    pub fn drain(&mut self) -> (r: Vec<Record>)
        requires
            old(self).wf(),
            old(self).all_finished(),
            !old(self).driver_open,
        ensures
            final(self).wf(),
            r@ == old(self).queue@,
            final(self).queue@.len() == 0,
            final(self).tasks@ == old(self).tasks@,
            final(self).capacity == old(self).capacity,
            final(self).slots_held == old(self).slots_held,
            !final(self).driver_open,
    {
        proof {
            lemma_all_finished_counts(self.tasks@);
        }
        let mut out: Vec<Record> = Vec::new();
        while self.queue.len() > 0
            invariant
                self.wf(),
                self.all_finished(),
                !self.driver_open,
                self.tasks@ == old(self).tasks@,
                self.capacity == old(self).capacity,
                self.slots_held == old(self).slots_held,
                out@ + self.queue@ == old(self).queue@,
            decreases self.queue@.len(),
        {
            proof {
                lemma_all_finished_counts(self.tasks@);
            }
            let ghost prev_out = out@;
            let ghost prev_q = self.queue@;
            let rec = self.recv().unwrap();
            out.push(rec);
            proof {
                assert(out@ + self.queue@ =~= prev_out + prev_q);
            }
        }
        proof {
            assert(out@ =~= old(self).queue@);
        }
        out
    }
}

/// One page's failure, surfaced to the consumer instead of silently
/// dropped: which page (by position in the run), and what extraction
/// reported for it.
#[derive(Debug, Clone, PartialEq, Eq)]
pub struct PageFailure {
    pub page: usize,
    pub error: ExtractError,
}

/// What one whole run delivers: every record of every page that extracted
/// cleanly, and one failure entry per page that did not.
#[derive(Debug, Clone, PartialEq, Eq)]
pub struct RunReport {
    pub records: Vec<Record>,
    pub failures: Vec<PageFailure>,
}

/// The container views of each page of a run, page by page.
pub open spec fn page_views(ps: Seq<Vec<RawContainer>>) -> Seq<Seq<ContainerView>> {
    ps.map_values(|p: Vec<RawContainer>| container_views(p@))
}

/// The records a serial run delivers: those of every clean page, in page
/// order, each page's records in container order; a page with an
/// incomplete container contributes nothing.
pub open spec fn serial_records(ps: Seq<Seq<ContainerView>>) -> Seq<RecordView>
    decreases ps.len(),
{
    if ps.len() == 0 {
        Seq::empty()
    } else {
        serial_records(ps.drop_last()) + if page_ok(ps.last()) {
            records_of(ps.last())
        } else {
            Seq::empty()
        }
    }
}

/// The positions of the pages that fail extraction, in page order.
pub open spec fn failing_pages(ps: Seq<Seq<ContainerView>>) -> Seq<int>
    decreases ps.len(),
{
    if ps.len() == 0 {
        Seq::empty()
    } else {
        failing_pages(ps.drop_last()) + if page_ok(ps.last()) {
            Seq::empty()
        } else {
            seq![ps.len() - 1]
        }
    }
}

proof fn lemma_serial_step(ps: Seq<Seq<ContainerView>>, i: int)
    requires
        0 <= i < ps.len(),
    ensures
        serial_records(ps.take(i + 1)) == serial_records(ps.take(i)) + if page_ok(ps[i]) {
            records_of(ps[i])
        } else {
            Seq::<RecordView>::empty()
        },
        failing_pages(ps.take(i + 1)) == failing_pages(ps.take(i)) + if page_ok(ps[i]) {
            Seq::<int>::empty()
        } else {
            seq![i]
        },
{
    assert(ps.take(i + 1).drop_last() =~= ps.take(i));
    assert(ps.take(i + 1).last() == ps[i]);
}

impl Pipeline {
    /// The whole driver run over already-fetched pages, under a serial
    /// schedule: spawn one task per page, let each in page order acquire
    /// its slot, extract, emit its records and finish, then drop the
    /// driver's handle and drain the channel to end-of-stream.
    ///
    /// Delivers exactly the records of the pages that extract cleanly, in
    /// page order and container order, and one failure entry per page
    /// that does not — a failed page loses its own records but never
    /// disturbs another page's.
    pub fn run_serial(capacity: usize, pages: &Vec<Vec<RawContainer>>) -> (r: RunReport)
        requires
            1 <= capacity,
        ensures
            record_views(r.records@) == serial_records(page_views(pages@)),
            r.failures@.map_values(|f: PageFailure| f.page as int) == failing_pages(
                page_views(pages@),
            ),
            forall|k: int|
                0 <= k < r.failures@.len() ==> (#[trigger] r.failures@[k]).page < pages@.len()
                    && expected_error(
                    page_views(pages@)[r.failures@[k].page as int],
                    r.failures@[k].error,
                ),
    {
        let ghost ps = page_views(pages@);
        let mut pl = Pipeline::new(capacity);
        let mut i: usize = 0;
        while i < pages.len()
            invariant
                pl.wf(),
                pl.driver_open,
                pl.capacity == capacity,
                pl.slots_held == 0,
                pl.queue@.len() == 0,
                pl.tasks@.len() == i,
                i <= pages@.len(),
                forall|j: int| 0 <= j < i ==> #[trigger] pl.tasks@[j] is Spawned,
            decreases pages@.len() - i,
        {
            pl.spawn_task();
            i = i + 1;
        }
        let mut failures: Vec<PageFailure> = Vec::new();
        let mut i: usize = 0;
        while i < pages.len()
            invariant
                ps == page_views(pages@),
                ps.len() == pages@.len(),
                pl.wf(),
                pl.driver_open,
                pl.capacity == capacity,
                pl.slots_held == 0,
                pl.tasks@.len() == pages@.len(),
                i <= pages@.len(),
                forall|j: int| 0 <= j < i ==> #[trigger] pl.tasks@[j] is Finished,
                forall|j: int|
                    i <= j < pl.tasks@.len() ==> #[trigger] pl.tasks@[j] is Spawned,
                record_views(pl.queue@) == serial_records(ps.take(i as int)),
                failures@.map_values(|f: PageFailure| f.page as int) == failing_pages(
                    ps.take(i as int),
                ),
                forall|k: int|
                    0 <= k < failures@.len() ==> (#[trigger] failures@[k]).page < pages@.len()
                        && expected_error(ps[failures@[k].page as int], failures@[k].error),
            decreases pages@.len() - i,
        {
            proof {
                lemma_serial_step(ps, i as int);
                assert(ps[i as int] == container_views(pages@[i as int]@));
            }
            pl.acquire_slot(i);
            let res = extract_records(&pages[i]);
            let ghost q0 = pl.queue@;
            let ghost failures0 = failures@;
            match res {
                Ok(mut recs) => {
                    let ghost orig = recs@;
                    proof {
                        assert(orig.skip(0) =~= orig);
                        assert(q0 + orig.take(0) =~= q0);
                    }
                    while recs.len() > 0
                        invariant
                            pl.wf(),
                            pl.driver_open,
                            pl.capacity == capacity,
                            pl.slots_held == 1,
                            pl.tasks@.len() == pages@.len(),
                            i < pages@.len(),
                            pl.tasks@[i as int] is Holding,
                            forall|j: int| 0 <= j < i ==> #[trigger] pl.tasks@[j] is Finished,
                            forall|j: int|
                                i < j < pl.tasks@.len() ==> #[trigger] pl.tasks@[j] is Spawned,
                            recs@.len() <= orig.len(),
                            recs@ == orig.skip(orig.len() - recs@.len()),
                            pl.queue@ == q0 + orig.take(orig.len() - recs@.len()),
                        decreases recs@.len(),
                    {
                        let ghost prev = recs@;
                        let ghost n = orig.len() - prev.len();
                        let rec = recs.remove(0);
                        proof {
                            assert(orig.skip(n)[0] == orig[n]);
                            assert(rec == orig[n]);
                            assert(recs@ =~= orig.skip(n + 1));
                        }
                        pl.emit(i, rec);
                        proof {
                            assert(pl.queue@ =~= q0 + orig.take(n + 1));
                        }
                    }
                    proof {
                        assert(orig.take(orig.len() as int) =~= orig);
                        assert(pl.queue@ == q0 + orig);
                        assert(record_views(pl.queue@) =~= record_views(q0) + record_views(orig));
                        assert(record_views(pl.queue@) == serial_records(ps.take(i as int + 1)));
                        assert(failing_pages(ps.take(i as int + 1)) =~= failing_pages(
                            ps.take(i as int),
                        ));
                    }
                },
                Err(e) => {
                    failures.push(PageFailure { page: i, error: e });
                    proof {
                        assert(failures@.map_values(|f: PageFailure| f.page as int)
                            =~= failing_pages(ps.take(i as int + 1)));
                        assert(serial_records(ps.take(i as int + 1)) =~= serial_records(
                            ps.take(i as int),
                        ));
                    }
                },
            }
            pl.finish_task(i);
            i = i + 1;
        }
        pl.drop_driver_handle();
        proof {
            assert(ps.take(pages@.len() as int) =~= ps);
        }
        let records = pl.drain();
        RunReport { records, failures }
    }
}

/// THE POOL BOUND: in every well-formed pipeline state, at most `capacity`
/// tasks hold a pool slot at once. Every transition of [`Pipeline`]
/// preserves well-formedness, so this holds at every reachable instant.
pub proof fn lemma_slots_bounded(p: Pipeline)
    requires
        p.wf(),
    ensures
        count_holding(p.tasks@) <= p.capacity,
{
}

/// CHANNEL CLOSURE: once every task has finished and the driver has
/// dropped its own handle, no producer handle remains open, so the
/// consumer's drain reaches end-of-stream instead of waiting — no task is
/// left to send, whatever the task count (zero included).
pub proof fn lemma_channel_closes(p: Pipeline)
    requires
        p.wf(),
        p.all_finished(),
        !p.driver_open,
    ensures
        p.open_producers() == 0,
{
    lemma_all_finished_counts(p.tasks@);
}

} // verus!
