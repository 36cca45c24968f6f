//! The decisions of the worker: thread and batch sizing, job dispatch, and the
//! ordering of batch results.

use vstd::prelude::*;
use crate::error::HttpClientError;
use crate::models::SharedResponse;

verus! {

/// Stack size of a runtime thread, in bytes.
pub const THREAD_STACK_SIZE: usize = 1048576;

/// Seconds an idle runtime thread is kept.
pub const THREAD_KEEP_ALIVE_SECS: u64 = 30;

/// Most threads the runtime starts for blocking work.
pub const MAX_BLOCKING_THREADS: usize = 32;

/// Number of runtime worker threads for a machine with `cpu_count` logical
/// cores: all of them on one or two cores, one less on up to six, two less
/// beyond that.
pub open spec fn worker_threads_spec(cpu_count: int) -> int {
    if cpu_count <= 2 {
        cpu_count
    } else if cpu_count <= 6 {
        cpu_count - 1
    } else {
        cpu_count - 2
    }
}

pub fn worker_threads(cpu_count: usize) -> (n: usize)
    ensures
        n == worker_threads_spec(cpu_count as int),
        n <= cpu_count,
        cpu_count >= 1 ==> n >= 1,
{
    if cpu_count <= 2 {
        cpu_count
    } else if cpu_count <= 6 {
        cpu_count - 1
    } else {
        cpu_count - 2
    }
}

pub open spec fn min_int(a: int, b: int) -> int {
    if a <= b {
        a
    } else {
        b
    }
}

/// How many requests of a batch are run at once. A small batch runs all at
/// once; a larger one is held to a multiple of the core count, under a cap
/// that grows with the batch.
pub open spec fn batch_concurrency_spec(batch_len: int, cpu_count: int) -> int {
    if batch_len <= 5 {
        batch_len
    } else if batch_len <= 15 {
        min_int(cpu_count * 2, 12)
    } else if batch_len <= 50 {
        min_int(cpu_count * 4, 24)
    } else if batch_len <= 200 {
        min_int(cpu_count * 6, 48)
    } else {
        min_int(cpu_count * 8, 64)
    }
}

fn capped_multiple(cpu_count: usize, factor: usize, cap: usize) -> (n: usize)
    requires
        1 <= factor <= 8,
        cap <= 64,
    ensures
        n == min_int(cpu_count * factor, cap as int),
{
    if cpu_count >= cap {
        assert(cpu_count * factor >= cap) by (nonlinear_arith)
            requires
                cpu_count >= cap,
                factor >= 1,
        ;
        cap
    } else {
        assert(cpu_count * factor <= 64 * 8) by (nonlinear_arith)
            requires
                cpu_count < 64,
                factor <= 8,
        ;
        let m = cpu_count * factor;
        if m <= cap {
            m
        } else {
            cap
        }
    }
}

pub fn batch_concurrency(batch_len: usize, cpu_count: usize) -> (n: usize)
    ensures
        n == batch_concurrency_spec(batch_len as int, cpu_count as int),
        n <= 64 || n == batch_len,
{
    if batch_len <= 5 {
        batch_len
    } else if batch_len <= 15 {
        capped_multiple(cpu_count, 2, 12)
    } else if batch_len <= 50 {
        capped_multiple(cpu_count, 4, 24)
    } else if batch_len <= 200 {
        capped_multiple(cpu_count, 6, 48)
    } else {
        capped_multiple(cpu_count, 8, 64)
    }
}

/// Asks `num_cpus::get` for the number of logical cores available to this
/// process. The number depends on the machine and nothing is assumed of it.
#[verifier::external_body]
fn available_cpus() -> usize {
    num_cpus::get()
}

/// The number of cores to plan with where the machine reports `reported`:
/// that number, and one where it reports none.
pub fn cores_to_plan_with(reported: usize) -> (n: usize)
    ensures
        n == (if reported == 0 {
            1usize
        } else {
            reported
        }),
{
    if reported == 0 {
        1
    } else {
        reported
    }
}

/// The number of cores to plan with: what the machine reports, and at least one.
pub fn cpu_count() -> (n: usize)
    ensures
        n >= 1,
{
    cores_to_plan_with(available_cpus())
}

/// How the runtime that drives the transport calls is set up.
pub struct RuntimeSettings {
    pub worker_threads: usize,
    pub thread_stack_size: usize,
    pub thread_name: String,
    pub thread_keep_alive_secs: u64,
    pub max_blocking_threads: usize,
}

/// The runtime settings for a machine with `cpu_count` logical cores.
pub fn runtime_settings(cpu_count: usize) -> (s: RuntimeSettings)
    ensures
        s.worker_threads == worker_threads_spec(cpu_count as int),
        s.thread_stack_size == THREAD_STACK_SIZE,
        s.thread_name@ == "http-mobile-fast"@,
        s.thread_keep_alive_secs == THREAD_KEEP_ALIVE_SECS,
        s.max_blocking_threads == MAX_BLOCKING_THREADS,
{
    RuntimeSettings {
        worker_threads: worker_threads(cpu_count),
        thread_stack_size: THREAD_STACK_SIZE,
        thread_name: "http-mobile-fast".to_owned(),
        thread_keep_alive_secs: THREAD_KEEP_ALIVE_SECS,
        max_blocking_threads: MAX_BLOCKING_THREADS,
    }
}

/// The runtime settings for this machine.
pub fn runtime_settings_here() -> (s: RuntimeSettings)
    ensures
        s.worker_threads >= 1,
        exists|cores: int|
            cores >= 1 && s.worker_threads == #[trigger] worker_threads_spec(cores),
        s.thread_stack_size == THREAD_STACK_SIZE,
        s.thread_name@ == "http-mobile-fast"@,
        s.thread_keep_alive_secs == THREAD_KEEP_ALIVE_SECS,
        s.max_blocking_threads == MAX_BLOCKING_THREADS,
{
    let cpus = cpu_count();
    let s = runtime_settings(cpus);
    assert(s.worker_threads == worker_threads_spec(cpus as int));
    s
}

/// How many requests of a batch of `batch_len` are run at once on this
/// machine: what `batch_concurrency` gives for its number of cores, which is
/// at least one. A small batch runs all at once; above that the number lies
/// between the multiple for one core and the cap of the batch's size class.
pub fn batch_concurrency_here(batch_len: usize) -> (n: usize)
    ensures
        exists|cores: int|
            cores >= 1 && n == #[trigger] batch_concurrency_spec(batch_len as int, cores),
        batch_len <= 5 ==> n == batch_len,
        5 < batch_len <= 15 ==> 2 <= n <= 12,
        15 < batch_len <= 50 ==> 4 <= n <= 24,
        50 < batch_len <= 200 ==> 6 <= n <= 48,
        200 < batch_len ==> 8 <= n <= 64,
{
    let cpus = cpu_count();
    let n = batch_concurrency(batch_len, cpus);
    assert(n == batch_concurrency_spec(batch_len as int, cpus as int));
    n
}

/// Most requests a batch may hold where the caller names no limit.
pub const MAX_BATCH_ITEMS: usize = 1000;

/// The number of requests that are run at once where `requested` are asked
/// for: that number, and one where none is asked for.
pub open spec fn fan_out_spec(requested: int) -> int {
    if requested < 1 {
        1
    } else {
        requested
    }
}

pub fn batch_fan_out(requested: usize) -> (n: usize)
    ensures
        n == fan_out_spec(requested as int),
{
    if requested < 1 {
        1
    } else {
        requested
    }
}

/// What becomes of a batch.
#[derive(Clone, Copy, Debug, PartialEq, Eq, Structural)]
pub enum BatchPlan {
    /// The batch is refused as a whole; none of its requests is run.
    Rejected(HttpClientError),
    /// The batch holds no request: the answer is the empty list, and nothing
    /// is run.
    Empty,
    /// The requests are run, at most `concurrency` of them at once, and the
    /// responses are handed back in the order of the requests.
    Run { concurrency: usize },
}

/// What becomes of a batch of `count` requests where at most `max_items`
/// are allowed, on a machine with `cores` cores.
pub open spec fn plan_batch_spec(count: int, max_items: int, cores: int) -> BatchPlan {
    if count > max_items {
        BatchPlan::Rejected(HttpClientError::BatchTooLarge)
    } else if count == 0 {
        BatchPlan::Empty
    } else {
        BatchPlan::Run {
            concurrency: fan_out_spec(batch_concurrency_spec(count, cores)) as usize,
        }
    }
}

/// Decides what becomes of a batch. A batch over the limit is refused whole
/// rather than run in part, an empty batch is answered at once, and any
/// other is run with at least one request at a time.
pub fn plan_batch(count: usize, max_items: usize, cores: usize) -> (p: BatchPlan)
    ensures
        p == plan_batch_spec(count as int, max_items as int, cores as int),
        p matches BatchPlan::Run { concurrency } ==> 1 <= concurrency && (concurrency <= 64
            || concurrency == count),
{
    match check_batch_size(count, max_items) {
        Err(e) => BatchPlan::Rejected(e),
        Ok(()) => if count == 0 {
            BatchPlan::Empty
        } else {
            BatchPlan::Run { concurrency: batch_fan_out(batch_concurrency(count, cores)) }
        },
    }
}

/// Decides what becomes of a batch on this machine.
pub fn plan_batch_here(count: usize, max_items: usize) -> (p: BatchPlan)
    ensures
        exists|cores: int|
            cores >= 1 && p == #[trigger] plan_batch_spec(count as int, max_items as int, cores),
        count > max_items <==> p == BatchPlan::Rejected(HttpClientError::BatchTooLarge),
        count == 0 <==> p == BatchPlan::Empty,
{
    let cpus = cpu_count();
    let p = plan_batch(count, max_items, cpus);
    assert(p == plan_batch_spec(count as int, max_items as int, cpus as int));
    p
}

/// Refuses a batch that holds more requests than the caller allowed. A batch
/// is either run whole or not at all.
pub fn check_batch_size(count: usize, max_items: usize) -> (r: Result<(), HttpClientError>)
    ensures
        r.is_ok() <==> count <= max_items,
        r matches Err(e) ==> e == HttpClientError::BatchTooLarge,
{
    if count > max_items {
        Err(HttpClientError::BatchTooLarge)
    } else {
        Ok(())
    }
}

/// Whether a job carries one request or a batch.
#[derive(Clone, Copy, Debug, PartialEq, Eq, Structural)]
pub enum JobKind {
    Single,
    Batch,
}

/// A unit of work for the worker: the serialized input, which the job owns,
/// and whether the input was copied from memory that the caller keeps.
pub struct Job {
    pub kind: JobKind,
    pub copied: bool,
    pub bytes: Vec<u8>,
}

/// What the worker does with a job it has received.
pub enum WorkerAction {
    /// Put the job back into the queue.
    Requeue(Job),
    /// Parse one request from these bytes and execute it.
    RunSingle(Vec<u8>),
    /// Parse a list of requests from these bytes and execute them.
    RunBatch(Vec<u8>),
}

/// The worker's step on a job. A job made from copied input is queued again
/// as an owned job with the same bytes; an owned job is run.
pub fn dispatch(job: Job) -> (action: WorkerAction)
    ensures
        match action {
            WorkerAction::Requeue(next) => job.copied && next.kind == job.kind && !next.copied
                && next.bytes == job.bytes,
            WorkerAction::RunSingle(bytes) => !job.copied && job.kind == JobKind::Single && bytes
                == job.bytes,
            WorkerAction::RunBatch(bytes) => !job.copied && job.kind == JobKind::Batch && bytes
                == job.bytes,
        },
{
    if job.copied {
        WorkerAction::Requeue(Job { kind: job.kind, copied: false, bytes: job.bytes })
    } else {
        match job.kind {
            JobKind::Single => WorkerAction::RunSingle(job.bytes),
            JobKind::Batch => WorkerAction::RunBatch(job.bytes),
        }
    }
}

pub type Outcome = Result<SharedResponse, HttpClientError>;

/// The responses among `s`, in the order of `s`.
pub open spec fn successes(s: Seq<Outcome>) -> Seq<SharedResponse>
    decreases s.len(),
{
    if s.len() == 0 {
        Seq::empty()
    } else {
        match s.last() {
            Ok(r) => successes(s.drop_last()).push(r),
            Err(_) => successes(s.drop_last()),
        }
    }
}

/// Keeps the responses of a batch and drops its failures. The responses stay
/// in the order of the outcomes.
pub fn collect_successful(outcomes: Vec<Outcome>) -> (responses: Vec<SharedResponse>)
    ensures
        responses@ == successes(outcomes@),
        responses@.len() <= outcomes@.len(),
{
    let mut responses: Vec<SharedResponse> = Vec::with_capacity(outcomes.len());
    let ghost all = outcomes@;
    assert(all.take(0) =~= Seq::<Outcome>::empty());
    for outcome in it: outcomes.into_iter()
        invariant
            it.seq() == all,
            responses@ == successes(all.take(it.index())),
            responses@.len() <= it.index(),
    {
        proof {
            let t = all.take(it.index() + 1);
            assert(t.drop_last() =~= all.take(it.index()));
            assert(t.last() == outcome);
        }
        match outcome {
            Ok(r) => {
                responses.push(r);
            },
            Err(_) => {},
        }
    }
    assert(all.take(all.len() as int) =~= all);
    responses
}

/// The outcomes that have arrived, each at the place of its request.
pub open spec fn arrived(slots: Seq<Option<Outcome>>) -> Seq<Outcome>
    decreases slots.len(),
{
    if slots.len() == 0 {
        Seq::empty()
    } else {
        match slots.last() {
            Some(o) => arrived(slots.drop_last()).push(o),
            None => arrived(slots.drop_last()),
        }
    }
}

/// Where every request of a batch was answered with a response, the batch
/// hands back exactly these responses, as many as there were requests and in
/// the order of the requests, in whatever order they arrived.
pub proof fn lemma_answered_batch_keeps_order(
    slots: Seq<Option<Outcome>>,
    responses: Seq<SharedResponse>,
)
    requires
        slots.len() == responses.len(),
        forall|i: int|
            0 <= i < slots.len() ==> #[trigger] slots[i] == Some(
                Ok::<SharedResponse, HttpClientError>(responses[i]),
            ),
    ensures
        successes(arrived(slots)) == responses,
        arrived(slots).len() == slots.len(),
    decreases slots.len(),
{
    if slots.len() == 0 {
        assert(successes(arrived(slots)) =~= responses);
    } else {
        let n = slots.len() - 1;
        assert(slots[n] == Some(Ok::<SharedResponse, HttpClientError>(responses[n])));
        assert forall|i: int| 0 <= i < n implies #[trigger] slots.drop_last()[i] == Some(
            Ok::<SharedResponse, HttpClientError>(responses.drop_last()[i]),
        ) by {
            assert(slots.drop_last()[i] == slots[i]);
        }
        lemma_answered_batch_keeps_order(slots.drop_last(), responses.drop_last());
        let a = arrived(slots);
        assert(a == arrived(slots.drop_last()).push(
            Ok::<SharedResponse, HttpClientError>(responses[n]),
        ));
        assert(a.drop_last() =~= arrived(slots.drop_last()));
        assert(a.last() == Ok::<SharedResponse, HttpClientError>(responses[n]));
        assert(successes(a) == successes(a.drop_last()).push(responses[n]));
        assert(successes(a) =~= responses);
    }
}

/// Puts the outcomes of a batch, which arrive in any order, back into the
/// order in which the requests were submitted.
pub struct BatchCollector {
    slots: Vec<Option<Outcome>>,
}

impl View for BatchCollector {
    type V = Seq<Option<Outcome>>;

    closed spec fn view(&self) -> Seq<Option<Outcome>> {
        self.slots@
    }
}

impl BatchCollector {
    /// A collector for a batch of `len` requests, none of them answered.
    pub fn new(len: usize) -> (c: Self)
        ensures
            c@.len() == len,
            forall|i: int| 0 <= i < len ==> (#[trigger] c@[i]).is_none(),
    {
        let mut slots: Vec<Option<Outcome>> = Vec::with_capacity(len);
        let mut i: usize = 0;
        while i < len
            invariant
                i <= len,
                slots@.len() == i,
                forall|j: int| 0 <= j < i ==> (#[trigger] slots@[j]).is_none(),
            decreases len - i,
        {
            slots.push(None);
            i = i + 1;
        }
        BatchCollector { slots }
    }

    pub fn len(&self) -> (n: usize)
        ensures
            n == self@.len(),
    {
        self.slots.len()
    }

    /// Records the outcome of the request at `index`. An index outside the
    /// batch and a second outcome for one request are refused and change
    /// nothing.
    pub fn record(&mut self, index: usize, outcome: Outcome) -> (accepted: bool)
        ensures
            accepted <==> index < old(self)@.len() && old(self)@[index as int].is_none(),
            accepted ==> final(self)@ == old(self)@.update(index as int, Some(outcome)),
            !accepted ==> final(self)@ == old(self)@,
    {
        if index >= self.slots.len() {
            return false;
        }
        if self.slots[index].is_some() {
            return false;
        }
        self.slots.set(index, Some(outcome));
        true
    }

    /// Whether every request of the batch has its outcome.
    pub fn is_complete(&self) -> (b: bool)
        ensures
            b <==> forall|i: int| 0 <= i < self@.len() ==> (#[trigger] self@[i]).is_some(),
    {
        let mut i: usize = 0;
        while i < self.slots.len()
            invariant
                i <= self.slots.len(),
                forall|j: int| 0 <= j < i ==> (#[trigger] self@[j]).is_some(),
            decreases self.slots.len() - i,
        {
            if self.slots[i].is_none() {
                return false;
            }
            i = i + 1;
        }
        true
    }

    /// The responses of the batch in the order of its requests. Requests that
    /// failed or were never answered leave no trace in the result.
    pub fn finish(self) -> (responses: Vec<SharedResponse>)
        ensures
            responses@ == successes(arrived(self@)),
            responses@.len() <= self@.len(),
    {
        let mut outcomes: Vec<Outcome> = Vec::with_capacity(self.slots.len());
        let ghost all = self.slots@;
        assert(all.take(0) =~= Seq::<Option<Outcome>>::empty());
        for slot in it: self.slots.into_iter()
            invariant
                it.seq() == all,
                outcomes@ == arrived(all.take(it.index())),
                outcomes@.len() <= it.index(),
        {
            proof {
                let t = all.take(it.index() + 1);
                assert(t.drop_last() =~= all.take(it.index()));
                assert(t.last() == slot);
            }
            match slot {
                Some(o) => {
                    outcomes.push(o);
                },
                None => {},
            }
        }
        assert(all.take(all.len() as int) =~= all);
        collect_successful(outcomes)
    }
}

} // verus!
