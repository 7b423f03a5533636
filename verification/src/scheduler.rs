//! The scheduler: which polling jobs are due, in what order they are
//! admitted (priority first, earlier next-poll wins ties), how claims are
//! deduplicated through the in-flight set, and how a job's bookkeeping
//! moves after a successful or failed poll.

use vstd::prelude::*;

use vstd::multiset::Multiset;

use crate::types::{PollingJob, ScanExecutorConfig, MAX_TIMESTAMP};

verus! {

/// A job is due when it has active scans, its next poll time has passed,
/// no worker holds it, and it has not tripped the error threshold.
pub open spec fn spec_job_due(job: PollingJob, now: u64, config: ScanExecutorConfig) -> bool {
    &&& job.active_scan_count > 0
    &&& job.next_poll_at <= now
    &&& !job.is_being_polled
    &&& job.consecutive_errors < config.max_consecutive_errors
}

/// Decide whether a job is due.
pub fn job_due(job: &PollingJob, now: u64, config: &ScanExecutorConfig) -> (r: bool)
    ensures
        r == spec_job_due(*job, now, *config),
{
    job.active_scan_count > 0 && job.next_poll_at <= now && !job.is_being_polled
        && job.consecutive_errors < config.max_consecutive_errors
}

/// Admission order: higher priority first; on equal priority the earlier
/// `next_poll_at` wins.
pub open spec fn spec_key_le(a: PollingJob, b: PollingJob) -> bool {
    a.priority > b.priority || (a.priority == b.priority && a.next_poll_at <= b.next_poll_at)
}

/// Decide the admission order between two jobs.
pub fn key_le(a: &PollingJob, b: &PollingJob) -> (r: bool)
    ensures
        r == spec_key_le(*a, *b),
{
    a.priority > b.priority || (a.priority == b.priority && a.next_poll_at <= b.next_poll_at)
}

/// Select the due jobs and order them for admission: priority descending,
/// ties broken by earlier `next_poll_at`.  The result is a permutation of
/// the due jobs.
#[verifier::loop_isolation(false)]
pub fn select_due_jobs(jobs: &Vec<PollingJob>, now: u64, config: &ScanExecutorConfig) -> (r: Vec<
    PollingJob,
>)
    ensures
        r@.to_multiset() == jobs@.filter(
            |j: PollingJob| spec_job_due(j, now, *config),
        ).to_multiset(),
        forall|a: int, b: int|
            0 <= a < b < r@.len() ==> spec_key_le(#[trigger] r@[a], #[trigger] r@[b]),
        forall|i: int| 0 <= i < r@.len() ==> spec_job_due(#[trigger] r@[i], now, *config),
{
    broadcast use vstd::seq_lib::group_to_multiset_ensures;

    let ghost pred = |j: PollingJob| spec_job_due(j, now, *config);
    // keep the due jobs
    let mut work: Vec<PollingJob> = Vec::new();
    let mut i: usize = 0;
    while i < jobs.len()
        invariant
            0 <= i <= jobs@.len(),
            work@ == jobs@.subrange(0, i as int).filter(pred),
        decreases jobs@.len() - i,
    {
        proof {
            let pre = jobs@.subrange(0, i as int);
            assert(jobs@.subrange(0, i + 1 as int) =~= pre.push(jobs@[i as int]));
            crate::snapshot::lemma_filter_push(pre, jobs@[i as int], pred);
        }
        if job_due(&jobs[i], now, config) {
            work.push(jobs[i].duplicate());
        }
        i = i + 1;
    }
    proof {
        assert(jobs@.subrange(0, i as int) =~= jobs@);
    }
    let ghost elig = jobs@.filter(pred);

    // selection sort into the output
    let mut out: Vec<PollingJob> = Vec::new();
    while work.len() > 0
        invariant
            out@.to_multiset().add(work@.to_multiset()) =~= elig.to_multiset(),
            forall|a: int, b: int|
                0 <= a < b < out@.len() ==> spec_key_le(#[trigger] out@[a], #[trigger] out@[b]),
            forall|a: int, w: int|
                0 <= a < out@.len() && 0 <= w < work@.len() ==> spec_key_le(
                    #[trigger] out@[a],
                    #[trigger] work@[w],
                ),
        decreases work@.len(),
    {
        // find the minimal remaining job under the admission order
        let mut m: usize = 0;
        let mut k: usize = 1;
        while k < work.len()
            invariant
                0 <= m < k <= work@.len(),
                forall|t: int| 0 <= t < k ==> spec_key_le(work@[m as int], #[trigger] work@[t]),
            decreases work@.len() - k,
        {
            if !key_le(&work[m], &work[k]) {
                m = k;
            }
            k = k + 1;
        }
        let ghost work0 = work@;
        let item = work.remove(m);
        proof {
            assert(work@ =~= work0.remove(m as int));
            assert(forall|t: int| 0 <= t < m ==> #[trigger] work@[t] == work0[t]);
            assert(forall|t: int|
                m <= t < work@.len() ==> #[trigger] work@[t] == work0[t + 1]);
        }
        out.push(item);
        proof {
            assert(out@.to_multiset().add(work@.to_multiset()) =~= elig.to_multiset());
            assert(out@.drop_last() =~= out@.subrange(0, out@.len() - 1));
        }
    }
    proof {
        assert(work@.to_multiset() =~= Multiset::<PollingJob>::empty());
        assert(out@.to_multiset() =~= elig.to_multiset());
        assert forall|i2: int| 0 <= i2 < out@.len() implies spec_job_due(
            #[trigger] out@[i2],
            now,
            *config,
        ) by {
            assert(out@.contains(out@[i2]));
            assert(out@.to_multiset().count(out@[i2]) > 0);
            assert(elig.to_multiset().count(out@[i2]) > 0);
            assert(elig.contains(out@[i2]));
            let j = choose|j: int| 0 <= j < elig.len() && elig[j] == out@[i2];
            jobs@.lemma_filter_pred(pred, j);
        }
    }
    out
}

/// The in-memory in-flight set: one claim per campground, stamped with
/// the claim time.  It is what keeps two workers off the same campground.
pub struct InFlightSet {
    pub entries: Vec<(String, u64)>,
}

impl InFlightSet {
    /// No campground is claimed twice.
    pub open spec fn wf(self) -> bool {
        forall|i: int, j: int|
            0 <= i < j < self.entries@.len() ==> (#[trigger] self.entries@[i]).0@ != (
            #[trigger] self.entries@[j]).0@
    }

    /// The campground is currently claimed.
    pub open spec fn spec_contains(self, id: Seq<char>) -> bool {
        exists|k: int| 0 <= k < self.entries@.len() && (#[trigger] self.entries@[k]).0@ == id
    }

    /// An empty in-flight set.
    pub fn new() -> (r: Self)
        ensures
            r.wf(),
            forall|id: Seq<char>| !(#[trigger] r.spec_contains(id)),
            r.entries@.len() == 0,
    {
        InFlightSet { entries: Vec::new() }
    }

    /// Decide whether a campground is claimed.
    #[verifier::loop_isolation(false)]
    pub fn contains(&self, id: &String) -> (r: bool)
        ensures
            r == self.spec_contains(id@),
    {
        let mut k: usize = 0;
        while k < self.entries.len()
            invariant
                0 <= k <= self.entries@.len(),
                forall|t: int| 0 <= t < k ==> (#[trigger] self.entries@[t]).0@ != id@,
            decreases self.entries@.len() - k,
        {
            if self.entries[k].0 == *id {
                return true;
            }
            k = k + 1;
        }
        false
    }

    /// Claim a campground at time `now`.  The claim demands that nobody
    /// holds it: with the set's uniqueness this is what makes polls of one
    /// campground mutually exclusive.
    pub fn claim(&mut self, id: String, now: u64)
        requires
            old(self).wf(),
            !old(self).spec_contains(id@),
        ensures
            final (self).wf(),
            final (self).entries@ == old(self).entries@.push((id, now)),
            final (self).spec_contains(id@),
            forall|other: Seq<char>|
                other != id@ ==> #[trigger] final (self).spec_contains(other) == old(
                    self,
                ).spec_contains(other),
    {
        let ghost idv = id@;
        let ghost pre = self.entries@;
        self.entries.push((id, now));
        proof {
            assert(self.entries@[pre.len() as int].0@ == idv);
            assert(forall|k: int| 0 <= k < pre.len() ==> #[trigger] self.entries@[k] == pre[k]);
            assert(self.spec_contains(idv));
            assert forall|i: int, j: int|
                0 <= i < j < self.entries@.len() implies (#[trigger] self.entries@[i]).0@ != (
            #[trigger] self.entries@[j]).0@ by {
                if j == pre.len() {
                    if self.entries@[i].0@ == idv {
                        assert(pre[i].0@ == idv);
                    }
                }
            }
            assert forall|other: Seq<char>|
                other != idv implies #[trigger] self.spec_contains(other) == old(
                self,
            ).spec_contains(other) by {
                if self.spec_contains(other) {
                    let k = choose|k: int|
                        0 <= k < self.entries@.len() && (#[trigger] self.entries@[k]).0@ == other;
                    assert(k < pre.len());
                    assert(pre[k].0@ == other);
                }
                if old(self).spec_contains(other) {
                    let k = choose|k: int|
                        0 <= k < pre.len() && (#[trigger] pre[k]).0@ == other;
                    assert(self.entries@[k].0@ == other);
                }
            }
        }
    }

    /// Release a campground's claim.
    #[verifier::loop_isolation(false)]
    pub fn release(&mut self, id: &String)
        requires
            old(self).wf(),
        ensures
            final (self).wf(),
            !final (self).spec_contains(id@),
            forall|other: Seq<char>|
                other != id@ ==> #[trigger] final (self).spec_contains(other) == old(
                    self,
                ).spec_contains(other),
    {
        let ghost pre = self.entries@;
        let mut k: usize = 0;
        while k < self.entries.len()
            invariant
                0 <= k <= self.entries@.len(),
                self.entries@ == pre,
                forall|t: int| 0 <= t < k ==> (#[trigger] self.entries@[t]).0@ != id@,
            decreases self.entries@.len() - k,
        {
            if self.entries[k].0 == *id {
                self.entries.remove(k);
                proof {
                    assert(self.entries@ =~= pre.remove(k as int));
                    assert(forall|t: int| 0 <= t < k ==> #[trigger] self.entries@[t] == pre[t]);
                    assert(forall|t: int|
                        k <= t < self.entries@.len() ==> #[trigger] self.entries@[t] == pre[t + 1]);
                    assert forall|t: int|
                        0 <= t < self.entries@.len() implies (#[trigger] self.entries@[t]).0@
                        != id@ by {
                        if t >= k {
                            assert(self.entries@[t] == pre[t + 1]);
                            assert(pre[k as int].0@ == id@);
                        }
                    }
                    assert forall|other: Seq<char>|
                        other != id@ implies #[trigger] self.spec_contains(other) == (exists|t: int|
                        0 <= t < pre.len() && (#[trigger] pre[t]).0@ == other) by {
                        if self.spec_contains(other) {
                            let t = choose|t: int|
                                0 <= t < self.entries@.len() && (#[trigger] self.entries@[t]).0@
                                    == other;
                            if t < k {
                                assert(pre[t].0@ == other);
                            } else {
                                assert(pre[t + 1].0@ == other);
                            }
                        } else {
                            if exists|t: int| 0 <= t < pre.len() && (#[trigger] pre[t]).0@ == other {
                                let t = choose|t: int|
                                    0 <= t < pre.len() && (#[trigger] pre[t]).0@ == other;
                                assert(t != k);
                                if t < k {
                                    assert(self.entries@[t].0@ == other);
                                } else {
                                    assert(self.entries@[t - 1].0@ == other);
                                }
                            }
                        }
                    }
                }
                return ;
            }
            k = k + 1;
        }
        proof {
            assert(!self.spec_contains(id@));
        }
    }
}

/// Two distinct in-flight entries never name the same campground: for
/// every campground id, at most one claim — hence at most one worker in
/// the poll step — exists at any instant.
pub proof fn lemma_in_flight_exclusive(s: InFlightSet, i: int, j: int)
    requires
        s.wf(),
        0 <= i < s.entries@.len(),
        0 <= j < s.entries@.len(),
        i != j,
    ensures
        s.entries@[i].0@ != s.entries@[j].0@,
{
}

/// The admission plan of one tick: walk the ordered due jobs, skip the
/// claimed ones, and admit until the hourly budget or the per-tick cap
/// runs out.
pub open spec fn spec_admit(
    jobs: Seq<PollingJob>,
    inflight: InFlightSet,
    budget: int,
    cap: int,
) -> Seq<Seq<char>>
    decreases jobs.len(),
{
    if jobs.len() == 0 || budget <= 0 || cap <= 0 {
        Seq::empty()
    } else if inflight.spec_contains(jobs[0].campground_id@) {
        spec_admit(jobs.drop_first(), inflight, budget, cap)
    } else {
        seq![jobs[0].campground_id@] + spec_admit(jobs.drop_first(), inflight, budget - 1, cap - 1)
    }
}

proof fn lemma_admit_props(jobs: Seq<PollingJob>, inflight: InFlightSet, budget: int, cap: int)
    requires
        forall|i: int, j: int|
            0 <= i < j < jobs.len() ==> (#[trigger] jobs[i]).campground_id@ != (
            #[trigger] jobs[j]).campground_id@,
    ensures
        spec_admit(jobs, inflight, budget, cap).len() <= cap || cap < 0,
        spec_admit(jobs, inflight, budget, cap).len() <= budget || budget < 0,
        forall|k: int|
            0 <= k < spec_admit(jobs, inflight, budget, cap).len() ==> !inflight.spec_contains(
                #[trigger] spec_admit(jobs, inflight, budget, cap)[k],
            ),
        forall|k: int|
            0 <= k < spec_admit(jobs, inflight, budget, cap).len() ==> exists|i: int|
                0 <= i < jobs.len() && #[trigger] spec_admit(jobs, inflight, budget, cap)[k] == (
                #[trigger] jobs[i]).campground_id@,
        forall|k: int, l: int|
            0 <= k < l < spec_admit(jobs, inflight, budget, cap).len() ==> #[trigger] spec_admit(
                jobs,
                inflight,
                budget,
                cap,
            )[k] != #[trigger] spec_admit(jobs, inflight, budget, cap)[l],
    decreases jobs.len(),
{
    if jobs.len() == 0 || budget <= 0 || cap <= 0 {
    } else {
        let rest = jobs.drop_first();
        assert(forall|i: int| 0 <= i < rest.len() ==> #[trigger] rest[i] == jobs[i + 1]);
        if inflight.spec_contains(jobs[0].campground_id@) {
            lemma_admit_props(rest, inflight, budget, cap);
        } else {
            lemma_admit_props(rest, inflight, budget - 1, cap - 1);
            let r = spec_admit(jobs, inflight, budget, cap);
            let tail = spec_admit(rest, inflight, budget - 1, cap - 1);
            assert(r[0] == jobs[0].campground_id@);
            assert(forall|k: int| 1 <= k < r.len() ==> #[trigger] r[k] == tail[k - 1]);
            assert forall|k: int, l: int| 0 <= k < l < r.len() implies #[trigger] r[k]
                != #[trigger] r[l] by {
                if k == 0 {
                    let i = choose|i: int|
                        0 <= i < rest.len() && #[trigger] tail[l - 1] == (
                        #[trigger] rest[i]).campground_id@;
                    assert(jobs[i + 1].campground_id@ == r[l]);
                    assert(jobs[0].campground_id@ != jobs[i + 1].campground_id@);
                }
            }
        }
    }
}

/// Compute one tick's claims: from the ordered due jobs, the ids to
/// claim, skipping campgrounds already in flight, at most `budget` (the
/// hourly allowance left) and at most `cap` (the per-tick candidate
/// limit).  The claims are distinct and none is already in flight.
#[verifier::loop_isolation(false)]
pub fn plan_tick(
    sorted: &Vec<PollingJob>,
    inflight: &InFlightSet,
    budget: u32,
    cap: usize,
) -> (r: Vec<String>)
    requires
        forall|i: int, j: int|
            0 <= i < j < sorted@.len() ==> (#[trigger] sorted@[i]).campground_id@ != (
            #[trigger] sorted@[j]).campground_id@,
    ensures
        r@.len() == spec_admit(sorted@, *inflight, budget as int, cap as int).len(),
        forall|k: int|
            0 <= k < r@.len() ==> (#[trigger] r@[k])@ == spec_admit(
                sorted@,
                *inflight,
                budget as int,
                cap as int,
            )[k],
        forall|k: int| 0 <= k < r@.len() ==> !inflight.spec_contains((#[trigger] r@[k])@),
        forall|k: int, l: int| 0 <= k < l < r@.len() ==> (#[trigger] r@[k])@ != (#[trigger] r@[l])@,
        r@.len() <= cap,
        r@.len() <= budget,
    {
        let ghost target = spec_admit(sorted@, *inflight, budget as int, cap as int);
        proof {
            lemma_admit_props(sorted@, *inflight, budget as int, cap as int);
        }
        let mut r: Vec<String> = Vec::new();
        proof {
            assert(sorted@.skip(0) =~= sorted@);
            assert(r@.map_values(|s: String| s@) =~= Seq::<Seq<char>>::empty());
            assert(r@.map_values(|s: String| s@) + target =~= target);
        }
        let mut i: usize = 0;
        while i < sorted.len() && (r.len() as u32) < budget && r.len() < cap
            invariant
                0 <= i <= sorted@.len(),
                r@.len() <= budget && r@.len() <= cap,
                target =~= r@.map_values(|s: String| s@) + spec_admit(
                    sorted@.skip(i as int),
                    *inflight,
                    budget - r@.len(),
                    cap - r@.len(),
                ),
            decreases sorted@.len() - i,
        {
            proof {
                assert(sorted@.skip(i as int)[0] == sorted@[i as int]);
                assert(sorted@.skip(i as int).drop_first() =~= sorted@.skip(i + 1));
            }
            let job = &sorted[i];
            if !inflight.contains(&job.campground_id) {
                let ghost rv0 = r@.map_values(|s: String| s@);
                let ghost x = sorted@[i as int].campground_id@;
                r.push(job.campground_id.clone());
                proof {
                    let tail = spec_admit(
                        sorted@.skip(i + 1),
                        *inflight,
                        budget - r@.len(),
                        cap - r@.len(),
                    );
                    assert(spec_admit(
                        sorted@.skip(i as int),
                        *inflight,
                        budget - rv0.len(),
                        cap - rv0.len(),
                    ) == seq![x] + tail);
                    assert(r@.map_values(|s: String| s@) =~= rv0.push(x));
                    assert(rv0 + (seq![x] + tail) =~= rv0.push(x) + tail);
                    assert(target =~= r@.map_values(|s: String| s@) + tail);
                }
            } else {
                proof {
                    assert(spec_admit(
                        sorted@.skip(i as int),
                        *inflight,
                        budget - r@.len(),
                        cap - r@.len(),
                    ) == spec_admit(
                        sorted@.skip(i + 1),
                        *inflight,
                        budget - r@.len(),
                        cap - r@.len(),
                    ));
                }
            }
            i = i + 1;
        }
        proof {
            if i == sorted@.len() {
                assert(sorted@.skip(i as int).len() == 0);
                assert(spec_admit(
                    sorted@.skip(i as int),
                    *inflight,
                    budget - r@.len(),
                    cap - r@.len(),
                ) =~= Seq::<Seq<char>>::empty());
            } else {
                assert(r@.len() == budget || r@.len() == cap);
                assert(spec_admit(
                    sorted@.skip(i as int),
                    *inflight,
                    budget - r@.len(),
                    cap - r@.len(),
                ) =~= Seq::<Seq<char>>::empty());
            }
            assert(target =~= r@.map_values(|s: String| s@));
            assert forall|k: int| 0 <= k < r@.len() implies (#[trigger] r@[k])@ == target[k] by {
                assert(r@.map_values(|s: String| s@)[k] == r@[k]@);
            }
        }
        r
    }

/// A job after a successful poll: the error count drops to zero, the
/// worker's hold is released, the poll time is recorded, and the next
/// poll lands one poll frequency later.
pub fn job_after_success(job: &PollingJob, now: u64, config: &ScanExecutorConfig) -> (r: PollingJob)
    requires
        job.wf(),
        now <= MAX_TIMESTAMP,
    ensures
        r.wf(),
        r.campground_id@ == job.campground_id@,
        r.active_scan_count == job.active_scan_count,
        r.poll_frequency_minutes == job.poll_frequency_minutes,
        r.priority == job.priority,
        r.consecutive_errors == 0,
        !r.is_being_polled,
        r.last_polled == Some(now),
        r.next_poll_at == now + job.poll_frequency_minutes as u64 * 60,
{
    PollingJob {
        campground_id: job.campground_id.clone(),
        active_scan_count: job.active_scan_count,
        last_polled: Some(now),
        next_poll_at: now + (job.poll_frequency_minutes as u64) * 60,
        poll_frequency_minutes: job.poll_frequency_minutes,
        consecutive_errors: 0,
        is_being_polled: false,
        priority: job.priority,
    }
}

/// A job after a failed poll: one more consecutive error; once the count
/// reaches the configured threshold the next poll is pushed out by the
/// error backoff, otherwise by the job's own poll frequency; the worker's
/// hold is released.
pub fn job_after_error(job: &PollingJob, now: u64, config: &ScanExecutorConfig) -> (r: PollingJob)
    requires
        job.wf(),
        config.wf(),
        now <= MAX_TIMESTAMP,
        job.consecutive_errors < u32::MAX,
    ensures
        r.wf(),
        r.campground_id@ == job.campground_id@,
        r.active_scan_count == job.active_scan_count,
        r.poll_frequency_minutes == job.poll_frequency_minutes,
        r.priority == job.priority,
        r.last_polled == job.last_polled,
        r.consecutive_errors == job.consecutive_errors + 1,
        !r.is_being_polled,
        r.next_poll_at == now + if job.consecutive_errors + 1 >= config.max_consecutive_errors {
            config.error_backoff_secs as int
        } else {
            job.poll_frequency_minutes as int * 60
        },
{
    let new_errors = job.consecutive_errors + 1;
    let next_poll_at = if new_errors >= config.max_consecutive_errors {
        now + config.error_backoff_secs
    } else {
        now + (job.poll_frequency_minutes as u64) * 60
    };
    PollingJob {
        campground_id: job.campground_id.clone(),
        active_scan_count: job.active_scan_count,
        last_polled: job.last_polled,
        next_poll_at,
        poll_frequency_minutes: job.poll_frequency_minutes,
        consecutive_errors: new_errors,
        is_being_polled: false,
        priority: job.priority,
    }
}

/// A job is never selected before its next poll time.
pub proof fn lemma_not_due_before_next_poll(job: PollingJob, now: u64, config: ScanExecutorConfig)
    requires
        now < job.next_poll_at,
    ensures
        !spec_job_due(job, now, config),
{
}

/// A job that reached the error threshold is not selected at any time
/// until the counter is cleared: the scheduler's filter excludes it, so in
/// particular it is not selected before its pushed-out next poll time.
pub proof fn lemma_tripped_job_not_selected(job: PollingJob, now: u64, config: ScanExecutorConfig)
    requires
        job.consecutive_errors >= config.max_consecutive_errors,
    ensures
        !spec_job_due(job, now, config),
{
}

} // verus!
