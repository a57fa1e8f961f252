//! The command coordinator: the single dispatch point that owns the
//! concurrency ceiling and the cancellation registry.
//!
//! The coordinator here is the decision core: it consumes one input at a
//! time — a caller command, or the completion of a download task — and
//! returns the actions the runtime must perform: spawn a task, emit an
//! event, signal a cancellation handle, stop. The runtime around it owns
//! the channels, the clock and the subprocesses; every admission,
//! cancellation and bookkeeping decision is made here. A download is
//! admitted only while fewer jobs run than the ceiling allows; a start
//! that finds no capacity waits in an admission queue, which models the
//! asynchronous permit acquisition.

use vstd::prelude::*;

use crate::events::{AppEvent, WorkerCommand};
use crate::job::JobId;

verus! {

/// A start request that is waiting for a free download slot.
pub struct PendingStart {
    pub job_id: JobId,
    pub url: String,
    pub format_id: String,
}

/// What the runtime must do after one coordinator step.
pub enum PoolAction {
    /// Spawn a metadata-fetch task; never bounded by the ceiling.
    SpawnFetch { job_id: JobId, url: String },
    /// Spawn a download task for an admitted job. The task holds the
    /// job's slot and its cancellation handle until it finishes.
    StartDownload { job_id: JobId, url: String, format_id: String },
    /// Send this event to the caller.
    Emit(AppEvent),
    /// Signal the cancellation handle of this registered job.
    Cancel(JobId),
    /// Stop the dispatch loop; no further commands are accepted.
    Stop,
}

/// How a download task ended: the resolved output path, or the diagnostic
/// text of its failure (a cancelled task reports its failure text too).
pub enum TaskOutcome {
    Completed(String),
    Failed(String),
}

/// One coordinator input: a caller command or a task completion.
pub ghost enum PoolInput {
    Command(WorkerCommand),
    TaskDone { id: JobId, outcome: TaskOutcome },
}

/// The coordinator's state. `active` is the cancellation registry: the
/// identifiers of the jobs whose download tasks hold a slot right now.
pub struct Coordinator {
    pub ceiling: usize,
    pub active: Vec<JobId>,
    pub pending: Vec<PendingStart>,
    pub accepting: bool,
}

/// Identifiers of queued start requests.
pub open spec fn pending_ids(pending: Seq<PendingStart>) -> Seq<JobId> {
    pending.map_values(|p: PendingStart| p.job_id)
}

/// Registry well-formedness: a job is registered at most once, queued at
/// most once, and never both running and queued.
pub open spec fn coordinator_wf(c: Coordinator) -> bool {
    &&& c.active@.no_duplicates()
    &&& pending_ids(c.pending@).no_duplicates()
    &&& forall|i: int|
        0 <= i < c.pending@.len() ==> !c.active@.contains((#[trigger] c.pending@[i]).job_id)
}

/// How many queued requests are admitted once `active_len` jobs run under
/// `ceiling`: as many as fit, never more than wait.
pub open spec fn spec_admit_count(active_len: int, pending_len: int, ceiling: int) -> int {
    if active_len >= ceiling {
        0
    } else if pending_len <= ceiling - active_len {
        pending_len
    } else {
        ceiling - active_len
    }
}

/// The actions of admitting each of `ps` in order: its start event, then
/// its download task.
pub open spec fn spec_admit_actions(ps: Seq<PendingStart>) -> Seq<PoolAction>
    decreases ps.len(),
{
    if ps.len() == 0 {
        Seq::empty()
    } else {
        spec_admit_actions(ps.drop_last()) + seq![
            PoolAction::Emit(AppEvent::JobStarted { id: ps.last().job_id }),
            PoolAction::StartDownload {
                job_id: ps.last().job_id,
                url: ps.last().url,
                format_id: ps.last().format_id,
            },
        ]
    }
}

/// After a step that leaves `active` jobs running over queue `pending`,
/// the queue's head is admitted up to the ceiling: `post_active` gains
/// exactly those identifiers, `post_pending` keeps the rest, and `tail`
/// holds exactly the admissions' actions.
pub open spec fn admits_from(
    active: Seq<JobId>,
    pending: Seq<PendingStart>,
    ceiling: int,
    post_active: Seq<JobId>,
    post_pending: Seq<PendingStart>,
    tail: Seq<PoolAction>,
) -> bool {
    let k = spec_admit_count(active.len() as int, pending.len() as int, ceiling);
    &&& post_active == active + pending_ids(pending.take(k))
    &&& post_pending == pending.skip(k)
    &&& tail == spec_admit_actions(pending.take(k))
}

/// Index of the first occurrence of `id` in `s` (meaningful only when
/// `s` contains `id`).
pub open spec fn first_index_of(s: Seq<JobId>, id: JobId) -> int
    decreases s.len(),
{
    if s.len() == 0 {
        0
    } else if s.first() == id {
        0
    } else {
        1 + first_index_of(s.drop_first(), id)
    }
}

/// `s` without the first occurrence of `id`, or `s` itself when absent.
pub open spec fn remove_id(s: Seq<JobId>, id: JobId) -> Seq<JobId> {
    if s.contains(id) {
        s.remove(first_index_of(s, id))
    } else {
        s
    }
}

/// The one terminal event a finished task reports.
pub open spec fn terminal_event_of(id: JobId, outcome: TaskOutcome) -> AppEvent {
    match outcome {
        TaskOutcome::Completed(path) => AppEvent::JobCompleted { id, path },
        TaskOutcome::Failed(error) => AppEvent::JobFailed { id, error },
    }
}

/// The coordinator's whole transition relation: what one step does to the
/// state and which actions it returns, for every input.
pub open spec fn pool_step(
    pre: Coordinator,
    input: PoolInput,
    post: Coordinator,
    acts: Seq<PoolAction>,
) -> bool {
    match input {
        PoolInput::Command(cmd) => if !pre.accepting {
            // after shutdown every command is refused without effect
            post == pre && acts.len() == 0
        } else {
            match cmd {
                WorkerCommand::FetchFormats { job_id, url } => post == pre && acts == seq![
                    PoolAction::SpawnFetch { job_id, url },
                ],
                // playlist expansion is not served by this coordinator
                WorkerCommand::FetchPlaylist { url } => post == pre && acts.len() == 0,
                WorkerCommand::StartJob { job_id, url, format_id } => {
                    if pre.active@.contains(job_id) || pending_ids(pre.pending@).contains(
                        job_id,
                    ) {
                        // a registry entry is inserted exactly once
                        post == pre && acts.len() == 0
                    } else if pre.active@.len() < pre.ceiling {
                        &&& post.active@ == pre.active@.push(job_id)
                        &&& post.pending == pre.pending
                        &&& post.ceiling == pre.ceiling
                        &&& post.accepting
                        &&& acts == seq![
                            PoolAction::Emit(AppEvent::JobStarted { id: job_id }),
                            PoolAction::StartDownload { job_id, url, format_id },
                        ]
                    } else {
                        &&& post.active == pre.active
                        &&& post.pending@ == pre.pending@.push(
                            PendingStart { job_id, url, format_id },
                        )
                        &&& post.ceiling == pre.ceiling
                        &&& post.accepting
                        &&& acts.len() == 0
                    }
                },
                WorkerCommand::CancelJob(id) => post == pre && if pre.active@.contains(id) {
                    acts == seq![PoolAction::Cancel(id)]
                } else {
                    // cancelling an unregistered job is a silent no-op
                    acts.len() == 0
                },
                WorkerCommand::UpdateConcurrent(n) => {
                    &&& post.ceiling == n
                    &&& post.accepting
                    &&& admits_from(
                        pre.active@,
                        pre.pending@,
                        n as int,
                        post.active@,
                        post.pending@,
                        acts,
                    )
                },
                WorkerCommand::Shutdown => {
                    &&& post.active == pre.active
                    &&& post.pending@.len() == 0
                    &&& post.ceiling == pre.ceiling
                    &&& !post.accepting
                    &&& acts == pre.active@.map_values(|id: JobId| PoolAction::Cancel(id)).push(
                        PoolAction::Stop,
                    )
                },
            }
        },
        PoolInput::TaskDone { id, outcome } => {
            &&& post.ceiling == pre.ceiling
            &&& post.accepting == pre.accepting
            &&& acts.len() >= 1
            &&& acts[0] == PoolAction::Emit(terminal_event_of(id, outcome))
            &&& admits_from(
                remove_id(pre.active@, id),
                pre.pending@,
                pre.ceiling as int,
                post.active@,
                post.pending@,
                acts.skip(1),
            )
        },
    }
}

impl Coordinator {
    /// A fresh coordinator: nothing runs, nothing waits, commands are
    /// accepted, at most `ceiling` downloads at once.
    pub fn new(ceiling: usize) -> (r: Self)
        ensures
            coordinator_wf(r),
            r.ceiling == ceiling,
            r.active@.len() == 0,
            r.pending@.len() == 0,
            r.accepting,
    {
        Coordinator { ceiling, active: Vec::new(), pending: Vec::new(), accepting: true }
    }

    fn contains_active(&self, id: JobId) -> (r: bool)
        ensures
            r == self.active@.contains(id),
    {
        let mut i: usize = 0;
        while i < self.active.len()
            invariant
                0 <= i <= self.active@.len(),
                forall|k: int| 0 <= k < i ==> self.active@[k] != id,
            decreases self.active@.len() - i,
        {
            if self.active[i] == id {
                return true;
            }
            i += 1;
        }
        false
    }

    fn contains_pending(&self, id: JobId) -> (r: bool)
        ensures
            r == pending_ids(self.pending@).contains(id),
    {
        let mut i: usize = 0;
        while i < self.pending.len()
            invariant
                0 <= i <= self.pending@.len(),
                forall|k: int| 0 <= k < i ==> (#[trigger] self.pending@[k]).job_id != id,
            decreases self.pending@.len() - i,
        {
            if self.pending[i].job_id == id {
                proof {
                    assert(pending_ids(self.pending@)[i as int] == id);
                }
                return true;
            }
            i += 1;
        }
        proof {
            assert forall|k: int| 0 <= k < pending_ids(self.pending@).len() implies
                pending_ids(self.pending@)[k] != id by {
                assert(pending_ids(self.pending@)[k] == self.pending@[k].job_id);
            }
        }
        false
    }

    /// Moves queued start requests into execution while capacity lasts,
    /// appending each admission's actions.
    fn admit_pending(&mut self, acts: &mut Vec<PoolAction>)
        requires
            coordinator_wf(*old(self)),
        ensures
            coordinator_wf(*final(self)),
            final(self).ceiling == old(self).ceiling,
            final(self).accepting == old(self).accepting,
            final(acts)@.len() >= old(acts)@.len(),
            final(acts)@.take(old(acts)@.len() as int) == old(acts)@,
            admits_from(
                old(self).active@,
                old(self).pending@,
                old(self).ceiling as int,
                final(self).active@,
                final(self).pending@,
                final(acts)@.skip(old(acts)@.len() as int),
            ),
    {
        let ghost acts0 = acts@;
        let ghost active0 = self.active@;
        let ghost pending0 = self.pending@;
        let ghost mut k: int = 0;
        while self.active.len() < self.ceiling && self.pending.len() > 0
            invariant
                coordinator_wf(*old(self)),
                coordinator_wf(*self),
                self.ceiling == old(self).ceiling,
                self.accepting == old(self).accepting,
                active0 == old(self).active@,
                pending0 == old(self).pending@,
                0 <= k <= pending0.len(),
                k > 0 ==> active0.len() + k <= self.ceiling,
                self.active@ == active0 + pending_ids(pending0.take(k)),
                self.pending@ == pending0.skip(k),
                acts@ == acts0 + spec_admit_actions(pending0.take(k)),
            decreases self.pending@.len(),
        {
            let p = self.pending.remove(0);
            proof {
                assert(p == pending0[k]);
                assert(pending0.skip(k).remove(0) =~= pending0.skip(k + 1));
            }
            let PendingStart { job_id, url, format_id } = p;
            proof {
                // the admitted identifier is new to the running set
                assert(pending0.skip(k)[0] == pending0[k]);
                assert(!self.active@.contains(job_id));
            }
            self.active.push(job_id);
            acts.push(PoolAction::Emit(AppEvent::JobStarted { id: job_id }));
            acts.push(PoolAction::StartDownload { job_id, url, format_id });
            proof {
                k = k + 1;
                assert(pending0.take(k).drop_last() =~= pending0.take(k - 1));
                assert(pending0.take(k).last() == pending0[k - 1]);
                assert(self.active@ =~= active0 + pending_ids(pending0.take(k)));
                assert(acts@ =~= acts0 + spec_admit_actions(pending0.take(k)));
                assert(coordinator_wf(*self)) by {
                    lemma_wf_after_admit(active0, pending0, k);
                }
            }
        }
        proof {
            assert(k == spec_admit_count(
                active0.len() as int,
                pending0.len() as int,
                self.ceiling as int,
            ));
            assert(acts@.take(acts0.len() as int) =~= acts0);
            assert(acts@.skip(acts0.len() as int) =~= spec_admit_actions(pending0.take(k)));
        }
    }
}

impl Coordinator {
    /// One dispatch step for a caller command. The returned actions are
    /// everything the runtime must do for it; a coordinator that no
    /// longer accepts commands returns none and stays as it is.
    pub fn handle_command(&mut self, cmd: WorkerCommand) -> (acts: Vec<PoolAction>)
        requires
            coordinator_wf(*old(self)),
        ensures
            coordinator_wf(*final(self)),
            pool_step(*old(self), PoolInput::Command(cmd), *final(self), acts@),
    {
        let mut acts: Vec<PoolAction> = Vec::new();
        if !self.accepting {
            return acts;
        }
        match cmd {
            WorkerCommand::FetchFormats { job_id, url } => {
                acts.push(PoolAction::SpawnFetch { job_id, url });
                proof {
                    assert(acts@ =~= seq![
                        PoolAction::SpawnFetch { job_id, url: acts@[0]->SpawnFetch_url },
                    ]);
                }
            },
            WorkerCommand::FetchPlaylist { url } => {},
            WorkerCommand::StartJob { job_id, url, format_id } => {
                if self.contains_active(job_id) || self.contains_pending(job_id) {
                } else if self.active.len() < self.ceiling {
                    self.active.push(job_id);
                    acts.push(PoolAction::Emit(AppEvent::JobStarted { id: job_id }));
                    acts.push(PoolAction::StartDownload { job_id, url, format_id });
                    proof {
                        assert(acts@ =~= seq![acts@[0], acts@[1]]);
                        lemma_push_keeps_wf(*old(self), job_id);
                    }
                } else {
                    self.pending.push(PendingStart { job_id, url, format_id });
                    proof {
                        lemma_queue_keeps_wf(*old(self), *self, job_id);
                    }
                }
            },
            WorkerCommand::CancelJob(id) => {
                if self.contains_active(id) {
                    acts.push(PoolAction::Cancel(id));
                    proof {
                        assert(acts@ =~= seq![PoolAction::Cancel(id)]);
                    }
                }
            },
            WorkerCommand::UpdateConcurrent(n) => {
                self.ceiling = n;
                self.admit_pending(&mut acts);
                proof {
                    assert(acts@.skip(0) =~= acts@);
                }
            },
            WorkerCommand::Shutdown => {
                self.accepting = false;
                self.pending = Vec::new();
                let ghost active0 = self.active@;
                let mut i: usize = 0;
                while i < self.active.len()
                    invariant
                        active0 == self.active@,
                        0 <= i <= active0.len(),
                        acts@ == active0.take(i as int).map_values(
                            |id: JobId| PoolAction::Cancel(id),
                        ),
                    decreases active0.len() - i,
                {
                    acts.push(PoolAction::Cancel(self.active[i]));
                    proof {
                        assert(active0.take(i + 1).map_values(
                            |id: JobId| PoolAction::Cancel(id),
                        ) =~= active0.take(i as int).map_values(
                            |id: JobId| PoolAction::Cancel(id),
                        ).push(PoolAction::Cancel(active0[i as int])));
                    }
                    i += 1;
                }
                proof {
                    assert(active0.take(active0.len() as int) =~= active0);
                }
                acts.push(PoolAction::Stop);
            },
        }
        acts
    }

    /// Bookkeeping when a download task ends, however it ends: report the
    /// one terminal event, release the job's registry entry and slot, and
    /// admit queued starts into the freed capacity.
    pub fn task_finished(&mut self, id: JobId, outcome: TaskOutcome) -> (acts: Vec<PoolAction>)
        requires
            coordinator_wf(*old(self)),
        ensures
            coordinator_wf(*final(self)),
            pool_step(
                *old(self),
                PoolInput::TaskDone { id, outcome },
                *final(self),
                acts@,
            ),
            old(self).active@.contains(id) ==> !final(self).active@.contains(id),
    {
        let mut acts: Vec<PoolAction> = Vec::new();
        let ev = match &outcome {
            TaskOutcome::Completed(path) => AppEvent::JobCompleted { id, path: path.clone() },
            TaskOutcome::Failed(error) => AppEvent::JobFailed { id, error: error.clone() },
        };
        acts.push(PoolAction::Emit(ev));
        let ghost active0 = self.active@;
        let mut i: usize = 0;
        while i < self.active.len() && self.active[i] != id
            invariant
                active0 == self.active@,
                0 <= i <= active0.len(),
                forall|q: int| 0 <= q < i ==> active0[q] != id,
            decreases active0.len() - i,
        {
            i += 1;
        }
        if i < self.active.len() {
            proof {
                lemma_first_index_found(active0, id, i as int);
            }
            self.active.remove(i);
            proof {
                assert(self.active@ == remove_id(active0, id));
                lemma_remove_id_wf(*old(self), id);
            }
        } else {
            proof {
                assert(!active0.contains(id));
            }
        }
        let ghost pre_admit = *self;
        let ghost acts_before = acts@;
        self.admit_pending(&mut acts);
        proof {
            assert(acts_before[0] == PoolAction::Emit(terminal_event_of(id, outcome)));
            assert(acts@.take(1) == acts_before);
            assert(acts@[0] == acts@.take(1)[0]);
            if old(self).active@.contains(id) {
                assert(!pending_ids(pre_admit.pending@).contains(id)) by {
                    if pending_ids(pre_admit.pending@).contains(id) {
                        let w = choose|w: int|
                            0 <= w < pending_ids(pre_admit.pending@).len() && pending_ids(
                                pre_admit.pending@,
                            )[w] == id;
                        assert(pending_ids(pre_admit.pending@)[w]
                            == pre_admit.pending@[w].job_id);
                        assert(!old(self).active@.contains(pre_admit.pending@[w].job_id));
                    }
                }
                lemma_not_active_after_admit(pre_admit, *self, id);
            }
        }
        acts
    }
}

/// Pushing a fresh identifier keeps the registry well-formed.
proof fn lemma_push_keeps_wf(pre: Coordinator, id: JobId)
    requires
        coordinator_wf(pre),
        !pre.active@.contains(id),
        !pending_ids(pre.pending@).contains(id),
    ensures
        pre.active@.push(id).no_duplicates(),
        forall|i: int|
            0 <= i < pre.pending@.len() ==> !pre.active@.push(id).contains(
                (#[trigger] pre.pending@[i]).job_id,
            ),
{
    assert forall|i: int| 0 <= i < pre.pending@.len() implies !pre.active@.push(id).contains(
        (#[trigger] pre.pending@[i]).job_id,
    ) by {
        assert(pending_ids(pre.pending@)[i] == pre.pending@[i].job_id);
        if pre.active@.push(id).contains(pre.pending@[i].job_id) {
            let w = choose|w: int|
                0 <= w < pre.active@.push(id).len() && pre.active@.push(id)[w]
                    == pre.pending@[i].job_id;
            if w < pre.active@.len() {
                assert(pre.active@.contains(pre.pending@[i].job_id));
            }
        }
    }
}

/// Queueing a fresh identifier keeps the registry well-formed.
proof fn lemma_queue_keeps_wf(pre: Coordinator, post: Coordinator, id: JobId)
    requires
        coordinator_wf(pre),
        !pre.active@.contains(id),
        !pending_ids(pre.pending@).contains(id),
        post.active == pre.active,
        post.pending@.len() == pre.pending@.len() + 1,
        forall|i: int| 0 <= i < pre.pending@.len() ==> post.pending@[i] == pre.pending@[i],
        post.pending@.last().job_id == id,
    ensures
        coordinator_wf(post),
{
    assert forall|i: int, j: int|
        0 <= i < j < pending_ids(post.pending@).len() implies pending_ids(post.pending@)[i]
        != pending_ids(post.pending@)[j] by {
        assert(pending_ids(post.pending@)[i] == post.pending@[i].job_id);
        assert(pending_ids(post.pending@)[j] == post.pending@[j].job_id);
        if j < pre.pending@.len() {
            assert(pending_ids(pre.pending@)[i] == pre.pending@[i].job_id);
            assert(pending_ids(pre.pending@)[j] == pre.pending@[j].job_id);
        } else {
            assert(post.pending@[j].job_id == id);
            assert(pending_ids(pre.pending@)[i] == pre.pending@[i].job_id);
        }
    }
    assert forall|i: int| 0 <= i < post.pending@.len() implies !post.active@.contains(
        (#[trigger] post.pending@[i]).job_id,
    ) by {
        if i < pre.pending@.len() {
        } else {
            assert(post.pending@[i].job_id == id);
        }
    }
}

/// A linear scan that stops at the first hit finds `first_index_of`.
proof fn lemma_first_index_found(s: Seq<JobId>, id: JobId, i: int)
    requires
        0 <= i < s.len(),
        s[i] == id,
        forall|q: int| 0 <= q < i ==> s[q] != id,
    ensures
        s.contains(id),
        first_index_of(s, id) == i,
        remove_id(s, id) == s.remove(i),
    decreases i,
{
    if i > 0 {
        assert forall|q: int| 0 <= q < i - 1 implies s.drop_first()[q] != id by {
            assert(s.drop_first()[q] == s[q + 1]);
        }
        assert(s.drop_first()[i - 1] == s[i]);
        lemma_first_index_found(s.drop_first(), id, i - 1);
        assert(s.first() != id);
    }
}

/// Removing an identifier keeps the registry well-formed and removes it
/// entirely (identifiers are unique).
proof fn lemma_remove_id_wf(pre: Coordinator, id: JobId)
    requires
        coordinator_wf(pre),
    ensures
        remove_id(pre.active@, id).no_duplicates(),
        !remove_id(pre.active@, id).contains(id),
        forall|i: int|
            0 <= i < pre.pending@.len() ==> !remove_id(pre.active@, id).contains(
                (#[trigger] pre.pending@[i]).job_id,
            ),
        forall|x: JobId|
            #![trigger remove_id(pre.active@, id).contains(x)]
            remove_id(pre.active@, id).contains(x) ==> pre.active@.contains(x),
{
    let s = pre.active@;
    if s.contains(id) {
        let w = first_index_of(s, id);
        lemma_first_index_of_bounds(s, id);
        let r = s.remove(w);
        assert forall|x: JobId| #![trigger r.contains(x)] r.contains(x) implies s.contains(
            x,
        ) by {
            if r.contains(x) {
                let q = choose|q: int| 0 <= q < r.len() && r[q] == x;
                if q < w {
                    assert(s[q] == x);
                } else {
                    assert(s[q + 1] == x);
                }
            }
        }
        assert forall|i: int, j: int| 0 <= i < j < r.len() implies r[i] != r[j] by {
            let si: int = if i < w {
                i
            } else {
                i + 1
            };
            let sj: int = if j < w {
                j
            } else {
                j + 1
            };
            assert(r[i] == s[si] && r[j] == s[sj]);
        }
        if r.contains(id) {
            let q = choose|q: int| 0 <= q < r.len() && r[q] == id;
            if q < w {
                lemma_first_index_is_first(s, id, q);
            } else {
                assert(s[q + 1] == id && s[w] == id);
            }
        }
    }
}

/// `first_index_of` lies inside the sequence and hits the value.
proof fn lemma_first_index_of_bounds(s: Seq<JobId>, id: JobId)
    requires
        s.contains(id),
    ensures
        0 <= first_index_of(s, id) < s.len(),
        s[first_index_of(s, id)] == id,
    decreases s.len(),
{
    if s.first() == id {
    } else {
        assert(s.drop_first().contains(id)) by {
            let q = choose|q: int| 0 <= q < s.len() && s[q] == id;
            assert(s.drop_first()[q - 1] == s[q]);
        }
        lemma_first_index_of_bounds(s.drop_first(), id);
        assert(s[1 + first_index_of(s.drop_first(), id)] == s.drop_first()[first_index_of(
            s.drop_first(),
            id,
        )]);
    }
}

/// Nothing before `first_index_of` holds the value.
proof fn lemma_first_index_is_first(s: Seq<JobId>, id: JobId, q: int)
    requires
        0 <= q < s.len(),
        s[q] == id,
    ensures
        first_index_of(s, id) <= q,
    decreases s.len(),
{
    if s.len() > 0 && s.first() != id {
        assert(q > 0);
        assert(s.drop_first()[q - 1] == s[q]);
        lemma_first_index_is_first(s.drop_first(), id, q - 1);
    }
}

/// An identifier neither running nor queued does not run after queued
/// starts are admitted.
proof fn lemma_not_active_after_admit(pre: Coordinator, post: Coordinator, id: JobId)
    requires
        !pre.active@.contains(id),
        !pending_ids(pre.pending@).contains(id),
        post.active@ == pre.active@ + pending_ids(
            pre.pending@.take(
                spec_admit_count(
                    pre.active@.len() as int,
                    pre.pending@.len() as int,
                    pre.ceiling as int,
                ),
            ),
        ),
    ensures
        !post.active@.contains(id),
{
    let k = spec_admit_count(
        pre.active@.len() as int,
        pre.pending@.len() as int,
        pre.ceiling as int,
    );
    if post.active@.contains(id) {
        let w = choose|w: int| 0 <= w < post.active@.len() && post.active@[w] == id;
        if w < pre.active@.len() {
            assert(pre.active@.contains(id));
        } else {
            assert(post.active@[w] == pending_ids(pre.pending@.take(k))[w
                - pre.active@.len()]);
            assert(pending_ids(pre.pending@.take(k))[w - pre.active@.len()]
                == pre.pending@.take(k)[w - pre.active@.len()].job_id);
            assert(pending_ids(pre.pending@)[w - pre.active@.len()] == pre.pending@[w
                - pre.active@.len()].job_id);
        }
    }
}

/// Whether an action reports the end of `id`'s download: a terminal
/// event for that job.
pub open spec fn is_terminal_event_for(a: PoolAction, id: JobId) -> bool {
    match a {
        PoolAction::Emit(e) => match e {
            AppEvent::JobCompleted { id: i, path } => i == id,
            AppEvent::JobFailed { id: i, error } => i == id,
            _ => false,
        },
        _ => false,
    }
}

/// How many of the actions report the end of `id`'s download.
pub open spec fn count_terminal_for(acts: Seq<PoolAction>, id: JobId) -> int
    decreases acts.len(),
{
    if acts.len() == 0 {
        0
    } else {
        count_terminal_for(acts.drop_last(), id) + if is_terminal_event_for(
            acts.last(),
            id,
        ) {
            1int
        } else {
            0int
        }
    }
}

/// Terminal counts add up over concatenation.
pub proof fn lemma_count_terminal_add(a: Seq<PoolAction>, b: Seq<PoolAction>, id: JobId)
    ensures
        count_terminal_for(a + b, id) == count_terminal_for(a, id) + count_terminal_for(b, id),
    decreases b.len(),
{
    if b.len() == 0 {
        assert(a + b =~= a);
    } else {
        lemma_count_terminal_add(a, b.drop_last(), id);
        assert((a + b).drop_last() =~= a + b.drop_last());
        assert((a + b).last() == b.last());
    }
}

/// The terminal count of a single action.
pub proof fn lemma_count_terminal_singleton(a: PoolAction, id: JobId)
    ensures
        count_terminal_for(seq![a], id) == if is_terminal_event_for(a, id) {
            1int
        } else {
            0int
        },
{
    assert(count_terminal_for(Seq::<PoolAction>::empty(), id) == 0);
    assert(seq![a].drop_last() =~= Seq::<PoolAction>::empty());
    assert(seq![a].last() == a);
}

/// Admissions spawn and start; they never cancel, stop, or end a job.
pub proof fn lemma_admit_actions_shape(ps: Seq<PendingStart>)
    ensures
        forall|q: int|
            0 <= q < spec_admit_actions(ps).len() ==> {
                let a = #[trigger] spec_admit_actions(ps)[q];
                (a matches PoolAction::Emit(e) && e is JobStarted) || a is StartDownload
            },
    decreases ps.len(),
{
    if ps.len() > 0 {
        lemma_admit_actions_shape(ps.drop_last());
    }
}

/// Admissions report no terminal event for any job.
pub proof fn lemma_admit_actions_no_terminal(ps: Seq<PendingStart>, id: JobId)
    ensures
        count_terminal_for(spec_admit_actions(ps), id) == 0,
    decreases ps.len(),
{
    if ps.len() > 0 {
        lemma_admit_actions_no_terminal(ps.drop_last(), id);
        let x = PoolAction::Emit(AppEvent::JobStarted { id: ps.last().job_id });
        let y = PoolAction::StartDownload {
            job_id: ps.last().job_id,
            url: ps.last().url,
            format_id: ps.last().format_id,
        };
        assert(seq![x, y] =~= seq![x] + seq![y]);
        lemma_count_terminal_add(seq![x], seq![y], id);
        lemma_count_terminal_singleton(x, id);
        lemma_count_terminal_singleton(y, id);
        lemma_count_terminal_add(spec_admit_actions(ps.drop_last()), seq![x, y], id);
    }
}

/// A value outside a running set and outside a queue is not running after
/// a prefix of the queue is admitted.
proof fn lemma_not_in_join(base: Seq<JobId>, pending: Seq<PendingStart>, k: int, id: JobId)
    requires
        !base.contains(id),
        !pending_ids(pending).contains(id),
        0 <= k <= pending.len(),
    ensures
        !(base + pending_ids(pending.take(k))).contains(id),
{
    let joined = base + pending_ids(pending.take(k));
    if joined.contains(id) {
        let w = choose|w: int| 0 <= w < joined.len() && joined[w] == id;
        if w < base.len() {
            assert(base.contains(id));
        } else {
            assert(joined[w] == pending_ids(pending.take(k))[w - base.len()]);
            assert(pending_ids(pending.take(k))[w - base.len()] == pending.take(k)[w
                - base.len()].job_id);
            assert(pending_ids(pending)[w - base.len()] == pending[w - base.len()].job_id);
        }
    }
}

/// One step never lifts the number of running downloads above the larger
/// of its previous value and the ceiling in force after the step.
pub proof fn lemma_step_active_bound(
    pre: Coordinator,
    input: PoolInput,
    post: Coordinator,
    acts: Seq<PoolAction>,
)
    requires
        pool_step(pre, input, post, acts),
    ensures
        post.active@.len() <= pre.active@.len() || post.active@.len() <= post.ceiling,
{
    match input {
        PoolInput::TaskDone { id, outcome } => {
            if pre.active@.contains(id) {
                lemma_first_index_of_bounds(pre.active@, id);
            }
        },
        PoolInput::Command(cmd) => {},
    }
}

/// Every input except a ceiling change leaves the ceiling alone.
pub proof fn lemma_step_keeps_ceiling(
    pre: Coordinator,
    input: PoolInput,
    post: Coordinator,
    acts: Seq<PoolAction>,
)
    requires
        pool_step(pre, input, post, acts),
        !(input matches PoolInput::Command(WorkerCommand::UpdateConcurrent(_))),
    ensures
        post.ceiling == pre.ceiling,
{
}

/// With a ceiling of `k` in force throughout — no ceiling changes in the
/// trace — and at most `k` downloads running at the start, at no point of
/// the trace do more than `k` download tasks run at once.
pub proof fn lemma_ceiling_respected(
    states: Seq<Coordinator>,
    inputs: Seq<PoolInput>,
    actss: Seq<Seq<PoolAction>>,
    k: int,
)
    requires
        states.len() == inputs.len() + 1,
        actss.len() == inputs.len(),
        forall|i: int|
            0 <= i < inputs.len() ==> pool_step(
                #[trigger] states[i],
                inputs[i],
                states[i + 1],
                actss[i],
            ),
        forall|i: int|
            0 <= i < inputs.len() ==> !(#[trigger] inputs[i] matches PoolInput::Command(
                WorkerCommand::UpdateConcurrent(_),
            )),
        states[0].ceiling == k,
        states[0].active@.len() <= k,
    ensures
        forall|i: int|
            0 <= i < states.len() ==> (#[trigger] states[i]).active@.len() <= k
                && states[i].ceiling == k,
{
    assert forall|i: int| 0 <= i < states.len() implies (#[trigger] states[i]).active@.len()
        <= k && states[i].ceiling == k by {
        lemma_ceiling_respected_upto(states, inputs, actss, k, i);
    }
}

proof fn lemma_ceiling_respected_upto(
    states: Seq<Coordinator>,
    inputs: Seq<PoolInput>,
    actss: Seq<Seq<PoolAction>>,
    k: int,
    n: int,
)
    requires
        states.len() == inputs.len() + 1,
        actss.len() == inputs.len(),
        forall|i: int|
            0 <= i < inputs.len() ==> pool_step(
                #[trigger] states[i],
                inputs[i],
                states[i + 1],
                actss[i],
            ),
        forall|i: int|
            0 <= i < inputs.len() ==> !(#[trigger] inputs[i] matches PoolInput::Command(
                WorkerCommand::UpdateConcurrent(_),
            )),
        states[0].ceiling == k,
        states[0].active@.len() <= k,
        0 <= n < states.len(),
    ensures
        states[n].active@.len() <= k,
        states[n].ceiling == k,
    decreases n,
{
    if n > 0 {
        lemma_ceiling_respected_upto(states, inputs, actss, k, n - 1);
        lemma_step_keeps_ceiling(states[n - 1], inputs[n - 1], states[n], actss[n - 1]);
        lemma_step_active_bound(states[n - 1], inputs[n - 1], states[n], actss[n - 1]);
    }
}

/// Cancelling a job that is downloading signals exactly its handle and
/// reports no event; when its task then finishes, exactly one terminal
/// event for it is reported and its registry entry is gone.
pub proof fn lemma_cancel_one_terminal(
    s0: Coordinator,
    id: JobId,
    s1: Coordinator,
    acts1: Seq<PoolAction>,
    outcome: TaskOutcome,
    s2: Coordinator,
    acts2: Seq<PoolAction>,
)
    requires
        coordinator_wf(s0),
        s0.accepting,
        s0.active@.contains(id),
        pool_step(s0, PoolInput::Command(WorkerCommand::CancelJob(id)), s1, acts1),
        pool_step(s1, PoolInput::TaskDone { id, outcome }, s2, acts2),
    ensures
        acts1 == seq![PoolAction::Cancel(id)],
        count_terminal_for(acts1, id) == 0,
        count_terminal_for(acts2, id) == 1,
        !s2.active@.contains(id),
{
    assert(count_terminal_for(acts1, id) == 0) by {
        lemma_count_terminal_singleton(PoolAction::Cancel(id), id);
    }
    let tail = acts2.skip(1);
    assert(acts2 =~= seq![acts2[0]] + tail);
    lemma_count_terminal_add(seq![acts2[0]], tail, id);
    assert(count_terminal_for(seq![acts2[0]], id) == 1) by {
        lemma_count_terminal_singleton(acts2[0], id);
        assert(is_terminal_event_for(acts2[0], id));
    }
    let kc = spec_admit_count(
        remove_id(s1.active@, id).len() as int,
        s1.pending@.len() as int,
        s1.ceiling as int,
    );
    lemma_admit_actions_no_terminal(s1.pending@.take(kc), id);
    lemma_remove_id_wf(s1, id);
    assert(!pending_ids(s1.pending@).contains(id)) by {
        if pending_ids(s1.pending@).contains(id) {
            let w = choose|w: int|
                0 <= w < pending_ids(s1.pending@).len() && pending_ids(s1.pending@)[w] == id;
            assert(pending_ids(s1.pending@)[w] == s1.pending@[w].job_id);
            assert(!s1.active@.contains(s1.pending@[w].job_id));
        }
    }
    lemma_not_in_join(remove_id(s1.active@, id), s1.pending@, kc, id);
}

/// Cancelling an identifier with no registry entry changes nothing and
/// reports nothing: no event, no error.
pub proof fn lemma_cancel_unknown_noop(
    pre: Coordinator,
    id: JobId,
    post: Coordinator,
    acts: Seq<PoolAction>,
)
    requires
        pre.accepting,
        !pre.active@.contains(id),
        pool_step(pre, PoolInput::Command(WorkerCommand::CancelJob(id)), post, acts),
    ensures
        post == pre,
        acts.len() == 0,
{
}

/// A ceiling change cancels nothing and ends nothing: every job running
/// before still runs, and when the new ceiling is at or below the number
/// running, the step changes nothing else and admits nothing.
pub proof fn lemma_update_concurrent_only_throttles(
    pre: Coordinator,
    n: usize,
    post: Coordinator,
    acts: Seq<PoolAction>,
)
    requires
        pre.accepting,
        pool_step(pre, PoolInput::Command(WorkerCommand::UpdateConcurrent(n)), post, acts),
    ensures
        forall|q: int| 0 <= q < acts.len() ==> !((#[trigger] acts[q]) is Cancel) && !(acts[q] is Stop),
        forall|id: JobId| count_terminal_for(acts, id) == 0,
        post.active@.len() >= pre.active@.len(),
        forall|i: int| 0 <= i < pre.active@.len() ==> post.active@[i] == pre.active@[i],
        n <= pre.active@.len() ==> post.active@ == pre.active@ && post.pending@
            == pre.pending@ && acts.len() == 0,
{
    let k = spec_admit_count(pre.active@.len() as int, pre.pending@.len() as int, n as int);
    lemma_admit_actions_shape(pre.pending@.take(k));
    assert forall|id: JobId| count_terminal_for(acts, id) == 0 by {
        lemma_admit_actions_no_terminal(pre.pending@.take(k), id);
    }
    if n <= pre.active@.len() {
        assert(post.active@ =~= pre.active@);
        assert(post.pending@ =~= pre.pending@);
    }
}

/// Shutdown signals the handle of every job registered at that moment,
/// then stops; afterwards no command has any effect.
pub proof fn lemma_shutdown_cancels_all(
    pre: Coordinator,
    post: Coordinator,
    acts: Seq<PoolAction>,
)
    requires
        pre.accepting,
        pool_step(pre, PoolInput::Command(WorkerCommand::Shutdown), post, acts),
    ensures
        forall|id: JobId|
            pre.active@.contains(id) ==> #[trigger] acts.contains(PoolAction::Cancel(id)),
        !post.accepting,
        forall|cmd: WorkerCommand, post2: Coordinator, acts2: Seq<PoolAction>|
            #[trigger] pool_step(post, PoolInput::Command(cmd), post2, acts2) ==> post2 == post
                && acts2.len() == 0,
{
    let mapped = pre.active@.map_values(|id: JobId| PoolAction::Cancel(id));
    assert forall|id: JobId| pre.active@.contains(id) implies #[trigger] acts.contains(
        PoolAction::Cancel(id),
    ) by {
        let w = choose|w: int| 0 <= w < pre.active@.len() && pre.active@[w] == id;
        assert(mapped[w] == PoolAction::Cancel(id));
        assert(acts[w] == mapped[w]);
    }
}

/// Admitting a prefix of a well-formed queue keeps the registry
/// well-formed.
proof fn lemma_wf_after_admit(active0: Seq<JobId>, pending0: Seq<PendingStart>, k: int)
    requires
        0 <= k <= pending0.len(),
        active0.no_duplicates(),
        pending_ids(pending0).no_duplicates(),
        forall|i: int| 0 <= i < pending0.len() ==> !active0.contains((#[trigger] pending0[i]).job_id),
    ensures
        (active0 + pending_ids(pending0.take(k))).no_duplicates(),
        pending_ids(pending0.skip(k)).no_duplicates(),
        forall|i: int|
            0 <= i < pending0.skip(k).len() ==> !(active0 + pending_ids(pending0.take(k))).contains(
                (#[trigger] pending0.skip(k)[i]).job_id,
            ),
{
    let joined = active0 + pending_ids(pending0.take(k));
    assert forall|i: int, j: int| 0 <= i < j < joined.len() implies joined[i] != joined[j] by {
        if j >= active0.len() {
            assert(joined[j] == pending0[j - active0.len()].job_id);
            if i >= active0.len() {
                assert(joined[i] == pending0[i - active0.len()].job_id);
                assert(pending_ids(pending0)[i - active0.len()] == joined[i]);
                assert(pending_ids(pending0)[j - active0.len()] == joined[j]);
            } else {
                assert(active0.contains(joined[i]) ==> joined[i] != joined[j]) by {
                    if joined[i] == joined[j] {
                        assert(!active0.contains(pending0[j - active0.len()].job_id));
                    }
                }
                assert(active0[i] == joined[i]);
            }
        }
    }
    assert forall|i: int, j: int|
        0 <= i < j < pending_ids(pending0.skip(k)).len() implies pending_ids(pending0.skip(k))[i]
        != pending_ids(pending0.skip(k))[j] by {
        assert(pending_ids(pending0.skip(k))[i] == pending0[k + i].job_id);
        assert(pending_ids(pending0.skip(k))[j] == pending0[k + j].job_id);
        assert(pending_ids(pending0)[k + i] == pending0[k + i].job_id);
        assert(pending_ids(pending0)[k + j] == pending0[k + j].job_id);
    }
    assert forall|i: int| 0 <= i < pending0.skip(k).len() implies !joined.contains(
        (#[trigger] pending0.skip(k)[i]).job_id,
    ) by {
        let id = pending0.skip(k)[i].job_id;
        assert(pending0.skip(k)[i] == pending0[k + i]);
        if joined.contains(id) {
            let w = choose|w: int| 0 <= w < joined.len() && joined[w] == id;
            if w < active0.len() {
                assert(active0.contains(id));
                assert(!active0.contains(pending0[k + i].job_id));
            } else {
                assert(joined[w] == pending0[w - active0.len()].job_id);
                assert(pending_ids(pending0)[w - active0.len()] == joined[w]);
                assert(pending_ids(pending0)[k + i] == id);
                assert(w - active0.len() < k <= k + i);
            }
        }
    }
}

} // verus!
