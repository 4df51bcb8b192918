//! Deployment of compiled submissions over the one serial link.
//!
//! Every submission is registered in order of arrival and served in that
//! order: at most one is compiling or transferring at a time, and a later one
//! starts only when every earlier one has finished. The bytes handed to the
//! link are recorded, tagged with their submission, in a ghost log, so that
//! the order of what reached the wire can be stated.
use vstd::prelude::*;

use crate::device::Code;
use crate::error::LinkError;
use crate::protocol::TRANSFER_ACK;

verus! {

/// Where one submission stands.
#[derive(Clone, Debug, PartialEq, Eq)]
pub enum JobStatus {
    Queued,
    Compiling,
    Transferring,
    Done,
    Failed(LinkError),
}

/// One registered submission.
#[derive(Debug)]
pub struct Job {
    pub id: u64,
    pub code: Code,
    pub status: JobStatus,
}

pub open spec fn is_terminal(s: JobStatus) -> bool {
    s is Done || s is Failed
}

pub open spec fn is_running(s: JobStatus) -> bool {
    s is Compiling || s is Transferring
}

/// Ids increase along the registry, and a submission has left the queue only
/// if every earlier one has finished.
pub open spec fn fifo(jobs: Seq<Job>) -> bool {
    &&& forall|i: int, j: int| 0 <= i < j < jobs.len() ==> jobs[i].id < jobs[j].id
    &&& forall|i: int, j: int|
        0 <= i < j < jobs.len() && !(#[trigger] jobs[j].status is Queued) ==> is_terminal(#[trigger] jobs[i].status)
}

/// The submission at `i` is the oldest one not finished, and it is queued.
pub open spec fn front_queued(jobs: Seq<Job>, i: int) -> bool {
    &&& 0 <= i < jobs.len()
    &&& jobs[i].status is Queued
    &&& forall|j: int| 0 <= j < i ==> is_terminal(#[trigger] jobs[j].status)
}

/// The wire log ends with the first `sent` bytes of `job`'s binary, and
/// everything before them belongs to earlier submissions.
pub open spec fn transfer_ok(job: Job, sent: nat, wire: Seq<(u64, u8)>) -> bool {
    &&& job.code.compiled is Some
    &&& sent <= job.code.compiled->0@.len()
    &&& sent <= wire.len()
    &&& forall|k: int| 0 <= k < sent ==> #[trigger] wire[wire.len() - sent + k] == (job.id, job.code.compiled->0@[k])
    &&& forall|k: int| 0 <= k < wire.len() - sent ==> (#[trigger] wire[k]).0 < job.id
}

/// The binary of a compiled submission.
pub open spec fn payload_of(job: Job) -> Seq<u8> {
    job.code.compiled->0@
}

/// `job` with its status replaced.
pub open spec fn with_status(job: Job, status: JobStatus) -> Job {
    Job { id: job.id, code: job.code, status }
}

/// How a transfer ends, given the device's response after the last byte:
/// done on the acknowledgement, failed otherwise.
pub open spec fn transfer_verdict(response: Result<Vec<u8>, LinkError>) -> JobStatus {
    match response {
        Ok(v) => if v@ == seq![TRANSFER_ACK] { JobStatus::Done } else { JobStatus::Failed(LinkError::NotAcknowledged) },
        Err(e) => JobStatus::Failed(e),
    }
}

/// Submissions in order of arrival, and the log of every byte handed to the link.
pub struct Pipeline {
    jobs: Vec<Job>,
    next_id: u64,
    sent: usize,
    closed: bool,
    wire: Ghost<Seq<(u64, u8)>>,
}

impl Pipeline {
    pub closed spec fn spec_jobs(&self) -> Seq<Job> {
        self.jobs@
    }

    pub closed spec fn spec_next_id(&self) -> u64 {
        self.next_id
    }

    pub closed spec fn spec_sent(&self) -> nat {
        self.sent as nat
    }

    pub closed spec fn spec_closed(&self) -> bool {
        self.closed
    }

    /// Every byte handed to the link so far, with the id of its submission.
    pub closed spec fn spec_wire(&self) -> Seq<(u64, u8)> {
        self.wire@
    }

    pub open spec fn wf(&self) -> bool {
        let jobs = self.spec_jobs();
        let wire = self.spec_wire();
        &&& fifo(jobs)
        &&& forall|i: int| 0 <= i < jobs.len() ==> (#[trigger] jobs[i]).id < self.spec_next_id()
        &&& forall|i: int, j: int| 0 <= i < j < wire.len() ==> (#[trigger] wire[i]).0 <= (#[trigger] wire[j]).0
        &&& forall|k: int| 0 <= k < wire.len() ==> (#[trigger] wire[k]).0 < self.spec_next_id()
        &&& forall|i: int, k: int| 0 <= i < jobs.len() && 0 <= k < wire.len()
            && (#[trigger] jobs[i]).status is Queued ==> (#[trigger] wire[k]).0 < jobs[i].id
        &&& forall|i: int, k: int| 0 <= i < jobs.len() && 0 <= k < wire.len()
            && (#[trigger] jobs[i]).status is Compiling ==> (#[trigger] wire[k]).0 < jobs[i].id
        &&& forall|i: int| 0 <= i < jobs.len() && (#[trigger] jobs[i]).status is Transferring
            ==> transfer_ok(jobs[i], self.spec_sent(), wire)
    }

    /// An empty pipeline that accepts submissions.
    pub fn new() -> (r: Self)
        ensures
            r.wf(),
            r.spec_jobs().len() == 0,
            r.spec_wire().len() == 0,
            r.spec_next_id() == 0,
            !r.spec_closed(),
    {
        Pipeline { jobs: Vec::new(), next_id: 0, sent: 0, closed: false, wire: Ghost(Seq::empty()) }
    }

    /// Stops accepting submissions; those already registered are still served.
    pub fn close(&mut self)
        requires
            old(self).wf(),
        ensures
            final(self).wf(),
            final(self).spec_closed(),
            final(self).spec_jobs() == old(self).spec_jobs(),
            final(self).spec_wire() == old(self).spec_wire(),
    {
        self.closed = true;
        assert(self.spec_wire() == old(self).spec_wire());
    }

    pub fn is_closed(&self) -> (r: bool)
        ensures
            r == self.spec_closed(),
    {
        self.closed
    }

    /// Registers `source` at the end of the queue and returns its id, or
    /// `None` once the pipeline is closed (or has run out of ids). Ids grow
    /// with every submission, so their order is the order of arrival.
    pub fn submit(&mut self, source: String) -> (r: Option<u64>)
        requires
            old(self).wf(),
        ensures
            final(self).wf(),
            final(self).spec_closed() == old(self).spec_closed(),
            final(self).spec_wire() == old(self).spec_wire(),
            r.is_none() <==> (old(self).spec_closed() || old(self).spec_next_id() == u64::MAX),
            r.is_none() ==> final(self).spec_jobs() == old(self).spec_jobs(),
            r.is_some() ==> {
                let id = r->0;
                let jobs = final(self).spec_jobs();
                &&& id == old(self).spec_next_id()
                &&& final(self).spec_next_id() == id + 1
                &&& jobs.len() == old(self).spec_jobs().len() + 1
                &&& jobs.drop_last() == old(self).spec_jobs()
                &&& jobs.last().id == id
                &&& jobs.last().code.code@ == source@
                &&& jobs.last().code.compiled.is_none()
                &&& jobs.last().status == JobStatus::Queued
            },
    {
        if self.closed || self.next_id == u64::MAX {
            return None;
        }
        let id = self.next_id;
        let job = Job { id, code: Code::from_string(source), status: JobStatus::Queued };
        self.jobs.push(job);
        self.next_id = id + 1;
        proof {
            let jobs = self.jobs@;
            let old_jobs = old(self).jobs@;
            let wire = self.spec_wire();
            assert(jobs.drop_last() =~= old_jobs);
            assert(wire == old(self).spec_wire());
            assert forall|i: int| 0 <= i < old_jobs.len() implies #[trigger] jobs[i] == old_jobs[i] by {
                assert(jobs[i] == jobs.drop_last()[i]);
            }
            assert forall|i: int, k: int| 0 <= i < jobs.len() && 0 <= k < wire.len()
                && (#[trigger] jobs[i]).status is Queued implies (#[trigger] wire[k]).0 < jobs[i].id by {
                if i < old_jobs.len() {
                    assert(jobs[i] == old_jobs[i]);
                }
            }
            assert forall|i: int| 0 <= i < jobs.len() && (#[trigger] jobs[i]).status is Transferring
                implies transfer_ok(jobs[i], self.spec_sent(), wire) by {
                assert(jobs[i] == old_jobs[i]);
            }
            assert forall|i: int, j: int| 0 <= i < j < jobs.len() && !(#[trigger] jobs[j].status is Queued)
                implies is_terminal(#[trigger] jobs[i].status) by {
                assert(jobs[j] == old_jobs[j]);
                assert(jobs[i] == old_jobs[i]);
            }
        }
        Some(id)
    }

    /// The index of the oldest submission that has not finished.
    fn open_index(&self) -> (r: Option<usize>)
        requires
            self.wf(),
        ensures
            match r {
                Some(i) => i < self.spec_jobs().len() && !is_terminal(self.spec_jobs()[i as int].status)
                    && forall|j: int| 0 <= j < i ==> is_terminal(#[trigger] self.spec_jobs()[j].status),
                None => forall|j: int| 0 <= j < self.spec_jobs().len() ==> is_terminal(#[trigger] self.spec_jobs()[j].status),
            },
    {
        let mut i: usize = 0;
        while i < self.jobs.len()
            invariant
                i <= self.jobs@.len(),
                forall|j: int| 0 <= j < i ==> is_terminal(#[trigger] self.jobs@[j].status),
            decreases self.jobs@.len() - i,
        {
            match &self.jobs[i].status {
                JobStatus::Done => {},
                JobStatus::Failed(_) => {},
                _ => {
                    return Some(i);
                },
            }
            i = i + 1;
        }
        None
    }

    /// Replaces the status of the submission at `i`.
    fn set_status(&mut self, i: usize, status: JobStatus)
        requires
            i < old(self).jobs@.len(),
        ensures
            final(self).jobs@ == old(self).jobs@.update(
                i as int,
                (Job { id: old(self).jobs@[i as int].id, code: old(self).jobs@[i as int].code, status }),
            ),
            final(self).next_id == old(self).next_id,
            final(self).sent == old(self).sent,
            final(self).closed == old(self).closed,
            final(self).wire == old(self).wire,
    {
        let mut job = self.jobs.remove(i);
        job.status = status;
        self.jobs.insert(i, job);
        proof {
            assert(self.jobs@ =~= old(self).jobs@.update(
                i as int,
                (Job { id: old(self).jobs@[i as int].id, code: old(self).jobs@[i as int].code, status }),
            ));
        }
    }

    /// Starts compiling the oldest queued submission, provided no submission
    /// is compiling or transferring; returns its id and source.
    pub fn start_next(&mut self) -> (r: Option<(u64, String)>)
        requires
            old(self).wf(),
        ensures
            final(self).wf(),
            final(self).spec_closed() == old(self).spec_closed(),
            final(self).spec_wire() == old(self).spec_wire(),
            r.is_some() <==> exists|i: int| front_queued(old(self).spec_jobs(), i),
            r.is_none() ==> final(self).spec_jobs() == old(self).spec_jobs(),
            r.is_some() ==> exists|i: int| {
                let p = r->0;
                &&& #[trigger] front_queued(old(self).spec_jobs(), i)
                &&& p.0 == old(self).spec_jobs()[i].id
                &&& p.1@ == old(self).spec_jobs()[i].code.code@
                &&& final(self).spec_jobs() == old(self).spec_jobs().update(i, (Job {
                    id: old(self).spec_jobs()[i].id,
                    code: old(self).spec_jobs()[i].code,
                    status: JobStatus::Compiling,
                }))
            },
    {
        match self.open_index() {
            None => {
                proof {
                    assert forall|i: int| !front_queued(old(self).spec_jobs(), i) by {
                        if 0 <= i < self.jobs@.len() {
                            assert(is_terminal(self.jobs@[i].status));
                        }
                    }
                }
                None
            },
            Some(i) => {
                let queued = match &self.jobs[i].status {
                    JobStatus::Queued => true,
                    _ => false,
                };
                if !queued {
                    proof {
                        assert forall|k: int| !front_queued(old(self).spec_jobs(), k) by {
                            if front_queued(old(self).spec_jobs(), k) {
                                if k < i {
                                } else if k > i {
                                    assert(is_terminal(self.jobs@[i as int].status));
                                }
                            }
                        }
                    }
                    return None;
                }
                let id = self.jobs[i].id;
                let source = self.jobs[i].code.code.clone();
                proof {
                    assert(front_queued(old(self).spec_jobs(), i as int));
                }
                self.set_status(i, JobStatus::Compiling);
                proof {
                    let jobs = self.jobs@;
                    let old_jobs = old(self).jobs@;
                    let wire = self.spec_wire();
                    assert(wire == old(self).spec_wire());
                    assert forall|a: int| 0 <= a < jobs.len() implies (#[trigger] jobs[a]).id == old_jobs[a].id by {}
                    assert forall|a: int, k: int| 0 <= a < jobs.len() && 0 <= k < wire.len()
                        && (#[trigger] jobs[a]).status is Compiling implies (#[trigger] wire[k]).0 < jobs[a].id by {
                        if a == i {
                            assert(old_jobs[a].status is Queued);
                        } else {
                            assert(jobs[a] == old_jobs[a]);
                        }
                    }
                    assert forall|a: int, k: int| 0 <= a < jobs.len() && 0 <= k < wire.len()
                        && (#[trigger] jobs[a]).status is Queued implies (#[trigger] wire[k]).0 < jobs[a].id by {
                        assert(jobs[a] == old_jobs[a]);
                    }
                    assert forall|a: int| 0 <= a < jobs.len() && (#[trigger] jobs[a]).status is Transferring
                        implies transfer_ok(jobs[a], self.spec_sent(), wire) by {
                        assert(jobs[a] == old_jobs[a]);
                    }
                    assert forall|a: int, b: int| 0 <= a < b < jobs.len() && !(#[trigger] jobs[b].status is Queued)
                        implies is_terminal(#[trigger] jobs[a].status) by {
                        if b == i {
                            assert(jobs[a] == old_jobs[a]);
                        } else if a == i {
                            assert(jobs[b] == old_jobs[b]);
                            assert(!(old_jobs[b].status is Queued));
                            assert(is_terminal(old_jobs[a].status));
                        } else {
                            assert(jobs[a] == old_jobs[a]);
                            assert(jobs[b] == old_jobs[b]);
                        }
                    }
                }
                Some((id, source))
            },
        }
    }

    /// In a well-formed pipeline at most one submission is running.
    proof fn lemma_one_running(&self, a: int, b: int)
        requires
            self.wf(),
            0 <= a < self.spec_jobs().len(),
            0 <= b < self.spec_jobs().len(),
            is_running(self.spec_jobs()[a].status),
            is_running(self.spec_jobs()[b].status),
        ensures
            a == b,
    {
        let jobs = self.spec_jobs();
        if a < b {
            assert(!(jobs[b].status is Queued));
        } else if b < a {
            assert(!(jobs[a].status is Queued));
        }
    }

    /// Takes the outcome of compiling the submission that is compiling: its
    /// exit status, the artifact it left and its diagnostics. With a
    /// successful exit and an artifact the submission starts transferring that
    /// binary from its first byte; otherwise it fails with a `CompileError`
    /// carrying the diagnostics. `None` when no submission is compiling.
    pub fn finish_compile(&mut self, exit_ok: bool, artifact: Option<Vec<u8>>, diagnostics: String) -> (r: Option<Result<(), LinkError>>)
        requires
            old(self).wf(),
        ensures
            final(self).wf(),
            final(self).spec_closed() == old(self).spec_closed(),
            final(self).spec_wire() == old(self).spec_wire(),
            r.is_some() <==> exists|i: int| 0 <= i < old(self).spec_jobs().len() && (#[trigger] old(self).spec_jobs()[i]).status is Compiling,
            r.is_none() ==> final(self).spec_jobs() == old(self).spec_jobs(),
            r.is_some() ==> exists|i: int| {
                let old_job = #[trigger] old(self).spec_jobs()[i];
                let job = final(self).spec_jobs()[i];
                &&& 0 <= i < old(self).spec_jobs().len()
                &&& old_job.status is Compiling
                &&& final(self).spec_jobs().len() == old(self).spec_jobs().len()
                &&& forall|j: int| 0 <= j < old(self).spec_jobs().len() && j != i
                    ==> #[trigger] final(self).spec_jobs()[j] == old(self).spec_jobs()[j]
                &&& job.id == old_job.id
                &&& job.code.code@ == old_job.code.code@
                &&& (r->0.is_ok() <==> (exit_ok && artifact.is_some()))
                &&& r->0.is_ok() ==> job.status == JobStatus::Transferring && job.code.compiled == artifact
                    && final(self).spec_sent() == 0
                &&& r->0.is_err() ==> job.status == JobStatus::Failed(LinkError::CompileError(diagnostics))
                    && r->0 == Err::<(), LinkError>(LinkError::CompileError(diagnostics))
            },
    {
        let i = match self.open_index() {
            None => {
                return None;
            },
            Some(i) => i,
        };
        let compiling = match &self.jobs[i].status {
            JobStatus::Compiling => true,
            _ => false,
        };
        if !compiling {
            proof {
                assert forall|k: int| 0 <= k < old(self).spec_jobs().len() implies !((#[trigger] old(self).spec_jobs()[k]).status is Compiling) by {
                    if k > i {
                        if old(self).spec_jobs()[k].status is Compiling {
                            assert(!(self.jobs@[k].status is Queued));
                        }
                    }
                }
            }
            return None;
        }
        let ghost old_jobs = self.jobs@;
        let mut job = self.jobs.remove(i);
        let res = job.code.record_build(exit_ok, artifact, diagnostics.clone());
        job.status = match res {
            Ok(()) => JobStatus::Transferring,
            Err(_) => JobStatus::Failed(LinkError::CompileError(diagnostics)),
        };
        self.jobs.insert(i, job);
        self.sent = 0;
        proof {
            let jobs = self.jobs@;
            let wire = self.spec_wire();
            assert(wire == old(self).spec_wire());
            assert(jobs.len() == old_jobs.len());
            assert forall|a: int| 0 <= a < jobs.len() && a != i implies #[trigger] jobs[a] == old_jobs[a] by {
                if a < i {
                    assert(jobs[a] == old_jobs[a]);
                } else {
                    assert(jobs[a] == old_jobs[a]);
                }
            }
            assert(jobs[i as int] == job);
            assert forall|a: int| 0 <= a < jobs.len() implies (#[trigger] jobs[a]).id < self.spec_next_id() by {
                if a != i { assert(jobs[a] == old_jobs[a]); }
            }
            assert forall|a: int, b: int| 0 <= a < b < jobs.len() implies jobs[a].id < jobs[b].id by {
                if a != i { assert(jobs[a] == old_jobs[a]); }
                if b != i { assert(jobs[b] == old_jobs[b]); }
            }
            assert forall|a: int, b: int| 0 <= a < b < jobs.len() && !(#[trigger] jobs[b].status is Queued)
                implies is_terminal(#[trigger] jobs[a].status) by {
                if b == i {
                    assert(jobs[a] == old_jobs[a]);
                    assert(!(old_jobs[b].status is Queued));
                } else if a == i {
                    assert(jobs[b] == old_jobs[b]);
                    assert(!(old_jobs[b].status is Queued));
                    assert(is_terminal(old_jobs[a].status));
                } else {
                    assert(jobs[a] == old_jobs[a]);
                    assert(jobs[b] == old_jobs[b]);
                }
            }
            assert forall|a: int, k: int| 0 <= a < jobs.len() && 0 <= k < wire.len()
                && (#[trigger] jobs[a]).status is Queued implies (#[trigger] wire[k]).0 < jobs[a].id by {
                assert(jobs[a] == old_jobs[a]);
            }
            assert forall|a: int, k: int| 0 <= a < jobs.len() && 0 <= k < wire.len()
                && (#[trigger] jobs[a]).status is Compiling implies (#[trigger] wire[k]).0 < jobs[a].id by {
                assert(jobs[a] == old_jobs[a]);
            }
            assert forall|a: int| 0 <= a < jobs.len() && (#[trigger] jobs[a]).status is Transferring
                implies transfer_ok(jobs[a], self.spec_sent(), wire) by {
                if a != i {
                    assert(jobs[a] == old_jobs[a]);
                    old(self).lemma_one_running(a, i as int);
                } else {
                    assert forall|k: int| 0 <= k < wire.len() - 0 implies (#[trigger] wire[k]).0 < jobs[a].id by {
                        assert(old_jobs[a].status is Compiling);
                    }
                }
            }
            assert(old(self).spec_jobs()[i as int].status is Compiling);
        }
        Some(res)
    }

    /// Hands the next byte of the transferring submission to the link and
    /// logs it. `None` once that binary has been sent whole (the submission
    /// then waits for `finish_transfer`) or when nothing is transferring.
    pub fn next_byte(&mut self) -> (r: Option<u8>)
        requires
            old(self).wf(),
        ensures
            final(self).wf(),
            final(self).spec_closed() == old(self).spec_closed(),
            r.is_some() <==> exists|i: int| 0 <= i < old(self).spec_jobs().len()
                && (#[trigger] old(self).spec_jobs()[i]).status is Transferring
                && old(self).spec_sent() < payload_of(old(self).spec_jobs()[i]).len(),
            r.is_some() ==> exists|i: int| {
                let job = #[trigger] old(self).spec_jobs()[i];
                &&& 0 <= i < old(self).spec_jobs().len()
                &&& job.status is Transferring
                &&& r->0 == payload_of(job)[old(self).spec_sent() as int]
                &&& final(self).spec_wire() == old(self).spec_wire().push((job.id, r->0))
                &&& final(self).spec_sent() == old(self).spec_sent() + 1
                &&& final(self).spec_jobs() == old(self).spec_jobs()
            },
            r.is_none() ==> final(self).spec_wire() == old(self).spec_wire(),
            r.is_none() ==> final(self).spec_jobs() == old(self).spec_jobs(),
            r.is_none() ==> final(self).spec_sent() == old(self).spec_sent(),
    {
        let i = match self.open_index() {
            None => {
                proof {
                    assert forall|k: int| 0 <= k < old(self).spec_jobs().len() implies
                        !((#[trigger] old(self).spec_jobs()[k]).status is Transferring) by {
                        assert(is_terminal(old(self).spec_jobs()[k].status));
                    }
                }
                return None;
            },
            Some(i) => i,
        };
        let transferring = match &self.jobs[i].status {
            JobStatus::Transferring => true,
            _ => false,
        };
        if !transferring {
            proof {
                assert forall|k: int| 0 <= k < old(self).spec_jobs().len() implies
                    !((#[trigger] old(self).spec_jobs()[k]).status is Transferring) by {
                    if k > i {
                        if old(self).spec_jobs()[k].status is Transferring {
                            assert(!(self.jobs@[k].status is Queued));
                        }
                    }
                }
            }
            return None;
        }
        let next: Option<u8> = match &self.jobs[i].code.compiled {
            Some(bin) => {
                if self.sent < bin.len() {
                    Some(bin[self.sent])
                } else {
                    None
                }
            },
            None => None,
        };
        proof {
            assert(transfer_ok(self.jobs@[i as int], self.spec_sent(), self.spec_wire()));
            assert forall|k: int| 0 <= k < self.jobs@.len() && (#[trigger] self.jobs@[k]).status is Transferring implies k == i by {
                self.lemma_one_running(k, i as int);
            }
        }
        match next {
            Some(b) => {
                let ghost old_wire = self.wire@;
                let ghost id = self.jobs@[i as int].id;
                self.wire = Ghost(self.wire@.push((id, b)));
                self.sent = self.sent + 1;
                proof {
                    let jobs = self.jobs@;
                    let wire = self.spec_wire();
                    assert(jobs == old(self).spec_jobs());
                    assert forall|a: int, c: int| 0 <= a < c < wire.len() implies (#[trigger] wire[a]).0 <= (#[trigger] wire[c]).0 by {
                        if c == wire.len() - 1 {
                            if a < old_wire.len() - (self.sent - 1) {
                                assert(old_wire[a].0 < id);
                            } else {
                                let t = a - (old_wire.len() - (self.sent - 1));
                                assert(old_wire[old_wire.len() - (self.sent - 1) + t] == (id, payload_of(jobs[i as int])[t]));
                            }
                        } else {
                            assert(wire[a] == old_wire[a]);
                            assert(wire[c] == old_wire[c]);
                        }
                    }
                    assert(id < self.spec_next_id());
                    assert forall|k: int| 0 <= k < wire.len() implies (#[trigger] wire[k]).0 < self.spec_next_id() by {
                        if k < old_wire.len() { assert(wire[k] == old_wire[k]); }
                    }
                    assert forall|a: int, k: int| 0 <= a < jobs.len() && 0 <= k < wire.len()
                        && (#[trigger] jobs[a]).status is Queued implies (#[trigger] wire[k]).0 < jobs[a].id by {
                        if k < old_wire.len() {
                            assert(wire[k] == old_wire[k]);
                        } else {
                            assert(a > i) by {
                                if a < i {
                                    assert(!(jobs[i as int].status is Queued));
                                }
                            }
                        }
                    }
                    assert forall|a: int, k: int| 0 <= a < jobs.len() && 0 <= k < wire.len()
                        && (#[trigger] jobs[a]).status is Compiling implies (#[trigger] wire[k]).0 < jobs[a].id by {
                        old(self).lemma_one_running(a, i as int);
                    }
                    assert forall|a: int| 0 <= a < jobs.len() && (#[trigger] jobs[a]).status is Transferring
                        implies transfer_ok(jobs[a], self.spec_sent(), wire) by {
                        assert(a == i);
                        let s = self.spec_sent();
                        assert forall|k: int| 0 <= k < s implies #[trigger] wire[wire.len() - s + k] == (id, payload_of(jobs[a])[k]) by {
                            if k < s - 1 {
                                assert(wire[wire.len() - s + k] == old_wire[old_wire.len() - (s - 1) + k]);
                            }
                        }
                        assert forall|k: int| 0 <= k < wire.len() - s implies (#[trigger] wire[k]).0 < id by {
                            assert(wire[k] == old_wire[k]);
                        }
                    }
                    assert(old(self).spec_jobs()[i as int].status is Transferring);
                }
                Some(b)
            },
            None => {
                None
            },
        }
    }

    /// Fails the running submission (compiling or transferring) with `err`,
    /// for a lost link or a protocol timeout; it is not retried. Returns
    /// whether a submission was running.
    pub fn fail_active(&mut self, err: LinkError) -> (r: bool)
        requires
            old(self).wf(),
        ensures
            final(self).wf(),
            final(self).spec_closed() == old(self).spec_closed(),
            final(self).spec_wire() == old(self).spec_wire(),
            r <==> exists|i: int| 0 <= i < old(self).spec_jobs().len() && is_running((#[trigger] old(self).spec_jobs()[i]).status),
            !r ==> final(self).spec_jobs() == old(self).spec_jobs(),
            r ==> exists|i: int| {
                &&& 0 <= i < old(self).spec_jobs().len()
                &&& is_running((#[trigger] old(self).spec_jobs()[i]).status)
                &&& final(self).spec_jobs() == old(self).spec_jobs().update(i, with_status(old(self).spec_jobs()[i], JobStatus::Failed(err)))
            },
    {
        let i = match self.open_index() {
            None => {
                proof {
                    assert forall|k: int| 0 <= k < old(self).spec_jobs().len() implies
                        !is_running((#[trigger] old(self).spec_jobs()[k]).status) by {
                        assert(is_terminal(old(self).spec_jobs()[k].status));
                    }
                }
                return false;
            },
            Some(i) => i,
        };
        let running = match &self.jobs[i].status {
            JobStatus::Compiling => true,
            JobStatus::Transferring => true,
            _ => false,
        };
        if !running {
            proof {
                assert forall|k: int| 0 <= k < old(self).spec_jobs().len() implies
                    !is_running((#[trigger] old(self).spec_jobs()[k]).status) by {
                    if k > i && is_running(old(self).spec_jobs()[k].status) {
                        assert(!(self.jobs@[k].status is Queued));
                    }
                }
            }
            return false;
        }
        let ghost old_jobs = self.jobs@;
        self.set_status(i, JobStatus::Failed(err));
        proof {
            let jobs = self.jobs@;
            let wire = self.spec_wire();
            assert(wire == old(self).spec_wire());
            assert(jobs == old_jobs.update(i as int, with_status(old_jobs[i as int], JobStatus::Failed(err))));
            assert forall|a: int| 0 <= a < jobs.len() && a != i implies #[trigger] jobs[a] == old_jobs[a] by {}
            assert forall|a: int, b: int| 0 <= a < b < jobs.len() && !(#[trigger] jobs[b].status is Queued)
                implies is_terminal(#[trigger] jobs[a].status) by {
                if b == i {
                    assert(!(old_jobs[b].status is Queued));
                } else if a != i {
                    assert(jobs[b] == old_jobs[b]);
                }
            }
            assert forall|a: int, k: int| 0 <= a < jobs.len() && 0 <= k < wire.len()
                && (#[trigger] jobs[a]).status is Queued implies (#[trigger] wire[k]).0 < jobs[a].id by {
                assert(jobs[a] == old_jobs[a]);
            }
            assert forall|a: int, k: int| 0 <= a < jobs.len() && 0 <= k < wire.len()
                && (#[trigger] jobs[a]).status is Compiling implies (#[trigger] wire[k]).0 < jobs[a].id by {
                assert(jobs[a] == old_jobs[a]);
            }
            assert forall|a: int| 0 <= a < jobs.len() && (#[trigger] jobs[a]).status is Transferring
                implies transfer_ok(jobs[a], self.spec_sent(), wire) by {
                assert(jobs[a] == old_jobs[a]);
            }
            assert(is_running(old_jobs[i as int].status));
        }
        true
    }

    /// Whether every registered submission has finished, so that shutdown
    /// may proceed.
    pub fn all_finished(&self) -> (r: bool)
        requires
            self.wf(),
        ensures
            r <==> forall|i: int| 0 <= i < self.spec_jobs().len() ==> is_terminal(#[trigger] self.spec_jobs()[i].status),
    {
        match self.open_index() {
            None => true,
            Some(_) => false,
        }
    }

    /// Discards the finished submissions; those still queued or running stay,
    /// in their order.
    pub fn remove_finished(&mut self)
        requires
            old(self).wf(),
        ensures
            final(self).wf(),
            final(self).spec_closed() == old(self).spec_closed(),
            final(self).spec_wire() == old(self).spec_wire(),
            exists|n: int| {
                &&& 0 <= n <= old(self).spec_jobs().len()
                &&& #[trigger] old(self).spec_jobs().subrange(n, old(self).spec_jobs().len() as int) == final(self).spec_jobs()
                &&& forall|j: int| 0 <= j < n ==> is_terminal(#[trigger] old(self).spec_jobs()[j].status)
            },
            forall|j: int| 0 <= j < final(self).spec_jobs().len() ==> !is_terminal(#[trigger] final(self).spec_jobs()[j].status),
    {
        let n = match self.open_index() {
            None => self.jobs.len(),
            Some(i) => i,
        };
        let ghost old_jobs = self.jobs@;
        let rest = self.jobs.split_off(n);
        self.jobs = rest;
        proof {
            let jobs = self.jobs@;
            assert(jobs =~= old_jobs.subrange(n as int, old_jobs.len() as int));
            assert forall|a: int| 0 <= a < jobs.len() implies #[trigger] jobs[a] == old_jobs[a + n] by {}
            assert(self.spec_wire() == old(self).spec_wire());
            assert forall|j: int| 0 <= j < jobs.len() implies !is_terminal(#[trigger] jobs[j].status) by {
                assert(jobs[j] == old_jobs[j + n]);
                if j > 0 {
                    assert(!(old_jobs[j + n].status is Queued) ==> is_terminal(old_jobs[n as int].status));
                }
            }
            assert forall|a: int, b: int| 0 <= a < b < jobs.len() implies jobs[a].id < jobs[b].id by {
                assert(jobs[a] == old_jobs[a + n]);
                assert(jobs[b] == old_jobs[b + n]);
            }
            assert forall|a: int, b: int| 0 <= a < b < jobs.len() && !(#[trigger] jobs[b].status is Queued)
                implies is_terminal(#[trigger] jobs[a].status) by {
                assert(jobs[a] == old_jobs[a + n]);
                assert(jobs[b] == old_jobs[b + n]);
            }
        }
    }

    /// The status of the submission with id `id`, while it is registered.
    pub fn status_of(&self, id: u64) -> (r: Option<&JobStatus>)
        ensures
            r.is_none() <==> forall|i: int| 0 <= i < self.spec_jobs().len() ==> (#[trigger] self.spec_jobs()[i]).id != id,
            r.is_some() ==> exists|i: int| 0 <= i < self.spec_jobs().len()
                && (#[trigger] self.spec_jobs()[i]).id == id && *r->0 == self.spec_jobs()[i].status,
    {
        let mut i: usize = 0;
        while i < self.jobs.len()
            invariant
                i <= self.jobs@.len(),
                forall|j: int| 0 <= j < i ==> (#[trigger] self.jobs@[j]).id != id,
            decreases self.jobs@.len() - i,
        {
            if self.jobs[i].id == id {
                return Some(&self.jobs[i].status);
            }
            i = i + 1;
        }
        None
    }

    /// Ends the transfer whose binary has been handed to the link whole, with
    /// the device's response (or the error met while reading it): the
    /// submission is done on the acknowledgement and failed otherwise.
    /// Returns whether it is done; `None` when no transfer has sent its last
    /// byte.
    pub fn finish_transfer(&mut self, response: Result<Vec<u8>, LinkError>) -> (r: Option<bool>)
        requires
            old(self).wf(),
        ensures
            final(self).wf(),
            final(self).spec_closed() == old(self).spec_closed(),
            final(self).spec_wire() == old(self).spec_wire(),
            r.is_some() <==> exists|i: int| 0 <= i < old(self).spec_jobs().len()
                && (#[trigger] old(self).spec_jobs()[i]).status is Transferring
                && old(self).spec_sent() == payload_of(old(self).spec_jobs()[i]).len(),
            r.is_none() ==> final(self).spec_jobs() == old(self).spec_jobs(),
            r.is_some() ==> exists|i: int| {
                let job = #[trigger] old(self).spec_jobs()[i];
                let wire = old(self).spec_wire();
                let n = payload_of(job).len();
                &&& 0 <= i < old(self).spec_jobs().len()
                &&& job.status is Transferring
                &&& old(self).spec_sent() == n
                &&& final(self).spec_jobs() == old(self).spec_jobs().update(i, with_status(job, transfer_verdict(response)))
                &&& (r->0 <==> transfer_verdict(response) == JobStatus::Done)
                &&& n <= wire.len()
                &&& forall|k: int| 0 <= k < n ==> #[trigger] wire[wire.len() - n + k] == (job.id, payload_of(job)[k])
            },
    {
        let i = match self.open_index() {
            None => {
                proof {
                    assert forall|k: int| 0 <= k < old(self).spec_jobs().len() implies
                        !((#[trigger] old(self).spec_jobs()[k]).status is Transferring) by {
                        assert(is_terminal(old(self).spec_jobs()[k].status));
                    }
                }
                return None;
            },
            Some(i) => i,
        };
        let complete = match &self.jobs[i].status {
            JobStatus::Transferring => match &self.jobs[i].code.compiled {
                Some(bin) => self.sent == bin.len(),
                None => false,
            },
            _ => false,
        };
        proof {
            assert forall|k: int| 0 <= k < old(self).spec_jobs().len()
                && (#[trigger] old(self).spec_jobs()[k]).status is Transferring implies k == i by {
                if k != i {
                    assert(!is_terminal(self.jobs@[i as int].status));
                    if k < i {
                        assert(is_terminal(self.jobs@[k].status));
                    } else {
                        assert(!(self.jobs@[k].status is Queued));
                    }
                }
            }
        }
        if !complete {
            return None;
        }
        let status = match response {
            Ok(v) => {
                let acked = v.len() == 1 && v[0] == TRANSFER_ACK;
                proof {
                    if acked {
                        assert(v@ =~= seq![TRANSFER_ACK]);
                    }
                    if v@ == seq![TRANSFER_ACK] {
                        assert(v@[0] == TRANSFER_ACK);
                    }
                }
                if acked { JobStatus::Done } else { JobStatus::Failed(LinkError::NotAcknowledged) }
            },
            Err(e) => JobStatus::Failed(e),
        };
        let done = match &status {
            JobStatus::Done => true,
            _ => false,
        };
        let ghost old_jobs = self.jobs@;
        proof {
            assert(transfer_ok(old_jobs[i as int], self.spec_sent(), self.spec_wire()));
        }
        self.set_status(i, status);
        proof {
            let jobs = self.jobs@;
            let wire = self.spec_wire();
            assert(wire == old(self).spec_wire());
            assert forall|a: int| 0 <= a < jobs.len() && a != i implies #[trigger] jobs[a] == old_jobs[a] by {}
            assert forall|a: int, b: int| 0 <= a < b < jobs.len() && !(#[trigger] jobs[b].status is Queued)
                implies is_terminal(#[trigger] jobs[a].status) by {
                if b == i {
                    assert(!(old_jobs[b].status is Queued));
                } else if a != i {
                    assert(jobs[b] == old_jobs[b]);
                }
            }
            assert forall|a: int, k: int| 0 <= a < jobs.len() && 0 <= k < wire.len()
                && (#[trigger] jobs[a]).status is Queued implies (#[trigger] wire[k]).0 < jobs[a].id by {
                assert(jobs[a] == old_jobs[a]);
            }
            assert forall|a: int, k: int| 0 <= a < jobs.len() && 0 <= k < wire.len()
                && (#[trigger] jobs[a]).status is Compiling implies (#[trigger] wire[k]).0 < jobs[a].id by {
                assert(jobs[a] == old_jobs[a]);
            }
            assert forall|a: int| 0 <= a < jobs.len() && (#[trigger] jobs[a]).status is Transferring
                implies transfer_ok(jobs[a], self.spec_sent(), wire) by {
                assert(jobs[a] == old_jobs[a]);
            }
            assert(old_jobs[i as int].status is Transferring);
        }
        Some(done)
    }
}

/// One transfer at a time: while a submission is compiling or transferring
/// (from its first handshake to its acknowledgement), no submission is the
/// oldest queued one, so `start_next` starts nothing; the next starts only
/// once this one is done or failed.
pub proof fn lemma_no_start_while_running(p: &Pipeline, i: int)
    requires
        p.wf(),
        0 <= i < p.spec_jobs().len(),
        is_running(p.spec_jobs()[i].status),
    ensures
        forall|j: int| !front_queued(p.spec_jobs(), j),
{
    let jobs = p.spec_jobs();
    assert forall|j: int| !front_queued(jobs, j) by {
        if front_queued(jobs, j) {
            if j < i {
                assert(!(jobs[i].status is Queued));
            } else {
                assert(j != i);
                assert(is_terminal(jobs[i].status));
            }
        }
    }
}

/// Transfers never interleave on the wire. Along the log of bytes handed to
/// the link the submission ids never decrease (ids grow in order of arrival,
/// so earlier submissions are sent first), and the bytes of one submission
/// stand together: nothing of another submission comes between two of them.
pub proof fn lemma_transfers_not_interleaved(p: &Pipeline, i: int, j: int, k: int)
    requires
        p.wf(),
        0 <= i < j < k < p.spec_wire().len(),
    ensures
        p.spec_wire()[i].0 <= p.spec_wire()[j].0 <= p.spec_wire()[k].0,
        p.spec_wire()[i].0 == p.spec_wire()[k].0 ==> p.spec_wire()[j].0 == p.spec_wire()[i].0,
{
    let wire = p.spec_wire();
    assert(wire[i].0 <= wire[j].0);
    assert(wire[j].0 <= wire[k].0);
}

} // verus!
