use vstd::prelude::*;
use crate::client::JobState;
use crate::staging::StagedFile;
use crate::staging::staged_content;

verus! {

/// Fixed polling policy: the interval slept between status lookups and the
/// deadline measured from entry into the polling phase. Staging and
/// submission time are excluded from the budget.
pub const POLL_INTERVAL_MS: u64 = 1000;

pub const POLL_DEADLINE_MS: u64 = 10000;

/// The single synchronous result handed back to the transfer protocol:
/// either the count of bytes newly copied from the client's stream, or one of
/// three distinguished failure causes.
#[derive(Debug, Clone, Copy, PartialEq, Eq, Structural)]
pub enum UploadOutcome {
    Succeeded(u64),
    RemoteFailed,
    TimedOut,
    LocalFailed,
}

/// A terminal verdict of the polling phase, before the staged byte count is
/// attached to a success.
#[derive(Debug, Clone, Copy, PartialEq, Eq, Structural)]
pub enum Terminal {
    Succeeded,
    RemoteFailed,
    TimedOut,
    LocalFailed,
}

/// One observation made by the poll loop: either a reported job state, or a
/// failed status lookup (a transient error, absorbed rather than fatal).
#[derive(Debug, Clone, Copy, PartialEq, Eq, Structural)]
pub enum PollEvent {
    Observed(JobState),
    LookupFailed,
}

/// One poll-loop observation together with the time elapsed since entry into
/// the polling phase, in milliseconds, at the moment it was made.
#[derive(Debug, Clone, Copy, PartialEq, Eq, Structural)]
pub struct PollRecord {
    pub event: PollEvent,
    pub elapsed_ms: u64,
}

/// What one observation decides. `None` means the loop keeps polling:
/// a reported `Pending` or `Running` within the deadline, or a failed lookup
/// within the deadline. A reported terminal job state decides regardless of
/// the clock; a non-terminal report or failed lookup past the deadline ends
/// the wait, the former as `TimedOut`, the latter as `LocalFailed`.
pub open spec fn poll_verdict(event: PollEvent, elapsed_ms: u64, deadline_ms: u64) -> Option<
    Terminal,
> {
    match event {
        PollEvent::Observed(JobState::Succeeded) => Some(Terminal::Succeeded),
        PollEvent::Observed(JobState::Failed) => Some(Terminal::RemoteFailed),
        PollEvent::Observed(JobState::Cancelled) => Some(Terminal::RemoteFailed),
        PollEvent::Observed(JobState::Pending) | PollEvent::Observed(JobState::Running) => if elapsed_ms
            > deadline_ms {
            Some(Terminal::TimedOut)
        } else {
            None
        },
        PollEvent::LookupFailed => if elapsed_ms > deadline_ms {
            Some(Terminal::LocalFailed)
        } else {
            None
        },
    }
}

/// The verdict of a whole polling sequence: the verdict of its first deciding
/// observation, or `None` when no observation in the sequence decides.
pub open spec fn poll_outcome(records: Seq<PollRecord>, deadline_ms: u64) -> Option<Terminal>
    decreases records.len(),
{
    if records.len() == 0 {
        None
    } else {
        match poll_verdict(records[0].event, records[0].elapsed_ms, deadline_ms) {
            Some(t) => Some(t),
            None => poll_outcome(records.subrange(1, records.len() as int), deadline_ms),
        }
    }
}

/// The protocol-facing result a poll verdict maps to; a success carries the
/// count of bytes that staging copied from the client's stream.
pub open spec fn terminal_outcome(t: Terminal, bytes: u64) -> UploadOutcome {
    match t {
        Terminal::Succeeded => UploadOutcome::Succeeded(bytes),
        Terminal::RemoteFailed => UploadOutcome::RemoteFailed,
        Terminal::TimedOut => UploadOutcome::TimedOut,
        Terminal::LocalFailed => UploadOutcome::LocalFailed,
    }
}

/// Applies `poll_verdict` to one observation.
pub fn poll_step(event: PollEvent, elapsed_ms: u64, deadline_ms: u64) -> (r: Option<Terminal>)
    ensures
        r == poll_verdict(event, elapsed_ms, deadline_ms),
{
    match event {
        PollEvent::Observed(JobState::Succeeded) => Some(Terminal::Succeeded),
        PollEvent::Observed(JobState::Failed) => Some(Terminal::RemoteFailed),
        PollEvent::Observed(JobState::Cancelled) => Some(Terminal::RemoteFailed),
        PollEvent::Observed(JobState::Pending) | PollEvent::Observed(JobState::Running) => {
            if elapsed_ms > deadline_ms {
                Some(Terminal::TimedOut)
            } else {
                None
            }
        },
        PollEvent::LookupFailed => {
            if elapsed_ms > deadline_ms {
                Some(Terminal::LocalFailed)
            } else {
                None
            }
        },
    }
}

/// Runs the polling verdict over a recorded observation sequence, first
/// deciding observation wins.
pub fn run_poll(records: &Vec<PollRecord>, deadline_ms: u64) -> (r: Option<Terminal>)
    ensures
        r == poll_outcome(records@, deadline_ms),
{
    let n = records.len();
    let mut i: usize = 0;
    proof {
        assert(records@.subrange(0, n as int) =~= records@);
    }
    while i < n
        invariant
            i <= n,
            n == records@.len(),
            poll_outcome(records@, deadline_ms) == poll_outcome(
                records@.subrange(i as int, n as int),
                deadline_ms,
            ),
        decreases n - i,
    {
        let rec = records[i];
        let v = poll_step(rec.event, rec.elapsed_ms, deadline_ms);
        proof {
            let suffix = records@.subrange(i as int, n as int);
            assert(suffix[0] == records@[i as int]);
            assert(suffix.subrange(1, suffix.len() as int) =~= records@.subrange(
                i as int + 1,
                n as int,
            ));
        }
        if let Some(t) = v {
            return Some(t);
        }
        i = i + 1;
    }
    None
}

/// The phases of one upload, in order of the flow: stage the stream, submit
/// the staged file, poll the job, end in a terminal outcome.
#[derive(Debug, Clone, Copy, PartialEq, Eq, Structural)]
pub enum Phase {
    Staging,
    Submitting,
    Polling,
    Done(UploadOutcome),
}

/// The upload bridge: orchestrates one upload as staging, then submission,
/// then bounded polling, then outcome mapping. It owns the staging file, and
/// releases it on every terminal transition.
pub struct UploadBridge {
    pub phase: Phase,
    pub staged: StagedFile,
    pub resume_offset: u64,
    pub deadline_ms: u64,
}

impl UploadBridge {
    /// Invariant of the machine: the staging file is released exactly when a
    /// terminal state has been reached, the resume offset never exceeds the
    /// staged length, and a success outcome carries exactly the bytes staged
    /// beyond the resume offset.
    pub open spec fn wf(&self) -> bool {
        &&& self.staged.wf()
        &&& (self.phase is Done <==> self.staged.removed)
        &&& self.resume_offset <= self.staged.contents@.len()
        &&& (forall|b: u64|
            self.phase == Phase::Done(UploadOutcome::Succeeded(b)) ==> b == self.staged.contents@.len()
                - self.resume_offset)
    }

    /// A bridge ready to stage a fresh upload.
    pub fn new(deadline_ms: u64) -> (b: Self)
        ensures
            b.wf(),
            b.phase == Phase::Staging,
            b.staged.contents@ == Seq::<u8>::empty(),
            !b.staged.removed,
            b.resume_offset == 0,
            b.deadline_ms == deadline_ms,
    {
        UploadBridge {
            phase: Phase::Staging,
            staged: StagedFile::create(),
            resume_offset: 0,
            deadline_ms,
        }
    }

    /// Pre-sizes the fresh staging file to the resume offset and places the
    /// write cursor there, so a restarted transfer does not re-send the bytes
    /// already received.
    pub fn presize(&mut self, offset: u64)
        requires
            old(self).wf(),
            old(self).phase == Phase::Staging,
            old(self).staged.contents@.len() == 0,
        ensures
            final(self).wf(),
            final(self).phase == Phase::Staging,
            final(self).staged.contents@ == Seq::new(offset as nat, |i: int| 0u8),
            !final(self).staged.removed,
            final(self).resume_offset == offset,
            final(self).deadline_ms == old(self).deadline_ms,
    {
        self.staged.set_len(offset);
        self.resume_offset = offset;
        proof {
            if offset == 0 {
                assert(self.staged.contents@ =~= Seq::new(offset as nat, |i: int| 0u8));
            } else {
                assert(Seq::<u8>::empty() + Seq::new(offset as nat, |i: int| 0u8) =~= Seq::new(
                    offset as nat,
                    |i: int| 0u8,
                ));
            }
        }
    }

    /// Appends one buffer of the inbound stream to the staging file. The
    /// staged length must stay representable.
    pub fn write_chunk(&mut self, chunk: &[u8])
        requires
            old(self).wf(),
            old(self).phase == Phase::Staging,
            old(self).staged.byte_len + chunk@.len() <= u64::MAX,
        ensures
            final(self).wf(),
            final(self).phase == Phase::Staging,
            final(self).staged.contents@ == old(self).staged.contents@ + chunk@,
            !final(self).staged.removed,
            final(self).resume_offset == old(self).resume_offset,
            final(self).deadline_ms == old(self).deadline_ms,
    {
        self.staged.append(chunk);
    }

    /// A local I/O error while staging: the upload fails at once as a local
    /// failure (local storage faults are not retried), and the staging file
    /// is released.
    pub fn staging_failed(&mut self)
        requires
            old(self).wf(),
            old(self).phase == Phase::Staging,
        ensures
            final(self).wf(),
            final(self).phase == Phase::Done(UploadOutcome::LocalFailed),
            final(self).staged.removed,
            final(self).staged.contents@ == old(self).staged.contents@,
    {
        self.staged.remove();
        self.phase = Phase::Done(UploadOutcome::LocalFailed);
    }

    /// The stream is drained: move to submission and report how many bytes
    /// were copied from it (the staged length beyond the resume offset).
    pub fn staging_complete(&mut self) -> (bytes: u64)
        requires
            old(self).wf(),
            old(self).phase == Phase::Staging,
        ensures
            final(self).wf(),
            final(self).phase == Phase::Submitting,
            final(self).staged == old(self).staged,
            final(self).resume_offset == old(self).resume_offset,
            final(self).deadline_ms == old(self).deadline_ms,
            bytes == old(self).staged.contents@.len() - old(self).resume_offset,
    {
        self.phase = Phase::Submitting;
        self.staged.len() - self.resume_offset
    }

    /// The remote service rejected or never received the submission. From
    /// the protocol client's point of view no remote processing was ever
    /// promised to start, so this counts as a local failure; the staging file
    /// is released.
    pub fn submit_rejected(&mut self)
        requires
            old(self).wf(),
            old(self).phase == Phase::Submitting,
        ensures
            final(self).wf(),
            final(self).phase == Phase::Done(UploadOutcome::LocalFailed),
            final(self).staged.removed,
            final(self).staged.contents@ == old(self).staged.contents@,
    {
        self.staged.remove();
        self.phase = Phase::Done(UploadOutcome::LocalFailed);
    }

    /// The remote service accepted the file and returned a job handle: enter
    /// the polling phase. The deadline budget starts here.
    pub fn submit_accepted(&mut self)
        requires
            old(self).wf(),
            old(self).phase == Phase::Submitting,
        ensures
            final(self).wf(),
            final(self).phase == Phase::Polling,
            final(self).staged == old(self).staged,
            final(self).resume_offset == old(self).resume_offset,
            final(self).deadline_ms == old(self).deadline_ms,
    {
        self.phase = Phase::Polling;
    }

    /// Feeds one poll observation to the machine. A deciding observation
    /// moves to the terminal state it maps to and releases the staging file;
    /// otherwise the machine stays in the polling phase.
    pub fn poll(&mut self, event: PollEvent, elapsed_ms: u64) -> (done: bool)
        requires
            old(self).wf(),
            old(self).phase == Phase::Polling,
        ensures
            final(self).wf(),
            final(self).resume_offset == old(self).resume_offset,
            final(self).deadline_ms == old(self).deadline_ms,
            final(self).staged.contents@ == old(self).staged.contents@,
            match poll_verdict(event, elapsed_ms, old(self).deadline_ms) {
                Some(t) => done && final(self).phase == Phase::Done(
                    terminal_outcome(
                        t,
                        (old(self).staged.contents@.len() - old(self).resume_offset) as u64,
                    ),
                ) && final(self).staged.removed,
                None => !done && final(self).phase == Phase::Polling
                    && !final(self).staged.removed,
            },
    {
        let v = poll_step(event, elapsed_ms, self.deadline_ms);
        match v {
            Some(t) => {
                let bytes = self.staged.len() - self.resume_offset;
                self.staged.remove();
                self.phase = Phase::Done(
                    match t {
                        Terminal::Succeeded => UploadOutcome::Succeeded(bytes),
                        Terminal::RemoteFailed => UploadOutcome::RemoteFailed,
                        Terminal::TimedOut => UploadOutcome::TimedOut,
                        Terminal::LocalFailed => UploadOutcome::LocalFailed,
                    },
                );
                true
            },
            None => false,
        }
    }

    /// The outcome, once a terminal state is reached.
    pub fn outcome(&self) -> (r: Option<UploadOutcome>)
        ensures
            match self.phase {
                Phase::Done(o) => r == Some(o),
                _ => r is None,
            },
    {
        match self.phase {
            Phase::Done(o) => Some(o),
            _ => None,
        }
    }
}

/// The result of one whole upload, given what the outside world did: whether
/// the stream drained without a local I/O error, whether the remote service
/// accepted the submission, and what the poll loop then observed. `bytes` is
/// the count of bytes copied from the stream. `None` means the recorded
/// observations never decided (the real loop would still be polling).
pub open spec fn upload_run_outcome(
    staging_ok: bool,
    submit_accepted: bool,
    polls: Seq<PollRecord>,
    deadline_ms: u64,
    bytes: u64,
) -> Option<UploadOutcome> {
    if !staging_ok {
        Some(UploadOutcome::LocalFailed)
    } else if !submit_accepted {
        Some(UploadOutcome::LocalFailed)
    } else {
        match poll_outcome(polls, deadline_ms) {
            Some(t) => Some(terminal_outcome(t, bytes)),
            None => None,
        }
    }
}

/// A prefix of a chunk list never flattens to more bytes than the whole.
proof fn lemma_flatten_prefix_len_le(dv: Seq<Seq<u8>>, i: int)
    requires
        0 <= i <= dv.len(),
    ensures
        dv.subrange(0, i).flatten().len() <= dv.flatten().len(),
    decreases dv.len() - i,
{
    if i == dv.len() {
        assert(dv.subrange(0, i) =~= dv);
    } else {
        assert(dv.subrange(0, i + 1) =~= dv.subrange(0, i).push(dv[i]));
        dv.subrange(0, i).lemma_flatten_push(dv[i]);
        lemma_flatten_prefix_len_le(dv, i + 1);
    }
}

/// Drives one upload through the whole machine, deterministically, from a
/// record of what the outside world did: the chunks that were read from the
/// stream before it ended (or before the I/O error when `staging_ok` is
/// false), the submission verdict, and the poll observations. Returns the
/// outcome together with the bridge, whose staging file shows what was staged
/// and that it was released on every terminal path. The staged length must
/// stay representable in a byte count.
pub fn run_upload(
    resume_offset: u64,
    chunks: &Vec<Vec<u8>>,
    staging_ok: bool,
    submit_accepted: bool,
    polls: &Vec<PollRecord>,
    deadline_ms: u64,
) -> (r: (Option<UploadOutcome>, UploadBridge))
    requires
        resume_offset + chunks.deep_view().flatten().len() <= u64::MAX,
    ensures
        r.1.wf(),
        r.1.staged.contents@ == staged_content(resume_offset as nat, chunks.deep_view()),
        r.1.staged.contents@.len() == resume_offset + chunks.deep_view().flatten().len(),
        r.0 == upload_run_outcome(
            staging_ok,
            submit_accepted,
            polls@,
            deadline_ms,
            chunks.deep_view().flatten().len() as u64,
        ),
        r.0 is Some <==> r.1.staged.removed,
{
    let mut bridge = UploadBridge::new(deadline_ms);
    bridge.presize(resume_offset);
    let ghost dv = chunks.deep_view();
    let n = chunks.len();
    let mut i: usize = 0;
    proof {
        assert(dv.subrange(0, 0).flatten() =~= Seq::<u8>::empty());
        assert(bridge.staged.contents@ =~= Seq::new(resume_offset as nat, |k: int| 0u8) + dv.subrange(
            0,
            0,
        ).flatten());
    }
    while i < n
        invariant
            i <= n,
            n == chunks@.len(),
            dv == chunks.deep_view(),
            bridge.wf(),
            bridge.phase == Phase::Staging,
            bridge.resume_offset == resume_offset,
            bridge.deadline_ms == deadline_ms,
            bridge.staged.contents@ == Seq::new(resume_offset as nat, |k: int| 0u8) + dv.subrange(
                0,
                i as int,
            ).flatten(),
            resume_offset + dv.flatten().len() <= u64::MAX,
        decreases n - i,
    {
        proof {
            assert(dv[i as int] == chunks@[i as int]@);
            assert(dv.subrange(0, i as int + 1) =~= dv.subrange(0, i as int).push(dv[i as int]));
            dv.subrange(0, i as int).lemma_flatten_push(dv[i as int]);
            lemma_flatten_prefix_len_le(dv, i as int + 1);
        }
        bridge.write_chunk(chunks[i].as_slice());
        proof {
            assert(bridge.staged.contents@ =~= Seq::new(resume_offset as nat, |k: int| 0u8)
                + dv.subrange(0, i as int + 1).flatten());
        }
        i = i + 1;
    }
    proof {
        assert(dv.subrange(0, n as int) =~= dv);
    }
    if !staging_ok {
        bridge.staging_failed();
        let o = bridge.outcome();
        return (o, bridge);
    }
    let bytes = bridge.staging_complete();
    if !submit_accepted {
        bridge.submit_rejected();
        let o = bridge.outcome();
        return (o, bridge);
    }
    bridge.submit_accepted();
    let m = polls.len();
    let mut j: usize = 0;
    proof {
        assert(polls@.subrange(0, m as int) =~= polls@);
    }
    while j < m
        invariant
            j <= m,
            m == polls@.len(),
            staging_ok,
            submit_accepted,
            dv == chunks.deep_view(),
            bridge.wf(),
            bridge.phase == Phase::Polling,
            bridge.resume_offset == resume_offset,
            bridge.deadline_ms == deadline_ms,
            bridge.staged.contents@ == staged_content(resume_offset as nat, dv),
            bytes == dv.flatten().len(),
            poll_outcome(polls@, deadline_ms) == poll_outcome(
                polls@.subrange(j as int, m as int),
                deadline_ms,
            ),
        decreases m - j,
    {
        let rec = polls[j];
        proof {
            let suffix = polls@.subrange(j as int, m as int);
            assert(suffix[0] == polls@[j as int]);
            assert(suffix.subrange(1, suffix.len() as int) =~= polls@.subrange(
                j as int + 1,
                m as int,
            ));
        }
        let done = bridge.poll(rec.event, rec.elapsed_ms);
        if done {
            proof {
                assert(poll_outcome(polls@, deadline_ms) == poll_verdict(
                    rec.event,
                    rec.elapsed_ms,
                    deadline_ms,
                ));
                assert(dv.flatten().len() as u64 == bytes);
                assert((resume_offset + dv.flatten().len() - resume_offset) as u64 == bytes);
            }
            let o = bridge.outcome();
            return (o, bridge);
        }
        j = j + 1;
    }
    let o = bridge.outcome();
    (o, bridge)
}

/// In every terminal state the staging file has been released: no temporary
/// file outlives its upload, whichever of the four ways the upload ended.
pub proof fn lemma_terminal_releases_staged(b: &UploadBridge)
    requires
        b.wf(),
        b.phase is Done,
    ensures
        b.staged.removed,
{
}

/// A polling sequence ends with the verdict of its first deciding
/// observation; earlier observations that decided nothing do not change it.
pub proof fn lemma_poll_first_decision_wins(
    records: Seq<PollRecord>,
    deadline_ms: u64,
    k: int,
    t: Terminal,
)
    requires
        0 <= k < records.len(),
        forall|i: int| 0 <= i < k ==> poll_verdict(records[i].event, records[i].elapsed_ms, deadline_ms)
            is None,
        poll_verdict(records[k].event, records[k].elapsed_ms, deadline_ms) == Some(t),
    ensures
        poll_outcome(records, deadline_ms) == Some(t),
    decreases k,
{
    if k > 0 {
        let rest = records.subrange(1, records.len() as int);
        assert(forall|i: int| 0 <= i < k - 1 ==> rest[i] == records[i + 1]);
        lemma_poll_first_decision_wins(rest, deadline_ms, k - 1, t);
    }
}

/// A polling sequence whose first deciding observation reports success ends
/// in success: any number of `Pending` or `Running` reports or failed
/// lookups within the deadline before it are absorbed, not fatal.
pub proof fn lemma_poll_success_after_wait(records: Seq<PollRecord>, deadline_ms: u64, k: int)
    requires
        0 <= k < records.len(),
        forall|i: int| 0 <= i < k ==> poll_verdict(records[i].event, records[i].elapsed_ms, deadline_ms)
            is None,
        poll_verdict(records[k].event, records[k].elapsed_ms, deadline_ms) == Some(
            Terminal::Succeeded,
        ),
    ensures
        poll_outcome(records, deadline_ms) == Some(Terminal::Succeeded),
{
    lemma_poll_first_decision_wins(records, deadline_ms, k, Terminal::Succeeded);
}

/// A polling sequence whose first deciding observation reports `Failed` or
/// `Cancelled` ends as a remote failure, however late it comes.
pub proof fn lemma_poll_reported_failure_is_remote(records: Seq<PollRecord>, deadline_ms: u64, k: int)
    requires
        0 <= k < records.len(),
        forall|i: int| 0 <= i < k ==> poll_verdict(records[i].event, records[i].elapsed_ms, deadline_ms)
            is None,
        records[k].event == PollEvent::Observed(JobState::Failed) || records[k].event
            == PollEvent::Observed(JobState::Cancelled),
    ensures
        poll_outcome(records, deadline_ms) == Some(Terminal::RemoteFailed),
{
    lemma_poll_first_decision_wins(records, deadline_ms, k, Terminal::RemoteFailed);
}

/// A polling sequence that only ever observes `Pending` ends in `TimedOut`
/// as soon as it contains an observation past the deadline.
pub proof fn lemma_poll_only_pending_times_out(records: Seq<PollRecord>, deadline_ms: u64)
    requires
        forall|i: int| 0 <= i < records.len() ==> records[i].event == PollEvent::Observed(
            JobState::Pending,
        ),
        exists|i: int| 0 <= i < records.len() && records[i].elapsed_ms > deadline_ms,
    ensures
        poll_outcome(records, deadline_ms) == Some(Terminal::TimedOut),
    decreases records.len(),
{
    let w = choose|i: int| 0 <= i < records.len() && records[i].elapsed_ms > deadline_ms;
    if records[0].elapsed_ms > deadline_ms {
    } else {
        let rest = records.subrange(1, records.len() as int);
        assert(forall|i: int| 0 <= i < rest.len() ==> rest[i] == records[i + 1]);
        assert(0 <= w - 1 < rest.len() && rest[w - 1].elapsed_ms > deadline_ms);
        lemma_poll_only_pending_times_out(rest, deadline_ms);
    }
}

} // verus!
