//! The byte-level handshake spoken over the serial link.
//!
//! `0xFF` is the synchronisation marker and `0x00` ends a response. Payload
//! bytes are not escaped, so a response cannot carry `0x00`: the first one
//! always ends it. The sessions here only decide; the caller writes the
//! marker, reads one byte (or observes the read time out) and reports it.
use vstd::prelude::*;

use crate::error::LinkError;

verus! {

/// The synchronisation marker, written by the host and echoed by the device.
pub const SYNC_MARKER: u8 = 0xFF;

/// The byte that ends a response from the device.
pub const TERMINATOR: u8 = 0x00;

/// The response (one byte, before the terminator) with which the device
/// acknowledges a binary that it received whole. After the last byte of a
/// transfer the host synchronises again and reads one response; any other
/// response fails the transfer.
pub const TRANSFER_ACK: u8 = 0x06;

/// What one read from the device produced.
#[derive(Clone, Copy, Debug, PartialEq, Eq, Structural)]
pub enum ReadEvent {
    /// One byte arrived.
    Byte(u8),
    /// The read timed out with nothing received.
    Silence,
    /// The transport failed.
    IoError,
}

/// What the caller does after reporting one reply to a `SyncSession`.
#[derive(Clone, Debug, PartialEq, Eq)]
pub enum SyncStep {
    /// The device echoed the marker: both sides are aligned.
    Synced,
    /// Write the marker again and read one more byte.
    SendMarker,
    /// Give up with this error.
    Failed(LinkError),
}

/// One attempt to align host and device, bounded by a number of attempts.
#[derive(Clone, Copy, Debug)]
pub struct SyncSession {
    pub attempts: u32,
    pub max_attempts: u32,
}

/// The state that follows `s` when the device answered `ev` to a marker.
pub open spec fn sync_next(s: SyncSession, ev: ReadEvent) -> SyncSession {
    match ev {
        ReadEvent::Byte(b) if b != SYNC_MARKER && s.attempts < s.max_attempts =>
            SyncSession { attempts: (s.attempts + 1) as u32, max_attempts: s.max_attempts },
        ReadEvent::Silence if s.attempts < s.max_attempts =>
            SyncSession { attempts: (s.attempts + 1) as u32, max_attempts: s.max_attempts },
        _ => s,
    }
}

/// What the caller is told when the device answered `ev` to a marker in state `s`.
pub open spec fn sync_outcome(s: SyncSession, ev: ReadEvent) -> SyncStep {
    match ev {
        ReadEvent::IoError => SyncStep::Failed(LinkError::LinkLost),
        ReadEvent::Byte(b) if b == SYNC_MARKER => SyncStep::Synced,
        _ => if s.attempts + 1 >= s.max_attempts {
            SyncStep::Failed(LinkError::ProtocolTimeout)
        } else {
            SyncStep::SendMarker
        },
    }
}

/// The outcome of feeding `evs` to a session in state `s`, one reply per
/// marker, stopping at the first outcome that is not `SendMarker`; with the
/// number of replies consumed.
pub open spec fn sync_run(s: SyncSession, evs: Seq<ReadEvent>) -> (SyncStep, nat)
    decreases evs.len(),
{
    if evs.len() == 0 {
        (SyncStep::SendMarker, 0)
    } else {
        let out = sync_outcome(s, evs[0]);
        if out == SyncStep::SendMarker {
            let rest = sync_run(sync_next(s, evs[0]), evs.drop_first());
            (rest.0, rest.1 + 1)
        } else {
            (out, 1)
        }
    }
}

/// The most replies a session in state `s` can consume before it ends.
pub open spec fn sync_budget(s: SyncSession) -> nat {
    if s.attempts < s.max_attempts {
        (s.max_attempts - s.attempts) as nat
    } else {
        1
    }
}

/// A handshake always ends: fed at least `sync_budget(s)` replies, the
/// session reaches `Synced` or `Failed` after at most that many of them.
pub proof fn lemma_sync_bounded(s: SyncSession, evs: Seq<ReadEvent>)
    requires
        evs.len() >= sync_budget(s),
    ensures
        sync_run(s, evs).0 != SyncStep::SendMarker,
        1 <= sync_run(s, evs).1 <= sync_budget(s),
    decreases evs.len(),
{
    if sync_outcome(s, evs[0]) == SyncStep::SendMarker {
        lemma_sync_bounded(sync_next(s, evs[0]), evs.drop_first());
    }
}

/// A device that echoes the marker at once is synchronised after one reply.
pub proof fn lemma_sync_echo(s: SyncSession, evs: Seq<ReadEvent>)
    requires
        evs.len() > 0,
        evs[0] == ReadEvent::Byte(SYNC_MARKER),
    ensures
        sync_run(s, evs) == (SyncStep::Synced, 1nat),
{
}

/// A device whose first echo of the marker is its `k`-th reply, with no
/// transport failure before it and `k` within the budget, is synchronised
/// after exactly `k` replies.
pub proof fn lemma_sync_first_echo(s: SyncSession, evs: Seq<ReadEvent>, k: nat)
    requires
        1 <= k <= evs.len(),
        k <= sync_budget(s),
        evs[k - 1] == ReadEvent::Byte(SYNC_MARKER),
        forall|i: int| 0 <= i < k - 1 ==> evs[i] != ReadEvent::IoError && evs[i] != ReadEvent::Byte(SYNC_MARKER),
    ensures
        sync_run(s, evs) == (SyncStep::Synced, k),
    decreases k,
{
    if k > 1 {
        assert(evs[0] != ReadEvent::IoError && evs[0] != ReadEvent::Byte(SYNC_MARKER));
        let rest = evs.drop_first();
        assert(rest[k - 2] == evs[k - 1]);
        assert forall|i: int| 0 <= i < k - 2 implies rest[i] != ReadEvent::IoError && rest[i] != ReadEvent::Byte(SYNC_MARKER) by {
            assert(rest[i] == evs[i + 1]);
        }
        lemma_sync_first_echo(sync_next(s, evs[0]), rest, (k - 1) as nat);
    }
}

/// A device that never echoes the marker (it stays silent or answers other
/// bytes) makes the handshake fail with `ProtocolTimeout` after exactly
/// `sync_budget(s)` replies.
pub proof fn lemma_sync_timeout(s: SyncSession, evs: Seq<ReadEvent>)
    requires
        evs.len() >= sync_budget(s),
        forall|i: int| 0 <= i < evs.len() ==> evs[i] != ReadEvent::IoError && evs[i] != ReadEvent::Byte(SYNC_MARKER),
    ensures
        sync_run(s, evs) == (SyncStep::Failed(LinkError::ProtocolTimeout), sync_budget(s)),
    decreases evs.len(),
{
    if sync_outcome(s, evs[0]) == SyncStep::SendMarker {
        let rest = evs.drop_first();
        assert forall|i: int| 0 <= i < rest.len() implies rest[i] != ReadEvent::IoError && rest[i] != ReadEvent::Byte(SYNC_MARKER) by {
            assert(rest[i] == evs[i + 1]);
        }
        lemma_sync_timeout(sync_next(s, evs[0]), rest);
    }
}

impl SyncSession {
    /// A session that fails with `ProtocolTimeout` after `max_attempts`
    /// replies that are not the marker.
    pub fn new(max_attempts: u32) -> (r: Self)
        ensures
            r.attempts == 0,
            r.max_attempts == max_attempts,
    {
        SyncSession { attempts: 0, max_attempts }
    }

    /// Reports the device's reply to the marker just written.
    pub fn on_reply(&mut self, ev: ReadEvent) -> (r: SyncStep)
        ensures
            *final(self) == sync_next(*old(self), ev),
            r == sync_outcome(*old(self), ev),
    {
        match ev {
            ReadEvent::IoError => SyncStep::Failed(LinkError::LinkLost),
            ReadEvent::Byte(b) if b == SYNC_MARKER => SyncStep::Synced,
            _ => {
                let last = self.attempts >= self.max_attempts || self.max_attempts - self.attempts <= 1;
                if self.attempts < self.max_attempts {
                    self.attempts = self.attempts + 1;
                }
                if last {
                    SyncStep::Failed(LinkError::ProtocolTimeout)
                } else {
                    SyncStep::SendMarker
                }
            },
        }
    }
}

/// What the caller does after reporting one read to a `ReadSession`.
#[derive(Clone, Debug, PartialEq, Eq)]
pub enum ReadStep {
    /// Read one more byte.
    Continue,
    /// The terminator arrived: the response, without it.
    Done(Vec<u8>),
    /// Give up with this error.
    Failed(LinkError),
}

/// Collects one response after a handshake: bytes up to the terminator.
/// Every read that is not the terminator (a byte, or a read that timed out)
/// uses up one of `max_reads`; when none is left the read fails with
/// `ProtocolTimeout`, so a device that never sends the terminator, whether it
/// stays silent or keeps sending other bytes, cannot keep the read open.
#[derive(Clone, Debug)]
pub struct ReadSession {
    pub buf: Vec<u8>,
    pub reads: u32,
    pub max_reads: u32,
}

/// What one read `ev` ends a response with, for a session that holds `buf`
/// and has used `used` of `max` reads: `None` while the response stays open,
/// otherwise the response or the error.
pub open spec fn read_outcome(buf: Seq<u8>, used: nat, max: nat, ev: ReadEvent) -> Option<Result<Seq<u8>, LinkError>> {
    match ev {
        ReadEvent::IoError => Some(Err(LinkError::LinkLost)),
        ReadEvent::Byte(b) if b == TERMINATOR => Some(Ok(buf)),
        _ => if used + 1 >= max { Some(Err(LinkError::ProtocolTimeout)) } else { None },
    }
}

/// The bytes held and the reads used after a read that leaves the response open.
pub open spec fn read_next(buf: Seq<u8>, used: nat, ev: ReadEvent) -> (Seq<u8>, nat) {
    match ev {
        ReadEvent::Byte(b) => (buf.push(b), used + 1),
        _ => (buf, used + 1),
    }
}

/// The result of feeding `evs` one at a time, stopping at the first read
/// that ends the response.
pub open spec fn read_run(buf: Seq<u8>, used: nat, max: nat, evs: Seq<ReadEvent>) -> Option<Result<Seq<u8>, LinkError>>
    decreases evs.len(),
{
    if evs.len() == 0 {
        None
    } else {
        match read_outcome(buf, used, max, evs[0]) {
            Some(out) => Some(out),
            None => {
                let n = read_next(buf, used, evs[0]);
                read_run(n.0, n.1, max, evs.drop_first())
            },
        }
    }
}

/// The most reads a session that has used `used` of `max` can take before it ends.
pub open spec fn read_budget(used: nat, max: nat) -> nat {
    if used < max { (max - used) as nat } else { 1 }
}

/// The reads that deliver `bytes` one at a time.
pub open spec fn bytes_as_reads(bytes: Seq<u8>) -> Seq<ReadEvent> {
    bytes.map_values(|b: u8| ReadEvent::Byte(b))
}

/// `r` reports the outcome `out`: `Continue` while the response is open, the
/// response itself once it is complete, or the error.
pub open spec fn read_step_matches(r: ReadStep, out: Option<Result<Seq<u8>, LinkError>>) -> bool {
    match out {
        None => r == ReadStep::Continue,
        Some(Ok(v)) => r is Done && r->Done_0@ == v,
        Some(Err(e)) => r == ReadStep::Failed(e),
    }
}

/// A response is read back exactly: after the reads that deliver a payload
/// free of the terminator, then the terminator, the session returns what it
/// already held followed by that payload, provided the payload fits in the
/// reads left (a longer one ends in `ProtocolTimeout`).
pub proof fn lemma_read_exact(buf: Seq<u8>, used: nat, max: nat, payload: Seq<u8>)
    requires
        forall|i: int| 0 <= i < payload.len() ==> payload[i] != TERMINATOR,
        used + payload.len() < max,
    ensures
        read_run(buf, used, max, bytes_as_reads(payload).push(ReadEvent::Byte(TERMINATOR))) == Some(Ok::<Seq<u8>, LinkError>(buf + payload)),
    decreases payload.len(),
{
    let evs = bytes_as_reads(payload).push(ReadEvent::Byte(TERMINATOR));
    if payload.len() == 0 {
        assert(evs[0] == ReadEvent::Byte(TERMINATOR));
        assert(buf + payload =~= buf);
    } else {
        let rest = payload.drop_first();
        assert(evs[0] == ReadEvent::Byte(payload[0]));
        assert(evs.drop_first() =~= bytes_as_reads(rest).push(ReadEvent::Byte(TERMINATOR)));
        lemma_read_exact(buf.push(payload[0]), used + 1, max, rest);
        assert(buf.push(payload[0]) + rest =~= buf + payload);
    }
}

/// A device that never sends the terminator (it stays silent or sends other
/// bytes) makes the read fail with `ProtocolTimeout` after exactly
/// `read_budget(used, max)` reads.
pub proof fn lemma_read_timeout(buf: Seq<u8>, used: nat, max: nat, evs: Seq<ReadEvent>)
    requires
        evs.len() >= read_budget(used, max),
        forall|i: int| 0 <= i < evs.len() ==> evs[i] != ReadEvent::IoError && evs[i] != ReadEvent::Byte(TERMINATOR),
    ensures
        read_run(buf, used, max, evs) == Some(Err::<Seq<u8>, LinkError>(LinkError::ProtocolTimeout)),
    decreases evs.len(),
{
    assert(evs[0] != ReadEvent::IoError && evs[0] != ReadEvent::Byte(TERMINATOR));
    if used + 1 < max {
        let rest = evs.drop_first();
        assert forall|i: int| 0 <= i < rest.len() implies rest[i] != ReadEvent::IoError && rest[i] != ReadEvent::Byte(TERMINATOR) by {
            assert(rest[i] == evs[i + 1]);
        }
        let n = read_next(buf, used, evs[0]);
        lemma_read_timeout(n.0, n.1, max, rest);
    }
}

impl ReadSession {
    /// An empty response that may take up to `max_reads` reads, the
    /// terminator included.
    pub fn new(max_reads: u32) -> (r: Self)
        ensures
            r.buf@ == Seq::<u8>::empty(),
            r.reads == 0,
            r.max_reads == max_reads,
    {
        ReadSession { buf: Vec::new(), reads: 0, max_reads }
    }

    /// Reports one read: the outcome is `read_outcome` of it, and while the
    /// response stays open the session moves to `read_next`.
    pub fn on_read(&mut self, ev: ReadEvent) -> (r: ReadStep)
        requires
            old(self).reads < old(self).max_reads || old(self).max_reads == 0,
        ensures
            read_step_matches(r, read_outcome(old(self).buf@, old(self).reads as nat, old(self).max_reads as nat, ev)),
            r == ReadStep::Continue ==> (final(self).buf@, final(self).reads as nat)
                == read_next(old(self).buf@, old(self).reads as nat, ev),
            final(self).max_reads == old(self).max_reads,
            final(self).reads < final(self).max_reads || final(self).max_reads == 0,
    {
        match ev {
            ReadEvent::IoError => {
                return ReadStep::Failed(LinkError::LinkLost);
            },
            ReadEvent::Byte(b) => {
                if b == TERMINATOR {
                    let mut out: Vec<u8> = Vec::new();
                    core::mem::swap(&mut out, &mut self.buf);
                    return ReadStep::Done(out);
                }
            },
            ReadEvent::Silence => {},
        }
        if self.max_reads == 0 || self.max_reads - self.reads <= 1 {
            return ReadStep::Failed(LinkError::ProtocolTimeout);
        }
        self.reads = self.reads + 1;
        if let ReadEvent::Byte(b) = ev {
            self.buf.push(b);
        }
        ReadStep::Continue
    }
}

} // verus!
