use vstd::prelude::*;

use crate::errors::Error;

verus! {

/// The per-call state of the retry loop: the attempt index, the
/// budget, and the two recovery flags.
///
/// `write` means the coming attempt must (re)send the query; it is
/// off only while a read is being replayed after a read failure.
/// `connect` means the transport is suspect and the coming attempt
/// must discard the connection and acquire a fresh one.
#[derive(Clone, Copy, Debug, PartialEq, Eq, Structural)]
pub struct RetryState {
    pub attempt: u64,
    pub retries: u64,
    pub write: bool,
    pub connect: bool,
}

/// What the transport reported back for one attempt.
pub enum Event {
    /// The connection factory failed.
    AcquireFailed,
    /// Sending the frame failed; the connection is broken.
    WriteFailed,
    /// Reading the response failed; the connection is broken, but the
    /// query is believed to have reached the server.
    ReadFailed,
    /// A whole response payload arrived.
    Response(Vec<u8>),
}

pub enum EventV {
    AcquireFailed,
    WriteFailed,
    ReadFailed,
    Response(Seq<u8>),
}

impl View for Event {
    type V = EventV;

    open spec fn view(&self) -> EventV {
        match self {
            Event::AcquireFailed => EventV::AcquireFailed,
            Event::WriteFailed => EventV::WriteFailed,
            Event::ReadFailed => EventV::ReadFailed,
            Event::Response(p) => EventV::Response(p@),
        }
    }
}

/// What the engine decides after one attempt.
pub enum Outcome {
    /// Run another attempt, under the returned state.
    Retry(RetryState),
    /// The response to hand to the caller.
    Done(Vec<u8>),
    /// The budget is spent; surface the last observed error.
    Fail(Error),
}

pub enum OutcomeV {
    Retry(RetryState),
    Done(Seq<u8>),
    Fail(Error),
}

impl View for Outcome {
    type V = OutcomeV;

    open spec fn view(&self) -> OutcomeV {
        match self {
            Outcome::Retry(st) => OutcomeV::Retry(*st),
            Outcome::Done(p) => OutcomeV::Done(p@),
            Outcome::Fail(e) => OutcomeV::Fail(*e),
        }
    }
}

/// The response prefix that marks a replayable write failure: the
/// server could not reach the primary replica of a shard.
pub open spec fn spec_shard_prefix() -> Seq<u8> {
    seq![123u8, 34u8, 116u8, 34u8, 58u8, 49u8, 56u8, 44u8, 34u8, 101u8, 34u8, 58u8, 52u8, 49u8, 48u8, 48u8, 48u8, 48u8, 48u8, 44u8, 34u8, 114u8, 34u8, 58u8, 91u8, 34u8, 67u8, 97u8, 110u8, 110u8, 111u8, 116u8, 32u8, 112u8, 101u8, 114u8, 102u8, 111u8, 114u8, 109u8, 32u8, 119u8, 114u8, 105u8, 116u8, 101u8, 58u8, 32u8, 112u8, 114u8, 105u8, 109u8, 97u8, 114u8, 121u8, 32u8, 114u8, 101u8, 112u8, 108u8, 105u8, 99u8, 97u8, 32u8, 102u8, 111u8, 114u8, 32u8, 115u8, 104u8, 97u8, 114u8, 100u8]
}

/// Whether a response payload reports the replayable write failure.
pub open spec fn spec_is_write_replay(p: Seq<u8>) -> bool {
    p.len() >= spec_shard_prefix().len() && p.subrange(0, spec_shard_prefix().len() as int)
        == spec_shard_prefix()
}

/// The replayable-write-failure prefix as bytes.
pub fn shard_prefix() -> (r: Vec<u8>)
    ensures
        r@ == spec_shard_prefix(),
{
    let mut r: Vec<u8> = Vec::new();
    r.push(123);
    r.push(34);
    r.push(116);
    r.push(34);
    r.push(58);
    r.push(49);
    r.push(56);
    r.push(44);
    r.push(34);
    r.push(101);
    r.push(34);
    r.push(58);
    r.push(52);
    r.push(49);
    r.push(48);
    r.push(48);
    r.push(48);
    r.push(48);
    r.push(48);
    r.push(44);
    r.push(34);
    r.push(114);
    r.push(34);
    r.push(58);
    r.push(91);
    r.push(34);
    r.push(67);
    r.push(97);
    r.push(110);
    r.push(110);
    r.push(111);
    r.push(116);
    r.push(32);
    r.push(112);
    r.push(101);
    r.push(114);
    r.push(102);
    r.push(111);
    r.push(114);
    r.push(109);
    r.push(32);
    r.push(119);
    r.push(114);
    r.push(105);
    r.push(116);
    r.push(101);
    r.push(58);
    r.push(32);
    r.push(112);
    r.push(114);
    r.push(105);
    r.push(109);
    r.push(97);
    r.push(114);
    r.push(121);
    r.push(32);
    r.push(114);
    r.push(101);
    r.push(112);
    r.push(108);
    r.push(105);
    r.push(99);
    r.push(97);
    r.push(32);
    r.push(102);
    r.push(111);
    r.push(114);
    r.push(32);
    r.push(115);
    r.push(104);
    r.push(97);
    r.push(114);
    r.push(100);
    proof {
        assert(r@ =~= spec_shard_prefix());
    }
    r
}

/// Classifies a response payload.
pub fn is_write_replay(p: &Vec<u8>) -> (r: bool)
    ensures
        r == spec_is_write_replay(p@),
{
    let pre = shard_prefix();
    if p.len() < pre.len() {
        return false;
    }
    let mut i: usize = 0;
    while i < pre.len()
        invariant
            i <= pre@.len(),
            pre@ == spec_shard_prefix(),
            p@.len() >= pre@.len(),
            forall|j: int| 0 <= j < i ==> p@[j] == pre@[j],
        decreases pre@.len() - i,
    {
        if p[i] != pre[i] {
            proof {
                assert(p@.subrange(0, spec_shard_prefix().len() as int)[i as int] != spec_shard_prefix()[i as int]);
            }
            return false;
        }
        i = i + 1;
    }
    proof {
        assert(p@.subrange(0, spec_shard_prefix().len() as int) =~= spec_shard_prefix());
    }
    true
}

/// Whether the state admits another attempt at all.
pub open spec fn spec_wf(st: RetryState) -> bool {
    st.attempt < st.retries
}

/// The engine's decision for one attempt's outcome: which error ends
/// the call once the budget is spent, which payload ends it
/// successfully, and how the flags carry over to the next attempt.
pub open spec fn spec_step(st: RetryState, ev: EventV) -> OutcomeV {
    let last = st.attempt + 1 == st.retries;
    match ev {
        EventV::AcquireFailed => if last {
            OutcomeV::Fail(Error::Connection)
        } else {
            OutcomeV::Retry(
                RetryState {
                    attempt: (st.attempt + 1) as u64,
                    retries: st.retries,
                    write: st.write,
                    connect: st.connect,
                },
            )
        },
        EventV::WriteFailed => if last {
            OutcomeV::Fail(Error::Io)
        } else {
            OutcomeV::Retry(
                RetryState {
                    attempt: (st.attempt + 1) as u64,
                    retries: st.retries,
                    write: st.write,
                    connect: true,
                },
            )
        },
        EventV::ReadFailed => if last {
            OutcomeV::Fail(Error::Io)
        } else {
            OutcomeV::Retry(
                RetryState {
                    attempt: (st.attempt + 1) as u64,
                    retries: st.retries,
                    write: false,
                    connect: true,
                },
            )
        },
        EventV::Response(p) => if spec_is_write_replay(p) {
            if last {
                OutcomeV::Fail(Error::OpFailed)
            } else {
                OutcomeV::Retry(
                    RetryState {
                        attempt: (st.attempt + 1) as u64,
                        retries: st.retries,
                        write: true,
                        connect: false,
                    },
                )
            }
        } else {
            OutcomeV::Done(p)
        },
    }
}

/// The starting state of one submission call.
pub fn start(retries: u64) -> (r: RetryState)
    requires
        retries >= 1,
    ensures
        r == (RetryState { attempt: 0, retries, write: true, connect: false }),
{
    RetryState { attempt: 0, retries, write: true, connect: false }
}

/// Drives the retry state machine by one attempt's outcome.
pub fn step(st: RetryState, ev: Event) -> (r: Outcome)
    requires
        spec_wf(st),
    ensures
        r@ == spec_step(st, ev@),
{
    let last = st.attempt + 1 == st.retries;
    match ev {
        Event::AcquireFailed => if last {
            Outcome::Fail(Error::Connection)
        } else {
            Outcome::Retry(
                RetryState {
                    attempt: st.attempt + 1,
                    retries: st.retries,
                    write: st.write,
                    connect: st.connect,
                },
            )
        },
        Event::WriteFailed => if last {
            Outcome::Fail(Error::Io)
        } else {
            Outcome::Retry(
                RetryState {
                    attempt: st.attempt + 1,
                    retries: st.retries,
                    write: st.write,
                    connect: true,
                },
            )
        },
        Event::ReadFailed => if last {
            Outcome::Fail(Error::Io)
        } else {
            Outcome::Retry(
                RetryState {
                    attempt: st.attempt + 1,
                    retries: st.retries,
                    write: false,
                    connect: true,
                },
            )
        },
        Event::Response(p) => if is_write_replay(&p) {
            if last {
                Outcome::Fail(Error::OpFailed)
            } else {
                Outcome::Retry(
                    RetryState {
                        attempt: st.attempt + 1,
                        retries: st.retries,
                        write: true,
                        connect: false,
                    },
                )
            }
        } else {
            Outcome::Done(p)
        },
    }
}

/// Folds a sequence of attempt outcomes through the engine, starting
/// from `st`. An empty remainder means the call is still running.
pub open spec fn spec_run(st: RetryState, evs: Seq<EventV>) -> OutcomeV
    decreases evs.len(),
{
    if evs.len() == 0 {
        OutcomeV::Retry(st)
    } else {
        match spec_step(st, evs[0]) {
            OutcomeV::Retry(st2) => spec_run(st2, evs.subrange(1, evs.len() as int)),
            other => other,
        }
    }
}

/// Whether an event counts as a failed attempt.
pub open spec fn spec_is_failure(ev: EventV) -> bool {
    match ev {
        EventV::AcquireFailed => true,
        EventV::WriteFailed => true,
        EventV::ReadFailed => true,
        EventV::Response(p) => spec_is_write_replay(p),
    }
}

/// The error a failed attempt surfaces when it is the last one.
pub open spec fn spec_fail_error(ev: EventV) -> Error {
    match ev {
        EventV::AcquireFailed => Error::Connection,
        EventV::WriteFailed => Error::Io,
        EventV::ReadFailed => Error::Io,
        EventV::Response(_) => Error::OpFailed,
    }
}

/// Retry exhaustion: when every remaining attempt fails, the engine
/// runs exactly through the budget and surfaces the error of the last
/// attempt.
pub proof fn lemma_retry_exhaustion(st: RetryState, evs: Seq<EventV>)
    requires
        spec_wf(st),
        evs.len() == st.retries - st.attempt,
        forall|i: int| 0 <= i < evs.len() ==> spec_is_failure(#[trigger] evs[i]),
    ensures
        spec_run(st, evs) == OutcomeV::Fail(spec_fail_error(evs[evs.len() - 1])),
    decreases evs.len(),
{
    assert(spec_is_failure(evs[0]));
    if evs.len() == 1 {
        assert(spec_step(st, evs[0]) == OutcomeV::Fail(spec_fail_error(evs[0])));
    } else {
        let tail = evs.subrange(1, evs.len() as int);
        let st2 = RetryState {
            attempt: (st.attempt + 1) as u64,
            retries: st.retries,
            write: match evs[0] {
                EventV::ReadFailed => false,
                EventV::Response(_) => true,
                _ => st.write,
            },
            connect: match evs[0] {
                EventV::AcquireFailed => st.connect,
                EventV::WriteFailed => true,
                EventV::ReadFailed => true,
                EventV::Response(_) => false,
            },
        };
        assert(spec_step(st, evs[0]) == OutcomeV::Retry(st2));
        lemma_retry_exhaustion(st2, tail);
        assert(tail[tail.len() - 1] == evs[evs.len() - 1]);
    }
}

/// Under-budget failures keep the call running: fewer failures than
/// remaining attempts leave the engine in a retry state whose attempt
/// index has advanced by exactly the number of failures — so no
/// outcome, success or error, is reached before the budgeted number
/// of attempts.
pub proof fn lemma_retry_still_running(st: RetryState, evs: Seq<EventV>)
    requires
        spec_wf(st),
        evs.len() < st.retries - st.attempt,
        forall|i: int| 0 <= i < evs.len() ==> spec_is_failure(#[trigger] evs[i]),
    ensures
        spec_run(st, evs) matches OutcomeV::Retry(st2) && st2.attempt == st.attempt + evs.len()
            && st2.retries == st.retries,
    decreases evs.len(),
{
    if evs.len() > 0 {
        assert(spec_is_failure(evs[0]));
        let tail = evs.subrange(1, evs.len() as int);
        match spec_step(st, evs[0]) {
            OutcomeV::Retry(st2) => {
                lemma_retry_still_running(st2, tail);
            },
            _ => {
                assert(false);
            },
        }
    }
}

/// A replayable write failure with budget left schedules a full
/// replay: the next attempt writes again, on the same connection.
pub proof fn lemma_replay_sets_write(st: RetryState, p: Seq<u8>)
    requires
        spec_wf(st),
        st.attempt + 1 < st.retries,
        spec_is_write_replay(p),
    ensures
        spec_step(st, EventV::Response(p)) == OutcomeV::Retry(
            RetryState {
                attempt: (st.attempt + 1) as u64,
                retries: st.retries,
                write: true,
                connect: false,
            },
        ),
{
}

/// A read failure with budget left replays the read only: the next
/// attempt reconnects but does not resend the query.
pub proof fn lemma_read_failure_no_resend(st: RetryState)
    requires
        spec_wf(st),
        st.attempt + 1 < st.retries,
    ensures
        spec_step(st, EventV::ReadFailed) == OutcomeV::Retry(
            RetryState {
                attempt: (st.attempt + 1) as u64,
                retries: st.retries,
                write: false,
                connect: true,
            },
        ),
{
}

/// Write-replay recovery: a run of replayable write failures followed
/// by a normal response ends the call with that response, and every
/// intermediate attempt keeps the write flag on.
pub proof fn lemma_write_replay_recovery(st: RetryState, evs: Seq<EventV>, p: Seq<u8>)
    requires
        spec_wf(st),
        st.write,
        evs.len() >= 1,
        evs.len() - 1 < st.retries - st.attempt,
        forall|i: int|
            0 <= i < evs.len() - 1 ==> (#[trigger] evs[i] matches EventV::Response(q)
                && spec_is_write_replay(q)),
        evs[evs.len() - 1] == EventV::Response(p),
        !spec_is_write_replay(p),
    ensures
        spec_run(st, evs) == OutcomeV::Done(p),
    decreases evs.len(),
{
    if evs.len() == 1 {
        assert(spec_step(st, evs[0]) == OutcomeV::Done(p));
    } else {
        assert(evs[0] matches EventV::Response(q) && spec_is_write_replay(q));
        let tail = evs.subrange(1, evs.len() as int);
        let st2 = RetryState {
            attempt: (st.attempt + 1) as u64,
            retries: st.retries,
            write: true,
            connect: false,
        };
        assert(spec_step(st, evs[0]) == OutcomeV::Retry(st2));
        assert(tail[tail.len() - 1] == evs[evs.len() - 1]);
        lemma_write_replay_recovery(st2, tail, p);
    }
}

} // verus!
