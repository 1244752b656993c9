use crate::frame::{is_ack, FRAME_OVERHEAD};
use crate::protocol::Error;
use crate::transaction::{
    first_reads, lemma_ends, lemma_run_push, lemma_run_ready_polls, lemma_run_reads_at_end,
    lemma_run_timer_checks, lemma_run_well_formed, pending_polls, read_trace, reads_before,
    ready_polls, run_actions, run_admitted, run_state, timer_checks, Action, Event, Transaction,
};
use core::task::Poll;
use vstd::prelude::*;

verus! {

/// What the driver asks of its link and of its timer.
pub enum Call {
    /// The timer is started.
    Start,
    /// The timer is asked whether it has run out.
    Wait,
    /// The link is given these octets to write.
    Write(Seq<u8>),
    /// The link is asked whether the device is ready.
    WaitReady,
    /// The link is asked to read so many octets.
    Read(nat),
}

/// The call that carries out an action, if it takes one.
pub open spec fn call_of<E>(action: Action<E>, response_len: nat) -> Option<Call> {
    match action {
        Action::Poll => Some(Call::WaitReady),
        Action::CheckTimer => Some(Call::Wait),
        Action::ReadAck => Some(Call::Read(6)),
        Action::ReadResponse => Some(Call::Read(response_len + FRAME_OVERHEAD as nat)),
        _ => None,
    }
}

/// The calls that carry out a run of actions, in their order.
pub open spec fn calls_of<E>(actions: Seq<Action<E>>, response_len: nat) -> Seq<Call>
    decreases actions.len(),
{
    if actions.len() == 0 {
        Seq::empty()
    } else {
        match call_of(actions.last(), response_len) {
            Some(call) => calls_of(actions.drop_last(), response_len).push(call),
            None => calls_of(actions.drop_last(), response_len),
        }
    }
}

/// The failures with which an exchange ends before any response was read.
pub open spec fn before_response<E>(e: Error<E>) -> bool {
    e is BadAck || e is TimeoutAck || e is TimeoutResponse
}

/// The failure of the exchange in a result, if it is one of the exchange
/// and not a fault that the parser found.
pub open spec fn exchange_failure<R, E>(r: Result<R, Error<E>>) -> Option<Error<E>> {
    match r {
        Err(e) => if before_response(e) || e is InterfaceError {
            Some(e)
        } else {
            None
        },
        Ok(_) => None,
    }
}

/// Whether a run of reports is one of a transaction from its beginning to
/// its end.
pub open spec fn completes<E>(events: Seq<Event<E>>, expects_response: bool) -> bool {
    &&& run_admitted(Transaction::fresh(expects_response), events)
    &&& run_state(Transaction::fresh(expects_response), events).awaits is Nothing
}

/// The calls of an exchange that ran as a run of reports says: the start
/// of the timer, the write of the frame and then, in their order, the
/// calls that carry out the actions of the run.
pub open spec fn calls_in<E>(
    events: Seq<Event<E>>,
    expects_response: bool,
    frame: Seq<u8>,
    response_len: nat,
) -> Seq<Call> {
    seq![Call::Start, Call::Write(frame)] + calls_of(
        run_actions(Transaction::fresh(expects_response), events),
        response_len,
    )
}

/// The failure with which a run of reports ends, if it ends with one.
pub open spec fn failure_in<E>(events: Seq<Event<E>>, expects_response: bool) -> Option<
    Error<E>,
> {
    match run_actions(Transaction::fresh(expects_response), events).last() {
        Action::Fail(e) => Some(e),
        _ => None,
    }
}

/// The report of the link in a result: its failure, if the result is one,
/// and else that it did as it was asked.
pub open spec fn link_report<R, E>(r: Result<R, Error<E>>) -> Result<(), E> {
    match r {
        Err(Error::InterfaceError(e)) => Err(e),
        _ => Ok(()),
    }
}

/// The link's part of a result is the link's report again, where the
/// result is the link's failure or none.
pub proof fn lemma_link_report<R, E>(report: Result<(), E>, r: Result<R, Error<E>>)
    requires
        match report {
            Ok(_) => !(r matches Err(Error::InterfaceError(_))),
            Err(e) => r == Err::<R, Error<E>>(Error::InterfaceError(e)),
        },
    ensures
        link_report(r) == report,
{
    if report is Ok {
        assert(report->Ok_0 == ());
    }
}

/// What a read in the place of the acknowledgement comes to: the failure
/// of the link, or whether the six octets are the acknowledgement frame.
pub open spec fn ack_outcome<E>(read: Result<[u8; 6], E>) -> Result<(), Error<E>> {
    match read {
        Err(e) => Err(Error::InterfaceError(e)),
        Ok(octets) => if is_ack(octets@) {
            Ok(())
        } else {
            Err(Error::BadAck)
        },
    }
}

/// Whether a report is a read in the place of the acknowledgement that
/// comes to a given result.
pub open spec fn hears_ack<E>(report: Event<E>, r: Result<(), Error<E>>) -> bool {
    match report {
        Event::AckRead(read) => r == ack_outcome(read),
        _ => false,
    }
}

/// Whether the driver ran one exchange between two states of its records:
/// the reports that were added are a run of a transaction from its
/// beginning to its end, the calls that were added are those that the run
/// asks for, in their order, and the run fails with the given failure, or
/// does not fail.
pub open spec fn ran_exchange<E>(
    calls_before: Seq<Call>,
    calls_after: Seq<Call>,
    reports_before: Seq<Event<E>>,
    reports_after: Seq<Event<E>>,
    expects_response: bool,
    frame: Seq<u8>,
    response_len: nat,
    failure: Option<Error<E>>,
) -> bool {
    let events = reports_after.skip(reports_before.len() as int);
    &&& reports_before.len() <= reports_after.len()
    &&& reports_after.subrange(0, reports_before.len() as int) == reports_before
    &&& completes(events, expects_response)
    &&& calls_after == calls_before + calls_in(events, expects_response, frame, response_len)
    &&& failure_in(events, expects_response) == failure
}

/// The lengths of the reads among a run of calls, in their order.
pub open spec fn reads_in(calls: Seq<Call>) -> Seq<nat>
    decreases calls.len(),
{
    if calls.len() == 0 {
        Seq::empty()
    } else {
        match calls.last() {
            Call::Read(len) => reads_in(calls.drop_last()).push(len),
            _ => reads_in(calls.drop_last()),
        }
    }
}

/// What was written in a run of calls, in the order of the writes.
pub open spec fn writes_in(calls: Seq<Call>) -> Seq<Seq<u8>>
    decreases calls.len(),
{
    if calls.len() == 0 {
        Seq::empty()
    } else {
        match calls.last() {
            Call::Write(octets) => writes_in(calls.drop_last()).push(octets),
            _ => writes_in(calls.drop_last()),
        }
    }
}

/// How often a run of calls consults the timer.
pub open spec fn waits_in(calls: Seq<Call>) -> nat
    decreases calls.len(),
{
    if calls.len() == 0 {
        0
    } else if calls.last() is Wait {
        waits_in(calls.drop_last()) + 1
    } else {
        waits_in(calls.drop_last())
    }
}

/// The lengths of the first `k` of the two reads of an exchange: six
/// octets for the acknowledgement, then the response with the nine octets
/// of its frame.
pub open spec fn read_lengths(k: nat, response_len: nat) -> Seq<nat> {
    if k == 0 {
        Seq::empty()
    } else if k == 1 {
        seq![6nat]
    } else {
        seq![6nat, response_len + FRAME_OVERHEAD as nat]
    }
}

/// The calls that carry out a run of actions read what the actions read,
/// consult the timer as often as the actions do, and write nothing.
pub proof fn lemma_calls_of<E>(actions: Seq<Action<E>>, response_len: nat)
    ensures
        waits_in(calls_of(actions, response_len)) == timer_checks(actions),
        writes_in(calls_of(actions, response_len)) == Seq::<Seq<u8>>::empty(),
        forall|k: nat|
            k <= 2 && read_trace(actions) == #[trigger] first_reads::<E>(k) ==> reads_in(
                calls_of(actions, response_len),
            ) == read_lengths(k, response_len),
    decreases actions.len(),
{
    if actions.len() > 0 {
        let front = actions.drop_last();
        let last = actions.last();
        lemma_calls_of(front, response_len);
        let calls = calls_of(actions, response_len);
        match call_of(last, response_len) {
            Some(call) => {
                assert(calls == calls_of(front, response_len).push(call));
                assert(calls.drop_last() =~= calls_of(front, response_len));
                assert(calls.last() == call);
            },
            None => {},
        }
        assert forall|k: nat| k <= 2 && read_trace(actions) == #[trigger] first_reads::<E>(
            k,
        ) implies reads_in(calls) == read_lengths(k, response_len) by {
            let trace = read_trace(front);
            if last is ReadAck {
                assert(read_trace(actions) == trace.push(last));
                assert(first_reads::<E>(k).len() == trace.len() + 1);
                if k == 1 {
                    assert(trace =~= first_reads::<E>(0));
                    assert(reads_in(calls) =~= read_lengths(1, response_len));
                } else {
                    assert(first_reads::<E>(2)[1] == trace.push(last)[1]);
                }
            } else if last is ReadResponse {
                assert(read_trace(actions) == trace.push(last));
                assert(first_reads::<E>(k).len() == trace.len() + 1);
                if k == 2 {
                    assert(trace =~= first_reads::<E>(1)) by {
                        assert(trace.len() == 1);
                        assert(trace[0] == trace.push(last)[0]);
                    }
                    assert(reads_in(calls) =~= read_lengths(2, response_len));
                } else {
                    assert(first_reads::<E>(1)[0] == trace.push(last)[0]);
                }
            } else {
                assert(read_trace(actions) == trace);
            }
        }
    } else {
        assert(first_reads::<E>(1).len() == 1);
        assert(first_reads::<E>(2).len() == 2);
    }
}

/// Counting over two runs of calls put end to end adds up.
pub proof fn lemma_calls_concat(first: Seq<Call>, second: Seq<Call>)
    ensures
        reads_in(first + second) == reads_in(first) + reads_in(second),
        writes_in(first + second) == writes_in(first) + writes_in(second),
        waits_in(first + second) == waits_in(first) + waits_in(second),
    decreases second.len(),
{
    if second.len() == 0 {
        assert(first + second =~= first);
        assert(reads_in(first) + Seq::<nat>::empty() =~= reads_in(first));
        assert(writes_in(first) + Seq::<Seq<u8>>::empty() =~= writes_in(first));
    } else {
        lemma_calls_concat(first, second.drop_last());
        assert((first + second).drop_last() =~= first + second.drop_last());
        assert((first + second).last() == second.last());
        assert(reads_in(first + second) =~= reads_in(first) + reads_in(second));
        assert(writes_in(first + second) =~= writes_in(first) + writes_in(second));
    }
}

/// The two calls that open an exchange read nothing, write the frame and
/// do not consult the timer.
pub proof fn lemma_opening_calls(frame: Seq<u8>)
    ensures
        reads_in(seq![Call::Start, Call::Write(frame)]) == Seq::<nat>::empty(),
        writes_in(seq![Call::Start, Call::Write(frame)]) == seq![frame],
        waits_in(seq![Call::Start, Call::Write(frame)]) == 0,
{
    let none = Seq::<Call>::empty();
    let one = seq![Call::Start];
    let two = seq![Call::Start, Call::Write(frame)];
    assert(one.drop_last() =~= none);
    assert(one.last() == Call::Start);
    assert(two.drop_last() =~= one);
    assert(two.last() == Call::Write(frame));
    assert(reads_in(none) =~= Seq::<nat>::empty());
    assert(writes_in(none) =~= Seq::<Seq<u8>>::empty());
    assert(waits_in(none) == 0);
    assert(reads_in(one) =~= Seq::<nat>::empty());
    assert(writes_in(one) =~= Seq::<Seq<u8>>::empty());
    assert(waits_in(one) == 0);
    assert(reads_in(two) =~= Seq::<nat>::empty());
    assert(writes_in(two) =~= seq![frame]);
}

/// How many reads an exchange makes that ends without a failure of the
/// link: none before a timeout of the acknowledgement; the acknowledgement
/// alone before it was found bad, before a timeout of the response, and
/// where no response is expected; both where the response came.
pub open spec fn reads_made<E>(expects_response: bool, failure: Option<Error<E>>) -> nat {
    match failure {
        Some(Error::TimeoutAck) => 0,
        Some(_) => 1,
        None => if expects_response {
            2
        } else {
            1
        },
    }
}

/// What the driver asks in one exchange, whatever the link and the timer
/// report.
///
/// The timer is started first and the frame of the request is written
/// next; that is the only write. The reads are, in this order and no
/// more, the six octets of the acknowledgement and the response with the
/// nine octets of its frame: as many of them as the end of the exchange
/// tells, and where the link failed at most these. Before a timeout of
/// the acknowledgement nothing is read. The timer is consulted once for
/// each poll that found the device not ready.
pub proof fn lemma_exchange_calls<E>(
    events: Seq<Event<E>>,
    expects_response: bool,
    frame: Seq<u8>,
    response_len: nat,
)
    requires
        completes(events, expects_response),
    ensures
        calls_in(events, expects_response, frame, response_len).len() >= 2,
        calls_in(events, expects_response, frame, response_len)[0] == Call::Start,
        calls_in(events, expects_response, frame, response_len)[1] == Call::Write(frame),
        writes_in(calls_in(events, expects_response, frame, response_len)) == seq![frame],
        waits_in(calls_in(events, expects_response, frame, response_len)) == pending_polls(
            events,
        ),
        exists|k: nat|
            k <= 2 && (!expects_response ==> k <= 1) && reads_in(
                calls_in(events, expects_response, frame, response_len),
            ) == #[trigger] read_lengths(k, response_len),
        !(failure_in(events, expects_response) matches Some(Error::InterfaceError(_)))
            ==> reads_in(calls_in(events, expects_response, frame, response_len))
            == read_lengths(
            reads_made(expects_response, failure_in(events, expects_response)),
            response_len,
        ),
{
    let fresh = Transaction::fresh(expects_response);
    let actions = run_actions(fresh, events);
    let opening = seq![Call::Start, Call::Write(frame)];
    let rest = calls_of(actions, response_len);
    let calls = calls_in(events, expects_response, frame, response_len);
    assert(calls == opening + rest);
    lemma_run_reads_at_end(expects_response, events);
    lemma_run_timer_checks(expects_response, events);
    lemma_calls_of(actions, response_len);
    lemma_calls_concat(opening, rest);
    lemma_opening_calls(frame);
    lemma_ends(run_state(fresh, events.drop_last()), events.last());
    assert(actions.last() == run_state(fresh, events.drop_last()).action(events.last()));
    lemma_run_well_formed(expects_response, events.drop_last());
    assert(writes_in(calls) =~= seq![frame]);
    assert(reads_in(calls) =~= reads_in(rest));
    let k = choose|k: nat| k <= 2 && #[trigger] first_reads::<E>(k) == read_trace(actions);
    assert(reads_in(rest) == read_lengths(k, response_len));
    assert(first_reads::<E>(k).len() == k);
    assert(reads_in(calls) == read_lengths(k, response_len));
}

/// How an exchange ends, by how often the device was found ready, where
/// the link did not fail.
///
/// A device that is never found ready brings the timeout of the
/// acknowledgement, and nothing else does. A device that is found ready
/// twice has answered: the buffer is parsed. A device that is found
/// ready once has sent a bad acknowledgement, or its response did not come
/// in time, or no response was expected and the exchange is complete.
pub proof fn lemma_exchange_outcome<E>(events: Seq<Event<E>>, expects_response: bool)
    requires
        completes(events, expects_response),
        !(failure_in(events, expects_response) matches Some(Error::InterfaceError(_))),
    ensures
        ready_polls(events) <= 2,
        ready_polls(events) == 0 <==> failure_in(events, expects_response) == Some::<Error<E>>(
            Error::TimeoutAck,
        ),
        ready_polls(events) == 2 <==> expects_response && failure_in(events, expects_response)
            is None,
        ready_polls(events) == 1 ==> failure_in(events, expects_response) == Some::<Error<E>>(
            Error::BadAck,
        ) || failure_in(events, expects_response) == Some::<Error<E>>(Error::TimeoutResponse) || (
        !expects_response && failure_in(events, expects_response) is None),
        failure_in(events, expects_response) == Some::<Error<E>>(Error::TimeoutResponse)
            ==> expects_response && ready_polls(events) == 1,
{
    let fresh = Transaction::fresh(expects_response);
    let actions = run_actions(fresh, events);
    lemma_run_reads_at_end(expects_response, events);
    lemma_run_ready_polls(expects_response, events);
    lemma_run_well_formed(expects_response, events.drop_last());
    lemma_ends(run_state(fresh, events.drop_last()), events.last());
    assert(actions.last() == run_state(fresh, events.drop_last()).action(events.last()));
    assert(first_reads::<E>(reads_before(actions.last())).len() == reads_before(actions.last()));
}

/// The reports of an exchange with a device that is ready each time it is
/// asked and answers as it should: the request is written, the device is
/// ready, the acknowledgement is read, the device is ready, the response
/// is read.
pub open spec fn ready_exchange<E>(octets: [u8; 6]) -> Seq<Event<E>> {
    seq![
        Event::Written(Ok(())),
        Event::Polled(Poll::Ready(Ok(()))),
        Event::AckRead(Ok(octets)),
        Event::Polled(Poll::Ready(Ok(()))),
        Event::ResponseRead(Ok(())),
    ]
}

/// With a device that is ready each time it is asked and acknowledges as
/// it should, an exchange is the start of the timer, the write of the
/// frame, a poll and the read of the acknowledgement, a poll and the read
/// of the response, and no call more; the timer is never consulted and
/// the exchange does not fail.
pub proof fn lemma_ready_exchange<E>(octets: [u8; 6], frame: Seq<u8>, response_len: nat)
    requires
        is_ack(octets@),
    ensures
        completes(ready_exchange::<E>(octets), true),
        failure_in(ready_exchange::<E>(octets), true) == None::<Error<E>>,
        calls_in(ready_exchange::<E>(octets), true, frame, response_len) == seq![
            Call::Start,
            Call::Write(frame),
            Call::WaitReady,
            Call::Read(6),
            Call::WaitReady,
            Call::Read(response_len + FRAME_OVERHEAD as nat),
        ],
{
    let fresh = Transaction::fresh(true);
    let e0 = Seq::<Event<E>>::empty();
    let e1 = e0.push(Event::Written(Ok(())));
    let e2 = e1.push(Event::Polled(Poll::Ready(Ok(()))));
    let e3 = e2.push(Event::AckRead(Ok(octets)));
    let e4 = e3.push(Event::Polled(Poll::Ready(Ok(()))));
    let e5 = e4.push(Event::ResponseRead(Ok(())));
    lemma_run_push(fresh, e0, Event::<E>::Written(Ok(())));
    lemma_run_push(fresh, e1, Event::<E>::Polled(Poll::Ready(Ok(()))));
    lemma_run_push(fresh, e2, Event::<E>::AckRead(Ok(octets)));
    lemma_run_push(fresh, e3, Event::<E>::Polled(Poll::Ready(Ok(()))));
    lemma_run_push(fresh, e4, Event::<E>::ResponseRead(Ok(())));
    assert(e5 =~= ready_exchange::<E>(octets));
    let a0 = run_actions(fresh, e0);
    let a1 = run_actions(fresh, e1);
    let a2 = run_actions(fresh, e2);
    let a3 = run_actions(fresh, e3);
    let a4 = run_actions(fresh, e4);
    let a5 = run_actions(fresh, e5);
    assert(a0 =~= Seq::<Action<E>>::empty());
    assert(a1.drop_last() =~= a0 && a1.last() is Poll);
    assert(a2.drop_last() =~= a1 && a2.last() is ReadAck);
    assert(a3.drop_last() =~= a2 && a3.last() is Poll);
    assert(a4.drop_last() =~= a3 && a4.last() is ReadResponse);
    assert(a5.drop_last() =~= a4 && a5.last() is Parse);
    let total = response_len + FRAME_OVERHEAD as nat;
    assert(calls_of(a0, response_len) =~= Seq::<Call>::empty());
    assert(calls_of(a1, response_len) =~= seq![Call::WaitReady]);
    assert(calls_of(a2, response_len) =~= seq![Call::WaitReady, Call::Read(6)]);
    assert(calls_of(a3, response_len) =~= seq![Call::WaitReady, Call::Read(6), Call::WaitReady]);
    assert(calls_of(a4, response_len) =~= seq![
        Call::WaitReady,
        Call::Read(6),
        Call::WaitReady,
        Call::Read(total),
    ]);
    assert(calls_of(a5, response_len) == calls_of(a4, response_len));
    assert(calls_in(ready_exchange::<E>(octets), true, frame, response_len) =~= seq![
        Call::Start,
        Call::Write(frame),
        Call::WaitReady,
        Call::Read(6),
        Call::WaitReady,
        Call::Read(total),
    ]);
}

} // verus!
