use crate::frame::{check_ack, is_ack};
use crate::protocol::Error;
use core::task::Poll;
use vstd::prelude::*;

verus! {

/// Where an exchange with the device stands.
#[derive(Copy, Clone, PartialEq, Eq, Debug)]
pub enum State {
    /// No exchange is under way.
    Idle,
    /// The request was written; the acknowledgement is awaited.
    Sent,
    /// The acknowledgement came; the response is awaited.
    AckReceived,
    /// The device is ready with its response.
    ResponseReceived,
}

/// What the link or the timer reported.
#[verifier::reject_recursive_types(E)]
pub enum Event<E> {
    /// The request frame was handed to the link.
    Written(Result<(), E>),
    /// The link was asked whether the device is ready.
    Polled(Poll<Result<(), E>>),
    /// The timer was asked whether it has run out: ready once it has.
    TimerChecked(Poll<()>),
    /// Six octets were read in the place of the acknowledgement.
    AckRead(Result<[u8; 6], E>),
    /// The response was read into the frame buffer.
    ResponseRead(Result<(), E>),
}

/// What is to be done next.
pub enum Action<E> {
    /// Ask the link whether the device is ready.
    Poll,
    /// Ask the timer whether it has run out.
    CheckTimer,
    /// Read the six octets of the acknowledgement.
    ReadAck,
    /// Read the response into the frame buffer.
    ReadResponse,
    /// Parse the frame buffer: what the parser finds is the result.
    Parse,
    /// The exchange is complete.
    Finish,
    /// The exchange has failed.
    Fail(Error<E>),
}

/// The report that a transaction waits for.
#[derive(Copy, Clone, PartialEq, Eq, Debug)]
pub enum Awaited {
    /// That the request was written.
    Written,
    /// Whether the device is ready.
    Polled,
    /// Whether the timer has run out.
    TimerChecked,
    /// The six octets read in the place of the acknowledgement.
    AckRead,
    /// That the response was read.
    ResponseRead,
    /// None: the exchange is over.
    Nothing,
}

/// One exchange: a request, its acknowledgement and, where one is
/// expected, its response.
#[derive(Copy, Clone, PartialEq, Eq, Debug)]
pub struct Transaction {
    pub state: State,
    pub expects_response: bool,
    pub awaits: Awaited,
}

/// The report that an action is answered with, if it is one that asks the
/// link or the timer for something.
pub open spec fn answer_to<E>(action: Action<E>) -> Awaited {
    match action {
        Action::Poll => Awaited::Polled,
        Action::CheckTimer => Awaited::TimerChecked,
        Action::ReadAck => Awaited::AckRead,
        Action::ReadResponse => Awaited::ResponseRead,
        _ => Awaited::Nothing,
    }
}

/// The kind of report that an event is.
pub open spec fn kind_of<E>(event: Event<E>) -> Awaited {
    match event {
        Event::Written(_) => Awaited::Written,
        Event::Polled(_) => Awaited::Polled,
        Event::TimerChecked(_) => Awaited::TimerChecked,
        Event::AckRead(_) => Awaited::AckRead,
        Event::ResponseRead(_) => Awaited::ResponseRead,
    }
}

impl Transaction {
    /// Whether the state and the report that is awaited go together.
    pub open spec fn wf(self) -> bool {
        match self.awaits {
            Awaited::Written | Awaited::Nothing => self.state == State::Idle,
            Awaited::Polled | Awaited::TimerChecked => self.state == State::Sent || (self.state
                == State::AckReceived && self.expects_response),
            Awaited::AckRead => self.state == State::Sent,
            Awaited::ResponseRead => self.state == State::ResponseReceived
                && self.expects_response,
        }
    }

    /// Whether `event` is the report that is awaited.
    pub open spec fn admits<E>(self, event: Event<E>) -> bool {
        self.wf() && kind_of(event) == self.awaits
    }

    /// The state that follows `event`.
    pub open spec fn next_state<E>(self, event: Event<E>) -> State {
        match event {
            Event::Written(Ok(_)) => State::Sent,
            Event::Polled(Poll::Pending) => self.state,
            Event::Polled(Poll::Ready(Ok(_))) => if self.state == State::Sent {
                State::Sent
            } else {
                State::ResponseReceived
            },
            Event::TimerChecked(Poll::Pending) => self.state,
            Event::AckRead(Ok(octets)) => if is_ack(octets@) && self.expects_response {
                State::AckReceived
            } else {
                State::Idle
            },
            _ => State::Idle,
        }
    }

    /// What `event` asks for.
    pub open spec fn action<E>(self, event: Event<E>) -> Action<E> {
        match event {
            Event::Written(Ok(_)) => Action::Poll,
            Event::Written(Err(e)) => Action::Fail(Error::InterfaceError(e)),
            Event::Polled(Poll::Pending) => Action::CheckTimer,
            Event::Polled(Poll::Ready(Ok(_))) => if self.state == State::Sent {
                Action::ReadAck
            } else {
                Action::ReadResponse
            },
            Event::Polled(Poll::Ready(Err(e))) => Action::Fail(Error::InterfaceError(e)),
            Event::TimerChecked(Poll::Pending) => Action::Poll,
            Event::TimerChecked(Poll::Ready(_)) => if self.state == State::Sent {
                Action::Fail(Error::TimeoutAck)
            } else {
                Action::Fail(Error::TimeoutResponse)
            },
            Event::AckRead(Ok(octets)) => if !is_ack(octets@) {
                Action::Fail(Error::BadAck)
            } else if self.expects_response {
                Action::Poll
            } else {
                Action::Finish
            },
            Event::AckRead(Err(e)) => Action::Fail(Error::InterfaceError(e)),
            Event::ResponseRead(Ok(_)) => Action::Parse,
            Event::ResponseRead(Err(e)) => Action::Fail(Error::InterfaceError(e)),
        }
    }

    /// The transaction after `event`.
    pub open spec fn after<E>(self, event: Event<E>) -> Transaction {
        Transaction {
            state: self.next_state(event),
            expects_response: self.expects_response,
            awaits: answer_to(self.action(event)),
        }
    }

    /// An exchange that is about to begin.
    pub open spec fn fresh(expects_response: bool) -> Transaction {
        Transaction { state: State::Idle, expects_response, awaits: Awaited::Written }
    }

    /// An exchange that is about to begin: the request is to be written
    /// next.
    pub fn new(expects_response: bool) -> (r: Self)
        ensures
            r == Self::fresh(expects_response),
    {
        Transaction { state: State::Idle, expects_response, awaits: Awaited::Written }
    }

    /// Whether the state and the report that is awaited go together.
    pub fn is_wf(&self) -> (r: bool)
        ensures
            r == self.wf(),
    {
        match self.awaits {
            Awaited::Written | Awaited::Nothing => match self.state {
                State::Idle => true,
                _ => false,
            },
            Awaited::Polled | Awaited::TimerChecked => match self.state {
                State::Sent => true,
                State::AckReceived => self.expects_response,
                _ => false,
            },
            Awaited::AckRead => match self.state {
                State::Sent => true,
                _ => false,
            },
            Awaited::ResponseRead => match self.state {
                State::ResponseReceived => self.expects_response,
                _ => false,
            },
        }
    }

    /// Whether `event` is the report that is awaited.
    pub fn accepts<E>(&self, event: &Event<E>) -> (r: bool)
        ensures
            r == self.admits(*event),
    {
        let kind_fits = match (self.awaits, event) {
            (Awaited::Written, Event::Written(_)) => true,
            (Awaited::Polled, Event::Polled(_)) => true,
            (Awaited::TimerChecked, Event::TimerChecked(_)) => true,
            (Awaited::AckRead, Event::AckRead(_)) => true,
            (Awaited::ResponseRead, Event::ResponseRead(_)) => true,
            _ => false,
        };
        kind_fits && self.is_wf()
    }

    /// Takes in what the link or the timer reported, moves to the state
    /// that follows and says what is to be done next.
    pub fn step<E>(&mut self, event: Event<E>) -> (r: Action<E>)
        requires
            old(self).admits(event),
        ensures
            r == old(self).action(event),
            *final(self) == old(self).after(event),
            final(self).wf(),
    {
        match event {
            Event::Written(Ok(_)) => {
                self.state = State::Sent;
                self.awaits = Awaited::Polled;
                Action::Poll
            },
            Event::Written(Err(e)) => self.fail(Error::InterfaceError(e)),
            Event::Polled(Poll::Pending) => {
                self.awaits = Awaited::TimerChecked;
                Action::CheckTimer
            },
            Event::Polled(Poll::Ready(Ok(_))) => {
                match self.state {
                    State::Sent => {
                        self.awaits = Awaited::AckRead;
                        Action::ReadAck
                    },
                    _ => {
                        self.state = State::ResponseReceived;
                        self.awaits = Awaited::ResponseRead;
                        Action::ReadResponse
                    },
                }
            },
            Event::Polled(Poll::Ready(Err(e))) => self.fail(Error::InterfaceError(e)),
            Event::TimerChecked(Poll::Pending) => {
                self.awaits = Awaited::Polled;
                Action::Poll
            },
            Event::TimerChecked(Poll::Ready(_)) => {
                match self.state {
                    State::Sent => self.fail(Error::TimeoutAck),
                    _ => self.fail(Error::TimeoutResponse),
                }
            },
            Event::AckRead(Ok(octets)) => {
                match check_ack::<E>(&octets) {
                    Err(e) => self.fail(e),
                    Ok(_) => {
                        if self.expects_response {
                            self.state = State::AckReceived;
                            self.awaits = Awaited::Polled;
                            Action::Poll
                        } else {
                            self.state = State::Idle;
                            self.awaits = Awaited::Nothing;
                            Action::Finish
                        }
                    },
                }
            },
            Event::AckRead(Err(e)) => self.fail(Error::InterfaceError(e)),
            Event::ResponseRead(Ok(_)) => {
                self.state = State::Idle;
                self.awaits = Awaited::Nothing;
                Action::Parse
            },
            Event::ResponseRead(Err(e)) => self.fail(Error::InterfaceError(e)),
        }
    }

    /// Ends the exchange with a failure.
    fn fail<E>(&mut self, failure: Error<E>) -> (r: Action<E>)
        ensures
            r == Action::Fail(failure),
            final(self).state == State::Idle,
            final(self).awaits == Awaited::Nothing,
            final(self).expects_response == old(self).expects_response,
    {
        self.state = State::Idle;
        self.awaits = Awaited::Nothing;
        Action::Fail(failure)
    }
}

/// Whether an action ends the exchange.
pub open spec fn ends_exchange<E>(action: Action<E>) -> bool {
    action is Parse || action is Finish || action is Fail
}

/// Whether an action reads from the link.
pub open spec fn reads_link<E>(action: Action<E>) -> bool {
    action is ReadAck || action is ReadResponse
}

/// An action ends the exchange exactly when no report is awaited after
/// it, and then the transaction is idle: every failure and every
/// completion leaves it so.
pub proof fn lemma_idle_when_over<E>(t: Transaction, event: Event<E>)
    requires
        t.admits(event),
    ensures
        ends_exchange(t.action(event)) <==> t.after(event).awaits == Awaited::Nothing,
        ends_exchange(t.action(event)) <==> t.after(event).state == State::Idle,
        t.after(event).wf(),
{
}

/// An exchange is complete with the acknowledgement only where no
/// response is expected, and the buffer is parsed only where one is; the
/// failures of an exchange are a bad acknowledgement, the two timeouts and
/// the failures of the link.
pub proof fn lemma_ends<E>(t: Transaction, event: Event<E>)
    requires
        t.admits(event),
    ensures
        t.action(event) is Finish ==> !t.expects_response,
        t.action(event) is Parse ==> t.expects_response,
        t.action(event) matches Action::Fail(e) ==> e is BadAck || e is TimeoutAck || e
            is TimeoutResponse || e is InterfaceError,
        t.action(event) == Action::<E>::Fail(Error::TimeoutResponse) ==> t.expects_response,
{
}

/// When the exchange is over nothing more is admitted: nothing further is
/// asked of the link or the timer.
pub proof fn lemma_over_is_over<E>(t: Transaction, event: Event<E>)
    requires
        t.awaits == Awaited::Nothing,
    ensures
        !t.admits(event),
{
}

/// Whether an event reports that the timer has run out.
pub open spec fn reports_expiry<E>(event: Event<E>) -> bool {
    match event {
        Event::TimerChecked(Poll::Ready(_)) => true,
        _ => false,
    }
}

/// When the timer has run out while the acknowledgement is awaited, the
/// exchange fails at once for want of an acknowledgement; while the
/// response is awaited, for want of a response. No other report makes an
/// exchange fail for want of time.
pub proof fn lemma_timeout<E>(t: Transaction, event: Event<E>)
    requires
        t.admits(event),
    ensures
        reports_expiry(event) ==> t.after(event).awaits == Awaited::Nothing && t.action(event)
            == if t.state == State::Sent {
            Action::<E>::Fail(Error::TimeoutAck)
        } else {
            Action::<E>::Fail(Error::TimeoutResponse)
        },
        t.action(event) == Action::<E>::Fail(Error::TimeoutAck) ==> t.state == State::Sent
            && reports_expiry(event),
        t.action(event) == Action::<E>::Fail(Error::TimeoutResponse) ==> t.state
            == State::AckReceived && reports_expiry(event),
{
}

/// Each time the device is not ready the timer is consulted next, and
/// while the timer has not run out the link is asked again; the state
/// stays as it is.
pub proof fn lemma_pending_consults_timer<E>(t: Transaction, event: Event<E>)
    requires
        t.admits(event),
    ensures
        event == Event::<E>::Polled(Poll::Pending) <==> t.action(event) is CheckTimer,
        event == Event::<E>::Polled(Poll::Pending) ==> t.after(event).state == t.state,
        event == Event::<E>::TimerChecked(Poll::Pending) ==> t.action(event) is Poll
            && t.after(event).state == t.state,
{
}

/// Whether each event of a run is the report that is awaited when it
/// comes.
pub open spec fn run_admitted<E>(t: Transaction, events: Seq<Event<E>>) -> bool
    decreases events.len(),
{
    events.len() == 0 || (run_admitted(t, events.drop_last()) && run_state(
        t,
        events.drop_last(),
    ).admits(events.last()))
}

/// The transaction after a run of events.
pub open spec fn run_state<E>(t: Transaction, events: Seq<Event<E>>) -> Transaction
    decreases events.len(),
{
    if events.len() == 0 {
        t
    } else {
        run_state(t, events.drop_last()).after(events.last())
    }
}

/// The actions that a run of events asks for, in their order.
pub open spec fn run_actions<E>(t: Transaction, events: Seq<Event<E>>) -> Seq<Action<E>>
    decreases events.len(),
{
    if events.len() == 0 {
        Seq::empty()
    } else {
        run_actions(t, events.drop_last()).push(
            run_state(t, events.drop_last()).action(events.last()),
        )
    }
}

/// A run with one more event at its end.
pub proof fn lemma_run_push<E>(t: Transaction, events: Seq<Event<E>>, event: Event<E>)
    ensures
        run_state(t, events.push(event)) == run_state(t, events).after(event),
        run_actions(t, events.push(event)) == run_actions(t, events).push(
            run_state(t, events).action(event),
        ),
        run_admitted(t, events.push(event)) == (run_admitted(t, events) && run_state(
            t,
            events,
        ).admits(event)),
{
    assert(events.push(event).drop_last() =~= events);
    assert(events.push(event).last() == event);
}

/// How often a run of actions consults the timer.
pub open spec fn timer_checks<E>(actions: Seq<Action<E>>) -> nat
    decreases actions.len(),
{
    if actions.len() == 0 {
        0
    } else if actions.last() is CheckTimer {
        timer_checks(actions.drop_last()) + 1
    } else {
        timer_checks(actions.drop_last())
    }
}

/// How often, in a run of events, the device was found not ready.
pub open spec fn pending_polls<E>(events: Seq<Event<E>>) -> nat
    decreases events.len(),
{
    if events.len() == 0 {
        0
    } else if events.last() == Event::<E>::Polled(Poll::Pending) {
        pending_polls(events.drop_last()) + 1
    } else {
        pending_polls(events.drop_last())
    }
}

/// Whether an event reports that the device is ready.
pub open spec fn reports_ready<E>(event: Event<E>) -> bool {
    match event {
        Event::Polled(Poll::Ready(Ok(_))) => true,
        _ => false,
    }
}

/// How often, in a run of events, the device was found ready.
pub open spec fn ready_polls<E>(events: Seq<Event<E>>) -> nat
    decreases events.len(),
{
    if events.len() == 0 {
        0
    } else if reports_ready(events.last()) {
        ready_polls(events.drop_last()) + 1
    } else {
        ready_polls(events.drop_last())
    }
}

/// The link is read exactly when the device was found ready.
pub proof fn lemma_ready_is_read<E>(t: Transaction, event: Event<E>)
    requires
        t.admits(event),
    ensures
        reports_ready(event) <==> reads_link(t.action(event)),
{
}

/// The reads among a run of actions, in their order.
pub open spec fn read_trace<E>(actions: Seq<Action<E>>) -> Seq<Action<E>>
    decreases actions.len(),
{
    if actions.len() == 0 {
        Seq::empty()
    } else if reads_link(actions.last()) {
        read_trace(actions.drop_last()).push(actions.last())
    } else {
        read_trace(actions.drop_last())
    }
}

/// The first `k` of the two reads of an exchange: the acknowledgement,
/// then the response.
pub open spec fn first_reads<E>(k: nat) -> Seq<Action<E>> {
    if k == 0 {
        Seq::empty()
    } else if k == 1 {
        seq![Action::ReadAck]
    } else {
        seq![Action::ReadAck, Action::ReadResponse]
    }
}

/// How many reads have been asked for when a transaction that is under
/// way stands as it does.
pub open spec fn reads_asked(t: Transaction) -> nat {
    match (t.state, t.awaits) {
        (State::Sent, Awaited::AckRead) => 1,
        (State::AckReceived, _) => 1,
        (State::ResponseReceived, _) => 2,
        _ => 0,
    }
}

/// A run of an exchange from its beginning keeps the transaction well
/// formed, asks for one action for each event, and awaits after each
/// action the report that answers it.
pub proof fn lemma_run_well_formed<E>(expects_response: bool, events: Seq<Event<E>>)
    requires
        run_admitted(Transaction::fresh(expects_response), events),
    ensures
        run_state(Transaction::fresh(expects_response), events).wf(),
        run_state(Transaction::fresh(expects_response), events).expects_response
            == expects_response,
        run_actions(Transaction::fresh(expects_response), events).len() == events.len(),
        events.len() > 0 ==> run_state(Transaction::fresh(expects_response), events).awaits
            == answer_to(run_actions(Transaction::fresh(expects_response), events).last()),
        events.len() > 0 ==> !(run_state(Transaction::fresh(expects_response), events).awaits
            is Written),
    decreases events.len(),
{
    if events.len() > 0 {
        lemma_run_well_formed(expects_response, events.drop_last());
    }
}

/// In a run of an exchange from its beginning the timer is consulted
/// once for each poll that found the device not ready, and at no other
/// time.
pub proof fn lemma_run_timer_checks<E>(expects_response: bool, events: Seq<Event<E>>)
    requires
        run_admitted(Transaction::fresh(expects_response), events),
    ensures
        timer_checks(run_actions(Transaction::fresh(expects_response), events)) == pending_polls(
            events,
        ),
    decreases events.len(),
{
    if events.len() > 0 {
        let before = events.drop_last();
        lemma_run_timer_checks(expects_response, before);
        let t = run_state(Transaction::fresh(expects_response), before);
        let acts = run_actions(Transaction::fresh(expects_response), events);
        assert(acts.drop_last() == run_actions(Transaction::fresh(expects_response), before));
        assert(acts.last() == t.action(events.last()));
        lemma_pending_consults_timer(t, events.last());
    }
}

/// In a run of an exchange from its beginning that is still under way,
/// the reads asked for so far are the first of the two reads of an
/// exchange, as many as the state says.
pub proof fn lemma_run_reads<E>(expects_response: bool, events: Seq<Event<E>>)
    requires
        run_admitted(Transaction::fresh(expects_response), events),
        !(run_state(Transaction::fresh(expects_response), events).awaits is Nothing),
    ensures
        read_trace(run_actions(Transaction::fresh(expects_response), events)) == first_reads::<E>(
            reads_asked(run_state(Transaction::fresh(expects_response), events)),
        ),
    decreases events.len(),
{
    let fresh = Transaction::fresh(expects_response);
    if events.len() > 0 {
        let before = events.drop_last();
        let event = events.last();
        let t = run_state(fresh, before);
        let acts = run_actions(fresh, events);
        lemma_run_well_formed(expects_response, before);
        lemma_run_reads(expects_response, before);
        assert(acts.drop_last() == run_actions(fresh, before));
        assert(acts.last() == t.action(event));
        let trace = read_trace(acts.drop_last());
        if t.action(event) is ReadAck {
            assert(trace.push(Action::<E>::ReadAck) =~= seq![Action::<E>::ReadAck]);
        } else if t.action(event) is ReadResponse {
            assert(trace.push(Action::<E>::ReadResponse) =~= seq![
                Action::<E>::ReadAck,
                Action::<E>::ReadResponse,
            ]);
        }
    }
}

/// How many reads were asked for in an exchange that ended with a given
/// action: none before a timeout of the acknowledgement; the
/// acknowledgement alone before it was found bad, before a timeout of the
/// response, and where no response was expected; both before the buffer
/// is parsed.
pub open spec fn reads_before<E>(last: Action<E>) -> nat {
    match last {
        Action::Fail(Error::TimeoutAck) => 0,
        Action::Fail(Error::BadAck) => 1,
        Action::Fail(Error::TimeoutResponse) => 1,
        Action::Finish => 1,
        _ => 2,
    }
}

/// In a run of an exchange from its beginning to its end, the reads asked
/// for are the first of the two reads of an exchange, in their order, and
/// never more: as many as the end tells, or, where the link failed, as
/// many as had been asked for until then.
pub proof fn lemma_run_reads_at_end<E>(expects_response: bool, events: Seq<Event<E>>)
    requires
        run_admitted(Transaction::fresh(expects_response), events),
        run_state(Transaction::fresh(expects_response), events).awaits is Nothing,
    ensures
        events.len() > 0,
        ends_exchange(run_actions(Transaction::fresh(expects_response), events).last()),
        exists|k: nat|
            k <= 2 && #[trigger] first_reads::<E>(k) == read_trace(
                run_actions(Transaction::fresh(expects_response), events),
            ),
        !(run_actions(Transaction::fresh(expects_response), events).last() matches Action::Fail(
            Error::InterfaceError(_),
        )) ==> read_trace(run_actions(Transaction::fresh(expects_response), events))
            == first_reads::<E>(
            reads_before(run_actions(Transaction::fresh(expects_response), events).last()),
        ),
        !expects_response ==> read_trace(
            run_actions(Transaction::fresh(expects_response), events),
        ).len() <= 1,
{
    let fresh = Transaction::fresh(expects_response);
    let before = events.drop_last();
    let event = events.last();
    let t = run_state(fresh, before);
    let acts = run_actions(fresh, events);
    lemma_run_well_formed(expects_response, before);
    lemma_run_well_formed(expects_response, events);
    lemma_run_reads(expects_response, before);
    assert(acts.drop_last() == run_actions(fresh, before));
    assert(acts.last() == t.action(event));
    lemma_idle_when_over(t, event);
    assert(read_trace(acts) == read_trace(acts.drop_last()));
    assert(first_reads::<E>(reads_asked(t)) == read_trace(acts));
}

/// In a run of an exchange from its beginning the link is read once for
/// each poll that found the device ready, and at no other time.
pub proof fn lemma_run_ready_polls<E>(expects_response: bool, events: Seq<Event<E>>)
    requires
        run_admitted(Transaction::fresh(expects_response), events),
    ensures
        read_trace(run_actions(Transaction::fresh(expects_response), events)).len()
            == ready_polls(events),
    decreases events.len(),
{
    if events.len() > 0 {
        let before = events.drop_last();
        lemma_run_ready_polls(expects_response, before);
        let t = run_state(Transaction::fresh(expects_response), before);
        let acts = run_actions(Transaction::fresh(expects_response), events);
        assert(acts.drop_last() == run_actions(Transaction::fresh(expects_response), before));
        assert(acts.last() == t.action(events.last()));
        lemma_ready_is_read(t, events.last());
    }
}

} // verus!
