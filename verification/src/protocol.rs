use crate::frame::{
    ack_frame, check_ack, lemma_parser_faults, parse_response, request_frame, response_payload,
    write_frame, ACK, FRAME_OVERHEAD, MAX_PAYLOAD,
};
use crate::record::{
    before_response, call_of, calls_in, calls_of, completes, exchange_failure, failure_in,
    hears_ack, lemma_link_report, link_report, ran_exchange, Call,
};
use crate::requests::{BorrowedRequest, Command, Request};
use crate::transaction::{
    answer_to, lemma_run_push, run_actions, run_admitted, run_state, Action, Event, State,
    Transaction,
};
use crate::{CountDown, Interface};
use core::task::Poll;
use vstd::prelude::*;
use vstd::slice::slice_subrange;

verus! {

/// What can go wrong in an exchange with the device.
#[derive(Copy, Clone, Eq, PartialEq, Debug)]
pub enum Error<E> {
    /// The acknowledgement was not the expected six octets.
    BadAck,
    /// The response frame is malformed.
    BadResponseFrame,
    /// The device answered with a syntax error frame.
    Syntax,
    /// The checksum of the length or of the data is wrong.
    CrcError,
    /// The expected response length was too small for the frame that came.
    BufTooSmall,
    /// No acknowledgement came in time.
    TimeoutAck,
    /// No response came in time.
    TimeoutResponse,
    /// The link reported an error of its own.
    InterfaceError(E),
}

impl<E> From<E> for Error<E> {
    fn from(e: E) -> (r: Self) {
        Error::InterfaceError(e)
    }
}

impl<E> vstd::std_specs::convert::FromSpecImpl<E> for Error<E> {
    open spec fn obeys_from_spec() -> bool {
        true
    }

    open spec fn from_spec(e: E) -> Self {
        Error::InterfaceError(e)
    }
}

/// Sets every octet of `buf` to zero.
pub fn fill_zero(buf: &mut [u8])
    ensures
        final(buf)@.len() == old(buf)@.len(),
        forall|k: int| 0 <= k < old(buf)@.len() ==> #[trigger] final(buf)@[k] == 0,
{
    let len: usize = buf.len();
    let mut i: usize = 0;
    while i < len
        invariant
            len == buf@.len(),
            buf@.len() == old(buf)@.len(),
            i <= len,
            forall|k: int| 0 <= k < i ==> #[trigger] buf@[k] == 0,
        decreases len - i,
    {
        buf[i] = 0;
        i += 1;
    }
}

/// How far an exchange is from its end, for the order in which its states
/// follow each other.
pub open spec fn phase_rank(state: State) -> nat {
    match state {
        State::Sent => 3,
        State::AckReceived => 2,
        State::ResponseReceived => 1,
        State::Idle => 0,
    }
}

/// How far an action is from the next consultation of the timer.
pub open spec fn action_rank<E>(action: Action<E>) -> nat {
    match action {
        Action::Poll => 2,
        Action::CheckTimer => 1,
        _ => 0,
    }
}

/// The driver: a link to the device, a timer, and the buffer in which
/// every frame is built and received.
///
/// The buffer has `N` octets. A request with a payload of `M` octets needs
/// `N >= M + 9`, and a response of up to `response_len` octets needs
/// `N >= response_len + 9`.
///
/// The driver keeps, for its contracts alone, a record of what it asked of
/// its link and of its timer, and of what they reported.
#[verifier::reject_recursive_types(I)]
#[derive(Clone)]
pub struct Pn532<I: Interface, T, const N: usize> {
    pub interface: I,
    pub timer: T,
    buf: [u8; N],
    asked: Ghost<Seq<Call>>,
    reports: Ghost<Seq<Event<I::Error>>>,
}

impl<I: Interface, T, const N: usize> Pn532<I, T, N> {
    /// What the frame buffer holds.
    pub closed spec fn buffer(&self) -> Seq<u8> {
        self.buf@
    }

    /// The link, as contracts see it.
    pub closed spec fn link(&self) -> I {
        self.interface
    }

    /// The timer, as contracts see it.
    pub closed spec fn clock(&self) -> T {
        self.timer
    }

    /// What the driver has asked of its link and of its timer since it was
    /// made, in the order of the calls.
    pub closed spec fn asked(&self) -> Seq<Call> {
        self.asked@
    }

    /// What the link and the timer have reported to the driver since it
    /// was made, in the order of the reports. Where the timer is consulted
    /// for the last time that an exchange allows, the report counts as
    /// that it has run out.
    pub closed spec fn reports(&self) -> Seq<Event<I::Error>> {
        self.reports@
    }

    /// The buffer has `N` octets at all times.
    pub proof fn lemma_buffer_len(&self)
        ensures
            self.buffer().len() == N,
    {
    }

    /// A driver over a link and a timer, with its buffer zeroed.
    pub fn new(interface: I, timer: T) -> (r: Self)
        ensures
            r.link() == interface,
            r.clock() == timer,
            r.buffer() == Seq::new(N as nat, |i: int| 0u8),
            r.asked() == Seq::<Call>::empty(),
            r.reports() == Seq::<Event<I::Error>>::empty(),
    {
        let r = Pn532 {
            interface,
            timer,
            buf: [0;N],
            asked: Ghost(Seq::empty()),
            reports: Ghost(Seq::empty()),
        };
        assert(r.buf@ =~= Seq::new(N as nat, |i: int| 0u8));
        r
    }

    /// Hands the front of the buffer to the link to be written.
    fn write_front(&mut self, len: usize) -> (r: Result<(), I::Error>)
        requires
            len <= N,
        ensures
            final(self).buffer() == old(self).buffer(),
            final(self).clock() == old(self).clock(),
            final(self).asked() == old(self).asked().push(
                Call::Write(old(self).buffer().subrange(0, len as int)),
            ),
            final(self).reports() == old(self).reports().push(Event::Written(r)),
    {
        let ghost octets = self.buf@.subrange(0, len as int);
        let r = self.interface.write(slice_subrange(&self.buf, 0, len));
        proof {
            self.asked@ = self.asked@.push(Call::Write(octets));
            self.reports@ = self.reports@.push(Event::Written(r));
        }
        r
    }

    /// Asks the link whether the device is ready.
    fn poll_link(&mut self) -> (r: Poll<Result<(), I::Error>>)
        ensures
            final(self).buffer() == old(self).buffer(),
            final(self).clock() == old(self).clock(),
            final(self).asked() == old(self).asked().push(Call::WaitReady),
            final(self).reports() == old(self).reports().push(Event::Polled(r)),
    {
        let r = self.interface.wait_ready();
        proof {
            self.asked@ = self.asked@.push(Call::WaitReady);
            self.reports@ = self.reports@.push(Event::Polled(r));
        }
        r
    }

    /// Reads six octets from the link.
    fn read_ack(&mut self) -> (r: Result<[u8; 6], I::Error>)
        ensures
            final(self).buffer() == old(self).buffer(),
            final(self).clock() == old(self).clock(),
            final(self).asked() == old(self).asked().push(Call::Read(6)),
            final(self).reports() == old(self).reports().push(Event::AckRead(r)),
    {
        let mut ack_buf: [u8; 6] = [0;6];
        let read = self.interface.read(&mut ack_buf);
        let r = match read {
            Ok(_) => Ok(ack_buf),
            Err(e) => Err(e),
        };
        proof {
            self.asked@ = self.asked@.push(Call::Read(6));
            self.reports@ = self.reports@.push(Event::AckRead(r));
        }
        r
    }

    /// Zeroes the front of the buffer and reads a response into it.
    fn read_response(&mut self, response_len: usize) -> (r: Result<(), I::Error>)
        requires
            response_len + FRAME_OVERHEAD <= N,
        ensures
            final(self).clock() == old(self).clock(),
            final(self).asked() == old(self).asked().push(
                Call::Read((response_len + FRAME_OVERHEAD) as nat),
            ),
            final(self).reports() == old(self).reports().push(Event::ResponseRead(r)),
            forall|k: int|
                response_len + FRAME_OVERHEAD <= k < N ==> #[trigger] final(self).buffer()[k]
                    == old(self).buffer()[k],
    {
        let total: usize = response_len + FRAME_OVERHEAD;
        let whole: &mut [u8] = &mut self.buf;
        let (window, rest) = whole.split_at_mut(total);
        fill_zero(window);
        let r = self.interface.read(window);
        proof {
            self.asked@ = self.asked@.push(Call::Read(total as nat));
            self.reports@ = self.reports@.push(Event::ResponseRead(r));
        }
        r
    }

    /// Parses the front of the buffer as the answer to `sent_command`.
    fn parse_buffer(&self, sent_command: Command, response_len: usize) -> (r: Result<
        &[u8],
        Error<I::Error>,
    >)
        requires
            response_len + FRAME_OVERHEAD <= N,
        ensures
            match r {
                Ok(payload) => response_payload::<I::Error>(
                    self.buffer().subrange(0, response_len + FRAME_OVERHEAD),
                    (sent_command.spec_code() + 1) as u8,
                ) == Ok::<Seq<u8>, Error<I::Error>>(payload@),
                Err(e) => response_payload::<I::Error>(
                    self.buffer().subrange(0, response_len + FRAME_OVERHEAD),
                    (sent_command.spec_code() + 1) as u8,
                ) == Err::<Seq<u8>, Error<I::Error>>(e),
            },
            exchange_failure(r) is None,
            !(r matches Err(Error::InterfaceError(_))),
    {
        let expected_response_command: u8 = sent_command.code() + 1;
        let response_buf = slice_subrange(&self.buf, 0, response_len + FRAME_OVERHEAD);
        proof {
            lemma_parser_faults::<I::Error>(response_buf@, expected_response_command);
        }
        parse_response(response_buf, expected_response_command)
    }

    /// Builds the frame of `request` in the buffer and asks the link to
    /// write it.
    ///
    /// The link is given the frame, and the result is the link's: the
    /// request is sent exactly when the link reports so. The front of the
    /// buffer then holds the frame and the rest of it is as before.
    pub fn send<const M: usize>(&mut self, request: &Request<M>) -> (r: Result<
        (),
        Error<I::Error>,
    >)
        requires
            M <= MAX_PAYLOAD,
            M + FRAME_OVERHEAD <= N,
        ensures
            final(self).asked() == old(self).asked().push(
                Call::Write(request_frame(request.command.spec_code(), request.data@)),
            ),
            final(self).reports() == old(self).reports().push(Event::Written(link_report(r))),
            r matches Err(e) ==> e is InterfaceError,
            final(self).buffer().subrange(0, M + FRAME_OVERHEAD) == request_frame(
                request.command.spec_code(),
                request.data@,
            ),
            forall|k: int|
                M + FRAME_OVERHEAD <= k < N ==> #[trigger] final(self).buffer()[k]
                    == old(self).buffer()[k],
            final(self).clock() == old(self).clock(),
    {
        let written = self._send(request.borrow());
        let ghost report = written;
        let r = match written {
            Ok(_) => Ok(()),
            Err(e) => Err(Error::InterfaceError(e)),
        };
        proof {
            lemma_link_report(report, r);
        }
        r
    }

    fn _send(&mut self, request: BorrowedRequest<'_>) -> (r: Result<(), I::Error>)
        requires
            request.data@.len() <= MAX_PAYLOAD,
            request.data@.len() + FRAME_OVERHEAD <= N,
        ensures
            final(self).asked() == old(self).asked().push(
                Call::Write(request_frame(request.command.spec_code(), request.data@)),
            ),
            final(self).reports() == old(self).reports().push(Event::Written(r)),
            final(self).buffer().subrange(0, request.data@.len() + FRAME_OVERHEAD)
                == request_frame(request.command.spec_code(), request.data@),
            forall|k: int|
                request.data@.len() + FRAME_OVERHEAD <= k < N ==> #[trigger] final(self).buffer()[k]
                    == old(self).buffer()[k],
            final(self).clock() == old(self).clock(),
    {
        let data_len: usize = request.data.len();
        write_frame(&mut self.buf, request.command.code(), request.data);
        self.write_front(FRAME_OVERHEAD + data_len)
    }

    /// Asks the link to read six octets and compares them with the
    /// acknowledgement frame.
    ///
    /// To be called once the link has reported that the device is ready.
    /// The result is the link's failure, or says whether the six octets
    /// that the link reported are the acknowledgement frame. The buffer is
    /// left as it was.
    pub fn receive_ack(&mut self) -> (r: Result<(), Error<I::Error>>)
        ensures
            final(self).asked() == old(self).asked().push(Call::Read(6)),
            final(self).reports().len() == old(self).reports().len() + 1,
            final(self).reports().drop_last() == old(self).reports(),
            hears_ack(final(self).reports().last(), r),
            final(self).buffer() == old(self).buffer(),
            final(self).clock() == old(self).clock(),
    {
        let read = self.read_ack();
        proof {
            assert(self.reports().drop_last() =~= old(self).reports());
        }
        match read {
            Ok(ack_buf) => check_ack(&ack_buf),
            Err(e) => Err(Error::InterfaceError(e)),
        }
    }

    /// Asks the link to read a response of `response_len + 9` octets into
    /// the front of the buffer and parses it as the answer to
    /// `sent_command`.
    ///
    /// To be called once the link has reported that the device is ready.
    /// The result is the link's failure, if the link reports one, and else
    /// what the parser finds in the front of the buffer.
    pub fn receive_response(&mut self, sent_command: Command, response_len: usize) -> (r: Result<
        &[u8],
        Error<I::Error>,
    >)
        requires
            response_len + FRAME_OVERHEAD <= N,
        ensures
            final(self).asked() == old(self).asked().push(
                Call::Read((response_len + FRAME_OVERHEAD) as nat),
            ),
            final(self).reports() == old(self).reports().push(
                Event::ResponseRead(link_report(r)),
            ),
            final(self).clock() == old(self).clock(),
            forall|k: int|
                response_len + FRAME_OVERHEAD <= k < N ==> #[trigger] final(self).buffer()[k]
                    == old(self).buffer()[k],
            match r {
                Ok(payload) => response_payload::<I::Error>(
                    final(self).buffer().subrange(0, response_len + FRAME_OVERHEAD),
                    (sent_command.spec_code() + 1) as u8,
                ) == Ok::<Seq<u8>, Error<I::Error>>(payload@),
                Err(e) => e is InterfaceError || response_payload::<I::Error>(
                    final(self).buffer().subrange(0, response_len + FRAME_OVERHEAD),
                    (sent_command.spec_code() + 1) as u8,
                ) == Err::<Seq<u8>, Error<I::Error>>(e),
            },
    {
        let read = self.read_response(response_len);
        let ghost report = read;
        let r = match read {
            Ok(_) => self.parse_buffer(sent_command, response_len),
            Err(e) => Err(Error::InterfaceError(e)),
        };
        proof {
            lemma_link_report(report, r);
        }
        r
    }

    /// Asks the link to write the acknowledgement frame, which makes the
    /// device drop what it was doing and wait for a new command. The
    /// result is the link's.
    pub fn abort(&mut self) -> (r: Result<(), Error<I::Error>>)
        ensures
            final(self).asked() == old(self).asked().push(Call::Write(ack_frame())),
            final(self).reports() == old(self).reports().push(Event::Written(link_report(r))),
            r matches Err(e) ==> e is InterfaceError,
            final(self).buffer() == old(self).buffer(),
            final(self).clock() == old(self).clock(),
    {
        let written = self.interface.write(&ACK);
        proof {
            assert(ACK@ =~= ack_frame());
            self.asked@ = self.asked@.push(Call::Write(ack_frame()));
            self.reports@ = self.reports@.push(Event::Written(written));
        }
        let ghost report = written;
        let r = match written {
            Ok(_) => Ok(()),
            Err(e) => Err(Error::InterfaceError(e)),
        };
        proof {
            lemma_link_report(report, r);
        }
        r
    }
}

impl<I: Interface, T: CountDown, const N: usize> Pn532<I, T, N> {
    /// Starts the timer.
    fn start_timer(&mut self, timeout: T::Time)
        ensures
            final(self).buffer() == old(self).buffer(),
            final(self).asked() == old(self).asked().push(Call::Start),
            final(self).reports() == old(self).reports(),
    {
        self.timer.start(timeout);
        proof {
            self.asked@ = self.asked@.push(Call::Start);
        }
    }

    /// Asks the timer whether it has run out. Where this is the last time
    /// that the timer is consulted, the answer is that it has.
    fn check_timer(&mut self, last_time: bool) -> (r: Poll<()>)
        ensures
            final(self).buffer() == old(self).buffer(),
            final(self).asked() == old(self).asked().push(Call::Wait),
            final(self).reports() == old(self).reports().push(Event::TimerChecked(r)),
            last_time ==> r is Ready,
    {
        let waited = self.timer.wait();
        let r = if last_time {
            Poll::Ready(())
        } else {
            waited
        };
        proof {
            self.asked@ = self.asked@.push(Call::Wait);
            self.reports@ = self.reports@.push(Event::TimerChecked(r));
        }
        r
    }

    /// Sends a request, waits for its acknowledgement and then for its
    /// response, of up to `response_len` octets, and hands out the payload
    /// of the response.
    ///
    /// The timer is started with `timeout`, and consulted each time the link
    /// reports that the device is not ready. Once it has been consulted
    /// `u64::MAX` times it is consulted once more, and this time its report
    /// counts as that it has run out.
    ///
    /// The exchange runs as a transaction does, from its beginning to its
    /// end, on what the link and the timer report: the calls are those
    /// that the run of the reports asks for, in their order, and the
    /// exchange fails exactly as the run does. Where the run does not fail,
    /// the result is what the parser finds in the front of the buffer.
    /// After a bad acknowledgement or a timeout the front of the buffer
    /// still holds the request.
    pub fn process<const M: usize>(
        &mut self,
        request: &Request<M>,
        response_len: usize,
        timeout: T::Time,
    ) -> (r: Result<&[u8], Error<I::Error>>)
        requires
            M <= MAX_PAYLOAD,
            M + FRAME_OVERHEAD <= N,
            response_len + FRAME_OVERHEAD <= N,
        ensures
            ran_exchange(
                old(self).asked(),
                final(self).asked(),
                old(self).reports(),
                final(self).reports(),
                true,
                request_frame(request.command.spec_code(), request.data@),
                response_len as nat,
                exchange_failure(r),
            ),
            forall|k: int|
                M + FRAME_OVERHEAD <= k < N && response_len + FRAME_OVERHEAD <= k
                    ==> #[trigger] final(self).buffer()[k] == old(self).buffer()[k],
            match r {
                Ok(payload) => response_payload::<I::Error>(
                    final(self).buffer().subrange(0, response_len + FRAME_OVERHEAD),
                    (request.command.spec_code() + 1) as u8,
                ) == Ok::<Seq<u8>, Error<I::Error>>(payload@),
                Err(e) => if before_response(e) {
                    final(self).buffer().subrange(0, M + FRAME_OVERHEAD) == request_frame(
                        request.command.spec_code(),
                        request.data@,
                    )
                } else {
                    e is InterfaceError || response_payload::<I::Error>(
                        final(self).buffer().subrange(0, response_len + FRAME_OVERHEAD),
                        (request.command.spec_code() + 1) as u8,
                    ) == Err::<Seq<u8>, Error<I::Error>>(e)
                },
            },
    {
        self._process(request.borrow(), response_len, timeout)
    }

    fn _process(&mut self, request: BorrowedRequest<'_>, response_len: usize, timeout: T::Time) -> (r:
        Result<&[u8], Error<I::Error>>)
        requires
            request.data@.len() <= MAX_PAYLOAD,
            request.data@.len() + FRAME_OVERHEAD <= N,
            response_len + FRAME_OVERHEAD <= N,
        ensures
            ran_exchange(
                old(self).asked(),
                final(self).asked(),
                old(self).reports(),
                final(self).reports(),
                true,
                request_frame(request.command.spec_code(), request.data@),
                response_len as nat,
                exchange_failure(r),
            ),
            forall|k: int|
                request.data@.len() + FRAME_OVERHEAD <= k < N && response_len + FRAME_OVERHEAD
                    <= k ==> #[trigger] final(self).buffer()[k] == old(self).buffer()[k],
            match r {
                Ok(payload) => response_payload::<I::Error>(
                    final(self).buffer().subrange(0, response_len + FRAME_OVERHEAD),
                    (request.command.spec_code() + 1) as u8,
                ) == Ok::<Seq<u8>, Error<I::Error>>(payload@),
                Err(e) => if before_response(e) {
                    final(self).buffer().subrange(0, request.data@.len() + FRAME_OVERHEAD)
                        == request_frame(request.command.spec_code(), request.data@)
                } else {
                    e is InterfaceError || response_payload::<I::Error>(
                        final(self).buffer().subrange(0, response_len + FRAME_OVERHEAD),
                        (request.command.spec_code() + 1) as u8,
                    ) == Err::<Seq<u8>, Error<I::Error>>(e)
                },
            },
    {
        let sent_command = request.command;
        match self.exchange(request, Some(response_len), timeout) {
            Ok(_) => self.parse_buffer(sent_command, response_len),
            Err(e) => Err(e),
        }
    }

    /// Sends a request and waits for its acknowledgement.
    ///
    /// The timer is started with `timeout`, and consulted each time the link
    /// reports that the device is not ready. Once it has been consulted
    /// `u64::MAX` times it is consulted once more, and this time its report
    /// counts as that it has run out.
    ///
    /// The exchange runs as a transaction without a response does, from its
    /// beginning to its end, on what the link and the timer report: the
    /// calls are those that the run of the reports asks for, in their
    /// order, and the result is that of the run. Nothing is read into the
    /// buffer: its front holds the request afterwards.
    pub fn process_no_response<const M: usize>(
        &mut self,
        request: &Request<M>,
        timeout: T::Time,
    ) -> (r: Result<(), Error<I::Error>>)
        requires
            M <= MAX_PAYLOAD,
            M + FRAME_OVERHEAD <= N,
        ensures
            ran_exchange(
                old(self).asked(),
                final(self).asked(),
                old(self).reports(),
                final(self).reports(),
                false,
                request_frame(request.command.spec_code(), request.data@),
                0,
                exchange_failure(r),
            ),
            r matches Err(e) ==> e is BadAck || e is TimeoutAck || e is InterfaceError,
            forall|k: int|
                M + FRAME_OVERHEAD <= k < N ==> #[trigger] final(self).buffer()[k]
                    == old(self).buffer()[k],
            final(self).buffer().subrange(0, M + FRAME_OVERHEAD) == request_frame(
                request.command.spec_code(),
                request.data@,
            ),
    {
        self._process_no_response(request.borrow(), timeout)
    }

    fn _process_no_response(&mut self, request: BorrowedRequest<'_>, timeout: T::Time) -> (r:
        Result<(), Error<I::Error>>)
        requires
            request.data@.len() <= MAX_PAYLOAD,
            request.data@.len() + FRAME_OVERHEAD <= N,
        ensures
            ran_exchange(
                old(self).asked(),
                final(self).asked(),
                old(self).reports(),
                final(self).reports(),
                false,
                request_frame(request.command.spec_code(), request.data@),
                0,
                exchange_failure(r),
            ),
            r matches Err(e) ==> e is BadAck || e is TimeoutAck || e is InterfaceError,
            forall|k: int|
                request.data@.len() + FRAME_OVERHEAD <= k < N ==> #[trigger] final(self).buffer()[k]
                    == old(self).buffer()[k],
            final(self).buffer().subrange(0, request.data@.len() + FRAME_OVERHEAD)
                == request_frame(request.command.spec_code(), request.data@),
    {
        self.exchange(request, None, timeout)
    }

    /// Runs one exchange over the link, step by step as the transaction
    /// says, to its end: to the point where the response, if one is
    /// expected, lies in the buffer, or to the failure.
    fn exchange(
        &mut self,
        request: BorrowedRequest<'_>,
        response_len: Option<usize>,
        timeout: T::Time,
    ) -> (r: Result<(), Error<I::Error>>)
        requires
            request.data@.len() <= MAX_PAYLOAD,
            request.data@.len() + FRAME_OVERHEAD <= N,
            response_len matches Some(len) ==> len + FRAME_OVERHEAD <= N,
        ensures
            ran_exchange(
                old(self).asked(),
                final(self).asked(),
                old(self).reports(),
                final(self).reports(),
                response_len is Some,
                request_frame(request.command.spec_code(), request.data@),
                match response_len {
                    Some(len) => len as nat,
                    None => 0,
                },
                exchange_failure(r),
            ),
            forall|k: int|
                request.data@.len() + FRAME_OVERHEAD <= k < N && (response_len matches Some(len)
                    ==> len + FRAME_OVERHEAD <= k) ==> #[trigger] final(self).buffer()[k]
                    == old(self).buffer()[k],
            response_len is None || (r matches Err(e) && before_response(e))
                ==> final(self).buffer().subrange(0, request.data@.len() + FRAME_OVERHEAD)
                == request_frame(request.command.spec_code(), request.data@),
            r matches Err(e) ==> (before_response(e) || e is InterfaceError) && (e
                is TimeoutResponse ==> response_len is Some),
    {
        let ghost frame = request_frame(request.command.spec_code(), request.data@);
        let ghost frame_len = request.data@.len() + FRAME_OVERHEAD;
        let ghost expects = response_len is Some;
        let ghost fresh = Transaction::fresh(expects);
        let ghost wanted: nat = match response_len {
            Some(len) => len as nat,
            None => 0,
        };
        let ghost before = self.asked();
        let ghost heard = self.reports();
        let mut transaction = Transaction::new(response_len.is_some());
        self.start_timer(timeout);
        let written = self._send(request);
        let ghost nothing = Seq::<Event<I::Error>>::empty();
        let ghost mut events: Seq<Event<I::Error>> = nothing.push(Event::Written(written));
        let mut action = transaction.step(Event::Written(written));
        proof {
            lemma_run_push(fresh, nothing, Event::Written(written));
            assert(run_actions(fresh, events).drop_last() =~= Seq::<Action<I::Error>>::empty());
            assert(self.asked() =~= before + seq![Call::Start, Call::Write(frame)] + calls_of(
                run_actions(fresh, events).drop_last(),
                wanted,
            ));
            assert(self.reports() =~= heard + events);
        }
        let mut budget: u64 = u64::MAX;
        loop
            invariant
                response_len matches Some(len) ==> len + FRAME_OVERHEAD <= N,
                wanted == match response_len {
                    Some(len) => len as nat,
                    None => 0,
                },
                expects == response_len is Some,
                fresh == Transaction::fresh(expects),
                frame == request_frame(request.command.spec_code(), request.data@),
                frame_len == request.data@.len() + FRAME_OVERHEAD,
                frame_len <= N,
                before == old(self).asked(),
                heard == old(self).reports(),
                self.buffer().len() == N,
                events.len() > 0,
                run_admitted(fresh, events),
                transaction == run_state(fresh, events),
                transaction.wf(),
                transaction.expects_response == expects,
                action == run_actions(fresh, events).last(),
                transaction.awaits == answer_to(action),
                self.reports() == heard + events,
                self.asked() == before + seq![Call::Start, Call::Write(frame)] + calls_of(
                    run_actions(fresh, events).drop_last(),
                    wanted,
                ),
                forall|k: int|
                    frame_len <= k < N && (response_len matches Some(len) ==> len + FRAME_OVERHEAD
                        <= k) ==> #[trigger] self.buffer()[k] == old(self).buffer()[k],
                !expects || (!(action is Parse) && !(action matches Action::Fail(
                    Error::InterfaceError(_),
                ))) ==> self.buffer().subrange(0, frame_len as int) == frame,
                action is Parse ==> expects,
                action matches Action::Fail(e) ==> (before_response(e) || e is InterfaceError)
                    && (e is TimeoutResponse ==> expects),
            decreases phase_rank(transaction.state), budget, action_rank(action),
        {
            let ghost issued = run_actions(fresh, events);
            let ghost log = self.asked();
            let event = match action {
                Action::Poll => Event::Polled(self.poll_link()),
                Action::CheckTimer => {
                    let last_time = budget == 0;
                    if !last_time {
                        budget -= 1;
                    }
                    Event::TimerChecked(self.check_timer(last_time))
                },
                Action::ReadAck => Event::AckRead(self.read_ack()),
                Action::ReadResponse => {
                    match response_len {
                        Some(len) => Event::ResponseRead(self.read_response(len)),
                        // not reached: a response is read only where one is expected
                        None => Event::ResponseRead(Ok(())),
                    }
                },
                Action::Parse | Action::Finish => {
                    proof {
                        assert(calls_of(issued, wanted) == calls_of(issued.drop_last(), wanted));
                        assert(self.asked() =~= before + calls_in(events, expects, frame, wanted));
                        assert(failure_in(events, expects) == exchange_failure::<(), I::Error>(
                            Ok(()),
                        ));
                        assert(completes(events, expects));
                        assert(self.reports().subrange(0, heard.len() as int) =~= heard);
                        assert(self.reports().skip(heard.len() as int) =~= events);
                    }
                    return Ok(());
                },
                Action::Fail(e) => {
                    proof {
                        assert(calls_of(issued, wanted) == calls_of(issued.drop_last(), wanted));
                        assert(self.asked() =~= before + calls_in(events, expects, frame, wanted));
                        assert(failure_in(events, expects) == exchange_failure::<(), I::Error>(
                            Err(e),
                        ));
                        assert(completes(events, expects));
                        assert(self.reports().subrange(0, heard.len() as int) =~= heard);
                        assert(self.reports().skip(heard.len() as int) =~= events);
                    }
                    return Err(e);
                },
            };
            proof {
                assert(self.asked() == log.push(call_of(action, wanted)->Some_0));
                assert(calls_of(issued, wanted) == calls_of(issued.drop_last(), wanted).push(
                    call_of(action, wanted)->Some_0,
                ));
                assert(self.asked() =~= before + seq![Call::Start, Call::Write(frame)] + calls_of(
                    issued,
                    wanted,
                ));
                assert(self.reports() =~= heard + events.push(event));
                lemma_run_push(fresh, events, event);
                events = events.push(event);
            }
            action = transaction.step(event);
            proof {
                assert(run_actions(fresh, events).drop_last() =~= issued);
            }
        }
    }
}

impl<I: Interface, const N: usize> Pn532<I, (), N> {
    /// A driver without a timer, with its buffer zeroed.
    pub fn new_async(interface: I) -> (r: Self)
        ensures
            r.link() == interface,
            r.buffer() == Seq::new(N as nat, |i: int| 0u8),
            r.asked() == Seq::<Call>::empty(),
            r.reports() == Seq::<Event<I::Error>>::empty(),
    {
        let r = Pn532 {
            interface,
            timer: (),
            buf: [0;N],
            asked: Ghost(Seq::empty()),
            reports: Ghost(Seq::empty()),
        };
        assert(r.buf@ =~= Seq::new(N as nat, |i: int| 0u8));
        r
    }
}

} // verus!
