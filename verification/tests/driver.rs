use core::task::Poll;
use std::collections::VecDeque;

use pn532::requests::{Command, SAMMode};
use pn532::{CountDown, Error, Interface, Pn532, Request};

const ACK: [u8; 6] = [0x00, 0x00, 0xFF, 0x00, 0xFF, 0x00];
const FIRMWARE_RESPONSE: [u8; 13] = [
    0x00, 0x00, 0xFF, 0x06, 0xFA, 0xD5, 0x03, 0x32, 0x01, 0x06, 0x07, 0xE8, 0x00,
];

#[derive(Debug, Clone, PartialEq)]
enum Call {
    Write(Vec<u8>),
    WaitReady,
    Read(usize),
}

/// A link that answers from a script and keeps a record of what was asked of it.
struct ScriptedLink {
    write_result: Result<(), &'static str>,
    polls: VecDeque<Poll<Result<(), &'static str>>>,
    reads: VecDeque<Result<Vec<u8>, &'static str>>,
    calls: Vec<Call>,
}

impl ScriptedLink {
    /// A link that is ready at once, each time, and hands out `reads` in turn.
    fn ready(reads: &[&[u8]]) -> Self {
        ScriptedLink {
            write_result: Ok(()),
            polls: reads.iter().map(|_| Poll::Ready(Ok(()))).collect(),
            reads: reads.iter().map(|r| Ok(r.to_vec())).collect(),
            calls: Vec::new(),
        }
    }

    /// A link that never becomes ready.
    fn silent() -> Self {
        ScriptedLink {
            write_result: Ok(()),
            polls: VecDeque::new(),
            reads: VecDeque::new(),
            calls: Vec::new(),
        }
    }

    fn count_reads(&self) -> usize {
        self.calls.iter().filter(|c| matches!(c, Call::Read(_))).count()
    }

    fn count_polls(&self) -> usize {
        self.calls.iter().filter(|c| matches!(c, Call::WaitReady)).count()
    }
}

impl Interface for ScriptedLink {
    type Error = &'static str;

    fn write(&mut self, frame: &[u8]) -> Result<(), Self::Error> {
        self.calls.push(Call::Write(frame.to_vec()));
        self.write_result
    }

    fn wait_ready(&mut self) -> Poll<Result<(), Self::Error>> {
        self.calls.push(Call::WaitReady);
        self.polls.pop_front().unwrap_or(Poll::Pending)
    }

    fn read(&mut self, buf: &mut [u8]) -> Result<(), Self::Error> {
        self.calls.push(Call::Read(buf.len()));
        match self.reads.pop_front() {
            Some(Ok(octets)) => {
                let n = octets.len().min(buf.len());
                buf[..n].copy_from_slice(&octets[..n]);
                Ok(())
            }
            Some(Err(e)) => Err(e),
            None => Err("nothing left to read"),
        }
    }
}

/// A timer that runs out after it was consulted a given number of times.
struct TickTimer {
    started_with: Vec<u32>,
    consulted: usize,
    expires_after: usize,
}

impl TickTimer {
    fn new(expires_after: usize) -> Self {
        TickTimer { started_with: Vec::new(), consulted: 0, expires_after }
    }
}

impl CountDown for TickTimer {
    type Time = u32;

    fn start<T>(&mut self, count: T)
    where
        T: Into<u32>,
    {
        self.started_with.push(count.into());
        self.consulted = 0;
    }

    fn wait(&mut self) -> Poll<()> {
        self.consulted += 1;
        if self.consulted > self.expires_after {
            Poll::Ready(())
        } else {
            Poll::Pending
        }
    }
}

fn driver(link: ScriptedLink, timer: TickTimer) -> Pn532<ScriptedLink, TickTimer, 32> {
    Pn532::new(link, timer)
}

#[test]
fn firmware_version_exchange() {
    let mut pn532 = driver(ScriptedLink::ready(&[&ACK, &FIRMWARE_RESPONSE]), TickTimer::new(3));
    let payload = pn532
        .process(&Request::get_firmware_version(), 4, 50)
        .map(|p| p.to_vec());
    assert_eq!(payload, Ok(vec![0x32, 0x01, 0x06, 0x07]));
    assert_eq!(
        pn532.interface.calls,
        vec![
            Call::Write(vec![0x00, 0x00, 0xFF, 0x02, 0xFE, 0xD4, 0x02, 0x2A, 0x00]),
            Call::WaitReady,
            Call::Read(6),
            Call::WaitReady,
            Call::Read(13),
        ]
    );
    assert_eq!(pn532.timer.started_with, vec![50]);
    assert_eq!(pn532.timer.consulted, 0);
}

#[test]
fn sam_configuration_frame() {
    let mut pn532 = driver(ScriptedLink::silent(), TickTimer::new(0));
    let request = Request::sam_configuration(SAMMode::Normal, true);
    assert_eq!(request, Request::new(Command::SAMConfiguration, [0x01, 0x00, 0x01]));
    assert_eq!(pn532.send(&request), Ok(()));
    assert_eq!(
        pn532.interface.calls,
        vec![Call::Write(vec![
            0x00, 0x00, 0xFF, 0x05, 0xFB, 0xD4, 0x14, 0x01, 0x00, 0x01, 0x16, 0x00
        ])]
    );
}

#[test]
fn inlist_passive_target_frame() {
    let mut pn532 = driver(ScriptedLink::silent(), TickTimer::new(0));
    let request = Request::inlist_one_iso_a_target();
    assert_eq!(request, Request::new(Command::InListPassiveTarget, [0x01, 0x00]));
    assert_eq!(pn532.send(&request), Ok(()));
    assert_eq!(
        pn532.interface.calls,
        vec![Call::Write(vec![
            0x00, 0x00, 0xFF, 0x04, 0xFC, 0xD4, 0x4A, 0x01, 0x00, 0xE1, 0x00
        ])]
    );
}

#[test]
fn error_frame_is_syntax_error() {
    let error_frame: [u8; 8] = [0x00, 0x00, 0xFF, 0x01, 0xFF, 0x7F, 0x81, 0x00];
    let mut pn532 = driver(ScriptedLink::ready(&[&ACK, &error_frame]), TickTimer::new(3));
    let result = pn532
        .process(&Request::get_firmware_version(), 4, 50)
        .map(|p| p.to_vec());
    assert_eq!(result, Err(Error::Syntax));
}

#[test]
fn error_frame_through_receive_response() {
    let error_frame: [u8; 8] = [0x00, 0x00, 0xFF, 0x01, 0xFF, 0x7F, 0x81, 0x00];
    let mut pn532 = driver(ScriptedLink::ready(&[&error_frame]), TickTimer::new(0));
    let result = pn532
        .receive_response(Command::GetFirmwareVersion, 0)
        .map(|p| p.to_vec());
    assert_eq!(result, Err(Error::Syntax));
    assert_eq!(pn532.interface.calls, vec![Call::Read(9)]);
}

#[test]
fn timeout_on_ack() {
    let mut pn532 = driver(ScriptedLink::silent(), TickTimer::new(5));
    let result = pn532
        .process(&Request::get_firmware_version(), 4, 50)
        .map(|p| p.to_vec());
    assert_eq!(result, Err(Error::TimeoutAck));
    assert_eq!(pn532.interface.count_reads(), 0);
    assert_eq!(pn532.interface.count_polls(), 6);
    assert_eq!(pn532.timer.consulted, 6);
}

#[test]
fn timeout_on_ack_without_response() {
    let mut pn532 = driver(ScriptedLink::silent(), TickTimer::new(0));
    let result = pn532.process_no_response(&Request::inlist_one_iso_a_target(), 5);
    assert_eq!(result, Err(Error::TimeoutAck));
    assert_eq!(pn532.interface.count_reads(), 0);
    assert_eq!(pn532.interface.count_polls(), 1);
    assert_eq!(pn532.timer.consulted, 1);
}

#[test]
fn timeout_on_response() {
    let mut link = ScriptedLink::ready(&[&ACK]);
    link.polls.push_back(Poll::Pending);
    link.polls.push_back(Poll::Pending);
    let mut pn532 = driver(link, TickTimer::new(1));
    let result = pn532
        .process(&Request::get_firmware_version(), 4, 50)
        .map(|p| p.to_vec());
    assert_eq!(result, Err(Error::TimeoutResponse));
    assert_eq!(
        pn532.interface.calls,
        vec![
            Call::Write(vec![0x00, 0x00, 0xFF, 0x02, 0xFE, 0xD4, 0x02, 0x2A, 0x00]),
            Call::WaitReady,
            Call::Read(6),
            Call::WaitReady,
            Call::WaitReady,
        ]
    );
    assert_eq!(pn532.timer.consulted, 2);
}

#[test]
fn timer_is_consulted_for_each_pending_poll() {
    let mut link = ScriptedLink::silent();
    for _ in 0..3 {
        link.polls.push_back(Poll::Pending);
    }
    link.polls.push_back(Poll::Ready(Ok(())));
    link.reads.push_back(Ok(ACK.to_vec()));
    for _ in 0..4 {
        link.polls.push_back(Poll::Pending);
    }
    link.polls.push_back(Poll::Ready(Ok(())));
    link.reads.push_back(Ok(FIRMWARE_RESPONSE.to_vec()));
    let mut pn532 = driver(link, TickTimer::new(100));
    let payload = pn532
        .process(&Request::get_firmware_version(), 4, 50)
        .map(|p| p.to_vec());
    assert_eq!(payload, Ok(vec![0x32, 0x01, 0x06, 0x07]));
    assert_eq!(pn532.timer.consulted, 7);
    assert_eq!(pn532.interface.count_polls(), 9);
    assert_eq!(pn532.interface.count_reads(), 2);
}

#[test]
fn bad_ack_is_reported() {
    let not_ack: [u8; 6] = [0x00, 0x00, 0xFF, 0xFF, 0x00, 0x00];
    let mut pn532 = driver(ScriptedLink::ready(&[&not_ack]), TickTimer::new(3));
    let result = pn532
        .process(&Request::get_firmware_version(), 4, 50)
        .map(|p| p.to_vec());
    assert_eq!(result, Err(Error::BadAck));
    assert_eq!(pn532.interface.count_reads(), 1);
}

#[test]
fn receive_ack_accepts_only_the_ack_frame() {
    let mut pn532 = driver(ScriptedLink::ready(&[&ACK]), TickTimer::new(0));
    assert_eq!(pn532.receive_ack(), Ok(()));
    for i in 0..6 {
        let mut octets = ACK;
        octets[i] ^= 0x01;
        let mut pn532 = driver(ScriptedLink::ready(&[&octets]), TickTimer::new(0));
        assert_eq!(pn532.receive_ack(), Err(Error::BadAck));
    }
}

#[test]
fn link_errors_are_handed_on() {
    let mut link = ScriptedLink::silent();
    link.write_result = Err("write failed");
    let mut pn532 = driver(link, TickTimer::new(3));
    let result = pn532
        .process(&Request::get_firmware_version(), 4, 50)
        .map(|p| p.to_vec());
    assert_eq!(result, Err(Error::InterfaceError("write failed")));
    assert_eq!(pn532.interface.count_polls(), 0);

    let mut link = ScriptedLink::silent();
    link.polls.push_back(Poll::Ready(Err("poll failed")));
    let mut pn532 = driver(link, TickTimer::new(3));
    let result = pn532.process_no_response(&Request::get_firmware_version(), 50);
    assert_eq!(result, Err(Error::InterfaceError("poll failed")));

    let mut link = ScriptedLink::silent();
    link.polls.push_back(Poll::Ready(Ok(())));
    link.reads.push_back(Err("read failed"));
    let mut pn532 = driver(link, TickTimer::new(3));
    assert_eq!(
        pn532.process_no_response(&Request::get_firmware_version(), 50),
        Err(Error::InterfaceError("read failed"))
    );

    let mut link = ScriptedLink::ready(&[&ACK]);
    link.polls.push_back(Poll::Ready(Ok(())));
    link.reads.push_back(Err("response failed"));
    let mut pn532 = driver(link, TickTimer::new(3));
    let result = pn532
        .process(&Request::get_firmware_version(), 4, 50)
        .map(|p| p.to_vec());
    assert_eq!(result, Err(Error::InterfaceError("response failed")));
}

#[test]
fn process_no_response_stops_after_the_ack() {
    let mut pn532 = driver(ScriptedLink::ready(&[&ACK]), TickTimer::new(3));
    assert_eq!(pn532.process_no_response(&Request::inlist_one_iso_a_target(), 5), Ok(()));
    assert_eq!(
        pn532.interface.calls,
        vec![
            Call::Write(vec![0x00, 0x00, 0xFF, 0x04, 0xFC, 0xD4, 0x4A, 0x01, 0x00, 0xE1, 0x00]),
            Call::WaitReady,
            Call::Read(6),
        ]
    );
}

#[test]
fn abort_writes_the_ack_frame() {
    let mut pn532 = driver(ScriptedLink::silent(), TickTimer::new(0));
    assert_eq!(pn532.abort(), Ok(()));
    assert_eq!(pn532.interface.calls, vec![Call::Write(ACK.to_vec())]);

    let mut link = ScriptedLink::silent();
    link.write_result = Err("write failed");
    let mut pn532 = driver(link, TickTimer::new(0));
    assert_eq!(pn532.abort(), Err(Error::InterfaceError("write failed")));
}

#[test]
fn response_longer_than_expected_is_too_small_a_buffer() {
    let mut pn532 = driver(ScriptedLink::ready(&[&FIRMWARE_RESPONSE]), TickTimer::new(0));
    let result = pn532
        .receive_response(Command::GetFirmwareVersion, 3)
        .map(|p| p.to_vec());
    assert_eq!(result, Err(Error::BufTooSmall));
    assert_eq!(pn532.interface.calls, vec![Call::Read(12)]);
}

#[test]
fn response_shorter_than_expected_is_accepted_with_its_own_length() {
    let mut pn532 = driver(ScriptedLink::ready(&[&FIRMWARE_RESPONSE]), TickTimer::new(0));
    let result = pn532
        .receive_response(Command::GetFirmwareVersion, 10)
        .map(|p| p.to_vec());
    assert_eq!(result, Ok(vec![0x32, 0x01, 0x06, 0x07]));
    assert_eq!(pn532.interface.calls, vec![Call::Read(19)]);
}

#[test]
fn response_to_another_command_is_a_bad_frame() {
    let mut pn532 = driver(ScriptedLink::ready(&[&FIRMWARE_RESPONSE]), TickTimer::new(0));
    let result = pn532
        .receive_response(Command::GetGeneralStatus, 4)
        .map(|p| p.to_vec());
    assert_eq!(result, Err(Error::BadResponseFrame));
}

#[test]
fn buffer_is_zeroed_before_each_response() {
    let short: [u8; 9] = [0x00, 0x00, 0xFF, 0x02, 0xFE, 0xD5, 0x03, 0x28, 0x00];
    let mut pn532 = driver(ScriptedLink::ready(&[&FIRMWARE_RESPONSE, &short]), TickTimer::new(0));
    let first = pn532
        .receive_response(Command::GetFirmwareVersion, 4)
        .map(|p| p.to_vec());
    assert_eq!(first, Ok(vec![0x32, 0x01, 0x06, 0x07]));
    let second = pn532
        .receive_response(Command::GetFirmwareVersion, 4)
        .map(|p| p.to_vec());
    assert_eq!(second, Ok(vec![]));
}

#[test]
fn driver_without_timer_sends_and_receives() {
    let mut pn532: Pn532<ScriptedLink, (), 32> =
        Pn532::new_async(ScriptedLink::ready(&[&ACK, &FIRMWARE_RESPONSE]));
    assert_eq!(pn532.send(&Request::get_firmware_version()), Ok(()));
    assert_eq!(pn532.interface.wait_ready(), Poll::Ready(Ok(())));
    assert_eq!(pn532.receive_ack(), Ok(()));
    assert_eq!(pn532.interface.wait_ready(), Poll::Ready(Ok(())));
    let payload = pn532
        .receive_response(Command::GetFirmwareVersion, 4)
        .map(|p| p.to_vec());
    assert_eq!(payload, Ok(vec![0x32, 0x01, 0x06, 0x07]));
}

#[test]
fn borrowed_link_is_a_link() {
    let mut link = ScriptedLink::ready(&[&ACK]);
    {
        let mut pn532: Pn532<&mut ScriptedLink, TickTimer, 32> =
            Pn532::new(&mut link, TickTimer::new(3));
        assert_eq!(pn532.process_no_response(&Request::select_tag_1(), 5), Ok(()));
    }
    assert_eq!(
        link.calls,
        vec![
            Call::Write(vec![0x00, 0x00, 0xFF, 0x03, 0xFD, 0xD4, 0x54, 0x01, 0xD7, 0x00]),
            Call::WaitReady,
            Call::Read(6),
        ]
    );
}

#[test]
fn buffer_that_just_fits_the_request_and_the_response() {
    // nine octets round a payload of four: a buffer of thirteen is enough
    let mut pn532: Pn532<ScriptedLink, TickTimer, 13> =
        Pn532::new(ScriptedLink::ready(&[&ACK, &FIRMWARE_RESPONSE]), TickTimer::new(3));
    let request = Request::new(Command::GetFirmwareVersion, [0x10, 0x20, 0x30, 0x40]);
    let payload = pn532.process(&request, 4, 50).map(|p| p.to_vec());
    assert_eq!(payload, Ok(vec![0x32, 0x01, 0x06, 0x07]));
    assert_eq!(
        pn532.interface.calls[0],
        Call::Write(vec![
            0x00, 0x00, 0xFF, 0x06, 0xFA, 0xD4, 0x02, 0x10, 0x20, 0x30, 0x40, 0x8A, 0x00
        ])
    );
    assert_eq!(pn532.interface.calls[4], Call::Read(13));
}

#[test]
fn empty_response_in_the_smallest_buffer() {
    let empty_response: [u8; 9] = [0x00, 0x00, 0xFF, 0x02, 0xFE, 0xD5, 0x15, 0x16, 0x00];
    let mut pn532: Pn532<ScriptedLink, TickTimer, 12> =
        Pn532::new(ScriptedLink::ready(&[&ACK, &empty_response]), TickTimer::new(3));
    let payload = pn532
        .process(&Request::sam_configuration(SAMMode::Normal, false), 0, 50)
        .map(|p| p.to_vec());
    assert_eq!(payload, Ok(vec![]));
    assert_eq!(pn532.interface.calls[4], Call::Read(9));
}

#[test]
fn each_exchange_starts_the_timer_anew() {
    let mut link = ScriptedLink::ready(&[&ACK]);
    link.polls.push_back(Poll::Pending);
    link.polls.push_back(Poll::Ready(Ok(())));
    link.reads.push_back(Ok(ACK.to_vec()));
    let mut pn532 = driver(link, TickTimer::new(1));
    assert_eq!(pn532.process_no_response(&Request::select_tag_1(), 5), Ok(()));
    assert_eq!(pn532.process_no_response(&Request::select_tag_2(), 7), Ok(()));
    assert_eq!(pn532.timer.started_with, vec![5, 7]);
    assert_eq!(pn532.timer.consulted, 1);
}

#[test]
fn a_link_wakes_up_without_ado_unless_it_says_otherwise() {
    let mut link = ScriptedLink::silent();
    assert_eq!(link.wake_up(), Ok(()));
    assert_eq!(link.calls, vec![]);
}

#[test]
fn failed_exchange_leaves_the_driver_ready_for_the_next() {
    let mut link = ScriptedLink::silent();
    link.polls.push_back(Poll::Pending);
    link.polls.push_back(Poll::Ready(Ok(())));
    link.reads.push_back(Ok(ACK.to_vec()));
    link.polls.push_back(Poll::Ready(Ok(())));
    link.reads.push_back(Ok(FIRMWARE_RESPONSE.to_vec()));
    let mut pn532 = driver(link, TickTimer::new(0));
    let first = pn532
        .process(&Request::get_firmware_version(), 4, 50)
        .map(|p| p.to_vec());
    assert_eq!(first, Err(Error::TimeoutAck));
    pn532.timer.expires_after = 10;
    let second = pn532
        .process(&Request::get_firmware_version(), 4, 50)
        .map(|p| p.to_vec());
    assert_eq!(second, Ok(vec![0x32, 0x01, 0x06, 0x07]));
}

#[test]
fn borrowed_link_hands_each_call_on() {
    let mut link = ScriptedLink::silent();
    link.polls.push_back(Poll::Ready(Err("not now")));
    link.polls.push_back(Poll::Ready(Ok(())));
    link.reads.push_back(Ok(vec![7, 8, 9]));
    link.reads.push_back(Err("read failed"));
    {
        let mut borrowed = &mut link;
        assert_eq!(Interface::write(&mut borrowed, &[1, 2, 3]), Ok(()));
        assert_eq!(Interface::wait_ready(&mut borrowed), Poll::Ready(Err("not now")));
        assert_eq!(Interface::wait_ready(&mut borrowed), Poll::Ready(Ok(())));
        assert_eq!(Interface::wait_ready(&mut borrowed), Poll::Pending);
        let mut buf = [0u8; 3];
        assert_eq!(Interface::read(&mut borrowed, &mut buf), Ok(()));
        assert_eq!(buf, [7, 8, 9]);
        assert_eq!(Interface::read(&mut borrowed, &mut buf), Err("read failed"));
        assert_eq!(buf, [7, 8, 9]);
        assert_eq!(Interface::wake_up(&mut borrowed), Ok(()));
    }
    assert_eq!(
        link.calls,
        vec![
            Call::Write(vec![1, 2, 3]),
            Call::WaitReady,
            Call::WaitReady,
            Call::WaitReady,
            Call::Read(3),
            Call::Read(3),
        ]
    );
    link.write_result = Err("write failed");
    let mut borrowed = &mut link;
    assert_eq!(Interface::write(&mut borrowed, &[4]), Err("write failed"));
}

/// A link that has to be woken, and counts how often it was.
struct SleepyLink {
    woken: usize,
}

impl Interface for SleepyLink {
    type Error = &'static str;

    fn write(&mut self, _frame: &[u8]) -> Result<(), Self::Error> {
        Ok(())
    }

    fn wait_ready(&mut self) -> Poll<Result<(), Self::Error>> {
        Poll::Pending
    }

    fn read(&mut self, _buf: &mut [u8]) -> Result<(), Self::Error> {
        Ok(())
    }

    fn wake_up(&mut self) -> Result<(), Self::Error> {
        self.woken += 1;
        if self.woken > 1 {
            Err("awake already")
        } else {
            Ok(())
        }
    }
}

#[test]
fn borrowed_link_wakes_the_link_that_is_borrowed() {
    let mut link = SleepyLink { woken: 0 };
    {
        let mut borrowed = &mut link;
        assert_eq!(Interface::wake_up(&mut borrowed), Ok(()));
        assert_eq!(Interface::wake_up(&mut borrowed), Err("awake already"));
    }
    assert_eq!(link.woken, 2);
}
