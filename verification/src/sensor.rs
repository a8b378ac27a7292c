//! The sensor client: one request/response exchange at a time.
//!
//! The client does no I/O. It is told what happened on the transport and
//! answers with what to do next: send the request, wait for a frame, or
//! finish with the reading or with the first failure. It never retries.

use crate::codec::Decoded;
use crate::command::Command;
use crate::frame::Outcome;
use vstd::prelude::*;

verus! {

/// Why an exchange failed.
#[derive(Debug, PartialEq, Eq)]
pub enum ExchangeError {
    /// The request could not be written.
    Write,
    /// Reading from the transport failed.
    Read,
    /// The transport closed before a complete frame arrived.
    EndOfStream,
    /// A complete frame arrived with an unexpected response code; the eight
    /// bytes that followed its sentinel.
    Protocol(Vec<u8>),
}

/// An `ExchangeError` as a mathematical value.
pub enum Fault {
    Write,
    Read,
    EndOfStream,
    Protocol(Seq<u8>),
}

impl View for ExchangeError {
    type V = Fault;

    open spec fn view(&self) -> Fault {
        match self {
            ExchangeError::Write => Fault::Write,
            ExchangeError::Read => Fault::Read,
            ExchangeError::EndOfStream => Fault::EndOfStream,
            ExchangeError::Protocol(window) => Fault::Protocol(window@),
        }
    }
}

/// What happened on the transport.
#[derive(Debug, PartialEq, Eq)]
pub enum Event {
    /// The request was written.
    Sent,
    /// Writing the request failed.
    SendFailed,
    /// The codec made an attempt on the bytes read so far.
    Decoded(Decoded),
    /// Reading failed.
    ReadFailed,
    /// The transport closed.
    Closed,
}

/// An `Event` as a mathematical value.
pub enum Signal {
    Sent,
    SendFailed,
    Decoded(Outcome),
    ReadFailed,
    Closed,
}

impl View for Event {
    type V = Signal;

    open spec fn view(&self) -> Signal {
        match self {
            Event::Sent => Signal::Sent,
            Event::SendFailed => Signal::SendFailed,
            Event::Decoded(decoded) => Signal::Decoded(decoded@),
            Event::ReadFailed => Signal::ReadFailed,
            Event::Closed => Signal::Closed,
        }
    }
}

/// What the client wants done next.
#[derive(Debug, PartialEq, Eq)]
pub enum Action {
    /// Write this command to the transport.
    Send(Command),
    /// Read until the codec has made its next attempt.
    Receive,
    /// The exchange is over, with this result.
    Finish(Result<u32, ExchangeError>),
}

/// An `Action` as a mathematical value.
pub enum Step {
    Send(Command),
    Receive,
    Finish(Result<u32, Fault>),
}

impl View for Action {
    type V = Step;

    open spec fn view(&self) -> Step {
        match self {
            Action::Send(command) => Step::Send(*command),
            Action::Receive => Step::Receive,
            Action::Finish(Ok(ppm)) => Step::Finish(Ok(*ppm)),
            Action::Finish(Err(error)) => Step::Finish(Err(error@)),
        }
    }
}

/// Where an exchange stands.
#[derive(Clone, Copy, Debug, PartialEq, Eq, Structural)]
pub enum Phase {
    /// No exchange is under way.
    Idle,
    /// The request is being written.
    Sending,
    /// The request is out and the response is awaited.
    Receiving,
}

/// The phase and the action that follow `signal` in `phase`. A signal that
/// the phase does not await changes nothing and asks for nothing.
pub open spec fn exchange_step(phase: Phase, signal: Signal) -> (Phase, Option<Step>) {
    match (phase, signal) {
        (Phase::Sending, Signal::Sent) => (Phase::Receiving, Some(Step::Receive)),
        (Phase::Sending, Signal::SendFailed) => (Phase::Idle, Some(Step::Finish(Err(Fault::Write)))),
        (Phase::Receiving, Signal::Decoded(Outcome::NeedMoreData)) => (
            Phase::Receiving,
            Some(Step::Receive),
        ),
        (Phase::Receiving, Signal::Decoded(Outcome::Frame(ppm))) => (
            Phase::Idle,
            Some(Step::Finish(Ok(ppm))),
        ),
        (Phase::Receiving, Signal::Decoded(Outcome::Malformed(window))) => (
            Phase::Idle,
            Some(Step::Finish(Err(Fault::Protocol(window)))),
        ),
        (Phase::Receiving, Signal::ReadFailed) => (
            Phase::Idle,
            Some(Step::Finish(Err(Fault::Read))),
        ),
        (Phase::Receiving, Signal::Closed) => (
            Phase::Idle,
            Some(Step::Finish(Err(Fault::EndOfStream))),
        ),
        _ => (phase, None),
    }
}

/// The protocol side of a sensor client.
#[derive(Debug)]
pub struct MHZ19 {
    phase: Phase,
}

impl View for MHZ19 {
    type V = Phase;

    closed spec fn view(&self) -> Phase {
        self.phase
    }
}

impl MHZ19 {
    /// Speed of the sensor's serial line, in bits per second.
    pub const BAUD_RATE: u32 = 9600;

    /// Longest wait of a single read on the serial line, in milliseconds.
    pub const TIMEOUT_MILLIS: u64 = 100;

    /// A client with no exchange under way.
    pub fn new() -> (client: MHZ19)
        ensures
            client@ == Phase::Idle,
    {
        MHZ19 { phase: Phase::Idle }
    }

    /// Where the exchange stands.
    pub fn phase(&self) -> (phase: Phase)
        ensures
            phase == self@,
    {
        self.phase
    }

    /// Starts an exchange: the request is to be sent. An exchange that was
    /// under way is given up.
    pub fn begin(&mut self) -> (action: Action)
        ensures
            final(self)@ == Phase::Sending,
            action@ == Step::Send(Command::Read),
    {
        self.phase = Phase::Sending;
        Action::Send(Command::Read)
    }

    /// Takes in what happened on the transport and says what to do next;
    /// `None` when the event is not one that the exchange was waiting for.
    pub fn step(&mut self, event: Event) -> (action: Option<Action>)
        ensures
            final(self)@ == exchange_step(old(self)@, event@).0,
            match action {
                Some(action) => exchange_step(old(self)@, event@).1 == Some(action@),
                None => exchange_step(old(self)@, event@).1 is None,
            },
    {
        match self.phase {
            Phase::Idle => None,
            Phase::Sending => match event {
                Event::Sent => {
                    self.phase = Phase::Receiving;
                    Some(Action::Receive)
                },
                Event::SendFailed => {
                    self.phase = Phase::Idle;
                    Some(Action::Finish(Err(ExchangeError::Write)))
                },
                _ => None,
            },
            Phase::Receiving => match event {
                Event::Decoded(Decoded::NeedMoreData) => Some(Action::Receive),
                Event::Decoded(Decoded::Frame(ppm)) => {
                    self.phase = Phase::Idle;
                    Some(Action::Finish(Ok(ppm)))
                },
                Event::Decoded(Decoded::Malformed(window)) => {
                    self.phase = Phase::Idle;
                    Some(Action::Finish(Err(ExchangeError::Protocol(window))))
                },
                Event::ReadFailed => {
                    self.phase = Phase::Idle;
                    Some(Action::Finish(Err(ExchangeError::Read)))
                },
                Event::Closed => {
                    self.phase = Phase::Idle;
                    Some(Action::Finish(Err(ExchangeError::EndOfStream)))
                },
                _ => None,
            },
        }
    }
}

/// An exchange sends its request once: whatever happens on the transport,
/// the client never asks for the request to be sent again.
pub proof fn lemma_no_retry(phase: Phase, signal: Signal)
    ensures
        !(exchange_step(phase, signal).1 matches Some(Step::Send(_))),
{
}

/// The first failure ends the exchange: a failed write, a failed read, a
/// closed transport and a malformed frame are each handed on at once, and
/// leave no exchange under way.
pub proof fn lemma_first_failure_surfaces(window: Seq<u8>)
    ensures
        exchange_step(Phase::Sending, Signal::SendFailed) == (
            Phase::Idle,
            Some(Step::Finish(Err(Fault::Write))),
        ),
        exchange_step(Phase::Receiving, Signal::ReadFailed) == (
            Phase::Idle,
            Some(Step::Finish(Err(Fault::Read))),
        ),
        exchange_step(Phase::Receiving, Signal::Closed) == (
            Phase::Idle,
            Some(Step::Finish(Err(Fault::EndOfStream))),
        ),
        exchange_step(Phase::Receiving, Signal::Decoded(Outcome::Malformed(window))) == (
            Phase::Idle,
            Some(Step::Finish(Err(Fault::Protocol(window)))),
        ),
{
}

} // verus!
