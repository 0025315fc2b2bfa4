//! The user-facing client state machine.
//!
//! The client serializes and writes commands, drives the selected waiting
//! policy, consumes classified responses and URCs from the channels filled
//! by the ingress manager, and enforces the inter-command cooldown. At most
//! one command is outstanding at a time; the client never writes a new
//! command's bytes while a reply is still awaited.
//!
//! Within one execution context a poll of an empty response channel can
//! never make progress, so a send under the blocking policies hands
//! "not yet ready" back to the caller's event loop, which pumps the ingress
//! side and polls `check_response` again; the timeout policy turns countdown
//! expiry into a terminal error on such a poll.

use vstd::prelude::*;

use crate::Command;
use crate::error::Error;
use crate::error::InternalError;
use crate::error::InternalErrorView;
use crate::error::NbError;
use crate::ingress::IngressItem;
use crate::queues::BoundedQueue;
use crate::traits::AtatCmd;
use crate::traits::AtatUrc;
use crate::traits::Timer;
use crate::traits::Transport;

verus! {

/// The response channel's element count.
pub const RES_CAPACITY: usize = 5;

/// The URC channel's element count.
pub const URC_CAPACITY: usize = 10;

/// The control channel's element count.
pub const COM_CAPACITY: usize = 3;

/// Whether the client should block while waiting for responses or return
/// early.
#[derive(Clone, Copy, Debug, Hash, PartialEq, Eq, Structural)]
pub enum Mode {
    /// Wait as long as necessary to complete the operation.
    Blocking,
    /// Never wait: do what can be done at once and report "not yet ready"
    /// otherwise.
    NonBlocking,
    /// Wait at most the command's declared maximum timeout.
    Timeout,
}

/// Whether a command is outstanding.
#[derive(Clone, Copy, Debug, PartialEq, Eq, Structural)]
pub enum ClientState {
    /// No outstanding command.
    Idle,
    /// A command has been written and no terminal reply has been classified
    /// yet.
    AwaitingResponse,
}

/// The client's immutable configuration: the waiting policy and the
/// inter-command cooldown in milliseconds.
#[derive(Clone, Copy, Debug, PartialEq, Eq, Structural)]
pub struct Config {
    pub mode: Mode,
    pub cmd_cooldown: u32,
}

impl Config {
    pub fn new(mode: Mode) -> (c: Config)
        ensures
            c.mode == mode,
            c.cmd_cooldown == 20,
    {
        Config { mode, cmd_cooldown: 20 }
    }
}

/// The mathematical value of a response-channel entry.
pub open spec fn slot_view(slot: Result<Vec<u8>, InternalError>) -> Result<
    Seq<u8>,
    InternalErrorView,
> {
    match slot {
        Ok(v) => Ok(v@),
        Err(e) => Err(e@),
    }
}

/// `q` with `c` appended when there is room: the best-effort enqueue of the
/// control channel, whose capacity failures are tolerated, never surfaced.
pub open spec fn push_if_room(q: Seq<Command>, cap: nat, c: Command) -> Seq<Command> {
    if q.len() < cap {
        q.push(c)
    } else {
        q
    }
}

/// Whether an executable outcome agrees with a specified parse outcome: a
/// success carrying the specified response value, or the specified error
/// wrapped as a terminal error.
pub open spec fn reflects<A: AtatCmd>(
    r: Result<A::Response, NbError<A::CmdError>>,
    p: Result<<A::Response as View>::V, Error<A::CmdError>>,
) -> bool {
    match (r, p) {
        (Ok(v), Ok(w)) => v@ == w,
        (Err(NbError::Other(e1)), Err(e2)) => e1 == e2,
        _ => false,
    }
}

/// The client: owns the transport's write half, the countdown, and the
/// client-side ends of the three channels. The ingress side reaches its
/// ends of the channels through [`Client::enqueue_response`],
/// [`Client::enqueue_urc`] and [`Client::dequeue_command`]; each channel
/// keeps exactly one producer and one consumer.
pub struct Client<Tx: Transport, Ti: Timer> {
    tx: Tx,
    timer: Ti,
    res_q: BoundedQueue<Result<Vec<u8>, InternalError>>,
    urc_q: BoundedQueue<Vec<u8>>,
    com_q: BoundedQueue<Command>,
    state: ClientState,
    config: Config,
}

impl<Tx: Transport, Ti: Timer> Client<Tx, Ti> {
    /// Whether a command is outstanding.
    pub closed spec fn spec_state(&self) -> ClientState {
        self.state
    }

    /// Everything written to the transport so far.
    pub closed spec fn spec_written(&self) -> Seq<u8> {
        self.tx.written()
    }

    /// How many transport flushes have been performed so far.
    pub closed spec fn spec_flushes(&self) -> nat {
        self.tx.flushed()
    }

    /// The transport value itself.
    pub closed spec fn spec_transport(&self) -> Tx {
        self.tx
    }

    /// The pending entries of the response channel, oldest first.
    pub closed spec fn spec_responses(&self) -> Seq<Result<Vec<u8>, InternalError>> {
        self.res_q@
    }

    /// The pending entries of the URC channel, oldest first.
    pub closed spec fn spec_urcs(&self) -> Seq<Vec<u8>> {
        self.urc_q@
    }

    /// The pending entries of the control channel, oldest first.
    pub closed spec fn spec_controls(&self) -> Seq<Command> {
        self.com_q@
    }

    pub closed spec fn spec_response_capacity(&self) -> nat {
        self.res_q.spec_capacity()
    }

    pub closed spec fn spec_urc_capacity(&self) -> nat {
        self.urc_q.spec_capacity()
    }

    pub closed spec fn spec_control_capacity(&self) -> nat {
        self.com_q.spec_capacity()
    }

    pub closed spec fn spec_mode(&self) -> Mode {
        self.config.mode
    }

    pub closed spec fn spec_cooldown(&self) -> u32 {
        self.config.cmd_cooldown
    }

    /// Everything `send` and `check_response` leave untouched.
    pub open spec fn frame(&self, other: &Self) -> bool {
        &&& self.spec_mode() == other.spec_mode()
        &&& self.spec_cooldown() == other.spec_cooldown()
        &&& self.spec_urcs() == other.spec_urcs()
        &&& self.spec_response_capacity() == other.spec_response_capacity()
        &&& self.spec_urc_capacity() == other.spec_urc_capacity()
        &&& self.spec_control_capacity() == other.spec_control_capacity()
    }

    pub fn new(tx: Tx, timer: Ti, config: Config) -> (c: Self)
        ensures
            c.spec_state() == ClientState::Idle,
            c.spec_written() == tx.written(),
            c.spec_responses() == Seq::<Result<Vec<u8>, InternalError>>::empty(),
            c.spec_urcs() == Seq::<Vec<u8>>::empty(),
            c.spec_controls() == Seq::<Command>::empty(),
            c.spec_response_capacity() == RES_CAPACITY as nat,
            c.spec_urc_capacity() == URC_CAPACITY as nat,
            c.spec_control_capacity() == COM_CAPACITY as nat,
            c.spec_mode() == config.mode,
            c.spec_cooldown() == config.cmd_cooldown,
    {
        Client {
            tx,
            timer,
            res_q: BoundedQueue::new(RES_CAPACITY),
            urc_q: BoundedQueue::new(URC_CAPACITY),
            com_q: BoundedQueue::new(COM_CAPACITY),
            state: ClientState::Idle,
            config,
        }
    }

    /// The configured waiting policy.
    pub fn get_mode(&self) -> (m: Mode)
        ensures
            m == self.spec_mode(),
    {
        self.config.mode
    }

    /// Whether a command is outstanding.
    pub fn state(&self) -> (s: ClientState)
        ensures
            s == self.spec_state(),
    {
        self.state
    }

    /// The transport, for inspection.
    pub fn transport(&self) -> (t: &Tx)
        ensures
            *t == self.spec_transport(),
            t.written() == self.spec_written(),
    {
        &self.tx
    }

    /// Ingress-side producer end of the response channel: hands over one
    /// classified response entry, or returns it when the channel is full.
    pub fn enqueue_response(&mut self, slot: Result<Vec<u8>, InternalError>) -> (r: Result<
        (),
        Result<Vec<u8>, InternalError>,
    >)
        ensures
            final(self).frame(&*old(self)),
            final(self).spec_state() == old(self).spec_state(),
            final(self).spec_written() == old(self).spec_written(),
            final(self).spec_controls() == old(self).spec_controls(),
            old(self).spec_responses().len() < old(self).spec_response_capacity() ==> r is Ok
                && final(self).spec_responses() == old(self).spec_responses().push(slot),
            old(self).spec_responses().len() >= old(self).spec_response_capacity() ==> r == Err::<
                (),
                Result<Vec<u8>, InternalError>,
            >(slot) && final(self).spec_responses() == old(self).spec_responses(),
    {
        self.res_q.enqueue(slot)
    }

    /// Ingress-side producer end of the URC channel.
    pub fn enqueue_urc(&mut self, urc: Vec<u8>) -> (r: Result<(), Vec<u8>>)
        ensures
            final(self).spec_state() == old(self).spec_state(),
            final(self).spec_written() == old(self).spec_written(),
            final(self).spec_controls() == old(self).spec_controls(),
            final(self).spec_responses() == old(self).spec_responses(),
            final(self).spec_mode() == old(self).spec_mode(),
            final(self).spec_cooldown() == old(self).spec_cooldown(),
            final(self).spec_response_capacity() == old(self).spec_response_capacity(),
            final(self).spec_urc_capacity() == old(self).spec_urc_capacity(),
            final(self).spec_control_capacity() == old(self).spec_control_capacity(),
            old(self).spec_urcs().len() < old(self).spec_urc_capacity() ==> r is Ok
                && final(self).spec_urcs() == old(self).spec_urcs().push(urc),
            old(self).spec_urcs().len() >= old(self).spec_urc_capacity() ==> r == Err::<
                (),
                Vec<u8>,
            >(urc) && final(self).spec_urcs() == old(self).spec_urcs(),
    {
        self.urc_q.enqueue(urc)
    }

    /// Ingress-side consumer end of the control channel.
    pub fn dequeue_command(&mut self) -> (r: Option<Command>)
        ensures
            final(self).frame(&*old(self)),
            final(self).spec_state() == old(self).spec_state(),
            final(self).spec_written() == old(self).spec_written(),
            final(self).spec_responses() == old(self).spec_responses(),
            old(self).spec_controls().len() == 0 ==> r is None && final(self).spec_controls()
                == old(self).spec_controls(),
            old(self).spec_controls().len() > 0 ==> r == Some(old(self).spec_controls()[0])
                && final(self).spec_controls() == old(self).spec_controls().drop_first(),
    {
        self.com_q.dequeue()
    }

    /// Ingress-side dispatch of one classified entry into its channel,
    /// with the ingress back-pressure policy: an entry that finds its
    /// channel full is dropped — the receive path must never block waiting
    /// for the client to catch up.
    pub fn ingest(&mut self, item: IngressItem) -> (accepted: bool)
        ensures
            final(self).spec_state() == old(self).spec_state(),
            final(self).spec_written() == old(self).spec_written(),
            final(self).spec_controls() == old(self).spec_controls(),
            final(self).spec_mode() == old(self).spec_mode(),
            final(self).spec_cooldown() == old(self).spec_cooldown(),
            final(self).spec_response_capacity() == old(self).spec_response_capacity(),
            final(self).spec_urc_capacity() == old(self).spec_urc_capacity(),
            final(self).spec_control_capacity() == old(self).spec_control_capacity(),
            ({
                match item {
                    IngressItem::Response(slot) => final(self).spec_urcs() == old(self).spec_urcs()
                        && (if old(self).spec_responses().len() < old(
                        self,
                    ).spec_response_capacity() {
                        accepted && final(self).spec_responses() == old(
                            self,
                        ).spec_responses().push(slot)
                    } else {
                        !accepted && final(self).spec_responses() == old(self).spec_responses()
                    }),
                    IngressItem::Urc(v) => final(self).spec_responses() == old(
                        self,
                    ).spec_responses() && (if old(self).spec_urcs().len() < old(
                        self,
                    ).spec_urc_capacity() {
                        accepted && final(self).spec_urcs() == old(self).spec_urcs().push(v)
                    } else {
                        !accepted && final(self).spec_urcs() == old(self).spec_urcs()
                    }),
                }
            }),
    {
        match item {
            IngressItem::Response(slot) => match self.res_q.enqueue(slot) {
                Ok(_) => true,
                Err(_) => false,
            },
            IngressItem::Urc(v) => match self.urc_q.enqueue(v) {
                Ok(_) => true,
                Err(_) => false,
            },
        }
    }

    /// Polls the response channel once and correlates the oldest entry, if
    /// any, with `cmd`.
    ///
    /// A terminal reply (parse success while a command is outstanding, or
    /// any parse/device error) arms the cooldown and returns the client to
    /// idle. A parse success while no command is outstanding indicates a
    /// protocol desynchronization: the entry is discarded and "not yet
    /// ready" returned rather than a false success. On an empty channel
    /// under the timeout policy, countdown expiry becomes a terminal
    /// timeout error and a best-effort reset signal to the ingress manager.
    pub fn check_response<A: AtatCmd>(&mut self, cmd: &A) -> (r: Result<
        A::Response,
        NbError<A::CmdError>,
    >)
        ensures
            final(self).frame(&*old(self)),
            final(self).spec_written() == old(self).spec_written(),
            final(self).spec_flushes() == old(self).spec_flushes(),
            ({
                if old(self).spec_responses().len() > 0 {
                    &&& final(self).spec_responses() == old(self).spec_responses().drop_first()
                    &&& final(self).spec_controls() == old(self).spec_controls()
                    &&& ({
                        let p = cmd.spec_parse(slot_view(old(self).spec_responses()[0]));
                        match p {
                            Ok(w) => {
                                if old(self).spec_state() == ClientState::AwaitingResponse {
                                    final(self).spec_state() == ClientState::Idle
                                        && reflects::<A>(r, p)
                                } else {
                                    r == Err::<A::Response, NbError<A::CmdError>>(
                                        NbError::WouldBlock,
                                    ) && final(self).spec_state() == old(self).spec_state()
                                }
                            },
                            Err(e) => final(self).spec_state() == ClientState::Idle
                                && reflects::<A>(r, p),
                        }
                    })
                } else {
                    &&& final(self).spec_responses() == old(self).spec_responses()
                    &&& {
                        ||| (r == Err::<A::Response, NbError<A::CmdError>>(NbError::WouldBlock)
                            && final(self).spec_state() == old(self).spec_state()
                            && final(self).spec_controls() == old(self).spec_controls())
                        ||| (old(self).spec_mode() == Mode::Timeout && r == Err::<
                            A::Response,
                            NbError<A::CmdError>,
                        >(NbError::Other(Error::Timeout)) && final(self).spec_state()
                            == ClientState::Idle && final(self).spec_controls() == push_if_room(
                            old(self).spec_controls(),
                            old(self).spec_control_capacity(),
                            Command::Reset,
                        ))
                    }
                }
            }),
    {
        match self.res_q.dequeue() {
            Some(slot) => {
                let pr = match &slot {
                    Ok(v) => cmd.parse(Ok(v.as_slice())),
                    Err(e) => cmd.parse(Err(e)),
                };
                match pr {
                    Ok(resp) => {
                        if self.state == ClientState::AwaitingResponse {
                            self.timer.start(self.config.cmd_cooldown);
                            self.state = ClientState::Idle;
                            Ok(resp)
                        } else {
                            Err(NbError::WouldBlock)
                        }
                    },
                    Err(e) => {
                        self.timer.start(self.config.cmd_cooldown);
                        self.state = ClientState::Idle;
                        Err(NbError::Other(e))
                    },
                }
            },
            None => {
                if self.config.mode == Mode::Timeout {
                    if self.timer.expired() {
                        self.state = ClientState::Idle;
                        let _ = self.com_q.enqueue(Command::Reset);
                        return Err(NbError::Other(Error::Timeout));
                    }
                }
                Err(NbError::WouldBlock)
            },
        }
    }

    /// Serializes `cmd`, writes it to the transport, and drives the
    /// configured waiting policy.
    ///
    /// When idle: optionally signals the ingress manager to enter the
    /// receiving state (best effort), waits out the inter-command cooldown,
    /// writes the full encoded byte sequence followed by a flush — exactly
    /// one such write sequence per send, and none when a command is already
    /// outstanding — and transitions to awaiting. A write or flush failure
    /// surfaces as a write error with the state left idle. A command that
    /// expects no reply completes at once against the empty payload. All
    /// other commands are correlated with the oldest response entry; with
    /// none pending the outcome is "not yet ready", or a terminal timeout
    /// under the timeout policy once the armed countdown has expired.
    pub fn send<A: AtatCmd>(&mut self, cmd: &A) -> (r: Result<A::Response, NbError<A::CmdError>>)
        ensures
            final(self).frame(&*old(self)),
            ({
                let cs0 = if old(self).spec_state() == ClientState::Idle
                    && cmd.spec_force_receive() {
                    push_if_room(
                        old(self).spec_controls(),
                        old(self).spec_control_capacity(),
                        Command::ForceReceiveState,
                    )
                } else {
                    old(self).spec_controls()
                };
                ||| {
                    &&& old(self).spec_state() == ClientState::Idle
                    &&& r == Err::<A::Response, NbError<A::CmdError>>(NbError::Other(Error::Write))
                    &&& final(self).spec_state() == ClientState::Idle
                    &&& final(self).spec_responses() == old(self).spec_responses()
                    &&& final(self).spec_controls() == cs0
                    &&& old(self).spec_flushes() <= final(self).spec_flushes() <= old(
                        self,
                    ).spec_flushes() + 1
                    &&& exists|i: int|
                        0 <= i <= cmd.encoded().len() && final(self).spec_written() == old(
                            self,
                        ).spec_written() + cmd.encoded().subrange(0, i)
                }
                ||| {
                    &&& (if old(self).spec_state() == ClientState::Idle {
                        final(self).spec_written() == old(self).spec_written() + cmd.encoded()
                            && final(self).spec_flushes() == old(self).spec_flushes() + 1
                    } else {
                        final(self).spec_written() == old(self).spec_written()
                            && final(self).spec_flushes() == old(self).spec_flushes()
                    })
                    &&& (if !cmd.spec_expects_response() {
                        &&& final(self).spec_state() == ClientState::Idle
                        &&& final(self).spec_responses() == old(self).spec_responses()
                        &&& final(self).spec_controls() == cs0
                        &&& reflects::<A>(r, cmd.spec_parse(Ok(Seq::empty())))
                    } else if old(self).spec_responses().len() > 0 {
                        &&& final(self).spec_state() == ClientState::Idle
                        &&& final(self).spec_responses() == old(
                            self,
                        ).spec_responses().drop_first()
                        &&& final(self).spec_controls() == cs0
                        &&& reflects::<A>(
                            r,
                            cmd.spec_parse(slot_view(old(self).spec_responses()[0])),
                        )
                    } else {
                        &&& final(self).spec_responses() == old(self).spec_responses()
                        &&& {
                            ||| (r == Err::<A::Response, NbError<A::CmdError>>(NbError::WouldBlock)
                                && final(self).spec_state() == ClientState::AwaitingResponse
                                && final(self).spec_controls() == cs0)
                            ||| (old(self).spec_mode() == Mode::Timeout && r == Err::<
                                A::Response,
                                NbError<A::CmdError>,
                            >(NbError::Other(Error::Timeout)) && final(self).spec_state()
                                == ClientState::Idle && final(self).spec_controls()
                                == push_if_room(
                                cs0,
                                old(self).spec_control_capacity(),
                                Command::Reset,
                            ))
                        }
                    })
                }
            }),
    {
        if self.state == ClientState::Idle {
            if cmd.force_receive() {
                let _ = self.com_q.enqueue(Command::ForceReceiveState);
            }
            // Let the inter-command cooldown elapse before a new write.
            self.timer.wait();
            let buf = cmd.as_bytes();
            match self.tx.write_all(buf.as_slice()) {
                Ok(_) => {},
                Err(_) => {
                    return Err(NbError::Other(Error::Write));
                },
            }
            match self.tx.flush() {
                Ok(_) => {},
                Err(_) => {
                    proof {
                        let e = cmd.encoded();
                        assert(e.subrange(0, e.len() as int) =~= e);
                    }
                    return Err(NbError::Other(Error::Write));
                },
            }
            self.state = ClientState::AwaitingResponse;
        }
        if !cmd.expects_response() {
            self.state = ClientState::Idle;
            let empty: Vec<u8> = Vec::new();
            return match cmd.parse(Ok(empty.as_slice())) {
                Ok(resp) => Ok(resp),
                Err(e) => Err(NbError::Other(e)),
            };
        }
        if self.config.mode == Mode::Timeout {
            self.timer.start(cmd.max_timeout_ms());
        }
        self.check_response(cmd)
    }

    /// Peeks the oldest pending URC, parses it against `URC`, and hands the
    /// typed payload to `f`; the entry is removed only when `f` accepts it,
    /// so a caller multiplexing several URC kinds can defer consumption. A
    /// URC that fails to parse is dropped. Any pending entry re-arms the
    /// cooldown.
    pub fn peek_urc_with<URC: AtatUrc, F: FnOnce(URC::Response) -> bool>(&mut self, f: F)
        requires
            forall|u: URC::Response| #[trigger] call_requires(f, (u,)),
        ensures
            final(self).spec_state() == old(self).spec_state(),
            final(self).spec_written() == old(self).spec_written(),
            final(self).spec_responses() == old(self).spec_responses(),
            final(self).spec_controls() == old(self).spec_controls(),
            final(self).spec_mode() == old(self).spec_mode(),
            final(self).spec_cooldown() == old(self).spec_cooldown(),
            final(self).spec_response_capacity() == old(self).spec_response_capacity(),
            final(self).spec_urc_capacity() == old(self).spec_urc_capacity(),
            final(self).spec_control_capacity() == old(self).spec_control_capacity(),
            old(self).spec_urcs().len() == 0 ==> final(self).spec_urcs() == old(self).spec_urcs(),
            old(self).spec_urcs().len() > 0 ==> ({
                match URC::spec_parse(old(self).spec_urcs()[0]@) {
                    Some(u) => exists|accepted: bool|
                        #[trigger] call_ensures(f, (u,), accepted) && final(self).spec_urcs() == (
                        if accepted {
                            old(self).spec_urcs().drop_first()
                        } else {
                            old(self).spec_urcs()
                        }),
                    None => final(self).spec_urcs() == old(self).spec_urcs().drop_first(),
                }
            }),
    {
        let parsed: Option<Option<URC::Response>> = match self.urc_q.peek() {
            Some(v) => Some(URC::parse(v.as_slice())),
            None => None,
        };
        match parsed {
            None => {},
            Some(opt) => {
                self.timer.start(self.config.cmd_cooldown);
                match opt {
                    Some(u) => {
                        if f(u) {
                            let _ = self.urc_q.dequeue();
                        }
                    },
                    None => {
                        // A malformed URC is dropped, not retried.
                        let _ = self.urc_q.dequeue();
                    },
                }
            },
        }
    }

    /// Removes and parses the oldest pending URC. Any pending entry re-arms
    /// the cooldown; a malformed one is dropped and reported as nothing.
    pub fn check_urc<URC: AtatUrc>(&mut self) -> (r: Option<URC::Response>)
        ensures
            final(self).spec_state() == old(self).spec_state(),
            final(self).spec_written() == old(self).spec_written(),
            final(self).spec_responses() == old(self).spec_responses(),
            final(self).spec_controls() == old(self).spec_controls(),
            final(self).spec_mode() == old(self).spec_mode(),
            final(self).spec_cooldown() == old(self).spec_cooldown(),
            final(self).spec_response_capacity() == old(self).spec_response_capacity(),
            final(self).spec_urc_capacity() == old(self).spec_urc_capacity(),
            final(self).spec_control_capacity() == old(self).spec_control_capacity(),
            old(self).spec_urcs().len() == 0 ==> r is None && final(self).spec_urcs() == old(
                self,
            ).spec_urcs(),
            old(self).spec_urcs().len() > 0 ==> r == URC::spec_parse(old(self).spec_urcs()[0]@)
                && final(self).spec_urcs() == old(self).spec_urcs().drop_first(),
    {
        match self.urc_q.dequeue() {
            Some(v) => {
                self.timer.start(self.config.cmd_cooldown);
                URC::parse(v.as_slice())
            },
            None => None,
        }
    }

    /// Resynchronizes after a link-level fault: sends a best-effort reset
    /// signal to the ingress manager, forces the local state to idle, and
    /// drains both inbound channels completely.
    pub fn reset(&mut self)
        ensures
            final(self).spec_state() == ClientState::Idle,
            final(self).spec_written() == old(self).spec_written(),
            final(self).spec_responses() == Seq::<Result<Vec<u8>, InternalError>>::empty(),
            final(self).spec_urcs() == Seq::<Vec<u8>>::empty(),
            final(self).spec_controls() == push_if_room(
                old(self).spec_controls(),
                old(self).spec_control_capacity(),
                Command::Reset,
            ),
            final(self).spec_mode() == old(self).spec_mode(),
            final(self).spec_cooldown() == old(self).spec_cooldown(),
            final(self).spec_response_capacity() == old(self).spec_response_capacity(),
            final(self).spec_urc_capacity() == old(self).spec_urc_capacity(),
            final(self).spec_control_capacity() == old(self).spec_control_capacity(),
    {
        let _ = self.com_q.enqueue(Command::Reset);
        self.state = ClientState::Idle;
        let ghost snap = *self;
        while !self.res_q.is_empty()
            invariant
                self.tx == snap.tx,
                self.timer == snap.timer,
                self.urc_q == snap.urc_q,
                self.com_q == snap.com_q,
                self.state == snap.state,
                self.config == snap.config,
                self.res_q.spec_capacity() == snap.res_q.spec_capacity(),
            decreases self.res_q@.len(),
        {
            let _ = self.res_q.dequeue();
        }
        let ghost snap2 = *self;
        while !self.urc_q.is_empty()
            invariant
                self.tx == snap2.tx,
                self.timer == snap2.timer,
                self.res_q == snap2.res_q,
                self.com_q == snap2.com_q,
                self.state == snap2.state,
                self.config == snap2.config,
                self.urc_q.spec_capacity() == snap2.urc_q.spec_capacity(),
            decreases self.urc_q@.len(),
        {
            let _ = self.urc_q.dequeue();
        }
    }
}

} // verus!

