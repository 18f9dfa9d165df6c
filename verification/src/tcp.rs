//! TCP sockets.
use core::task::Waker;
use vstd::prelude::*;

use crate::net::SocketAddr;
use crate::ring_buffer::{RingBuffer, RingView};
use crate::set::{ChannelId, PeerHandle};
use crate::time::{Duration, Instant};
use crate::waker::WakerRegistration;
use crate::Error;

verus! {

/// A TCP socket ring buffer.
pub type SocketBuffer<'a> = RingBuffer<'a, u8>;

/// The state of a connection, in terms of the TCP state machine.
#[derive(Debug, Clone, Copy, PartialEq, Eq, Structural)]
pub enum State {
    Closed,
    Listen,
    SynSent,
    SynReceived,
    Established,
    FinWait1,
    CloseWait,
    Closing,
    LastAck,
    TimeWait,
}

impl State {
    /// The name of this state in the TCP state machine.
    pub open spec fn label(self) -> Seq<char> {
        match self {
            State::Closed => "CLOSED"@,
            State::Listen => "LISTEN"@,
            State::SynSent => "SYN-SENT"@,
            State::SynReceived => "SYN-RECEIVED"@,
            State::Established => "ESTABLISHED"@,
            State::FinWait1 => "FIN-WAIT-1"@,
            State::CloseWait => "CLOSE-WAIT"@,
            State::Closing => "CLOSING"@,
            State::LastAck => "LAST-ACK"@,
            State::TimeWait => "TIME-WAIT"@,
        }
    }

    /// Return the name of this state in the TCP state machine.
    pub fn name(&self) -> (name: &'static str)
        ensures
            name@ == self.label(),
    {
        match self {
            State::Closed => "CLOSED",
            State::Listen => "LISTEN",
            State::SynSent => "SYN-SENT",
            State::SynReceived => "SYN-RECEIVED",
            State::Established => "ESTABLISHED",
            State::FinWait1 => "FIN-WAIT-1",
            State::CloseWait => "CLOSE-WAIT",
            State::Closing => "CLOSING",
            State::LastAck => "LAST-ACK",
            State::TimeWait => "TIME-WAIT",
        }
    }
}

/// The time after which an attempt to connect is given up, in seconds.
pub const RETRY_DELAY_SECS: u64 = 5;

/// The time for which a closed connection lingers, in seconds.
pub const CLOSE_DELAY_SECS: u64 = 10;

/// What a socket waits for, and until when.
#[derive(Debug, Clone, Copy, PartialEq)]
pub enum Timer {
    Retry { expires_at: Instant },
    Close { expires_at: Instant },
}

impl Timer {
    /// The retry timer that is started at `now`.
    pub open spec fn retry_from(now: Instant) -> Timer {
        Timer::Retry { expires_at: now.plus(Duration::of_secs(RETRY_DELAY_SECS)) }
    }

    /// The close timer that is started at `now`.
    pub open spec fn close_from(now: Instant) -> Timer {
        Timer::Close { expires_at: now.plus(Duration::of_secs(CLOSE_DELAY_SECS)) }
    }

    /// Whether this is a retry timer that has expired at `now`.
    pub open spec fn retry_due(self, now: Instant) -> bool {
        self matches Timer::Retry { expires_at } && now.ticks >= expires_at.ticks
    }

    /// Whether this is a close timer that has expired at `now`.
    pub open spec fn close_due(self, now: Instant) -> bool {
        self matches Timer::Close { expires_at } && now.ticks >= expires_at.ticks
    }

    /// When this timer expires.
    pub open spec fn expiry(self) -> Instant {
        match self {
            Timer::Retry { expires_at } => expires_at,
            Timer::Close { expires_at } => expires_at,
        }
    }

    fn new_retry(now: Instant) -> (timer: Timer)
        ensures
            timer == Timer::retry_from(now),
    {
        Timer::Retry { expires_at: now.after(Duration::from_secs(RETRY_DELAY_SECS)) }
    }

    fn new_close(now: Instant) -> (timer: Timer)
        ensures
            timer == Timer::close_from(now),
    {
        Timer::Close { expires_at: now.after(Duration::from_secs(CLOSE_DELAY_SECS)) }
    }

    fn should_retry(&self, now: Instant) -> (b: bool)
        ensures
            b == self.retry_due(now),
    {
        match *self {
            Timer::Retry { expires_at } => now.ticks >= expires_at.ticks,
            _ => false,
        }
    }

    fn should_close(&self, now: Instant) -> (b: bool)
        ensures
            b == self.close_due(now),
    {
        match *self {
            Timer::Close { expires_at } => now.ticks >= expires_at.ticks,
            _ => false,
        }
    }

    fn poll_at(&self) -> (at: Instant)
        ensures
            at == self.expiry(),
    {
        match *self {
            Timer::Retry { expires_at } => expires_at,
            Timer::Close { expires_at } => expires_at,
        }
    }
}

/// Not all of a string could be written to a socket.
#[derive(Debug, Clone, Copy, PartialEq, Eq)]
pub struct WriteError;

/// What a TCP socket is made of.
#[verifier::ext_equal]
pub struct SocketView {
    pub peer_handle: Option<PeerHandle>,
    pub edm_channel: Option<ChannelId>,
    pub state: State,
    pub remote_endpoint: Option<SocketAddr>,
    pub local_port: Option<u16>,
    pub rx: RingView<u8>,
    pub tx: RingView<u8>,
    pub timeout: Option<Duration>,
    pub keep_alive: Option<Duration>,
    pub remote_last_ts: Option<Instant>,
    pub timer: Option<Timer>,
    pub rx_waker: Option<Waker>,
    pub tx_waker: Option<Waker>,
}

impl SocketView {
    /// Well-formedness: that of the two buffers, and that the timer fits the state.
    pub open spec fn wf(self) -> bool {
        self.rx.wf() && self.tx.wf() && self.timer_fits()
    }

    /// A socket that was never used, with these buffers.
    pub open spec fn fresh(rx: RingView<u8>, tx: RingView<u8>) -> SocketView {
        SocketView {
            peer_handle: None,
            edm_channel: None,
            state: State::Closed,
            remote_endpoint: None,
            local_port: None,
            rx,
            tx,
            timeout: None,
            keep_alive: None,
            remote_last_ts: None,
            timer: None,
            rx_waker: None,
            tx_waker: None,
        }
    }

    /// Whether the socket waits for incoming connections.
    pub open spec fn is_listening(self) -> bool {
        self.state == State::Listen
    }

    /// Whether the socket processes incoming or dispatches outgoing packets.
    pub open spec fn is_open(self) -> bool {
        self.state != State::Closed && self.state != State::TimeWait
    }

    /// Whether the socket exchanges packets with a remote endpoint.
    pub open spec fn is_active(self) -> bool {
        self.is_open() && self.state != State::Listen
    }

    /// Whether the transmit half of the connection is open.
    pub open spec fn may_send(self) -> bool {
        self.state == State::Established || self.state == State::CloseWait
    }

    /// Whether the receive half of the connection is open.
    pub open spec fn may_recv(self) -> bool {
        self.state == State::Established || self.state == State::FinWait1 || self.rx.length != 0
    }

    /// Whether the remote endpoint has closed its half of the connection with a FIN packet.
    pub open spec fn fin_received(self) -> bool {
        ||| self.state == State::CloseWait
        ||| self.state == State::Closing
        ||| self.state == State::LastAck
        ||| self.state == State::TimeWait
    }

    /// Why nothing can be received.
    pub open spec fn recv_error(self) -> Error {
        if self.fin_received() {
            Error::Finished
        } else {
            Error::Illegal
        }
    }

    /// Whether the timer is the one that the state calls for: a retry timer while a connection is
    /// attempted, and a close timer while a closed connection lingers.
    pub open spec fn timer_fits(self) -> bool {
        &&& self.state == State::SynSent ==> (self.timer matches Some(Timer::Retry { .. }))
        &&& self.state == State::TimeWait ==> (self.timer matches Some(Timer::Close { .. }))
    }

    /// Whether the buffers of the two sockets can hold the same.
    pub open spec fn same_capacities(self, other: SocketView) -> bool {
        self.rx.capacity() == other.rx.capacity() && self.tx.capacity() == other.tx.capacity()
    }

    /// Whether each waker that is no longer registered in `after`, with no other in its place, was
    /// woken.
    pub open spec fn wakes(self, after: SocketView) -> bool {
        &&& self.rx_waker is Some && after.rx_waker is None ==> crate::waker::woken(
            self.rx_waker->0,
        )
        &&& self.tx_waker is Some && after.tx_waker is None ==> crate::waker::woken(
            self.tx_waker->0,
        )
    }

    /// No waker registered any more. This is what waking both tasks leaves behind; that they are
    /// woken is no part of a view, and said by `wakes`.
    pub open spec fn wake(self) -> SocketView {
        SocketView { rx_waker: None, tx_waker: None, ..self }
    }

    /// The socket moved to `state`.
    pub open spec fn enter(self, state: State) -> SocketView {
        SocketView { state, ..self }.wake()
    }

    /// The timer that runs once `state` was entered at `now`.
    pub open spec fn timer_in(self, state: State, now: Instant) -> Option<Timer> {
        match state {
            State::TimeWait => Some(Timer::close_from(now)),
            State::SynSent => Some(Timer::retry_from(now)),
            _ => self.timer,
        }
    }

    /// The socket moved to `state` at `now`.
    pub open spec fn set_state(self, state: State, now: Instant) -> SocketView {
        SocketView { timer: self.timer_in(state, now), ..self.enter(state) }
    }

    /// The socket without a connection: closed, with empty buffers, and unaware of a peer.
    pub open spec fn reset(self) -> SocketView {
        SocketView {
            peer_handle: None,
            edm_channel: None,
            remote_endpoint: None,
            rx: self.rx.clear(),
            tx: self.tx.clear(),
            remote_last_ts: None,
            timer: None,
            ..self.enter(State::Closed)
        }
    }

    /// Why a connection to `remote` from `local_port` cannot be attempted, if it cannot.
    pub open spec fn connect_error(self, remote: SocketAddr, local_port: Option<u16>) -> Option<
        Error,
    > {
        if self.is_open() {
            Some(Error::InvalidState)
        } else if !remote.addressable() || local_port == Some(0u16) {
            Some(Error::Unaddressable)
        } else {
            None
        }
    }

    /// The socket set up to connect to `remote` from `local_port`.
    pub open spec fn connect(self, remote: SocketAddr, local_port: Option<u16>) -> SocketView {
        SocketView { remote_endpoint: Some(remote), local_port, ..self.reset() }
    }

    /// The socket with the transmit half of its connection closed.
    pub open spec fn close(self) -> SocketView {
        match self.state {
            State::Listen | State::SynSent => self.enter(State::Closed),
            State::SynReceived | State::Established => self.enter(State::FinWait1),
            State::CloseWait => self.enter(State::LastAck),
            _ => self,
        }
    }

    /// The socket right before it queues octets to send. After a time without any, the last
    /// packet of the remote endpoint says nothing about the connection.
    pub open spec fn before_send(self) -> SocketView {
        SocketView {
            remote_last_ts: if self.tx.length == 0 {
                None
            } else {
                self.remote_last_ts
            },
            ..self
        }
    }

    /// The socket after as much of `data` as there is room for was queued to be sent.
    pub open spec fn send_slice(self, data: Seq<u8>) -> SocketView {
        SocketView { tx: self.tx.enqueue(data), ..self.before_send() }
    }

    /// The socket after as much of `data` as there is room for was received at `now`.
    pub open spec fn receive(self, data: Seq<u8>, now: Instant) -> SocketView {
        SocketView {
            rx: self.rx.enqueue(data),
            remote_last_ts: Some(now),
            rx_waker: if self.rx.accepted(data) > 0 {
                None
            } else {
                self.rx_waker
            },
            ..self
        }
    }

    /// The socket after `n` of the octets in `tx` were sent.
    pub open spec fn sent(self, tx: RingView<u8>, n: int) -> SocketView {
        SocketView {
            tx: tx.pop(n),
            tx_waker: if n > 0 {
                None
            } else {
                self.tx_waker
            },
            ..self
        }
    }

    /// The socket after it was given the opportunity to react to the time `now`: an attempt to
    /// connect is given up, and a lingering connection is taken back, once its timer has expired.
    pub open spec fn poll(self, now: Instant) -> SocketView {
        match (self.remote_endpoint, self.timer, self.state) {
            (Some(_), Some(timer), State::SynSent) => if timer.retry_due(now) {
                self.enter(State::Closed)
            } else {
                self
            },
            (Some(_), Some(timer), State::TimeWait) => if timer.close_due(now) {
                self.reset()
            } else {
                self
            },
            _ => self,
        }
    }
}

/// A socket that listens is open and not active, one that is active is open, and only an active
/// one may send.
pub proof fn law_open_covers_active(socket: SocketView)
    ensures
        socket.is_active() ==> socket.is_open(),
        socket.is_listening() ==> socket.is_open() && !socket.is_active(),
        socket.is_open() ==> socket.is_listening() || socket.is_active(),
        socket.may_send() ==> socket.is_active(),
{
}

/// As long as there are received octets they can be read, in every state. So once reading fails,
/// every octet that was received has been read.
pub proof fn law_received_octets_can_be_read(socket: SocketView)
    requires
        socket.wf(),
    ensures
        socket.rx.length > 0 ==> socket.may_recv(),
        !socket.may_recv() ==> socket.rx.queue() == Seq::<u8>::empty(),
{
    if !socket.may_recv() {
        assert(socket.rx.queue() =~= Seq::<u8>::empty());
    }
}

/// Closing ends sending, but not reading: a closed transmit half stays closed when it is closed
/// again, both buffers keep what they hold, and what could be read before can be read after.
pub proof fn law_close_ends_sending_only(socket: SocketView)
    ensures
        !socket.close().may_send(),
        socket.close().close() == socket.close(),
        socket.close().rx == socket.rx,
        socket.close().tx == socket.tx,
        socket.may_recv() ==> socket.close().may_recv(),
{
}

/// An aborted socket is closed, whatever it did before, and can be reused right away: it can be
/// connected to every endpoint that is addressable.
pub proof fn law_abort_frees_the_socket(
    socket: SocketView,
    remote: SocketAddr,
    local_port: Option<u16>,
)
    requires
        remote.addressable(),
        local_port != Some(0u16),
    ensures
        socket.enter(State::Closed).state == State::Closed,
        !socket.enter(State::Closed).is_open(),
        socket.enter(State::Closed).connect_error(remote, local_port) is None,
{
}

/// A reset socket is closed, holds no octets, knows no peer and waits for no time. The capacity
/// of its buffers stays, and resetting it again changes nothing.
pub proof fn law_reset_forgets_the_connection(socket: SocketView)
    requires
        socket.wf(),
    ensures
        socket.reset().wf(),
        !socket.reset().is_open(),
        !socket.reset().may_recv(),
        socket.reset().rx.queue() == Seq::<u8>::empty(),
        socket.reset().tx.queue() == Seq::<u8>::empty(),
        socket.reset().rx.capacity() == socket.rx.capacity(),
        socket.reset().tx.capacity() == socket.tx.capacity(),
        socket.reset().remote_endpoint is None,
        socket.reset().peer_handle is None,
        socket.reset().edm_channel is None,
        socket.reset().timer is None,
        socket.reset().reset() == socket.reset(),
{
    assert(socket.reset().rx.queue() =~= Seq::<u8>::empty());
    assert(socket.reset().tx.queue() =~= Seq::<u8>::empty());
}

/// A connection attempt that is accepted starts from a socket without octets that knows its
/// remote endpoint. The socket stays closed until the handshake begins, and from then on until it
/// is closed again every further attempt is refused.
pub proof fn law_connect_starts_afresh(
    socket: SocketView,
    remote: SocketAddr,
    local_port: Option<u16>,
    state: State,
    now: Instant,
    other: SocketAddr,
    other_port: Option<u16>,
)
    requires
        socket.wf(),
        socket.connect_error(remote, local_port) is None,
    ensures
        socket.connect(remote, local_port).wf(),
        socket.connect(remote, local_port).state == State::Closed,
        socket.connect(remote, local_port).remote_endpoint == Some(remote),
        socket.connect(remote, local_port).local_port == local_port,
        socket.connect(remote, local_port).rx.length == 0,
        socket.connect(remote, local_port).tx.length == 0,
        state != State::Closed && state != State::TimeWait ==> socket.connect(
            remote,
            local_port,
        ).set_state(state, now).connect_error(other, other_port) == Some(Error::InvalidState),
{
}

/// Whatever the socket does of its own or is told, as soon as the outcome of reading may change,
/// because there are more octets to read or because reading fails in another way, the waker of the
/// task that waits to read is taken out of its registration, which is done to wake it. The law
/// shows the emptied registration; that the waker was woken is said by `wakes` in the contracts of
/// the operations.
pub proof fn law_readers_are_woken(
    socket: SocketView,
    after: SocketView,
    state: State,
    remote: SocketAddr,
    local_port: Option<u16>,
    data: Seq<u8>,
    now: Instant,
)
    requires
        socket.wf(),
        ({
            ||| after == socket.set_state(state, now)
            ||| after == socket.reset()
            ||| after == socket.connect(remote, local_port)
            ||| after == socket.close()
            ||| after == socket.receive(data, now)
            ||| after == socket.poll(now)
        }),
        ({
            ||| after.rx.length > socket.rx.length
            ||| after.may_recv() != socket.may_recv()
            ||| after.recv_error() != socket.recv_error()
        }),
    ensures
        after.rx_waker is None,
{
}

/// Whatever the socket does of its own or is told, as soon as the outcome of sending may change,
/// because there is more room in the transmit buffer or because the transmit half is opened or
/// closed, the waker of the task that waits to send is taken out of its registration, which is
/// done to wake it. The law shows the emptied registration; that the waker was woken is said by
/// `wakes` in the contracts of the operations.
pub proof fn law_writers_are_woken(
    socket: SocketView,
    after: SocketView,
    state: State,
    remote: SocketAddr,
    local_port: Option<u16>,
    n: int,
    now: Instant,
)
    requires
        socket.wf(),
        0 <= n <= socket.tx.front_len(),
        ({
            ||| after == socket.set_state(state, now)
            ||| after == socket.reset()
            ||| after == socket.connect(remote, local_port)
            ||| after == socket.close()
            ||| after == socket.sent(socket.tx, n)
            ||| after == socket.poll(now)
        }),
        ({
            ||| after.tx.length < socket.tx.length
            ||| after.may_send() != socket.may_send()
        }),
    ensures
        after.tx_waker is None,
{
}

/// A new socket waits for the right time, and no operation changes that: while a connection is
/// attempted its retry timer runs, and while a closed connection lingers its close timer runs.
pub proof fn law_timer_fits_the_state(
    socket: SocketView,
    rx: RingView<u8>,
    tx: RingView<u8>,
    state: State,
    remote: SocketAddr,
    local_port: Option<u16>,
    data: Seq<u8>,
    n: int,
    now: Instant,
)
    requires
        socket.timer_fits(),
    ensures
        SocketView::fresh(rx, tx).timer_fits(),
        socket.set_state(state, now).timer_fits(),
        socket.enter(State::Closed).timer_fits(),
        socket.reset().timer_fits(),
        socket.connect(remote, local_port).timer_fits(),
        socket.close().timer_fits(),
        socket.before_send().timer_fits(),
        socket.send_slice(data).timer_fits(),
        socket.receive(data, now).timer_fits(),
        socket.sent(tx, n).timer_fits(),
        socket.poll(now).timer_fits(),
{
}

/// Polling before the timer expires changes nothing, and neither does polling a socket that
/// neither attempts a connection nor lingers. Polling twice at one time is polling once.
pub proof fn law_poll_waits(socket: SocketView, now: Instant)
    ensures
        socket.timer matches Some(timer) && now.ticks < timer.expiry().ticks ==> socket.poll(now)
            == socket,
        socket.state != State::SynSent && socket.state != State::TimeWait ==> socket.poll(now)
            == socket,
        socket.poll(now).poll(now) == socket.poll(now),
{
}

/// What polling does, for every well-formed socket. A socket without a remote endpoint, one that
/// neither attempts a connection nor lingers, and one whose timer has not expired stay as they
/// are. Otherwise an attempt is given up: the socket is closed, its wakers are taken out, and
/// everything else is kept, the timer among it. A lingering connection is reset.
pub proof fn law_poll_at_the_deadline(socket: SocketView, now: Instant)
    requires
        socket.wf(),
    ensures
        socket.remote_endpoint is None ==> socket.poll(now) == socket,
        socket.timer matches Some(timer) && now.ticks < timer.expiry().ticks ==> socket.poll(now)
            == socket,
        socket.state != State::SynSent && socket.state != State::TimeWait ==> socket.poll(now)
            == socket,
        socket.remote_endpoint is Some && socket.state == State::SynSent ==> {
            &&& socket.timer is Some
            &&& now.ticks >= socket.timer->0.expiry().ticks ==> socket.poll(now) == (SocketView {
                state: State::Closed,
                rx_waker: None,
                tx_waker: None,
                ..socket
            })
        },
        socket.remote_endpoint is Some && socket.state == State::TimeWait ==> {
            &&& socket.timer is Some
            &&& now.ticks >= socket.timer->0.expiry().ticks ==> socket.poll(now) == socket.reset()
        },
        socket.poll(now).poll(now) == socket.poll(now),
{
}

/// A connection attempt that began at `start` is given up as soon as the socket is polled after
/// the retry delay, and not before: the socket is closed, and still knows its remote endpoint.
pub proof fn law_attempt_is_given_up(socket: SocketView, start: Instant, now: Instant)
    requires
        socket.remote_endpoint is Some,
    ensures
        now.ticks >= start.plus(Duration::of_secs(RETRY_DELAY_SECS)).ticks ==> {
            &&& socket.set_state(State::SynSent, start).poll(now).state == State::Closed
            &&& socket.set_state(State::SynSent, start).poll(now).remote_endpoint
                == socket.remote_endpoint
        },
        now.ticks < start.plus(Duration::of_secs(RETRY_DELAY_SECS)).ticks ==> socket.set_state(
            State::SynSent,
            start,
        ).poll(now) == socket.set_state(State::SynSent, start),
{
}

/// A connection that began to linger at `start` is taken back as soon as the socket is polled
/// after the close delay, and not before.
pub proof fn law_lingering_ends(socket: SocketView, start: Instant, now: Instant)
    requires
        socket.remote_endpoint is Some,
    ensures
        now.ticks >= start.plus(Duration::of_secs(CLOSE_DELAY_SECS)).ticks ==> socket.set_state(
            State::TimeWait,
            start,
        ).poll(now) == socket.reset(),
        now.ticks < start.plus(Duration::of_secs(CLOSE_DELAY_SECS)).ticks ==> socket.set_state(
            State::TimeWait,
            start,
        ).poll(now) == socket.set_state(State::TimeWait, start),
{
}

/// No operation changes how much the buffers of a socket can hold.
pub proof fn law_capacities_are_fixed(
    socket: SocketView,
    state: State,
    remote: SocketAddr,
    local_port: Option<u16>,
    data: Seq<u8>,
    n: int,
    now: Instant,
)
    ensures
        socket.set_state(state, now).same_capacities(socket),
        socket.reset().same_capacities(socket),
        socket.connect(remote, local_port).same_capacities(socket),
        socket.close().same_capacities(socket),
        socket.send_slice(data).same_capacities(socket),
        socket.receive(data, now).same_capacities(socket),
        socket.sent(socket.tx, n).same_capacities(socket),
        socket.poll(now).same_capacities(socket),
{
}

/// The receive buffer is a stream: receiving two pieces, one after the other, queues what
/// receiving both at once queues.
pub proof fn law_received_pieces_join(
    socket: SocketView,
    first: Seq<u8>,
    second: Seq<u8>,
    now: Instant,
    later: Instant,
)
    requires
        socket.wf(),
    ensures
        socket.receive(first, now).receive(second, later).rx.queue() == socket.receive(
            first + second,
            later,
        ).rx.queue(),
        socket.receive(first, now).rx.accepted(second) + socket.rx.accepted(first)
            == socket.rx.accepted(first + second),
{
    crate::ring_buffer::law_pieces_join(socket.rx, first, second);
}

/// The transmit buffer is a stream: sending two pieces, one after the other, queues what sending
/// both at once queues.
pub proof fn law_sent_pieces_join(socket: SocketView, first: Seq<u8>, second: Seq<u8>)
    requires
        socket.wf(),
    ensures
        socket.send_slice(first).send_slice(second).tx.queue() == socket.send_slice(
            first + second,
        ).tx.queue(),
        socket.send_slice(first).tx.accepted(second) + socket.tx.accepted(first)
            == socket.tx.accepted(first + second),
{
    crate::ring_buffer::law_pieces_join(socket.tx, first, second);
}

/// What was received into an empty buffer with room for it is read back octet for octet, in
/// order, and leaves the buffer empty.
pub proof fn law_received_is_read_back(socket: SocketView, data: Seq<u8>, now: Instant)
    requires
        socket.wf(),
        socket.rx.length == 0,
        data.len() <= socket.rx.capacity(),
    ensures
        socket.receive(data, now).rx.queue() == data,
        socket.receive(data, now).rx.pop(data.len() as int).queue() == Seq::<u8>::empty(),
{
    crate::ring_buffer::law_first_in_first_out(socket.rx, data);
}

/// What was sent through an empty buffer with room for it waits at the front of the transmit
/// buffer in one piece, octet for octet and in order.
pub proof fn law_sent_waits_at_the_front(socket: SocketView, data: Seq<u8>)
    requires
        socket.wf(),
        socket.tx.length == 0,
        data.len() <= socket.tx.capacity(),
    ensures
        socket.send_slice(data).tx.queue() == data,
        socket.send_slice(data).tx.front() == data,
{
    crate::ring_buffer::law_first_in_first_out(socket.tx, data);
    crate::ring_buffer::law_enqueue_appends(socket.tx, data);
    crate::ring_buffer::law_front_is_prefix(socket.send_slice(data).tx);
    assert(data.take(data.len() as int) =~= data);
}

/// Peeking shows what reading gives: the octets at the front of the receive buffer that lie in
/// one piece, at most as many as were asked for, which are the first ones to be read.
pub proof fn law_peek_shows_what_is_read(socket: SocketView, size: int)
    requires
        socket.wf(),
        0 <= size,
    ensures
        socket.rx.allocated(0, size) == socket.rx.front().take(
            crate::ring_buffer::smaller(size, socket.rx.front_len()),
        ),
        socket.rx.allocated(0, size) == socket.rx.queue().take(
            socket.rx.allocated(0, size).len() as int,
        ),
        size > 0 && socket.rx.length > 0 ==> socket.rx.allocated(0, size).len() > 0,
{
    crate::ring_buffer::law_peek_is_prefix(socket.rx, size);
}

/// Looking at the octets to send, writing `run` over them and then dequeueing `n` of them in a
/// second step leaves the socket as dequeueing them in one step does.
pub proof fn law_sending_in_two_steps(socket: SocketView, run: Seq<u8>, n: int)
    ensures
        ({
            let tx = socket.tx.write(socket.tx.read_at, run);
            (SocketView { tx, ..socket }).sent(tx, n) == socket.sent(tx, n)
        }),
{
}

/// The retry timer runs for five seconds and the close timer for ten. Each is due from the instant
/// at which it expires, and for its own purpose only.
pub proof fn law_timers_expire(start: Instant, expires_at: Instant, now: Instant)
    ensures
        Timer::retry_from(start) == (Timer::Retry { expires_at: start.plus(Duration::of_secs(5)) }),
        Timer::close_from(start) == (Timer::Close { expires_at: start.plus(Duration::of_secs(10)) }),
        (Timer::Retry { expires_at }).retry_due(now) <==> now.ticks >= expires_at.ticks,
        (Timer::Close { expires_at }).close_due(now) <==> now.ticks >= expires_at.ticks,
        !(Timer::Retry { expires_at }).close_due(now),
        !(Timer::Close { expires_at }).retry_due(now),
        (Timer::Retry { expires_at }).expiry() == expires_at,
        (Timer::Close { expires_at }).expiry() == expires_at,
{
}

/// A socket is well-formed exactly if its buffers are and its timer is the one that its state
/// calls for, whatever its other fields hold.
pub proof fn law_what_is_well_formed(socket: SocketView)
    ensures
        socket.wf() <==> {
            &&& socket.rx.wf()
            &&& socket.tx.wf()
            &&& socket.state == State::SynSent ==> exists|expires_at: Instant|
                socket.timer == Some(Timer::Retry { expires_at })
            &&& socket.state == State::TimeWait ==> exists|expires_at: Instant|
                socket.timer == Some(Timer::Close { expires_at })
        },
{
    if socket.timer is Some {
        let expires_at = socket.timer->0.expiry();
        assert(socket.timer == Some(Timer::Retry { expires_at }) || socket.timer == Some(
            Timer::Close { expires_at },
        ));
    }
}

/// The state alone decides whether a socket listens, is open, is active and may send, and which
/// error a failed read has: two sockets in the same state agree in all of this.
pub proof fn law_state_alone_decides(socket: SocketView, other: SocketView)
    requires
        socket.state == other.state,
    ensures
        socket.is_listening() == other.is_listening(),
        socket.is_open() == other.is_open(),
        socket.is_active() == other.is_active(),
        socket.may_send() == other.may_send(),
        socket.recv_error() == other.recv_error(),
{
}

/// What a socket is and may do in each state, for all values of its other fields.
pub proof fn law_each_state(socket: SocketView)
    ensures
        socket.is_listening() <==> socket.state == State::Listen,
        !socket.is_open() <==> socket.state == State::Closed || socket.state == State::TimeWait,
        !socket.is_active() <==> socket.state == State::Closed || socket.state == State::TimeWait
            || socket.state == State::Listen,
        match socket.state {
            State::Established | State::CloseWait => socket.may_send(),
            _ => !socket.may_send(),
        },
        match socket.state {
            State::CloseWait | State::Closing | State::LastAck | State::TimeWait => {
                socket.recv_error() == Error::Finished
            },
            _ => socket.recv_error() == Error::Illegal,
        },
{
}

/// The receive half is open in the states ESTABLISHED and FIN-WAIT-1, for every remote endpoint
/// and whether or not anything was received; in every other state it is open exactly as long as
/// there are received octets. No other field has a say.
pub proof fn law_receive_half_is_open(socket: SocketView, other: SocketView)
    ensures
        socket.state == State::Established || socket.state == State::FinWait1 ==> socket.may_recv(),
        socket.state != State::Established && socket.state != State::FinWait1 ==> (
        socket.may_recv() <==> socket.rx.length != 0),
        socket.state == other.state && socket.rx.length == other.rx.length ==> socket.may_recv()
            == other.may_recv(),
{
}

/// A new socket is closed, and has nothing but its buffers.
pub proof fn law_new_socket_is_blank(rx: RingView<u8>, tx: RingView<u8>)
    ensures
        SocketView::fresh(rx, tx).rx == rx,
        SocketView::fresh(rx, tx).tx == tx,
        SocketView::fresh(rx, tx).state == State::Closed,
        SocketView::fresh(rx, tx).peer_handle is None,
        SocketView::fresh(rx, tx).edm_channel is None,
        SocketView::fresh(rx, tx).remote_endpoint is None,
        SocketView::fresh(rx, tx).local_port is None,
        SocketView::fresh(rx, tx).timeout is None,
        SocketView::fresh(rx, tx).keep_alive is None,
        SocketView::fresh(rx, tx).remote_last_ts is None,
        SocketView::fresh(rx, tx).timer is None,
        SocketView::fresh(rx, tx).rx_waker is None,
        SocketView::fresh(rx, tx).tx_waker is None,
{
}

/// Entering a state changes the state, takes out both wakers, and sets a timer where the state
/// calls for one: an attempt to connect expires after five seconds, lingering after ten. Nothing
/// else changes, and the time matters only for the timer.
pub proof fn law_state_changes_nothing_else(socket: SocketView, state: State, now: Instant)
    ensures
        socket.set_state(state, now) == (SocketView {
            state,
            rx_waker: None,
            tx_waker: None,
            timer: socket.set_state(state, now).timer,
            ..socket
        }),
        socket.enter(state) == (SocketView { state, rx_waker: None, tx_waker: None, ..socket }),
        state == State::SynSent ==> socket.set_state(state, now).timer == Some(
            Timer::Retry { expires_at: now.plus(Duration::of_secs(5)) },
        ),
        state == State::TimeWait ==> socket.set_state(state, now).timer == Some(
            Timer::Close { expires_at: now.plus(Duration::of_secs(10)) },
        ),
        state != State::SynSent && state != State::TimeWait ==> socket.set_state(state, now).timer
            == socket.timer,
{
}

/// Resetting keeps what belongs to the socket and not to the connection: the storage of the
/// buffers, the local port, and the intervals that were set. All else is as in a new socket.
pub proof fn law_reset_keeps_the_socket(socket: SocketView)
    ensures
        socket.reset() == (SocketView {
            local_port: socket.local_port,
            timeout: socket.timeout,
            keep_alive: socket.keep_alive,
            ..SocketView::fresh(
                RingView { storage: socket.rx.storage, read_at: 0, length: 0 },
                RingView { storage: socket.tx.storage, read_at: 0, length: 0 },
            )
        }),
{
}

/// A connection is refused exactly where the socket is open, with one error, or where the remote
/// port is zero, the remote address is unspecified or a local port of zero is asked for, with
/// another. No other field of the socket has a say, and nothing of the earlier connection is left
/// in one that is accepted.
pub proof fn law_what_can_be_connected(
    socket: SocketView,
    remote: SocketAddr,
    local_port: Option<u16>,
)
    ensures
        socket.state != State::Closed && socket.state != State::TimeWait ==> socket.connect_error(
            remote,
            local_port,
        ) == Some(Error::InvalidState),
        socket.state == State::Closed || socket.state == State::TimeWait ==> {
            let bad = remote.port_number() == 0 || remote.ip_addr().unspecified() || local_port
                == Some(0u16);
            socket.connect_error(remote, local_port) == if bad {
                Some(Error::Unaddressable)
            } else {
                None
            }
        },
        socket.connect(remote, local_port) == (SocketView {
            remote_endpoint: Some(remote),
            local_port,
            ..socket.reset()
        }),
{
}

/// The state after closing follows from the state before alone. Where the state stays, nothing at
/// all changes; where it changes, both wakers are taken out, and nothing else changes.
pub proof fn law_close_goes_by_the_state(socket: SocketView, other: SocketView)
    ensures
        match socket.state {
            State::Listen => socket.close().state == State::Closed,
            State::SynSent => socket.close().state == State::Closed,
            State::SynReceived => socket.close().state == State::FinWait1,
            State::Established => socket.close().state == State::FinWait1,
            State::CloseWait => socket.close().state == State::LastAck,
            State::FinWait1 => socket.close() == socket,
            State::Closing => socket.close() == socket,
            State::LastAck => socket.close() == socket,
            State::TimeWait => socket.close() == socket,
            State::Closed => socket.close() == socket,
        },
        socket.close().state != socket.state ==> socket.close() == (SocketView {
            state: socket.close().state,
            rx_waker: None,
            tx_waker: None,
            ..socket
        }),
        socket.state == other.state ==> socket.close().state == other.close().state,
{
}

/// A connection attempt that is closed is over, with any remote endpoint: the socket is closed, and
/// the next attempt is accepted.
pub proof fn law_closed_attempt_is_over(
    socket: SocketView,
    remote: SocketAddr,
    local_port: Option<u16>,
)
    requires
        socket.state == State::SynSent || socket.state == State::Listen,
        remote.addressable(),
        local_port != Some(0u16),
    ensures
        !socket.close().is_open(),
        !socket.close().is_active(),
        socket.close().connect_error(remote, local_port) is None,
{
}

/// Sending queues octets for sending, and touches nothing else but the time of the last packet,
/// which is forgotten if nothing was waiting to be sent.
pub proof fn law_send_queues_octets(socket: SocketView, data: Seq<u8>)
    requires
        socket.wf(),
    ensures
        data.len() <= socket.tx.storage.len() - socket.tx.length ==> socket.send_slice(
            data,
        ).tx.queue() == socket.tx.queue() + data,
        data.len() > socket.tx.storage.len() - socket.tx.length ==> socket.send_slice(
            data,
        ).tx.queue() == socket.tx.queue() + data.take(socket.tx.storage.len() - socket.tx.length),
        socket.send_slice(data) == (SocketView {
            tx: socket.send_slice(data).tx,
            remote_last_ts: socket.before_send().remote_last_ts,
            ..socket
        }),
        socket.before_send() == (SocketView {
            remote_last_ts: socket.before_send().remote_last_ts,
            ..socket
        }),
        socket.tx.length == 0 ==> socket.before_send().remote_last_ts is None,
        socket.tx.length != 0 ==> socket.before_send().remote_last_ts == socket.remote_last_ts,
{
    crate::ring_buffer::law_enqueue_appends(socket.tx, data);
    assert(data.take(data.len() as int) =~= data);
}

/// Receiving queues octets for reading and notes the time. The waker of the reader is taken out
/// exactly if an octet was queued, and nothing else changes.
pub proof fn law_receive_queues_octets(socket: SocketView, data: Seq<u8>, now: Instant)
    requires
        socket.wf(),
    ensures
        data.len() <= socket.rx.storage.len() - socket.rx.length ==> socket.receive(
            data,
            now,
        ).rx.queue() == socket.rx.queue() + data,
        data.len() > socket.rx.storage.len() - socket.rx.length ==> socket.receive(
            data,
            now,
        ).rx.queue() == socket.rx.queue() + data.take(socket.rx.storage.len() - socket.rx.length),
        socket.receive(data, now) == (SocketView {
            rx: socket.receive(data, now).rx,
            remote_last_ts: Some(now),
            rx_waker: socket.receive(data, now).rx_waker,
            ..socket
        }),
        socket.receive(data, now).rx.length == socket.rx.length ==> socket.receive(
            data,
            now,
        ).rx_waker == socket.rx_waker,
        socket.receive(data, now).rx.length > socket.rx.length ==> socket.receive(
            data,
            now,
        ).rx_waker is None,
{
    crate::ring_buffer::law_enqueue_appends(socket.rx, data);
    assert(data.take(data.len() as int) =~= data);
}

/// Sending `n` octets takes the `n` oldest off the transmit buffer. The waker of the writer is
/// taken out exactly if there was one to send, and nothing else changes.
pub proof fn law_sent_octets_leave(socket: SocketView, n: int)
    requires
        socket.wf(),
        0 <= n <= socket.tx.length,
    ensures
        socket.sent(socket.tx, n).tx.queue() == socket.tx.queue().skip(n),
        socket.sent(socket.tx, n) == (SocketView {
            tx: socket.tx.pop(n),
            tx_waker: socket.sent(socket.tx, n).tx_waker,
            ..socket
        }),
        n == 0 ==> socket.sent(socket.tx, n).tx_waker == socket.tx_waker,
        n > 0 ==> socket.sent(socket.tx, n).tx_waker is None,
{
    crate::ring_buffer::law_pop_removes_oldest(socket.tx, n);
}

/// Room that is freed by sending can be used for sending again: of the octets offered after `n`
/// octets were sent, as many are queued as there were free places before, and `n` more.
pub proof fn law_sending_goes_on(socket: SocketView, n: int, data: Seq<u8>)
    requires
        socket.wf(),
        0 <= n <= socket.tx.length,
        data.len() <= socket.tx.storage.len() - socket.tx.length + n,
    ensures
        socket.sent(socket.tx, n).tx.accepted(data) == data.len(),
        socket.sent(socket.tx, n).send_slice(data).tx.queue() == socket.tx.queue().skip(n) + data,
{
    crate::ring_buffer::law_freed_places_are_reused(socket.tx, n, data);
}

/// Polling at an instant between two readings of the clock: a timer that expires after the later
/// reading leaves the socket as it is, and one that had expired at the earlier reading ends the
/// attempt or the lingering, wherever between the two the polling happened.
pub proof fn law_poll_between_readings(
    socket: SocketView,
    before: Instant,
    now: Instant,
    after: Instant,
)
    requires
        socket.wf(),
        before.ticks <= now.ticks <= after.ticks,
    ensures
        socket.timer matches Some(timer) && timer.expiry().ticks > after.ticks ==> socket.poll(now)
            == socket,
        socket.timer matches Some(timer) && timer.expiry().ticks <= before.ticks ==> socket.poll(now)
            == socket.poll(before) && socket.poll(now) == socket.poll(after),
        socket.poll(now) == socket.poll(before) || socket.poll(now) == socket.poll(after),
        socket.timer matches Some(timer) && timer.expiry().ticks <= before.ticks
            && socket.remote_endpoint is Some && (socket.state == State::SynSent || socket.state
            == State::TimeWait) ==> socket.poll(now).state == State::Closed,
        socket.timer is None ==> socket.poll(now) == socket,
{
}

/// A waker leaves its registration by being woken, or by being replaced by another.
pub proof fn law_wakers_leave_by_being_woken(socket: SocketView, after: SocketView)
    requires
        socket.wakes(after),
    ensures
        socket.rx_waker matches Some(waker) ==> crate::waker::woken(waker)
            || after.rx_waker is Some,
        socket.tx_waker matches Some(waker) ==> crate::waker::woken(waker)
            || after.tx_waker is Some,
{
}

/// A Transmission Control Protocol socket.
///
/// A TCP socket may passively listen for connections or actively connect to another endpoint.
/// Note that, for listening sockets, there is no "backlog"; to be able to simultaneously
/// accept several connections, as many sockets must be allocated, or any new connection
/// attempts will be reset.
#[derive(Debug)]
pub struct Socket<'a> {
    pub peer_handle: Option<PeerHandle>,
    pub edm_channel: Option<ChannelId>,
    state: State,
    pub remote_endpoint: Option<SocketAddr>,
    pub local_port: Option<u16>,
    rx_buffer: SocketBuffer<'a>,
    tx_buffer: SocketBuffer<'a>,
    /// Interval after which, if no inbound packets are received, the connection is aborted.
    timeout: Option<Duration>,
    /// Interval at which keep-alive packets will be sent.
    keep_alive: Option<Duration>,
    /// The timestamp of the last packet received.
    remote_last_ts: Option<Instant>,
    timer: Option<Timer>,
    rx_waker: WakerRegistration,
    tx_waker: WakerRegistration,
}

impl<'a> View for Socket<'a> {
    type V = SocketView;

    closed spec fn view(&self) -> SocketView {
        SocketView {
            peer_handle: self.peer_handle,
            edm_channel: self.edm_channel,
            state: self.state,
            remote_endpoint: self.remote_endpoint,
            local_port: self.local_port,
            rx: self.rx_buffer@,
            tx: self.tx_buffer@,
            timeout: self.timeout,
            keep_alive: self.keep_alive,
            remote_last_ts: self.remote_last_ts,
            timer: self.timer,
            rx_waker: self.rx_waker@,
            tx_waker: self.tx_waker@,
        }
    }
}

/// The view of a socket shows every field as it is.
proof fn law_view_shows_every_field<'a>(socket: Socket<'a>)
    ensures
        socket@.peer_handle == socket.peer_handle,
        socket@.edm_channel == socket.edm_channel,
        socket@.state == socket.state,
        socket@.remote_endpoint == socket.remote_endpoint,
        socket@.local_port == socket.local_port,
        socket@.timeout == socket.timeout,
        socket@.keep_alive == socket.keep_alive,
        socket@.remote_last_ts == socket.remote_last_ts,
        socket@.timer == socket.timer,
        socket@.rx == socket.rx_buffer@,
        socket@.tx == socket.tx_buffer@,
        socket@.rx_waker == socket.rx_waker@,
        socket@.tx_waker == socket.tx_waker@,
{
}

impl<'a> Socket<'a> {
    /// Create a socket using the given buffers.
    pub fn new(
        rx_buffer: impl Into<SocketBuffer<'a>>,
        tx_buffer: impl Into<SocketBuffer<'a>>,
    ) -> (socket: Socket<'a>)
        ensures
            exists|rx: SocketBuffer<'a>, tx: SocketBuffer<'a>|
                {
                    &&& #[trigger] call_ensures(Into::into, (rx_buffer,), rx)
                    &&& #[trigger] call_ensures(Into::into, (tx_buffer,), tx)
                    &&& socket@ == SocketView::fresh(rx@, tx@)
                    &&& rx@.wf() && tx@.wf() ==> socket@.wf()
                },
    {
        Socket {
            peer_handle: None,
            edm_channel: None,
            state: State::Closed,
            remote_endpoint: None,
            rx_buffer: rx_buffer.into(),
            tx_buffer: tx_buffer.into(),
            timeout: None,
            keep_alive: None,
            remote_last_ts: None,
            timer: None,
            local_port: None,
            rx_waker: WakerRegistration::new(),
            tx_waker: WakerRegistration::new(),
        }
    }

    /// Move the socket to the given state, and wake all tasks that wait for the socket.
    fn enter(&mut self, state: State)
        ensures
            final(self)@ == old(self)@.enter(state),
            old(self)@.wakes(final(self)@),
            old(self)@.wakes(final(self)@),
    {
        self.state = state;
        // Even if no data was received or sent, the return values of functions may change
        // depending on the state. For example, a pending read has to fail with an error if the
        // socket is closed.
        self.rx_waker.wake();
        self.tx_waker.wake();
    }

    /// Move the socket to the given state, as of `now`.
    pub fn set_state_at(&mut self, state: State, now: Instant)
        ensures
            final(self)@ == old(self)@.set_state(state, now),
            old(self)@.wf() ==> final(self)@.wf(),
            old(self)@.wakes(final(self)@),
            old(self)@.wakes(final(self)@),
    {
        match state {
            State::TimeWait => {
                self.timer = Some(Timer::new_close(now));
            },
            State::SynSent => {
                self.timer = Some(Timer::new_retry(now));
            },
            _ => {},
        }
        self.enter(state);
    }

    /// Move the socket to the given state.
    pub fn set_state(&mut self, state: State)
        ensures
            exists|now: Instant| final(self)@ == #[trigger] old(self)@.set_state(state, now),
            state == State::TimeWait || state == State::SynSent ==> exists|now: Instant|
                now.shown_by_clock() && final(self)@ == #[trigger] old(self)@.set_state(state, now),
            final(self)@.state == state,
            old(self)@.wf() ==> final(self)@.wf(),
            old(self)@.wakes(final(self)@),
            old(self)@.wakes(final(self)@),
    {
        match state {
            State::TimeWait | State::SynSent => self.set_state_at(state, Instant::now()),
            _ => {
                self.enter(state);
                assert(self@ == old(self)@.set_state(state, Instant { ticks: 0 }));
            },
        }
    }

    /// Take the connection back: the socket is closed, forgets its peer, and its buffers are
    /// emptied.
    pub fn reset(&mut self)
        ensures
            final(self)@ == old(self)@.reset(),
            final(self)@.wf(),
            old(self)@.wakes(final(self)@),
            old(self)@.wakes(final(self)@),
    {
        self.set_state(State::Closed);
        self.peer_handle = None;
        self.edm_channel = None;
        self.rx_buffer.clear();
        self.tx_buffer.clear();
        self.remote_endpoint = None;
        self.remote_last_ts = None;
        self.timer = None;
        self.rx_waker.wake();
        self.tx_waker.wake();
    }

    /// Register a waker for receive operations.
    ///
    /// The waker is woken on state changes that might affect the return value
    /// of `recv` method calls, such as receiving data, or the socket closing.
    ///
    /// Notes:
    ///
    /// - Only one waker can be registered at a time. If another waker was previously registered,
    ///   it is overwritten and will no longer be woken.
    /// - The Waker is woken only once. Once woken, you must register it again to receive more wakes.
    /// - "Spurious wakes" are allowed: a wake doesn't guarantee the result of `recv` has
    ///   necessarily changed.
    pub fn register_recv_waker(&mut self, waker: &Waker)
        ensures
            final(self)@.rx_waker is Some,
            cloned(*waker, final(self)@.rx_waker->0),
            final(self)@ == (SocketView { rx_waker: final(self)@.rx_waker, ..old(self)@ }),
            old(self)@.wf() ==> final(self)@.wf(),
            old(self)@.wakes(final(self)@),
    {
        self.rx_waker.register(waker)
    }

    /// Register a waker for send operations.
    ///
    /// The waker is woken on state changes that might affect the return value
    /// of `send` method calls, such as space becoming available in the transmit
    /// buffer, or the socket closing.
    ///
    /// Notes:
    ///
    /// - Only one waker can be registered at a time. If another waker was previously registered,
    ///   it is overwritten and will no longer be woken.
    /// - The Waker is woken only once. Once woken, you must register it again to receive more wakes.
    /// - "Spurious wakes" are allowed: a wake doesn't guarantee the result of `send` has
    ///   necessarily changed.
    pub fn register_send_waker(&mut self, waker: &Waker)
        ensures
            final(self)@.tx_waker is Some,
            cloned(*waker, final(self)@.tx_waker->0),
            final(self)@ == (SocketView { tx_waker: final(self)@.tx_waker, ..old(self)@ }),
            old(self)@.wf() ==> final(self)@.wf(),
            old(self)@.wakes(final(self)@),
    {
        self.tx_waker.register(waker)
    }

    /// Return the remote endpoint, or None if the socket was not connected to one since it was
    /// created or reset.
    pub fn remote_endpoint(&self) -> (endpoint: Option<SocketAddr>)
        ensures
            endpoint == self@.remote_endpoint,
    {
        self.remote_endpoint
    }

    /// Return the connection state, in terms of the TCP state machine.
    pub fn state(&self) -> (state: State)
        ensures
            state == self@.state,
    {
        self.state
    }

    /// Connect to a given endpoint.
    ///
    /// The local port may optionally be provided.
    ///
    /// This function returns an error if the socket was open; see [is_open](#method.is_open).
    /// It also returns an error if the local or remote port is zero, or if the remote address
    /// is unspecified.
    pub fn connect<T>(&mut self, remote_endpoint: T, local_port: Option<u16>) -> (ret: Result<
        (),
        Error,
    >) where T: Into<SocketAddr>
        ensures
            old(self)@.wf() ==> final(self)@.wf(),
            exists|remote: SocketAddr|
                {
                    &&& #[trigger] call_ensures(T::into, (remote_endpoint,), remote)
                    &&& match old(self)@.connect_error(remote, local_port) {
                        Some(error) => ret == Err::<(), Error>(error) && final(self)@ == old(
                            self,
                        )@,
                        None => ret == Ok::<(), Error>(()) && final(self)@ == old(self)@.connect(
                            remote,
                            local_port,
                        ),
                    }
                },
            old(self)@.wakes(final(self)@),
            old(self)@.wakes(final(self)@),
    {
        let remote_endpoint: SocketAddr = remote_endpoint.into();

        if self.is_open() {
            return Err(Error::InvalidState);
        }
        if remote_endpoint.port() == 0 || remote_endpoint.ip().is_unspecified() {
            return Err(Error::Unaddressable);
        }
        if let Some(port) = local_port {
            if port == 0 {
                return Err(Error::Unaddressable);
            }
        }
        self.reset();
        self.remote_endpoint = Some(remote_endpoint);
        self.local_port = local_port;

        Ok(())
    }

    /// Close the transmit half of the full-duplex connection.
    ///
    /// Note that there is no corresponding function for the receive half of the full-duplex
    /// connection; only the remote end can close it. If you no longer wish to receive any
    /// data and would like to reuse the socket right away, use [abort](#method.abort).
    pub fn close(&mut self)
        ensures
            final(self)@ == old(self)@.close(),
            final(self)@.state == (match old(self)@.state {
                State::Listen | State::SynSent => State::Closed,
                State::SynReceived | State::Established => State::FinWait1,
                State::CloseWait => State::LastAck,
                state => state,
            }),
            old(self)@.wf() ==> final(self)@.wf(),
            old(self)@.wakes(final(self)@),
            old(self)@.wakes(final(self)@),
    {
        match self.state {
            // In the LISTEN state there is no established connection.
            State::Listen => self.set_state(State::Closed),
            // In the SYN-SENT state the remote endpoint is not yet synchronized and, upon
            // receiving an RST, will abort the connection.
            State::SynSent => self.set_state(State::Closed),
            // In the SYN-RECEIVED, ESTABLISHED and CLOSE-WAIT states the transmit half
            // of the connection is open, and needs to be explicitly closed with a FIN.
            State::SynReceived | State::Established => self.set_state(State::FinWait1),
            State::CloseWait => self.set_state(State::LastAck),
            // In the FIN-WAIT-1, CLOSING, LAST-ACK, TIME-WAIT and CLOSED states, the transmit
            // half of the connection is already closed, and no further action is needed.
            State::FinWait1
            | State::Closing
            | State::TimeWait
            | State::LastAck
            | State::Closed => (),
        }
    }

    /// Aborts the connection, if any.
    ///
    /// This function instantly closes the socket.
    ///
    /// In terms of the TCP state machine, the socket may be in any state and is moved to
    /// the `CLOSED` state.
    pub fn abort(&mut self)
        ensures
            final(self)@ == old(self)@.enter(State::Closed),
            final(self)@.state == State::Closed,
            old(self)@.rx.wf() && old(self)@.tx.wf() ==> final(self)@.wf(),
            old(self)@.wakes(final(self)@),
            old(self)@.wakes(final(self)@),
    {
        self.set_state(State::Closed);
    }

    /// Return whether the socket is passively listening for incoming connections.
    ///
    /// In terms of the TCP state machine, the socket must be in the `LISTEN` state.
    pub fn is_listening(&self) -> (b: bool)
        ensures
            b == self@.is_listening(),
            b == (self@.state == State::Listen),
    {
        match self.state {
            State::Listen => true,
            _ => false,
        }
    }

    /// Return whether the socket is open.
    ///
    /// This function returns true if the socket will process incoming or dispatch outgoing
    /// packets. Note that this does not mean that it is possible to send or receive data through
    /// the socket; for that, use [can_send](#method.can_send) or [can_recv](#method.can_recv).
    ///
    /// In terms of the TCP state machine, the socket must not be in the `CLOSED`
    /// or `TIME-WAIT` states.
    pub fn is_open(&self) -> (b: bool)
        ensures
            b == self@.is_open(),
            b == (self@.state != State::Closed && self@.state != State::TimeWait),
    {
        match self.state {
            State::Closed => false,
            State::TimeWait => false,
            _ => true,
        }
    }

    /// Return whether a connection is active.
    ///
    /// This function returns true if the socket is actively exchanging packets with
    /// a remote endpoint. Note that this does not mean that it is possible to send or receive
    /// data through the socket; for that, use [can_send](#method.can_send) or
    /// [can_recv](#method.can_recv).
    ///
    /// In terms of the TCP state machine, the socket must not be in the `CLOSED`, `TIME-WAIT`,
    /// or `LISTEN` state.
    pub fn is_active(&self) -> (b: bool)
        ensures
            b == self@.is_active(),
            b == (self@.state != State::Closed && self@.state != State::TimeWait && self@.state
                != State::Listen),
    {
        match self.state {
            State::Closed => false,
            State::TimeWait => false,
            State::Listen => false,
            _ => true,
        }
    }

    /// Return whether the transmit half of the full-duplex connection is open.
    ///
    /// This function returns true if it's possible to send data and have it arrive
    /// to the remote endpoint. However, it does not make any guarantees about the state
    /// of the transmit buffer, and even if it returns true, [send](#method.send) may
    /// not be able to enqueue any octets.
    ///
    /// In terms of the TCP state machine, the socket must be in the `ESTABLISHED` or
    /// `CLOSE-WAIT` state.
    pub fn may_send(&self) -> (b: bool)
        ensures
            b == self@.may_send(),
            b == (self@.state == State::Established || self@.state == State::CloseWait),
    {
        match self.state {
            State::Established => true,
            // In CLOSE-WAIT, the remote endpoint has closed our receive half of the connection
            // but we still can transmit indefinitely.
            State::CloseWait => true,
            _ => false,
        }
    }

    /// Return whether the receive half of the full-duplex connection is open.
    ///
    /// This function returns true if it's possible to receive data from the remote endpoint.
    /// It will return true while there is data in the receive buffer, and if there isn't,
    /// as long as the remote endpoint has not closed the connection.
    ///
    /// In terms of the TCP state machine, the socket must be in the `ESTABLISHED` or
    /// `FIN-WAIT-1` state, or have data in the receive buffer instead.
    pub fn may_recv(&self) -> (b: bool)
        ensures
            b == self@.may_recv(),
            b == (self@.state == State::Established || self@.state == State::FinWait1
                || self@.rx.length != 0),
    {
        match self.state {
            State::Established => true,
            // In FIN-WAIT-1, we have closed our transmit half of the connection but
            // we still can receive indefinitely.
            State::FinWait1 => true,
            // If we have something in the receive buffer, we can receive that.
            _ => !self.rx_buffer.is_empty(),
        }
    }

    /// Check whether the transmit half of the full-duplex connection is open
    /// (see [may_send](#method.may_send)), and the transmit buffer is not full.
    pub fn can_send(&self) -> (b: bool)
        requires
            self@.wf(),
        ensures
            b == (self@.may_send() && self@.tx.length < self@.tx.capacity()),
    {
        if !self.may_send() {
            return false;
        }
        !self.tx_buffer.is_full()
    }

    /// Return the maximum number of bytes inside the recv buffer.
    pub fn recv_capacity(&self) -> (n: usize)
        ensures
            n == self@.rx.capacity(),
    {
        self.rx_buffer.capacity()
    }

    /// Return the maximum number of bytes inside the transmit buffer.
    pub fn send_capacity(&self) -> (n: usize)
        ensures
            n == self@.tx.capacity(),
    {
        self.tx_buffer.capacity()
    }

    /// Check whether the receive half of the full-duplex connection buffer is open
    /// (see [may_recv](#method.may_recv)), and the receive buffer is not empty.
    pub fn can_recv(&self) -> (b: bool)
        ensures
            b == (self@.may_recv() && self@.rx.length != 0),
    {
        if !self.may_recv() {
            return false;
        }
        !self.rx_buffer.is_empty()
    }

    /// Check that octets can be queued to be sent, and prepare for it.
    fn prepare_send(&mut self) -> (ret: Result<(), Error>)
        ensures
            !old(self)@.may_send() ==> ret == Err::<(), Error>(Error::Illegal) && final(self)@
                == old(self)@,
            old(self)@.may_send() ==> ret == Ok::<(), Error>(()) && final(self)@ == old(
                self,
            )@.before_send(),
    {
        if !self.may_send() {
            return Err(Error::Illegal);
        }
        // The connection might have been idle for a long time, and so remote_last_ts
        // would be far in the past. Unless we clear it here, the connection would erroneously
        // be taken for timed out.
        if self.tx_buffer.is_empty() {
            self.remote_last_ts = None;
        }
        Ok(())
    }

    /// Call `f` with the largest contiguous slice of octets in the transmit buffer,
    /// and enqueue the amount of elements returned by `f`.
    ///
    /// This function returns `Err(Error::Illegal)` if the transmit half of
    /// the connection is not open; see [may_send](#method.may_send).
    pub fn send<'b, F, R>(&'b mut self, f: F) -> (ret: Result<R, Error>) where
        F: FnOnce(&'b mut [u8]) -> (usize, R),

        requires
            old(self)@.wf(),
            forall|run: &'b mut [u8]|
                old(self)@.may_send() && run@ == old(self)@.tx.compact().back() ==> f.requires(
                    (run,),
                ),
            forall|run: &'b mut [u8], r: (usize, R)|
                old(self)@.may_send() && run@ == old(self)@.tx.compact().back() && f.ensures(
                    (run,),
                    r,
                ) ==> r.0 <= run@.len(),
        ensures
            final(self)@.wf(),
            !old(self)@.may_send() ==> ret == Err::<R, Error>(Error::Illegal) && final(self)@
                == old(self)@,
            old(self)@.may_send() ==> ret is Ok && exists|run: &'b mut [u8], n: usize|
                {
                    let base = old(self)@.tx.compact();
                    &&& #[trigger] f.ensures((run,), (n, ret->Ok_0))
                    &&& run@ == base.back()
                    &&& final(run)@.len() == run@.len()
                    &&& n <= run@.len()
                    &&& final(self)@ == (SocketView {
                        tx: base.write(base.back_at(), final(run)@).grow(n as int),
                        ..old(self)@.before_send()
                    })
                    &&& final(self)@.tx.queue() == old(self)@.tx.queue() + final(run)@.take(
                        n as int,
                    )
                },
    {
        match self.prepare_send() {
            Ok(()) => {},
            Err(error) => {
                return Err(error);
            },
        }
        let ret = self.tx_buffer.enqueue_many_with(f);
        let res: Result<R, Error> = Ok(ret.1);
        assert(ret == (ret.0, res->Ok_0));
        res
    }

    /// Enqueue a sequence of octets to be sent, and fill it from a slice.
    ///
    /// This function returns the amount of octets actually enqueued, which is limited
    /// by the amount of free space in the transmit buffer; down to zero.
    ///
    /// See also [send](#method.send).
    pub fn send_slice(&mut self, data: &[u8]) -> (ret: Result<usize, Error>)
        requires
            old(self)@.wf(),
        ensures
            final(self)@.wf(),
            !old(self)@.may_send() ==> ret == Err::<usize, Error>(Error::Illegal) && final(self)@
                == old(self)@,
            old(self)@.may_send() ==> {
                &&& ret is Ok
                &&& ret->Ok_0 == old(self)@.tx.accepted(data@)
                &&& final(self)@ == old(self)@.send_slice(data@)
                &&& final(self)@.tx.queue() == old(self)@.tx.queue() + data@.take(
                    ret->Ok_0 as int,
                )
            },
            old(self)@.wakes(final(self)@),
    {
        match self.prepare_send() {
            Ok(()) => {},
            Err(error) => {
                return Err(error);
            },
        }
        Ok(self.tx_buffer.enqueue_slice(data))
    }

    /// Check that received octets can be read.
    fn recv_error_check(&self) -> (ret: Result<(), Error>)
        ensures
            self@.may_recv() ==> ret == Ok::<(), Error>(()),
            !self@.may_recv() ==> ret == Err::<(), Error>(self@.recv_error()),
    {
        // We may have received some data inside the initial SYN, but until the connection
        // is fully open we must not dequeue any data, as it may be overwritten by e.g.
        // another (stale) SYN. (We do not support TCP Fast Open.)
        if !self.may_recv() {
            match self.state {
                // The remote endpoint has sent its FIN.
                State::CloseWait | State::Closing | State::LastAck | State::TimeWait => {
                    return Err(Error::Finished);
                },
                _ => {
                    return Err(Error::Illegal);
                },
            }
        }
        Ok(())
    }

    /// Call `f` with the largest contiguous slice of octets in the receive buffer,
    /// and dequeue the amount of elements returned by `f`.
    ///
    /// This function errors if the receive half of the connection is not open.
    ///
    /// If the receive half has been gracefully closed (with a FIN packet), `Err(Error::Finished)`
    /// is returned. In this case, the previously received data is guaranteed to be complete.
    ///
    /// In all other cases, `Err(Error::Illegal)` is returned and previously received data (if any)
    /// may be incomplete (truncated).
    pub fn recv<'b, F, R>(&'b mut self, f: F) -> (ret: Result<R, Error>) where
        F: FnOnce(&'b mut [u8]) -> (usize, R),

        requires
            old(self)@.wf(),
            forall|run: &'b mut [u8]|
                old(self)@.may_recv() && run@ == old(self)@.rx.front() ==> f.requires((run,)),
            forall|run: &'b mut [u8], r: (usize, R)|
                old(self)@.may_recv() && run@ == old(self)@.rx.front() && f.ensures((run,), r)
                    ==> r.0 <= run@.len(),
        ensures
            final(self)@.wf(),
            !old(self)@.may_recv() ==> ret == Err::<R, Error>(old(self)@.recv_error())
                && final(self)@ == old(self)@,
            old(self)@.may_recv() ==> ret is Ok && exists|run: &'b mut [u8], n: usize|
                {
                    &&& #[trigger] f.ensures((run,), (n, ret->Ok_0))
                    &&& run@ == old(self)@.rx.front()
                    &&& final(run)@.len() == run@.len()
                    &&& n <= run@.len()
                    &&& final(self)@ == (SocketView {
                        rx: old(self)@.rx.write(old(self)@.rx.read_at, final(run)@).pop(n as int),
                        ..old(self)@
                    })
                    &&& final(self)@.rx.queue() == final(run)@.skip(n as int) + old(
                        self,
                    )@.rx.queue().skip(old(self)@.rx.front_len())
                },
    {
        match self.recv_error_check() {
            Ok(()) => {},
            Err(error) => {
                return Err(error);
            },
        }
        let ret = self.rx_buffer.dequeue_many_with(f);
        let res: Result<R, Error> = Ok(ret.1);
        assert(ret == (ret.0, res->Ok_0));
        res
    }

    /// Dequeue a sequence of received octets, and fill a slice from it.
    ///
    /// This function returns the amount of octets actually dequeued, which is limited
    /// by the amount of occupied space in the receive buffer; down to zero.
    ///
    /// See also [recv](#method.recv).
    pub fn recv_slice(&mut self, data: &mut [u8]) -> (ret: Result<usize, Error>)
        requires
            old(self)@.wf(),
        ensures
            final(self)@.wf(),
            !old(self)@.may_recv() ==> {
                &&& ret == Err::<usize, Error>(old(self)@.recv_error())
                &&& final(self)@ == old(self)@
                &&& final(data)@ == old(data)@
            },
            old(self)@.may_recv() ==> {
                &&& ret is Ok
                &&& ret->Ok_0 == crate::ring_buffer::smaller(
                    old(self)@.rx.length,
                    old(data)@.len() as int,
                )
                &&& final(data)@ == old(self)@.rx.queue().take(ret->Ok_0 as int) + old(
                    data,
                )@.skip(ret->Ok_0 as int)
                &&& final(self)@ == (SocketView {
                    rx: old(self)@.rx.pop(ret->Ok_0 as int),
                    ..old(self)@
                })
                &&& final(self)@.rx.queue() == old(self)@.rx.queue().skip(ret->Ok_0 as int)
            },
            old(self)@.wakes(final(self)@),
    {
        match self.recv_error_check() {
            Ok(()) => {},
            Err(error) => {
                return Err(error);
            },
        }
        Ok(self.rx_buffer.dequeue_slice(data))
    }

    /// Peek at a sequence of received octets without removing them from
    /// the receive buffer, and return a pointer to it.
    ///
    /// This function otherwise behaves identically to [recv](#method.recv).
    pub fn peek(&mut self, size: usize) -> (ret: Result<&[u8], Error>)
        requires
            old(self)@.wf(),
        ensures
            final(self)@ == old(self)@,
            !old(self)@.may_recv() ==> ret == Err::<&[u8], Error>(old(self)@.recv_error()),
            old(self)@.may_recv() ==> ret is Ok && ret->Ok_0@ == old(self)@.rx.allocated(
                0,
                size as int,
            ),
    {
        match self.recv_error_check() {
            Ok(()) => {},
            Err(error) => {
                return Err(error);
            },
        }
        Ok(self.rx_buffer.get_allocated(0, size))
    }

    /// Peek at a sequence of received octets without removing them from
    /// the receive buffer, and fill a slice from it.
    ///
    /// This function otherwise behaves identically to [recv_slice](#method.recv_slice).
    pub fn peek_slice(&mut self, data: &mut [u8]) -> (ret: Result<usize, Error>)
        requires
            old(self)@.wf(),
        ensures
            final(self)@ == old(self)@,
            !old(self)@.may_recv() ==> ret == Err::<usize, Error>(old(self)@.recv_error())
                && final(data)@ == old(data)@,
            old(self)@.may_recv() ==> {
                &&& ret is Ok
                &&& ret->Ok_0 == crate::ring_buffer::smaller(
                    old(self)@.rx.length,
                    old(data)@.len() as int,
                )
                &&& final(data)@ == old(self)@.rx.queue().take(ret->Ok_0 as int) + old(
                    data,
                )@.skip(ret->Ok_0 as int)
            },
    {
        match self.recv_error_check() {
            Ok(()) => {},
            Err(error) => {
                return Err(error);
            },
        }
        Ok(self.rx_buffer.peek_slice(data))
    }

    /// Return the amount of octets queued in the transmit buffer.
    ///
    /// Note that the Berkeley sockets interface does not have an equivalent of this API.
    pub fn send_queue(&self) -> (n: usize)
        ensures
            n == self@.tx.length,
    {
        self.tx_buffer.len()
    }

    /// Return the amount of octets queued in the receive buffer. This value can be larger than
    /// the slice read by the next `recv` or `peek` call because it includes all queued octets,
    /// and not only the octets that may be returned as a contiguous slice.
    ///
    /// Note that the Berkeley sockets interface does not have an equivalent of this API.
    pub fn recv_queue(&self) -> (n: usize)
        ensures
            n == self@.rx.length,
    {
        self.rx_buffer.len()
    }

    /// Put octets that were received at `now` into the receive buffer, as many as there is room
    /// for, and return their number.
    pub fn rx_enqueue_slice_at(&mut self, data: &[u8], now: Instant) -> (n: usize)
        requires
            old(self)@.wf(),
        ensures
            final(self)@.wf(),
            n == old(self)@.rx.accepted(data@),
            final(self)@ == old(self)@.receive(data@, now),
            final(self)@.rx.queue() == old(self)@.rx.queue() + data@.take(n as int),
            old(self)@.wakes(final(self)@),
            old(self)@.wakes(final(self)@),
    {
        let n: usize = self.rx_buffer.enqueue_slice(data);
        self.remote_last_ts = Some(now);
        if n > 0 {
            self.rx_waker.wake();
        }
        n
    }

    /// Put received octets into the receive buffer, as many as there is room for, and return
    /// their number.
    pub fn rx_enqueue_slice(&mut self, data: &[u8]) -> (n: usize)
        requires
            old(self)@.wf(),
        ensures
            final(self)@.wf(),
            n == old(self)@.rx.accepted(data@),
            exists|now: Instant|
                now.shown_by_clock() && final(self)@ == #[trigger] old(self)@.receive(data@, now),
            final(self)@.rx.queue() == old(self)@.rx.queue() + data@.take(n as int),
            old(self)@.wakes(final(self)@),
            old(self)@.wakes(final(self)@),
    {
        self.rx_enqueue_slice_at(data, Instant::now())
    }

    /// Call `f` with the largest contiguous slice of octets in the transmit buffer that wait to
    /// be sent, and dequeue the amount of octets returned by `f`.
    pub fn tx_dequeue<'b, F, R>(&'b mut self, f: F) -> (res: R) where
        F: FnOnce(&'b mut [u8]) -> (usize, R),

        requires
            old(self)@.wf(),
            forall|run: &'b mut [u8]| run@ == old(self)@.tx.front() ==> f.requires((run,)),
            forall|run: &'b mut [u8], r: (usize, R)|
                run@ == old(self)@.tx.front() && f.ensures((run,), r) ==> r.0 <= run@.len(),
        ensures
            final(self)@.wf(),
            exists|run: &'b mut [u8], n: usize|
                {
                    &&& #[trigger] f.ensures((run,), (n, res))
                    &&& run@ == old(self)@.tx.front()
                    &&& final(run)@.len() == run@.len()
                    &&& n <= run@.len()
                    &&& final(self)@ == old(self)@.sent(
                        old(self)@.tx.write(old(self)@.tx.read_at, final(run)@),
                        n as int,
                    )
                    &&& final(self)@.tx.queue() == final(run)@.skip(n as int) + old(
                        self,
                    )@.tx.queue().skip(old(self)@.tx.front_len())
                },
            old(self)@.wakes(final(self)@),
            old(self)@.wakes(final(self)@),
    {
        let ret = self.tx_buffer.dequeue_many_with(f);
        assert(ret == (ret.0, ret.1));
        if ret.0 > 0 {
            self.tx_waker.wake();
        }
        ret.1
    }

    /// Return the largest contiguous slice of octets in the transmit buffer that wait to be sent.
    ///
    /// Together with [tx_sent](#method.tx_sent) this does what
    /// [tx_dequeue](#method.tx_dequeue) does, for a sender that has to wait in between.
    pub fn tx_front<'b>(&'b mut self) -> (run: &'b mut [u8])
        requires
            old(self)@.wf(),
        ensures
            run@ == old(self)@.tx.front(),
            final(run)@.len() == run@.len(),
            final(self)@ == (SocketView {
                tx: old(self)@.tx.write(old(self)@.tx.read_at, final(run)@),
                ..old(self)@
            }),
            final(self)@.wf(),
    {
        self.tx_buffer.front_mut()
    }

    /// Dequeue `n` octets that were sent, no more than lie at the front in one piece.
    pub fn tx_sent(&mut self, n: usize)
        requires
            old(self)@.wf(),
            n <= old(self)@.tx.front_len(),
        ensures
            final(self)@.wf(),
            final(self)@ == old(self)@.sent(old(self)@.tx, n as int),
            final(self)@.tx.queue() == old(self)@.tx.queue().skip(n as int),
            old(self)@.wakes(final(self)@),
            old(self)@.wakes(final(self)@),
    {
        proof {
            crate::ring_buffer::law_pop_removes_oldest(self.tx_buffer@, n as int);
        }
        self.tx_buffer.advance(n);
        if n > 0 {
            self.tx_waker.wake();
        }
    }

    /// Enqueue a string to be sent.
    ///
    /// This function returns an error if not all of the string could be enqueued. The octets for
    /// which there was room are enqueued even then.
    pub fn write_str(&mut self, slice: &str) -> (ret: Result<(), WriteError>)
        requires
            old(self)@.wf(),
        ensures
            final(self)@.wf(),
            ret is Ok <==> old(self)@.may_send() && vstd::utf8::encode_utf8(slice@).len()
                <= old(self)@.tx.window(),
            old(self)@.may_send() ==> final(self)@ == old(self)@.send_slice(
                vstd::utf8::encode_utf8(slice@),
            ),
            !old(self)@.may_send() ==> final(self)@ == old(self)@,
            old(self)@.wakes(final(self)@),
    {
        let octets = slice.as_bytes();
        match self.send_slice(octets) {
            Ok(n) => {
                if n == octets.len() {
                    Ok(())
                } else {
                    Err(WriteError)
                }
            },
            Err(_) => Err(WriteError),
        }
    }

    /// Return when the socket is to be polled next, if it waits for a time.
    pub fn poll_at(&self) -> (at: Option<Instant>)
        ensures
            at == (match self@.timer {
                Some(timer) => Some(timer.expiry()),
                None => None,
            }),
    {
        match self.timer {
            Some(timer) => Some(timer.poll_at()),
            None => None,
        }
    }

    /// Let the socket react to the time `now`.
    pub fn poll_with(&mut self, now: Instant)
        requires
            old(self)@.wf(),
        ensures
            final(self)@.wf(),
            final(self)@ == old(self)@.poll(now),
            old(self)@.wakes(final(self)@),
            old(self)@.wakes(final(self)@),
    {
        if self.remote_endpoint.is_none() {
            return;
        }
        match (self.timer, self.state) {
            (Some(timer), State::SynSent) => {
                if timer.should_retry(now) {
                    self.set_state(State::Closed);
                }
            },
            (Some(timer), State::TimeWait) => {
                if timer.should_close(now) {
                    self.reset();
                }
            },
            _ => {},
        }
    }

    /// Let the socket react to the current time.
    pub fn poll(&mut self)
        requires
            old(self)@.wf(),
        ensures
            final(self)@.wf(),
            exists|now: Instant|
                now.shown_by_clock() && final(self)@ == #[trigger] old(self)@.poll(now),
            old(self)@.wakes(final(self)@),
            old(self)@.wakes(final(self)@),
    {
        self.poll_with(Instant::now())
    }
}

} // verus!
