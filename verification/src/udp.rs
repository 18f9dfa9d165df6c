//! UDP sockets.
use core::task::Waker;
use vstd::prelude::*;

pub use crate::net::{Ipv4Addr, SocketAddr, SocketAddrV4};

use crate::ring_buffer::{RingBuffer, RingView};
use crate::set::SocketHandle;
use crate::time::{Duration, Instant};
use crate::waker::WakerRegistration;
use crate::Error;

verus! {

/// A UDP socket ring buffer.
pub type SocketBuffer<'a> = RingBuffer<'a, u8>;

/// The state of a socket.
#[derive(Debug, Clone, Copy, PartialEq, Eq, Structural)]
pub enum State {
    Closed,
    Established,
}

impl Default for State {
    fn default() -> (state: State)
        ensures
            state == State::Closed,
    {
        State::Closed
    }
}

/// The time between two checks for available data, in seconds.
pub const CHECK_INTERVAL_SECS: u64 = 15;

/// The time after which a socket that the remote endpoint closed can be recycled, in seconds.
pub const READ_TIMEOUT_SECS: u64 = 15;

/// What a UDP socket is made of.
#[verifier::ext_equal]
pub struct SocketView {
    pub handle: SocketHandle,
    pub endpoint: Option<SocketAddr>,
    pub check_interval: Duration,
    pub read_timeout: Option<Duration>,
    pub state: State,
    pub available_data: usize,
    pub rx: RingView<u8>,
    pub tx: RingView<u8>,
    pub last_check_time: Option<Instant>,
    pub closed_time: Option<Instant>,
    pub rx_waker: Option<Waker>,
    pub tx_waker: Option<Waker>,
}

impl SocketView {
    /// Well-formedness: that of the two buffers.
    pub open spec fn wf(self) -> bool {
        self.rx.wf() && self.tx.wf()
    }

    /// A socket that was never used, with these buffers.
    pub open spec fn fresh(rx: RingView<u8>, tx: RingView<u8>) -> SocketView {
        SocketView {
            handle: SocketHandle(0),
            endpoint: None,
            check_interval: Duration::of_secs(CHECK_INTERVAL_SECS),
            read_timeout: Some(Duration::of_secs(READ_TIMEOUT_SECS)),
            state: State::Closed,
            available_data: 0,
            rx,
            tx,
            last_check_time: None,
            closed_time: None,
            rx_waker: None,
            tx_waker: None,
        }
    }

    /// Whether the socket is bound to an endpoint.
    pub open spec fn is_open(self) -> bool {
        self.endpoint is Some
    }

    /// Whether each waker that is no longer registered in `after`, with no other in its place, was
    /// woken.
    pub open spec fn wakes(self, after: SocketView) -> bool {
        &&& self.rx_waker is Some && after.rx_waker is None ==> crate::waker::woken(
            self.rx_waker->0,
        )
        &&& self.tx_waker is Some && after.tx_waker is None ==> crate::waker::woken(
            self.tx_waker->0,
        )
    }

    /// No waker registered any more. This is what waking both tasks leaves behind; that they are
    /// woken is no part of a view, and said by `wakes`.
    pub open spec fn wake(self) -> SocketView {
        SocketView { rx_waker: None, tx_waker: None, ..self }
    }

    /// Why the socket cannot be bound to `endpoint`, if it cannot.
    pub open spec fn bind_error(self, endpoint: SocketAddr) -> Option<Error> {
        if self.is_open() {
            Some(Error::Illegal)
        } else if endpoint.port_number() == 0 {
            Some(Error::Unaddressable)
        } else {
            None
        }
    }

    /// The socket bound to `endpoint`.
    pub open spec fn bind(self, endpoint: SocketAddr) -> SocketView {
        SocketView { endpoint: Some(endpoint), ..self.wake() }
    }

    /// The socket that is bound to no endpoint.
    pub open spec fn close(self) -> SocketView {
        SocketView { endpoint: None, ..self.wake() }
    }

    /// The socket after as much of `data` as there is room for was received.
    pub open spec fn receive(self, data: Seq<u8>) -> SocketView {
        SocketView {
            rx: self.rx.enqueue(data),
            rx_waker: if self.rx.accepted(data) > 0 {
                None
            } else {
                self.rx_waker
            },
            ..self
        }
    }

    /// Why there is no received slice to hand out, if there is none.
    pub open spec fn recv_error(self) -> Option<Error> {
        if !self.is_open() {
            Some(Error::Illegal)
        } else if self.rx.length == 0 {
            Some(Error::Exhausted)
        } else {
            None
        }
    }

    /// Whether at `now` the last check for available data lies back far enough for another.
    pub open spec fn check_due(self, now: Instant) -> bool {
        self.last_check_time matches Some(last) && now.elapsed(last, self.check_interval)
    }

    /// The socket after a check for available data at `now`.
    pub open spec fn checked(self, now: Instant) -> SocketView {
        SocketView { last_check_time: Some(now), ..self }
    }

    /// The socket after the remote endpoint closed it at `now`.
    pub open spec fn closed_by_remote(self, now: Instant) -> SocketView {
        SocketView { closed_time: Some(now), ..self }
    }

    /// Whether at `now` the remote endpoint has closed the socket long enough ago.
    pub open spec fn recyclable(self, now: Instant) -> bool {
        &&& self.read_timeout matches Some(timeout)
        &&& self.closed_time matches Some(closed)
        &&& now.elapsed(closed, timeout)
    }
}

/// A socket is bound to at most one endpoint: a new one is not open, binding opens it and keeps
/// the endpoint, and as long as it is open no second endpoint is accepted.
pub proof fn law_one_endpoint_at_a_time(
    socket: SocketView,
    rx: RingView<u8>,
    tx: RingView<u8>,
    endpoint: SocketAddr,
    other: SocketAddr,
)
    requires
        socket.bind_error(endpoint) is None,
    ensures
        !SocketView::fresh(rx, tx).is_open(),
        socket.bind(endpoint).is_open(),
        socket.bind(endpoint).endpoint == Some(endpoint),
        socket.bind(endpoint).bind_error(other) == Some(Error::Illegal),
{
}

/// A closed socket can be bound again, to every endpoint whose port is not zero. Closing keeps
/// what was received, and closing again changes nothing.
pub proof fn law_close_frees_the_socket(socket: SocketView, endpoint: SocketAddr)
    ensures
        !socket.close().is_open(),
        endpoint.port_number() != 0 ==> socket.close().bind_error(endpoint) is None,
        socket.close().rx == socket.rx,
        socket.close().close() == socket.close(),
{
}

/// Closing and binding again gives back what was received before.
pub proof fn law_rebinding_keeps_received_octets(socket: SocketView, endpoint: SocketAddr)
    requires
        socket.wf(),
    ensures
        socket.close().bind(endpoint).rx == socket.rx,
        socket.close().bind(endpoint).recv_error() is None <==> socket.rx.length > 0,
{
}

/// As soon as the outcome of reading may change, because there are more octets to read or because
/// reading fails in another way, the waker of the task that waits to read is taken out of its
/// registration, which is done to wake it. The law shows the emptied registration; that the
/// waker was woken is said by `wakes` in the contracts of the operations.
pub proof fn law_readers_are_woken(
    socket: SocketView,
    after: SocketView,
    endpoint: SocketAddr,
    data: Seq<u8>,
)
    requires
        socket.wf(),
        ({
            ||| after == socket.bind(endpoint)
            ||| after == socket.close()
            ||| after == socket.receive(data)
        }),
        ({
            ||| after.rx.length > socket.rx.length
            ||| after.recv_error() != socket.recv_error()
        }),
    ensures
        after.rx_waker is None,
{
}

/// The first check for available data is never due. From then on a check is due as soon as the
/// check interval has passed since the one before, and stays due.
pub proof fn law_check_is_due_after_the_interval(
    socket: SocketView,
    last: Instant,
    now: Instant,
    later: Instant,
)
    requires
        now.ticks <= later.ticks,
    ensures
        socket.last_check_time is None ==> !socket.check_due(now),
        socket.checked(last).check_due(now) <==> now.ticks >= last.ticks
            + socket.check_interval.ticks,
        socket.check_due(now) ==> socket.check_due(later),
{
}

/// A socket that the remote endpoint did not close is never recycled. One that it closed can be
/// recycled as soon as the read timeout has passed, if there is one, and from then on.
pub proof fn law_recycled_after_the_timeout(
    socket: SocketView,
    closed: Instant,
    now: Instant,
    later: Instant,
)
    requires
        now.ticks <= later.ticks,
    ensures
        socket.closed_time is None ==> !socket.recyclable(now),
        socket.read_timeout matches Some(timeout) ==> (socket.closed_by_remote(closed).recyclable(
            now,
        ) <==> now.ticks >= closed.ticks + timeout.ticks),
        socket.read_timeout is None ==> !socket.recyclable(now),
        socket.recyclable(now) ==> socket.recyclable(later),
{
}

/// The receive buffer is a stream: receiving two pieces, one after the other, queues what
/// receiving both at once queues.
pub proof fn law_received_pieces_join(socket: SocketView, first: Seq<u8>, second: Seq<u8>)
    requires
        socket.wf(),
    ensures
        socket.receive(first).receive(second).rx.queue() == socket.receive(
            first + second,
        ).rx.queue(),
        socket.receive(first).rx.accepted(second) + socket.rx.accepted(first)
            == socket.rx.accepted(first + second),
{
    crate::ring_buffer::law_pieces_join(socket.rx, first, second);
}

/// What was received into an empty buffer with room for it is read back octet for octet, in
/// order, and leaves the buffer empty.
pub proof fn law_received_is_read_back(socket: SocketView, data: Seq<u8>)
    requires
        socket.wf(),
        socket.rx.length == 0,
        data.len() <= socket.rx.capacity(),
    ensures
        socket.receive(data).rx.queue() == data,
        socket.receive(data).rx.pop(data.len() as int).queue() == Seq::<u8>::empty(),
{
    crate::ring_buffer::law_first_in_first_out(socket.rx, data);
}

/// Peeking shows what reading gives: the octets at the front of the receive buffer that lie in
/// one piece, at most as many as were asked for, which are the first ones to be read.
pub proof fn law_peek_shows_what_is_read(socket: SocketView, size: int)
    requires
        socket.wf(),
        0 <= size,
    ensures
        socket.rx.allocated(0, size) == socket.rx.front().take(
            crate::ring_buffer::smaller(size, socket.rx.front_len()),
        ),
        socket.rx.allocated(0, size) == socket.rx.queue().take(
            socket.rx.allocated(0, size).len() as int,
        ),
        size > 0 && socket.rx.length > 0 ==> socket.rx.allocated(0, size).len() > 0,
{
    crate::ring_buffer::law_peek_is_prefix(socket.rx, size);
}

/// A socket is open exactly if it has an endpoint, whatever its other fields hold.
pub proof fn law_open_is_bound(socket: SocketView, other: SocketView)
    ensures
        socket.is_open() <==> socket.endpoint is Some,
        (socket.endpoint is Some) == (other.endpoint is Some) ==> socket.is_open()
            == other.is_open(),
{
}

/// Whether there is a received slice to hand out follows from whether the socket is bound and
/// whether anything is queued, and from nothing else.
pub proof fn law_what_can_be_read(socket: SocketView, other: SocketView)
    ensures
        socket.endpoint is None ==> socket.recv_error() == Some(Error::Illegal),
        socket.endpoint is Some && socket.rx.length == 0 ==> socket.recv_error() == Some(
            Error::Exhausted,
        ),
        socket.endpoint is Some && socket.rx.length != 0 ==> socket.recv_error() is None,
        socket.endpoint == other.endpoint && socket.rx == other.rx ==> socket.recv_error()
            == other.recv_error(),
{
}

/// A close by the remote endpoint leaves the socket bound and readable: it changes neither whether
/// the socket is open, nor what is queued, nor the outcome of reading. Only its time is noted.
pub proof fn law_remote_close_keeps_octets_readable(socket: SocketView, now: Instant)
    ensures
        socket.closed_by_remote(now).is_open() == socket.is_open(),
        socket.closed_by_remote(now).recv_error() == socket.recv_error(),
        socket.closed_by_remote(now).rx == socket.rx,
        socket.closed_by_remote(now) == (SocketView { closed_time: Some(now), ..socket }),
        socket.endpoint is Some && socket.rx.length > 0 ==> socket.closed_by_remote(
            now,
        ).recv_error() is None,
{
}

/// A socket can be bound exactly if it is not bound yet and the port is not zero. No other field
/// has a say.
pub proof fn law_what_can_be_bound(socket: SocketView, endpoint: SocketAddr)
    ensures
        socket.endpoint is Some ==> socket.bind_error(endpoint) == Some(Error::Illegal),
        socket.endpoint is None && endpoint.port_number() == 0 ==> socket.bind_error(endpoint)
            == Some(Error::Unaddressable),
        socket.endpoint is None && endpoint.port_number() != 0 ==> socket.bind_error(
            endpoint,
        ) is None,
{
}

/// Binding and closing set the endpoint and take out both wakers, and change nothing else. A check
/// for available data changes nothing but its own time.
pub proof fn law_binding_changes_nothing_else(
    socket: SocketView,
    endpoint: SocketAddr,
    now: Instant,
)
    ensures
        socket.bind(endpoint) == (SocketView {
            endpoint: Some(endpoint),
            rx_waker: None,
            tx_waker: None,
            ..socket
        }),
        socket.close() == (SocketView { endpoint: None, rx_waker: None, tx_waker: None, ..socket }),
        socket.checked(now) == (SocketView { last_check_time: Some(now), ..socket }),
{
}

/// A new socket is closed, not bound, and has nothing but its buffers. It checks for data every
/// fifteen seconds, and can be recycled fifteen seconds after the remote endpoint closed it.
pub proof fn law_new_socket_is_blank(rx: RingView<u8>, tx: RingView<u8>)
    ensures
        SocketView::fresh(rx, tx).rx == rx,
        SocketView::fresh(rx, tx).tx == tx,
        SocketView::fresh(rx, tx).handle == SocketHandle(0),
        SocketView::fresh(rx, tx).endpoint is None,
        SocketView::fresh(rx, tx).check_interval.ticks == crate::time::ticks_of_secs(15),
        SocketView::fresh(rx, tx).read_timeout == Some(
            Duration { ticks: crate::time::ticks_of_secs(15) },
        ),
        SocketView::fresh(rx, tx).state == State::Closed,
        SocketView::fresh(rx, tx).available_data == 0,
        SocketView::fresh(rx, tx).last_check_time is None,
        SocketView::fresh(rx, tx).closed_time is None,
        SocketView::fresh(rx, tx).rx_waker is None,
        SocketView::fresh(rx, tx).tx_waker is None,
{
}

/// A socket is well-formed exactly if its buffers are.
pub proof fn law_what_is_well_formed(socket: SocketView)
    ensures
        socket.wf() <==> socket.rx.wf() && socket.tx.wf(),
{
}

/// Receiving queues octets for reading, on a bound socket as on any other. The waker of the reader
/// is taken out exactly if an octet was queued, and nothing else changes.
pub proof fn law_receive_queues_octets(socket: SocketView, data: Seq<u8>)
    requires
        socket.wf(),
    ensures
        data.len() <= socket.rx.storage.len() - socket.rx.length ==> socket.receive(data).rx.queue()
            == socket.rx.queue() + data,
        data.len() > socket.rx.storage.len() - socket.rx.length ==> socket.receive(data).rx.queue()
            == socket.rx.queue() + data.take(socket.rx.storage.len() - socket.rx.length),
        socket.receive(data) == (SocketView {
            rx: socket.receive(data).rx,
            rx_waker: socket.receive(data).rx_waker,
            ..socket
        }),
        socket.receive(data).rx.length == socket.rx.length ==> socket.receive(data).rx_waker
            == socket.rx_waker,
        socket.receive(data).rx.length > socket.rx.length ==> socket.receive(data).rx_waker is None,
{
    crate::ring_buffer::law_enqueue_appends(socket.rx, data);
    assert(data.take(data.len() as int) =~= data);
}

/// Whether a check is due and whether a socket can be recycled depend on the times and spans that
/// they are about, and on nothing else.
pub proof fn law_times_decide(socket: SocketView, other: SocketView, now: Instant)
    ensures
        socket.last_check_time == other.last_check_time && socket.check_interval
            == other.check_interval ==> socket.check_due(now) == other.check_due(now),
        socket.closed_time == other.closed_time && socket.read_timeout == other.read_timeout
            ==> socket.recyclable(now) == other.recyclable(now),
{
}

/// A waker leaves its registration by being woken, or by being replaced by another.
pub proof fn law_wakers_leave_by_being_woken(socket: SocketView, after: SocketView)
    requires
        socket.wakes(after),
    ensures
        socket.rx_waker matches Some(waker) ==> crate::waker::woken(waker)
            || after.rx_waker is Some,
        socket.tx_waker matches Some(waker) ==> crate::waker::woken(waker)
            || after.tx_waker is Some,
{
}

/// A User Datagram Protocol socket.
///
/// A UDP socket is bound to a specific endpoint, and owns transmit and receive
/// packet buffers.
#[derive(Debug)]
pub struct Socket<'a> {
    handle: SocketHandle,
    endpoint: Option<SocketAddr>,
    check_interval: Duration,
    read_timeout: Option<Duration>,
    state: State,
    available_data: usize,
    rx_buffer: SocketBuffer<'a>,
    tx_buffer: SocketBuffer<'a>,
    last_check_time: Option<Instant>,
    closed_time: Option<Instant>,
    rx_waker: WakerRegistration,
    tx_waker: WakerRegistration,
}

impl<'a> View for Socket<'a> {
    type V = SocketView;

    closed spec fn view(&self) -> SocketView {
        SocketView {
            handle: self.handle,
            endpoint: self.endpoint,
            check_interval: self.check_interval,
            read_timeout: self.read_timeout,
            state: self.state,
            available_data: self.available_data,
            rx: self.rx_buffer@,
            tx: self.tx_buffer@,
            last_check_time: self.last_check_time,
            closed_time: self.closed_time,
            rx_waker: self.rx_waker@,
            tx_waker: self.tx_waker@,
        }
    }
}

/// The view of a socket shows every field as it is.
proof fn law_view_shows_every_field<'a>(socket: Socket<'a>)
    ensures
        socket@.handle == socket.handle,
        socket@.endpoint == socket.endpoint,
        socket@.check_interval == socket.check_interval,
        socket@.read_timeout == socket.read_timeout,
        socket@.state == socket.state,
        socket@.available_data == socket.available_data,
        socket@.last_check_time == socket.last_check_time,
        socket@.closed_time == socket.closed_time,
        socket@.rx == socket.rx_buffer@,
        socket@.tx == socket.tx_buffer@,
        socket@.rx_waker == socket.rx_waker@,
        socket@.tx_waker == socket.tx_waker@,
{
}

impl<'a> Socket<'a> {
    /// Create an UDP socket with the given buffers.
    pub fn new(
        rx_buffer: impl Into<SocketBuffer<'a>>,
        tx_buffer: impl Into<SocketBuffer<'a>>,
    ) -> (socket: Socket<'a>)
        ensures
            exists|rx: SocketBuffer<'a>, tx: SocketBuffer<'a>|
                {
                    &&& #[trigger] call_ensures(Into::into, (rx_buffer,), rx)
                    &&& #[trigger] call_ensures(Into::into, (tx_buffer,), tx)
                    &&& socket@ == SocketView::fresh(rx@, tx@)
                },
    {
        Socket {
            handle: SocketHandle(0),
            check_interval: Duration::from_secs(CHECK_INTERVAL_SECS),
            state: State::Closed,
            read_timeout: Some(Duration::from_secs(READ_TIMEOUT_SECS)),
            endpoint: None,
            available_data: 0,
            rx_buffer: rx_buffer.into(),
            tx_buffer: tx_buffer.into(),
            last_check_time: None,
            closed_time: None,
            rx_waker: WakerRegistration::new(),
            tx_waker: WakerRegistration::new(),
        }
    }

    /// Return the socket handle.
    pub fn handle(&self) -> (handle: SocketHandle)
        ensures
            handle == self@.handle,
    {
        self.handle
    }

    /// Set the socket handle.
    pub fn update_handle(&mut self, handle: SocketHandle)
        ensures
            final(self)@ == (SocketView { handle, ..old(self)@ }),
    {
        self.handle = handle;
    }

    /// Register a waker for receive operations.
    ///
    /// The waker is woken on state changes that might affect the return value
    /// of `recv` method calls, such as receiving data, or the socket closing.
    ///
    /// Notes:
    ///
    /// - Only one waker can be registered at a time. If another waker was previously registered,
    ///   it is overwritten and will no longer be woken.
    /// - The Waker is woken only once. Once woken, you must register it again to receive more wakes.
    /// - "Spurious wakes" are allowed: a wake doesn't guarantee the result of `recv` has
    ///   necessarily changed.
    pub fn register_recv_waker(&mut self, waker: &Waker)
        ensures
            final(self)@.rx_waker is Some,
            cloned(*waker, final(self)@.rx_waker->0),
            final(self)@ == (SocketView { rx_waker: final(self)@.rx_waker, ..old(self)@ }),
    {
        self.rx_waker.register(waker)
    }

    /// Register a waker for send operations.
    ///
    /// The waker is woken on state changes that might affect the return value
    /// of `send` method calls, such as space becoming available in the transmit
    /// buffer, or the socket closing.
    ///
    /// Notes:
    ///
    /// - Only one waker can be registered at a time. If another waker was previously registered,
    ///   it is overwritten and will no longer be woken.
    /// - The Waker is woken only once. Once woken, you must register it again to receive more wakes.
    /// - "Spurious wakes" are allowed: a wake doesn't guarantee the result of `send` has
    ///   necessarily changed.
    pub fn register_send_waker(&mut self, waker: &Waker)
        ensures
            final(self)@.tx_waker is Some,
            cloned(*waker, final(self)@.tx_waker->0),
            final(self)@ == (SocketView { tx_waker: final(self)@.tx_waker, ..old(self)@ }),
    {
        self.tx_waker.register(waker)
    }

    /// Return the bound endpoint.
    pub fn endpoint(&self) -> (endpoint: Option<SocketAddr>)
        ensures
            endpoint == self@.endpoint,
    {
        self.endpoint
    }

    /// Return the connection state, in terms of the UDP connection.
    pub fn state(&self) -> (state: State)
        ensures
            state == self@.state,
    {
        self.state
    }

    /// Set the connection state.
    pub fn set_state(&mut self, state: State)
        ensures
            final(self)@ == (SocketView { state, ..old(self)@ }),
    {
        self.state = state;
    }

    /// Note a check for available data at `now`, and return whether at `later` the check before
    /// lies back far enough.
    pub fn should_update_available_data_at(&mut self, now: Instant, later: Instant) -> (b: bool)
        ensures
            b == old(self)@.check_due(later),
            final(self)@ == old(self)@.checked(now),
    {
        let last_check_time = self.last_check_time;
        self.last_check_time = Some(now);
        match last_check_time {
            Some(last) => later.has_elapsed(last, self.check_interval),
            None => false,
        }
    }

    /// Note a check for available data, and return whether the check before lies back far
    /// enough.
    pub fn should_update_available_data(&mut self) -> (b: bool)
        ensures
            exists|now: Instant|
                now.shown_by_clock() && final(self)@ == #[trigger] old(self)@.checked(now),
            exists|later: Instant|
                later.shown_by_clock() && b == #[trigger] old(self)@.check_due(later),
    {
        let now = Instant::now();
        let later = Instant::now();
        self.should_update_available_data_at(now, later)
    }

    /// Return whether at `now` the socket can be recycled: the remote endpoint closed it, and
    /// the time to read what is left is over.
    pub fn recycle_at(&self, now: Instant) -> (b: bool)
        ensures
            b == self@.recyclable(now),
    {
        if let Some(read_timeout) = self.read_timeout {
            match self.closed_time {
                Some(closed_time) => now.has_elapsed(closed_time, read_timeout),
                None => false,
            }
        } else {
            false
        }
    }

    /// Return whether the socket can be recycled: the remote endpoint closed it, and the time to
    /// read what is left is over.
    pub fn recycle(&self) -> (b: bool)
        ensures
            exists|now: Instant| now.shown_by_clock() && b == #[trigger] self@.recyclable(now),
    {
        self.recycle_at(Instant::now())
    }

    /// Note that the remote endpoint closed the socket at `now`.
    pub fn closed_by_remote_at(&mut self, now: Instant)
        ensures
            final(self)@ == old(self)@.closed_by_remote(now),
    {
        self.closed_time = Some(now);
    }

    /// Note that the remote endpoint closed the socket.
    pub fn closed_by_remote(&mut self)
        ensures
            exists|now: Instant|
                now.shown_by_clock() && final(self)@ == #[trigger] old(self)@.closed_by_remote(now),
    {
        self.closed_by_remote_at(Instant::now())
    }

    /// Set available data.
    pub fn set_available_data(&mut self, available_data: usize)
        ensures
            final(self)@ == (SocketView { available_data, ..old(self)@ }),
    {
        self.available_data = available_data;
    }

    /// Get the number of bytes available to ingress.
    pub fn get_available_data(&self) -> (n: usize)
        ensures
            n == self@.available_data,
    {
        self.available_data
    }

    /// Return the number of octets that the receive buffer has room for.
    pub fn rx_window(&self) -> (n: usize)
        requires
            self@.wf(),
        ensures
            n == self@.rx.window(),
    {
        self.rx_buffer.window()
    }

    /// Bind the socket to the given endpoint.
    ///
    /// This function returns `Err(Error::Illegal)` if the socket was open
    /// (see [is_open](#method.is_open)), and `Err(Error::Unaddressable)`
    /// if the port in the given endpoint is zero.
    pub fn bind<T: Into<SocketAddr>>(&mut self, endpoint: T) -> (ret: Result<(), Error>)
        ensures
            exists|bound: SocketAddr|
                {
                    &&& #[trigger] call_ensures(T::into, (endpoint,), bound)
                    &&& match old(self)@.bind_error(bound) {
                        Some(error) => ret == Err::<(), Error>(error) && final(self)@ == old(
                            self,
                        )@,
                        None => ret == Ok::<(), Error>(()) && final(self)@ == old(self)@.bind(
                            bound,
                        ),
                    }
                },
            old(self)@.wakes(final(self)@),
    {
        let endpoint: SocketAddr = endpoint.into();

        if self.is_open() {
            return Err(Error::Illegal);
        }
        if endpoint.port() == 0 {
            return Err(Error::Unaddressable);
        }
        self.endpoint = Some(endpoint);
        self.rx_waker.wake();
        self.tx_waker.wake();
        Ok(())
    }

    /// Check whether the socket is open.
    pub fn is_open(&self) -> (b: bool)
        ensures
            b == self@.is_open(),
            b == (self@.endpoint is Some),
    {
        self.endpoint.is_some()
    }

    /// Check the receive buffer: return whether it has room left, that is, whether it is not
    /// full.
    pub fn can_recv(&self) -> (b: bool)
        requires
            self@.wf(),
        ensures
            b == (self@.rx.length < self@.rx.capacity()),
    {
        !self.rx_buffer.is_full()
    }

    /// Check that there is a received slice to hand out.
    fn recv_error_check(&self) -> (ret: Result<(), Error>)
        ensures
            self@.recv_error() matches Some(error) ==> ret == Err::<(), Error>(error),
            self@.recv_error() is None ==> ret == Ok::<(), Error>(()),
    {
        if !self.is_open() {
            return Err(Error::Illegal);
        }
        if self.rx_buffer.is_empty() {
            return Err(Error::Exhausted);
        }
        Ok(())
    }

    /// Call `f` with the largest contiguous slice of received octets, and dequeue the amount of
    /// octets returned by `f`.
    ///
    /// This function returns `Err(Error::Illegal)` if the socket is not open, and
    /// `Err(Error::Exhausted)` if the receive buffer is empty.
    pub fn recv<'b, F, R>(&'b mut self, f: F) -> (ret: Result<R, Error>) where
        F: FnOnce(&'b mut [u8]) -> (usize, R),

        requires
            old(self)@.wf(),
            forall|run: &'b mut [u8]|
                old(self)@.recv_error() is None && run@ == old(self)@.rx.front() ==> f.requires(
                    (run,),
                ),
            forall|run: &'b mut [u8], r: (usize, R)|
                old(self)@.recv_error() is None && run@ == old(self)@.rx.front() && f.ensures(
                    (run,),
                    r,
                ) ==> r.0 <= run@.len(),
        ensures
            final(self)@.wf(),
            old(self)@.recv_error() matches Some(error) ==> ret == Err::<R, Error>(error)
                && final(self)@ == old(self)@,
            old(self)@.recv_error() is None ==> ret is Ok && exists|run: &'b mut [u8], n: usize|
                {
                    &&& #[trigger] f.ensures((run,), (n, ret->Ok_0))
                    &&& run@ == old(self)@.rx.front()
                    &&& final(run)@.len() == run@.len()
                    &&& n <= run@.len()
                    &&& final(self)@ == (SocketView {
                        rx: old(self)@.rx.write(old(self)@.rx.read_at, final(run)@).pop(n as int),
                        ..old(self)@
                    })
                    &&& final(self)@.rx.queue() == final(run)@.skip(n as int) + old(
                        self,
                    )@.rx.queue().skip(old(self)@.rx.front_len())
                },
    {
        match self.recv_error_check() {
            Ok(()) => {},
            Err(error) => {
                return Err(error);
            },
        }
        let ret = self.rx_buffer.dequeue_many_with(f);
        let res: Result<R, Error> = Ok(ret.1);
        assert(ret == (ret.0, res->Ok_0));
        res
    }

    /// Dequeue received octets into the given slice, and return the amount of octets copied,
    /// which is limited by the amount of occupied space in the receive buffer; down to zero.
    ///
    /// This function returns `Err(Error::Illegal)` if the socket is not open.
    ///
    /// See also [recv](#method.recv).
    pub fn recv_slice(&mut self, data: &mut [u8]) -> (ret: Result<usize, Error>)
        requires
            old(self)@.wf(),
        ensures
            final(self)@.wf(),
            !old(self)@.is_open() ==> {
                &&& ret == Err::<usize, Error>(Error::Illegal)
                &&& final(self)@ == old(self)@
                &&& final(data)@ == old(data)@
            },
            old(self)@.is_open() ==> {
                &&& ret is Ok
                &&& ret->Ok_0 == crate::ring_buffer::smaller(
                    old(self)@.rx.length,
                    old(data)@.len() as int,
                )
                &&& final(data)@ == old(self)@.rx.queue().take(ret->Ok_0 as int) + old(
                    data,
                )@.skip(ret->Ok_0 as int)
                &&& final(self)@ == (SocketView {
                    rx: old(self)@.rx.pop(ret->Ok_0 as int),
                    ..old(self)@
                })
                &&& final(self)@.rx.queue() == old(self)@.rx.queue().skip(ret->Ok_0 as int)
            },
    {
        if !self.is_open() {
            return Err(Error::Illegal);
        }
        Ok(self.rx_buffer.dequeue_slice(data))
    }

    /// Put received octets into the receive buffer, as many as there is room for, and return
    /// their number.
    pub fn rx_enqueue_slice(&mut self, data: &[u8]) -> (n: usize)
        requires
            old(self)@.wf(),
        ensures
            final(self)@.wf(),
            n == old(self)@.rx.accepted(data@),
            final(self)@ == old(self)@.receive(data@),
            final(self)@.rx.queue() == old(self)@.rx.queue() + data@.take(n as int),
            old(self)@.wakes(final(self)@),
    {
        let n: usize = self.rx_buffer.enqueue_slice(data);
        if n > 0 {
            self.rx_waker.wake();
        }
        n
    }

    /// Return the largest contiguous slice of received octets, at most `size` octets long,
    /// without removing them from the receive buffer.
    /// This function otherwise behaves identically to [recv](#method.recv).
    ///
    /// It returns `Err(Error::Exhausted)` if the receive buffer is empty.
    pub fn peek(&mut self, size: usize) -> (ret: Result<&[u8], Error>)
        requires
            old(self)@.wf(),
        ensures
            final(self)@ == old(self)@,
            old(self)@.recv_error() matches Some(error) ==> ret == Err::<&[u8], Error>(error),
            old(self)@.recv_error() is None ==> ret is Ok && ret->Ok_0@ == old(
                self,
            )@.rx.allocated(0, size as int),
    {
        match self.recv_error_check() {
            Ok(()) => {},
            Err(error) => {
                return Err(error);
            },
        }
        Ok(self.rx_buffer.get_allocated(0, size))
    }

    /// Copy received octets into the given slice, and return the amount of octets copied,
    /// without removing them from the receive buffer.
    /// This function otherwise behaves identically to [recv_slice](#method.recv_slice).
    ///
    /// See also [peek](#method.peek).
    pub fn peek_slice(&mut self, data: &mut [u8]) -> (ret: Result<usize, Error>)
        requires
            old(self)@.wf(),
        ensures
            final(self)@ == old(self)@,
            !old(self)@.is_open() ==> ret == Err::<usize, Error>(Error::Illegal)
                && final(data)@ == old(data)@,
            old(self)@.is_open() ==> {
                &&& ret is Ok
                &&& ret->Ok_0 == crate::ring_buffer::smaller(
                    old(self)@.rx.length,
                    old(data)@.len() as int,
                )
                &&& final(data)@ == old(self)@.rx.queue().take(ret->Ok_0 as int) + old(
                    data,
                )@.skip(ret->Ok_0 as int)
            },
    {
        if !self.is_open() {
            return Err(Error::Illegal);
        }
        Ok(self.rx_buffer.peek_slice(data))
    }

    /// Unbind the socket.
    pub fn close(&mut self)
        ensures
            final(self)@ == old(self)@.close(),
            old(self)@.wakes(final(self)@),
    {
        self.endpoint = None;
        self.rx_waker.wake();
        self.tx_waker.wake();
    }
}

} // verus!
