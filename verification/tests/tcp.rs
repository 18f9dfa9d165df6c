use std::sync::atomic::{AtomicUsize, Ordering};
use std::sync::Arc;
use std::task::{Wake, Waker};

use ublox_sockets::net::{Ipv4Addr, Ipv6Addr, SocketAddr, SocketAddrV4, SocketAddrV6};
use ublox_sockets::tcp::{Socket, State, WriteError};
use ublox_sockets::time::{Duration, Instant};
use ublox_sockets::{ChannelId, Error, PeerHandle};

const ALL_STATES: [State; 10] = [
    State::Closed,
    State::Listen,
    State::SynSent,
    State::SynReceived,
    State::Established,
    State::FinWait1,
    State::CloseWait,
    State::Closing,
    State::LastAck,
    State::TimeWait,
];

/// Counts how often it was woken.
struct Counter(AtomicUsize);

impl Wake for Counter {
    fn wake(self: Arc<Self>) {
        self.0.fetch_add(1, Ordering::SeqCst);
    }
}

fn counter() -> (Arc<Counter>, Waker) {
    let counter = Arc::new(Counter(AtomicUsize::new(0)));
    (counter.clone(), Waker::from(counter))
}

fn count(counter: &Counter) -> usize {
    counter.0.load(Ordering::SeqCst)
}

fn endpoint() -> SocketAddrV4 {
    SocketAddrV4::new(Ipv4Addr::new(192, 168, 0, 1), 80)
}

#[test]
fn tcp_state_names() {
    let names: Vec<&str> = ALL_STATES.iter().map(|state| state.name()).collect();
    assert_eq!(
        names,
        vec![
            "CLOSED",
            "LISTEN",
            "SYN-SENT",
            "SYN-RECEIVED",
            "ESTABLISHED",
            "FIN-WAIT-1",
            "CLOSE-WAIT",
            "CLOSING",
            "LAST-ACK",
            "TIME-WAIT",
        ]
    );
}

#[test]
fn new_tcp_socket_is_closed() {
    let mut rx = [0u8; 3];
    let mut tx = [0u8; 5];
    let socket = Socket::new(&mut rx[..], &mut tx[..]);
    assert_eq!(socket.state(), State::Closed);
    assert_eq!(socket.recv_capacity(), 3);
    assert_eq!(socket.send_capacity(), 5);
    assert_eq!(socket.recv_queue(), 0);
    assert_eq!(socket.send_queue(), 0);
    assert_eq!(socket.remote_endpoint(), None);
    assert_eq!(socket.peer_handle, None);
    assert_eq!(socket.edm_channel, None);
    assert_eq!(socket.local_port, None);
    assert_eq!(socket.poll_at(), None);
    assert!(!socket.is_open());
}

#[test]
fn tcp_predicates_follow_the_state() {
    let mut socket = Socket::new(&mut [][..], &mut [][..]);
    for state in ALL_STATES {
        socket.set_state(state);
        assert_eq!(socket.state(), state);
        assert_eq!(socket.is_listening(), state == State::Listen);
        assert_eq!(socket.is_open(), state != State::Closed && state != State::TimeWait);
        assert_eq!(socket.is_active(), socket.is_open() && state != State::Listen);
        assert_eq!(
            socket.may_send(),
            state == State::Established || state == State::CloseWait
        );
        assert_eq!(
            socket.may_recv(),
            state == State::Established || state == State::FinWait1
        );
        assert!(!socket.can_send());
        assert!(!socket.can_recv());
    }
}

#[test]
fn tcp_connect_remembers_the_endpoint() {
    let mut socket = Socket::new(&mut [][..], &mut [][..]);
    socket.peer_handle = Some(PeerHandle(3));
    socket.edm_channel = Some(ChannelId(4));
    assert_eq!(socket.connect(endpoint(), Some(1234)), Ok(()));
    assert_eq!(socket.remote_endpoint(), Some(SocketAddr::V4(endpoint())));
    assert_eq!(socket.local_port, Some(1234));
    assert_eq!(socket.peer_handle, None);
    assert_eq!(socket.edm_channel, None);
    assert_eq!(socket.state(), State::Closed);
}

#[test]
fn tcp_connect_takes_every_kind_of_address() {
    let mut socket = Socket::new(&mut [][..], &mut [][..]);
    let addr = SocketAddr::from(endpoint());
    assert_eq!(socket.connect(addr, None), Ok(()));
    assert_eq!(socket.remote_endpoint(), Some(addr));
    let v6 = SocketAddrV6::new(Ipv6Addr::new([1, 0, 0, 0, 0, 0, 0, 1]), 80, 0, 0);
    assert_eq!(socket.connect(v6, None), Ok(()));
    assert_eq!(socket.remote_endpoint(), Some(SocketAddr::V6(v6)));
    assert_eq!(socket.connect((Ipv4Addr::new(192, 168, 0, 1), 80), None), Ok(()));
    assert_eq!(socket.remote_endpoint(), Some(addr));
}

#[test]
fn tcp_connect_drops_queued_octets() {
    let mut rx = [0u8; 4];
    let mut tx = [0u8; 4];
    let mut socket = Socket::new(&mut rx[..], &mut tx[..]);
    socket.set_state(State::Established);
    socket.rx_enqueue_slice(&[1, 2]);
    socket.send_slice(&[3]).unwrap();
    socket.set_state(State::Closed);
    assert_eq!(socket.connect(endpoint(), None), Ok(()));
    assert_eq!(socket.recv_queue(), 0);
    assert_eq!(socket.send_queue(), 0);
}

#[test]
fn tcp_connect_refuses_an_open_socket() {
    let mut socket = Socket::new(&mut [][..], &mut [][..]);
    for state in ALL_STATES {
        socket.set_state(state);
        let expected = if state == State::Closed || state == State::TimeWait {
            Ok(())
        } else {
            Err(Error::InvalidState)
        };
        assert_eq!(socket.connect(endpoint(), None), expected);
    }
}

#[test]
fn tcp_connect_refuses_unaddressable_endpoints() {
    let mut socket = Socket::new(&mut [][..], &mut [][..]);
    let no_port = SocketAddrV4::new(Ipv4Addr::new(192, 168, 0, 1), 0);
    assert_eq!(socket.connect(no_port, None), Err(Error::Unaddressable));
    let no_ip = SocketAddrV4::new(Ipv4Addr::new(0, 0, 0, 0), 80);
    assert_eq!(socket.connect(no_ip, None), Err(Error::Unaddressable));
    let no_ip = SocketAddrV6::new(Ipv6Addr::new([0; 8]), 80, 0, 0);
    assert_eq!(socket.connect(no_ip, None), Err(Error::Unaddressable));
    assert_eq!(socket.connect(endpoint(), Some(0)), Err(Error::Unaddressable));
    assert_eq!(socket.remote_endpoint(), None);
}

#[test]
fn tcp_close_ends_the_transmit_half() {
    let mut socket = Socket::new(&mut [][..], &mut [][..]);
    for state in ALL_STATES {
        socket.set_state(state);
        socket.close();
        let expected = match state {
            State::Listen | State::SynSent => State::Closed,
            State::SynReceived | State::Established => State::FinWait1,
            State::CloseWait => State::LastAck,
            other => other,
        };
        assert_eq!(socket.state(), expected);
        assert!(!socket.may_send());
        socket.close();
        assert_eq!(socket.state(), expected);
    }
}

#[test]
fn tcp_close_keeps_received_octets() {
    let mut rx = [0u8; 4];
    let mut socket = Socket::new(&mut rx[..], &mut [][..]);
    socket.set_state(State::CloseWait);
    socket.rx_enqueue_slice(&[1, 2]);
    socket.close();
    assert_eq!(socket.state(), State::LastAck);
    let mut out = [0u8; 4];
    assert_eq!(socket.recv_slice(&mut out), Ok(2));
    assert_eq!(out, [1, 2, 0, 0]);
}

#[test]
fn tcp_abort_closes_from_every_state() {
    let mut socket = Socket::new(&mut [][..], &mut [][..]);
    for state in ALL_STATES {
        socket.set_state(state);
        socket.abort();
        assert_eq!(socket.state(), State::Closed);
        assert_eq!(socket.connect(endpoint(), None), Ok(()));
    }
}

#[test]
fn tcp_reset_forgets_the_connection() {
    let mut rx = [0u8; 4];
    let mut tx = [0u8; 4];
    let mut socket = Socket::new(&mut rx[..], &mut tx[..]);
    socket.connect(endpoint(), Some(7)).unwrap();
    socket.peer_handle = Some(PeerHandle(1));
    socket.edm_channel = Some(ChannelId(2));
    socket.set_state(State::Established);
    socket.rx_enqueue_slice(&[1]);
    socket.send_slice(&[2]).unwrap();
    socket.set_state(State::TimeWait);
    assert!(socket.poll_at().is_some());
    socket.reset();
    assert_eq!(socket.state(), State::Closed);
    assert_eq!(socket.peer_handle, None);
    assert_eq!(socket.edm_channel, None);
    assert_eq!(socket.remote_endpoint(), None);
    assert_eq!(socket.local_port, Some(7));
    assert_eq!(socket.recv_queue(), 0);
    assert_eq!(socket.send_queue(), 0);
    assert_eq!(socket.poll_at(), None);
    assert_eq!((socket.recv_capacity(), socket.send_capacity()), (4, 4));
}

#[test]
fn tcp_sending_needs_an_open_transmit_half() {
    let mut tx = [0u8; 4];
    let mut socket = Socket::new(&mut [][..], &mut tx[..]);
    for state in ALL_STATES {
        socket.set_state(state);
        if !socket.may_send() {
            assert_eq!(socket.send_slice(&[1]), Err(Error::Illegal));
            assert_eq!(socket.send(|_| (1, ())), Err(Error::Illegal));
            assert_eq!(socket.write_str("a"), Err(WriteError));
        }
    }
    assert_eq!(socket.send_queue(), 0);
}

#[test]
fn tcp_send_slice_takes_what_there_is_room_for() {
    let mut tx = [0u8; 4];
    let mut socket = Socket::new(&mut [][..], &mut tx[..]);
    socket.set_state(State::Established);
    assert!(socket.can_send());
    assert_eq!(socket.send_slice(&[1, 2, 3]), Ok(3));
    assert_eq!(socket.send_slice(&[4, 5]), Ok(1));
    assert!(!socket.can_send());
    assert_eq!(socket.send_slice(&[6]), Ok(0));
    assert_eq!(socket.send_queue(), 4);
    assert_eq!(socket.tx_dequeue(|run| (run.len(), run.to_vec())), vec![1, 2, 3, 4]);
    assert_eq!(socket.send_queue(), 0);
}

#[test]
fn tcp_send_fills_the_buffer_in_place() {
    let mut tx = [0u8; 4];
    let mut socket = Socket::new(&mut [][..], &mut tx[..]);
    socket.set_state(State::CloseWait);
    let seen = socket.send(|run| {
        run[0] = 8;
        run[1] = 9;
        (2, run.len())
    });
    assert_eq!(seen, Ok(4));
    assert_eq!(socket.send_queue(), 2);
    assert_eq!(socket.tx_dequeue(|run| (1, run.to_vec())), vec![8, 9]);
    assert_eq!(socket.send_queue(), 1);
}

#[test]
fn tcp_received_octets_are_read_back() {
    let mut rx = [0u8; 4];
    let mut socket = Socket::new(&mut rx[..], &mut [][..]);
    socket.set_state(State::Established);
    assert!(!socket.can_recv());
    assert_eq!(socket.rx_enqueue_slice(&[1, 2, 3, 4, 5]), 4);
    assert!(socket.can_recv());
    assert_eq!(socket.recv_queue(), 4);
    assert_eq!(socket.recv(|run| (1, run.to_vec())), Ok(vec![1, 2, 3, 4]));
    let mut out = [0u8; 2];
    assert_eq!(socket.recv_slice(&mut out), Ok(2));
    assert_eq!(out, [2, 3]);
    assert_eq!(socket.rx_enqueue_slice(&[6, 7]), 2);
    let mut out = [0u8; 8];
    assert_eq!(socket.recv_slice(&mut out), Ok(3));
    assert_eq!(out, [4, 6, 7, 0, 0, 0, 0, 0]);
    assert_eq!(socket.recv_slice(&mut out), Ok(0));
}

#[test]
fn tcp_peeking_keeps_the_octets() {
    let mut rx = [0u8; 4];
    let mut socket = Socket::new(&mut rx[..], &mut [][..]);
    socket.set_state(State::Established);
    socket.rx_enqueue_slice(&[1, 2, 3]);
    assert_eq!(socket.peek(2), Ok(&[1u8, 2][..]));
    assert_eq!(socket.peek(9), Ok(&[1u8, 2, 3][..]));
    let mut out = [9u8; 4];
    assert_eq!(socket.peek_slice(&mut out), Ok(3));
    assert_eq!(out, [1, 2, 3, 9]);
    let mut out = [9u8; 2];
    assert_eq!(socket.peek_slice(&mut out), Ok(2));
    assert_eq!(out, [1, 2]);
    assert_eq!(socket.recv_queue(), 3);
    assert_eq!(socket.recv_slice(&mut out), Ok(2));
    assert_eq!(out, [1, 2]);
}

#[test]
fn tcp_peek_slice_runs_over_the_end_of_the_storage() {
    let mut rx = [0u8; 4];
    let mut socket = Socket::new(&mut rx[..], &mut [][..]);
    socket.set_state(State::Established);
    assert_eq!(socket.rx_enqueue_slice(&[1, 2, 3]), 3);
    assert_eq!(socket.recv_slice(&mut [0u8; 2]), Ok(2));
    assert_eq!(socket.rx_enqueue_slice(&[4, 5, 6]), 3);
    let mut data = [0u8; 4];
    assert_eq!(socket.peek_slice(&mut data), Ok(4));
    assert_eq!(data, [3, 4, 5, 6]);
    assert_eq!(socket.recv_queue(), 4);
    let mut data = [0u8; 3];
    assert_eq!(socket.peek_slice(&mut data), Ok(3));
    assert_eq!(data, [3, 4, 5]);
    // Peeking at a slice stops where the storage ends, as reading one does.
    assert_eq!(socket.peek(4), Ok(&[3u8, 4][..]));
    assert_eq!(socket.recv(|run| (0, run.to_vec())), Ok(vec![3, 4]));
    let mut data = [9u8; 6];
    assert_eq!(socket.recv_slice(&mut data), Ok(4));
    assert_eq!(data, [3, 4, 5, 6, 9, 9]);
}

#[test]
fn tcp_poll_at_the_deadline_keeps_the_rest() {
    let mut rx = [0u8; 2];
    let mut socket = Socket::new(&mut rx[..], &mut [][..]);
    socket.connect(endpoint(), Some(7)).unwrap();
    socket.set_state_at(State::SynSent, Instant::from_ticks(0));
    socket.rx_enqueue_slice(&[1]);
    let deadline = socket.poll_at().unwrap();
    socket.poll_with(deadline);
    assert_eq!(socket.state(), State::Closed);
    assert_eq!(socket.recv_queue(), 1);
    assert_eq!(socket.local_port, Some(7));
    assert_eq!(socket.poll_at(), Some(deadline));
    socket.poll_with(deadline);
    assert_eq!(socket.state(), State::Closed);
}

#[test]
fn tcp_reading_fails_once_everything_was_read() {
    let mut rx = [0u8; 4];
    let mut socket = Socket::new(&mut rx[..], &mut [][..]);
    for state in ALL_STATES {
        socket.set_state(State::Established);
        socket.rx_enqueue_slice(&[1]);
        socket.set_state(state);
        let mut out = [0u8; 4];
        assert!(socket.may_recv());
        assert_eq!(socket.recv_slice(&mut out), Ok(1));
        let expected = match state {
            State::Established | State::FinWait1 => Ok(0),
            State::CloseWait | State::Closing | State::LastAck | State::TimeWait => {
                Err(Error::Finished)
            }
            _ => Err(Error::Illegal),
        };
        assert_eq!(socket.recv_slice(&mut out), expected);
        assert_eq!(socket.peek_slice(&mut out), expected);
        assert_eq!(socket.recv(|run| (0, run.len())), expected);
        assert_eq!(socket.peek(4).map(|run| run.len()), expected);
    }
}

#[test]
fn tcp_sending_in_two_steps() {
    let mut tx = [0u8; 4];
    let mut socket = Socket::new(&mut [][..], &mut tx[..]);
    socket.set_state(State::Established);
    socket.send_slice(&[1, 2, 3]).unwrap();
    let (woken, waker) = counter();
    socket.register_send_waker(&waker);
    let front = socket.tx_front();
    assert_eq!(front, &[1, 2, 3]);
    front[2] = 7;
    socket.tx_sent(0);
    assert_eq!(count(&woken), 0);
    socket.tx_sent(2);
    assert_eq!(count(&woken), 1);
    assert_eq!(socket.send_queue(), 1);
    assert_eq!(socket.tx_dequeue(|run| (0, run.to_vec())), vec![7]);
}

#[test]
fn tcp_write_str_sends_the_text() {
    let mut tx = [0u8; 6];
    let mut socket = Socket::new(&mut [][..], &mut tx[..]);
    socket.set_state(State::Established);
    assert_eq!(socket.write_str("ab\u{e9}"), Ok(()));
    assert_eq!(socket.send_queue(), 4);
    assert_eq!(socket.write_str("xyz"), Err(WriteError));
    assert_eq!(
        socket.tx_dequeue(|run| (run.len(), run.to_vec())),
        vec![b'a', b'b', 0xc3, 0xa9, b'x', b'y']
    );
}

#[test]
fn tcp_attempt_is_given_up_after_five_seconds() {
    let five = 5 * embassy_time::TICK_HZ;
    let start = Instant::from_ticks(100);
    let mut socket = Socket::new(&mut [][..], &mut [][..]);
    socket.connect(endpoint(), None).unwrap();
    socket.set_state_at(State::SynSent, start);
    assert_eq!(socket.poll_at(), Some(Instant::from_ticks(100 + five)));
    socket.poll_with(Instant::from_ticks(100 + five - 1));
    assert_eq!(socket.state(), State::SynSent);
    socket.poll_with(Instant::from_ticks(100 + five));
    assert_eq!(socket.state(), State::Closed);
    assert_eq!(socket.remote_endpoint(), Some(SocketAddr::V4(endpoint())));
}

#[test]
fn tcp_lingering_ends_after_ten_seconds() {
    let ten = Duration::from_secs(10);
    let start = Instant::from_ticks(100);
    let mut socket = Socket::new(&mut [][..], &mut [][..]);
    socket.connect(endpoint(), None).unwrap();
    socket.set_state_at(State::TimeWait, start);
    assert_eq!(socket.poll_at(), Some(start.after(ten)));
    socket.poll_with(Instant::from_ticks(start.after(ten).ticks - 1));
    assert_eq!(socket.state(), State::TimeWait);
    socket.poll_with(start.after(ten));
    assert_eq!(socket.state(), State::Closed);
    assert_eq!(socket.remote_endpoint(), None);
    assert_eq!(socket.poll_at(), None);
}

#[test]
fn tcp_poll_ignores_sockets_without_a_peer_or_a_timer() {
    let mut socket = Socket::new(&mut [][..], &mut [][..]);
    socket.set_state_at(State::SynSent, Instant::from_ticks(0));
    socket.poll_with(Instant::from_ticks(u64::MAX));
    assert_eq!(socket.state(), State::SynSent);
    socket.set_state(State::Closed);
    socket.connect(endpoint(), None).unwrap();
    for state in ALL_STATES {
        if state != State::SynSent && state != State::TimeWait {
            socket.set_state(state);
            socket.poll_with(Instant::from_ticks(u64::MAX));
            assert_eq!(socket.state(), state);
        }
    }
}

#[test]
fn tcp_clock_drives_the_timers() {
    let clock = embassy_time::MockDriver::get();
    let mut socket = Socket::new(&mut [][..], &mut [][..]);
    socket.connect(endpoint(), None).unwrap();
    let before = embassy_time::Instant::now();
    socket.set_state(State::SynSent);
    let expected = before + embassy_time::Duration::from_secs(5);
    assert!(socket.poll_at().unwrap().ticks >= expected.as_ticks());
    clock.advance(embassy_time::Duration::from_secs(6));
    socket.poll();
    assert_eq!(socket.state(), State::Closed);
    socket.set_state(State::TimeWait);
    clock.advance(embassy_time::Duration::from_secs(11));
    socket.poll();
    assert_eq!(socket.state(), State::Closed);
    assert_eq!(socket.remote_endpoint(), None);
}

#[test]
fn tcp_readers_are_woken() {
    let mut rx = [0u8; 2];
    let mut socket = Socket::new(&mut rx[..], &mut [][..]);
    let (woken, waker) = counter();
    socket.register_recv_waker(&waker);
    assert_eq!(count(&woken), 0);
    socket.set_state(State::Established);
    assert_eq!(count(&woken), 1);
    // A waker is woken only once.
    socket.set_state(State::Established);
    assert_eq!(count(&woken), 1);
    socket.register_recv_waker(&waker);
    assert_eq!(socket.rx_enqueue_slice(&[]), 0);
    assert_eq!(count(&woken), 1);
    assert_eq!(socket.rx_enqueue_slice(&[1, 2]), 2);
    assert_eq!(count(&woken), 2);
    socket.register_recv_waker(&waker);
    assert_eq!(socket.rx_enqueue_slice(&[3]), 0);
    assert_eq!(count(&woken), 2);
    socket.close();
    assert_eq!(count(&woken), 3);
    socket.register_recv_waker(&waker);
    socket.reset();
    assert_eq!(count(&woken), 4);
}

#[test]
fn tcp_writers_are_woken() {
    let mut tx = [0u8; 2];
    let mut socket = Socket::new(&mut [][..], &mut tx[..]);
    let (woken, waker) = counter();
    socket.register_send_waker(&waker);
    socket.set_state(State::Established);
    assert_eq!(count(&woken), 1);
    socket.send_slice(&[1, 2]).unwrap();
    socket.register_send_waker(&waker);
    socket.tx_dequeue(|_| (0, ()));
    assert_eq!(count(&woken), 1);
    socket.tx_dequeue(|_| (1, ()));
    assert_eq!(count(&woken), 2);
    socket.register_send_waker(&waker);
    socket.abort();
    assert_eq!(count(&woken), 3);
}

#[test]
fn tcp_later_waker_replaces_the_earlier() {
    let mut socket = Socket::new(&mut [][..], &mut [][..]);
    let (first, first_waker) = counter();
    let (second, second_waker) = counter();
    socket.register_recv_waker(&first_waker);
    socket.register_recv_waker(&second_waker);
    socket.set_state(State::Listen);
    assert_eq!(count(&first), 0);
    assert_eq!(count(&second), 1);
}

#[test]
fn tcp_capacities_are_fixed() {
    let mut rx = [0u8; 3];
    let mut tx = [0u8; 2];
    let mut socket = Socket::new(&mut rx[..], &mut tx[..]);
    socket.connect(endpoint(), None).unwrap();
    socket.set_state(State::Established);
    socket.rx_enqueue_slice(&[1, 2, 3, 4]);
    socket.send_slice(&[1, 2, 3]).unwrap();
    socket.tx_dequeue(|_| (1, ()));
    socket.close();
    socket.poll();
    assert_eq!((socket.recv_capacity(), socket.send_capacity()), (3, 2));
}
