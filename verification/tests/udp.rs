use std::sync::atomic::{AtomicUsize, Ordering};
use std::sync::Arc;
use std::task::{Wake, Waker};

use ublox_sockets::time::Instant;
use ublox_sockets::udp::{Ipv4Addr, Socket, SocketAddr, SocketAddrV4, State};
use ublox_sockets::{Error, SocketHandle};

/// Counts how often it was woken.
struct Counter(AtomicUsize);

impl Wake for Counter {
    fn wake(self: Arc<Self>) {
        self.0.fetch_add(1, Ordering::SeqCst);
    }
}

fn counter() -> (Arc<Counter>, Waker) {
    let counter = Arc::new(Counter(AtomicUsize::new(0)));
    (counter.clone(), Waker::from(counter))
}

fn count(counter: &Counter) -> usize {
    counter.0.load(Ordering::SeqCst)
}

fn endpoint() -> SocketAddrV4 {
    SocketAddrV4::new(Ipv4Addr::new(0, 0, 0, 0), 5000)
}

#[test]
fn new_udp_socket_is_not_bound() {
    let mut rx = [0u8; 3];
    let socket = Socket::new(&mut rx[..], &mut [][..]);
    assert_eq!(socket.handle(), SocketHandle(0));
    assert_eq!(socket.endpoint(), None);
    assert_eq!(socket.state(), State::Closed);
    assert_eq!(State::default(), State::Closed);
    assert_eq!(socket.get_available_data(), 0);
    assert_eq!(socket.rx_window(), 3);
    assert!(!socket.is_open());
    assert!(!socket.recycle());
}

#[test]
fn udp_bind_takes_one_endpoint_at_a_time() {
    let mut socket = Socket::new(&mut [][..], &mut [][..]);
    let no_port = SocketAddrV4::new(Ipv4Addr::new(10, 0, 0, 1), 0);
    assert_eq!(socket.bind(no_port), Err(Error::Unaddressable));
    assert!(!socket.is_open());
    assert_eq!(socket.bind(endpoint()), Ok(()));
    assert!(socket.is_open());
    assert_eq!(socket.endpoint(), Some(SocketAddr::V4(endpoint())));
    let other = SocketAddr::V4(SocketAddrV4::new(Ipv4Addr::new(10, 0, 0, 1), 1));
    assert_eq!(socket.bind(other), Err(Error::Illegal));
    assert_eq!(socket.bind(no_port), Err(Error::Illegal));
    assert_eq!(socket.endpoint(), Some(SocketAddr::V4(endpoint())));
    socket.close();
    assert!(!socket.is_open());
    assert_eq!(socket.bind(other), Ok(()));
    assert_eq!(socket.endpoint(), Some(other));
}

#[test]
fn udp_reading_needs_an_open_socket_and_octets() {
    let mut rx = [0u8; 4];
    let mut socket = Socket::new(&mut rx[..], &mut [][..]);
    let mut out = [9u8; 4];
    socket.rx_enqueue_slice(&[1]);
    assert_eq!(socket.recv_slice(&mut out), Err(Error::Illegal));
    assert_eq!(socket.peek_slice(&mut out), Err(Error::Illegal));
    assert_eq!(socket.recv(|_| (0, ())), Err(Error::Illegal));
    assert_eq!(socket.peek(4), Err(Error::Illegal));
    socket.bind(endpoint()).unwrap();
    assert_eq!(socket.recv_slice(&mut out), Ok(1));
    assert_eq!(out, [1, 9, 9, 9]);
    assert_eq!(socket.recv_slice(&mut out), Ok(0));
    assert_eq!(socket.peek_slice(&mut out), Ok(0));
    assert_eq!(out, [1, 9, 9, 9]);
    assert_eq!(socket.recv(|_| (0, ())), Err(Error::Exhausted));
    assert_eq!(socket.peek(4), Err(Error::Exhausted));
}

#[test]
fn udp_received_octets_are_read_back() {
    let mut rx = [0u8; 4];
    let mut socket = Socket::new(&mut rx[..], &mut [][..]);
    socket.bind(endpoint()).unwrap();
    assert!(socket.can_recv());
    assert_eq!(socket.rx_enqueue_slice(&[1, 2]), 2);
    assert_eq!(socket.rx_enqueue_slice(&[3, 4, 5]), 2);
    assert!(!socket.can_recv());
    assert_eq!(socket.rx_window(), 0);
    assert_eq!(socket.peek(3), Ok(&[1u8, 2, 3][..]));
    let mut out = [0u8; 3];
    assert_eq!(socket.peek_slice(&mut out), Ok(3));
    assert_eq!(out, [1, 2, 3]);
    assert_eq!(socket.recv(|run| (1, run.to_vec())), Ok(vec![1, 2, 3, 4]));
    let mut out = [0u8; 8];
    assert_eq!(socket.recv_slice(&mut out), Ok(3));
    assert_eq!(out, [2, 3, 4, 0, 0, 0, 0, 0]);
    assert_eq!(socket.rx_window(), 4);
}

#[test]
fn udp_peek_slice_runs_over_the_end_of_the_storage() {
    let mut rx = [0u8; 4];
    let mut socket = Socket::new(&mut rx[..], &mut [][..]);
    socket.bind((Ipv4Addr::new(10, 0, 0, 1), 5000)).unwrap();
    assert_eq!(socket.rx_enqueue_slice(&[1, 2, 3]), 3);
    assert_eq!(socket.recv_slice(&mut [0u8; 2]), Ok(2));
    assert_eq!(socket.rx_enqueue_slice(&[4, 5, 6]), 3);
    let mut data = [0u8; 4];
    assert_eq!(socket.peek_slice(&mut data), Ok(4));
    assert_eq!(data, [3, 4, 5, 6]);
    assert_eq!(socket.rx_window(), 0);
    let mut data = [9u8; 6];
    assert_eq!(socket.recv_slice(&mut data), Ok(4));
    assert_eq!(data, [3, 4, 5, 6, 9, 9]);
}

#[test]
fn udp_rebinding_keeps_received_octets() {
    let mut rx = [0u8; 4];
    let mut socket = Socket::new(&mut rx[..], &mut [][..]);
    socket.bind(endpoint()).unwrap();
    socket.rx_enqueue_slice(&[1, 2]);
    socket.close();
    socket.close();
    socket.bind(endpoint()).unwrap();
    let mut out = [0u8; 2];
    assert_eq!(socket.recv_slice(&mut out), Ok(2));
    assert_eq!(out, [1, 2]);
}

#[test]
fn udp_plain_fields() {
    let mut socket = Socket::new(&mut [][..], &mut [][..]);
    socket.update_handle(SocketHandle(9));
    assert_eq!(socket.handle(), SocketHandle(9));
    socket.set_state(State::Established);
    assert_eq!(socket.state(), State::Established);
    socket.set_available_data(77);
    assert_eq!(socket.get_available_data(), 77);
}

#[test]
fn udp_check_is_due_after_fifteen_seconds() {
    let interval = 15 * embassy_time::TICK_HZ;
    let mut socket = Socket::new(&mut [][..], &mut [][..]);
    let at = Instant::from_ticks;
    // The first check is never due.
    assert!(!socket.should_update_available_data_at(at(10), at(10 + 2 * interval)));
    assert!(!socket.should_update_available_data_at(at(20), at(10 + interval - 1)));
    assert!(socket.should_update_available_data_at(at(30), at(20 + interval)));
    // A check that lies ahead is not due.
    assert!(!socket.should_update_available_data_at(at(40), at(29)));
}

#[test]
fn udp_socket_is_recycled_after_fifteen_seconds() {
    let timeout = 15 * embassy_time::TICK_HZ;
    let mut socket = Socket::new(&mut [][..], &mut [][..]);
    let at = Instant::from_ticks;
    assert!(!socket.recycle_at(at(u64::MAX)));
    socket.closed_by_remote_at(at(10));
    assert!(!socket.recycle_at(at(9)));
    assert!(!socket.recycle_at(at(10 + timeout - 1)));
    assert!(socket.recycle_at(at(10 + timeout)));
    assert!(socket.recycle_at(at(10 + timeout + 1)));
}

#[test]
fn udp_clock_drives_the_checks() {
    let clock = embassy_time::MockDriver::get();
    let mut socket = Socket::new(&mut [][..], &mut [][..]);
    assert!(!socket.should_update_available_data());
    clock.advance(embassy_time::Duration::from_secs(16));
    assert!(socket.should_update_available_data());
    socket.closed_by_remote();
    clock.advance(embassy_time::Duration::from_secs(16));
    assert!(socket.recycle());
}

#[test]
fn udp_readers_are_woken() {
    let mut rx = [0u8; 2];
    let mut socket = Socket::new(&mut rx[..], &mut [][..]);
    let (woken, waker) = counter();
    socket.register_recv_waker(&waker);
    socket.bind(endpoint()).unwrap();
    assert_eq!(count(&woken), 1);
    socket.register_recv_waker(&waker);
    socket.rx_enqueue_slice(&[]);
    assert_eq!(count(&woken), 1);
    socket.rx_enqueue_slice(&[1]);
    assert_eq!(count(&woken), 2);
    socket.register_recv_waker(&waker);
    socket.close();
    assert_eq!(count(&woken), 3);
}

#[test]
fn udp_writers_are_woken() {
    let mut socket = Socket::new(&mut [][..], &mut [][..]);
    let (woken, waker) = counter();
    socket.register_send_waker(&waker);
    socket.bind(endpoint()).unwrap();
    assert_eq!(count(&woken), 1);
    socket.register_send_waker(&waker);
    socket.close();
    assert_eq!(count(&woken), 2);
}
