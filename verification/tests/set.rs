use ublox_sockets::{tcp, udp, AnySocket, Socket, SocketHandle, SocketSet, SocketStorage};

#[test]
fn add_socket() {
    let mut sockets = [SocketStorage::empty(), SocketStorage::empty()];
    let mut set = SocketSet::new(&mut sockets);

    let mut tcp_rx_buf = [0u8; 64];
    let mut udp_rx_buf = [0u8; 48];

    assert_eq!(
        set.add(tcp::Socket::new(&mut tcp_rx_buf[..], &mut [][..])),
        SocketHandle(0)
    );
    assert_eq!(set.iter().count(), 1);
    assert_eq!(
        set.add(udp::Socket::new(&mut udp_rx_buf[..], &mut [][..])),
        SocketHandle(1)
    );
    assert_eq!(set.iter().count(), 2);
}

#[test]
fn remove_socket() {
    let mut sockets = [SocketStorage::empty(), SocketStorage::empty()];
    let mut set = SocketSet::new(&mut sockets);

    let mut tcp_rx_buf = [0u8; 64];
    let mut udp_rx_buf = [0u8; 48];

    assert_eq!(
        set.add(tcp::Socket::new(&mut tcp_rx_buf[..], &mut [][..])),
        SocketHandle(0)
    );
    assert_eq!(set.iter().count(), 1);
    assert_eq!(
        set.add(udp::Socket::new(&mut udp_rx_buf[..], &mut [][..])),
        SocketHandle(1)
    );
    assert_eq!(set.iter().count(), 2);

    set.remove(SocketHandle(0));
    assert_eq!(set.iter().count(), 1);
    set.get::<udp::Socket>(SocketHandle(1));
}

#[test]
#[should_panic]
fn remove_non_existing_socket() {
    let mut sockets = [SocketStorage::empty(), SocketStorage::empty()];
    let mut set = SocketSet::new(&mut sockets);

    let mut tcp_rx_buf = [0u8; 64];
    let mut udp_rx_buf = [0u8; 48];

    assert_eq!(
        set.add(tcp::Socket::new(&mut tcp_rx_buf[..], &mut [][..])),
        SocketHandle(0)
    );
    assert_eq!(set.iter().count(), 1);
    assert_eq!(
        set.add(udp::Socket::new(&mut udp_rx_buf[..], &mut [][..])),
        SocketHandle(1)
    );
    assert_eq!(set.iter().count(), 2);

    set.remove(SocketHandle(0));
    set.get::<udp::Socket>(SocketHandle(0));
}

#[test]
fn add_duplicate_socket() {
    let mut sockets = [SocketStorage::empty(), SocketStorage::empty()];
    let mut set = SocketSet::new(&mut sockets);

    let mut tcp_rx_buf = [0u8; 64];

    assert_eq!(
        set.add(tcp::Socket::new(&mut tcp_rx_buf[..], &mut [][..])),
        SocketHandle(0)
    );
    assert_eq!(set.iter().count(), 1);
}

#[test]
fn add_socket_to_full_set() {
    let mut sockets = [SocketStorage::empty(), SocketStorage::empty()];
    let mut set = SocketSet::new(&mut sockets);

    let mut tcp_rx_buf = [0u8; 64];
    let mut udp_rx_buf = [0u8; 48];

    assert_eq!(
        set.add(tcp::Socket::new(&mut tcp_rx_buf[..], &mut [][..])),
        SocketHandle(0)
    );
    assert_eq!(set.iter().count(), 1);
    assert_eq!(
        set.add(udp::Socket::new(&mut udp_rx_buf[..], &mut [][..])),
        SocketHandle(1)
    );
    assert_eq!(set.iter().count(), 2);
}

#[test]
fn get_socket() {
    let mut sockets = [SocketStorage::empty(), SocketStorage::empty()];
    let mut set = SocketSet::new(&mut sockets);

    let mut tcp_rx_buf = [0u8; 64];
    let mut udp_rx_buf = [0u8; 48];

    assert_eq!(
        set.add(tcp::Socket::new(&mut tcp_rx_buf[..], &mut [][..])),
        SocketHandle(0)
    );
    assert_eq!(set.iter().count(), 1);
    assert_eq!(
        set.add(udp::Socket::new(&mut udp_rx_buf[..], &mut [][..])),
        SocketHandle(1)
    );
    assert_eq!(set.iter().count(), 2);

    set.get::<tcp::Socket>(SocketHandle(0));

    set.get::<udp::Socket>(SocketHandle(1));
}

#[test]
fn get_socket_wrong_type() {
    let mut sockets = [SocketStorage::empty(), SocketStorage::empty()];
    let mut set = SocketSet::new(&mut sockets);

    let mut tcp_rx_buf = [0u8; 64];
    let mut udp_rx_buf = [0u8; 48];

    assert_eq!(
        set.add(tcp::Socket::new(&mut tcp_rx_buf[..], &mut [][..])),
        SocketHandle(0)
    );
    assert_eq!(set.iter().count(), 1);
    assert_eq!(
        set.add(udp::Socket::new(&mut udp_rx_buf[..], &mut [][..])),
        SocketHandle(1)
    );
    assert_eq!(set.iter().count(), 2);

    set.get::<udp::Socket>(SocketHandle(1));
}

#[test]
fn get_socket_type() {
    let mut sockets = [SocketStorage::empty(), SocketStorage::empty()];
    let mut set = SocketSet::new(&mut sockets);

    let mut tcp_rx_buf = [0u8; 64];
    let mut udp_rx_buf = [0u8; 48];

    assert_eq!(
        set.add(tcp::Socket::new(&mut tcp_rx_buf[..], &mut [][..])),
        SocketHandle(0)
    );
    assert_eq!(set.iter().count(), 1);
    assert_eq!(
        set.add(udp::Socket::new(&mut udp_rx_buf[..], &mut [][..])),
        SocketHandle(1)
    );
    assert_eq!(set.iter().count(), 2);
}

#[test]
fn replace_socket() {
    let mut sockets = [SocketStorage::empty(), SocketStorage::empty()];
    let mut set = SocketSet::new(&mut sockets);

    let mut tcp_rx_buf = [0u8; 64];
    let mut tcp_rx_buf2 = [0u8; 64];
    let mut udp_rx_buf = [0u8; 48];

    assert_eq!(
        set.add(tcp::Socket::new(&mut tcp_rx_buf[..], &mut [][..])),
        SocketHandle(0)
    );
    assert_eq!(set.iter().count(), 1);
    assert_eq!(
        set.add(udp::Socket::new(&mut udp_rx_buf[..], &mut [][..])),
        SocketHandle(1)
    );
    assert_eq!(set.iter().count(), 2);

    set.remove(SocketHandle(0));

    assert_eq!(set.iter().count(), 1);

    set.get::<udp::Socket>(SocketHandle(1));

    assert_eq!(
        set.add(tcp::Socket::new(&mut tcp_rx_buf2[..], &mut [][..])),
        SocketHandle(0)
    );
    assert_eq!(set.iter().count(), 2);

    set.get::<tcp::Socket>(SocketHandle(0));
}

#[test]
fn prune_socket_set() {
    let mut sockets = [SocketStorage::empty(), SocketStorage::empty()];
    let mut set = SocketSet::new(&mut sockets);

    let mut tcp_rx_buf = [0u8; 64];
    let mut udp_rx_buf = [0u8; 48];

    assert_eq!(
        set.add(tcp::Socket::new(&mut tcp_rx_buf[..], &mut [][..])),
        SocketHandle(0)
    );
    assert_eq!(set.iter().count(), 1);
    assert_eq!(
        set.add(udp::Socket::new(&mut udp_rx_buf[..], &mut [][..])),
        SocketHandle(1)
    );
    assert_eq!(set.iter().count(), 2);

    set.get::<tcp::Socket>(SocketHandle(0));

    assert_eq!(set.iter().count(), 2);
}

#[test]
fn default_set_has_no_slots() {
    let set = SocketSet::default();
    assert_eq!(set.iter().count(), 0);
    assert_eq!(set.sockets.len(), 0);
}

#[test]
fn default_storage_is_empty() {
    let mut sockets = [SocketStorage::default(), SocketStorage::empty()];
    let set = SocketSet::new(&mut sockets);
    assert_eq!(set.iter().count(), 0);
}

#[test]
fn default_handles_are_zero() {
    assert_eq!(SocketHandle::default(), SocketHandle(0));
    assert_eq!(ublox_sockets::PeerHandle::default(), ublox_sockets::PeerHandle(0));
    assert_eq!(ublox_sockets::ChannelId::default(), ublox_sockets::ChannelId(0));
}

#[test]
fn added_socket_is_found_under_its_handle() {
    let mut sockets = [SocketStorage::empty(), SocketStorage::empty(), SocketStorage::empty()];
    let mut set = SocketSet::new(&mut sockets);
    let mut rx0 = [0u8; 3];
    let mut rx1 = [0u8; 5];
    let mut rx2 = [0u8; 7];
    let first = set.add(tcp::Socket::new(&mut rx0[..], &mut [][..]));
    let second = set.add(tcp::Socket::new(&mut rx1[..], &mut [][..]));
    let third = set.add(udp::Socket::new(&mut rx2[..], &mut [][..]));
    assert_eq!((first, second, third), (SocketHandle(0), SocketHandle(1), SocketHandle(2)));
    assert_eq!(set.get::<tcp::Socket>(first).recv_capacity(), 3);
    assert_eq!(set.get::<tcp::Socket>(second).recv_capacity(), 5);
    assert_eq!(set.get::<udp::Socket>(third).rx_window(), 7);
}

#[test]
fn removed_socket_is_handed_back_unchanged() {
    let mut sockets = [SocketStorage::empty()];
    let mut set = SocketSet::new(&mut sockets);
    let mut rx = [0u8; 4];
    let handle = set.add(tcp::Socket::new(&mut rx[..], &mut [][..]));
    set.get_mut::<tcp::Socket>(handle).set_state(tcp::State::Established);
    let socket = set.remove(handle);
    assert_eq!(set.iter().count(), 0);
    let tcp_socket = tcp::Socket::downcast(&socket).expect("a TCP socket");
    assert_eq!(tcp_socket.state(), tcp::State::Established);
    assert_eq!(tcp_socket.recv_capacity(), 4);
    assert!(udp::Socket::downcast(&socket).is_none());
}

#[test]
fn lowest_free_slot_is_reused() {
    let mut sockets = [SocketStorage::empty(), SocketStorage::empty(), SocketStorage::empty()];
    let mut set = SocketSet::new(&mut sockets);
    for i in 0..3 {
        assert_eq!(set.add(tcp::Socket::new(&mut [][..], &mut [][..])), SocketHandle(i));
    }
    set.remove(SocketHandle(2));
    set.remove(SocketHandle(1));
    assert_eq!(set.iter().count(), 1);
    assert_eq!(set.add(udp::Socket::new(&mut [][..], &mut [][..])), SocketHandle(1));
    assert_eq!(set.add(udp::Socket::new(&mut [][..], &mut [][..])), SocketHandle(2));
    assert_eq!(set.iter().count(), 3);
}

#[test]
fn iteration_skips_free_slots_and_keeps_handles() {
    let mut sockets = [SocketStorage::empty(), SocketStorage::empty(), SocketStorage::empty()];
    let mut set = SocketSet::new(&mut sockets);
    set.add(tcp::Socket::new(&mut [][..], &mut [][..]));
    set.add(udp::Socket::new(&mut [][..], &mut [][..]));
    set.add(tcp::Socket::new(&mut [][..], &mut [][..]));
    set.remove(SocketHandle(1));
    let handles: Vec<SocketHandle> = set.iter().map(|(handle, _)| handle).collect();
    assert_eq!(handles, vec![SocketHandle(0), SocketHandle(2)]);
}

#[test]
fn mutable_iteration_writes_into_the_set() {
    let mut sockets = [SocketStorage::empty(), SocketStorage::empty(), SocketStorage::empty()];
    let mut set = SocketSet::new(&mut sockets);
    set.add(tcp::Socket::new(&mut [][..], &mut [][..]));
    set.add(udp::Socket::new(&mut [][..], &mut [][..]));
    set.add(tcp::Socket::new(&mut [][..], &mut [][..]));
    let mut handles = Vec::new();
    for (handle, socket) in set.iter_mut() {
        handles.push(handle);
        if let Some(tcp_socket) = tcp::Socket::downcast_mut(socket) {
            tcp_socket.set_state(tcp::State::Listen);
        }
    }
    assert_eq!(handles, vec![SocketHandle(0), SocketHandle(1), SocketHandle(2)]);
    assert!(set.get::<tcp::Socket>(SocketHandle(0)).is_listening());
    assert!(set.get::<tcp::Socket>(SocketHandle(2)).is_listening());
    assert_eq!(set.get::<udp::Socket>(SocketHandle(1)).state(), udp::State::Closed);
    set.remove(SocketHandle(0));
    assert_eq!(set.iter_mut().count(), 2);
}

#[test]
fn mutable_socket_is_written_in_place() {
    let mut sockets = [SocketStorage::empty(), SocketStorage::empty()];
    let mut set = SocketSet::new(&mut sockets);
    set.add(udp::Socket::new(&mut [][..], &mut [][..]));
    let handle = set.add(udp::Socket::new(&mut [][..], &mut [][..]));
    set.get_mut::<udp::Socket>(handle).update_handle(handle);
    assert_eq!(set.get::<udp::Socket>(handle).handle(), SocketHandle(1));
    assert_eq!(set.get::<udp::Socket>(SocketHandle(0)).handle(), SocketHandle(0));
}

#[test]
fn handles_count_modulo_256() {
    let mut sockets = Vec::new();
    for _ in 0..258 {
        sockets.push(SocketStorage::empty());
    }
    let mut set = SocketSet::new(&mut sockets);
    for i in 0..256usize {
        assert_eq!(set.add(tcp::Socket::new(&mut [][..], &mut [][..])), SocketHandle(i as u8));
    }
    assert_eq!(set.add(tcp::Socket::new(&mut [][..], &mut [][..])), SocketHandle(0));
    assert_eq!(set.add(tcp::Socket::new(&mut [][..], &mut [][..])), SocketHandle(1));
    assert_eq!(set.iter().count(), 258);
}

#[test]
fn casts_are_inverse() {
    let mut rx = [0u8; 2];
    let mut socket = tcp::Socket::new(&mut rx[..], &mut [][..]).upcast();
    assert!(matches!(socket, Socket::Tcp(_)));
    assert!(tcp::Socket::downcast(&socket).is_some());
    assert!(tcp::Socket::downcast_mut(&mut socket).is_some());
    assert!(udp::Socket::downcast(&socket).is_none());
    assert!(udp::Socket::downcast_mut(&mut socket).is_none());
    let mut socket = udp::Socket::new(&mut [][..], &mut [][..]).upcast();
    assert!(matches!(socket, Socket::Udp(_)));
    assert!(udp::Socket::downcast(&socket).is_some());
    assert!(udp::Socket::downcast_mut(&mut socket).is_some());
    assert!(tcp::Socket::downcast(&socket).is_none());
    assert!(tcp::Socket::downcast_mut(&mut socket).is_none());
}
