//! Sockets for u-blox modules.
//!
//! A socket holds the state of a connection and the octets that wait to be sent or to be read.
//! What exchanges them with the module works on the same socket from the other side: it puts what
//! was received into the receive buffer, takes what is to be sent out of the transmit buffer, and
//! reports the changes of the connection's state.
use vstd::prelude::*;

mod meta;
pub mod net;
pub mod ring_buffer;
pub mod set;
pub mod tcp;
pub mod time;
pub mod udp;
pub mod waker;

pub use self::ring_buffer::{RingBuffer, RingView};
pub use self::set::{ChannelId, Entry, PeerHandle, SocketHandle, SocketSet, SocketStorage};
pub use self::tcp::{Socket as TcpSocket, State as TcpState};
pub use self::udp::{Socket as UdpSocket, State as UdpState};
pub use self::waker::WakerRegistration;

verus! {

/// The error type for the networking stack.
#[non_exhaustive]
#[derive(Debug, Clone, Copy, PartialEq, Eq, Structural)]
pub enum Error {
    /// An operation cannot proceed because a buffer is empty or full.
    Exhausted,
    /// An operation is not permitted in the current state.
    Illegal,
    /// An endpoint or address of a remote host could not be translated to a lower level address.
    /// E.g. there was no an Ethernet address corresponding to an IPv4 address in the ARP cache,
    /// or a TCP connection attempt was made to an unspecified endpoint.
    Unaddressable,
    InvalidState,

    SocketClosed,
    BadLength,

    NotBound,

    ListenerError,

    SocketSetFull,
    InvalidSocket,
    DuplicateSocket,
    Timeout,

    /// The remote endpoint has closed its half of the connection, and everything that it sent
    /// has been read.
    Finished,
}

/// A network socket.
///
/// This enumeration abstracts the various types of sockets based on the IP protocol.
/// To downcast a `Socket` value to a concrete socket, use the [AnySocket] trait,
/// e.g. to get `UdpSocket`, call `UdpSocket::downcast(socket)`.
///
/// It is usually more convenient to use [SocketSet::get] instead.
///
/// [AnySocket]: trait.AnySocket.html
/// [SocketSet::get]: struct.SocketSet.html#method.get
#[non_exhaustive]
#[derive(Debug)]
pub enum Socket<'a> {
    Udp(UdpSocket<'a>),
    Tcp(TcpSocket<'a>),
}

/// A conversion trait for network sockets.
pub trait AnySocket<'a>: Sized {
    /// The network socket that this socket is.
    spec fn upcasted(self) -> Socket<'a>;

    /// The socket of this type that `socket` is, if it is one.
    spec fn downcasted(socket: Socket<'a>) -> Option<Self>;

    /// Converting up and down again gives the same socket, and what is converted down was the
    /// conversion of nothing else.
    proof fn law_casts_are_inverse(self, socket: Socket<'a>)
        ensures
            Self::downcasted(self.upcasted()) == Some(self),
            Self::downcasted(socket) == Some(self) ==> socket == self.upcasted(),
    ;

    /// Convert this socket to a network socket.
    fn upcast(self) -> (socket: Socket<'a>)
        ensures
            socket == self.upcasted(),
    ;

    /// Return the socket of this type that `socket` is, if it is one.
    fn downcast<'c>(socket: &'c Socket<'a>) -> (inner: Option<&'c Self>)
        ensures
            inner is Some <==> Self::downcasted(*socket) is Some,
            inner matches Some(inner) ==> Self::downcasted(*socket) == Some(*inner),
    ;

    /// Return the socket of this type that `socket` is, if it is one, for writing.
    fn downcast_mut<'c>(socket: &'c mut Socket<'a>) -> (inner: Option<&'c mut Self>)
        ensures
            inner is Some <==> Self::downcasted(*old(socket)) is Some,
            inner matches Some(inner) ==> {
                &&& Self::downcasted(*old(socket)) == Some(*inner)
                &&& *final(socket) == (*final(inner)).upcasted()
            },
            inner is None ==> *final(socket) == *old(socket),
    ;
}

impl<'a> AnySocket<'a> for UdpSocket<'a> {
    open spec fn upcasted(self) -> Socket<'a> {
        Socket::Udp(self)
    }

    open spec fn downcasted(socket: Socket<'a>) -> Option<Self> {
        match socket {
            Socket::Udp(socket) => Some(socket),
            _ => None,
        }
    }

    proof fn law_casts_are_inverse(self, socket: Socket<'a>) {
    }

    fn upcast(self) -> (socket: Socket<'a>) {
        Socket::Udp(self)
    }

    fn downcast<'c>(socket: &'c Socket<'a>) -> (inner: Option<&'c Self>) {
        match socket {
            Socket::Udp(socket) => Some(socket),
            _ => None,
        }
    }

    fn downcast_mut<'c>(socket: &'c mut Socket<'a>) -> (inner: Option<&'c mut Self>) {
        match socket {
            Socket::Udp(socket) => Some(socket),
            _ => None,
        }
    }
}

impl<'a> AnySocket<'a> for TcpSocket<'a> {
    open spec fn upcasted(self) -> Socket<'a> {
        Socket::Tcp(self)
    }

    open spec fn downcasted(socket: Socket<'a>) -> Option<Self> {
        match socket {
            Socket::Tcp(socket) => Some(socket),
            _ => None,
        }
    }

    proof fn law_casts_are_inverse(self, socket: Socket<'a>) {
    }

    fn upcast(self) -> (socket: Socket<'a>) {
        Socket::Tcp(self)
    }

    fn downcast<'c>(socket: &'c Socket<'a>) -> (inner: Option<&'c Self>) {
        match socket {
            Socket::Tcp(socket) => Some(socket),
            _ => None,
        }
    }

    fn downcast_mut<'c>(socket: &'c mut Socket<'a>) -> (inner: Option<&'c mut Self>) {
        match socket {
            Socket::Tcp(socket) => Some(socket),
            _ => None,
        }
    }
}

/// Each type of socket has its own kind of network socket: a TCP socket is never taken for a UDP
/// socket, nor the other way round.
pub proof fn law_kinds_are_kept_apart<'a>(tcp: TcpSocket<'a>, udp: UdpSocket<'a>)
    ensures
        <TcpSocket<'a> as AnySocket<'a>>::upcasted(tcp) == Socket::Tcp(tcp),
        <UdpSocket<'a> as AnySocket<'a>>::upcasted(udp) == Socket::Udp(udp),
        <TcpSocket<'a> as AnySocket<'a>>::downcasted(Socket::Tcp(tcp)) == Some(tcp),
        <UdpSocket<'a> as AnySocket<'a>>::downcasted(Socket::Udp(udp)) == Some(udp),
        <TcpSocket<'a> as AnySocket<'a>>::downcasted(Socket::Udp(udp)) is None,
        <UdpSocket<'a> as AnySocket<'a>>::downcasted(Socket::Tcp(tcp)) is None,
{
}

} // verus!
