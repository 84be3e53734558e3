//! Packets that arrive on a UDP socket, and packets that leave through it.

use crate::error::Error as LibError;
use crate::net::SocketAddr;
use crate::net::SocketAddrV4;
use crate::net::SocketAddrV6;
use crate::traits;
use crate::traits::ByteOrder;
use crate::traits::Flowinfo;
use crate::traits::TrafficClass;
use crate::traits::native_byte_order;
use vstd::prelude::*;

verus! {

/// An error that the network reports.
#[derive(Clone, Copy, Debug, PartialEq, Eq, Structural)]
pub enum Error {
    /// A packet did not get through.
    Icmp,
}

/// Why receiving failed.
#[derive(Clone, Copy, Debug, PartialEq, Eq, Structural)]
pub enum ReceiveError {
    Udp(Error),
    Io(LibError),
}

/// What the error queue of a socket holds.
#[derive(Debug)]
pub enum ErrorQueue {
    Empty,
    /// It could not be read.
    Failed,
    /// An entry was cut off.
    Truncated,
    /// The control messages of an entry; for each, whether it is an IP error.
    Messages(Vec<bool>),
}

/// Whether an entry of the error queue has an IP error.
pub open spec fn has_ip_error(messages: Seq<bool>) -> bool {
    exists|i: int| 0 <= i < messages.len() && #[trigger] messages[i]
}

fn find_ip_error(messages: &[bool]) -> (res: bool)
    ensures
        res == has_ip_error(messages@),
{
    let mut i: usize = 0;
    while i < messages.len()
        invariant
            i <= messages@.len(),
            forall|k: int| 0 <= k < i ==> !#[trigger] messages@[k],
        decreases messages@.len() - i,
    {
        if messages[i] {
            assert(messages@[i as int]);
            return true;
        }
        i += 1;
    }
    false
}

/// Decides on the error queue whether packets may be received.
pub fn check_error_queue(queue: &ErrorQueue) -> (res: Result<(), ReceiveError>)
    ensures
        match queue {
            ErrorQueue::Empty => res is Ok,
            ErrorQueue::Failed => res == Err::<(), ReceiveError>(
                ReceiveError::Io(LibError::ErrorQueueFailed),
            ),
            ErrorQueue::Truncated => res == Err::<(), ReceiveError>(
                ReceiveError::Io(LibError::ErrorQueueTruncated),
            ),
            ErrorQueue::Messages(messages) => if has_ip_error(messages@) {
                res == Err::<(), ReceiveError>(ReceiveError::Udp(Error::Icmp))
            } else {
                res is Ok
            },
        },
{
    match queue {
        ErrorQueue::Empty => Ok(()),
        ErrorQueue::Failed => Err(ReceiveError::Io(LibError::ErrorQueueFailed)),
        ErrorQueue::Truncated => Err(ReceiveError::Io(LibError::ErrorQueueTruncated)),
        ErrorQueue::Messages(messages) => {
            if find_ip_error(messages.as_slice()) {
                return Err(ReceiveError::Udp(Error::Icmp));
            }
            Ok(())
        },
    }
}

/// The sender of a packet.
#[derive(Clone, Copy, Debug, PartialEq, Eq, Structural)]
pub enum Sender {
    Missing,
    /// Not an IP address.
    Other,
    Inet(SocketAddr),
}

/// The traffic class of a packet: the last one that was reported, or 0.
pub open spec fn reported_class(classes: Seq<i32>) -> int {
    if classes.len() == 0 {
        0
    } else {
        classes.last() as int
    }
}

/// What is wrong with a packet from this sender with these traffic classes.
pub open spec fn packet_error(classes: Seq<i32>, sender: Sender) -> Option<LibError> {
    if !(0 <= reported_class(classes) <= 255) {
        Some(LibError::TrafficClassTooBig)
    } else {
        match sender {
            Sender::Missing => Some(LibError::NoSender),
            Sender::Other => Some(LibError::NoInetSender),
            Sender::Inet(SocketAddr::V4(_)) => Some(LibError::NoFlowinfo),
            Sender::Inet(SocketAddr::V6(_)) => None,
        }
    }
}

/// The address of a sender, with the traffic class in its flow information.
pub open spec fn sender_with_class(addr: SocketAddrV6, class: u8, order: ByteOrder) -> SocketAddr {
    SocketAddr::V6(SocketAddrV6 { flowinfo: traits::flowinfo_of(class, order) as u32, ..addr })
}

/// Packets on their way in and out of a socket.
#[derive(Debug)]
pub struct UdpFramed<C> {
    codec: C,
    /// The last packet that arrived.
    rd: Vec<u8>,
    /// The packet to send.
    wr: Vec<u8>,
    out_addr: SocketAddr,
    /// There is nothing to send.
    flushed: bool,
    /// A packet has arrived that was not looked at to its end.
    is_readable: bool,
    current_addr: Option<SocketAddr>,
}

/// What sending a packet led to.
#[derive(Clone, Copy, Debug, PartialEq, Eq, Structural)]
pub enum SendEvent {
    /// The socket has to become writable first.
    WouldBlock,
    Failed(LibError),
    /// So many bytes were sent.
    Sent(usize),
}

impl<C> UdpFramed<C> {
    #[verifier::type_invariant]
    spec fn readable_has_sender(self) -> bool {
        self.is_readable ==> self.current_addr is Some
    }

    /// The packet that has arrived, with its sender.
    pub closed spec fn pending(self) -> Option<(Seq<u8>, SocketAddr)> {
        if self.is_readable {
            Some((self.rd@, self.current_addr->0))
        } else {
            None
        }
    }

    /// The packet that has to be sent, with its destination.
    pub closed spec fn outgoing(self) -> Option<(Seq<u8>, SocketAddr)> {
        if self.flushed {
            None
        } else {
            Some((self.wr@, self.out_addr))
        }
    }

    pub closed spec fn spec_codec(self) -> C {
        self.codec
    }

    pub fn new(codec: C) -> (res: Self)
        ensures
            res.spec_codec() == codec,
            res.pending() is None,
            res.outgoing() is None,
    {
        Self {
            codec,
            rd: Vec::new(),
            wr: Vec::new(),
            out_addr: SocketAddr::V4(SocketAddrV4 { ip: 0, port: 0 }),
            flushed: true,
            is_readable: false,
            current_addr: None,
        }
    }

    /// Hands out the packet that has arrived, once. An empty packet holds no
    /// message and is dropped.
    pub fn take_packet(&mut self) -> (res: Option<(Vec<u8>, SocketAddr)>)
        ensures
            final(self).spec_codec() == old(self).spec_codec(),
            final(self).outgoing() == old(self).outgoing(),
            match old(self).pending() {
                Some((packet, addr)) => if packet.len() > 0 {
                    &&& res matches Some((bytes, from))
                    &&& bytes@ == packet
                    &&& from == addr
                    &&& final(self).pending() == Some((Seq::<u8>::empty(), addr))
                } else {
                    res is None && final(self).pending() is None
                },
                None => res is None && final(self).pending() is None,
            },
    {
        proof {
            use_type_invariant(&*self);
        }
        if !self.is_readable {
            return None;
        }
        if self.rd.len() == 0 {
            self.is_readable = false;
            return None;
        }
        match self.current_addr {
            Some(addr) => {
                let mut packet: Vec<u8> = Vec::new();
                core::mem::swap(&mut packet, &mut self.rd);
                assert(self.rd@ =~= Seq::<u8>::empty());
                Some((packet, addr))
            },
            None => None,
        }
    }

    /// Takes in a packet, on a machine of a given byte order.
    pub fn receive_ordered(
        &mut self,
        packet: Vec<u8>,
        classes: &[i32],
        sender: Sender,
        order: ByteOrder,
    ) -> (res: Result<(), LibError>)
        ensures
            final(self).spec_codec() == old(self).spec_codec(),
            final(self).outgoing() == old(self).outgoing(),
            match packet_error(classes@, sender) {
                Some(e) => res == Err::<(), LibError>(e) && final(self).pending() == old(
                    self).pending(),
                None => {
                    &&& res is Ok
                    &&& final(self).pending() == Some(
                        (
                            packet@,
                            sender_with_class(
                                sender->Inet_0->V6_0,
                                reported_class(classes@) as u8,
                                order,
                            ),
                        ),
                    )
                },
            },
    {
        let class: i32 = if classes.len() == 0 {
            0
        } else {
            classes[classes.len() - 1]
        };
        if class < 0 || class > 255 {
            return Err(LibError::TrafficClassTooBig);
        }
        let mut addr: SocketAddr = match sender {
            Sender::Missing => {
                return Err(LibError::NoSender);
            },
            Sender::Other => {
                return Err(LibError::NoInetSender);
            },
            Sender::Inet(addr) => addr,
        };
        let flowinfo = Flowinfo::new_ordered(TrafficClass::from_raw(class as u8), order);
        match addr.set_flowinfo(flowinfo.raw()) {
            Err(e) => {
                return Err(e);
            },
            Ok(()) => {},
        }
        self.current_addr = Some(addr);
        self.rd = packet;
        self.is_readable = true;
        Ok(())
    }

    /// Takes in a packet.
    pub fn receive(&mut self, packet: Vec<u8>, classes: &[i32], sender: Sender) -> (res: Result<
        (),
        LibError,
    >)
        ensures
            final(self).spec_codec() == old(self).spec_codec(),
            final(self).outgoing() == old(self).outgoing(),
            match packet_error(classes@, sender) {
                Some(e) => res == Err::<(), LibError>(e) && final(self).pending() == old(
                    self).pending(),
                None => {
                    &&& res is Ok
                    &&& exists|order: ByteOrder|
                        final(self).pending() == Some(
                            (
                                packet@,
                                #[trigger] sender_with_class(
                                    sender->Inet_0->V6_0,
                                    reported_class(classes@) as u8,
                                    order,
                                ),
                            ),
                        )
                },
            },
    {
        let order = native_byte_order();
        self.receive_ordered(packet, classes, sender, order)
    }

    /// Puts a packet on its way.
    pub fn start_send(&mut self, packet: Vec<u8>, addr: SocketAddr)
        ensures
            final(self).spec_codec() == old(self).spec_codec(),
            final(self).outgoing() == Some((packet@, addr)),
            final(self).pending() == old(self).pending(),
    {
        proof {
            use_type_invariant(&*self);
        }
        self.wr = packet;
        self.out_addr = addr;
        self.flushed = false;
    }

    /// The traffic class of the packet to send, on a machine of a given byte
    /// order.
    pub fn out_class_ordered(&self, order: ByteOrder) -> (res: u8)
        ensures
            self.outgoing() matches Some((_, addr)) ==> res == traits::class_of(
                addr.spec_flowinfo(),
                order,
            ),
    {
        self.out_addr.flowinfo().traffic_class_ordered(order).raw()
    }

    /// Takes account of what sending led to. Nothing is returned as long as the
    /// packet has to be sent again.
    pub fn on_sent(&mut self, event: SendEvent) -> (res: Option<Result<(), LibError>>)
        ensures
            final(self).spec_codec() == old(self).spec_codec(),
            final(self).pending() == old(self).pending(),
            match old(self).outgoing() {
                None => res == Some(Ok::<(), LibError>(())) && final(self).outgoing() is None,
                Some((packet, _)) => match event {
                    SendEvent::WouldBlock => {
                        &&& res is None
                        &&& final(self).outgoing() == old(self).outgoing()
                    },
                    SendEvent::Failed(e) => {
                        &&& res == Some(Err::<(), LibError>(e))
                        &&& final(self).outgoing() == old(self).outgoing()
                    },
                    SendEvent::Sent(n) => {
                        &&& final(self).outgoing() is None
                        &&& res == Some(
                            if n == packet.len() {
                                Ok::<(), LibError>(())
                            } else {
                                Err::<(), LibError>(LibError::ShortWrite)
                            },
                        )
                    },
                },
            },
    {
        proof {
            use_type_invariant(&*self);
        }
        if self.flushed {
            return Some(Ok(()));
        }
        match event {
            SendEvent::WouldBlock => None,
            SendEvent::Failed(e) => Some(Err(e)),
            SendEvent::Sent(n) => {
                let wrote_all: bool = n == self.wr.len();
                self.wr = Vec::new();
                self.flushed = true;
                if wrote_all {
                    Some(Ok(()))
                } else {
                    Some(Err(LibError::ShortWrite))
                }
            },
        }
    }

    pub fn codec(&self) -> (res: &C)
        ensures
            *res == self.spec_codec(),
    {
        &self.codec
    }
}

/// A packet that was sent with the flow information of a traffic class leaves
/// with that class, and the class that a packet arrives with is found in its
/// sender's flow information.
pub proof fn law_class_survives(addr: SocketAddrV6, class: u8, order: ByteOrder)
    ensures
        traits::class_of(sender_with_class(addr, class, order).spec_flowinfo(), order) == class,
{
    traits::law_flowinfo_round_trip(class, order);
}

/// One control message with an IP error is enough, wherever it stands, and
/// without one there is no error.
pub proof fn law_ip_errors(before: Seq<bool>, after: Seq<bool>)
    ensures
        has_ip_error(before + seq![true] + after),
        has_ip_error(before + seq![false] + after) == (has_ip_error(before) || has_ip_error(after)),
        !has_ip_error(Seq::<bool>::empty()),
{
    assert((before + seq![true] + after)[before.len() as int]);
    let all = before + seq![false] + after;
    let n = before.len() as int;
    if has_ip_error(before) {
        let i = choose|i: int| 0 <= i < before.len() && #[trigger] before[i];
        assert(all[i]);
    }
    if has_ip_error(after) {
        let i = choose|i: int| 0 <= i < after.len() && #[trigger] after[i];
        assert(all[n + 1 + i]);
    }
    if has_ip_error(all) {
        let i = choose|i: int| 0 <= i < all.len() && #[trigger] all[i];
        if i < n {
            assert(before[i]);
        } else {
            assert(i != n);
            assert(after[i - n - 1]);
        }
    }
}

/// The traffic class that is reported last counts, and there is none to begin
/// with.
pub proof fn law_last_class_counts(classes: Seq<i32>, class: i32)
    ensures
        reported_class(classes.push(class)) == class,
        reported_class(Seq::<i32>::empty()) == 0,
{
}

/// A packet is taken exactly if its last traffic class fits in a byte and its
/// sender has an IPv6 address. The class is looked at first.
pub proof fn law_which_packets_are_taken(classes: Seq<i32>, class: i32, sender: Sender)
    ensures
        class < 0 || class > 255 ==> packet_error(classes.push(class), sender) == Some(
            LibError::TrafficClassTooBig,
        ),
        0 <= class <= 255 ==> packet_error(classes.push(class), sender) == packet_error(
            Seq::empty(),
            sender,
        ),
        packet_error(Seq::empty(), sender) is None <==> (sender matches Sender::Inet(addr)
            && addr is V6),
        packet_error(Seq::empty(), Sender::Missing) == Some(LibError::NoSender),
        packet_error(Seq::empty(), Sender::Other) == Some(LibError::NoInetSender),
        sender matches Sender::Inet(SocketAddr::V4(_)) ==> packet_error(Seq::empty(), sender)
            == Some(LibError::NoFlowinfo),
{
}

/// The sender of a packet is who it was before its traffic class is noted.
pub proof fn law_sender_is_kept(addr: SocketAddrV6, class: u8, order: ByteOrder)
    ensures
        sender_with_class(addr, class, order) matches SocketAddr::V6(noted) && noted.ip == addr.ip
            && noted.port == addr.port && noted.scope_id == addr.scope_id,
{
}

} // verus!
