//! Admission of a connection and the bookkeeping of the one live connection:
//! which outbound queue producers reach, and what a new connection retires.
use vstd::prelude::*;
use crate::decimal::{decimal, u64_to_decimal};

verus! {

/// How many packets may wait in the outbound queue of a connection.
pub const OUTBOUND_QUEUE_CAPACITY: usize = 10;

/// The one byte that answers a peer that asks to connect.
#[derive(Clone, Copy, Debug, PartialEq, Eq, Structural)]
pub enum ServerConnectMessage {
    Allowed,
    Denied,
}

pub open spec fn message_byte(m: ServerConnectMessage) -> u8 {
    match m {
        ServerConnectMessage::Allowed => 255,
        ServerConnectMessage::Denied => 0,
    }
}

impl ServerConnectMessage {
    /// The answer to a peer, given whether the user let it in.
    pub fn from_consent(accept: bool) -> (r: Self)
        ensures
            r == (if accept { ServerConnectMessage::Allowed } else { ServerConnectMessage::Denied }),
    {
        if accept { ServerConnectMessage::Allowed } else { ServerConnectMessage::Denied }
    }

    /// The byte that carries this answer.
    pub fn to_byte(&self) -> (r: u8)
        ensures
            r == message_byte(*self),
    {
        match self {
            ServerConnectMessage::Allowed => 255,
            ServerConnectMessage::Denied => 0,
        }
    }
}

#[derive(Debug)]
pub enum NetworkingError {
    ConnectionError(String),
    ReadError(std::io::Error),
    WriteError(std::io::Error),
    UnexpectedMessage(String),
    IOError(std::io::Error),
}

/// What the side that connects makes of the byte it got back: `Ok(true)` when
/// it was let in, `Ok(false)` when it was turned away, and an error naming the
/// byte in decimal when the byte is neither answer.
pub fn read_admission(byte: u8) -> (r: Result<bool, NetworkingError>)
    ensures
        byte == 255 ==> r matches Ok(true),
        byte == 0 ==> r matches Ok(false),
        byte != 255 && byte != 0 ==> r is Err && r->Err_0 is UnexpectedMessage
            && r->Err_0->UnexpectedMessage_0@ == decimal(byte as nat),
{
    if byte == ServerConnectMessage::Allowed.to_byte() {
        Ok(true)
    } else if byte == ServerConnectMessage::Denied.to_byte() {
        Ok(false)
    } else {
        Err(NetworkingError::UnexpectedMessage(u64_to_decimal(byte as u64)))
    }
}

/// What taking a new connection asks of the caller: first a disconnect packet
/// into the queue `retire`, where there is one, and the end of both tasks of
/// that connection; only then the new queue `install`.
pub struct ConnectPlan {
    pub retire: Option<u64>,
    pub install: u64,
}

/// Keeps track of the connections. Each outbound queue gets a number that no
/// earlier queue had. `live_queue` is the one that producers reach; while a
/// new connection waits (`pending`) for the tasks of the one before to end
/// (`retiring`), producers reach none.
pub struct PacketManager {
    pub attached: bool,
    pub live_queue: Option<u64>,
    pub retiring: Option<u64>,
    pub pending: Option<u64>,
    pub next_queue: u64,
}

impl PacketManager {
    pub open spec fn wf(&self) -> bool {
        &&& self.live_queue is Some ==> self.live_queue->Some_0 < self.next_queue
        &&& self.retiring is Some ==> self.retiring->Some_0 < self.next_queue
        &&& self.pending is Some ==> self.pending->Some_0 < self.next_queue
        &&& self.live_queue is Some ==> self.pending is None && self.retiring is None
        &&& self.retiring is Some ==> self.pending is Some
            && self.retiring->Some_0 != self.pending->Some_0
    }

    /// A manager not yet attached to the catalogs and the user, with no connection.
    pub fn new() -> (r: Self)
        ensures
            r.wf(),
            !r.attached,
            r.live_queue is None,
            r.retiring is None,
            r.pending is None,
            r.next_queue == 0,
    {
        PacketManager { attached: false, live_queue: None, retiring: None, pending: None, next_queue: 0 }
    }

    /// Marks the manager as attached to the catalogs and to the user; only
    /// then may it take connections.
    pub fn connect_to_app(&mut self)
        requires
            old(self).wf(),
        ensures
            final(self).wf(),
            final(self).attached,
            final(self).live_queue == old(self).live_queue,
            final(self).retiring == old(self).retiring,
            final(self).pending == old(self).pending,
            final(self).next_queue == old(self).next_queue,
    {
        self.attached = true;
    }

    /// Starts taking a new connection: the live queue, if any, is to be
    /// retired, and a queue with a fresh number waits to take its place. From
    /// now until `install`, producers reach no queue.
    pub fn connect(&mut self) -> (plan: ConnectPlan)
        requires
            old(self).wf(),
            old(self).attached,
            old(self).pending is None,
            old(self).next_queue < u64::MAX,
        ensures
            final(self).wf(),
            superseded(*old(self), *final(self), plan),
    {
        let plan = ConnectPlan { retire: self.live_queue, install: self.next_queue };
        self.retiring = self.live_queue;
        self.live_queue = None;
        self.pending = Some(self.next_queue);
        self.next_queue = self.next_queue + 1;
        plan
    }

    /// Takes note that both tasks of the retired connection have ended.
    pub fn retired(&mut self)
        requires
            old(self).wf(),
            old(self).retiring is Some,
        ensures
            final(self).wf(),
            retire_finished(*old(self), *final(self)),
    {
        self.retiring = None;
    }

    /// Makes the waiting queue the one that producers reach; allowed once no
    /// connection is being retired.
    pub fn install(&mut self) -> (q: u64)
        requires
            old(self).wf(),
            old(self).pending is Some,
            old(self).retiring is None,
        ensures
            final(self).wf(),
            installed(*old(self), *final(self)),
            q == old(self).pending->Some_0,
    {
        let q = self.pending.unwrap();
        self.live_queue = Some(q);
        self.pending = None;
        q
    }

    /// The queue that a packet sent now goes to, if a connection is live.
    pub fn send_target(&self) -> (r: Option<u64>)
        ensures
            r == self.live_queue,
    {
        self.live_queue
    }
}

/// `after` is `before` once `connect` has planned `plan`.
pub open spec fn superseded(before: PacketManager, after: PacketManager, plan: ConnectPlan) -> bool {
    &&& plan.retire == before.live_queue
    &&& plan.install == before.next_queue
    &&& after.live_queue is None
    &&& after.retiring == before.live_queue
    &&& after.pending == Some(plan.install)
    &&& after.next_queue == before.next_queue + 1
    &&& after.attached == before.attached
}

/// `after` is `before` once the tasks of the retiring connection have ended.
pub open spec fn retire_finished(before: PacketManager, after: PacketManager) -> bool {
    after == PacketManager { retiring: None, ..before }
}

/// `after` is `before` with its waiting queue made the live one.
pub open spec fn installed(before: PacketManager, after: PacketManager) -> bool {
    after == PacketManager { live_queue: before.pending, pending: None, ..before }
}

/// Taking a second connection while one is live fully retires the first
/// before the second can be reached: the first queue is named to get a
/// disconnect packet; from then on producers reach no queue at all; the new
/// queue can be installed only once both tasks of the first connection have
/// ended; and the queue that producers reach after that is the new one,
/// different from every queue handed out before.
pub proof fn lemma_superseding(
    s0: PacketManager,
    plan: ConnectPlan,
    s1: PacketManager,
    s2: PacketManager,
    s3: PacketManager,
)
    requires
        s0.wf(),
        s0.live_queue is Some,
        superseded(s0, s1, plan),
        retire_finished(s1, s2),
        installed(s2, s3),
    ensures
        plan.retire == s0.live_queue,
        s1.live_queue is None,
        s1.retiring == s0.live_queue,
        s1.retiring is Some,
        s2.live_queue is None,
        s3.live_queue == Some(plan.install),
        forall|q: u64| q < s0.next_queue ==> s3.live_queue != Some(q),
        s3.wf(),
{
}

} // verus!
