//! The fabric's state machine: the peer table with presence, the per-user
//! offline queue, the file-transfer table, and the dispatch of incoming
//! messages. Every transition is a plain function of the state, the parsed
//! message and the clock reading; the host performs the returned actions
//! (socket sends, persistence) and emits the returned events.

use vstd::prelude::*;

use crate::fabric::types::{opt_view, peer_views, str_views, transfer_views, wire_views,
    FabricAction, FabricEvent, FileTransfer, FileTransferV, PeerInfo, PeerInfoV, TransferDirection,
    TransferStatus, WireKind, WireMessage, WireMessageV};
use crate::fabric::wire::{compose_control, compose_receipt, total_chunks_for};
use crate::platform::new_uuid;
use crate::text::str_eq;

verus! {

/// Whether a peer list holds a record with the given peer id.
pub open spec fn has_peer(ps: Seq<PeerInfoV>, peer_id: Seq<char>) -> bool {
    exists|i: int| 0 <= i < ps.len() && (#[trigger] ps[i]).peer_id == peer_id
}

/// The first index holding the given peer id.
pub open spec fn peer_idx(ps: Seq<PeerInfoV>, peer_id: Seq<char>) -> int {
    choose|i: int| 0 <= i < ps.len() && (#[trigger] ps[i]).peer_id == peer_id
}

/// Whether any peer carries the given user.
pub open spec fn has_user_peer(ps: Seq<PeerInfoV>, user_id: Seq<char>) -> bool {
    exists|i: int| 0 <= i < ps.len() && (#[trigger] ps[i]).user_id == user_id
}

/// The first index whose peer carries the given user, or the length.
pub open spec fn first_user_idx(ps: Seq<PeerInfoV>, user_id: Seq<char>) -> int
    decreases ps.len(),
{
    if ps.len() == 0 {
        0
    } else if ps[0].user_id == user_id {
        0
    } else {
        1 + first_user_idx(ps.drop_first(), user_id)
    }
}

pub proof fn lemma_first_user_idx(ps: Seq<PeerInfoV>, user_id: Seq<char>)
    ensures
        0 <= first_user_idx(ps, user_id) <= ps.len(),
        forall|j: int| 0 <= j < first_user_idx(ps, user_id) ==> (#[trigger] ps[j]).user_id
            != user_id,
        first_user_idx(ps, user_id) < ps.len() ==> ps[first_user_idx(ps, user_id)].user_id
            == user_id,
    decreases ps.len(),
{
    if ps.len() > 0 && ps[0].user_id != user_id {
        lemma_first_user_idx(ps.drop_first(), user_id);
        let k = first_user_idx(ps, user_id);
        assert forall|j: int| 0 <= j < k implies (#[trigger] ps[j]).user_id != user_id by {
            if j > 0 {
                assert(ps[j] == ps.drop_first()[j - 1]);
            }
        }
        if k < ps.len() {
            assert(ps[k] == ps.drop_first()[k - 1]);
        }
    }
}

/// Whether a queue holds an entry for the given user.
pub open spec fn has_queue(q: Seq<(Seq<char>, Seq<WireMessageV>)>, user_id: Seq<char>) -> bool {
    exists|i: int| 0 <= i < q.len() && (#[trigger] q[i]).0 == user_id
}

/// The first queue index for the given user.
pub open spec fn queue_idx(q: Seq<(Seq<char>, Seq<WireMessageV>)>, user_id: Seq<char>) -> int {
    choose|i: int| 0 <= i < q.len() && (#[trigger] q[i]).0 == user_id
}

/// Whether a transfer list holds a record with the given id.
pub open spec fn has_transfer(ts: Seq<FileTransferV>, id: Seq<char>) -> bool {
    exists|i: int| 0 <= i < ts.len() && (#[trigger] ts[i]).id == id
}

/// The first index holding the given transfer id.
pub open spec fn transfer_idx(ts: Seq<FileTransferV>, id: Seq<char>) -> int {
    choose|i: int| 0 <= i < ts.len() && (#[trigger] ts[i]).id == id
}

/// A peer past the five-minute presence window at the given time.
pub open spec fn presence_expired(p: PeerInfoV, now_ms: i64) -> bool {
    p.is_online && now_ms - p.last_seen_ms > 5 * 60 * 1000
}

/// The same peer flipped offline.
pub open spec fn flipped_offline(p: PeerInfoV) -> PeerInfoV {
    PeerInfoV { is_online: false, ..p }
}

/// The view of the offline queue.
pub open spec fn queue_views(q: Seq<(String, Vec<WireMessage>)>) -> Seq<
    (Seq<char>, Seq<WireMessageV>),
> {
    q.map_values(|e: (String, Vec<WireMessage>)| (e.0@, wire_views(e.1@)))
}

/// The queue after parking one more message for a user: appended to the
/// user's list when one exists, else a fresh single-message entry.
pub open spec fn queue_with(
    q: Seq<(Seq<char>, Seq<WireMessageV>)>,
    user_id: Seq<char>,
    m: WireMessageV,
) -> Seq<(Seq<char>, Seq<WireMessageV>)> {
    if has_queue(q, user_id) {
        let i = queue_idx(q, user_id);
        q.update(i, (q[i].0, q[i].1.push(m)))
    } else {
        q.push((user_id, seq![m]))
    }
}

/// Queueing preserves order: two messages parked for a user who had no
/// entry come back as exactly that two-message list, first one first. With
/// `take_queued` handing the entry back unchanged on the user's next
/// discovery, queued traffic is delivered in the order it was sent.
pub proof fn lemma_queue_preserves_order(
    q: Seq<(Seq<char>, Seq<WireMessageV>)>,
    user_id: Seq<char>,
    m1: WireMessageV,
    m2: WireMessageV,
)
    requires
        !has_queue(q, user_id),
    ensures
        ({
            let q2 = queue_with(queue_with(q, user_id, m1), user_id, m2);
            &&& has_queue(q2, user_id)
            &&& q2[queue_idx(q2, user_id)].1 == seq![m1, m2]
        }),
{
    let q1 = queue_with(q, user_id, m1);
    assert(q1 == q.push((user_id, seq![m1])));
    assert(q1[q.len() as int].0 == user_id);
    assert(has_queue(q1, user_id));
    let i1 = queue_idx(q1, user_id);
    assert(0 <= i1 < q1.len() && q1[i1].0 == user_id);
    if i1 < q.len() {
        assert(q[i1].0 == user_id);
        assert(false);
    }
    let q2 = queue_with(q1, user_id, m2);
    assert(q2 == q1.update(i1, (q1[i1].0, q1[i1].1.push(m2))));
    assert(q2[i1].0 == user_id);
    assert(has_queue(q2, user_id));
    let i2 = queue_idx(q2, user_id);
    assert(0 <= i2 < q2.len() && q2[i2].0 == user_id);
    if i2 < q.len() {
        assert(q2[i2].0 == q[i2].0);
        assert(false);
    }
    assert(q2[i2].1 =~= seq![m1, m2]);
}

/// The mathematical model of the fabric.
pub ghost struct FabricStateV {
    pub running: bool,
    pub my_peer_id: Seq<char>,
    pub my_user_id: Seq<char>,
    pub my_user_name: Seq<char>,
    pub my_school_id: Seq<char>,
    pub my_ip: Seq<char>,
    pub discovery_port: u16,
    pub udp_message_port: u16,
    pub tcp_message_port: u16,
    pub peers: Seq<PeerInfoV>,
    pub queue: Seq<(Seq<char>, Seq<WireMessageV>)>,
    pub transfers: Seq<FileTransferV>,
}

/// The fabric's mutable state: identity, ports, the peer table, the offline
/// queue and the transfer table. One instance lives behind the host's lock.
pub struct FabricState {
    running: bool,
    my_peer_id: String,
    my_user_id: String,
    my_user_name: String,
    my_school_id: String,
    my_ip: String,
    discovery_port: u16,
    udp_message_port: u16,
    tcp_message_port: u16,
    peers: Vec<PeerInfo>,
    message_queue: Vec<(String, Vec<WireMessage>)>,
    file_transfers: Vec<FileTransfer>,
}

impl View for FabricState {
    type V = FabricStateV;

    closed spec fn view(&self) -> FabricStateV {
        FabricStateV {
            running: self.running,
            my_peer_id: self.my_peer_id@,
            my_user_id: self.my_user_id@,
            my_user_name: self.my_user_name@,
            my_school_id: self.my_school_id@,
            my_ip: self.my_ip@,
            discovery_port: self.discovery_port,
            udp_message_port: self.udp_message_port,
            tcp_message_port: self.tcp_message_port,
            peers: peer_views(self.peers@),
            queue: queue_views(self.message_queue@),
            transfers: transfer_views(self.file_transfers@),
        }
    }
}

impl FabricState {
    /// The invariant: peer ids, queue keys and transfer ids are unique.
    pub open spec fn wf(&self) -> bool {
        &&& forall|i: int, j: int|
            0 <= i < j < self@.peers.len() ==> (#[trigger] self@.peers[i]).peer_id != (
            #[trigger] self@.peers[j]).peer_id
        &&& forall|i: int, j: int|
            0 <= i < j < self@.queue.len() ==> (#[trigger] self@.queue[i]).0 != (
            #[trigger] self@.queue[j]).0
        &&& forall|i: int, j: int|
            0 <= i < j < self@.transfers.len() ==> (#[trigger] self@.transfers[i]).id != (
            #[trigger] self@.transfers[j]).id
    }

    /// A stopped fabric with the given identity and ports.
    pub fn new(my_peer_id: String, discovery_port: u16, udp_message_port: u16,
        tcp_message_port: u16) -> (r: Self)
        ensures
            r.wf(),
            !r@.running,
            r@.my_peer_id == my_peer_id@,
            r@.my_user_id.len() == 0,
            r@.discovery_port == discovery_port,
            r@.udp_message_port == udp_message_port,
            r@.tcp_message_port == tcp_message_port,
            r@.peers.len() == 0,
            r@.queue.len() == 0,
            r@.transfers.len() == 0,
    {
        let r = FabricState {
            running: false,
            my_peer_id,
            my_user_id: String::new(),
            my_user_name: String::new(),
            my_school_id: String::new(),
            my_ip: String::new(),
            discovery_port,
            udp_message_port,
            tcp_message_port,
            peers: Vec::new(),
            message_queue: Vec::new(),
            file_transfers: Vec::new(),
        };
        proof {
            assert(peer_views(r.peers@) =~= Seq::<PeerInfoV>::empty());
            assert(queue_views(r.message_queue@) =~= Seq::<(Seq<char>, Seq<WireMessageV>)>::empty());
            assert(transfer_views(r.file_transfers@) =~= Seq::<FileTransferV>::empty());
        }
        r
    }

    /// Brings the fabric up under a user identity. A missing school scope
    /// falls back to the default school. Starting an already-running fabric
    /// changes nothing. Answers whether the fabric was started just now.
    pub fn start(
        &mut self,
        user_id: String,
        user_name: String,
        school_id: Option<String>,
        discovery_port: u16,
        my_ip: String,
    ) -> (r: bool)
        requires
            old(self).wf(),
        ensures
            final(self).wf(),
            r == !old(self)@.running,
            old(self)@.running ==> final(self)@ == old(self)@,
            !old(self)@.running ==> ({
                &&& final(self)@.running
                &&& final(self)@.my_user_id == user_id@
                &&& final(self)@.my_user_name == user_name@
                &&& final(self)@.my_school_id == (match school_id {
                    Some(s) => s@,
                    None => "default-school"@,
                })
                &&& final(self)@.my_ip == my_ip@
                &&& final(self)@.discovery_port == discovery_port
                &&& final(self)@.my_peer_id == old(self)@.my_peer_id
                &&& final(self)@.peers == old(self)@.peers
                &&& final(self)@.queue == old(self)@.queue
                &&& final(self)@.transfers == old(self)@.transfers
            }),
    {
        if self.running {
            return false;
        }
        self.running = true;
        self.my_user_id = user_id;
        self.my_user_name = user_name;
        self.my_school_id = match school_id {
            Some(s) => s,
            None => String::from_str("default-school"),
        };
        self.my_ip = my_ip;
        self.discovery_port = discovery_port;
        proof {
            assert(self@.peers =~= old(self)@.peers);
            assert(self@.queue =~~= old(self)@.queue);
            assert(self@.transfers =~= old(self)@.transfers);
        }
        true
    }

    /// Takes the fabric down: the peer table and the offline queue empty
    /// out; tracked transfers stay. Stopping twice changes nothing.
    pub fn stop(&mut self)
        requires
            old(self).wf(),
        ensures
            final(self).wf(),
            old(self)@.running ==> !final(self)@.running && final(self)@.peers.len() == 0 && final(self)@.queue.len() == 0 && final(self)@.transfers == old(self)@.transfers,
            !old(self)@.running ==> final(self)@ == old(self)@,
    {
        if !self.running {
            return ;
        }
        self.running = false;
        self.peers = Vec::new();
        self.message_queue = Vec::new();
        proof {
            assert(peer_views(self.peers@) =~= Seq::<PeerInfoV>::empty());
            assert(queue_views(self.message_queue@) =~= Seq::<
                (Seq<char>, Seq<WireMessageV>),
            >::empty());
        }
    }

    /// Whether the fabric is up.
    pub fn is_running(&self) -> (r: bool)
        ensures
            r == self@.running,
    {
        self.running
    }

    /// This host's user id.
    pub fn my_user_id(&self) -> (r: String)
        ensures
            r@ == self@.my_user_id,
    {
        self.my_user_id.clone()
    }

    /// This host's user name.
    pub fn my_user_name(&self) -> (r: String)
        ensures
            r@ == self@.my_user_name,
    {
        self.my_user_name.clone()
    }

    /// This host's peer id.
    pub fn my_peer_id(&self) -> (r: String)
        ensures
            r@ == self@.my_peer_id,
    {
        self.my_peer_id.clone()
    }

    /// The school scope this fabric announces and accepts.
    pub fn my_school_id(&self) -> (r: String)
        ensures
            r@ == self@.my_school_id,
    {
        self.my_school_id.clone()
    }

    /// The port the discovery socket is asked to bind.
    pub fn discovery_port(&self) -> (r: u16)
        ensures
            r == self@.discovery_port,
    {
        self.discovery_port
    }

    /// The unicast UDP message port.
    pub fn udp_message_port(&self) -> (r: u16)
        ensures
            r == self@.udp_message_port,
    {
        self.udp_message_port
    }

    /// The TCP message port.
    pub fn tcp_message_port(&self) -> (r: u16)
        ensures
            r == self@.tcp_message_port,
    {
        self.tcp_message_port
    }

    /// Every known peer.
    pub fn get_peers(&self) -> (r: Vec<PeerInfo>)
        ensures
            peer_views(r@) == self@.peers,
    {
        let mut out: Vec<PeerInfo> = Vec::new();
        let mut i: usize = 0;
        proof {
            assert(peer_views(out@) =~= self@.peers.take(0));
        }
        while i < self.peers.len()
            invariant
                0 <= i <= self@.peers.len(),
                self@.peers.len() == self.peers@.len(),
                self@.peers == peer_views(self.peers@),
                peer_views(out@) == self@.peers.take(i as int),
            decreases self@.peers.len() - i,
        {
            let ghost out0 = out@;
            out.push(self.peers[i].duplicate());
            proof {
                assert(peer_views(out@) =~= peer_views(out0).push(self@.peers[i as int]));
                assert(self@.peers.take(i as int + 1) =~= self@.peers.take(i as int).push(
                    self@.peers[i as int],
                ));
            }
            i = i + 1;
        }
        proof {
            assert(self@.peers.take(self@.peers.len() as int) =~= self@.peers);
        }
        out
    }

    /// The peers currently online.
    pub fn online_peers(&self) -> (r: Vec<PeerInfo>)
        ensures
            peer_views(r@) == self@.peers.filter(|p: PeerInfoV| p.is_online),
    {
        let ghost all = self@.peers;
        let ghost pred = |p: PeerInfoV| p.is_online;
        let mut out: Vec<PeerInfo> = Vec::new();
        let mut i: usize = 0;
        proof {
            assert(all.take(0).filter(pred) =~= Seq::<PeerInfoV>::empty());
            assert(peer_views(out@) =~= Seq::<PeerInfoV>::empty());
        }
        while i < self.peers.len()
            invariant
                0 <= i <= all.len(),
                all == peer_views(self.peers@),
                all.len() == self.peers@.len(),
                pred == (|p: PeerInfoV| p.is_online),
                peer_views(out@) == all.take(i as int).filter(pred),
            decreases all.len() - i,
        {
            proof {
                assert(all.take(i as int + 1) =~= all.take(i as int).push(all[i as int]));
                crate::seqx::lemma_filter_push(all.take(i as int), all[i as int], pred);
            }
            if self.peers[i].is_online {
                let ghost out0 = out@;
                out.push(self.peers[i].duplicate());
                proof {
                    assert(peer_views(out@) =~= peer_views(out0).push(all[i as int]));
                }
            }
            i = i + 1;
        }
        proof {
            assert(all.take(all.len() as int) =~= all);
        }
        out
    }

    /// The first peer carrying the given user, for routing an outgoing
    /// message; the queue takes over when there is none.
    pub fn find_peer_by_user(&self, user_id: &str) -> (r: Option<PeerInfo>)
        ensures
            match r {
                Some(p) => has_user_peer(self@.peers, user_id@) && p@ == self@.peers[first_user_idx(
                    self@.peers,
                    user_id@,
                )],
                None => !has_user_peer(self@.peers, user_id@),
            },
    {
        proof {
            lemma_first_user_idx(self@.peers, user_id@);
        }
        let mut i: usize = 0;
        while i < self.peers.len()
            invariant
                0 <= i <= self@.peers.len(),
                self@.peers.len() == self.peers@.len(),
                self@.peers == peer_views(self.peers@),
                forall|j: int| 0 <= j < i ==> (#[trigger] self@.peers[j]).user_id != user_id@,
            decreases self@.peers.len() - i,
        {
            if str_eq(self.peers[i].user_id.as_str(), user_id) {
                proof {
                    lemma_first_user_idx(self@.peers, user_id@);
                    let fu = first_user_idx(self@.peers, user_id@);
                    if fu < i as int {
                        assert(self@.peers[fu].user_id == user_id@);
                    }
                    if fu > i as int {
                        assert(self@.peers[i as int].user_id != user_id@);
                    }
                    assert(fu == i as int);
                }
                return Some(self.peers[i].duplicate());
            }
            i = i + 1;
        }
        None
    }

    /// Parks a message for a user with no reachable peer. The per-user list
    /// keeps arrival order, so queued traffic is later delivered in order.
    pub fn queue_message(&mut self, receiver_id: &str, message: WireMessage)
        requires
            old(self).wf(),
        ensures
            final(self).wf(),
            final(self)@.queue == queue_with(old(self)@.queue, receiver_id@, message@),
            final(self)@.peers == old(self)@.peers,
            final(self)@.transfers == old(self)@.transfers,
            final(self)@.running == old(self)@.running,
            final(self)@.my_user_id == old(self)@.my_user_id,
    {
        let ghost msgv = message@;
        let found = self.index_of_queue(receiver_id);
        match found {
            Some(i) => {
                proof {
                    let q = self@.queue;
                    let k = queue_idx(q, receiver_id@);
                    assert(0 <= k < q.len() && q[k].0 == receiver_id@);
                    if k != i as int {
                        assert(q[k].0 != q[i as int].0);
                    }
                }
                let ghost pre = self@;
                let mut entry = self.message_queue.remove(i);
                let ghost list0 = entry.1@;
                entry.1.push(message);
                proof {
                    assert(wire_views(entry.1@) =~= wire_views(list0).push(msgv));
                    assert(wire_views(list0) == pre.queue[i as int].1);
                }
                self.message_queue.insert(i, entry);
                proof {
                    let newq = self@.queue;
                    assert(newq =~~= pre.queue.update(
                        i as int,
                        (pre.queue[i as int].0, pre.queue[i as int].1.push(msgv)),
                    ));
                    assert forall|a: int, b: int| 0 <= a < b < newq.len() implies (
                    #[trigger] newq[a]).0 != (#[trigger] newq[b]).0 by {
                        assert(newq[a].0 == pre.queue[a].0);
                        assert(newq[b].0 == pre.queue[b].0);
                    }
                }
            },
            None => {
                let ghost pre = self@;
                let mut list: Vec<WireMessage> = Vec::new();
                list.push(message);
                proof {
                    assert(wire_views(list@) =~= seq![msgv]);
                }
                self.message_queue.push((receiver_id.to_owned(), list));
                proof {
                    let newq = self@.queue;
                    assert(newq =~~= pre.queue.push((receiver_id@, seq![msgv])));
                    assert forall|a: int, b: int| 0 <= a < b < newq.len() implies (
                    #[trigger] newq[a]).0 != (#[trigger] newq[b]).0 by {
                        if b < newq.len() - 1 {
                            assert(newq[a].0 == pre.queue[a].0);
                            assert(newq[b].0 == pre.queue[b].0);
                        } else {
                            assert(newq[a].0 == pre.queue[a].0);
                        }
                    }
                }
            },
        }
    }

    /// The first queue position for the given user.
    fn index_of_queue(&self, user_id: &str) -> (r: Option<usize>)
        ensures
            match r {
                Some(i) => i < self@.queue.len() && self@.queue[i as int].0 == user_id@,
                None => !has_queue(self@.queue, user_id@),
            },
    {
        let mut i: usize = 0;
        while i < self.message_queue.len()
            invariant
                0 <= i <= self@.queue.len(),
                self@.queue.len() == self.message_queue@.len(),
                self@.queue == queue_views(self.message_queue@),
                forall|j: int| 0 <= j < i ==> (#[trigger] self@.queue[j]).0 != user_id@,
            decreases self@.queue.len() - i,
        {
            if str_eq(self.message_queue[i].0.as_str(), user_id) {
                return Some(i);
            }
            i = i + 1;
        }
        None
    }

    /// Empties and returns a user's parked messages, in their arrival order.
    pub fn take_queued(&mut self, user_id: &str) -> (r: Vec<WireMessage>)
        requires
            old(self).wf(),
        ensures
            final(self).wf(),
            has_queue(old(self)@.queue, user_id@) ==> ({
                let i = queue_idx(old(self)@.queue, user_id@);
                &&& wire_views(r@) == old(self)@.queue[i].1
                &&& final(self)@.queue == old(self)@.queue.remove(i)
            }),
            !has_queue(old(self)@.queue, user_id@) ==> r@.len() == 0 && final(self)@ == old(self)@,
            final(self)@.peers == old(self)@.peers,
            final(self)@.transfers == old(self)@.transfers,
            final(self)@.running == old(self)@.running,
            final(self)@.my_user_id == old(self)@.my_user_id,
    {
        match self.index_of_queue(user_id) {
            None => Vec::new(),
            Some(i) => {
                proof {
                    let q = self@.queue;
                    let k = queue_idx(q, user_id@);
                    assert(0 <= k < q.len() && q[k].0 == user_id@);
                    if k != i as int {
                        assert(q[k].0 != q[i as int].0);
                    }
                }
                let ghost pre = self@;
                let entry = self.message_queue.remove(i);
                proof {
                    assert(self@.queue =~= pre.queue.remove(i as int));
                    let newq = self@.queue;
                    assert forall|a: int, b: int| 0 <= a < b < newq.len() implies (
                    #[trigger] newq[a]).0 != (#[trigger] newq[b]).0 by {
                        let a0 = if a < i as int {
                            a
                        } else {
                            a + 1
                        };
                        let b0 = if b < i as int {
                            b
                        } else {
                            b + 1
                        };
                        assert(newq[a].0 == pre.queue[a0].0);
                        assert(newq[b].0 == pre.queue[b0].0);
                    }
                }
                entry.1
            },
        }
    }
}

/// What a discovery datagram led to.
pub struct DiscoveryOutcome {
    pub accepted: bool,
    pub event: Option<FabricEvent>,
    pub respond: bool,
    pub queued: Vec<WireMessage>,
}

impl FabricState {
    /// Handles a `discovery` or `discovery-response` datagram: a foreign
    /// school or our own echo is ignored; otherwise the peer table is
    /// upserted, the first sighting or a return from offline raises an
    /// event, a broadcast (not a response) is answered, and every message
    /// parked for that user comes back for delivery, in order.
    pub fn handle_discovery(
        &mut self,
        is_response: bool,
        peer_id: &str,
        user_id: &str,
        school_id: &str,
        user_name: Option<String>,
        hostname: Option<String>,
        platform: Option<String>,
        sender_ip: &str,
        now_iso: String,
        now_ms: i64,
    ) -> (r: DiscoveryOutcome)
        requires
            old(self).wf(),
        ensures
            final(self).wf(),
            ({
                let ignored = peer_id@ == old(self)@.my_peer_id || (old(self)@.my_school_id.len()
                    > 0 && school_id@ != old(self)@.my_school_id);
                &&& r.accepted == !ignored
                &&& ignored ==> final(self)@ == old(self)@ && r.event is None && !r.respond
                    && r.queued@.len() == 0
                &&& !ignored ==> ({
                    let newp = PeerInfoV {
                        peer_id: peer_id@,
                        user_id: user_id@,
                        user_name: opt_view(user_name),
                        school_id: Some(school_id@),
                        ip_address: sender_ip@,
                        port: old(self)@.udp_message_port,
                        last_seen: now_iso@,
                        last_seen_ms: now_ms,
                        is_online: true,
                        hostname: opt_view(hostname),
                        platform: opt_view(platform),
                    };
                    let known = has_peer(old(self)@.peers, peer_id@);
                    &&& known ==> final(self)@.peers == old(self)@.peers.update(
                        peer_idx(old(self)@.peers, peer_id@),
                        newp,
                    )
                    &&& !known ==> final(self)@.peers == old(self)@.peers.push(newp)
                    &&& !known ==> (r.event matches Some(FabricEvent::PeerDiscovered(p)) && p@
                        == newp)
                    &&& (known && !old(self)@.peers[peer_idx(old(self)@.peers, peer_id@)].is_online)
                        ==> (r.event matches Some(FabricEvent::PeerOnline(p)) && p@ == newp)
                    &&& (known && old(self)@.peers[peer_idx(old(self)@.peers, peer_id@)].is_online)
                        ==> r.event is None
                    &&& r.respond == !is_response
                    &&& (has_queue(old(self)@.queue, user_id@) ==> wire_views(r.queued@) == old(self)@.queue[queue_idx(old(self)@.queue, user_id@)].1 && final(self)@.queue == old(self)@.queue.remove(queue_idx(old(self)@.queue, user_id@)))
                    &&& (!has_queue(old(self)@.queue, user_id@) ==> r.queued@.len() == 0 && final(self)@.queue == old(self)@.queue)
                    &&& final(self)@.transfers == old(self)@.transfers
                    &&& final(self)@.my_user_id == old(self)@.my_user_id
                    &&& final(self)@.running == old(self)@.running
                })
            }),
    {
        if str_eq(peer_id, self.my_peer_id.as_str()) {
            return DiscoveryOutcome {
                accepted: false,
                event: None,
                respond: false,
                queued: Vec::new(),
            };
        }
        if self.my_school_id.as_str().unicode_len() > 0 && !str_eq(
            school_id,
            self.my_school_id.as_str(),
        ) {
            return DiscoveryOutcome {
                accepted: false,
                event: None,
                respond: false,
                queued: Vec::new(),
            };
        }
        let peer = PeerInfo {
            peer_id: peer_id.to_owned(),
            user_id: user_id.to_owned(),
            user_name,
            school_id: Some(school_id.to_owned()),
            ip_address: sender_ip.to_owned(),
            port: self.udp_message_port,
            last_seen: now_iso,
            last_seen_ms: now_ms,
            is_online: true,
            hostname,
            platform,
        };
        let found = self.index_of_peer(peer_id);
        let event: Option<FabricEvent>;
        let ghost pre = self@;
        match found {
            Some(i) => {
                proof {
                    let ps = pre.peers;
                    let k = peer_idx(ps, peer_id@);
                    assert(0 <= k < ps.len() && ps[k].peer_id == peer_id@);
                    if k != i as int {
                        assert(ps[k].peer_id != ps[i as int].peer_id);
                    }
                }
                let was_offline = !self.peers[i].is_online;
                let emitted = peer.duplicate();
                self.replace_peer(i, peer);
                event = if was_offline {
                    Some(FabricEvent::PeerOnline(emitted))
                } else {
                    None
                };
                proof {
                    let post = self@.peers;
                    assert forall|a: int, b: int| 0 <= a < b < post.len() implies (
                    #[trigger] post[a]).peer_id != (#[trigger] post[b]).peer_id by {
                        assert(post[a].peer_id == pre.peers[a].peer_id);
                        assert(post[b].peer_id == pre.peers[b].peer_id);
                    }
                }
            },
            None => {
                let emitted = peer.duplicate();
                self.peers.push(peer);
                event = Some(FabricEvent::PeerDiscovered(emitted));
                proof {
                    assert(self@.peers =~~= pre.peers.push(emitted@));
                    assert(self@.queue =~~= pre.queue);
                    assert(self@.transfers =~~= pre.transfers);
                    let post = self@.peers;
                    assert forall|a: int, b: int| 0 <= a < b < post.len() implies (
                    #[trigger] post[a]).peer_id != (#[trigger] post[b]).peer_id by {
                        if b < post.len() - 1 {
                            assert(post[a].peer_id == pre.peers[a].peer_id);
                            assert(post[b].peer_id == pre.peers[b].peer_id);
                        } else {
                            assert(post[a].peer_id == pre.peers[a].peer_id);
                        }
                    }
                }
            },
        }
        let queued = self.take_queued(user_id);
        DiscoveryOutcome { accepted: true, event, respond: !is_response, queued }
    }

    /// The first position holding the given peer id.
    fn index_of_peer(&self, peer_id: &str) -> (r: Option<usize>)
        ensures
            match r {
                Some(i) => i < self@.peers.len() && self@.peers[i as int].peer_id == peer_id@,
                None => !has_peer(self@.peers, peer_id@),
            },
    {
        let mut i: usize = 0;
        while i < self.peers.len()
            invariant
                0 <= i <= self@.peers.len(),
                self@.peers.len() == self.peers@.len(),
                self@.peers == peer_views(self.peers@),
                forall|j: int| 0 <= j < i ==> (#[trigger] self@.peers[j]).peer_id != peer_id@,
            decreases self@.peers.len() - i,
        {
            if str_eq(self.peers[i].peer_id.as_str(), peer_id) {
                return Some(i);
            }
            i = i + 1;
        }
        None
    }


    /// Replaces the peer at a position, leaving everything else untouched.
    fn replace_peer(&mut self, i: usize, p: PeerInfo)
        requires
            i < old(self)@.peers.len(),
        ensures
            final(self)@.peers == old(self)@.peers.update(i as int, p@),
            final(self)@.queue == old(self)@.queue,
            final(self)@.transfers == old(self)@.transfers,
            final(self)@.running == old(self)@.running,
            final(self)@.my_peer_id == old(self)@.my_peer_id,
            final(self)@.my_user_id == old(self)@.my_user_id,
            final(self)@.my_user_name == old(self)@.my_user_name,
            final(self)@.my_school_id == old(self)@.my_school_id,
            final(self)@.my_ip == old(self)@.my_ip,
            final(self)@.discovery_port == old(self)@.discovery_port,
            final(self)@.udp_message_port == old(self)@.udp_message_port,
            final(self)@.tcp_message_port == old(self)@.tcp_message_port,
    {
        let _old_peer = self.peers.remove(i);
        self.peers.insert(i, p);
        proof {
            assert(self.peers@ =~= old(self).peers@.update(i as int, p));
            assert(peer_views(self.peers@) =~= peer_views(old(self).peers@).update(i as int, p@));
        }
    }

    /// The presence sweep: every online peer not refreshed for over five
    /// minutes flips offline, each exactly once, and comes back as an event
    /// to emit. Nothing else changes; peers already offline stay untouched.
    pub fn cleanup_sweep(&mut self, now_ms: i64) -> (r: Vec<PeerInfo>)
        requires
            old(self).wf(),
        ensures
            final(self).wf(),
            final(self)@.peers.len() == old(self)@.peers.len(),
            forall|i: int|
                0 <= i < old(self)@.peers.len() ==> (#[trigger] final(self)@.peers[i]) == (
                if presence_expired(old(self)@.peers[i], now_ms) {
                    flipped_offline(old(self)@.peers[i])
                } else {
                    old(self)@.peers[i]
                }),
            peer_views(r@) == old(self)@.peers.filter(
                |p: PeerInfoV| presence_expired(p, now_ms),
            ).map_values(|p: PeerInfoV| flipped_offline(p)),
            final(self)@.queue == old(self)@.queue,
            final(self)@.transfers == old(self)@.transfers,
            final(self)@.running == old(self)@.running,
            final(self)@.my_user_id == old(self)@.my_user_id,
    {
        let ghost all = self@.peers;
        let ghost pred = |p: PeerInfoV| presence_expired(p, now_ms);
        let mut events: Vec<PeerInfo> = Vec::new();
        let mut i: usize = 0;
        proof {
            assert(all.take(0).filter(pred) =~= Seq::<PeerInfoV>::empty());
            assert(peer_views(events@) =~= Seq::<PeerInfoV>::empty());
            assert(Seq::<PeerInfoV>::empty().map_values(|p: PeerInfoV| flipped_offline(p)) =~= Seq::<
                PeerInfoV,
            >::empty());
        }
        while i < self.peers.len()
            invariant
                0 <= i <= all.len(),
                all.len() == self.peers@.len(),
                self@.peers.len() == all.len(),
                pred == (|p: PeerInfoV| presence_expired(p, now_ms)),
                forall|j: int|
                    0 <= j < i ==> (#[trigger] self@.peers[j]) == (if pred(all[j]) {
                        flipped_offline(all[j])
                    } else {
                        all[j]
                    }),
                forall|j: int| i <= j < all.len() ==> (#[trigger] self@.peers[j]) == all[j],
                peer_views(events@) == all.take(i as int).filter(pred).map_values(
                    |p: PeerInfoV| flipped_offline(p),
                ),
                self@.queue == old(self)@.queue,
                self@.transfers == old(self)@.transfers,
                self@.running == old(self)@.running,
                self@.my_user_id == old(self)@.my_user_id,
                self@.my_peer_id == old(self)@.my_peer_id,
            decreases all.len() - i,
        {
            proof {
                assert(all.take(i as int + 1) =~= all.take(i as int).push(all[i as int]));
                crate::seqx::lemma_filter_push(all.take(i as int), all[i as int], pred);
            }
            let expired = self.peers[i].is_online && now_ms as i128 - self.peers[i].last_seen_ms
                as i128 > 5 * 60 * 1000;
            proof {
                assert(self@.peers[i as int] == all[i as int]);
                assert(expired == pred(all[i as int]));
            }
            if expired {
                let ghost pre_peers = self@.peers;
                let mut p = self.peers[i].duplicate();
                proof {
                    assert(self@.peers[i as int] == all[i as int]);
                    assert(p@ == self@.peers[i as int]);
                    assert(p@ == all[i as int]);
                }
                p.is_online = false;
                let emitted = p.duplicate();
                proof {
                    assert(p@.peer_id == all[i as int].peer_id);
                    assert(!p@.is_online);
                    assert(p@.user_name == all[i as int].user_name);
                    assert(flipped_offline(all[i as int]).peer_id == all[i as int].peer_id);
                    assert(p@ == flipped_offline(all[i as int]));
                }
                self.replace_peer(i, p);
                let ghost events0 = events@;
                events.push(emitted);
                proof {
                    assert(self@.peers =~~= pre_peers.update(i as int, flipped_offline(all[i as int])));
                    assert(peer_views(events@) =~= peer_views(events0).push(
                        flipped_offline(all[i as int]),
                    ));
                    assert(all.take(i as int).filter(pred).push(all[i as int]).map_values(
                        |p: PeerInfoV| flipped_offline(p),
                    ) =~= all.take(i as int).filter(pred).map_values(
                        |p: PeerInfoV| flipped_offline(p),
                    ).push(flipped_offline(all[i as int])));
                }
            }
            i = i + 1;
        }
        proof {
            assert(all.take(all.len() as int) =~= all);
            let post = self@.peers;
            assert forall|a: int, b: int| 0 <= a < b < post.len() implies (
            #[trigger] post[a]).peer_id != (#[trigger] post[b]).peer_id by {
                assert(post[a].peer_id == all[a].peer_id);
                assert(post[b].peer_id == all[b].peer_id);
            }
        }
        events
    }

    /// The peers a heartbeat should ping: those currently online.
    pub fn heartbeat_targets(&self) -> (r: Vec<PeerInfo>)
        ensures
            peer_views(r@) == self@.peers.filter(|p: PeerInfoV| p.is_online),
    {
        self.online_peers()
    }

    /// A `pong` refreshes the first peer carrying the user: it flips online
    /// with a fresh address and timestamp. Answers the refreshed record.
    pub fn update_peer_presence(
        &mut self,
        user_id: &str,
        ip_address: &str,
        now_iso: String,
        now_ms: i64,
    ) -> (r: Option<PeerInfo>)
        requires
            old(self).wf(),
        ensures
            final(self).wf(),
            !has_user_peer(old(self)@.peers, user_id@) ==> r is None && final(self)@ == old(self)@,
            has_user_peer(old(self)@.peers, user_id@) ==> ({
                let i = first_user_idx(old(self)@.peers, user_id@);
                let refreshed = PeerInfoV {
                    is_online: true,
                    ip_address: ip_address@,
                    last_seen: now_iso@,
                    last_seen_ms: now_ms,
                    ..old(self)@.peers[i]
                };
                &&& (r matches Some(p) && p@ == refreshed)
                &&& final(self)@.peers == old(self)@.peers.update(i, refreshed)
                &&& final(self)@.queue == old(self)@.queue
                &&& final(self)@.transfers == old(self)@.transfers
                &&& final(self)@.running == old(self)@.running
                &&& final(self)@.my_user_id == old(self)@.my_user_id
            }),
    {
        proof {
            lemma_first_user_idx(self@.peers, user_id@);
        }
        let ghost base = self@.peers;
        proof {
            assert(forall|a: int, b: int|
                0 <= a < b < base.len() ==> (#[trigger] base[a]).peer_id != (
                #[trigger] base[b]).peer_id);
        }
        let mut i: usize = 0;
        while i < self.peers.len()
            invariant
                old(self).wf(),
                base == old(self)@.peers,
                forall|a: int, b: int|
                    0 <= a < b < base.len() ==> (#[trigger] base[a]).peer_id != (
                    #[trigger] base[b]).peer_id,
                self@ == old(self)@,
                0 <= i <= self@.peers.len(),
                self@.peers.len() == self.peers@.len(),
                self@.peers == peer_views(self.peers@),
                forall|j: int| 0 <= j < i ==> (#[trigger] self@.peers[j]).user_id != user_id@,
            decreases self@.peers.len() - i,
        {
            if str_eq(self.peers[i].user_id.as_str(), user_id) {
                proof {
                    lemma_first_user_idx(self@.peers, user_id@);
                    let fu = first_user_idx(self@.peers, user_id@);
                    if fu < i as int {
                        assert(self@.peers[fu].user_id == user_id@);
                    }
                    if fu > i as int {
                        assert(self@.peers[i as int].user_id != user_id@);
                    }
                    assert(fu == i as int);
                }
                let ghost pre = self@;
                let mut p = self.peers[i].duplicate();
                proof {
                    assert(p@ == self@.peers[i as int]);
                }
                p.is_online = true;
                p.ip_address = ip_address.to_owned();
                p.last_seen = now_iso;
                p.last_seen_ms = now_ms;
                let emitted = p.duplicate();
                proof {
                    assert(p@.peer_id == pre.peers[i as int].peer_id);
                }
                self.replace_peer(i, p);
                proof {
                    let post = self@.peers;
                    assert forall|a: int, b: int| 0 <= a < b < post.len() implies (
                    #[trigger] post[a]).peer_id != (#[trigger] post[b]).peer_id by {
                        if a == i as int {
                            assert(post[a].peer_id == pre.peers[a].peer_id);
                        } else {
                            assert(post[a] == pre.peers[a]);
                        }
                        if b == i as int {
                            assert(post[b].peer_id == pre.peers[b].peer_id);
                        } else {
                            assert(post[b] == pre.peers[b]);
                        }
                        assert(pre.peers == base);
                        assert(base[a].peer_id != base[b].peer_id);
                    }
                    assert forall|a: int, b: int| 0 <= a < b < self@.queue.len() implies (
                    #[trigger] self@.queue[a]).0 != (#[trigger] self@.queue[b]).0 by {
                        assert(self@.queue[a] == old(self)@.queue[a]);
                        assert(self@.queue[b] == old(self)@.queue[b]);
                    }
                    assert forall|a: int, b: int| 0 <= a < b < self@.transfers.len() implies (
                    #[trigger] self@.transfers[a]).id != (#[trigger] self@.transfers[b]).id by {
                        assert(self@.transfers[a] == old(self)@.transfers[a]);
                        assert(self@.transfers[b] == old(self)@.transfers[b]);
                    }
                }
                return Some(emitted);
            }
            i = i + 1;
        }
        None
    }

    /// Whether an incoming message concerns this host: the group family is
    /// always processed; anything else must be unaddressed or addressed to
    /// this user.
    pub fn should_process(&self, kind: WireKind, receiver_id: &str) -> (r: bool)
        ensures
            r == (kind.is_group() || receiver_id@.len() == 0 || receiver_id@
                == self@.my_user_id),
    {
        kind.is_group_kind() || receiver_id.unicode_len() == 0 || str_eq(
            receiver_id,
            self.my_user_id.as_str(),
        )
    }
}

impl FabricState {
    /// The first position holding the given transfer id.
    fn index_of_transfer(&self, id: &str) -> (r: Option<usize>)
        ensures
            match r {
                Some(i) => i < self@.transfers.len() && self@.transfers[i as int].id == id@,
                None => !has_transfer(self@.transfers, id@),
            },
    {
        let mut i: usize = 0;
        while i < self.file_transfers.len()
            invariant
                0 <= i <= self@.transfers.len(),
                self@.transfers.len() == self.file_transfers@.len(),
                self@.transfers == transfer_views(self.file_transfers@),
                forall|j: int| 0 <= j < i ==> (#[trigger] self@.transfers[j]).id != id@,
            decreases self@.transfers.len() - i,
        {
            if str_eq(self.file_transfers[i].id.as_str(), id) {
                return Some(i);
            }
            i = i + 1;
        }
        None
    }

    /// Registers a transfer: an existing record under the same id is
    /// replaced, otherwise the record is appended.
    fn upsert_transfer(&mut self, t: FileTransfer)
        requires
            old(self).wf(),
        ensures
            final(self).wf(),
            has_transfer(old(self)@.transfers, t@.id) ==> final(self)@.transfers == old(
                self,
            )@.transfers.update(transfer_idx(old(self)@.transfers, t@.id), t@),
            !has_transfer(old(self)@.transfers, t@.id) ==> final(self)@.transfers == old(
                self,
            )@.transfers.push(t@),
            final(self)@.peers == old(self)@.peers,
            final(self)@.queue == old(self)@.queue,
            final(self)@.running == old(self)@.running,
            final(self)@.my_user_id == old(self)@.my_user_id,
    {
        let found = self.index_of_transfer(t.id.as_str());
        let ghost pre = self@;
        match found {
            Some(i) => {
                proof {
                    let ts = pre.transfers;
                    let k = transfer_idx(ts, t@.id);
                    assert(0 <= k < ts.len() && ts[k].id == t@.id);
                    if k != i as int {
                        assert(ts[k].id != ts[i as int].id);
                    }
                }
                let _old_t = self.file_transfers.remove(i);
                self.file_transfers.insert(i, t);
                proof {
                    assert(self@.transfers =~~= pre.transfers.update(i as int, t@));
                    assert(self@.peers =~~= pre.peers);
                    assert(self@.queue =~~= pre.queue);
                    let post = self@.transfers;
                    assert forall|a: int, b: int| 0 <= a < b < post.len() implies (
                    #[trigger] post[a]).id != (#[trigger] post[b]).id by {
                        assert(post[a].id == pre.transfers[a].id);
                        assert(post[b].id == pre.transfers[b].id);
                    }
                }
            },
            None => {
                self.file_transfers.push(t);
                proof {
                    assert(self@.transfers =~~= pre.transfers.push(t@));
                    assert(self@.peers =~~= pre.peers);
                    assert(self@.queue =~~= pre.queue);
                    let post = self@.transfers;
                    assert forall|a: int, b: int| 0 <= a < b < post.len() implies (
                    #[trigger] post[a]).id != (#[trigger] post[b]).id by {
                        if b < post.len() - 1 {
                            assert(post[a].id == pre.transfers[a].id);
                            assert(post[b].id == pre.transfers[b].id);
                        } else {
                            assert(post[a].id == pre.transfers[a].id);
                        }
                    }
                }
            },
        }
    }

    /// Every tracked transfer.
    pub fn get_file_transfers(&self) -> (r: Vec<FileTransfer>)
        ensures
            transfer_views(r@) == self@.transfers,
    {
        let mut out: Vec<FileTransfer> = Vec::new();
        let mut i: usize = 0;
        proof {
            assert(transfer_views(out@) =~= self@.transfers.take(0));
        }
        while i < self.file_transfers.len()
            invariant
                0 <= i <= self@.transfers.len(),
                self@.transfers.len() == self.file_transfers@.len(),
                self@.transfers == transfer_views(self.file_transfers@),
                transfer_views(out@) == self@.transfers.take(i as int),
            decreases self@.transfers.len() - i,
        {
            let ghost out0 = out@;
            out.push(self.file_transfers[i].duplicate());
            proof {
                assert(transfer_views(out@) =~= transfer_views(out0).push(
                    self@.transfers[i as int],
                ));
                assert(self@.transfers.take(i as int + 1) =~= self@.transfers.take(i as int).push(
                    self@.transfers[i as int],
                ));
            }
            i = i + 1;
        }
        proof {
            assert(self@.transfers.take(self@.transfers.len() as int) =~= self@.transfers);
        }
        out
    }

    /// Starts an outbound file offer: a fresh pending transfer is recorded
    /// and the offer message for the receiver comes back for sending.
    pub fn offer_file(&mut self, receiver_id: &str, file_name: &str, file_size: u64) -> (r: (
        FileTransfer,
        WireMessage,
    ))
        requires
            old(self).wf(),
        ensures
            final(self).wf(),
            ({
                let t = r.0@;
                let m = r.1@;
                &&& t.peer_id == receiver_id@
                &&& t.file_name == file_name@
                &&& t.file_size == file_size
                &&& t.progress == 0
                &&& t.status == TransferStatus::Pending
                &&& t.direction == TransferDirection::Send
                &&& t.total_chunks == crate::fabric::wire::chunks_for(file_size)
                &&& m.kind == WireKind::FileOffer
                &&& m.id == t.id
                &&& m.sender_id == old(self)@.my_user_id
                &&& m.sender_name == old(self)@.my_user_name
                &&& m.receiver_id == receiver_id@
                &&& m.file_name == file_name@
                &&& m.file_size == file_size
                &&& m.total_chunks == t.total_chunks
                &&& (!has_transfer(old(self)@.transfers, t.id) ==> final(self)@.transfers == old(
                    self,
                )@.transfers.push(t))
                &&& final(self)@.peers == old(self)@.peers
                &&& final(self)@.queue == old(self)@.queue
            }),
    {
        let transfer = FileTransfer {
            id: new_uuid(),
            peer_id: receiver_id.to_owned(),
            file_name: file_name.to_owned(),
            file_size,
            progress: 0,
            status: TransferStatus::Pending,
            direction: TransferDirection::Send,
            total_chunks: total_chunks_for(file_size),
        };
        let emitted = transfer.duplicate();
        let mut m = WireMessage::blank(WireKind::FileOffer);
        m.id = transfer.id.clone();
        m.sender_id = self.my_user_id.clone();
        m.sender_name = self.my_user_name.clone();
        m.receiver_id = receiver_id.to_owned();
        m.file_name = file_name.to_owned();
        m.file_size = file_size;
        m.total_chunks = transfer.total_chunks;
        m.timestamp = crate::platform::now_rfc3339();
        self.upsert_transfer(transfer);
        (emitted, m)
    }

    /// Accepts an inbound offer: the transfer turns `Accepted` and the
    /// acceptance message for the offering peer comes back for sending.
    /// Nothing happens for an unknown transfer id.
    pub fn accept_file(&mut self, transfer_id: &str) -> (r: Option<WireMessage>)
        requires
            old(self).wf(),
        ensures
            final(self).wf(),
            !has_transfer(old(self)@.transfers, transfer_id@) ==> r is None && final(self)@ == old(
                self,
            )@,
            has_transfer(old(self)@.transfers, transfer_id@) ==> ({
                let i = transfer_idx(old(self)@.transfers, transfer_id@);
                &&& (r matches Some(m) && m@.kind == WireKind::FileAccept && m@.receiver_id == old(
                    self,
                )@.transfers[i].peer_id && m@.message_id == transfer_id@ && m@.sender_id == old(
                    self,
                )@.my_user_id)
                &&& final(self)@.transfers == old(self)@.transfers.update(
                    i,
                    FileTransferV { status: TransferStatus::Accepted, ..old(self)@.transfers[i] },
                )
                &&& final(self)@.peers == old(self)@.peers
                &&& final(self)@.queue == old(self)@.queue
            }),
    {
        let found = self.index_of_transfer(transfer_id);
        match found {
            None => None,
            Some(i) => {
                proof {
                    let ts = self@.transfers;
                    let k = transfer_idx(ts, transfer_id@);
                    assert(0 <= k < ts.len() && ts[k].id == transfer_id@);
                    if k != i as int {
                        assert(ts[k].id != ts[i as int].id);
                    }
                }
                let mut t = self.file_transfers[i].duplicate();
                proof {
                    assert(t@ == self@.transfers[i as int]);
                }
                t.status = TransferStatus::Accepted;
                let peer_id = t.peer_id.clone();
                self.upsert_transfer(t);
                let m = compose_receipt(
                    WireKind::FileAccept,
                    self.my_user_id.clone().as_str(),
                    peer_id.as_str(),
                    transfer_id,
                );
                Some(m)
            },
        }
    }

    /// Rejects an inbound offer: the transfer is dropped and the rejection
    /// message for the offering peer comes back for sending.
    pub fn reject_file(&mut self, transfer_id: &str) -> (r: Option<WireMessage>)
        requires
            old(self).wf(),
        ensures
            final(self).wf(),
            !has_transfer(old(self)@.transfers, transfer_id@) ==> r is None && final(self)@ == old(
                self,
            )@,
            has_transfer(old(self)@.transfers, transfer_id@) ==> ({
                let i = transfer_idx(old(self)@.transfers, transfer_id@);
                &&& (r matches Some(m) && m@.kind == WireKind::FileReject && m@.receiver_id == old(
                    self,
                )@.transfers[i].peer_id && m@.message_id == transfer_id@ && m@.sender_id == old(
                    self,
                )@.my_user_id)
                &&& final(self)@.transfers == old(self)@.transfers.remove(i)
                &&& final(self)@.peers == old(self)@.peers
                &&& final(self)@.queue == old(self)@.queue
            }),
    {
        let found = self.index_of_transfer(transfer_id);
        match found {
            None => None,
            Some(i) => {
                proof {
                    let ts = self@.transfers;
                    let k = transfer_idx(ts, transfer_id@);
                    assert(0 <= k < ts.len() && ts[k].id == transfer_id@);
                    if k != i as int {
                        assert(ts[k].id != ts[i as int].id);
                    }
                }
                let ghost pre = self@;
                let t = self.file_transfers.remove(i);
                proof {
                    assert(self@.transfers =~~= pre.transfers.remove(i as int));
                    assert(self@.peers =~~= pre.peers);
                    assert(self@.queue =~~= pre.queue);
                    let post = self@.transfers;
                    assert forall|a: int, b: int| 0 <= a < b < post.len() implies (
                    #[trigger] post[a]).id != (#[trigger] post[b]).id by {
                        let a0 = if a < i as int {
                            a
                        } else {
                            a + 1
                        };
                        let b0 = if b < i as int {
                            b
                        } else {
                            b + 1
                        };
                        assert(post[a] == pre.transfers[a0]);
                        assert(post[b] == pre.transfers[b0]);
                    }
                }
                let m = compose_receipt(
                    WireKind::FileReject,
                    self.my_user_id.clone().as_str(),
                    t.peer_id.as_str(),
                    transfer_id,
                );
                Some(m)
            },
        }
    }
}

impl FabricState {
    /// The dispatcher for one incoming peer message, from either transport.
    /// A non-group message addressed to somebody else is dropped. Chats are
    /// surfaced, persisted and answered with a delivery receipt; receipts
    /// mark local rows; group traffic is surfaced (group chats also answer a
    /// group delivery receipt); file control messages drive the transfer
    /// table; pings answer pongs; pongs refresh presence.
    pub fn handle_incoming(
        &mut self,
        message: WireMessage,
        sender_ip: &str,
        now_iso: String,
        now_ms: i64,
    ) -> (r: (Vec<FabricEvent>, Vec<FabricAction>))
        requires
            old(self).wf(),
        ensures
            final(self).wf(),
            ({
                let msg = message@;
                let process = msg.kind.is_group() || msg.receiver_id.len() == 0 || msg.receiver_id
                    == old(self)@.my_user_id;
                let events = r.0@;
                let actions = r.1@;
                &&& !process ==> final(self)@ == old(self)@ && events.len() == 0 && actions.len()
                    == 0
                &&& process ==> match msg.kind {
                    WireKind::Chat => {
                        &&& final(self)@ == old(self)@
                        &&& events.len() == 1
                        &&& (events[0] matches FabricEvent::MessageReceived(m) && m@ == msg)
                        &&& (actions[0] matches FabricAction::PersistMessage {
                            message: m,
                            delivered,
                            is_read,
                        } && m@ == msg && delivered && !is_read)
                        &&& (if msg.sender_id.len() > 0 && msg.id.len() > 0 {
                            actions.len() == 2 && (actions[1] matches FabricAction::SendUdp {
                                target_ip,
                                message: rec,
                            } && target_ip@ == sender_ip@ && rec@.kind
                                == WireKind::DeliveryReceipt && rec@.receiver_id == msg.sender_id
                                && rec@.message_id == msg.id && rec@.sender_id == old(
                                self,
                            )@.my_user_id)
                        } else {
                            actions.len() == 1
                        })
                    },
                    WireKind::DeliveryReceipt => {
                        &&& final(self)@ == old(self)@
                        &&& events.len() == 1
                        &&& (events[0] matches FabricEvent::DeliveryReceiptReceived(m) && m@
                            == msg)
                        &&& (if msg.message_id.len() > 0 {
                            actions.len() == 1 && (actions[0] matches FabricAction::MarkDelivered {
                                message_id,
                            } && message_id@ == msg.message_id)
                        } else {
                            actions.len() == 0
                        })
                    },
                    WireKind::ReadReceipt => {
                        &&& final(self)@ == old(self)@
                        &&& events.len() == 1
                        &&& (events[0] matches FabricEvent::ReadReceiptReceived(m) && m@ == msg)
                        &&& (if msg.message_id.len() > 0 {
                            actions.len() == 1 && (actions[0] matches FabricAction::MarkRead {
                                message_id,
                            } && message_id@ == msg.message_id)
                        } else {
                            actions.len() == 0
                        })
                    },
                    WireKind::Typing => {
                        &&& final(self)@ == old(self)@
                        &&& events.len() == 1
                        &&& (events[0] matches FabricEvent::TypingReceived { user_id, is_typing }
                            && user_id@ == msg.sender_id && is_typing == (msg.content
                            == "typing"@))
                        &&& actions.len() == 0
                    },
                    WireKind::GroupChat => {
                        &&& final(self)@ == old(self)@
                        &&& events.len() == 1
                        &&& (events[0] matches FabricEvent::GroupMessageReceived(m) && m@ == msg)
                        &&& actions.len() == 1
                        &&& (actions[0] matches FabricAction::SendUdp { target_ip, message: rec }
                            && target_ip@ == sender_ip@ && rec@.kind
                            == WireKind::GroupDeliveryReceipt && rec@.receiver_id == msg.sender_id
                            && rec@.message_id == msg.id && rec@.group_id == msg.group_id
                            && rec@.sender_id == old(self)@.my_user_id)
                    },
                    WireKind::GroupCreate => {
                        &&& final(self)@ == old(self)@
                        &&& events.len() == 1
                        &&& (events[0] matches FabricEvent::GroupCreated(m) && m@ == msg)
                        &&& actions.len() == 0
                    },
                    WireKind::GroupJoin => {
                        &&& final(self)@ == old(self)@
                        &&& events.len() == 1
                        &&& (events[0] matches FabricEvent::GroupMemberChanged(m) && m@ == msg)
                        &&& actions.len() == 0
                    },
                    WireKind::GroupLeave => {
                        &&& final(self)@ == old(self)@
                        &&& events.len() == 1
                        &&& (events[0] matches FabricEvent::GroupMemberChanged(m) && m@ == msg)
                        &&& actions.len() == 0
                    },
                    WireKind::GroupReadReceipt => {
                        &&& final(self)@ == old(self)@
                        &&& events.len() == 1
                        &&& (events[0] matches FabricEvent::GroupReadReceiptReceived(m) && m@
                            == msg)
                        &&& actions.len() == 0
                    },
                    WireKind::GroupDeliveryReceipt => {
                        &&& final(self)@ == old(self)@
                        &&& events.len() == 1
                        &&& (events[0] matches FabricEvent::GroupDeliveryReceiptReceived(m) && m@
                            == msg)
                        &&& actions.len() == 0
                    },
                    WireKind::GroupTyping => {
                        &&& final(self)@ == old(self)@
                        &&& events.len() == 1
                        &&& (events[0] matches FabricEvent::GroupTypingReceived(m) && m@ == msg)
                        &&& actions.len() == 0
                    },
                    WireKind::FileOffer => {
                        &&& events.len() == 1
                        &&& (events[0] matches FabricEvent::FileOfferReceived(t) && t@.id == msg.id
                            && t@.peer_id == msg.sender_id && t@.file_name == msg.file_name
                            && t@.file_size == msg.file_size && t@.progress == 0 && t@.status
                            == TransferStatus::Pending && t@.direction == TransferDirection::Receive
                            && t@.total_chunks == msg.total_chunks)
                        &&& actions.len() == 0
                        &&& final(self)@.peers == old(self)@.peers
                        &&& final(self)@.queue == old(self)@.queue
                    },
                    WireKind::FileAccept => {
                        &&& actions.len() == 0
                        &&& (if has_transfer(old(self)@.transfers, msg.message_id) {
                            let i = transfer_idx(old(self)@.transfers, msg.message_id);
                            final(self)@.transfers == old(self)@.transfers.update(
                                i,
                                FileTransferV {
                                    status: TransferStatus::Accepted,
                                    ..old(self)@.transfers[i]
                                },
                            ) && events.len() == 1 && (
                            events[0] matches FabricEvent::FileProgress { transfer_id, progress }
                                && transfer_id@ == msg.message_id && progress == 0)
                        } else {
                            final(self)@ == old(self)@ && events.len() == 0
                        })
                        &&& final(self)@.peers == old(self)@.peers
                        &&& final(self)@.queue == old(self)@.queue
                    },
                    WireKind::FileReject => {
                        &&& actions.len() == 0
                        &&& (if has_transfer(old(self)@.transfers, msg.message_id) {
                            let i = transfer_idx(old(self)@.transfers, msg.message_id);
                            final(self)@.transfers == old(self)@.transfers.remove(i)
                                && events.len() == 1 && (
                            events[0] matches FabricEvent::FileComplete(t) && t@ == old(
                                self,
                            )@.transfers[i])
                        } else {
                            final(self)@ == old(self)@ && events.len() == 0
                        })
                        &&& final(self)@.peers == old(self)@.peers
                        &&& final(self)@.queue == old(self)@.queue
                    },
                    WireKind::Ping => {
                        &&& final(self)@ == old(self)@
                        &&& events.len() == 0
                        &&& actions.len() == 1
                        &&& (actions[0] matches FabricAction::SendUdp { target_ip, message: pong }
                            && target_ip@ == sender_ip@ && pong@.kind == WireKind::Pong
                            && pong@.receiver_id == msg.sender_id && pong@.sender_id == old(
                            self,
                        )@.my_user_id)
                    },
                    WireKind::Pong => {
                        &&& actions.len() == 0
                        &&& (if has_user_peer(old(self)@.peers, msg.sender_id) {
                            events.len() == 1 && (events[0] matches FabricEvent::PeerOnline(_))
                        } else {
                            final(self)@ == old(self)@ && events.len() == 0
                        })
                        &&& final(self)@.queue == old(self)@.queue
                        &&& final(self)@.transfers == old(self)@.transfers
                    },
                    WireKind::Discovery => final(self)@ == old(self)@ && events.len() == 0
                        && actions.len() == 0,
                    WireKind::DiscoveryResponse => final(self)@ == old(self)@ && events.len() == 0
                        && actions.len() == 0,
                }
            }),
    {
        proof {
            reveal_strlit("typing");
        }
        let mut events: Vec<FabricEvent> = Vec::new();
        let mut actions: Vec<FabricAction> = Vec::new();
        if !self.should_process(message.kind, message.receiver_id.as_str()) {
            return (events, actions);
        }
        match message.kind {
            WireKind::Chat => {
                let sender_id = message.sender_id.clone();
                let msg_id = message.id.clone();
                events.push(FabricEvent::MessageReceived(message.duplicate()));
                actions.push(
                    FabricAction::PersistMessage { message, delivered: true, is_read: false },
                );
                if sender_id.as_str().unicode_len() > 0 && msg_id.as_str().unicode_len() > 0 {
                    let receipt = compose_receipt(
                        WireKind::DeliveryReceipt,
                        self.my_user_id.clone().as_str(),
                        sender_id.as_str(),
                        msg_id.as_str(),
                    );
                    actions.push(
                        FabricAction::SendUdp { target_ip: sender_ip.to_owned(), message: receipt },
                    );
                }
                (events, actions)
            },
            WireKind::DeliveryReceipt => {
                let mid = message.message_id.clone();
                events.push(FabricEvent::DeliveryReceiptReceived(message));
                if mid.as_str().unicode_len() > 0 {
                    actions.push(FabricAction::MarkDelivered { message_id: mid });
                }
                (events, actions)
            },
            WireKind::ReadReceipt => {
                let mid = message.message_id.clone();
                events.push(FabricEvent::ReadReceiptReceived(message));
                if mid.as_str().unicode_len() > 0 {
                    actions.push(FabricAction::MarkRead { message_id: mid });
                }
                (events, actions)
            },
            WireKind::Typing => {
                let is_typing = str_eq(message.content.as_str(), "typing");
                events.push(
                    FabricEvent::TypingReceived { user_id: message.sender_id, is_typing },
                );
                (events, actions)
            },
            WireKind::GroupChat => {
                let mut receipt = WireMessage::blank(WireKind::GroupDeliveryReceipt);
                receipt.id = new_uuid();
                receipt.sender_id = self.my_user_id.clone();
                receipt.receiver_id = message.sender_id.clone();
                receipt.message_id = message.id.clone();
                receipt.group_id = message.group_id.clone();
                receipt.timestamp = crate::platform::now_rfc3339();
                events.push(FabricEvent::GroupMessageReceived(message));
                actions.push(
                    FabricAction::SendUdp { target_ip: sender_ip.to_owned(), message: receipt },
                );
                (events, actions)
            },
            WireKind::GroupCreate => {
                events.push(FabricEvent::GroupCreated(message));
                (events, actions)
            },
            WireKind::GroupJoin => {
                events.push(FabricEvent::GroupMemberChanged(message));
                (events, actions)
            },
            WireKind::GroupLeave => {
                events.push(FabricEvent::GroupMemberChanged(message));
                (events, actions)
            },
            WireKind::GroupReadReceipt => {
                events.push(FabricEvent::GroupReadReceiptReceived(message));
                (events, actions)
            },
            WireKind::GroupDeliveryReceipt => {
                events.push(FabricEvent::GroupDeliveryReceiptReceived(message));
                (events, actions)
            },
            WireKind::GroupTyping => {
                events.push(FabricEvent::GroupTypingReceived(message));
                (events, actions)
            },
            WireKind::FileOffer => {
                let transfer = FileTransfer {
                    id: message.id.clone(),
                    peer_id: message.sender_id.clone(),
                    file_name: message.file_name.clone(),
                    file_size: message.file_size,
                    progress: 0,
                    status: TransferStatus::Pending,
                    direction: TransferDirection::Receive,
                    total_chunks: message.total_chunks,
                };
                let emitted = transfer.duplicate();
                self.upsert_transfer(transfer);
                events.push(FabricEvent::FileOfferReceived(emitted));
                (events, actions)
            },
            WireKind::FileAccept => {
                let found = self.index_of_transfer(message.message_id.as_str());
                match found {
                    Some(i) => {
                        proof {
                            let ts = self@.transfers;
                            let k = transfer_idx(ts, message@.message_id);
                            assert(0 <= k < ts.len() && ts[k].id == message@.message_id);
                            if k != i as int {
                                assert(ts[k].id != ts[i as int].id);
                            }
                        }
                        let mut t = self.file_transfers[i].duplicate();
                        proof {
                            assert(t@ == self@.transfers[i as int]);
                        }
                        t.status = TransferStatus::Accepted;
                        self.upsert_transfer(t);
                        events.push(
                            FabricEvent::FileProgress {
                                transfer_id: message.message_id,
                                progress: 0,
                            },
                        );
                    },
                    None => {},
                }
                (events, actions)
            },
            WireKind::FileReject => {
                let found = self.index_of_transfer(message.message_id.as_str());
                match found {
                    Some(i) => {
                        proof {
                            let ts = self@.transfers;
                            let k = transfer_idx(ts, message@.message_id);
                            assert(0 <= k < ts.len() && ts[k].id == message@.message_id);
                            if k != i as int {
                                assert(ts[k].id != ts[i as int].id);
                            }
                        }
                        let ghost pre = self@;
                        let t = self.file_transfers.remove(i);
                        proof {
                            assert(self@.transfers =~~= pre.transfers.remove(i as int));
                            assert(self@.peers =~~= pre.peers);
                            assert(self@.queue =~~= pre.queue);
                            let post = self@.transfers;
                            assert forall|a: int, b: int| 0 <= a < b < post.len() implies (
                            #[trigger] post[a]).id != (#[trigger] post[b]).id by {
                                let a0 = if a < i as int {
                                    a
                                } else {
                                    a + 1
                                };
                                let b0 = if b < i as int {
                                    b
                                } else {
                                    b + 1
                                };
                                assert(post[a] == pre.transfers[a0]);
                                assert(post[b] == pre.transfers[b0]);
                            }
                        }
                        events.push(FabricEvent::FileComplete(t));
                    },
                    None => {},
                }
                (events, actions)
            },
            WireKind::Ping => {
                let pong = compose_control(
                    WireKind::Pong,
                    self.my_user_id.clone().as_str(),
                    message.sender_id.as_str(),
                );
                actions.push(
                    FabricAction::SendUdp { target_ip: sender_ip.to_owned(), message: pong },
                );
                (events, actions)
            },
            WireKind::Pong => {
                match self.update_peer_presence(
                    message.sender_id.as_str(),
                    sender_ip,
                    now_iso,
                    now_ms,
                ) {
                    Some(p) => {
                        events.push(FabricEvent::PeerOnline(p));
                    },
                    None => {},
                }
                (events, actions)
            },
            WireKind::Discovery => (events, actions),
            WireKind::DiscoveryResponse => (events, actions),
        }
    }

    /// One copy of a group message per member other than this user, each
    /// addressed to that member, all carrying the same group fields. Group
    /// chats share the caller's message id; everything else draws fresh ids.
    pub fn plan_group_send(
        &self,
        kind: WireKind,
        group_id: &str,
        group_name: &str,
        member_ids: &Vec<String>,
        content: &str,
        message_id: &str,
    ) -> (r: Vec<(String, WireMessage)>)
        requires
            kind.is_group(),
        ensures
            r@.map_values(|e: (String, WireMessage)| e.0@) == str_views(member_ids@).filter(
                |m: Seq<char>| m != self@.my_user_id,
            ),
            forall|i: int|
                0 <= i < r@.len() ==> {
                    let m = (#[trigger] r@[i]).1@;
                    &&& m.kind == kind
                    &&& m.sender_id == self@.my_user_id
                    &&& m.sender_name == self@.my_user_name
                    &&& m.receiver_id == r@[i].0@
                    &&& m.group_id == group_id@
                    &&& m.group_name == group_name@
                    &&& m.content == content@
                    &&& m.member_ids == str_views(member_ids@)
                    &&& m.message_id == message_id@
                },
    {
        let ghost all = str_views(member_ids@);
        let ghost pred = |m: Seq<char>| m != self@.my_user_id;
        let mut out: Vec<(String, WireMessage)> = Vec::new();
        let mut i: usize = 0;
        proof {
            assert(all.take(0).filter(pred) =~= Seq::<Seq<char>>::empty());
            assert(out@.map_values(|e: (String, WireMessage)| e.0@) =~= Seq::<Seq<char>>::empty());
        }
        while i < member_ids.len()
            invariant
                0 <= i <= all.len(),
                all == str_views(member_ids@),
                all.len() == member_ids@.len(),
                pred == (|m: Seq<char>| m != self@.my_user_id),
                out@.map_values(|e: (String, WireMessage)| e.0@) == all.take(i as int).filter(
                    pred,
                ),
                forall|j: int|
                    0 <= j < out@.len() ==> {
                        let m = (#[trigger] out@[j]).1@;
                        &&& m.kind == kind
                        &&& m.sender_id == self@.my_user_id
                        &&& m.sender_name == self@.my_user_name
                        &&& m.receiver_id == out@[j].0@
                        &&& m.group_id == group_id@
                        &&& m.group_name == group_name@
                        &&& m.content == content@
                        &&& m.member_ids == str_views(member_ids@)
                        &&& m.message_id == message_id@
                    },
            decreases all.len() - i,
        {
            proof {
                assert(all.take(i as int + 1) =~= all.take(i as int).push(all[i as int]));
                crate::seqx::lemma_filter_push(all.take(i as int), all[i as int], pred);
            }
            let member = &member_ids[i];
            if !str_eq(member.as_str(), self.my_user_id.as_str()) {
                let mut m = WireMessage::blank(kind);
                m.id = if message_id.unicode_len() > 0 && (match kind {
                    WireKind::GroupChat => true,
                    _ => false,
                }) {
                    message_id.to_owned()
                } else {
                    new_uuid()
                };
                m.sender_id = self.my_user_id.clone();
                m.sender_name = self.my_user_name.clone();
                m.receiver_id = member.clone();
                m.group_id = group_id.to_owned();
                m.group_name = group_name.to_owned();
                m.content = content.to_owned();
                m.member_ids = crate::fabric::types::dup_str_list(member_ids);
                m.message_id = message_id.to_owned();
                m.timestamp = crate::platform::now_rfc3339();
                let ghost out0 = out@;
                out.push((member.clone(), m));
                proof {
                    assert(out@.map_values(|e: (String, WireMessage)| e.0@) =~= out0.map_values(
                        |e: (String, WireMessage)| e.0@,
                    ).push(all[i as int]));
                }
            }
            i = i + 1;
        }
        proof {
            assert(all.take(all.len() as int) =~= all);
        }
        out
    }
}

} // verus!
