//! An IP hub: a packet received on one interface is forwarded to all the others. The hub keeps
//! its interfaces in a list and forgets one whose send fails, moving the last interface into its
//! place; `HubBroadcast` walks the list for one packet so that every other interface that is
//! still attached gets it exactly once.

use vstd::prelude::*;

verus! {

/// The interfaces of a hub, by identifier, in the order of the hub's list.
#[derive(Debug)]
pub struct IpHubTask {
    ifaces: Vec<u64>,
    next_id: u64,
}

impl IpHubTask {
    /// The identifiers of the attached interfaces, in list order.
    pub closed spec fn ids(&self) -> Seq<u64> {
        self.ifaces@
    }

    /// The identifier the next attached interface gets.
    pub closed spec fn spec_next_id(&self) -> u64 {
        self.next_id
    }

    /// Every identifier in the list is distinct and below the next one to be given.
    pub open spec fn wf(&self) -> bool {
        &&& self.ids().len() <= usize::MAX
        &&& forall|i: int, j: int| 0 <= i < j < self.ids().len() ==> self.ids()[i] != self.ids()[j]
        &&& forall|i: int| 0 <= i < self.ids().len() ==> self.ids()[i] < self.spec_next_id()
    }

    /// A hub with no interfaces.
    pub fn new() -> (hub: IpHubTask)
        ensures
            hub.wf(),
            hub.ids() == Seq::<u64>::empty(),
    {
        IpHubTask { ifaces: Vec::new(), next_id: 0 }
    }

    /// The number of attached interfaces.
    pub fn len(&self) -> (n: usize)
        ensures
            n == self.ids().len(),
    {
        self.ifaces.len()
    }

    /// Attaches an interface at the end of the list and returns its identifier.
    pub fn insert_iface(&mut self) -> (id: u64)
        requires
            old(self).wf(),
            old(self).spec_next_id() < u64::MAX,
            old(self).ids().len() < usize::MAX,
        ensures
            final(self).wf(),
            id == old(self).spec_next_id(),
            final(self).ids() == old(self).ids().push(id),
    {
        let id = self.next_id;
        let ghost before = self.ids();
        self.ifaces.push(id);
        self.next_id = id + 1;
        assert forall|i: int, j: int| 0 <= i < j < self.ids().len() implies self.ids()[i] != self.ids()[j] by {
            if j == before.len() {
                assert(self.ids()[i] == before[i]);
            }
        }
        id
    }

    /// Forgets the interface at `index`, keeping the order of the others (as when flushing
    /// fails).
    pub fn remove_iface(&mut self, index: usize)
        requires
            old(self).wf(),
            index < old(self).ids().len(),
        ensures
            final(self).wf(),
            final(self).ids() == old(self).ids().remove(index as int),
            final(self).spec_next_id() == old(self).spec_next_id(),
    {
        let _ = self.ifaces.remove(index);
    }

    /// Forgets the interface at `index`, moving the last one into its place (as when an
    /// interface fails to become ready or ends).
    pub fn swap_remove_iface(&mut self, index: usize)
        requires
            old(self).wf(),
            index < old(self).ids().len(),
        ensures
            final(self).wf(),
            final(self).ids() == old(self).ids().update(index as int, old(self).ids().last()).drop_last(),
            final(self).spec_next_id() == old(self).spec_next_id(),
    {
        let ghost before = self.ids();
        let _ = self.ifaces.swap_remove(index);
        assert(self.ids() =~= before.update(index as int, before.last()).drop_last());
        assert forall|i: int, j: int| 0 <= i < j < self.ids().len() implies self.ids()[i] != self.ids()[j] by {
            if i == index {
                assert(self.ids()[i] == before[before.len() - 1]);
            } else if j == index {
                assert(self.ids()[j] == before[before.len() - 1]);
            }
        }
    }
}

/// The walk through a hub's list that sends one packet, received on the interface at
/// `recv_index`, to every other interface.
pub struct HubBroadcast {
    recv_index: usize,
    send_index: usize,
    /// The interface the packet came from.
    receiver: Ghost<u64>,
    /// The interfaces the packet has been sent to.
    sent: Ghost<Set<u64>>,
}

impl HubBroadcast {
    /// The identifier of the interface the packet came from.
    pub closed spec fn spec_receiver(&self) -> u64 {
        self.receiver@
    }

    /// The walk's position in the hub's list.
    pub closed spec fn spec_send_index(&self) -> usize {
        self.send_index
    }

    /// The position of the interface the packet came from.
    pub closed spec fn spec_recv_index(&self) -> usize {
        self.recv_index
    }

    /// The identifiers of the interfaces the packet has been sent to.
    pub closed spec fn spec_sent(&self) -> Set<u64> {
        self.sent@
    }

    /// The walk is finished: every interface of the list has been passed.
    pub closed spec fn spec_finished(&self, hub: &IpHubTask) -> bool {
        self.send_index >= hub.ids().len()
    }

    /// The walk's invariant over the hub's list: the receiver is still in the list, at the
    /// walk's receiver position, and the packet has been sent exactly to the interfaces before
    /// the walk's position, other than the receiver.
    pub closed spec fn inv(&self, hub: &IpHubTask) -> bool {
        &&& hub.wf()
        &&& self.recv_index < hub.ids().len()
        &&& hub.ids()[self.recv_index as int] == self.receiver@
        &&& self.send_index <= hub.ids().len()
        &&& forall|id: u64| #[trigger] self.sent@.contains(id) <==> exists|j: int|
            0 <= j < self.send_index && j != self.recv_index && hub.ids()[j] == id
    }

    /// Starts the walk for a packet received on the interface at `recv_index`.
    pub fn start(hub: &IpHubTask, recv_index: usize) -> (walk: HubBroadcast)
        requires
            hub.wf(),
            recv_index < hub.ids().len(),
        ensures
            walk.inv(hub),
            walk.spec_receiver() == hub.ids()[recv_index as int],
            walk.spec_sent() == Set::<u64>::empty(),
    {
        HubBroadcast {
            recv_index,
            send_index: 0,
            receiver: Ghost(hub.ids()[recv_index as int]),
            sent: Ghost(Set::empty()),
        }
    }

    /// The position of the next interface to send to, or `None` when the walk is finished.
    /// The receiver is skipped; the interface at the returned position has not been sent to.
    pub fn next_target(&mut self, hub: &IpHubTask) -> (target: Option<usize>)
        requires
            old(self).inv(hub),
        ensures
            final(self).inv(hub),
            final(self).spec_receiver() == old(self).spec_receiver(),
            final(self).spec_sent() == old(self).spec_sent(),
            target is None <==> final(self).spec_finished(hub),
            target matches Some(t) ==> t < hub.ids().len() && hub.ids()[t as int] != final(self).spec_receiver()
                && !final(self).spec_sent().contains(hub.ids()[t as int]),
    {
        if self.send_index == self.recv_index {
            self.send_index = self.send_index + 1;
            proof {
                assert forall|id: u64| #[trigger] self.sent@.contains(id) <==> exists|j: int|
                    0 <= j < self.send_index && j != self.recv_index && hub.ids()[j] == id by {
                    if exists|j: int| 0 <= j < self.send_index && j != self.recv_index && hub.ids()[j] == id {
                        let j = choose|j: int| 0 <= j < self.send_index && j != self.recv_index && hub.ids()[j] == id;
                        assert(0 <= j < old(self).send_index);
                    }
                }
            }
        }
        if self.send_index < hub.ifaces.len() {
            let t = self.send_index;
            proof {
                if self.sent@.contains(hub.ids()[t as int]) {
                    let j = choose|j: int| 0 <= j < self.send_index && j != self.recv_index && hub.ids()[j] == hub.ids()[t as int];
                    assert(false);
                }
            }
            Some(t)
        } else {
            None
        }
    }

    /// The send to the interface at the walk's position succeeded: the walk moves past it.
    pub fn delivered(&mut self, hub: &IpHubTask)
        requires
            old(self).inv(hub),
            !old(self).spec_finished(hub),
            old(self).spec_send_index() != old(self).spec_recv_index(),
        ensures
            final(self).inv(hub),
            final(self).spec_receiver() == old(self).spec_receiver(),
            final(self).spec_sent() == old(self).spec_sent().insert(hub.ids()[old(self).spec_send_index() as int]),
    {
        let ghost id = hub.ids()[self.send_index as int];
        self.sent = Ghost(self.sent@.insert(id));
        self.send_index = self.send_index + 1;
        proof {
            assert forall|x: u64| #[trigger] self.sent@.contains(x) <==> exists|j: int|
                0 <= j < self.send_index && j != self.recv_index && hub.ids()[j] == x by {
                if x == id {
                    assert(hub.ids()[self.send_index - 1] == x);
                }
                if exists|j: int| 0 <= j < self.send_index && j != self.recv_index && hub.ids()[j] == x {
                    let j = choose|j: int| 0 <= j < self.send_index && j != self.recv_index && hub.ids()[j] == x;
                    if j < old(self).send_index {
                        assert(old(self).sent@.contains(x));
                    }
                }
            }
        }
    }

    /// The send to the interface at the walk's position failed: the hub forgets that
    /// interface, moving the last one into its place, and the walk tries that one next. If the
    /// receiver was the one moved, the walk follows it.
    pub fn failed(&mut self, hub: &mut IpHubTask)
        requires
            old(self).inv(&*old(hub)),
            !old(self).spec_finished(&*old(hub)),
            old(self).spec_send_index() != old(self).spec_recv_index(),
        ensures
            final(self).inv(&*final(hub)),
            final(self).spec_receiver() == old(self).spec_receiver(),
            final(self).spec_sent() == old(self).spec_sent(),
            final(hub).ids() == old(hub).ids().update(old(self).spec_send_index() as int, old(hub).ids().last()).drop_last(),
            final(hub).spec_next_id() == old(hub).spec_next_id(),
    {
        let ghost before = hub.ids();
        let ghost s = self.send_index as int;
        let ghost n = before.len();
        hub.swap_remove_iface(self.send_index);
        if self.recv_index == hub.ifaces.len() {
            self.recv_index = self.send_index;
        }
        proof {
            let after = hub.ids();
            assert(after.len() == n - 1);
            assert forall|j: int| 0 <= j < s implies after[j] == before[j] by {}
            assert(after[self.recv_index as int] == self.receiver@);
            assert forall|id: u64| #[trigger] self.sent@.contains(id) <==> exists|j: int|
                0 <= j < self.send_index && j != self.recv_index && after[j] == id by {
                if self.sent@.contains(id) {
                    let j = choose|j: int| 0 <= j < s && j != old(self).recv_index && before[j] == id;
                    assert(after[j] == id);
                    assert(j != self.recv_index);
                }
                if exists|j: int| 0 <= j < self.send_index && j != self.recv_index && after[j] == id {
                    let j = choose|j: int| 0 <= j < self.send_index && j != self.recv_index && after[j] == id;
                    assert(before[j] == id);
                    assert(j != old(self).recv_index);
                }
            }
        }
    }
}

/// A finished walk has sent the packet to every interface still attached other than the
/// receiver, and to no other interface; the receiver is still attached.
pub proof fn lemma_broadcast_reaches_all_others(walk: HubBroadcast, hub: IpHubTask)
    requires
        walk.inv(&hub),
        walk.spec_finished(&hub),
    ensures
        hub.ids().contains(walk.spec_receiver()),
        forall|id: u64| #[trigger] walk.spec_sent().contains(id) <==> (hub.ids().contains(id) && id != walk.spec_receiver()),
{
    assert(hub.ids()[walk.recv_index as int] == walk.spec_receiver());
    assert forall|id: u64| #[trigger] walk.spec_sent().contains(id) <==> (hub.ids().contains(id) && id != walk.spec_receiver()) by {
        if hub.ids().contains(id) && id != walk.spec_receiver() {
            let j = choose|j: int| 0 <= j < hub.ids().len() && hub.ids()[j] == id;
            assert(j != walk.recv_index);
        }
        if walk.spec_sent().contains(id) {
            let j = choose|j: int| 0 <= j < walk.send_index && j != walk.recv_index && hub.ids()[j] == id;
            assert(hub.ids()[j] == id);
        }
    }
}

} // verus!
