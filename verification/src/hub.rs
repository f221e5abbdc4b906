//! An Ethernet hub: every frame that a client sends is queued for every client, the sender
//! included, and a client that goes away is dropped.

use vstd::prelude::*;
use crate::bytes::copy_range;

verus! {

/// The frames of a queue, as bytes.
pub open spec fn frames_view(q: Vec<Vec<u8>>) -> Seq<Seq<u8>> {
    q@.map_values(|f: Vec<u8>| f@)
}

/// The frames queued for each client of a hub, oldest first.
#[derive(Debug)]
pub struct Hub {
    outgoing: Vec<Vec<Vec<u8>>>,
}

impl Hub {
    /// The frames queued for each client, as bytes, oldest first.
    pub closed spec fn queues(&self) -> Seq<Seq<Seq<u8>>> {
        self.outgoing@.map_values(|q: Vec<Vec<u8>>| frames_view(q))
    }

    /// A hub with no clients.
    pub fn new() -> (hub: Hub)
        ensures
            hub.queues() == Seq::<Seq<Seq<u8>>>::empty(),
    {
        let hub = Hub { outgoing: Vec::new() };
        assert(hub.queues() =~= Seq::<Seq<Seq<u8>>>::empty());
        hub
    }

    /// The number of clients.
    pub fn num_clients(&self) -> (n: usize)
        ensures
            n == self.queues().len(),
    {
        self.outgoing.len()
    }

    /// Adds a client with nothing queued for it; it gets the next index.
    pub fn add_client(&mut self) -> (index: usize)
        ensures
            index == old(self).queues().len(),
            final(self).queues() == old(self).queues().push(Seq::<Seq<u8>>::empty()),
    {
        let ghost before = self.queues();
        let index = self.outgoing.len();
        self.outgoing.push(Vec::new());
        assert(self.queues()[index as int] =~= Seq::<Seq<u8>>::empty());
        assert(self.queues() =~= before.push(Seq::<Seq<u8>>::empty()));
        index
    }

    /// A frame arrived from a client: it is queued for every client, the sender included.
    pub fn receive(&mut self, frame: &[u8])
        ensures
            final(self).queues() == old(self).queues().map_values(
                |q: Seq<Seq<u8>>| q.push(frame@),
            ),
    {
        let ghost before = self.queues();
        let mut rest: Vec<Vec<Vec<u8>>> = Vec::new();
        std::mem::swap(&mut rest, &mut self.outgoing);
        let n = rest.len();
        let mut done: Vec<Vec<Vec<u8>>> = Vec::new();
        let mut k: usize = 0;
        assert(rest@.map_values(|q: Vec<Vec<u8>>| frames_view(q)) =~= before);
        while rest.len() > 0
            invariant
                k + rest@.len() == n,
                n == before.len(),
                rest@.map_values(|q: Vec<Vec<u8>>| frames_view(q)) =~= before.skip(k as int),
                done@.map_values(|q: Vec<Vec<u8>>| frames_view(q)) =~= before.take(k as int).map_values(
                    |q: Seq<Seq<u8>>| q.push(frame@),
                ),
            decreases rest@.len(),
        {
            let ghost rest_before = rest@;
            let ghost done_before = done@;
            let mut queue = rest.remove(0);
            assert(frames_view(queue) == before[k as int]) by {
                assert(rest_before.map_values(|q: Vec<Vec<u8>>| frames_view(q))[0] == before.skip(k as int)[0]);
            }
            let ghost q_before = queue;
            queue.push(copy_range(frame, 0, frame.len()));
            assert(frame@.subrange(0, frame@.len() as int) =~= frame@);
            assert(frames_view(queue) =~= frames_view(q_before).push(frame@));
            done.push(queue);
            proof {
                let f = |q: Vec<Vec<u8>>| frames_view(q);
                let g = |q: Seq<Seq<u8>>| q.push(frame@);
                assert(done@ =~= done_before.push(queue));
                assert(done@.map_values(f) =~= done_before.map_values(f).push(frames_view(queue)));
                assert(before.take(k + 1) =~= before.take(k as int).push(before[k as int]));
                assert(before.take(k + 1).map_values(g) =~= before.take(k as int).map_values(g).push(
                    before[k as int].push(frame@),
                ));
                assert(rest@ =~= rest_before.skip(1));
                assert(rest@.map_values(f) =~= rest_before.map_values(f).skip(1));
                assert(before.skip(k + 1) =~= before.skip(k as int).skip(1));
            }
            k = k + 1;
        }
        assert(before.take(n as int) =~= before);
        self.outgoing = done;
    }

    /// Takes the frames queued for client `index`, oldest first.
    pub fn take_outgoing(&mut self, index: usize) -> (frames: Vec<Vec<u8>>)
        requires
            index < old(self).queues().len(),
        ensures
            frames@.map_values(|f: Vec<u8>| f@) == old(self).queues()[index as int],
            final(self).queues() == old(self).queues().update(index as int, Seq::<Seq<u8>>::empty()),
    {
        let ghost before = self.queues();
        let frames = self.outgoing.remove(index);
        self.outgoing.insert(index, Vec::new());
        assert(self.queues()[index as int] =~= Seq::<Seq<u8>>::empty());
        assert(self.queues() =~= before.update(index as int, Seq::<Seq<u8>>::empty()));
        frames
    }

    /// A client went away: the last client takes its index, and its queue is dropped.
    pub fn remove_client(&mut self, index: usize)
        requires
            index < old(self).queues().len(),
        ensures
            final(self).queues() == old(self).queues().update(index as int, old(self).queues().last()).drop_last(),
    {
        let ghost before = self.queues();
        let _ = self.outgoing.swap_remove(index);
        assert(self.queues() =~= before.update(index as int, before.last()).drop_last());
    }
}

} // verus!
