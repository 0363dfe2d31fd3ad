//! A video conference room: its peers in the order they joined.

use vstd::prelude::*;
use crate::keyed::{
    all_values, distinct_keys, find_key, keyed_view, lemma_keyed_update, lemma_lookup_keeps, lemma_upsert_keeps,
    lemma_without_keeps, lookup, store, take, upsert, without,
};
use crate::media::{Consumer, Producer, Transport};
use crate::peer::{lines_view, Peer, PeerView};

verus! {

/// A room seen from the signalling logic: (peer identifier, peer), in the
/// order the peers joined.
pub type RoomView<T, P, C> = Seq<(Seq<char>, PeerView<T, P, C>)>;

/// Peer identifiers are unique and every peer is well formed.
pub open spec fn room_wf<T, P, C>(r: RoomView<T, P, C>) -> bool {
    &&& distinct_keys(r)
    &&& all_values(r, peer_ok())
}

/// A peer's invariant, as a predicate.
pub open spec fn peer_ok<T, P, C>() -> spec_fn(PeerView<T, P, C>) -> bool {
    |p: PeerView<T, P, C>| p.wf()
}

/// How a stored peer is seen.
pub open spec fn peer_view<T, P, C>() -> spec_fn(Peer<T, P, C>) -> PeerView<T, P, C> {
    |p: Peer<T, P, C>| p@
}

/// The room with peer `k` changed by `f`; unchanged when `k` is absent.
pub open spec fn alter_peer<T, P, C>(r: RoomView<T, P, C>, k: Seq<char>, f: spec_fn(PeerView<T, P, C>) -> PeerView<T, P, C>) -> RoomView<T, P, C> {
    match lookup(r, k) {
        Some(p) => upsert(r, k, f(p)),
        None => r,
    }
}

/// One line (peer, producer, kind) for every producer of every peer other
/// than `exclude`, peers in joining order, producers oldest first.
pub open spec fn producer_listing<T, P, C>(r: RoomView<T, P, C>, exclude: Seq<char>) -> Seq<(Seq<char>, Seq<char>, Seq<char>)>
    decreases r.len(),
{
    if r.len() == 0 {
        Seq::empty()
    } else {
        let rest = producer_listing(r.drop_last(), exclude);
        let last = r.last();
        if last.0 != exclude {
            rest + last.1.listing(last.0)
        } else {
            rest
        }
    }
}

/// A video conference room.
pub struct Room<T, P, C> {
    peers: Vec<(String, Peer<T, P, C>)>,
}

impl<T, P, C> View for Room<T, P, C> {
    type V = RoomView<T, P, C>;

    closed spec fn view(&self) -> RoomView<T, P, C> {
        keyed_view(self.peers@, peer_view())
    }
}

impl<T, P, C> Room<T, P, C> {
    /// The room's invariant.
    pub open spec fn wf(&self) -> bool {
        room_wf(self@)
    }

    /// An empty room.
    pub fn new(_id: String) -> (room: Self)
        ensures
            room@ == Seq::<(Seq<char>, PeerView<T, P, C>)>::empty(),
            room.wf(),
    {
        let room = Room { peers: Vec::new() };
        assert(room@ =~= Seq::<(Seq<char>, PeerView<T, P, C>)>::empty());
        room
    }

    /// Whether no peer is in the room.
    pub fn is_empty(&self) -> (empty: bool)
        ensures
            empty == (self@.len() == 0),
    {
        self.peers.len() == 0
    }

    /// Puts a fresh peer `peer_id` into the room, replacing one with that
    /// identifier.
    pub fn add_peer(&mut self, peer_id: String)
        requires
            old(self).wf(),
        ensures
            final(self).wf(),
            final(self)@ == upsert(old(self)@, peer_id@, PeerView::<T, P, C>::fresh()),
    {
        proof {
            lemma_upsert_keeps(self@, peer_id@, PeerView::<T, P, C>::fresh(), peer_ok());
        }
        let peer = Peer::new(peer_id.clone());
        store::<Peer<T, P, C>, PeerView<T, P, C>>(&mut self.peers, peer_id, peer, Ghost(peer_view()));
    }

    /// Takes peer `peer_id` out of the room and hands it back.
    pub fn remove_peer(&mut self, peer_id: &str) -> (removed: Option<Peer<T, P, C>>)
        requires
            old(self).wf(),
        ensures
            final(self).wf(),
            final(self)@ == without(old(self)@, peer_id@),
            match removed {
                Some(p) => lookup(old(self)@, peer_id@) == Some(p@),
                None => lookup(old(self)@, peer_id@) is None,
            },
    {
        proof {
            lemma_without_keeps(self@, peer_id@, peer_ok());
        }
        take::<Peer<T, P, C>, PeerView<T, P, C>>(&mut self.peers, &peer_id.to_owned(), Ghost(peer_view()))
    }

    /// Peer `peer_id`, if it is in the room.
    pub fn get_peer(&self, peer_id: &str) -> (found: Option<&Peer<T, P, C>>)
        requires
            self.wf(),
        ensures
            match found {
                Some(p) => lookup(self@, peer_id@) == Some(p@) && p@.wf(),
                None => lookup(self@, peer_id@) is None,
            },
    {
        match find_key::<Peer<T, P, C>, PeerView<T, P, C>>(&self.peers, &peer_id.to_owned(), Ghost(peer_view())) {
            Some(i) => {
                proof {
                    lemma_lookup_keeps(self@, peer_id@, peer_ok());
                }
                Some(&self.peers[i].1)
            },
            None => None,
        }
    }

    /// Peer `peer_id` for changing in place, if it is in the room.
    pub fn get_peer_mut(&mut self, peer_id: &str) -> (found: Option<&mut Peer<T, P, C>>)
        requires
            old(self).wf(),
        ensures
            found matches Some(p) ==> lookup(old(self)@, peer_id@) == Some(p@),
            found matches Some(p) ==> p@.wf(),
            found matches Some(p) ==> final(self)@ == upsert(old(self)@, peer_id@, final(p)@) && (final(p)@.wf()
                ==> final(self).wf()),
            found is None ==> lookup(old(self)@, peer_id@) is None && final(self)@ == old(self)@,
    {
        let ghost before = self.peers@;
        match find_key::<Peer<T, P, C>, PeerView<T, P, C>>(&self.peers, &peer_id.to_owned(), Ghost(peer_view())) {
            Some(i) => {
                proof {
                    lemma_lookup_keeps(self@, peer_id@, peer_ok());
                    assert forall|x: Peer<T, P, C>| x@.wf() implies #[trigger] room_wf(
                        keyed_view(before.update(i as int, (before[i as int].0, x)), peer_view()),
                    ) by {
                        lemma_keyed_update(before, i as int, x, peer_view());
                        lemma_upsert_keeps(self@, peer_id@, x@, peer_ok());
                    }
                    assert forall|x: Peer<T, P, C>| #[trigger] keyed_view(before.update(i as int, (before[i as int].0, x)), peer_view())
                        == upsert(keyed_view(before, peer_view()), peer_id@, x@) by {
                        lemma_keyed_update(before, i as int, x, peer_view());
                    }
                }
                Some(&mut self.peers[i].1)
            },
            None => None,
        }
    }

    /// One line (peer, producer, kind) per producer of every peer other than
    /// `exclude_peer`.
    pub fn get_producer_peer_ids(&self, exclude_peer: &str) -> (lines: Vec<(String, String, String)>)
        ensures
            lines_view(lines@) == producer_listing(self@, exclude_peer@),
    {
        let exclude = exclude_peer.to_owned();
        let mut result: Vec<(String, String, String)> = Vec::new();
        let mut i: usize = 0;
        assert(lines_view(result@) =~= producer_listing(self@.take(0), exclude@));
        while i < self.peers.len()
            invariant
                i <= self.peers@.len(),
                exclude@ == exclude_peer@,
                lines_view(result@) == producer_listing(self@.take(i as int), exclude@),
            decreases self.peers@.len() - i,
        {
            let entry = &self.peers[i];
            proof {
                assert(self@.take(i + 1).drop_last() =~= self@.take(i as int));
                assert(self@.take(i + 1).last() == (entry.0@, entry.1@));
            }
            if entry.0 != exclude {
                entry.1.list_producers(&entry.0, &mut result);
            }
            i = i + 1;
        }
        assert(self@.take(i as int) =~= self@);
        result
    }

    /// Facts for changing the peer at position `i` (key `k`) into one seen
    /// as `p`.
    proof fn lemma_changed(&self, after: Seq<(String, Peer<T, P, C>)>, i: int, k: Seq<char>, x: Peer<T, P, C>)
        requires
            self.wf(),
            0 <= i < self.peers@.len(),
            self.peers@[i].0@ == k,
            x@.wf(),
            after == self.peers@.update(i, (self.peers@[i].0, x)),
        ensures
            room_wf(keyed_view(after, peer_view())),
            keyed_view(after, peer_view()) == upsert(self@, k, x@),
    {
        lemma_keyed_update(self.peers@, i, x, peer_view());
        lemma_upsert_keeps(self@, k, x@, peer_ok());
    }

    /// Gives peer `peer_id` `transport` as its send (`send`) or receive
    /// transport; nothing changes when the peer is not in the room.
    pub fn set_transport(&mut self, peer_id: &str, send: bool, transport: Transport<T>)
        requires
            old(self).wf(),
        ensures
            final(self).wf(),
            final(self)@ == alter_peer(old(self)@, peer_id@, |p: PeerView<T, P, C>| p.with_transport(send, transport)),
    {
        if let Some(i) = find_key::<Peer<T, P, C>, PeerView<T, P, C>>(&self.peers, &peer_id.to_owned(), Ghost(peer_view())) {
            let ghost before = *self;
            self.peers[i].1.set_transport(send, transport);
            proof {
                before.lemma_changed(self.peers@, i as int, peer_id@, self.peers@[i as int].1);
            }
        }
    }

    /// Stores `producer` with peer `peer_id`; nothing changes when the peer
    /// is not in the room.
    pub fn add_producer(&mut self, peer_id: &str, producer: Producer<P>)
        requires
            old(self).wf(),
        ensures
            final(self).wf(),
            final(self)@ == alter_peer(old(self)@, peer_id@, |p: PeerView<T, P, C>| p.with_producer(producer)),
    {
        if let Some(i) = find_key::<Peer<T, P, C>, PeerView<T, P, C>>(&self.peers, &peer_id.to_owned(), Ghost(peer_view())) {
            let ghost before = *self;
            proof {
                lemma_lookup_keeps(self@, peer_id@, peer_ok());
            }
            self.peers[i].1.add_producer(producer);
            proof {
                before.lemma_changed(self.peers@, i as int, peer_id@, self.peers@[i as int].1);
            }
        }
    }

    /// Stores `consumer` with peer `peer_id`; nothing changes when the peer
    /// is not in the room.
    pub fn add_consumer(&mut self, peer_id: &str, consumer: Consumer<C>)
        requires
            old(self).wf(),
        ensures
            final(self).wf(),
            final(self)@ == alter_peer(old(self)@, peer_id@, |p: PeerView<T, P, C>| p.with_consumer(consumer)),
    {
        if let Some(i) = find_key::<Peer<T, P, C>, PeerView<T, P, C>>(&self.peers, &peer_id.to_owned(), Ghost(peer_view())) {
            let ghost before = *self;
            proof {
                lemma_lookup_keeps(self@, peer_id@, peer_ok());
            }
            self.peers[i].1.add_consumer(consumer);
            proof {
                before.lemma_changed(self.peers@, i as int, peer_id@, self.peers@[i as int].1);
            }
        }
    }
}

} // verus!
