//! All rooms of the server, by room identifier: a room exists exactly while
//! it has peers.

use vstd::prelude::*;
use crate::ids::{is_random_uuid_text, new_uuid};
use crate::keyed::{
    all_values, distinct_keys, find_key, keyed_view, lemma_key_index, lemma_keyed_update, lemma_lookup_keeps, lemma_upsert,
    lemma_upsert_keeps, lemma_without_keeps, lookup, take, upsert, without,
};
use crate::media::{Consumer, Producer, Transport};
use crate::peer::{lines_view, PeerView};
use crate::room::{alter_peer, producer_listing, room_wf, Room, RoomView};

verus! {

/// The rooms seen from the signalling logic: (room identifier, room), in the
/// order the rooms were opened.
pub type RoomsView<T, P, C> = Seq<(Seq<char>, RoomView<T, P, C>)>;

/// Room identifiers are unique, every room is well formed and has a peer.
pub open spec fn rooms_wf<T, P, C>(s: RoomsView<T, P, C>) -> bool {
    &&& distinct_keys(s)
    &&& all_values(s, room_ok())
}

/// A listed room's invariant, as a predicate: well formed, with a peer.
pub open spec fn room_ok<T, P, C>() -> spec_fn(RoomView<T, P, C>) -> bool {
    |r: RoomView<T, P, C>| room_wf(r) && r.len() > 0
}

/// How a stored room is seen.
pub open spec fn room_view<T, P, C>() -> spec_fn(Room<T, P, C>) -> RoomView<T, P, C> {
    |r: Room<T, P, C>| r@
}

/// The room `room_id`, or an empty room when there is none.
pub open spec fn room_or_empty<T, P, C>(s: RoomsView<T, P, C>, room_id: Seq<char>) -> RoomView<T, P, C> {
    match lookup(s, room_id) {
        Some(r) => r,
        None => Seq::empty(),
    }
}

/// The rooms with room `k` changed by `f`; unchanged when `k` is absent.
pub open spec fn alter_room<T, P, C>(s: RoomsView<T, P, C>, k: Seq<char>, f: spec_fn(RoomView<T, P, C>) -> RoomView<T, P, C>) -> RoomsView<T, P, C> {
    match lookup(s, k) {
        Some(r) => upsert(s, k, f(r)),
        None => s,
    }
}

/// The rooms after peer `peer_id` joined room `room_id` (the room is opened
/// if needed; a peer with that identifier is replaced by a fresh one).
pub open spec fn joined<T, P, C>(s: RoomsView<T, P, C>, room_id: Seq<char>, peer_id: Seq<char>) -> RoomsView<T, P, C> {
    upsert(s, room_id, upsert(room_or_empty(s, room_id), peer_id, PeerView::<T, P, C>::fresh()))
}

/// The rooms after peer `peer_id` left room `room_id`: the peer is gone, and
/// so is the room if it has no peer left.
pub open spec fn left<T, P, C>(s: RoomsView<T, P, C>, room_id: Seq<char>, peer_id: Seq<char>) -> RoomsView<T, P, C> {
    match lookup(s, room_id) {
        Some(r) => {
            let rest = without(r, peer_id);
            if rest.len() == 0 {
                without(s, room_id)
            } else {
                upsert(s, room_id, rest)
            }
        },
        None => s,
    }
}

/// The lines a `getProducers` request of `peer_id` in `room_id` lists.
pub open spec fn room_producers<T, P, C>(s: RoomsView<T, P, C>, room_id: Seq<char>, peer_id: Seq<char>) -> Seq<(Seq<char>, Seq<char>, Seq<char>)> {
    match lookup(s, room_id) {
        Some(r) => producer_listing(r, peer_id),
        None => Seq::empty(),
    }
}

/// The peer `peer_id` of room `room_id`, if both exist.
pub open spec fn peer_in<T, P, C>(s: RoomsView<T, P, C>, room_id: Seq<char>, peer_id: Seq<char>) -> Option<PeerView<T, P, C>> {
    match lookup(s, room_id) {
        Some(r) => lookup(r, peer_id),
        None => None,
    }
}

/// The send (`send`) or receive transport of peer `peer_id` in room
/// `room_id`, if the room, the peer and the transport exist.
pub open spec fn transport_of<T, P, C>(s: RoomsView<T, P, C>, room_id: Seq<char>, peer_id: Seq<char>, send: bool) -> Option<Transport<T>> {
    match peer_in(s, room_id, peer_id) {
        Some(p) => if send {
            p.send_transport
        } else {
            p.recv_transport
        },
        None => None,
    }
}

/// Consumer `consumer_id` of peer `peer_id` in room `room_id`, if the room,
/// the peer and the consumer exist.
pub open spec fn consumer_of<T, P, C>(s: RoomsView<T, P, C>, room_id: Seq<char>, peer_id: Seq<char>, consumer_id: Seq<char>) -> Option<Consumer<C>> {
    match peer_in(s, room_id, peer_id) {
        Some(p) => lookup(p.consumers, consumer_id),
        None => None,
    }
}

/// The registry's storage: (room, room) entries.
struct RoomTable<T, P, C> {
    rooms: Vec<(String, Room<T, P, C>)>,
}

impl<T, P, C> View for RoomTable<T, P, C> {
    type V = RoomsView<T, P, C>;

    closed spec fn view(&self) -> RoomsView<T, P, C> {
        keyed_view(self.rooms@, room_view())
    }
}


impl<T, P, C> RoomTable<T, P, C> {
    fn new() -> (table: Self)
        ensures
            table@ == Seq::<(Seq<char>, RoomView<T, P, C>)>::empty(),
            table.wf(),
    {
        let table = RoomTable { rooms: Vec::new() };
        assert(table@ =~= Seq::<(Seq<char>, RoomView<T, P, C>)>::empty());
        table
    }

    spec fn wf(&self) -> bool {
        rooms_wf(self@)
    }

    /// Facts for changing the room at position `i` (key `k`) into `x`.
    proof fn lemma_changed(&self, after: Seq<(String, Room<T, P, C>)>, i: int, k: Seq<char>, x: Room<T, P, C>)
        requires
            self.wf(),
            0 <= i < self.rooms@.len(),
            self.rooms@[i].0@ == k,
            room_wf(x@),
            x@.len() > 0,
            after == self.rooms@.update(i, (self.rooms@[i].0, x)),
        ensures
            rooms_wf(keyed_view(after, room_view())),
            keyed_view(after, room_view()) == upsert(self@, k, x@),
    {
        lemma_keyed_update(self.rooms@, i, x, room_view());
        lemma_upsert_keeps(self@, k, x@, room_ok());
    }

    /// Room `room_id`, if it exists.
    fn get_room(&self, room_id: &str) -> (found: Option<&Room<T, P, C>>)
        requires
            self.wf(),
        ensures
            match found {
                Some(r) => lookup(self@, room_id@) == Some(r@) && r.wf(),
                None => lookup(self@, room_id@) is None,
            },
    {
        match find_key::<Room<T, P, C>, RoomView<T, P, C>>(&self.rooms, &room_id.to_owned(), Ghost(room_view())) {
            Some(i) => {
                proof {
                    lemma_lookup_keeps(self@, room_id@, room_ok());
                }
                Some(&self.rooms[i].1)
            },
            None => None,
        }
    }

    /// Peer `peer_id` joins room `room_id`; the room is opened if it does not
    /// exist.
    fn join(&mut self, room_id: &str, peer_id: &str)
        requires
            old(self).wf(),
        ensures
            final(self).wf(),
            final(self)@ == joined(old(self)@, room_id@, peer_id@),
    {
        let key = room_id.to_owned();
        match find_key::<Room<T, P, C>, RoomView<T, P, C>>(&self.rooms, &key, Ghost(room_view())) {
            Some(i) => {
                let ghost before = *self;
                proof {
                    lemma_lookup_keeps(self@, room_id@, room_ok());
                }
                self.rooms[i].1.add_peer(peer_id.to_owned());
                proof {
                    before.lemma_changed(self.rooms@, i as int, room_id@, self.rooms@[i as int].1);
                }
            },
            None => {
                let mut room = Room::new(key.clone());
                room.add_peer(peer_id.to_owned());
                proof {
                    let e = Seq::<(Seq<char>, PeerView<T, P, C>)>::empty();
                    lemma_upsert(e, peer_id@, PeerView::<T, P, C>::fresh(), peer_id@);
                    lemma_upsert_keeps(self@, room_id@, room@, room_ok());
                }
                let ghost before = self@;
                let ghost r = room@;
                self.rooms.push((key, room));
                assert(self@ =~= before.push((room_id@, r)));
            },
        }
    }

    /// Peer `peer_id` leaves room `room_id`; the room is closed when it has
    /// no peer left.
    fn leave(&mut self, room_id: &str, peer_id: &str)
        requires
            old(self).wf(),
        ensures
            final(self).wf(),
            final(self)@ == left(old(self)@, room_id@, peer_id@),
    {
        let key = room_id.to_owned();
        if let Some(i) = find_key::<Room<T, P, C>, RoomView<T, P, C>>(&self.rooms, &key, Ghost(room_view())) {
            let ghost before = *self;
            proof {
                lemma_lookup_keeps(self@, room_id@, room_ok());
            }
            let _ = self.rooms[i].1.remove_peer(peer_id);
            let ghost changed = self.rooms@[i as int].1@;
            proof {
                lemma_keyed_update(before.rooms@, i as int, self.rooms@[i as int].1, room_view());
                lemma_upsert(before@, room_id@, changed, room_id@);
                lemma_key_index(self@, i as int);
            }
            if self.rooms[i].1.is_empty() {
                let _ = take::<Room<T, P, C>, RoomView<T, P, C>>(&mut self.rooms, &key, Ghost(room_view()));
                proof {
                    lemma_without_keeps(before@, room_id@, room_ok());
                    assert(without(before@.update(i as int, (room_id@, changed)), room_id@) =~= without(before@, room_id@));
                }
            } else {
                proof {
                    before.lemma_changed(self.rooms@, i as int, room_id@, self.rooms@[i as int].1);
                }
            }
        }
    }

    /// Facts for changing, in the room at position `i` (key `k`), peer `p`
    /// by `f`.
    proof fn lemma_peer_changed(
        &self,
        after: Seq<(String, Room<T, P, C>)>,
        i: int,
        k: Seq<char>,
        p: Seq<char>,
        f: spec_fn(PeerView<T, P, C>) -> PeerView<T, P, C>,
    )
        requires
            self.wf(),
            0 <= i < self.rooms@.len(),
            self.rooms@[i].0@ == k,
            after.len() == self.rooms@.len(),
            after[i].0 == self.rooms@[i].0,
            room_wf(after[i].1@),
            after[i].1@ == alter_peer(self.rooms@[i].1@, p, f),
            after == self.rooms@.update(i, (self.rooms@[i].0, after[i].1)),
        ensures
            rooms_wf(keyed_view(after, room_view())),
            keyed_view(after, room_view()) == alter_room(self@, k, |r: RoomView<T, P, C>| alter_peer(r, p, f)),
    {
        lemma_lookup_keeps(self@, k, room_ok());
        lemma_key_index(self@, i);
        assert(after[i].1@.len() == self.rooms@[i].1@.len());
        self.lemma_changed(after, i, k, after[i].1);
    }

    /// Gives peer `peer_id` of room `room_id` `transport` as its send
    /// (`send`) or receive transport; nothing changes when either is absent.
    fn set_transport(&mut self, room_id: &str, peer_id: &str, send: bool, transport: Transport<T>)
        requires
            old(self).wf(),
        ensures
            final(self).wf(),
            final(self)@ == alter_room(old(self)@, room_id@, |r: RoomView<T, P, C>| alter_peer(r, peer_id@, |p: PeerView<T, P, C>| p.with_transport(send, transport))),
    {
        if let Some(i) = find_key::<Room<T, P, C>, RoomView<T, P, C>>(&self.rooms, &room_id.to_owned(), Ghost(room_view())) {
            let ghost before = *self;
            let ghost f = |p: PeerView<T, P, C>| p.with_transport(send, transport);
            proof {
                lemma_lookup_keeps(self@, room_id@, room_ok());
            }
            self.rooms[i].1.set_transport(peer_id, send, transport);
            proof {
                before.lemma_peer_changed(self.rooms@, i as int, room_id@, peer_id@, f);
            }
        }
    }

    /// Stores `producer` with peer `peer_id` of room `room_id`; nothing
    /// changes when either is absent.
    fn add_producer(&mut self, room_id: &str, peer_id: &str, producer: Producer<P>)
        requires
            old(self).wf(),
        ensures
            final(self).wf(),
            final(self)@ == alter_room(old(self)@, room_id@, |r: RoomView<T, P, C>| alter_peer(r, peer_id@, |p: PeerView<T, P, C>| p.with_producer(producer))),
    {
        if let Some(i) = find_key::<Room<T, P, C>, RoomView<T, P, C>>(&self.rooms, &room_id.to_owned(), Ghost(room_view())) {
            let ghost before = *self;
            let ghost f = |p: PeerView<T, P, C>| p.with_producer(producer);
            proof {
                lemma_lookup_keeps(self@, room_id@, room_ok());
            }
            self.rooms[i].1.add_producer(peer_id, producer);
            proof {
                before.lemma_peer_changed(self.rooms@, i as int, room_id@, peer_id@, f);
            }
        }
    }

    /// Stores `consumer` with peer `peer_id` of room `room_id`; nothing
    /// changes when either is absent.
    fn add_consumer(&mut self, room_id: &str, peer_id: &str, consumer: Consumer<C>)
        requires
            old(self).wf(),
        ensures
            final(self).wf(),
            final(self)@ == alter_room(old(self)@, room_id@, |r: RoomView<T, P, C>| alter_peer(r, peer_id@, |p: PeerView<T, P, C>| p.with_consumer(consumer))),
    {
        if let Some(i) = find_key::<Room<T, P, C>, RoomView<T, P, C>>(&self.rooms, &room_id.to_owned(), Ghost(room_view())) {
            let ghost before = *self;
            let ghost f = |p: PeerView<T, P, C>| p.with_consumer(consumer);
            proof {
                lemma_lookup_keeps(self@, room_id@, room_ok());
            }
            self.rooms[i].1.add_consumer(peer_id, consumer);
            proof {
                before.lemma_peer_changed(self.rooms@, i as int, room_id@, peer_id@, f);
            }
        }
    }

    /// Which transport of peer `peer_id` in room `room_id` carries the
    /// identifier `transport_id`: the send one (`Some(true)`) checked first,
    /// then the receive one (`Some(false)`).
    fn find_transport(&self, room_id: &str, peer_id: &str, transport_id: &String) -> (found: Option<bool>)
        requires
            self.wf(),
        ensures
            found == match peer_in(self@, room_id@, peer_id@) {
                Some(p) => p.transport_named(transport_id@),
                None => None,
            },
    {
        match self.get_room(room_id) {
            Some(room) => match room.get_peer(peer_id) {
                Some(peer) => peer.find_transport(transport_id),
                None => None,
            },
            None => None,
        }
    }

    /// The send (`send`) or receive transport of peer `peer_id` in room
    /// `room_id`, if the room, the peer and the transport exist.
    fn transport(&self, room_id: &str, peer_id: &str, send: bool) -> (found: Option<&Transport<T>>)
        requires
            self.wf(),
        ensures
            match found {
                Some(t) => transport_of(self@, room_id@, peer_id@, send) == Some(*t),
                None => transport_of(self@, room_id@, peer_id@, send) is None,
            },
    {
        match self.get_room(room_id) {
            Some(room) => match room.get_peer(peer_id) {
                Some(peer) => if send {
                    peer.send_transport()
                } else {
                    peer.recv_transport()
                },
                None => None,
            },
            None => None,
        }
    }

    /// The consumer `consumer_id` of peer `peer_id` in room `room_id`, if
    /// the room, the peer and the consumer exist.
    fn consumer(&self, room_id: &str, peer_id: &str, consumer_id: &String) -> (found: Option<&Consumer<C>>)
        requires
            self.wf(),
        ensures
            match found {
                Some(c) => consumer_of(self@, room_id@, peer_id@, consumer_id@) == Some(*c),
                None => consumer_of(self@, room_id@, peer_id@, consumer_id@) is None,
            },
    {
        match self.get_room(room_id) {
            Some(room) => match room.get_peer(peer_id) {
                Some(peer) => peer.consumer(consumer_id),
                None => None,
            },
            None => None,
        }
    }

    /// The lines (peer, producer, kind) a `getProducers` request of peer
    /// `peer_id` in room `room_id` lists: every producer of the room's other
    /// peers; none when the room does not exist.
    fn producer_lines(&self, room_id: &str, peer_id: &str) -> (lines: Vec<(String, String, String)>)
        requires
            self.wf(),
        ensures
            lines_view(lines@) == room_producers(self@, room_id@, peer_id@),
    {
        match self.get_room(room_id) {
            Some(room) => room.get_producer_peer_ids(peer_id),
            None => {
                let lines: Vec<(String, String, String)> = Vec::new();
                assert(lines_view(lines@) =~= Seq::<(Seq<char>, Seq<char>, Seq<char>)>::empty());
                lines
            },
        }
    }
    /// A newcomer gets a fresh random identifier and joins room `room_id`
    /// under it; the identifier is handed back.
    fn admit_peer(&mut self, room_id: &str) -> (peer_id: String)
        requires
            old(self).wf(),
        ensures
            final(self).wf(),
            final(self)@ == joined(old(self)@, room_id@, peer_id@),
            is_random_uuid_text(peer_id@),
    {
        let peer_id = new_uuid();
        self.join(room_id, peer_id.as_str());
        peer_id
    }
}

/// All rooms of the server.
pub struct Rooms<T, P, C> {
    table: RoomTable<T, P, C>,
}

impl<T, P, C> View for Rooms<T, P, C> {
    type V = RoomsView<T, P, C>;

    closed spec fn view(&self) -> RoomsView<T, P, C> {
        self.table@
    }
}

/// No rooms yet.
pub fn create_rooms<T, P, C>() -> (rooms: Rooms<T, P, C>)
    ensures
        rooms@ == Seq::<(Seq<char>, RoomView<T, P, C>)>::empty(),
        rooms.wf(),
{
    Rooms { table: RoomTable::new() }
}

impl<T, P, C> Rooms<T, P, C> {
    /// The registry's invariant: unique rooms, each well formed and with a
    /// peer.
    pub open spec fn wf(&self) -> bool {
        rooms_wf(self@)
    }

    /// Every registry keeps its invariant.
    #[verifier::type_invariant]
    spec fn inv(self) -> bool {
        self.table.wf()
    }

    /// Room `room_id`, if it exists.
    pub fn get_room(&self, room_id: &str) -> (found: Option<&Room<T, P, C>>)
        ensures
            match found {
                Some(r) => lookup(self@, room_id@) == Some(r@) && r.wf(),
                None => lookup(self@, room_id@) is None,
            },
    {
        proof {
            use_type_invariant(self);
        }
        self.table.get_room(room_id)
    }

    /// Peer `peer_id` joins room `room_id`; the room is opened if it does not
    /// exist.
    pub fn join(&mut self, room_id: &str, peer_id: &str)
        ensures
            final(self).wf(),
            final(self)@ == joined(old(self)@, room_id@, peer_id@),
    {
        proof {
            use_type_invariant(&*self);
        }
        let mut table = RoomTable::new();
        std::mem::swap(&mut table, &mut self.table);
        table.join(room_id, peer_id);
        self.table = table;
    }

    /// Peer `peer_id` leaves room `room_id`; the room is closed when it has
    /// no peer left.
    pub fn leave(&mut self, room_id: &str, peer_id: &str)
        ensures
            final(self).wf(),
            final(self)@ == left(old(self)@, room_id@, peer_id@),
    {
        proof {
            use_type_invariant(&*self);
        }
        let mut table = RoomTable::new();
        std::mem::swap(&mut table, &mut self.table);
        table.leave(room_id, peer_id);
        self.table = table;
    }

    /// Gives peer `peer_id` of room `room_id` `transport` as its send
    /// (`send`) or receive transport; nothing changes when either is absent.
    pub fn set_transport(&mut self, room_id: &str, peer_id: &str, send: bool, transport: Transport<T>)
        ensures
            final(self).wf(),
            final(self)@ == alter_room(old(self)@, room_id@, |r: RoomView<T, P, C>| alter_peer(r, peer_id@, |p: PeerView<T, P, C>| p.with_transport(send, transport))),
    {
        proof {
            use_type_invariant(&*self);
        }
        let mut table = RoomTable::new();
        std::mem::swap(&mut table, &mut self.table);
        table.set_transport(room_id, peer_id, send, transport);
        self.table = table;
    }

    /// Stores `producer` with peer `peer_id` of room `room_id`; nothing
    /// changes when either is absent.
    pub fn add_producer(&mut self, room_id: &str, peer_id: &str, producer: Producer<P>)
        ensures
            final(self).wf(),
            final(self)@ == alter_room(old(self)@, room_id@, |r: RoomView<T, P, C>| alter_peer(r, peer_id@, |p: PeerView<T, P, C>| p.with_producer(producer))),
    {
        proof {
            use_type_invariant(&*self);
        }
        let mut table = RoomTable::new();
        std::mem::swap(&mut table, &mut self.table);
        table.add_producer(room_id, peer_id, producer);
        self.table = table;
    }

    /// Stores `consumer` with peer `peer_id` of room `room_id`; nothing
    /// changes when either is absent.
    pub fn add_consumer(&mut self, room_id: &str, peer_id: &str, consumer: Consumer<C>)
        ensures
            final(self).wf(),
            final(self)@ == alter_room(old(self)@, room_id@, |r: RoomView<T, P, C>| alter_peer(r, peer_id@, |p: PeerView<T, P, C>| p.with_consumer(consumer))),
    {
        proof {
            use_type_invariant(&*self);
        }
        let mut table = RoomTable::new();
        std::mem::swap(&mut table, &mut self.table);
        table.add_consumer(room_id, peer_id, consumer);
        self.table = table;
    }

    /// Which transport of peer `peer_id` in room `room_id` carries the
    /// identifier `transport_id`: the send one (`Some(true)`) checked first,
    /// then the receive one (`Some(false)`).
    pub fn find_transport(&self, room_id: &str, peer_id: &str, transport_id: &String) -> (found: Option<bool>)
        ensures
            found == match peer_in(self@, room_id@, peer_id@) {
                Some(p) => p.transport_named(transport_id@),
                None => None,
            },
    {
        proof {
            use_type_invariant(self);
        }
        self.table.find_transport(room_id, peer_id, transport_id)
    }

    /// The send (`send`) or receive transport of peer `peer_id` in room
    /// `room_id`, if the room, the peer and the transport exist.
    pub fn transport(&self, room_id: &str, peer_id: &str, send: bool) -> (found: Option<&Transport<T>>)
        ensures
            match found {
                Some(t) => transport_of(self@, room_id@, peer_id@, send) == Some(*t),
                None => transport_of(self@, room_id@, peer_id@, send) is None,
            },
    {
        proof {
            use_type_invariant(self);
        }
        self.table.transport(room_id, peer_id, send)
    }

    /// The consumer `consumer_id` of peer `peer_id` in room `room_id`, if
    /// the room, the peer and the consumer exist.
    pub fn consumer(&self, room_id: &str, peer_id: &str, consumer_id: &String) -> (found: Option<&Consumer<C>>)
        ensures
            match found {
                Some(c) => consumer_of(self@, room_id@, peer_id@, consumer_id@) == Some(*c),
                None => consumer_of(self@, room_id@, peer_id@, consumer_id@) is None,
            },
    {
        proof {
            use_type_invariant(self);
        }
        self.table.consumer(room_id, peer_id, consumer_id)
    }

    /// The lines (peer, producer, kind) a `getProducers` request of peer
    /// `peer_id` in room `room_id` lists: every producer of the room's other
    /// peers; none when the room does not exist.
    pub fn producer_lines(&self, room_id: &str, peer_id: &str) -> (lines: Vec<(String, String, String)>)
        ensures
            lines_view(lines@) == room_producers(self@, room_id@, peer_id@),
    {
        proof {
            use_type_invariant(self);
        }
        self.table.producer_lines(room_id, peer_id)
    }

    /// A newcomer gets a fresh random identifier and joins room `room_id`
    /// under it; the identifier is handed back.
    pub fn admit_peer(&mut self, room_id: &str) -> (peer_id: String)
        ensures
            final(self).wf(),
            final(self)@ == joined(old(self)@, room_id@, peer_id@),
            is_random_uuid_text(peer_id@),
    {
        proof {
            use_type_invariant(&*self);
        }
        let mut table = RoomTable::new();
        std::mem::swap(&mut table, &mut self.table);
        let result = table.admit_peer(room_id);
        self.table = table;
        result
    }
}

} // verus!
