//! Who can be told what: for every room, the message channel of each peer
//! that is connected to it. A room is listed exactly while it has a channel.

use vstd::prelude::*;
use crate::keyed::{
    all_values, distinct_keys, find_key, keyed_view, lemma_key_index, lemma_keyed_update, lemma_lookup_keeps, lemma_upsert,
    lemma_upsert_keeps, lemma_without, lemma_without_keeps, lookup, same, store, take, upsert, without,
};

verus! {

/// The channels of one room: (peer identifier, channel), oldest first.
pub type RoomChannels<S> = Seq<(Seq<char>, S)>;

/// The registry seen as (room identifier, channels of the room).
pub type ChannelsView<S> = Seq<(Seq<char>, RoomChannels<S>)>;

/// Room identifiers are unique, and within a room peer identifiers are
/// unique and there is at least one channel.
pub open spec fn channels_wf<S>(s: ChannelsView<S>) -> bool {
    &&& distinct_keys(s)
    &&& all_values(s, list_ok())
}

/// A listed room's channels, as a predicate: unique peers, at least one.
pub open spec fn list_ok<S>() -> spec_fn(RoomChannels<S>) -> bool {
    |c: RoomChannels<S>| distinct_keys(c) && c.len() > 0
}

/// How a stored channel list is seen.
pub open spec fn list_view<S>() -> spec_fn(Vec<(String, S)>) -> RoomChannels<S> {
    |v: Vec<(String, S)>| keyed_view(v@, same())
}

/// The channels of room `room_id`, none when it is not listed.
pub open spec fn channels_of<S>(s: ChannelsView<S>, room_id: Seq<char>) -> RoomChannels<S> {
    match lookup(s, room_id) {
        Some(c) => c,
        None => Seq::empty(),
    }
}

/// The registry after `tx` was registered for peer `peer_id` in room
/// `room_id` (replacing a channel registered for the same peer).
pub open spec fn registered<S>(s: ChannelsView<S>, room_id: Seq<char>, peer_id: Seq<char>, tx: S) -> ChannelsView<S> {
    upsert(s, room_id, upsert(channels_of(s, room_id), peer_id, tx))
}

/// The registry after the channel of peer `peer_id` in room `room_id` was
/// dropped: the room goes when it has no channel left.
pub open spec fn unregistered<S>(s: ChannelsView<S>, room_id: Seq<char>, peer_id: Seq<char>) -> ChannelsView<S> {
    match lookup(s, room_id) {
        Some(c) => {
            let rest = without(c, peer_id);
            if rest.len() == 0 {
                without(s, room_id)
            } else {
                upsert(s, room_id, rest)
            }
        },
        None => s,
    }
}

/// The channels of `c` whose peer is not `exclude`, in order.
pub open spec fn others<S>(c: RoomChannels<S>, exclude: Seq<char>) -> Seq<S>
    decreases c.len(),
{
    if c.len() == 0 {
        Seq::empty()
    } else {
        let rest = others(c.drop_last(), exclude);
        if c.last().0 != exclude {
            rest.push(c.last().1)
        } else {
            rest
        }
    }
}

/// The registry's storage: (room, channels of the room) entries.
struct ChannelTable<S> {
    rooms: Vec<(String, Vec<(String, S)>)>,
}

impl<S> View for ChannelTable<S> {
    type V = ChannelsView<S>;

    closed spec fn view(&self) -> ChannelsView<S> {
        keyed_view(self.rooms@, list_view())
    }
}

impl<S> ChannelTable<S> {
    spec fn wf(&self) -> bool {
        channels_wf(self@)
    }

    fn new() -> (table: Self)
        ensures
            table@ == Seq::<(Seq<char>, RoomChannels<S>)>::empty(),
            table.wf(),
    {
        let table = ChannelTable { rooms: Vec::new() };
        assert(table@ =~= Seq::<(Seq<char>, RoomChannels<S>)>::empty());
        table
    }

    /// Facts for changing the list at position `i` (key `k`) into `x`.
    proof fn lemma_changed(&self, after: Seq<(String, Vec<(String, S)>)>, i: int, k: Seq<char>, x: Vec<(String, S)>)
        requires
            self.wf(),
            0 <= i < self.rooms@.len(),
            self.rooms@[i].0@ == k,
            list_ok()(keyed_view(x@, same())),
            after == self.rooms@.update(i, (self.rooms@[i].0, x)),
        ensures
            channels_wf(keyed_view(after, list_view())),
            keyed_view(after, list_view()) == upsert(self@, k, keyed_view(x@, same())),
    {
        lemma_keyed_update(self.rooms@, i, x, list_view());
        lemma_upsert_keeps(self@, k, keyed_view(x@, same()), list_ok());
    }

    fn register(&mut self, room_id: &str, peer_id: &str, tx: S)
        requires
            old(self).wf(),
        ensures
            final(self).wf(),
            final(self)@ == registered(old(self)@, room_id@, peer_id@, tx),
    {
        let room_key = room_id.to_owned();
        let peer_key = peer_id.to_owned();
        match find_key::<Vec<(String, S)>, RoomChannels<S>>(&self.rooms, &room_key, Ghost(list_view())) {
            Some(i) => {
                let ghost before = *self;
                proof {
                    lemma_lookup_keeps(self@, room_id@, list_ok());
                    lemma_upsert(channels_of(self@, room_id@), peer_id@, tx, peer_id@);
                }
                store::<S, S>(&mut self.rooms[i].1, peer_key, tx, Ghost(same()));
                proof {
                    before.lemma_changed(self.rooms@, i as int, room_id@, self.rooms@[i as int].1);
                }
            },
            None => {
                let ghost before = self@;
                let ghost item = tx;
                let mut list: Vec<(String, S)> = Vec::new();
                list.push((peer_key, tx));
                proof {
                    let e = Seq::<(Seq<char>, S)>::empty();
                    lemma_upsert(e, peer_id@, item, peer_id@);
                    assert(keyed_view(list@, same()) =~= upsert(e, peer_id@, item));
                    lemma_upsert_keeps(before, room_id@, keyed_view(list@, same()), list_ok());
                }
                self.rooms.push((room_key, list));
                assert(self@ =~= before.push((room_id@, keyed_view(list@, same()))));
            },
        }
    }

    fn unregister(&mut self, room_id: &str, peer_id: &str)
        requires
            old(self).wf(),
        ensures
            final(self).wf(),
            final(self)@ == unregistered(old(self)@, room_id@, peer_id@),
    {
        let room_key = room_id.to_owned();
        let peer_key = peer_id.to_owned();
        if let Some(i) = find_key::<Vec<(String, S)>, RoomChannels<S>>(&self.rooms, &room_key, Ghost(list_view())) {
            let ghost before = *self;
            proof {
                lemma_lookup_keeps(self@, room_id@, list_ok());
                lemma_without_keeps(self@, room_id@, list_ok());
                lemma_without(channels_of(self@, room_id@), peer_id@, peer_id@);
            }
            let _ = take::<S, S>(&mut self.rooms[i].1, &peer_key, Ghost(same()));
            let ghost changed = keyed_view(self.rooms@[i as int].1@, same());
            proof {
                lemma_keyed_update(before.rooms@, i as int, self.rooms@[i as int].1, list_view());
                lemma_upsert(before@, room_id@, changed, room_id@);
                lemma_key_index(self@, i as int);
            }
            if self.rooms[i].1.len() == 0 {
                let _ = take::<Vec<(String, S)>, RoomChannels<S>>(&mut self.rooms, &room_key, Ghost(list_view()));
                proof {
                    assert(without(before@.update(i as int, (room_id@, changed)), room_id@) =~= without(before@, room_id@));
                }
            } else {
                proof {
                    before.lemma_changed(self.rooms@, i as int, room_id@, self.rooms@[i as int].1);
                }
            }
        }
    }

    fn targets<'a>(&'a self, room_id: &str, exclude_peer: &str) -> (targets: Vec<&'a S>)
        requires
            self.wf(),
        ensures
            targets@.len() == others(channels_of(self@, room_id@), exclude_peer@).len(),
            forall|i: int| 0 <= i < targets@.len() ==> *targets@[i] == others(channels_of(self@, room_id@), exclude_peer@)[i],
    {
        let exclude = exclude_peer.to_owned();
        let mut targets: Vec<&S> = Vec::new();
        if let Some(i) = find_key::<Vec<(String, S)>, RoomChannels<S>>(&self.rooms, &room_id.to_owned(), Ghost(list_view())) {
            let list = &self.rooms[i].1;
            let ghost c = keyed_view(list@, same());
            let mut j: usize = 0;
            while j < list.len()
                invariant
                    c == keyed_view(list@, same()),
                    j <= list@.len(),
                    targets@.len() == others(c.take(j as int), exclude@).len(),
                    forall|m: int| 0 <= m < targets@.len() ==> *targets@[m] == others(c.take(j as int), exclude@)[m],
                decreases list@.len() - j,
            {
                proof {
                    assert(c.take(j + 1).drop_last() =~= c.take(j as int));
                    assert(c.take(j + 1).last() == c[j as int]);
                }
                if list[j].0 != exclude {
                    targets.push(&list[j].1);
                }
                j = j + 1;
            }
            assert(c.take(j as int) =~= c);
        }
        targets
    }
}

/// The message channel of every connected peer, by room.
pub struct PeerChannels<S> {
    table: ChannelTable<S>,
}

impl<S> View for PeerChannels<S> {
    type V = ChannelsView<S>;

    closed spec fn view(&self) -> ChannelsView<S> {
        self.table@
    }
}

impl<S> PeerChannels<S> {
    /// The registry's invariant: unique rooms, unique peers within a room,
    /// and no room without a channel.
    pub open spec fn wf(&self) -> bool {
        channels_wf(self@)
    }

    /// Every registry keeps its invariant.
    #[verifier::type_invariant]
    spec fn inv(self) -> bool {
        self.table.wf()
    }

    /// An empty registry.
    pub fn new() -> (channels: Self)
        ensures
            channels@ == Seq::<(Seq<char>, RoomChannels<S>)>::empty(),
            channels.wf(),
    {
        PeerChannels { table: ChannelTable::new() }
    }
}

/// Registers `tx` as the channel of peer `peer_id` in room `room_id`.
pub fn register_peer_channel<S>(channels: &mut PeerChannels<S>, room_id: &str, peer_id: &str, tx: S)
    ensures
        final(channels).wf(),
        final(channels)@ == registered(old(channels)@, room_id@, peer_id@, tx),
{
    proof {
        use_type_invariant(&*channels);
    }
    let mut table = ChannelTable::new();
    std::mem::swap(&mut table, &mut channels.table);
    table.register(room_id, peer_id, tx);
    channels.table = table;
}

/// Drops the channel of peer `peer_id` in room `room_id`; the room is
/// dropped from the registry when no channel is left in it.
pub fn unregister_peer_channel<S>(channels: &mut PeerChannels<S>, room_id: &str, peer_id: &str)
    ensures
        final(channels).wf(),
        final(channels)@ == unregistered(old(channels)@, room_id@, peer_id@),
{
    proof {
        use_type_invariant(&*channels);
    }
    let mut table = ChannelTable::new();
    std::mem::swap(&mut table, &mut channels.table);
    table.unregister(room_id, peer_id);
    channels.table = table;
}

/// The channels to which a message for room `room_id` goes: those of every
/// peer of the room but `exclude_peer`, in registration order.
pub fn broadcast_to_room_exclude<'a, S>(channels: &'a PeerChannels<S>, room_id: &str, exclude_peer: &str) -> (targets: Vec<&'a S>)
    ensures
        targets@.len() == others(channels_of(channels@, room_id@), exclude_peer@).len(),
        forall|i: int| 0 <= i < targets@.len() ==> *targets@[i] == others(channels_of(channels@, room_id@), exclude_peer@)[i],
{
    proof {
        use_type_invariant(channels);
    }
    channels.table.targets(room_id, exclude_peer)
}

} // verus!
