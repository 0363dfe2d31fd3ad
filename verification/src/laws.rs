//! Properties of the room, channel and signalling logic that span several
//! operations.

use vstd::prelude::*;
use crate::channels::{channels_of, channels_wf, others, registered, unregistered, ChannelsView, RoomChannels};
use crate::keyed::{distinct_keys, has_key, key_index, lemma_key_index, lemma_upsert, lemma_without, lookup, upsert, without};
use crate::media::{Consumer, MediaKind, Producer, Transport};
use crate::messages::{DataView, NotificationDataView};
use crate::peer::PeerView;
use crate::room::{producer_listing, room_wf, RoomView};
use crate::rooms::{joined, left, peer_in, room_or_empty, room_producers, rooms_wf, RoomsView};
use crate::messages::{SignalingMessage, ResponseView};
use crate::ids::uuid_parse;
use crate::signaling::{
    advance_spec, alter, consume_spec, method_of, resume_spec, stage_accepts, start_spec, EffectView, Method, Outcome, StageView,
    StepView,
};
use crate::rooms::{consumer_of, transport_of};
use crate::peer::transport_id;

verus! {

proof fn lemma_lookup_some<V>(s: Seq<(Seq<char>, V)>, k: Seq<char>)
    requires
        lookup(s, k) is Some,
    ensures
        0 <= key_index(s, k) < s.len(),
        s[key_index(s, k)].0 == k,
        s[key_index(s, k)].1 == lookup(s, k)->Some_0,
{
}

proof fn lemma_room_of<T, P, C>(s: RoomsView<T, P, C>, k: Seq<char>)
    requires
        rooms_wf(s),
    ensures
        room_wf(room_or_empty(s, k)),
        lookup(s, k) matches Some(r) ==> r.len() > 0,
{
    if lookup(s, k) is Some {
        lemma_lookup_some(s, k);
        let i = key_index(s, k);
        assert(room_wf(s[i].1));
    }
}

/// After peer `peer` joined room `room`, it is there as a fresh peer, and
/// every other (room, peer) pair is as it was.
pub proof fn law_join_adds_fresh_peer<T, P, C>(s: RoomsView<T, P, C>, room: Seq<char>, peer: Seq<char>, room2: Seq<char>, peer2: Seq<char>)
    requires
        rooms_wf(s),
    ensures
        peer_in(joined(s, room, peer), room, peer) == Some(PeerView::<T, P, C>::fresh()),
        room2 != room || peer2 != peer ==> peer_in(joined(s, room, peer), room2, peer2) == peer_in(s, room2, peer2),
{
    lemma_room_of(s, room);
    let r = room_or_empty(s, room);
    let r2 = upsert(r, peer, PeerView::<T, P, C>::fresh());
    lemma_upsert(r, peer, PeerView::<T, P, C>::fresh(), peer2);
    lemma_upsert(s, room, r2, room2);
    if room2 == room {
        if lookup(s, room) is None {
            assert(lookup(r, peer2) is None);
        }
    }
}

/// After peer `peer` left room `room`, it is no longer there; every other
/// (room, peer) pair is as it was; and the room is still listed exactly when
/// it has a peer left.
pub proof fn law_leave_removes_peer<T, P, C>(s: RoomsView<T, P, C>, room: Seq<char>, peer: Seq<char>, room2: Seq<char>, peer2: Seq<char>)
    requires
        rooms_wf(s),
    ensures
        peer_in(left(s, room, peer), room, peer) is None,
        room2 != room || peer2 != peer ==> peer_in(left(s, room, peer), room2, peer2) == peer_in(s, room2, peer2),
        lookup(left(s, room, peer), room) is Some <==> (lookup(s, room) matches Some(r) && without(r, peer).len() > 0),
{
    lemma_room_of(s, room);
    match lookup(s, room) {
        Some(r) => {
            let rest = without(r, peer);
            lemma_without(r, peer, peer2);
            if rest.len() == 0 {
                lemma_without(s, room, room2);
                lemma_without(s, room, room);
                if room2 == room && peer2 != peer {
                    assert(lookup(rest, peer2) is None);
                }
            } else {
                lemma_upsert(s, room, rest, room2);
                lemma_upsert(s, room, rest, room);
            }
        },
        None => {},
    }
}

/// Line `line` describes a producer of a peer of `r` other than `exclude`.
pub open spec fn lists<T, P, C>(r: RoomView<T, P, C>, exclude: Seq<char>, line: (Seq<char>, Seq<char>, Seq<char>)) -> bool {
    exists|i: int, j: int|
        0 <= i < r.len() && r[i].0 != exclude && 0 <= j < r[i].1.producers.len() && line == (
            r[i].0,
            #[trigger] r[i].1.producers[j].0,
            r[i].1.producers[j].1.kind.label(),
        )
}

/// The producer listing of a room for `exclude` holds exactly the producers
/// of the room's other peers.
pub proof fn law_listing_holds_others_producers<T, P, C>(r: RoomView<T, P, C>, exclude: Seq<char>, line: (Seq<char>, Seq<char>, Seq<char>))
    ensures
        producer_listing(r, exclude).contains(line) <==> lists(r, exclude, line),
    decreases r.len(),
{
    if r.len() == 0 {
        assert(!producer_listing(r, exclude).contains(line));
    } else {
        let init = r.drop_last();
        let last = r.last();
        let n = r.len() - 1;
        law_listing_holds_others_producers(init, exclude, line);
        let rest = producer_listing(init, exclude);
        if lists(init, exclude, line) {
            let (i, j) = choose|i: int, j: int|
                0 <= i < init.len() && init[i].0 != exclude && 0 <= j < init[i].1.producers.len() && line == (
                    init[i].0,
                    #[trigger] init[i].1.producers[j].0,
                    init[i].1.producers[j].1.kind.label(),
                );
            assert(r[i] == init[i]);
            assert(r[i].1.producers[j].0 == init[i].1.producers[j].0);
            let k = rest.index_of(line);
            if last.0 != exclude {
                assert((rest + last.1.listing(last.0))[k] == line);
            }
        }
        if last.0 != exclude {
            let own = last.1.listing(last.0);
            if own.contains(line) {
                let j = choose|j: int| 0 <= j < own.len() && own[j] == line;
                assert(r[n].1.producers[j].0 == line.1);
                assert((rest + own)[rest.len() + j] == line);
            }
            if (rest + own).contains(line) {
                let k = choose|k: int| 0 <= k < (rest + own).len() && (rest + own)[k] == line;
                if k < rest.len() {
                    assert(rest[k] == line);
                } else {
                    assert(own[k - rest.len()] == line);
                    assert(r[n].1.producers[k - rest.len()].0 == line.1);
                }
            }
        }
        if lists(r, exclude, line) {
            let (i, j) = choose|i: int, j: int|
                0 <= i < r.len() && r[i].0 != exclude && 0 <= j < r[i].1.producers.len() && line == (
                    r[i].0,
                    #[trigger] r[i].1.producers[j].0,
                    r[i].1.producers[j].1.kind.label(),
                );
            if i < n {
                assert(init[i] == r[i]);
                assert(init[i].1.producers[j].0 == r[i].1.producers[j].0);
                let k = rest.index_of(line);
                if last.0 != exclude {
                    assert((rest + last.1.listing(last.0))[k] == line);
                }
            } else {
                let own = last.1.listing(last.0);
                assert(own[j] == line);
                assert((rest + own)[rest.len() + j] == line);
            }
        }
    }
}

/// No peer is ever listed its own producers.
pub proof fn law_listing_excludes_own_producers<T, P, C>(r: RoomView<T, P, C>, exclude: Seq<char>, line: (Seq<char>, Seq<char>, Seq<char>))
    requires
        producer_listing(r, exclude).contains(line),
    ensures
        line.0 != exclude,
{
    law_listing_holds_others_producers(r, exclude, line);
}

/// Once peer `peer` of room `room` has a new producer, every other peer of
/// the room finds it in its `getProducers` listing, with its kind.
pub proof fn law_new_producer_listed_to_others<T, P, C>(
    s: RoomsView<T, P, C>,
    room: Seq<char>,
    peer: Seq<char>,
    producer: Producer<P>,
    other: Seq<char>,
)
    requires
        rooms_wf(s),
        peer_in(s, room, peer) is Some,
        other != peer,
    ensures
        room_producers(alter(s, room, peer, |q: PeerView<T, P, C>| q.with_producer(producer)), room, other).contains(
            (peer, producer.id@, producer.kind.label()),
        ),
{
    let id = producer.id@;
    let line = (peer, id, producer.kind.label());
    lemma_room_of(s, room);
    let r = room_or_empty(s, room);
    let p = lookup(r, peer)->Some_0;
    let f = |q: PeerView<T, P, C>| q.with_producer(producer);
    let r2 = upsert(r, peer, f(p));
    lemma_lookup_some(r, peer);
    let i = key_index(r, peer);
    assert(r[i].1.wf());
    lemma_upsert(r, peer, f(p), peer);
    lemma_upsert(s, room, r2, room);
    lemma_upsert(p.producers, id, producer, id);
    let ps = f(p).producers;
    lemma_lookup_some(ps, id);
    let j = key_index(ps, id);
    lemma_lookup_some(r2, peer);
    let i2 = key_index(r2, peer);
    assert(r2[i2].1 == f(p));
    assert(r2[i2].1.producers[j].0 == id);
    assert(lists(r2, other, line));
    law_listing_holds_others_producers(r2, other, line);
}

/// Once peer `peer` left room `room`, no `getProducers` listing of the room
/// shows a producer of it.
pub proof fn law_departed_peer_unlisted<T, P, C>(
    s: RoomsView<T, P, C>,
    room: Seq<char>,
    peer: Seq<char>,
    asking: Seq<char>,
    line: (Seq<char>, Seq<char>, Seq<char>),
)
    requires
        rooms_wf(s),
        room_producers(left(s, room, peer), room, asking).contains(line),
    ensures
        line.0 != peer,
{
    law_leave_removes_peer(s, room, peer, room, peer);
    let after = left(s, room, peer);
    let r = lookup(after, room)->Some_0;
    law_listing_holds_others_producers(r, asking, line);
    let (i, j) = choose|i: int, j: int|
        0 <= i < r.len() && r[i].0 != asking && 0 <= j < r[i].1.producers.len() && line == (
            r[i].0,
            #[trigger] r[i].1.producers[j].0,
            r[i].1.producers[j].1.kind.label(),
        );
    lemma_room_of(s, room);
    let r0 = lookup(s, room)->Some_0;
    lemma_without(r0, peer, peer);
    let rest = without(r0, peer);
    if rest.len() == 0 {
        lemma_without(s, room, room);
    } else {
        lemma_upsert(s, room, rest, room);
    }
    assert(r == rest);
    if line.0 == peer {
        assert(has_key(rest, peer));
    }
}

/// Leaving right after joining undoes the join: when peer `peer` was not in
/// room `room`, the rooms are exactly as before (a room opened by the join is
/// closed again).
pub proof fn law_leave_undoes_join<T, P, C>(s: RoomsView<T, P, C>, room: Seq<char>, peer: Seq<char>)
    requires
        rooms_wf(s),
        peer_in(s, room, peer) is None,
    ensures
        left(joined(s, room, peer), room, peer) == s,
{
    lemma_room_of(s, room);
    let r0 = room_or_empty(s, room);
    let fresh = PeerView::<T, P, C>::fresh();
    assert(!has_key(r0, peer));
    let r1 = upsert(r0, peer, fresh);
    assert(r1 == r0.push((peer, fresh)));
    lemma_upsert(r0, peer, fresh, peer);
    lemma_key_index(r1, r0.len() as int);
    assert(without(r1, peer) == r1.remove(r0.len() as int));
    assert(without(r1, peer) =~= r0);
    let j = joined(s, room, peer);
    lemma_upsert(s, room, r1, room);
    if has_key(s, room) {
        let i = key_index(s, room);
        lemma_key_index(s, i);
        assert(j == s.update(i, (room, r1)));
        lemma_key_index(j, i);
        assert(r0.len() > 0);
        assert(left(j, room, peer) == upsert(j, room, r0));
        assert(upsert(j, room, r0) == j.update(i, (room, r0)));
        assert(j.update(i, (room, r0)) =~= s);
    } else {
        assert(r0 =~= Seq::<(Seq<char>, PeerView<T, P, C>)>::empty());
        assert(j == s.push((room, r1)));
        lemma_key_index(j, s.len() as int);
        assert(left(j, room, peer) == without(j, room));
        assert(without(j, room) == j.remove(s.len() as int));
        assert(j.remove(s.len() as int) =~= s);
    }
}

/// The channels a broadcast that excludes `exclude` reaches: the channel of
/// every other peer of the room, one per peer.
pub proof fn law_broadcast_reaches_every_other_peer<S>(c: RoomChannels<S>, exclude: Seq<char>)
    requires
        distinct_keys(c),
    ensures
        forall|i: int| 0 <= i < c.len() && c[i].0 != exclude ==> others(c, exclude).contains(#[trigger] c[i].1),
        others(c, exclude).len() == if has_key(c, exclude) {
            c.len() - 1
        } else {
            c.len() as int
        },
    decreases c.len(),
{
    if c.len() > 0 {
        let init = c.drop_last();
        let n = c.len() - 1;
        assert(distinct_keys(init)) by {
            assert forall|a: int, b: int| 0 <= a < init.len() && 0 <= b < init.len() && a != b implies #[trigger] init[a].0 != #[trigger] init[b].0 by {
                assert(init[a] == c[a] && init[b] == c[b]);
            }
        }
        law_broadcast_reaches_every_other_peer(init, exclude);
        let rest = others(init, exclude);
        assert forall|i: int| 0 <= i < c.len() && c[i].0 != exclude implies others(c, exclude).contains(#[trigger] c[i].1) by {
            if i < n {
                assert(init[i] == c[i]);
                let k = rest.index_of(c[i].1);
                if c.last().0 != exclude {
                    assert(rest.push(c.last().1)[k] == c[i].1);
                }
            } else {
                assert(rest.push(c.last().1)[rest.len() as int] == c[i].1);
            }
        }
        if has_key(c, exclude) {
            let k = key_index(c, exclude);
            if k == n {
                assert(!has_key(init, exclude)) by {
                    if has_key(init, exclude) {
                        let m = key_index(init, exclude);
                        assert(c[m].0 == c[n].0);
                    }
                }
            } else {
                assert(init[k] == c[k]);
                assert(c.last().0 != exclude);
            }
        } else {
            assert(!has_key(init, exclude)) by {
                if has_key(init, exclude) {
                    let m = key_index(init, exclude);
                    assert(c[m] == init[m]);
                }
            }
            assert(c[n].0 != exclude);
        }
    }
}

/// Once `tx` is registered for peer `peer` in room `room`, a broadcast of
/// any other peer of the room reaches it.
pub proof fn law_registered_channel_is_reached<S>(s: ChannelsView<S>, room: Seq<char>, peer: Seq<char>, tx: S, other: Seq<char>)
    requires
        channels_wf(s),
        other != peer,
    ensures
        others(channels_of(registered(s, room, peer, tx), room), other).contains(tx),
{
    let c = channels_of(s, room);
    if lookup(s, room) is Some {
        lemma_lookup_some(s, room);
        let i = key_index(s, room);
        assert(distinct_keys(s[i].1));
    }
    let c2 = upsert(c, peer, tx);
    lemma_upsert(c, peer, tx, peer);
    lemma_upsert(s, room, c2, room);
    lemma_lookup_some(c2, peer);
    let j = key_index(c2, peer);
    law_broadcast_reaches_every_other_peer(c2, other);
    assert(c2[j].1 == tx);
}

/// Once the channel of peer `peer` in room `room` is dropped, the room lists
/// no channel for that peer; the room is listed only while it has a channel.
pub proof fn law_unregistered_channel_is_gone<S>(s: ChannelsView<S>, room: Seq<char>, peer: Seq<char>)
    requires
        channels_wf(s),
    ensures
        lookup(channels_of(unregistered(s, room, peer), room), peer) is None,
        lookup(unregistered(s, room, peer), room) matches Some(c) ==> c.len() > 0,
{
    match lookup(s, room) {
        Some(c) => {
            lemma_lookup_some(s, room);
            let i = key_index(s, room);
            assert(distinct_keys(s[i].1));
            let rest = without(c, peer);
            lemma_without(c, peer, peer);
            if rest.len() == 0 {
                lemma_without(s, room, room);
            } else {
                lemma_upsert(s, room, rest, room);
            }
        },
        None => {},
    }
}

/// A reply answers request `id`, is successful exactly when it carries no
/// error, and a failed reply carries no data.
pub open spec fn answers<D>(step: StepView<D>, id: Option<u64>) -> bool {
    step matches StepView::Reply(r, _) ==> {
        &&& r.id == id
        &&& (r.ok <==> r.error is None)
        &&& (!r.ok ==> r.data is None)
    }
}

/// How many outcomes an exchange at `stage` waits for at most before it
/// answers.
pub open spec fn remaining(stage: StageView) -> nat {
    match stage {
        StageView::Done => 0,
        StageView::AwaitCapabilities => 1,
        StageView::AwaitTransport { .. } => 1,
        StageView::AwaitConnect => 1,
        StageView::AwaitDtls { .. } => 2,
        StageView::AwaitProduce { .. } => 1,
        StageView::AwaitRtpParameters { .. } => 2,
        StageView::AwaitKind => 3,
        StageView::AwaitConsume { .. } => 1,
        StageView::AwaitConsumable { .. } => 2,
        StageView::AwaitRtpCapabilities { .. } => 3,
        StageView::AwaitResume => 1,
    }
}

/// Every first step of a request is well formed: replies answer the
/// request's `id`; a request without method gets no reply; outside work is
/// asked for exactly while the exchange is not done, and at most three
/// outcomes are awaited.
pub proof fn law_start_answers_request<T, P, C, D>(msg: SignalingMessage, rooms: RoomsView<T, P, C>, room: Seq<char>, peer: Seq<char>)
    ensures
        answers(start_spec::<T, P, C, D>(msg, rooms, room, peer).1, msg.id),
        msg.method is None ==> start_spec::<T, P, C, D>(msg, rooms, room, peer).1 is Silent,
        msg.method is Some ==> start_spec::<T, P, C, D>(msg, rooms, room, peer).1 !is Silent,
        (start_spec::<T, P, C, D>(msg, rooms, room, peer).0 is Done) <==> !(start_spec::<T, P, C, D>(msg, rooms, room, peer).1 is Perform),
        remaining(start_spec::<T, P, C, D>(msg, rooms, room, peer).0) <= 3,
{
}

/// A request naming no known method is refused with `Unknown method: `
/// followed by the method.
pub proof fn law_unknown_method_refused<T, P, C, D>(msg: SignalingMessage, rooms: RoomsView<T, P, C>, room: Seq<char>, peer: Seq<char>)
    requires
        msg.method matches Some(m) && method_of(m@) == Method::Unknown,
    ensures
        start_spec::<T, P, C, D>(msg, rooms, room, peer).1 == StepView::<D>::Reply(
            ResponseView { id: msg.id, ok: false, data: None, error: Some("Unknown method: "@ + msg.method->Some_0@) },
            None,
        ),
{
}

/// Every further step is well formed: replies answer the request's `id`;
/// outside work is asked for exactly while the exchange is not done; and
/// each outcome brings the exchange closer to its answer.
pub proof fn law_advance_answers_request<T, P, C, D>(
    stage: StageView,
    outcome: Outcome<T, P, C, D>,
    rooms: RoomsView<T, P, C>,
    room: Seq<char>,
    peer: Seq<char>,
    id: Option<u64>,
)
    requires
        stage_accepts(stage, outcome),
    ensures
        answers(advance_spec(stage, outcome, rooms, room, peer, id).1, id),
        (advance_spec(stage, outcome, rooms, room, peer, id).0 is Done) <==> !(advance_spec(stage, outcome, rooms, room, peer, id).1 is Perform),
        advance_spec(stage, outcome, rooms, room, peer, id).1 !is Silent,
        remaining(advance_spec(stage, outcome, rooms, room, peer, id).0) < remaining(stage),
{
}

/// A step that does not answer with success leaves the rooms as they were:
/// only a created transport, a new producer or a new consumer changes them.
pub proof fn law_refusal_changes_nothing<T, P, C, D>(
    stage: StageView,
    outcome: Outcome<T, P, C, D>,
    rooms: RoomsView<T, P, C>,
    room: Seq<char>,
    peer: Seq<char>,
    id: Option<u64>,
)
    requires
        stage_accepts(stage, outcome),
        !(advance_spec(stage, outcome, rooms, room, peer, id).1 matches StepView::Reply(r, _) && r.ok),
    ensures
        advance_spec(stage, outcome, rooms, room, peer, id).2 == rooms,
{
}


/// Dropping a channel right after registering it undoes the registration:
/// when peer `peer` had no channel in room `room`, the registry is exactly as
/// before.
pub proof fn law_unregister_undoes_register<S>(s: ChannelsView<S>, room: Seq<char>, peer: Seq<char>, tx: S)
    requires
        channels_wf(s),
        lookup(channels_of(s, room), peer) is None,
    ensures
        unregistered(registered(s, room, peer, tx), room, peer) == s,
{
    let c0 = channels_of(s, room);
    if lookup(s, room) is Some {
        lemma_lookup_some(s, room);
        let i = key_index(s, room);
        assert(distinct_keys(s[i].1));
    }
    assert(!has_key(c0, peer));
    let c1 = upsert(c0, peer, tx);
    assert(c1 == c0.push((peer, tx)));
    lemma_upsert(c0, peer, tx, peer);
    lemma_key_index(c1, c0.len() as int);
    assert(without(c1, peer) =~= c0);
    let j = registered(s, room, peer, tx);
    lemma_upsert(s, room, c1, room);
    if has_key(s, room) {
        let i = key_index(s, room);
        lemma_key_index(s, i);
        assert(j == s.update(i, (room, c1)));
        lemma_key_index(j, i);
        assert(c0.len() > 0);
        assert(unregistered(j, room, peer) == j.update(i, (room, c0)));
        assert(j.update(i, (room, c0)) =~= s);
    } else {
        assert(c0 =~= Seq::<(Seq<char>, S)>::empty());
        assert(j == s.push((room, c1)));
        lemma_key_index(j, s.len() as int);
        assert(unregistered(j, room, peer) == j.remove(s.len() as int));
        assert(j.remove(s.len() as int) =~= s);
    }
}


/// A consumer the peer holds is found again by its identifier: resuming it
/// goes on to the SFU with that very identifier.
pub proof fn law_stored_consumer_found_again<T, P, C, D>(
    id: Option<u64>,
    consumer_id: Seq<char>,
    rooms: RoomsView<T, P, C>,
    room: Seq<char>,
    peer: Seq<char>,
)
    requires
        consumer_of(rooms, room, peer, consumer_id) is Some,
    ensures
        resume_spec::<T, P, C, D>(id, Ok(consumer_id), rooms, room, peer) == (
            StageView::AwaitResume,
            StepView::<D>::Perform(EffectView::Resume { consumer_id }),
        ),
{
}

/// A producer identifier that parses goes to the router as parsed, and the
/// reply will echo the requested text.
pub proof fn law_parsed_producer_is_checked<D>(id: Option<u64>, canonical: Seq<char>, requested: Seq<char>)
    ensures
        consume_spec::<D>(id, Ok(canonical), requested) == (
            StageView::AwaitConsumable { producer_id: canonical, requested },
            StepView::<D>::Perform(EffectView::CheckConsumable { producer_id: canonical }),
        ),
{
}

proof fn lemma_alter_found<T, P, C>(
    s: RoomsView<T, P, C>,
    room: Seq<char>,
    peer: Seq<char>,
    f: spec_fn(PeerView<T, P, C>) -> PeerView<T, P, C>,
)
    requires
        rooms_wf(s),
        peer_in(s, room, peer) is Some,
    ensures
        peer_in(alter(s, room, peer, f), room, peer) == Some(f(peer_in(s, room, peer)->Some_0)),
{
    lemma_room_of(s, room);
    let r = room_or_empty(s, room);
    let p = lookup(r, peer)->Some_0;
    lemma_upsert(r, peer, f(p), peer);
    lemma_upsert(s, room, upsert(r, peer, f(p)), room);
}

/// A produce request keeps the media kind it parsed: once the kind `kind`
/// is parsed and the RTP parameters too, a peer with a send transport is
/// asked to produce media of that kind; and once the producer exists, the
/// reply gives its identifier and the room's other peers are told of a new
/// producer of that peer, with that identifier and that kind.
pub proof fn law_produce_keeps_the_parsed_kind<T, P, C, D>(
    rooms: RoomsView<T, P, C>,
    room: Seq<char>,
    peer: Seq<char>,
    id: Option<u64>,
    kind: MediaKind,
    producer: Producer<P>,
)
    requires
        transport_of(rooms, room, peer, true) is Some,
    ensures
        ({
            let first = advance_spec::<T, P, C, D>(StageView::AwaitKind, Outcome::KindParsed(Ok(kind)), rooms, room, peer, id);
            let second = advance_spec::<T, P, C, D>(first.0, Outcome::Parsed(Ok(())), first.2, room, peer, id);
            let third = advance_spec::<T, P, C, D>(second.0, Outcome::Produced(Ok(producer)), second.2, room, peer, id);
            &&& first.1 == StepView::<D>::Perform(EffectView::ParseRtpParameters)
            &&& second.1 == StepView::<D>::Perform(EffectView::Produce { kind })
            &&& third.1 matches StepView::Reply(r, Some(n)) && {
                &&& r.id == id
                &&& r.ok
                &&& r.data == Some(DataView::<D>::ProducerId(producer.id@))
                &&& n.method == "newProducer"@
                &&& n.data == (NotificationDataView::NewProducer { peer_id: peer, producer_id: producer.id@, kind })
            }
        }),
{
}

/// A successful consume reply describes the consumer the SFU made: its
/// identifier, the producer text that was requested, the consumer's own
/// media kind and its RTP parameters.
pub proof fn law_consume_reply_describes_the_consumer<T, P, C, D>(
    rooms: RoomsView<T, P, C>,
    room: Seq<char>,
    peer: Seq<char>,
    id: Option<u64>,
    requested: Seq<char>,
    consumer: Consumer<C>,
    kind: MediaKind,
    rtp: D,
)
    ensures
        advance_spec::<T, P, C, D>(
            StageView::AwaitConsume { requested },
            Outcome::Consumed(Ok((consumer, kind, rtp))),
            rooms,
            room,
            peer,
            id,
        ).1 matches StepView::Reply(r, None) && {
            &&& r.id == id
            &&& r.ok
            &&& r.error is None
            &&& r.data == Some(DataView::Consumer { consumer_id: consumer.id@, producer_id: requested, kind, rtp_parameters: rtp })
        },
{
}

/// `connectTransport` connects the transport the identifier names: a
/// transport is connected only when the peer has it under that identifier,
/// the send transport when it carries it, else the receive one; and when
/// neither carries it the request is refused with `Transport not found`.
pub proof fn law_connect_picks_the_named_transport<T, P, C, D>(
    rooms: RoomsView<T, P, C>,
    room: Seq<char>,
    peer: Seq<char>,
    id: Option<u64>,
    transport: Seq<char>,
)
    ensures
        ({
            let next = advance_spec::<T, P, C, D>(StageView::AwaitDtls { transport_id: transport }, Outcome::Parsed(Ok(())), rooms, room, peer, id);
            &&& next.2 == rooms
            &&& (next.1 matches StepView::Perform(e) ==> (e matches EffectView::Connect { send } && transport_id(
                transport_of(rooms, room, peer, send),
            ) == Some(transport)))
            &&& (transport_id(transport_of(rooms, room, peer, true)) == Some(transport) ==> next.1 == StepView::<D>::Perform(
                EffectView::Connect { send: true },
            ))
            &&& (transport_id(transport_of(rooms, room, peer, true)) != Some(transport) && transport_id(
                transport_of(rooms, room, peer, false),
            ) == Some(transport) ==> next.1 == StepView::<D>::Perform(EffectView::Connect { send: false }))
            &&& (transport_id(transport_of(rooms, room, peer, true)) != Some(transport) && transport_id(
                transport_of(rooms, room, peer, false),
            ) != Some(transport) ==> next.1 == StepView::<D>::Reply(
                ResponseView { id, ok: false, data: None, error: Some("Transport not found"@) },
                None,
            ))
        }),
{
}

/// A created transport is answered with success carrying exactly the payload
/// that describes it, and is stored as the peer's transport of the asked
/// direction, the other direction left as it was.
pub proof fn law_created_transport_is_answered_and_stored<T, P, C, D>(
    rooms: RoomsView<T, P, C>,
    room: Seq<char>,
    peer: Seq<char>,
    id: Option<u64>,
    send: bool,
    transport: Transport<T>,
    payload: D,
)
    requires
        rooms_wf(rooms),
    ensures
        ({
            let next = advance_spec::<T, P, C, D>(
                StageView::AwaitTransport { send },
                Outcome::TransportCreated(Ok((transport, payload))),
                rooms,
                room,
                peer,
                id,
            );
            &&& next.0 is Done
            &&& next.1 == StepView::<D>::Reply(
                ResponseView { id, ok: true, data: Some(DataView::Payload(payload)), error: None },
                None,
            )
            &&& peer_in(rooms, room, peer) is Some ==> transport_of(next.2, room, peer, send) == Some(transport)
                && transport_of(next.2, room, peer, !send) == transport_of(rooms, room, peer, !send)
        }),
{
    if peer_in(rooms, room, peer) is Some {
        lemma_alter_found(rooms, room, peer, |q: PeerView<T, P, C>| q.with_transport(send, transport));
    }
}

/// A consume request reaches the SFU only through a receive transport: the
/// consume step is asked for only when the peer has one, and a peer without
/// one is refused with `Recv transport not found` once the router can
/// consume.
pub proof fn law_consume_needs_a_receive_transport<T, P, C, D>(
    rooms: RoomsView<T, P, C>,
    room: Seq<char>,
    peer: Seq<char>,
    id: Option<u64>,
    producer: Seq<char>,
    requested: Seq<char>,
    can: bool,
)
    ensures
        ({
            let next = advance_spec::<T, P, C, D>(
                StageView::AwaitConsumable { producer_id: producer, requested },
                Outcome::Consumable(can),
                rooms,
                room,
                peer,
                id,
            );
            &&& next.2 == rooms
            &&& (next.1 matches StepView::Perform(e) ==> can && transport_of(rooms, room, peer, false) is Some && e
                == EffectView::Consume { producer_id: producer, paused: true })
            &&& (can && transport_of(rooms, room, peer, false) is None ==> next.1 == StepView::<D>::Reply(
                ResponseView { id, ok: false, data: None, error: Some("Recv transport not found"@) },
                None,
            ))
            &&& (can && transport_of(rooms, room, peer, false) is Some ==> next.1 == StepView::<D>::Perform(
                EffectView::Consume { producer_id: producer, paused: true },
            ))
        }),
{
}

proof fn lemma_found_peer_wf<T, P, C>(s: RoomsView<T, P, C>, room: Seq<char>, peer: Seq<char>)
    requires
        rooms_wf(s),
        peer_in(s, room, peer) is Some,
    ensures
        peer_in(s, room, peer)->Some_0.wf(),
{
    lemma_room_of(s, room);
    let r = room_or_empty(s, room);
    lemma_lookup_some(r, peer);
    let i = key_index(r, peer);
    assert(r[i].1.wf());
}

/// A new producer or consumer is kept with the peer that asked for it: once
/// the SFU made it, the peer holds it under its identifier.
pub proof fn law_new_media_is_stored<T, P, C, D>(
    rooms: RoomsView<T, P, C>,
    room: Seq<char>,
    peer: Seq<char>,
    id: Option<u64>,
    kind: MediaKind,
    producer: Producer<P>,
    requested: Seq<char>,
    consumer: Consumer<C>,
    consumed_kind: MediaKind,
    rtp: D,
)
    requires
        rooms_wf(rooms),
        peer_in(rooms, room, peer) is Some,
    ensures
        lookup(
            peer_in(
                advance_spec::<T, P, C, D>(StageView::AwaitProduce { kind }, Outcome::Produced(Ok(producer)), rooms, room, peer, id).2,
                room,
                peer,
            )->Some_0.producers,
            producer.id@,
        ) == Some(producer),
        consumer_of(
            advance_spec::<T, P, C, D>(
                StageView::AwaitConsume { requested },
                Outcome::Consumed(Ok((consumer, consumed_kind, rtp))),
                rooms,
                room,
                peer,
                id,
            ).2,
            room,
            peer,
            consumer.id@,
        ) == Some(consumer),
{
    let p = peer_in(rooms, room, peer)->Some_0;
    lemma_found_peer_wf(rooms, room, peer);
    lemma_alter_found(rooms, room, peer, |q: PeerView<T, P, C>| q.with_producer(producer));
    lemma_alter_found(rooms, room, peer, |q: PeerView<T, P, C>| q.with_consumer(consumer));
    lemma_upsert(p.producers, producer.id@, producer, producer.id@);
    lemma_upsert(p.consumers, consumer.id@, consumer, consumer.id@);
}

/// A produce request reaches the SFU only through a send transport: once
/// the RTP parameters parsed, production is asked for exactly when the peer
/// has one, and otherwise the request is refused with `Send transport not
/// found`; the rooms stay as they are.
pub proof fn law_produce_needs_a_send_transport<T, P, C, D>(
    rooms: RoomsView<T, P, C>,
    room: Seq<char>,
    peer: Seq<char>,
    id: Option<u64>,
    kind: MediaKind,
)
    ensures
        ({
            let next = advance_spec::<T, P, C, D>(StageView::AwaitRtpParameters { kind }, Outcome::Parsed(Ok(())), rooms, room, peer, id);
            &&& next.2 == rooms
            &&& (transport_of(rooms, room, peer, true) is Some ==> next.1 == StepView::<D>::Perform(EffectView::Produce { kind }))
            &&& (transport_of(rooms, room, peer, true) is None ==> next.1 == StepView::<D>::Reply(
                ResponseView { id, ok: false, data: None, error: Some("Send transport not found"@) },
                None,
            ))
        }),
{
}

/// A failed parse ends the exchange with an error naming what failed to
/// parse, followed by the parser's message, and changes nothing.
pub proof fn law_parse_errors_are_reported<T, P, C, D>(
    rooms: RoomsView<T, P, C>,
    room: Seq<char>,
    peer: Seq<char>,
    id: Option<u64>,
    stage: StageView,
    e: String,
)
    ensures
        ({
            let prefix: Seq<char> = match stage {
                StageView::AwaitDtls { .. } => "Invalid DTLS parameters: "@,
                StageView::AwaitRtpParameters { .. } => "Invalid RTP parameters: "@,
                StageView::AwaitRtpCapabilities { .. } => "Invalid RTP capabilities: "@,
                _ => "Invalid media kind: "@,
            };
            let outcome: Outcome<T, P, C, D> = if stage is AwaitKind { Outcome::KindParsed(Err(e)) } else { Outcome::Parsed(Err(e)) };
            (stage is AwaitDtls || stage is AwaitRtpParameters || stage is AwaitRtpCapabilities || stage is AwaitKind) ==> advance_spec::<T, P, C, D>(
                stage,
                outcome,
                rooms,
                room,
                peer,
                id,
            ) == (
                StageView::Done,
                StepView::<D>::Reply(ResponseView { id, ok: false, data: None, error: Some(prefix + e@) }, None),
                rooms,
            )
        }),
{
}

/// What the SFU answers at the last step is passed on: an error's message
/// becomes the failed reply and changes nothing, a connected transport or a
/// resumed consumer is answered with success and no data, and the router's
/// capabilities are answered as they came.
pub proof fn law_sfu_answers_are_passed_on<T, P, C, D>(
    rooms: RoomsView<T, P, C>,
    room: Seq<char>,
    peer: Seq<char>,
    id: Option<u64>,
    send: bool,
    kind: MediaKind,
    requested: Seq<char>,
    e: String,
    caps: D,
)
    ensures
        ({
            let failed = (StageView::Done, StepView::<D>::Reply(ResponseView { id, ok: false, data: None, error: Some(e@) }, None), rooms);
            let done = (StageView::Done, StepView::<D>::Reply(ResponseView { id, ok: true, data: None, error: None }, None), rooms);
            &&& advance_spec::<T, P, C, D>(StageView::AwaitTransport { send }, Outcome::TransportCreated(Err(e)), rooms, room, peer, id) == failed
            &&& advance_spec::<T, P, C, D>(StageView::AwaitConnect, Outcome::Connected(Err(e)), rooms, room, peer, id) == failed
            &&& advance_spec::<T, P, C, D>(StageView::AwaitProduce { kind }, Outcome::Produced(Err(e)), rooms, room, peer, id) == failed
            &&& advance_spec::<T, P, C, D>(StageView::AwaitConsume { requested }, Outcome::Consumed(Err(e)), rooms, room, peer, id) == failed
            &&& advance_spec::<T, P, C, D>(StageView::AwaitResume, Outcome::Resumed(Err(e)), rooms, room, peer, id) == failed
            &&& advance_spec::<T, P, C, D>(StageView::AwaitConnect, Outcome::Connected(Ok(())), rooms, room, peer, id) == done
            &&& advance_spec::<T, P, C, D>(StageView::AwaitResume, Outcome::Resumed(Ok(())), rooms, room, peer, id) == done
            &&& advance_spec::<T, P, C, D>(StageView::AwaitCapabilities, Outcome::RtpCapabilities(caps), rooms, room, peer, id) == (
                StageView::Done,
                StepView::<D>::Reply(ResponseView { id, ok: true, data: Some(DataView::Payload(caps)), error: None }, None),
                rooms,
            )
        }),
{
}

/// When the router cannot consume the producer, the request is refused
/// with `Cannot consume (codec mismatch or producer not found)`.
pub proof fn law_unconsumable_is_refused<T, P, C, D>(
    rooms: RoomsView<T, P, C>,
    room: Seq<char>,
    peer: Seq<char>,
    id: Option<u64>,
    producer: Seq<char>,
    requested: Seq<char>,
)
    ensures
        advance_spec::<T, P, C, D>(
            StageView::AwaitConsumable { producer_id: producer, requested },
            Outcome::Consumable(false),
            rooms,
            room,
            peer,
            id,
        ) == (
            StageView::Done,
            StepView::<D>::Reply(
                ResponseView { id, ok: false, data: None, error: Some("Cannot consume (codec mismatch or producer not found)"@) },
                None,
            ),
            rooms,
        ),
{
}

/// The text of an optional request field; an absent field reads as empty.
pub open spec fn field_text(f: Option<String>) -> Seq<char> {
    if f is Some {
        f->Some_0@
    } else {
        Seq::empty()
    }
}

/// Each known method starts its own work: the router's capabilities are
/// read; a transport is created for sending unless the direction names
/// something other than `send`; `connectTransport` first parses the DTLS
/// parameters and keeps the named transport; `produce` first parses the
/// media kind; `consume` first parses the RTP capabilities and keeps the
/// requested producer text; `getProducers` is answered at once with the
/// room's listing for the asking peer.
pub proof fn law_start_routes_by_method<T, P, C, D>(msg: SignalingMessage, rooms: RoomsView<T, P, C>, room: Seq<char>, peer: Seq<char>)
    requires
        msg.method is Some,
    ensures
        ({
            let m = msg.method->Some_0@;
            let first = start_spec::<T, P, C, D>(msg, rooms, room, peer);
            let send = msg.data.direction is None || msg.data.direction->Some_0@ == "send"@;
            &&& m == "getRouterRtpCapabilities"@ ==> first == (StageView::AwaitCapabilities, StepView::<D>::Perform(EffectView::ReadRtpCapabilities))
            &&& m == "createWebRtcTransport"@ ==> first == (
                StageView::AwaitTransport { send },
                StepView::<D>::Perform(EffectView::CreateTransport { send }),
            )
            &&& m == "connectTransport"@ ==> first == (
                StageView::AwaitDtls { transport_id: field_text(msg.data.transport_id) },
                StepView::<D>::Perform(EffectView::ParseDtlsParameters),
            )
            &&& m == "produce"@ ==> first == (StageView::AwaitKind, StepView::<D>::Perform(EffectView::ParseMediaKind))
            &&& m == "consume"@ ==> first == (
                StageView::AwaitRtpCapabilities { producer_id: field_text(msg.data.producer_id) },
                StepView::<D>::Perform(EffectView::ParseRtpCapabilities),
            )
            &&& m == "getProducers"@ ==> first == (
                StageView::Done,
                StepView::<D>::Reply(
                    ResponseView { id: msg.id, ok: true, data: Some(DataView::Producers(room_producers(rooms, room, peer))), error: None },
                    None,
                ),
            )
        }),
{
    reveal_strlit("getRouterRtpCapabilities");
    reveal_strlit("createWebRtcTransport");
    reveal_strlit("connectTransport");
    reveal_strlit("produce");
    reveal_strlit("consume");
    reveal_strlit("resumeConsumer");
    reveal_strlit("getProducers");
    reveal_strlit("send");
    assert("consume"@[0] != "produce"@[0]);
}

/// `resumeConsumer` resumes the consumer its identifier names, if the peer
/// holds it: a malformed identifier is refused with the parser's message,
/// one the peer does not hold with `Consumer not found`.
pub proof fn law_resume_names_a_held_consumer<T, P, C, D>(msg: SignalingMessage, rooms: RoomsView<T, P, C>, room: Seq<char>, peer: Seq<char>)
    requires
        msg.method matches Some(m) && m@ == "resumeConsumer"@,
    ensures
        ({
            let first = start_spec::<T, P, C, D>(msg, rooms, room, peer);
            let parsed = uuid_parse(field_text(msg.data.consumer_id));
            &&& parsed is Err ==> first == (
                StageView::Done,
                StepView::<D>::Reply(
                    ResponseView { id: msg.id, ok: false, data: None, error: Some("Invalid consumer ID format: "@ + parsed->Err_0) },
                    None,
                ),
            )
            &&& parsed is Ok && consumer_of(rooms, room, peer, parsed->Ok_0) is Some ==> first == (
                StageView::AwaitResume,
                StepView::<D>::Perform(EffectView::Resume { consumer_id: parsed->Ok_0 }),
            )
            &&& parsed is Ok && consumer_of(rooms, room, peer, parsed->Ok_0) is None ==> first == (
                StageView::Done,
                StepView::<D>::Reply(ResponseView { id: msg.id, ok: false, data: None, error: Some("Consumer not found"@) }, None),
            )
        }),
{
    reveal_strlit("getRouterRtpCapabilities");
    reveal_strlit("createWebRtcTransport");
    reveal_strlit("connectTransport");
    reveal_strlit("produce");
    reveal_strlit("consume");
    reveal_strlit("resumeConsumer");
    reveal_strlit("getProducers");
    reveal_strlit("send");
}

} // verus!
