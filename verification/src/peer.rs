//! A peer of a room: its two transports and the producers and consumers it
//! owns.

use vstd::prelude::*;
use crate::keyed::{distinct_keys, find_key, keyed_view, lookup, same, store, upsert};
use crate::media::{Consumer, MediaKind, Producer, Transport};

verus! {

/// What a peer holds.
pub struct PeerView<T, P, C> {
    /// The transport the peer sends on.
    pub send_transport: Option<Transport<T>>,
    /// The transport the peer receives on.
    pub recv_transport: Option<Transport<T>>,
    /// The peer's producers by identifier, oldest first.
    pub producers: Seq<(Seq<char>, Producer<P>)>,
    /// The peer's consumers by identifier, oldest first.
    pub consumers: Seq<(Seq<char>, Consumer<C>)>,
}

/// The identifier of an optional transport.
pub open spec fn transport_id<T>(t: Option<Transport<T>>) -> Option<Seq<char>> {
    match t {
        Some(t) => Some(t.id@),
        None => None,
    }
}

impl<T, P, C> PeerView<T, P, C> {
    /// A peer that has just joined: no transport, producer or consumer.
    pub open spec fn fresh() -> PeerView<T, P, C> {
        PeerView {
            send_transport: None,
            recv_transport: None,
            producers: Seq::empty(),
            consumers: Seq::empty(),
        }
    }

    /// Producer and consumer identifiers are unique within the peer.
    pub open spec fn wf(self) -> bool {
        &&& distinct_keys(self.producers)
        &&& distinct_keys(self.consumers)
    }

    /// Which transport the identifier `id` names: the send transport
    /// (`Some(true)`) if it carries that identifier, else the receive
    /// transport (`Some(false)`) if it does, else none.
    pub open spec fn transport_named(self, id: Seq<char>) -> Option<bool> {
        if transport_id(self.send_transport) == Some(id) {
            Some(true)
        } else if transport_id(self.recv_transport) == Some(id) {
            Some(false)
        } else {
            None
        }
    }

    /// The peer with `t` as its send (`send`) or receive transport.
    pub open spec fn with_transport(self, send: bool, t: Transport<T>) -> PeerView<T, P, C> {
        if send {
            PeerView { send_transport: Some(t), ..self }
        } else {
            PeerView { recv_transport: Some(t), ..self }
        }
    }

    /// The peer with producer `p` stored under its identifier.
    pub open spec fn with_producer(self, p: Producer<P>) -> PeerView<T, P, C> {
        PeerView { producers: upsert(self.producers, p.id@, p), ..self }
    }

    /// The peer with consumer `c` stored under its identifier.
    pub open spec fn with_consumer(self, c: Consumer<C>) -> PeerView<T, P, C> {
        PeerView { consumers: upsert(self.consumers, c.id@, c), ..self }
    }

    /// The lines that list this peer's producers: (peer, producer, kind).
    pub open spec fn listing(self, peer_id: Seq<char>) -> Seq<(Seq<char>, Seq<char>, Seq<char>)> {
        self.producers.map_values(|e: (Seq<char>, Producer<P>)| (peer_id, e.0, e.1.kind.label()))
    }
}

/// The text of a list of (peer, producer, kind) lines.
pub open spec fn lines_view(v: Seq<(String, String, String)>) -> Seq<(Seq<char>, Seq<char>, Seq<char>)> {
    v.map_values(|t: (String, String, String)| (t.0@, t.1@, t.2@))
}

/// A single peer in a room.
pub struct Peer<T, P, C> {
    send_transport: Option<Transport<T>>,
    recv_transport: Option<Transport<T>>,
    producers: Vec<(String, Producer<P>)>,
    consumers: Vec<(String, Consumer<C>)>,
}

impl<T, P, C> View for Peer<T, P, C> {
    type V = PeerView<T, P, C>;

    closed spec fn view(&self) -> PeerView<T, P, C> {
        PeerView {
            send_transport: self.send_transport,
            recv_transport: self.recv_transport,
            producers: keyed_view(self.producers@, same()),
            consumers: keyed_view(self.consumers@, same()),
        }
    }
}

impl<T, P, C> Peer<T, P, C> {
    /// A peer with no transport, producer or consumer.
    pub fn new(_id: String) -> (peer: Self)
        ensures
            peer@ == PeerView::<T, P, C>::fresh(),
    {
        let peer = Peer {
            send_transport: None,
            recv_transport: None,
            producers: Vec::new(),
            consumers: Vec::new(),
        };
        assert(peer@.producers =~= Seq::<(Seq<char>, Producer<P>)>::empty());
        assert(peer@.consumers =~= Seq::<(Seq<char>, Consumer<C>)>::empty());
        peer
    }

    /// The transport the peer sends on, if it has one.
    pub fn send_transport(&self) -> (t: Option<&Transport<T>>)
        ensures
            match t {
                Some(t) => self@.send_transport == Some(*t),
                None => self@.send_transport is None,
            },
    {
        self.send_transport.as_ref()
    }

    /// The transport the peer receives on, if it has one.
    pub fn recv_transport(&self) -> (t: Option<&Transport<T>>)
        ensures
            match t {
                Some(t) => self@.recv_transport == Some(*t),
                None => self@.recv_transport is None,
            },
    {
        self.recv_transport.as_ref()
    }

    /// Stores `transport` as the send (`send`) or receive transport,
    /// replacing the one there.
    pub fn set_transport(&mut self, send: bool, transport: Transport<T>)
        ensures
            final(self)@ == old(self)@.with_transport(send, transport),
    {
        if send {
            self.send_transport = Some(transport);
        } else {
            self.recv_transport = Some(transport);
        }
    }

    /// Which of the peer's transports carries identifier `id`, the send
    /// transport checked first.
    pub fn find_transport(&self, id: &String) -> (found: Option<bool>)
        ensures
            found == self@.transport_named(id@),
    {
        if let Some(t) = &self.send_transport {
            if t.id == *id {
                return Some(true);
            }
        }
        if let Some(t) = &self.recv_transport {
            if t.id == *id {
                return Some(false);
            }
        }
        None
    }

    /// Stores a producer under its identifier (replacing one with the same
    /// identifier).
    pub fn add_producer(&mut self, producer: Producer<P>)
        requires
            old(self)@.wf(),
        ensures
            final(self)@ == old(self)@.with_producer(producer),
            final(self)@.wf(),
    {
        let ghost before = self@;
        let ghost item = producer;
        store::<Producer<P>, Producer<P>>(&mut self.producers, producer.id.clone(), producer, Ghost(same()));
        assert(self@ =~= before.with_producer(item));
    }

    /// Stores a consumer under its identifier (replacing one with the same
    /// identifier).
    pub fn add_consumer(&mut self, consumer: Consumer<C>)
        requires
            old(self)@.wf(),
        ensures
            final(self)@ == old(self)@.with_consumer(consumer),
            final(self)@.wf(),
    {
        let ghost before = self@;
        let ghost item = consumer;
        store::<Consumer<C>, Consumer<C>>(&mut self.consumers, consumer.id.clone(), consumer, Ghost(same()));
        assert(self@ =~= before.with_consumer(item));
    }

    /// The consumer with identifier `id`, if the peer has one.
    pub fn consumer(&self, id: &String) -> (found: Option<&Consumer<C>>)
        requires
            self@.wf(),
        ensures
            match found {
                Some(c) => lookup(self@.consumers, id@) == Some(*c),
                None => lookup(self@.consumers, id@) is None,
            },
    {
        match find_key::<Consumer<C>, Consumer<C>>(&self.consumers, id, Ghost(same())) {
            Some(i) => Some(&self.consumers[i].1),
            None => None,
        }
    }

    /// Appends to `out` one line (peer, producer, kind) per producer of this
    /// peer, oldest producer first.
    pub fn list_producers(&self, peer_id: &String, out: &mut Vec<(String, String, String)>)
        ensures
            lines_view(final(out)@) == lines_view(old(out)@) + self@.listing(peer_id@),
    {
        let ghost start = lines_view(out@);
        let mut i: usize = 0;
        while i < self.producers.len()
            invariant
                i <= self.producers@.len(),
                lines_view(out@) == start + self@.listing(peer_id@).take(i as int),
            decreases self.producers@.len() - i,
        {
            let entry = &self.producers[i];
            let line = (peer_id.clone(), entry.0.clone(), entry.1.kind.as_str().to_owned());
            let ghost before = out@;
            out.push(line);
            proof {
                assert(lines_view(out@) =~= lines_view(before).push((peer_id@, entry.0@, entry.1.kind.label())));
                assert(self@.listing(peer_id@).take(i + 1) =~= self@.listing(peer_id@).take(i as int).push(
                    (peer_id@, entry.0@, entry.1.kind.label()),
                ));
                assert(lines_view(out@) =~= start + self@.listing(peer_id@).take(i + 1));
            }
            i = i + 1;
        }
        assert(self@.listing(peer_id@).take(i as int) =~= self@.listing(peer_id@));
    }
}

} // verus!
