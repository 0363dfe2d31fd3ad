//! The end of a peer's connection: the peer leaves its room and the
//! channel registry, and the others are told.

use vstd::prelude::*;
use crate::channels::{unregister_peer_channel, unregistered, PeerChannels};
use crate::messages::{peer_closed, peer_closed_view, ServerNotification};
use crate::rooms::{left, Rooms};

verus! {

/// Peer `peer_id` of room `room_id` disconnected: its channel is dropped,
/// it leaves the room (the room closes when empty), and the notification for
/// the room's remaining peers is handed back.
pub fn disconnect<T, P, C, S>(
    rooms: &mut Rooms<T, P, C>,
    channels: &mut PeerChannels<S>,
    room_id: &str,
    peer_id: &str,
) -> (notice: ServerNotification)
    ensures
        final(channels)@ == unregistered(old(channels)@, room_id@, peer_id@),
        final(rooms)@ == left(old(rooms)@, room_id@, peer_id@),
        notice@ == peer_closed_view(peer_id@),
{
    unregister_peer_channel(channels, room_id, peer_id);
    let notice = peer_closed(peer_id);
    rooms.leave(room_id, peer_id);
    notice
}

} // verus!
