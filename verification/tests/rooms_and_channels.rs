use axum_rtc::channels::{broadcast_to_room_exclude, register_peer_channel, unregister_peer_channel, PeerChannels};
use axum_rtc::media::{Consumer, MediaKind, Producer, Transport};
use axum_rtc::peer::Peer;
use axum_rtc::room::Room;
use axum_rtc::rooms::{create_rooms, Rooms};
use axum_rtc::session::disconnect;
use axum_rtc::messages::NotificationData;

type TestRooms = Rooms<u32, u32, u32>;

fn producer(id: &str, kind: MediaKind) -> Producer<u32> {
    Producer { id: id.to_string(), kind, handle: 0 }
}

#[test]
fn new_peer_has_nothing() {
    let peer: Peer<u32, u32, u32> = Peer::new("p".to_string());
    assert!(peer.send_transport().is_none());
    assert!(peer.recv_transport().is_none());
    assert!(peer.consumer(&"c".to_string()).is_none());
}

#[test]
fn peer_keeps_transports_apart() {
    let mut peer: Peer<u32, u32, u32> = Peer::new("p".to_string());
    peer.set_transport(true, Transport { id: "s".to_string(), handle: 1 });
    peer.set_transport(false, Transport { id: "r".to_string(), handle: 2 });
    assert_eq!(peer.find_transport(&"s".to_string()), Some(true));
    assert_eq!(peer.find_transport(&"r".to_string()), Some(false));
    assert_eq!(peer.find_transport(&"x".to_string()), None);
    assert_eq!(peer.send_transport().unwrap().handle, 1);
    assert_eq!(peer.recv_transport().unwrap().handle, 2);
}

#[test]
fn send_transport_wins_when_both_match() {
    let mut peer: Peer<u32, u32, u32> = Peer::new("p".to_string());
    peer.set_transport(true, Transport { id: "same".to_string(), handle: 1 });
    peer.set_transport(false, Transport { id: "same".to_string(), handle: 2 });
    assert_eq!(peer.find_transport(&"same".to_string()), Some(true));
}

#[test]
fn consumer_replaced_under_same_id() {
    let mut peer: Peer<u32, u32, u32> = Peer::new("p".to_string());
    peer.add_consumer(Consumer { id: "c".to_string(), handle: 1 });
    peer.add_consumer(Consumer { id: "c".to_string(), handle: 2 });
    assert_eq!(peer.consumer(&"c".to_string()).unwrap().handle, 2);
}

#[test]
fn room_add_get_remove() {
    let mut room: Room<u32, u32, u32> = Room::new("r".to_string());
    assert!(room.is_empty());
    room.add_peer("a".to_string());
    room.add_peer("b".to_string());
    assert!(room.get_peer("a").is_some());
    assert!(room.get_peer("c").is_none());
    assert!(room.remove_peer("a").is_some());
    assert!(room.get_peer("a").is_none());
    assert!(room.remove_peer("a").is_none());
    assert!(!room.is_empty());
    assert!(room.remove_peer("b").is_some());
    assert!(room.is_empty());
}

#[test]
fn re_adding_a_peer_makes_it_fresh() {
    let mut room: Room<u32, u32, u32> = Room::new("r".to_string());
    room.add_peer("a".to_string());
    room.set_transport("a", true, Transport { id: "t".to_string(), handle: 1 });
    assert!(room.get_peer("a").unwrap().send_transport().is_some());
    room.add_peer("a".to_string());
    assert!(room.get_peer("a").unwrap().send_transport().is_none());
}

#[test]
fn get_peer_mut_changes_the_peer() {
    let mut room: Room<u32, u32, u32> = Room::new("r".to_string());
    room.add_peer("a".to_string());
    room.get_peer_mut("a").unwrap().set_transport(false, Transport { id: "t".to_string(), handle: 3 });
    assert_eq!(room.get_peer("a").unwrap().recv_transport().unwrap().id, "t");
    assert!(room.get_peer_mut("zz").is_none());
}

#[test]
fn producer_listing_excludes_the_asking_peer() {
    let mut room: Room<u32, u32, u32> = Room::new("r".to_string());
    room.add_peer("a".to_string());
    room.add_peer("b".to_string());
    room.add_producer("a", producer("pa1", MediaKind::Audio));
    room.add_producer("a", producer("pa2", MediaKind::Video));
    room.add_producer("b", producer("pb1", MediaKind::Video));
    let for_b = room.get_producer_peer_ids("b");
    assert_eq!(
        for_b,
        vec![
            ("a".to_string(), "pa1".to_string(), "audio".to_string()),
            ("a".to_string(), "pa2".to_string(), "video".to_string()),
        ]
    );
    let for_a = room.get_producer_peer_ids("a");
    assert_eq!(for_a, vec![("b".to_string(), "pb1".to_string(), "video".to_string())]);
    let all = room.get_producer_peer_ids("");
    assert_eq!(all.len(), 3);
}

#[test]
fn producer_for_missing_peer_is_dropped() {
    let mut room: Room<u32, u32, u32> = Room::new("r".to_string());
    room.add_peer("a".to_string());
    room.add_producer("ghost", producer("p", MediaKind::Audio));
    assert!(room.get_producer_peer_ids("").is_empty());
}

#[test]
fn media_kind_names() {
    assert_eq!(MediaKind::Audio.as_str(), "audio");
    assert_eq!(MediaKind::Video.as_str(), "video");
}

#[test]
fn rooms_open_on_join_and_close_when_empty() {
    let mut rooms: TestRooms = create_rooms();
    assert!(rooms.get_room("r").is_none());
    rooms.join("r", "a");
    rooms.join("r", "b");
    assert!(rooms.get_room("r").is_some());
    rooms.leave("r", "a");
    assert!(rooms.get_room("r").is_some());
    rooms.leave("r", "b");
    assert!(rooms.get_room("r").is_none());
    rooms.leave("nowhere", "b");
    assert!(rooms.get_room("nowhere").is_none());
}

#[test]
fn admitted_peer_gets_a_uuid() {
    let mut rooms: TestRooms = create_rooms();
    let id = rooms.admit_peer("r");
    assert_eq!(id.len(), 36);
    for (i, c) in id.chars().enumerate() {
        if i == 8 || i == 13 || i == 18 || i == 23 {
            assert_eq!(c, '-');
        } else {
            assert!(c.is_ascii_digit() || ('a'..='f').contains(&c));
        }
    }
    assert_eq!(id.chars().nth(14), Some('4'));
    assert!("89ab".contains(id.chars().nth(19).unwrap()));
    assert!(rooms.get_room("r").unwrap().get_peer(&id).is_some());
    let other = rooms.admit_peer("r");
    assert_ne!(id, other);
}

#[test]
fn producer_lines_of_missing_room_are_empty() {
    let rooms: TestRooms = create_rooms();
    assert!(rooms.producer_lines("r", "a").is_empty());
}

#[test]
fn rooms_find_transport_and_consumer() {
    let mut rooms: TestRooms = create_rooms();
    rooms.join("r", "a");
    rooms.set_transport("r", "a", false, Transport { id: "rt".to_string(), handle: 5 });
    assert_eq!(rooms.find_transport("r", "a", &"rt".to_string()), Some(false));
    assert_eq!(rooms.find_transport("r", "b", &"rt".to_string()), None);
    assert_eq!(rooms.transport("r", "a", false).unwrap().handle, 5);
    assert!(rooms.transport("r", "a", true).is_none());
    rooms.add_consumer("r", "a", Consumer { id: "c1".to_string(), handle: 9 });
    assert_eq!(rooms.consumer("r", "a", &"c1".to_string()).unwrap().handle, 9);
    assert!(rooms.consumer("r", "a", &"c2".to_string()).is_none());
}

#[test]
fn broadcast_skips_the_sender() {
    let mut channels: PeerChannels<u32> = PeerChannels::new();
    register_peer_channel(&mut channels, "r", "a", 1);
    register_peer_channel(&mut channels, "r", "b", 2);
    register_peer_channel(&mut channels, "r", "c", 3);
    register_peer_channel(&mut channels, "s", "d", 4);
    let targets: Vec<u32> = broadcast_to_room_exclude(&channels, "r", "b").into_iter().copied().collect();
    assert_eq!(targets, vec![1, 3]);
    let none: Vec<&u32> = broadcast_to_room_exclude(&channels, "x", "b");
    assert!(none.is_empty());
}

#[test]
fn reregistering_replaces_the_channel() {
    let mut channels: PeerChannels<u32> = PeerChannels::new();
    register_peer_channel(&mut channels, "r", "a", 1);
    register_peer_channel(&mut channels, "r", "a", 7);
    let targets: Vec<u32> = broadcast_to_room_exclude(&channels, "r", "").into_iter().copied().collect();
    assert_eq!(targets, vec![7]);
}

#[test]
fn unregistering_the_last_channel_drops_the_room() {
    let mut channels: PeerChannels<u32> = PeerChannels::new();
    register_peer_channel(&mut channels, "r", "a", 1);
    register_peer_channel(&mut channels, "r", "b", 2);
    unregister_peer_channel(&mut channels, "r", "a");
    let targets: Vec<u32> = broadcast_to_room_exclude(&channels, "r", "").into_iter().copied().collect();
    assert_eq!(targets, vec![2]);
    unregister_peer_channel(&mut channels, "r", "b");
    assert!(broadcast_to_room_exclude(&channels, "r", "").is_empty());
    register_peer_channel(&mut channels, "r", "c", 3);
    let targets: Vec<u32> = broadcast_to_room_exclude(&channels, "r", "").into_iter().copied().collect();
    assert_eq!(targets, vec![3]);
}

#[test]
fn disconnect_cleans_up_and_announces() {
    let mut rooms: TestRooms = create_rooms();
    let mut channels: PeerChannels<u32> = PeerChannels::new();
    rooms.join("r", "a");
    rooms.join("r", "b");
    register_peer_channel(&mut channels, "r", "a", 1);
    register_peer_channel(&mut channels, "r", "b", 2);
    let notice = disconnect(&mut rooms, &mut channels, "r", "a");
    assert_eq!(notice.method, "peerClosed");
    match notice.data {
        NotificationData::PeerClosed { peer_id } => assert_eq!(peer_id, "a"),
        _ => panic!("wrong notification"),
    }
    let targets: Vec<u32> = broadcast_to_room_exclude(&channels, "r", "a").into_iter().copied().collect();
    assert_eq!(targets, vec![2]);
    assert!(rooms.get_room("r").unwrap().get_peer("a").is_none());
    disconnect(&mut rooms, &mut channels, "r", "b");
    assert!(rooms.get_room("r").is_none());
}

#[test]
fn departed_peer_disappears_from_listings() {
    let mut rooms: TestRooms = create_rooms();
    rooms.join("r", "a");
    rooms.join("r", "b");
    rooms.add_producer("r", "a", producer("pa", MediaKind::Audio));
    assert_eq!(rooms.producer_lines("r", "b").len(), 1);
    rooms.leave("r", "a");
    assert!(rooms.producer_lines("r", "b").is_empty());
}
