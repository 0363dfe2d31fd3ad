use axum_rtc::media::{Consumer, MediaKind, Producer, Transport};
use axum_rtc::messages::{MessageFields, NotificationData, ResponseData, ServerNotification, SignalingMessage, SignalingResponse};
use axum_rtc::rooms::{create_rooms, Rooms};
use axum_rtc::signaling::{consume_parsed, parse_method, resume_parsed, Effect, Exchange, Method, Outcome, Stage, Step};

type TestRooms = Rooms<u32, u32, u32>;
type TestOutcome = Outcome<u32, u32, u32, String>;

const UUID_A: &str = "67e55044-10b1-426f-9247-bb680e5fe0c8";
const UUID_A_UPPER: &str = "67E55044-10B1-426F-9247-BB680E5FE0C8";

fn request(id: u64, method: &str) -> SignalingMessage {
    SignalingMessage {
        id: Some(id),
        method: Some(method.to_string()),
        data: MessageFields { direction: None, transport_id: None, producer_id: None, consumer_id: None },
    }
}

fn start(msg: &SignalingMessage, rooms: &TestRooms, peer: &str) -> (Exchange, Step<String>) {
    Exchange::start::<u32, u32, u32, String>(msg, rooms, "room", peer)
}

fn step(ex: &mut Exchange, outcome: TestOutcome, rooms: &mut TestRooms, peer: &str) -> Step<String> {
    assert!(ex.accepts(&outcome));
    ex.advance(outcome, rooms, "room", peer)
}

fn replied(step: Step<String>) -> (SignalingResponse<String>, Option<ServerNotification>) {
    match step {
        Step::Reply { response, notify } => (response, notify),
        _ => panic!("expected a reply"),
    }
}

fn failed_with(step: Step<String>, id: u64, message: &str) {
    let (response, notify) = replied(step);
    assert_eq!(response.id, Some(id));
    assert!(!response.ok);
    assert!(response.data.is_none());
    assert_eq!(response.error.as_deref(), Some(message));
    assert!(notify.is_none());
}

fn succeeded(step: Step<String>, id: u64) -> (Option<ResponseData<String>>, Option<ServerNotification>) {
    let (response, notify) = replied(step);
    assert_eq!(response.id, Some(id));
    assert!(response.ok);
    assert!(response.error.is_none());
    (response.data, notify)
}

fn two_peers() -> TestRooms {
    let mut rooms: TestRooms = create_rooms();
    rooms.join("room", "a");
    rooms.join("room", "b");
    rooms
}

fn give_transport(rooms: &mut TestRooms, peer: &str, send: bool, id: &str) {
    let mut msg = request(1, "createWebRtcTransport");
    msg.data.direction = Some(if send { "send" } else { "recv" }.to_string());
    let (mut ex, first) = start(&msg, rooms, peer);
    assert!(matches!(first, Step::Perform(Effect::CreateTransport { send: s }) if s == send));
    let t = Transport { id: id.to_string(), handle: 1 };
    succeeded(step(&mut ex, Outcome::TransportCreated(Ok((t, "params".to_string()))), rooms, peer), 1);
}

#[test]
fn method_names() {
    assert_eq!(parse_method(&"getRouterRtpCapabilities".to_string()), Method::GetRouterRtpCapabilities);
    assert_eq!(parse_method(&"createWebRtcTransport".to_string()), Method::CreateWebRtcTransport);
    assert_eq!(parse_method(&"connectTransport".to_string()), Method::ConnectTransport);
    assert_eq!(parse_method(&"produce".to_string()), Method::Produce);
    assert_eq!(parse_method(&"consume".to_string()), Method::Consume);
    assert_eq!(parse_method(&"resumeConsumer".to_string()), Method::ResumeConsumer);
    assert_eq!(parse_method(&"getProducers".to_string()), Method::GetProducers);
    assert_eq!(parse_method(&"Produce".to_string()), Method::Unknown);
}

#[test]
fn request_without_method_gets_no_answer() {
    let rooms = two_peers();
    let mut msg = request(4, "x");
    msg.method = None;
    let (ex, first) = start(&msg, &rooms, "a");
    assert!(matches!(first, Step::Silent));
    assert!(!ex.accepts(&TestOutcome::Consumable(true)));
}

#[test]
fn unknown_method_is_refused() {
    let rooms = two_peers();
    let (_, first) = start(&request(9, "dance"), &rooms, "a");
    failed_with(first, 9, "Unknown method: dance");
}

#[test]
fn router_capabilities_are_passed_through() {
    let mut rooms = two_peers();
    let (mut ex, first) = start(&request(2, "getRouterRtpCapabilities"), &rooms, "a");
    assert!(matches!(first, Step::Perform(Effect::ReadRtpCapabilities)));
    let (data, _) = succeeded(step(&mut ex, Outcome::RtpCapabilities("caps".to_string()), &mut rooms, "a"), 2);
    assert!(matches!(data, Some(ResponseData::Payload(ref d)) if d == "caps"));
}

#[test]
fn transport_direction_defaults_to_send() {
    let rooms = two_peers();
    let (_, first) = start(&request(1, "createWebRtcTransport"), &rooms, "a");
    assert!(matches!(first, Step::Perform(Effect::CreateTransport { send: true })));
    let mut msg = request(1, "createWebRtcTransport");
    msg.data.direction = Some("anything".to_string());
    let (_, first) = start(&msg, &rooms, "a");
    assert!(matches!(first, Step::Perform(Effect::CreateTransport { send: false })));
}

#[test]
fn transport_creation_failure_is_reported() {
    let mut rooms = two_peers();
    let (mut ex, _) = start(&request(3, "createWebRtcTransport"), &rooms, "a");
    failed_with(step(&mut ex, Outcome::TransportCreated(Err("no ports".to_string())), &mut rooms, "a"), 3, "no ports");
    assert!(rooms.transport("room", "a", true).is_none());
}

#[test]
fn created_transport_is_stored_by_direction() {
    let mut rooms = two_peers();
    give_transport(&mut rooms, "a", true, "ts");
    give_transport(&mut rooms, "a", false, "tr");
    assert_eq!(rooms.transport("room", "a", true).unwrap().id, "ts");
    assert_eq!(rooms.transport("room", "a", false).unwrap().id, "tr");
}

#[test]
fn connect_checks_dtls_then_transport() {
    let mut rooms = two_peers();
    give_transport(&mut rooms, "a", false, "tr");

    let mut msg = request(5, "connectTransport");
    msg.data.transport_id = Some("tr".to_string());
    let (mut ex, first) = start(&msg, &rooms, "a");
    assert!(matches!(first, Step::Perform(Effect::ParseDtlsParameters)));
    failed_with(step(&mut ex, Outcome::Parsed(Err("bad".to_string())), &mut rooms, "a"), 5, "Invalid DTLS parameters: bad");

    let (mut ex, _) = start(&msg, &rooms, "a");
    let next = step(&mut ex, Outcome::Parsed(Ok(())), &mut rooms, "a");
    assert!(matches!(next, Step::Perform(Effect::Connect { send: false })));
    let (data, _) = succeeded(step(&mut ex, Outcome::Connected(Ok(())), &mut rooms, "a"), 5);
    assert!(data.is_none());

    let (mut ex, _) = start(&msg, &rooms, "a");
    step(&mut ex, Outcome::Parsed(Ok(())), &mut rooms, "a");
    failed_with(step(&mut ex, Outcome::Connected(Err("dtls failed".to_string())), &mut rooms, "a"), 5, "dtls failed");

    let mut other = request(6, "connectTransport");
    other.data.transport_id = Some("nope".to_string());
    let (mut ex, _) = start(&other, &rooms, "a");
    failed_with(step(&mut ex, Outcome::Parsed(Ok(())), &mut rooms, "a"), 6, "Transport not found");

    let (mut ex, _) = start(&request(7, "connectTransport"), &rooms, "b");
    failed_with(step(&mut ex, Outcome::Parsed(Ok(())), &mut rooms, "b"), 7, "Transport not found");
}

#[test]
fn produce_needs_a_send_transport() {
    let mut rooms = two_peers();
    let (mut ex, first) = start(&request(8, "produce"), &rooms, "a");
    assert!(matches!(first, Step::Perform(Effect::ParseMediaKind)));
    let next = step(&mut ex, Outcome::KindParsed(Ok(MediaKind::Audio)), &mut rooms, "a");
    assert!(matches!(next, Step::Perform(Effect::ParseRtpParameters)));
    failed_with(step(&mut ex, Outcome::Parsed(Ok(())), &mut rooms, "a"), 8, "Send transport not found");
}

#[test]
fn produce_reports_parse_errors_in_order() {
    let mut rooms = two_peers();
    let (mut ex, _) = start(&request(8, "produce"), &rooms, "a");
    failed_with(step(&mut ex, Outcome::KindParsed(Err("unknown variant".to_string())), &mut rooms, "a"), 8, "Invalid media kind: unknown variant");
    let (mut ex, _) = start(&request(8, "produce"), &rooms, "a");
    step(&mut ex, Outcome::KindParsed(Ok(MediaKind::Video)), &mut rooms, "a");
    failed_with(step(&mut ex, Outcome::Parsed(Err("missing codecs".to_string())), &mut rooms, "a"), 8, "Invalid RTP parameters: missing codecs");
}

#[test]
fn produced_media_is_announced_and_listed_to_others() {
    let mut rooms = two_peers();
    give_transport(&mut rooms, "a", true, "ts");
    let (mut ex, _) = start(&request(10, "produce"), &rooms, "a");
    step(&mut ex, Outcome::KindParsed(Ok(MediaKind::Video)), &mut rooms, "a");
    let next = step(&mut ex, Outcome::Parsed(Ok(())), &mut rooms, "a");
    assert!(matches!(next, Step::Perform(Effect::Produce { kind: MediaKind::Video })));
    let p = Producer { id: "prod-1".to_string(), kind: MediaKind::Video, handle: 4 };
    let (data, notify) = succeeded(step(&mut ex, Outcome::Produced(Ok(p)), &mut rooms, "a"), 10);
    assert!(matches!(data, Some(ResponseData::ProducerId(ref id)) if id == "prod-1"));
    let notify = notify.expect("a notification");
    assert_eq!(notify.method, "newProducer");
    match notify.data {
        NotificationData::NewProducer { peer_id, producer_id, kind } => {
            assert_eq!(peer_id, "a");
            assert_eq!(producer_id, "prod-1");
            assert_eq!(kind, MediaKind::Video);
        },
        _ => panic!("wrong notification"),
    }

    let (_, listing) = start(&request(11, "getProducers"), &rooms, "b");
    let (data, _) = succeeded(listing, 11);
    match data {
        Some(ResponseData::Producers(lines)) => {
            assert_eq!(lines, vec![("a".to_string(), "prod-1".to_string(), "video".to_string())])
        },
        _ => panic!("expected a listing"),
    }
    let (_, own) = start(&request(12, "getProducers"), &rooms, "a");
    let (data, _) = succeeded(own, 12);
    assert!(matches!(data, Some(ResponseData::Producers(ref lines)) if lines.is_empty()));
}

#[test]
fn produce_failure_is_reported() {
    let mut rooms = two_peers();
    give_transport(&mut rooms, "a", true, "ts");
    let (mut ex, _) = start(&request(13, "produce"), &rooms, "a");
    step(&mut ex, Outcome::KindParsed(Ok(MediaKind::Audio)), &mut rooms, "a");
    step(&mut ex, Outcome::Parsed(Ok(())), &mut rooms, "a");
    failed_with(step(&mut ex, Outcome::Produced(Err("rejected".to_string())), &mut rooms, "a"), 13, "rejected");
    assert!(rooms.producer_lines("room", "b").is_empty());
}

#[test]
fn consume_checks_in_order() {
    let mut rooms = two_peers();
    let mut msg = request(20, "consume");
    let (mut ex, first) = start(&msg, &rooms, "b");
    assert!(matches!(first, Step::Perform(Effect::ParseRtpCapabilities)));
    failed_with(step(&mut ex, Outcome::Parsed(Err("no codecs".to_string())), &mut rooms, "b"), 20, "Invalid RTP capabilities: no codecs");

    let (mut ex, _) = start(&msg, &rooms, "b");
    failed_with(step(&mut ex, Outcome::Parsed(Ok(())), &mut rooms, "b"), 20, "Invalid producer ID format: invalid length: found 0");

    msg.data.producer_id = Some(UUID_A_UPPER.to_string());
    let (mut ex, _) = start(&msg, &rooms, "b");
    let next = step(&mut ex, Outcome::Parsed(Ok(())), &mut rooms, "b");
    assert!(matches!(next, Step::Perform(Effect::CheckConsumable { ref producer_id }) if producer_id == UUID_A));
    failed_with(step(&mut ex, Outcome::Consumable(false), &mut rooms, "b"), 20, "Cannot consume (codec mismatch or producer not found)");

    let (mut ex, _) = start(&msg, &rooms, "b");
    step(&mut ex, Outcome::Parsed(Ok(())), &mut rooms, "b");
    failed_with(step(&mut ex, Outcome::Consumable(true), &mut rooms, "b"), 20, "Recv transport not found");
}

#[test]
fn consume_reply_echoes_the_requested_producer_text() {
    let mut rooms = two_peers();
    give_transport(&mut rooms, "b", false, "tr");
    let mut msg = request(24, "consume");
    msg.data.producer_id = Some(UUID_A_UPPER.to_string());
    let (mut ex, _) = start(&msg, &rooms, "b");
    step(&mut ex, Outcome::Parsed(Ok(())), &mut rooms, "b");
    let next = step(&mut ex, Outcome::Consumable(true), &mut rooms, "b");
    assert!(matches!(next, Step::Perform(Effect::Consume { ref producer_id, paused: true }) if producer_id == UUID_A));
    let c = Consumer { id: "c".to_string(), handle: 1 };
    let (data, _) = succeeded(step(&mut ex, Outcome::Consumed(Ok((c, MediaKind::Video, "rtp".to_string()))), &mut rooms, "b"), 24);
    assert!(matches!(data, Some(ResponseData::Consumer { ref producer_id, .. }) if producer_id == UUID_A_UPPER));
    assert!(rooms.consumer("room", "b", &"c".to_string()).is_some());
}

#[test]
fn consumed_media_is_stored_then_resumed() {
    let mut rooms = two_peers();
    give_transport(&mut rooms, "b", false, "tr");
    let mut msg = request(21, "consume");
    msg.data.producer_id = Some(UUID_A.to_string());
    let (mut ex, _) = start(&msg, &rooms, "b");
    step(&mut ex, Outcome::Parsed(Ok(())), &mut rooms, "b");
    let next = step(&mut ex, Outcome::Consumable(true), &mut rooms, "b");
    assert!(matches!(next, Step::Perform(Effect::Consume { ref producer_id, paused: true }) if producer_id == UUID_A));
    let consumer_id = "0f1e2d3c-4b5a-4978-8695-a4b3c2d1e0f9";
    let c = Consumer { id: consumer_id.to_string(), handle: 6 };
    let (data, _) = succeeded(step(&mut ex, Outcome::Consumed(Ok((c, MediaKind::Audio, "rtp".to_string()))), &mut rooms, "b"), 21);
    match data {
        Some(ResponseData::Consumer { consumer_id: cid, producer_id, kind, rtp_parameters }) => {
            assert_eq!(cid, consumer_id);
            assert_eq!(producer_id, UUID_A);
            assert_eq!(kind, MediaKind::Audio);
            assert_eq!(rtp_parameters, "rtp");
        },
        _ => panic!("expected consumer data"),
    }

    let mut resume = request(22, "resumeConsumer");
    resume.data.consumer_id = Some(consumer_id.to_uppercase());
    let (mut ex, first) = start(&resume, &rooms, "b");
    assert!(matches!(first, Step::Perform(Effect::Resume { ref consumer_id }) if consumer_id == "0f1e2d3c-4b5a-4978-8695-a4b3c2d1e0f9"));
    let (data, _) = succeeded(step(&mut ex, Outcome::Resumed(Ok(())), &mut rooms, "b"), 22);
    assert!(data.is_none());

    let (mut ex, _) = start(&resume, &rooms, "b");
    failed_with(step(&mut ex, Outcome::Resumed(Err("closed".to_string())), &mut rooms, "b"), 22, "closed");
}

#[test]
fn consume_failure_stores_nothing() {
    let mut rooms = two_peers();
    give_transport(&mut rooms, "b", false, "tr");
    let mut msg = request(23, "consume");
    msg.data.producer_id = Some(UUID_A.to_string());
    let (mut ex, _) = start(&msg, &rooms, "b");
    step(&mut ex, Outcome::Parsed(Ok(())), &mut rooms, "b");
    step(&mut ex, Outcome::Consumable(true), &mut rooms, "b");
    failed_with(step(&mut ex, Outcome::Consumed(Err("paused".to_string())), &mut rooms, "b"), 23, "paused");
    assert!(rooms.consumer("room", "b", &UUID_A.to_string()).is_none());
}

#[test]
fn resume_refuses_bad_or_unknown_consumers() {
    let rooms = two_peers();
    let (_, first) = start(&request(30, "resumeConsumer"), &rooms, "a");
    failed_with(first, 30, "Invalid consumer ID format: invalid length: found 0");
    let mut msg = request(31, "resumeConsumer");
    msg.data.consumer_id = Some(UUID_A.to_string());
    let (_, first) = start(&msg, &rooms, "a");
    failed_with(first, 31, "Consumer not found");
}

#[test]
fn get_producers_outside_any_room_is_empty() {
    let rooms: TestRooms = create_rooms();
    let (ex, first) = start(&request(40, "getProducers"), &rooms, "a");
    let (data, _) = succeeded(first, 40);
    assert!(matches!(data, Some(ResponseData::Producers(ref lines)) if lines.is_empty()));
    assert!(!ex.accepts(&TestOutcome::Resumed(Ok(()))));
}

#[test]
fn response_without_id_keeps_none() {
    let rooms = two_peers();
    let mut msg = request(0, "dance");
    msg.id = None;
    let (_, first) = start(&msg, &rooms, "a");
    let (response, _) = replied(first);
    assert_eq!(response.id, None);
}

#[test]
fn malformed_consumer_id_is_reported_with_its_reason() {
    let rooms = two_peers();
    let mut msg = request(32, "resumeConsumer");
    msg.data.consumer_id = Some("not-a-uuid".to_string());
    let (_, first) = start(&msg, &rooms, "a");
    failed_with(first, 32, "Invalid consumer ID format: invalid character: found `n` at 0");
}

#[test]
fn resume_parsed_goes_by_the_parse_result() {
    let mut rooms = two_peers();
    rooms.add_consumer("room", "b", Consumer { id: "c1".to_string(), handle: 3 });
    let (stage, next) = resume_parsed::<u32, u32, u32, String>(Some(50), Err("bad".to_string()), &rooms, "room", "b");
    assert!(matches!(stage, Stage::Done));
    failed_with(next, 50, "Invalid consumer ID format: bad");
    let (stage, next) = resume_parsed::<u32, u32, u32, String>(Some(51), Ok("c1".to_string()), &rooms, "room", "b");
    assert!(matches!(stage, Stage::AwaitResume));
    assert!(matches!(next, Step::Perform(Effect::Resume { ref consumer_id }) if consumer_id == "c1"));
    let (stage, next) = resume_parsed::<u32, u32, u32, String>(Some(52), Ok("c1".to_string()), &rooms, "room", "a");
    assert!(matches!(stage, Stage::Done));
    failed_with(next, 52, "Consumer not found");
}

#[test]
fn consume_parsed_goes_by_the_parse_result() {
    let (stage, next) = consume_parsed::<String>(Some(60), Err("bad".to_string()), "P".to_string());
    assert!(matches!(stage, Stage::Done));
    failed_with(next, 60, "Invalid producer ID format: bad");
    let (stage, next) = consume_parsed::<String>(Some(61), Ok("p".to_string()), "P".to_string());
    assert!(matches!(stage, Stage::AwaitConsumable { ref producer_id, ref requested } if producer_id == "p" && requested == "P"));
    assert!(matches!(next, Step::Perform(Effect::CheckConsumable { ref producer_id }) if producer_id == "p"));
}

#[test]
fn stored_consumer_is_found_again_by_its_text() {
    let mut rooms = two_peers();
    rooms.add_consumer("room", "b", Consumer { id: UUID_A.to_string(), handle: 4 });
    let mut msg = request(70, "resumeConsumer");
    msg.data.consumer_id = Some(UUID_A.to_string());
    let (_, first) = start(&msg, &rooms, "b");
    assert!(matches!(first, Step::Perform(Effect::Resume { ref consumer_id }) if consumer_id == UUID_A));
}
