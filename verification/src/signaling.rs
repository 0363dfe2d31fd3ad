//! How a signalling request is handled: a request starts an exchange; the
//! exchange tells the caller which outside work to perform (parse an SFU
//! parameter, create or connect a transport, produce, consume, resume) and,
//! fed the outcome, decides the next step, until it answers the request.

use vstd::prelude::*;
use vstd::string::StringExecFns;
use crate::ids::{is_uuid_text, parse_uuid, uuid_parse};
use crate::media::{Consumer, MediaKind, Producer, Transport};
use crate::messages::{
    failure, new_producer, new_producer_view, respond_error, respond_ok, success, text_or_empty, DataView,
    NotificationView, ResponseData, ResponseView, ServerNotification, SignalingMessage, SignalingResponse,
};
use crate::peer::PeerView;
use crate::room::{alter_peer, RoomView};
use crate::rooms::{alter_room, consumer_of, peer_in, room_producers, transport_of, Rooms, RoomsView};

verus! {

/// The methods a request can name.
#[derive(Clone, Copy, PartialEq, Eq, Structural, Debug)]
pub enum Method {
    GetRouterRtpCapabilities,
    CreateWebRtcTransport,
    ConnectTransport,
    Produce,
    Consume,
    ResumeConsumer,
    GetProducers,
    Unknown,
}

/// The method a request's `method` text names.
pub open spec fn method_of(m: Seq<char>) -> Method {
    if m == "getRouterRtpCapabilities"@ {
        Method::GetRouterRtpCapabilities
    } else if m == "createWebRtcTransport"@ {
        Method::CreateWebRtcTransport
    } else if m == "connectTransport"@ {
        Method::ConnectTransport
    } else if m == "produce"@ {
        Method::Produce
    } else if m == "consume"@ {
        Method::Consume
    } else if m == "resumeConsumer"@ {
        Method::ResumeConsumer
    } else if m == "getProducers"@ {
        Method::GetProducers
    } else {
        Method::Unknown
    }
}

/// Whether a `createWebRtcTransport` request asks for a send transport: its
/// `direction` is `"send"` or absent.
pub open spec fn sends(direction: Option<String>) -> bool {
    match direction {
        Some(d) => d@ == "send"@,
        None => true,
    }
}

fn same_text(a: &String, b: &str) -> (same: bool)
    ensures
        same == (a@ == b@),
{
    *a == b.to_owned()
}

fn prefixed(prefix: &str, rest: &String) -> (text: String)
    ensures
        text@ == prefix@ + rest@,
{
    let mut text = prefix.to_owned();
    text.append(rest.as_str());
    text
}

/// The method a request's `method` text names.
pub fn parse_method(m: &String) -> (method: Method)
    ensures
        method == method_of(m@),
{
    if same_text(m, "getRouterRtpCapabilities") {
        Method::GetRouterRtpCapabilities
    } else if same_text(m, "createWebRtcTransport") {
        Method::CreateWebRtcTransport
    } else if same_text(m, "connectTransport") {
        Method::ConnectTransport
    } else if same_text(m, "produce") {
        Method::Produce
    } else if same_text(m, "consume") {
        Method::Consume
    } else if same_text(m, "resumeConsumer") {
        Method::ResumeConsumer
    } else if same_text(m, "getProducers") {
        Method::GetProducers
    } else {
        Method::Unknown
    }
}

/// Outside work the caller performs for the exchange.
pub enum Effect {
    /// Read the router's RTP capabilities.
    ReadRtpCapabilities,
    /// Create a WebRTC transport for sending (`send`) or receiving.
    CreateTransport { send: bool },
    /// Parse the request's `dtlsParameters`.
    ParseDtlsParameters,
    /// Connect the peer's send (`send`) or receive transport with the parsed
    /// DTLS parameters.
    Connect { send: bool },
    /// Parse the request's `kind`.
    ParseMediaKind,
    /// Parse the request's `rtpParameters`.
    ParseRtpParameters,
    /// Produce media of `kind` on the peer's send transport.
    Produce { kind: MediaKind },
    /// Parse the request's `rtpCapabilities`.
    ParseRtpCapabilities,
    /// Ask the router whether producer `producer_id` can be consumed with
    /// the parsed capabilities.
    CheckConsumable { producer_id: String },
    /// Consume producer `producer_id` on the peer's receive transport,
    /// created paused when `paused`.
    Consume { producer_id: String, paused: bool },
    /// Resume the peer's consumer `consumer_id`.
    Resume { consumer_id: String },
}

/// Outside work seen as text.
pub enum EffectView {
    ReadRtpCapabilities,
    CreateTransport { send: bool },
    ParseDtlsParameters,
    Connect { send: bool },
    ParseMediaKind,
    ParseRtpParameters,
    Produce { kind: MediaKind },
    ParseRtpCapabilities,
    CheckConsumable { producer_id: Seq<char> },
    Consume { producer_id: Seq<char>, paused: bool },
    Resume { consumer_id: Seq<char> },
}

impl View for Effect {
    type V = EffectView;

    open spec fn view(&self) -> EffectView {
        match self {
            Effect::ReadRtpCapabilities => EffectView::ReadRtpCapabilities,
            Effect::CreateTransport { send } => EffectView::CreateTransport { send: *send },
            Effect::ParseDtlsParameters => EffectView::ParseDtlsParameters,
            Effect::Connect { send } => EffectView::Connect { send: *send },
            Effect::ParseMediaKind => EffectView::ParseMediaKind,
            Effect::ParseRtpParameters => EffectView::ParseRtpParameters,
            Effect::Produce { kind } => EffectView::Produce { kind: *kind },
            Effect::ParseRtpCapabilities => EffectView::ParseRtpCapabilities,
            Effect::CheckConsumable { producer_id } => EffectView::CheckConsumable { producer_id: producer_id@ },
            Effect::Consume { producer_id, paused } => EffectView::Consume { producer_id: producer_id@, paused: *paused },
            Effect::Resume { consumer_id } => EffectView::Resume { consumer_id: consumer_id@ },
        }
    }
}

/// What the caller does next.
pub enum Step<D> {
    /// The request gets no answer.
    Silent,
    /// Send `response` to the peer; send `notify`, if any, to the other
    /// peers of the room.
    Reply { response: SignalingResponse<D>, notify: Option<ServerNotification> },
    /// Perform the outside work and hand its outcome to the exchange.
    Perform(Effect),
}

/// The next step seen as text.
pub enum StepView<D> {
    Silent,
    Reply(ResponseView<D>, Option<NotificationView>),
    Perform(EffectView),
}

impl<D> View for Step<D> {
    type V = StepView<D>;

    open spec fn view(&self) -> StepView<D> {
        match self {
            Step::Silent => StepView::Silent,
            Step::Reply { response, notify } => StepView::Reply(
                response@,
                match notify {
                    Some(n) => Some(n@),
                    None => None,
                },
            ),
            Step::Perform(e) => StepView::Perform(e@),
        }
    }
}

/// The outcome of the outside work of an effect.
pub enum Outcome<T, P, C, D> {
    /// The router's capabilities, as the response payload.
    RtpCapabilities(D),
    /// The new transport and the response payload describing it, or the
    /// error's message.
    TransportCreated(Result<(Transport<T>, D), String>),
    /// A parameter parsed, or the parse error's message.
    Parsed(Result<(), String>),
    /// The parsed media kind, or the parse error's message.
    KindParsed(Result<MediaKind, String>),
    /// The transport connected, or the error's message.
    Connected(Result<(), String>),
    /// The new producer, or the error's message.
    Produced(Result<Producer<P>, String>),
    /// Whether the router can consume the producer.
    Consumable(bool),
    /// The new consumer, its media kind and its RTP parameters (as a
    /// payload), or the error's message.
    Consumed(Result<(Consumer<C>, MediaKind, D), String>),
    /// The consumer resumed, or the error's message.
    Resumed(Result<(), String>),
}

/// Where an exchange stands.
pub enum Stage {
    Done,
    AwaitCapabilities,
    AwaitTransport { send: bool },
    AwaitDtls { transport_id: String },
    AwaitConnect,
    AwaitKind,
    AwaitRtpParameters { kind: MediaKind },
    AwaitProduce { kind: MediaKind },
    AwaitRtpCapabilities { producer_id: String },
    AwaitConsumable { producer_id: String, requested: String },
    AwaitConsume { requested: String },
    AwaitResume,
}

/// Where an exchange stands, seen as text.
pub enum StageView {
    Done,
    AwaitCapabilities,
    AwaitTransport { send: bool },
    AwaitDtls { transport_id: Seq<char> },
    AwaitConnect,
    AwaitKind,
    AwaitRtpParameters { kind: MediaKind },
    AwaitProduce { kind: MediaKind },
    AwaitRtpCapabilities { producer_id: Seq<char> },
    AwaitConsumable { producer_id: Seq<char>, requested: Seq<char> },
    AwaitConsume { requested: Seq<char> },
    AwaitResume,
}

impl View for Stage {
    type V = StageView;

    open spec fn view(&self) -> StageView {
        match self {
            Stage::Done => StageView::Done,
            Stage::AwaitCapabilities => StageView::AwaitCapabilities,
            Stage::AwaitTransport { send } => StageView::AwaitTransport { send: *send },
            Stage::AwaitDtls { transport_id } => StageView::AwaitDtls { transport_id: transport_id@ },
            Stage::AwaitConnect => StageView::AwaitConnect,
            Stage::AwaitKind => StageView::AwaitKind,
            Stage::AwaitRtpParameters { kind } => StageView::AwaitRtpParameters { kind: *kind },
            Stage::AwaitProduce { kind } => StageView::AwaitProduce { kind: *kind },
            Stage::AwaitRtpCapabilities { producer_id } => StageView::AwaitRtpCapabilities { producer_id: producer_id@ },
            Stage::AwaitConsumable { producer_id, requested } => StageView::AwaitConsumable {
                producer_id: producer_id@,
                requested: requested@,
            },
            Stage::AwaitConsume { requested } => StageView::AwaitConsume { requested: requested@ },
            Stage::AwaitResume => StageView::AwaitResume,
        }
    }
}

/// Whether an exchange at `stage` waits for an outcome of this sort.
pub open spec fn stage_accepts<T, P, C, D>(stage: StageView, outcome: Outcome<T, P, C, D>) -> bool {
    match stage {
        StageView::Done => false,
        StageView::AwaitCapabilities => outcome is RtpCapabilities,
        StageView::AwaitTransport { .. } => outcome is TransportCreated,
        StageView::AwaitDtls { .. } => outcome is Parsed,
        StageView::AwaitConnect => outcome is Connected,
        StageView::AwaitKind => outcome is KindParsed,
        StageView::AwaitRtpParameters { .. } => outcome is Parsed,
        StageView::AwaitProduce { .. } => outcome is Produced,
        StageView::AwaitRtpCapabilities { .. } => outcome is Parsed,
        StageView::AwaitConsumable { .. } => outcome is Consumable,
        StageView::AwaitConsume { .. } => outcome is Consumed,
        StageView::AwaitResume => outcome is Resumed,
    }
}

/// A reply without notification.
pub open spec fn reply<D>(r: ResponseView<D>) -> StepView<D> {
    StepView::Reply(r, None)
}

/// The text of a parse result.
pub open spec fn text_result(r: Result<String, String>) -> Result<Seq<char>, Seq<char>> {
    match r {
        Ok(c) => Ok(c@),
        Err(e) => Err(e@),
    }
}

/// How a `resumeConsumer` request goes on once its `consumerId` text was
/// parsed to `parsed` (canonical identifier, or the parse error's message).
pub open spec fn resume_spec<T, P, C, D>(
    id: Option<u64>,
    parsed: Result<Seq<char>, Seq<char>>,
    rooms: RoomsView<T, P, C>,
    room_id: Seq<char>,
    peer_id: Seq<char>,
) -> (StageView, StepView<D>) {
    match parsed {
        Err(e) => (StageView::Done, reply(failure(id, "Invalid consumer ID format: "@ + e))),
        Ok(c) => if consumer_of(rooms, room_id, peer_id, c) is Some {
            (StageView::AwaitResume, StepView::Perform(EffectView::Resume { consumer_id: c }))
        } else {
            (StageView::Done, reply(failure(id, "Consumer not found"@)))
        },
    }
}

/// How a `consume` request goes on once the `producerId` text `requested`
/// was parsed to `parsed` (canonical identifier, or the parse error's
/// message).
pub open spec fn consume_spec<D>(id: Option<u64>, parsed: Result<Seq<char>, Seq<char>>, requested: Seq<char>) -> (StageView, StepView<D>) {
    match parsed {
        Err(e) => (StageView::Done, reply(failure(id, "Invalid producer ID format: "@ + e))),
        Ok(c) => (
            StageView::AwaitConsumable { producer_id: c, requested },
            StepView::Perform(EffectView::CheckConsumable { producer_id: c }),
        ),
    }
}

/// How a request starts: the stage the exchange enters and the first step.
pub open spec fn start_spec<T, P, C, D>(msg: SignalingMessage, rooms: RoomsView<T, P, C>, room_id: Seq<char>, peer_id: Seq<char>) -> (StageView, StepView<D>) {
    let id = msg.id;
    match msg.method {
        None => (StageView::Done, StepView::Silent),
        Some(m) => match method_of(m@) {
            Method::GetRouterRtpCapabilities => (
                StageView::AwaitCapabilities,
                StepView::Perform(EffectView::ReadRtpCapabilities),
            ),
            Method::CreateWebRtcTransport => {
                let send = sends(msg.data.direction);
                (StageView::AwaitTransport { send }, StepView::Perform(EffectView::CreateTransport { send }))
            },
            Method::ConnectTransport => (
                StageView::AwaitDtls { transport_id: text_or_empty(msg.data.transport_id) },
                StepView::Perform(EffectView::ParseDtlsParameters),
            ),
            Method::Produce => (StageView::AwaitKind, StepView::Perform(EffectView::ParseMediaKind)),
            Method::Consume => (
                StageView::AwaitRtpCapabilities { producer_id: text_or_empty(msg.data.producer_id) },
                StepView::Perform(EffectView::ParseRtpCapabilities),
            ),
            Method::ResumeConsumer => resume_spec(id, uuid_parse(text_or_empty(msg.data.consumer_id)), rooms, room_id, peer_id),
            Method::GetProducers => (
                StageView::Done,
                reply(success(id, Some(DataView::Producers(room_producers(rooms, room_id, peer_id))))),
            ),
            Method::Unknown => (StageView::Done, reply(failure(id, "Unknown method: "@ + m@))),
        },
    }
}

/// The peer `peer_id` of room `room_id` exists and has a send (`send`) or
/// receive transport.
pub open spec fn has_transport<T, P, C>(rooms: RoomsView<T, P, C>, room_id: Seq<char>, peer_id: Seq<char>, send: bool) -> bool {
    transport_of(rooms, room_id, peer_id, send) is Some
}

/// The rooms with peer `peer_id` of room `room_id` changed by `f`.
pub open spec fn alter<T, P, C>(
    rooms: RoomsView<T, P, C>,
    room_id: Seq<char>,
    peer_id: Seq<char>,
    f: spec_fn(PeerView<T, P, C>) -> PeerView<T, P, C>,
) -> RoomsView<T, P, C> {
    alter_room(rooms, room_id, |r: RoomView<T, P, C>| alter_peer(r, peer_id, f))
}

/// How an exchange at `stage` goes on from `outcome`: the next stage, the
/// next step and the rooms afterwards.
pub open spec fn advance_spec<T, P, C, D>(
    stage: StageView,
    outcome: Outcome<T, P, C, D>,
    rooms: RoomsView<T, P, C>,
    room_id: Seq<char>,
    peer_id: Seq<char>,
    id: Option<u64>,
) -> (StageView, StepView<D>, RoomsView<T, P, C>) {
    let done = StageView::Done;
    match (stage, outcome) {
        (StageView::AwaitCapabilities, Outcome::RtpCapabilities(d)) => (
            done,
            reply(success(id, Some(DataView::Payload(d)))),
            rooms,
        ),
        (StageView::AwaitTransport { send }, Outcome::TransportCreated(r)) => match r {
            Ok((t, d)) => (
                done,
                reply(success(id, Some(DataView::Payload(d)))),
                alter(rooms, room_id, peer_id, |q: PeerView<T, P, C>| q.with_transport(send, t)),
            ),
            Err(e) => (done, reply(failure(id, e@)), rooms),
        },
        (StageView::AwaitDtls { transport_id }, Outcome::Parsed(r)) => match r {
            Err(e) => (done, reply(failure(id, "Invalid DTLS parameters: "@ + e@)), rooms),
            Ok(_) => match peer_in(rooms, room_id, peer_id) {
                Some(p) => match p.transport_named(transport_id) {
                    Some(send) => (StageView::AwaitConnect, StepView::Perform(EffectView::Connect { send }), rooms),
                    None => (done, reply(failure(id, "Transport not found"@)), rooms),
                },
                None => (done, reply(failure(id, "Transport not found"@)), rooms),
            },
        },
        (StageView::AwaitConnect, Outcome::Connected(r)) => match r {
            Ok(_) => (done, reply(success(id, None)), rooms),
            Err(e) => (done, reply(failure(id, e@)), rooms),
        },
        (StageView::AwaitKind, Outcome::KindParsed(r)) => match r {
            Err(e) => (done, reply(failure(id, "Invalid media kind: "@ + e@)), rooms),
            Ok(kind) => (StageView::AwaitRtpParameters { kind }, StepView::Perform(EffectView::ParseRtpParameters), rooms),
        },
        (StageView::AwaitRtpParameters { kind }, Outcome::Parsed(r)) => match r {
            Err(e) => (done, reply(failure(id, "Invalid RTP parameters: "@ + e@)), rooms),
            Ok(_) => if has_transport(rooms, room_id, peer_id, true) {
                (StageView::AwaitProduce { kind }, StepView::Perform(EffectView::Produce { kind }), rooms)
            } else {
                (done, reply(failure(id, "Send transport not found"@)), rooms)
            },
        },
        (StageView::AwaitProduce { kind }, Outcome::Produced(r)) => match r {
            Ok(p) => (
                done,
                StepView::Reply(
                    success(id, Some(DataView::ProducerId(p.id@))),
                    Some(new_producer_view(peer_id, p.id@, kind)),
                ),
                alter(rooms, room_id, peer_id, |q: PeerView<T, P, C>| q.with_producer(p)),
            ),
            Err(e) => (done, reply(failure(id, e@)), rooms),
        },
        (StageView::AwaitRtpCapabilities { producer_id }, Outcome::Parsed(r)) => match r {
            Err(e) => (done, reply(failure(id, "Invalid RTP capabilities: "@ + e@)), rooms),
            Ok(_) => {
                let next = consume_spec::<D>(id, uuid_parse(producer_id), producer_id);
                (next.0, next.1, rooms)
            },
        },
        (StageView::AwaitConsumable { producer_id, requested }, Outcome::Consumable(can)) => if !can {
            (done, reply(failure(id, "Cannot consume (codec mismatch or producer not found)"@)), rooms)
        } else if has_transport(rooms, room_id, peer_id, false) {
            (
                StageView::AwaitConsume { requested },
                StepView::Perform(EffectView::Consume { producer_id, paused: true }),
                rooms,
            )
        } else {
            (done, reply(failure(id, "Recv transport not found"@)), rooms)
        },
        (StageView::AwaitConsume { requested }, Outcome::Consumed(r)) => match r {
            Ok((c, kind, d)) => (
                done,
                reply(
                    success(
                        id,
                        Some(DataView::Consumer { consumer_id: c.id@, producer_id: requested, kind, rtp_parameters: d }),
                    ),
                ),
                alter(rooms, room_id, peer_id, |q: PeerView<T, P, C>| q.with_consumer(c)),
            ),
            Err(e) => (done, reply(failure(id, e@)), rooms),
        },
        (StageView::AwaitResume, Outcome::Resumed(r)) => match r {
            Ok(_) => (done, reply(success(id, None)), rooms),
            Err(e) => (done, reply(failure(id, e@)), rooms),
        },
        _ => (stage, StepView::Silent, rooms),
    }
}

/// How a `resumeConsumer` request goes on once its `consumerId` text was
/// parsed to `parsed`: refused when the text was no identifier or the peer
/// has no such consumer, else the consumer is resumed.
pub fn resume_parsed<T, P, C, D>(
    id: Option<u64>,
    parsed: Result<String, String>,
    rooms: &Rooms<T, P, C>,
    room_id: &str,
    peer_id: &str,
) -> (next: (Stage, Step<D>))
    ensures
        (next.0@, next.1@) == resume_spec::<T, P, C, D>(id, text_result(parsed), rooms@, room_id@, peer_id@),
{
    match parsed {
        Err(e) => {
            let response = respond_error(id, prefixed("Invalid consumer ID format: ", &e));
            (Stage::Done, Step::Reply { response, notify: None })
        },
        Ok(consumer_id) => {
            if rooms.consumer(room_id, peer_id, &consumer_id).is_some() {
                (Stage::AwaitResume, Step::Perform(Effect::Resume { consumer_id }))
            } else {
                let response = respond_error(id, "Consumer not found".to_owned());
                (Stage::Done, Step::Reply { response, notify: None })
            }
        },
    }
}

/// How a `consume` request goes on once the `producerId` text `requested`
/// was parsed to `parsed`: refused when the text was no identifier, else the
/// router is asked whether the producer can be consumed.
pub fn consume_parsed<D>(id: Option<u64>, parsed: Result<String, String>, requested: String) -> (next: (Stage, Step<D>))
    ensures
        (next.0@, next.1@) == consume_spec::<D>(id, text_result(parsed), requested@),
{
    match parsed {
        Err(e) => {
            let response = respond_error(id, prefixed("Invalid producer ID format: ", &e));
            (Stage::Done, Step::Reply { response, notify: None })
        },
        Ok(c) => (Stage::AwaitConsumable { producer_id: c.clone(), requested }, Step::Perform(Effect::CheckConsumable { producer_id: c })),
    }
}

/// The handling of one request of one peer.
pub struct Exchange {
    /// The request's identifier, which every response carries.
    pub id: Option<u64>,
    pub stage: Stage,
}

impl Exchange {
    /// Starts handling request `msg` of peer `peer_id` in room `room_id`.
    pub fn start<T, P, C, D>(msg: &SignalingMessage, rooms: &Rooms<T, P, C>, room_id: &str, peer_id: &str) -> (started: (Exchange, Step<D>))
        ensures
            started.0.id == msg.id,
            (started.0.stage@, started.1@) == start_spec::<T, P, C, D>(*msg, rooms@, room_id@, peer_id@),
            // A consumer identifier the server handed out (canonical text) is found again.
            msg.method is Some && method_of(msg.method->Some_0@) == Method::ResumeConsumer && msg.data.consumer_id is Some
                && is_uuid_text(msg.data.consumer_id->Some_0@) && consumer_of(
                rooms@,
                room_id@,
                peer_id@,
                msg.data.consumer_id->Some_0@,
            ) is Some ==> started.1@ == StepView::<D>::Perform(
                EffectView::Resume { consumer_id: msg.data.consumer_id->Some_0@ },
            ),
    {
        let id = msg.id;
        proof {
            reveal_strlit("");
            assert(""@ =~= Seq::<char>::empty());
        }
        let m = match &msg.method {
            Some(m) => m,
            None => {
                return (Exchange { id, stage: Stage::Done }, Step::Silent);
            },
        };
        let (stage, step): (Stage, Step<D>) = match parse_method(m) {
            Method::GetRouterRtpCapabilities => (Stage::AwaitCapabilities, Step::Perform(Effect::ReadRtpCapabilities)),
            Method::CreateWebRtcTransport => {
                let send = match &msg.data.direction {
                    Some(d) => same_text(d, "send"),
                    None => true,
                };
                (Stage::AwaitTransport { send }, Step::Perform(Effect::CreateTransport { send }))
            },
            Method::ConnectTransport => {
                let transport_id = match &msg.data.transport_id {
                    Some(t) => t.clone(),
                    None => "".to_owned(),
                };
                (Stage::AwaitDtls { transport_id }, Step::Perform(Effect::ParseDtlsParameters))
            },
            Method::Produce => (Stage::AwaitKind, Step::Perform(Effect::ParseMediaKind)),
            Method::Consume => {
                let producer_id = match &msg.data.producer_id {
                    Some(t) => t.clone(),
                    None => "".to_owned(),
                };
                (Stage::AwaitRtpCapabilities { producer_id }, Step::Perform(Effect::ParseRtpCapabilities))
            },
            Method::ResumeConsumer => {
                let text = match &msg.data.consumer_id {
                    Some(t) => t.clone(),
                    None => "".to_owned(),
                };
                resume_parsed(id, parse_uuid(text.as_str()), rooms, room_id, peer_id)
            },
            Method::GetProducers => {
                let lines = rooms.producer_lines(room_id, peer_id);
                let response = respond_ok(id, Some(ResponseData::Producers(lines)));
                (Stage::Done, Step::Reply { response, notify: None })
            },
            Method::Unknown => {
                let response = respond_error(id, prefixed("Unknown method: ", m));
                (Stage::Done, Step::Reply { response, notify: None })
            },
        };
        (Exchange { id, stage }, step)
    }

    /// Whether the exchange waits for an outcome of this sort.
    pub fn accepts<T, P, C, D>(&self, outcome: &Outcome<T, P, C, D>) -> (accepted: bool)
        ensures
            accepted == stage_accepts(self.stage@, *outcome),
    {
        match (&self.stage, outcome) {
            (Stage::AwaitCapabilities, Outcome::RtpCapabilities(_)) => true,
            (Stage::AwaitTransport { .. }, Outcome::TransportCreated(_)) => true,
            (Stage::AwaitDtls { .. }, Outcome::Parsed(_)) => true,
            (Stage::AwaitConnect, Outcome::Connected(_)) => true,
            (Stage::AwaitKind, Outcome::KindParsed(_)) => true,
            (Stage::AwaitRtpParameters { .. }, Outcome::Parsed(_)) => true,
            (Stage::AwaitProduce { .. }, Outcome::Produced(_)) => true,
            (Stage::AwaitRtpCapabilities { .. }, Outcome::Parsed(_)) => true,
            (Stage::AwaitConsumable { .. }, Outcome::Consumable(_)) => true,
            (Stage::AwaitConsume { .. }, Outcome::Consumed(_)) => true,
            (Stage::AwaitResume, Outcome::Resumed(_)) => true,
            _ => false,
        }
    }

    /// Goes on from the outcome of the work the last step asked for, for
    /// peer `peer_id` in room `room_id`.
    pub fn advance<T, P, C, D>(
        &mut self,
        outcome: Outcome<T, P, C, D>,
        rooms: &mut Rooms<T, P, C>,
        room_id: &str,
        peer_id: &str,
    ) -> (step: Step<D>)
        requires
            stage_accepts(old(self).stage@, outcome),
        ensures
            final(self).id == old(self).id,
            (final(self).stage@, step@, final(rooms)@) == advance_spec(old(self).stage@, outcome, old(rooms)@, room_id@, peer_id@, old(self).id),
            // A producer identifier the server handed out (canonical text) is asked about as it is.
            old(self).stage@ is AwaitRtpCapabilities && (outcome matches Outcome::Parsed(Ok(_))) && is_uuid_text(
                old(self).stage@->AwaitRtpCapabilities_producer_id,
            ) ==> step@ == StepView::<D>::Perform(
                EffectView::CheckConsumable { producer_id: old(self).stage@->AwaitRtpCapabilities_producer_id },
            ),
    {
        let id = self.id;
        let mut stage = Stage::Done;
        std::mem::swap(&mut stage, &mut self.stage);
        match (stage, outcome) {
            (Stage::AwaitCapabilities, Outcome::RtpCapabilities(d)) => {
                Step::Reply { response: respond_ok(id, Some(ResponseData::Payload(d))), notify: None }
            },
            (Stage::AwaitTransport { send }, Outcome::TransportCreated(r)) => match r {
                Ok((t, d)) => {
                    rooms.set_transport(room_id, peer_id, send, t);
                    Step::Reply { response: respond_ok(id, Some(ResponseData::Payload(d))), notify: None }
                },
                Err(e) => Step::Reply { response: respond_error(id, e), notify: None },
            },
            (Stage::AwaitDtls { transport_id }, Outcome::Parsed(r)) => match r {
                Err(e) => Step::Reply {
                    response: respond_error(id, prefixed("Invalid DTLS parameters: ", &e)),
                    notify: None,
                },
                Ok(_) => match rooms.find_transport(room_id, peer_id, &transport_id) {
                    Some(send) => {
                        self.stage = Stage::AwaitConnect;
                        Step::Perform(Effect::Connect { send })
                    },
                    None => Step::Reply { response: respond_error(id, "Transport not found".to_owned()), notify: None },
                },
            },
            (Stage::AwaitConnect, Outcome::Connected(r)) => match r {
                Ok(_) => Step::Reply { response: respond_ok(id, None), notify: None },
                Err(e) => Step::Reply { response: respond_error(id, e), notify: None },
            },
            (Stage::AwaitKind, Outcome::KindParsed(r)) => match r {
                Err(e) => Step::Reply {
                    response: respond_error(id, prefixed("Invalid media kind: ", &e)),
                    notify: None,
                },
                Ok(kind) => {
                    self.stage = Stage::AwaitRtpParameters { kind };
                    Step::Perform(Effect::ParseRtpParameters)
                },
            },
            (Stage::AwaitRtpParameters { kind }, Outcome::Parsed(r)) => match r {
                Err(e) => Step::Reply {
                    response: respond_error(id, prefixed("Invalid RTP parameters: ", &e)),
                    notify: None,
                },
                Ok(_) => if rooms.transport(room_id, peer_id, true).is_some() {
                    self.stage = Stage::AwaitProduce { kind };
                    Step::Perform(Effect::Produce { kind })
                } else {
                    Step::Reply { response: respond_error(id, "Send transport not found".to_owned()), notify: None }
                },
            },
            (Stage::AwaitProduce { kind }, Outcome::Produced(r)) => match r {
                Ok(p) => {
                    let producer_id = p.id.clone();
                    let notification = new_producer(peer_id, &producer_id, kind);
                    rooms.add_producer(room_id, peer_id, p);
                    Step::Reply {
                        response: respond_ok(id, Some(ResponseData::ProducerId(producer_id))),
                        notify: Some(notification),
                    }
                },
                Err(e) => Step::Reply { response: respond_error(id, e), notify: None },
            },
            (Stage::AwaitRtpCapabilities { producer_id }, Outcome::Parsed(r)) => match r {
                Err(e) => Step::Reply {
                    response: respond_error(id, prefixed("Invalid RTP capabilities: ", &e)),
                    notify: None,
                },
                Ok(_) => {
                    let parsed = parse_uuid(producer_id.as_str());
                    let (stage, step) = consume_parsed(id, parsed, producer_id);
                    self.stage = stage;
                    step
                },
            },
            (Stage::AwaitConsumable { producer_id, requested }, Outcome::Consumable(can)) => if !can {
                Step::Reply {
                    response: respond_error(id, "Cannot consume (codec mismatch or producer not found)".to_owned()),
                    notify: None,
                }
            } else if rooms.transport(room_id, peer_id, false).is_some() {
                self.stage = Stage::AwaitConsume { requested };
                Step::Perform(Effect::Consume { producer_id, paused: true })
            } else {
                Step::Reply { response: respond_error(id, "Recv transport not found".to_owned()), notify: None }
            },
            (Stage::AwaitConsume { requested }, Outcome::Consumed(r)) => match r {
                Ok((c, kind, d)) => {
                    let consumer_id = c.id.clone();
                    rooms.add_consumer(room_id, peer_id, c);
                    let data = ResponseData::Consumer { consumer_id, producer_id: requested, kind, rtp_parameters: d };
                    Step::Reply { response: respond_ok(id, Some(data)), notify: None }
                },
                Err(e) => Step::Reply { response: respond_error(id, e), notify: None },
            },
            (Stage::AwaitResume, Outcome::Resumed(r)) => match r {
                Ok(_) => Step::Reply { response: respond_ok(id, None), notify: None },
                Err(e) => Step::Reply { response: respond_error(id, e), notify: None },
            },
            _ => {
                proof {
                    assert(false);
                }
                Step::Silent
            },
        }
    }
}

} // verus!
