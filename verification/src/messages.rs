//! The signalling protocol's messages: requests from a peer, responses to
//! them, and notifications the server pushes to peers.

use vstd::prelude::*;
use crate::media::MediaKind;
use crate::peer::lines_view;

verus! {

/// The fields of a request's `data` object that the server reads as text
/// (each is `None` when absent or not a string).
pub struct MessageFields {
    pub direction: Option<String>,
    pub transport_id: Option<String>,
    pub producer_id: Option<String>,
    pub consumer_id: Option<String>,
}

/// A request from a peer.
pub struct SignalingMessage {
    pub id: Option<u64>,
    pub method: Option<String>,
    pub data: MessageFields,
}

/// The text of an optional field, the empty text when it is absent.
pub open spec fn text_or_empty(s: Option<String>) -> Seq<char> {
    match s {
        Some(s) => s@,
        None => Seq::empty(),
    }
}

/// The payload of a successful response.
pub enum ResponseData<D> {
    /// A payload the caller assembled from SFU objects (capabilities,
    /// transport parameters).
    Payload(D),
    /// `{ producerId }` of a new producer.
    ProducerId(String),
    /// `{ consumerId, producerId, kind, rtpParameters }` of a new consumer:
    /// `producer_id` is the text the request named.
    Consumer { consumer_id: String, producer_id: String, kind: MediaKind, rtp_parameters: D },
    /// The (peer, producer, kind) lines of a `getProducers` request.
    Producers(Vec<(String, String, String)>),
}

/// The answer to a request.
pub struct SignalingResponse<D> {
    pub id: Option<u64>,
    pub ok: bool,
    pub data: Option<ResponseData<D>>,
    pub error: Option<String>,
}

/// What a notification says.
pub enum NotificationData {
    /// `{ peerId }` of a peer that left.
    PeerClosed { peer_id: String },
    /// `{ peerId, producerId, kind }` of a new producer.
    NewProducer { peer_id: String, producer_id: String, kind: MediaKind },
}

/// A message the server pushes to peers.
pub struct ServerNotification {
    pub method: String,
    pub data: NotificationData,
}

/// A response payload seen as text.
pub enum DataView<D> {
    Payload(D),
    ProducerId(Seq<char>),
    Consumer { consumer_id: Seq<char>, producer_id: Seq<char>, kind: MediaKind, rtp_parameters: D },
    Producers(Seq<(Seq<char>, Seq<char>, Seq<char>)>),
}

/// A response seen as text.
pub struct ResponseView<D> {
    pub id: Option<u64>,
    pub ok: bool,
    pub data: Option<DataView<D>>,
    pub error: Option<Seq<char>>,
}

/// A notification's content seen as text.
pub enum NotificationDataView {
    PeerClosed { peer_id: Seq<char> },
    NewProducer { peer_id: Seq<char>, producer_id: Seq<char>, kind: MediaKind },
}

/// A notification seen as text.
pub struct NotificationView {
    pub method: Seq<char>,
    pub data: NotificationDataView,
}

impl<D> View for ResponseData<D> {
    type V = DataView<D>;

    open spec fn view(&self) -> DataView<D> {
        match self {
            ResponseData::Payload(d) => DataView::Payload(*d),
            ResponseData::ProducerId(p) => DataView::ProducerId(p@),
            ResponseData::Consumer { consumer_id, producer_id, kind, rtp_parameters } => DataView::Consumer {
                consumer_id: consumer_id@,
                producer_id: producer_id@,
                kind: *kind,
                rtp_parameters: *rtp_parameters,
            },
            ResponseData::Producers(lines) => DataView::Producers(lines_view(lines@)),
        }
    }
}

impl<D> View for SignalingResponse<D> {
    type V = ResponseView<D>;

    open spec fn view(&self) -> ResponseView<D> {
        ResponseView {
            id: self.id,
            ok: self.ok,
            data: match self.data {
                Some(d) => Some(d@),
                None => None,
            },
            error: match self.error {
                Some(e) => Some(e@),
                None => None,
            },
        }
    }
}

impl View for ServerNotification {
    type V = NotificationView;

    open spec fn view(&self) -> NotificationView {
        NotificationView {
            method: self.method@,
            data: match self.data {
                NotificationData::PeerClosed { peer_id } => NotificationDataView::PeerClosed { peer_id: peer_id@ },
                NotificationData::NewProducer { peer_id, producer_id, kind } => NotificationDataView::NewProducer {
                    peer_id: peer_id@,
                    producer_id: producer_id@,
                    kind,
                },
            },
        }
    }
}

/// A successful response carrying `data`.
pub open spec fn success<D>(id: Option<u64>, data: Option<DataView<D>>) -> ResponseView<D> {
    ResponseView { id, ok: true, data, error: None }
}

/// A failed response carrying the error message `message`.
pub open spec fn failure<D>(id: Option<u64>, message: Seq<char>) -> ResponseView<D> {
    ResponseView { id, ok: false, data: None, error: Some(message) }
}

/// The notification that peer `peer_id` left.
pub open spec fn peer_closed_view(peer_id: Seq<char>) -> NotificationView {
    NotificationView { method: "peerClosed"@, data: NotificationDataView::PeerClosed { peer_id } }
}

/// The notification that peer `peer_id` produces `producer_id` of `kind`.
pub open spec fn new_producer_view(peer_id: Seq<char>, producer_id: Seq<char>, kind: MediaKind) -> NotificationView {
    NotificationView {
        method: "newProducer"@,
        data: NotificationDataView::NewProducer { peer_id, producer_id, kind },
    }
}

/// A successful response.
pub fn respond_ok<D>(id: Option<u64>, data: Option<ResponseData<D>>) -> (response: SignalingResponse<D>)
    ensures
        response@ == success(id, match data {
            Some(d) => Some(d@),
            None => None,
        }),
{
    SignalingResponse { id, ok: true, data, error: None }
}

/// A failed response with error message `message`.
pub fn respond_error<D>(id: Option<u64>, message: String) -> (response: SignalingResponse<D>)
    ensures
        response@ == failure::<D>(id, message@),
{
    SignalingResponse { id, ok: false, data: None, error: Some(message) }
}

/// The notification that peer `peer_id` left, sent to the room's other
/// peers.
pub fn peer_closed(peer_id: &str) -> (notification: ServerNotification)
    ensures
        notification@ == peer_closed_view(peer_id@),
{
    ServerNotification {
        method: "peerClosed".to_owned(),
        data: NotificationData::PeerClosed { peer_id: peer_id.to_owned() },
    }
}

/// The notification that peer `peer_id` produces `producer_id` of `kind`,
/// sent to the room's other peers.
pub fn new_producer(peer_id: &str, producer_id: &String, kind: MediaKind) -> (notification: ServerNotification)
    ensures
        notification@ == new_producer_view(peer_id@, producer_id@, kind),
{
    ServerNotification {
        method: "newProducer".to_owned(),
        data: NotificationData::NewProducer {
            peer_id: peer_id.to_owned(),
            producer_id: producer_id.clone(),
            kind,
        },
    }
}

} // verus!
