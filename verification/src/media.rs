//! What the room logic reads of the SFU's media objects: identifiers and the
//! media kind, next to an opaque handle that keeps the object alive.

use vstd::prelude::*;

verus! {

/// Kind of media a producer or consumer carries.
#[derive(Clone, Copy, PartialEq, Eq, Structural, Debug)]
pub enum MediaKind {
    Audio,
    Video,
}

impl MediaKind {
    /// The wire name of the kind.
    pub open spec fn label(self) -> Seq<char> {
        match self {
            MediaKind::Audio => "audio"@,
            MediaKind::Video => "video"@,
        }
    }

    /// The wire name of the kind: `"audio"` or `"video"`.
    pub fn as_str(&self) -> (name: &'static str)
        ensures
            name@ == self.label(),
    {
        match self {
            MediaKind::Audio => "audio",
            MediaKind::Video => "video",
        }
    }
}

/// A WebRTC transport of a peer: its identifier and the SFU object.
pub struct Transport<T> {
    pub id: String,
    pub handle: T,
}

/// A producer (media sent by a peer): identifier, kind and the SFU object.
pub struct Producer<P> {
    pub id: String,
    pub kind: MediaKind,
    pub handle: P,
}

/// A consumer (media received by a peer): identifier and the SFU object.
pub struct Consumer<C> {
    pub id: String,
    pub handle: C,
}

} // verus!
