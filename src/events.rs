use vstd::prelude::*;

use crate::ids::RoomId;

verus! {

/// Events that name their channel.
pub trait RoomEventLike: Sized {
    spec fn spec_event_name(&self) -> Seq<char>;

    fn event_name(&self) -> (r: &'static str)
        ensures
            r@ == self.spec_event_name(),
    ;
}

/// Command families that name themselves.
pub trait RoomCommandLike: Sized {
    spec fn spec_command_name() -> Seq<char>;

    fn command_name() -> (r: &'static str)
        ensures
            r@ == Self::spec_command_name(),
    ;
}

/// The commands of a presentation, in the event model that addresses rooms by command family.
#[derive(Debug, Clone, Copy, PartialEq, Eq, Structural)]
pub enum PresentationCommand {
    JoinPresentation,
    LeavePresentation,
    ChangeSlide { slide_index: usize },
}

impl RoomCommandLike for PresentationCommand {
    open spec fn spec_command_name() -> Seq<char> {
        "presentation"@
    }

    fn command_name() -> (r: &'static str) {
        "presentation"
    }
}

/// The events of a presentation.
#[derive(Debug)]
pub enum PresentationEvent {
    PresentationJoined { socket_id: String, room_id: RoomId },
    PresentationLeft { socket_id: String, room_id: RoomId },
    SlideChanged { slide_index: usize },
}

impl RoomEventLike for PresentationEvent {
    open spec fn spec_event_name(&self) -> Seq<char> {
        match self {
            PresentationEvent::PresentationJoined { .. } => "PresentationJoined"@,
            PresentationEvent::PresentationLeft { .. } => "PresentationLeft"@,
            PresentationEvent::SlideChanged { .. } => "SlideChanged"@,
        }
    }

    fn event_name(&self) -> (r: &'static str) {
        match self {
            PresentationEvent::PresentationJoined { .. } => "PresentationJoined",
            PresentationEvent::PresentationLeft { .. } => "PresentationLeft",
            PresentationEvent::SlideChanged { .. } => "SlideChanged",
        }
    }
}

/// The commands of a video room.
#[derive(Debug, Clone, Copy, PartialEq, Eq, Structural)]
pub enum VideoCommand {
    StartVideo,
}

/// The events of a video room.
#[derive(Debug, Clone, Copy, PartialEq, Eq, Structural)]
pub enum VideoEvent {
    VideoStarted,
}

impl RoomEventLike for VideoEvent {
    open spec fn spec_event_name(&self) -> Seq<char> {
        "VideoStarted"@
    }

    fn event_name(&self) -> (r: &'static str) {
        "VideoStarted"
    }
}

/// A command addressed to a room, by the kind of room it is for.
#[derive(Debug, Clone, Copy, PartialEq, Eq, Structural)]
pub enum ClientEvent {
    Presentation(PresentationCommand),
}

/// A room that plays one video.
#[derive(Debug)]
pub struct Video {
    pub room_id: RoomId,
    pub socket_id: String,
    pub video_url: String,
}

impl Video {
    pub fn new(room_id: RoomId, socket_id: String, video_url: String) -> (r: Video)
        ensures
            r.room_id == room_id,
            r.socket_id == socket_id,
            r.video_url == video_url,
    {
        Video { room_id, socket_id, video_url }
    }
}

} // verus!
