use vstd::prelude::*;

use crate::ids::{ClientId, RoomId};
use crate::presence::{PresenceUpdate, PresentationPresence};
use crate::storage::StorageDiff;

verus! {

/// The envelope of every command and event. The server stamps `datetime` (milliseconds since
/// the Unix epoch) on accept; `request_id` ties a command to its acknowledgement.
#[derive(Debug)]
pub struct Message<T> {
    pub room_id: RoomId,
    pub payload: T,
    pub datetime: i64,
    pub sender_id: Option<String>,
    pub request_id: Option<String>,
    pub broadcast: Option<bool>,
}

/// The text an optional string holds.
pub open spec fn opt_text(o: Option<String>) -> Option<Seq<char>> {
    match o {
        Some(s) => Some(s@),
        None => None,
    }
}

pub fn copy_opt_text(o: &Option<String>) -> (r: Option<String>)
    ensures
        r == *o,
{
    match o {
        Some(s) => Some(s.clone()),
        None => None,
    }
}

/// Who a user is, as far as the other participants are told.
#[derive(Debug)]
pub struct UserInfo {
    pub user_id: String,
    pub user_name: String,
    pub user_email: String,
    pub user_avatar: String,
}

/// Commands that clients send to a room; each has a name on the wire.
pub trait ClientMessageTypeLike: Sized {
    spec fn spec_name(&self) -> Seq<char>;

    fn name(&self) -> (r: &'static str)
        ensures
            r@ == self.spec_name(),
    ;
}

/// Events that the server sends; each has a name that the broker uses as its channel.
pub trait ServerMessageTypeLike: Sized {
    spec fn spec_name(&self) -> Seq<char>;

    fn name(&self) -> (r: &'static str)
        ensures
            r@ == self.spec_name(),
    ;
}

/// The commands of a presentation room.
#[derive(Debug)]
pub enum PresentationClientMessage {
    JoinPresentation,
    LeavePresentation,
    ChangeSlide { slide_index: usize },
    UpdatePresence { update: PresenceUpdate },
    UpdateStorage { diff: StorageDiff },
    /// A command whose discriminator this server does not know; accepted and ignored.
    Unknown,
}

impl ClientMessageTypeLike for PresentationClientMessage {
    open spec fn spec_name(&self) -> Seq<char> {
        match self {
            PresentationClientMessage::JoinPresentation => "JoinPresentation"@,
            PresentationClientMessage::LeavePresentation => "LeavePresentation"@,
            PresentationClientMessage::ChangeSlide { .. } => "ChangeSlide"@,
            PresentationClientMessage::UpdatePresence { .. } => "UpdatePresence"@,
            PresentationClientMessage::UpdateStorage { .. } => "UpdateStorage"@,
            PresentationClientMessage::Unknown => "Unknown"@,
        }
    }

    fn name(&self) -> (r: &'static str) {
        match self {
            PresentationClientMessage::JoinPresentation => "JoinPresentation",
            PresentationClientMessage::LeavePresentation => "LeavePresentation",
            PresentationClientMessage::ChangeSlide { .. } => "ChangeSlide",
            PresentationClientMessage::UpdatePresence { .. } => "UpdatePresence",
            PresentationClientMessage::UpdateStorage { .. } => "UpdateStorage",
            PresentationClientMessage::Unknown => "Unknown",
        }
    }
}

/// The events that the server emits to the participants of a room.
#[derive(Debug)]
pub enum ServerMessageType {
    RoomCreated { room_id: RoomId },
    RoomDeleted { room_id: RoomId },
    RoomJoined { room_id: RoomId, socket_id: String, user_info: Option<UserInfo>, entered_at: i64 },
    RoomLeft { room_id: RoomId, socket_id: String },
    SlideChanged { slide_index: usize },
    PresenceUpdated { client_id: ClientId, presence: PresentationPresence },
    StorageUpdated,
    CommentCreated,
    CommentEdited,
    CommentDeleted,
    CommentReactionAdded,
    CommentReactionRemoved,
    ThreadCreated,
    ThreadDeleted,
    ThreadMetadataUpdated,
    Notification,
}

impl ServerMessageTypeLike for ServerMessageType {
    open spec fn spec_name(&self) -> Seq<char> {
        match self {
            ServerMessageType::RoomCreated { .. } => "RoomCreated"@,
            ServerMessageType::RoomDeleted { .. } => "RoomDeleted"@,
            ServerMessageType::RoomJoined { .. } => "RoomJoined"@,
            ServerMessageType::RoomLeft { .. } => "RoomLeft"@,
            ServerMessageType::SlideChanged { .. } => "SlideChanged"@,
            ServerMessageType::PresenceUpdated { .. } => "PresenceUpdated"@,
            ServerMessageType::StorageUpdated => "StorageUpdated"@,
            ServerMessageType::CommentCreated => "CommentCreated"@,
            ServerMessageType::CommentEdited => "CommentEdited"@,
            ServerMessageType::CommentDeleted => "CommentDeleted"@,
            ServerMessageType::CommentReactionAdded => "CommentReactionAdded"@,
            ServerMessageType::CommentReactionRemoved => "CommentReactionRemoved"@,
            ServerMessageType::ThreadCreated => "ThreadCreated"@,
            ServerMessageType::ThreadDeleted => "ThreadDeleted"@,
            ServerMessageType::ThreadMetadataUpdated => "ThreadMetadataUpdated"@,
            ServerMessageType::Notification => "Notification"@,
        }
    }

    fn name(&self) -> (r: &'static str) {
        match self {
            ServerMessageType::RoomCreated { .. } => "RoomCreated",
            ServerMessageType::RoomDeleted { .. } => "RoomDeleted",
            ServerMessageType::RoomJoined { .. } => "RoomJoined",
            ServerMessageType::RoomLeft { .. } => "RoomLeft",
            ServerMessageType::SlideChanged { .. } => "SlideChanged",
            ServerMessageType::PresenceUpdated { .. } => "PresenceUpdated",
            ServerMessageType::StorageUpdated => "StorageUpdated",
            ServerMessageType::CommentCreated => "CommentCreated",
            ServerMessageType::CommentEdited => "CommentEdited",
            ServerMessageType::CommentDeleted => "CommentDeleted",
            ServerMessageType::CommentReactionAdded => "CommentReactionAdded",
            ServerMessageType::CommentReactionRemoved => "CommentReactionRemoved",
            ServerMessageType::ThreadCreated => "ThreadCreated",
            ServerMessageType::ThreadDeleted => "ThreadDeleted",
            ServerMessageType::ThreadMetadataUpdated => "ThreadMetadataUpdated",
            ServerMessageType::Notification => "Notification",
        }
    }
}

} // verus!
