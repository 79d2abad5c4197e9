use vstd::prelude::*;

use crate::clock::{advance, advanced, now_millis};
use crate::ids::{ClientId, RoomId};
use crate::keyed::{Duplicate, KeyedList};
use crate::message::{opt_text, Message, PresentationClientMessage, ServerMessageType};
use crate::outcome::TransactionOutcome;
use crate::presence::{updated_presence, PresenceError, PresenceLike, PresentationPresence};
use crate::storage::{
    presentation_kind, spec_apply, spec_restore, spec_snapshot, PresentationStorage, StorageDiff, StorageError, StorageLike,
    StorageSnapshot, StorageView,
};

verus! {

/// Failures of room and manager operations.
#[derive(Debug)]
pub enum RoomError {
    ClientNotFound(ClientId),
    ClientAlreadyPresent(ClientId),
    StorageError(StorageError),
    PresenceError(PresenceError),
    TransactionError(String),
    SerializationError(String),
    NetworkError(String),
    PersistenceError(String),
    RoomNotFound(RoomId),
    RoomAlreadyExists(RoomId),
    MessageBrokerError(String),
}

/// What a presentation room keeps about each connected client.
#[derive(Debug)]
pub struct PresentationClientData {
    pub user_id: String,
    pub name: String,
}

impl Duplicate for PresentationClientData {
    fn duplicate(&self) -> (r: Self) {
        PresentationClientData { user_id: self.user_id.clone(), name: self.name.clone() }
    }
}

impl Duplicate for PresentationPresence {
    fn duplicate(&self) -> (r: Self) {
        *self
    }
}

/// The observable state of a room.
pub struct RoomState {
    pub id: Seq<char>,
    pub created_at: i64,
    pub last_activity: i64,
    pub storage: StorageView,
    pub presence: Map<Seq<char>, PresentationPresence>,
    pub clients: Map<Seq<char>, PresentationClientData>,
}

/// Every presence entry belongs to a member, and activity never precedes creation.
pub open spec fn room_invariant(s: RoomState) -> bool {
    &&& s.presence.dom().subset_of(s.clients.dom())
    &&& s.last_activity >= s.created_at
}

/// The state after `c` joins with metadata `m` at time `now`.
pub open spec fn joined(s: RoomState, c: Seq<char>, m: PresentationClientData, now: i64) -> RoomState {
    RoomState {
        clients: s.clients.insert(c, m),
        presence: s.presence.insert(c, PresentationPresence::spec_default()),
        last_activity: advanced(s.last_activity, now),
        ..s
    }
}

/// The state after `c` leaves at time `now`.
pub open spec fn left(s: RoomState, c: Seq<char>, now: i64) -> RoomState {
    RoomState {
        clients: s.clients.remove(c),
        presence: s.presence.remove(c),
        last_activity: advanced(s.last_activity, now),
        ..s
    }
}

/// The presence that `c` has, or would be given on first use.
pub open spec fn current_presence(s: RoomState, c: Seq<char>) -> PresentationPresence {
    if s.presence.contains_key(c) {
        s.presence[c]
    } else {
        PresentationPresence::spec_default()
    }
}

/// The state after member `c` sends `p` at time `now`; `None` where the command is refused.
pub open spec fn after_command(s: RoomState, c: Seq<char>, p: PresentationClientMessage, now: i64) -> Option<RoomState> {
    let t = advanced(s.last_activity, now);
    if !s.clients.contains_key(c) {
        None
    } else {
        match p {
            PresentationClientMessage::ChangeSlide { slide_index } => Some(
                RoomState { storage: (slide_index, s.storage.1), last_activity: t, ..s },
            ),
            PresentationClientMessage::UpdatePresence { update } => Some(
                RoomState {
                    presence: s.presence.insert(c, updated_presence(current_presence(s, c), update, now)),
                    last_activity: t,
                    ..s
                },
            ),
            PresentationClientMessage::UpdateStorage { diff } => match spec_apply(s.storage, diff@) {
                Some(st) => Some(RoomState { storage: st, last_activity: t, ..s }),
                None => None,
            },
            _ => Some(RoomState { last_activity: t, ..s }),
        }
    }
}

/// An event of room `room`, stamped at `now` as sent by `c` in answer to `request`.
pub open spec fn stamped(m: Message<ServerMessageType>, room: Seq<char>, c: Seq<char>, request: Option<String>, now: i64) -> bool {
    &&& m.room_id@ == room
    &&& m.datetime == now
    &&& opt_text(m.sender_id) == Some(c)
    &&& opt_text(m.request_id) == opt_text(request)
    &&& m.broadcast == Some(true)
}

/// The notifications owed when member `c` sends `msg` at time `now`.
pub open spec fn expected_outcome(
    s: RoomState,
    c: Seq<char>,
    msg: Message<PresentationClientMessage>,
    now: i64,
    o: TransactionOutcome<ServerMessageType, StorageDiff>,
) -> bool {
    match msg.payload {
        PresentationClientMessage::ChangeSlide { slide_index } => {
            &&& o matches TransactionOutcome::Broadcast { message, exclude_sender }
            &&& exclude_sender
            &&& stamped(message, s.id, c, msg.request_id, now)
            &&& message.payload == ServerMessageType::SlideChanged { slide_index }
        },
        PresentationClientMessage::UpdatePresence { update } => {
            let before = current_presence(s, c);
            let after = updated_presence(before, update, now);
            if after.cursor == before.cursor {
                o is Nothing
            } else {
                &&& o matches TransactionOutcome::Broadcast { message, exclude_sender }
                &&& exclude_sender
                &&& stamped(message, s.id, c, msg.request_id, now)
                &&& message.payload matches ServerMessageType::PresenceUpdated { client_id, presence }
                &&& client_id@ == c
                &&& presence == after
            }
        },
        PresentationClientMessage::UpdateStorage { diff } => o == TransactionOutcome::<
            ServerMessageType,
            StorageDiff,
        >::BroadcastStorageUpdate { diff, exclude_sender: true },
        _ => o is Nothing,
    }
}

/// The whole effect of `apply_client_message` from `s` to `t` with result `r`.
pub open spec fn command_effect(
    s: RoomState,
    t: RoomState,
    c: Seq<char>,
    msg: Message<PresentationClientMessage>,
    now: i64,
    r: Result<TransactionOutcome<ServerMessageType, StorageDiff>, RoomError>,
) -> bool {
    match r {
        Ok(o) => after_command(s, c, msg.payload, now) == Some(t) && expected_outcome(s, c, msg, now, o),
        Err(e) => {
            &&& after_command(s, c, msg.payload, now) is None
            &&& t == s
            &&& if !s.clients.contains_key(c) {
                e matches RoomError::ClientNotFound(x) && x@ == c
            } else {
                e matches RoomError::StorageError(se) && se is ApplyDiffError
            }
        },
    }
}

/// The durable record of a room: its identifier, its kind, an image of its storage, and when
/// it was created.
#[derive(Debug)]
pub struct PersistedRoom {
    pub room_id: RoomId,
    pub room_type: String,
    pub snapshot: StorageSnapshot,
    pub created_at: i64,
}

/// A room in which participants follow one presentation.
#[derive(Debug)]
pub struct Presentation {
    id: RoomId,
    created_at: i64,
    last_activity: i64,
    storage: PresentationStorage,
    presence: KeyedList<PresentationPresence>,
    clients: KeyedList<PresentationClientData>,
}

impl View for Presentation {
    type V = RoomState;

    closed spec fn view(&self) -> RoomState {
        RoomState {
            id: self.id@,
            created_at: self.created_at,
            last_activity: self.last_activity,
            storage: self.storage@,
            presence: self.presence@,
            clients: self.clients@,
        }
    }
}

impl Presentation {
    pub closed spec fn wf(&self) -> bool {
        &&& self.presence.wf()
        &&& self.clients.wf()
        &&& room_invariant(self@)
    }

    pub proof fn lemma_wf(&self)
        requires
            self.wf(),
        ensures
            room_invariant(self@),
    {
    }

    /// An empty room. Its last activity is never earlier than its creation.
    pub fn new(id: RoomId, created_at: i64, last_activity: i64, storage: PresentationStorage) -> (r: Presentation)
        ensures
            r.wf(),
            r@ == (RoomState {
                id: id@,
                created_at,
                last_activity: advanced(created_at, last_activity),
                storage: storage@,
                presence: Map::empty(),
                clients: Map::empty(),
            }),
    {
        Presentation {
            id,
            created_at,
            last_activity: advance(created_at, last_activity),
            storage,
            presence: KeyedList::new(),
            clients: KeyedList::new(),
        }
    }

    pub fn id(&self) -> (r: &RoomId)
        ensures
            r@ == self@.id,
    {
        &self.id
    }

    pub fn room_type(&self) -> (r: &'static str)
        ensures
            r@ == "presentation"@,
    {
        "presentation"
    }

    pub fn created_at(&self) -> (r: i64)
        ensures
            r == self@.created_at,
    {
        self.created_at
    }

    pub fn last_activity_at(&self) -> (r: i64)
        ensures
            r == self@.last_activity,
    {
        self.last_activity
    }

    pub fn storage(&self) -> (r: &PresentationStorage)
        ensures
            r@ == self@.storage,
    {
        &self.storage
    }

    pub fn get_presence(&self, client_id: &ClientId) -> (r: Option<&PresentationPresence>)
        requires
            self.wf(),
        ensures
            r is None <==> !self@.presence.contains_key(client_id@),
            r matches Some(p) ==> *p == self@.presence[client_id@],
    {
        self.presence.get(client_id.as_str())
    }

    pub fn get_all_presence(&self) -> (r: KeyedList<PresentationPresence>)
        requires
            self.wf(),
        ensures
            r.wf(),
            r@ == self@.presence,
    {
        self.presence.duplicate()
    }

    pub fn get_client_metadata(&self, client_id: &ClientId) -> (r: Option<&PresentationClientData>)
        requires
            self.wf(),
        ensures
            r is None <==> !self@.clients.contains_key(client_id@),
            r matches Some(m) ==> *m == self@.clients[client_id@],
    {
        self.clients.get(client_id.as_str())
    }

    /// The members, each once.
    pub fn get_connected_clients(&self) -> (r: Vec<ClientId>)
        requires
            self.wf(),
        ensures
            r@.len() == self@.clients.dom().len(),
            forall|i: int| 0 <= i < r@.len() ==> self@.clients.contains_key(#[trigger] r@[i]@),
            forall|c: Seq<char>| self@.clients.contains_key(c) ==> exists|i: int| 0 <= i < r@.len() && #[trigger] r@[i]@ == c,
            forall|i: int, j: int| 0 <= i < r@.len() && 0 <= j < r@.len() && i != j ==> #[trigger] r@[i]@ != #[trigger] r@[j]@,
    {
        let keys = self.clients.key_list();
        let mut out: Vec<ClientId> = Vec::new();
        let mut i: usize = 0;
        proof {
            self.clients.lemma_keys();
        }
        while i < keys.len()
            invariant
                i <= keys@.len(),
                keys@.len() == self.clients.keys().len(),
                forall|j: int| 0 <= j < keys@.len() ==> #[trigger] keys@[j]@ == self.clients.keys()[j],
                out@.len() == i,
                forall|j: int| 0 <= j < i ==> #[trigger] out@[j]@ == keys@[j]@,
            decreases keys@.len() - i,
        {
            out.push(ClientId::from_string(keys[i].as_str()));
            i = i + 1;
        }
        proof {
            let ks = self.clients.keys();
            assert forall|c: Seq<char>| self@.clients.contains_key(c) implies exists|i: int|
                0 <= i < out@.len() && #[trigger] out@[i]@ == c by {
                assert(ks.to_set().contains(c));
                let i = choose|i: int| 0 <= i < ks.len() && ks[i] == c;
                assert(out@[i]@ == c);
            }
            assert forall|i: int| 0 <= i < out@.len() implies self@.clients.contains_key(#[trigger] out@[i]@) by {
                assert(out@[i]@ == ks[i]);
                assert(ks.to_set().contains(ks[i]));
            }
            assert forall|i: int, j: int| 0 <= i < out@.len() && 0 <= j < out@.len() && i != j implies #[trigger] out@[i]@
                != #[trigger] out@[j]@ by {
                assert(out@[i]@ == ks[i]);
                assert(out@[j]@ == ks[j]);
            }
        }
        out
    }

    /// Whether no client is connected.
    pub fn is_empty(&self) -> (r: bool)
        requires
            self.wf(),
        ensures
            r <==> self@.clients.dom().is_empty(),
    {
        self.clients.is_empty()
    }

    /// An exact copy of the room.
    pub fn snapshot(&self) -> (r: Presentation)
        requires
            self.wf(),
        ensures
            r.wf(),
            r@ == self@,
    {
        Presentation {
            id: self.id.duplicate(),
            created_at: self.created_at,
            last_activity: self.last_activity,
            storage: self.storage.duplicate(),
            presence: self.presence.duplicate(),
            clients: self.clients.duplicate(),
        }
    }

    /// Adds a member with default presence at time `now`; refuses one already present.
    pub fn add_client_at(&mut self, client_id: ClientId, metadata: PresentationClientData, now: i64) -> (r: Result<(), RoomError>)
        requires
            old(self).wf(),
        ensures
            final(self).wf(),
            r is Ok <==> !old(self)@.clients.contains_key(client_id@),
            r is Ok ==> final(self)@ == joined(old(self)@, client_id@, metadata, now),
            r is Err ==> final(self)@ == old(self)@,
            r matches Err(e) ==> e matches RoomError::ClientAlreadyPresent(x) && x@ == client_id@,
    {
        if self.clients.contains_key(client_id.as_str()) {
            return Err(RoomError::ClientAlreadyPresent(client_id));
        }
        let key = client_id.to_owned_string();
        self.presence.upsert(client_id.to_owned_string(), PresentationPresence::default_state());
        self.clients.insert_new(key, metadata);
        self.last_activity = advance(self.last_activity, now);
        Ok(())
    }

    /// `add_client_at` at the current time.
    pub fn add_client(&mut self, client_id: ClientId, metadata: PresentationClientData) -> (r: Result<(), RoomError>)
        requires
            old(self).wf(),
        ensures
            final(self).wf(),
            r is Ok <==> !old(self)@.clients.contains_key(client_id@),
            r is Ok ==> exists|now: i64| final(self)@ == joined(old(self)@, client_id@, metadata, now),
            r is Err ==> final(self)@ == old(self)@,
            r matches Err(e) ==> e matches RoomError::ClientAlreadyPresent(x) && x@ == client_id@,
    {
        let now = now_millis();
        let ghost c = client_id@;
        let r = self.add_client_at(client_id, metadata, now);
        proof {
            if r is Ok {
                assert(self@ == joined(old(self)@, c, metadata, now));
            }
        }
        r
    }

    /// Removes a member and its presence at time `now`, handing back its metadata.
    pub fn remove_client_at(&mut self, client_id: &ClientId, now: i64) -> (r: Result<PresentationClientData, RoomError>)
        requires
            old(self).wf(),
        ensures
            final(self).wf(),
            r is Ok <==> old(self)@.clients.contains_key(client_id@),
            r matches Ok(m) ==> m == old(self)@.clients[client_id@] && final(self)@ == left(old(self)@, client_id@, now),
            r is Err ==> final(self)@ == old(self)@,
            r matches Err(e) ==> e matches RoomError::ClientNotFound(x) && x@ == client_id@,
    {
        match self.clients.remove(client_id.as_str()) {
            Some(m) => {
                let _ = self.presence.remove(client_id.as_str());
                self.last_activity = advance(self.last_activity, now);
                Ok(m)
            },
            None => {
                proof {
                    assert(self.clients@ =~= old(self).clients@);
                    assert(self@ =~= old(self)@);
                }
                Err(RoomError::ClientNotFound(client_id.duplicate()))
            },
        }
    }

    /// `remove_client_at` at the current time.
    pub fn remove_client(&mut self, client_id: &ClientId) -> (r: Result<PresentationClientData, RoomError>)
        requires
            old(self).wf(),
        ensures
            final(self).wf(),
            r is Ok <==> old(self)@.clients.contains_key(client_id@),
            r matches Ok(m) ==> m == old(self)@.clients[client_id@] && exists|now: i64| final(self)@ == left(old(self)@, client_id@, now),
            r is Err ==> final(self)@ == old(self)@,
            r matches Err(e) ==> e matches RoomError::ClientNotFound(x) && x@ == client_id@,
    {
        let now = now_millis();
        let r = self.remove_client_at(client_id, now);
        proof {
            if r is Ok {
                assert(self@ == left(old(self)@, client_id@, now));
            }
        }
        r
    }

    /// Applies one command of member `client_id` at time `now` and says what must be sent.
    /// A refused command leaves the room as it was.
    pub fn apply_client_message_at(
        &mut self,
        client_id: &ClientId,
        message: Message<PresentationClientMessage>,
        now: i64,
    ) -> (r: Result<TransactionOutcome<ServerMessageType, StorageDiff>, RoomError>)
        requires
            old(self).wf(),
        ensures
            final(self).wf(),
            command_effect(old(self)@, final(self)@, client_id@, message, now, r),
    {
        if !self.clients.contains_key(client_id.as_str()) {
            return Err(RoomError::ClientNotFound(client_id.duplicate()));
        }
        let t = advance(self.last_activity, now);
        let ghost msg = message;
        let Message { room_id: _, payload, datetime: _, sender_id: _, request_id, broadcast: _ } = message;
        match payload {
            PresentationClientMessage::ChangeSlide { slide_index } => {
                self.storage.set_current_slide(slide_index);
                self.last_activity = t;
                let event = Message {
                    room_id: self.id.duplicate(),
                    payload: ServerMessageType::SlideChanged { slide_index },
                    datetime: now,
                    sender_id: Some(client_id.to_owned_string()),
                    request_id,
                    broadcast: Some(true),
                };
                Ok(TransactionOutcome::Broadcast { message: event, exclude_sender: true })
            },
            PresentationClientMessage::UpdatePresence { update } => {
                let mut p = match self.presence.get(client_id.as_str()) {
                    Some(p) => *p,
                    None => PresentationPresence::default_state(),
                };
                let changed = p.update(update, now);
                self.presence.upsert(client_id.to_owned_string(), p);
                self.last_activity = t;
                if changed {
                    let event = Message {
                        room_id: self.id.duplicate(),
                        payload: ServerMessageType::PresenceUpdated { client_id: client_id.duplicate(), presence: p },
                        datetime: now,
                        sender_id: Some(client_id.to_owned_string()),
                        request_id,
                        broadcast: Some(true),
                    };
                    Ok(TransactionOutcome::Broadcast { message: event, exclude_sender: true })
                } else {
                    Ok(TransactionOutcome::Nothing)
                }
            },
            PresentationClientMessage::UpdateStorage { diff } => {
                match self.storage.apply_diff(&diff) {
                    Ok(()) => {
                        self.last_activity = t;
                        Ok(TransactionOutcome::BroadcastStorageUpdate { diff, exclude_sender: true })
                    },
                    Err(e) => Err(RoomError::StorageError(e)),
                }
            },
            _ => {
                self.last_activity = t;
                Ok(TransactionOutcome::Nothing)
            },
        }
    }

    /// `apply_client_message_at` at the current time.
    pub fn apply_client_message(
        &mut self,
        client_id: &ClientId,
        message: Message<PresentationClientMessage>,
    ) -> (r: Result<TransactionOutcome<ServerMessageType, StorageDiff>, RoomError>)
        requires
            old(self).wf(),
        ensures
            final(self).wf(),
            exists|now: i64| command_effect(old(self)@, final(self)@, client_id@, message, now, r),
    {
        let now = now_millis();
        let ghost msg = message;
        let r = self.apply_client_message_at(client_id, message, now);
        assert(command_effect(old(self)@, self@, client_id@, msg, now, r));
        r
    }
}

impl Presentation {
    /// The record that persists this room.
    pub fn to_record(&self) -> (r: PersistedRoom)
        requires
            self.wf(),
        ensures
            r.room_id@ == self@.id,
            r.room_type@ == presentation_kind(),
            r.snapshot@ == spec_snapshot(self@.storage),
            r.created_at == self@.created_at,
    {
        proof {
            reveal_strlit("presentation");
            assert("presentation"@ =~= presentation_kind());
        }
        PersistedRoom {
            room_id: self.id.duplicate(),
            room_type: String::from_str("presentation"),
            snapshot: self.storage.snapshot(),
            created_at: self.created_at,
        }
    }

    /// Rebuilds an empty room from its record; refuses a record of another room or storage
    /// kind.
    pub fn from_record(record: PersistedRoom) -> (r: Result<Presentation, RoomError>)
        ensures
            r is Ok <==> record.room_type@ == presentation_kind() && spec_restore(record.snapshot@) is Some,
            r matches Ok(p) ==> p.wf() && Some(p@.storage) == spec_restore(record.snapshot@) && p@.id == record.room_id@
                && p@.created_at == record.created_at && p@.last_activity == record.created_at
                && p@.clients == Map::<Seq<char>, PresentationClientData>::empty()
                && p@.presence == Map::<Seq<char>, PresentationPresence>::empty(),
            r matches Err(e) ==> e matches RoomError::StorageError(se) && se is IncompatibleTypes,
    {
        proof {
            reveal_strlit("presentation");
            assert("presentation"@ =~= presentation_kind());
        }
        let kind = String::from_str("presentation");
        if record.room_type != kind {
            return Err(RoomError::StorageError(StorageError::IncompatibleTypes));
        }
        let PersistedRoom { room_id, room_type: _, snapshot, created_at } = record;
        match PresentationStorage::from_snapshot(snapshot) {
            Ok(storage) => Ok(Presentation::new(room_id, created_at, created_at, storage)),
            Err(e) => Err(RoomError::StorageError(e)),
        }
    }
}

/// A client that joins and then leaves leaves the room's storage, roster and the other
/// clients' presence as they were.
pub proof fn lemma_join_then_leave(s: RoomState, c: Seq<char>, m: PresentationClientData, t1: i64, t2: i64)
    requires
        room_invariant(s),
        !s.clients.contains_key(c),
    ensures
        left(joined(s, c, m, t1), c, t2).storage == s.storage,
        left(joined(s, c, m, t1), c, t2).clients == s.clients,
        left(joined(s, c, m, t1), c, t2).presence == s.presence,
        left(joined(s, c, m, t1), c, t2).id == s.id,
        left(joined(s, c, m, t1), c, t2).created_at == s.created_at,
{
    assert(!s.presence.contains_key(c));
    assert(s.clients.insert(c, m).remove(c) =~= s.clients);
    assert(s.presence.insert(c, PresentationPresence::spec_default()).remove(c) =~= s.presence);
}

/// Activity time never goes back when a client joins or leaves.
pub proof fn lemma_membership_keeps_activity_order(s: RoomState, c: Seq<char>, m: PresentationClientData, now: i64)
    ensures
        joined(s, c, m, now).last_activity >= s.last_activity,
        left(s, c, now).last_activity >= s.last_activity,
        room_invariant(s) ==> room_invariant(joined(s, c, m, now)),
        room_invariant(s) ==> room_invariant(left(s, c, now)),
{
}

/// Activity time never goes back: after any command, accepted or not.
pub proof fn lemma_command_keeps_activity_order(
    s: RoomState,
    t: RoomState,
    c: Seq<char>,
    msg: Message<PresentationClientMessage>,
    now: i64,
    r: Result<TransactionOutcome<ServerMessageType, StorageDiff>, RoomError>,
)
    requires
        command_effect(s, t, c, msg, now, r),
    ensures
        t.last_activity >= s.last_activity,
{
}

} // verus!
