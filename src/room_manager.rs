use vstd::prelude::*;

use crate::clock::now_millis;
use crate::ids::{ClientId, RoomId};
use crate::keyed::KeyedList;
use crate::message::{opt_text, Message, PresentationClientMessage, ServerMessageType, ServerMessageTypeLike};
use crate::outcome::{calls_view, plan_outcome, planned, BrokerCall, BrokerPayload, PlannedCall, TransactionOutcome};
use crate::room::{command_effect, joined, left, Presentation, PresentationClientData, RoomError, RoomState};
use crate::storage::StorageDiff;

verus! {

/// The registry of rooms, keyed by room identifier.
#[derive(Debug)]
pub struct RoomManager<R> {
    rooms: KeyedList<R>,
}

impl<R> View for RoomManager<R> {
    type V = Map<Seq<char>, R>;

    closed spec fn view(&self) -> Map<Seq<char>, R> {
        self.rooms@
    }
}

impl<R> RoomManager<R> {
    pub closed spec fn wf(&self) -> bool {
        self.rooms.wf()
    }

    pub fn new() -> (r: Self)
        ensures
            r.wf(),
            r@ == Map::<Seq<char>, R>::empty(),
    {
        RoomManager { rooms: KeyedList::new() }
    }

    pub fn len(&self) -> (r: usize)
        requires
            self.wf(),
        ensures
            r == self@.dom().len(),
    {
        self.rooms.len()
    }

    /// Registers a room; refuses an identifier already in use.
    pub fn add_room(&mut self, room_id: RoomId, room: R) -> (r: Result<(), RoomError>)
        requires
            old(self).wf(),
        ensures
            final(self).wf(),
            r is Ok <==> !old(self)@.contains_key(room_id@),
            r is Ok ==> final(self)@ == old(self)@.insert(room_id@, room),
            r is Err ==> final(self)@ == old(self)@,
            r matches Err(e) ==> e matches RoomError::RoomAlreadyExists(x) && x@ == room_id@,
    {
        if self.rooms.contains_key(room_id.as_str()) {
            return Err(RoomError::RoomAlreadyExists(room_id));
        }
        self.rooms.insert_new(room_id.into_string(), room);
        Ok(())
    }

    /// Deletes a room if it is there; deleting an absent room does nothing.
    pub fn remove_room(&mut self, room_id: &RoomId)
        requires
            old(self).wf(),
        ensures
            final(self).wf(),
            final(self)@ == old(self)@.remove(room_id@),
    {
        let _ = self.rooms.remove(room_id.as_str());
    }

    pub fn get_room(&self, room_id: &RoomId) -> (r: Result<&R, RoomError>)
        requires
            self.wf(),
        ensures
            r is Ok <==> self@.contains_key(room_id@),
            r matches Ok(room) ==> *room == self@[room_id@],
            r matches Err(e) ==> e matches RoomError::RoomNotFound(x) && x@ == room_id@,
    {
        match self.rooms.get(room_id.as_str()) {
            Some(room) => Ok(room),
            None => Err(RoomError::RoomNotFound(room_id.duplicate())),
        }
    }

    /// Replaces a registered room.
    pub fn update_room(&mut self, room_id: &RoomId, new_room: R) -> (r: Result<(), RoomError>)
        requires
            old(self).wf(),
        ensures
            final(self).wf(),
            r is Ok <==> old(self)@.contains_key(room_id@),
            r is Ok ==> final(self)@ == old(self)@.insert(room_id@, new_room),
            r is Err ==> final(self)@ == old(self)@,
            r matches Err(e) ==> e matches RoomError::RoomNotFound(x) && x@ == room_id@,
    {
        if !self.rooms.contains_key(room_id.as_str()) {
            return Err(RoomError::RoomNotFound(room_id.duplicate()));
        }
        self.rooms.upsert(room_id.as_str().to_owned(), new_room);
        Ok(())
    }

    /// The identifiers of the registered rooms, each once.
    pub fn room_ids(&self) -> (r: Vec<RoomId>)
        requires
            self.wf(),
        ensures
            r@.len() == self@.dom().len(),
            forall|i: int| 0 <= i < r@.len() ==> self@.contains_key(#[trigger] r@[i]@),
            forall|k: Seq<char>| self@.contains_key(k) ==> exists|i: int| 0 <= i < r@.len() && #[trigger] r@[i]@ == k,
    {
        let keys = self.rooms.key_list();
        let mut out: Vec<RoomId> = Vec::new();
        let mut i: usize = 0;
        proof {
            self.rooms.lemma_keys();
        }
        while i < keys.len()
            invariant
                i <= keys@.len(),
                keys@.len() == self.rooms.keys().len(),
                forall|j: int| 0 <= j < keys@.len() ==> #[trigger] keys@[j]@ == self.rooms.keys()[j],
                out@.len() == i,
                forall|j: int| 0 <= j < i ==> #[trigger] out@[j]@ == keys@[j]@,
            decreases keys@.len() - i,
        {
            out.push(RoomId::from_string(keys[i].as_str()));
            i = i + 1;
        }
        proof {
            let ks = self.rooms.keys();
            assert forall|k: Seq<char>| self@.contains_key(k) implies exists|i: int|
                0 <= i < out@.len() && #[trigger] out@[i]@ == k by {
                assert(ks.to_set().contains(k));
                let i = choose|i: int| 0 <= i < ks.len() && ks[i] == k;
                assert(out@[i]@ == k);
            }
            assert forall|i: int| 0 <= i < out@.len() implies self@.contains_key(#[trigger] out@[i]@) by {
                assert(out@[i]@ == ks[i]);
                assert(ks.to_set().contains(ks[i]));
            }
        }
        out
    }
}

/// Every registered room keeps its invariant.
pub open spec fn rooms_inv<R: RoomLike>(m: Map<Seq<char>, R>) -> bool {
    forall|k: Seq<char>| m.contains_key(k) ==> (#[trigger] m[k]).inv()
}

/// The broadcast that tells the others in room `room` that `c` joined at `now`.
pub open spec fn join_announced(calls: Seq<PlannedCall<ServerMessageType, StorageDiff>>, room: Seq<char>, c: Seq<char>, now: i64) -> bool {
    &&& calls.len() == 1
    &&& calls[0] matches PlannedCall::Broadcast { room_id, msg_name, payload, exclude }
    &&& room_id == room
    &&& msg_name == "RoomJoined"@
    &&& exclude == seq![c]
    &&& payload matches BrokerPayload::Event(m)
    &&& m.room_id@ == room
    &&& m.datetime == now
    &&& opt_text(m.sender_id) == Some(c)
    &&& m.payload matches ServerMessageType::RoomJoined { room_id: rid, socket_id, user_info, entered_at }
    &&& rid@ == room
    &&& socket_id@ == c
    &&& user_info is None
    &&& entered_at == now
}

/// The broadcast that tells the remaining members of room `room` that `c` left at `now`.
pub open spec fn leave_announced(calls: Seq<PlannedCall<ServerMessageType, StorageDiff>>, room: Seq<char>, c: Seq<char>, now: i64) -> bool {
    &&& calls.len() == 1
    &&& calls[0] matches PlannedCall::Broadcast { room_id, msg_name, payload, exclude }
    &&& room_id == room
    &&& msg_name == "RoomLeft"@
    &&& exclude == Seq::<Seq<char>>::empty()
    &&& payload matches BrokerPayload::Event(m)
    &&& m.room_id@ == room
    &&& m.datetime == now
    &&& opt_text(m.sender_id) == Some(c)
    &&& m.payload matches ServerMessageType::RoomLeft { room_id: rid, socket_id }
    &&& rid@ == room
    &&& socket_id@ == c
}

/// A room as the manager drives it: it applies commands and admits and releases clients,
/// each time returning the broker calls that tell the participants. Each kind of room states
/// the effects through the spec functions below.
pub trait RoomLike: View + Sized {
    type ClientMessageType;
    type ServerMessageType: ServerMessageTypeLike;
    type Diff;
    type ClientMetadata;

    /// The room's own invariant.
    spec fn inv(&self) -> bool;

    /// The clients connected in state `s`.
    spec fn spec_members(s: Self::V) -> Set<Seq<char>>;

    /// Whether member `c` sending `msg` at `now` takes the room from `s` to `t` with result
    /// `r`.
    spec fn spec_command(
        s: Self::V,
        t: Self::V,
        c: Seq<char>,
        msg: Message<Self::ClientMessageType>,
        now: i64,
        r: Result<TransactionOutcome<Self::ServerMessageType, Self::Diff>, RoomError>,
    ) -> bool;

    /// The state after `c` joins with `m` at `now`.
    spec fn spec_joined(s: Self::V, c: Seq<char>, m: Self::ClientMetadata, now: i64) -> Self::V;

    /// The state after `c` leaves at `now`.
    spec fn spec_left(s: Self::V, c: Seq<char>, now: i64) -> Self::V;

    /// Whether `calls` tell the others in room `room` that `c` joined at `now`.
    spec fn spec_join_announced(calls: Seq<PlannedCall<Self::ServerMessageType, Self::Diff>>, room: Seq<char>, c: Seq<char>, now: i64) -> bool;

    /// Whether `calls` tell the remaining members of room `room` that `c` left at `now`.
    spec fn spec_leave_announced(calls: Seq<PlannedCall<Self::ServerMessageType, Self::Diff>>, room: Seq<char>, c: Seq<char>, now: i64) -> bool;

    fn room_type(&self) -> &'static str;

    fn is_empty(&self) -> (r: bool)
        requires
            self.inv(),
        ensures
            r <==> Self::spec_members(self@).is_empty(),
    ;

    /// An exact copy of the room.
    fn snapshot(&self) -> (r: Self)
        requires
            self.inv(),
        ensures
            r.inv(),
            r@ == self@,
    ;

    /// Applies one command at time `now` and returns the broker calls that carry out its
    /// outcome for the room registered as `room_id`, in order.
    fn handle_message_at(
        &mut self,
        room_id: &RoomId,
        client_id: &ClientId,
        message: Message<Self::ClientMessageType>,
        now: i64,
    ) -> (r: Result<Vec<BrokerCall<Self::ServerMessageType, Self::Diff>>, RoomError>)
        requires
            old(self).inv(),
        ensures
            final(self).inv(),
            r is Ok ==> exists|o: TransactionOutcome<Self::ServerMessageType, Self::Diff>|
                Self::spec_command(old(self)@, final(self)@, client_id@, message, now, Ok(o))
                && calls_view(r->Ok_0@) == planned(room_id@, client_id@, o),
            r matches Err(e) ==> Self::spec_command(old(self)@, final(self)@, client_id@, message, now, Err(e)),
    ;

    /// Adds a client at time `now` and returns the broadcast that tells the other members of
    /// the room registered as `room_id`. A refused join changes nothing.
    fn join_at(
        &mut self,
        room_id: &RoomId,
        client_id: ClientId,
        metadata: Self::ClientMetadata,
        now: i64,
    ) -> (r: Result<Vec<BrokerCall<Self::ServerMessageType, Self::Diff>>, RoomError>)
        requires
            old(self).inv(),
        ensures
            final(self).inv(),
            r is Ok <==> !Self::spec_members(old(self)@).contains(client_id@),
            r is Ok ==> final(self)@ == Self::spec_joined(old(self)@, client_id@, metadata, now)
                && Self::spec_join_announced(calls_view(r->Ok_0@), room_id@, client_id@, now),
            r is Err ==> final(self)@ == old(self)@,
            r matches Err(e) ==> e matches RoomError::ClientAlreadyPresent(x) && x@ == client_id@,
    ;

    /// Removes a client at time `now` and returns the broadcast that tells the remaining
    /// members of the room registered as `room_id`. A refused leave changes nothing.
    fn leave_at(
        &mut self,
        room_id: &RoomId,
        client_id: &ClientId,
        now: i64,
    ) -> (r: Result<Vec<BrokerCall<Self::ServerMessageType, Self::Diff>>, RoomError>)
        requires
            old(self).inv(),
        ensures
            final(self).inv(),
            r is Ok <==> Self::spec_members(old(self)@).contains(client_id@),
            r is Ok ==> final(self)@ == Self::spec_left(old(self)@, client_id@, now)
                && Self::spec_leave_announced(calls_view(r->Ok_0@), room_id@, client_id@, now),
            r is Err ==> final(self)@ == old(self)@,
            r matches Err(e) ==> e matches RoomError::ClientNotFound(x) && x@ == client_id@,
    ;
}

impl RoomLike for Presentation {
    type ClientMessageType = PresentationClientMessage;
    type ServerMessageType = ServerMessageType;
    type Diff = StorageDiff;
    type ClientMetadata = PresentationClientData;

    open spec fn inv(&self) -> bool {
        self.wf()
    }

    open spec fn spec_members(s: RoomState) -> Set<Seq<char>> {
        s.clients.dom()
    }

    open spec fn spec_command(
        s: RoomState,
        t: RoomState,
        c: Seq<char>,
        msg: Message<PresentationClientMessage>,
        now: i64,
        r: Result<TransactionOutcome<ServerMessageType, StorageDiff>, RoomError>,
    ) -> bool {
        command_effect(s, t, c, msg, now, r)
    }

    open spec fn spec_joined(s: RoomState, c: Seq<char>, m: PresentationClientData, now: i64) -> RoomState {
        joined(s, c, m, now)
    }

    open spec fn spec_left(s: RoomState, c: Seq<char>, now: i64) -> RoomState {
        left(s, c, now)
    }

    open spec fn spec_join_announced(calls: Seq<PlannedCall<ServerMessageType, StorageDiff>>, room: Seq<char>, c: Seq<char>, now: i64) -> bool {
        join_announced(calls, room, c, now)
    }

    open spec fn spec_leave_announced(calls: Seq<PlannedCall<ServerMessageType, StorageDiff>>, room: Seq<char>, c: Seq<char>, now: i64) -> bool {
        leave_announced(calls, room, c, now)
    }

    fn room_type(&self) -> &'static str {
        Presentation::room_type(self)
    }

    fn is_empty(&self) -> (r: bool) {
        Presentation::is_empty(self)
    }

    fn snapshot(&self) -> (r: Presentation) {
        Presentation::snapshot(self)
    }

    /// Applies one command at time `now` and returns the broker calls that carry out its
    /// outcome for the room registered as `room_id`, in order. A refused command changes
    /// nothing.
    fn handle_message_at(
        &mut self,
        room_id: &RoomId,
        client_id: &ClientId,
        message: Message<PresentationClientMessage>,
        now: i64,
    ) -> (r: Result<Vec<BrokerCall<ServerMessageType, StorageDiff>>, RoomError>)
    {
        let ghost msg = message;
        match self.apply_client_message_at(client_id, message, now) {
            Ok(outcome) => {
                let ghost o = outcome;
                assert(command_effect(old(self)@, self@, client_id@, msg, now, Ok(o)));
                Ok(plan_outcome(room_id, client_id, outcome))
            },
            Err(e) => Err(e),
        }
    }

    /// Adds a client at time `now` and returns the broadcast that tells the other members of
    /// the room registered as `room_id`. A refused join changes nothing.
    fn join_at(
        &mut self,
        room_id: &RoomId,
        client_id: ClientId,
        metadata: PresentationClientData,
        now: i64,
    ) -> (r: Result<Vec<BrokerCall<ServerMessageType, StorageDiff>>, RoomError>)
    {
        let socket_id = client_id.to_owned_string();
        let sender = client_id.duplicate();
        match self.add_client_at(client_id, metadata, now) {
            Ok(()) => {
                let event = Message {
                    room_id: room_id.duplicate(),
                    payload: ServerMessageType::RoomJoined {
                        room_id: room_id.duplicate(),
                        socket_id,
                        user_info: None,
                        entered_at: now,
                    },
                    datetime: now,
                    sender_id: Some(sender.to_owned_string()),
                    request_id: None,
                    broadcast: Some(true),
                };
                let calls = plan_outcome(
                    room_id,
                    &sender,
                    TransactionOutcome::Broadcast { message: event, exclude_sender: true },
                );
                proof {
                    reveal_strlit("RoomJoined");
                }
                Ok(calls)
            },
            Err(e) => Err(e),
        }
    }

    /// Removes a client at time `now` and returns the broadcast that tells the remaining
    /// members of the room registered as `room_id`. A refused leave changes nothing.
    fn leave_at(
        &mut self,
        room_id: &RoomId,
        client_id: &ClientId,
        now: i64,
    ) -> (r: Result<Vec<BrokerCall<ServerMessageType, StorageDiff>>, RoomError>)
    {
        match self.remove_client_at(client_id, now) {
            Ok(_) => {
                let event = Message {
                    room_id: room_id.duplicate(),
                    payload: ServerMessageType::RoomLeft { room_id: room_id.duplicate(), socket_id: client_id.to_owned_string() },
                    datetime: now,
                    sender_id: Some(client_id.to_owned_string()),
                    request_id: None,
                    broadcast: Some(true),
                };
                let calls = plan_outcome(
                    room_id,
                    client_id,
                    TransactionOutcome::Broadcast { message: event, exclude_sender: false },
                );
                proof {
                    reveal_strlit("RoomLeft");
                }
                Ok(calls)
            },
            Err(e) => Err(e),
        }
    }
}

impl Presentation {
    /// `handle_message_at` at the current time.
    pub fn handle_message(
        &mut self,
        room_id: &RoomId,
        client_id: &ClientId,
        message: Message<PresentationClientMessage>,
    ) -> (r: Result<Vec<BrokerCall<ServerMessageType, StorageDiff>>, RoomError>)
        requires
            old(self).wf(),
        ensures
            final(self).wf(),
            r is Ok ==> exists|o: TransactionOutcome<ServerMessageType, StorageDiff>, now: i64|
                command_effect(old(self)@, final(self)@, client_id@, message, now, Ok(o))
                && calls_view(r->Ok_0@) == planned(room_id@, client_id@, o),
            r matches Err(e) ==> exists|now: i64| command_effect(old(self)@, final(self)@, client_id@, message, now, Err(e)),
    {
        let now = now_millis();
        self.handle_message_at(room_id, client_id, message, now)
    }

    /// `join_at` at the current time.
    pub fn join(
        &mut self,
        room_id: &RoomId,
        client_id: ClientId,
        metadata: PresentationClientData,
    ) -> (r: Result<Vec<BrokerCall<ServerMessageType, StorageDiff>>, RoomError>)
        requires
            old(self).wf(),
        ensures
            final(self).wf(),
            r is Ok <==> !old(self)@.clients.contains_key(client_id@),
            r is Ok ==> exists|now: i64| final(self)@ == joined(old(self)@, client_id@, metadata, now)
                && join_announced(calls_view(r->Ok_0@), room_id@, client_id@, now),
            r is Err ==> final(self)@ == old(self)@,
    {
        let now = now_millis();
        self.join_at(room_id, client_id, metadata, now)
    }

    /// `leave_at` at the current time.
    pub fn leave(
        &mut self,
        room_id: &RoomId,
        client_id: &ClientId,
    ) -> (r: Result<Vec<BrokerCall<ServerMessageType, StorageDiff>>, RoomError>)
        requires
            old(self).wf(),
        ensures
            final(self).wf(),
            r is Ok <==> old(self)@.clients.contains_key(client_id@),
            r is Ok ==> exists|now: i64| final(self)@ == left(old(self)@, client_id@, now)
                && leave_announced(calls_view(r->Ok_0@), room_id@, client_id@, now),
            r is Err ==> final(self)@ == old(self)@,
    {
        let now = now_millis();
        self.leave_at(room_id, client_id, now)
    }
}

impl<R: RoomLike> RoomManager<R> {
    pub closed spec fn rooms_ok(&self) -> bool {
        self.rooms.wf() && rooms_inv(self.rooms@)
    }

    /// Registers a room that keeps its invariant.
    pub fn register_room(&mut self, room_id: RoomId, room: R) -> (r: Result<(), RoomError>)
        requires
            old(self).rooms_ok(),
            room.inv(),
        ensures
            final(self).rooms_ok(),
            r is Ok <==> !old(self)@.contains_key(room_id@),
            r is Ok ==> final(self)@ == old(self)@.insert(room_id@, room),
            r is Err ==> final(self)@ == old(self)@,
            r matches Err(e) ==> e matches RoomError::RoomAlreadyExists(x) && x@ == room_id@,
    {
        let ghost rid = room_id@;
        let r = self.add_room(room_id, room);
        proof {
            assert forall|k: Seq<char>| self.rooms@.contains_key(k) implies (#[trigger] self.rooms@[k]).inv() by {
                if k != rid || r is Err {
                    assert(old(self).rooms@.contains_key(k));
                }
            }
        }
        r
    }

    /// Removes a room from the registry for a while, to work on it.
    fn take_room(&mut self, room_id: &RoomId) -> (r: Option<R>)
        requires
            old(self).rooms_ok(),
        ensures
            final(self).rooms_ok(),
            final(self)@ == old(self)@.remove(room_id@),
            r is None <==> !old(self)@.contains_key(room_id@),
            r matches Some(room) ==> room == old(self)@[room_id@] && room.inv(),
    {
        self.rooms.remove(room_id.as_str())
    }

    /// Puts a room back under its identifier.
    fn put_room(&mut self, room_id: &RoomId, room: R)
        requires
            old(self).rooms_ok(),
            room.inv(),
        ensures
            final(self).rooms_ok(),
            final(self)@ == old(self)@.insert(room_id@, room),
    {
        self.rooms.upsert(room_id.as_str().to_owned(), room);
    }

    /// An exact copy of a registered room.
    pub fn get_room_snapshot(&self, room_id: &RoomId) -> (r: Result<R, RoomError>)
        requires
            self.rooms_ok(),
        ensures
            r is Ok <==> self@.contains_key(room_id@),
            r matches Ok(room) ==> room.inv() && room@ == self@[room_id@]@,
            r matches Err(e) ==> e matches RoomError::RoomNotFound(x) && x@ == room_id@,
    {
        match self.rooms.get(room_id.as_str()) {
            Some(room) => Ok(room.snapshot()),
            None => Err(RoomError::RoomNotFound(room_id.duplicate())),
        }
    }

    /// Applies one command to its room at time `now` and returns the broker calls that carry
    /// out its outcome, in order. A refused command changes nothing.
    pub fn handle_client_message_at(
        &mut self,
        room_id: &RoomId,
        client_id: &ClientId,
        message: Message<R::ClientMessageType>,
        now: i64,
    ) -> (r: Result<Vec<BrokerCall<R::ServerMessageType, R::Diff>>, RoomError>)
        requires
            old(self).rooms_ok(),
        ensures
            final(self).rooms_ok(),
            !old(self)@.contains_key(room_id@) ==> final(self)@ == old(self)@,
            !old(self)@.contains_key(room_id@) ==> (r matches Err(e) && e matches RoomError::RoomNotFound(x) && x@ == room_id@),
            old(self)@.contains_key(room_id@) ==> final(self)@.contains_key(room_id@) && final(self)@ == old(self)@.insert(room_id@, final(self)@[room_id@]),
            old(self)@.contains_key(room_id@) && r is Ok ==> exists|o: TransactionOutcome<R::ServerMessageType, R::Diff>|
                R::spec_command(old(self)@[room_id@]@, final(self)@[room_id@]@, client_id@, message, now, Ok(o))
                && calls_view(r->Ok_0@) == planned(room_id@, client_id@, o),
            old(self)@.contains_key(room_id@) ==> (r matches Err(e) ==> R::spec_command(
                old(self)@[room_id@]@,
                final(self)@[room_id@]@,
                client_id@,
                message,
                now,
                Err(e),
            )),
    {
        let mut room = match self.take_room(room_id) {
            Some(room) => room,
            None => {
                proof {
                    assert(self@ =~= old(self)@);
                }
                return Err(RoomError::RoomNotFound(room_id.duplicate()));
            },
        };
        let r = room.handle_message_at(room_id, client_id, message, now);
        self.put_room(room_id, room);
        proof {
            assert(self@ =~= old(self)@.insert(room_id@, room));
        }
        r
    }

    /// `handle_client_message_at` at the current time.
    pub fn handle_client_message(
        &mut self,
        room_id: &RoomId,
        client_id: &ClientId,
        message: Message<R::ClientMessageType>,
    ) -> (r: Result<Vec<BrokerCall<R::ServerMessageType, R::Diff>>, RoomError>)
        requires
            old(self).rooms_ok(),
        ensures
            final(self).rooms_ok(),
            !old(self)@.contains_key(room_id@) ==> final(self)@ == old(self)@,
            !old(self)@.contains_key(room_id@) ==> (r matches Err(e) && e matches RoomError::RoomNotFound(x) && x@ == room_id@),
            old(self)@.contains_key(room_id@) ==> final(self)@.contains_key(room_id@) && final(self)@ == old(self)@.insert(room_id@, final(self)@[room_id@]),
            old(self)@.contains_key(room_id@) && r is Ok ==> exists|o: TransactionOutcome<R::ServerMessageType, R::Diff>, now: i64|
                R::spec_command(old(self)@[room_id@]@, final(self)@[room_id@]@, client_id@, message, now, Ok(o))
                && calls_view(r->Ok_0@) == planned(room_id@, client_id@, o),
            old(self)@.contains_key(room_id@) ==> (r matches Err(e) ==> exists|now: i64| R::spec_command(
                old(self)@[room_id@]@,
                final(self)@[room_id@]@,
                client_id@,
                message,
                now,
                Err(e),
            )),
    {
        let now = now_millis();
        self.handle_client_message_at(room_id, client_id, message, now)
    }

    /// Adds a client to a room at time `now` and returns the broadcast that tells the other
    /// members. A refused join changes nothing.
    pub fn join_room_at(
        &mut self,
        room_id: &RoomId,
        client_id: ClientId,
        metadata: R::ClientMetadata,
        now: i64,
    ) -> (r: Result<Vec<BrokerCall<R::ServerMessageType, R::Diff>>, RoomError>)
        requires
            old(self).rooms_ok(),
        ensures
            final(self).rooms_ok(),
            r is Ok <==> old(self)@.contains_key(room_id@) && !R::spec_members(old(self)@[room_id@]@).contains(client_id@),
            r is Ok ==> final(self)@.contains_key(room_id@)
                && final(self)@ == old(self)@.insert(room_id@, final(self)@[room_id@])
                && final(self)@[room_id@]@ == R::spec_joined(old(self)@[room_id@]@, client_id@, metadata, now)
                && R::spec_join_announced(calls_view(r->Ok_0@), room_id@, client_id@, now),
            r is Err && old(self)@.contains_key(room_id@) ==> final(self)@.contains_key(room_id@)
                && final(self)@ == old(self)@.insert(room_id@, final(self)@[room_id@])
                && final(self)@[room_id@]@ == old(self)@[room_id@]@,
            r is Err && !old(self)@.contains_key(room_id@) ==> final(self)@ == old(self)@,
            !old(self)@.contains_key(room_id@) ==> (r matches Err(e) && e matches RoomError::RoomNotFound(x) && x@ == room_id@),
            old(self)@.contains_key(room_id@) && r is Err ==> (r matches Err(e) && e matches RoomError::ClientAlreadyPresent(x) && x@ == client_id@),
    {
        let mut room = match self.take_room(room_id) {
            Some(room) => room,
            None => {
                proof {
                    assert(self@ =~= old(self)@);
                }
                return Err(RoomError::RoomNotFound(room_id.duplicate()));
            },
        };
        let r = room.join_at(room_id, client_id, metadata, now);
        self.put_room(room_id, room);
        proof {
            assert(self@ =~= old(self)@.insert(room_id@, room));
        }
        r
    }

    /// Removes a client from a room at time `now` and returns the broadcast that tells the
    /// remaining members. A refused leave changes nothing.
    pub fn leave_room_at(
        &mut self,
        room_id: &RoomId,
        client_id: &ClientId,
        now: i64,
    ) -> (r: Result<Vec<BrokerCall<R::ServerMessageType, R::Diff>>, RoomError>)
        requires
            old(self).rooms_ok(),
        ensures
            final(self).rooms_ok(),
            r is Ok <==> old(self)@.contains_key(room_id@) && R::spec_members(old(self)@[room_id@]@).contains(client_id@),
            r is Ok ==> final(self)@.contains_key(room_id@)
                && final(self)@ == old(self)@.insert(room_id@, final(self)@[room_id@])
                && final(self)@[room_id@]@ == R::spec_left(old(self)@[room_id@]@, client_id@, now)
                && R::spec_leave_announced(calls_view(r->Ok_0@), room_id@, client_id@, now),
            r is Err && old(self)@.contains_key(room_id@) ==> final(self)@.contains_key(room_id@)
                && final(self)@ == old(self)@.insert(room_id@, final(self)@[room_id@])
                && final(self)@[room_id@]@ == old(self)@[room_id@]@,
            r is Err && !old(self)@.contains_key(room_id@) ==> final(self)@ == old(self)@,
            !old(self)@.contains_key(room_id@) ==> (r matches Err(e) && e matches RoomError::RoomNotFound(x) && x@ == room_id@),
            old(self)@.contains_key(room_id@) && r is Err ==> (r matches Err(e) && e matches RoomError::ClientNotFound(x) && x@ == client_id@),
    {
        let mut room = match self.take_room(room_id) {
            Some(room) => room,
            None => {
                proof {
                    assert(self@ =~= old(self)@);
                }
                return Err(RoomError::RoomNotFound(room_id.duplicate()));
            },
        };
        let r = room.leave_at(room_id, client_id, now);
        self.put_room(room_id, room);
        proof {
            assert(self@ =~= old(self)@.insert(room_id@, room));
        }
        r
    }

    /// Deletes a room only if it is registered and has no client; says whether it did.
    pub fn remove_if_empty(&mut self, room_id: &RoomId) -> (r: bool)
        requires
            old(self).rooms_ok(),
        ensures
            final(self).rooms_ok(),
            r <==> old(self)@.contains_key(room_id@) && R::spec_members(old(self)@[room_id@]@).is_empty(),
            r ==> final(self)@ == old(self)@.remove(room_id@),
            !r ==> final(self)@ == old(self)@,
    {
        let empty = match self.rooms.get(room_id.as_str()) {
            Some(room) => room.is_empty(),
            None => false,
        };
        if empty {
            let _ = self.rooms.remove(room_id.as_str());
        }
        empty
    }

    /// Deletes every room that has no client, and only those; returns their identifiers.
    pub fn reap(&mut self) -> (r: Vec<RoomId>)
        requires
            old(self).rooms_ok(),
        ensures
            final(self).rooms_ok(),
            forall|k: Seq<char>| #[trigger] final(self)@.contains_key(k) <==> old(self)@.contains_key(k)
                && !R::spec_members(old(self)@[k]@).is_empty(),
            forall|k: Seq<char>| #[trigger] final(self)@.contains_key(k) ==> final(self)@[k] == old(self)@[k],
            forall|i: int| 0 <= i < r@.len() ==> old(self)@.contains_key(#[trigger] r@[i]@)
                && R::spec_members(old(self)@[r@[i]@]@).is_empty(),
    {
        let ids = self.room_ids();
        let mut removed: Vec<RoomId> = Vec::new();
        let mut i: usize = 0;
        while i < ids.len()
            invariant
                self.rooms_ok(),
                i <= ids@.len(),
                forall|k: Seq<char>| old(self)@.contains_key(k) ==> exists|j: int| 0 <= j < ids@.len() && #[trigger] ids@[j]@ == k,
                forall|k: Seq<char>| #[trigger] self@.contains_key(k) ==> old(self)@.contains_key(k) && self@[k] == old(self)@[k],
                forall|k: Seq<char>| old(self)@.contains_key(k) && !R::spec_members(old(self)@[k]@).is_empty() ==> #[trigger] self@.contains_key(k),
                forall|j: int| 0 <= j < i && old(self)@.contains_key(#[trigger] ids@[j]@) ==> (self@.contains_key(ids@[j]@) <==> !R::spec_members(old(self)@[ids@[j]@]@).is_empty()),
                forall|k: Seq<char>| old(self)@.contains_key(k) && (forall|j: int| 0 <= j < i ==> #[trigger] ids@[j]@ != k) ==> self@.contains_key(k),
                forall|j: int| 0 <= j < removed@.len() ==> old(self)@.contains_key(#[trigger] removed@[j]@)
                    && R::spec_members(old(self)@[removed@[j]@]@).is_empty(),
            decreases ids@.len() - i,
        {
            let ghost before = self@;
            if self.remove_if_empty(&ids[i]) {
                removed.push(ids[i].duplicate());
            }
            proof {
                assert forall|j: int| 0 <= j < i + 1 && old(self)@.contains_key(#[trigger] ids@[j]@) implies (self@.contains_key(ids@[j]@)
                    <==> !R::spec_members(old(self)@[ids@[j]@]@).is_empty()) by {
                    if j < i && ids@[j]@ != ids@[i as int]@ {
                        assert(self@.contains_key(ids@[j]@) == before.contains_key(ids@[j]@));
                    }
                }
                assert forall|k: Seq<char>| old(self)@.contains_key(k) && (forall|j: int| 0 <= j < i + 1 ==> #[trigger] ids@[j]@ != k) implies self@.contains_key(k) by {
                    assert(ids@[i as int]@ != k);
                    assert(forall|j: int| 0 <= j < i ==> #[trigger] ids@[j]@ != k);
                }
            }
            i = i + 1;
        }
        proof {
            assert forall|k: Seq<char>| #[trigger] self@.contains_key(k) <==> old(self)@.contains_key(k)
                && !R::spec_members(old(self)@[k]@).is_empty() by {
                if old(self)@.contains_key(k) {
                    let j = choose|j: int| 0 <= j < ids@.len() && #[trigger] ids@[j]@ == k;
                }
            }
        }
        removed
    }
}

} // verus!
