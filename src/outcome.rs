use vstd::prelude::*;

use crate::ids::{ClientId, RoomId};
use crate::message::{Message, ServerMessageTypeLike};

verus! {

/// What applying one command asks the manager to send, and to whom.
#[derive(Debug)]
pub enum TransactionOutcome<M, D> {
    /// Nothing to send.
    Nothing,
    /// An event for everyone in the room, the sender left out where `exclude_sender` holds.
    Broadcast { message: Message<M>, exclude_sender: bool },
    /// A storage change for everyone in the room, the sender left out where `exclude_sender`
    /// holds.
    BroadcastStorageUpdate { diff: D, exclude_sender: bool },
    /// An event for the listed clients only.
    SendTo { clients: Vec<ClientId>, message: Message<M> },
    /// Several of the above, in order.
    Multiple(Vec<TransactionOutcome<M, D>>),
}

/// The handle of the Socket.IO message broker; its calls are made outside the library.
#[derive(Debug, Clone, Copy)]
pub struct SocketIoMessageBroker {}

impl SocketIoMessageBroker {
    pub fn new() -> (r: SocketIoMessageBroker) {
        SocketIoMessageBroker {}
    }
}

/// What a broker call carries.
#[derive(Debug)]
pub enum BrokerPayload<M, D> {
    Event(Message<M>),
    StorageUpdate(D),
}

/// One call into the message broker.
#[derive(Debug)]
pub enum BrokerCall<M, D> {
    /// `send(recipients, msg_name, message)`.
    Send { recipients: Vec<ClientId>, msg_name: String, message: Message<M> },
    /// `broadcast(room_id, msg_name, payload, exclude)`.
    Broadcast { room_id: String, msg_name: String, payload: BrokerPayload<M, D>, exclude: Vec<ClientId> },
}

/// A broker call with its strings and client lists seen as their contents.
pub enum PlannedCall<M, D> {
    Send { recipients: Seq<Seq<char>>, msg_name: Seq<char>, message: Message<M> },
    Broadcast { room_id: Seq<char>, msg_name: Seq<char>, payload: BrokerPayload<M, D>, exclude: Seq<Seq<char>> },
}

/// The identifiers a list of clients holds.
pub open spec fn client_texts(v: Seq<ClientId>) -> Seq<Seq<char>> {
    Seq::new(v.len(), |i: int| v[i]@)
}

impl<M, D> View for BrokerCall<M, D> {
    type V = PlannedCall<M, D>;

    open spec fn view(&self) -> PlannedCall<M, D> {
        match *self {
            BrokerCall::Send { recipients, msg_name, message } => PlannedCall::Send {
                recipients: client_texts(recipients@),
                msg_name: msg_name@,
                message,
            },
            BrokerCall::Broadcast { room_id, msg_name, payload, exclude } => PlannedCall::Broadcast {
                room_id: room_id@,
                msg_name: msg_name@,
                payload,
                exclude: client_texts(exclude@),
            },
        }
    }
}

pub open spec fn calls_view<M, D>(s: Seq<BrokerCall<M, D>>) -> Seq<PlannedCall<M, D>> {
    Seq::new(s.len(), |i: int| s[i]@)
}

/// Who a broadcast leaves out: the sender where asked, else nobody.
pub open spec fn excluded(sender: Seq<char>, exclude_sender: bool) -> Seq<Seq<char>> {
    if exclude_sender {
        seq![sender]
    } else {
        Seq::empty()
    }
}

/// The broker calls that interpreting `o` for room `room` and sender `sender` makes, in order.
pub open spec fn planned<M: ServerMessageTypeLike, D>(
    room: Seq<char>,
    sender: Seq<char>,
    o: TransactionOutcome<M, D>,
) -> Seq<PlannedCall<M, D>>
    decreases o, 1nat, 0nat,
{
    match o {
        TransactionOutcome::Nothing => Seq::empty(),
        TransactionOutcome::Broadcast { message, exclude_sender } => seq![
            PlannedCall::Broadcast {
                room_id: room,
                msg_name: message.payload.spec_name(),
                payload: BrokerPayload::Event(message),
                exclude: excluded(sender, exclude_sender),
            },
        ],
        TransactionOutcome::BroadcastStorageUpdate { diff, exclude_sender } => seq![
            PlannedCall::Broadcast {
                room_id: room,
                msg_name: "storage_update"@,
                payload: BrokerPayload::StorageUpdate(diff),
                exclude: excluded(sender, exclude_sender),
            },
        ],
        TransactionOutcome::SendTo { clients, message } => seq![
            PlannedCall::Send {
                recipients: client_texts(clients@),
                msg_name: message.payload.spec_name(),
                message,
            },
        ],
        TransactionOutcome::Multiple(_) => planned_from(room, sender, o, 0),
    }
}

/// The calls for the parts of a `Multiple` outcome from position `i` on.
pub open spec fn planned_from<M: ServerMessageTypeLike, D>(
    room: Seq<char>,
    sender: Seq<char>,
    o: TransactionOutcome<M, D>,
    i: nat,
) -> Seq<PlannedCall<M, D>>
    decreases o, 0nat, if o is Multiple && i < o->Multiple_0@.len() { (o->Multiple_0@.len() - i) as nat } else { 0nat },
{
    match o {
        TransactionOutcome::Multiple(v) => {
            if i < v@.len() {
                planned(room, sender, v@[i as int]) + planned_from(room, sender, o, i + 1)
            } else {
                Seq::empty()
            }
        },
        _ => Seq::empty(),
    }
}

/// Turns an outcome into the broker calls that carry it out, in the order they must be made.
pub fn plan_outcome<M: ServerMessageTypeLike, D>(
    room_id: &RoomId,
    sender: &ClientId,
    outcome: TransactionOutcome<M, D>,
) -> (r: Vec<BrokerCall<M, D>>)
    ensures
        calls_view(r@) == planned(room_id@, sender@, outcome),
    decreases outcome,
{
    let ghost o = outcome;
    match outcome {
        TransactionOutcome::Nothing => {
            let r: Vec<BrokerCall<M, D>> = Vec::new();
            assert(calls_view(r@) =~= planned(room_id@, sender@, o));
            r
        },
        TransactionOutcome::Broadcast { message, exclude_sender } => {
            let msg_name = String::from_str(message.payload.name());
            let exclude = if exclude_sender {
                vec![sender.duplicate()]
            } else {
                Vec::new()
            };
            let r = vec![
                BrokerCall::Broadcast {
                    room_id: room_id.as_str().to_owned(),
                    msg_name,
                    payload: BrokerPayload::Event(message),
                    exclude,
                },
            ];
            assert(client_texts(exclude@) =~= excluded(sender@, exclude_sender));
            assert(calls_view(r@) =~= planned(room_id@, sender@, o));
            r
        },
        TransactionOutcome::BroadcastStorageUpdate { diff, exclude_sender } => {
            let msg_name = String::from_str("storage_update");
            let exclude = if exclude_sender {
                vec![sender.duplicate()]
            } else {
                Vec::new()
            };
            let r = vec![
                BrokerCall::Broadcast {
                    room_id: room_id.as_str().to_owned(),
                    msg_name,
                    payload: BrokerPayload::StorageUpdate(diff),
                    exclude,
                },
            ];
            assert(client_texts(exclude@) =~= excluded(sender@, exclude_sender));
            assert(calls_view(r@) =~= planned(room_id@, sender@, o));
            r
        },
        TransactionOutcome::SendTo { clients, message } => {
            let msg_name = String::from_str(message.payload.name());
            let r = vec![BrokerCall::Send { recipients: clients, msg_name, message }];
            assert(calls_view(r@) =~= planned(room_id@, sender@, o));
            r
        },
        TransactionOutcome::Multiple(parts) => {
            let ghost all = parts;
            let mut rest = parts;
            let mut out: Vec<BrokerCall<M, D>> = Vec::new();
            let mut i: usize = 0;
            let total: usize = rest.len();
            assert(calls_view(out@) =~= Seq::empty());
            while rest.len() > 0
                invariant
                    o == TransactionOutcome::<M, D>::Multiple(all),
                    i <= all@.len(),
                    i + rest@.len() == all@.len(),
                    all@.len() == total,
                    outcome == o,
                    rest@ == all@.subrange(i as int, all@.len() as int),
                    calls_view(out@) + planned_from(room_id@, sender@, o, i as nat) == planned(room_id@, sender@, o),
                decreases rest@.len(),
            {
                let part = rest.remove(0);
                assert(part == all@[i as int]);
                assert(decreases_to!(o => all));
                assert(decreases_to!(all => all@[i as int]));
                assert(decreases_to!(o => part));
                let mut sub = plan_outcome(room_id, sender, part);
                let ghost before = out@;
                out.append(&mut sub);
                assert(calls_view(out@) =~= calls_view(before) + planned(room_id@, sender@, all@[i as int]));
                assert(planned_from(room_id@, sender@, o, i as nat) == planned(room_id@, sender@, all@[i as int])
                    + planned_from(room_id@, sender@, o, (i + 1) as nat));
                i = i + 1;
            }
            assert(planned_from(room_id@, sender@, o, i as nat) =~= Seq::empty());
            assert(calls_view(out@) =~= planned(room_id@, sender@, o));
            out
        },
    }
}

/// An empty `Multiple` outcome sends nothing, just as `Nothing` does.
pub proof fn lemma_empty_multiple_is_nothing<M: ServerMessageTypeLike, D>(
    room: Seq<char>,
    sender: Seq<char>,
    parts: Vec<TransactionOutcome<M, D>>,
)
    requires
        parts@.len() == 0,
    ensures
        planned(room, sender, TransactionOutcome::<M, D>::Multiple(parts)) == planned(
            room,
            sender,
            TransactionOutcome::<M, D>::Nothing,
        ),
{
    assert(planned(room, sender, TransactionOutcome::<M, D>::Multiple(parts)) =~= Seq::empty());
}

} // verus!
