use vstd::prelude::*;

verus! {

/// Identifies one connected participant; supplied by the transport and treated as opaque.
#[derive(Debug)]
pub struct ClientId {
    id: String,
}

impl View for ClientId {
    type V = Seq<char>;

    closed spec fn view(&self) -> Seq<char> {
        self.id@
    }
}

impl ClientId {
    pub fn from_string(id: &str) -> (r: ClientId)
        ensures
            r@ == id@,
    {
        ClientId { id: id.to_owned() }
    }

    pub fn from_owned(id: String) -> (r: ClientId)
        ensures
            r@ == id@,
    {
        ClientId { id }
    }

    pub fn as_str(&self) -> (r: &str)
        ensures
            r@ == self@,
    {
        self.id.as_str()
    }

    pub fn to_owned_string(&self) -> (r: String)
        ensures
            r@ == self@,
    {
        self.id.clone()
    }

    pub fn duplicate(&self) -> (r: ClientId)
        ensures
            r == *self,
    {
        ClientId { id: self.id.clone() }
    }

    pub fn same_as(&self, other: &ClientId) -> (r: bool)
        ensures
            r == (self@ == other@),
    {
        self.id == other.id
    }
}

/// The prefix of every room identifier that `RoomId::new` makes.
pub open spec fn room_prefix() -> Seq<char> {
    seq!['r', 'o', 'o', 'm', '_']
}

/// A character that a room identifier may hold: printable ASCII other than space.
pub open spec fn is_token_char(c: char) -> bool {
    '!' <= c && c <= '~'
}

/// What `RoomId::try_from` accepts: a non-empty run of printable characters.
pub open spec fn is_valid_room_token(s: Seq<char>) -> bool {
    s.len() > 0 && forall|i: int| 0 <= i < s.len() ==> is_token_char(#[trigger] s[i])
}

/// Relies on uuid's `Uuid::new_v4` and its `Display`: a random version-4 uuid in hyphenated
/// form, which has 36 characters.
#[verifier::external_body]
pub(crate) fn fresh_uuid() -> (r: String)
    ensures
        r@.len() == 36,
{
    uuid::Uuid::new_v4().to_string()
}

/// Why a string was refused as a room identifier.
#[derive(Debug, Clone, Copy, PartialEq, Eq, Structural)]
pub enum RoomIdError {
    Empty,
    NotPrintable,
}

/// Identifies a room; equal when the underlying strings are equal.
#[derive(Debug)]
pub struct RoomId {
    id: String,
}

impl View for RoomId {
    type V = Seq<char>;

    closed spec fn view(&self) -> Seq<char> {
        self.id@
    }
}

impl RoomId {
    /// A fresh identifier: `room_` followed by a random uuid.
    pub fn new() -> (r: RoomId)
        ensures
            r@.len() == 41,
            r@.subrange(0, 5) == room_prefix(),
    {
        let mut id = String::from_str("room_");
        let token = fresh_uuid();
        proof {
            reveal_strlit("room_");
        }
        id.append(token.as_str());
        assert(id@.subrange(0, 5) =~= room_prefix());
        RoomId { id }
    }

    pub fn from_string(id: &str) -> (r: RoomId)
        ensures
            r@ == id@,
    {
        RoomId { id: id.to_owned() }
    }

    /// Accepts a non-empty token of printable characters, and refuses anything else.
    pub fn try_from(s: String) -> (r: Result<RoomId, RoomIdError>)
        ensures
            r matches Ok(id) ==> id@ == s@,
            r is Ok <==> is_valid_room_token(s@),
            r == Err::<RoomId, RoomIdError>(RoomIdError::Empty) <==> s@.len() == 0,
    {
        let n = s.unicode_len();
        if n == 0 {
            return Err(RoomIdError::Empty);
        }
        let mut i: usize = 0;
        while i < n
            invariant
                n == s@.len(),
                i <= n,
                forall|j: int| 0 <= j < i ==> is_token_char(#[trigger] s@[j]),
            decreases n - i,
        {
            let c = s.get_char(i);
            if !('!' <= c && c <= '~') {
                return Err(RoomIdError::NotPrintable);
            }
            i = i + 1;
        }
        Ok(RoomId { id: s })
    }

    pub fn as_str(&self) -> (r: &str)
        ensures
            r@ == self@,
    {
        self.id.as_str()
    }

    pub fn into_string(self) -> (r: String)
        ensures
            r@ == self@,
    {
        self.id
    }

    pub fn duplicate(&self) -> (r: RoomId)
        ensures
            r == *self,
    {
        RoomId { id: self.id.clone() }
    }

    pub fn same_as(&self, other: &RoomId) -> (r: bool)
        ensures
            r == (self@ == other@),
    {
        self.id == other.id
    }
}

} // verus!
