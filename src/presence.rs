use vstd::prelude::*;

verus! {

/// Failures of presence handling.
#[derive(Debug, PartialEq, Eq)]
pub enum PresenceError {
    InvalidUpdate(String),
    SerializationError(String),
}

/// A pointer position on the shared canvas.
#[derive(Debug, Clone, Copy, PartialEq, Eq, Structural)]
pub struct Cursor {
    pub x: i64,
    pub y: i64,
}

/// A partial patch sent by a client. `None` leaves the cursor as it is; `Some(None)` clears it.
#[derive(Debug, Clone, Copy, PartialEq, Eq, Structural)]
pub struct PresenceUpdate {
    pub cursor: Option<Option<Cursor>>,
}

/// Per-client ephemeral state of a presentation room.
#[derive(Debug, Clone, Copy, PartialEq, Eq, Structural)]
pub struct PresentationPresence {
    pub cursor: Option<Cursor>,
    pub last_updated: i64,
}

/// The cursor that a patch leaves behind.
pub open spec fn patched_cursor(current: Option<Cursor>, u: PresenceUpdate) -> Option<Cursor> {
    match u.cursor {
        Some(c) => c,
        None => current,
    }
}

/// The presence after `update(u)` at time `now`.
pub open spec fn updated_presence(p: PresentationPresence, u: PresenceUpdate, now: i64) -> PresentationPresence {
    let c = patched_cursor(p.cursor, u);
    if c == p.cursor {
        p
    } else {
        PresentationPresence { cursor: c, last_updated: if now > p.last_updated { now } else { p.last_updated } }
    }
}

/// The presence after `merge(o)`: the more recent side's cursor wins where it has one.
pub open spec fn merged_presence(p: PresentationPresence, o: PresentationPresence) -> PresentationPresence {
    if o.last_updated > p.last_updated && o.cursor is Some {
        PresentationPresence { cursor: o.cursor, last_updated: o.last_updated }
    } else {
        p
    }
}

/// Per-client ephemeral state: patched by its client, reconciled with other copies, and
/// shown to the others in a network form. Each kind of presence proves that a patch which
/// leaves the visible state alone changes nothing.
pub trait PresenceLike: Sized {
    type Update;
    type NetworkFormat;

    spec fn spec_type_id() -> Seq<char>;

    spec fn spec_default_state() -> Self;

    /// The presence after patch `u` at time `now`.
    spec fn spec_updated(p: Self, u: Self::Update, now: i64) -> Self;

    /// The presence after reconciling with `o`.
    spec fn spec_merged(p: Self, o: Self) -> Self;

    /// What the other participants see.
    spec fn spec_visible(p: Self) -> Self::NetworkFormat;

    spec fn spec_last_updated(p: Self) -> i64;

    fn presence_type_id(&self) -> (r: &'static str)
        ensures
            r@ == Self::spec_type_id(),
    ;

    /// The state of a client that has just joined.
    fn default_state() -> (r: Self)
        ensures
            r == Self::spec_default_state(),
    ;

    /// Applies a client's patch at time `now`; says whether the visible state changed.
    fn update(&mut self, data: Self::Update, now: i64) -> (changed: bool)
        ensures
            *final(self) == Self::spec_updated(*old(self), data, now),
            changed == (Self::spec_visible(*final(self)) != Self::spec_visible(*old(self))),
            Self::spec_last_updated(*final(self)) >= Self::spec_last_updated(*old(self)),
    ;

    /// Reconciles with another copy of the same client's presence; says whether it changed.
    fn merge(&mut self, other: &Self) -> (changed: bool)
        ensures
            *final(self) == Self::spec_merged(*old(self), *other),
            changed == (*final(self) != *old(self)),
            Self::spec_last_updated(*final(self)) >= Self::spec_last_updated(*old(self)),
    ;

    fn last_updated(&self) -> (r: i64)
        ensures
            r == Self::spec_last_updated(*self),
    ;

    fn to_network_format(&self) -> (r: Self::NetworkFormat)
        ensures
            r == Self::spec_visible(*self),
    ;

    /// A patch that leaves the visible state as it was leaves the whole presence as it was.
    proof fn lemma_noop_update(p: Self, u: Self::Update, now: i64)
        requires
            Self::spec_visible(Self::spec_updated(p, u, now)) == Self::spec_visible(p),
        ensures
            Self::spec_updated(p, u, now) == p,
    ;
}

impl PresentationPresence {
    pub open spec fn spec_default() -> PresentationPresence {
        PresentationPresence { cursor: None, last_updated: 0 }
    }
}

impl PresenceLike for PresentationPresence {
    type Update = PresenceUpdate;
    type NetworkFormat = Option<Cursor>;

    open spec fn spec_type_id() -> Seq<char> {
        "presentation"@
    }

    open spec fn spec_default_state() -> PresentationPresence {
        PresentationPresence::spec_default()
    }

    open spec fn spec_updated(p: PresentationPresence, u: PresenceUpdate, now: i64) -> PresentationPresence {
        updated_presence(p, u, now)
    }

    open spec fn spec_merged(p: PresentationPresence, o: PresentationPresence) -> PresentationPresence {
        merged_presence(p, o)
    }

    open spec fn spec_visible(p: PresentationPresence) -> Option<Cursor> {
        p.cursor
    }

    open spec fn spec_last_updated(p: PresentationPresence) -> i64 {
        p.last_updated
    }

    fn presence_type_id(&self) -> (r: &'static str) {
        "presentation"
    }

    /// No cursor yet.
    fn default_state() -> (r: PresentationPresence) {
        PresentationPresence { cursor: None, last_updated: 0 }
    }

    fn update(&mut self, data: PresenceUpdate, now: i64) -> (changed: bool) {
        let c = match data.cursor {
            Some(c) => c,
            None => self.cursor,
        };
        if c == self.cursor {
            false
        } else {
            self.cursor = c;
            if now > self.last_updated {
                self.last_updated = now;
            }
            true
        }
    }

    fn merge(&mut self, other: &PresentationPresence) -> (changed: bool) {
        if other.last_updated > self.last_updated && other.cursor.is_some() {
            let before = *self;
            self.cursor = other.cursor;
            self.last_updated = other.last_updated;
            !(before.cursor == self.cursor && before.last_updated == self.last_updated)
        } else {
            false
        }
    }

    fn last_updated(&self) -> (r: i64) {
        self.last_updated
    }

    /// The cursor.
    fn to_network_format(&self) -> (r: Option<Cursor>) {
        self.cursor
    }

    proof fn lemma_noop_update(p: PresentationPresence, u: PresenceUpdate, now: i64) {
    }
}

} // verus!
