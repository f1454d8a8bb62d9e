//! The identifier types of the protocol.
//!
//! A `UserToken` is the caller-supplied private key of a user within a room;
//! a `PubId` is the server-generated pseudonym under which that user is shown
//! to peers and under which votes are recorded; a `RoomToken` names a room;
//! a `StoryId` names a story. All four are opaque strings, kept as distinct
//! types so they can never be interchanged.

use vstd::prelude::*;

verus! {

/// Private, caller-supplied identity of a user (never shown to peers).
pub struct UserToken {
    pub text: String,
}

/// Server-generated pseudonym of a user, visible to peers.
pub struct PubId {
    pub text: String,
}

/// Caller-supplied name of a room.
pub struct RoomToken {
    pub text: String,
}

/// Server-generated identifier of a story.
pub struct StoryId {
    pub text: String,
}

impl View for UserToken {
    type V = Seq<char>;

    open spec fn view(&self) -> Seq<char> {
        self.text@
    }
}

impl View for PubId {
    type V = Seq<char>;

    open spec fn view(&self) -> Seq<char> {
        self.text@
    }
}

impl View for RoomToken {
    type V = Seq<char>;

    open spec fn view(&self) -> Seq<char> {
        self.text@
    }
}

impl View for StoryId {
    type V = Seq<char>;

    open spec fn view(&self) -> Seq<char> {
        self.text@
    }
}

impl UserToken {
    pub fn new(text: String) -> (r: Self)
        ensures
            r@ == text@,
    {
        UserToken { text }
    }

    pub fn dup(&self) -> (r: Self)
        ensures
            r == *self,
    {
        UserToken { text: self.text.clone() }
    }

    pub fn same(&self, other: &Self) -> (r: bool)
        ensures
            r == (self@ == other@),
    {
        self.text == other.text
    }
}

impl PubId {
    pub fn new(text: String) -> (r: Self)
        ensures
            r@ == text@,
    {
        PubId { text }
    }

    pub fn dup(&self) -> (r: Self)
        ensures
            r == *self,
    {
        PubId { text: self.text.clone() }
    }

    pub fn same(&self, other: &Self) -> (r: bool)
        ensures
            r == (self@ == other@),
    {
        self.text == other.text
    }
}

impl RoomToken {
    pub fn new(text: String) -> (r: Self)
        ensures
            r@ == text@,
    {
        RoomToken { text }
    }

    pub fn dup(&self) -> (r: Self)
        ensures
            r == *self,
    {
        RoomToken { text: self.text.clone() }
    }

    pub fn same(&self, other: &Self) -> (r: bool)
        ensures
            r == (self@ == other@),
    {
        self.text == other.text
    }
}

impl StoryId {
    pub fn new(text: String) -> (r: Self)
        ensures
            r@ == text@,
    {
        StoryId { text }
    }

    pub fn dup(&self) -> (r: Self)
        ensures
            r == *self,
    {
        StoryId { text: self.text.clone() }
    }

    pub fn same(&self, other: &Self) -> (r: bool)
        ensures
            r == (self@ == other@),
    {
        self.text == other.text
    }
}

} // verus!
