//! The room state model: users, stories, votes, rooms, and their
//! mathematical views.
//!
//! Every exec type here has a ghost model (`UserModel`, `StoryModel`,
//! `RoomModel`) over plain sequences of characters, and the contracts of the
//! whole library speak of those models.

use vstd::prelude::*;
use crate::ids::{PubId, StoryId, UserToken};

verus! {

/// What part a member plays: voters are counted by the visibility policy,
/// watchers only look on.
#[derive(PartialEq, Eq, Structural, Clone, Copy, Debug)]
pub enum Role {
    Voter,
    Watcher,
}

/// A story accepts votes while `Voting`; `Finished` is terminal.
#[derive(PartialEq, Eq, Structural, Clone, Copy, Debug)]
pub enum StoryState {
    Voting,
    Finished,
}

/// A participant's estimate. `Value` carries the numeric literal exactly as
/// it stood in the payload; `Hidden` is a presentation-layer placeholder that
/// is never stored in a story's vote map.
#[derive(PartialEq, Eq, Debug)]
pub enum Vote {
    Value(String),
    Coffee,
    Question,
    Hidden,
}

/// Ghost counterpart of [`Vote`].
pub ghost enum VoteModel {
    Value(Seq<char>),
    Coffee,
    Question,
    Hidden,
}

impl View for Vote {
    type V = VoteModel;

    open spec fn view(&self) -> VoteModel {
        match self {
            Vote::Value(s) => VoteModel::Value(s@),
            Vote::Coffee => VoteModel::Coffee,
            Vote::Question => VoteModel::Question,
            Vote::Hidden => VoteModel::Hidden,
        }
    }
}

impl Vote {
    pub fn dup(&self) -> (r: Self)
        ensures
            r == *self,
    {
        match self {
            Vote::Value(s) => Vote::Value(s.clone()),
            Vote::Coffee => Vote::Coffee,
            Vote::Question => Vote::Question,
            Vote::Hidden => Vote::Hidden,
        }
    }

    pub fn is_hidden(&self) -> (r: bool)
        ensures
            r == (self@ == VoteModel::Hidden),
    {
        match self {
            Vote::Hidden => true,
            _ => false,
        }
    }
}

/// The role a profile payload's flag stands for.
pub open spec fn role_of_flag(is_voter: bool) -> Role {
    if is_voter {
        Role::Voter
    } else {
        Role::Watcher
    }
}

/// Exec counterpart of [`role_of_flag`].
pub fn role_from_flag(is_voter: bool) -> (r: Role)
    ensures
        r == role_of_flag(is_voter),
{
    if is_voter {
        Role::Voter
    } else {
        Role::Watcher
    }
}

/// The vote a cast-vote payload's (kind, text) pair stands for: kind 0 is a
/// numeric vote carrying the number's text, 1 is Coffee, 2 is Question, and
/// any other kind is Hidden.
pub open spec fn vote_model_from_parts(kind: u8, text: Seq<char>) -> VoteModel {
    if kind == 0 {
        VoteModel::Value(text)
    } else if kind == 1 {
        VoteModel::Coffee
    } else if kind == 2 {
        VoteModel::Question
    } else {
        VoteModel::Hidden
    }
}

/// Exec counterpart of [`vote_model_from_parts`].
pub fn vote_from_parts(kind: u8, text: String) -> (v: Vote)
    ensures
        v@ == vote_model_from_parts(kind, text@),
{
    if kind == 0 {
        Vote::Value(text)
    } else if kind == 1 {
        Vote::Coffee
    } else if kind == 2 {
        Vote::Question
    } else {
        Vote::Hidden
    }
}

/// One member of a room. The record lives as long as the room: disconnecting
/// only clears `is_active` and `connected`.
pub struct User {
    /// Private key of the user within the room; never shown to peers.
    pub token: UserToken,
    /// Pseudonym under which the user appears to peers; assigned once.
    pub pub_id: PubId,
    pub name: String,
    pub role: Role,
    /// Whether the user currently counts as present.
    pub is_active: bool,
    /// Whether an outbound channel is attached (broadcasts reach the user).
    pub connected: bool,
}

/// Ghost counterpart of [`User`].
pub ghost struct UserModel {
    pub token: Seq<char>,
    pub pub_id: Seq<char>,
    pub name: Seq<char>,
    pub role: Role,
    pub is_active: bool,
    pub connected: bool,
}

impl View for User {
    type V = UserModel;

    open spec fn view(&self) -> UserModel {
        UserModel {
            token: self.token@,
            pub_id: self.pub_id@,
            name: self.name@,
            role: self.role,
            is_active: self.is_active,
            connected: self.connected,
        }
    }
}

impl User {
    /// A freshly admitted user: empty name, `Voter` role, active, with no
    /// channel attached yet.
    pub fn new(token: UserToken, pub_id: PubId) -> (r: Self)
        ensures
            r@ == (UserModel {
                token: token@,
                pub_id: pub_id@,
                name: Seq::<char>::empty(),
                role: Role::Voter,
                is_active: true,
                connected: false,
            }),
    {
        let r = User {
            token,
            pub_id,
            name: String::new(),
            role: Role::Voter,
            is_active: true,
            connected: false,
        };
        r
    }
}

/// A work item under estimation.
pub struct Story {
    pub id: StoryId,
    pub url: String,
    pub description: String,
    pub state: StoryState,
    /// Vote per public user id, in order of first cast.
    pub votes: Vec<(PubId, Vote)>,
}

/// Ghost counterpart of [`Story`].
pub ghost struct StoryModel {
    pub id: Seq<char>,
    pub url: Seq<char>,
    pub description: Seq<char>,
    pub state: StoryState,
    pub votes: Seq<(Seq<char>, VoteModel)>,
}

/// The model of a vote list: each pair as (public id, vote).
pub open spec fn votes_view(votes: Seq<(PubId, Vote)>) -> Seq<(Seq<char>, VoteModel)> {
    votes.map_values(|kv: (PubId, Vote)| (kv.0@, kv.1@))
}

impl View for Story {
    type V = StoryModel;

    open spec fn view(&self) -> StoryModel {
        StoryModel {
            id: self.id@,
            url: self.url@,
            description: self.description@,
            state: self.state,
            votes: votes_view(self.votes@),
        }
    }
}

/// Whether some vote is recorded under the public id `k`.
pub open spec fn has_vote(votes: Seq<(Seq<char>, VoteModel)>, k: Seq<char>) -> bool {
    exists|i: int| 0 <= i < votes.len() && votes[i].0 == k
}

/// The position of the vote recorded under `k` (well-defined when the keys
/// are unique and `has_vote` holds).
pub open spec fn vote_index(votes: Seq<(Seq<char>, VoteModel)>, k: Seq<char>) -> int {
    choose|i: int| 0 <= i < votes.len() && votes[i].0 == k
}

/// No two votes share a key.
pub open spec fn votes_unique(votes: Seq<(Seq<char>, VoteModel)>) -> bool {
    forall|i: int, j: int|
        0 <= i < j < votes.len() ==> votes[i].0 != votes[j].0
}

/// `Hidden` never stands in a stored vote map.
pub open spec fn no_hidden(votes: Seq<(Seq<char>, VoteModel)>) -> bool {
    forall|i: int| 0 <= i < votes.len() ==> votes[i].1 != VoteModel::Hidden
}

/// Well-formedness of a story: vote keys unique, no stored `Hidden`.
pub open spec fn story_wf(s: StoryModel) -> bool {
    votes_unique(s.votes) && no_hidden(s.votes)
}

/// Whether some user holds the private token `t`.
pub open spec fn has_user(users: Seq<UserModel>, t: Seq<char>) -> bool {
    exists|i: int| 0 <= i < users.len() && users[i].token == t
}

/// The position of the user holding `t` (well-defined when tokens are unique
/// and `has_user` holds).
pub open spec fn user_index(users: Seq<UserModel>, t: Seq<char>) -> int {
    choose|i: int| 0 <= i < users.len() && users[i].token == t
}

/// Whether some user carries the public id `p`.
pub open spec fn has_pub_id(users: Seq<UserModel>, p: Seq<char>) -> bool {
    exists|i: int| 0 <= i < users.len() && users[i].pub_id == p
}

/// No two users share a private token.
pub open spec fn users_unique(users: Seq<UserModel>) -> bool {
    forall|i: int, j: int|
        0 <= i < j < users.len() ==> users[i].token != users[j].token
}

/// An isolated collaborative session.
pub struct Room {
    /// Members, in order of first admission; never removed.
    pub users: Vec<User>,
    /// Stories, in order of submission.
    pub stories: Vec<Story>,
    /// Public id of the member allowed to remove/finish/select stories.
    pub owner: Option<PubId>,
    /// The story currently under discussion, if one was selected.
    pub active_story: Option<StoryId>,
    /// Human-readable creation timestamp, fixed at creation.
    pub created_at: String,
}

/// Ghost counterpart of [`Room`].
pub ghost struct RoomModel {
    pub users: Seq<UserModel>,
    pub stories: Seq<StoryModel>,
    pub owner: Option<Seq<char>>,
    pub active_story: Option<Seq<char>>,
    pub created_at: Seq<char>,
}

impl View for Room {
    type V = RoomModel;

    open spec fn view(&self) -> RoomModel {
        RoomModel {
            users: self.users@.map_values(|u: User| u@),
            stories: self.stories@.map_values(|s: Story| s@),
            owner: match self.owner {
                Some(p) => Some(p@),
                None => None,
            },
            active_story: match self.active_story {
                Some(s) => Some(s@),
                None => None,
            },
            created_at: self.created_at@,
        }
    }
}

/// Well-formedness of a room: member tokens unique, every story well-formed.
pub open spec fn room_wf(r: RoomModel) -> bool {
    &&& users_unique(r.users)
    &&& forall|i: int| 0 <= i < r.stories.len() ==> story_wf(#[trigger] r.stories[i])
}

/// `i` is the position of the first story named `id`.
pub open spec fn first_story_match(stories: Seq<StoryModel>, id: Seq<char>, i: int) -> bool {
    &&& 0 <= i < stories.len()
    &&& stories[i].id == id
    &&& forall|j: int| 0 <= j < i ==> stories[j].id != id
}

/// Whether any story is named `id`.
pub open spec fn has_story(stories: Seq<StoryModel>, id: Seq<char>) -> bool {
    exists|i: int| first_story_match(stories, id, i)
}

/// Position of the first story named `id` (well-defined when `has_story`).
pub open spec fn story_index(stories: Seq<StoryModel>, id: Seq<char>) -> int {
    choose|i: int| first_story_match(stories, id, i)
}

impl Room {
    /// A freshly created room: no members, no stories, no owner.
    pub fn new(created_at: String) -> (r: Self)
        ensures
            r@ == (RoomModel {
                users: Seq::<UserModel>::empty(),
                stories: Seq::<StoryModel>::empty(),
                owner: None,
                active_story: None,
                created_at: created_at@,
            }),
            room_wf(r@),
    {
        let r = Room {
            users: Vec::new(),
            stories: Vec::new(),
            owner: None,
            active_story: None,
            created_at,
        };
        proof {
            assert(r@.users =~= Seq::<UserModel>::empty());
            assert(r@.stories =~= Seq::<StoryModel>::empty());
        }
        r
    }

    /// Position of the member holding the private token `t`, if any.
    pub fn find_user(&self, t: &UserToken) -> (r: Option<usize>)
        ensures
            match r {
                Some(i) => i < self@.users.len() && self@.users[i as int].token == t@,
                None => !has_user(self@.users, t@),
            },
    {
        let n = self.users.len();
        let mut i: usize = 0;
        while i < n
            invariant
                n == self@.users.len(),
                i <= n,
                forall|j: int| 0 <= j < i ==> self@.users[j].token != t@,
            decreases n - i,
        {
            if self.users[i].token.same(t) {
                return Some(i);
            }
            i += 1;
        }
        None
    }

    /// Position of the first story named `id`, if any.
    pub fn find_story(&self, id: &StoryId) -> (r: Option<usize>)
        ensures
            match r {
                Some(i) => first_story_match(self@.stories, id@, i as int),
                None => !has_story(self@.stories, id@),
            },
    {
        let n = self.stories.len();
        let mut i: usize = 0;
        while i < n
            invariant
                n == self@.stories.len(),
                i <= n,
                forall|j: int| 0 <= j < i ==> self@.stories[j].id != id@,
            decreases n - i,
        {
            if self.stories[i].id.same(id) {
                return Some(i);
            }
            i += 1;
        }
        proof {
            assert forall|i: int| !first_story_match(self@.stories, id@, i) by {
                if 0 <= i < self@.stories.len() {
                    assert(self@.stories[i].id != id@);
                }
            }
        }
        None
    }

    /// Whether `p` is the owner's public id.
    pub fn is_owner(&self, p: &PubId) -> (r: bool)
        ensures
            r == (self@.owner == Some(p@)),
    {
        match &self.owner {
            Some(o) => o.same(p),
            None => false,
        }
    }
}

/// Position of the vote recorded under `k`, if any.
pub fn find_vote(votes: &Vec<(PubId, Vote)>, k: &PubId) -> (r: Option<usize>)
    ensures
        match r {
            Some(i) => i < votes@.len() && votes@[i as int].0@ == k@,
            None => !has_vote(votes_view(votes@), k@),
        },
{
    let n = votes.len();
    let mut i: usize = 0;
    while i < n
        invariant
            n == votes@.len(),
            i <= n,
            forall|j: int| 0 <= j < i ==> votes@[j].0@ != k@,
        decreases n - i,
    {
        if votes[i].0.same(k) {
            return Some(i);
        }
        i += 1;
    }
    proof {
        let vv = votes_view(votes@);
        assert forall|i: int| 0 <= i < vv.len() implies vv[i].0 != k@ by {
            assert(vv[i].0 == votes@[i].0@);
        }
    }
    None
}

} // verus!
