//! The vote-visibility policy.
//!
//! A story's votes are revealed to everyone once the story is finished, or
//! once no active voter is left who has not voted. Until then every observer
//! sees only their own vote; every other recorded vote is replaced by the
//! `Hidden` placeholder (entries are never dropped, so the presence of a vote
//! stays visible).

use vstd::prelude::*;
use crate::ids::PubId;
use crate::model::{
    has_vote, votes_view, Role, Story, StoryModel, StoryState, User, UserModel, Vote, VoteModel,
};

verus! {

/// Some active voter has not yet voted on `story`.
pub open spec fn voter_missing(story: StoryModel, users: Seq<UserModel>) -> bool {
    exists|i: int|
        0 <= i < users.len() && users[i].role == Role::Voter && users[i].is_active
            && !has_vote(story.votes, users[i].pub_id)
}

/// Votes are shown in the clear: the story is finished, or every active
/// voter has voted.
pub open spec fn votes_revealed(story: StoryModel, users: Seq<UserModel>) -> bool {
    story.state == StoryState::Finished || !voter_missing(story, users)
}

/// One vote entry as `observer` sees it while votes are concealed.
pub open spec fn masked_entry(
    kv: (Seq<char>, VoteModel),
    observer: Seq<char>,
) -> (Seq<char>, VoteModel) {
    if kv.0 == observer {
        kv
    } else {
        (kv.0, VoteModel::Hidden)
    }
}

/// The vote map of `story` exactly as `observer` sees it.
pub open spec fn visible_votes(
    story: StoryModel,
    users: Seq<UserModel>,
    observer: Seq<char>,
) -> Seq<(Seq<char>, VoteModel)> {
    if votes_revealed(story, users) {
        story.votes
    } else {
        story.votes.map_values(|kv: (Seq<char>, VoteModel)| masked_entry(kv, observer))
    }
}

/// Decides whether some active voter has not voted on `story` yet.
pub fn any_voter_missing(story: &Story, users: &Vec<User>) -> (r: bool)
    ensures
        r == voter_missing(story@, users@.map_values(|u: User| u@)),
{
    let ghost um = users@.map_values(|u: User| u@);
    let n = users.len();
    let mut i: usize = 0;
    while i < n
        invariant
            n == users@.len(),
            um == users@.map_values(|u: User| u@),
            i <= n,
            forall|j: int|
                0 <= j < i ==> !(um[j].role == Role::Voter && um[j].is_active
                    && !has_vote(story@.votes, um[j].pub_id)),
        decreases n - i,
    {
        let u = &users[i];
        if u.role == Role::Voter && u.is_active {
            match crate::model::find_vote(&story.votes, &u.pub_id) {
                Some(k) => {
                    proof {
                        assert(story@.votes[k as int].0 == um[i as int].pub_id);
                        assert(has_vote(story@.votes, um[i as int].pub_id));
                    }
                },
                None => {
                    proof {
                        assert(um[i as int].role == Role::Voter && um[i as int].is_active
                            && !has_vote(story@.votes, um[i as int].pub_id));
                    }
                    return true;
                },
            }
        }
        i += 1;
    }
    false
}

/// Renders the vote map of `story` as `observer` may see it (see the module
/// notes: revealed in the clear once the story is finished or every active
/// voter has voted, otherwise everything but the observer's own vote is
/// `Hidden`).
pub fn compute_votes(story: &Story, users: &Vec<User>, observer: &PubId) -> (r: Vec<
    (PubId, Vote),
>)
    ensures
        votes_view(r@) == visible_votes(story@, users@.map_values(|u: User| u@), observer@),
{
    let ghost um = users@.map_values(|u: User| u@);
    let ghost target = visible_votes(story@, um, observer@);
    let revealed = story.state == StoryState::Finished || !any_voter_missing(story, users);
    let mut r: Vec<(PubId, Vote)> = Vec::new();
    let n = story.votes.len();
    let mut i: usize = 0;
    while i < n
        invariant
            n == story.votes@.len(),
            target == visible_votes(story@, um, observer@),
            target.len() == n,
            revealed == votes_revealed(story@, um),
            i <= n,
            r@.len() == i,
            forall|j: int| 0 <= j < i ==> (#[trigger] r@[j].0@, r@[j].1@) == target[j],
        decreases n - i,
    {
        let kv = &story.votes[i];
        if revealed {
            r.push((kv.0.dup(), kv.1.dup()));
        } else if kv.0.same(observer) {
            r.push((kv.0.dup(), kv.1.dup()));
        } else {
            r.push((kv.0.dup(), Vote::Hidden));
        }
        proof {
            assert(story@.votes[i as int] == (story.votes@[i as int].0@, story.votes@[i as int].1@));
        }
        i += 1;
    }
    proof {
        assert(votes_view(r@) =~= target);
    }
    r
}

} // verus!
