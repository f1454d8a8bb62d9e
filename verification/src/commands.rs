//! The command dispatcher: the six state transitions of the protocol and
//! the frame handler that parses an inbound text frame and applies one of
//! them.
//!
//! Every transition has a spec-level counterpart (`*_spec`), and the exec
//! function's contract says that the room after the call is exactly the
//! spec transition of the room before it. Owner-only commands from a
//! non-owner, commands on missing rooms or stories, and malformed payloads
//! leave the room unchanged and broadcast nothing.

use vstd::prelude::*;
use crate::ids::{PubId, StoryId, UserToken};
use crate::frames::{
    parse_profile_payload, parse_stories_payload, parse_story_ref_payload, parse_vote_payload,
    profile_payload_of, stories_payload_of, story_ref_payload_of, vote_payload_of,
};
use crate::model::{
    first_story_match, has_story, has_user, has_vote, role_of_flag, role_from_flag, room_wf,
    story_index, story_wf, user_index, vote_from_parts, vote_index, vote_model_from_parts, Role,
    Room, RoomModel, Story, StoryModel, StoryState, UserModel, Vote, VoteModel,
};
use crate::text::{starts_with, str_eq_str, strip_prefix_str};

verus! {

/// Which view must be pushed to the room after a command: none, the
/// roster, or the stories.
#[derive(PartialEq, Eq, Structural, Clone, Copy, Debug)]
pub enum BroadcastKind {
    Quiet,
    Roster,
    Stories,
}

/// `r` with its users replaced.
pub open spec fn with_users(r: RoomModel, users: Seq<UserModel>) -> RoomModel {
    RoomModel {
        users,
        stories: r.stories,
        owner: r.owner,
        active_story: r.active_story,
        created_at: r.created_at,
    }
}

/// `r` with its stories replaced.
pub open spec fn with_stories(r: RoomModel, stories: Seq<StoryModel>) -> RoomModel {
    RoomModel {
        users: r.users,
        stories,
        owner: r.owner,
        active_story: r.active_story,
        created_at: r.created_at,
    }
}

/// `r` with its active story replaced.
pub open spec fn with_active(r: RoomModel, active_story: Option<Seq<char>>) -> RoomModel {
    RoomModel {
        users: r.users,
        stories: r.stories,
        owner: r.owner,
        active_story,
        created_at: r.created_at,
    }
}

/// `u` with its profile replaced.
pub open spec fn user_with_profile(u: UserModel, name: Seq<char>, role: Role) -> UserModel {
    UserModel {
        token: u.token,
        pub_id: u.pub_id,
        name,
        role,
        is_active: u.is_active,
        connected: u.connected,
    }
}

/// `s` with its votes replaced.
pub open spec fn story_with_votes(
    s: StoryModel,
    votes: Seq<(Seq<char>, VoteModel)>,
) -> StoryModel {
    StoryModel { id: s.id, url: s.url, description: s.description, state: s.state, votes }
}

/// `s` with its state replaced.
pub open spec fn story_with_state(s: StoryModel, state: StoryState) -> StoryModel {
    StoryModel { id: s.id, url: s.url, description: s.description, state, votes: s.votes }
}

/// A brand-new story: voting, no votes yet.
pub open spec fn new_story_model(id: Seq<char>, url: Seq<char>, description: Seq<char>) -> StoryModel {
    StoryModel { id, url, description, state: StoryState::Voting, votes: Seq::empty() }
}

/// Set-profile: update the sender's display name and role; a sender who is
/// not a member leaves the room unchanged. (The roster is broadcast either
/// way.)
pub open spec fn set_profile_spec(
    r: RoomModel,
    token: Seq<char>,
    name: Seq<char>,
    role: Role,
) -> RoomModel {
    if has_user(r.users, token) {
        let i = user_index(r.users, token);
        with_users(r, r.users.update(i, user_with_profile(r.users[i], name, role)))
    } else {
        r
    }
}

/// Add-stories: append one fresh story per submitted item, in submitted
/// order, each in state `Voting` with no votes.
pub open spec fn add_stories_spec(
    r: RoomModel,
    items: Seq<(Seq<char>, Seq<char>)>,
    ids: Seq<Seq<char>>,
) -> RoomModel {
    with_stories(
        r,
        r.stories + Seq::new(items.len(), |i: int| new_story_model(ids[i], items[i].0, items[i].1)),
    )
}

/// The stories kept by remove-story: those not named `id`.
pub open spec fn keeps(id: Seq<char>) -> spec_fn(StoryModel) -> bool {
    |s: StoryModel| s.id != id
}

/// Remove-story: owner only; drop every story named `id`.
pub open spec fn remove_story_spec(r: RoomModel, actor: Seq<char>, id: Seq<char>) -> RoomModel {
    if r.owner == Some(actor) {
        with_stories(r, r.stories.filter(keeps(id)))
    } else {
        r
    }
}

/// Cast-vote: record or overwrite the sender's vote on the first story
/// named `id`, provided the story exists and is still voting, the sender is
/// a member, and the vote is not the `Hidden` placeholder. The second
/// component says whether anything changed (and so whether stories are
/// broadcast).
pub open spec fn cast_vote_spec(
    r: RoomModel,
    token: Seq<char>,
    id: Seq<char>,
    v: VoteModel,
) -> (RoomModel, bool) {
    if v == VoteModel::Hidden {
        (r, false)
    } else if !has_story(r.stories, id) {
        (r, false)
    } else {
        let si = story_index(r.stories, id);
        let s = r.stories[si];
        if s.state != StoryState::Voting {
            (r, false)
        } else if !has_user(r.users, token) {
            (r, false)
        } else {
            let p = r.users[user_index(r.users, token)].pub_id;
            let nv = if has_vote(s.votes, p) {
                s.votes.update(vote_index(s.votes, p), (p, v))
            } else {
                s.votes.push((p, v))
            };
            (with_stories(r, r.stories.update(si, story_with_votes(s, nv))), true)
        }
    }
}

/// Finish-voting: owner only; set the first story named `id` to `Finished`.
/// The second component says whether the story was found (and so whether
/// stories are broadcast).
pub open spec fn finish_spec(r: RoomModel, actor: Seq<char>, id: Seq<char>) -> (RoomModel, bool) {
    if r.owner != Some(actor) {
        (r, false)
    } else if !has_story(r.stories, id) {
        (r, false)
    } else {
        let si = story_index(r.stories, id);
        (
            with_stories(r, r.stories.update(si, story_with_state(r.stories[si], StoryState::Finished))),
            true,
        )
    }
}

/// Set-active-story: owner only; point the room at `id` (no existence
/// check). The second component says whether it took effect.
pub open spec fn set_active_spec(r: RoomModel, actor: Seq<char>, id: Seq<char>) -> (RoomModel, bool) {
    if r.owner == Some(actor) {
        (with_active(r, Some(id)), true)
    } else {
        (r, false)
    }
}

impl Room {
    /// Applies the set-profile transition.
    pub fn apply_set_profile(&mut self, token: &UserToken, name: String, role: Role)
        requires
            room_wf(old(self)@),
        ensures
            room_wf(final(self)@),
            final(self)@ == set_profile_spec(old(self)@, token@, name@, role),
    {
        let ghost pre = self@;
        let i = match self.find_user(token) {
            Some(i) => i,
            None => {
                return ;
            },
        };
        proof {
            assert(has_user(pre.users, token@));
            let ci = user_index(pre.users, token@);
            assert(0 <= ci < pre.users.len() && pre.users[ci].token == token@);
            assert(ci == i as int);
        }
        let u = &mut self.users[i];
        u.name = name;
        u.role = role;
        proof {
            assert(self@.users =~= pre.users.update(
                i as int,
                user_with_profile(pre.users[i as int], name@, role),
            ));
            assert(self@ == set_profile_spec(pre, token@, name@, role));
            assert(self@.stories =~= pre.stories);
        }
    }

    /// Applies the add-stories transition; the fresh story ids are drawn
    /// from [`crate::frames::fresh_uuid`] and returned in order.
    pub fn apply_add_stories(&mut self, items: &Vec<(String, String)>) -> (ids: Vec<StoryId>)
        requires
            room_wf(old(self)@),
        ensures
            room_wf(final(self)@),
            ids@.len() == items@.len(),
            final(self)@ == add_stories_spec(
                old(self)@,
                items@.map_values(|p: (String, String)| (p.0@, p.1@)),
                ids@.map_values(|x: StoryId| x@),
            ),
    {
        let ghost pre = self@;
        let ghost itemsm = items@.map_values(|p: (String, String)| (p.0@, p.1@));
        let n = items.len();
        let mut ids: Vec<StoryId> = Vec::new();
        let mut i: usize = 0;
        while i < n
            invariant
                room_wf(pre),
                n == items@.len(),
                itemsm == items@.map_values(|p: (String, String)| (p.0@, p.1@)),
                pre == old(self)@,
                i <= n,
                ids@.len() == i,
                self@.users == pre.users,
                self@.owner == pre.owner,
                self@.active_story == pre.active_story,
                self@.created_at == pre.created_at,
                self@.stories.len() == pre.stories.len() + i,
                forall|j: int| 0 <= j < pre.stories.len() ==> self@.stories[j] == pre.stories[j],
                forall|j: int|
                    0 <= j < i ==> self@.stories[pre.stories.len() + j] == new_story_model(
                        ids@[j]@,
                        itemsm[j].0,
                        itemsm[j].1,
                    ),
            decreases n - i,
        {
            let id_text = crate::frames::fresh_uuid();
            let sid = StoryId::new(id_text);
            let story = Story {
                id: sid.dup(),
                url: items[i].0.clone(),
                description: items[i].1.clone(),
                state: StoryState::Voting,
                votes: Vec::new(),
            };
            proof {
                assert(story@.votes =~= Seq::<(Seq<char>, VoteModel)>::empty());
                assert(story@ == new_story_model(sid@, itemsm[i as int].0, itemsm[i as int].1));
            }
            self.stories.push(story);
            ids.push(sid);
            i += 1;
        }
        proof {
            let idsm = ids@.map_values(|x: StoryId| x@);
            let post = add_stories_spec(pre, itemsm, idsm);
            assert(self@.stories =~= post.stories);
            assert(self@ == post);
        }
        ids
    }

    /// Applies the remove-story transition; says whether any story went
    /// (and so whether stories are broadcast).
    pub fn apply_remove_story(&mut self, actor: &PubId, id: &StoryId) -> (changed: bool)
        requires
            room_wf(old(self)@),
        ensures
            room_wf(final(self)@),
            final(self)@ == remove_story_spec(old(self)@, actor@, id@),
            changed == (old(self)@.owner == Some(actor@) && final(self)@.stories.len()
                != old(self)@.stories.len()),
    {
        let ghost pre = self@;
        if !self.is_owner(actor) {
            return false;
        }
        let ghost pred = keeps(id@);
        let n = self.stories.len();
        let mut kept: Vec<Story> = Vec::new();
        let mut i: usize = 0;
        while i < n
            invariant
                pre == old(self)@,
                n == pre.stories.len(),
                i <= n,
                self@.users == pre.users,
                self@.owner == pre.owner,
                self@.active_story == pre.active_story,
                self@.created_at == pre.created_at,
                self@.stories.len() == n - i,
                forall|j: int| 0 <= j < n - i ==> self@.stories[j] == pre.stories[i + j],
                pred == keeps(id@),
                kept@.map_values(|s: Story| s@) == pre.stories.take(i as int).filter(pred),
            decreases n - i,
        {
            let ghost m0 = self@.stories;
            let ghost v0 = self.stories@;
            let s = self.stories.remove(0);
            proof {
                assert(m0[0] == pre.stories[i as int]);
                assert(s@ == m0[0]);
                assert(self.stories@ =~= v0.subrange(1, v0.len() as int));
                assert forall|j: int| 0 <= j < n - (i + 1) implies self@.stories[j]
                    == pre.stories[i + 1 + j] by {
                    assert(self.stories@[j] == v0[j + 1]);
                    assert(m0[j + 1] == v0[j + 1]@);
                    assert(m0[j + 1] == pre.stories[(i + 1) + j]);
                }
            }
            let keep = !s.id.same(id);
            proof {
                reveal(Seq::filter);
                let t1 = pre.stories.take((i + 1) as int);
                assert(t1.drop_last() =~= pre.stories.take(i as int));
                assert(t1.last() == pre.stories[i as int]);
            }
            if keep {
                kept.push(s);
            }
            proof {
                assert(kept@.map_values(|s: Story| s@) =~= pre.stories.take((i + 1) as int).filter(
                    pred,
                ));
            }
            i += 1;
        }
        let changed = kept.len() != n;
        self.stories = kept;
        proof {
            assert(pre.stories.take(n as int) =~= pre.stories);
            let post = remove_story_spec(pre, actor@, id@);
            assert(self@.stories =~= post.stories);
            assert(self@ == post);
            assert forall|j: int| 0 <= j < self@.stories.len() implies story_wf(
                #[trigger] self@.stories[j],
            ) by {
                lemma_filter_element_of(pre.stories, pred, j);
                let k = choose|k: int|
                    0 <= k < pre.stories.len() && pre.stories[k] == pre.stories.filter(pred)[j];
                assert(story_wf(pre.stories[k]));
            }
        }
        changed
    }

    /// Applies the cast-vote transition; says whether the vote was
    /// recorded (and so whether stories are broadcast).
    pub fn apply_cast_vote(&mut self, token: &UserToken, id: &StoryId, v: Vote) -> (changed: bool)
        requires
            room_wf(old(self)@),
        ensures
            room_wf(final(self)@),
            (final(self)@, changed) == cast_vote_spec(old(self)@, token@, id@, v@),
    {
        let ghost pre = self@;
        if v.is_hidden() {
            return false;
        }
        let si = match self.find_story(id) {
            Some(i) => i,
            None => {
                return false;
            },
        };
        proof {
            assert(has_story(pre.stories, id@));
            let ci = story_index(pre.stories, id@);
            assert(first_story_match(pre.stories, id@, ci));
            assert(ci == si as int);
        }
        if !(self.stories[si].state == StoryState::Voting) {
            return false;
        }
        let ui = match self.find_user(token) {
            Some(i) => i,
            None => {
                return false;
            },
        };
        proof {
            assert(has_user(pre.users, token@));
            let ci = user_index(pre.users, token@);
            assert(0 <= ci < pre.users.len() && pre.users[ci].token == token@);
            assert(ci == ui as int);
            assert(story_wf(pre.stories[si as int]));
        }
        let p = self.users[ui].pub_id.dup();
        let story = &mut self.stories[si];
        let ghost prestory = story@;
        match crate::model::find_vote(&story.votes, &p) {
            Some(vi) => {
                proof {
                    assert(prestory.votes[vi as int].0 == p@);
                    assert(has_vote(prestory.votes, p@));
                    let ci = vote_index(prestory.votes, p@);
                    assert(0 <= ci < prestory.votes.len() && prestory.votes[ci].0 == p@);
                    assert(ci == vi as int);
                }
                story.votes[vi] = (p, v);
                proof {
                    assert(story@.votes =~= prestory.votes.update(vi as int, (p@, v@)));
                }
            },
            None => {
                story.votes.push((p, v));
                proof {
                    assert(story@.votes =~= prestory.votes.push((p@, v@)));
                }
            },
        }
        proof {
            let post = cast_vote_spec(pre, token@, id@, v@).0;
            assert(self@.stories =~= post.stories);
            assert(self@ == post);
            assert(cast_vote_spec(pre, token@, id@, v@).1 == true);
            assert forall|j: int| 0 <= j < self@.stories.len() implies story_wf(
                #[trigger] self@.stories[j],
            ) by {
                if j != si as int {
                    assert(self@.stories[j] == pre.stories[j]);
                }
            }
        }
        true
    }

    /// Applies the finish-voting transition; says whether the story was
    /// found (and so whether stories are broadcast).
    pub fn apply_finish(&mut self, actor: &PubId, id: &StoryId) -> (changed: bool)
        requires
            room_wf(old(self)@),
        ensures
            room_wf(final(self)@),
            (final(self)@, changed) == finish_spec(old(self)@, actor@, id@),
    {
        let ghost pre = self@;
        if !self.is_owner(actor) {
            return false;
        }
        let si = match self.find_story(id) {
            Some(i) => i,
            None => {
                return false;
            },
        };
        proof {
            assert(has_story(pre.stories, id@));
            let ci = story_index(pre.stories, id@);
            assert(first_story_match(pre.stories, id@, ci));
            assert(ci == si as int);
        }
        let story = &mut self.stories[si];
        story.state = StoryState::Finished;
        proof {
            let post = finish_spec(pre, actor@, id@).0;
            assert(self@.stories =~= post.stories);
            assert(self@ == post);
            assert forall|j: int| 0 <= j < self@.stories.len() implies story_wf(
                #[trigger] self@.stories[j],
            ) by {
                assert(story_wf(pre.stories[j]));
                if j == si as int {
                    assert(self@.stories[j].votes == pre.stories[j].votes);
                } else {
                    assert(self@.stories[j] == pre.stories[j]);
                }
            }
        }
        true
    }

    /// Applies the set-active-story transition; says whether it took
    /// effect (and so whether stories are broadcast).
    pub fn apply_set_active(&mut self, actor: &PubId, id: &StoryId) -> (changed: bool)
        requires
            room_wf(old(self)@),
        ensures
            room_wf(final(self)@),
            (final(self)@, changed) == set_active_spec(old(self)@, actor@, id@),
    {
        if !self.is_owner(actor) {
            return false;
        }
        self.active_story = Some(id.dup());
        proof {
            assert(self@.stories =~= old(self)@.stories);
            assert(self@.users =~= old(self)@.users);
            assert(self@ == set_active_spec(old(self)@, actor@, id@).0);
        }
        true
    }
}

/// Frames equal to the keep-alive token (with or without a trailing
/// newline) are ignored.
pub open spec fn is_ping(f: Seq<char>) -> bool {
    f == "ping"@ || f == "ping\n"@
}

/// The payload of a frame: what follows the command word.
pub open spec fn payload_after(f: Seq<char>, cmd: Seq<char>) -> Seq<char> {
    f.skip(cmd.len() as int)
}

/// What one inbound frame does to a room, and which broadcast follows: the
/// dispatcher's whole contract. `token` and `pub_id` identify the sender.
/// A keep-alive, an unknown command word, a malformed payload, or an
/// owner-only command from a non-owner leaves the room unchanged and
/// broadcasts nothing.
pub open spec fn frame_step(
    pre: RoomModel,
    token: Seq<char>,
    pub_id: Seq<char>,
    f: Seq<char>,
    post: RoomModel,
    b: BroadcastKind,
) -> bool {
    if is_ping(f) {
        post == pre && b == BroadcastKind::Quiet
    } else if starts_with(f, "user "@) {
        match profile_payload_of(payload_after(f, "user "@)) {
            Some(p) => post == set_profile_spec(pre, token, p.0, role_of_flag(p.1)) && b
                == BroadcastKind::Roster,
            None => post == pre && b == BroadcastKind::Quiet,
        }
    } else if starts_with(f, "stories "@) {
        match stories_payload_of(payload_after(f, "stories "@)) {
            Some(items) => (exists|ids: Seq<Seq<char>>|
                ids.len() == items.len() && post == add_stories_spec(pre, items, ids)) && b
                == BroadcastKind::Stories,
            None => post == pre && b == BroadcastKind::Quiet,
        }
    } else if starts_with(f, "remove_story "@) {
        if pre.owner != Some(pub_id) {
            post == pre && b == BroadcastKind::Quiet
        } else {
            match story_ref_payload_of(payload_after(f, "remove_story "@)) {
                Some(id) => post == remove_story_spec(pre, pub_id, id) && b == (
                if post.stories.len() != pre.stories.len() {
                    BroadcastKind::Stories
                } else {
                    BroadcastKind::Quiet
                }),
                None => post == pre && b == BroadcastKind::Quiet,
            }
        }
    } else if starts_with(f, "vote "@) {
        match vote_payload_of(payload_after(f, "vote "@)) {
            Some(v) => {
                let out = cast_vote_spec(pre, token, v.0, vote_model_from_parts(v.1, v.2));
                post == out.0 && b == (
                if out.1 {
                    BroadcastKind::Stories
                } else {
                    BroadcastKind::Quiet
                })
            },
            None => post == pre && b == BroadcastKind::Quiet,
        }
    } else if starts_with(f, "finish "@) {
        if pre.owner != Some(pub_id) {
            post == pre && b == BroadcastKind::Quiet
        } else {
            match story_ref_payload_of(payload_after(f, "finish "@)) {
                Some(id) => {
                    let out = finish_spec(pre, pub_id, id);
                    post == out.0 && b == (
                    if out.1 {
                        BroadcastKind::Stories
                    } else {
                        BroadcastKind::Quiet
                    })
                },
                None => post == pre && b == BroadcastKind::Quiet,
            }
        }
    } else if starts_with(f, "active_story "@) {
        if pre.owner != Some(pub_id) {
            post == pre && b == BroadcastKind::Quiet
        } else {
            match story_ref_payload_of(payload_after(f, "active_story "@)) {
                Some(id) => {
                    let out = set_active_spec(pre, pub_id, id);
                    post == out.0 && b == (
                    if out.1 {
                        BroadcastKind::Stories
                    } else {
                        BroadcastKind::Quiet
                    })
                },
                None => post == pre && b == BroadcastKind::Quiet,
            }
        }
    } else {
        post == pre && b == BroadcastKind::Quiet
    }
}

impl Room {
    /// Handles one inbound text frame from the member identified by
    /// `token` / `pub_id`: parses the command word and payload, applies
    /// the transition, and says which broadcast must follow.
    pub fn handle_frame(&mut self, token: &UserToken, pub_id: &PubId, frame: &str) -> (b:
        BroadcastKind)
        requires
            room_wf(old(self)@),
        ensures
            room_wf(final(self)@),
            frame_step(old(self)@, token@, pub_id@, frame@, final(self)@, b),
    {
        let ghost pre = self@;
        if str_eq_str(frame, "ping") || str_eq_str(frame, "ping\n") {
            return BroadcastKind::Quiet;
        }
        match strip_prefix_str(frame, "user ") {
            Some(rest) => {
                proof {
                    assert(payload_after(frame@, "user "@) =~= rest@);
                }
                match parse_profile_payload(rest) {
                    Some(p) => {
                        let (name, flag) = p;
                        let role = role_from_flag(flag);
                        self.apply_set_profile(token, name, role);
                        return BroadcastKind::Roster;
                    },
                    None => {
                        return BroadcastKind::Quiet;
                    },
                }
            },
            None => {},
        }
        match strip_prefix_str(frame, "stories ") {
            Some(rest) => {
                proof {
                    assert(payload_after(frame@, "stories "@) =~= rest@);
                }
                match parse_stories_payload(rest) {
                    Some(items) => {
                        let ids = self.apply_add_stories(&items);
                        proof {
                            let itemsm = items@.map_values(|p: (String, String)| (p.0@, p.1@));
                            let idsm = ids@.map_values(|x: StoryId| x@);
                            assert(idsm.len() == itemsm.len() && self@ == add_stories_spec(
                                pre,
                                itemsm,
                                idsm,
                            ));
                        }
                        return BroadcastKind::Stories;
                    },
                    None => {
                        return BroadcastKind::Quiet;
                    },
                }
            },
            None => {},
        }
        match strip_prefix_str(frame, "remove_story ") {
            Some(rest) => {
                proof {
                    assert(payload_after(frame@, "remove_story "@) =~= rest@);
                }
                if !self.is_owner(pub_id) {
                    return BroadcastKind::Quiet;
                }
                match parse_story_ref_payload(rest) {
                    Some(id_text) => {
                        let id = StoryId::new(id_text);
                        let changed = self.apply_remove_story(pub_id, &id);
                        if changed {
                            return BroadcastKind::Stories;
                        } else {
                            return BroadcastKind::Quiet;
                        }
                    },
                    None => {
                        return BroadcastKind::Quiet;
                    },
                }
            },
            None => {},
        }
        match strip_prefix_str(frame, "vote ") {
            Some(rest) => {
                proof {
                    assert(payload_after(frame@, "vote "@) =~= rest@);
                }
                match parse_vote_payload(rest) {
                    Some(parts) => {
                        let (id_text, kind, value_text) = parts;
                        let id = StoryId::new(id_text);
                        let v = vote_from_parts(kind, value_text);
                        let changed = self.apply_cast_vote(token, &id, v);
                        if changed {
                            return BroadcastKind::Stories;
                        } else {
                            return BroadcastKind::Quiet;
                        }
                    },
                    None => {
                        return BroadcastKind::Quiet;
                    },
                }
            },
            None => {},
        }
        match strip_prefix_str(frame, "finish ") {
            Some(rest) => {
                proof {
                    assert(payload_after(frame@, "finish "@) =~= rest@);
                }
                if !self.is_owner(pub_id) {
                    return BroadcastKind::Quiet;
                }
                match parse_story_ref_payload(rest) {
                    Some(id_text) => {
                        let id = StoryId::new(id_text);
                        let changed = self.apply_finish(pub_id, &id);
                        if changed {
                            return BroadcastKind::Stories;
                        } else {
                            return BroadcastKind::Quiet;
                        }
                    },
                    None => {
                        return BroadcastKind::Quiet;
                    },
                }
            },
            None => {},
        }
        match strip_prefix_str(frame, "active_story ") {
            Some(rest) => {
                proof {
                    assert(payload_after(frame@, "active_story "@) =~= rest@);
                }
                if !self.is_owner(pub_id) {
                    return BroadcastKind::Quiet;
                }
                match parse_story_ref_payload(rest) {
                    Some(id_text) => {
                        let id = StoryId::new(id_text);
                        let changed = self.apply_set_active(pub_id, &id);
                        if changed {
                            return BroadcastKind::Stories;
                        } else {
                            return BroadcastKind::Quiet;
                        }
                    },
                    None => {
                        return BroadcastKind::Quiet;
                    },
                }
            },
            None => {},
        }
        BroadcastKind::Quiet
    }
}

/// Every element of a filtered sequence is an element of the sequence it
/// was filtered from.
proof fn lemma_filter_element_of<A>(s: Seq<A>, pred: spec_fn(A) -> bool, j: int)
    requires
        0 <= j < s.filter(pred).len(),
    ensures
        exists|k: int| 0 <= k < s.len() && s[k] == s.filter(pred)[j],
    decreases s.len(),
{
    reveal(Seq::filter);
    if s.len() > 0 {
        let prefix = s.drop_last();
        if j < prefix.filter(pred).len() {
            lemma_filter_element_of(prefix, pred, j);
            let k = choose|k: int| 0 <= k < prefix.len() && prefix[k] == prefix.filter(pred)[j];
            assert(s[k] == s.filter(pred)[j]);
        } else {
            assert(s[s.len() - 1] == s.filter(pred)[j]);
        }
    }
}

} // verus!
