//! The laws of the room core, stated and proved over the spec-level
//! transitions and the visibility policy that the exec contracts use.

use vstd::prelude::*;
use crate::commands::{
    cast_vote_spec, finish_spec, frame_step, is_ping, remove_story_spec, set_active_spec,
    BroadcastKind,
};
use crate::text::starts_with;
use crate::model::{
    first_story_match, has_story, has_user, room_wf, story_index, user_index, RoomModel,
    StoryModel, StoryState, UserModel, VoteModel,
};
use crate::registry::{
    admit_room, admit_spec, admitted_pub, has_room, registry_wf, retire_room, retire_spec,
    room_before, room_index, user_connected, user_disconnected,
};
use crate::visibility::{visible_votes, voter_missing};

verus! {

/// Vote visibility, concealment half: while a story is voting and some
/// active voter has not voted, an observer sees `Hidden` for every entry
/// but their own, and their own entry unchanged; entries are never
/// dropped.
pub proof fn lemma_votes_concealed(
    story: StoryModel,
    users: Seq<UserModel>,
    observer: Seq<char>,
    k: int,
)
    requires
        story.state == StoryState::Voting,
        voter_missing(story, users),
        0 <= k < story.votes.len(),
    ensures
        visible_votes(story, users, observer).len() == story.votes.len(),
        visible_votes(story, users, observer)[k].0 == story.votes[k].0,
        story.votes[k].0 != observer ==> visible_votes(story, users, observer)[k].1
            == VoteModel::Hidden,
        story.votes[k].0 == observer ==> visible_votes(story, users, observer)[k]
            == story.votes[k],
{
}

/// Vote visibility, auto-reveal half: once no active voter is left who
/// has not voted, every observer sees every vote in the clear, with no
/// finish command needed.
pub proof fn lemma_votes_auto_reveal(story: StoryModel, users: Seq<UserModel>, observer: Seq<char>)
    requires
        !voter_missing(story, users),
    ensures
        visible_votes(story, users, observer) == story.votes,
{
}

/// Finish monotonicity, visibility half: the votes of a finished story
/// are shown in the clear to every observer.
pub proof fn lemma_finished_votes_visible(
    story: StoryModel,
    users: Seq<UserModel>,
    observer: Seq<char>,
)
    requires
        story.state == StoryState::Finished,
    ensures
        visible_votes(story, users, observer) == story.votes,
{
}

/// Finish monotonicity, immutability half: a vote on a finished story
/// changes nothing and broadcasts nothing.
pub proof fn lemma_finished_vote_noop(
    r: RoomModel,
    token: Seq<char>,
    id: Seq<char>,
    v: VoteModel,
    i: int,
)
    requires
        first_story_match(r.stories, id, i),
        r.stories[i].state == StoryState::Finished,
    ensures
        cast_vote_spec(r, token, id, v) == (r, false),
{
    if v != VoteModel::Hidden {
        assert(has_story(r.stories, id));
        let si = story_index(r.stories, id);
        assert(first_story_match(r.stories, id, si));
        if si < i {
            assert(r.stories[si].id != id);
        }
        if i < si {
            assert(r.stories[i].id != id);
        }
        assert(si == i);
    }
}

/// Owner exclusivity: remove-story, finish-voting and set-active-story
/// from anyone but the owner change nothing and broadcast nothing.
pub proof fn lemma_owner_exclusive(r: RoomModel, actor: Seq<char>, id: Seq<char>)
    requires
        r.owner != Some(actor),
    ensures
        remove_story_spec(r, actor, id) == r,
        finish_spec(r, actor, id) == (r, false),
        set_active_spec(r, actor, id) == (r, false),
{
}

/// Owner exclusivity at protocol level: a whole frame carrying one of the
/// three owner-only commands, sent by anyone but the owner, leaves the
/// room exactly as it was and asks for no broadcast.
pub proof fn lemma_owner_exclusive_frame(
    pre: RoomModel,
    token: Seq<char>,
    pub_id: Seq<char>,
    f: Seq<char>,
    post: RoomModel,
    b: BroadcastKind,
)
    requires
        pre.owner != Some(pub_id),
        starts_with(f, "remove_story "@) || starts_with(f, "finish "@) || starts_with(
            f,
            "active_story "@,
        ),
        frame_step(pre, token, pub_id, f, post, b),
    ensures
        post == pre,
        b == BroadcastKind::Quiet,
{
    reveal_strlit("ping");
    reveal_strlit("ping\n");
    reveal_strlit("user ");
    reveal_strlit("stories ");
    reveal_strlit("remove_story ");
    reveal_strlit("vote ");
    reveal_strlit("finish ");
    reveal_strlit("active_story ");
    if starts_with(f, "remove_story "@) {
        assert(f.subrange(0, 13)[0] == 'r');
        assert(f[0] == 'r');
    } else if starts_with(f, "finish "@) {
        assert(f.subrange(0, 7)[0] == 'f');
        assert(f[0] == 'f');
    } else {
        assert(f.subrange(0, 13)[0] == 'a');
        assert(f[0] == 'a');
    }
    assert(!is_ping(f)) by {
        if f == "ping"@ || f == "ping\n"@ {
            assert(f[0] == 'p');
        }
    }
    assert(!starts_with(f, "user "@)) by {
        if starts_with(f, "user "@) {
            assert(f.subrange(0, 5)[0] == 'u');
            assert(f[0] == 'u');
        }
    }
    assert(!starts_with(f, "stories "@)) by {
        if starts_with(f, "stories "@) {
            assert(f.subrange(0, 8)[0] == 's');
            assert(f[0] == 's');
        }
    }
    assert(!starts_with(f, "vote "@)) by {
        if starts_with(f, "vote "@) {
            assert(f.subrange(0, 5)[0] == 'v');
            assert(f[0] == 'v');
        }
    }
    if starts_with(f, "remove_story "@) {
    } else if starts_with(f, "finish "@) {
        assert(!starts_with(f, "remove_story "@)) by {
            if starts_with(f, "remove_story "@) {
                assert(f.subrange(0, 13)[0] == 'r');
            }
        }
    } else {
        assert(!starts_with(f, "remove_story "@)) by {
            if starts_with(f, "remove_story "@) {
                assert(f.subrange(0, 13)[0] == 'r');
            }
        }
        assert(!starts_with(f, "finish "@)) by {
            if starts_with(f, "finish "@) {
                assert(f.subrange(0, 7)[0] == 'f');
            }
        }
    }
}

/// Identity stability: once a user was admitted to a room, any later
/// admission under the same token yields the same public id, whatever
/// fresh id the later admission drew. (An admission under a token the
/// room has never seen yields exactly the fresh id drawn for it, so two
/// distinct tokens get distinct public ids provided the fresh draws
/// differ.)
pub proof fn lemma_identity_stable(r: RoomModel, ut: Seq<char>, f1: Seq<char>, f2: Seq<char>)
    requires
        room_wf(r),
    ensures
        admitted_pub(admit_room(r, ut, f1), ut, f2) == admitted_pub(r, ut, f1),
{
    let r1 = admit_room(r, ut, f1);
    if has_user(r.users, ut) {
        let i = user_index(r.users, ut);
        assert(0 <= i < r.users.len() && r.users[i].token == ut);
        assert(r1.users[i].token == ut);
        assert(has_user(r1.users, ut));
        let j = user_index(r1.users, ut);
        assert(0 <= j < r1.users.len() && r1.users[j].token == ut);
        if j != i {
            assert(r1.users[j] == r.users[j]);
            assert(false) by {
                if j < i {
                    assert(r.users[j].token != r.users[i].token);
                } else {
                    assert(r.users[i].token != r.users[j].token);
                }
            }
        }
        assert(admitted_pub(r1, ut, f2) == r.users[i].pub_id);
    } else {
        let n = r.users.len() as int;
        assert(r1.users[n].token == ut);
        assert(has_user(r1.users, ut));
        let j = user_index(r1.users, ut);
        assert(0 <= j < r1.users.len() && r1.users[j].token == ut);
        if j != n {
            assert(r1.users[j] == r.users[j]);
            assert(has_user(r.users, ut));
            assert(false);
        }
        assert(admitted_pub(r1, ut, f2) == f1);
    }
}

/// The room an admission touches is found again by the next operation on
/// the same room token, holding exactly the admitted state.
proof fn lemma_room_found_after_admit(
    m: Seq<(Seq<char>, RoomModel)>,
    rt: Seq<char>,
    ut: Seq<char>,
    f: Seq<char>,
    n: Seq<char>,
)
    requires
        registry_wf(m),
    ensures
        has_room(admit_spec(m, rt, ut, f, n), rt),
        admit_spec(m, rt, ut, f, n)[room_index(admit_spec(m, rt, ut, f, n), rt)].1 == admit_room(
            room_before(m, rt, n),
            ut,
            f,
        ),
{
    let m1 = admit_spec(m, rt, ut, f, n);
    if has_room(m, rt) {
        let i = room_index(m, rt);
        assert(0 <= i < m.len() && m[i].0 == rt);
        assert(m1[i].0 == rt);
        assert(has_room(m1, rt));
        let j = room_index(m1, rt);
        assert(0 <= j < m1.len() && m1[j].0 == rt);
        if j != i {
            assert(m1[j] == m[j]);
            assert(false) by {
                if j < i {
                    assert(m[j].0 != m[i].0);
                } else {
                    assert(m[i].0 != m[j].0);
                }
            }
        }
    } else {
        let k = m.len() as int;
        assert(m1[k].0 == rt);
        assert(has_room(m1, rt));
        let j = room_index(m1, rt);
        assert(0 <= j < m1.len() && m1[j].0 == rt);
        if j != k {
            assert(m1[j] == m[j]);
            assert(has_room(m, rt));
            assert(false);
        }
    }
}

/// Identity stability at registry level: two consecutive admissions with
/// the same user token to the same room token yield the same public id,
/// whatever fresh ids and timestamps the two admissions drew.
pub proof fn lemma_registry_identity_stable(
    m: Seq<(Seq<char>, RoomModel)>,
    rt: Seq<char>,
    ut: Seq<char>,
    f1: Seq<char>,
    n1: Seq<char>,
    f2: Seq<char>,
    n2: Seq<char>,
)
    requires
        registry_wf(m),
    ensures
        admitted_pub(room_before(admit_spec(m, rt, ut, f1, n1), rt, n2), ut, f2) == admitted_pub(
            room_before(m, rt, n1),
            ut,
            f1,
        ),
{
    let r0 = room_before(m, rt, n1);
    lemma_room_found_after_admit(m, rt, ut, f1, n1);
    assert(room_wf(r0)) by {
        if has_room(m, rt) {
            let i = room_index(m, rt);
            assert(0 <= i < m.len() && m[i].0 == rt);
            assert(room_wf(m[i].1));
        }
    }
    lemma_identity_stable(r0, ut, f1, f2);
}

/// Reconnect resumes state at registry level: a member who retires from a
/// room and is admitted again under the same token finds every story —
/// and so every recorded vote — as it was, and keeps the same public id.
pub proof fn lemma_registry_reconnect_resumes(
    m: Seq<(Seq<char>, RoomModel)>,
    rt: Seq<char>,
    ut: Seq<char>,
    f: Seq<char>,
    n: Seq<char>,
)
    requires
        registry_wf(m),
        has_room(m, rt),
        has_user(m[room_index(m, rt)].1.users, ut),
    ensures
        ({
            let r = m[room_index(m, rt)].1;
            let m2 = admit_spec(retire_spec(m, rt, ut), rt, ut, f, n);
            let r2 = m2[room_index(m2, rt)].1;
            &&& has_room(m2, rt)
            &&& r2.stories == r.stories
            &&& has_user(r2.users, ut)
            &&& r2.users[user_index(r2.users, ut)].pub_id == r.users[user_index(
                r.users,
                ut,
            )].pub_id
        }),
{
    let i = room_index(m, rt);
    assert(0 <= i < m.len() && m[i].0 == rt);
    let r = m[i].1;
    assert(room_wf(r));
    let m1 = retire_spec(m, rt, ut);
    assert(m1[i].0 == rt);
    assert(has_room(m1, rt));
    let j = room_index(m1, rt);
    assert(0 <= j < m1.len() && m1[j].0 == rt);
    if j != i {
        assert(m1[j] == m[j]);
        assert(false) by {
            if j < i {
                assert(m[j].0 != m[i].0);
            } else {
                assert(m[i].0 != m[j].0);
            }
        }
    }
    assert(m1[i].1 == retire_room(r, ut));
    assert(registry_wf(m1)) by {
        assert forall|k: int| 0 <= k < m1.len() implies room_wf(#[trigger] m1[k].1) by {
            if k != i {
                assert(m1[k].1 == m[k].1);
                assert(room_wf(m[k].1));
            } else {
                lemma_reconnect_retire_wf(r, ut);
            }
        }
        assert forall|a: int, b: int| 0 <= a < b < m1.len() implies m1[a].0 != m1[b].0 by {
            assert(m[a].0 != m[b].0);
        }
    }
    lemma_room_found_after_admit(m1, rt, ut, f, n);
    assert(room_before(m1, rt, n) == retire_room(r, ut));
    lemma_reconnect_resumes(r, ut, f);
}

/// Retirement keeps a room well-formed.
proof fn lemma_reconnect_retire_wf(r: RoomModel, ut: Seq<char>)
    requires
        room_wf(r),
    ensures
        room_wf(retire_room(r, ut)),
{
    let post = retire_room(r, ut);
    assert forall|a: int, b: int| 0 <= a < b < post.users.len() implies post.users[a].token
        != post.users[b].token by {
        assert(r.users[a].token != r.users[b].token);
    }
}

/// A token the room has never seen is admitted under exactly the fresh
/// id drawn for it: distinct fresh draws give distinct public ids.
pub proof fn lemma_fresh_identity(r: RoomModel, ut: Seq<char>, fresh: Seq<char>, p: Seq<char>)
    requires
        !has_user(r.users, ut),
        fresh != p,
    ensures
        admitted_pub(r, ut, fresh) == fresh,
        admitted_pub(r, ut, fresh) != p,
{
}

/// Reconnect resumes state: a member who retires and is admitted again
/// under the same token finds every story — and so every recorded vote —
/// as it was, and keeps the same public id.
pub proof fn lemma_reconnect_resumes(r: RoomModel, ut: Seq<char>, f: Seq<char>)
    requires
        room_wf(r),
        has_user(r.users, ut),
    ensures
        ({
            let r2 = admit_room(retire_room(r, ut), ut, f);
            &&& r2.stories == r.stories
            &&& has_user(r2.users, ut)
            &&& r2.users[user_index(r2.users, ut)].pub_id == r.users[user_index(
                r.users,
                ut,
            )].pub_id
            &&& r2.users[user_index(r2.users, ut)].is_active
        }),
{
    let i = user_index(r.users, ut);
    assert(0 <= i < r.users.len() && r.users[i].token == ut);
    let r1 = retire_room(r, ut);
    assert(r1.users[i].token == ut);
    assert(has_user(r1.users, ut));
    let j = user_index(r1.users, ut);
    assert(0 <= j < r1.users.len() && r1.users[j].token == ut);
    if j != i {
        assert(r1.users[j] == r.users[j]);
        assert(false) by {
            if j < i {
                assert(r.users[j].token != r.users[i].token);
            } else {
                assert(r.users[i].token != r.users[j].token);
            }
        }
    }
    let r2 = admit_room(r1, ut, f);
    assert(r2.users[i].token == ut);
    assert(has_user(r2.users, ut));
    let k = user_index(r2.users, ut);
    assert(0 <= k < r2.users.len() && r2.users[k].token == ut);
    if k != i {
        assert(r2.users[k] == r1.users[k]);
        assert(r1.users[k] == r.users[k]);
        assert(false) by {
            if k < i {
                assert(r.users[k].token != r.users[i].token);
            } else {
                assert(r.users[i].token != r.users[k].token);
            }
        }
    }
    assert(r2.users[i] == user_connected(user_disconnected(r.users[i])));
}

} // verus!
