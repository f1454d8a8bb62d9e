//! The broadcast engine: renders the three outbound views — roster,
//! stories, config — one personalized copy per connected member.
//!
//! Views are observer-relative (the roster's `is_this` flag, the vote map
//! the visibility policy allows each observer), so nothing rendered here
//! may be shared between recipients. The caller takes each [`Outbound`]
//! and enqueues it on the recipient's channel.

use vstd::prelude::*;
use crate::commands::BroadcastKind;
use crate::ids::{PubId, RoomToken, StoryId, UserToken};
use crate::model::{
    has_user, room_wf, user_index, votes_view, Role, Room, RoomModel, StoryModel, StoryState,
    UserModel, Vote,
};
use crate::registry::{has_room, registry_wf, room_index, Registry};
use crate::visibility::{compute_votes, visible_votes};

verus! {

/// One line of the roster as a recipient sees it.
pub struct RosterEntry {
    pub pub_id: PubId,
    pub name: String,
    pub role: Role,
    pub is_this: bool,
    pub is_active: bool,
}

/// The roster view: every member of the room, active or not.
pub struct RosterView {
    pub users: Vec<RosterEntry>,
}

/// One story as a recipient sees it.
pub struct StoryView {
    pub id: StoryId,
    pub url: String,
    pub description: String,
    pub state: StoryState,
    pub votes: Vec<(PubId, Vote)>,
}

/// The stories view: every story with its observer-relative vote map.
pub struct StoriesView {
    pub stories: Vec<StoryView>,
    pub active_story: Option<StoryId>,
}

/// The per-connection configuration view, sent once at admission.
pub struct ConfigView {
    pub vote_options: Vec<String>,
    pub owner: PubId,
    pub me: PubId,
    pub created_at: String,
}

/// What an outbound frame carries.
pub enum Payload {
    Roster(RosterView),
    Stories(StoriesView),
    Config(ConfigView),
}

/// One message addressed to the member holding `to`.
pub struct Outbound {
    pub to: UserToken,
    pub payload: Payload,
}

/// The recipient token of an outbound message.
pub open spec fn out_token() -> spec_fn(Outbound) -> Seq<char> {
    |o: Outbound| o.to@
}

/// Whether a member currently has a channel attached.
pub open spec fn is_connected() -> spec_fn(UserModel) -> bool {
    |u: UserModel| u.connected
}

/// A member's private token.
pub open spec fn token_of() -> spec_fn(UserModel) -> Seq<char> {
    |u: UserModel| u.token
}

/// The view of a string.
pub open spec fn str_view() -> spec_fn(String) -> Seq<char> {
    |s: String| s@
}

/// The tokens of the connected members, in roster order: exactly the
/// recipients of every broadcast.
pub open spec fn connected_tokens(users: Seq<UserModel>) -> Seq<Seq<char>> {
    users.filter(is_connected()).map_values(token_of())
}

/// `e` shows `u` to `recip`: fields copied, `is_this` exactly when the
/// entry is the recipient's own.
pub open spec fn roster_entry_ok(e: RosterEntry, u: UserModel, recip: UserModel) -> bool {
    &&& e.pub_id@ == u.pub_id
    &&& e.name@ == u.name
    &&& e.role == u.role
    &&& e.is_active == u.is_active
    &&& e.is_this == (u.token == recip.token)
}

/// `v` is the roster of `r` as `recip` sees it: one entry per member,
/// active or not, in admission order.
pub open spec fn roster_view_ok(r: RoomModel, recip: UserModel, v: RosterView) -> bool {
    &&& v.users@.len() == r.users.len()
    &&& forall|j: int|
        0 <= j < r.users.len() ==> roster_entry_ok(#[trigger] v.users@[j], r.users[j], recip)
}

/// `sv` shows the story `s` to `recip`: metadata copied, votes exactly as
/// the visibility policy allows.
pub open spec fn story_view_ok(r: RoomModel, recip: UserModel, sv: StoryView, s: StoryModel) -> bool {
    &&& sv.id@ == s.id
    &&& sv.url@ == s.url
    &&& sv.description@ == s.description
    &&& sv.state == s.state
    &&& votes_view(sv.votes@) == visible_votes(s, r.users, recip.pub_id)
}

/// `v` is the stories view of `r` as `recip` sees it.
pub open spec fn stories_view_ok(r: RoomModel, recip: UserModel, v: StoriesView) -> bool {
    &&& v.stories@.len() == r.stories.len()
    &&& forall|j: int|
        0 <= j < r.stories.len() ==> story_view_ok(r, recip, #[trigger] v.stories@[j], r.stories[j])
    &&& (match v.active_story {
        Some(a) => r.active_story == Some(a@),
        None => r.active_story is None,
    })
}

/// `o` is a roster message correctly addressed to one of `r`'s members.
pub open spec fn outbound_roster_ok(r: RoomModel, o: Outbound) -> bool {
    &&& has_user(r.users, o.to@)
    &&& (o.payload matches Payload::Roster(v) && roster_view_ok(
        r,
        r.users[user_index(r.users, o.to@)],
        v,
    ))
}

/// `o` is a stories message correctly addressed to one of `r`'s members.
pub open spec fn outbound_stories_ok(r: RoomModel, o: Outbound) -> bool {
    &&& has_user(r.users, o.to@)
    &&& (o.payload matches Payload::Stories(v) && stories_view_ok(
        r,
        r.users[user_index(r.users, o.to@)],
        v,
    ))
}

/// A full roster broadcast: one personalized message per connected member,
/// in roster order.
pub open spec fn roster_outs_ok(r: RoomModel, outs: Seq<Outbound>) -> bool {
    &&& outs.map_values(out_token()) == connected_tokens(r.users)
    &&& forall|k: int| 0 <= k < outs.len() ==> outbound_roster_ok(r, #[trigger] outs[k])
}

/// A full stories broadcast: one personalized message per connected
/// member, in roster order.
pub open spec fn stories_outs_ok(r: RoomModel, outs: Seq<Outbound>) -> bool {
    &&& outs.map_values(out_token()) == connected_tokens(r.users)
    &&& forall|k: int| 0 <= k < outs.len() ==> outbound_stories_ok(r, #[trigger] outs[k])
}

/// `v` is the configuration as the member `me` must see it.
pub open spec fn config_view_ok(
    r: RoomModel,
    me: UserModel,
    opts: Seq<Seq<char>>,
    v: ConfigView,
) -> bool {
    &&& v.vote_options@.map_values(str_view()) == opts
    &&& r.owner == Some(v.owner@)
    &&& v.me@ == me.pub_id
    &&& v.created_at@ == r.created_at
}

/// The config message owed to `ut` right after admission: one, provided
/// the member exists, is connected, and the room has an owner.
pub open spec fn config_out_ok(
    r: RoomModel,
    ut: Seq<char>,
    opts: Seq<Seq<char>>,
    o: Option<Outbound>,
) -> bool {
    if has_user(r.users, ut) && r.users[user_index(r.users, ut)].connected && r.owner is Some {
        match o {
            Some(ob) => ob.to@ == ut && (ob.payload matches Payload::Config(v) && config_view_ok(
                r,
                r.users[user_index(r.users, ut)],
                opts,
                v,
            )),
            None => false,
        }
    } else {
        o is None
    }
}

/// Renders the roster broadcast of `room`.
pub fn render_roster(room: &Room) -> (outs: Vec<Outbound>)
    requires
        room_wf(room@),
    ensures
        roster_outs_ok(room@, outs@),
{
    let ghost r = room@;
    let n = room.users.len();
    let mut outs: Vec<Outbound> = Vec::new();
    let mut i: usize = 0;
    while i < n
        invariant
            room_wf(r),
            r == room@,
            n == r.users.len(),
            i <= n,
            outs@.map_values(out_token()) == connected_tokens(r.users.take(i as int)),
            forall|k: int| 0 <= k < outs@.len() ==> outbound_roster_ok(r, #[trigger] outs@[k]),
        decreases n - i,
    {
        let recip = &room.users[i];
        proof {
            reveal(Seq::filter);
            let t1 = r.users.take((i + 1) as int);
            assert(t1.drop_last() =~= r.users.take(i as int));
            assert(t1.last() == r.users[i as int]);
            assert(t1.filter(is_connected()) == (if r.users[i as int].connected {
                r.users.take(i as int).filter(is_connected()).push(r.users[i as int])
            } else {
                r.users.take(i as int).filter(is_connected())
            }));
        }
        if recip.connected {
            let mut entries: Vec<RosterEntry> = Vec::new();
            let mut j: usize = 0;
            while j < n
                invariant
                    r == room@,
                    n == r.users.len(),
                    i < n,
                    j <= n,
                    entries@.len() == j,
                    forall|l: int|
                        0 <= l < j ==> roster_entry_ok(
                            #[trigger] entries@[l],
                            r.users[l],
                            r.users[i as int],
                        ),
                decreases n - j,
            {
                let u = &room.users[j];
                entries.push(
                    RosterEntry {
                        pub_id: u.pub_id.dup(),
                        name: u.name.clone(),
                        role: u.role,
                        is_this: u.token.same(&room.users[i].token),
                        is_active: u.is_active,
                    },
                );
                j += 1;
            }
            let ghost outs0 = outs@;
            outs.push(
                Outbound { to: room.users[i].token.dup(), payload: Payload::Roster(
                    RosterView { users: entries },
                ) },
            );
            proof {
                let k = outs@.len() - 1;
                assert(outs@[k].to@ == r.users[i as int].token);
                assert(has_user(r.users, outs@[k].to@));
                let ci = user_index(r.users, r.users[i as int].token);
                assert(0 <= ci < r.users.len() && r.users[ci].token == r.users[i as int].token);
                assert(ci == i as int);
                assert(outbound_roster_ok(r, outs@[k]));
                reveal(Seq::filter);
                let t1 = r.users.take((i + 1) as int);
                assert(t1.drop_last() =~= r.users.take(i as int));
                assert(t1.last() == r.users[i as int]);
                assert(t1.filter(is_connected()) =~= r.users.take(i as int).filter(
                    is_connected(),
                ).push(r.users[i as int]));
                assert(outs@.map_values(out_token()) =~= outs0.map_values(out_token()).push(
                    r.users[i as int].token,
                ));
                assert(connected_tokens(t1) =~= connected_tokens(r.users.take(i as int)).push(
                    r.users[i as int].token,
                ));
                assert(outs@.map_values(out_token()) =~= connected_tokens(
                    r.users.take((i + 1) as int),
                ));
            }
        } else {
            proof {
                reveal(Seq::filter);
                let t1 = r.users.take((i + 1) as int);
                assert(t1.drop_last() =~= r.users.take(i as int));
                assert(t1.last() == r.users[i as int]);
                assert(outs@.map_values(out_token()) =~= connected_tokens(
                    r.users.take((i + 1) as int),
                ));
            }
        }
        i += 1;
    }
    proof {
        assert(r.users.take(n as int) =~= r.users);
    }
    outs
}

/// Renders the stories broadcast of `room`.
pub fn render_stories(room: &Room) -> (outs: Vec<Outbound>)
    requires
        room_wf(room@),
    ensures
        stories_outs_ok(room@, outs@),
{
    let ghost r = room@;
    let n = room.users.len();
    let ns = room.stories.len();
    let mut outs: Vec<Outbound> = Vec::new();
    let mut i: usize = 0;
    while i < n
        invariant
            room_wf(r),
            r == room@,
            n == r.users.len(),
            ns == r.stories.len(),
            i <= n,
            outs@.map_values(out_token()) == connected_tokens(r.users.take(i as int)),
            forall|k: int| 0 <= k < outs@.len() ==> outbound_stories_ok(r, #[trigger] outs@[k]),
        decreases n - i,
    {
        proof {
            reveal(Seq::filter);
            let t1 = r.users.take((i + 1) as int);
            assert(t1.drop_last() =~= r.users.take(i as int));
            assert(t1.last() == r.users[i as int]);
            assert(t1.filter(is_connected()) == (if r.users[i as int].connected {
                r.users.take(i as int).filter(is_connected()).push(r.users[i as int])
            } else {
                r.users.take(i as int).filter(is_connected())
            }));
        }
        if room.users[i].connected {
            let mut views: Vec<StoryView> = Vec::new();
            let mut j: usize = 0;
            while j < ns
                invariant
                    room_wf(r),
                    r == room@,
                    n == r.users.len(),
                    ns == r.stories.len(),
                    i < n,
                    j <= ns,
                    views@.len() == j,
                    forall|l: int|
                        0 <= l < j ==> story_view_ok(
                            r,
                            r.users[i as int],
                            #[trigger] views@[l],
                            r.stories[l],
                        ),
                decreases ns - j,
            {
                let s = &room.stories[j];
                let votes = compute_votes(s, &room.users, &room.users[i].pub_id);
                views.push(
                    StoryView {
                        id: s.id.dup(),
                        url: s.url.clone(),
                        description: s.description.clone(),
                        state: s.state,
                        votes,
                    },
                );
                j += 1;
            }
            let active = match &room.active_story {
                Some(a) => Some(a.dup()),
                None => None,
            };
            let ghost outs0 = outs@;
            outs.push(
                Outbound { to: room.users[i].token.dup(), payload: Payload::Stories(
                    StoriesView { stories: views, active_story: active },
                ) },
            );
            proof {
                let k = outs@.len() - 1;
                assert(outs@[k].to@ == r.users[i as int].token);
                assert(has_user(r.users, outs@[k].to@));
                let ci = user_index(r.users, r.users[i as int].token);
                assert(0 <= ci < r.users.len() && r.users[ci].token == r.users[i as int].token);
                assert(ci == i as int);
                assert(outbound_stories_ok(r, outs@[k]));
                reveal(Seq::filter);
                let t1 = r.users.take((i + 1) as int);
                assert(t1.drop_last() =~= r.users.take(i as int));
                assert(t1.last() == r.users[i as int]);
                assert(t1.filter(is_connected()) =~= r.users.take(i as int).filter(
                    is_connected(),
                ).push(r.users[i as int]));
                assert(outs@.map_values(out_token()) =~= outs0.map_values(out_token()).push(
                    r.users[i as int].token,
                ));
                assert(connected_tokens(t1) =~= connected_tokens(r.users.take(i as int)).push(
                    r.users[i as int].token,
                ));
                assert(outs@.map_values(out_token()) =~= connected_tokens(
                    r.users.take((i + 1) as int),
                ));
            }
        } else {
            proof {
                reveal(Seq::filter);
                let t1 = r.users.take((i + 1) as int);
                assert(t1.drop_last() =~= r.users.take(i as int));
                assert(t1.last() == r.users[i as int]);
                assert(outs@.map_values(out_token()) =~= connected_tokens(
                    r.users.take((i + 1) as int),
                ));
            }
        }
        i += 1;
    }
    proof {
        assert(r.users.take(n as int) =~= r.users);
    }
    outs
}

/// Renders the config message owed to `ut` right after admission.
pub fn render_config(room: &Room, ut: &UserToken, vote_options: &Vec<String>) -> (o: Option<
    Outbound,
>)
    requires
        room_wf(room@),
    ensures
        config_out_ok(room@, ut@, vote_options@.map_values(str_view()), o),
{
    let ghost r = room@;
    let ui = match room.find_user(ut) {
        Some(i) => i,
        None => {
            return None;
        },
    };
    proof {
        assert(has_user(r.users, ut@));
        let ci = user_index(r.users, ut@);
        assert(0 <= ci < r.users.len() && r.users[ci].token == ut@);
        assert(ci == ui as int);
    }
    if !room.users[ui].connected {
        return None;
    }
    let owner = match &room.owner {
        Some(p) => p.dup(),
        None => {
            return None;
        },
    };
    let mut opts: Vec<String> = Vec::new();
    let no = vote_options.len();
    let mut j: usize = 0;
    while j < no
        invariant
            no == vote_options@.len(),
            j <= no,
            opts@.len() == j,
            forall|l: int| 0 <= l < j ==> opts@[l]@ == #[trigger] vote_options@[l]@,
        decreases no - j,
    {
        opts.push(vote_options[j].clone());
        j += 1;
    }
    let view = ConfigView {
        vote_options: opts,
        owner,
        me: room.users[ui].pub_id.dup(),
        created_at: room.created_at.clone(),
    };
    proof {
        assert(view.vote_options@.map_values(str_view()) =~= vote_options@.map_values(str_view()));
    }
    Some(Outbound { to: ut.dup(), payload: Payload::Config(view) })
}

impl Registry {
    /// Renders the broadcast a command asked for: the roster or stories of
    /// the room named `rt`, or nothing.
    pub fn render_broadcast(&self, rt: &RoomToken, kind: BroadcastKind) -> (outs: Vec<Outbound>)
        requires
            registry_wf(self@),
        ensures
            has_room(self@, rt@) ==> {
                let r = self@[room_index(self@, rt@)].1;
                match kind {
                    BroadcastKind::Quiet => outs@.len() == 0,
                    BroadcastKind::Roster => roster_outs_ok(r, outs@),
                    BroadcastKind::Stories => stories_outs_ok(r, outs@),
                }
            },
            !has_room(self@, rt@) ==> outs@.len() == 0,
    {
        let ri = match self.find_room(rt) {
            Some(i) => i,
            None => {
                return Vec::new();
            },
        };
        proof {
            assert(has_room(self@, rt@));
            let ci = room_index(self@, rt@);
            assert(0 <= ci < self@.len() && self@[ci].0 == rt@);
            assert(ci == ri as int);
            assert(room_wf(self@[ri as int].1));
        }
        match kind {
            BroadcastKind::Quiet => Vec::new(),
            BroadcastKind::Roster => render_roster(&self.rooms[ri].room),
            BroadcastKind::Stories => render_stories(&self.rooms[ri].room),
        }
    }

    /// Renders the initial synchronization owed to `ut` right after
    /// admission to `rt`: the config message, the roster broadcast, and
    /// the stories broadcast, to be delivered in that order.
    pub fn initial_sync(&self, rt: &RoomToken, ut: &UserToken, vote_options: &Vec<String>) -> (r:
        (Option<Outbound>, Vec<Outbound>, Vec<Outbound>))
        requires
            registry_wf(self@),
        ensures
            has_room(self@, rt@) ==> {
                let room = self@[room_index(self@, rt@)].1;
                &&& config_out_ok(room, ut@, vote_options@.map_values(str_view()), r.0)
                &&& roster_outs_ok(room, r.1@)
                &&& stories_outs_ok(room, r.2@)
            },
            !has_room(self@, rt@) ==> r.0 is None && r.1@.len() == 0 && r.2@.len() == 0,
    {
        let ri = match self.find_room(rt) {
            Some(i) => i,
            None => {
                return (None, Vec::new(), Vec::new());
            },
        };
        proof {
            assert(has_room(self@, rt@));
            let ci = room_index(self@, rt@);
            assert(0 <= ci < self@.len() && self@[ci].0 == rt@);
            assert(ci == ri as int);
            assert(room_wf(self@[ri as int].1));
        }
        let room = &self.rooms[ri].room;
        (render_config(room, ut, vote_options), render_roster(room), render_stories(room))
    }
}

} // verus!
