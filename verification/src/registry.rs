//! The room registry and the connection lifecycle.
//!
//! The registry maps room tokens to rooms and is the single shared mutable
//! resource; the caller serializes access to it (one admission, retirement
//! or command at a time). Rooms are created lazily on first admission and
//! never destroyed; users are never removed, so an admission under a known
//! token resumes the same public identity and vote history.

use vstd::prelude::*;
use crate::commands::{frame_step, BroadcastKind};
use crate::ids::{PubId, RoomToken, UserToken};
use crate::model::{has_user, room_wf, user_index, Role, Room, RoomModel, User, UserModel};

verus! {

/// One named room.
pub struct RoomEntry {
    pub token: RoomToken,
    pub room: Room,
}

impl View for RoomEntry {
    type V = (Seq<char>, RoomModel);

    open spec fn view(&self) -> (Seq<char>, RoomModel) {
        (self.token@, self.room@)
    }
}

/// The registry: all rooms of the process, keyed by room token.
pub struct Registry {
    pub rooms: Vec<RoomEntry>,
}

impl View for Registry {
    type V = Seq<(Seq<char>, RoomModel)>;

    open spec fn view(&self) -> Seq<(Seq<char>, RoomModel)> {
        self.rooms@.map_values(|e: RoomEntry| e@)
    }
}

/// Whether some room is named `t`.
pub open spec fn has_room(m: Seq<(Seq<char>, RoomModel)>, t: Seq<char>) -> bool {
    exists|i: int| 0 <= i < m.len() && m[i].0 == t
}

/// Position of the room named `t` (well-defined when tokens are unique and
/// `has_room` holds).
pub open spec fn room_index(m: Seq<(Seq<char>, RoomModel)>, t: Seq<char>) -> int {
    choose|i: int| 0 <= i < m.len() && m[i].0 == t
}

/// No two rooms share a token.
pub open spec fn rooms_unique(m: Seq<(Seq<char>, RoomModel)>) -> bool {
    forall|i: int, j: int| 0 <= i < j < m.len() ==> m[i].0 != m[j].0
}

/// Well-formedness of the registry: room tokens unique, every room
/// well-formed.
pub open spec fn registry_wf(m: Seq<(Seq<char>, RoomModel)>) -> bool {
    rooms_unique(m) && (forall|i: int| 0 <= i < m.len() ==> room_wf(#[trigger] m[i].1))
}

/// A room as it is born: empty, unowned, stamped `now`.
pub open spec fn empty_room(now: Seq<char>) -> RoomModel {
    RoomModel {
        users: Seq::empty(),
        stories: Seq::empty(),
        owner: None,
        active_story: None,
        created_at: now,
    }
}

/// `u` back in the room: active, with a channel attached.
pub open spec fn user_connected(u: UserModel) -> UserModel {
    UserModel {
        token: u.token,
        pub_id: u.pub_id,
        name: u.name,
        role: u.role,
        is_active: true,
        connected: true,
    }
}

/// `u` gone from the room: inactive, channel detached.
pub open spec fn user_disconnected(u: UserModel) -> UserModel {
    UserModel {
        token: u.token,
        pub_id: u.pub_id,
        name: u.name,
        role: u.role,
        is_active: false,
        connected: false,
    }
}

/// A first-time member: empty name, `Voter`, active and connected, with the
/// fresh pseudonym.
pub open spec fn new_member(ut: Seq<char>, fresh: Seq<char>) -> UserModel {
    UserModel {
        token: ut,
        pub_id: fresh,
        name: Seq::empty(),
        role: Role::Voter,
        is_active: true,
        connected: true,
    }
}

/// The public id an admission under `ut` ends up with: the stored one if
/// the user is known, the fresh one otherwise.
pub open spec fn admitted_pub(r: RoomModel, ut: Seq<char>, fresh: Seq<char>) -> Seq<char> {
    if has_user(r.users, ut) {
        r.users[user_index(r.users, ut)].pub_id
    } else {
        fresh
    }
}

/// Admission into one room: reconnect or create the member, and give the
/// room an owner if it has none.
pub open spec fn admit_room(r: RoomModel, ut: Seq<char>, fresh: Seq<char>) -> RoomModel {
    let users = if has_user(r.users, ut) {
        let i = user_index(r.users, ut);
        r.users.update(i, user_connected(r.users[i]))
    } else {
        r.users.push(new_member(ut, fresh))
    };
    let owner = if r.owner is None {
        Some(admitted_pub(r, ut, fresh))
    } else {
        r.owner
    };
    RoomModel {
        users,
        stories: r.stories,
        owner,
        active_story: r.active_story,
        created_at: r.created_at,
    }
}

/// The room an admission works on: the stored one, or a fresh one stamped
/// `now`.
pub open spec fn room_before(
    m: Seq<(Seq<char>, RoomModel)>,
    rt: Seq<char>,
    now: Seq<char>,
) -> RoomModel {
    if has_room(m, rt) {
        m[room_index(m, rt)].1
    } else {
        empty_room(now)
    }
}

/// Admission at registry level: get or create the room, then admit.
pub open spec fn admit_spec(
    m: Seq<(Seq<char>, RoomModel)>,
    rt: Seq<char>,
    ut: Seq<char>,
    fresh: Seq<char>,
    now: Seq<char>,
) -> Seq<(Seq<char>, RoomModel)> {
    if has_room(m, rt) {
        let i = room_index(m, rt);
        m.update(i, (rt, admit_room(m[i].1, ut, fresh)))
    } else {
        m.push((rt, admit_room(empty_room(now), ut, fresh)))
    }
}

/// Retirement of one member: mark them gone; an unknown token or room
/// changes nothing.
pub open spec fn retire_room(r: RoomModel, ut: Seq<char>) -> RoomModel {
    if has_user(r.users, ut) {
        let i = user_index(r.users, ut);
        RoomModel {
            users: r.users.update(i, user_disconnected(r.users[i])),
            stories: r.stories,
            owner: r.owner,
            active_story: r.active_story,
            created_at: r.created_at,
        }
    } else {
        r
    }
}

/// Retirement at registry level.
pub open spec fn retire_spec(
    m: Seq<(Seq<char>, RoomModel)>,
    rt: Seq<char>,
    ut: Seq<char>,
) -> Seq<(Seq<char>, RoomModel)> {
    if has_room(m, rt) {
        let i = room_index(m, rt);
        m.update(i, (rt, retire_room(m[i].1, ut)))
    } else {
        m
    }
}

impl Registry {
    /// An empty registry.
    pub fn new() -> (r: Self)
        ensures
            r@ == Seq::<(Seq<char>, RoomModel)>::empty(),
            registry_wf(r@),
    {
        let r = Registry { rooms: Vec::new() };
        proof {
            assert(r@ =~= Seq::<(Seq<char>, RoomModel)>::empty());
        }
        r
    }

    /// Position of the room named `t`, if any.
    pub fn find_room(&self, t: &RoomToken) -> (r: Option<usize>)
        ensures
            match r {
                Some(i) => i < self@.len() && self@[i as int].0 == t@,
                None => !has_room(self@, t@),
            },
    {
        let n = self.rooms.len();
        let mut i: usize = 0;
        while i < n
            invariant
                n == self@.len(),
                i <= n,
                forall|j: int| 0 <= j < i ==> self@[j].0 != t@,
            decreases n - i,
        {
            if self.rooms[i].token.same(t) {
                return Some(i);
            }
            i += 1;
        }
        None
    }

    /// Admits the user `ut` into the room `rt`, with the fresh pseudonym
    /// and timestamp handed in: gets or creates the room, gets or creates
    /// the user (keeping a known user's pseudonym), marks them active and
    /// connected, and makes them owner if the room had none. Returns the
    /// user's public id.
    pub fn admit_with(&mut self, rt: &RoomToken, ut: &UserToken, fresh: String, now: String) -> (p:
        PubId)
        requires
            registry_wf(old(self)@),
        ensures
            registry_wf(final(self)@),
            final(self)@ == admit_spec(old(self)@, rt@, ut@, fresh@, now@),
            p@ == admitted_pub(room_before(old(self)@, rt@, now@), ut@, fresh@),
    {
        let ghost pre = self@;
        match self.find_room(rt) {
            Some(ri) => {
                proof {
                    assert(has_room(pre, rt@));
                    let ci = room_index(pre, rt@);
                    assert(0 <= ci < pre.len() && pre[ci].0 == rt@);
                    assert(ci == ri as int);
                    assert(room_wf(pre[ri as int].1));
                }
                let mut entry = self.rooms.remove(ri);
                let ghost r0 = entry.room@;
                let p = match entry.room.find_user(ut) {
                    Some(ui) => {
                        proof {
                            assert(has_user(r0.users, ut@));
                            let ci = user_index(r0.users, ut@);
                            assert(0 <= ci < r0.users.len() && r0.users[ci].token == ut@);
                            assert(ci == ui as int);
                        }
                        let u = &mut entry.room.users[ui];
                        u.is_active = true;
                        u.connected = true;
                        let p = u.pub_id.dup();
                        proof {
                            assert(entry.room@.users =~= r0.users.update(
                                ui as int,
                                user_connected(r0.users[ui as int]),
                            ));
                        }
                        p
                    },
                    None => {
                        let pid = PubId::new(fresh);
                        let mut u = User::new(ut.dup(), pid.dup());
                        u.connected = true;
                        entry.room.users.push(u);
                        proof {
                            assert(entry.room@.users =~= r0.users.push(new_member(ut@, fresh@)));
                        }
                        pid
                    },
                };
                let need_owner = match &entry.room.owner {
                    None => true,
                    Some(_) => false,
                };
                if need_owner {
                    entry.room.owner = Some(p.dup());
                }
                proof {
                    assert(entry.room@ == admit_room(r0, ut@, fresh@));
                    assert(entry@ == (rt@, admit_room(r0, ut@, fresh@)));
                }
                self.rooms.insert(ri, entry);
                proof {
                    let post = admit_spec(pre, rt@, ut@, fresh@, now@);
                    assert(self@ =~= post);
                    assert(registry_wf(self@)) by {
                        assert forall|k: int| 0 <= k < self@.len() implies room_wf(
                            #[trigger] self@[k].1,
                        ) by {
                            if k != ri as int {
                                assert(self@[k].1 == pre[k].1);
                            } else {
                                lemma_admit_room_wf(r0, ut@, fresh@);
                            }
                        }
                    }
                }
                p
            },
            None => {
                let pid = PubId::new(fresh);
                let mut room = Room::new(now);
                let mut u = User::new(ut.dup(), pid.dup());
                u.connected = true;
                room.users.push(u);
                room.owner = Some(pid.dup());
                let ghost rm = room@;
                let entry = RoomEntry { token: rt.dup(), room };
                self.rooms.push(entry);
                proof {
                    assert(rm.users =~= empty_room(now@).users.push(new_member(ut@, fresh@)));
                    assert(rm == admit_room(empty_room(now@), ut@, fresh@));
                    let post = admit_spec(pre, rt@, ut@, fresh@, now@);
                    assert(self@ =~= post);
                    lemma_admit_room_wf(empty_room(now@), ut@, fresh@);
                    assert(registry_wf(self@)) by {
                        assert forall|k: int| 0 <= k < self@.len() implies room_wf(
                            #[trigger] self@[k].1,
                        ) by {
                            if k < pre.len() {
                                assert(self@[k].1 == pre[k].1);
                            }
                        }
                    }
                }
                pid
            },
        }
    }

    /// Admits with a freshly drawn pseudonym and the current wall-clock
    /// timestamp (see [`crate::frames::fresh_uuid`] and
    /// [`crate::frames::now_timestamp`]).
    pub fn connect(&mut self, rt: &RoomToken, ut: &UserToken) -> (p: PubId)
        requires
            registry_wf(old(self)@),
        ensures
            registry_wf(final(self)@),
            exists|fresh: Seq<char>, now: Seq<char>|
                final(self)@ == admit_spec(old(self)@, rt@, ut@, fresh, now) && p@ == admitted_pub(
                    room_before(old(self)@, rt@, now),
                    ut@,
                    fresh,
                ),
    {
        let fresh = crate::frames::fresh_uuid();
        let now = crate::frames::now_timestamp();
        let ghost f = fresh@;
        let ghost n = now@;
        let p = self.admit_with(rt, ut, fresh, now);
        proof {
            assert(self@ == admit_spec(old(self)@, rt@, ut@, f, n) && p@ == admitted_pub(
                room_before(old(self)@, rt@, n),
                ut@,
                f,
            ));
        }
        p
    }

    /// Retires the user `ut` from the room `rt`: marks them inactive and
    /// detaches their channel; the user record stays. Says whether the
    /// room exists (and so whether the roster is broadcast).
    pub fn retire(&mut self, rt: &RoomToken, ut: &UserToken) -> (found: bool)
        requires
            registry_wf(old(self)@),
        ensures
            registry_wf(final(self)@),
            final(self)@ == retire_spec(old(self)@, rt@, ut@),
            found == has_room(old(self)@, rt@),
    {
        let ghost pre = self@;
        let ri = match self.find_room(rt) {
            Some(i) => i,
            None => {
                return false;
            },
        };
        proof {
            assert(has_room(pre, rt@));
            let ci = room_index(pre, rt@);
            assert(0 <= ci < pre.len() && pre[ci].0 == rt@);
            assert(ci == ri as int);
            assert(room_wf(pre[ri as int].1));
        }
        let mut entry = self.rooms.remove(ri);
        let ghost r0 = entry.room@;
        match entry.room.find_user(ut) {
            Some(ui) => {
                proof {
                    assert(has_user(r0.users, ut@));
                    let ci = user_index(r0.users, ut@);
                    assert(0 <= ci < r0.users.len() && r0.users[ci].token == ut@);
                    assert(ci == ui as int);
                }
                let u = &mut entry.room.users[ui];
                u.is_active = false;
                u.connected = false;
                proof {
                    assert(entry.room@.users =~= r0.users.update(
                        ui as int,
                        user_disconnected(r0.users[ui as int]),
                    ));
                    assert(entry.room@ == retire_room(r0, ut@));
                }
            },
            None => {
                proof {
                    assert(entry.room@ == retire_room(r0, ut@));
                }
            },
        }
        self.rooms.insert(ri, entry);
        proof {
            let post = retire_spec(pre, rt@, ut@);
            assert(self@ =~= post);
            assert(registry_wf(self@)) by {
                assert forall|k: int| 0 <= k < self@.len() implies room_wf(
                    #[trigger] self@[k].1,
                ) by {
                    if k != ri as int {
                        assert(self@[k].1 == pre[k].1);
                    } else {
                        lemma_retire_room_wf(r0, ut@);
                    }
                }
            }
        }
        true
    }

    /// Hands one inbound frame to the room named `rt`; a frame for a room
    /// that does not exist changes nothing.
    pub fn dispatch_frame(
        &mut self,
        rt: &RoomToken,
        token: &UserToken,
        pub_id: &PubId,
        frame: &str,
    ) -> (b: BroadcastKind)
        requires
            registry_wf(old(self)@),
        ensures
            registry_wf(final(self)@),
            has_room(old(self)@, rt@) ==> {
                let i = room_index(old(self)@, rt@);
                &&& frame_step(
                    old(self)@[i].1,
                    token@,
                    pub_id@,
                    frame@,
                    final(self)@[i].1,
                    b,
                )
                &&& final(self)@ == old(self)@.update(i, (rt@, final(self)@[i].1))
            },
            !has_room(old(self)@, rt@) ==> final(self)@ == old(self)@ && b
                == BroadcastKind::Quiet,
    {
        let ghost pre = self@;
        let ri = match self.find_room(rt) {
            Some(i) => i,
            None => {
                return BroadcastKind::Quiet;
            },
        };
        proof {
            assert(has_room(pre, rt@));
            let ci = room_index(pre, rt@);
            assert(0 <= ci < pre.len() && pre[ci].0 == rt@);
            assert(ci == ri as int);
            assert(room_wf(pre[ri as int].1));
        }
        let mut entry = self.rooms.remove(ri);
        let b = entry.room.handle_frame(token, pub_id, frame);
        self.rooms.insert(ri, entry);
        proof {
            assert(self@ =~= pre.update(ri as int, (rt@, self@[ri as int].1)));
            assert(registry_wf(self@)) by {
                assert forall|k: int| 0 <= k < self@.len() implies room_wf(
                    #[trigger] self@[k].1,
                ) by {
                    if k != ri as int {
                        assert(self@[k].1 == pre[k].1);
                    }
                }
            }
        }
        b
    }
}

/// Admission preserves a room's well-formedness.
proof fn lemma_admit_room_wf(r: RoomModel, ut: Seq<char>, fresh: Seq<char>)
    requires
        room_wf(r),
    ensures
        room_wf(admit_room(r, ut, fresh)),
{
    let post = admit_room(r, ut, fresh);
    if has_user(r.users, ut) {
        assert forall|i: int, j: int| 0 <= i < j < post.users.len() implies post.users[i].token
            != post.users[j].token by {
            assert(r.users[i].token != r.users[j].token);
        }
    } else {
        assert forall|i: int, j: int| 0 <= i < j < post.users.len() implies post.users[i].token
            != post.users[j].token by {
            if j < r.users.len() {
                assert(r.users[i].token != r.users[j].token);
            } else {
                assert(!has_user(r.users, ut));
                assert(post.users[i] == r.users[i]);
            }
        }
    }
}

/// Retirement preserves a room's well-formedness.
proof fn lemma_retire_room_wf(r: RoomModel, ut: Seq<char>)
    requires
        room_wf(r),
    ensures
        room_wf(retire_room(r, ut)),
{
    let post = retire_room(r, ut);
    assert forall|i: int, j: int| 0 <= i < j < post.users.len() implies post.users[i].token
        != post.users[j].token by {
        assert(r.users[i].token != r.users[j].token);
    }
}

} // verus!
