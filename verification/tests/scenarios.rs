use planning_poker::commands::BroadcastKind;
use planning_poker::ids::{PubId, RoomToken, UserToken};
use planning_poker::model::{Role, StoryState, Vote};
use planning_poker::registry::Registry;
use planning_poker::views::{Outbound, Payload};

fn rt(s: &str) -> RoomToken {
    RoomToken::new(String::from(s))
}

fn ut(s: &str) -> UserToken {
    UserToken::new(String::from(s))
}

fn payload_for<'a>(outs: &'a [Outbound], to: &str) -> &'a Payload {
    &outs.iter().find(|o| o.to.text == to).expect("recipient missing").payload
}

#[test]
fn first_member_becomes_owner_and_sees_self() {
    let mut reg = Registry::new();
    let room = rt("room-1");
    let alice = ut("alice");
    let p = reg.admit_with(&room, &alice, String::from("pub-a"), String::from("t0"));
    assert_eq!(p.text, "pub-a");
    let r = &reg.rooms[0].room;
    assert_eq!(r.owner.as_ref().unwrap().text, "pub-a");
    let opts = vec![String::from("1"), String::from("2")];
    let (config, roster, stories) = reg.initial_sync(&room, &alice, &opts);
    let config = config.expect("config owed at admission");
    match &config.payload {
        Payload::Config(v) => {
            assert_eq!(v.me.text, "pub-a");
            assert_eq!(v.owner.text, "pub-a");
            assert_eq!(v.created_at, "t0");
            assert_eq!(v.vote_options, vec![String::from("1"), String::from("2")]);
        },
        _ => panic!("expected config payload"),
    }
    assert_eq!(roster.len(), 1);
    match payload_for(&roster, "alice") {
        Payload::Roster(v) => {
            assert_eq!(v.users.len(), 1);
            assert_eq!(v.users[0].pub_id.text, "pub-a");
            assert!(v.users[0].is_this);
            assert!(v.users[0].is_active);
        },
        _ => panic!("expected roster payload"),
    }
    match payload_for(&stories, "alice") {
        Payload::Stories(v) => {
            assert_eq!(v.stories.len(), 0);
            assert!(v.active_story.is_none());
        },
        _ => panic!("expected stories payload"),
    }
}

#[test]
fn added_story_starts_voting_with_no_votes() {
    let mut reg = Registry::new();
    let room = rt("room-1");
    let alice = ut("alice");
    let pa = reg.admit_with(&room, &alice, String::from("pub-a"), String::from("t0"));
    let b = reg.dispatch_frame(
        &room,
        &alice,
        &pa,
        "stories {\"stories\":[{\"story_url\":\"u1\",\"story_description\":\"d1\"}]}",
    );
    assert!(matches!(b, BroadcastKind::Stories));
    let r = &reg.rooms[0].room;
    assert_eq!(r.stories.len(), 1);
    assert_eq!(r.stories[0].url, "u1");
    assert_eq!(r.stories[0].description, "d1");
    assert!(matches!(r.stories[0].state, StoryState::Voting));
    assert_eq!(r.stories[0].votes.len(), 0);
    let outs = reg.render_broadcast(&room, b);
    match payload_for(&outs, "alice") {
        Payload::Stories(v) => {
            assert_eq!(v.stories.len(), 1);
            assert_eq!(v.stories[0].url, "u1");
            assert!(matches!(v.stories[0].state, StoryState::Voting));
            assert_eq!(v.stories[0].votes.len(), 0);
        },
        _ => panic!("expected stories payload"),
    }
}

#[test]
fn lone_voter_vote_auto_reveals_to_everyone() {
    let mut reg = Registry::new();
    let room = rt("room-1");
    let alice = ut("alice");
    let bob = ut("bob");
    let pa = reg.admit_with(&room, &alice, String::from("pub-a"), String::from("t0"));
    // Alice watches; Bob is then the only active voter.
    let b = reg.dispatch_frame(&room, &alice, &pa, "user {\"user_name\":\"A\",\"role\":\"Watcher\"}");
    assert!(matches!(b, BroadcastKind::Roster));
    assert!(matches!(reg.rooms[0].room.users[0].role, Role::Watcher));
    let pb = reg.admit_with(&room, &bob, String::from("pub-b"), String::from("t1"));
    reg.dispatch_frame(
        &room,
        &alice,
        &pa,
        "stories {\"stories\":[{\"story_url\":\"u1\",\"story_description\":\"d1\"}]}",
    );
    let sid = reg.rooms[0].room.stories[0].id.text.clone();
    let frame = format!("vote {{\"story_uuid\":\"{}\",\"vote\":{{\"Value\":5}}}}", sid);
    let b = reg.dispatch_frame(&room, &bob, &pb, &frame);
    assert!(matches!(b, BroadcastKind::Stories));
    let outs = reg.render_broadcast(&room, b);
    for who in ["alice", "bob"] {
        match payload_for(&outs, who) {
            Payload::Stories(v) => {
                assert_eq!(v.stories[0].votes.len(), 1);
                assert_eq!(v.stories[0].votes[0].0.text, "pub-b");
                assert_eq!(v.stories[0].votes[0].1, Vote::Value(String::from("5")));
            },
            _ => panic!("expected stories payload"),
        }
    }
}

#[test]
fn unrevealed_votes_are_hidden_from_others_but_not_self() {
    let mut reg = Registry::new();
    let room = rt("room-1");
    let alice = ut("alice");
    let bob = ut("bob");
    let pa = reg.admit_with(&room, &alice, String::from("pub-a"), String::from("t0"));
    let pb = reg.admit_with(&room, &bob, String::from("pub-b"), String::from("t1"));
    reg.dispatch_frame(
        &room,
        &alice,
        &pa,
        "stories {\"stories\":[{\"story_url\":\"u1\",\"story_description\":\"d1\"}]}",
    );
    let sid = reg.rooms[0].room.stories[0].id.text.clone();
    // Both are active voters; only Bob has voted, so nothing is revealed.
    let frame = format!("vote {{\"story_uuid\":\"{}\",\"vote\":{{\"Value\":0.5}}}}", sid);
    let b = reg.dispatch_frame(&room, &bob, &pb, &frame);
    let outs = reg.render_broadcast(&room, b);
    match payload_for(&outs, "alice") {
        Payload::Stories(v) => {
            assert_eq!(v.stories[0].votes.len(), 1);
            assert_eq!(v.stories[0].votes[0].0.text, "pub-b");
            assert_eq!(v.stories[0].votes[0].1, Vote::Hidden);
        },
        _ => panic!("expected stories payload"),
    }
    match payload_for(&outs, "bob") {
        Payload::Stories(v) => {
            assert_eq!(v.stories[0].votes[0].1, Vote::Value(String::from("0.5")));
        },
        _ => panic!("expected stories payload"),
    }
}

#[test]
fn non_owner_cannot_finish() {
    let mut reg = Registry::new();
    let room = rt("room-1");
    let alice = ut("alice");
    let bob = ut("bob");
    let pa = reg.admit_with(&room, &alice, String::from("pub-a"), String::from("t0"));
    let pb = reg.admit_with(&room, &bob, String::from("pub-b"), String::from("t1"));
    reg.dispatch_frame(
        &room,
        &alice,
        &pa,
        "stories {\"stories\":[{\"story_url\":\"u1\",\"story_description\":\"d1\"}]}",
    );
    let sid = reg.rooms[0].room.stories[0].id.text.clone();
    let frame = format!("finish {{\"story_uuid\":\"{}\"}}", sid);
    let b = reg.dispatch_frame(&room, &bob, &pb, &frame);
    assert!(matches!(b, BroadcastKind::Quiet));
    assert!(matches!(reg.rooms[0].room.stories[0].state, StoryState::Voting));
}

#[test]
fn owner_finish_is_terminal_and_later_votes_are_noops() {
    let mut reg = Registry::new();
    let room = rt("room-1");
    let alice = ut("alice");
    let bob = ut("bob");
    let pa = reg.admit_with(&room, &alice, String::from("pub-a"), String::from("t0"));
    let pb = reg.admit_with(&room, &bob, String::from("pub-b"), String::from("t1"));
    reg.dispatch_frame(
        &room,
        &alice,
        &pa,
        "stories {\"stories\":[{\"story_url\":\"u1\",\"story_description\":\"d1\"}]}",
    );
    let sid = reg.rooms[0].room.stories[0].id.text.clone();
    let b = reg.dispatch_frame(&room, &alice, &pa, &format!("finish {{\"story_uuid\":\"{}\"}}", sid));
    assert!(matches!(b, BroadcastKind::Stories));
    assert!(matches!(reg.rooms[0].room.stories[0].state, StoryState::Finished));
    let frame = format!("vote {{\"story_uuid\":\"{}\",\"vote\":{{\"Value\":5}}}}", sid);
    let b = reg.dispatch_frame(&room, &bob, &pb, &frame);
    assert!(matches!(b, BroadcastKind::Quiet));
    assert_eq!(reg.rooms[0].room.stories[0].votes.len(), 0);
}

#[test]
fn same_token_keeps_public_id_and_new_token_gets_a_new_one() {
    let mut reg = Registry::new();
    let room = rt("room-1");
    let alice = ut("alice");
    let p1 = reg.admit_with(&room, &alice, String::from("pub-1"), String::from("t0"));
    let p2 = reg.admit_with(&room, &alice, String::from("pub-2"), String::from("t1"));
    assert_eq!(p1.text, "pub-1");
    assert_eq!(p2.text, "pub-1");
    let carol = ut("carol");
    let p3 = reg.admit_with(&room, &carol, String::from("pub-3"), String::from("t2"));
    assert_eq!(p3.text, "pub-3");
    assert_ne!(p3.text, p1.text);
}

#[test]
fn reconnect_preserves_votes_and_identity() {
    let mut reg = Registry::new();
    let room = rt("room-1");
    let alice = ut("alice");
    let bob = ut("bob");
    let pa = reg.admit_with(&room, &alice, String::from("pub-a"), String::from("t0"));
    let pb = reg.admit_with(&room, &bob, String::from("pub-b"), String::from("t1"));
    reg.dispatch_frame(
        &room,
        &alice,
        &pa,
        "stories {\"stories\":[{\"story_url\":\"u1\",\"story_description\":\"d1\"}]}",
    );
    let sid = reg.rooms[0].room.stories[0].id.text.clone();
    let frame = format!("vote {{\"story_uuid\":\"{}\",\"vote\":\"Coffee\"}}", sid);
    reg.dispatch_frame(&room, &bob, &pb, &frame);
    let found = reg.retire(&room, &bob);
    assert!(found);
    assert!(!reg.rooms[0].room.users[1].is_active);
    assert!(!reg.rooms[0].room.users[1].connected);
    let pb2 = reg.admit_with(&room, &bob, String::from("pub-other"), String::from("t2"));
    assert_eq!(pb2.text, "pub-b");
    assert!(reg.rooms[0].room.users[1].is_active);
    let votes = &reg.rooms[0].room.stories[0].votes;
    assert_eq!(votes.len(), 1);
    assert_eq!(votes[0].0.text, "pub-b");
    assert_eq!(votes[0].1, Vote::Coffee);
}

#[test]
fn connect_draws_a_hyphenated_pseudonym() {
    let mut reg = Registry::new();
    let room = rt("room-1");
    let alice = ut("alice");
    let p1 = reg.connect(&room, &alice);
    let p2 = reg.connect(&room, &alice);
    assert_eq!(p1.text.len(), 36);
    assert_eq!(p1.text, p2.text);
    let r = &reg.rooms[0].room;
    assert!(!r.created_at.is_empty());
    let _: &PubId = &p1;
}

#[test]
fn second_member_config_names_owner_and_self() {
    let mut reg = Registry::new();
    let room = rt("room-1");
    let alice = ut("alice");
    let bob = ut("bob");
    reg.admit_with(&room, &alice, String::from("pub-a"), String::from("t0"));
    reg.admit_with(&room, &bob, String::from("pub-b"), String::from("t1"));
    let opts = vec![String::from("0.5"), String::from("13")];
    let (config, roster, _stories) = reg.initial_sync(&room, &bob, &opts);
    match &config.expect("config owed at admission").payload {
        Payload::Config(v) => {
            assert_eq!(v.owner.text, "pub-a");
            assert_eq!(v.me.text, "pub-b");
            assert_eq!(v.created_at, "t0");
            assert_eq!(v.vote_options, vec![String::from("0.5"), String::from("13")]);
        },
        _ => panic!("expected config payload"),
    }
    assert_eq!(roster.len(), 2);
    match payload_for(&roster, "bob") {
        Payload::Roster(v) => {
            assert_eq!(v.users.len(), 2);
            assert!(!v.users[0].is_this);
            assert!(v.users[1].is_this);
        },
        _ => panic!("expected roster payload"),
    }
}
