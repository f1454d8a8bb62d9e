use planning_poker::commands::BroadcastKind;
use planning_poker::ids::{PubId, RoomToken, UserToken};
use planning_poker::model::{Role, StoryState, Vote};
use planning_poker::registry::Registry;

fn rt(s: &str) -> RoomToken {
    RoomToken::new(String::from(s))
}

fn ut(s: &str) -> UserToken {
    UserToken::new(String::from(s))
}

fn one_room() -> (Registry, RoomToken, UserToken, PubId) {
    let mut reg = Registry::new();
    let room = rt("r");
    let alice = ut("alice");
    let pa = reg.admit_with(&room, &alice, String::from("pub-a"), String::from("t0"));
    reg.dispatch_frame(
        &room,
        &alice,
        &pa,
        "stories {\"stories\":[{\"story_url\":\"u1\",\"story_description\":\"d1\"}]}",
    );
    (reg, room, alice, pa)
}

#[test]
fn ping_is_ignored() {
    let (mut reg, room, alice, pa) = one_room();
    assert!(matches!(reg.dispatch_frame(&room, &alice, &pa, "ping"), BroadcastKind::Quiet));
    assert!(matches!(reg.dispatch_frame(&room, &alice, &pa, "ping\n"), BroadcastKind::Quiet));
    assert_eq!(reg.rooms[0].room.stories.len(), 1);
}

#[test]
fn unknown_command_is_ignored() {
    let (mut reg, room, alice, pa) = one_room();
    let b = reg.dispatch_frame(&room, &alice, &pa, "shout {\"x\":1}");
    assert!(matches!(b, BroadcastKind::Quiet));
    assert_eq!(reg.rooms[0].room.stories.len(), 1);
}

#[test]
fn malformed_payload_is_discarded() {
    let (mut reg, room, alice, pa) = one_room();
    assert!(matches!(
        reg.dispatch_frame(&room, &alice, &pa, "stories {not json"),
        BroadcastKind::Quiet
    ));
    assert!(matches!(
        reg.dispatch_frame(&room, &alice, &pa, "vote {\"story_uuid\":3}"),
        BroadcastKind::Quiet
    ));
    assert!(matches!(
        reg.dispatch_frame(&room, &alice, &pa, "user {\"user_name\":\"A\",\"role\":\"Boss\"}"),
        BroadcastKind::Quiet
    ));
    let r = &reg.rooms[0].room;
    assert_eq!(r.stories.len(), 1);
    assert_eq!(r.users[0].name, "");
    assert!(matches!(r.users[0].role, Role::Voter));
}

#[test]
fn frame_for_unknown_room_changes_nothing() {
    let (mut reg, _room, alice, pa) = one_room();
    let other = rt("elsewhere");
    let b = reg.dispatch_frame(&other, &alice, &pa, "active_story {\"story_uuid\":\"x\"}");
    assert!(matches!(b, BroadcastKind::Quiet));
    assert_eq!(reg.rooms.len(), 1);
}

#[test]
fn set_profile_updates_name_and_role() {
    let (mut reg, room, alice, pa) = one_room();
    let b = reg.dispatch_frame(&room, &alice, &pa, "user {\"user_name\":\"Ada\",\"role\":\"Watcher\"}");
    assert!(matches!(b, BroadcastKind::Roster));
    let u = &reg.rooms[0].room.users[0];
    assert_eq!(u.name, "Ada");
    assert!(matches!(u.role, Role::Watcher));
}

#[test]
fn owner_removes_story_and_missing_story_is_quiet() {
    let (mut reg, room, alice, pa) = one_room();
    let b = reg.dispatch_frame(&room, &alice, &pa, "remove_story {\"story_uuid\":\"no-such\"}");
    assert!(matches!(b, BroadcastKind::Quiet));
    assert_eq!(reg.rooms[0].room.stories.len(), 1);
    let sid = reg.rooms[0].room.stories[0].id.text.clone();
    let b = reg.dispatch_frame(&room, &alice, &pa, &format!("remove_story {{\"story_uuid\":\"{}\"}}", sid));
    assert!(matches!(b, BroadcastKind::Stories));
    assert_eq!(reg.rooms[0].room.stories.len(), 0);
}

#[test]
fn non_owner_cannot_remove_or_select_story() {
    let (mut reg, room, alice, pa) = one_room();
    let bob = ut("bob");
    let pb = reg.admit_with(&room, &bob, String::from("pub-b"), String::from("t1"));
    let sid = reg.rooms[0].room.stories[0].id.text.clone();
    let b = reg.dispatch_frame(&room, &bob, &pb, &format!("remove_story {{\"story_uuid\":\"{}\"}}", sid));
    assert!(matches!(b, BroadcastKind::Quiet));
    assert_eq!(reg.rooms[0].room.stories.len(), 1);
    let b = reg.dispatch_frame(&room, &bob, &pb, &format!("active_story {{\"story_uuid\":\"{}\"}}", sid));
    assert!(matches!(b, BroadcastKind::Quiet));
    assert!(reg.rooms[0].room.active_story.is_none());
    let _ = pa;
}

#[test]
fn owner_selects_active_story_without_existence_check() {
    let (mut reg, room, alice, pa) = one_room();
    let b = reg.dispatch_frame(&room, &alice, &pa, "active_story {\"story_uuid\":\"anything\"}");
    assert!(matches!(b, BroadcastKind::Stories));
    assert_eq!(reg.rooms[0].room.active_story.as_ref().unwrap().text, "anything");
}

#[test]
fn vote_overwrites_previous_vote_of_same_member() {
    let (mut reg, room, alice, pa) = one_room();
    let sid = reg.rooms[0].room.stories[0].id.text.clone();
    reg.dispatch_frame(&room, &alice, &pa, &format!("vote {{\"story_uuid\":\"{}\",\"vote\":{{\"Value\":5}}}}", sid));
    reg.dispatch_frame(&room, &alice, &pa, &format!("vote {{\"story_uuid\":\"{}\",\"vote\":{{\"Value\":8}}}}", sid));
    let votes = &reg.rooms[0].room.stories[0].votes;
    assert_eq!(votes.len(), 1);
    assert_eq!(votes[0].1, Vote::Value(String::from("8")));
}

#[test]
fn special_votes_are_recorded() {
    let (mut reg, room, alice, pa) = one_room();
    let bob = ut("bob");
    let pb = reg.admit_with(&room, &bob, String::from("pub-b"), String::from("t1"));
    let sid = reg.rooms[0].room.stories[0].id.text.clone();
    reg.dispatch_frame(&room, &alice, &pa, &format!("vote {{\"story_uuid\":\"{}\",\"vote\":\"Coffee\"}}", sid));
    reg.dispatch_frame(&room, &bob, &pb, &format!("vote {{\"story_uuid\":\"{}\",\"vote\":\"Question\"}}", sid));
    let votes = &reg.rooms[0].room.stories[0].votes;
    assert_eq!(votes.len(), 2);
    assert_eq!(votes[0].1, Vote::Coffee);
    assert_eq!(votes[1].1, Vote::Question);
}

#[test]
fn hidden_vote_is_never_stored() {
    let (mut reg, room, alice, pa) = one_room();
    let sid = reg.rooms[0].room.stories[0].id.text.clone();
    let b = reg.dispatch_frame(&room, &alice, &pa, &format!("vote {{\"story_uuid\":\"{}\",\"vote\":\"Hidden\"}}", sid));
    assert!(matches!(b, BroadcastKind::Quiet));
    assert_eq!(reg.rooms[0].room.stories[0].votes.len(), 0);
}

#[test]
fn vote_on_missing_story_is_quiet() {
    let (mut reg, room, alice, pa) = one_room();
    let b = reg.dispatch_frame(&room, &alice, &pa, "vote {\"story_uuid\":\"no-such\",\"vote\":{\"Value\":5}}");
    assert!(matches!(b, BroadcastKind::Quiet));
    assert_eq!(reg.rooms[0].room.stories[0].votes.len(), 0);
}

#[test]
fn stories_keep_submission_order() {
    let (mut reg, room, alice, pa) = one_room();
    let b = reg.dispatch_frame(
        &room,
        &alice,
        &pa,
        "stories {\"stories\":[{\"story_url\":\"u2\",\"story_description\":\"d2\"},{\"story_url\":\"u3\",\"story_description\":\"d3\"}]}",
    );
    assert!(matches!(b, BroadcastKind::Stories));
    let r = &reg.rooms[0].room;
    assert_eq!(r.stories.len(), 3);
    assert_eq!(r.stories[1].url, "u2");
    assert_eq!(r.stories[2].url, "u3");
    assert!(matches!(r.stories[2].state, StoryState::Voting));
    assert_ne!(r.stories[1].id.text, r.stories[2].id.text);
}

#[test]
fn retire_of_unknown_room_reports_nothing_to_broadcast() {
    let mut reg = Registry::new();
    let found = reg.retire(&rt("nowhere"), &ut("alice"));
    assert!(!found);
}

#[test]
fn sync_with_unknown_room_yields_nothing() {
    let reg = Registry::new();
    let opts = vec![String::from("1")];
    let (config, roster, stories) = reg.initial_sync(&rt("nowhere"), &ut("alice"), &opts);
    assert!(config.is_none());
    assert!(roster.is_empty());
    assert!(stories.is_empty());
    let outs = reg.render_broadcast(&rt("nowhere"), BroadcastKind::Roster);
    assert!(outs.is_empty());
}

#[test]
fn disconnected_member_gets_no_broadcast_but_stays_on_roster() {
    let (mut reg, room, alice, pa) = one_room();
    let bob = ut("bob");
    let pb = reg.admit_with(&room, &bob, String::from("pub-b"), String::from("t1"));
    reg.retire(&room, &bob);
    let outs = reg.render_broadcast(&room, BroadcastKind::Roster);
    assert_eq!(outs.len(), 1);
    assert_eq!(outs[0].to.text, "alice");
    match &outs[0].payload {
        planning_poker::views::Payload::Roster(v) => {
            assert_eq!(v.users.len(), 2);
            assert_eq!(v.users[1].pub_id.text, "pub-b");
            assert!(!v.users[1].is_active);
        },
        _ => panic!("expected roster payload"),
    }
    let _ = (alice, pa, pb);
}
