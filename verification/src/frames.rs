//! The trusted boundary of the library.
//!
//! Everything here either calls an outside crate behind a contract that
//! Verus believes without proof, or names the result of such a call so that
//! verified callers can speak of it exactly. Nothing else in the library is
//! taken on trust.

use vstd::prelude::*;

verus! {

/// What parsing a set-profile payload yields: the display name and whether
/// the role is `Voter` (`true`) or `Watcher` (`false`); `None` on any
/// malformed payload.
pub uninterp spec fn profile_payload_of(s: Seq<char>) -> Option<(Seq<char>, bool)>;

/// What parsing an add-stories payload yields: the submitted (url,
/// description) pairs in order; `None` on any malformed payload.
pub uninterp spec fn stories_payload_of(s: Seq<char>) -> Option<Seq<(Seq<char>, Seq<char>)>>;

/// What parsing a payload that names one story yields: the story id;
/// `None` on any malformed payload.
pub uninterp spec fn story_ref_payload_of(s: Seq<char>) -> Option<Seq<char>>;

/// What parsing a cast-vote payload yields: the story id, the vote kind
/// (see [`crate::model::vote_from_parts`]) and, for a numeric vote, the
/// number's own text; `None` on any malformed payload.
pub uninterp spec fn vote_payload_of(s: Seq<char>) -> Option<(Seq<char>, u8, Seq<char>)>;

/// The model of a parsed profile payload.
pub open spec fn profile_result_view(r: Option<(String, bool)>) -> Option<(Seq<char>, bool)> {
    match r {
        Some(p) => Some((p.0@, p.1)),
        None => None,
    }
}

/// The model of a parsed add-stories payload.
pub open spec fn stories_result_view(r: Option<Vec<(String, String)>>) -> Option<
    Seq<(Seq<char>, Seq<char>)>,
> {
    match r {
        Some(v) => Some(v@.map_values(|p: (String, String)| (p.0@, p.1@))),
        None => None,
    }
}

/// The model of a parsed story reference payload.
pub open spec fn story_ref_result_view(r: Option<String>) -> Option<Seq<char>> {
    match r {
        Some(s) => Some(s@),
        None => None,
    }
}

/// The model of a parsed cast-vote payload.
pub open spec fn vote_result_view(r: Option<(String, u8, String)>) -> Option<
    (Seq<char>, u8, Seq<char>),
> {
    match r {
        Some(p) => Some((p.0@, p.1, p.2@)),
        None => None,
    }
}

/// Relies on serde_json::from_str and serde_json::Value's accessors
/// (`get`, `as_str`): the parse of a profile payload is a function of the
/// text alone.
#[verifier::external_body]
pub(crate) fn parse_profile_payload(s: &str) -> (r: Option<(String, bool)>)
    ensures
        profile_result_view(r) == profile_payload_of(s@),
{
    let v: serde_json::Value = match serde_json::from_str(s) {
        Ok(v) => v,
        Err(_) => return None,
    };
    let name = v.get("user_name")?.as_str()?;
    let is_voter = match v.get("role")?.as_str()? {
        "Voter" => true,
        "Watcher" => false,
        _ => return None,
    };
    Some((name.to_string(), is_voter))
}

/// Relies on serde_json::from_str and serde_json::Value's accessors
/// (`get`, `as_str`, `as_array`): the parse of an add-stories payload is a
/// function of the text alone.
#[verifier::external_body]
pub(crate) fn parse_stories_payload(s: &str) -> (r: Option<Vec<(String, String)>>)
    ensures
        stories_result_view(r) == stories_payload_of(s@),
{
    let v: serde_json::Value = match serde_json::from_str(s) {
        Ok(v) => v,
        Err(_) => return None,
    };
    let mut out: Vec<(String, String)> = Vec::new();
    for item in v.get("stories")?.as_array()? {
        let url = item.get("story_url")?.as_str()?;
        let description = item.get("story_description")?.as_str()?;
        out.push((url.to_string(), description.to_string()));
    }
    Some(out)
}

/// Relies on serde_json::from_str and serde_json::Value's accessors
/// (`get`, `as_str`): the parse of a story reference payload is a function
/// of the text alone.
#[verifier::external_body]
pub(crate) fn parse_story_ref_payload(s: &str) -> (r: Option<String>)
    ensures
        story_ref_result_view(r) == story_ref_payload_of(s@),
{
    let v: serde_json::Value = match serde_json::from_str(s) {
        Ok(v) => v,
        Err(_) => return None,
    };
    Some(v.get("story_uuid")?.as_str()?.to_string())
}

/// Relies on serde_json::from_str and serde_json::Value's accessors
/// (`get`, `as_str`, `as_number`): the parse of a cast-vote payload is a
/// function of the text alone. The kind is always one of the four the
/// protocol knows.
#[verifier::external_body]
pub(crate) fn parse_vote_payload(s: &str) -> (r: Option<(String, u8, String)>)
    ensures
        vote_result_view(r) == vote_payload_of(s@),
        r matches Some(p) ==> p.1 <= 3,
{
    let v: serde_json::Value = match serde_json::from_str(s) {
        Ok(v) => v,
        Err(_) => return None,
    };
    let id = v.get("story_uuid")?.as_str()?.to_string();
    let vote = v.get("vote")?;
    match vote.as_str() {
        Some("Coffee") => return Some((id, 1, String::new())),
        Some("Question") => return Some((id, 2, String::new())),
        Some("Hidden") => return Some((id, 3, String::new())),
        Some(_) => return None,
        None => {},
    }
    Some((id, 0, vote.get("Value")?.as_number()?.to_string()))
}

/// Relies on uuid::Uuid::new_v4: a freshly drawn random identifier,
/// rendered in the 36-character hyphenated form. Nothing else is promised
/// of the result; in particular not that two draws differ.
#[verifier::external_body]
pub(crate) fn fresh_uuid() -> (r: String)
    ensures
        r@.len() == 36,
{
    uuid::Uuid::new_v4().hyphenated().to_string()
}

/// Relies on chrono::Local::now, rendered as "YYYY-MM-DD HH:MM:SS".
/// The result depends on the wall clock, so nothing is promised of it.
#[verifier::external_body]
pub(crate) fn now_timestamp() -> (r: String) {
    chrono::Local::now().format("%Y-%m-%d %H:%M:%S").to_string()
}

} // verus!
