//! Which commit a published package says it was published from.

use crate::text::optional_text;
use vstd::prelude::*;

verus! {

/// `serde_json::Value`.
#[verifier::external_type_specification]
#[verifier::external_body]
pub struct ExJsonValue(serde_json::Value);

/// A JSON value. What is not a string or an object is not told apart.
pub enum JsonView {
    Text(Seq<char>),
    Object(Map<Seq<char>, JsonView>),
    Other,
}

/// What a `serde_json::Value` holds: a string, or the members of an object. All other values are
/// `Other`.
pub uninterp spec fn json_value(value: serde_json::Value) -> JsonView;

/// What `serde_json::from_str` reads in a text; nothing where it is not JSON.
pub uninterp spec fn parsed_json(text: Seq<char>) -> Option<JsonView>;

/// `serde_json::from_str` for a `serde_json::Value`: the value that the text holds.
#[verifier::external_body]
pub(crate) fn parse_json(text: &str) -> (r: Option<serde_json::Value>)
    ensures
        (match r {
            Some(value) => Some(json_value(value)),
            None => None,
        }) == parsed_json(text@),
{
    serde_json::from_str(text).ok()
}

/// `serde_json::Value::get` for a string: the member of an object with this name.
#[verifier::external_body]
pub(crate) fn member<'a>(value: &'a serde_json::Value, name: &str) -> (r: Option<
    &'a serde_json::Value,
>)
    ensures
        match json_value(*value) {
            JsonView::Object(members) => (r is Some <==> members.contains_key(name@)) && (
            r matches Some(found) ==> json_value(*found) == members[name@]),
            _ => r is None,
        },
{
    value.get(name)
}

/// `serde_json::Value::as_str`: the text of a value that is a string.
#[verifier::external_body]
pub(crate) fn json_text(value: &serde_json::Value) -> (r: Option<&str>)
    ensures
        match json_value(*value) {
            JsonView::Text(text) => r is Some && r->0@ == text,
            _ => r is None,
        },
{
    value.as_str()
}

impl JsonView {
    /// The member of an object with this name.
    pub open spec fn get(self, name: Seq<char>) -> Option<JsonView> {
        match self {
            JsonView::Object(members) => if members.contains_key(name) {
                Some(members[name])
            } else {
                None
            },
            _ => None,
        }
    }
}

/// The commit that a `.cargo_vcs_info.json` names: the string `sha1` of its object `git`.
pub open spec fn commit_in(info: JsonView) -> Option<Seq<char>> {
    match info.get("git"@) {
        Some(git) => match git.get("sha1"@) {
            Some(JsonView::Text(sha1)) => Some(sha1),
            _ => None,
        },
        None => None,
    }
}

/// The commit that the content of a `.cargo_vcs_info.json` names.
pub fn commit_of_vcs_info(info: &serde_json::Value) -> (r: Option<String>)
    ensures
        optional_text(r) == commit_in(json_value(*info)),
{
    match member(info, "git") {
        Some(git) => match member(git, "sha1") {
            Some(sha1) => match json_text(sha1) {
                Some(sha1) => Some(sha1.to_owned()),
                None => None,
            },
            None => None,
        },
        None => None,
    }
}

/// The commit that the text of a `.cargo_vcs_info.json` names; none where it is not JSON or names
/// none.
pub fn commit_in_vcs_info(text: &str) -> (r: Option<String>)
    ensures
        optional_text(r) == match parsed_json(text@) {
            Some(info) => commit_in(info),
            None => None,
        },
{
    match parse_json(text) {
        Some(info) => commit_of_vcs_info(&info),
        None => None,
    }
}

/// The commit is the string `sha1` of the object `git`; other members make no difference, and
/// without the string there is no commit.
pub proof fn commit_is_the_hash_of_the_git_object(info: &serde_json::Value, r: Option<String>)
    requires
        call_ensures(commit_of_vcs_info, (info,), r),
    ensures
        match json_value(*info) {
            JsonView::Object(members) => if members.contains_key("git"@) {
                match members["git"@] {
                    JsonView::Object(git) => if git.contains_key("sha1"@) {
                        match git["sha1"@] {
                            JsonView::Text(sha1) => r matches Some(commit) && commit@ == sha1,
                            _ => r is None,
                        }
                    } else {
                        r is None
                    },
                    _ => r is None,
                }
            } else {
                r is None
            },
            _ => r is None,
        },
{
}

/// A text names the commit that the JSON in it names, and none where it is not JSON.
pub proof fn text_names_the_commit_of_its_json(
    text: &str,
    info: &serde_json::Value,
    of_info: Option<String>,
    r: Option<String>,
)
    requires
        call_ensures(commit_in_vcs_info, (text,), r),
        call_ensures(commit_of_vcs_info, (info,), of_info),
    ensures
        parsed_json(text@) is None ==> r is None,
        parsed_json(text@) == Some(json_value(*info)) ==> optional_text(r) == optional_text(of_info),
{
}

}
