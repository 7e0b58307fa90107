//! The members of one JSON object, as far as the journal and the catalog
//! replies are read: each top-level key with what kind of value it holds.

use vstd::prelude::*;
use crate::text::{compare, Rank};

verus! {

/// What a top-level key of a JSON object holds.
#[derive(Debug, PartialEq, Eq)]
pub enum Member {
    /// The JSON value `null`.
    Null,
    /// A JSON string.
    Text(String),
    /// A whole number that fits in 64 bits without a sign.
    Unsigned(u64),
    /// Anything else: a boolean, another number, an array, an object.
    Other,
}

/// The mathematical value of a `Member`.
pub ghost enum MemberView {
    Null,
    Text(Seq<char>),
    Unsigned(u64),
    Other,
}

impl View for Member {
    type V = MemberView;

    open spec fn view(&self) -> MemberView {
        match self {
            Member::Null => MemberView::Null,
            Member::Text(t) => MemberView::Text(t@),
            Member::Unsigned(n) => MemberView::Unsigned(*n),
            Member::Other => MemberView::Other,
        }
    }
}

/// The keys and values that a list of members spells.
pub open spec fn members_view(members: Seq<(String, Member)>) -> Seq<(Seq<char>, MemberView)> {
    Seq::new(members.len(), |i: int| (members[i].0@, members[i].1@))
}

/// What the first member stored under `key` holds, if there is one.
pub open spec fn find_member(members: Seq<(Seq<char>, MemberView)>, key: Seq<char>) -> Option<
    MemberView,
>
    decreases members.len(),
{
    if members.len() == 0 {
        None
    } else if members[0].0 == key {
        Some(members[0].1)
    } else {
        find_member(members.drop_first(), key)
    }
}

/// The top-level members of the JSON object that `text` spells, each key
/// with the kind of value it holds, or `None` where `text` is not one JSON
/// object. It stands for what `serde_json::from_str` reads from `text`.
pub uninterp spec fn json_object(text: Seq<char>) -> Option<Seq<(Seq<char>, MemberView)>>;

/// Parses `text` with `serde_json::from_str` into a `serde_json::Value` and
/// hands out the members of the object it holds, in the order in which
/// the parsed object enumerates them: `null` as `Null`, a string as `Text`,
/// a number for which `Number::as_u64` gives a value as `Unsigned`, and
/// everything else as `Other`. Text that is not valid JSON, or whose value
/// is not an object, gives `None`. The contract only names the result: it
/// claims that the same text always gives the same members, and nothing
/// about what they are.
#[verifier::external_body]
pub(crate) fn parse_object(text: &str) -> (r: Option<Vec<(String, Member)>>)
    ensures
        match r {
            Some(members) => json_object(text@) == Some(members_view(members@)),
            None => json_object(text@) is None,
        },
{
    let serde_json::Value::Object(object) = serde_json::from_str(text).ok()? else { return None };
    let mut members = Vec::new();
    for (key, value) in object {
        members.push((key, match value {
            serde_json::Value::Null => Member::Null,
            serde_json::Value::String(text) => Member::Text(text),
            serde_json::Value::Number(n) => n.as_u64().map_or(Member::Other, Member::Unsigned),
            _ => Member::Other,
        }));
    }
    Some(members)
}

/// Looks up the first member stored under `key`.
pub fn lookup<'a>(members: &'a Vec<(String, Member)>, key: &str) -> (r: Option<&'a Member>)
    ensures
        match r {
            Some(m) => find_member(members_view(members@), key@) == Some(m@),
            None => find_member(members_view(members@), key@) is None,
        },
{
    let ghost all = members_view(members@);
    let mut i: usize = 0;
    assert(all.skip(0) =~= all);
    while i < members.len()
        invariant
            i <= members.len(),
            all == members_view(members@),
            find_member(all, key@) == find_member(all.skip(i as int), key@),
        decreases members.len() - i,
    {
        proof {
            assert(all.skip(i as int).drop_first() =~= all.skip(i as int + 1));
            assert(all.skip(i as int)[0] == all[i as int]);
        }
        match compare(members[i].0.as_str(), key) {
            Rank::Same => {
                return Some(&members[i].1);
            },
            _ => {},
        }
        i += 1;
    }
    None
}

/// A member that has to be a string: its text, or `None`.
pub open spec fn required_text(members: Seq<(Seq<char>, MemberView)>, key: Seq<char>) -> Option<
    Seq<char>,
> {
    match find_member(members, key) {
        Some(MemberView::Text(t)) => Some(t),
        _ => None,
    }
}

/// A member that may be missing or `null`, and otherwise has to be a
/// string. The outer `None` says that it holds something else.
pub open spec fn optional_text(members: Seq<(Seq<char>, MemberView)>, key: Seq<char>) -> Option<
    Option<Seq<char>>,
> {
    match find_member(members, key) {
        None => Some(None),
        Some(MemberView::Null) => Some(None),
        Some(MemberView::Text(t)) => Some(Some(t)),
        _ => None,
    }
}

/// A member that may be missing or `null`, and otherwise has to be an
/// unsigned whole number. The outer `None` says that it holds something else.
pub open spec fn optional_unsigned(members: Seq<(Seq<char>, MemberView)>, key: Seq<char>) -> Option<
    Option<u64>,
> {
    match find_member(members, key) {
        None => Some(None),
        Some(MemberView::Null) => Some(None),
        Some(MemberView::Unsigned(n)) => Some(Some(n)),
        _ => None,
    }
}

/// The names that an optional string spells.
pub open spec fn spelled_option(s: Option<String>) -> Option<Seq<char>> {
    match s {
        Some(t) => Some(t@),
        None => None,
    }
}

/// Reads a member that has to be a string.
pub fn read_text(members: &Vec<(String, Member)>, key: &str) -> (r: Option<String>)
    ensures
        spelled_option(r) == required_text(members_view(members@), key@),
{
    match lookup(members, key) {
        Some(Member::Text(t)) => Some(t.clone()),
        _ => None,
    }
}

/// Reads a member that may be missing or `null` and is a string otherwise.
pub fn read_optional_text(members: &Vec<(String, Member)>, key: &str) -> (r: Option<Option<String>>)
    ensures
        match r {
            Some(inner) => optional_text(members_view(members@), key@) == Some(
                spelled_option(inner),
            ),
            None => optional_text(members_view(members@), key@) is None,
        },
{
    match lookup(members, key) {
        None => Some(None),
        Some(Member::Null) => Some(None),
        Some(Member::Text(t)) => Some(Some(t.clone())),
        _ => None,
    }
}

/// Reads a member that may be missing or `null` and is an unsigned whole
/// number otherwise.
pub fn read_optional_unsigned(members: &Vec<(String, Member)>, key: &str) -> (r: Option<
    Option<u64>,
>)
    ensures
        r == optional_unsigned(members_view(members@), key@),
{
    match lookup(members, key) {
        None => Some(None),
        Some(Member::Null) => Some(None),
        Some(Member::Unsigned(n)) => Some(Some(*n)),
        _ => None,
    }
}

} // verus!
