//! JSON reading. The grammar is serde_json's: this module names what it reads
//! from a text and leaves the reading to it.

use vstd::prelude::*;

verus! {

/// What serde_json reads from `text` as a JSON object: its members, each as
/// the key and the JSON text of the value, or `None` where `text` is not one
/// JSON object. serde_json gives each key once: where the text repeats a
/// key, the last value stands.
pub uninterp spec fn json_members(text: Seq<char>) -> Option<Seq<(Seq<char>, Seq<char>)>>;

/// What serde_json reads from `text` as an array of strings, or `None` where
/// `text` is not such an array.
pub uninterp spec fn json_string_list(text: Seq<char>) -> Option<Seq<Seq<char>>>;

/// What serde_json reads from `text` as one string, or `None` where `text` is
/// not one JSON string.
pub uninterp spec fn json_string(text: Seq<char>) -> Option<Seq<char>>;

/// What serde_json reads from `text` as an array of exactly two elements, an
/// array of strings and a string, or `None` where `text` is not of that
/// shape.
pub uninterp spec fn json_pair(text: Seq<char>) -> Option<(Seq<Seq<char>>, Seq<char>)>;

/// The characters of each string of a list.
pub open spec fn string_views(items: Seq<String>) -> Seq<Seq<char>> {
    items.map_values(|s: String| s@)
}

/// The characters of each key and value of a list of members.
pub open spec fn member_views(members: Seq<(String, String)>) -> Seq<(Seq<char>, Seq<char>)> {
    members.map_values(|m: (String, String)| (m.0@, m.1@))
}

/// Calls `serde_json::from_str` at the type of a map from `String` to
/// `Box<RawValue>`, and hands the map's entries out as pairs of strings.
/// Trusted: what comes back is what `json_members` names for this text.
#[verifier::external_body]
pub(crate) fn read_members(text: &str) -> (r: Option<Vec<(String, String)>>)
    ensures
        match r {
            Some(members) => json_members(text@) == Some(member_views(members@)),
            None => json_members(text@) is None,
        },
{
    let parsed = serde_json::from_str::<
        std::collections::BTreeMap<String, Box<serde_json::value::RawValue>>,
    >(text);
    match parsed {
        Ok(map) => Some(map.into_iter().map(|(k, v)| (k, v.get().to_owned())).collect()),
        Err(_) => None,
    }
}

/// Calls `serde_json::from_str` at `Vec<String>`. Trusted: what comes back
/// is what `json_string_list` names for this text.
#[verifier::external_body]
pub(crate) fn read_string_list(text: &str) -> (r: Option<Vec<String>>)
    ensures
        match r {
            Some(items) => json_string_list(text@) == Some(string_views(items@)),
            None => json_string_list(text@) is None,
        },
{
    serde_json::from_str::<Vec<String>>(text).ok()
}

/// Calls `serde_json::from_str` at `String`. Trusted: what comes back is
/// what `json_string` names for this text.
#[verifier::external_body]
pub(crate) fn read_string(text: &str) -> (r: Option<String>)
    ensures
        match r {
            Some(s) => json_string(text@) == Some(s@),
            None => json_string(text@) is None,
        },
{
    serde_json::from_str::<String>(text).ok()
}

/// Calls `serde_json::from_str` at the pair `(Vec<String>, String)`.
/// Trusted: what comes back is what `json_pair` names for this text.
#[verifier::external_body]
pub(crate) fn read_pair(text: &str) -> (r: Option<(Vec<String>, String)>)
    ensures
        match r {
            Some(pair) => json_pair(text@) == Some((string_views(pair.0@), pair.1@)),
            None => json_pair(text@) is None,
        },
{
    serde_json::from_str::<(Vec<String>, String)>(text).ok()
}

/// The JSON text of the first member of `members` whose key is `key`.
pub open spec fn member_value(members: Seq<(Seq<char>, Seq<char>)>, key: Seq<char>) -> Option<
    Seq<char>,
>
    decreases members.len(),
{
    if members.len() == 0 {
        None
    } else if members[0].0 == key {
        Some(members[0].1)
    } else {
        member_value(members.drop_first(), key)
    }
}

/// Looks a key up among the members of an object: the JSON text of the
/// first member with that key.
pub fn find_member<'a>(members: &'a Vec<(String, String)>, key: &str) -> (r: Option<&'a String>)
    ensures
        match r {
            Some(value) => member_value(member_views(members@), key@) == Some(value@),
            None => member_value(member_views(members@), key@) is None,
        },
{
    let wanted = key.to_owned();
    let ghost all = member_views(members@);
    let mut i: usize = 0;
    assert(all.skip(0) =~= all);
    while i < members.len()
        invariant
            i <= members.len(),
            wanted@ == key@,
            all == member_views(members@),
            member_value(all, key@) == member_value(all.skip(i as int), key@),
        decreases members.len() - i,
    {
        assert(all.skip(i as int)[0] == (members@[i as int].0@, members@[i as int].1@));
        if members[i].0 == wanted {
            return Some(&members[i].1);
        }
        assert(all.skip(i as int).drop_first() =~= all.skip(i + 1));
        i += 1;
    }
    assert(all.skip(i as int).len() == 0);
    None
}

} // verus!
