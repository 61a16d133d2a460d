//! Readers of the members of a JSON object.

use vstd::prelude::*;
use vstd::set_lib::*;
use crate::json::{
    copy_value,
    integer,
    is_null,
    json_integer,
    json_is_null,
    json_member,
    json_members,
    json_text,
    member,
    member_count,
    text,
};

verus! {

/// The text of the string member under a key, if there is one.
pub open spec fn text_member(value: serde_json::Value, key: Seq<char>) -> Option<Seq<char>> {
    match json_member(value, key) {
        Some(found) => json_text(found),
        None => None,
    }
}

/// The number of the integer member under a key, if there is one.
pub open spec fn integer_member(value: serde_json::Value, key: Seq<char>) -> Option<i64> {
    match json_member(value, key) {
        Some(found) => json_integer(found),
        None => None,
    }
}

/// The member under a key, unless it is missing or `null`.
pub open spec fn optional_member(value: serde_json::Value, key: Seq<char>) -> Option<
    serde_json::Value,
> {
    match json_member(value, key) {
        Some(found) => if json_is_null(found) {
            None
        } else {
            Some(found)
        },
        None => None,
    }
}

/// Whether a value is an object with no member but under these three keys.
pub open spec fn only_members(
    value: serde_json::Value,
    first: Seq<char>,
    second: Seq<char>,
    third: Seq<char>,
) -> bool {
    match json_members(value) {
        Some(members) => forall|key: Seq<char>| #[trigger]
            members.dom().contains(key) ==> key == first || key == second || key == third,
        None => false,
    }
}

/// Reads the string member under a key.
pub fn read_text(value: &serde_json::Value, key: &str) -> (r: Option<String>)
    ensures
        r.is_some() == text_member(*value, key@).is_some(),
        r.is_some() ==> r.unwrap()@ == text_member(*value, key@).unwrap(),
{
    match member(value, key) {
        Some(found) => match text(found) {
            Some(s) => Some(s.to_owned()),
            None => None,
        },
        None => None,
    }
}

/// Reads the integer member under a key.
pub fn read_integer(value: &serde_json::Value, key: &str) -> (r: Option<i64>)
    ensures
        r == integer_member(*value, key@),
{
    match member(value, key) {
        Some(found) => integer(found),
        None => None,
    }
}

/// Reads the member under a key, taking `null` for a missing member.
pub fn read_optional<'a>(value: &'a serde_json::Value, key: &str) -> (r: Option<
    &'a serde_json::Value,
>)
    ensures
        r.is_some() == optional_member(*value, key@).is_some(),
        r.is_some() ==> *r.unwrap() == optional_member(*value, key@).unwrap(),
{
    match member(value, key) {
        Some(found) => if is_null(found) {
            None
        } else {
            Some(found)
        },
        None => None,
    }
}

/// Reads the member under a key as a value of its own, taking `null` for a
/// missing member.
pub fn read_optional_owned(value: &serde_json::Value, key: &str) -> (r: Option<serde_json::Value>)
    ensures
        r == optional_member(*value, key@),
{
    match read_optional(value, key) {
        Some(found) => Some(copy_value(found)),
        None => None,
    }
}

/// Whether a value is an object that has no member but under the three
/// given keys: it has as many members as it has of these three.
pub(crate) fn has_only(value: &serde_json::Value, first: &str, second: &str, third: &str) -> (r: bool)
    requires
        first@ != second@,
        first@ != third@,
        second@ != third@,
    ensures
        r == only_members(*value, first@, second@, third@),
{
    match member_count(value) {
        Some(count) => {
            let has_first = member(value, first).is_some();
            let has_second = member(value, second).is_some();
            let has_third = member(value, third).is_some();
            let mut known: usize = 0;
            if has_first {
                known = known + 1;
            }
            if has_second {
                known = known + 1;
            }
            if has_third {
                known = known + 1;
            }
            proof {
                let keys = json_members(*value).unwrap().dom();
                let none = Set::<Seq<char>>::empty();
                let a = if has_first {
                    none.insert(first@)
                } else {
                    none
                };
                let b = if has_second {
                    a.insert(second@)
                } else {
                    a
                };
                let c = if has_third {
                    b.insert(third@)
                } else {
                    b
                };
                assert(c.finite());
                assert(c.len() == known);
                assert(c.subset_of(keys));
                if count == known {
                    lemma_subset_equality(c, keys);
                    assert(c =~= keys);
                } else if only_members(*value, first@, second@, third@) {
                    assert(keys =~= c);
                }
            }
            count == known
        },
        None => false,
    }
}

} // verus!
