//! Conversation roles and their wire-string representation.

use vstd::prelude::*;

verus! {

use crate::strutil::str_eq_str;

/// The author of one conversation turn. Exactly two values exist; each has a
/// fixed lowercase wire string.
#[derive(Clone, Copy, Debug, PartialEq, Eq, Structural)]
pub enum Role {
    User,
    Assistant,
}

/// The wire string of a role, as a sequence of characters.
pub open spec fn spec_role_string(r: Role) -> Seq<char> {
    match r {
        Role::User => "user"@,
        Role::Assistant => "assistant"@,
    }
}

/// The role a wire string denotes, if any: the conversion is partial and
/// fails on every string other than the two fixed ones.
pub open spec fn spec_role_of_string(s: Seq<char>) -> Option<Role> {
    if s == "user"@ {
        Some(Role::User)
    } else if s == "assistant"@ {
        Some(Role::Assistant)
    } else {
        None
    }
}

/// Converts a role to its wire string. Total.
pub fn role_to_string(r: Role) -> (res: String)
    ensures
        res@ == spec_role_string(r),
{
    match r {
        Role::User => String::from_str("user"),
        Role::Assistant => String::from_str("assistant"),
    }
}

/// Converts a wire string back to a role; any string other than the two
/// fixed ones is rejected.
pub fn string_to_role(s: &str) -> (res: Option<Role>)
    ensures
        res == spec_role_of_string(s@),
{
    if str_eq_str(s, "user") {
        Some(Role::User)
    } else if str_eq_str(s, "assistant") {
        Some(Role::Assistant)
    } else {
        None
    }
}

/// Every role survives the round trip through its wire string, and no other
/// string converts to a role at all.
pub proof fn lemma_role_round_trip(r: Role, s: Seq<char>)
    ensures
        spec_role_of_string(spec_role_string(r)) == Some(r),
        s != "user"@ && s != "assistant"@ ==> spec_role_of_string(s) is None,
{
    reveal_strlit("user");
    reveal_strlit("assistant");
    match r {
        Role::User => {
            assert(spec_role_string(r) == "user"@);
        }
        Role::Assistant => {
            assert(spec_role_string(r) != "user"@) by {
                assert("user"@.len() == 4);
                assert("assistant"@.len() == 9);
            }
        }
    }
}

} // verus!
