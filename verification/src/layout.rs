//! The frame around every page: which navigation item is highlighted and
//! what the user badge shows.
use vstd::prelude::*;
use crate::services::auth::UserInfo;
use crate::text::{chars_of, equals_str, owned, starts_with, starts_with_str, string_of};

verus! {

broadcast use vstd::string::group_string_axioms;

/// Whether the navigation item for `path` is highlighted on the page at
/// `current`: the home item only on the home page, any other item on
/// every page under its path.
pub open spec fn active_path(path: Seq<char>, current: Seq<char>) -> bool {
    if path == "/"@ {
        current == "/"@
    } else {
        starts_with(current, path)
    }
}

/// Whether the navigation item for `path` is highlighted on the page at
/// `current`.
pub fn is_active_path(path: &str, current: &str) -> (r: bool)
    ensures
        r == active_path(path@, current@),
{
    let p = chars_of(path);
    let c = chars_of(current);
    if equals_str(&p, "/") {
        equals_str(&c, "/")
    } else {
        starts_with_str(&c, path)
    }
}

/// The first character of `c` in upper case, as `char::to_uppercase`
/// gives it.
pub uninterp spec fn upper_first(c: char) -> Option<char>;

/// The first character of `char::to_uppercase` of `c`, which yields at
/// least one character; which one is only named here.
#[verifier::external_body]
fn first_upper(c: char) -> (r: Option<char>)
    ensures
        r == upper_first(c),
        r is Some,
{
    c.to_uppercase().next()
}

/// The letter on the user badge: the first character of the nickname in
/// upper case ('U' for an empty nickname); '?' when no user is known.
pub open spec fn badge_letter(info: Option<Seq<char>>) -> char {
    match info {
        Some(n) => {
            let first = if n.len() > 0 {
                n[0]
            } else {
                'U'
            };
            match upper_first(first) {
                Some(u) => u,
                None => 'U',
            }
        },
        None => '?',
    }
}

/// The letter and the name on the user badge: the nickname's first
/// character in upper case and the nickname, or '?' and "未知用户" when no
/// user is known.
pub fn user_badge(info: &Option<UserInfo>) -> (r: (String, String))
    ensures
        r.0@ == seq![badge_letter(
            match info {
                Some(u) => Some(u.nickname@),
                None => None,
            },
        )],
        r.1@ == match info {
            Some(u) => u.nickname@,
            None => "未知用户"@,
        },
{
    match info {
        Some(u) => {
            let n = chars_of(u.nickname.as_str());
            let first = if n.len() > 0 {
                n[0]
            } else {
                'U'
            };
            let up = match first_upper(first) {
                Some(c) => c,
                None => 'U',
            };
            let mut v: Vec<char> = Vec::new();
            v.push(up);
            (string_of(&v), u.nickname.clone())
        },
        None => {
            let mut v: Vec<char> = Vec::new();
            v.push('?');
            (string_of(&v), owned("未知用户"))
        },
    }
}

} // verus!
