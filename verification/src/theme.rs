use vstd::prelude::*;
use vstd::string::*;

use crate::text::str_eq;

verus! {

/// Whether `t` names one of the two colour themes, "dark" and "light".
pub open spec fn is_theme(t: Seq<char>) -> bool {
    t == "dark"@ || t == "light"@
}

/// The theme a page opens with: the stored one where it names a theme, else "dark".
pub open spec fn initial_theme_text(stored: Option<Seq<char>>) -> Seq<char> {
    match stored {
        Some(t) => if is_theme(t) {
            t
        } else {
            "dark"@
        },
        None => "dark"@,
    }
}

/// The theme that the theme button switches to: "light" from "dark", else "dark".
pub open spec fn next_theme_text(current: Seq<char>) -> Seq<char> {
    if current == "dark"@ {
        "light"@
    } else {
        "dark"@
    }
}

/// The theme a page opens with, from the value kept in local storage.
pub fn initial_theme(stored: Option<String>) -> (theme: String)
    ensures
        theme@ == initial_theme_text(
            match stored {
                Some(s) => Some(s@),
                None => None,
            },
        ),
        is_theme(theme@),
{
    match stored {
        Some(s) => {
            if str_eq(s.as_str(), "dark") || str_eq(s.as_str(), "light") {
                s
            } else {
                String::from_str("dark")
            }
        },
        None => String::from_str("dark"),
    }
}

/// The theme that the theme button switches to.
pub fn next_theme(current: &str) -> (next: &'static str)
    ensures
        next@ == next_theme_text(current@),
        is_theme(next@),
{
    if str_eq(current, "dark") {
        "light"
    } else {
        "dark"
    }
}

/// Switching the theme of a page that shows one of the two themes gives the
/// other one, and switching twice gives the first one back.
pub proof fn lemma_next_theme_alternates(t: Seq<char>)
    requires
        is_theme(t),
    ensures
        next_theme_text(t) != t,
        is_theme(next_theme_text(t)),
        next_theme_text(next_theme_text(t)) == t,
{
    reveal_strlit("dark");
    reveal_strlit("light");
    assert("dark"@ != "light"@) by {
        assert("dark"@.len() != "light"@.len());
    }
}

} // verus!
