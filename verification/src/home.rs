//! Paths that start at the user's home directory.

use crate::text::{optional_text, same_text};
use vstd::prelude::*;
use vstd::string::*;

verus! {

/// Whether `text` starts with a tilde that stands alone: the whole text, or
/// followed by a slash.
pub open spec fn starts_at_home(text: Seq<char>) -> bool {
    text.len() > 0 && text[0] == '~' && (text.len() == 1 || text[1] == '/')
}

/// Whether `text` starts with a tilde and a backslash, which separates on some
/// systems only.
pub open spec fn starts_at_home_backslash(text: Seq<char>) -> bool {
    text.len() > 1 && text[0] == '~' && text[1] == '\\'
}

/// `text` with its first character replaced by the home directory, if there is
/// one.
pub open spec fn at_home(text: Seq<char>, home: Option<Seq<char>>) -> Seq<char> {
    match home {
        Some(directory) => directory + text.skip(1),
        None => text,
    }
}

/// `expanded` is `text` with its tilde expanded. A tilde that stands alone
/// becomes the home directory; before a backslash it does so or stays, as the
/// system has it. Other text stays.
pub open spec fn is_expanded(
    text: Seq<char>,
    home: Option<Seq<char>>,
    expanded: Seq<char>,
) -> bool {
    if starts_at_home(text) {
        expanded == at_home(text, home)
    } else if starts_at_home_backslash(text) {
        expanded == text || expanded == at_home(text, home)
    } else {
        expanded == text
    }
}

/// The home directory, by way of what a tilde alone expands to: the tilde
/// itself where the directory is not known.
pub open spec fn home_of(expanded: Seq<char>) -> Option<Seq<char>> {
    if expanded == "~"@ {
        None
    } else {
        Some(expanded)
    }
}

/// Calls `shellexpand::tilde_with_context` with a home directory. Trusted: the
/// tilde of `text` is expanded to that directory. Whether a backslash behind
/// the tilde separates is left open: it does on Windows alone.
#[verifier::external_body]
pub(crate) fn expand_tilde(text: &str, home: &Option<String>) -> (expanded: String)
    ensures
        is_expanded(text@, optional_text(*home), expanded@),
{
    let home = home.as_deref();
    shellexpand::tilde_with_context(text, || home).into_owned()
}

/// Calls `shellexpand::tilde`. Trusted: the tilde of `text` is expanded to some
/// home directory, or to none. Which one is the machine's matter.
#[verifier::external_body]
fn tilde(text: &str) -> (expanded: String)
    ensures
        exists|home: Option<Seq<char>>| is_expanded(text@, home, expanded@),
{
    shellexpand::tilde(text).into_owned()
}

/// Reads the home directory off what a tilde alone expands to.
pub fn home_in(expanded: String) -> (home: Option<String>)
    ensures
        optional_text(home) == home_of(expanded@),
{
    if same_text(expanded.as_str(), "~") {
        None
    } else {
        Some(expanded)
    }
}

/// The user's home directory, where it is known. It is one that a tilde alone
/// expands to.
pub fn home_dir() -> (home: Option<String>)
    ensures
        exists|expanded: Seq<char>, machine: Option<Seq<char>>|
            #[trigger] is_expanded("~"@, machine, expanded) && optional_text(home) == home_of(
                expanded,
            ),
{
    home_in(tilde("~"))
}

} // verus!
