//! The calls into other crates, each with what is relied on.

use crate::patterns::is_pattern;
use std::collections::HashSet;
use vstd::prelude::*;

verus! {

/// Whether `id` is laid out as a version 7 UUID: the version field holds 7, the variant
/// field holds the two bits `10`.
pub open spec fn is_v7(id: u128) -> bool {
    &&& (id >> 76) & 0xf == 7
    &&& (id >> 62) & 0x3 == 2
}

/// A fresh identifier from `uuid::Uuid::now_v7`, as the number `Uuid::as_u128` gives for it.
///
/// The identifier is made of the current time and of random bits, so only its layout is
/// promised.
#[verifier::external_body]
pub(crate) fn fresh_v7() -> (id: u128)
    ensures
        is_v7(id),
{
    uuid::Uuid::now_v7().as_u128()
}

/// Copies a set of texts with `std::collections::HashSet::clone`: the copy holds the same
/// elements.
#[verifier::external_body]
pub(crate) fn clone_texts(texts: &HashSet<String>) -> (r: HashSet<String>)
    ensures
        r@ == texts@,
{
    texts.clone()
}

/// What `console::strip_ansi_codes` makes of a text: `None` where it hands the text back
/// without a copy, else the text without its terminal escape sequences.
pub uninterp spec fn ansi_stripped(text: Seq<char>) -> Option<Seq<char>>;

/// Calls `console::strip_ansi_codes`, which copies a text that holds terminal escape sequences
/// without them, and hands back a text that holds none. The result is `None` in the second
/// case, and depends on the text alone.
#[verifier::external_body]
pub(crate) fn strip_ansi(text: &str) -> (r: Option<String>)
    ensures
        match r {
            Some(s) => ansi_stripped(text@) == Some(s@),
            None => ansi_stripped(text@) is None,
        },
{
    match console::strip_ansi_codes(text) {
        std::borrow::Cow::Owned(s) => Some(s),
        std::borrow::Cow::Borrowed(_) => None,
    }
}

/// What `regex::Regex::replace_all` makes of a text: the text with each match of `pattern`
/// replaced by `replacement`, in which `$1` stands for what the first group matched, and so on.
pub uninterp spec fn regex_replaced(
    pattern: Seq<char>,
    text: Seq<char>,
    replacement: Seq<char>,
) -> Seq<char>;

/// Compiles `pattern` with `regex::Regex::new` and replaces its matches in `text` with
/// `regex::Regex::replace_all`. The result depends on the three texts alone. `Regex::new`
/// refuses a pattern that does not compile, so only the patterns of this crate are admitted.
#[verifier::external_body]
pub(crate) fn regex_replace_all(pattern: &str, text: &str, replacement: &str) -> (r: String)
    requires
        is_pattern(pattern@),
    ensures
        r@ == regex_replaced(pattern@, text@, replacement@),
{
    regex::Regex::new(pattern).unwrap().replace_all(text, replacement).into_owned()
}

} // verus!
