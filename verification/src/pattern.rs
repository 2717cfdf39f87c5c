//! Regular-expression matching, and the token patterns of a platform.
//!
//! The matching itself is done by the `regex` crate. What it computes is not
//! restated here: each result has a name, and the contracts of this library
//! speak of those names.

use vstd::prelude::*;
use vstd::string::*;
use crate::text::{join, joined, views};

verus! {

/// Whether `regex::Regex::new` accepts `pattern`.
pub uninterp spec fn pattern_compiles(pattern: Seq<char>) -> bool;

/// Whether `regex::Regex::is_match` finds `pattern` somewhere in `text`.
pub uninterp spec fn pattern_matches(pattern: Seq<char>, text: Seq<char>) -> bool;

/// The part of `text` that the capture group named `group` holds in the
/// first match of `pattern`, as `regex::Regex::captures` and
/// `regex::Captures::name` give it; `None` where the pattern does not
/// compile, nothing matches, or the group took no part in the match.
pub uninterp spec fn pattern_capture(
    pattern: Seq<char>,
    group: Seq<char>,
    text: Seq<char>,
) -> Option<Seq<char>>;

/// `text` after `regex::Regex::replace_all` has put `replacement` in place
/// of every match of `pattern`.
pub uninterp spec fn pattern_replaced(
    pattern: Seq<char>,
    text: Seq<char>,
    replacement: Seq<char>,
) -> Seq<char>;

/// The view of an optional string.
pub open spec fn optional_view(value: Option<String>) -> Option<Seq<char>> {
    match value {
        Some(s) => Some(s@),
        None => None,
    }
}

/// Calls `regex::Regex::new` and reports whether the pattern was accepted.
/// Trusted: the result is what `pattern_compiles` names.
#[verifier::external_body]
pub(crate) fn compiles(pattern: &str) -> (r: bool)
    ensures
        r == pattern_compiles(pattern@),
{
    regex::Regex::new(pattern).is_ok()
}

/// Calls `regex::Regex::is_match` on a freshly compiled `pattern`.
/// Trusted: for a pattern that compiles, the answer is what
/// `pattern_matches` names.
#[verifier::external_body]
pub(crate) fn is_match(pattern: &str, text: &str) -> (r: bool)
    requires
        pattern_compiles(pattern@),
    ensures
        r == pattern_matches(pattern@, text@),
{
    match regex::Regex::new(pattern) {
        Ok(re) => re.is_match(text),
        Err(_) => false,
    }
}

/// Calls `regex::Regex::captures` on a freshly compiled `pattern` and takes
/// the group `group` from it with `regex::Captures::name`.
/// Trusted: the result is what `pattern_capture` names.
#[verifier::external_body]
pub(crate) fn capture(pattern: &str, group: &str, text: &str) -> (r: Option<String>)
    ensures
        optional_view(r) == pattern_capture(pattern@, group@, text@),
{
    match regex::Regex::new(pattern) {
        Ok(re) => match re.captures(text) {
            Some(found) => found.name(group).map(|m| m.as_str().to_string()),
            None => None,
        },
        Err(_) => None,
    }
}

/// Calls `regex::Regex::replace_all` on a freshly compiled `pattern`.
/// Trusted: for a pattern that compiles, the text is what
/// `pattern_replaced` names.
#[verifier::external_body]
pub(crate) fn replace_all(pattern: &str, text: &str, replacement: &str) -> (r: String)
    requires
        pattern_compiles(pattern@),
    ensures
        r@ == pattern_replaced(pattern@, text@, replacement@),
{
    match regex::Regex::new(pattern) {
        Ok(re) => re.replace_all(text, replacement).into_owned(),
        Err(_) => text.to_string(),
    }
}

/// The pattern that finds any of `tokens` as a whole word, in any case.
pub open spec fn token_pattern(tokens: Seq<Seq<char>>) -> Seq<char> {
    "(?i)\\b("@ + joined(tokens, "|"@) + ")\\b"@
}

/// The pattern of a run of two or more `-` or `_`.
pub open spec fn separator_run_pattern() -> Seq<char> {
    "([-_]{2,})"@
}

/// The pattern of `-` and `_` at either end of a text.
pub open spec fn separator_edge_pattern() -> Seq<char> {
    "(^[-_]+|[-_]+$)"@
}

/// Builds the pattern that finds any of `tokens` as a whole word.
pub fn build_token_pattern(tokens: &Vec<String>) -> (r: String)
    ensures
        r@ == token_pattern(views(tokens@)),
{
    let mut out = String::from_str("(?i)\\b(");
    let alternatives = join(tokens, "|");
    out.append(alternatives.as_str());
    out.append(")\\b");
    out
}

/// The names by which release files call the operating system and the
/// architecture of the machine, with the patterns made from them. A value
/// exists only where all its patterns compile.
#[derive(Debug)]
pub struct Platform {
    os: Vec<String>,
    arch: Vec<String>,
    os_pattern: String,
    arch_pattern: String,
}

impl Platform {
    #[verifier::type_invariant]
    spec fn well_formed(self) -> bool {
        &&& self.os_pattern@ == token_pattern(views(self.os@))
        &&& self.arch_pattern@ == token_pattern(views(self.arch@))
        &&& pattern_compiles(self.os_pattern@)
        &&& pattern_compiles(self.arch_pattern@)
        &&& pattern_compiles(separator_run_pattern())
        &&& pattern_compiles(separator_edge_pattern())
    }

    /// The operating-system names.
    pub closed spec fn os_tokens(self) -> Seq<Seq<char>> {
        views(self.os@)
    }

    /// The architecture names.
    pub closed spec fn arch_tokens(self) -> Seq<Seq<char>> {
        views(self.arch@)
    }

    /// The patterns that a platform with these names needs all compile.
    pub open spec fn usable(os: Seq<Seq<char>>, arch: Seq<Seq<char>>) -> bool {
        &&& pattern_compiles(token_pattern(os))
        &&& pattern_compiles(token_pattern(arch))
        &&& pattern_compiles(separator_run_pattern())
        &&& pattern_compiles(separator_edge_pattern())
    }

    /// A platform with the given names, or `None` where one of its patterns
    /// does not compile.
    pub fn new(os: Vec<String>, arch: Vec<String>) -> (r: Option<Platform>)
        ensures
            r is Some <==> Self::usable(views(os@), views(arch@)),
            r is Some ==> r.unwrap().os_tokens() == views(os@) && r.unwrap().arch_tokens()
                == views(arch@),
    {
        let os_pattern = build_token_pattern(&os);
        let arch_pattern = build_token_pattern(&arch);
        if compiles(os_pattern.as_str()) && compiles(arch_pattern.as_str()) && compiles(
            "([-_]{2,})",
        ) && compiles("(^[-_]+|[-_]+$)") {
            Some(Platform { os, arch, os_pattern, arch_pattern })
        } else {
            None
        }
    }

    /// Whether `name` holds one of the operating-system names as a word.
    pub fn names_os(&self, name: &str) -> (r: bool)
        ensures
            r == pattern_matches(token_pattern(self.os_tokens()), name@),
    {
        proof {
            use_type_invariant(self);
        }
        is_match(self.os_pattern.as_str(), name)
    }

    /// Whether `name` holds one of the architecture names as a word.
    pub fn names_arch(&self, name: &str) -> (r: bool)
        ensures
            r == pattern_matches(token_pattern(self.arch_tokens()), name@),
    {
        proof {
            use_type_invariant(self);
        }
        is_match(self.arch_pattern.as_str(), name)
    }

    /// `name` as it is left when the platform's names, `version` and the
    /// separators around them are taken out.
    pub open spec fn cleaned(self, name: Seq<char>, version: Seq<char>) -> Seq<char> {
        let without_os = pattern_replaced(token_pattern(self.os_tokens()), name, ""@);
        let without_arch = pattern_replaced(token_pattern(self.arch_tokens()), without_os, ""@);
        let without_version = crate::text::remove_all(without_arch, version);
        let collapsed = pattern_replaced(separator_run_pattern(), without_version, "-"@);
        pattern_replaced(separator_edge_pattern(), collapsed, ""@)
    }

    /// Takes the platform's names and `version` out of `name`, turns each run
    /// of separators into one `-`, and trims separators from both ends.
    pub fn clean(&self, name: &str, version: &str) -> (r: String)
        ensures
            r@ == self.cleaned(name@, version@),
    {
        proof {
            use_type_invariant(self);
        }
        let without_os = replace_all(self.os_pattern.as_str(), name, "");
        let without_arch = replace_all(self.arch_pattern.as_str(), without_os.as_str(), "");
        let without_version = crate::text::without(without_arch.as_str(), version);
        let collapsed = replace_all("([-_]{2,})", without_version.as_str(), "-");
        replace_all("(^[-_]+|[-_]+$)", collapsed.as_str(), "")
    }
}

} // verus!
