//! Calls into the outside crates that the changelog logic relies on. Each
//! function here is trusted: Verus believes its contract without reading its
//! body.
use vstd::prelude::*;

use crate::model::{release_views, Release};
use crate::versions::{map_insert, values_of, KeyedView};
use indexmap::IndexMap;

verus! {

/// `indexmap::IndexMap`, an insertion-ordered hash map.
#[verifier::external_type_specification]
#[verifier::external_body]
#[verifier::reject_recursive_types(K)]
#[verifier::reject_recursive_types(V)]
#[verifier::reject_recursive_types(S)]
pub struct ExIndexMap<K, V, S>(IndexMap<K, V, S>);

/// What an `IndexMap` from versions to releases holds: its entries in the
/// map's order, each as (key, (version, title, notes)).
pub uninterp spec fn index_map_entries(m: IndexMap<String, Release>) -> Seq<KeyedView>;

/// What `parse_changelog::Parser::new().parse` yields for a text: the
/// releases in the order of the text, each as (version, title, notes), or
/// the parser's error message.
pub uninterp spec fn parsed_changelog(text: Seq<char>) -> Result<
    Seq<(Seq<char>, Seq<char>, Seq<char>)>,
    Seq<char>,
>;

/// What `semver::Version::parse` yields for a text: the major, minor and
/// patch numbers, or the parser's error message.
pub uninterp spec fn semver_parsed(text: Seq<char>) -> Result<(u64, u64, u64), Seq<char>>;

/// What `similar::TextDiff::from_lines` reports for two texts: each change
/// as its tag (`-` deleted, `+` inserted, ` ` equal) and its line as the
/// change's `Display` writes it.
pub uninterp spec fn line_diff(old: Seq<char>, new: Seq<char>) -> Seq<(char, Seq<char>)>;

/// What `git_conventional::Commit::parse` yields for a commit message: the
/// type and the description of a conventional commit, or nothing when the
/// message is not one.
pub uninterp spec fn conventional_commit(message: Seq<char>) -> Option<(Seq<char>, Seq<char>)>;

/// Calls `parse_changelog::Parser::parse` with the default version and
/// prefix formats. The contract claims that the result is the named value
/// for the text (converted release by release, in map order); and, as the
/// crate documents its errors, that a successful parse holds at least one
/// release and no version twice (the map's keys are the versions).
#[verifier::external_body]
pub(crate) fn parse_changelog_text(text: &str) -> (r: Result<Vec<Release>, String>)
    ensures
        match r {
            Ok(rs) => {
                &&& parsed_changelog(text@) == Ok::<_, Seq<char>>(release_views(rs@))
                &&& rs.len() > 0
                &&& forall|i: int, j: int|
                    0 <= i < j < rs.len() ==> rs@[i].version@ != rs@[j].version@
            },
            Err(e) => parsed_changelog(text@) == Err::<Seq<(Seq<char>, Seq<char>, Seq<char>)>, _>(
                e@,
            ),
        },
{
    match parse_changelog::Parser::new().parse(text) {
        Ok(map) => Ok(
            map.values().map(
                |r| Release {
                    version: r.version.to_string(),
                    title: r.title.to_string(),
                    notes: r.notes.to_string(),
                },
            ).collect(),
        ),
        Err(e) => Err(e.to_string()),
    }
}

/// Calls `IndexMap::new`. The contract claims that the new map is empty.
#[verifier::external_body]
pub(crate) fn index_map_new() -> (m: IndexMap<String, Release>)
    ensures
        index_map_entries(m) == Seq::<KeyedView>::empty(),
{
    IndexMap::new()
}

/// Calls `IndexMap::insert`. The contract claims what indexmap documents and
/// its source does: a key that is already present (an equal `String`) keeps
/// its place and takes the new value; a new key goes last.
#[verifier::external_body]
pub(crate) fn index_map_insert(m: &mut IndexMap<String, Release>, key: String, value: Release)
    ensures
        index_map_entries(*final(m)) == map_insert(index_map_entries(*old(m)), key@, value@),
{
    m.insert(key, value);
}

/// Calls `IndexMap::into_values`. The contract claims that the values come
/// out in the map's order.
#[verifier::external_body]
pub(crate) fn index_map_into_values(m: IndexMap<String, Release>) -> (r: Vec<Release>)
    ensures
        release_views(r@) == values_of(index_map_entries(m)),
{
    m.into_values().collect()
}

/// Calls `semver::Version::parse`. The contract claims only that the result
/// is the named value for the text (the major, minor and patch fields of the
/// parsed version, or the error's message).
#[verifier::external_body]
pub(crate) fn parse_semver(text: &str) -> (r: Result<(u64, u64, u64), String>)
    ensures
        match r {
            Ok(v) => semver_parsed(text@) == Ok::<_, Seq<char>>(v),
            Err(e) => semver_parsed(text@) == Err::<(u64, u64, u64), _>(e@),
        },
{
    match semver::Version::parse(text) {
        Ok(v) => Ok((v.major, v.minor, v.patch)),
        Err(e) => Err(e.to_string()),
    }
}

/// Calls `similar::TextDiff::from_lines(old, new).iter_all_changes()`. The
/// contract claims that the result is the named value for the two texts, and
/// that every tag is one of `-`, `+` and ` ` (the three `ChangeTag` variants).
#[verifier::external_body]
pub(crate) fn diff_lines(old: &str, new: &str) -> (r: Vec<(char, String)>)
    ensures
        r.deep_view() == line_diff(old@, new@),
        forall|i: int|
            0 <= i < r.len() ==> (#[trigger] r@[i]).0 == '-' || r@[i].0 == '+' || r@[i].0 == ' ',
{
    let mut out = Vec::new();
    for change in similar::TextDiff::from_lines(old, new).iter_all_changes() {
        let tag = match change.tag() {
            similar::ChangeTag::Delete => '-',
            similar::ChangeTag::Insert => '+',
            similar::ChangeTag::Equal => ' ',
        };
        out.push((tag, change.to_string()));
    }
    out
}

/// Calls `git_conventional::Commit::parse`. The contract claims only that the
/// result is the named value for the message (the commit's type and
/// description as text, or nothing on a parse error).
#[verifier::external_body]
pub(crate) fn parse_conventional(message: &str) -> (r: Option<(String, String)>)
    ensures
        match r {
            Some(parts) => conventional_commit(message@) == Some((parts.0@, parts.1@)),
            None => conventional_commit(message@) is None,
        },
{
    match git_conventional::Commit::parse(message) {
        Ok(c) => Some((c.type_().to_string(), c.description().to_string())),
        Err(_) => None,
    }
}

} // verus!
