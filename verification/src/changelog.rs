//! The changelog operations: each takes the changelog text (or its absence)
//! and computes the new text or the answer.
use vstd::prelude::*;

use crate::entries::{insert_entry, notes_with_entry};
use crate::external::{parse_changelog_text, parsed_changelog};
use crate::markdown::{changelog_to_markdown, markdown, repo_view};
use crate::model::{
    release_views, text_result, ChangeType, ChangelogError, Failure, GithubRepo, PrCredit, Release,
};
use crate::text::{
    append, append_str, chars_of, decimal, decimal_of, seq_eq, split_on, split_on_of, string_of, trim,
    trim_of, views,
};

verus! {

broadcast use vstd::string::group_string_axioms;

/// The view of a release: (version, title, notes).
pub type ReleaseView = (Seq<char>, Seq<char>, Seq<char>);

/// The view of an optional string slice.
pub open spec fn opt_str(o: Option<&str>) -> Option<Seq<char>> {
    match o {
        Some(s) => Some(s@),
        None => None,
    }
}

/// The version an operation addresses: the given one, or the unreleased section.
pub open spec fn key_or_unreleased(version: Option<Seq<char>>) -> Seq<char> {
    match version {
        Some(v) => v,
        None => "Unreleased"@,
    }
}

/// The first release at or after `i` whose version is `key`.
pub open spec fn find_version_from(rs: Seq<ReleaseView>, key: Seq<char>, i: int) -> Option<int>
    decreases rs.len() - i,
{
    if i < 0 || i >= rs.len() {
        None
    } else if rs[i].0 == key {
        Some(i)
    } else {
        find_version_from(rs, key, i + 1)
    }
}

/// The release whose version is `key`.
pub open spec fn find_version(rs: Seq<ReleaseView>, key: Seq<char>) -> Option<int> {
    find_version_from(rs, key, 0)
}

/// The view of a pull request credit: (number, address, author).
pub open spec fn credit_view(c: Option<&PrCredit>) -> Option<(u64, Seq<char>, Seq<char>)> {
    match c {
        Some(c) => Some((c.number, c.url@, c.author@)),
        None => None,
    }
}

/// An entry's text, with the pull request that brought it credited.
pub open spec fn credited(desc: Seq<char>, credit: Option<(u64, Seq<char>, Seq<char>)>) -> Seq<
    char,
> {
    match credit {
        Some(c) => desc + " ([#"@ + decimal(c.0 as nat) + "]("@ + c.1 + "); thanks @"@ + c.2
            + ")"@,
        None => desc,
    }
}

/// The releases after adding the entry `desc` of type `t` to the release
/// whose version is `key`; nothing when there is no such release.
pub open spec fn with_entry(rs: Seq<ReleaseView>, key: Seq<char>, t: ChangeType, desc: Seq<char>) -> Option<
    Seq<ReleaseView>,
> {
    match find_version(rs, key) {
        Some(i) => Some(rs.update(i, (rs[i].0, rs[i].1, notes_with_entry(rs[i].2, t, desc)))),
        None => None,
    }
}

/// The changelog text that `init` writes for a repository setting: the
/// skeleton with an unreleased section, rendered under a `# Changelog` header.
pub open spec fn initial_text(github: Option<(Seq<char>, Seq<char>)>) -> Result<Seq<char>, Failure> {
    match parsed_changelog("# Changelog\n## [Unreleased]"@) {
        Ok(rs) => Ok(markdown(rs, "# Changelog\n\n"@, github)),
        Err(e) => Err(Failure::Unparsable(e)),
    }
}

/// What adding the entry `desc` of type `t` to the release `version` (the
/// unreleased section by default) makes of a changelog text.
pub open spec fn add_outcome(
    content: Option<Seq<char>>,
    desc: Seq<char>,
    t: ChangeType,
    version: Option<Seq<char>>,
    github: Option<(Seq<char>, Seq<char>)>,
) -> Result<Seq<char>, Failure> {
    match content {
        None => Err(Failure::MissingChangelog),
        Some(c) => match parsed_changelog(c) {
            Err(e) => Err(Failure::Unparsable(e)),
            Ok(rs) => match with_entry(rs, key_or_unreleased(version), t, desc) {
                None => Err(Failure::VersionNotFound(key_or_unreleased(version))),
                Some(rs2) => Ok(markdown(rs2, c, github)),
            },
        },
    }
}

/// What formatting makes of a changelog text.
pub open spec fn fmt_outcome(content: Option<Seq<char>>, github: Option<(Seq<char>, Seq<char>)>) -> Result<
    Seq<char>,
    Failure,
> {
    match content {
        None => Err(Failure::MissingChangelog),
        Some(c) => match parsed_changelog(c) {
            Err(e) => Err(Failure::Unparsable(e)),
            Ok(rs) => Ok(markdown(rs, c, github)),
        },
    }
}

fn parse_error(e: String) -> (r: ChangelogError)
    ensures
        r@ == Failure::Unparsable(e@),
{
    ChangelogError::Unparsable(e)
}

/// Parses a changelog text into its releases, in the order of the text.
pub fn parse_releases(text: &str) -> (r: Result<Vec<Release>, ChangelogError>)
    ensures
        match parsed_changelog(text@) {
            Ok(rs) => r matches Ok(v) && release_views(v@) == rs,
            Err(e) => r matches Err(f) && f@ == Failure::Unparsable(e),
        },
{
    match parse_changelog_text(text) {
        Ok(v) => Ok(v),
        Err(e) => Err(parse_error(e)),
    }
}

pub(crate) fn position_of(rs: &Vec<Release>, key: &Vec<char>) -> (r: Option<usize>)
    ensures
        match r {
            Some(i) => i < rs.len() && find_version(release_views(rs@), key@) == Some(i as int),
            None => find_version(release_views(rs@), key@) is None,
        },
{
    let ghost vs = release_views(rs@);
    let mut i: usize = 0;
    while i < rs.len()
        invariant
            i <= rs.len(),
            vs == release_views(rs@),
            find_version(vs, key@) == find_version_from(vs, key@, i as int),
        decreases rs.len() - i,
    {
        let v = chars_of(rs[i].version.as_str());
        assert(vs[i as int].0 == rs@[i as int].version@);
        if crate::text::seq_eq(&v, key) {
            return Some(i);
        }
        i = i + 1;
    }
    None
}

/// An entry's text followed by the credit for its pull request, if any:
/// `desc ([#number](url); thanks @author)`.
pub fn credited_description(desc: &str, credit: Option<&PrCredit>) -> (r: String)
    ensures
        r@ == credited(desc@, credit_view(credit)),
{
    match credit {
        Some(c) => {
            let mut s = chars_of(desc);
            append_str(&mut s, " ([#");
            let n = decimal_of(c.number);
            append(&mut s, &n);
            append_str(&mut s, "](");
            append_str(&mut s, c.url.as_str());
            append_str(&mut s, "); thanks @");
            append_str(&mut s, c.author.as_str());
            append_str(&mut s, ")");
            string_of(&s)
        },
        None => String::from_str(desc),
    }
}

/// Whether `author` is one of the comma-separated user names of `excluded`
/// (each name taken without surrounding whitespace).
pub open spec fn is_excluded(author: Seq<char>, excluded: Option<Seq<char>>) -> bool {
    match excluded {
        Some(list) => exists|k: int|
            0 <= k < split_on(list, ',').len() && #[trigger] trim(split_on(list, ',')[k]) == author,
        None => false,
    }
}

/// `is_excluded` for a given list of names, unfolded.
pub proof fn excluded_unfold(a: Seq<char>, l: Seq<char>)
    ensures
        is_excluded(a, Some(l)) == (exists|k: int|
            0 <= k < split_on(l, ',').len() && #[trigger] trim(split_on(l, ',')[k]) == a),
{
}

/// The credit that is given: none when its author is excluded.
pub open spec fn allowed_credit(
    credit: Option<(u64, Seq<char>, Seq<char>)>,
    excluded: Option<Seq<char>>,
) -> Option<(u64, Seq<char>, Seq<char>)> {
    match credit {
        Some(c) => if is_excluded(c.2, excluded) {
            None
        } else {
            Some(c)
        },
        None => None,
    }
}

/// Whether `author` is one of the comma-separated user names `exclude_users`.
fn excluded_author(author: &str, exclude_users: Option<&str>) -> (r: bool)
    ensures
        r == is_excluded(author@, opt_str(exclude_users)),
{
    let list = match exclude_users {
        Some(l) => l,
        None => {
            return false;
        },
    };
    let l = chars_of(list);
    let names = split_on_of(&l, ',');
    let a = chars_of(author);
    let mut i: usize = 0;
    while i < names.len()
        invariant
            i <= names.len(),
            views(names@) == split_on(list@, ','),
            opt_str(exclude_users) == Some(list@),
            a@ == author@,
            forall|k: int| 0 <= k < i ==> trim(#[trigger] split_on(list@, ',')[k]) != author@,
        decreases names.len() - i,
    {
        assert(views(names@)[i as int] == names@[i as int]@);
        let name = trim_of(&names[i]);
        if seq_eq(&name, &a) {
            proof {
                excluded_unfold(author@, list@);
                assert(trim(split_on(list@, ',')[i as int]) == author@);
            }
            return true;
        }
        i = i + 1;
    }
    proof {
        excluded_unfold(author@, list@);
    }
    false
}

/// A changelog file, and the GitHub repository its version links point to
/// (when it is known).
pub struct Changelog {
    pub path: String,
    pub github: Option<GithubRepo>,
}

impl Changelog {
    /// The changelog `CHANGELOG.md` of the current directory, with no
    /// repository known.
    pub fn new() -> (r: Self)
        ensures
            r.path@ == "CHANGELOG.md"@,
            r.github is None,
    {
        Changelog { path: String::from_str("CHANGELOG.md"), github: None }
    }

    /// The same changelog with its GitHub repository set.
    pub fn with_github(self, github: Option<GithubRepo>) -> (r: Self)
        ensures
            r.path == self.path,
            r.github == github,
    {
        Changelog { path: self.path, github }
    }

    /// The text of a new changelog, or nothing when the file exists already.
    pub fn init(&self, exists: bool) -> (r: Result<Option<String>, ChangelogError>)
        ensures
            exists ==> r matches Ok(None),
            !exists ==> match initial_text(repo_view(self.github)) {
                Ok(t) => r matches Ok(Some(s)) && s@ == t,
                Err(f) => r matches Err(e) && e@ == f,
            },
    {
        if exists {
            return Ok(None);
        }
        let rs = parse_releases("# Changelog\n## [Unreleased]")?;
        Ok(Some(changelog_to_markdown(rs.as_slice(), "# Changelog\n\n", None, &self.github)))
    }

    /// The changelog text after adding the entry `description` of type
    /// `change` to the release `version` (the unreleased section by default),
    /// crediting the pull request `credit` when one is given and its author is
    /// not one of the comma-separated users `exclude_users`.
    pub fn add(
        &self,
        content: Option<&str>,
        description: &str,
        change: &ChangeType,
        version: Option<&str>,
        credit: Option<&PrCredit>,
        exclude_users: Option<&str>,
    ) -> (r: Result<String, ChangelogError>)
        ensures
            text_result(r) == add_outcome(
                opt_str(content),
                credited(description@, allowed_credit(credit_view(credit), opt_str(exclude_users))),
                *change,
                opt_str(version),
                repo_view(self.github),
            ),
    {
        let content = match content {
            Some(c) => c,
            None => {
                return Err(ChangelogError::MissingChangelog);
            },
        };
        let credit = match credit {
            Some(c) => if excluded_author(c.author.as_str(), exclude_users) {
                None
            } else {
                Some(c)
            },
            None => None,
        };
        let final_description = credited_description(description, credit);
        let mut rs = parse_releases(content)?;
        let key = match version {
            Some(v) => String::from_str(v),
            None => String::from_str("Unreleased"),
        };
        let key_chars = chars_of(key.as_str());
        let i = match position_of(&rs, &key_chars) {
            Some(i) => i,
            None => {
                return Err(ChangelogError::VersionNotFound(key));
            },
        };
        let notes = chars_of(rs[i].notes.as_str());
        let desc = chars_of(final_description.as_str());
        let new_notes = insert_entry(&notes, change, &desc);
        let ghost before = release_views(rs@);
        let updated = Release {
            version: rs[i].version.clone(),
            title: rs[i].title.clone(),
            notes: string_of(&new_notes),
        };
        rs.set(i, updated);
        assert(release_views(rs@) =~= before.update(
            i as int,
            (before[i as int].0, before[i as int].1, notes_with_entry(before[i as int].2, *change, desc@)),
        ));
        Ok(changelog_to_markdown(rs.as_slice(), content, None, &self.github))
    }

    /// The changelog text reformatted.
    pub fn fmt(&self, content: Option<&str>) -> (r: Result<String, ChangelogError>)
        ensures
            text_result(r) == fmt_outcome(opt_str(content), repo_view(self.github)),
    {
        let content = match content {
            Some(c) => c,
            None => {
                return Err(ChangelogError::MissingChangelog);
            },
        };
        let rs = parse_releases(content)?;
        Ok(changelog_to_markdown(rs.as_slice(), content, None, &self.github))
    }
}

} // verus!
