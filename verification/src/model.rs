//! The data the changelog logic works on.
use vstd::prelude::*;

use crate::text::chars_of;

verus! {

/// The kind of a changelog entry: one section of a release in the
/// Keep a Changelog format.
#[derive(Clone, Copy, Debug, PartialEq, Eq, Structural)]
pub enum ChangeType {
    /// New features
    Added,
    /// Changes in existing functionality
    Changed,
    /// Soon-to-be removed features
    Deprecated,
    /// Removed features
    Removed,
    /// Bug fixes
    Fixed,
    /// Security fixes
    Security,
}

/// The lower-case name of a change type.
pub open spec fn change_name(t: ChangeType) -> Seq<char> {
    match t {
        ChangeType::Added => "added"@,
        ChangeType::Changed => "changed"@,
        ChangeType::Deprecated => "deprecated"@,
        ChangeType::Removed => "removed"@,
        ChangeType::Fixed => "fixed"@,
        ChangeType::Security => "security"@,
    }
}

/// The heading of the section that holds entries of a change type.
pub open spec fn section_marker(t: ChangeType) -> Seq<char> {
    match t {
        ChangeType::Added => "### Added"@,
        ChangeType::Changed => "### Changed"@,
        ChangeType::Deprecated => "### Deprecated"@,
        ChangeType::Removed => "### Removed"@,
        ChangeType::Fixed => "### Fixed"@,
        ChangeType::Security => "### Security"@,
    }
}

impl ChangeType {
    /// The lower-case name of the change type ("added", "changed", ...).
    pub fn to_string(&self) -> (r: String)
        ensures
            r@ == change_name(*self),
    {
        match self {
            ChangeType::Added => String::from_str("added"),
            ChangeType::Changed => String::from_str("changed"),
            ChangeType::Deprecated => String::from_str("deprecated"),
            ChangeType::Removed => String::from_str("removed"),
            ChangeType::Fixed => String::from_str("fixed"),
            ChangeType::Security => String::from_str("security"),
        }
    }

    /// The section heading for this change type: `### ` and the name with
    /// its first letter in upper case.
    pub fn section_marker(&self) -> (r: Vec<char>)
        ensures
            r@ == section_marker(*self),
    {
        match self {
            ChangeType::Added => chars_of("### Added"),
            ChangeType::Changed => chars_of("### Changed"),
            ChangeType::Deprecated => chars_of("### Deprecated"),
            ChangeType::Removed => chars_of("### Removed"),
            ChangeType::Fixed => chars_of("### Fixed"),
            ChangeType::Security => chars_of("### Security"),
        }
    }
}

/// Information about a pull request associated with a commit.
#[derive(Debug, Clone)]
pub struct PrCredit {
    pub number: u64,
    pub url: String,
    pub author: String,
}

/// A GitHub repository, by owner and name.
#[derive(Debug, Clone)]
pub struct GithubRepo {
    pub owner: String,
    pub repo: String,
}

/// The release note of one version, as the changelog parser reports it:
/// the version, the heading's text and the text below the heading.
#[derive(Debug, Clone)]
pub struct Release {
    pub version: String,
    pub title: String,
    pub notes: String,
}

impl View for Release {
    type V = (Seq<char>, Seq<char>, Seq<char>);

    open spec fn view(&self) -> (Seq<char>, Seq<char>, Seq<char>) {
        (self.version@, self.title@, self.notes@)
    }
}

/// The views of a sequence of releases.
pub open spec fn release_views(rs: Seq<Release>) -> Seq<(Seq<char>, Seq<char>, Seq<char>)> {
    rs.map_values(|r: Release| r@)
}

/// Why an operation on the changelog failed.
#[derive(Debug, Clone)]
pub enum ChangelogError {
    /// There is no changelog file.
    MissingChangelog,
    /// The changelog text could not be parsed; the parser's message.
    Unparsable(String),
    /// The requested version has no release note.
    VersionNotFound(String),
    /// The requested version has no release note, as `entry` reports it.
    EntryNotFound(String),
    /// There is no released version to bump.
    NoPreviousVersion,
    /// There is no released version.
    NoReleasedVersions,
    /// There is no unreleased section to release.
    NoUnreleasedSection,
    /// The built-in unreleased template did not parse into an unreleased section.
    DefaultUnreleasedMissing,
    /// A version string is not semantic versioning; the parser's message.
    InvalidVersion(String),
    /// The release argument is neither a semantic version nor a bump kind.
    InvalidRelease,
    /// The bump kind is not one of major, minor, patch.
    InvalidChangeType,
    /// The bumped component would not fit in 64 bits.
    VersionOverflow,
    /// A version was given with a leading `v`.
    VersionHasPrefix,
}


/// The view of a `ChangelogError`: the same kinds, with texts as sequences.
pub enum Failure {
    MissingChangelog,
    Unparsable(Seq<char>),
    VersionNotFound(Seq<char>),
    EntryNotFound(Seq<char>),
    NoPreviousVersion,
    NoReleasedVersions,
    NoUnreleasedSection,
    DefaultUnreleasedMissing,
    InvalidVersion(Seq<char>),
    InvalidRelease,
    InvalidChangeType,
    VersionOverflow,
    VersionHasPrefix,
}

impl View for ChangelogError {
    type V = Failure;

    open spec fn view(&self) -> Failure {
        match self {
            ChangelogError::MissingChangelog => Failure::MissingChangelog,
            ChangelogError::Unparsable(m) => Failure::Unparsable(m@),
            ChangelogError::VersionNotFound(v) => Failure::VersionNotFound(v@),
            ChangelogError::EntryNotFound(v) => Failure::EntryNotFound(v@),
            ChangelogError::NoPreviousVersion => Failure::NoPreviousVersion,
            ChangelogError::NoReleasedVersions => Failure::NoReleasedVersions,
            ChangelogError::NoUnreleasedSection => Failure::NoUnreleasedSection,
            ChangelogError::DefaultUnreleasedMissing => Failure::DefaultUnreleasedMissing,
            ChangelogError::InvalidVersion(m) => Failure::InvalidVersion(m@),
            ChangelogError::InvalidRelease => Failure::InvalidRelease,
            ChangelogError::InvalidChangeType => Failure::InvalidChangeType,
            ChangelogError::VersionOverflow => Failure::VersionOverflow,
            ChangelogError::VersionHasPrefix => Failure::VersionHasPrefix,
        }
    }
}

/// The view of an operation's textual result.
pub open spec fn text_result(r: Result<String, ChangelogError>) -> Result<Seq<char>, Failure> {
    match r {
        Ok(s) => Ok(s@),
        Err(e) => Err(e@),
    }
}


/// The message that reports a failure.
pub open spec fn failure_message(f: Failure) -> Seq<char> {
    match f {
        Failure::MissingChangelog => "CHANGELOG.md does not exist. Run 'changelog init' first."@,
        Failure::Unparsable(m) => m,
        Failure::VersionNotFound(v) => "Version "@ + v + " not found in changelog"@,
        Failure::EntryNotFound(v) => "Version "@ + v + " not found"@,
        Failure::NoPreviousVersion => "No previous version found"@,
        Failure::NoReleasedVersions => "No released versions found"@,
        Failure::NoUnreleasedSection => "No unreleased section found"@,
        Failure::DefaultUnreleasedMissing => "Failed to parse default unreleased section"@,
        Failure::InvalidVersion(m) => m,
        Failure::InvalidRelease => "Version must be a valid semver or one of: major, minor, patch"@,
        Failure::InvalidChangeType => "Change type must be one of: major, minor, patch"@,
        Failure::VersionOverflow => "Version component is too large to increment"@,
        Failure::VersionHasPrefix => "Version should not start with 'v' prefix. Use semantic version format (e.g. '1.0.0')"@,
    }
}

fn text_with(prefix: &str, middle: &String, suffix: &str) -> (r: String)
    ensures
        r@ == prefix@ + middle@ + suffix@,
{
    let mut v = chars_of(prefix);
    crate::text::append_str(&mut v, middle.as_str());
    crate::text::append_str(&mut v, suffix);
    crate::text::string_of(&v)
}

impl ChangelogError {
    /// The message that reports the failure.
    pub fn message(&self) -> (r: String)
        ensures
            r@ == failure_message(self@),
    {
        match self {
            ChangelogError::MissingChangelog => String::from_str(
                "CHANGELOG.md does not exist. Run 'changelog init' first.",
            ),
            ChangelogError::Unparsable(m) => m.clone(),
            ChangelogError::VersionNotFound(v) => text_with("Version ", v, " not found in changelog"),
            ChangelogError::EntryNotFound(v) => text_with("Version ", v, " not found"),
            ChangelogError::NoPreviousVersion => String::from_str("No previous version found"),
            ChangelogError::NoReleasedVersions => String::from_str("No released versions found"),
            ChangelogError::NoUnreleasedSection => String::from_str("No unreleased section found"),
            ChangelogError::DefaultUnreleasedMissing => String::from_str(
                "Failed to parse default unreleased section",
            ),
            ChangelogError::InvalidVersion(m) => m.clone(),
            ChangelogError::InvalidRelease => String::from_str(
                "Version must be a valid semver or one of: major, minor, patch",
            ),
            ChangelogError::InvalidChangeType => String::from_str(
                "Change type must be one of: major, minor, patch",
            ),
            ChangelogError::VersionOverflow => String::from_str(
                "Version component is too large to increment",
            ),
            ChangelogError::VersionHasPrefix => String::from_str(
                "Version should not start with 'v' prefix. Use semantic version format (e.g. '1.0.0')",
            ),
        }
    }
}

} // verus!
