//! Versions: bumping, releasing, and the questions asked about the
//! released versions of a changelog.
use vstd::prelude::*;

use crate::changelog::{find_version, opt_str, parse_releases, ReleaseView, Changelog};
use crate::external::{
    index_map_entries, index_map_insert, index_map_into_values, index_map_new, parse_semver,
    parsed_changelog, semver_parsed,
};
use crate::markdown::{changelog_to_markdown, markdown, repo_view};
use crate::model::{release_views, text_result, ChangelogError, Failure, Release};
use crate::text::{
    append, append_str, chars_of, decimal, decimal_of, eq_ignore_ascii_case, eq_ignore_case, first_word,
    first_word_of, has_prefix_str, seq_eq, starts_with, string_of, strings_of_all, strs, trim,
    trim_of, views,
};

verus! {

broadcast use vstd::string::group_string_axioms;

// ---------------------------------------------------------------------
// Bumping a version
// ---------------------------------------------------------------------

/// A version written as semver writes it: `major.minor.patch`.
pub open spec fn version_text(major: int, minor: int, patch: int) -> Seq<char> {
    decimal(major as nat) + "."@ + decimal(minor as nat) + "."@ + decimal(patch as nat)
}

/// The next version after `v` for the bump kind `kind` (`major`, `minor` or
/// `patch`, in any ASCII case).
pub open spec fn bump_outcome(v: (u64, u64, u64), kind: Seq<char>) -> Result<Seq<char>, Failure> {
    if eq_ignore_ascii_case(kind, "major"@) {
        if v.0 == u64::MAX {
            Err(Failure::VersionOverflow)
        } else {
            Ok(version_text(v.0 + 1, 0, 0))
        }
    } else if eq_ignore_ascii_case(kind, "minor"@) {
        if v.1 == u64::MAX {
            Err(Failure::VersionOverflow)
        } else {
            Ok(version_text(v.0 as int, v.1 + 1, 0))
        }
    } else if eq_ignore_ascii_case(kind, "patch"@) {
        if v.2 == u64::MAX {
            Err(Failure::VersionOverflow)
        } else {
            Ok(version_text(v.0 as int, v.1 as int, v.2 + 1))
        }
    } else {
        Err(Failure::InvalidChangeType)
    }
}

/// The next version after the semantic version `latest`.
pub open spec fn next_version_outcome(latest: Seq<char>, kind: Seq<char>) -> Result<Seq<char>, Failure> {
    match semver_parsed(latest) {
        Err(e) => Err(Failure::InvalidVersion(e)),
        Ok(v) => bump_outcome(v, kind),
    }
}

/// A version written as semver writes a version without pre-release or
/// build metadata: `major.minor.patch` in decimal.
fn version_string(major: u64, minor: u64, patch: u64) -> (r: String)
    ensures
        r@ == version_text(major as int, minor as int, patch as int),
{
    let mut v = decimal_of(major);
    append_str(&mut v, ".");
    append(&mut v, &decimal_of(minor));
    append_str(&mut v, ".");
    append(&mut v, &decimal_of(patch));
    string_of(&v)
}

/// The version after `major.minor.patch` for the bump kind `kind`: a major
/// bump resets minor and patch, a minor bump resets patch. A component that
/// would pass `u64::MAX` is refused.
pub fn bump_version(major: u64, minor: u64, patch: u64, kind: &str) -> (r: Result<
    String,
    ChangelogError,
>)
    ensures
        text_result(r) == bump_outcome((major, minor, patch), kind@),
{
    let k = chars_of(kind);
    if eq_ignore_case(&k, "major") {
        if major == u64::MAX {
            return Err(ChangelogError::VersionOverflow);
        }
        Ok(version_string(major + 1, 0, 0))
    } else if eq_ignore_case(&k, "minor") {
        if minor == u64::MAX {
            return Err(ChangelogError::VersionOverflow);
        }
        Ok(version_string(major, minor + 1, 0))
    } else if eq_ignore_case(&k, "patch") {
        if patch == u64::MAX {
            return Err(ChangelogError::VersionOverflow);
        }
        Ok(version_string(major, minor, patch + 1))
    } else {
        Err(ChangelogError::InvalidChangeType)
    }
}

// ---------------------------------------------------------------------
// Released versions
// ---------------------------------------------------------------------

/// The versions of the releases other than the unreleased section, in order.
pub open spec fn released_versions(rs: Seq<ReleaseView>) -> Seq<Seq<char>>
    decreases rs.len(),
{
    if rs.len() == 0 {
        seq![]
    } else if rs.last().0 != "Unreleased"@ {
        released_versions(rs.drop_last()).push(rs.last().0)
    } else {
        released_versions(rs.drop_last())
    }
}

/// A version up to its first whitespace (empty when there is no word).
pub open spec fn bare_version(v: Seq<char>) -> Seq<char> {
    match first_word(v) {
        Some(w) => w,
        None => seq![],
    }
}

fn released_of(rs: &Vec<Release>) -> (r: Vec<Vec<char>>)
    ensures
        views(r@) == released_versions(release_views(rs@)),
{
    let ghost vs = release_views(rs@);
    let unreleased = chars_of("Unreleased");
    let mut out: Vec<Vec<char>> = Vec::new();
    let mut i: usize = 0;
    assert(vs.take(0) =~= Seq::<ReleaseView>::empty());
    assert(views(out@) =~= Seq::<Seq<char>>::empty());
    while i < rs.len()
        invariant
            i <= rs.len(),
            vs == release_views(rs@),
            unreleased@ == "Unreleased"@,
            views(out@) == released_versions(vs.take(i as int)),
        decreases rs.len() - i,
    {
        assert(vs.take(i + 1).drop_last() =~= vs.take(i as int));
        assert(vs.take(i + 1).last().0 == rs@[i as int].version@);
        let v = chars_of(rs[i].version.as_str());
        if !seq_eq(&v, &unreleased) {
            let ghost prev = out@;
            out.push(v);
            assert(views(out@) =~= views(prev).push(rs@[i as int].version@));
        }
        i = i + 1;
    }
    assert(vs.take(rs.len() as int) =~= vs);
    out
}

fn bare_of(v: &Vec<char>) -> (r: Vec<char>)
    ensures
        r@ == bare_version(v@),
{
    match first_word_of(v) {
        Some(w) => w,
        None => Vec::new(),
    }
}

/// The first index of `v` in `l` at or after `i`.
pub open spec fn index_from(l: Seq<Seq<char>>, v: Seq<char>, i: int) -> Option<int>
    decreases l.len() - i,
{
    if i < 0 || i >= l.len() {
        None
    } else if l[i] == v {
        Some(i)
    } else {
        index_from(l, v, i + 1)
    }
}

/// The entry of `l` right after the first `v`.
pub open spec fn following(l: Seq<Seq<char>>, v: Seq<char>) -> Option<Seq<char>> {
    match index_from(l, v, 0) {
        Some(j) => if j + 1 < l.len() {
            Some(l[j + 1])
        } else {
            None
        },
        None => None,
    }
}

/// The start of the revision range of `version` (the newest release when no
/// version is given): the next older released version.
pub open spec fn range_start(released: Seq<Seq<char>>, version: Option<Seq<char>>) -> Option<Seq<char>> {
    match version {
        Some(v) => following(released, v),
        None => if released.len() > 0 {
            Some(released[0])
        } else {
            None
        },
    }
}

/// The end of the revision range: the version's tag, or `HEAD`.
pub open spec fn range_end(version: Option<Seq<char>>) -> Seq<char> {
    match version {
        Some(v) => "v"@ + v,
        None => "HEAD"@,
    }
}

/// The tag where the revision range starts: the start version with a `v`.
pub open spec fn range_start_tag(released: Seq<Seq<char>>, version: Option<Seq<char>>) -> Option<
    Seq<char>,
> {
    match range_start(released, version) {
        Some(s) => Some("v"@ + s),
        None => None,
    }
}

/// The git revision range of a version: `<start tag>..<end>`, or the end
/// alone when there is no older version.
pub open spec fn range_text(released: Seq<Seq<char>>, version: Option<Seq<char>>) -> Seq<char> {
    match range_start_tag(released, version) {
        Some(s) => s + ".."@ + range_end(version),
        None => range_end(version),
    }
}

fn start_of(released: &Vec<Vec<char>>, version: Option<&str>) -> (r: Option<Vec<char>>)
    ensures
        match r {
            Some(s) => range_start(views(released@), opt_str(version)) == Some(s@),
            None => range_start(views(released@), opt_str(version)) is None,
        },
{
    match version {
        Some(v) => {
            let vc = chars_of(v);
            let mut i: usize = 0;
            while i < released.len()
                invariant
                    i <= released.len(),
                    vc@ == v@,
                    opt_str(version) == Some(v@),
                    index_from(views(released@), v@, 0) == index_from(
                        views(released@),
                        v@,
                        i as int,
                    ),
                decreases released.len() - i,
            {
                assert(views(released@)[i as int] == released@[i as int]@);
                if seq_eq(&released[i], &vc) {
                    if i + 1 < released.len() {
                        assert(views(released@)[i + 1] == released@[i + 1]@);
                        return Some(released[i + 1].clone());
                    }
                    return None;
                }
                i = i + 1;
            }
            None
        },
        None => {
            if released.len() > 0 {
                assert(views(released@)[0] == released@[0]@);
                Some(released[0].clone())
            } else {
                None
            }
        },
    }
}

/// The git revision range of `version` over the released versions: the tag
/// it starts from, if any, and where it ends.
pub fn revision_range(releases: &Vec<Release>, version: Option<&str>) -> (r: (Option<String>, String))
    ensures
        match r.0 {
            Some(s) => range_start_tag(released_versions(release_views(releases@)), opt_str(version))
                == Some(s@),
            None => range_start_tag(released_versions(release_views(releases@)), opt_str(version)) is None,
        },
        r.1@ == range_end(opt_str(version)),
{
    let released = released_of(releases);
    let start = match start_of(&released, version) {
        Some(s) => {
            let mut t = chars_of("v");
            append(&mut t, &s);
            Some(string_of(&t))
        },
        None => None,
    };
    let end = match version {
        Some(v) => {
            let mut e = chars_of("v");
            append_str(&mut e, v);
            string_of(&e)
        },
        None => String::from_str("HEAD"),
    };
    (start, end)
}

// ---------------------------------------------------------------------
// Outcomes
// ---------------------------------------------------------------------

/// The version that `entry` shows: the newest release for `latest`, the
/// unreleased section for `unreleased` (in any ASCII case), else `version`.
pub open spec fn shown_version(rs: Seq<ReleaseView>, version: Seq<char>) -> Result<Seq<char>, Failure> {
    if eq_ignore_ascii_case(version, "latest"@) {
        if released_versions(rs).len() > 0 {
            Ok(released_versions(rs)[0])
        } else {
            Err(Failure::NoReleasedVersions)
        }
    } else if eq_ignore_ascii_case(version, "unreleased"@) {
        Ok("Unreleased"@)
    } else {
        Ok(version)
    }
}

/// What `entry` prints for `version`.
pub open spec fn show_outcome(content: Option<Seq<char>>, version: Seq<char>) -> Result<Seq<char>, Failure> {
    match content {
        None => Err(Failure::MissingChangelog),
        Some(c) => match parsed_changelog(c) {
            Err(e) => Err(Failure::Unparsable(e)),
            Ok(rs) => match shown_version(rs, version) {
                Err(f) => Err(f),
                Ok(key) => match find_version(rs, key) {
                    Some(i) => Ok("## "@ + rs[i].1 + "\n\n"@ + trim(rs[i].2) + "\n"@),
                    None => Err(Failure::EntryNotFound(version)),
                },
            },
        },
    }
}

/// The newest released version.
pub open spec fn latest_outcome(content: Option<Seq<char>>) -> Result<Seq<char>, Failure> {
    match content {
        None => Err(Failure::MissingChangelog),
        Some(c) => match parsed_changelog(c) {
            Err(e) => Err(Failure::Unparsable(e)),
            Ok(rs) => if released_versions(rs).len() > 0 {
                Ok(bare_version(released_versions(rs)[0]))
            } else {
                Err(Failure::NoReleasedVersions)
            },
        },
    }
}

/// Every released version, newest first as the changelog lists them.
pub open spec fn list_outcome(content: Option<Seq<char>>) -> Result<Seq<Seq<char>>, Failure> {
    match content {
        None => Err(Failure::MissingChangelog),
        Some(c) => match parsed_changelog(c) {
            Err(e) => Err(Failure::Unparsable(e)),
            Ok(rs) => Ok(released_versions(rs).map_values(|v: Seq<char>| bare_version(v))),
        },
    }
}

/// The revision range that `version range` prints.
pub open spec fn range_outcome(content: Option<Seq<char>>, version: Option<Seq<char>>) -> Result<
    Seq<char>,
    Failure,
> {
    if version matches Some(v) && starts_with(v, "v"@) {
        Err(Failure::VersionHasPrefix)
    } else {
        match content {
            None => Err(Failure::MissingChangelog),
            Some(c) => match parsed_changelog(c) {
                Err(e) => Err(Failure::Unparsable(e)),
                Ok(rs) => Ok(range_text(released_versions(rs), version)),
            },
        }
    }
}

impl Changelog {
    /// The version after `latest_version` for the bump kind `change_type`.
    pub fn get_next_version(&self, latest_version: &str, change_type: &str) -> (r: Result<
        String,
        ChangelogError,
    >)
        ensures
            text_result(r) == next_version_outcome(latest_version@, change_type@),
    {
        match parse_semver(latest_version) {
            Ok(v) => bump_version(v.0, v.1, v.2, change_type),
            Err(e) => Err(ChangelogError::InvalidVersion(e)),
        }
    }

    /// The newest released version, up to its first whitespace.
    pub fn version_latest(&self, content: Option<&str>) -> (r: Result<String, ChangelogError>)
        ensures
            text_result(r) == latest_outcome(opt_str(content)),
    {
        let content = match content {
            Some(c) => c,
            None => {
                return Err(ChangelogError::MissingChangelog);
            },
        };
        let rs = parse_releases(content)?;
        let released = released_of(&rs);
        if released.len() > 0 {
            assert(views(released@)[0] == released@[0]@);
            Ok(string_of(&bare_of(&released[0])))
        } else {
            Err(ChangelogError::NoReleasedVersions)
        }
    }

    /// The heading and notes of a version (`latest` and `unreleased` name the
    /// newest release and the unreleased section), as `entry` prints them.
    pub fn version_show(&self, content: Option<&str>, version: &str) -> (r: Result<
        String,
        ChangelogError,
    >)
        ensures
            text_result(r) == show_outcome(opt_str(content), version@),
    {
        let content = match content {
            Some(c) => c,
            None => {
                return Err(ChangelogError::MissingChangelog);
            },
        };
        let rs = parse_releases(content)?;
        let vc = chars_of(version);
        let key: Vec<char>;
        if eq_ignore_case(&vc, "latest") {
            let released = released_of(&rs);
            if released.len() == 0 {
                return Err(ChangelogError::NoReleasedVersions);
            }
            assert(views(released@)[0] == released@[0]@);
            key = released[0].clone();
        } else if eq_ignore_case(&vc, "unreleased") {
            key = chars_of("Unreleased");
        } else {
            key = vc;
        }
        match crate::changelog::position_of(&rs, &key) {
            Some(i) => {
                assert(release_views(rs@)[i as int] == rs@[i as int]@);
                let mut out = chars_of("## ");
                append_str(&mut out, rs[i].title.as_str());
                append_str(&mut out, "\n\n");
                let notes = chars_of(rs[i].notes.as_str());
                append(&mut out, &trim_of(&notes));
                append_str(&mut out, "\n");
                Ok(string_of(&out))
            },
            None => Err(ChangelogError::EntryNotFound(String::from_str(version))),
        }
    }

    /// Every released version, up to its first whitespace, in changelog order.
    pub fn version_list(&self, content: Option<&str>) -> (r: Result<Vec<String>, ChangelogError>)
        ensures
            match r {
                Ok(v) => list_outcome(opt_str(content)) == Ok::<_, Failure>(strs(v@)),
                Err(e) => list_outcome(opt_str(content)) == Err::<Seq<Seq<char>>, _>(e@),
            },
    {
        let content = match content {
            Some(c) => c,
            None => {
                return Err(ChangelogError::MissingChangelog);
            },
        };
        let rs = parse_releases(content)?;
        let released = released_of(&rs);
        let ghost rv = views(released@);
        let mut out: Vec<Vec<char>> = Vec::new();
        let mut i: usize = 0;
        while i < released.len()
            invariant
                i <= released.len(),
                rv == views(released@),
                views(out@) == rv.take(i as int).map_values(|v: Seq<char>| bare_version(v)),
            decreases released.len() - i,
        {
            let ghost prev = out@;
            let b = bare_of(&released[i]);
            assert(rv[i as int] == released@[i as int]@);
            out.push(b);
            assert(views(out@) =~= views(prev).push(bare_version(rv[i as int])));
            assert(rv.take(i + 1) =~= rv.take(i as int).push(rv[i as int]));
            assert(rv.take(i + 1).map_values(|v: Seq<char>| bare_version(v)) =~= rv.take(
                i as int,
            ).map_values(|v: Seq<char>| bare_version(v)).push(bare_version(rv[i as int])));
            i = i + 1;
        }
        assert(rv.take(released.len() as int) =~= rv);
        Ok(strings_of_all(&out))
    }

    /// The git revision range of `version` (of the unreleased changes when
    /// none is given): from the tag of the next older version to the version's
    /// tag or `HEAD`.
    pub fn range(&self, content: Option<&str>, version: Option<&str>) -> (r: Result<
        String,
        ChangelogError,
    >)
        ensures
            text_result(r) == range_outcome(opt_str(content), opt_str(version)),
    {
        if let Some(v) = version {
            let vc = chars_of(v);
            if has_prefix_str(&vc, "v") {
                return Err(ChangelogError::VersionHasPrefix);
            }
        }
        let content = match content {
            Some(c) => c,
            None => {
                return Err(ChangelogError::MissingChangelog);
            },
        };
        let rs = parse_releases(content)?;
        let (start, end) = revision_range(&rs, version);
        match start {
            Some(s) => {
                let mut out = chars_of(s.as_str());
                append_str(&mut out, "..");
                append_str(&mut out, end.as_str());
                Ok(string_of(&out))
            },
            None => Ok(end),
        }
    }
}


// ---------------------------------------------------------------------
// Releasing
// ---------------------------------------------------------------------

/// Whether `kind` names a bump (`major`, `minor`, `patch`, in any ASCII case).
pub open spec fn is_bump(kind: Seq<char>) -> bool {
    eq_ignore_ascii_case(kind, "major"@) || eq_ignore_ascii_case(kind, "minor"@)
        || eq_ignore_ascii_case(kind, "patch"@)
}

/// A keyed release, as an insertion-ordered map holds it.
pub type KeyedView = (Seq<char>, ReleaseView);

/// The first entry at or after `i` with key `k`.
pub open spec fn key_pos(es: Seq<KeyedView>, k: Seq<char>, i: int) -> Option<int>
    decreases es.len() - i,
{
    if i < 0 || i >= es.len() {
        None
    } else if es[i].0 == k {
        Some(i)
    } else {
        key_pos(es, k, i + 1)
    }
}

/// Insertion into an insertion-ordered map: an existing key keeps its place
/// and takes the new value, a new key goes last.
pub open spec fn map_insert(es: Seq<KeyedView>, k: Seq<char>, v: ReleaseView) -> Seq<KeyedView> {
    match key_pos(es, k, 0) {
        Some(i) => es.update(i, (es[i].0, v)),
        None => es.push((k, v)),
    }
}

/// Inserting each release under its version, in order.
pub open spec fn insert_all(es: Seq<KeyedView>, rest: Seq<ReleaseView>) -> Seq<KeyedView>
    decreases rest.len(),
{
    if rest.len() == 0 {
        es
    } else {
        let prev = insert_all(es, rest.drop_last());
        map_insert(prev, rest.last().0, rest.last())
    }
}

/// The values of a keyed sequence, in order.
pub open spec fn values_of(es: Seq<KeyedView>) -> Seq<ReleaseView> {
    es.map_values(|e: KeyedView| e.1)
}

/// The template whose unreleased section a release puts in place of the
/// released one: every section, all empty.
pub open spec fn unreleased_template() -> Seq<char> {
    "# Changelog\n## [Unreleased]\n### Added\n\n### Changed\n\n### Deprecated\n\n### Removed\n\n### Fixed\n\n### Security\n"@
}

/// The heading of a release: `[version] - date`.
pub open spec fn release_title(version: Seq<char>, date: Seq<char>) -> Seq<char> {
    "["@ + version + "] - "@ + date
}

/// The releases after releasing the unreleased section `rs[i]` as `version`
/// on `date`: a fresh unreleased section, the released one under its new
/// heading, then the others in order.
pub open spec fn after_release(
    rs: Seq<ReleaseView>,
    i: int,
    fresh: ReleaseView,
    version: Seq<char>,
    date: Seq<char>,
) -> Seq<ReleaseView> {
    let title = release_title(version, date);
    values_of(
        insert_all(
            map_insert(seq![("Unreleased"@, fresh)], title, (rs[i].0, title, rs[i].2)),
            rs.remove(i),
        ),
    )
}

/// Releasing the version `version` from the parsed releases `rs` of the text `c`:
/// the new text and the version.
pub open spec fn release_with(
    rs: Seq<ReleaseView>,
    c: Seq<char>,
    version: Seq<char>,
    date: Seq<char>,
    github: Option<(Seq<char>, Seq<char>)>,
) -> Result<(Seq<char>, Seq<char>), Failure> {
    match find_version(rs, "Unreleased"@) {
        None => Err(Failure::NoUnreleasedSection),
        Some(i) => match parsed_changelog(unreleased_template()) {
            Err(e) => Err(Failure::Unparsable(e)),
            Ok(ds) => match find_version(ds, "Unreleased"@) {
                None => Err(Failure::DefaultUnreleasedMissing),
                Some(j) => Ok(
                    (markdown(after_release(rs, i, ds[j], version, date), c, github), version),
                ),
            },
        },
    }
}

/// The newest released version's first word, which a bump starts from.
pub open spec fn latest_word(rs: Seq<ReleaseView>) -> Option<Seq<char>> {
    if released_versions(rs).len() > 0 {
        first_word(released_versions(rs)[0])
    } else {
        None
    }
}

/// What releasing `version_or_type` (a semantic version or a bump kind) on
/// `date` makes of a changelog text: the new text and the released version.
pub open spec fn release_outcome(
    content: Option<Seq<char>>,
    version_or_type: Seq<char>,
    date: Seq<char>,
    github: Option<(Seq<char>, Seq<char>)>,
) -> Result<(Seq<char>, Seq<char>), Failure> {
    match content {
        None => Err(Failure::MissingChangelog),
        Some(c) => if is_bump(version_or_type) {
            match parsed_changelog(c) {
                Err(e) => Err(Failure::Unparsable(e)),
                Ok(rs) => match latest_word(rs) {
                    None => Err(Failure::NoPreviousVersion),
                    Some(l) => match next_version_outcome(l, version_or_type) {
                        Err(f) => Err(f),
                        Ok(v) => release_with(rs, c, v, date, github),
                    },
                },
            }
        } else {
            match semver_parsed(version_or_type) {
                Err(_) => Err(Failure::InvalidRelease),
                Ok(_) => match parsed_changelog(c) {
                    Err(e) => Err(Failure::Unparsable(e)),
                    Ok(rs) => release_with(rs, c, version_or_type, date, github),
                },
            }
        },
    }
}

fn copy_release(r: &Release) -> (c: Release)
    ensures
        c@ == r@,
{
    Release { version: r.version.clone(), title: r.title.clone(), notes: r.notes.clone() }
}

/// The releases in the order that an insertion-ordered map keyed by version
/// gives them: the fresh unreleased section, the released one under `title`,
/// then each of `rest` under its version.
fn released_order(fresh: Release, title: String, released: Release, rest: Vec<Release>) -> (r: Vec<
    Release,
>)
    ensures
        release_views(r@) == values_of(
            insert_all(
                map_insert(seq![("Unreleased"@, fresh@)], title@, released@),
                release_views(rest@),
            ),
        ),
{
    let ghost restv = release_views(rest@);
    let ghost fv = fresh@;
    let mut map = index_map_new();
    index_map_insert(&mut map, String::from_str("Unreleased"), fresh);
    assert(key_pos(Seq::<KeyedView>::empty(), "Unreleased"@, 0) is None);
    assert(index_map_entries(map) =~= seq![("Unreleased"@, fv)]);
    index_map_insert(&mut map, title, released);
    let ghost base = index_map_entries(map);
    let mut k: usize = 0;
    assert(restv.take(0) =~= Seq::<ReleaseView>::empty());
    while k < rest.len()
        invariant
            k <= rest.len(),
            restv == release_views(rest@),
            index_map_entries(map) == insert_all(base, restv.take(k as int)),
        decreases rest.len() - k,
    {
        assert(restv.take(k + 1).drop_last() =~= restv.take(k as int));
        assert(restv.take(k + 1).last() == rest@[k as int]@);
        index_map_insert(&mut map, rest[k].version.clone(), copy_release(&rest[k]));
        k = k + 1;
    }
    assert(restv.take(rest.len() as int) =~= restv);
    index_map_into_values(map)
}

fn release_texts(
    rs: Vec<Release>,
    content: &str,
    version: &str,
    date: &str,
    github: &Option<crate::model::GithubRepo>,
) -> (r: Result<(String, String), ChangelogError>)
    ensures
        match r {
            Ok(p) => release_with(release_views(rs@), content@, version@, date@, repo_view(*github))
                == Ok::<_, Failure>((p.0@, p.1@)),
            Err(e) => release_with(release_views(rs@), content@, version@, date@, repo_view(*github))
                == Err::<(Seq<char>, Seq<char>), _>(e@),
        },
{
    let ghost rv = release_views(rs@);
    let unreleased = chars_of("Unreleased");
    let i = match crate::changelog::position_of(&rs, &unreleased) {
        Some(i) => i,
        None => {
            return Err(ChangelogError::NoUnreleasedSection);
        },
    };
    let ds = parse_releases(
        "# Changelog\n## [Unreleased]\n### Added\n\n### Changed\n\n### Deprecated\n\n### Removed\n\n### Fixed\n\n### Security\n",
    )?;
    let j = match crate::changelog::position_of(&ds, &unreleased) {
        Some(j) => j,
        None => {
            return Err(ChangelogError::DefaultUnreleasedMissing);
        },
    };
    let mut title_chars = chars_of("[");
    append_str(&mut title_chars, version);
    append_str(&mut title_chars, "] - ");
    append_str(&mut title_chars, date);
    let title = string_of(&title_chars);
    assert(release_views(ds@)[j as int] == ds@[j as int]@);
    assert(rv[i as int] == rs@[i as int]@);
    let fresh = copy_release(&ds[j]);
    let released = Release {
        version: rs[i].version.clone(),
        title: title,
        notes: rs[i].notes.clone(),
    };
    let mut rest = rs;
    rest.remove(i);
    assert(release_views(rest@) =~= rv.remove(i as int));
    let values = released_order(fresh, string_of(&title_chars), released, rest);
    let text = changelog_to_markdown(values.as_slice(), content, None, github);
    Ok((text, String::from_str(version)))
}

impl Changelog {
    /// Releases the unreleased section as `version_or_type` (a semantic
    /// version, or `major`, `minor`, `patch` to bump the newest release) on
    /// `date`: the new changelog text and the released version.
    pub fn release(&self, content: Option<&str>, version_or_type: &str, date: &str) -> (r: Result<
        (String, String),
        ChangelogError,
    >)
        ensures
            match r {
                Ok(p) => release_outcome(
                    opt_str(content),
                    version_or_type@,
                    date@,
                    repo_view(self.github),
                ) == Ok::<_, Failure>((p.0@, p.1@)),
                Err(e) => release_outcome(
                    opt_str(content),
                    version_or_type@,
                    date@,
                    repo_view(self.github),
                ) == Err::<(Seq<char>, Seq<char>), _>(e@),
            },
    {
        let content = match content {
            Some(c) => c,
            None => {
                return Err(ChangelogError::MissingChangelog);
            },
        };
        let kind = chars_of(version_or_type);
        if eq_ignore_case(&kind, "major") || eq_ignore_case(&kind, "minor") || eq_ignore_case(
            &kind,
            "patch",
        ) {
            let rs = parse_releases(content)?;
            let released = released_of(&rs);
            if released.len() == 0 {
                return Err(ChangelogError::NoPreviousVersion);
            }
            assert(views(released@)[0] == released@[0]@);
            let latest = match first_word_of(&released[0]) {
                Some(w) => string_of(&w),
                None => {
                    return Err(ChangelogError::NoPreviousVersion);
                },
            };
            let version = self.get_next_version(latest.as_str(), version_or_type)?;
            release_texts(rs, content, version.as_str(), date, &self.github)
        } else {
            match parse_semver(version_or_type) {
                Ok(_) => {},
                Err(_) => {
                    return Err(ChangelogError::InvalidRelease);
                },
            }
            let rs = parse_releases(content)?;
            release_texts(rs, content, version_or_type, date, &self.github)
        }
    }
}

} // verus!
