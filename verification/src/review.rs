//! Reviewing commits: what the editor is given, and how the edited lines
//! become changelog entries.
use vstd::prelude::*;

use crate::changelog::{add_outcome, opt_str, parse_releases, Changelog, ReleaseView};
use crate::external::{line_diff, parse_conventional, conventional_commit, diff_lines, parsed_changelog};
use crate::markdown::repo_view;
use crate::model::{ChangeType, ChangelogError, Failure};
use crate::text::{
    after, after_of, append, append_str, before, before_of, chars_of, has_prefix_str, lines,
    seq_eq, split_lines, starts_with, string_of, trim, trim_of, views,
};
use crate::versions::{range_end, range_start_tag, released_versions, revision_range};

verus! {

broadcast use vstd::string::group_string_axioms;

/// The first line of a commit message, trimmed (empty when there is none).
pub open spec fn summary_of(message: Seq<char>) -> Seq<char> {
    if lines(message).len() > 0 {
        trim(lines(message)[0])
    } else {
        seq![]
    }
}

/// The first line of a commit message, trimmed.
pub fn commit_summary(message: &str) -> (r: String)
    ensures
        r@ == summary_of(message@),
{
    let m = chars_of(message);
    let ls = split_lines(&m);
    if ls.len() > 0 {
        assert(views(ls@)[0] == ls@[0]@);
        string_of(&trim_of(&ls[0]))
    } else {
        String::new()
    }
}

/// A commit is selected beforehand when it is a conventional `feat` or `fix`.
pub open spec fn preselected_spec(message: Seq<char>) -> bool {
    match conventional_commit(message) {
        Some(p) => p.0 == "feat"@ || p.0 == "fix"@,
        None => false,
    }
}

/// Whether a commit is selected beforehand: a conventional commit of type
/// `feat` or `fix`.
pub fn preselected(message: &str) -> (r: bool)
    ensures
        r == preselected_spec(message@),
{
    match parse_conventional(message) {
        Some(parts) => {
            let t = chars_of(parts.0.as_str());
            let feat = chars_of("feat");
            let fix = chars_of("fix");
            seq_eq(&t, &feat) || seq_eq(&t, &fix)
        },
        None => false,
    }
}

/// The type code and text that the editor shows for a commit: `added` for a
/// conventional `feat`, `fixed` for `fix`, `changed` otherwise; the
/// conventional description, or the whole message.
pub open spec fn suggested(message: Seq<char>) -> (Seq<char>, Seq<char>) {
    match conventional_commit(message) {
        Some(p) => (
            if p.0 == "feat"@ {
                "added"@
            } else if p.0 == "fix"@ {
                "fixed"@
            } else {
                "changed"@
            },
            p.1,
        ),
        None => ("changed"@, message),
    }
}

/// The editor line of a selected commit: `<type> <short id> <text>` and a newline.
pub fn review_line(short_id: &str, message: &str) -> (r: String)
    ensures
        r@ == suggested(message@).0 + " "@ + short_id@ + " "@ + suggested(message@).1 + "\n"@,
{
    let (code, text) = match parse_conventional(message) {
        Some(parts) => {
            let t = chars_of(parts.0.as_str());
            let feat = chars_of("feat");
            let fix = chars_of("fix");
            let code = if seq_eq(&t, &feat) {
                chars_of("added")
            } else if seq_eq(&t, &fix) {
                chars_of("fixed")
            } else {
                chars_of("changed")
            };
            (code, chars_of(parts.1.as_str()))
        },
        None => (chars_of("changed"), chars_of(message)),
    };
    let mut line = code;
    append_str(&mut line, " ");
    append_str(&mut line, short_id);
    append_str(&mut line, " ");
    append(&mut line, &text);
    append_str(&mut line, "\n");
    string_of(&line)
}

/// The instructions below the commit lines in the editor.
pub open spec fn editor_help() -> Seq<char> {
    "\n\n# Review commits and add them to the changelog\n# Lines starting with '#' will be ignored\n# Prefix each commit with one of:\n#   added (a), changed (c), deprecated (d), removed (r), fixed (f), security (s)\n# You can also edit the commit message - it will be used as the changelog entry\n#\n# Example:\n# added 1234567 Add new feature\n# changed 89abcde Update existing functionality\n"@
}

/// The text given to the editor: the commit lines, then the instructions.
pub fn editor_text(commits: &str) -> (r: String)
    ensures
        r@ == commits@ + editor_help(),
{
    let mut t = chars_of(commits);
    append_str(
        &mut t,
        "\n\n# Review commits and add them to the changelog\n# Lines starting with '#' will be ignored\n# Prefix each commit with one of:\n#   added (a), changed (c), deprecated (d), removed (r), fixed (f), security (s)\n# You can also edit the commit message - it will be used as the changelog entry\n#\n# Example:\n# added 1234567 Add new feature\n# changed 89abcde Update existing functionality\n",
    );
    string_of(&t)
}

/// The change type a type code names (its name or first letter); `changed`
/// for anything else.
pub open spec fn type_for_code(code: Seq<char>) -> ChangeType {
    if code == "added"@ || code == "a"@ {
        ChangeType::Added
    } else if code == "changed"@ || code == "c"@ {
        ChangeType::Changed
    } else if code == "deprecated"@ || code == "d"@ {
        ChangeType::Deprecated
    } else if code == "removed"@ || code == "r"@ {
        ChangeType::Removed
    } else if code == "fixed"@ || code == "f"@ {
        ChangeType::Fixed
    } else if code == "security"@ || code == "s"@ {
        ChangeType::Security
    } else {
        ChangeType::Changed
    }
}

fn is_code(code: &Vec<char>, name: &str, letter: &str) -> (r: bool)
    ensures
        r == (code@ == name@ || code@ == letter@),
{
    let n = chars_of(name);
    let l = chars_of(letter);
    seq_eq(code, &n) || seq_eq(code, &l)
}

/// The change type a type code names.
pub fn change_type_for_code(code: &str) -> (r: ChangeType)
    ensures
        r == type_for_code(code@),
{
    let c = chars_of(code);
    if is_code(&c, "added", "a") {
        ChangeType::Added
    } else if is_code(&c, "changed", "c") {
        ChangeType::Changed
    } else if is_code(&c, "deprecated", "d") {
        ChangeType::Deprecated
    } else if is_code(&c, "removed", "r") {
        ChangeType::Removed
    } else if is_code(&c, "fixed", "f") {
        ChangeType::Fixed
    } else if is_code(&c, "security", "s") {
        ChangeType::Security
    } else {
        ChangeType::Changed
    }
}

/// The entry an edited line asks for: `<type> <id> <text>`, trimmed; blank
/// lines, `#` comments and lines with fewer than three parts ask for none.
pub open spec fn review_entry(line: Seq<char>) -> Option<(ChangeType, Seq<char>)> {
    let t = trim(line);
    if t.len() == 0 || starts_with(t, "#"@) {
        None
    } else {
        match after(t, " "@) {
            Some(r1) => match after(r1, " "@) {
                Some(desc) => Some((type_for_code(before(t, " "@)), desc)),
                None => None,
            },
            None => None,
        }
    }
}

/// The entry an edited line asks for.
pub fn parse_review_line(line: &str) -> (r: Option<(ChangeType, String)>)
    ensures
        match r {
            Some(e) => review_entry(line@) == Some((e.0, e.1@)),
            None => review_entry(line@) is None,
        },
{
    let l = chars_of(line);
    let t = trim_of(&l);
    if t.len() == 0 || has_prefix_str(&t, "#") {
        return None;
    }
    let space = chars_of(" ");
    match after_of(&t, &space) {
        Some(r1) => match after_of(&r1, &space) {
            Some(desc) => {
                let code = before_of(&t, &space);
                let code_str = string_of(&code);
                Some((change_type_for_code(code_str.as_str()), string_of(&desc)))
            },
            None => None,
        },
        None => None,
    }
}

/// The entries that the edited lines ask for, in order.
pub open spec fn review_entries(ls: Seq<Seq<char>>) -> Seq<(ChangeType, Seq<char>)>
    decreases ls.len(),
{
    if ls.len() == 0 {
        seq![]
    } else {
        match review_entry(ls.last()) {
            Some(e) => review_entries(ls.drop_last()).push(e),
            None => review_entries(ls.drop_last()),
        }
    }
}

/// Adding the entries one after the other: the text after the last entry
/// that could be added, and the failure that stopped the adding, if any.
/// Entries added before a failure stay in the text.
pub open spec fn add_all(
    c: Seq<char>,
    entries: Seq<(ChangeType, Seq<char>)>,
    version: Option<Seq<char>>,
    github: Option<(Seq<char>, Seq<char>)>,
) -> (Seq<char>, Option<Failure>)
    decreases entries.len(),
{
    if entries.len() == 0 {
        (c, None)
    } else {
        let prev = add_all(c, entries.drop_last(), version, github);
        match prev.1 {
            Some(_) => prev,
            None => match add_outcome(Some(prev.0), entries.last().1, entries.last().0, version, github) {
                Ok(c2) => (c2, None),
                Err(f) => (prev.0, Some(f)),
            },
        }
    }
}

/// The view of an optional error.
pub open spec fn failure_view(e: Option<ChangelogError>) -> Option<Failure> {
    match e {
        Some(e) => Some(e@),
        None => None,
    }
}

proof fn lemma_entries_split(ls: Seq<Seq<char>>, j: int)
    requires
        0 <= j <= ls.len(),
    ensures
        review_entries(ls) == review_entries(ls.take(j)) + review_entries(ls.skip(j)),
    decreases ls.len(),
{
    if ls.len() == j {
        assert(ls.take(j) =~= ls);
        assert(ls.skip(j) =~= Seq::<Seq<char>>::empty());
        assert(review_entries(ls.take(j)) + review_entries(ls.skip(j)) =~= review_entries(ls));
    } else {
        lemma_entries_split(ls.drop_last(), j);
        assert(ls.drop_last().take(j) =~= ls.take(j));
        assert(ls.skip(j).drop_last() =~= ls.drop_last().skip(j));
        assert(ls.skip(j).last() == ls.last());
        match review_entry(ls.last()) {
            Some(e) => {
                assert(review_entries(ls.take(j)) + review_entries(ls.drop_last().skip(j)).push(e)
                    =~= (review_entries(ls.take(j)) + review_entries(ls.drop_last().skip(j))).push(e));
            },
            None => {},
        }
    }
}

proof fn lemma_add_all_stops(
    c: Seq<char>,
    es: Seq<(ChangeType, Seq<char>)>,
    k: int,
    version: Option<Seq<char>>,
    github: Option<(Seq<char>, Seq<char>)>,
)
    requires
        0 <= k <= es.len(),
        add_all(c, es.take(k), version, github).1 is Some,
    ensures
        add_all(c, es, version, github) == add_all(c, es.take(k), version, github),
    decreases es.len(),
{
    if es.len() == k {
        assert(es.take(k) =~= es);
    } else {
        assert(es.drop_last().take(k) =~= es.take(k));
        lemma_add_all_stops(c, es.drop_last(), k, version, github);
    }
}

/// The release heading and notes that the diff of a version compares.
pub open spec fn version_block(rs: Seq<ReleaseView>, key: Seq<char>) -> Seq<char> {
    match crate::changelog::find_version(rs, key) {
        Some(i) => "## "@ + rs[i].1 + "\n\n"@ + trim(rs[i].2),
        None => seq![],
    }
}

impl Changelog {
    /// The revision range whose commits `review` offers, from the changelog text.
    pub fn review_range(&self, content: &str, version: Option<&str>) -> (r: Result<
        (Option<String>, String),
        ChangelogError,
    >)
        ensures
            match parsed_changelog(content@) {
                Err(e) => r matches Err(f) && f@ == Failure::Unparsable(e),
                Ok(rs) => r matches Ok(p) && (match p.0 {
                    Some(s) => range_start_tag(released_versions(rs), opt_str(version)) == Some(s@),
                    None => range_start_tag(released_versions(rs), opt_str(version)) is None,
                }) && p.1@ == range_end(opt_str(version)),
            },
    {
        let rs = parse_releases(content)?;
        Ok(revision_range(&rs, version))
    }

    /// Adds, one after the other, the entries that the edited review text asks
    /// for to `version` (the unreleased section by default): the changelog
    /// text after the last entry that could be added, and the failure that
    /// stopped the adding, if any. Entries added before a failure are kept.
    pub fn apply_review(&self, content: &str, edited: &str, version: Option<&str>) -> (r: (
        String,
        Option<ChangelogError>,
    ))
        ensures
            (r.0@, failure_view(r.1)) == add_all(
                content@,
                review_entries(lines(edited@)),
                opt_str(version),
                repo_view(self.github),
            ),
    {
        let e = chars_of(edited);
        let ls = split_lines(&e);
        let ghost lv = views(ls@);
        let mut current = String::from_str(content);
        let mut i: usize = 0;
        assert(lv.take(0) =~= Seq::<Seq<char>>::empty());
        while i < ls.len()
            invariant
                i <= ls.len(),
                lv == views(ls@),
                lv == lines(edited@),
                add_all(content@, review_entries(lv.take(i as int)), opt_str(version), repo_view(self.github))
                    == (current@, Option::<Failure>::None),
            decreases ls.len() - i,
        {
            assert(lv.take(i + 1).drop_last() =~= lv.take(i as int));
            assert(lv.take(i + 1).last() == ls@[i as int]@);
            let line = string_of(&ls[i]);
            let ghost before_entries = review_entries(lv.take(i as int));
            match parse_review_line(line.as_str()) {
                Some(entry) => {
                    assert(review_entries(lv.take(i + 1)) == before_entries.push((entry.0, entry.1@)));
                    let next = self.add(
                        Some(current.as_str()),
                        entry.1.as_str(),
                        &entry.0,
                        version,
                        None,
                        None,
                    );
                    let ghost pre = review_entries(lv.take(i + 1));
                    proof {
                        assert(pre.drop_last() =~= before_entries);
                        assert(pre.last() == (entry.0, entry.1@));
                    }
                    match next {
                        Ok(n) => {
                            current = n;
                        },
                        Err(err) => {
                            proof {
                                let es = review_entries(lines(edited@));
                                assert(add_all(content@, pre, opt_str(version), repo_view(self.github))
                                    == (current@, Some(err@)));
                                lemma_entries_split(lv, i + 1);
                                assert(es.take(pre.len() as int) =~= pre);
                                lemma_add_all_stops(
                                    content@,
                                    es,
                                    pre.len() as int,
                                    opt_str(version),
                                    repo_view(self.github),
                                );
                            }
                            return (current, Some(err));
                        },
                    }
                },
                None => {
                    assert(review_entries(lv.take(i + 1)) == before_entries);
                },
            }
            i = i + 1;
        }
        assert(lv.take(ls.len() as int) =~= lv);
        (current, None)
    }

    /// The line changes between the old and the new text of one version (the
    /// unreleased section by default): its heading and trimmed notes in each.
    pub fn show_diff(&self, version: Option<&str>, old_content: &str, new_content: &str) -> (r:
        Result<Vec<(char, String)>, ChangelogError>)
        ensures
            match parsed_changelog(old_content@) {
                Err(e) => r matches Err(f) && f@ == Failure::Unparsable(e),
                Ok(o) => match parsed_changelog(new_content@) {
                    Err(e) => r matches Err(f) && f@ == Failure::Unparsable(e),
                    Ok(n) => r matches Ok(d) && d.deep_view() == line_diff(
                        version_block(o, crate::changelog::key_or_unreleased(opt_str(version))),
                        version_block(n, crate::changelog::key_or_unreleased(opt_str(version))),
                    ),
                },
            },
    {
        let old_rs = parse_releases(old_content)?;
        let new_rs = parse_releases(new_content)?;
        let key = match version {
            Some(v) => chars_of(v),
            None => chars_of("Unreleased"),
        };
        let old_block = block_of(&old_rs, &key);
        let new_block = block_of(&new_rs, &key);
        Ok(diff_lines(old_block.as_str(), new_block.as_str()))
    }
}

fn block_of(rs: &Vec<crate::model::Release>, key: &Vec<char>) -> (r: String)
    ensures
        r@ == version_block(crate::model::release_views(rs@), key@),
{
    match crate::changelog::position_of(rs, key) {
        Some(i) => {
            assert(crate::model::release_views(rs@)[i as int] == rs@[i as int]@);
            let mut out = chars_of("## ");
            append_str(&mut out, rs[i].title.as_str());
            append_str(&mut out, "\n\n");
            let notes = chars_of(rs[i].notes.as_str());
            append(&mut out, &trim_of(&notes));
            string_of(&out)
        },
        None => String::new(),
    }
}


// ---------------------------------------------------------------------
// The review, step by step
// ---------------------------------------------------------------------

/// What the caller of `review` reports: the changelog text read, the commits
/// of the revision range (short id and summary), which of them were
/// selected, or the text as it came back from the editor.
pub enum ReviewEvent {
    /// The review begins with this changelog text.
    Begin { content: String },
    /// The commits of the revision range, newest first.
    Commits { list: Vec<(String, String)> },
    /// The positions in `list` of the selected commits.
    Chosen { list: Vec<(String, String)>, selected: Vec<usize> },
    /// The edited review text, and the changelog text to add its entries to.
    Edited { content: String, text: String },
}

/// What `review` asks its caller to do next.
pub enum ReviewAction {
    /// List the commits from the tag `start` (exclusive) to `end`.
    Walk { start: Option<String>, end: String },
    /// Let the user select among `items`, with `defaults` selected beforehand.
    Choose { items: Vec<String>, defaults: Vec<bool> },
    /// Let the user edit `text`.
    Edit { text: String },
    /// Write the new changelog text; then report `failure` when an entry could
    /// not be added (the entries before it are in `content`), else show the diff.
    Write { content: String, failure: Option<ChangelogError> },
    /// Nothing was selected: the review ends.
    Stop,
}

/// The view of a commit list: (short id, summary) pairs.
pub open spec fn commit_views(list: Seq<(String, String)>) -> Seq<(Seq<char>, Seq<char>)> {
    list.map_values(|c: (String, String)| (c.0@, c.1@))
}

/// The selection items of the commits: `<short id> <summary>`.
pub open spec fn choice_items(list: Seq<(Seq<char>, Seq<char>)>) -> Seq<Seq<char>> {
    list.map_values(|c: (Seq<char>, Seq<char>)| c.0 + " "@ + c.1)
}

/// Which commits are selected beforehand.
pub open spec fn choice_defaults(list: Seq<(Seq<char>, Seq<char>)>) -> Seq<bool> {
    list.map_values(|c: (Seq<char>, Seq<char>)| preselected_spec(c.1))
}

/// The editor line of a commit.
pub open spec fn editor_line(id: Seq<char>, message: Seq<char>) -> Seq<char> {
    suggested(message).0 + " "@ + id + " "@ + suggested(message).1 + "\n"@
}

/// The editor lines of the selected commits, in the order of selection.
pub open spec fn selected_lines(list: Seq<(Seq<char>, Seq<char>)>, selected: Seq<usize>) -> Seq<char>
    decreases selected.len(),
{
    if selected.len() == 0 {
        seq![]
    } else {
        selected_lines(list, selected.drop_last()) + editor_line(
            list[selected.last() as int].0,
            list[selected.last() as int].1,
        )
    }
}

fn choices(list: &Vec<(String, String)>) -> (r: (Vec<String>, Vec<bool>))
    ensures
        crate::text::strs(r.0@) == choice_items(commit_views(list@)),
        r.1@ == choice_defaults(commit_views(list@)),
{
    let ghost cv = commit_views(list@);
    let mut items: Vec<String> = Vec::new();
    let mut defaults: Vec<bool> = Vec::new();
    let mut i: usize = 0;
    while i < list.len()
        invariant
            i <= list.len(),
            cv == commit_views(list@),
            crate::text::strs(items@) == choice_items(cv).take(i as int),
            defaults@ == choice_defaults(cv).take(i as int),
        decreases list.len() - i,
    {
        let mut item = chars_of(list[i].0.as_str());
        append_str(&mut item, " ");
        append_str(&mut item, list[i].1.as_str());
        let ghost prev_items = items@;
        let ghost prev_defaults = defaults@;
        items.push(string_of(&item));
        defaults.push(preselected(list[i].1.as_str()));
        assert(cv[i as int] == (list@[i as int].0@, list@[i as int].1@));
        assert(crate::text::strs(items@) =~= crate::text::strs(prev_items).push(item@));
        assert(choice_items(cv).take(i + 1) =~= choice_items(cv).take(i as int).push(item@));
        assert(defaults@ =~= prev_defaults.push(preselected_spec(list@[i as int].1@)));
        assert(choice_defaults(cv).take(i + 1) =~= choice_defaults(cv).take(i as int).push(
            preselected_spec(list@[i as int].1@),
        ));
        i = i + 1;
    }
    assert(choice_items(cv).take(list.len() as int) =~= choice_items(cv));
    assert(choice_defaults(cv).take(list.len() as int) =~= choice_defaults(cv));
    (items, defaults)
}

fn lines_for(list: &Vec<(String, String)>, selected: &Vec<usize>) -> (r: String)
    requires
        forall|k: int| 0 <= k < selected.len() ==> selected@[k] < list.len(),
    ensures
        r@ == selected_lines(commit_views(list@), selected@),
{
    let ghost cv = commit_views(list@);
    let mut out: Vec<char> = Vec::new();
    let mut k: usize = 0;
    assert(selected@.take(0) =~= Seq::<usize>::empty());
    while k < selected.len()
        invariant
            k <= selected.len(),
            cv == commit_views(list@),
            forall|j: int| 0 <= j < selected.len() ==> selected@[j] < list.len(),
            out@ == selected_lines(cv, selected@.take(k as int)),
        decreases selected.len() - k,
    {
        let idx = selected[k];
        assert(selected@.take(k + 1).drop_last() =~= selected@.take(k as int));
        assert(selected@.take(k + 1).last() == idx);
        assert(cv[idx as int] == (list@[idx as int].0@, list@[idx as int].1@));
        let line = review_line(list[idx].0.as_str(), list[idx].1.as_str());
        append_str(&mut out, line.as_str());
        k = k + 1;
    }
    assert(selected@.take(selected.len() as int) =~= selected@);
    string_of(&out)
}

impl Changelog {
    /// One step of the interactive review of commits. Given what the caller
    /// reports, the next thing to do: walk the revision range of `version`
    /// (the unreleased changes by default), offer the commits for selection
    /// (conventional `feat` and `fix` commits selected beforehand), hand the
    /// selected commits to the editor, or write the changelog with the
    /// entries the edited text asks for.
    pub fn review(&self, version: Option<&str>, event: &ReviewEvent) -> (r: Result<
        ReviewAction,
        ChangelogError,
    >)
        requires
            event matches ReviewEvent::Chosen { list, selected } ==> forall|k: int|
                0 <= k < selected.len() ==> selected@[k] < list.len(),
        ensures
            match event {
                ReviewEvent::Begin { content } => match parsed_changelog(content@) {
                    Err(e) => r matches Err(f) && f@ == Failure::Unparsable(e),
                    Ok(rs) => r matches Ok(ReviewAction::Walk { start, end }) && (match start {
                        Some(s) => range_start_tag(released_versions(rs), opt_str(version))
                            == Some(s@),
                        None => range_start_tag(released_versions(rs), opt_str(version)) is None,
                    }) && end@ == range_end(opt_str(version)),
                },
                ReviewEvent::Commits { list } => r matches Ok(ReviewAction::Choose { items, defaults })
                    && crate::text::strs(items@) == choice_items(commit_views(list@)) && defaults@
                    == choice_defaults(commit_views(list@)),
                ReviewEvent::Chosen { list, selected } => if selected.len() == 0 {
                    r matches Ok(ReviewAction::Stop)
                } else {
                    r matches Ok(ReviewAction::Edit { text }) && text@ == selected_lines(
                        commit_views(list@),
                        selected@,
                    ) + editor_help()
                },
                ReviewEvent::Edited { content, text } => match add_all(
                    content@,
                    review_entries(lines(text@)),
                    opt_str(version),
                    repo_view(self.github),
                ) {
                    (c, f) => r matches Ok(ReviewAction::Write { content: new, failure }) && new@ == c
                        && failure_view(failure) == f,
                },
            },
    {
        match event {
            ReviewEvent::Begin { content } => {
                let (start, end) = self.review_range(content.as_str(), version)?;
                Ok(ReviewAction::Walk { start, end })
            },
            ReviewEvent::Commits { list } => {
                let (items, defaults) = choices(list);
                Ok(ReviewAction::Choose { items, defaults })
            },
            ReviewEvent::Chosen { list, selected } => {
                if selected.len() == 0 {
                    return Ok(ReviewAction::Stop);
                }
                let commits = lines_for(list, selected);
                Ok(ReviewAction::Edit { text: editor_text(commits.as_str()) })
            },
            ReviewEvent::Edited { content, text } => {
                let (new, failure) = self.apply_review(content.as_str(), text.as_str(), version);
                Ok(ReviewAction::Write { content: new, failure })
            },
        }
    }
}

} // verus!
