use changelog::{
    bump_version, cli_token, env_token, change_type_for_code, changelog_to_markdown, commit_summary, credited_description,
    editor_text, extract_header, github_repo_from_remote, parse_releases, parse_review_line,
    pr_lookup_url, preselected, remove_markdown_links, review_line, set_test_github_repo,
};
use changelog::{ChangeType, Changelog, ChangelogError, PrCredit, ReviewAction, ReviewEvent};

const SAMPLE: &str = "# Changelog

## [Unreleased]

### Added

- new thing

## [1.0.0] - 2025-01-01

### Added

- first

## [0.9.0] - 2024-12-01

### Fixed

- a bug
";

fn plain() -> Changelog {
    Changelog::new()
}

#[test]
fn new_changelog_points_at_changelog_md() {
    let c = Changelog::new();
    assert_eq!(c.path, "CHANGELOG.md");
    assert!(c.github.is_none());
}

#[test]
fn version_latest_is_newest_release() {
    assert_eq!(plain().version_latest(Some(SAMPLE)).unwrap(), "1.0.0");
}

#[test]
fn version_latest_without_releases() {
    let text = "# Changelog\n\n## [Unreleased]\n\n- x\n";
    assert!(matches!(
        plain().version_latest(Some(text)),
        Err(ChangelogError::NoReleasedVersions)
    ));
}

#[test]
fn version_list_in_changelog_order() {
    assert_eq!(plain().version_list(Some(SAMPLE)).unwrap(), vec!["1.0.0", "0.9.0"]);
}

#[test]
fn latest_is_first_listed_on_sample() {
    let list = plain().version_list(Some(SAMPLE)).unwrap();
    assert_eq!(plain().version_latest(Some(SAMPLE)).unwrap(), list[0]);
}

#[test]
fn version_show_specific_version() {
    let shown = plain().version_show(Some(SAMPLE), "1.0.0").unwrap();
    assert_eq!(shown, "## [1.0.0] - 2025-01-01\n\n### Added\n\n- first\n");
}

#[test]
fn version_show_latest_and_unreleased() {
    let latest = plain().version_show(Some(SAMPLE), "LATEST").unwrap();
    assert_eq!(latest, "## [1.0.0] - 2025-01-01\n\n### Added\n\n- first\n");
    let unreleased = plain().version_show(Some(SAMPLE), "unreleased").unwrap();
    assert_eq!(unreleased, "## [Unreleased]\n\n### Added\n\n- new thing\n");
}

#[test]
fn version_show_missing_version() {
    let err = plain().version_show(Some(SAMPLE), "3.0.0").unwrap_err();
    assert!(matches!(&err, ChangelogError::EntryNotFound(v) if v == "3.0.0"));
    assert_eq!(err.message(), "Version 3.0.0 not found");
}

#[test]
fn range_of_a_version_reaches_back_to_previous() {
    assert_eq!(plain().range(Some(SAMPLE), Some("1.0.0")).unwrap(), "v0.9.0..v1.0.0");
}

#[test]
fn range_of_unreleased_changes() {
    assert_eq!(plain().range(Some(SAMPLE), None).unwrap(), "v1.0.0..HEAD");
}

#[test]
fn range_of_oldest_version_has_no_start() {
    assert_eq!(plain().range(Some(SAMPLE), Some("0.9.0")).unwrap(), "v0.9.0");
}

#[test]
fn range_refuses_v_prefix_before_reading() {
    assert!(matches!(plain().range(None, Some("v1.0.0")), Err(ChangelogError::VersionHasPrefix)));
}

#[test]
fn operations_need_the_file() {
    assert!(matches!(plain().range(None, None), Err(ChangelogError::MissingChangelog)));
    assert!(matches!(plain().fmt(None), Err(ChangelogError::MissingChangelog)));
    assert!(matches!(plain().version_list(None), Err(ChangelogError::MissingChangelog)));
    assert!(matches!(
        plain().add(None, "x", &ChangeType::Added, None, None, None),
        Err(ChangelogError::MissingChangelog)
    ));
    assert_eq!(
        ChangelogError::MissingChangelog.message(),
        "CHANGELOG.md does not exist. Run 'changelog init' first."
    );
}

#[test]
fn unparsable_changelog() {
    let err = plain().fmt(Some("just some text\n")).unwrap_err();
    assert!(matches!(err, ChangelogError::Unparsable(ref m) if m.contains("no release note")));
}

#[test]
fn release_explicit_version() {
    let (text, version) = plain().release(Some(SAMPLE), "1.1.0", "2025-02-01").unwrap();
    assert_eq!(version, "1.1.0");
    let expected = "# Changelog

## Unreleased

## 1.1.0 - 2025-02-01

### Added

- new thing

## 1.0.0 - 2025-01-01

### Added

- first

## 0.9.0 - 2024-12-01

### Fixed

- a bug
";
    assert_eq!(text, expected);
}

#[test]
fn release_bumps() {
    let (_, v) = plain().release(Some(SAMPLE), "minor", "2025-02-01").unwrap();
    assert_eq!(v, "1.1.0");
    let (_, v) = plain().release(Some(SAMPLE), "MAJOR", "2025-02-01").unwrap();
    assert_eq!(v, "2.0.0");
    let (_, v) = plain().release(Some(SAMPLE), "patch", "2025-02-01").unwrap();
    assert_eq!(v, "1.0.1");
}

#[test]
fn release_then_version_latest() {
    let (text, _) = plain().release(Some(SAMPLE), "patch", "2025-02-01").unwrap();
    assert_eq!(plain().version_latest(Some(&text)).unwrap(), "1.0.1");
    assert_eq!(plain().version_list(Some(&text)).unwrap(), vec!["1.0.1", "1.0.0", "0.9.0"]);
}

#[test]
fn release_errors() {
    assert!(matches!(
        plain().release(Some(SAMPLE), "not-a-version", "2025-02-01"),
        Err(ChangelogError::InvalidRelease)
    ));
    let no_previous = "# Changelog\n\n## [Unreleased]\n\n- x\n";
    assert!(matches!(
        plain().release(Some(no_previous), "minor", "2025-02-01"),
        Err(ChangelogError::NoPreviousVersion)
    ));
    let no_unreleased = "# Changelog\n\n## 1.0.0\n\n- x\n";
    assert!(matches!(
        plain().release(Some(no_unreleased), "1.0.1", "2025-02-01"),
        Err(ChangelogError::NoUnreleasedSection)
    ));
    assert_eq!(
        ChangelogError::InvalidRelease.message(),
        "Version must be a valid semver or one of: major, minor, patch"
    );
}

#[test]
fn next_version_from_semver() {
    let c = plain();
    assert_eq!(c.get_next_version("1.2.3", "major").unwrap(), "2.0.0");
    assert_eq!(c.get_next_version("1.2.3", "Minor").unwrap(), "1.3.0");
    assert_eq!(c.get_next_version("1.2.3", "patch").unwrap(), "1.2.4");
    assert!(matches!(c.get_next_version("1.2.3", "huge"), Err(ChangelogError::InvalidChangeType)));
    assert!(matches!(c.get_next_version("1.2", "patch"), Err(ChangelogError::InvalidVersion(_))));
    assert!(matches!(
        c.get_next_version("18446744073709551615.0.0", "major"),
        Err(ChangelogError::VersionOverflow)
    ));
}

#[test]
fn bump_version_formula() {
    assert_eq!(bump_version(0, 9, 12, "patch").unwrap(), "0.9.13");
    assert_eq!(bump_version(0, 9, 12, "minor").unwrap(), "0.10.0");
    assert_eq!(bump_version(9, 9, 12, "major").unwrap(), "10.0.0");
    assert!(matches!(bump_version(1, u64::MAX, 0, "minor"), Err(ChangelogError::VersionOverflow)));
}

#[test]
fn add_to_missing_version() {
    let err = plain().add(Some(SAMPLE), "x", &ChangeType::Fixed, Some("2.0.0"), None, None).unwrap_err();
    assert!(matches!(&err, ChangelogError::VersionNotFound(v) if v == "2.0.0"));
    assert_eq!(err.message(), "Version 2.0.0 not found in changelog");
}

#[test]
fn add_to_released_version_new_section() {
    let text = plain()
        .add(Some(SAMPLE), "security fix", &ChangeType::Security, Some("0.9.0"), None, None)
        .unwrap();
    assert!(text.contains("## 0.9.0 - 2024-12-01\n\n### Security\n\n- security fix\n\n### Fixed\n\n- a bug\n"));
}

#[test]
fn add_with_credit() {
    let credit = PrCredit {
        number: 12,
        url: "https://github.com/o/r/pull/12".to_string(),
        author: "alice".to_string(),
    };
    let text = plain()
        .add(Some(SAMPLE), "fix login", &ChangeType::Fixed, None, Some(&credit), None)
        .unwrap();
    assert!(text.contains("### Fixed\n\n- fix login ([#12](https://github.com/o/r/pull/12); thanks @alice)\n"));
}

#[test]
fn excluded_users_get_no_credit() {
    let credit = PrCredit {
        number: 3,
        url: "https://github.com/o/r/pull/3".to_string(),
        author: "dependabot".to_string(),
    };
    let add = |exclude: Option<&str>| {
        plain()
            .add(Some(SAMPLE), "bump deps", &ChangeType::Changed, None, Some(&credit), exclude)
            .unwrap()
    };
    let plain_entry = "### Changed\n\n- bump deps\n";
    let credited_entry =
        "### Changed\n\n- bump deps ([#3](https://github.com/o/r/pull/3); thanks @dependabot)\n";
    assert!(add(Some("renovate, dependabot")).contains(plain_entry));
    assert!(add(Some("dependabot")).contains(plain_entry));
    assert!(add(Some("renovate,alice")).contains(credited_entry));
    assert!(add(None).contains(credited_entry));
    assert!(add(Some("")).contains(credited_entry));
    assert!(add(Some("dependabot-preview")).contains(credited_entry));
}

#[test]
fn credited_description_formula() {
    let credit = PrCredit { number: 7, url: "u".to_string(), author: "bob".to_string() };
    assert_eq!(credited_description("d", Some(&credit)), "d ([#7](u); thanks @bob)");
    assert_eq!(credited_description("d", None), "d");
}

#[test]
fn add_entry_lands_under_its_heading() {
    let text = plain().add(Some(SAMPLE), "more", &ChangeType::Added, None, None, None).unwrap();
    assert!(text.contains("## Unreleased\n\n### Added\n\n- new thing\n- more\n"));
}

#[test]
fn init_with_github_links() {
    let gh = set_test_github_repo(Some("o".to_string()), Some("r".to_string()));
    let c = Changelog::new().with_github(gh);
    let text = c.init(false).unwrap().unwrap();
    assert_eq!(text, "# Changelog\n\n## [Unreleased]\n\n[Unreleased]: https://github.com/o/r/releases/tag/vUnreleased\n");
}

#[test]
fn init_plain() {
    let text = plain().init(false).unwrap().unwrap();
    assert_eq!(text, "# Changelog\n\n## Unreleased\n");
}

#[test]
fn set_test_repo_needs_both_parts() {
    assert!(set_test_github_repo(Some("o".to_string()), None).is_none());
    assert!(set_test_github_repo(None, Some("r".to_string())).is_none());
    let g = set_test_github_repo(Some("o".to_string()), Some("r".to_string())).unwrap();
    assert_eq!((g.owner.as_str(), g.repo.as_str()), ("o", "r"));
}

#[test]
fn remote_addresses() {
    let g = github_repo_from_remote("git@github.com:schpet/changelog.git").unwrap();
    assert_eq!((g.owner.as_str(), g.repo.as_str()), ("schpet", "changelog"));
    let g = github_repo_from_remote("https://github.com/schpet/changelog.git").unwrap();
    assert_eq!((g.owner.as_str(), g.repo.as_str()), ("schpet", "changelog"));
    let g = github_repo_from_remote("https://github.com/schpet/changelog").unwrap();
    assert_eq!((g.owner.as_str(), g.repo.as_str()), ("schpet", "changelog"));
    let g = github_repo_from_remote("ssh://git@github.com/a/b/c").unwrap();
    assert_eq!((g.owner.as_str(), g.repo.as_str()), ("a", "b"));
    assert!(github_repo_from_remote("https://gitlab.com/a/b.git").is_none());
    assert!(github_repo_from_remote("https://github.com/onlyowner").is_none());
    assert!(github_repo_from_remote("github.com:a/b").is_none());
}

#[test]
fn remote_addresses_with_dots_and_colons() {
    let g = github_repo_from_remote("https://github.com/my.org/site.io.git").unwrap();
    assert_eq!((g.owner.as_str(), g.repo.as_str()), ("my.org", "site.io"));
    let g = github_repo_from_remote("git@github.com:own:er/na:me.git").unwrap();
    assert_eq!((g.owner.as_str(), g.repo.as_str()), ("own:er", "na:me"));
    // an owner that ends in `github.com` hides the path
    assert!(github_repo_from_remote("https://github.com/github.com/x").is_none());
}

#[test]
fn github_token_sources() {
    assert_eq!(env_token(Some("a"), Some("b")).as_deref(), Some("a"));
    assert_eq!(env_token(Some(""), Some("b")).as_deref(), Some("b"));
    assert_eq!(env_token(None, Some("b")).as_deref(), Some("b"));
    assert_eq!(env_token(Some(""), Some("")), None);
    assert_eq!(env_token(None, None), None);
    assert_eq!(cli_token("gho_abc123\n").as_deref(), Some("gho_abc123"));
    assert_eq!(cli_token("  \n"), None);
}

#[test]
fn pr_lookup_address() {
    assert_eq!(
        pr_lookup_url("o", "r", "abc"),
        "https://api.github.com/repos/o/r/commits/abc/pulls"
    );
}

#[test]
fn change_type_names_and_codes() {
    let all = [
        ChangeType::Added,
        ChangeType::Changed,
        ChangeType::Deprecated,
        ChangeType::Removed,
        ChangeType::Fixed,
        ChangeType::Security,
    ];
    let names = ["added", "changed", "deprecated", "removed", "fixed", "security"];
    for (t, name) in all.iter().zip(names.iter()) {
        assert_eq!(t.to_string(), *name);
        assert_eq!(change_type_for_code(name), *t);
        assert_eq!(change_type_for_code(&name[..1]), *t);
    }
    assert_eq!(change_type_for_code("whatever"), ChangeType::Changed);
    assert_eq!(
        String::from_iter(ChangeType::Deprecated.section_marker()),
        "### Deprecated"
    );
}

#[test]
fn commit_summaries() {
    assert_eq!(commit_summary("  feat: login  \n\nbody text"), "feat: login");
    assert_eq!(commit_summary(""), "");
}

#[test]
fn preselection_of_conventional_commits() {
    assert!(preselected("feat: add login"));
    assert!(preselected("fix(ui): button"));
    assert!(!preselected("chore: bump deps"));
    assert!(!preselected("just a message"));
}

#[test]
fn review_lines_for_commits() {
    assert_eq!(review_line("abc1234", "feat: add login"), "added abc1234 add login\n");
    assert_eq!(review_line("abc1234", "fix: crash"), "fixed abc1234 crash\n");
    assert_eq!(review_line("abc1234", "docs: readme"), "changed abc1234 readme\n");
    assert_eq!(review_line("abc1234", "plain message"), "changed abc1234 plain message\n");
}

#[test]
fn review_line_parsing() {
    assert_eq!(
        parse_review_line("a 1234567 New thing"),
        Some((ChangeType::Added, "New thing".to_string()))
    );
    assert_eq!(
        parse_review_line("  fixed 89abcde Fix the bug  "),
        Some((ChangeType::Fixed, "Fix the bug".to_string()))
    );
    assert_eq!(
        parse_review_line("unknown 1 something else"),
        Some((ChangeType::Changed, "something else".to_string()))
    );
    assert_eq!(parse_review_line("# added 1234567 Add new feature"), None);
    assert_eq!(parse_review_line("added onlytwo"), None);
    assert_eq!(parse_review_line("   "), None);
}

#[test]
fn review_line_round_trip_scenario() {
    let line = review_line("abc1234", "feat: add login");
    assert_eq!(
        parse_review_line(line.trim_end()),
        Some((ChangeType::Added, "add login".to_string()))
    );
}

#[test]
fn editor_text_lists_commits_first() {
    let t = editor_text("added abc1234 x\n");
    assert!(t.starts_with("added abc1234 x\n\n\n# Review commits and add them to the changelog\n"));
    assert!(t.ends_with("# changed 89abcde Update existing functionality\n"));
}

#[test]
fn review_applies_entries() {
    let edited = editor_text("added abc1234 shiny\nf def5678 crash fixed\n");
    let (text, failure) = plain().apply_review(SAMPLE, &edited, None);
    assert!(failure.is_none());
    assert!(text.contains("## Unreleased\n\n### Fixed\n\n- crash fixed\n\n### Added\n\n- new thing\n- shiny\n"), "{}", text);
}

#[test]
fn review_keeps_entries_before_a_failure() {
    // The first entry's text holds `# Changelog`, so its release is no longer
    // rendered and the second entry finds no unreleased section.
    let edited = "added abc1234 see # Changelog\nadded def5678 second\n";
    let (text, failure) = plain().apply_review(SAMPLE, edited, None);
    assert!(matches!(failure, Some(ChangelogError::VersionNotFound(ref v)) if v == "Unreleased"));
    let expected = plain()
        .add(Some(SAMPLE), "see # Changelog", &ChangeType::Added, None, None, None)
        .unwrap();
    assert_eq!(text, expected);
    assert_ne!(text, SAMPLE);
    let (same, failure) = plain().apply_review("not a changelog", "added a b\n", None);
    assert!(matches!(failure, Some(ChangelogError::Unparsable(_))));
    assert_eq!(same, "not a changelog");
}

#[test]
fn review_range_of_unreleased() {
    let (start, end) = plain().review_range(SAMPLE, None).unwrap();
    assert_eq!(start.as_deref(), Some("v1.0.0"));
    assert_eq!(end, "HEAD");
}

#[test]
fn diff_of_an_added_entry() {
    let new_text = plain().add(Some(SAMPLE), "more", &ChangeType::Added, None, None, None).unwrap();
    let changes = plain().show_diff(None, SAMPLE, &new_text).unwrap();
    assert!(changes.iter().any(|(t, l)| *t == '+' && l == "- more\n"));
    assert!(changes.iter().any(|(t, l)| *t == '-' && l == "## [Unreleased]\n"));
    assert!(changes.iter().any(|(t, l)| *t == '+' && l == "## Unreleased\n"));
    assert!(changes.iter().any(|(t, l)| *t == ' ' && l == "### Added\n"));
}

#[test]
fn header_extraction() {
    assert_eq!(extract_header("Header\nmore  \n\n## 1.0.0\n").unwrap(), "Header\nmore");
    assert_eq!(extract_header("No releases   \n").unwrap(), "No releases");
}

#[test]
fn rendered_text_keeps_header() {
    let original = "# My Project\n\nSome intro text.\n[Unreleased]: x\n\n## [Unreleased]\n\n### Added\n\n- x\n";
    let rs = parse_releases(original).unwrap();
    let header = extract_header(original).unwrap();
    for github in [None, set_test_github_repo(Some("o".to_string()), Some("r".to_string()))] {
        let out = changelog_to_markdown(&rs, original, None, &github);
        assert!(out.starts_with(&format!("{}\n", header)));
    }
}

#[test]
fn removing_no_versions_keeps_every_line() {
    let content = "a\n[1.0.0]: x\r\nb\n";
    assert_eq!(remove_markdown_links(content, &[]), "a\n[1.0.0]: x\nb");
}

#[test]
fn rendered_markdown_ends_with_newline() {
    let input = "## 1.0.0\n\n### Added\n- x";
    let releases = parse_releases(input).unwrap();
    assert!(changelog_to_markdown(&releases, input, None, &None).ends_with('\n'));
}

#[test]
fn notes_with_changelog_heading_are_skipped() {
    let releases = vec![changelog::Release {
        version: "1.0.0".to_string(),
        title: "1.0.0".to_string(),
        notes: "# Changelog\n- x".to_string(),
    }];
    assert_eq!(changelog_to_markdown(&releases, "Head", None, &None), "Head\n");
}

#[test]
fn review_steps() {
    let c = plain();
    match c.review(None, &ReviewEvent::Begin { content: SAMPLE.to_string() }).unwrap() {
        ReviewAction::Walk { start, end } => {
            assert_eq!(start.as_deref(), Some("v1.0.0"));
            assert_eq!(end, "HEAD");
        }
        _ => panic!("expected a walk"),
    }
    let list = vec![
        ("abc1234".to_string(), "feat: login".to_string()),
        ("def5678".to_string(), "chore: deps".to_string()),
    ];
    match c.review(None, &ReviewEvent::Commits { list: list.clone() }).unwrap() {
        ReviewAction::Choose { items, defaults } => {
            assert_eq!(items, vec!["abc1234 feat: login", "def5678 chore: deps"]);
            assert_eq!(defaults, vec![true, false]);
        }
        _ => panic!("expected a choice"),
    }
    assert!(matches!(
        c.review(None, &ReviewEvent::Chosen { list: list.clone(), selected: vec![] }).unwrap(),
        ReviewAction::Stop
    ));
    let text = match c.review(None, &ReviewEvent::Chosen { list, selected: vec![1, 0] }).unwrap() {
        ReviewAction::Edit { text } => text,
        _ => panic!("expected an edit"),
    };
    assert!(text.starts_with("changed def5678 deps\nadded abc1234 login\n\n\n# Review commits"));
    match c
        .review(None, &ReviewEvent::Edited { content: SAMPLE.to_string(), text })
        .unwrap()
    {
        ReviewAction::Write { content, failure } => {
            assert!(failure.is_none());
            assert!(content.contains("### Changed\n\n- deps\n"));
            assert!(content.contains("- new thing\n- login\n"));
        }
        _ => panic!("expected a write"),
    }
}
