use changelog::{changelog_to_markdown, parse_releases, remove_markdown_links, set_test_github_repo};
use changelog::{ChangeType, Changelog};

fn render(input: &str, github: &Option<changelog::GithubRepo>) -> String {
    let releases = parse_releases(input).unwrap();
    changelog_to_markdown(&releases, input, None, github)
}

#[test]
fn test_changelog_with_github_urls() {
    let gh = set_test_github_repo(Some("owner".to_string()), Some("repo".to_string()));

    let input = r#"# Changelog

## Unreleased

### Added
- New feature

## 1.0.0 - 2025-01-01

### Added
- Initial release"#;

    let expected = r#"# Changelog

## [Unreleased]

### Added
- New feature

## [1.0.0] - 2025-01-01

### Added
- Initial release

[Unreleased]: https://github.com/owner/repo/compare/v1.0.0...HEAD
[1.0.0]: https://github.com/owner/repo/releases/tag/v1.0.0
"#;

    let markdown = render(input, &gh);
    assert_eq!(markdown, expected);
}

#[test]
fn test_init_creates_changelog() {
    let changelog = Changelog::new();

    // First initialization creates the text
    let content = changelog.init(false).unwrap().unwrap();

    // Content should match expected template
    assert!(content.contains("# Changelog"));
    assert!(content.contains("## Unreleased"));

    // Parse the content to verify structure
    let parsed = parse_releases(&content).unwrap();
    assert!(parsed.iter().any(|r| r.version == "Unreleased"));

    // Second initialization should not error but should warn
    assert!(changelog.init(true).unwrap().is_none());
}

#[test]
fn test_changelog_to_markdown() {
    let gh = set_test_github_repo(None, None);
    let content = r#"# Changelog
All notable changes to this project will be documented in this file.

## [Unreleased]

## [1.0.0] - 2025-01-01

### Added

- First release
- Cool new feature
"#;
    let markdown = render(content, &gh);

    let expected = r#"# Changelog
All notable changes to this project will be documented in this file.

## Unreleased

## 1.0.0 - 2025-01-01

### Added

- First release
- Cool new feature
"#;
    assert_eq!(markdown, expected);
}

#[test]
fn test_fmt_is_idempotent() {
    let gh = set_test_github_repo(None, None);
    let initial_content = r#"# Changelog

## [Unreleased]

### Added
- Feature A

## [1.0.0] - 2025-01-01

### Added
- Initial release"#;

    // First format without GitHub links
    let first_format = render(initial_content, &gh);

    // Second format without GitHub links
    let second_format = render(&first_format, &gh);

    // Formats should be identical without GitHub links (ignoring trailing whitespace)
    assert_eq!(first_format.trim_end(), second_format.trim_end());

    // Now test with GitHub links
    let gh = set_test_github_repo(Some("owner".to_string()), Some("repo".to_string()));

    // First format with GitHub links
    let github_format = render(initial_content, &gh);

    // Second format with GitHub links
    let github_second_format = render(&github_format, &gh);

    // Formats should be identical with GitHub links (ignoring trailing whitespace)
    assert_eq!(github_format.trim_end(), github_second_format.trim_end());

    // Verify GitHub links are present
    assert!(github_format.contains("//github.com/owner/repo"));
    assert!(github_format
        .contains("[Unreleased]: https://github.com/owner/repo/compare/v1.0.0...HEAD"));
    assert!(github_format.contains("[1.0.0]: https://github.com/owner/repo/releases/tag/v1.0.0"));
}

#[test]
fn test_changelog_format_exact() {
    let gh = set_test_github_repo(None, None);
    let input = r#"# Changelog

## [Unreleased]

### Added

- stuff

### Changed

### Deprecated

### Removed

### Fixed

### Security

## [1.0.0]

### Added

- things"#;

    let expected = r#"# Changelog

## Unreleased

### Added

- stuff

## 1.0.0

### Added

- things
"#;

    let markdown = render(input, &gh);
    assert_eq!(markdown, expected);
}

#[test]
fn test_changelog_format_with_date() {
    let gh = set_test_github_repo(None, None);
    let input = r#"# Changelog

## [1.0.0] - 2025-02-06

### Added
- Initial release"#;

    let expected = r#"# Changelog

## 1.0.0 - 2025-02-06

### Added
- Initial release
"#;

    let markdown = render(input, &gh);
    assert_eq!(markdown, expected);
}

#[test]
fn test_add_entry_to_section() {
    let changelog = Changelog::new();
    let content = r#"# Changelog

## [Unreleased]

### Added

- one
- two

### Changed

- changed

## [1.0.0] - 2000-01-01

### Added

- something
"#;

    // Add new entry
    let content = changelog
        .add(Some(content), "three", &ChangeType::Added, None, None, None)
        .unwrap();

    // Verify result
    let expected = r#"# Changelog

## Unreleased

### Added

- one
- two
- three

### Changed

- changed

## 1.0.0 - 2000-01-01

### Added

- something
"#;
    assert_eq!(content, expected);
}

#[test]
fn test_preserve_original_header_custom() {
    let input = r#"Custom Header Line 1
Custom Header Line 2

## [Unreleased]

### Added

- entry
"#;
    let markdown = render(input, &None);
    assert!(markdown.contains("Custom Header Line 1"));
    assert!(markdown.contains("Custom Header Line 2"));
}

#[test]
fn test_add_entry_creates_missing_section() {
    let changelog = Changelog::new();
    let content = r#"# Changelog

## [Unreleased]

### Changed

- something changed

## [1.0.0] - 2000-01-01

### Added

- something
"#;

    // Add new entry that requires Added section
    let content = changelog
        .add(Some(content), "new feature", &ChangeType::Added, None, None, None)
        .unwrap();

    // Verify result
    let expected = r#"# Changelog

## Unreleased

### Added

- new feature

### Changed

- something changed

## 1.0.0 - 2000-01-01

### Added

- something
"#;
    assert_eq!(content, expected);
}

#[test]
fn test_remove_markdown_links() {
    let content = r#"### Added
- Feature A

[0.1.0]: https://remove.me
[example]: https://keep.me
[1.0.0]: https://remove.me/too"#;

    let versions = vec!["0.1.0".to_string(), "1.0.0".to_string()];
    let result = remove_markdown_links(content, &versions);

    assert_eq!(
        result,
        r#"### Added
- Feature A

[example]: https://keep.me"#
    );
}

#[test]
fn test_search_replace_block_format() {
    let gh = set_test_github_repo(Some("owner".to_string()), Some("repo".to_string()));
    let input = r#"# Changelog

## [Unreleased]

### Added
- New feature

## [1.0.0] - 2025-01-01

### Added
- Initial release

[Unreleased]: //incorrect/link
[1.0.0]: //incorrect/link
[0.9.0]: //incorrect/link
"#;
    let markdown = render(input, &gh);

    // Verify the markdown link definitions are removed and regenerated correctly
    assert!(!markdown.contains("//incorrect/link"));
    assert!(markdown.contains("[Unreleased]: https://github.com/owner/repo/compare/v1.0.0...HEAD"));
    assert!(markdown.contains("[1.0.0]: https://github.com/owner/repo/releases/tag/v1.0.0"));
    assert!(!markdown.contains("[0.9.0]:")); // Versions not in changelog should be removed
}

#[test]
fn test_update_incorrect_links() {
    let gh = set_test_github_repo(Some("owner".to_string()), Some("repo".to_string()));
    let input = r#"# Changelog

## [Unreleased]

### Added
- New feature

## [1.0.0] - 2025-01-01

### Added
- Initial release

[Unreleased]: //incorrect/link
[1.0.0]: //incorrect/link
"#;
    let markdown = render(input, &gh);
    let expected = r#"# Changelog

## [Unreleased]

### Added
- New feature

## [1.0.0] - 2025-01-01

### Added
- Initial release

[Unreleased]: https://github.com/owner/repo/compare/v1.0.0...HEAD
[1.0.0]: https://github.com/owner/repo/releases/tag/v1.0.0
"#;
    assert_eq!(markdown, expected);
}

#[test]
fn test_multiline_changelog_entries() {
    let changelog = Changelog::new();
    let content = r#"# Changelog

## Unreleased

### Added

- some change
- this entry
  has multiple lines
- this one does not

"#;

    // Add new entry - this should not break multiline entries
    let content = changelog
        .add(Some(content), "new single line entry", &ChangeType::Added, None, None, None)
        .unwrap();

    // The multiline entry should still exist with proper indentation
    assert!(content.contains("- this entry\n  has multiple lines"));
    assert!(content.contains("- new single line entry"));

    // Verify the structure is still intact
    let parsed = parse_releases(&content).unwrap();
    assert!(parsed.iter().any(|r| r.version == "Unreleased"));
}
