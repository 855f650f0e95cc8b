# changelog

A library and command line tool for changelogs in the
[Keep a Changelog](https://keepachangelog.com) format: adding entries,
releasing versions with semantic-version bumps, formatting, reviewing git
commits into entries, and answering questions about versions.

The library in `src/` is written in Verus. Its functions carry contracts that
Verus proves, except the few trusted ones that call outside code: the calls
into `parse-changelog`, `semver`, `similar`, `git-conventional` and `indexmap`
in `external.rs`, and `String::push` in `text.rs`. Their contracts are
believed, not proved, and their doc comments say what they claim.

- `text.rs`: the string operations the rest is built from, stated over
  `Seq<char>` (lines, trimming, searching, joining).
- `model.rs`: change types, releases, pull request credits, errors.
- `external.rs`: the calls into `parse-changelog`, `semver`, `similar`,
  `git-conventional` and `indexmap`, with the contracts that are trusted.
- `markdown.rs`: rendering a parsed changelog back to Markdown.
- `entries.rs`: adding an entry to the notes of a release.
- `changelog.rs`, `versions.rs`, `review.rs`: the operations of the tool.
- `github.rs`: GitHub remote addresses and the pull request lookup address.
- `laws.rs`: properties that relate the operations.

Operations take the changelog text (or `None` when the file is missing) and
return the new text or the answer; `app/main.rs` reads and writes the file,
talks to git, GitHub, the terminal and the editor, and prints.
