//! Managing changelogs in the Keep a Changelog format: adding entries,
//! releasing versions, formatting, and answering questions about versions.
pub mod changelog;
pub mod entries;
pub mod external;
pub mod github;
pub mod laws;
pub mod markdown;
pub mod model;
pub mod review;
pub mod text;
pub mod versions;

pub use changelog::{credited_description, parse_releases, Changelog};
pub use github::{cli_token, env_token, github_repo_from_remote, pr_lookup_url, set_test_github_repo};
pub use markdown::{changelog_to_markdown, extract_header, remove_markdown_links};
pub use model::{ChangeType, ChangelogError, GithubRepo, PrCredit, Release};
pub use review::{
    ReviewAction, ReviewEvent, change_type_for_code, commit_summary, editor_text, parse_review_line, preselected, review_line,
};
pub use versions::bump_version;
