//! GitHub: the repository a remote address names, and where its pull
//! requests are looked up.
use vstd::prelude::*;

use crate::model::GithubRepo;
use crate::text::{
    after, after_of, append_str, before, before_of, chars_of, contains, contains_str, second_piece,
    second_piece_of, starts_with, has_prefix_str, string_of, strip_prefixes, strip_prefixes_of,
    strip_suffixes, strip_suffixes_of, trim, trim_of,
};

verus! {

broadcast use vstd::string::group_string_axioms;

/// The `owner/name...` part of a GitHub remote address, without `.git`:
/// after the SSH prefix `git@github.com:`, or between the first and second
/// `github.com/` of an address that mentions `github.com`.
pub open spec fn remote_path(url: Seq<char>) -> Option<Seq<char>> {
    if starts_with(url, "git@github.com:"@) {
        Some(strip_suffixes(strip_prefixes(url, "git@github.com:"@), ".git"@))
    } else if contains(url, "github.com"@) {
        match second_piece(url, "github.com/"@) {
            Some(p) => Some(strip_suffixes(p, ".git"@)),
            None => None,
        }
    } else {
        None
    }
}

/// The (owner, name) that a remote address names: the first two `/`-separated
/// parts of its path.
pub open spec fn repo_of_remote(url: Seq<char>) -> Option<(Seq<char>, Seq<char>)> {
    match remote_path(url) {
        Some(p) => match after(p, "/"@) {
            Some(rest) => Some((before(p, "/"@), before(rest, "/"@))),
            None => None,
        },
        None => None,
    }
}

fn remote_path_of(url: &Vec<char>) -> (r: Option<Vec<char>>)
    ensures
        match r {
            Some(p) => remote_path(url@) == Some(p@),
            None => remote_path(url@) is None,
        },
{
    let git = chars_of(".git");
    if has_prefix_str(url, "git@github.com:") {
        let prefix = chars_of("git@github.com:");
        let rest = strip_prefixes_of(url, &prefix);
        Some(strip_suffixes_of(&rest, &git))
    } else if contains_str(url, "github.com") {
        let marker = chars_of("github.com/");
        match second_piece_of(url, &marker) {
            Some(p) => Some(strip_suffixes_of(&p, &git)),
            None => None,
        }
    } else {
        None
    }
}

/// The GitHub repository that a git remote address names, for SSH
/// (`git@github.com:owner/name.git`) and HTTPS (`https://github.com/owner/name`)
/// addresses; nothing for other hosts or a path without a `/`.
pub fn github_repo_from_remote(url: &str) -> (r: Option<GithubRepo>)
    ensures
        match r {
            Some(g) => repo_of_remote(url@) == Some((g.owner@, g.repo@)),
            None => repo_of_remote(url@) is None,
        },
{
    let u = chars_of(url);
    let p = match remote_path_of(&u) {
        Some(p) => p,
        None => {
            return None;
        },
    };
    let slash = chars_of("/");
    match after_of(&p, &slash) {
        Some(rest) => {
            let owner = before_of(&p, &slash);
            let repo = before_of(&rest, &slash);
            Some(GithubRepo { owner: string_of(&owner), repo: string_of(&repo) })
        },
        None => None,
    }
}

/// The repository setting of a test run: both parts or nothing.
pub fn set_test_github_repo(owner: Option<String>, repo: Option<String>) -> (r: Option<GithubRepo>)
    ensures
        match (owner, repo) {
            (Some(o), Some(n)) => r matches Some(g) && g.owner == o && g.repo == n,
            _ => r is None,
        },
{
    match (owner, repo) {
        (Some(o), Some(n)) => Some(GithubRepo { owner: o, repo: n }),
        _ => None,
    }
}

/// The token that the environment gives: `GH_TOKEN` when it is set and not
/// empty, else `GITHUB_TOKEN` when it is set and not empty.
pub open spec fn env_token_spec(gh_token: Option<Seq<char>>, github_token: Option<Seq<char>>) -> Option<
    Seq<char>,
> {
    match gh_token {
        Some(t) if t.len() > 0 => Some(t),
        _ => match github_token {
            Some(t) if t.len() > 0 => Some(t),
            _ => None,
        },
    }
}

/// The GitHub token from the values of the `GH_TOKEN` and `GITHUB_TOKEN`
/// environment variables: the first that is set and not empty.
pub fn env_token(gh_token: Option<&str>, github_token: Option<&str>) -> (r: Option<String>)
    ensures
        match r {
            Some(t) => env_token_spec(crate::changelog::opt_str(gh_token), crate::changelog::opt_str(github_token))
                == Some(t@),
            None => env_token_spec(crate::changelog::opt_str(gh_token), crate::changelog::opt_str(github_token))
                is None,
        },
{
    if let Some(t) = gh_token {
        if t.unicode_len() > 0 {
            return Some(String::from_str(t));
        }
    }
    if let Some(t) = github_token {
        if t.unicode_len() > 0 {
            return Some(String::from_str(t));
        }
    }
    None
}

/// The GitHub token that `gh auth token` printed: its output without
/// surrounding whitespace, when that is not empty.
pub fn cli_token(output: &str) -> (r: Option<String>)
    ensures
        match r {
            Some(t) => trim(output@).len() > 0 && t@ == trim(output@),
            None => trim(output@).len() == 0,
        },
{
    let t = trim_of(&chars_of(output));
    if t.len() > 0 {
        Some(string_of(&t))
    } else {
        None
    }
}

/// The GitHub API address that lists the pull requests of a commit.
pub fn pr_lookup_url(owner: &str, repo: &str, commit_sha: &str) -> (r: String)
    ensures
        r@ == "https://api.github.com/repos/"@ + owner@ + "/"@ + repo@ + "/commits/"@ + commit_sha@
            + "/pulls"@,
{
    let mut s = chars_of("https://api.github.com/repos/");
    append_str(&mut s, owner);
    append_str(&mut s, "/");
    append_str(&mut s, repo);
    append_str(&mut s, "/commits/");
    append_str(&mut s, commit_sha);
    append_str(&mut s, "/pulls");
    string_of(&s)
}

} // verus!
