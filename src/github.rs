//! Names the GitHub cookbook works with: remote URLs of local clones,
//! `repo#number` recipe names, and the choice of a configured clone.
use vstd::prelude::*;

use crate::text::{
    find_char, first_index, has_prefix, has_suffix, parse_u64, parse_u64_spec, rsplit_once,
    rsplit_once_spec, strip_prefix, strip_suffix, trim, trimmed,
};

verus! {

/// `s` without a trailing `.git`.
pub open spec fn without_git_suffix(s: Seq<char>) -> Seq<char> {
    if has_suffix(s, ".git"@) {
        s.subrange(0, s.len() - 4)
    } else {
        s
    }
}

/// The `owner/repo` that `path` names, where it has a slash.
pub open spec fn owner_repo(path: Seq<char>) -> Option<Seq<char>> {
    let repo = without_git_suffix(path);
    if first_index(repo, '/') >= 0 {
        Some(repo)
    } else {
        None
    }
}

/// The `owner/repo` of a GitHub remote URL, in SSH (`git@github.com:`) or URL
/// form (`https://`, `http://` or `ssh://git@` before `github.com/`); `None`
/// for other hosts.
pub open spec fn github_remote(url: Seq<char>) -> Option<Seq<char>> {
    let u = trimmed(url);
    if has_prefix(u, "git@github.com:"@) {
        owner_repo(u.subrange("git@github.com:"@.len() as int, u.len() as int))
    } else if has_prefix(u, "https://github.com/"@) {
        owner_repo(u.subrange("https://github.com/"@.len() as int, u.len() as int))
    } else if has_prefix(u, "http://github.com/"@) {
        owner_repo(u.subrange("http://github.com/"@.len() as int, u.len() as int))
    } else if has_prefix(u, "ssh://git@github.com/"@) {
        owner_repo(u.subrange("ssh://git@github.com/"@.len() as int, u.len() as int))
    } else {
        None
    }
}

fn owner_repo_exec(path: &str) -> (r: Option<String>)
    ensures
        match r {
            Some(s) => owner_repo(path@) == Some(s@),
            None => owner_repo(path@) is None,
        },
{
    proof {
        reveal_strlit(".git");
    }
    let repo = match strip_suffix(path, ".git") {
        Some(p) => p,
        None => path,
    };
    match find_char(repo, '/') {
        Some(_) => Some(repo.to_owned()),
        None => None,
    }
}

/// Extracts `owner/repo` from a GitHub remote URL.
pub fn parse_github_remote(url: &str) -> (r: Option<String>)
    ensures
        match r {
            Some(s) => github_remote(url@) == Some(s@),
            None => github_remote(url@) is None,
        },
{
    let u = trim(url);
    if let Some(rest) = strip_prefix(u, "git@github.com:") {
        return owner_repo_exec(rest);
    }
    if let Some(rest) = strip_prefix(u, "https://github.com/") {
        return owner_repo_exec(rest);
    }
    if let Some(rest) = strip_prefix(u, "http://github.com/") {
        return owner_repo_exec(rest);
    }
    if let Some(rest) = strip_prefix(u, "ssh://git@github.com/") {
        return owner_repo_exec(rest);
    }
    None
}

/// Why a recipe name is not of the form `repo#number`.
#[derive(Debug, Clone, Copy, PartialEq, Eq, Structural)]
pub enum RecipeNameError {
    /// The name has no `#`.
    MissingHash,
    /// What follows the last `#` is not a number.
    InvalidNumber,
}

/// The repository and number that a recipe name `repo#number` holds, split
/// at its last `#`.
pub open spec fn recipe_name_parts(name: Seq<char>) -> Result<(Seq<char>, u64), RecipeNameError> {
    match rsplit_once_spec(name, '#') {
        None => Err(RecipeNameError::MissingHash),
        Some((repo, number)) => match parse_u64_spec(number) {
            Some(n) => Ok((repo, n)),
            None => Err(RecipeNameError::InvalidNumber),
        },
    }
}

/// Parses a recipe name like `repo#123` into `("repo", 123)`.
pub fn parse_recipe_name(name: &str) -> (r: Result<(&str, u64), RecipeNameError>)
    ensures
        match r {
            Ok((repo, n)) => recipe_name_parts(name@) == Ok::<(Seq<char>, u64), RecipeNameError>((repo@, n)),
            Err(e) => recipe_name_parts(name@) == Err::<(Seq<char>, u64), RecipeNameError>(e),
        },
{
    match rsplit_once(name, '#') {
        None => Err(RecipeNameError::MissingHash),
        Some((repo, number)) => match parse_u64(number) {
            Some(n) => Ok((repo, n)),
            None => Err(RecipeNameError::InvalidNumber),
        },
    }
}

/// A configured local clone of a GitHub repository.
#[derive(Debug, Clone, PartialEq, Eq)]
pub struct RepoConfig {
    /// `owner/repo`.
    pub repo: String,
    pub local_path: String,
}

/// What a GitHub item is.
#[derive(Debug, Clone, PartialEq, Eq)]
pub enum GithubItemKind {
    PullRequest { head_ref_name: String },
    Issue,
}

/// A pull request or issue found on GitHub.
#[derive(Debug, Clone, PartialEq, Eq)]
pub struct GithubItem {
    pub number: u64,
    pub title: String,
    pub repo: String,
    pub kind: GithubItemKind,
}

/// The repository name of `owner/repo`: what follows the last slash.
pub open spec fn short_repo_name(repo: Seq<char>) -> Seq<char> {
    match rsplit_once_spec(repo, '/') {
        Some((_, name)) => name,
        None => repo,
    }
}

/// Whether the configured clone `r` is the one `name` means.
pub open spec fn repo_matches(r: RepoConfig, name: Seq<char>) -> bool {
    short_repo_name(r.repo@) == name
}

/// The configured clones that `name` means, in order.
pub open spec fn matching_repos(repos: Seq<RepoConfig>, name: Seq<char>) -> Seq<RepoConfig>
    decreases repos.len(),
{
    if repos.len() == 0 {
        Seq::empty()
    } else if repo_matches(repos.last(), name) {
        matching_repos(repos.drop_last(), name).push(repos.last())
    } else {
        matching_repos(repos.drop_last(), name)
    }
}

/// Why no single configured clone was chosen.
#[derive(Debug, Clone, PartialEq, Eq)]
pub enum RepoSelectionError {
    /// No configured clone has the name.
    NotFound,
    /// `count` configured clones have it.
    Ambiguous { count: usize },
}

/// The one configured clone whose repository name is `repo_str`.
pub fn select_repo_config(repos: &Vec<RepoConfig>, repo_str: &str) -> (r: Result<
    RepoConfig,
    RepoSelectionError,
>)
    ensures
        matching_repos(repos@, repo_str@).len() == 1 ==> r == Ok::<
            RepoConfig,
            RepoSelectionError,
        >(matching_repos(repos@, repo_str@)[0]),
        matching_repos(repos@, repo_str@).len() == 0 ==> r == Err::<RepoConfig, RepoSelectionError>(
            RepoSelectionError::NotFound,
        ),
        matching_repos(repos@, repo_str@).len() > 1 ==> (r matches Err(
            RepoSelectionError::Ambiguous { count },
        ) && count == matching_repos(repos@, repo_str@).len()),
{
    let mut found: Vec<RepoConfig> = Vec::new();
    let mut i: usize = 0;
    assert(repos@.subrange(0, 0) =~= Seq::<RepoConfig>::empty());
    while i < repos.len()
        invariant
            i <= repos@.len(),
            found@ == matching_repos(repos@.subrange(0, i as int), repo_str@),
            found@.len() <= i,
        decreases repos@.len() - i,
    {
        let r = &repos[i];
        let short = match crate::text::rsplit_once(r.repo.as_str(), '/') {
            Some((_, name)) => name,
            None => r.repo.as_str(),
        };
        assert(repos@.subrange(0, i + 1).drop_last() =~= repos@.subrange(0, i as int));
        if crate::text::same_text(short, repo_str) {
            found.push(RepoConfig { repo: r.repo.clone(), local_path: r.local_path.clone() });
        }
        i = i + 1;
    }
    assert(repos@.subrange(0, repos@.len() as int) =~= repos@);
    let count = found.len();
    if count > 1 {
        Err(RepoSelectionError::Ambiguous { count })
    } else if count == 0 {
        Err(RepoSelectionError::NotFound)
    } else {
        Ok(found.remove(0))
    }
}

} // verus!
