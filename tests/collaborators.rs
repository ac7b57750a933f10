use enwiro::github::{parse_github_remote, parse_recipe_name, RecipeNameError};
use enwiro::plugin::{plugins_among, PluginKind};
use enwiro::selection::extract_recipe_name;
use enwiro::workspace::{build_workspace_command, extract_environment_name};

#[test]
fn test_workspace_command_with_semicolon_is_quoted() {
    let cmd = build_workspace_command("1: evil;exec rm -rf /");
    assert!(
        cmd.starts_with(r#"workspace ""#) && cmd.ends_with('"'),
        "Workspace name with semicolon must be quoted: {cmd}"
    );
}

#[test]
fn test_workspace_command_with_quote_is_safe() {
    let cmd = build_workspace_command(r#"1: has"quote"#);
    assert!(
        cmd.starts_with(r#"workspace ""#) && cmd.ends_with('"'),
        "Workspace name should be quoted in the i3 command: {cmd}"
    );
}

#[test]
fn test_workspace_command_with_backslash_quote_does_not_inject() {
    let cmd = build_workspace_command(r#"1: evil\";exec bad"#);
    let inner = cmd
        .strip_prefix(r#"workspace ""#)
        .and_then(|s| s.strip_suffix('"'))
        .expect("Command should be wrapped in workspace \"...\"");
    let mut chars = inner.chars().peekable();
    while let Some(ch) = chars.next() {
        if ch == '\\' {
            chars.next();
        } else {
            assert_ne!(
                ch, '"',
                "Found unescaped quote in workspace command interior: {cmd}"
            );
        }
    }
}

#[test]
fn workspace_command_exact_escaping() {
    assert_eq!(
        build_workspace_command(r#"1: evil\";exec bad"#),
        r#"workspace "1: evil\\\";exec bad""#
    );
    assert_eq!(build_workspace_command("2: plain"), r#"workspace "2: plain""#);
    assert_eq!(build_workspace_command(""), r#"workspace """#);
}

#[test]
fn test_extract_plain_environment_name() {
    assert_eq!(extract_environment_name("1: my-project"), "my-project");
}

#[test]
fn test_extract_empty_for_numbered_workspace() {
    assert_eq!(extract_environment_name("1"), "");
}

#[test]
fn test_extract_name_containing_workspace_number() {
    assert_eq!(extract_environment_name("1: project1"), "project1");
}

#[test]
fn test_extract_name_containing_workspace_number_in_middle() {
    assert_eq!(extract_environment_name("3: a3b"), "a3b");
}

#[test]
fn test_extract_recipe_name_strips_source_column() {
    assert_eq!(extract_recipe_name("git\tmy-project\t"), "my-project");
}

#[test]
fn test_extract_recipe_name_strips_description_column() {
    assert_eq!(
        extract_recipe_name("github\towner/repo#42\tFix auth bug"),
        "owner/repo#42"
    );
}

#[test]
fn test_extract_recipe_name_without_tab() {
    assert_eq!(extract_recipe_name("my-project"), "my-project");
}

#[test]
fn test_parse_recipe_name_valid() {
    let (repo, number) = parse_recipe_name("enwiro#42").unwrap();
    assert_eq!(repo, "enwiro");
    assert_eq!(number, 42);
}

#[test]
fn test_parse_recipe_name_large_number() {
    let (repo, number) = parse_recipe_name("next.js#12345").unwrap();
    assert_eq!(repo, "next.js");
    assert_eq!(number, 12345);
}

#[test]
fn test_parse_recipe_name_no_hash() {
    let result = parse_recipe_name("enwiro");
    assert!(result.is_err());
}

#[test]
fn test_parse_recipe_name_invalid_number() {
    let result = parse_recipe_name("enwiro#abc");
    assert!(result.is_err());
}

#[test]
fn recipe_name_errors_and_last_hash() {
    assert_eq!(parse_recipe_name("enwiro"), Err(RecipeNameError::MissingHash));
    assert_eq!(parse_recipe_name("enwiro#abc"), Err(RecipeNameError::InvalidNumber));
    assert_eq!(parse_recipe_name("a#b#7"), Ok(("a#b", 7)));
    assert_eq!(parse_recipe_name("x#"), Err(RecipeNameError::InvalidNumber));
}

#[test]
fn test_parse_github_remote_ssh() {
    assert_eq!(
        parse_github_remote("git@github.com:kantord/enwiro.git"),
        Some("kantord/enwiro".to_string())
    );
}

#[test]
fn test_parse_github_remote_https_with_git_suffix() {
    assert_eq!(
        parse_github_remote("https://github.com/kantord/enwiro.git"),
        Some("kantord/enwiro".to_string())
    );
}

#[test]
fn test_parse_github_remote_https_without_git_suffix() {
    assert_eq!(
        parse_github_remote("https://github.com/kantord/enwiro"),
        Some("kantord/enwiro".to_string())
    );
}

#[test]
fn test_parse_github_remote_ssh_protocol() {
    assert_eq!(
        parse_github_remote("ssh://git@github.com/kantord/enwiro.git"),
        Some("kantord/enwiro".to_string())
    );
}

#[test]
fn test_parse_github_remote_gitlab_returns_none() {
    assert_eq!(
        parse_github_remote("git@gitlab.com:kantord/project.git"),
        None
    );
}

#[test]
fn test_parse_github_remote_empty_string() {
    assert_eq!(parse_github_remote(""), None);
}

#[test]
fn github_remote_edge_cases() {
    assert_eq!(
        parse_github_remote("  http://github.com/a/b \n"),
        Some("a/b".to_string())
    );
    assert_eq!(parse_github_remote("https://github.com/just-owner"), None);
    assert_eq!(parse_github_remote("git@github.com:owner.git"), None);
}

#[test]
fn plugins_are_found_by_prefix_once_each() {
    let exes: Vec<String> = [
        "enwiro-cookbook-git",
        "ls",
        "enwiro-adapter-i3wm",
        "enwiro-cookbook-github",
        "enwiro-cookbook-git",
    ]
    .iter()
    .map(|s| s.to_string())
    .collect();
    let cookbooks = plugins_among(&exes, PluginKind::Cookbook);
    let names: Vec<&str> = cookbooks.iter().map(|p| p.name.as_str()).collect();
    assert_eq!(names, vec!["git", "github"]);
    assert_eq!(cookbooks[0].executable, "enwiro-cookbook-git");
    let adapters = plugins_among(&exes, PluginKind::Adapter);
    assert_eq!(adapters.len(), 1);
    assert_eq!(adapters[0].name, "i3wm");
    assert_eq!(adapters[0].kind, PluginKind::Adapter);
}
