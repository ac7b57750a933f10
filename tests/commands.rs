use std::cell::RefCell;
use std::rc::Rc;

use enwiro::adapter::{
    environment_from_adapter_output, lens_from_adapter_output, AdapterError, EnwiroAdapterExternal,
    EnwiroAdapterNone, EnwiroAdapterTrait,
};
use enwiro::client::CookbookClient;
use enwiro::commands::{activate, list_all, list_environments, show_path, ActivateArgs, ShowPathArgs};
use enwiro::config::{default_configuration, ConfigurationValues};
use enwiro::context::{configured_adapter, CommandContext, ResolvedEnvironment};
use enwiro::environment::{Environment, EnvironmentError};
use enwiro::github::{select_repo_config, RepoConfig, RepoSelectionError};
use enwiro::notifier::Notifier;
use enwiro::plugin::{Plugin, PluginKind};
use enwiro::recipe::{CookbookError, CookbookMetadata, CookbookTrait, Recipe};
use enwiro::usage::EnvStats;

struct StubAdapter {
    active: Option<String>,
    fail_activation: bool,
}

impl EnwiroAdapterTrait for StubAdapter {
    fn get_active_environment_name(&self) -> Result<String, AdapterError> {
        self.active.clone().ok_or(AdapterError {
            message: "none".to_string(),
        })
    }
    fn get_active_lens_name(&self) -> Result<String, AdapterError> {
        Ok(String::new())
    }
    fn activate(&self, _name: &str) -> Result<(), AdapterError> {
        if self.fail_activation {
            Err(AdapterError {
                message: "no window manager".to_string(),
            })
        } else {
            Ok(())
        }
    }
}

struct LogNotifier(Rc<RefCell<Vec<String>>>);

impl Notifier for LogNotifier {
    fn notify_success(&self, message: &str) {
        self.0.borrow_mut().push(format!("ok: {}", message));
    }
    fn notify_error(&self, message: &str) {
        self.0.borrow_mut().push(format!("error: {}", message));
    }
}

struct Book {
    name: String,
    recipes: Vec<String>,
}

impl CookbookTrait for Book {
    fn list_recipes(&self) -> Result<Vec<Recipe>, CookbookError> {
        Ok(self.recipes.iter().map(|r| Recipe::new(r)).collect())
    }
    fn cook(&self, recipe: &str) -> Result<String, CookbookError> {
        Ok(format!("/src/{}", recipe))
    }
    fn name(&self) -> &str {
        &self.name
    }
}

fn env(name: &str) -> Environment {
    Environment {
        path: format!("/envs/{}", name),
        name: name.to_string(),
    }
}

fn context(
    active: Option<&str>,
    fail_activation: bool,
    cached: Option<&str>,
) -> (CommandContext, Rc<RefCell<Vec<String>>>) {
    let log = Rc::new(RefCell::new(Vec::new()));
    let config = ConfigurationValues {
        workspaces_directory: "/envs".to_string(),
        adapter: None,
    };
    let cookbooks: Vec<Box<dyn CookbookTrait>> = vec![Box::new(Book {
        name: "git".to_string(),
        recipes: vec!["repo-a".to_string(), "my-env".to_string()],
    })];
    let ctx = CommandContext::new(
        config,
        Box::new(StubAdapter {
            active: active.map(|s| s.to_string()),
            fail_activation,
        }),
        Box::new(LogNotifier(Rc::clone(&log))),
        cookbooks,
        vec![env("my-env"), env("other")],
        cached.map(|s| s.to_string()),
    );
    (ctx, log)
}

#[test]
fn list_environments_prints_one_name_per_line() {
    let (ctx, _) = context(None, false, None);
    assert_eq!(list_environments(&ctx), "my-env\nother\n");
}

#[test]
fn show_path_by_name_and_by_adapter() {
    let (ctx, _) = context(Some("other"), false, None);
    let named = ShowPathArgs {
        environment_name: Some("my-env".to_string()),
    };
    assert_eq!(show_path(&ctx, named), Ok("/envs/my-env".to_string()));
    let active = ShowPathArgs {
        environment_name: None,
    };
    assert_eq!(show_path(&ctx, active), Ok("/envs/other".to_string()));
    let missing = ShowPathArgs {
        environment_name: Some("nope".to_string()),
    };
    assert_eq!(
        show_path(&ctx, missing),
        Err(EnvironmentError::NotFound {
            name: "nope".to_string()
        })
    );
}

#[test]
fn environment_lookup_finds_first_of_that_name() {
    let envs = vec![env("a"), env("b")];
    assert_eq!(Environment::get_one(&envs, "b"), Ok(env("b")));
    assert!(Environment::get_one(&envs, "c").is_err());
    assert!(Environment::get_one(&vec![], "a").is_err());
}

#[test]
fn activate_existing_environment() {
    let (ctx, log) = context(None, false, None);
    let report = activate(
        &ctx,
        ActivateArgs {
            name: "my-env".to_string(),
        },
    )
    .unwrap();
    assert!(matches!(report.environment, Some(ResolvedEnvironment::Existing(ref e)) if e.name == "my-env"));
    assert_eq!(report.stats_key, "my-env");
    assert!(log.borrow().is_empty());
}

#[test]
fn activate_cooks_missing_environment_and_flattens_key() {
    let (ctx, _) = context(None, false, Some("git: owner/repo#1\n"));
    let report = activate(
        &ctx,
        ActivateArgs {
            name: "owner/repo#1".to_string(),
        },
    )
    .unwrap();
    match report.environment {
        Some(ResolvedEnvironment::Cooked(c)) => {
            assert_eq!(c.cookbook, "git");
            assert_eq!(c.path, "/src/owner/repo#1");
            assert!(c.from_cache);
        }
        _ => panic!("expected a cooked environment"),
    }
    assert_eq!(report.stats_key, "owner-repo#1");
}

#[test]
fn activate_reports_cooking_failure_and_goes_on() {
    let (ctx, log) = context(None, false, None);
    let report = activate(
        &ctx,
        ActivateArgs {
            name: "unknown".to_string(),
        },
    )
    .unwrap();
    assert!(report.environment.is_none());
    assert_eq!(
        log.borrow().as_slice(),
        ["error: Could not set up environment 'unknown': No recipe available to cook this environment."]
    );
}

#[test]
fn activate_fails_when_adapter_fails() {
    let (ctx, log) = context(None, true, None);
    let err = activate(
        &ctx,
        ActivateArgs {
            name: "my-env".to_string(),
        },
    )
    .err()
    .unwrap();
    assert_eq!(err.message, "no window manager");
    assert_eq!(
        log.borrow().as_slice(),
        ["error: Failed to activate workspace: no window manager"]
    );
}

#[test]
fn list_all_lists_environments_then_new_recipes() {
    let (ctx, _) = context(None, false, None);
    let listing = list_all(&ctx);
    assert!(!listing.from_cache);
    assert_eq!(listing.text, "_: my-env\n_: other\ngit: repo-a\n");
}

#[test]
fn list_all_uses_cached_text() {
    let (ctx, _) = context(None, false, Some("npm: pkg\n\ngit: other\tdesc\n"));
    let listing = list_all(&ctx);
    assert!(listing.from_cache);
    assert_eq!(listing.text, "_: my-env\n_: other\nnpm: pkg\n");
}

#[test]
fn adapters_are_chosen_from_configuration() {
    let none = ConfigurationValues {
        workspaces_directory: "/w".to_string(),
        adapter: None,
    };
    assert!(configured_adapter(&none).is_none());
    let i3 = ConfigurationValues {
        workspaces_directory: "/w".to_string(),
        adapter: Some("i3wm".to_string()),
    };
    assert_eq!(
        configured_adapter(&i3),
        Some(EnwiroAdapterExternal::new("i3wm"))
    );
    assert_eq!(
        EnwiroAdapterExternal::new("i3wm").adapter_command,
        "enwiro-adapter-i3wm"
    );
    let no_adapter = EnwiroAdapterNone {};
    assert!(no_adapter.get_active_environment_name().is_err());
    assert!(no_adapter.get_active_lens_name().is_err());
}

#[test]
fn adapter_output_splits_at_colons() {
    assert_eq!(environment_from_adapter_output("proj:lens"), "proj");
    assert_eq!(environment_from_adapter_output("proj"), "proj");
    assert_eq!(lens_from_adapter_output("proj:lens:x"), "lens");
    assert_eq!(lens_from_adapter_output("proj"), "");
}

fn plugin(name: &str, kind: PluginKind) -> Plugin {
    Plugin {
        name: name.to_string(),
        kind,
        executable: format!("enwiro-x-{}", name),
    }
}

#[test]
fn default_configuration_picks_single_adapter() {
    let one = vec![plugin("i3wm", PluginKind::Adapter)];
    let config = default_configuration("/home/me", &one);
    assert_eq!(config.workspaces_directory, "/home/me/.enwiro_envs");
    assert_eq!(config.adapter, Some("i3wm".to_string()));
    let two = vec![plugin("a", PluginKind::Adapter), plugin("b", PluginKind::Adapter)];
    assert_eq!(default_configuration("/home/me", &two).adapter, None);
    assert_eq!(default_configuration("/home/me", &vec![]).adapter, None);
}

#[test]
fn cookbook_client_reads_plugin_output() {
    let client = CookbookClient::new(
        plugin("git", PluginKind::Cookbook),
        CookbookMetadata {
            description: None,
            default_priority: Some(10),
        },
    );
    assert_eq!(client.name(), "git");
    assert_eq!(client.priority(), 10);
    let recipes = client.recipes_from_output(true, "a\nb\tdesc\n", "").unwrap();
    assert_eq!(recipes, vec![Recipe::new("a"), Recipe::with_description("b", "desc")]);
    let err = client.recipes_from_output(false, "", "boom").unwrap_err();
    assert_eq!(err.message, "Cookbook 'git' failed to list recipes: boom");
    assert_eq!(
        client.cooked_path_from_output("a", true, "  /path/a\n", ""),
        Ok("/path/a".to_string())
    );
    let err = client.cooked_path_from_output("a", false, "", "bad").unwrap_err();
    assert_eq!(err.message, "Cookbook 'git' failed to cook 'a': bad");
    let plain = CookbookClient::new(plugin("x", PluginKind::Cookbook), CookbookMetadata::default());
    assert_eq!(plain.priority(), 50);
}

fn repo(name: &str) -> RepoConfig {
    RepoConfig {
        repo: name.to_string(),
        local_path: format!("/code/{}", name),
    }
}

#[test]
fn repo_config_selection() {
    let repos = vec![repo("kantord/enwiro"), repo("expressjs/express"), repo("other/express")];
    assert_eq!(select_repo_config(&repos, "enwiro"), Ok(repo("kantord/enwiro")));
    assert_eq!(
        select_repo_config(&repos, "express"),
        Err(RepoSelectionError::Ambiguous { count: 2 })
    );
    assert_eq!(select_repo_config(&repos, "nope"), Err(RepoSelectionError::NotFound));
    assert_eq!(select_repo_config(&vec![repo("plain")], "plain"), Ok(repo("plain")));
}

#[test]
fn env_stats_record_activation_and_cook_metadata() {
    let mut stats = EnvStats::default();
    stats.record_activation(1_000);
    stats.record_activation(2_000);
    assert_eq!(stats.activation_count, 2);
    assert_eq!(stats.last_activated, 2_000);
    stats.record_cook_metadata("git", Some("My project"));
    assert_eq!(stats.cookbook.as_deref(), Some("git"));
    assert_eq!(stats.description.as_deref(), Some("My project"));
    stats.record_cook_metadata("github", None);
    assert_eq!(stats.cookbook.as_deref(), Some("github"));
    assert_eq!(stats.description.as_deref(), Some("My project"));
    assert_eq!(stats.activation_count, 2);
    let mut full = EnvStats {
        last_activated: 0,
        activation_count: u64::MAX,
        description: None,
        cookbook: None,
    };
    full.record_activation(5);
    assert_eq!(full.activation_count, u64::MAX);
}
