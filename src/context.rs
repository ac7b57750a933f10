//! What a command works with: configuration, adapter, notifier, cookbooks,
//! the environments on disk and the cached recipe text.
use vstd::prelude::*;

use crate::adapter::{EnwiroAdapterExternal, EnwiroAdapterTrait};
use crate::config::ConfigurationValues;
use crate::consumer::{cached_cookbook_for, cook_recipe, CookedRecipe};
use crate::environment::{environment_index, Environment, EnvironmentError};
use crate::notifier::Notifier;
use crate::recipe::{CookbookError, CookbookTrait};
use crate::text::lines_of;

verus! {

/// The state a command runs against.
pub struct CommandContext {
    pub config: ConfigurationValues,
    pub adapter: Box<dyn EnwiroAdapterTrait>,
    pub notifier: Box<dyn Notifier>,
    pub cookbooks: Vec<Box<dyn CookbookTrait>>,
    /// The environments found in the workspaces directory.
    pub environments: Vec<Environment>,
    /// The cached recipe text, where the cache was usable.
    pub cached_recipes: Option<String>,
}

/// The adapter plugin the configuration names, if any.
pub fn configured_adapter(config: &ConfigurationValues) -> (r: Option<EnwiroAdapterExternal>)
    ensures
        config.adapter is None <==> r is None,
        r matches Some(a) ==> (config.adapter matches Some(n) && a.adapter_command@
            == "enwiro-adapter-"@ + n@),
{
    match &config.adapter {
        None => None,
        Some(name) => Some(EnwiroAdapterExternal::new(name.as_str())),
    }
}

/// How an environment came to be there.
#[derive(Debug, Clone, PartialEq, Eq)]
pub enum ResolvedEnvironment {
    /// It was already in the workspaces directory.
    Existing(Environment),
    /// It was cooked from a recipe; its directory is still to be linked to the
    /// path cooking gave.
    Cooked(CookedRecipe),
}

impl CommandContext {
    pub fn new(
        config: ConfigurationValues,
        adapter: Box<dyn EnwiroAdapterTrait>,
        notifier: Box<dyn Notifier>,
        cookbooks: Vec<Box<dyn CookbookTrait>>,
        environments: Vec<Environment>,
        cached_recipes: Option<String>,
    ) -> (r: CommandContext)
        ensures
            r.config == config,
            r.cookbooks@ == cookbooks@,
            r.environments@ == environments@,
            r.cached_recipes == cached_recipes,
    {
        CommandContext { config, adapter, notifier, cookbooks, environments, cached_recipes }
    }

    /// The environment named `name`, or where no name is given, the one the
    /// adapter reports active.
    pub fn get_environment(&self, name: &Option<String>) -> (r: Result<
        Environment,
        EnvironmentError,
    >)
        ensures
            name matches Some(n) ==> (environment_index(self.environments@, n@) >= 0 ==> r
                == Ok::<Environment, EnvironmentError>(
                self.environments@[environment_index(self.environments@, n@)],
            )),
            name matches Some(n) ==> (environment_index(self.environments@, n@) < 0 ==> r is Err),
    {
        match name {
            Some(n) => Environment::get_one(&self.environments, n.as_str()),
            None => match self.adapter.get_active_environment_name() {
                Ok(n) => Environment::get_one(&self.environments, n.as_str()),
                Err(e) => Err(EnvironmentError::NoActiveEnvironment { message: e.message }),
            },
        }
    }

    /// The environment named `name`: the existing one, else one cooked from
    /// the recipe of that name, with the cached recipe text's help.
    pub fn get_or_cook_environment(&self, name: &str) -> (r: Result<
        ResolvedEnvironment,
        CookbookError,
    >)
        ensures
            environment_index(self.environments@, name@) >= 0 ==> (r matches Ok(
                ResolvedEnvironment::Existing(e),
            ) && e == self.environments@[environment_index(self.environments@, name@)]),
            r matches Ok(ResolvedEnvironment::Cooked(c)) ==> environment_index(
                self.environments@,
                name@,
            ) < 0 && (c.from_cache ==> (self.cached_recipes matches Some(t)
                && cached_cookbook_for(lines_of(t@), name@) == Some(c.cookbook@))),
    {
        match Environment::get_one(&self.environments, name) {
            Ok(e) => Ok(ResolvedEnvironment::Existing(e)),
            Err(_) => {
                let cache = match &self.cached_recipes {
                    Some(t) => Some(t.as_str()),
                    None => None,
                };
                match cook_recipe(self.cookbooks.as_slice(), cache, name) {
                    Ok(c) => Ok(ResolvedEnvironment::Cooked(c)),
                    Err(e) => Err(e),
                }
            },
        }
    }

    /// The environments in the workspaces directory.
    pub fn get_all_environments(&self) -> (r: &Vec<Environment>)
        ensures
            r@ == self.environments@,
    {
        &self.environments
    }

    /// The installed cookbooks.
    pub fn get_cookbooks(&self) -> (r: &Vec<Box<dyn CookbookTrait>>)
        ensures
            r@ == self.cookbooks@,
    {
        &self.cookbooks
    }
}

} // verus!
