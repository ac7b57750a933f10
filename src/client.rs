//! The cookbook client that speaks to a plugin executable: what its
//! subcommands' results mean. Running the executable is left to the caller.
use vstd::prelude::*;

use crate::plugin::Plugin;
use crate::recipe::{
    metadata_priority, parse_recipe_listing, recipes_of_output, CookbookError, CookbookMetadata,
    Recipe,
};
use crate::text::{trim, trimmed};

verus! {

/// A cookbook plugin and the metadata it reported.
pub struct CookbookClient {
    pub plugin: Plugin,
    pub metadata: CookbookMetadata,
}

/// The message for a failed `list-recipes`.
pub open spec fn list_failure_message(cookbook: Seq<char>, stderr: Seq<char>) -> Seq<char> {
    "Cookbook '"@ + cookbook + "' failed to list recipes: "@ + stderr
}

/// The message for a failed `cook`.
pub open spec fn cook_failure_message(cookbook: Seq<char>, recipe: Seq<char>, stderr: Seq<char>) -> Seq<
    char,
> {
    "Cookbook '"@ + cookbook + "' failed to cook '"@ + recipe + "': "@ + stderr
}

impl CookbookClient {
    /// The client of `plugin`, which reported `metadata`; where the plugin has
    /// no `metadata` subcommand, or it failed, the metadata is the default.
    pub fn new(plugin: Plugin, metadata: CookbookMetadata) -> (r: CookbookClient)
        ensures
            r.plugin == plugin,
            r.metadata == metadata,
    {
        CookbookClient { plugin, metadata }
    }

    /// The cookbook's name: the plugin's.
    pub fn name(&self) -> (r: &str)
        ensures
            r@ == self.plugin.name@,
    {
        self.plugin.name.as_str()
    }

    /// The cookbook's priority: the one its metadata names, else the default.
    pub fn priority(&self) -> (r: u32)
        ensures
            r == metadata_priority(self.metadata.default_priority),
    {
        self.metadata.priority()
    }

    /// What a run of `list-recipes` means: its recipes where it succeeded,
    /// else an error carrying its standard error.
    pub fn recipes_from_output(&self, success: bool, stdout: &str, stderr: &str) -> (r: Result<
        Vec<Recipe>,
        CookbookError,
    >)
        ensures
            success ==> (r matches Ok(v) && v@.map_values(|x: Recipe| x@) == recipes_of_output(
                stdout@,
            )),
            !success ==> (r matches Err(e) && e.message@ == list_failure_message(
                self.plugin.name@,
                stderr@,
            )),
    {
        if success {
            Ok(parse_recipe_listing(stdout))
        } else {
            let mut message = "Cookbook '".to_owned();
            message.append(self.plugin.name.as_str());
            message.append("' failed to list recipes: ");
            message.append(stderr);
            Err(CookbookError { message })
        }
    }

    /// What a run of `cook <recipe>` means: the path it printed, trimmed,
    /// where it succeeded, else an error carrying its standard error.
    pub fn cooked_path_from_output(
        &self,
        recipe: &str,
        success: bool,
        stdout: &str,
        stderr: &str,
    ) -> (r: Result<String, CookbookError>)
        ensures
            success ==> (r matches Ok(p) && p@ == trimmed(stdout@)),
            !success ==> (r matches Err(e) && e.message@ == cook_failure_message(
                self.plugin.name@,
                recipe@,
                stderr@,
            )),
    {
        if success {
            Ok(trim(stdout).to_owned())
        } else {
            let mut message = "Cookbook '".to_owned();
            message.append(self.plugin.name.as_str());
            message.append("' failed to cook '");
            message.append(recipe);
            message.append("': ");
            message.append(stderr);
            Err(CookbookError { message })
        }
    }
}

} // verus!
