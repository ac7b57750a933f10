//! The switcher's commands, as functions from a context to what they print
//! and what is left for the caller to do on disk.
use vstd::prelude::*;

use crate::adapter::AdapterError;
use crate::consumer::{cached_line_entry, list_recipes_text, listing_spec, parse_cached_line, Listing};
use crate::aggregate::CookbookListing;
use crate::context::{CommandContext, ResolvedEnvironment};
use crate::environment::{environment_index, Environment, EnvironmentError};
use crate::recipe::opt_text;
use crate::text::{lines_of, replace_char, replaced, split_lines};

verus! {

/// Arguments of `activate`.
#[derive(Debug, Clone, PartialEq, Eq)]
pub struct ActivateArgs {
    pub name: String,
}

/// Arguments of `list-environments`.
#[derive(Debug, Clone, PartialEq, Eq)]
pub struct ListEnvironmentsArgs {}

/// Arguments of `list-all`.
#[derive(Debug, Clone, PartialEq, Eq)]
pub struct ListAllArgs {}

/// Arguments of `show-path`.
#[derive(Debug, Clone, PartialEq, Eq)]
pub struct ShowPathArgs {
    pub environment_name: Option<String>,
}

/// Arguments of `wrap`.
#[derive(Debug, Clone, PartialEq, Eq)]
pub struct WrapArgs {
    pub command_name: String,
    pub environment_name: Option<String>,
    pub child_args: Option<String>,
}

/// The names of `envs`, one per line.
pub open spec fn names_text(envs: Seq<Environment>) -> Seq<char>
    decreases envs.len(),
{
    if envs.len() == 0 {
        Seq::empty()
    } else {
        names_text(envs.drop_last()) + envs.last().name@ + seq!['\n']
    }
}

/// Lists the names of the environments, one per line.
pub fn list_environments(context: &CommandContext) -> (r: String)
    ensures
        r@ == names_text(context.environments@),
{
    let envs = context.get_all_environments();
    let mut out = String::new();
    let mut i: usize = 0;
    assert(envs@.subrange(0, 0) =~= Seq::<Environment>::empty());
    while i < envs.len()
        invariant
            i <= envs@.len(),
            out@ == names_text(envs@.subrange(0, i as int)),
        decreases envs@.len() - i,
    {
        proof {
            reveal_strlit("\n");
        }
        out.append(envs[i].name.as_str());
        out.append("\n");
        assert(envs@.subrange(0, i + 1).drop_last() =~= envs@.subrange(0, i as int));
        i = i + 1;
    }
    assert(envs@.subrange(0, envs@.len() as int) =~= envs@);
    out
}

/// The path of the environment the arguments name, or of the active one.
pub fn show_path(context: &CommandContext, args: ShowPathArgs) -> (r: Result<
    String,
    EnvironmentError,
>)
    ensures
        args.environment_name matches Some(n) ==> (environment_index(context.environments@, n@)
            >= 0 ==> (r matches Ok(p) && p@ == context.environments@[environment_index(
            context.environments@,
            n@,
        )].path@)),
        args.environment_name matches Some(n) ==> (environment_index(context.environments@, n@)
            < 0 ==> r is Err),
{
    match context.get_environment(&args.environment_name) {
        Ok(env) => Ok(env.path),
        Err(e) => Err(e),
    }
}

/// What `activate` did, and what is left for the caller to do on disk.
#[derive(Debug, Clone, PartialEq, Eq)]
pub struct ActivationReport {
    /// The environment, where it exists or could be cooked.
    pub environment: Option<ResolvedEnvironment>,
    /// The key under which the activation is counted: the name with each `/`
    /// replaced by `-`.
    pub stats_key: String,
}

/// Switches to the workspace of the environment `args.name`, making sure the
/// environment exists, cooking it where needed. An adapter failure is
/// reported and ends the command; a cooking failure is reported and does not.
pub fn activate(context: &CommandContext, args: ActivateArgs) -> (r: Result<
    ActivationReport,
    AdapterError,
>)
    ensures
        r matches Ok(rep) ==> rep.stats_key@ == replaced(args.name@, '/', "-"@),
        r matches Ok(rep) ==> (environment_index(context.environments@, args.name@) >= 0 ==> (
        rep.environment matches Some(ResolvedEnvironment::Existing(e)) && e
            == context.environments@[environment_index(context.environments@, args.name@)])),
{
    match context.adapter.activate(args.name.as_str()) {
        Err(e) => {
            let mut message = "Failed to activate workspace: ".to_owned();
            message.append(e.message.as_str());
            context.notifier.notify_error(message.as_str());
            return Err(e);
        },
        Ok(()) => {},
    }
    let environment = match context.get_or_cook_environment(args.name.as_str()) {
        Ok(resolved) => Some(resolved),
        Err(e) => {
            let mut message = "Could not set up environment '".to_owned();
            message.append(args.name.as_str());
            message.append("': ");
            message.append(e.message.as_str());
            context.notifier.notify_error(message.as_str());
            None
        },
    };
    let stats_key = replace_char(args.name.as_str(), '/', "-");
    Ok(ActivationReport { environment, stats_key })
}

/// The line that lists an environment: `_: name`.
pub open spec fn environment_line(env: Environment) -> Seq<char> {
    seq!['_', ':', ' '] + env.name@ + seq!['\n']
}

/// The lines that list `envs`.
pub open spec fn environments_text(envs: Seq<Environment>) -> Seq<char>
    decreases envs.len(),
{
    if envs.len() == 0 {
        Seq::empty()
    } else {
        environments_text(envs.drop_last()) + environment_line(envs.last())
    }
}

/// Whether a recipe line is listed: it is not empty, and it does not name
/// a recipe that an existing environment already stands for.
pub open spec fn recipe_line_kept(line: Seq<char>, envs: Seq<Environment>) -> bool {
    line.len() > 0 && match cached_line_entry(line) {
        Some((_, name)) => environment_index(envs, name) < 0,
        None => true,
    }
}

/// The recipe lines of `lines` that are listed, each with its newline.
pub open spec fn kept_recipes_text(lines: Seq<Seq<char>>, envs: Seq<Environment>) -> Seq<char>
    decreases lines.len(),
{
    if lines.len() == 0 {
        Seq::empty()
    } else {
        kept_recipes_text(lines.drop_last(), envs) + if recipe_line_kept(lines.last(), envs) {
            lines.last() + seq!['\n']
        } else {
            Seq::empty()
        }
    }
}

/// What `list-all` prints for the environments `envs` and the recipe text
/// `recipes`.
pub open spec fn list_all_text(envs: Seq<Environment>, recipes: Seq<char>) -> Seq<char> {
    environments_text(envs) + kept_recipes_text(lines_of(recipes), envs)
}

/// Whether some environment is named `name`.
fn has_environment(envs: &Vec<Environment>, name: &str) -> (r: bool)
    ensures
        r == (environment_index(envs@, name@) >= 0),
{
    Environment::get_one(envs, name).is_ok()
}

/// Lists every environment, then every recipe that no environment already
/// stands for: from the cache where the context holds its text, else
/// aggregated from the cookbooks right now.
pub fn list_all(context: &CommandContext) -> (r: Listing)
    ensures
        r.from_cache == context.cached_recipes is Some,
        exists|ls: Seq<CookbookListing>|
            ls.len() == context.cookbooks@.len() && r.text@ == list_all_text(
                context.environments@,
                #[trigger] listing_spec(opt_text(context.cached_recipes), ls),
            ),
{
    let envs = &context.environments;
    let mut out = String::new();
    let mut i: usize = 0;
    assert(envs@.subrange(0, 0) =~= Seq::<Environment>::empty());
    while i < envs.len()
        invariant
            i <= envs@.len(),
            out@ == environments_text(envs@.subrange(0, i as int)),
        decreases envs@.len() - i,
    {
        proof {
            reveal_strlit("_: ");
            reveal_strlit("\n");
        }
        out.append("_: ");
        out.append(envs[i].name.as_str());
        out.append("\n");
        assert(envs@.subrange(0, i + 1).drop_last() =~= envs@.subrange(0, i as int));
        i = i + 1;
    }
    assert(envs@.subrange(0, envs@.len() as int) =~= envs@);
    let ghost head = out@;
    let recipes = list_recipes_text(context.cached_recipes.clone(), context.cookbooks.as_slice());
    let lines = split_lines(recipes.text.as_str());
    let ghost ls = lines@.map_values(|l: &str| l@);
    let mut j: usize = 0;
    assert(ls.subrange(0, 0) =~= Seq::<Seq<char>>::empty());
    assert(head + Seq::<char>::empty() =~= head);
    while j < lines.len()
        invariant
            ls == lines@.map_values(|l: &str| l@),
            j <= lines@.len(),
            out@ == head + kept_recipes_text(ls.subrange(0, j as int), envs@),
        decreases lines@.len() - j,
    {
        let line = lines[j];
        let kept = if line.unicode_len() == 0 {
            false
        } else {
            match parse_cached_line(line) {
                Some((_, name)) => !has_environment(envs, name),
                None => true,
            }
        };
        if kept {
            proof {
                reveal_strlit("\n");
            }
            out.append(line);
            out.append("\n");
        }
        assert(ls.subrange(0, j + 1).drop_last() =~= ls.subrange(0, j as int));
        assert(ls.subrange(0, j + 1).last() == line@);
        assert(out@ =~= head + kept_recipes_text(ls.subrange(0, j + 1), envs@));
        j = j + 1;
    }
    assert(ls.subrange(0, ls.len() as int) =~= ls);
    Listing { text: out, from_cache: recipes.from_cache }
}

} // verus!
