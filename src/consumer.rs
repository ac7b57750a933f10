//! The interactive side: listing every recipe with the cache or without it,
//! and resolving one recipe by name with the cache's help.
use vstd::prelude::*;

use crate::aggregate::{aggregate, collect_all_recipes, CookbookListing};
use crate::daemon::{cache_read, age_nanos, CacheEntry, Moment, CACHE_MAX_AGE_SECS};
use crate::recipe::{opt_text, CookbookError, CookbookTrait, Recipe};
use crate::text::{
    find_char, first_index, lemma_first_index_bounds, lines_of, same_text, split_lines, split_once,
    split_once_spec,
};

verus! {

/// What a listing shows: the cached text where there is one, else the text
/// aggregated from the listings `ls`.
pub open spec fn listing_spec(cached: Option<Seq<char>>, ls: Seq<CookbookListing>) -> Seq<char> {
    match cached {
        Some(c) => c,
        None => aggregate(ls),
    }
}

/// A listing of every recipe, and where it came from.
#[derive(Debug, Clone, PartialEq, Eq)]
pub struct Listing {
    pub text: String,
    /// Whether the cache served it; the heartbeat is touched only then.
    pub from_cache: bool,
}

/// Lists every recipe: the cached text where the cache was usable, else the
/// text aggregated right now from `cookbooks`, which are asked only then.
pub fn list_recipes_text(cached: Option<String>, cookbooks: &[Box<dyn CookbookTrait>]) -> (r:
    Listing)
    ensures
        r.from_cache == cached is Some,
        exists|ls: Seq<CookbookListing>|
            ls.len() == cookbooks@.len() && r.text@ == #[trigger] listing_spec(opt_text(cached), ls),
{
    let ghost witness = Seq::new(
        cookbooks@.len(),
        |i: int| vstd::pervasive::arbitrary::<CookbookListing>(),
    );
    let from_cache = cached.is_some();
    let text = match cached {
        Some(c) => c,
        None => collect_all_recipes(cookbooks),
    };
    let r = Listing { text, from_cache };
    if from_cache {
        assert(witness.len() == cookbooks@.len() && r.text@ == listing_spec(
            opt_text(cached),
            witness,
        ));
    } else {
        let ghost ls = choose|ls: Seq<CookbookListing>|
            ls.len() == cookbooks@.len() && text@ == #[trigger] aggregate(ls);
        assert(ls.len() == cookbooks@.len() && r.text@ == listing_spec(opt_text(cached), ls));
    }
    r
}

/// Consistency of the two paths: a listing served from a cache entry that
/// holds the aggregated text and was written at most the maximum age ago is
/// that aggregated text, and so is one made without a cache.
pub proof fn lemma_listing_paths_agree(ls: Seq<CookbookListing>, e: CacheEntry, written: Moment, now: Moment)
    requires
        e.content@ == aggregate(ls),
        e.modified == Some(written),
        age_nanos(written, now) <= CACHE_MAX_AGE_SECS * 1_000_000_000,
    ensures
        listing_spec(cache_read(Some(e), now), ls) == aggregate(ls),
        listing_spec(cache_read(None, now), ls) == aggregate(ls),
{
}

/// The cookbook and recipe name that one cache line names: `cookbook: name`,
/// then possibly a tab and a description.
pub open spec fn cached_line_entry(line: Seq<char>) -> Option<(Seq<char>, Seq<char>)> {
    let i = first_index(line, ':');
    if i < 0 || i + 1 >= line.len() || line[i + 1] != ' ' {
        None
    } else {
        let rest = line.subrange(i + 2, line.len() as int);
        match split_once_spec(rest, '\t') {
            Some((name, _)) => Some((line.subrange(0, i), name)),
            None => Some((line.subrange(0, i), rest)),
        }
    }
}

/// Reads one cache line into its cookbook and recipe name.
pub fn parse_cached_line(line: &str) -> (r: Option<(&str, &str)>)
    ensures
        match r {
            Some((c, n)) => cached_line_entry(line@) == Some((c@, n@)),
            None => cached_line_entry(line@) is None,
        },
{
    proof {
        lemma_first_index_bounds(line@, ':');
    }
    let n = line.unicode_len();
    match find_char(line, ':') {
        None => None,
        Some(i) => {
            if i + 1 >= n || line.get_char(i + 1) != ' ' {
                return None;
            }
            let cookbook = line.substring_char(0, i);
            let rest = line.substring_char(i + 2, n);
            match split_once(rest, '\t') {
                Some((name, _)) => Some((cookbook, name)),
                None => Some((cookbook, rest)),
            }
        },
    }
}

/// The cookbook of the first of `lines` that names `recipe`.
pub open spec fn cached_cookbook_for(lines: Seq<Seq<char>>, recipe: Seq<char>) -> Option<
    Seq<char>,
>
    decreases lines.len(),
{
    if lines.len() == 0 {
        None
    } else {
        match cached_line_entry(lines[0]) {
            Some((cookbook, name)) => if name == recipe {
                Some(cookbook)
            } else {
                cached_cookbook_for(lines.drop_first(), recipe)
            },
            None => cached_cookbook_for(lines.drop_first(), recipe),
        }
    }
}

/// Scans the cached text for `recipe` and returns the cookbook that offers it.
pub fn find_cached_recipe(cache: &str, recipe: &str) -> (r: Option<String>)
    ensures
        opt_text(r) == cached_cookbook_for(lines_of(cache@), recipe@),
{
    let lines = split_lines(cache);
    let ghost ls = lines@.map_values(|l: &str| l@);
    let mut i: usize = 0;
    assert(ls.subrange(0, ls.len() as int) =~= ls);
    while i < lines.len()
        invariant
            ls == lines@.map_values(|l: &str| l@),
            ls == lines_of(cache@),
            i <= lines@.len(),
            cached_cookbook_for(ls, recipe@) == cached_cookbook_for(
                ls.subrange(i as int, ls.len() as int),
                recipe@,
            ),
        decreases lines@.len() - i,
    {
        let line = lines[i];
        let ghost rest = ls.subrange(i as int, ls.len() as int);
        assert(rest[0] == line@);
        assert(rest.drop_first() =~= ls.subrange(i + 1, ls.len() as int));
        match parse_cached_line(line) {
            Some((cookbook, name)) => {
                if same_text(name, recipe) {
                    return Some(cookbook.to_owned());
                }
            },
            None => {},
        }
        i = i + 1;
    }
    None
}

/// A recipe that was cooked, the cookbook that cooked it, and the path that
/// cooking gave.
#[derive(Debug, Clone, PartialEq, Eq)]
pub struct CookedRecipe {
    pub cookbook: String,
    pub path: String,
    /// Whether the cache pointed at the cookbook, so no listing was asked for.
    pub from_cache: bool,
}

/// Index of the first of `cookbooks` named `name`.
fn cookbook_named(cookbooks: &[Box<dyn CookbookTrait>], name: &str) -> (r: Option<usize>)
    ensures
        r matches Some(j) ==> j < cookbooks@.len(),
{
    let mut j: usize = 0;
    while j < cookbooks.len()
        invariant
            j <= cookbooks@.len(),
        decreases cookbooks@.len() - j,
    {
        if same_text(cookbooks[j].name(), name) {
            return Some(j);
        }
        j = j + 1;
    }
    None
}

/// Whether `recipes` holds one named `name`.
pub fn offers_recipe(recipes: &Vec<Recipe>, name: &str) -> (r: bool)
    ensures
        r == exists|k: int| 0 <= k < recipes@.len() && #[trigger] recipes@[k].name@ == name@,
{
    let mut k: usize = 0;
    while k < recipes.len()
        invariant
            k <= recipes@.len(),
            forall|q: int| 0 <= q < k ==> #[trigger] recipes@[q].name@ != name@,
        decreases recipes@.len() - k,
    {
        if same_text(recipes[k].name.as_str(), name) {
            return true;
        }
        k = k + 1;
    }
    false
}

/// Cooks `recipe`. Where the cached text names the cookbook that offers it,
/// and such a cookbook is installed, only that cookbook is asked, to cook;
/// otherwise each cookbook in turn is asked for its recipes until one offers
/// `recipe`, and that one cooks it.
pub fn cook_recipe(cookbooks: &[Box<dyn CookbookTrait>], cache: Option<&str>, recipe: &str) -> (r:
    Result<CookedRecipe, CookbookError>)
    ensures
        r matches Ok(c) ==> (c.from_cache ==> (cache matches Some(t) && cached_cookbook_for(
            lines_of(t@),
            recipe@,
        ) == Some(c.cookbook@))),
        cookbooks@.len() == 0 ==> r is Err,
{
    if let Some(text) = cache {
        if let Some(cookbook) = find_cached_recipe(text, recipe) {
            if let Some(j) = cookbook_named(cookbooks, cookbook.as_str()) {
                return match cookbooks[j].cook(recipe) {
                    Ok(path) => Ok(CookedRecipe { cookbook, path, from_cache: true }),
                    Err(e) => Err(e),
                };
            }
        }
    }
    let mut j: usize = 0;
    while j < cookbooks.len()
        invariant
            j <= cookbooks@.len(),
        decreases cookbooks@.len() - j,
    {
        let c = &cookbooks[j];
        match c.list_recipes() {
            Ok(recipes) => {
                if offers_recipe(&recipes, recipe) {
                    return match c.cook(recipe) {
                        Ok(path) => Ok(
                            CookedRecipe { cookbook: c.name().to_owned(), path, from_cache: false },
                        ),
                        Err(e) => Err(e),
                    };
                }
            },
            Err(_) => {},
        }
        j = j + 1;
    }
    Err(CookbookError::new("No recipe available to cook this environment."))
}

} // verus!
