//! Recipes, the cookbook capability that offers them, and the reading of a
//! cookbook's `list-recipes` output.
use vstd::prelude::*;

use crate::text::{lines_of, split_lines, split_once, split_once_spec};

verus! {

/// Priority of a cookbook whose metadata names none; lower sorts first.
pub const DEFAULT_PRIORITY: u32 = 50;

/// A named, not yet materialised environment that a cookbook offers.
#[derive(Debug, Clone, PartialEq, Eq)]
pub struct Recipe {
    pub name: String,
    pub description: Option<String>,
}

/// The text of an optional string.
pub open spec fn opt_text(o: Option<String>) -> Option<Seq<char>> {
    match o {
        Some(s) => Some(s@),
        None => None,
    }
}

impl View for Recipe {
    type V = (Seq<char>, Option<Seq<char>>);

    open spec fn view(&self) -> (Seq<char>, Option<Seq<char>>) {
        (self.name@, opt_text(self.description))
    }
}

impl Recipe {
    /// A recipe without a description.
    pub fn new(name: &str) -> (r: Recipe)
        ensures
            r.name@ == name@,
            r.description is None,
    {
        Recipe { name: name.to_owned(), description: None }
    }

    /// A recipe with a description.
    pub fn with_description(name: &str, description: &str) -> (r: Recipe)
        ensures
            r.name@ == name@,
            opt_text(r.description) == Some(description@),
    {
        Recipe { name: name.to_owned(), description: Some(description.to_owned()) }
    }
}

/// Why a cookbook call failed.
#[derive(Debug, Clone, PartialEq, Eq)]
pub struct CookbookError {
    pub message: String,
}

impl CookbookError {
    pub fn new(message: &str) -> (r: CookbookError)
        ensures
            r.message@ == message@,
    {
        CookbookError { message: message.to_owned() }
    }
}

/// A source of recipes: one implementation speaks to a plugin executable,
/// others stand in for it.
pub trait CookbookTrait {
    /// Every recipe the cookbook currently offers.
    fn list_recipes(&self) -> Result<Vec<Recipe>, CookbookError>;

    /// Materialises `recipe` and returns the path of the result.
    fn cook(&self, recipe: &str) -> Result<String, CookbookError>;

    /// The cookbook's name.
    fn name(&self) -> &str;

    /// Lower values sort first.
    fn priority(&self) -> u32 {
        DEFAULT_PRIORITY
    }
}

/// What a cookbook's `metadata` subcommand reports.
#[derive(Debug, Clone, PartialEq, Eq)]
pub struct CookbookMetadata {
    pub description: Option<String>,
    pub default_priority: Option<u32>,
}

impl Default for CookbookMetadata {
    fn default() -> (r: CookbookMetadata)
        ensures
            r.description is None,
            r.default_priority is None,
    {
        CookbookMetadata { description: None, default_priority: None }
    }
}

/// The priority that metadata gives a cookbook.
pub open spec fn metadata_priority(default_priority: Option<u32>) -> u32 {
    match default_priority {
        Some(p) => p,
        None => DEFAULT_PRIORITY,
    }
}

impl CookbookMetadata {
    /// The priority the metadata names, or the default one.
    pub fn priority(&self) -> (r: u32)
        ensures
            r == metadata_priority(self.default_priority),
    {
        match self.default_priority {
            Some(p) => p,
            None => DEFAULT_PRIORITY,
        }
    }
}

/// The recipe one output line describes: its name, and after a tab its
/// description.
pub open spec fn recipe_of_line(line: Seq<char>) -> (Seq<char>, Option<Seq<char>>) {
    match split_once_spec(line, '\t') {
        Some((name, desc)) => (name, Some(desc)),
        None => (line, None),
    }
}

/// The recipes that `list-recipes` output describes, one for each line.
pub open spec fn recipes_of_output(s: Seq<char>) -> Seq<(Seq<char>, Option<Seq<char>>)> {
    lines_of(s).map_values(|l: Seq<char>| recipe_of_line(l))
}

/// The recipe on one line of `list-recipes` output.
pub fn parse_recipe_line(line: &str) -> (r: Recipe)
    ensures
        r@ == recipe_of_line(line@),
{
    match split_once(line, '\t') {
        Some((name, desc)) => Recipe::with_description(name, desc),
        None => Recipe::new(line),
    }
}

/// Reads the output of a cookbook's `list-recipes`: one recipe per line.
pub fn parse_recipe_listing(s: &str) -> (r: Vec<Recipe>)
    ensures
        r@.map_values(|x: Recipe| x@) == recipes_of_output(s@),
{
    let lines = split_lines(s);
    let ghost ls = lines@.map_values(|l: &str| l@);
    let mut out: Vec<Recipe> = Vec::new();
    let mut i: usize = 0;
    while i < lines.len()
        invariant
            ls == lines@.map_values(|l: &str| l@),
            ls == lines_of(s@),
            i <= lines@.len(),
            out@.map_values(|x: Recipe| x@) == ls.subrange(0, i as int).map_values(
                |l: Seq<char>| recipe_of_line(l),
            ),
        decreases lines@.len() - i,
    {
        let rec = parse_recipe_line(lines[i]);
        let ghost before = out@;
        out.push(rec);
        proof {
            let lhs = out@.map_values(|x: Recipe| x@);
            let rhs = ls.subrange(0, i + 1).map_values(|l: Seq<char>| recipe_of_line(l));
            assert(before.map_values(|x: Recipe| x@).len() == before.len());
            assert forall|k: int| 0 <= k < lhs.len() implies lhs[k] == rhs[k] by {
                if k < before.len() {
                    assert(out@[k] == before[k]);
                    assert(before.map_values(|x: Recipe| x@)[k] == lhs[k]);
                    assert(ls.subrange(0, i as int).map_values(|l: Seq<char>| recipe_of_line(l))[k]
                        == rhs[k]);
                } else {
                    assert(out@[k] == rec);
                }
            }
            assert(lhs =~= rhs);
        }
        i = i + 1;
    }
    assert(ls.subrange(0, ls.len() as int) =~= ls);
    out
}

} // verus!
