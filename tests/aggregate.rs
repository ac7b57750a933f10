use enwiro::aggregate::{aggregate_listings, collect_all_recipes, name_le_exec, CookbookListing};
use enwiro::recipe::{CookbookError, CookbookTrait, Recipe};

struct FakeCookbook {
    cookbook_name: String,
    recipes: Vec<Recipe>,
    cook_results: Vec<(String, String)>,
    priority: u32,
}

impl FakeCookbook {
    fn new(name: &str, recipes: Vec<&str>, cook_results: Vec<(&str, &str)>) -> Self {
        FakeCookbook {
            cookbook_name: name.to_string(),
            recipes: recipes.into_iter().map(Recipe::new).collect(),
            cook_results: cook_results
                .into_iter()
                .map(|(r, p)| (r.to_string(), p.to_string()))
                .collect(),
            priority: 50,
        }
    }

    fn new_with_descriptions(
        name: &str,
        recipes: Vec<(&str, Option<&str>)>,
        cook_results: Vec<(&str, &str)>,
    ) -> Self {
        let mut cookbook = FakeCookbook::new(name, vec![], cook_results);
        cookbook.recipes = recipes
            .into_iter()
            .map(|(n, d)| match d {
                Some(d) => Recipe::with_description(n, d),
                None => Recipe::new(n),
            })
            .collect();
        cookbook
    }

    fn with_priority(mut self, priority: u32) -> Self {
        self.priority = priority;
        self
    }
}

impl CookbookTrait for FakeCookbook {
    fn list_recipes(&self) -> Result<Vec<Recipe>, CookbookError> {
        Ok(self
            .recipes
            .iter()
            .map(|r| Recipe {
                name: r.name.clone(),
                description: r.description.clone(),
            })
            .collect())
    }

    fn cook(&self, recipe: &str) -> Result<String, CookbookError> {
        self.cook_results
            .iter()
            .find(|(r, _)| r == recipe)
            .map(|(_, p)| p.clone())
            .ok_or_else(|| CookbookError::new("unknown recipe"))
    }

    fn name(&self) -> &str {
        &self.cookbook_name
    }

    fn priority(&self) -> u32 {
        self.priority
    }
}

struct FailingCookbook {
    cookbook_name: String,
}

impl CookbookTrait for FailingCookbook {
    fn list_recipes(&self) -> Result<Vec<Recipe>, CookbookError> {
        Err(CookbookError::new("cookbook is broken"))
    }

    fn cook(&self, _recipe: &str) -> Result<String, CookbookError> {
        Err(CookbookError::new("cookbook is broken"))
    }

    fn name(&self) -> &str {
        &self.cookbook_name
    }
}

#[test]
fn test_collect_all_recipes_includes_description() {
    let cookbooks: Vec<Box<dyn CookbookTrait>> = vec![Box::new(FakeCookbook::new_with_descriptions(
        "github",
        vec![("owner/repo#42", Some("Fix auth bug"))],
        vec![],
    ))];
    let output = collect_all_recipes(&cookbooks);
    assert_eq!(output, "github: owner/repo#42\tFix auth bug\n");
}

#[test]
fn test_collect_all_recipes_omits_tab_when_no_description() {
    let cookbooks: Vec<Box<dyn CookbookTrait>> = vec![Box::new(
        FakeCookbook::new_with_descriptions("git", vec![("repo-a", None)], vec![]),
    )];
    let output = collect_all_recipes(&cookbooks);
    assert_eq!(output, "git: repo-a\n");
    assert!(!output.contains('\t'));
}

#[test]
fn test_collect_all_recipes_formats_output() {
    let cookbooks: Vec<Box<dyn CookbookTrait>> = vec![Box::new(FakeCookbook::new(
        "git",
        vec!["repo-a", "repo-b"],
        vec![],
    ))];
    let output = collect_all_recipes(&cookbooks);
    assert_eq!(output, "git: repo-a\ngit: repo-b\n");
}

#[test]
fn test_collect_all_recipes_multiple_cookbooks() {
    let cookbooks: Vec<Box<dyn CookbookTrait>> = vec![
        Box::new(FakeCookbook::new("git", vec!["repo-a"], vec![])),
        Box::new(FakeCookbook::new("npm", vec!["pkg-x"], vec![])),
    ];
    let output = collect_all_recipes(&cookbooks);
    assert!(output.contains("git: repo-a\n"));
    assert!(output.contains("npm: pkg-x\n"));
}

#[test]
fn test_collect_all_recipes_empty() {
    let cookbooks: Vec<Box<dyn CookbookTrait>> = vec![];
    let output = collect_all_recipes(&cookbooks);
    assert_eq!(output, "");
}

#[test]
fn test_collect_all_recipes_sorts_by_priority() {
    let cookbooks: Vec<Box<dyn CookbookTrait>> = vec![
        Box::new(FakeCookbook::new("github", vec!["repo#42"], vec![]).with_priority(30)),
        Box::new(FakeCookbook::new("git", vec!["my-repo"], vec![]).with_priority(10)),
    ];
    let output = collect_all_recipes(&cookbooks);
    let lines: Vec<&str> = output.lines().collect();
    assert_eq!(
        lines[0], "git: my-repo",
        "Higher priority (lower number) should come first"
    );
    assert_eq!(lines[1], "github: repo#42");
}

#[test]
fn test_collect_all_recipes_sorts_by_name_on_priority_tie() {
    let cookbooks: Vec<Box<dyn CookbookTrait>> = vec![
        Box::new(FakeCookbook::new("npm", vec!["pkg-x"], vec![]).with_priority(20)),
        Box::new(FakeCookbook::new("git", vec!["repo-a"], vec![]).with_priority(20)),
    ];
    let output = collect_all_recipes(&cookbooks);
    let lines: Vec<&str> = output.lines().collect();
    assert_eq!(
        lines[0], "git: repo-a",
        "Same priority should tie-break alphabetically"
    );
    assert_eq!(lines[1], "npm: pkg-x");
}

#[test]
fn test_collect_all_recipes_skips_failing_cookbook() {
    let cookbooks: Vec<Box<dyn CookbookTrait>> = vec![
        Box::new(FailingCookbook {
            cookbook_name: "broken".into(),
        }),
        Box::new(FakeCookbook::new("git", vec!["repo-a"], vec![])),
    ];
    let output = collect_all_recipes(&cookbooks);
    assert_eq!(output, "git: repo-a\n");
}

#[test]
fn collect_orders_three_priorities() {
    let cookbooks: Vec<Box<dyn CookbookTrait>> = vec![
        Box::new(FakeCookbook::new("github", vec!["repo#1"], vec![]).with_priority(30)),
        Box::new(FakeCookbook::new("chezmoi", vec!["dotfiles"], vec![]).with_priority(20)),
        Box::new(FakeCookbook::new("git", vec!["my-repo"], vec![]).with_priority(10)),
    ];
    let output = collect_all_recipes(&cookbooks);
    assert_eq!(output, "git: my-repo\nchezmoi: dotfiles\ngithub: repo#1\n");
}

#[test]
fn default_priority_sorts_after_lower_ones() {
    let cookbooks: Vec<Box<dyn CookbookTrait>> = vec![
        Box::new(FailingCookbook {
            cookbook_name: "broken".into(),
        }),
        Box::new(FakeCookbook::new("zzz", vec!["late"], vec![]).with_priority(51)),
        Box::new(FakeCookbook::new("aaa", vec!["early"], vec![]).with_priority(49)),
        Box::new(FakeCookbook::new("mid", vec!["middle"], vec![])),
    ];
    let output = collect_all_recipes(&cookbooks);
    assert_eq!(output, "aaa: early\nmid: middle\nzzz: late\n");
}

fn listing(name: &str, priority: u32, recipes: Option<Vec<Recipe>>) -> CookbookListing {
    CookbookListing {
        name: name.to_string(),
        priority,
        recipes: recipes.ok_or_else(|| CookbookError::new("failed")),
    }
}

#[test]
fn aggregate_listings_exact_text() {
    let listings = vec![
        listing("npm", 20, Some(vec![Recipe::new("pkg-x")])),
        listing("broken", 5, None),
        listing(
            "git",
            20,
            Some(vec![
                Recipe::new("repo-a"),
                Recipe::with_description("repo-b", "My repo"),
            ]),
        ),
    ];
    assert_eq!(
        aggregate_listings(listings),
        "git: repo-a\ngit: repo-b\tMy repo\nnpm: pkg-x\n"
    );
}

#[test]
fn aggregate_listings_keeps_order_of_equal_keys() {
    let listings = vec![
        listing("git", 10, Some(vec![Recipe::new("first")])),
        listing("git", 10, Some(vec![Recipe::new("second")])),
    ];
    assert_eq!(aggregate_listings(listings), "git: first\ngit: second\n");
}

#[test]
fn aggregate_listings_empty_recipe_list() {
    let listings = vec![listing("git", 10, Some(vec![]))];
    assert_eq!(aggregate_listings(listings), "");
}

#[test]
fn adding_failing_cookbook_changes_nothing() {
    let base = || {
        vec![
            listing("git", 10, Some(vec![Recipe::new("repo-a")])),
            listing("npm", 30, Some(vec![Recipe::new("pkg-x")])),
        ]
    };
    let mut with_failure = base();
    with_failure.push(listing("remote", 0, None));
    assert_eq!(aggregate_listings(with_failure), aggregate_listings(base()));
}

#[test]
fn failing_cookbook_in_the_middle_adds_nothing() {
    let with_failure = vec![
        listing("git", 10, Some(vec![Recipe::new("repo-a")])),
        listing("remote", 20, None),
        listing("npm", 30, Some(vec![Recipe::new("pkg-x")])),
    ];
    let without = vec![
        listing("git", 10, Some(vec![Recipe::new("repo-a")])),
        listing("npm", 30, Some(vec![Recipe::new("pkg-x")])),
    ];
    assert_eq!(aggregate_listings(with_failure), aggregate_listings(without));
}

#[test]
fn names_compare_as_str_does() {
    assert!(name_le_exec("git", "github"));
    assert!(!name_le_exec("github", "git"));
    assert!(name_le_exec("git", "git"));
    assert!(name_le_exec("", "a"));
    assert!(name_le_exec("Zed", "abc"));
    assert!(name_le_exec("é", "ü"));
    assert!(!name_le_exec("npm", "git"));
}
