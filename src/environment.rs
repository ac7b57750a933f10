//! Environments: named directories in the workspaces directory.
use vstd::prelude::*;

verus! {

/// A materialised environment.
#[derive(Debug, Clone, PartialEq, Eq)]
pub struct Environment {
    /// Actual path to the environment.
    pub path: String,
    /// Name short enough to be displayed.
    pub name: String,
}

/// Why no environment could be selected.
#[derive(Debug, Clone, PartialEq, Eq)]
pub enum EnvironmentError {
    /// No environment has the name.
    NotFound { name: String },
    /// No name was given and the adapter named no active environment.
    NoActiveEnvironment { message: String },
}

/// Index of the first of `envs` named `name`, or -1.
pub open spec fn environment_index(envs: Seq<Environment>, name: Seq<char>) -> int
    decreases envs.len(),
{
    if envs.len() == 0 {
        -1
    } else if envs[0].name@ == name {
        0
    } else if environment_index(envs.drop_first(), name) < 0 {
        -1
    } else {
        environment_index(envs.drop_first(), name) + 1
    }
}

pub proof fn lemma_environment_index(envs: Seq<Environment>, name: Seq<char>)
    ensures
        -1 <= environment_index(envs, name) < envs.len(),
        environment_index(envs, name) >= 0 ==> envs[environment_index(envs, name)].name@ == name,
        environment_index(envs, name) < 0 ==> forall|k: int|
            0 <= k < envs.len() ==> #[trigger] envs[k].name@ != name,
        forall|k: int| 0 <= k < environment_index(envs, name) ==> #[trigger] envs[k].name@ != name,
    decreases envs.len(),
{
    if envs.len() > 0 {
        lemma_environment_index(envs.drop_first(), name);
        assert forall|k: int| 0 < k < envs.len() implies envs[k] == envs.drop_first()[k - 1] by {}
    }
}

impl Environment {
    /// The environment named `name` among `environments`.
    pub fn get_one(environments: &Vec<Environment>, name: &str) -> (r: Result<
        Environment,
        EnvironmentError,
    >)
        ensures
            environment_index(environments@, name@) >= 0 ==> (r matches Ok(e) && e
                == environments@[environment_index(environments@, name@)]),
            environment_index(environments@, name@) < 0 ==> (r matches Err(
                EnvironmentError::NotFound { name: n },
            ) && n@ == name@),
    {
        let mut k: usize = 0;
        while k < environments.len()
            invariant
                k <= environments@.len(),
                forall|q: int| 0 <= q < k ==> #[trigger] environments@[q].name@ != name@,
            decreases environments@.len() - k,
        {
            let e = &environments[k];
            if crate::text::same_text(e.name.as_str(), name) {
                let found = Environment { path: e.path.clone(), name: e.name.clone() };
                proof {
                    lemma_environment_index(environments@, name@);
                    let idx = environment_index(environments@, name@);
                    if idx < 0 {
                        assert(environments@[k as int].name@ != name@);
                    }
                    if idx > k {
                        assert(environments@[k as int].name@ != name@);
                    }
                    if idx < k {
                        assert(environments@[idx].name@ != name@);
                    }
                }
                return Ok(found);
            }
            k = k + 1;
        }
        proof {
            lemma_environment_index(environments@, name@);
            let idx = environment_index(environments@, name@);
            if idx >= 0 {
                assert(environments@[idx].name@ != name@);
            }
        }
        Err(EnvironmentError::NotFound { name: name.to_owned() })
    }
}

} // verus!
