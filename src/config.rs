//! The switcher's configuration and its defaults.
use vstd::prelude::*;

use crate::plugin::{Plugin, PluginKind};

verus! {

/// Where environments live and which window-manager adapter to use.
#[derive(Debug, Clone, PartialEq, Eq)]
pub struct ConfigurationValues {
    pub workspaces_directory: String,
    pub adapter: Option<String>,
}

/// The default workspaces directory under the home directory `home`.
pub open spec fn default_workspaces_directory(home: Seq<char>) -> Seq<char> {
    home + "/.enwiro_envs"@
}

/// The default configuration: environments in `~/.enwiro_envs`, and the
/// adapter only where exactly one adapter plugin is installed.
pub fn default_configuration(home: &str, adapters: &Vec<Plugin>) -> (r: ConfigurationValues)
    requires
        forall|i: int| 0 <= i < adapters@.len() ==> (#[trigger] adapters@[i]).kind == PluginKind::Adapter,
    ensures
        r.workspaces_directory@ == default_workspaces_directory(home@),
        adapters@.len() == 1 ==> (r.adapter matches Some(a) && a@ == adapters@[0].name@),
        adapters@.len() != 1 ==> r.adapter is None,
{
    let mut dir = home.to_owned();
    dir.append("/.enwiro_envs");
    let adapter = if adapters.len() == 1 {
        Some(adapters[0].name.clone())
    } else {
        None
    };
    ConfigurationValues { workspaces_directory: dir, adapter }
}

} // verus!
