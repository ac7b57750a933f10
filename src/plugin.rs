//! Plugins: executables on the search path named `enwiro-<kind>-<name>`.
use vstd::prelude::*;

use crate::text::{has_prefix, same_text, strip_prefix};

verus! {

/// What a plugin is for.
#[derive(Clone, Copy, Debug, PartialEq, Eq, Structural)]
pub enum PluginKind {
    Adapter,
    Cookbook,
}

/// An installed plugin.
pub struct Plugin {
    pub name: String,
    pub kind: PluginKind,
    pub executable: String,
}

/// The prefix of the executables of plugins of `kind`.
pub open spec fn plugin_prefix(kind: PluginKind) -> Seq<char> {
    match kind {
        PluginKind::Adapter => "enwiro-adapter-"@,
        PluginKind::Cookbook => "enwiro-cookbook-"@,
    }
}

/// The prefix of the executables of plugins of `kind`.
pub fn plugin_prefix_exec(kind: PluginKind) -> (r: &'static str)
    ensures
        r@ == plugin_prefix(kind),
{
    match kind {
        PluginKind::Adapter => "enwiro-adapter-",
        PluginKind::Cookbook => "enwiro-cookbook-",
    }
}

/// Whether `p` is the plugin of `kind` that the executable `exe` provides.
pub open spec fn plugin_of(p: Plugin, exe: Seq<char>, kind: PluginKind) -> bool {
    &&& has_prefix(exe, plugin_prefix(kind))
    &&& p.executable@ == exe
    &&& p.kind == kind
    &&& p.name@ == exe.subrange(plugin_prefix(kind).len() as int, exe.len() as int)
}

/// Whether `v` holds `s`.
fn contains_text(v: &Vec<Plugin>, s: &str) -> (r: bool)
    ensures
        r == exists|k: int| 0 <= k < v@.len() && #[trigger] v@[k].executable@ == s@,
{
    let mut k: usize = 0;
    while k < v.len()
        invariant
            k <= v@.len(),
            forall|q: int| 0 <= q < k ==> #[trigger] v@[q].executable@ != s@,
        decreases v@.len() - k,
    {
        if same_text(v[k].executable.as_str(), s) {
            return true;
        }
        k = k + 1;
    }
    false
}

/// Whether one of `exes` is named `s`.
pub open spec fn is_among(exes: Seq<String>, s: Seq<char>) -> bool {
    exists|i: int| 0 <= i < exes.len() && #[trigger] exes[i]@ == s
}

/// Whether one of `ps` has the executable `s`.
pub open spec fn provided_by(ps: Seq<Plugin>, s: Seq<char>) -> bool {
    exists|j: int| 0 <= j < ps.len() && #[trigger] ps[j].executable@ == s
}

/// The plugins of `kind` among the executables `executables`, each once.
pub fn plugins_among(executables: &Vec<String>, kind: PluginKind) -> (r: Vec<Plugin>)
    ensures
        forall|j: int| 0 <= j < r@.len() ==> plugin_of(#[trigger] r@[j], r@[j].executable@, kind),
        forall|j: int| 0 <= j < r@.len() ==> is_among(executables@, #[trigger] r@[j].executable@),
        forall|i: int|
            0 <= i < executables@.len() && has_prefix(#[trigger] executables@[i]@, plugin_prefix(kind))
                ==> provided_by(r@, executables@[i]@),
        forall|a: int, b: int|
            0 <= a < b < r@.len() ==> #[trigger] r@[a].executable@ != #[trigger] r@[b].executable@,
{
    let prefix = plugin_prefix_exec(kind);
    let mut out: Vec<Plugin> = Vec::new();
    let mut i: usize = 0;
    while i < executables.len()
        invariant
            prefix@ == plugin_prefix(kind),
            i <= executables@.len(),
            forall|j: int| 0 <= j < out@.len() ==> plugin_of(#[trigger] out@[j], out@[j].executable@, kind),
            forall|j: int| 0 <= j < out@.len() ==> is_among(executables@.subrange(0, i as int), #[trigger] out@[j].executable@),
            forall|q: int|
                0 <= q < i && has_prefix(#[trigger] executables@[q]@, plugin_prefix(kind))
                    ==> provided_by(out@, executables@[q]@),
            forall|a: int, b: int|
                0 <= a < b < out@.len() ==> #[trigger] out@[a].executable@ != #[trigger] out@[b].executable@,
        decreases executables@.len() - i,
    {
        let exe = executables[i].as_str();
        let ghost before = out@;
        let ghost seen = executables@.subrange(0, i as int);
        let ghost seen_next = executables@.subrange(0, i + 1);
        assert forall|t: Seq<char>| is_among(seen, t) implies is_among(seen_next, t) by {
            let k = choose|k: int| 0 <= k < seen.len() && #[trigger] seen[k]@ == t;
            assert(seen_next[k] == seen[k]);
        }
        match strip_prefix(exe, prefix) {
            Some(name) => {
                if !contains_text(&out, exe) {
                    out.push(Plugin { name: name.to_owned(), kind, executable: exe.to_owned() });
                    assert(seen_next[i as int]@ == exe@);
                    assert forall|q: int| 0 <= q <= i && has_prefix(#[trigger] executables@[q]@, plugin_prefix(kind))
                        implies provided_by(out@, executables@[q]@) by {
                        if q < i {
                            let j = choose|j: int| 0 <= j < before.len() && #[trigger] before[j].executable@ == executables@[q]@;
                            assert(out@[j] == before[j]);
                        } else {
                            assert(out@[before.len() as int].executable@ == executables@[q]@);
                        }
                    }
                    assert forall|j: int| 0 <= j < out@.len() implies is_among(seen_next, #[trigger] out@[j].executable@) by {
                        if j < before.len() {
                            assert(out@[j] == before[j]);
                        }
                    }
                    assert forall|q: int| 0 <= q < out@.len() implies plugin_of(#[trigger] out@[q], out@[q].executable@, kind) by {
                        if q < before.len() {
                            assert(out@[q] == before[q]);
                        }
                    }
                    assert forall|a: int, b: int| 0 <= a < b < out@.len() implies #[trigger] out@[a].executable@ != #[trigger] out@[b].executable@ by {
                        assert(out@[a] == before[a]);
                        if b < before.len() {
                            assert(out@[b] == before[b]);
                        }
                    }
                }
            },
            None => {},
        }
        i = i + 1;
    }
    assert(executables@.subrange(0, i as int) =~= executables@);
    out
}

} // verus!
