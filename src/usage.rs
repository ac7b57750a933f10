//! Per-environment usage statistics.
use vstd::prelude::*;

verus! {

/// How often and when an environment was activated, and where it came from.
#[derive(Debug, Clone, PartialEq, Eq)]
pub struct EnvStats {
    pub last_activated: i64,
    pub activation_count: u64,
    pub description: Option<String>,
    pub cookbook: Option<String>,
}

impl Default for EnvStats {
    fn default() -> (r: EnvStats)
        ensures
            r.last_activated == 0,
            r.activation_count == 0,
            r.description is None,
            r.cookbook is None,
    {
        EnvStats { last_activated: 0, activation_count: 0, description: None, cookbook: None }
    }
}

impl EnvStats {
    /// Counts one activation at `now`; the count stays at its maximum once
    /// there.
    pub fn record_activation(&mut self, now: i64)
        ensures
            final(self).last_activated == now,
            final(self).activation_count == if old(self).activation_count < u64::MAX {
                (old(self).activation_count + 1) as u64
            } else {
                u64::MAX
            },
            final(self).description == old(self).description,
            final(self).cookbook == old(self).cookbook,
    {
        self.last_activated = now;
        self.activation_count = self.activation_count.saturating_add(1);
    }

    /// Notes the cookbook that cooked the environment, and its description
    /// where one is given; the activation record is kept.
    pub fn record_cook_metadata(&mut self, cookbook: &str, description: Option<&str>)
        ensures
            final(self).cookbook matches Some(c) && c@ == cookbook@,
            description matches Some(d) ==> (final(self).description matches Some(e) && e@ == d@),
            description is None ==> final(self).description == old(self).description,
            final(self).last_activated == old(self).last_activated,
            final(self).activation_count == old(self).activation_count,
    {
        self.cookbook = Some(cookbook.to_owned());
        match description {
            Some(d) => {
                self.description = Some(d.to_owned());
            },
            None => {},
        }
    }
}

} // verus!
