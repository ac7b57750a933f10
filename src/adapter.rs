//! Window-manager adapters: which environment is active, and switching to one.
use vstd::prelude::*;

use crate::text::{split_once, split_once_spec};

verus! {

/// Why an adapter could not answer.
#[derive(Debug, Clone, PartialEq, Eq)]
pub struct AdapterError {
    pub message: String,
}

/// A window-manager adapter.
pub trait EnwiroAdapterTrait {
    /// The name of the environment of the active workspace.
    fn get_active_environment_name(&self) -> Result<String, AdapterError>;

    /// The name of the active lens.
    fn get_active_lens_name(&self) -> Result<String, AdapterError>;

    /// Switches to the workspace of the environment `name`.
    fn activate(&self, name: &str) -> Result<(), AdapterError>;
}

/// An adapter plugin, run as the executable `enwiro-adapter-<name>`.
#[derive(Debug, Clone, PartialEq, Eq)]
pub struct EnwiroAdapterExternal {
    pub adapter_command: String,
}

impl EnwiroAdapterExternal {
    /// The adapter plugin named `adapter_name`.
    pub fn new(adapter_name: &str) -> (r: EnwiroAdapterExternal)
        ensures
            r.adapter_command@ == "enwiro-adapter-"@ + adapter_name@,
    {
        let mut command = "enwiro-adapter-".to_owned();
        command.append(adapter_name);
        EnwiroAdapterExternal { adapter_command: command }
    }
}

/// The part of `s` before its first colon, all of it where there is none.
pub open spec fn before_colon(s: Seq<char>) -> Seq<char> {
    match split_once_spec(s, ':') {
        Some((head, _)) => head,
        None => s,
    }
}

/// The part of `s` between its first and second colon; empty where it has no
/// colon.
pub open spec fn after_colon(s: Seq<char>) -> Seq<char> {
    match split_once_spec(s, ':') {
        Some((_, rest)) => before_colon(rest),
        None => Seq::empty(),
    }
}

/// The environment name in an adapter's `get-active-workspace-id` output.
pub fn environment_from_adapter_output(stdout: &str) -> (r: String)
    ensures
        r@ == before_colon(stdout@),
{
    match split_once(stdout, ':') {
        Some((head, _)) => head.to_owned(),
        None => stdout.to_owned(),
    }
}

/// The lens name in an adapter's `get-active-workspace-id` output.
pub fn lens_from_adapter_output(stdout: &str) -> (r: String)
    ensures
        r@ == after_colon(stdout@),
{
    match split_once(stdout, ':') {
        Some((_, rest)) => environment_from_adapter_output(rest),
        None => String::new(),
    }
}

/// The adapter used where none is configured: it knows no active environment.
#[derive(Debug, Clone, Copy, PartialEq, Eq)]
pub struct EnwiroAdapterNone {}

impl EnwiroAdapterTrait for EnwiroAdapterNone {
    fn get_active_environment_name(&self) -> (r: Result<String, AdapterError>)
        ensures
            r is Err,
    {
        Err(
            AdapterError {
                message: "Could not determine active environment because no adapter is configured.".to_owned(),
            },
        )
    }

    fn get_active_lens_name(&self) -> (r: Result<String, AdapterError>)
        ensures
            r is Err,
    {
        Err(
            AdapterError {
                message: "Could not determine active lens because no adapter is configured.".to_owned(),
            },
        )
    }

    fn activate(&self, name: &str) -> (r: Result<(), AdapterError>)
        ensures
            r is Ok,
    {
        Ok(())
    }
}

} // verus!
