//! Core of a distributed CI/CD pipeline executor.
//!
//! A pipeline is an ordered list of build steps (shell commands, nested
//! pipeline calls) with artifact transfers, run against a target platform
//! (the host machine or a container). This crate holds the verified core:
//! context interpolation, environment and variable resolution, the runner's
//! scheduling and cancellation decisions, and the worker supervisor's queue.
use vstd::prelude::*;

pub mod builder;
pub mod commands;
pub mod config;
pub mod errors;
pub mod interp;
pub mod machine;
pub mod pipeline;
pub mod platform;
pub mod runner;
pub mod socket;
pub mod supervisor;

verus! {

/// A resolved key/value binding of the run context.
#[derive(Debug, Clone, PartialEq, Eq)]
pub struct Binding {
    pub name: String,
    pub value: String,
}

impl Binding {
    pub fn new(name: String, value: String) -> (r: Binding)
        ensures
            r.name@ == name@,
            r.value@ == value@,
    {
        Binding { name, value }
    }
}

} // verus!
