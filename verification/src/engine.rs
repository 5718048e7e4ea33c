//! The rate-constant engine as seen from the pipeline: how it is started and
//! what is made of how it ended. Starting it and waiting for it is left to
//! the caller.

use crate::naming::{result_name, result_suffix};
use vstd::prelude::*;
use vstd::string::*;

verus! {

/// The engine did not complete successfully; `diagnostics` is what it wrote
/// to its error stream.
#[derive(Debug, Clone)]
pub struct EngineError {
    pub diagnostics: String,
}

/// The name of the engine's program file.
pub fn engine_program() -> (name: &'static str)
    ensures
        name@ == "SRM_Rate.exe"@,
{
    "SRM_Rate.exe"
}

/// The arguments with which the engine is started: the heavy-water file
/// first, the spreadsheet second.
pub fn engine_arguments(heavy_water: &str, spreadsheet: &str) -> (arguments: Vec<String>)
    ensures
        arguments.deep_view() == seq![heavy_water@, spreadsheet@],
{
    let mut arguments: Vec<String> = Vec::new();
    arguments.push(String::from_str(heavy_water));
    arguments.push(String::from_str(spreadsheet));
    assert(arguments.deep_view() =~= seq![heavy_water@, spreadsheet@]);
    arguments
}

/// What a run of the engine on the spreadsheet with the base name `stem`
/// comes to: the name of its result file if it exited with success, its
/// diagnostics if not.
pub fn execute_outcome(succeeded: bool, diagnostics: String, stem: &str) -> (out: Result<
    String,
    EngineError,
>)
    ensures
        succeeded ==> out is Ok && out->Ok_0@ == stem@ + result_suffix(),
        !succeeded ==> out is Err && out->Err_0.diagnostics@ == diagnostics@,
{
    if succeeded {
        Ok(result_name(stem))
    } else {
        Err(EngineError { diagnostics })
    }
}

} // verus!
