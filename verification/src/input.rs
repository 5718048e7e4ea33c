//! What a caller submits: the files to process and the engine to run.

use vstd::prelude::*;

verus! {

/// One submitted spreadsheet: the identifier under which progress and
/// failures are reported, and where the file lies.
#[derive(Debug, Clone)]
pub struct InputFile {
    pub uuid: String,
    pub path: String,
}

/// Which rate-constant engine to run.
#[derive(Debug, Clone, Copy, PartialEq, Eq, Structural)]
pub enum EngineType {
    Single,
    Multi,
}

/// The directory in which the engine `engine` is installed.
pub open spec fn engine_directory_of(engine: EngineType) -> Seq<char> {
    match engine {
        EngineType::Single => "single-timepoint-engine"@,
        EngineType::Multi => "multi-timepoint-engine"@,
    }
}

/// The path of a file as it was submitted: the text itself, unchanged.
pub fn deserialize_path(text: String) -> (path: String)
    ensures
        path@ == text@,
{
    text
}

/// The directory in which the engine `engine` is installed, below the
/// directory of bundled resources.
pub fn engine_directory(engine: EngineType) -> (name: &'static str)
    ensures
        name@ == engine_directory_of(engine),
{
    match engine {
        EngineType::Single => "single-timepoint-engine",
        EngineType::Multi => "multi-timepoint-engine",
    }
}

} // verus!
