//! Names of the files that one run creates.

use vstd::prelude::*;
use vstd::string::*;

verus! {

/// What the rate-constant engine appends to the base name of a spreadsheet to
/// name its result file.
pub open spec fn result_suffix() -> Seq<char> {
    ".RateConst.csv"@
}

/// The extension of a spreadsheet file.
pub open spec fn spreadsheet_suffix() -> Seq<char> {
    ".csv"@
}

/// The extension of a heavy-water file.
pub open spec fn heavy_water_suffix() -> Seq<char> {
    ".txt"@
}

/// Draws a random identifier with `uuid::Uuid::new_v4` and renders it as
/// text. Nothing is claimed of the outcome.
#[verifier::external_body]
pub(crate) fn fresh_id() -> (id: String) {
    uuid::Uuid::new_v4().to_string()
}

/// The name of the spreadsheet file with the identifier `id`.
pub fn spreadsheet_name(id: &str) -> (name: String)
    ensures
        name@ == id@ + spreadsheet_suffix(),
{
    String::from_str(id).concat(".csv")
}

/// The name of the heavy-water file with the identifier `id`.
pub fn heavy_water_name(id: &str) -> (name: String)
    ensures
        name@ == id@ + heavy_water_suffix(),
{
    String::from_str(id).concat(".txt")
}

/// The name of the spreadsheet file of a group of peptides with the
/// identifier `id`.
pub fn peptides_file_name(id: &str) -> (name: String)
    ensures
        name@ == "peptides_"@ + id@ + spreadsheet_suffix(),
{
    String::from_str("peptides_").concat(id).concat(".csv")
}

/// The name of the heavy-water file of a group of peptides with the
/// identifier `id`.
pub fn heavy_water_file_name(id: &str) -> (name: String)
    ensures
        name@ == "heavy_water_"@ + id@ + heavy_water_suffix(),
{
    String::from_str("heavy_water_").concat(id).concat(".txt")
}

/// The name of the file in which the engine leaves its result for the
/// spreadsheet whose base name is `stem`.
pub fn result_name(stem: &str) -> (name: String)
    ensures
        name@ == stem@ + result_suffix(),
{
    String::from_str(stem).concat(".RateConst.csv")
}

} // verus!
