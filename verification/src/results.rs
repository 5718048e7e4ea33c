//! The rows of kinetic parameters that the engine computes, one per peptide,
//! and the table in which they are handed out.

use crate::csv_io::{csv_decode, csv_encode, read_rows, uniform_width, write_rows};
use crate::text::{decimal, decimal_text, trim_text, trimmed};
use vstd::prelude::*;
use vstd::string::*;

verus! {

/// The number of fields that the engine writes per peptide.
pub const ENGINE_FIELDS: usize = 12;

/// One peptide's kinetic parameters. Everything the engine computed is kept
/// as the text it wrote; `samples_omitted` says how many sample columns were
/// left out of the data it was run on.
#[derive(Debug, Clone)]
pub struct Calculation {
    pub protein: String,
    pub peptide: String,
    pub neh: String,
    pub charge: String,
    pub mean: String,
    pub n_ret_1: String,
    pub mpe_0: String,
    pub mpe_1: String,
    pub two_sd_minus: String,
    pub n_ret_2: String,
    pub two_sd_plus: String,
    pub n_ret_3: String,
    pub samples_omitted: u64,
}

/// A calculation as plain values: the twelve engine fields in their order,
/// and the count.
pub struct CalculationView {
    pub fields: Seq<Seq<char>>,
    pub samples_omitted: u64,
}

impl DeepView for Calculation {
    type V = CalculationView;

    open spec fn deep_view(&self) -> CalculationView {
        CalculationView {
            fields: seq![
                self.protein@,
                self.peptide@,
                self.neh@,
                self.charge@,
                self.mean@,
                self.n_ret_1@,
                self.mpe_0@,
                self.mpe_1@,
                self.two_sd_minus@,
                self.n_ret_2@,
                self.two_sd_plus@,
                self.n_ret_3@,
            ],
            samples_omitted: self.samples_omitted,
        }
    }
}

impl View for Calculation {
    type V = CalculationView;

    open spec fn view(&self) -> CalculationView {
        self.deep_view()
    }
}

/// The annotation for `n` omitted samples: nothing for none, `1 sample
/// omitted` for one, and the count with `samples omitted` for more.
pub open spec fn annotation_text(n: u64) -> Seq<char> {
    if n == 0 {
        Seq::empty()
    } else if n == 1 {
        "1 sample omitted"@
    } else {
        decimal(n as nat) + " samples omitted"@
    }
}

/// Words the annotation for `samples_omitted` omitted samples.
pub fn annotation(samples_omitted: u64) -> (text: String)
    ensures
        text@ == annotation_text(samples_omitted),
{
    if samples_omitted == 0 {
        String::new()
    } else if samples_omitted == 1 {
        String::from_str("1 sample omitted")
    } else {
        decimal_text(samples_omitted).concat(" samples omitted")
    }
}

/// The titles of the result table's columns. The last column, which takes
/// the annotation, has none.
pub open spec fn header_fields() -> Seq<Seq<char>> {
    seq![
        "Protein"@,
        "Peptide"@,
        "NEH"@,
        "Charge"@,
        "Mean"@,
        "nRet"@,
        "MPE_0"@,
        "MPE_1"@,
        "Two_SD_Minus"@,
        "nRet"@,
        "Two_SD_Plus"@,
        "nRet"@,
        Seq::empty(),
    ]
}

/// The row that a calculation fills in the result table: the engine's twelve
/// fields, then the annotation.
pub open spec fn row_of(calculation: CalculationView) -> Seq<Seq<char>> {
    calculation.fields.push(annotation_text(calculation.samples_omitted))
}

/// The result table: the titles, then one row per calculation, in order.
pub open spec fn result_table(calculations: Seq<CalculationView>) -> Seq<Seq<Seq<char>>> {
    seq![header_fields()] + Seq::new(calculations.len(), |k: int| row_of(calculations[k]))
}

/// The titles of the result table's columns.
pub fn header_row() -> (row: Vec<String>)
    ensures
        row.deep_view() == header_fields(),
{
    let mut row: Vec<String> = Vec::new();
    row.push(String::from_str("Protein"));
    row.push(String::from_str("Peptide"));
    row.push(String::from_str("NEH"));
    row.push(String::from_str("Charge"));
    row.push(String::from_str("Mean"));
    row.push(String::from_str("nRet"));
    row.push(String::from_str("MPE_0"));
    row.push(String::from_str("MPE_1"));
    row.push(String::from_str("Two_SD_Minus"));
    row.push(String::from_str("nRet"));
    row.push(String::from_str("Two_SD_Plus"));
    row.push(String::from_str("nRet"));
    row.push(String::new());
    assert(row.deep_view() =~= header_fields());
    row
}

/// The row that `calculation` fills in the result table.
pub fn calculation_row(calculation: &Calculation) -> (row: Vec<String>)
    ensures
        row.deep_view() == row_of(calculation.deep_view()),
{
    let mut row: Vec<String> = Vec::new();
    row.push(calculation.protein.clone());
    row.push(calculation.peptide.clone());
    row.push(calculation.neh.clone());
    row.push(calculation.charge.clone());
    row.push(calculation.mean.clone());
    row.push(calculation.n_ret_1.clone());
    row.push(calculation.mpe_0.clone());
    row.push(calculation.mpe_1.clone());
    row.push(calculation.two_sd_minus.clone());
    row.push(calculation.n_ret_2.clone());
    row.push(calculation.two_sd_plus.clone());
    row.push(calculation.n_ret_3.clone());
    row.push(annotation(calculation.samples_omitted));
    assert(row.deep_view() =~= row_of(calculation.deep_view()));
    row
}

/// Lays the calculations out as the result table.
pub fn calculation_rows(calculations: &Vec<Calculation>) -> (rows: Vec<Vec<String>>)
    ensures
        rows.deep_view() == result_table(calculations.deep_view()),
        uniform_width(rows.deep_view()),
{
    let mut rows: Vec<Vec<String>> = Vec::new();
    rows.push(header_row());
    let mut k: usize = 0;
    while k < calculations.len()
        invariant
            k <= calculations.len(),
            rows.len() == k + 1,
            rows[0].deep_view() == header_fields(),
            forall|j: int|
                0 <= j < k ==> (#[trigger] rows[j + 1]).deep_view() == row_of(
                    calculations[j].deep_view(),
                ),
        decreases calculations.len() - k,
    {
        rows.push(calculation_row(&calculations[k]));
        k += 1;
    }
    assert(rows.deep_view() =~= result_table(calculations.deep_view())) by {
        assert forall|i: int| 0 <= i < rows.len() implies rows.deep_view()[i] == result_table(
            calculations.deep_view(),
        )[i] by {
            if i > 0 {
                assert(rows[(i - 1) + 1].deep_view() == row_of(calculations[i - 1].deep_view()));
            }
        }
    }
    assert(uniform_width(rows.deep_view())) by {
        assert forall|i: int| 0 <= i < rows.len() implies (#[trigger] rows.deep_view()[i]).len()
            == rows.deep_view()[0].len() by {
            if i > 0 {
                assert(rows[(i - 1) + 1].deep_view() == row_of(calculations[i - 1].deep_view()));
            }
        }
    }
    rows
}

/// Writes the calculations as the result table: a row of titles, then one
/// row per calculation with its annotation in the last column.
pub fn serialize_calculations(calculations: &Vec<Calculation>) -> (contents: Vec<u8>)
    ensures
        contents@ == csv_encode(result_table(calculations.deep_view())),
{
    let rows = calculation_rows(calculations);
    match write_rows(&rows, false) {
        Ok(contents) => contents,
        Err(_) => vstd::pervasive::unreached(),
    }
}

/// Why a result file could not be taken in. Rows count from zero, after the
/// row of titles.
#[derive(Debug, Clone, Copy, PartialEq, Eq, Structural)]
pub enum ResultError {
    /// The file could not be read beyond its first `row` rows.
    Unreadable { row: usize },
    /// Row `row` has fewer fields than the engine writes.
    MalformedRow { row: usize },
}

/// A result file that could not be taken in, by its position among the files
/// handed over.
#[derive(Debug, Clone, Copy, PartialEq, Eq, Structural)]
pub struct FileFault {
    pub file: usize,
    pub fault: ResultError,
}

/// The calculation that a row of at least twelve fields holds: its first
/// twelve fields, the peptide's name trimmed.
pub open spec fn calculation_of(row: Seq<Seq<char>>, samples_omitted: u64) -> CalculationView {
    CalculationView {
        fields: row.take(ENGINE_FIELDS as int).update(1, trimmed(row[1])),
        samples_omitted,
    }
}

/// The position of the first row at or after `from` that has fewer than
/// twelve fields; the number of rows if there is none.
pub open spec fn first_short(rows: Seq<Seq<Seq<char>>>, from: int) -> int
    decreases rows.len() - from,
{
    if from < 0 || from >= rows.len() {
        rows.len() as int
    } else if rows[from].len() < ENGINE_FIELDS {
        from
    } else {
        first_short(rows, from + 1)
    }
}

/// The calculations that the rows of a result file hold.
pub open spec fn calculations_of(rows: Seq<Seq<Seq<char>>>, samples_omitted: u64) -> Result<
    Seq<CalculationView>,
    ResultError,
> {
    if first_short(rows, 0) < rows.len() {
        Err(ResultError::MalformedRow { row: first_short(rows, 0) as usize })
    } else {
        Ok(Seq::new(rows.len(), |k: int| calculation_of(rows[k], samples_omitted)))
    }
}

/// What is made of what the reader yielded for a result file: the rows that
/// were read are judged first.
pub open spec fn calculations_outcome(decoded: (Seq<Seq<Seq<char>>>, bool), samples_omitted: u64)
    -> Result<Seq<CalculationView>, ResultError> {
    match calculations_of(decoded.0, samples_omitted) {
        Err(fault) => Err(fault),
        Ok(calculations) => if decoded.1 {
            Err(ResultError::Unreadable { row: decoded.0.len() as usize })
        } else {
            Ok(calculations)
        },
    }
}

/// Takes the calculations out of the rows of a result file, each marked with
/// `samples_omitted`.
pub fn read_calculations(rows: &Vec<Vec<String>>, samples_omitted: u64) -> (out: Result<
    Vec<Calculation>,
    ResultError,
>)
    ensures
        match calculations_of(rows.deep_view(), samples_omitted) {
            Ok(calculations) => out is Ok && out->Ok_0.deep_view() == calculations,
            Err(fault) => out is Err && out->Err_0 == fault,
        },
{
    let ghost table = rows.deep_view();
    let mut calculations: Vec<Calculation> = Vec::new();
    let mut k: usize = 0;
    while k < rows.len()
        invariant
            k <= rows.len(),
            table == rows.deep_view(),
            first_short(table, 0) == first_short(table, k as int),
            calculations.len() == k,
            forall|j: int|
                0 <= j < k ==> (#[trigger] calculations[j]).deep_view() == calculation_of(
                    table[j],
                    samples_omitted,
                ),
        decreases rows.len() - k,
    {
        let row = &rows[k];
        assert(table[k as int] == row.deep_view());
        if row.len() < ENGINE_FIELDS {
            return Err(ResultError::MalformedRow { row: k });
        }
        let calculation = Calculation {
            protein: row[0].clone(),
            peptide: trim_text(row[1].as_str()),
            neh: row[2].clone(),
            charge: row[3].clone(),
            mean: row[4].clone(),
            n_ret_1: row[5].clone(),
            mpe_0: row[6].clone(),
            mpe_1: row[7].clone(),
            two_sd_minus: row[8].clone(),
            n_ret_2: row[9].clone(),
            two_sd_plus: row[10].clone(),
            n_ret_3: row[11].clone(),
            samples_omitted,
        };
        assert(calculation.deep_view().fields =~= calculation_of(
            table[k as int],
            samples_omitted,
        ).fields) by {
            assert(forall|j: int| 0 <= j < 12 ==> table[k as int][j] == row[j]@);
        }
        calculations.push(calculation);
        k += 1;
    }
    assert(calculations.deep_view() =~= Seq::new(
        table.len(),
        |j: int| calculation_of(table[j], samples_omitted),
    ));
    Ok(calculations)
}

/// Takes the calculations out of the bytes of a result file, whose first row
/// holds the titles.
pub fn parse_calculations(contents: &Vec<u8>, samples_omitted: u64) -> (out: Result<
    Vec<Calculation>,
    ResultError,
>)
    ensures
        match calculations_outcome(csv_decode(contents@, true, false), samples_omitted) {
            Ok(calculations) => out is Ok && out->Ok_0.deep_view() == calculations,
            Err(fault) => out is Err && out->Err_0 == fault,
        },
{
    let (rows, failure) = read_rows(contents, true, false);
    match read_calculations(&rows, samples_omitted) {
        Err(fault) => Err(fault),
        Ok(calculations) => {
            if failure.is_some() {
                Err(ResultError::Unreadable { row: rows.len() })
            } else {
                Ok(calculations)
            }
        },
    }
}

/// The calculations of the first `upto` result files, one file after the
/// other, or the first file that could not be taken in.
pub open spec fn aggregated(files: Seq<(Seq<u8>, u64)>, upto: int) -> Result<
    Seq<CalculationView>,
    FileFault,
>
    decreases upto,
{
    if upto <= 0 {
        Ok(Seq::empty())
    } else {
        match aggregated(files, upto - 1) {
            Err(fault) => Err(fault),
            Ok(before) => match calculations_outcome(
                csv_decode(files[upto - 1].0, true, false),
                files[upto - 1].1,
            ) {
                Err(fault) => Err(FileFault { file: (upto - 1) as usize, fault }),
                Ok(calculations) => Ok(before + calculations),
            },
        }
    }
}

/// The contents and counts of result files as plain values.
pub open spec fn files_view(spreadsheets: Seq<(Vec<u8>, u64)>) -> Seq<(Seq<u8>, u64)> {
    Seq::new(spreadsheets.len(), |i: int| (spreadsheets[i].0@, spreadsheets[i].1))
}

/// Gathers the calculations of several result files into one sequence, file
/// by file. Each file comes with the number of samples that were omitted from
/// the data it was computed on.
pub fn aggregate(spreadsheets: &Vec<(Vec<u8>, u64)>) -> (out: Result<Vec<Calculation>, FileFault>)
    ensures
        match aggregated(files_view(spreadsheets@), spreadsheets.len() as int) {
            Ok(calculations) => out is Ok && out->Ok_0.deep_view() == calculations,
            Err(fault) => out is Err && out->Err_0 == fault,
        },
{
    let ghost files = files_view(spreadsheets@);
    let mut calculations: Vec<Calculation> = Vec::new();
    assert(calculations.deep_view() =~= Seq::<CalculationView>::empty());
    let mut i: usize = 0;
    while i < spreadsheets.len()
        invariant
            i <= spreadsheets.len(),
            files == files_view(spreadsheets@),
            aggregated(files, i as int) == Ok::<Seq<CalculationView>, FileFault>(
                calculations.deep_view(),
            ),
        decreases spreadsheets.len() - i,
    {
        assert(files[i as int] == (spreadsheets[i as int].0@, spreadsheets[i as int].1));
        let mut more = match parse_calculations(&spreadsheets[i].0, spreadsheets[i].1) {
            Ok(more) => more,
            Err(fault) => {
                proof {
                    lemma_aggregated_fails_on(files, i + 1, spreadsheets.len() as int);
                }
                return Err(FileFault { file: i, fault });
            },
        };
        let ghost before = calculations.deep_view();
        let ghost added = more.deep_view();
        calculations.append(&mut more);
        assert(calculations.deep_view() =~= before + added);
        i += 1;
    }
    Ok(calculations)
}

/// Once a file has failed, taking in further files does not change the
/// outcome.
pub proof fn lemma_aggregated_fails_on(files: Seq<(Seq<u8>, u64)>, at: int, upto: int)
    requires
        at <= upto,
        aggregated(files, at) is Err,
    ensures
        aggregated(files, upto) == aggregated(files, at),
    decreases upto - at,
{
    if at < upto {
        lemma_aggregated_fails_on(files, at, upto - 1);
    }
}

} // verus!
