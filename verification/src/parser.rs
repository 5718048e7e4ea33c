//! Reading the peptide spreadsheet: three rows of per-sample metadata, a row
//! of column titles, then one row per peptide.

use crate::csv_io::{csv_decode, read_rows};
use crate::text::{is_number, is_number_text, parse_unsigned, unsigned_of};
use vstd::prelude::*;

verus! {

/// A timepoint, in days.
pub type Day = u64;

/// A subject identifier.
pub type Mouse = String;

/// An isotope-enrichment label, kept as written.
pub type Label = String;

/// The number of columns in front of the first sample column.
pub const LEADING_COLUMNS: usize = 3;

/// One peptide row. The mass-to-charge ratio is kept as the text that was
/// read, after it has been recognised as a number. An intensity is `None`
/// where the reading is absent.
#[derive(Debug, Clone)]
pub struct Peptide {
    pub name: String,
    pub protein: String,
    pub mass_charge_ratio: String,
    pub intensities: Vec<Option<u64>>,
}

/// A peptide as plain values.
pub struct PeptideView {
    pub name: Seq<char>,
    pub protein: Seq<char>,
    pub mass_charge_ratio: Seq<char>,
    pub intensities: Seq<Option<u64>>,
}

impl DeepView for Peptide {
    type V = PeptideView;

    open spec fn deep_view(&self) -> PeptideView {
        PeptideView {
            name: self.name@,
            protein: self.protein@,
            mass_charge_ratio: self.mass_charge_ratio@,
            intensities: self.intensities@,
        }
    }
}

impl View for Peptide {
    type V = PeptideView;

    open spec fn view(&self) -> PeptideView {
        self.deep_view()
    }
}

/// Why a spreadsheet could not be parsed. Rows and columns count from zero;
/// a column is a sample column.
#[derive(Debug, Clone, Copy, PartialEq, Eq, Structural)]
pub enum ParseError {
    /// The table could not be read beyond its first `row` rows.
    Unreadable { row: usize },
    /// Row `row` has another width than the first row, or is a peptide row
    /// with fewer than three fields.
    MalformedRow { row: usize },
    /// The timepoint of sample column `column` is not an unsigned number.
    InvalidDay { column: usize },
    /// The mass-to-charge ratio of row `row` is not a number.
    InvalidMassChargeRatio { row: usize },
    /// The table has sample columns, but only `found` of the three rows that
    /// describe them: timepoints, subjects and labels.
    MissingMetadata { found: usize },
}

/// A row that has no field with any text in it.
pub open spec fn is_blank(row: Seq<Seq<char>>) -> bool {
    forall|j: int| 0 <= j < row.len() ==> (#[trigger] row[j]).len() == 0
}

/// The position of the first row at or after `from` that is not blank; the
/// number of rows if there is none.
pub open spec fn next_filled(rows: Seq<Seq<Seq<char>>>, from: int) -> int
    decreases rows.len() - from,
{
    if from < 0 || from >= rows.len() {
        rows.len() as int
    } else if !is_blank(rows[from]) {
        from
    } else {
        next_filled(rows, from + 1)
    }
}

/// Where the row of timepoints stands: the first row that is not blank.
pub open spec fn days_at(rows: Seq<Seq<Seq<char>>>) -> int {
    next_filled(rows, 0)
}

/// Where the row of subjects stands: the second row that is not blank.
pub open spec fn mice_at(rows: Seq<Seq<Seq<char>>>) -> int {
    next_filled(rows, days_at(rows) + 1)
}

/// Where the row of labels stands: the third row that is not blank.
pub open spec fn labels_at(rows: Seq<Seq<Seq<char>>>) -> int {
    next_filled(rows, mice_at(rows) + 1)
}

/// Where the row of column titles stands: the fourth row that is not blank.
pub open spec fn titles_at(rows: Seq<Seq<Seq<char>>>) -> int {
    next_filled(rows, labels_at(rows) + 1)
}

/// The number of leading rows: everything up to and including the row of
/// column titles, or the whole table if it has none.
pub open spec fn body_start(rows: Seq<Seq<Seq<char>>>) -> int {
    if titles_at(rows) < rows.len() {
        titles_at(rows) + 1
    } else {
        rows.len() as int
    }
}

/// The fields of `row` that belong to sample columns.
pub open spec fn samples_of(row: Seq<Seq<char>>) -> Seq<Seq<char>> {
    if row.len() > LEADING_COLUMNS {
        row.skip(LEADING_COLUMNS as int)
    } else {
        Seq::empty()
    }
}

/// The sample fields of row `at`, or none if the table has no such row.
pub open spec fn samples_at(rows: Seq<Seq<Seq<char>>>, at: int) -> Seq<Seq<char>> {
    if 0 <= at < rows.len() {
        samples_of(rows[at])
    } else {
        Seq::empty()
    }
}

/// The position of the first field at or after `from` that is not an unsigned
/// number; the number of fields if there is none.
pub open spec fn first_unreadable(fields: Seq<Seq<char>>, from: int) -> int
    decreases fields.len() - from,
{
    if from < 0 || from >= fields.len() {
        fields.len() as int
    } else if unsigned_of(fields[from]) is None {
        from
    } else {
        first_unreadable(fields, from + 1)
    }
}

/// The timepoints that `fields` spell.
pub open spec fn days_of(fields: Seq<Seq<char>>) -> Seq<Day> {
    Seq::new(fields.len(), |j: int| unsigned_of(fields[j]).unwrap())
}

/// The intensities that `fields` spell: a reading where the field is an
/// unsigned number, absent for the marker `#N/A` and any other text.
pub open spec fn intensities_of(fields: Seq<Seq<char>>) -> Seq<Option<u64>> {
    Seq::new(fields.len(), |j: int| unsigned_of(fields[j]))
}

/// The peptide that a row of at least three fields describes.
pub open spec fn peptide_of(row: Seq<Seq<char>>) -> PeptideView {
    PeptideView {
        protein: row[0],
        name: row[1],
        mass_charge_ratio: row[2],
        intensities: intensities_of(samples_of(row)),
    }
}

/// What is wrong with row `i` as one of the leading rows, if anything.
pub open spec fn header_fault(rows: Seq<Seq<Seq<char>>>, i: int) -> Option<ParseError> {
    if rows[i].len() != rows[0].len() {
        Some(ParseError::MalformedRow { row: i as usize })
    } else if i == days_at(rows) && first_unreadable(samples_of(rows[i]), 0) < samples_of(
        rows[i],
    ).len() {
        Some(ParseError::InvalidDay { column: first_unreadable(samples_of(rows[i]), 0) as usize })
    } else {
        None
    }
}

/// What is wrong with row `i` as a peptide row, if anything.
pub open spec fn body_fault(rows: Seq<Seq<Seq<char>>>, i: int) -> Option<ParseError> {
    if rows[i].len() != rows[0].len() || rows[i].len() < LEADING_COLUMNS {
        Some(ParseError::MalformedRow { row: i as usize })
    } else if !is_number_text(rows[i][2]) {
        Some(ParseError::InvalidMassChargeRatio { row: i as usize })
    } else {
        None
    }
}

/// The fault of the first faulty row among the leading rows `from` up to `to`.
pub open spec fn first_header_fault(rows: Seq<Seq<Seq<char>>>, from: int, to: int) -> Option<
    ParseError,
>
    decreases to - from,
{
    if from >= to {
        None
    } else if header_fault(rows, from) is Some {
        header_fault(rows, from)
    } else {
        first_header_fault(rows, from + 1, to)
    }
}

/// The fault of the first faulty row among the peptide rows `from` up to `to`.
pub open spec fn first_body_fault(rows: Seq<Seq<Seq<char>>>, from: int, to: int) -> Option<
    ParseError,
>
    decreases to - from,
{
    if from >= to {
        None
    } else if body_fault(rows, from) is Some {
        body_fault(rows, from)
    } else {
        first_body_fault(rows, from + 1, to)
    }
}

/// The table has a sample column: its first row has more fields than the
/// three in front of the samples.
pub open spec fn has_sample_column(rows: Seq<Seq<Seq<char>>>) -> bool {
    rows.len() > 0 && rows[0].len() > LEADING_COLUMNS
}

/// How many of the rows of timepoints, subjects and labels the table has.
pub open spec fn metadata_rows(rows: Seq<Seq<Seq<char>>>) -> nat {
    if labels_at(rows) < rows.len() {
        3
    } else if mice_at(rows) < rows.len() {
        2
    } else if days_at(rows) < rows.len() {
        1
    } else {
        0
    }
}

/// What is wrong with the leading rows, if anything: the fault of the first
/// faulty one, or, if each is in order, that a table with a sample column
/// lacks one of its three rows of metadata.
pub open spec fn leading_fault(rows: Seq<Seq<Seq<char>>>) -> Option<ParseError> {
    if first_header_fault(rows, 0, body_start(rows)) is Some {
        first_header_fault(rows, 0, body_start(rows))
    } else if has_sample_column(rows) && metadata_rows(rows) < 3 {
        Some(ParseError::MissingMetadata { found: metadata_rows(rows) as usize })
    } else {
        None
    }
}

/// The first fault of the table: rows are judged in order, the leading rows
/// first.
pub open spec fn first_fault(rows: Seq<Seq<Seq<char>>>) -> Option<ParseError> {
    if leading_fault(rows) is Some {
        leading_fault(rows)
    } else {
        first_body_fault(rows, body_start(rows), rows.len() as int)
    }
}

/// The peptides that rows `from` up to the end describe.
pub open spec fn peptides_of(rows: Seq<Seq<Seq<char>>>, from: int) -> Seq<PeptideView> {
    if 0 <= from <= rows.len() {
        Seq::new((rows.len() - from) as nat, |k: int| peptide_of(rows[from + k]))
    } else {
        Seq::empty()
    }
}

/// The metadata and peptides of a table, or its first fault.
pub open spec fn parsed(rows: Seq<Seq<Seq<char>>>) -> Result<
    (Seq<Day>, Seq<Seq<char>>, Seq<Seq<char>>, Seq<PeptideView>),
    ParseError,
> {
    match first_fault(rows) {
        Some(fault) => Err(fault),
        None => Ok(
            (
                days_of(samples_at(rows, days_at(rows))),
                samples_at(rows, mice_at(rows)),
                samples_at(rows, labels_at(rows)),
                peptides_of(rows, body_start(rows)),
            ),
        ),
    }
}

/// The four parts of a parsed spreadsheet as plain values.
pub open spec fn sheet_view(sheet: (Vec<Day>, Vec<Mouse>, Vec<Label>, Vec<Peptide>)) -> (
    Seq<Day>,
    Seq<Seq<char>>,
    Seq<Seq<char>>,
    Seq<PeptideView>,
) {
    (sheet.0@, sheet.1.deep_view(), sheet.2.deep_view(), sheet.3.deep_view())
}

/// Every per-sample sequence has one entry per sample column.
pub open spec fn aligned(
    sheet: (Seq<Day>, Seq<Seq<char>>, Seq<Seq<char>>, Seq<PeptideView>),
) -> bool {
    &&& sheet.0.len() == sheet.1.len()
    &&& sheet.0.len() == sheet.2.len()
    &&& forall|k: int|
        0 <= k < sheet.3.len() ==> (#[trigger] sheet.3[k]).intensities.len() == sheet.0.len()
}

/// Whether `row` is blank.
pub fn is_blank_row(row: &Vec<String>) -> (blank: bool)
    ensures
        blank == is_blank(row.deep_view()),
{
    let mut j: usize = 0;
    while j < row.len()
        invariant
            j <= row.len(),
            forall|k: int| 0 <= k < j ==> (#[trigger] row.deep_view()[k]).len() == 0,
        decreases row.len() - j,
    {
        if !row[j].as_str().is_empty() {
            assert(row.deep_view()[j as int].len() != 0);
            return false;
        }
        j += 1;
    }
    true
}

/// The position of the first row at or after `from` that is not blank.
pub fn next_filled_row(rows: &Vec<Vec<String>>, from: usize) -> (at: usize)
    ensures
        at == next_filled(rows.deep_view(), from as int),
        at <= rows.len(),
        from <= rows.len() ==> from <= at,
        at < rows.len() ==> !is_blank(rows.deep_view()[at as int]),
{
    let mut i: usize = from;
    while i < rows.len()
        invariant
            from <= i,
            next_filled(rows.deep_view(), from as int) == next_filled(rows.deep_view(), i as int),
        decreases rows.len() - i,
    {
        if !is_blank_row(&rows[i]) {
            return i;
        }
        i += 1;
    }
    rows.len()
}

/// The text of the sample fields of `row`.
fn sample_texts(row: &Vec<String>) -> (out: Vec<String>)
    ensures
        out.deep_view() == samples_of(row.deep_view()),
{
    let mut out: Vec<String> = Vec::new();
    let mut j: usize = LEADING_COLUMNS;
    while j < row.len()
        invariant
            LEADING_COLUMNS <= j,
            row.len() >= LEADING_COLUMNS ==> j <= row.len(),
            j <= row.len() ==> out.len() == j - LEADING_COLUMNS,
            j > row.len() ==> out.len() == 0,
            forall|k: int| 0 <= k < out.len() ==> #[trigger] out[k]@ == row[k + LEADING_COLUMNS]@,
        decreases row.len() - j,
    {
        out.push(row[j].clone());
        j += 1;
    }
    assert forall|k: int| 0 <= k < out.len() implies out.deep_view()[k] == samples_of(
        row.deep_view(),
    )[k] by {
        assert(out.deep_view()[k] == out[k]@);
        assert(row.deep_view()[k + LEADING_COLUMNS] == row[k + LEADING_COLUMNS]@);
    }
    assert(out.deep_view() =~= samples_of(row.deep_view()));
    out
}

/// The timepoints in the sample fields of `row`, or the sample column of the
/// first field that is not an unsigned number.
fn sample_days(row: &Vec<String>) -> (out: Result<Vec<Day>, usize>)
    ensures
        match out {
            Ok(days) => {
                &&& first_unreadable(samples_of(row.deep_view()), 0) == samples_of(
                    row.deep_view(),
                ).len()
                &&& days@ == days_of(samples_of(row.deep_view()))
            },
            Err(column) => {
                &&& column == first_unreadable(samples_of(row.deep_view()), 0)
                &&& column < samples_of(row.deep_view()).len()
            },
        },
{
    let texts = sample_texts(row);
    let ghost fields = samples_of(row.deep_view());
    let mut days: Vec<Day> = Vec::new();
    let mut j: usize = 0;
    while j < texts.len()
        invariant
            j <= texts.len(),
            texts.deep_view() == fields,
            fields == samples_of(row.deep_view()),
            days.len() == j,
            first_unreadable(fields, 0) == first_unreadable(fields, j as int),
            forall|k: int| 0 <= k < j ==> Some(#[trigger] days[k]) == unsigned_of(fields[k]),
        decreases texts.len() - j,
    {
        assert(fields[j as int] == texts[j as int]@);
        match parse_unsigned(texts[j].as_str()) {
            Some(day) => {
                days.push(day);
            },
            None => {
                return Err(j);
            },
        }
        j += 1;
    }
    assert(days@ =~= days_of(fields));
    Ok(days)
}

/// The intensities in the sample fields of `row`.
fn sample_intensities(row: &Vec<String>) -> (out: Vec<Option<u64>>)
    ensures
        out@ == intensities_of(samples_of(row.deep_view())),
{
    let texts = sample_texts(row);
    let ghost fields = samples_of(row.deep_view());
    let mut out: Vec<Option<u64>> = Vec::new();
    let mut j: usize = 0;
    while j < texts.len()
        invariant
            j <= texts.len(),
            texts.deep_view() == fields,
            out.len() == j,
            forall|k: int| 0 <= k < j ==> #[trigger] out[k] == unsigned_of(fields[k]),
        decreases texts.len() - j,
    {
        assert(fields[j as int] == texts[j as int]@);
        out.push(parse_unsigned(texts[j].as_str()));
        j += 1;
    }
    assert(out@ =~= intensities_of(fields));
    out
}

/// Reads the leading rows of a table: the timepoints, subjects and labels of
/// the sample columns, from its first three rows that are not blank. Blank
/// rows are passed over; the fourth row that is not blank ends the leading
/// rows and is not read. A table with a sample column must have all three
/// rows, so that what is read has one entry per sample column in each.
pub fn extract_headers(rows: &Vec<Vec<String>>) -> (out: Result<
    (Vec<Day>, Vec<Mouse>, Vec<Label>),
    ParseError,
>)
    ensures
        match leading_fault(rows.deep_view()) {
            Some(fault) => out is Err && out->Err_0 == fault,
            None => {
                &&& out is Ok
                &&& out->Ok_0.0.len() == out->Ok_0.1.len()
                &&& out->Ok_0.0.len() == out->Ok_0.2.len()
                &&& out->Ok_0.0@ == days_of(
                    samples_at(rows.deep_view(), days_at(rows.deep_view())),
                )
                &&& out->Ok_0.1.deep_view() == samples_at(
                    rows.deep_view(),
                    mice_at(rows.deep_view()),
                )
                &&& out->Ok_0.2.deep_view() == samples_at(
                    rows.deep_view(),
                    labels_at(rows.deep_view()),
                )
            },
        },
{
    let ghost table = rows.deep_view();
    let days_row = next_filled_row(rows, 0);
    let mice_row = if days_row < rows.len() {
        next_filled_row(rows, days_row + 1)
    } else {
        rows.len()
    };
    let labels_row = if mice_row < rows.len() {
        next_filled_row(rows, mice_row + 1)
    } else {
        rows.len()
    };
    let titles_row = if labels_row < rows.len() {
        next_filled_row(rows, labels_row + 1)
    } else {
        rows.len()
    };
    let end = if titles_row < rows.len() {
        titles_row + 1
    } else {
        rows.len()
    };
    assert(end == body_start(table));
    let mut days: Vec<Day> = Vec::new();
    let mut i: usize = 0;
    while i < end
        invariant
            i <= end <= rows.len(),
            table == rows.deep_view(),
            days_row == days_at(table),
            end == body_start(table),
            first_header_fault(table, 0, end as int) == first_header_fault(
                table,
                i as int,
                end as int,
            ),
            i <= days_row ==> days@ == Seq::<Day>::empty(),
            i > days_row ==> days@ == days_of(samples_of(table[days_row as int])),
        decreases end - i,
    {
        assert(table[i as int] == rows[i as int].deep_view());
        assert(table[0] == rows[0].deep_view());
        if rows[i].len() != rows[0].len() {
            return Err(ParseError::MalformedRow { row: i });
        }
        if i == days_row {
            match sample_days(&rows[i]) {
                Ok(read) => {
                    days = read;
                },
                Err(column) => {
                    return Err(ParseError::InvalidDay { column });
                },
            }
        }
        i += 1;
    }
    let found: usize = if labels_row < rows.len() {
        3
    } else if mice_row < rows.len() {
        2
    } else if days_row < rows.len() {
        1
    } else {
        0
    };
    if rows.len() > 0 {
        assert(table[0] == rows[0].deep_view());
        if rows[0].len() > LEADING_COLUMNS && found < 3 {
            return Err(ParseError::MissingMetadata { found });
        }
    }
    proof {
        lemma_sound_headers(table, 0, end as int);
        if days_row < rows.len() {
            assert(header_fault(table, days_row as int) is None);
        }
        if mice_row < rows.len() {
            assert(header_fault(table, mice_row as int) is None);
        }
        if labels_row < rows.len() {
            assert(header_fault(table, labels_row as int) is None);
        }
    }
    let mice = if mice_row < rows.len() {
        assert(table[mice_row as int] == rows[mice_row as int].deep_view());
        sample_texts(&rows[mice_row])
    } else {
        Vec::new()
    };
    let labels = if labels_row < rows.len() {
        assert(table[labels_row as int] == rows[labels_row as int].deep_view());
        sample_texts(&rows[labels_row])
    } else {
        Vec::new()
    };
    assert(mice.deep_view() =~= samples_at(table, mice_at(table)));
    assert(labels.deep_view() =~= samples_at(table, labels_at(table)));
    assert(days@ =~= days_of(samples_at(table, days_at(table))));
    Ok((days, mice, labels))
}

/// Reads the peptide rows of a table, which begin at row `start`.
pub fn extract_peptides(rows: &Vec<Vec<String>>, start: usize) -> (out: Result<
    Vec<Peptide>,
    ParseError,
>)
    ensures
        match first_body_fault(rows.deep_view(), start as int, rows.len() as int) {
            Some(fault) => out is Err && out->Err_0 == fault,
            None => out is Ok && out->Ok_0.deep_view() == peptides_of(
                rows.deep_view(),
                start as int,
            ),
        },
{
    let ghost table = rows.deep_view();
    let mut peptides: Vec<Peptide> = Vec::new();
    if start > rows.len() {
        assert(peptides.deep_view() =~= peptides_of(table, start as int));
        return Ok(peptides);
    }
    let mut i: usize = start;
    while i < rows.len()
        invariant
            start <= i <= rows.len(),
            table == rows.deep_view(),
            first_body_fault(table, start as int, rows.len() as int) == first_body_fault(
                table,
                i as int,
                rows.len() as int,
            ),
            peptides.len() == i - start,
            forall|k: int|
                0 <= k < peptides.len() ==> (#[trigger] peptides[k]).deep_view() == peptide_of(
                    table[start + k],
                ),
        decreases rows.len() - i,
    {
        let row = &rows[i];
        assert(table[i as int] == row.deep_view());
        assert(table[0] == rows[0].deep_view());
        if row.len() != rows[0].len() || row.len() < LEADING_COLUMNS {
            return Err(ParseError::MalformedRow { row: i });
        }
        assert(table[i as int][2] == row[2]@);
        if !is_number(row[2].as_str()) {
            return Err(ParseError::InvalidMassChargeRatio { row: i });
        }
        let peptide = Peptide {
            name: row[1].clone(),
            protein: row[0].clone(),
            mass_charge_ratio: row[2].clone(),
            intensities: sample_intensities(row),
        };
        assert(peptide.deep_view() == peptide_of(table[i as int]));
        peptides.push(peptide);
        i += 1;
    }
    assert(peptides.deep_view() =~= peptides_of(table, start as int));
    Ok(peptides)
}

/// Parses a table that has been read into rows.
pub fn parse_rows(rows: &Vec<Vec<String>>) -> (out: Result<
    (Vec<Day>, Vec<Mouse>, Vec<Label>, Vec<Peptide>),
    ParseError,
>)
    ensures
        match parsed(rows.deep_view()) {
            Ok(sheet) => out is Ok && sheet_view(out->Ok_0) == sheet,
            Err(fault) => out is Err && out->Err_0 == fault,
        },
        out is Ok ==> aligned(sheet_view(out->Ok_0)),
{
    proof {
        if parsed(rows.deep_view()) is Ok {
            lemma_parsed_columns_align(rows.deep_view());
        }
    }
    let (days, mice, labels) = match extract_headers(rows) {
        Ok(headers) => headers,
        Err(fault) => {
            return Err(fault);
        },
    };
    let titles_row = titles_row_of(rows);
    let start = if titles_row < rows.len() {
        titles_row + 1
    } else {
        rows.len()
    };
    match extract_peptides(rows, start) {
        Ok(peptides) => Ok((days, mice, labels, peptides)),
        Err(fault) => Err(fault),
    }
}

/// The position of the row of column titles.
pub fn titles_row_of(rows: &Vec<Vec<String>>) -> (at: usize)
    ensures
        at == titles_at(rows.deep_view()),
        at <= rows.len(),
{
    let days_row = next_filled_row(rows, 0);
    let mice_row = if days_row < rows.len() {
        next_filled_row(rows, days_row + 1)
    } else {
        rows.len()
    };
    let labels_row = if mice_row < rows.len() {
        next_filled_row(rows, mice_row + 1)
    } else {
        rows.len()
    };
    if labels_row < rows.len() {
        next_filled_row(rows, labels_row + 1)
    } else {
        rows.len()
    }
}

/// What parsing makes of what the reader yielded: the rows that were read are
/// judged first, and a table that could not be read to its end is rejected
/// even if those rows are in order. Only a table that was read to its end is
/// held to lack metadata.
pub open spec fn parse_outcome(decoded: (Seq<Seq<Seq<char>>>, bool)) -> Result<
    (Seq<Day>, Seq<Seq<char>>, Seq<Seq<char>>, Seq<PeptideView>),
    ParseError,
> {
    match parsed(decoded.0) {
        Err(fault) => if decoded.1 && fault is MissingMetadata {
            Err(ParseError::Unreadable { row: decoded.0.len() as usize })
        } else {
            Err(fault)
        },
        Ok(sheet) => if decoded.1 {
            Err(ParseError::Unreadable { row: decoded.0.len() as usize })
        } else {
            Ok(sheet)
        },
    }
}

/// Parses the bytes of a peptide spreadsheet into the timepoints, subjects
/// and labels of its sample columns and its peptides.
pub fn parse(contents: &Vec<u8>) -> (out: Result<
    (Vec<Day>, Vec<Mouse>, Vec<Label>, Vec<Peptide>),
    ParseError,
>)
    ensures
        match parse_outcome(csv_decode(contents@, false, false)) {
            Ok(sheet) => out is Ok && sheet_view(out->Ok_0) == sheet,
            Err(fault) => out is Err && out->Err_0 == fault,
        },
        out is Ok ==> aligned(sheet_view(out->Ok_0)),
{
    let (rows, failure) = read_rows(contents, false, false);
    match parse_rows(&rows) {
        Err(ParseError::MissingMetadata { found }) => {
            if failure.is_some() {
                Err(ParseError::Unreadable { row: rows.len() })
            } else {
                Err(ParseError::MissingMetadata { found })
            }
        },
        Err(fault) => Err(fault),
        Ok(sheet) => {
            if failure.is_some() {
                Err(ParseError::Unreadable { row: rows.len() })
            } else {
                Ok(sheet)
            }
        },
    }
}

/// From `from` on, the next row that is not blank stands at or after `from`,
/// and every row in between is blank.
pub proof fn lemma_next_filled_bounds(rows: Seq<Seq<Seq<char>>>, from: int)
    requires
        0 <= from <= rows.len(),
    ensures
        from <= next_filled(rows, from) <= rows.len(),
        next_filled(rows, from) < rows.len() ==> !is_blank(rows[next_filled(rows, from)]),
        forall|i: int| from <= i < next_filled(rows, from) ==> is_blank(#[trigger] rows[i]),
    decreases rows.len() - from,
{
    if from < rows.len() && is_blank(rows[from]) {
        lemma_next_filled_bounds(rows, from + 1);
    }
}

/// Where no leading row among `from` up to `to` is at fault, each of them has
/// the width of the first row.
pub proof fn lemma_sound_headers(rows: Seq<Seq<Seq<char>>>, from: int, to: int)
    requires
        0 <= from,
        to <= rows.len(),
        first_header_fault(rows, from, to) is None,
    ensures
        forall|i: int| from <= i < to ==> header_fault(rows, i) is None,
    decreases to - from,
{
    if from < to {
        lemma_sound_headers(rows, from + 1, to);
    }
}

/// Where no peptide row among `from` up to `to` is at fault, each of them has
/// the width of the first row, at least three fields, and a number for its
/// mass-to-charge ratio.
pub proof fn lemma_sound_body(rows: Seq<Seq<Seq<char>>>, from: int, to: int)
    requires
        0 <= from,
        to <= rows.len(),
        first_body_fault(rows, from, to) is None,
    ensures
        forall|i: int| from <= i < to ==> body_fault(rows, i) is None,
    decreases to - from,
{
    if from < to {
        lemma_sound_body(rows, from + 1, to);
    }
}

/// A table that parses yields as many timepoints as subjects and as labels,
/// and as many intensities for every peptide.
pub proof fn lemma_parsed_columns_align(rows: Seq<Seq<Seq<char>>>)
    requires
        parsed(rows) is Ok,
    ensures
        aligned(parsed(rows)->Ok_0),
{
    let sheet = parsed(rows)->Ok_0;
    lemma_next_filled_bounds(rows, 0);
    let d = days_at(rows);
    if d < rows.len() {
        lemma_next_filled_bounds(rows, d + 1);
    }
    let m = mice_at(rows);
    if m < rows.len() {
        lemma_next_filled_bounds(rows, m + 1);
    }
    let l = labels_at(rows);
    if l < rows.len() {
        lemma_next_filled_bounds(rows, l + 1);
    }
    let start = body_start(rows);
    lemma_sound_headers(rows, 0, start);
    lemma_sound_body(rows, start, rows.len() as int);
    if d < rows.len() {
        assert(header_fault(rows, d) is None);
    }
    if m < rows.len() {
        assert(header_fault(rows, m) is None);
    }
    if l < rows.len() {
        assert(header_fault(rows, l) is None);
    }
    assert forall|k: int| 0 <= k < sheet.3.len() implies (#[trigger] sheet.3[k]).intensities.len()
        == sheet.0.len() by {
        assert(body_fault(rows, start + k) is None);
        assert(header_fault(rows, 0) is None);
    }
}

} // verus!
