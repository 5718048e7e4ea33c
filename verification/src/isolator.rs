//! Cutting one peptide, without the sample columns it lacks, out of a
//! spreadsheet and out of the heavy-water file that goes with it.

use crate::csv_io::{csv_decode, csv_encode, read_rows, write_rows};
use crate::naming::{
    fresh_id, heavy_water_name, heavy_water_suffix, spreadsheet_name, spreadsheet_suffix,
};
use crate::missing::{
    absent_columns, lemma_absent_columns, lemma_entries_stand_for_peptides, missing_entries_of,
};
use crate::parser::{
    body_fault, body_start, lemma_sound_body, parsed, titles_row_of, LEADING_COLUMNS,
};
use crate::table::{
    column_mask, contains_index, flagged, index_set, lemma_omitted_counts_columns,
    lemma_without_columns_agree, omitted, omitted_columns, shifted, text_without_columns,
    without_columns,
};
use crate::text::same_text;
use vstd::prelude::*;

verus! {

/// Row `i` goes into the reduced table: a leading row, or a row of the
/// peptide `name`.
pub open spec fn is_selected(rows: Seq<Seq<Seq<char>>>, name: Seq<char>, i: int) -> bool {
    i < body_start(rows) || (rows[i].len() > 1 && rows[i][1] == name)
}

/// The peptide `name` has a row in the table.
pub open spec fn has_peptide(rows: Seq<Seq<Seq<char>>>, name: Seq<char>) -> bool {
    exists|i: int|
        body_start(rows) <= i < rows.len() && (#[trigger] rows[i]).len() > 1 && rows[i][1]
            == name
}

/// The selected rows among the first `upto`, in their order, each without
/// the positions in `dropped`.
pub open spec fn isolated_rows(
    rows: Seq<Seq<Seq<char>>>,
    name: Seq<char>,
    dropped: Set<int>,
    upto: int,
) -> Seq<Seq<Seq<char>>>
    decreases upto,
{
    if upto <= 0 {
        Seq::empty()
    } else if is_selected(rows, name, upto - 1) {
        isolated_rows(rows, name, dropped, upto - 1).push(
            without_columns(rows[upto - 1], dropped),
        )
    } else {
        isolated_rows(rows, name, dropped, upto - 1)
    }
}

/// The field positions that the sample columns `columns` occupy in a row.
pub open spec fn sample_positions(columns: Seq<usize>) -> Set<int> {
    shifted(index_set(columns), LEADING_COLUMNS as int)
}

/// The positions of the selected rows among the first `upto`, ascending.
pub open spec fn selected_positions(rows: Seq<Seq<Seq<char>>>, name: Seq<char>, upto: int) -> Seq<
    int,
>
    decreases upto,
{
    if upto <= 0 {
        Seq::empty()
    } else if is_selected(rows, name, upto - 1) {
        selected_positions(rows, name, upto - 1).push(upto - 1)
    } else {
        selected_positions(rows, name, upto - 1)
    }
}

/// The reduced table is a stable selection: its rows are the selected rows of
/// the source, in the source's order, each without the dropped positions.
pub proof fn lemma_isolated_rows_stable(
    rows: Seq<Seq<Seq<char>>>,
    name: Seq<char>,
    dropped: Set<int>,
    upto: int,
)
    requires
        0 <= upto <= rows.len(),
    ensures
        isolated_rows(rows, name, dropped, upto).len() == selected_positions(
            rows,
            name,
            upto,
        ).len(),
        forall|k: int|
            0 <= k < selected_positions(rows, name, upto).len() ==> {
                let i = #[trigger] selected_positions(rows, name, upto)[k];
                &&& 0 <= i < upto
                &&& is_selected(rows, name, i)
                &&& isolated_rows(rows, name, dropped, upto)[k] == without_columns(
                    rows[i],
                    dropped,
                )
            },
        forall|k: int, l: int|
            #![trigger
                selected_positions(rows, name, upto)[k],
                selected_positions(rows, name, upto)[l],
            ]
            0 <= k < l < selected_positions(rows, name, upto).len() ==> selected_positions(
                rows,
                name,
                upto,
            )[k] < selected_positions(rows, name, upto)[l],
        forall|i: int|
            0 <= i < upto && is_selected(rows, name, i) ==> #[trigger] selected_positions(
                rows,
                name,
                upto,
            ).contains(i),
    decreases upto,
{
    if upto > 0 {
        lemma_isolated_rows_stable(rows, name, dropped, upto - 1);
        let all = selected_positions(rows, name, upto);
        let before = selected_positions(rows, name, upto - 1);
        assert forall|i: int| 0 <= i < upto && is_selected(rows, name, i) implies all.contains(
            i,
        ) by {
            if i < upto - 1 {
                assert(before.contains(i));
                let k = choose|k: int| 0 <= k < before.len() && before[k] == i;
                assert(all[k] == i);
            } else {
                assert(all[all.len() - 1] == i);
            }
        }
    }
}

/// Every peptide that a table is found to lack readings for has a row in
/// that table, so it can be isolated from it.
pub proof fn lemma_affected_peptides_have_rows(rows: Seq<Seq<Seq<char>>>, i: int)
    requires
        parsed(rows) is Ok,
        0 <= i < missing_entries_of(parsed(rows)->Ok_0.3).len(),
    ensures
        has_peptide(rows, missing_entries_of(parsed(rows)->Ok_0.3)[i].0),
{
    let peptides = parsed(rows)->Ok_0.3;
    let name = missing_entries_of(peptides)[i].0;
    lemma_entries_stand_for_peptides(peptides, i);
    let k = choose|k: int|
        0 <= k < peptides.len() && (#[trigger] peptides[k]).name == name && absent_columns(
            peptides[k].intensities,
        ) == missing_entries_of(peptides)[i].1;
    let start = body_start(rows);
    lemma_sound_body(rows, start, rows.len() as int);
    assert(body_fault(rows, start + k) is None);
    assert(rows[start + k].len() > 1 && rows[start + k][1] == name);
}

/// The columns recorded for an affected peptide are omitted one by one: as
/// many fields go as the entry has columns.
pub proof fn lemma_affected_columns_are_omitted(rows: Seq<Seq<Seq<char>>>, i: int)
    requires
        parsed(rows) is Ok,
        0 <= i < missing_entries_of(parsed(rows)->Ok_0.3).len(),
        rows.len() > 0 ==> rows[0].len() <= usize::MAX,
    ensures
        omitted_samples(rows, missing_entries_of(parsed(rows)->Ok_0.3)[i].1)
            == missing_entries_of(parsed(rows)->Ok_0.3)[i].1.len(),
{
    let peptides = parsed(rows)->Ok_0.3;
    let entry = missing_entries_of(peptides)[i];
    lemma_entries_stand_for_peptides(peptides, i);
    let k = choose|k: int|
        0 <= k < peptides.len() && (#[trigger] peptides[k]).name == entry.0 && absent_columns(
            peptides[k].intensities,
        ) == entry.1;
    let start = body_start(rows);
    lemma_sound_body(rows, start, rows.len() as int);
    assert(body_fault(rows, start + k) is None);
    lemma_absent_columns(peptides[k].intensities);
    assert forall|j: int| 0 <= j < entry.1.len() implies #[trigger] entry.1[j] + LEADING_COLUMNS
        < rows[0].len() by {
        assert(entry.1[j] < peptides[k].intensities.len());
    }
    lemma_omitted_counts_columns(rows[0].len(), entry.1, LEADING_COLUMNS as int);
}

/// The widest row's width.
fn widest(rows: &Vec<Vec<String>>) -> (width: usize)
    ensures
        forall|i: int| 0 <= i < rows.len() ==> (#[trigger] rows[i]).len() <= width,
{
    let mut width: usize = 0;
    let mut i: usize = 0;
    while i < rows.len()
        invariant
            i <= rows.len(),
            forall|k: int| 0 <= k < i ==> (#[trigger] rows[k]).len() <= width,
        decreases rows.len() - i,
    {
        if rows[i].len() > width {
            width = rows[i].len();
        }
        i += 1;
    }
    width
}

/// Reduces a table to the peptide `peptide`: keeps the leading rows and the
/// rows whose second field is `peptide`, in their order, and leaves out of
/// each the fields of the sample columns `na_samples`. `None` if the peptide
/// has no row.
pub fn isolate_rows(rows: &Vec<Vec<String>>, peptide: &str, na_samples: &Vec<usize>) -> (out:
    Option<Vec<Vec<String>>>)
    ensures
        out is Some <==> has_peptide(rows.deep_view(), peptide@),
        out is Some ==> out->Some_0.deep_view() == isolated_rows(
            rows.deep_view(),
            peptide@,
            sample_positions(na_samples@),
            rows.len() as int,
        ),
{
    let ghost table = rows.deep_view();
    let ghost dropped = sample_positions(na_samples@);
    let titles_row = titles_row_of(rows);
    let start = if titles_row < rows.len() {
        titles_row + 1
    } else {
        rows.len()
    };
    let width = widest(rows);
    let mask = column_mask(na_samples, LEADING_COLUMNS, width);
    let mut reduced: Vec<Vec<String>> = Vec::new();
    let mut found = false;
    let mut i: usize = 0;
    while i < rows.len()
        invariant
            i <= rows.len(),
            table == rows.deep_view(),
            dropped == sample_positions(na_samples@),
            start == body_start(table),
            mask.len() == width,
            forall|k: int| 0 <= k < rows.len() ==> (#[trigger] rows[k]).len() <= width,
            forall|p: int| 0 <= p < width ==> #[trigger] mask[p] == dropped.contains(p),
            reduced.deep_view() == isolated_rows(table, peptide@, dropped, i as int),
            found <==> exists|k: int|
                start <= k < i && (#[trigger] table[k]).len() > 1 && table[k][1] == peptide@,
        decreases rows.len() - i,
    {
        let row = &rows[i];
        assert(table[i as int] == row.deep_view());
        let is_peptide_row = row.len() > 1 && same_text(row[1].as_str(), peptide);
        assert(is_peptide_row == (table[i as int].len() > 1 && table[i as int][1] == peptide@))
            by {
            if row.len() > 1 {
                assert(table[i as int][1] == row[1]@);
            }
        }
        if i >= start && is_peptide_row {
            found = true;
        }
        if i < start || is_peptide_row {
            let kept = text_without_columns(row, &mask);
            proof {
                lemma_without_columns_agree(table[i as int], flagged(mask@), dropped);
            }
            let ghost before = reduced.deep_view();
            reduced.push(kept);
            assert(reduced.deep_view() =~= before.push(
                without_columns(table[i as int], dropped),
            ));
        }
        i += 1;
    }
    if found {
        Some(reduced)
    } else {
        None
    }
}

/// The byte that ends a line.
pub const NEWLINE: u8 = 10;

/// The number of the line on which the byte at position `p` stands: the
/// number of line ends in front of it.
pub open spec fn line_number(text: Seq<u8>, p: int) -> int
    decreases p,
{
    if p <= 0 {
        0
    } else if text[p - 1] == NEWLINE {
        line_number(text, p - 1) + 1
    } else {
        line_number(text, p - 1)
    }
}

/// `text` without the lines whose number is in `dropped`, line ends included.
pub open spec fn without_lines(text: Seq<u8>, dropped: Set<int>) -> Seq<u8>
    decreases text.len(),
{
    if text.len() == 0 {
        text
    } else if dropped.contains(line_number(text, text.len() - 1)) {
        without_lines(text.drop_last(), dropped)
    } else {
        without_lines(text.drop_last(), dropped).push(text.last())
    }
}

/// The lines of a heavy-water file that the sample columns `columns` occupy:
/// one line per sample column, after the header line.
pub open spec fn sample_lines(columns: Seq<usize>) -> Set<int> {
    shifted(index_set(columns), 1)
}

/// The line number of a position depends only on what stands in front of it.
pub proof fn lemma_line_number_prefix(text: Seq<u8>, n: int, p: int)
    requires
        0 <= p <= n <= text.len(),
    ensures
        line_number(text.take(n), p) == line_number(text, p),
    decreases p,
{
    if p > 0 {
        lemma_line_number_prefix(text, n, p - 1);
    }
}

/// The positions below `upto` whose line is not in `dropped`, ascending.
pub open spec fn kept_bytes(text: Seq<u8>, dropped: Set<int>, upto: int) -> Seq<int>
    decreases upto,
{
    if upto <= 0 {
        Seq::empty()
    } else if dropped.contains(line_number(text, upto - 1)) {
        kept_bytes(text, dropped, upto - 1)
    } else {
        kept_bytes(text, dropped, upto - 1).push(upto - 1)
    }
}

/// What is kept of the first `n` bytes of a text is exactly what stands on
/// lines that are not dropped: the kept positions ascend, none of them is on
/// a dropped line, every position on another line is among them, and the
/// reduced text holds the bytes at those positions in that order.
pub proof fn lemma_without_lines_selects(text: Seq<u8>, dropped: Set<int>, n: int)
    requires
        0 <= n <= text.len(),
    ensures
        without_lines(text.take(n), dropped).len() == kept_bytes(text, dropped, n).len(),
        forall|i: int|
            0 <= i < kept_bytes(text, dropped, n).len() ==> {
                let p = #[trigger] kept_bytes(text, dropped, n)[i];
                &&& 0 <= p < n
                &&& !dropped.contains(line_number(text, p))
                &&& without_lines(text.take(n), dropped)[i] == text[p]
            },
        forall|i: int, j: int|
            0 <= i < j < kept_bytes(text, dropped, n).len() ==> #[trigger] kept_bytes(
                text,
                dropped,
                n,
            )[i] < #[trigger] kept_bytes(text, dropped, n)[j],
        forall|p: int|
            0 <= p < n && !dropped.contains(line_number(text, p)) ==> #[trigger] kept_bytes(
                text,
                dropped,
                n,
            ).contains(p),
    decreases n,
{
    if n > 0 {
        lemma_without_lines_selects(text, dropped, n - 1);
        lemma_line_number_prefix(text, n, n - 1);
        assert(text.take(n).drop_last() =~= text.take(n - 1));
        let all = kept_bytes(text, dropped, n);
        let before = kept_bytes(text, dropped, n - 1);
        assert forall|p: int|
            0 <= p < n && !dropped.contains(line_number(text, p)) implies all.contains(p) by {
            if p < n - 1 {
                assert(before.contains(p));
                let k = choose|k: int| 0 <= k < before.len() && before[k] == p;
                assert(all[k] == p);
            } else {
                assert(all[all.len() - 1] == p);
            }
        }
    }
}

/// Removes from a heavy-water file the lines of the sample columns
/// `na_samples`. The header line and the other lines stay as they are, in
/// their order.
pub fn reduce_heavy_water(contents: &Vec<u8>, na_samples: &Vec<usize>) -> (reduced: Vec<u8>)
    ensures
        reduced@ == without_lines(contents@, sample_lines(na_samples@)),
{
    let ghost dropped = sample_lines(na_samples@);
    let mut reduced: Vec<u8> = Vec::new();
    let mut line: usize = 0;
    let mut skip = false;
    let mut i: usize = 0;
    while i < contents.len()
        invariant
            i <= contents.len(),
            dropped == sample_lines(na_samples@),
            line == line_number(contents@, i as int),
            line <= i,
            skip == dropped.contains(line as int),
            reduced@ == without_lines(contents@.take(i as int), dropped),
        decreases contents.len() - i,
    {
        let byte = contents[i];
        proof {
            let upto = contents@.take(i + 1);
            assert(upto.drop_last() =~= contents@.take(i as int));
            lemma_line_number_prefix(contents@, i + 1, i as int);
        }
        if !skip {
            reduced.push(byte);
        }
        if byte == NEWLINE {
            line += 1;
            skip = contains_index(na_samples, line - 1);
        }
        i += 1;
    }
    assert(contents@.take(i as int) =~= contents@);
    reduced
}

/// The files of one dataset, by name, and the number of sample columns that
/// were left out of them.
#[derive(Debug, Clone)]
pub struct Dataset {
    pub spreadsheet: String,
    pub heavy_water: String,
    pub samples_removed: u64,
}

/// A dataset that was cut out for one peptide, with the contents of its two
/// files.
#[derive(Debug, Clone)]
pub struct IsolatedDataset {
    pub dataset: Dataset,
    pub spreadsheet_contents: Vec<u8>,
    pub heavy_water_contents: Vec<u8>,
}

/// The files of `dataset` bear drawn names: an identifier each, then the
/// extension of a spreadsheet and of a heavy-water file.
pub open spec fn drawn_names(dataset: Dataset) -> bool {
    &&& exists|id: Seq<char>| dataset.spreadsheet@ == #[trigger] (id + spreadsheet_suffix())
    &&& exists|id: Seq<char>| dataset.heavy_water@ == #[trigger] (id + heavy_water_suffix())
}

/// How many sample columns of a table the list `columns` names: the number
/// of fields that a row as wide as the first one loses. A column that the
/// list names twice counts once, one beyond the table not at all.
pub open spec fn omitted_samples(rows: Seq<Seq<Seq<char>>>, columns: Seq<usize>) -> nat {
    if rows.len() > 0 {
        omitted(rows[0].len(), sample_positions(columns))
    } else {
        0
    }
}

/// Names the two input files of a run for the working directory: the whole
/// spreadsheet and the whole heavy-water file, under freshly drawn names,
/// with no sample left out.
pub fn copy_input_files(spreadsheet: &Vec<u8>, heavy_water: &Vec<u8>) -> (out: IsolatedDataset)
    ensures
        out.spreadsheet_contents@ == spreadsheet@,
        out.heavy_water_contents@ == heavy_water@,
        out.dataset.samples_removed == 0,
        drawn_names(out.dataset),
{
    let spreadsheet_id = fresh_id();
    let heavy_water_id = fresh_id();
    IsolatedDataset {
        dataset: Dataset {
            spreadsheet: spreadsheet_name(spreadsheet_id.as_str()),
            heavy_water: heavy_water_name(heavy_water_id.as_str()),
            samples_removed: 0,
        },
        spreadsheet_contents: spreadsheet.clone(),
        heavy_water_contents: heavy_water.clone(),
    }
}

/// Why a peptide could not be isolated.
#[derive(Debug, Clone, Copy, PartialEq, Eq, Structural)]
pub enum IsolateError {
    /// The spreadsheet could not be read beyond its first `row` rows.
    Unreadable { row: usize },
    /// No peptide row bears the name.
    PeptideNotFound,
}

/// What isolation makes of what the reader yielded for the spreadsheet: the
/// contents of the reduced spreadsheet, or why there is none.
pub open spec fn isolated_spreadsheet(
    decoded: (Seq<Seq<Seq<char>>>, bool),
    name: Seq<char>,
    columns: Seq<usize>,
) -> Result<Seq<u8>, IsolateError> {
    if decoded.1 {
        Err(IsolateError::Unreadable { row: decoded.0.len() as usize })
    } else if !has_peptide(decoded.0, name) {
        Err(IsolateError::PeptideNotFound)
    } else {
        Ok(
            csv_encode(
                isolated_rows(decoded.0, name, sample_positions(columns), decoded.0.len() as int),
            ),
        )
    }
}

/// Isolates a peptide into files named after the two identifiers given.
pub fn isolate_as(
    csv_contents: &Vec<u8>,
    heavy_water_contents: &Vec<u8>,
    peptide: &str,
    na_samples: &Vec<usize>,
    spreadsheet_id: &str,
    heavy_water_id: &str,
) -> (out: Result<IsolatedDataset, IsolateError>)
    ensures
        match isolated_spreadsheet(
            csv_decode(csv_contents@, false, false),
            peptide@,
            na_samples@,
        ) {
            Ok(bytes) => {
                &&& out is Ok
                &&& out->Ok_0.spreadsheet_contents@ == bytes
                &&& out->Ok_0.heavy_water_contents@ == without_lines(
                    heavy_water_contents@,
                    sample_lines(na_samples@),
                )
                &&& out->Ok_0.dataset.samples_removed == omitted_samples(
                    csv_decode(csv_contents@, false, false).0,
                    na_samples@,
                )
                &&& out->Ok_0.dataset.spreadsheet@ == spreadsheet_id@ + spreadsheet_suffix()
                &&& out->Ok_0.dataset.heavy_water@ == heavy_water_id@ + heavy_water_suffix()
            },
            Err(fault) => out is Err && out->Err_0 == fault,
        },
{
    let (rows, failure) = read_rows(csv_contents, false, false);
    if failure.is_some() {
        return Err(IsolateError::Unreadable { row: rows.len() });
    }
    let reduced = match isolate_rows(&rows, peptide, na_samples) {
        Some(reduced) => reduced,
        None => {
            return Err(IsolateError::PeptideNotFound);
        },
    };
    let spreadsheet_contents = match write_rows(&reduced, true) {
        Ok(bytes) => bytes,
        Err(_) => vstd::pervasive::unreached(),
    };
    assert(rows.len() > 0);
    assert(rows.deep_view()[0] == rows[0].deep_view());
    let samples_removed = omitted_columns(na_samples, LEADING_COLUMNS, rows[0].len()) as u64;
    Ok(
        IsolatedDataset {
            dataset: Dataset {
                spreadsheet: spreadsheet_name(spreadsheet_id),
                heavy_water: heavy_water_name(heavy_water_id),
                samples_removed,
            },
            spreadsheet_contents,
            heavy_water_contents: reduce_heavy_water(heavy_water_contents, na_samples),
        },
    )
}

/// Isolates a peptide: a spreadsheet with the leading rows and the rows of
/// that peptide, a heavy-water file to match, both without the sample columns
/// `na_samples`, under freshly drawn names.
pub fn isolate(
    csv_contents: &Vec<u8>,
    heavy_water_contents: &Vec<u8>,
    peptide: &str,
    na_samples: &Vec<usize>,
) -> (out: Result<IsolatedDataset, IsolateError>)
    ensures
        match isolated_spreadsheet(
            csv_decode(csv_contents@, false, false),
            peptide@,
            na_samples@,
        ) {
            Ok(bytes) => {
                &&& out is Ok
                &&& out->Ok_0.spreadsheet_contents@ == bytes
                &&& out->Ok_0.heavy_water_contents@ == without_lines(
                    heavy_water_contents@,
                    sample_lines(na_samples@),
                )
                &&& out->Ok_0.dataset.samples_removed == omitted_samples(
                    csv_decode(csv_contents@, false, false).0,
                    na_samples@,
                )
                &&& drawn_names(out->Ok_0.dataset)
            },
            Err(fault) => out is Err && out->Err_0 == fault,
        },
{
    let spreadsheet_id = fresh_id();
    let heavy_water_id = fresh_id();
    isolate_as(
        csv_contents,
        heavy_water_contents,
        peptide,
        na_samples,
        spreadsheet_id.as_str(),
        heavy_water_id.as_str(),
    )
}

} // verus!
