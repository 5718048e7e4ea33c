//! Writing datasets for the engine: a spreadsheet of peptides and the
//! heavy-water file that goes with it, one pair per group of peptides.

use crate::csv_io::{csv_encode, uniform_width, write_rows};
use crate::grouper::{GroupView, NAGroup};
use crate::isolator::{Dataset, IsolatedDataset};
use crate::naming::{fresh_id, heavy_water_file_name, peptides_file_name};
use crate::parser::{Day, Label, Mouse, Peptide, PeptideView};
use crate::table::{flagged, text_without_columns, values_without_columns, without_columns};
use vstd::utf8::encode_utf8;
use crate::text::{decimal, decimal_text, is_number, is_number_text};
use vstd::prelude::*;
use vstd::string::*;

verus! {

/// Why a dataset could not be written.
#[derive(Debug, Clone, Copy, PartialEq, Eq, Structural)]
pub enum SerializeError {
    /// The rows of the spreadsheet are not all of one width.
    UnequalWidths,
    /// There are not as many labels as timepoints.
    LengthMismatch,
}

/// The label as the heavy-water file takes it: itself if it is a number,
/// `0` if not.
pub open spec fn numeric_label(label: Seq<char>) -> Seq<char> {
    if is_number_text(label) {
        label
    } else {
        "0"@
    }
}

/// The line of one sample column in the heavy-water file.
pub open spec fn heavy_water_line(day: Day, label: Seq<char>) -> Seq<char> {
    decimal(day as nat) + ", "@ + numeric_label(label) + "\n"@
}

/// The lines of the first `upto` sample columns in the heavy-water file.
pub open spec fn heavy_water_lines(days: Seq<Day>, labels: Seq<Seq<char>>, upto: int) -> Seq<char>
    decreases upto,
{
    if upto <= 0 {
        Seq::empty()
    } else {
        heavy_water_lines(days, labels, upto - 1) + heavy_water_line(
            days[upto - 1],
            labels[upto - 1],
        )
    }
}

/// The heavy-water file: a line of titles, then one line per sample column
/// with its timepoint and its label.
pub open spec fn heavy_water_text(days: Seq<Day>, labels: Seq<Seq<char>>) -> Seq<char> {
    "Experiment, Labeling\n"@ + heavy_water_lines(days, labels, days.len() as int)
}

/// Writes the heavy-water file for the sample columns with the timepoints
/// `days` and the labels `labels`. A label that is no number is written as
/// `0`.
pub fn serialize_heavy_water_file(days: &Vec<Day>, labels: &Vec<Label>) -> (out: Result<
    String,
    SerializeError,
>)
    ensures
        days.len() != labels.len() ==> out == Err::<String, SerializeError>(
            SerializeError::LengthMismatch,
        ),
        days.len() == labels.len() ==> out is Ok && out->Ok_0@ == heavy_water_text(
            days@,
            labels.deep_view(),
        ),
{
    if days.len() != labels.len() {
        return Err(SerializeError::LengthMismatch);
    }
    let mut text = String::from_str("Experiment, Labeling\n");
    let mut i: usize = 0;
    while i < days.len()
        invariant
            i <= days.len(),
            days.len() == labels.len(),
            text@ == "Experiment, Labeling\n"@ + heavy_water_lines(
                days@,
                labels.deep_view(),
                i as int,
            ),
        decreases days.len() - i,
    {
        let ghost before = text@;
        assert(labels.deep_view()[i as int] == labels[i as int]@);
        text.append(decimal_text(days[i]).as_str());
        text.append(", ");
        if is_number(labels[i].as_str()) {
            text.append(labels[i].as_str());
        } else {
            text.append("0");
        }
        text.append("\n");
        assert(text@ =~= before + heavy_water_line(days[i as int], labels[i as int]@));
        assert(text@ =~= "Experiment, Labeling\n"@ + heavy_water_lines(
            days@,
            labels.deep_view(),
            i + 1,
        ));
        i += 1;
    }
    Ok(text)
}

/// The timepoints as text.
pub open spec fn day_texts(days: Seq<Day>) -> Seq<Seq<char>> {
    Seq::new(days.len(), |i: int| decimal(days[i] as nat))
}

/// The numbers of `n` sample columns as text, from `0`.
pub open spec fn column_numbers(n: nat) -> Seq<Seq<char>> {
    Seq::new(n, |i: int| decimal(i as nat))
}

/// A row of `width` empty fields.
pub open spec fn blank_row(width: nat) -> Seq<Seq<char>> {
    Seq::new(width, |i: int| Seq::<char>::empty())
}

/// An intensity as text; `#N/A` for an absent one.
pub open spec fn intensity_text(intensity: Option<u64>) -> Seq<char> {
    match intensity {
        None => "#N/A"@,
        Some(reading) => decimal(reading as nat),
    }
}

/// The intensities as text.
pub open spec fn intensity_texts(intensities: Seq<Option<u64>>) -> Seq<Seq<char>> {
    Seq::new(intensities.len(), |i: int| intensity_text(intensities[i]))
}

/// A title and two empty fields: the three fields in front of the sample
/// columns of a metadata row.
pub open spec fn titled(title: Seq<char>) -> Seq<Seq<char>> {
    seq![title, Seq::empty(), Seq::empty()]
}

/// The row of a peptide.
pub open spec fn peptide_row(peptide: PeptideView) -> Seq<Seq<char>> {
    seq![peptide.protein, peptide.name, peptide.mass_charge_ratio] + intensity_texts(
        peptide.intensities,
    )
}

/// The seven leading rows of a spreadsheet: timepoints, subjects and labels,
/// each followed by a blank row, and the column titles.
pub open spec fn leading_rows(days: Seq<Day>, mice: Seq<Seq<char>>, labels: Seq<Seq<char>>) -> Seq<
    Seq<Seq<char>>,
> {
    seq![
        titled("Day"@) + day_texts(days),
        blank_row(3 + days.len()),
        titled("Mouse"@) + mice,
        blank_row(3 + days.len()),
        titled("Body water enrichment"@) + labels,
        blank_row(3 + days.len()),
        seq!["Protein"@, "Peptide"@, "Product Mz"@] + column_numbers(days.len()),
    ]
}

/// The spreadsheet: the leading rows, then one row per peptide.
pub open spec fn peptide_table(
    days: Seq<Day>,
    mice: Seq<Seq<char>>,
    labels: Seq<Seq<char>>,
    peptides: Seq<PeptideView>,
) -> Seq<Seq<Seq<char>>> {
    leading_rows(days, mice, labels) + Seq::new(
        peptides.len(),
        |k: int| peptide_row(peptides[k]),
    )
}

fn titled_row(title: &str) -> (row: Vec<String>)
    ensures
        row.deep_view() == titled(title@),
{
    let mut row: Vec<String> = Vec::new();
    row.push(String::from_str(title));
    row.push(String::new());
    row.push(String::new());
    assert(row.deep_view() =~= titled(title@));
    row
}

fn extend_with_texts(row: &mut Vec<String>, texts: &Vec<String>)
    ensures
        final(row).deep_view() == old(row).deep_view() + texts.deep_view(),
{
    let mut i: usize = 0;
    while i < texts.len()
        invariant
            i <= texts.len(),
            row.deep_view() == old(row).deep_view() + texts.deep_view().take(i as int),
        decreases texts.len() - i,
    {
        let ghost before = row.deep_view();
        row.push(texts[i].clone());
        assert(row.deep_view() =~= before.push(texts[i as int]@));
        assert(row.deep_view() =~= old(row).deep_view() + texts.deep_view().take(i + 1));
        i += 1;
    }
    assert(texts.deep_view().take(i as int) =~= texts.deep_view());
}

fn days_row(days: &Vec<Day>) -> (row: Vec<String>)
    ensures
        row.deep_view() == titled("Day"@) + day_texts(days@),
{
    let mut row = titled_row("Day");
    let mut i: usize = 0;
    while i < days.len()
        invariant
            i <= days.len(),
            row.deep_view() == titled("Day"@) + day_texts(days@).take(i as int),
        decreases days.len() - i,
    {
        let ghost before = row.deep_view();
        row.push(decimal_text(days[i]));
        assert(row.deep_view() =~= before.push(decimal(days[i as int] as nat)));
        assert(row.deep_view() =~= titled("Day"@) + day_texts(days@).take(i + 1));
        i += 1;
    }
    assert(day_texts(days@).take(i as int) =~= day_texts(days@));
    row
}

fn titles_row(columns: usize) -> (row: Vec<String>)
    ensures
        row.deep_view() == seq!["Protein"@, "Peptide"@, "Product Mz"@] + column_numbers(
            columns as nat,
        ),
{
    let mut row: Vec<String> = Vec::new();
    row.push(String::from_str("Protein"));
    row.push(String::from_str("Peptide"));
    row.push(String::from_str("Product Mz"));
    let ghost lead = seq!["Protein"@, "Peptide"@, "Product Mz"@];
    assert(row.deep_view() =~= lead + column_numbers(columns as nat).take(0));
    let mut i: usize = 0;
    while i < columns
        invariant
            i <= columns,
            lead == seq!["Protein"@, "Peptide"@, "Product Mz"@],
            row.deep_view() == lead + column_numbers(columns as nat).take(i as int),
        decreases columns - i,
    {
        let ghost before = row.deep_view();
        row.push(decimal_text(i as u64));
        assert(row.deep_view() =~= before.push(decimal(i as nat)));
        assert(row.deep_view() =~= lead + column_numbers(columns as nat).take(i + 1));
        i += 1;
    }
    assert(column_numbers(columns as nat).take(i as int) =~= column_numbers(columns as nat));
    row
}

fn blank(columns: usize) -> (row: Vec<String>)
    ensures
        row.deep_view() == blank_row(3 + columns as nat),
{
    let mut row: Vec<String> = Vec::new();
    row.push(String::new());
    row.push(String::new());
    row.push(String::new());
    let mut i: usize = 0;
    while i < columns
        invariant
            i <= columns,
            row.len() == 3 + i,
            forall|j: int| 0 <= j < row.len() ==> (#[trigger] row[j])@.len() == 0,
        decreases columns - i,
    {
        row.push(String::new());
        i += 1;
    }
    assert forall|j: int| 0 <= j < row.len() implies row.deep_view()[j] == Seq::<char>::empty() by {
        assert(row[j]@ =~= Seq::<char>::empty());
    }
    assert(row.deep_view() =~= blank_row(3 + columns as nat));
    row
}

fn row_of_peptide(peptide: &Peptide) -> (row: Vec<String>)
    ensures
        row.deep_view() == peptide_row(peptide.deep_view()),
{
    let mut row: Vec<String> = Vec::new();
    row.push(peptide.protein.clone());
    row.push(peptide.name.clone());
    row.push(peptide.mass_charge_ratio.clone());
    let ghost lead = seq![peptide.protein@, peptide.name@, peptide.mass_charge_ratio@];
    let ghost texts = intensity_texts(peptide.intensities@);
    assert(row.deep_view() =~= lead + texts.take(0));
    let mut i: usize = 0;
    while i < peptide.intensities.len()
        invariant
            i <= peptide.intensities.len(),
            lead == seq![peptide.protein@, peptide.name@, peptide.mass_charge_ratio@],
            texts == intensity_texts(peptide.intensities@),
            row.deep_view() == lead + texts.take(i as int),
        decreases peptide.intensities.len() - i,
    {
        let ghost before = row.deep_view();
        let text = match peptide.intensities[i] {
            None => String::from_str("#N/A"),
            Some(reading) => decimal_text(reading),
        };
        row.push(text);
        assert(row.deep_view() =~= before.push(intensity_text(peptide.intensities[i as int])));
        assert(row.deep_view() =~= lead + texts.take(i + 1));
        i += 1;
    }
    assert(texts.take(i as int) =~= texts);
    row
}

/// Lays the metadata and the peptides out as the rows of a spreadsheet.
pub fn peptide_rows(
    days: &Vec<Day>,
    mice: &Vec<Mouse>,
    labels: &Vec<Label>,
    peptides: &Vec<Peptide>,
) -> (rows: Vec<Vec<String>>)
    ensures
        rows.deep_view() == peptide_table(
            days@,
            mice.deep_view(),
            labels.deep_view(),
            peptides.deep_view(),
        ),
{
    let ghost table = peptide_table(
        days@,
        mice.deep_view(),
        labels.deep_view(),
        peptides.deep_view(),
    );
    let mut mice_row = titled_row("Mouse");
    extend_with_texts(&mut mice_row, mice);
    let mut labels_row = titled_row("Body water enrichment");
    extend_with_texts(&mut labels_row, labels);
    let mut rows: Vec<Vec<String>> = Vec::new();
    rows.push(days_row(days));
    rows.push(blank(days.len()));
    rows.push(mice_row);
    rows.push(blank(days.len()));
    rows.push(labels_row);
    rows.push(blank(days.len()));
    rows.push(titles_row(days.len()));
    assert(rows.deep_view() =~= leading_rows(days@, mice.deep_view(), labels.deep_view()));
    let mut k: usize = 0;
    while k < peptides.len()
        invariant
            k <= peptides.len(),
            table == peptide_table(
                days@,
                mice.deep_view(),
                labels.deep_view(),
                peptides.deep_view(),
            ),
            rows.deep_view() == table.take(7 + k),
        decreases peptides.len() - k,
    {
        let ghost before = rows.deep_view();
        rows.push(row_of_peptide(&peptides[k]));
        assert(rows.deep_view() =~= before.push(peptide_row(peptides[k as int].deep_view())));
        assert(table[7 + k] == peptide_row(peptides.deep_view()[k as int]));
        assert(rows.deep_view() =~= table.take(7 + k + 1));
        k += 1;
    }
    assert(table.take(7 + k) =~= table);
    rows
}

/// Writes the spreadsheet of the peptides `peptides` over the sample columns
/// described by `days`, `mice` and `labels`. It is refused if its rows are
/// not all of one width.
pub fn serialize_peptides(
    days: &Vec<Day>,
    mice: &Vec<Mouse>,
    labels: &Vec<Label>,
    peptides: &Vec<Peptide>,
) -> (out: Result<Vec<u8>, SerializeError>)
    ensures
        ({
            let table = peptide_table(
                days@,
                mice.deep_view(),
                labels.deep_view(),
                peptides.deep_view(),
            );
            if uniform_width(table) {
                out is Ok && out->Ok_0@ == csv_encode(table)
            } else {
                out == Err::<Vec<u8>, SerializeError>(SerializeError::UnequalWidths)
            }
        }),
{
    let rows = peptide_rows(days, mice, labels, peptides);
    match write_rows(&rows, false) {
        Ok(contents) => Ok(contents),
        Err(_) => Err(SerializeError::UnequalWidths),
    }
}

/// `peptide` without the intensities at the positions in `dropped`.
pub open spec fn reduced_peptide(peptide: PeptideView, dropped: Set<int>) -> PeptideView {
    PeptideView { intensities: without_columns(peptide.intensities, dropped), ..peptide }
}

/// Each of `peptides` without the intensities at the positions in `dropped`.
pub open spec fn reduced_peptides(peptides: Seq<PeptideView>, dropped: Set<int>) -> Seq<
    PeptideView,
> {
    Seq::new(peptides.len(), |k: int| reduced_peptide(peptides[k], dropped))
}

/// The largest of three lengths.
pub open spec fn longest(a: nat, b: nat, c: nat) -> nat {
    if a >= b && a >= c {
        a
    } else if b >= c {
        b
    } else {
        c
    }
}

/// Leaves the sample columns that `group` flags out of the metadata and out
/// of the group's peptides, and counts the columns that went.
pub fn prepare_peptides(days: &Vec<Day>, mice: &Vec<Mouse>, labels: &Vec<Label>, group: &NAGroup)
    -> (out: (Vec<Day>, Vec<Mouse>, Vec<Label>, Vec<Peptide>, u64))
    ensures
        out.0@ == without_columns(days@, flagged(group.na_columns@)),
        out.1.deep_view() == without_columns(mice.deep_view(), flagged(group.na_columns@)),
        out.2.deep_view() == without_columns(labels.deep_view(), flagged(group.na_columns@)),
        out.3.deep_view() == reduced_peptides(
            group.peptides.deep_view(),
            flagged(group.na_columns@),
        ),
        out.4 == longest(days.len() as nat, mice.len() as nat, labels.len() as nat) - out.0.len(),
{
    let ghost dropped = flagged(group.na_columns@);
    let filtered_days = values_without_columns(days, &group.na_columns);
    let filtered_mice = text_without_columns(mice, &group.na_columns);
    let filtered_labels = text_without_columns(labels, &group.na_columns);
    let mut filtered_peptides: Vec<Peptide> = Vec::new();
    let mut k: usize = 0;
    while k < group.peptides.len()
        invariant
            k <= group.peptides.len(),
            dropped == flagged(group.na_columns@),
            filtered_peptides.len() == k,
            forall|j: int|
                0 <= j < k ==> (#[trigger] filtered_peptides[j]).deep_view() == reduced_peptide(
                    group.peptides[j].deep_view(),
                    dropped,
                ),
        decreases group.peptides.len() - k,
    {
        let peptide = &group.peptides[k];
        filtered_peptides.push(
            Peptide {
                name: peptide.name.clone(),
                protein: peptide.protein.clone(),
                mass_charge_ratio: peptide.mass_charge_ratio.clone(),
                intensities: values_without_columns(&peptide.intensities, &group.na_columns),
            },
        );
        k += 1;
    }
    assert(filtered_peptides.deep_view() =~= reduced_peptides(
        group.peptides.deep_view(),
        dropped,
    ));
    let mut all_columns = days.len();
    if mice.len() > all_columns {
        all_columns = mice.len();
    }
    if labels.len() > all_columns {
        all_columns = labels.len();
    }
    proof {
        crate::table::lemma_without_columns_selects(days@, dropped);
    }
    let columns_removed = (all_columns - filtered_days.len()) as u64;
    (filtered_days, filtered_mice, filtered_labels, filtered_peptides, columns_removed)
}

/// The dataset of one group as plain values: the contents of its spreadsheet
/// and of its heavy-water file, and the number of sample columns left out.
/// With `remove_na` the columns that the group flags are left out; without,
/// none is.
pub open spec fn group_dataset(
    remove_na: bool,
    days: Seq<Day>,
    mice: Seq<Seq<char>>,
    labels: Seq<Seq<char>>,
    group: GroupView,
) -> Result<(Seq<u8>, Seq<u8>, u64), SerializeError> {
    let dropped = flagged(group.na_columns);
    let kept_days = if remove_na {
        without_columns(days, dropped)
    } else {
        days
    };
    let kept_mice = if remove_na {
        without_columns(mice, dropped)
    } else {
        mice
    };
    let kept_labels = if remove_na {
        without_columns(labels, dropped)
    } else {
        labels
    };
    let kept_peptides = if remove_na {
        reduced_peptides(group.peptides, dropped)
    } else {
        group.peptides
    };
    let removed = if remove_na {
        (longest(days.len(), mice.len(), labels.len()) - kept_days.len()) as u64
    } else {
        0u64
    };
    let table = peptide_table(kept_days, kept_mice, kept_labels, kept_peptides);
    if !uniform_width(table) {
        Err(SerializeError::UnequalWidths)
    } else if kept_days.len() != kept_labels.len() {
        Err(SerializeError::LengthMismatch)
    } else {
        Ok((csv_encode(table), encode_utf8(heavy_water_text(kept_days, kept_labels)), removed))
    }
}

/// What a dataset holds, but for the names of its files.
pub open spec fn dataset_view(dataset: IsolatedDataset) -> (Seq<u8>, Seq<u8>, u64) {
    (
        dataset.spreadsheet_contents@,
        dataset.heavy_water_contents@,
        dataset.dataset.samples_removed,
    )
}

/// The files of `dataset` bear the names of a group's files: `peptides_` and
/// `heavy_water_`, an identifier each, and the extension.
pub open spec fn well_named(dataset: Dataset) -> bool {
    &&& exists|id: Seq<char>| dataset.spreadsheet@ == #[trigger] ("peptides_"@ + id + ".csv"@)
    &&& exists|id: Seq<char>| dataset.heavy_water@ == #[trigger] ("heavy_water_"@ + id + ".txt"@)
}

/// Writes the dataset of one group into files named after the two
/// identifiers given.
pub fn serialize_group(
    should_remove_na_calculations: bool,
    days: &Vec<Day>,
    mice: &Vec<Mouse>,
    labels: &Vec<Label>,
    group: &NAGroup,
    spreadsheet_id: &str,
    heavy_water_id: &str,
) -> (out: Result<IsolatedDataset, SerializeError>)
    ensures
        match group_dataset(
            should_remove_na_calculations,
            days@,
            mice.deep_view(),
            labels.deep_view(),
            group.deep_view(),
        ) {
            Ok(dataset) => {
                &&& out is Ok
                &&& dataset_view(out->Ok_0) == dataset
                &&& out->Ok_0.dataset.spreadsheet@ == "peptides_"@ + spreadsheet_id@ + ".csv"@
                &&& out->Ok_0.dataset.heavy_water@ == "heavy_water_"@ + heavy_water_id@ + ".txt"@
            },
            Err(fault) => out is Err && out->Err_0 == fault,
        },
{
    let (spreadsheet, heavy_water, samples_removed) = if should_remove_na_calculations {
        let (kept_days, kept_mice, kept_labels, kept_peptides, removed) = prepare_peptides(
            days,
            mice,
            labels,
            group,
        );
        (
            serialize_peptides(&kept_days, &kept_mice, &kept_labels, &kept_peptides),
            serialize_heavy_water_file(&kept_days, &kept_labels),
            removed,
        )
    } else {
        (
            serialize_peptides(days, mice, labels, &group.peptides),
            serialize_heavy_water_file(days, labels),
            0,
        )
    };
    let spreadsheet_contents = match spreadsheet {
        Ok(contents) => contents,
        Err(fault) => {
            return Err(fault);
        },
    };
    let heavy_water_text = match heavy_water {
        Ok(text) => text,
        Err(fault) => {
            return Err(fault);
        },
    };
    Ok(
        IsolatedDataset {
            dataset: Dataset {
                spreadsheet: peptides_file_name(spreadsheet_id),
                heavy_water: heavy_water_file_name(heavy_water_id),
                samples_removed,
            },
            spreadsheet_contents,
            heavy_water_contents: heavy_water_text.as_str().as_bytes_vec(),
        },
    )
}

/// The position of the first group at or after `from` whose dataset cannot be
/// written; the number of groups if there is none.
pub open spec fn first_unwritable(
    remove_na: bool,
    days: Seq<Day>,
    mice: Seq<Seq<char>>,
    labels: Seq<Seq<char>>,
    groups: Seq<GroupView>,
    from: int,
) -> int
    decreases groups.len() - from,
{
    if from < 0 || from >= groups.len() {
        groups.len() as int
    } else if group_dataset(remove_na, days, mice, labels, groups[from]) is Err {
        from
    } else {
        first_unwritable(remove_na, days, mice, labels, groups, from + 1)
    }
}

/// Writes one dataset per group, under freshly drawn names: the group's
/// peptides as a spreadsheet and the heavy-water file to match. With
/// `should_remove_na_calculations` each dataset leaves out the sample columns
/// that its group flags. The first group that cannot be written ends it.
pub fn serialize(
    should_remove_na_calculations: bool,
    days: &Vec<Day>,
    mice: &Vec<Mouse>,
    labels: &Vec<Label>,
    groups: &Vec<NAGroup>,
) -> (out: Result<Vec<IsolatedDataset>, SerializeError>)
    ensures
        ({
            let failing = first_unwritable(
                should_remove_na_calculations,
                days@,
                mice.deep_view(),
                labels.deep_view(),
                groups.deep_view(),
                0,
            );
            if failing < groups.len() {
                out is Err && Err::<(Seq<u8>, Seq<u8>, u64), SerializeError>(out->Err_0)
                    == group_dataset(
                    should_remove_na_calculations,
                    days@,
                    mice.deep_view(),
                    labels.deep_view(),
                    groups.deep_view()[failing],
                )
            } else {
                &&& out is Ok
                &&& out->Ok_0.len() == groups.len()
                &&& forall|i: int|
                    0 <= i < groups.len() ==> Ok::<(Seq<u8>, Seq<u8>, u64), SerializeError>(
                        dataset_view(#[trigger] out->Ok_0[i]),
                    ) == group_dataset(
                        should_remove_na_calculations,
                        days@,
                        mice.deep_view(),
                        labels.deep_view(),
                        groups.deep_view()[i],
                    )
                &&& forall|i: int|
                    0 <= i < groups.len() ==> well_named((#[trigger] out->Ok_0[i]).dataset)
            }
        }),
{
    let ghost all = groups.deep_view();
    let mut datasets: Vec<IsolatedDataset> = Vec::new();
    let mut i: usize = 0;
    while i < groups.len()
        invariant
            i <= groups.len(),
            all == groups.deep_view(),
            datasets.len() == i,
            first_unwritable(
                should_remove_na_calculations,
                days@,
                mice.deep_view(),
                labels.deep_view(),
                all,
                0,
            ) == first_unwritable(
                should_remove_na_calculations,
                days@,
                mice.deep_view(),
                labels.deep_view(),
                all,
                i as int,
            ),
            forall|j: int|
                0 <= j < i ==> Ok::<(Seq<u8>, Seq<u8>, u64), SerializeError>(
                    dataset_view(#[trigger] datasets[j]),
                ) == group_dataset(
                    should_remove_na_calculations,
                    days@,
                    mice.deep_view(),
                    labels.deep_view(),
                    all[j],
                ),
            forall|j: int| 0 <= j < i ==> well_named((#[trigger] datasets[j]).dataset),
        decreases groups.len() - i,
    {
        assert(all[i as int] == groups[i as int].deep_view());
        let spreadsheet_id = fresh_id();
        let heavy_water_id = fresh_id();
        match serialize_group(
            should_remove_na_calculations,
            days,
            mice,
            labels,
            &groups[i],
            spreadsheet_id.as_str(),
            heavy_water_id.as_str(),
        ) {
            Ok(dataset) => {
                datasets.push(dataset);
            },
            Err(fault) => {
                return Err(fault);
            },
        }
        i += 1;
    }
    Ok(datasets)
}

} // verus!
