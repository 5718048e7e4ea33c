//! Splicing the result of a peptide's rerun into the result of the master
//! run. A row is known by the peptide name in its second field; where
//! several rows bear the name, the first one is patched.

use crate::csv_io::{csv_decode, csv_encode, read_rows, write_rows};
use crate::results::{annotation, annotation_text};
use crate::text::same_text;
use vstd::prelude::*;

verus! {

/// The position of the name field in a result row.
pub const NAME_FIELD: usize = 1;

/// `row` is the row of the peptide `name`.
pub open spec fn bears_name(row: Seq<Seq<char>>, name: Seq<char>) -> bool {
    row.len() > NAME_FIELD && row[NAME_FIELD as int] == name
}

/// The position of the first row at or after `from` that bears `name`; the
/// number of rows if there is none.
pub open spec fn first_match(master: Seq<Seq<Seq<char>>>, name: Seq<char>, from: int) -> int
    decreases master.len() - from,
{
    if from < 0 || from >= master.len() {
        master.len() as int
    } else if bears_name(master[from], name) {
        from
    } else {
        first_match(master, name, from + 1)
    }
}

/// The rerun's row with the annotation for `samples_omitted` appended.
pub open spec fn annotated(rerun: Seq<Seq<char>>, samples_omitted: u64) -> Seq<Seq<char>> {
    rerun.push(annotation_text(samples_omitted))
}

/// The master result with the first row of the rerun's peptide replaced by
/// the rerun's annotated row; the master result itself if no row bears the
/// name.
pub open spec fn patched(
    master: Seq<Seq<Seq<char>>>,
    rerun: Seq<Seq<char>>,
    samples_omitted: u64,
) -> Seq<Seq<Seq<char>>> {
    let at = first_match(master, rerun[NAME_FIELD as int], 0);
    if at < master.len() {
        master.update(at, annotated(rerun, samples_omitted))
    } else {
        master
    }
}

/// Where the first match stands: at or after `from`, on a row that bears the
/// name, with no such row between `from` and it.
pub proof fn lemma_first_match(master: Seq<Seq<Seq<char>>>, name: Seq<char>, from: int)
    requires
        0 <= from <= master.len(),
    ensures
        from <= first_match(master, name, from) <= master.len(),
        first_match(master, name, from) < master.len() ==> bears_name(
            master[first_match(master, name, from)],
            name,
        ),
        forall|i: int|
            from <= i < first_match(master, name, from) ==> !bears_name(#[trigger] master[i], name),
    decreases master.len() - from,
{
    if from < master.len() && !bears_name(master[from], name) {
        lemma_first_match(master, name, from + 1);
    }
}

/// A row that bears the name, with none before it from `from` on, is the
/// first match.
pub proof fn lemma_first_match_is(
    master: Seq<Seq<Seq<char>>>,
    name: Seq<char>,
    from: int,
    at: int,
)
    requires
        0 <= from <= at < master.len(),
        bears_name(master[at], name),
        forall|i: int| from <= i < at ==> !bears_name(#[trigger] master[i], name),
    ensures
        first_match(master, name, from) == at,
    decreases at - from,
{
    if from < at {
        lemma_first_match_is(master, name, from + 1, at);
    }
}

/// Patching replaces content and never adds or removes a row; every row but
/// the first one of the rerun's peptide stays as it was.
pub proof fn lemma_patch_keeps_other_rows(
    master: Seq<Seq<Seq<char>>>,
    rerun: Seq<Seq<char>>,
    samples_omitted: u64,
)
    ensures
        patched(master, rerun, samples_omitted).len() == master.len(),
        forall|i: int|
            0 <= i < master.len() && i != first_match(master, rerun[NAME_FIELD as int], 0)
                ==> #[trigger] patched(master, rerun, samples_omitted)[i] == master[i],
{
    lemma_first_match(master, rerun[NAME_FIELD as int], 0);
}

/// Patching twice with the same rerun row and count gives what patching once
/// gives.
pub proof fn lemma_patch_idempotent(
    master: Seq<Seq<Seq<char>>>,
    rerun: Seq<Seq<char>>,
    samples_omitted: u64,
)
    requires
        rerun.len() > NAME_FIELD,
    ensures
        patched(patched(master, rerun, samples_omitted), rerun, samples_omitted) == patched(
            master,
            rerun,
            samples_omitted,
        ),
{
    let name = rerun[NAME_FIELD as int];
    let once = patched(master, rerun, samples_omitted);
    lemma_first_match(master, name, 0);
    let at = first_match(master, name, 0);
    if at < master.len() {
        assert(bears_name(once[at], name));
        assert forall|i: int| 0 <= i < at implies !bears_name(#[trigger] once[i], name) by {
            assert(once[i] == master[i]);
        }
        lemma_first_match_is(once, name, 0, at);
        assert(once.update(at, annotated(rerun, samples_omitted)) =~= once);
    }
}

/// Why a rerun could not be patched into the master result.
#[derive(Debug, Clone, Copy, PartialEq, Eq, Structural)]
pub enum PatchError {
    /// The rerun's result could not be read up to its first row.
    RerunUnreadable,
    /// The rerun's result holds no row.
    RerunEmpty,
    /// The rerun's row has no name field.
    RerunMalformed,
    /// The master result could not be read beyond its first `row` rows.
    MasterUnreadable { row: usize },
}

/// Replaces the first row of `master` that bears the name in `rerun` by
/// `rerun` with the annotation for `samples_omitted` appended, and says
/// whether there was such a row. A `rerun` without a name field is refused
/// and `master` left as it is.
pub fn patch_rows(master: &mut Vec<Vec<String>>, rerun: &Vec<String>, samples_omitted: u64) -> (out:
    Result<bool, PatchError>)
    ensures
        final(master).len() == old(master).len(),
        rerun.len() <= NAME_FIELD ==> out == Err::<bool, PatchError>(PatchError::RerunMalformed)
            && *final(master) == *old(master),
        rerun.len() > NAME_FIELD ==> out == Ok::<bool, PatchError>(
            first_match(old(master).deep_view(), rerun[NAME_FIELD as int]@, 0) < old(master).len(),
        ) && final(master).deep_view() == patched(
            old(master).deep_view(),
            rerun.deep_view(),
            samples_omitted,
        ),
{
    if rerun.len() <= NAME_FIELD {
        return Err(PatchError::RerunMalformed);
    }
    let ghost table = master.deep_view();
    let ghost name = rerun[NAME_FIELD as int]@;
    assert(rerun.deep_view()[NAME_FIELD as int] == name);
    let mut at: usize = 0;
    while at < master.len()
        invariant
            at <= master.len(),
            rerun.len() > NAME_FIELD,
            name == rerun[NAME_FIELD as int]@,
            table == master.deep_view(),
            first_match(table, name, 0) == first_match(table, name, at as int),
        ensures
            at <= master.len(),
            at == first_match(table, name, 0),
        decreases master.len() - at,
    {
        assert(table[at as int] == master[at as int].deep_view());
        if master[at].len() > NAME_FIELD {
            assert(table[at as int][NAME_FIELD as int] == master[at as int][NAME_FIELD as int]@);
            if same_text(master[at][NAME_FIELD].as_str(), rerun[NAME_FIELD].as_str()) {
                break;
            }
        }
        at += 1;
    }
    if at == master.len() {
        return Ok(false);
    }
    let mut row: Vec<String> = Vec::new();
    let mut j: usize = 0;
    while j < rerun.len()
        invariant
            j <= rerun.len(),
            row.len() == j,
            forall|k: int| 0 <= k < j ==> (#[trigger] row[k])@ == rerun[k]@,
        decreases rerun.len() - j,
    {
        row.push(rerun[j].clone());
        j += 1;
    }
    row.push(annotation(samples_omitted));
    assert(row.deep_view() =~= annotated(rerun.deep_view(), samples_omitted));
    master.set(at, row);
    assert(master.deep_view() =~= patched(table, rerun.deep_view(), samples_omitted));
    Ok(true)
}

/// What patching makes of what the reader yielded for the master result and
/// for the rerun's result: the contents of the patched master result, or why
/// there is none. The rerun's row is the first row after its titles.
pub open spec fn patch_outcome(
    master: (Seq<Seq<Seq<char>>>, bool),
    rerun: (Seq<Seq<Seq<char>>>, bool),
    samples_omitted: u64,
) -> Result<Seq<u8>, PatchError> {
    if rerun.0.len() == 0 {
        if rerun.1 {
            Err(PatchError::RerunUnreadable)
        } else {
            Err(PatchError::RerunEmpty)
        }
    } else if rerun.0[0].len() <= NAME_FIELD {
        Err(PatchError::RerunMalformed)
    } else if master.1 {
        Err(PatchError::MasterUnreadable { row: master.0.len() as usize })
    } else {
        Ok(csv_encode(patched(master.0, rerun.0[0], samples_omitted)))
    }
}

/// Stitches the result of a peptide's rerun into the contents of the master
/// result: the row of that peptide takes the rerun's values and a note of how
/// many samples were omitted. On failure the contents stay as they are.
pub fn aggregate(
    master_output_contents: &mut Vec<u8>,
    peptide_output_contents: &Vec<u8>,
    samples_omitted: u64,
) -> (out: Result<(), PatchError>)
    ensures
        match patch_outcome(
            csv_decode(old(master_output_contents)@, false, true),
            csv_decode(peptide_output_contents@, true, false),
            samples_omitted,
        ) {
            Ok(bytes) => out is Ok && final(master_output_contents)@ == bytes,
            Err(fault) => out == Err::<(), PatchError>(fault) && *final(master_output_contents)
                == *old(master_output_contents),
        },
{
    let (rerun_rows, rerun_failure) = read_rows(peptide_output_contents, true, false);
    if rerun_rows.len() == 0 {
        if rerun_failure.is_some() {
            return Err(PatchError::RerunUnreadable);
        } else {
            return Err(PatchError::RerunEmpty);
        }
    }
    assert(rerun_rows.deep_view()[0] == rerun_rows[0].deep_view());
    if rerun_rows[0].len() <= NAME_FIELD {
        return Err(PatchError::RerunMalformed);
    }
    let (mut master_rows, master_failure) = read_rows(master_output_contents, false, true);
    if master_failure.is_some() {
        return Err(PatchError::MasterUnreadable { row: master_rows.len() });
    }
    let _ = patch_rows(&mut master_rows, &rerun_rows[0], samples_omitted);
    match write_rows(&master_rows, true) {
        Ok(bytes) => {
            *master_output_contents = bytes;
        },
        Err(_) => vstd::pervasive::unreached(),
    }
    Ok(())
}

} // verus!
