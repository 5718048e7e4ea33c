use turnover::patcher::{aggregate, patch_rows, PatchError};
use turnover::results::annotation;

fn row(fields: &[&str]) -> Vec<String> {
    fields.iter().map(|f| f.to_string()).collect()
}

fn master() -> Vec<Vec<String>> {
    vec![
        row(&["Protein", "Peptide", "NEH"]),
        row(&["ALB", "PEPA", "1"]),
        row(&["ALB", "PEPB", "2"]),
        row(&["ALB", "PEPA", "3"]),
        row(&["lonely"]),
    ]
}

#[test]
fn annotation_is_singular_for_one_and_plural_for_more() {
    assert_eq!(annotation(1), "1 sample omitted");
    assert_eq!(annotation(2), "2 samples omitted");
    assert_eq!(annotation(10), "10 samples omitted");
    assert_eq!(annotation(u64::MAX), "18446744073709551615 samples omitted");
    assert_eq!(annotation(0), "");
}

#[test]
fn patch_rows_replaces_the_first_row_of_the_peptide() {
    let mut rows = master();
    let patched = patch_rows(&mut rows, &row(&["ALB", "PEPA", "9"]), 1);
    assert_eq!(patched, Ok(true));
    assert_eq!(
        rows,
        vec![
            row(&["Protein", "Peptide", "NEH"]),
            row(&["ALB", "PEPA", "9", "1 sample omitted"]),
            row(&["ALB", "PEPB", "2"]),
            row(&["ALB", "PEPA", "3"]),
            row(&["lonely"]),
        ]
    );
}

#[test]
fn patch_rows_is_idempotent_and_keeps_the_row_count() {
    let rerun = row(&["ALB", "PEPB", "7", "8"]);
    let mut once = master();
    patch_rows(&mut once, &rerun, 3).unwrap();
    let mut twice = once.clone();
    patch_rows(&mut twice, &rerun, 3).unwrap();
    assert_eq!(once, twice);
    assert_eq!(once.len(), master().len());
    assert_eq!(once[2], row(&["ALB", "PEPB", "7", "8", "3 samples omitted"]));
}

#[test]
fn patch_rows_leaves_the_master_alone_without_a_match() {
    let mut rows = master();
    assert_eq!(patch_rows(&mut rows, &row(&["ALB", "PEPX", "9"]), 1), Ok(false));
    assert_eq!(rows, master());
    assert_eq!(patch_rows(&mut rows, &row(&["ALB"]), 1), Err(PatchError::RerunMalformed));
    assert_eq!(rows, master());
    let mut none: Vec<Vec<String>> = Vec::new();
    assert_eq!(patch_rows(&mut none, &row(&["ALB", "PEPA"]), 1), Ok(false));
    assert!(none.is_empty());
}

#[test]
fn aggregate_patches_the_contents_of_the_master_result() {
    let mut contents = "Protein,Peptide,NEH\nALB,PEPA,1\nALB,PEPB,2\n".as_bytes().to_vec();
    let rerun = "Protein,Peptide,NEH\nALB,PEPB,5\nALB,PEPA,6\n".as_bytes().to_vec();
    assert_eq!(aggregate(&mut contents, &rerun, 2), Ok(()));
    assert_eq!(
        String::from_utf8(contents).unwrap(),
        "Protein,Peptide,NEH\nALB,PEPA,1\nALB,PEPB,5,2 samples omitted\n"
    );
}

#[test]
fn aggregate_reads_only_the_first_row_of_the_rerun() {
    let mut contents = "Protein,Peptide,NEH\nALB,PEPA,1\n".as_bytes().to_vec();
    let rerun = "Protein,Peptide,NEH\nALB,PEPA,5\nbroken\n".as_bytes().to_vec();
    assert_eq!(aggregate(&mut contents, &rerun, 1), Ok(()));
    assert_eq!(
        String::from_utf8(contents).unwrap(),
        "Protein,Peptide,NEH\nALB,PEPA,5,1 sample omitted\n"
    );
}

#[test]
fn aggregate_says_why_it_fails_and_keeps_the_master() {
    let untouched = "Protein,Peptide,NEH\nALB,PEPA,1\n".as_bytes().to_vec();
    let mut contents = untouched.clone();
    let titles_only = "Protein,Peptide,NEH\n".as_bytes().to_vec();
    assert_eq!(aggregate(&mut contents, &titles_only, 1), Err(PatchError::RerunEmpty));
    assert_eq!(aggregate(&mut contents, &Vec::new(), 1), Err(PatchError::RerunEmpty));
    let ragged = "Protein,Peptide,NEH\nALB\n".as_bytes().to_vec();
    assert_eq!(aggregate(&mut contents, &ragged, 1), Err(PatchError::RerunUnreadable));
    let narrow = "Protein\nALB\n".as_bytes().to_vec();
    assert_eq!(aggregate(&mut contents, &narrow, 1), Err(PatchError::RerunMalformed));
    assert_eq!(contents, untouched);
    let mut bad_master = vec![b'a', b',', 0xff, b'\n'];
    let rerun = "Protein,Peptide\nALB,PEPA\n".as_bytes().to_vec();
    assert_eq!(
        aggregate(&mut bad_master, &rerun, 1),
        Err(PatchError::MasterUnreadable { row: 0 })
    );
    assert_eq!(bad_master, vec![b'a', b',', 0xff, b'\n']);
}

#[test]
fn aggregate_takes_a_master_of_uneven_rows() {
    let mut contents = "Protein,Peptide\nALB,PEPA,1,1 sample omitted\nALB,PEPB,2\n".as_bytes().to_vec();
    let rerun = "Protein,Peptide,NEH\nALB,PEPB,5\n".as_bytes().to_vec();
    assert_eq!(aggregate(&mut contents, &rerun, 4), Ok(()));
    assert_eq!(
        String::from_utf8(contents).unwrap(),
        "Protein,Peptide\nALB,PEPA,1,1 sample omitted\nALB,PEPB,5,4 samples omitted\n"
    );
}
