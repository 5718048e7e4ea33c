use turnover::isolator::{
    copy_input_files, isolate, isolate_as, isolate_rows, reduce_heavy_water, IsolateError,
};

fn row(fields: &[&str]) -> Vec<String> {
    fields.iter().map(|f| f.to_string()).collect()
}

fn table() -> Vec<Vec<String>> {
    vec![
        row(&["Day", "", "", "0", "1", "3", "7"]),
        row(&["", "", "", "", "", "", ""]),
        row(&["Mouse", "", "", "m1", "m2", "m3", "m4"]),
        row(&["Label", "", "", "0", "0.01", "0.02", "0.03"]),
        row(&["Protein", "Peptide", "Mz", "0", "1", "2", "3"]),
        row(&["ALB", "PEPA", "500.1", "10", "20", "#N/A", "40"]),
        row(&["ALB", "PEPB", "600.2", "11", "21", "31", "41"]),
        row(&["ALB", "PEPA", "500.9", "12", "22", "32", "42"]),
    ]
}

const SHEET: &str = "Day,,,0,1,3,7\nMouse,,,m1,m2,m3,m4\nLabel,,,0,0.01,0.02,0.03\nProtein,Peptide,Mz,0,1,2,3\nALB,PEPA,500.1,10,20,#N/A,40\nALB,PEPB,600.2,11,21,31,41\n";

const HEAVY: &str = "Experiment, Labeling\n0, 0\n1, 0.01\n3, 0.02\n7, 0.03\n";

#[test]
fn isolate_rows_keeps_leading_rows_and_the_peptide() {
    let reduced = isolate_rows(&table(), "PEPA", &vec![2]).unwrap();
    assert_eq!(
        reduced,
        vec![
            row(&["Day", "", "", "0", "1", "7"]),
            row(&["", "", "", "", "", ""]),
            row(&["Mouse", "", "", "m1", "m2", "m4"]),
            row(&["Label", "", "", "0", "0.01", "0.03"]),
            row(&["Protein", "Peptide", "Mz", "0", "1", "3"]),
            row(&["ALB", "PEPA", "500.1", "10", "20", "40"]),
            row(&["ALB", "PEPA", "500.9", "12", "22", "42"]),
        ]
    );
}

#[test]
fn isolate_rows_never_keeps_a_dropped_column() {
    let source = table();
    let dropped = vec![3, 0];
    let reduced = isolate_rows(&source, "PEPB", &dropped).unwrap();
    assert_eq!(reduced.len(), 6);
    for kept in &reduced {
        assert_eq!(kept.len(), 5);
    }
    assert_eq!(reduced[5], row(&["ALB", "PEPB", "600.2", "21", "31"]));
    assert_eq!(reduced[0], row(&["Day", "", "", "1", "3"]));
}

#[test]
fn isolate_rows_with_nothing_to_drop_copies_the_rows() {
    let reduced = isolate_rows(&table(), "PEPB", &vec![]).unwrap();
    assert_eq!(reduced.len(), 6);
    assert_eq!(reduced[5], table()[6]);
    let out_of_range = isolate_rows(&table(), "PEPB", &vec![17]).unwrap();
    assert_eq!(out_of_range, reduced);
}

#[test]
fn isolate_rows_fails_for_an_unknown_peptide() {
    assert_eq!(isolate_rows(&table(), "PEPX", &vec![0]), None);
    assert_eq!(isolate_rows(&table(), "Peptide", &vec![0]), None);
    assert_eq!(isolate_rows(&Vec::new(), "PEPA", &vec![0]), None);
}

#[test]
fn reduce_heavy_water_drops_the_lines_of_the_columns() {
    let reduced = reduce_heavy_water(&HEAVY.as_bytes().to_vec(), &vec![2]);
    assert_eq!(
        String::from_utf8(reduced).unwrap(),
        "Experiment, Labeling\n0, 0\n1, 0.01\n7, 0.03\n"
    );
    let reduced = reduce_heavy_water(&HEAVY.as_bytes().to_vec(), &vec![3, 0]);
    assert_eq!(String::from_utf8(reduced).unwrap(), "Experiment, Labeling\n1, 0.01\n3, 0.02\n");
    let reduced = reduce_heavy_water(&HEAVY.as_bytes().to_vec(), &vec![]);
    assert_eq!(String::from_utf8(reduced).unwrap(), HEAVY);
}

#[test]
fn reduce_heavy_water_handles_a_last_line_without_end() {
    let text = "Experiment, Labeling\r\n0, 0\r\n1, 1";
    let reduced = reduce_heavy_water(&text.as_bytes().to_vec(), &vec![1]);
    assert_eq!(String::from_utf8(reduced).unwrap(), "Experiment, Labeling\r\n0, 0\r\n");
    let reduced = reduce_heavy_water(&text.as_bytes().to_vec(), &vec![0]);
    assert_eq!(String::from_utf8(reduced).unwrap(), "Experiment, Labeling\r\n1, 1");
    assert_eq!(reduce_heavy_water(&Vec::new(), &vec![0]), Vec::<u8>::new());
}

#[test]
fn isolate_as_writes_both_files() {
    let isolated = isolate_as(
        &SHEET.as_bytes().to_vec(),
        &HEAVY.as_bytes().to_vec(),
        "PEPA",
        &vec![2],
        "sheet",
        "water",
    )
    .unwrap();
    assert_eq!(isolated.dataset.spreadsheet, "sheet.csv");
    assert_eq!(isolated.dataset.heavy_water, "water.txt");
    assert_eq!(isolated.dataset.samples_removed, 1);
    assert_eq!(
        String::from_utf8(isolated.spreadsheet_contents).unwrap(),
        "Day,,,0,1,7\nMouse,,,m1,m2,m4\nLabel,,,0,0.01,0.03\nProtein,Peptide,Mz,0,1,3\nALB,PEPA,500.1,10,20,40\n"
    );
    assert_eq!(
        String::from_utf8(isolated.heavy_water_contents).unwrap(),
        "Experiment, Labeling\n0, 0\n1, 0.01\n7, 0.03\n"
    );
}

#[test]
fn isolate_as_reports_why_it_fails() {
    let heavy = HEAVY.as_bytes().to_vec();
    assert_eq!(
        isolate_as(&SHEET.as_bytes().to_vec(), &heavy, "PEPX", &vec![2], "a", "b").unwrap_err(),
        IsolateError::PeptideNotFound
    );
    let ragged = "Day,,,0\nMouse,,,m1\nLabel,,,0,1\n";
    assert_eq!(
        isolate_as(&ragged.as_bytes().to_vec(), &heavy, "PEPA", &vec![0], "a", "b").unwrap_err(),
        IsolateError::Unreadable { row: 2 }
    );
}

#[test]
fn isolate_draws_names_of_its_own() {
    let sheet = SHEET.as_bytes().to_vec();
    let heavy = HEAVY.as_bytes().to_vec();
    let first = isolate(&sheet, &heavy, "PEPA", &vec![2]).unwrap();
    let second = isolate(&sheet, &heavy, "PEPA", &vec![2]).unwrap();
    assert!(first.dataset.spreadsheet.ends_with(".csv"));
    assert!(first.dataset.heavy_water.ends_with(".txt"));
    assert_ne!(first.dataset.spreadsheet, first.dataset.heavy_water);
    assert_ne!(first.dataset.spreadsheet, second.dataset.spreadsheet);
    assert_eq!(first.spreadsheet_contents, second.spreadsheet_contents);
    assert_eq!(first.dataset.samples_removed, 1);
}

#[test]
fn copy_input_files_names_the_inputs_and_keeps_them_whole() {
    let sheet = SHEET.as_bytes().to_vec();
    let heavy = HEAVY.as_bytes().to_vec();
    let whole = copy_input_files(&sheet, &heavy);
    assert_eq!(whole.spreadsheet_contents, sheet);
    assert_eq!(whole.heavy_water_contents, heavy);
    assert_eq!(whole.dataset.samples_removed, 0);
    assert!(whole.dataset.spreadsheet.ends_with(".csv"));
    assert!(whole.dataset.heavy_water.ends_with(".txt"));
}

#[test]
fn the_count_is_of_the_columns_that_went() {
    let sheet = SHEET.as_bytes().to_vec();
    let heavy = HEAVY.as_bytes().to_vec();
    let twice = isolate_as(&sheet, &heavy, "PEPA", &vec![2, 2, 0], "a", "b").unwrap();
    assert_eq!(twice.dataset.samples_removed, 2);
    assert!(String::from_utf8(twice.spreadsheet_contents)
        .unwrap()
        .starts_with("Day,,,1,7\n"));
    let beyond = isolate_as(&sheet, &heavy, "PEPA", &vec![4, 17, 3], "a", "b").unwrap();
    assert_eq!(beyond.dataset.samples_removed, 1);
    let none = isolate_as(&sheet, &heavy, "PEPA", &vec![], "a", "b").unwrap();
    assert_eq!(none.dataset.samples_removed, 0);
    let all = isolate_as(&sheet, &heavy, "PEPA", &vec![0, 1, 2, 3], "a", "b").unwrap();
    assert_eq!(all.dataset.samples_removed, 4);
}
