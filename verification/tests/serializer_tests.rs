use turnover::grouper::NAGroup;
use turnover::parser::Peptide;
use turnover::serializer::{
    peptide_rows, prepare_peptides, serialize, serialize_group, serialize_heavy_water_file,
    serialize_peptides, SerializeError,
};

fn texts(fields: &[&str]) -> Vec<String> {
    fields.iter().map(|f| f.to_string()).collect()
}

fn peptide(name: &str, intensities: Vec<Option<u64>>) -> Peptide {
    Peptide {
        name: name.to_string(),
        protein: "ALB".to_string(),
        mass_charge_ratio: "500.25".to_string(),
        intensities,
    }
}

fn group() -> NAGroup {
    NAGroup {
        peptides: vec![
            peptide("PEPA", vec![Some(10), None, Some(30)]),
            peptide("PEPB", vec![Some(11), Some(21), Some(31)]),
        ],
        na_columns: vec![false, true, false],
    }
}

#[test]
fn heavy_water_file_has_a_line_per_sample() {
    let text =
        serialize_heavy_water_file(&vec![0, 3, 7, 21], &texts(&["0", "0.046", "high", ""])).unwrap();
    assert_eq!(text, "Experiment, Labeling\n0, 0\n3, 0.046\n7, 0\n21, 0\n");
    assert_eq!(
        serialize_heavy_water_file(&vec![], &vec![]).unwrap(),
        "Experiment, Labeling\n"
    );
    assert_eq!(
        serialize_heavy_water_file(&vec![1, 2], &texts(&["-1.5e2", "inf"])).unwrap(),
        "Experiment, Labeling\n1, -1.5e2\n2, inf\n"
    );
}

#[test]
fn heavy_water_file_needs_a_label_per_day() {
    assert_eq!(
        serialize_heavy_water_file(&vec![0, 3], &texts(&["0"])),
        Err(SerializeError::LengthMismatch)
    );
}

#[test]
fn peptide_rows_lay_out_the_spreadsheet() {
    let rows = peptide_rows(
        &vec![0, 7],
        &texts(&["m1", "m2"]),
        &texts(&["0", "0.05"]),
        &vec![peptide("PEPA", vec![Some(10), None])],
    );
    assert_eq!(
        rows,
        vec![
            texts(&["Day", "", "", "0", "7"]),
            texts(&["", "", "", "", ""]),
            texts(&["Mouse", "", "", "m1", "m2"]),
            texts(&["", "", "", "", ""]),
            texts(&["Body water enrichment", "", "", "0", "0.05"]),
            texts(&["", "", "", "", ""]),
            texts(&["Protein", "Peptide", "Product Mz", "0", "1"]),
            texts(&["ALB", "PEPA", "500.25", "10", "#N/A"]),
        ]
    );
}

#[test]
fn serialize_peptides_writes_the_spreadsheet() {
    let contents = serialize_peptides(
        &vec![0, 7],
        &texts(&["m1", "m2"]),
        &texts(&["0", "0.05"]),
        &vec![peptide("PEPA", vec![Some(10), None])],
    )
    .unwrap();
    assert_eq!(
        String::from_utf8(contents).unwrap(),
        "Day,,,0,7\n,,,,\nMouse,,,m1,m2\n,,,,\nBody water enrichment,,,0,0.05\n,,,,\nProtein,Peptide,Product Mz,0,1\nALB,PEPA,500.25,10,#N/A\n"
    );
}

#[test]
fn serialize_peptides_refuses_rows_of_unequal_width() {
    assert_eq!(
        serialize_peptides(&vec![0, 7], &texts(&["m1"]), &texts(&["0", "1"]), &vec![]),
        Err(SerializeError::UnequalWidths)
    );
    assert_eq!(
        serialize_peptides(
            &vec![0, 7],
            &texts(&["m1", "m2"]),
            &texts(&["0", "1"]),
            &vec![peptide("PEPA", vec![Some(1)])]
        ),
        Err(SerializeError::UnequalWidths)
    );
}

#[test]
fn prepare_peptides_leaves_the_flagged_columns_out() {
    let (days, mice, labels, peptides, removed) = prepare_peptides(
        &vec![0, 3, 7],
        &texts(&["m1", "m2", "m3"]),
        &texts(&["a", "b", "c"]),
        &group(),
    );
    assert_eq!(days, vec![0, 7]);
    assert_eq!(mice, texts(&["m1", "m3"]));
    assert_eq!(labels, texts(&["a", "c"]));
    assert_eq!(peptides.len(), 2);
    assert_eq!(peptides[0].name, "PEPA");
    assert_eq!(peptides[0].protein, "ALB");
    assert_eq!(peptides[0].mass_charge_ratio, "500.25");
    assert_eq!(peptides[0].intensities, vec![Some(10), Some(30)]);
    assert_eq!(peptides[1].intensities, vec![Some(11), Some(31)]);
    assert_eq!(removed, 1);
}

#[test]
fn prepare_peptides_counts_from_the_longest_sequence() {
    let (days, _, _, _, removed) =
        prepare_peptides(&vec![0, 3], &texts(&["m1", "m2", "m3", "m4"]), &texts(&[]), &group());
    assert_eq!(days, vec![0]);
    assert_eq!(removed, 3);
}

#[test]
fn serialize_group_writes_a_dataset() {
    let days = vec![0, 3, 7];
    let mice = texts(&["m1", "m2", "m3"]);
    let labels = texts(&["0", "x", "0.1"]);
    let reduced = serialize_group(true, &days, &mice, &labels, &group(), "s", "h").unwrap();
    assert_eq!(reduced.dataset.spreadsheet, "peptides_s.csv");
    assert_eq!(reduced.dataset.heavy_water, "heavy_water_h.txt");
    assert_eq!(reduced.dataset.samples_removed, 1);
    assert_eq!(
        String::from_utf8(reduced.spreadsheet_contents).unwrap(),
        "Day,,,0,7\n,,,,\nMouse,,,m1,m3\n,,,,\nBody water enrichment,,,0,0.1\n,,,,\nProtein,Peptide,Product Mz,0,1\nALB,PEPA,500.25,10,30\nALB,PEPB,500.25,11,31\n"
    );
    assert_eq!(
        String::from_utf8(reduced.heavy_water_contents).unwrap(),
        "Experiment, Labeling\n0, 0\n7, 0.1\n"
    );
    let whole = serialize_group(false, &days, &mice, &labels, &group(), "s", "h").unwrap();
    assert_eq!(whole.dataset.samples_removed, 0);
    assert_eq!(
        String::from_utf8(whole.heavy_water_contents).unwrap(),
        "Experiment, Labeling\n0, 0\n3, 0\n7, 0.1\n"
    );
    assert!(String::from_utf8(whole.spreadsheet_contents)
        .unwrap()
        .ends_with("ALB,PEPA,500.25,10,#N/A,30\nALB,PEPB,500.25,11,21,31\n"));
}

#[test]
fn serialize_writes_a_dataset_per_group_under_names_of_its_own() {
    let days = vec![0, 3, 7];
    let mice = texts(&["m1", "m2", "m3"]);
    let labels = texts(&["0", "1", "2"]);
    let datasets = serialize(true, &days, &mice, &labels, &vec![group(), group()]).unwrap();
    assert_eq!(datasets.len(), 2);
    assert_eq!(datasets[0].spreadsheet_contents, datasets[1].spreadsheet_contents);
    assert_ne!(datasets[0].dataset.spreadsheet, datasets[1].dataset.spreadsheet);
    assert!(datasets[0].dataset.spreadsheet.starts_with("peptides_"));
    assert!(datasets[0].dataset.spreadsheet.ends_with(".csv"));
    assert!(datasets[0].dataset.heavy_water.starts_with("heavy_water_"));
    assert!(datasets[0].dataset.heavy_water.ends_with(".txt"));
    assert_eq!(datasets[1].dataset.samples_removed, 1);
    assert!(serialize(true, &days, &mice, &labels, &Vec::new()).unwrap().is_empty());
}

#[test]
fn serialize_stops_at_the_first_group_that_cannot_be_written() {
    let days = vec![0, 3, 7];
    let mice = texts(&["m1", "m2"]);
    let labels = texts(&["0", "1", "2"]);
    assert_eq!(
        serialize(false, &days, &mice, &labels, &vec![group()]).unwrap_err(),
        SerializeError::UnequalWidths
    );
}
