use turnover::grouper::{
    copy_peptide, create_peptide_group, group_by_na_columns, has_name, same_flags, PeptideGroup,
};
use turnover::parser::Peptide;

fn peptide(name: &str, ratio: &str, intensities: Vec<Option<u64>>) -> Peptide {
    Peptide {
        name: name.to_string(),
        protein: "ALB".to_string(),
        mass_charge_ratio: ratio.to_string(),
        intensities,
    }
}

fn names(peptides: &Vec<Peptide>) -> Vec<String> {
    peptides.iter().map(|p| format!("{}@{}", p.name, p.mass_charge_ratio)).collect()
}

fn group(members: Vec<Peptide>) -> PeptideGroup {
    create_peptide_group(&members)
}

#[test]
fn create_peptide_group_flags_columns_that_lack_a_reading() {
    let made = group(vec![
        peptide("A", "1", vec![Some(1), None, Some(3)]),
        peptide("A", "2", vec![Some(1), Some(2), None]),
    ]);
    assert_eq!(made.na_columns, vec![false, true, true]);
    assert_eq!(names(&made.peptides), vec!["A@1", "A@2"]);
    assert_eq!(made.peptides[0].intensities, vec![Some(1), None, Some(3)]);
    let whole = group(vec![peptide("A", "1", vec![Some(1), Some(2)])]);
    assert_eq!(whole.na_columns, vec![false, false]);
    let none = group(Vec::new());
    assert!(none.na_columns.is_empty() && none.peptides.is_empty());
}

#[test]
fn create_peptide_group_goes_by_the_width_of_the_first_peptide() {
    let made = group(vec![
        peptide("A", "1", vec![Some(1), Some(2)]),
        peptide("A", "2", vec![None, Some(2), None]),
        peptide("A", "3", vec![Some(1)]),
    ]);
    assert_eq!(made.na_columns, vec![true, false]);
}

#[test]
fn copy_peptide_copies_every_field() {
    let source = peptide("A", "1.5", vec![Some(1), None]);
    let copy = copy_peptide(&source);
    assert_eq!(copy.name, "A");
    assert_eq!(copy.protein, "ALB");
    assert_eq!(copy.mass_charge_ratio, "1.5");
    assert_eq!(copy.intensities, vec![Some(1), None]);
}

#[test]
fn same_flags_and_has_name_compare_as_expected() {
    assert!(same_flags(&vec![true, false], &vec![true, false]));
    assert!(!same_flags(&vec![true, false], &vec![true, true]));
    assert!(!same_flags(&vec![true], &vec![true, false]));
    assert!(same_flags(&vec![], &vec![]));
    let peptides = vec![peptide("A", "1", vec![]), peptide("B", "1", vec![])];
    assert!(has_name(&peptides, "B"));
    assert!(!has_name(&peptides, "C"));
    assert!(!has_name(&Vec::new(), "A"));
}

#[test]
fn groups_with_the_same_missing_columns_are_put_together() {
    let groups = vec![
        group(vec![peptide("A", "1", vec![Some(1), None])]),
        group(vec![peptide("B", "1", vec![Some(1), Some(2)])]),
        group(vec![peptide("C", "1", vec![Some(5), None]), peptide("C", "2", vec![None, None])]),
        group(vec![peptide("D", "1", vec![Some(1), None])]),
    ];
    let buckets = group_by_na_columns(groups);
    assert_eq!(buckets.len(), 3);
    assert_eq!(buckets[0].na_columns, vec![false, true]);
    assert_eq!(names(&buckets[0].peptides), vec!["A@1", "D@1"]);
    assert_eq!(buckets[1].na_columns, vec![false, false]);
    assert_eq!(names(&buckets[1].peptides), vec!["B@1"]);
    assert_eq!(buckets[2].na_columns, vec![true, true]);
    assert_eq!(names(&buckets[2].peptides), vec!["C@1", "C@2"]);
}

#[test]
fn groups_of_one_name_are_kept_apart() {
    let groups = vec![
        group(vec![peptide("A", "1", vec![None])]),
        group(vec![peptide("A", "9", vec![None])]),
        group(vec![peptide("B", "1", vec![None])]),
        group(vec![peptide("A", "20", vec![None])]),
        group(vec![peptide("B", "7", vec![None])]),
    ];
    let buckets = group_by_na_columns(groups);
    assert_eq!(buckets.len(), 3);
    assert_eq!(names(&buckets[0].peptides), vec!["A@1", "B@1"]);
    assert_eq!(names(&buckets[1].peptides), vec!["A@9", "B@7"]);
    assert_eq!(names(&buckets[2].peptides), vec!["A@20"]);
    let total: usize = buckets.iter().map(|b| b.peptides.len()).sum();
    assert_eq!(total, 5);
    assert!(group_by_na_columns(Vec::new()).is_empty());
}
