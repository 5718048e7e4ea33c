use turnover::missing::{absent_in, get_na_peptides, MissingMap};
use turnover::parser::Peptide;

fn peptide(name: &str, intensities: Vec<Option<u64>>) -> Peptide {
    Peptide {
        name: name.to_string(),
        protein: "ALB".to_string(),
        mass_charge_ratio: "1.0".to_string(),
        intensities,
    }
}

#[test]
fn absent_in_lists_the_columns_without_reading() {
    assert_eq!(absent_in(&vec![Some(1), None, Some(0), None]), vec![1, 3]);
    assert_eq!(absent_in(&vec![Some(1), Some(2)]), Vec::<usize>::new());
    assert_eq!(absent_in(&vec![]), Vec::<usize>::new());
}

#[test]
fn only_peptides_with_an_absent_reading_enter_the_map() {
    let peptides = vec![
        peptide("PEPA", vec![Some(1), Some(2), None, Some(4)]),
        peptide("PEPB", vec![Some(1), Some(2), Some(3), Some(4)]),
        peptide("PEPC", vec![None, None, Some(3), Some(4)]),
    ];
    let map = get_na_peptides(&peptides);
    assert_eq!(map.len(), 2);
    assert_eq!(map.get("PEPA"), Some(&vec![2]));
    assert_eq!(map.get("PEPB"), None);
    assert_eq!(map.get("PEPC"), Some(&vec![0, 1]));
    assert_eq!(map.peptide_at(0), "PEPA");
    assert_eq!(map.columns_at(1), &vec![0, 1]);
    for i in 0..map.len() {
        assert!(!map.columns_at(i).is_empty());
    }
}

#[test]
fn no_absent_reading_gives_an_empty_map() {
    let peptides = vec![peptide("PEPA", vec![Some(1), Some(2)])];
    assert_eq!(get_na_peptides(&peptides).len(), 0);
    assert_eq!(get_na_peptides(&Vec::new()).len(), 0);
}

#[test]
fn a_later_peptide_of_the_same_name_takes_the_entry_over() {
    let peptides = vec![
        peptide("PEPA", vec![None, Some(2)]),
        peptide("PEPB", vec![None, None]),
        peptide("PEPA", vec![Some(1), None]),
        peptide("PEPA", vec![Some(1), Some(2)]),
    ];
    let map = get_na_peptides(&peptides);
    assert_eq!(map.len(), 2);
    assert_eq!(map.peptide_at(0), "PEPA");
    assert_eq!(map.columns_at(0), &vec![1]);
    assert_eq!(map.get("PEPB"), Some(&vec![0, 1]));
}

#[test]
fn insert_replaces_what_was_recorded_for_a_name() {
    let mut map = MissingMap::new();
    map.insert("A".to_string(), vec![1]);
    map.insert("B".to_string(), vec![2]);
    map.insert("A".to_string(), vec![3, 4]);
    assert_eq!(map.len(), 2);
    assert_eq!(map.get("A"), Some(&vec![3, 4]));
    assert_eq!(map.get("B"), Some(&vec![2]));
    assert_eq!(map.get("C"), None);
}
