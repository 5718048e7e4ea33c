use turnover::results::{
    aggregate, calculation_row, calculation_rows, header_row, parse_calculations,
    read_calculations, serialize_calculations, Calculation, FileFault, ResultError,
};

fn calculation(peptide: &str, mean: &str, samples_omitted: u64) -> Calculation {
    Calculation {
        protein: "ALB".to_string(),
        peptide: peptide.to_string(),
        neh: "1".to_string(),
        charge: "2".to_string(),
        mean: mean.to_string(),
        n_ret_1: "3".to_string(),
        mpe_0: "0.20".to_string(),
        mpe_1: "0.30".to_string(),
        two_sd_minus: "0.05".to_string(),
        n_ret_2: "4".to_string(),
        two_sd_plus: "0.15".to_string(),
        n_ret_3: "5".to_string(),
        samples_omitted,
    }
}

const TITLES: &str =
    "Protein,Peptide,NEH,Charge,Mean,nRet,MPE_0,MPE_1,Two_SD_Minus,nRet,Two_SD_Plus,nRet,\n";

#[test]
fn header_row_holds_the_fixed_titles() {
    assert_eq!(
        header_row(),
        vec![
            "Protein", "Peptide", "NEH", "Charge", "Mean", "nRet", "MPE_0", "MPE_1",
            "Two_SD_Minus", "nRet", "Two_SD_Plus", "nRet", ""
        ]
    );
}

#[test]
fn calculation_row_ends_with_the_annotation() {
    assert_eq!(
        calculation_row(&calculation("PEPA", "0.1000", 2)),
        vec![
            "ALB", "PEPA", "1", "2", "0.1000", "3", "0.20", "0.30", "0.05", "4", "0.15", "5",
            "2 samples omitted"
        ]
    );
    assert_eq!(calculation_row(&calculation("PEPA", "0.1", 0))[12], "");
    assert_eq!(calculation_row(&calculation("PEPA", "0.1", 1))[12], "1 sample omitted");
}

#[test]
fn calculation_rows_start_with_the_titles() {
    let rows = calculation_rows(&vec![calculation("A", "1", 0), calculation("B", "2", 3)]);
    assert_eq!(rows.len(), 3);
    assert_eq!(rows[0], header_row());
    assert_eq!(rows[2][1], "B");
    assert_eq!(rows[2][12], "3 samples omitted");
    assert_eq!(calculation_rows(&Vec::new()), vec![header_row()]);
}

#[test]
fn serialize_calculations_writes_the_table() {
    let contents =
        serialize_calculations(&vec![calculation("PEPA", "0.1", 0), calculation("PEP,B", "0.2", 1)]);
    assert_eq!(
        String::from_utf8(contents).unwrap(),
        format!(
            "{}ALB,PEPA,1,2,0.1,3,0.20,0.30,0.05,4,0.15,5,\nALB,\"PEP,B\",1,2,0.2,3,0.20,0.30,0.05,4,0.15,5,1 sample omitted\n",
            TITLES
        )
    );
    assert_eq!(String::from_utf8(serialize_calculations(&Vec::new())).unwrap(), TITLES);
}

#[test]
fn parse_calculations_keeps_the_text_and_trims_the_name() {
    let contents = "Protein,Peptide,NEH,Charge,Mean,nRet,MPE_0,MPE_1,Two_SD_Minus,nRet,Two_SD_Plus,nRet\nALB,  PEPA ,1,2,0.1000,3,0.20,0.30,0.05,4,0.15,5\n ALB , PEPB,01,2,1e-3,3,0.20,0.30,0.05,4,0.15,5\n";
    let calculations = parse_calculations(&contents.as_bytes().to_vec(), 2).unwrap();
    assert_eq!(calculations.len(), 2);
    assert_eq!(calculations[0].peptide, "PEPA");
    assert_eq!(calculations[0].mean, "0.1000");
    assert_eq!(calculations[0].n_ret_3, "5");
    assert_eq!(calculations[0].samples_omitted, 2);
    assert_eq!(calculations[1].protein, " ALB ");
    assert_eq!(calculations[1].peptide, "PEPB");
    assert_eq!(calculations[1].neh, "01");
    assert_eq!(calculations[1].mean, "1e-3");
}

#[test]
fn parse_calculations_names_the_faulty_row() {
    let short = "a,b,c\n1,2,3\n";
    assert_eq!(
        parse_calculations(&short.as_bytes().to_vec(), 0).unwrap_err(),
        ResultError::MalformedRow { row: 0 }
    );
    let ragged = "a,b,c,d,e,f,g,h,i,j,k,l\n1,2,3,4,5,6,7,8,9,10,11,12\n1,2\n";
    assert_eq!(
        parse_calculations(&ragged.as_bytes().to_vec(), 0).unwrap_err(),
        ResultError::Unreadable { row: 1 }
    );
    assert_eq!(parse_calculations(&Vec::new(), 0).unwrap().len(), 0);
}

#[test]
fn read_calculations_takes_the_first_twelve_fields() {
    let rows = vec![
        vec!["p", " n ", "3", "4", "5", "6", "7", "8", "9", "10", "11", "12", "13"]
            .into_iter()
            .map(String::from)
            .collect::<Vec<String>>(),
    ];
    let calculations = read_calculations(&rows, 7).unwrap();
    assert_eq!(calculations[0].protein, "p");
    assert_eq!(calculations[0].peptide, "n");
    assert_eq!(calculations[0].n_ret_3, "12");
    assert_eq!(calculations[0].samples_omitted, 7);
}

#[test]
fn aggregate_gathers_the_files_in_order() {
    let first = "a,b,c,d,e,f,g,h,i,j,k,l\nP,A,3,4,5,6,7,8,9,10,11,12\nP,B,3,4,5,6,7,8,9,10,11,12\n";
    let second = "a,b,c,d,e,f,g,h,i,j,k,l\nP,C,3,4,5,6,7,8,9,10,11,12\n";
    let files = vec![(first.as_bytes().to_vec(), 0), (second.as_bytes().to_vec(), 2)];
    let calculations = aggregate(&files).unwrap();
    let names: Vec<&str> = calculations.iter().map(|c| c.peptide.as_str()).collect();
    assert_eq!(names, vec!["A", "B", "C"]);
    let counts: Vec<u64> = calculations.iter().map(|c| c.samples_omitted).collect();
    assert_eq!(counts, vec![0, 0, 2]);
    assert_eq!(aggregate(&Vec::new()).unwrap().len(), 0);
}

#[test]
fn aggregate_names_the_file_that_fails() {
    let good = "a,b,c,d,e,f,g,h,i,j,k,l\nP,A,3,4,5,6,7,8,9,10,11,12\n";
    let bad = "a,b\n1,2\n";
    let files = vec![
        (good.as_bytes().to_vec(), 0),
        (bad.as_bytes().to_vec(), 1),
        (bad.as_bytes().to_vec(), 2),
    ];
    assert_eq!(
        aggregate(&files).unwrap_err(),
        FileFault { file: 1, fault: ResultError::MalformedRow { row: 0 } }
    );
}
