use turnover::parser::ParseError;
use turnover::patcher::PatchError;
use turnover::pipeline::{Action, Event, Pipeline, PipelineError, Stage};

const TITLES: &str =
    "Protein,Peptide,NEH,Charge,Mean,nRet,MPE_0,MPE_1,Two_SD_Minus,nRet,Two_SD_Plus,nRet\n";

fn bytes(text: &str) -> Vec<u8> {
    text.as_bytes().to_vec()
}

fn text(contents: &Vec<u8>) -> String {
    String::from_utf8(contents.clone()).unwrap()
}

fn inputs(spreadsheet: &str, heavy_water: &str) -> Event {
    Event::InputsRead { spreadsheet: bytes(spreadsheet), heavy_water: bytes(heavy_water) }
}

#[test]
fn without_absent_readings_the_master_result_is_the_result() {
    let sheet = "Day,,,0,7\nMouse,,,m1,m2\nLabel,,,0,0.05\nProtein,Peptide,Mz,0,1\nALB,PEPA,500.1,10,20\n";
    let heavy = "Experiment, Labeling\n0, 0\n7, 0.05\n";
    let master = format!("{}ALB,PEPA,1,2,0.1,3,0.2,0.3,0.05,3,0.15,3\n", TITLES);
    let mut run = Pipeline::new(true);
    assert_eq!(run.stage(), Stage::Start);
    let mut engine_runs = 0;
    match run.step(inputs(sheet, heavy)) {
        Action::RunEngine { dataset } => {
            engine_runs += 1;
            assert_eq!(text(&dataset.spreadsheet_contents), sheet);
            assert_eq!(text(&dataset.heavy_water_contents), heavy);
            assert_eq!(dataset.dataset.samples_removed, 0);
        }
        _ => panic!("the master run was not asked for"),
    }
    assert_eq!(run.stage(), Stage::Parsed);
    assert_eq!(run.affected().len(), 0);
    match run.step(Event::EngineSucceeded { result: bytes(&master) }) {
        Action::Finish { output } => assert_eq!(text(&output), master),
        _ => panic!("the run did not finish"),
    }
    assert_eq!(run.stage(), Stage::AllPatched);
    assert_eq!(engine_runs, 1);
}

#[test]
fn a_peptide_with_an_absent_reading_is_rerun_and_patched() {
    let sheet = "Day,,,0,1,3,7\nMouse,,,m1,m2,m3,m4\nLabel,,,0,0.01,0.02,0.03\nProtein,Peptide,Mz,0,1,2,3\nALB,PEPA,500.1,10,20,#N/A,40\nALB,PEPB,600.2,11,21,31,41\n";
    let heavy = "Experiment, Labeling\n0, 0\n1, 0.01\n3, 0.02\n7, 0.03\n";
    let master = format!(
        "{}ALB,PEPA,1,2,0.1,3,0.2,0.3,0.05,3,0.15,3\nALB,PEPB,1,2,0.4,4,0.2,0.3,0.35,4,0.45,4\n",
        TITLES
    );
    let rerun = format!("{}ALB,PEPA,1,2,0.11,3,0.21,0.31,0.06,3,0.16,3\n", TITLES);
    let mut run = Pipeline::new(true);
    let mut engine_runs = 0;
    match run.step(inputs(sheet, heavy)) {
        Action::RunEngine { dataset } => {
            engine_runs += 1;
            assert_eq!(text(&dataset.spreadsheet_contents), sheet);
            assert!(dataset.dataset.spreadsheet.ends_with(".csv"));
            assert!(dataset.dataset.spreadsheet.len() > ".csv".len());
            assert!(dataset.dataset.heavy_water.ends_with(".txt"));
            assert!(dataset.dataset.heavy_water.len() > ".txt".len());
        }
        _ => panic!("the master run was not asked for"),
    }
    assert_eq!(run.affected().len(), 1);
    assert_eq!(run.affected().get("PEPA"), Some(&vec![2]));
    assert_eq!(run.affected().get("PEPB"), None);
    match run.step(Event::EngineSucceeded { result: bytes(&master) }) {
        Action::RunEngine { dataset } => {
            engine_runs += 1;
            assert_eq!(dataset.dataset.samples_removed, 1);
            assert!(dataset.dataset.spreadsheet.ends_with(".csv"));
            assert!(dataset.dataset.heavy_water.ends_with(".txt"));
            assert_ne!(dataset.dataset.spreadsheet, dataset.dataset.heavy_water);
            assert_eq!(
                text(&dataset.spreadsheet_contents),
                "Day,,,0,1,7\nMouse,,,m1,m2,m4\nLabel,,,0,0.01,0.03\nProtein,Peptide,Mz,0,1,3\nALB,PEPA,500.1,10,20,40\n"
            );
            assert_eq!(
                text(&dataset.heavy_water_contents),
                "Experiment, Labeling\n0, 0\n1, 0.01\n7, 0.03\n"
            );
        }
        _ => panic!("the rerun was not asked for"),
    }
    assert_eq!(run.stage(), Stage::AffectedSetKnown);
    match run.step(Event::EngineSucceeded { result: bytes(&rerun) }) {
        Action::Finish { output } => assert_eq!(
            text(&output),
            format!(
                "{}ALB,PEPA,1,2,0.11,3,0.21,0.31,0.06,3,0.16,3,1 sample omitted\nALB,PEPB,1,2,0.4,4,0.2,0.3,0.35,4,0.45,4\n",
                TITLES
            )
        ),
        _ => panic!("the run did not finish"),
    }
    assert_eq!(run.stage(), Stage::AllPatched);
    assert_eq!(engine_runs, 2);
}

#[test]
fn a_failure_of_the_master_run_aborts_the_run() {
    let sheet = "Day,,,0,7\nMouse,,,m1,m2\nLabel,,,0,0.05\nProtein,Peptide,Mz,0,1\nALB,PEPA,500.1,10,#N/A\n";
    let mut run = Pipeline::new(true);
    assert!(matches!(run.step(inputs(sheet, "")), Action::RunEngine { .. }));
    match run.step(Event::EngineFailed { diagnostics: "no such file".to_string() }) {
        Action::Abort { error, diagnostics } => {
            assert_eq!(error, PipelineError::Engine);
            assert_eq!(diagnostics, "no such file");
        }
        _ => panic!("the run was not aborted"),
    }
    assert_eq!(run.stage(), Stage::Failed);
    match run.step(Event::EngineSucceeded { result: bytes(TITLES) }) {
        Action::Abort { error, .. } => assert_eq!(error, PipelineError::UnexpectedEvent),
        _ => panic!("a failed run went on"),
    }
    assert_eq!(run.stage(), Stage::Failed);
}

#[test]
fn a_failure_of_a_rerun_aborts_the_run() {
    let sheet = "Day,,,0,7\nMouse,,,m1,m2\nLabel,,,0,0.05\nProtein,Peptide,Mz,0,1\nALB,PEPA,500.1,10,#N/A\n";
    let master = format!("{}ALB,PEPA,1,2,0.1,3,0.2,0.3,0.05,3,0.15,3\n", TITLES);
    let mut run = Pipeline::new(true);
    assert!(matches!(run.step(inputs(sheet, "")), Action::RunEngine { .. }));
    assert!(matches!(
        run.step(Event::EngineSucceeded { result: bytes(&master) }),
        Action::RunEngine { .. }
    ));
    assert!(matches!(
        run.step(Event::EngineFailed { diagnostics: String::new() }),
        Action::Abort { error: PipelineError::Engine, .. }
    ));
    assert_eq!(run.stage(), Stage::Failed);
}

#[test]
fn every_affected_peptide_gets_one_rerun() {
    let sheet = "Day,,,0,7\nMouse,,,m1,m2\nLabel,,,0,0.05\nProtein,Peptide,Mz,0,1\nALB,PEPA,500.1,10,#N/A\nALB,PEPB,500.1,10,20\nALB,PEPC,500.1,#N/A,#N/A\n";
    let master = format!(
        "{}ALB,PEPA,a\nALB,PEPB,b\nALB,PEPC,c\n",
        "Protein,Peptide,NEH\n"
    );
    let mut run = Pipeline::new(true);
    let mut engine_runs = 0;
    let mut action = run.step(inputs(sheet, "Experiment, Labeling\n0, 0\n7, 0.05\n"));
    let mut output = None;
    loop {
        match action {
            Action::RunEngine { dataset } => {
                engine_runs += 1;
                let result = if engine_runs == 1 {
                    master.clone()
                } else {
                    let sheet = text(&dataset.spreadsheet_contents);
                    let name = sheet.lines().last().unwrap().split(',').nth(1).unwrap().to_string();
                    format!("Protein,Peptide,NEH\nALB,{},rerun\n", name)
                };
                action = run.step(Event::EngineSucceeded { result: bytes(&result) });
            }
            Action::Finish { output: contents } => {
                output = Some(text(&contents));
                break;
            }
            Action::Abort { error, .. } => panic!("aborted: {:?}", error),
        }
    }
    assert_eq!(engine_runs, 3);
    assert_eq!(
        output.unwrap(),
        "Protein,Peptide,NEH\nALB,PEPA,rerun,1 sample omitted\nALB,PEPB,b\nALB,PEPC,rerun,2 samples omitted\n"
    );
}

#[test]
fn without_removal_no_peptide_is_rerun() {
    let sheet = "Day,,,0,7\nMouse,,,m1,m2\nLabel,,,0,0.05\nProtein,Peptide,Mz,0,1\nALB,PEPA,500.1,10,#N/A\n";
    let mut run = Pipeline::new(false);
    assert!(matches!(run.step(inputs(sheet, "")), Action::RunEngine { .. }));
    match run.step(Event::EngineSucceeded { result: bytes("anything at all") }) {
        Action::Finish { output } => assert_eq!(text(&output), "anything at all"),
        _ => panic!("the run did not finish"),
    }
}

#[test]
fn a_spreadsheet_that_does_not_parse_aborts_the_run() {
    let mut run = Pipeline::new(true);
    match run.step(inputs("Day,,,x\n", "")) {
        Action::Abort { error, diagnostics } => {
            assert_eq!(error, PipelineError::Parse(ParseError::InvalidDay { column: 0 }));
            assert_eq!(diagnostics, "");
        }
        _ => panic!("the run was not aborted"),
    }
    assert_eq!(run.stage(), Stage::Failed);
}

#[test]
fn a_rerun_without_result_aborts_the_run() {
    let sheet = "Day,,,0,7\nMouse,,,m1,m2\nLabel,,,0,0.05\nProtein,Peptide,Mz,0,1\nALB,PEPA,500.1,10,#N/A\n";
    let mut run = Pipeline::new(true);
    assert!(matches!(run.step(inputs(sheet, "")), Action::RunEngine { .. }));
    assert!(matches!(
        run.step(Event::EngineSucceeded { result: bytes(TITLES) }),
        Action::RunEngine { .. }
    ));
    assert!(matches!(
        run.step(Event::EngineSucceeded { result: bytes(TITLES) }),
        Action::Abort { error: PipelineError::Patch(PatchError::RerunEmpty), .. }
    ));
}

#[test]
fn an_event_out_of_turn_aborts_the_run() {
    let mut run = Pipeline::new(true);
    assert!(matches!(
        run.step(Event::EngineSucceeded { result: Vec::new() }),
        Action::Abort { error: PipelineError::UnexpectedEvent, .. }
    ));
    let mut run = Pipeline::new(true);
    assert!(matches!(run.step(inputs("", "")), Action::RunEngine { .. }));
    assert!(matches!(
        run.step(inputs("", "")),
        Action::Abort { error: PipelineError::UnexpectedEvent, .. }
    ));
}
