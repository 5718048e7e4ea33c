//! The course of one run: the inputs are parsed, the engine runs once on the
//! whole data, then once more for each peptide that lacks readings, and each
//! rerun is patched into the result. The pipeline decides; whoever drives it
//! reads the files, runs the engine and hands back what happened.

use crate::csv_io::csv_decode;
use crate::isolator::{
    copy_input_files, drawn_names, isolate, isolated_spreadsheet,
    lemma_affected_columns_are_omitted, lemma_affected_peptides_have_rows, omitted_samples,
    sample_lines, sample_positions, without_lines, IsolateError, IsolatedDataset,
};
use crate::missing::{get_na_peptides, missing_entries_of, MissingMap};
use crate::parser::{parse, parse_outcome, parsed, ParseError};
use crate::patcher::{aggregate, patch_outcome, PatchError};
use crate::table::lemma_omitted_is_lost;
use vstd::prelude::*;

verus! {

/// Where a run stands.
#[derive(Debug, Clone, Copy, PartialEq, Eq, Structural)]
pub enum Stage {
    /// Nothing has happened yet; the input files are awaited.
    Start,
    /// The inputs are parsed; the master run's result is awaited.
    Parsed,
    /// The master result is in hand and the affected peptides are known; the
    /// result of the next peptide's rerun is awaited.
    AffectedSetKnown,
    /// Every affected peptide is patched; the result has been handed out.
    AllPatched,
    /// The run was aborted.
    Failed,
}

/// Why a run was aborted.
#[derive(Debug, Clone, Copy, PartialEq, Eq, Structural)]
pub enum PipelineError {
    Parse(ParseError),
    Isolate(IsolateError),
    Patch(PatchError),
    /// The engine did not complete successfully.
    Engine,
    /// Something was reported that the run was not waiting for.
    UnexpectedEvent,
}

/// What happened outside.
pub enum Event {
    /// The input files were read.
    InputsRead { spreadsheet: Vec<u8>, heavy_water: Vec<u8> },
    /// The engine completed; `result` is what its result file holds.
    EngineSucceeded { result: Vec<u8> },
    /// The engine failed; `diagnostics` is what it wrote to its error stream.
    EngineFailed { diagnostics: String },
}

/// What is to be done outside.
pub enum Action {
    /// Write the two files of `dataset` and run the engine on them.
    RunEngine { dataset: IsolatedDataset },
    /// Hand out `output`, the result of the run.
    Finish { output: Vec<u8> },
    /// Give up; nothing is handed out.
    Abort { error: PipelineError, diagnostics: String },
}

/// An event as plain values.
pub enum EventView {
    InputsRead { spreadsheet: Seq<u8>, heavy_water: Seq<u8> },
    EngineSucceeded { result: Seq<u8> },
    EngineFailed { diagnostics: Seq<char> },
}

/// An action as plain values. The names of a dataset's files are drawn at
/// random and are no part of it.
pub enum ActionView {
    RunEngine { spreadsheet: Seq<u8>, heavy_water: Seq<u8>, samples_removed: u64 },
    Finish { output: Seq<u8> },
    Abort { error: PipelineError, diagnostics: Seq<char> },
}

impl View for Event {
    type V = EventView;

    open spec fn view(&self) -> EventView {
        match self {
            Event::InputsRead { spreadsheet, heavy_water } => EventView::InputsRead {
                spreadsheet: spreadsheet@,
                heavy_water: heavy_water@,
            },
            Event::EngineSucceeded { result } => EventView::EngineSucceeded { result: result@ },
            Event::EngineFailed { diagnostics } => EventView::EngineFailed {
                diagnostics: diagnostics@,
            },
        }
    }
}

impl View for Action {
    type V = ActionView;

    open spec fn view(&self) -> ActionView {
        match self {
            Action::RunEngine { dataset } => ActionView::RunEngine {
                spreadsheet: dataset.spreadsheet_contents@,
                heavy_water: dataset.heavy_water_contents@,
                samples_removed: dataset.dataset.samples_removed,
            },
            Action::Finish { output } => ActionView::Finish { output: output@ },
            Action::Abort { error, diagnostics } => ActionView::Abort {
                error: *error,
                diagnostics: diagnostics@,
            },
        }
    }
}

/// A run as plain values.
pub struct PipelineView {
    pub stage: Stage,
    /// Whether peptides that lack readings are rerun at all.
    pub remove_na: bool,
    pub spreadsheet: Seq<u8>,
    pub heavy_water: Seq<u8>,
    /// The affected peptides, each with the sample columns it lacks.
    pub affected: Seq<(Seq<char>, Seq<usize>)>,
    /// How many affected peptides are patched.
    pub done: nat,
    /// The master result, with the patches made so far.
    pub master: Seq<u8>,
    /// How many samples the rerun that is awaited leaves out.
    pub omitted: u64,
    /// How often the engine has been asked to run.
    pub engine_runs: nat,
}

/// The run aborted with `error`.
pub open spec fn aborted(s: PipelineView, error: PipelineError, diagnostics: Seq<char>) -> (
    PipelineView,
    ActionView,
) {
    (PipelineView { stage: Stage::Failed, ..s }, ActionView::Abort { error, diagnostics })
}

/// What follows once the inputs are read: they are parsed, the affected
/// peptides are found, and the engine is asked to run on the whole data.
pub open spec fn on_inputs(s: PipelineView, spreadsheet: Seq<u8>, heavy_water: Seq<u8>) -> (
    PipelineView,
    ActionView,
) {
    match parse_outcome(csv_decode(spreadsheet, false, false)) {
        Err(fault) => aborted(s, PipelineError::Parse(fault), Seq::empty()),
        Ok(sheet) => (
            PipelineView {
                stage: Stage::Parsed,
                spreadsheet,
                heavy_water,
                affected: missing_entries_of(sheet.3),
                done: 0,
                omitted: 0,
                engine_runs: 1,
                ..s
            },
            ActionView::RunEngine { spreadsheet, heavy_water, samples_removed: 0 },
        ),
    }
}

/// What follows once the master result is current: the next affected peptide
/// is isolated and the engine asked to run on it, or, if none is left or
/// none is to be rerun, the result is handed out.
pub open spec fn proceed(s: PipelineView) -> (PipelineView, ActionView) {
    if !s.remove_na || s.done >= s.affected.len() {
        (PipelineView { stage: Stage::AllPatched, ..s }, ActionView::Finish { output: s.master })
    } else {
        let (name, columns) = s.affected[s.done as int];
        let decoded = csv_decode(s.spreadsheet, false, false);
        let samples_removed = omitted_samples(decoded.0, columns) as u64;
        match isolated_spreadsheet(decoded, name, columns) {
            Err(fault) => aborted(s, PipelineError::Isolate(fault), Seq::empty()),
            Ok(bytes) => (
                PipelineView {
                    stage: Stage::AffectedSetKnown,
                    omitted: samples_removed,
                    engine_runs: s.engine_runs + 1,
                    ..s
                },
                ActionView::RunEngine {
                    spreadsheet: bytes,
                    heavy_water: without_lines(s.heavy_water, sample_lines(columns)),
                    samples_removed,
                },
            ),
        }
    }
}

/// What follows once the rerun of the next affected peptide has a result: it
/// is patched into the master result with a note of the samples that the
/// rerun left out, and the run proceeds.
pub open spec fn on_rerun(s: PipelineView, result: Seq<u8>) -> (PipelineView, ActionView) {
    match patch_outcome(
        csv_decode(s.master, false, true),
        csv_decode(result, true, false),
        s.omitted,
    ) {
        Err(fault) => aborted(s, PipelineError::Patch(fault), Seq::empty()),
        Ok(bytes) => proceed(PipelineView { master: bytes, done: s.done + 1, ..s }),
    }
}

/// The next state of a run and what is to be done, for each state and event.
/// A failure of the engine aborts the run, whichever run of the engine it
/// was; so does an event that the run was not waiting for.
pub open spec fn transition(s: PipelineView, event: EventView) -> (PipelineView, ActionView) {
    match (s.stage, event) {
        (Stage::Start, EventView::InputsRead { spreadsheet, heavy_water }) => on_inputs(
            s,
            spreadsheet,
            heavy_water,
        ),
        (Stage::Parsed, EventView::EngineSucceeded { result }) => proceed(
            PipelineView { master: result, ..s },
        ),
        (Stage::AffectedSetKnown, EventView::EngineSucceeded { result }) => on_rerun(s, result),
        (Stage::Parsed, EventView::EngineFailed { diagnostics }) => aborted(
            s,
            PipelineError::Engine,
            diagnostics,
        ),
        (Stage::AffectedSetKnown, EventView::EngineFailed { diagnostics }) => aborted(
            s,
            PipelineError::Engine,
            diagnostics,
        ),
        _ => aborted(s, PipelineError::UnexpectedEvent, Seq::empty()),
    }
}

/// The spreadsheet of the run parses, and the affected peptides are those
/// that it is found to lack readings for.
pub open spec fn tracks_inputs(s: PipelineView) -> bool {
    match parse_outcome(csv_decode(s.spreadsheet, false, false)) {
        Ok(sheet) => s.affected == missing_entries_of(sheet.3),
        Err(_) => false,
    }
}

/// What holds of a run at every stage: the engine has been asked to run once
/// for the master run and once for each affected peptide taken up so far,
/// and while a rerun is awaited there is a peptide that it belongs to.
pub open spec fn consistent(s: PipelineView) -> bool {
    match s.stage {
        Stage::Start => s.engine_runs == 0,
        Stage::Parsed => s.engine_runs == 1 && s.done == 0 && tracks_inputs(s),
        Stage::AffectedSetKnown => s.remove_na && s.done < s.affected.len() && s.engine_runs
            == s.done + 2 && tracks_inputs(s),
        Stage::AllPatched => if s.remove_na {
            s.done == s.affected.len() && s.engine_runs == s.affected.len() + 1
        } else {
            s.engine_runs == 1
        },
        Stage::Failed => true,
    }
}

/// Every step keeps a run consistent, asks for one more run of the engine
/// exactly when its action is to run the engine, hands out the master result
/// only on reaching the last stage, and leaves a finished or failed run
/// failed.
pub proof fn lemma_transition_consistent(s: PipelineView, event: EventView)
    requires
        consistent(s),
    ensures
        consistent(transition(s, event).0),
        transition(s, event).0.engine_runs == s.engine_runs + if transition(
            s,
            event,
        ).1 is RunEngine {
            1nat
        } else {
            0nat
        },
        transition(s, event).1 is Finish <==> transition(s, event).0.stage == Stage::AllPatched,
        transition(s, event).1 is Abort <==> transition(s, event).0.stage == Stage::Failed,
        s.stage == Stage::AllPatched || s.stage == Stage::Failed ==> transition(s, event).0.stage
            == Stage::Failed,
        transition(s, event).0.remove_na == s.remove_na,
{
}

/// A run never fails to isolate a peptide: each affected peptide has a row
/// in the spreadsheet it was found in. So once the master result is in hand,
/// only a failure of the engine or a rerun's result that cannot be patched in
/// stands between the run and its end.
pub proof fn lemma_isolation_succeeds(s: PipelineView, event: EventView)
    requires
        consistent(s),
    ensures
        !(transition(s, event).1 matches ActionView::Abort {
            error: PipelineError::Isolate(_),
            ..
        }),
{
    if (s.stage == Stage::Parsed || s.stage == Stage::AffectedSetKnown) && event
        is EngineSucceeded {
        let decoded = csv_decode(s.spreadsheet, false, false);
        let sheet = parse_outcome(decoded)->Ok_0;
        assert(parsed(decoded.0) == Ok::<_, ParseError>(sheet));
        assert forall|i: int| 0 <= i < s.affected.len() implies isolated_spreadsheet(
            decoded,
            (#[trigger] s.affected[i]).0,
            s.affected[i].1,
        ) is Ok by {
            lemma_affected_peptides_have_rows(decoded.0, i);
        }
    }
}

/// One run of the pipeline over one input file.
pub struct Pipeline {
    stage: Stage,
    remove_na: bool,
    spreadsheet: Vec<u8>,
    heavy_water: Vec<u8>,
    affected: MissingMap,
    done: usize,
    omitted: u64,
    master: Vec<u8>,
    engine_runs: Ghost<nat>,
}

impl View for Pipeline {
    type V = PipelineView;

    closed spec fn view(&self) -> PipelineView {
        PipelineView {
            stage: self.stage,
            remove_na: self.remove_na,
            spreadsheet: self.spreadsheet@,
            heavy_water: self.heavy_water@,
            affected: self.affected.entries(),
            done: self.done as nat,
            omitted: self.omitted,
            master: self.master@,
            engine_runs: self.engine_runs@,
        }
    }
}

/// While a rerun is awaited, the samples it leaves out are the columns that
/// were recorded for its peptide, each counted once: the note that the patch
/// appends gives their number.
pub proof fn lemma_rerun_omits_recorded_columns(s: PipelineView, event: EventView)
    requires
        consistent(s),
        ({
            let rows = csv_decode(s.spreadsheet, false, false).0;
            rows.len() > 0 ==> rows[0].len() <= usize::MAX
        }),
    ensures
        ({
            let next = transition(s, event).0;
            next.stage == Stage::AffectedSetKnown ==> next.omitted == next.affected[next.done
                as int].1.len()
        }),
{
    if (s.stage == Stage::Parsed || s.stage == Stage::AffectedSetKnown) && event
        is EngineSucceeded {
        let decoded = csv_decode(s.spreadsheet, false, false);
        let sheet = parse_outcome(decoded)->Ok_0;
        assert(parsed(decoded.0) == Ok::<_, ParseError>(sheet));
        assert forall|i: int| 0 <= i < s.affected.len() implies omitted_samples(
            decoded.0,
            (#[trigger] s.affected[i]).1,
        ) == s.affected[i].1.len() && s.affected[i].1.len() <= usize::MAX by {
            lemma_affected_columns_are_omitted(decoded.0, i);
            lemma_affected_peptides_have_rows(decoded.0, i);
            lemma_omitted_is_lost(decoded.0[0], sample_positions(s.affected[i].1));
        }
    }
}

impl Pipeline {
    /// The run is consistent and its record of affected peptides in order.
    pub closed spec fn wf(&self) -> bool {
        self.affected.wf() && consistent(self@)
    }

    /// A run that has not begun. With `remove_na` unset no peptide is rerun
    /// and the master result is the result.
    pub fn new(remove_na: bool) -> (run: Pipeline)
        ensures
            run.wf(),
            run@.stage == Stage::Start,
            run@.remove_na == remove_na,
            run@.engine_runs == 0,
    {
        Pipeline {
            stage: Stage::Start,
            remove_na,
            spreadsheet: Vec::new(),
            heavy_water: Vec::new(),
            affected: MissingMap::new(),
            done: 0,
            omitted: 0,
            master: Vec::new(),
            engine_runs: Ghost(0),
        }
    }

    /// Where the run stands.
    pub fn stage(&self) -> (stage: Stage)
        ensures
            stage == self@.stage,
    {
        self.stage
    }

    /// The peptides found to lack readings.
    pub fn affected(&self) -> (affected: &MissingMap)
        ensures
            affected.entries() == self@.affected,
            self.wf() ==> affected.wf(),
    {
        &self.affected
    }

    fn abort(&mut self, error: PipelineError, diagnostics: String) -> (action: Action)
        requires
            old(self).affected.wf(),
        ensures
            final(self).wf(),
            (final(self)@, action@) == aborted(old(self)@, error, diagnostics@),
    {
        self.stage = Stage::Failed;
        Action::Abort { error, diagnostics }
    }

    fn proceed(&mut self) -> (action: Action)
        requires
            old(self).affected.wf(),
            tracks_inputs(old(self)@),
            old(self).stage == Stage::Parsed && old(self).done == 0 && old(self).engine_runs@ == 1
                || old(self).stage == Stage::AffectedSetKnown && old(self).remove_na && old(
                self,
            ).done <= old(self).affected.entries().len() && old(self).engine_runs@ == old(
                self,
            ).done + 1,
        ensures
            final(self).wf(),
            (final(self)@, action@) == proceed(old(self)@),
            action matches Action::RunEngine { dataset } ==> drawn_names(dataset.dataset),
    {
        if !self.remove_na || self.done >= self.affected.len() {
            self.stage = Stage::AllPatched;
            return Action::Finish { output: self.master.clone() };
        }
        let isolated = isolate(
            &self.spreadsheet,
            &self.heavy_water,
            self.affected.peptide_at(self.done).as_str(),
            self.affected.columns_at(self.done),
        );
        match isolated {
            Err(fault) => self.abort(PipelineError::Isolate(fault), String::new()),
            Ok(dataset) => {
                self.stage = Stage::AffectedSetKnown;
                self.omitted = dataset.dataset.samples_removed;
                self.engine_runs = Ghost((self.engine_runs@ + 1) as nat);
                Action::RunEngine { dataset }
            },
        }
    }

    /// Takes in what happened and says what is to be done next. A dataset
    /// that is handed out for the engine bears freshly drawn names.
    pub fn step(&mut self, event: Event) -> (action: Action)
        requires
            old(self).wf(),
        ensures
            final(self).wf(),
            (final(self)@, action@) == transition(old(self)@, event@),
            action matches Action::RunEngine { dataset } ==> drawn_names(dataset.dataset),
    {
        match (self.stage, event) {
            (Stage::Start, Event::InputsRead { spreadsheet, heavy_water }) => {
                match parse(&spreadsheet) {
                    Err(fault) => self.abort(PipelineError::Parse(fault), String::new()),
                    Ok(sheet) => {
                        self.affected = get_na_peptides(&sheet.3);
                        self.done = 0;
                        self.omitted = 0;
                        let dataset = copy_input_files(&spreadsheet, &heavy_water);
                        self.spreadsheet = spreadsheet;
                        self.heavy_water = heavy_water;
                        self.stage = Stage::Parsed;
                        self.engine_runs = Ghost(1);
                        Action::RunEngine { dataset }
                    },
                }
            },
            (Stage::Parsed, Event::EngineSucceeded { result }) => {
                self.master = result;
                self.proceed()
            },
            (Stage::AffectedSetKnown, Event::EngineSucceeded { result }) => {
                proof {
                    self.affected.lemma_entries_fit();
                }
                match aggregate(&mut self.master, &result, self.omitted) {
                    Err(fault) => self.abort(PipelineError::Patch(fault), String::new()),
                    Ok(()) => {
                        self.done = self.done + 1;
                        self.proceed()
                    },
                }
            },
            (Stage::Parsed, Event::EngineFailed { diagnostics }) => self.abort(
                PipelineError::Engine,
                diagnostics,
            ),
            (Stage::AffectedSetKnown, Event::EngineFailed { diagnostics }) => self.abort(
                PipelineError::Engine,
                diagnostics,
            ),
            (_, _) => self.abort(PipelineError::UnexpectedEvent, String::new()),
        }
    }
}

} // verus!
