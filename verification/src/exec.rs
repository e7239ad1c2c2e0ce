//! The pipeline executor, as a state machine without input or output.
//!
//! The stages of a pipeline are run from left to right. The machine decides;
//! its caller acts. Each step takes what happened last and names the one
//! thing to do next: probe a path, print a line, spawn a process, or stop.
//! The caller holds the only handle there may be, the output of the stage
//! before, and does with it what the machine says: a spawned process reads
//! from it if the request asks so, and it is dropped whenever a line is
//! printed or the run is finished.
//!
//! A builtin is carried out by the shell only as the last stage of a
//! pipeline, since it has no stream to pass on: anywhere else its name is
//! looked up like any other.
use crate::builtin::{builtin_output, intrinsic, is_intrinsic, type_target};
use crate::parse::{CommandSpec, Stage};
use crate::shell::{candidates, first_match, is_runnable, runnable, FileStatus, Shell};
use crate::text::{concat, copy_words};
use vstd::prelude::*;

verus! {

/// What the machine waits for.
#[derive(Debug, Clone, Copy, PartialEq, Eq)]
pub enum Phase {
    /// To go on with the stage at hand.
    Ready,
    /// The status of the candidate path of this entry of the search path.
    Probing(usize),
    /// The outcome of the spawn that it asked for.
    Spawning,
}

/// The state of a run: the stage at hand, whether the caller holds the
/// output of the stage before, and what the machine waits for.
#[derive(Debug, Clone, Copy, PartialEq, Eq)]
pub struct PipelineRun {
    pub stage: usize,
    pub holding: bool,
    pub phase: Phase,
}

/// What the caller reports.
#[derive(Debug, Clone, PartialEq, Eq)]
pub enum Event {
    /// Nothing: the run begins, or a line was printed.
    Continue,
    /// The status of the path that was to be probed; none if there is no
    /// such path.
    Probed(Option<FileStatus>),
    /// The process was spawned; if it was not to be piped onward, it has
    /// ended as well.
    Spawned,
    /// The process could not be spawned, for this reason.
    SpawnFailed(String),
}

/// One process to spawn.
#[derive(Debug, Clone, PartialEq, Eq)]
pub struct SpawnRequest {
    /// The executable.
    pub path: String,
    /// Its arguments.
    pub args: Vec<String>,
    /// Whether it reads from the handle that the caller holds; if not, from
    /// where the shell reads.
    pub piped_input: bool,
    /// Whether its output is captured and held for the next stage, the
    /// process left running; if not, it writes where the shell writes and
    /// the caller waits for its end.
    pub piped_output: bool,
}

/// What the caller is to do.
#[derive(Debug, Clone, PartialEq, Eq)]
pub enum Action {
    /// Find out the status of this path and report it.
    Probe(String),
    /// Print this line, with a line end, and drop the handle held.
    Print(String),
    /// Spawn this process and report the outcome.
    Spawn(SpawnRequest),
    /// Drop the handle held: the pipeline is done.
    Finish,
}

/// The view of an [`Event`]: what was reported, its text as a sequence of
/// characters.
pub enum Report {
    Continue,
    Probed(Option<FileStatus>),
    Spawned,
    SpawnFailed(Seq<char>),
}

/// The view of a [`SpawnRequest`].
pub struct Spawn {
    pub path: Seq<char>,
    pub args: Seq<Seq<char>>,
    pub piped_input: bool,
    pub piped_output: bool,
}

/// The view of an [`Action`]: what the caller is to do.
pub enum Order {
    Probe(Seq<char>),
    Print(Seq<char>),
    Spawn(Spawn),
    Finish,
}

impl View for Event {
    type V = Report;

    open spec fn view(&self) -> Report {
        match *self {
            Event::Continue => Report::Continue,
            Event::Probed(status) => Report::Probed(status),
            Event::Spawned => Report::Spawned,
            Event::SpawnFailed(reason) => Report::SpawnFailed(reason@),
        }
    }
}

impl View for SpawnRequest {
    type V = Spawn;

    open spec fn view(&self) -> Spawn {
        Spawn {
            path: self.path@,
            args: self.args.deep_view(),
            piped_input: self.piped_input,
            piped_output: self.piped_output,
        }
    }
}

impl View for Action {
    type V = Order;

    open spec fn view(&self) -> Order {
        match *self {
            Action::Probe(path) => Order::Probe(path@),
            Action::Print(line) => Order::Print(line@),
            Action::Spawn(request) => Order::Spawn(request@),
            Action::Finish => Order::Finish,
        }
    }
}

/// The state in which stage `stage` is at hand.
pub open spec fn ready(stage: int, holding: bool) -> PipelineRun {
    PipelineRun { stage: stage as usize, holding, phase: Phase::Ready }
}

/// Whether stage `i` is the last of the pipeline.
pub open spec fn is_last(pipeline: Seq<Stage>, i: int) -> bool {
    i == pipeline.len() - 1
}

/// Whether the shell carries out stage `i` itself: a builtin in the last
/// place.
pub open spec fn runs_builtin(pipeline: Seq<Stage>, i: int) -> bool {
    is_last(pipeline, i) && intrinsic(pipeline[i].cmd)
}

/// The name that stage `i` has looked up on the search path: that of its
/// command; for a builtin, what `type` asks for, if anything.
pub open spec fn search_name(pipeline: Seq<Stage>, i: int) -> Option<Seq<char>> {
    if runs_builtin(pipeline, i) {
        type_target(pipeline[i])
    } else {
        Some(pipeline[i].cmd)
    }
}

/// What follows for stage `i`, once the search path has led to `resolved`
/// for the name that the stage has looked up. A builtin prints its output,
/// unless that is empty or there is none. Another command is spawned where
/// it was found: it reads from the handle held, if there is one, and its
/// output is captured unless the stage is the last. If it was not found,
/// that is printed.
pub open spec fn settled(
    pipeline: Seq<Stage>,
    i: int,
    holding: bool,
    resolved: Option<Seq<char>>,
) -> (PipelineRun, Order) {
    if runs_builtin(pipeline, i) {
        match builtin_output(pipeline[i], resolved) {
            Some(line) if line.len() > 0 => (ready(i + 1, false), Order::Print(line)),
            _ => (ready(i + 1, false), Order::Finish),
        }
    } else {
        match resolved {
            Some(path) => (
                PipelineRun { stage: i as usize, holding: false, phase: Phase::Spawning },
                Order::Spawn(
                    Spawn {
                        path,
                        args: pipeline[i].args,
                        piped_input: holding,
                        piped_output: !is_last(pipeline, i),
                    },
                ),
            ),
            None => (ready(i + 1, false), Order::Print(pipeline[i].cmd + ": command not found"@)),
        }
    }
}

/// What follows for stage `i` when the candidates before `index` are of no
/// use: the candidate at `index` is probed; if the search path has no such
/// entry, the name was not found.
pub open spec fn searched(
    entries: Seq<Seq<char>>,
    pipeline: Seq<Stage>,
    i: int,
    holding: bool,
    index: int,
) -> (PipelineRun, Order) {
    match search_name(pipeline, i) {
        Some(name) if index < entries.len() => (
            PipelineRun { stage: i as usize, holding, phase: Phase::Probing(index as usize) },
            Order::Probe(candidates(entries, name)[index]),
        ),
        _ => settled(pipeline, i, holding, None),
    }
}

/// What follows when stage `i` is at hand: past the last one, the run is
/// finished; otherwise the search for the stage's name begins.
pub open spec fn begun(entries: Seq<Seq<char>>, pipeline: Seq<Stage>, i: int, holding: bool) -> (
    PipelineRun,
    Order,
) {
    if i >= pipeline.len() {
        (ready(i, false), Order::Finish)
    } else {
        searched(entries, pipeline, i, holding, 0)
    }
}

/// One step of the machine: the state and the order that follow from state
/// `run` when the caller reports `report`.
///
/// A probe that found a runnable file ends the search with that path; any
/// other goes on to the next candidate. A spawn that worked leaves the
/// caller holding the output of the process, unless the stage was the last,
/// and the next stage begins at once; one that failed is told of in a line,
/// and nothing is held. A report that does not answer what the machine
/// waits for ends the run.
pub open spec fn stepped(
    entries: Seq<Seq<char>>,
    pipeline: Seq<Stage>,
    run: PipelineRun,
    report: Report,
) -> (PipelineRun, Order) {
    let i = run.stage as int;
    match (run.phase, report) {
        (Phase::Ready, Report::Continue) => begun(entries, pipeline, i, run.holding),
        (Phase::Probing(index), Report::Probed(status)) if i < pipeline.len() && index
            < entries.len() && search_name(pipeline, i) is Some => {
            if runnable(status) {
                settled(
                    pipeline,
                    i,
                    run.holding,
                    Some(candidates(entries, search_name(pipeline, i).unwrap())[index as int]),
                )
            } else {
                searched(entries, pipeline, i, run.holding, index + 1)
            }
        },
        (Phase::Spawning, Report::Spawned) if i < pipeline.len() => begun(
            entries,
            pipeline,
            i + 1,
            !is_last(pipeline, i),
        ),
        (Phase::Spawning, Report::SpawnFailed(reason)) if i < pipeline.len() => (
            ready(i + 1, false),
            Order::Print(pipeline[i].cmd + ": failed to execute: "@ + reason),
        ),
        _ => (ready(pipeline.len() as int, false), Order::Finish),
    }
}

/// The paths that can be run as commands in a file system that gives each
/// path the status `files(path)`.
pub open spec fn accepted(files: spec_fn(Seq<char>) -> Option<FileStatus>) -> Set<Seq<char>> {
    Set::new(|path: Seq<char>| runnable(files(path)))
}

/// How many candidates a search in state `run` may still have to probe.
pub open spec fn probes_left(entries: Seq<Seq<char>>, run: PipelineRun) -> nat {
    match run.phase {
        Phase::Probing(index) if index < entries.len() <= usize::MAX => (entries.len()
            - index) as nat,
        _ => 0,
    }
}

/// Where a run stands when the search that it is in has ended: from state
/// `run` and order `order`, every probe is answered as the file system
/// `files` has it, until the machine orders anything but a probe.
pub open spec fn search_end(
    entries: Seq<Seq<char>>,
    pipeline: Seq<Stage>,
    run: PipelineRun,
    order: Order,
    files: spec_fn(Seq<char>) -> Option<FileStatus>,
) -> (PipelineRun, Order)
    decreases probes_left(entries, run),
{
    match order {
        Order::Probe(path) if probes_left(entries, run) > 0 => {
            let next = stepped(entries, pipeline, run, Report::Probed(files(path)));
            search_end(entries, pipeline, next.0, next.1, files)
        },
        _ => (run, order),
    }
}

/// What the search path leads to for the name that stage `i` has looked up,
/// in the file system `files`: the first candidate that can be run.
pub open spec fn resolved(
    entries: Seq<Seq<char>>,
    pipeline: Seq<Stage>,
    i: int,
    files: spec_fn(Seq<char>) -> Option<FileStatus>,
    from: nat,
) -> Option<Seq<char>> {
    match search_name(pipeline, i) {
        Some(name) => first_match(entries, name, accepted(files), from),
        None => None,
    }
}

/// The search for the name of stage `i`, begun at entry `from` of the search
/// path, ends as if the first candidate that can be run had been known
/// beforehand.
proof fn lemma_search_from(
    entries: Seq<Seq<char>>,
    pipeline: Seq<Stage>,
    i: int,
    holding: bool,
    files: spec_fn(Seq<char>) -> Option<FileStatus>,
    from: nat,
)
    requires
        0 <= i < pipeline.len() <= usize::MAX,
        from <= entries.len() <= usize::MAX,
    ensures
        ({
            let start = searched(entries, pipeline, i, holding, from as int);
            search_end(entries, pipeline, start.0, start.1, files) == settled(
                pipeline,
                i,
                holding,
                resolved(entries, pipeline, i, files, from),
            )
        }),
    decreases entries.len() - from,
{
    let start = searched(entries, pipeline, i, holding, from as int);
    match search_name(pipeline, i) {
        Some(name) if from < entries.len() => {
            let path = candidates(entries, name)[from as int];
            let next = stepped(entries, pipeline, start.0, Report::Probed(files(path)));
            assert(search_end(entries, pipeline, start.0, start.1, files) == search_end(
                entries,
                pipeline,
                next.0,
                next.1,
                files,
            ));
            if !runnable(files(path)) {
                lemma_search_from(entries, pipeline, i, holding, files, from + 1);
            }
        },
        _ => {},
    }
}

/// Looking a name up gives the first match on the search path. When stage
/// `i` is at hand and every probe is answered as the file system `files` has
/// it, the machine goes on as if the first candidate of the stage's name
/// that can be run had been known beforehand. So where a name leads depends
/// on the search path, the name and the file system, and on nothing else:
/// as long as these stay as they are, the name leads to the same path.
pub proof fn lemma_search_finds_first_match(
    entries: Seq<Seq<char>>,
    pipeline: Seq<Stage>,
    i: int,
    holding: bool,
    files: spec_fn(Seq<char>) -> Option<FileStatus>,
)
    requires
        0 <= i < pipeline.len() <= usize::MAX,
        entries.len() <= usize::MAX,
    ensures
        ({
            let start = begun(entries, pipeline, i, holding);
            search_end(entries, pipeline, start.0, start.1, files) == settled(
                pipeline,
                i,
                holding,
                resolved(entries, pipeline, i, files, 0),
            )
        }),
{
    lemma_search_from(entries, pipeline, i, holding, files, 0);
}

/// A process is spawned only when a probe has found a file that can be run,
/// and only for a stage that the shell does not carry out itself. It is the
/// candidate that was probed, with the arguments of the stage. It reads from
/// the handle held, if there is one, and its output is captured exactly if
/// another stage follows: only the last stage may write where the shell
/// writes.
pub proof fn lemma_spawn(
    entries: Seq<Seq<char>>,
    pipeline: Seq<Stage>,
    run: PipelineRun,
    report: Report,
)
    ensures
        match stepped(entries, pipeline, run, report) {
            (next, Order::Spawn(spawn)) => {
                let i = run.stage as int;
                &&& i < pipeline.len()
                &&& !runs_builtin(pipeline, i)
                &&& run.phase is Probing
                &&& run.phase->Probing_0 < entries.len()
                &&& report is Probed
                &&& runnable(report->Probed_0)
                &&& spawn.path == candidates(entries, pipeline[i].cmd)[run.phase->Probing_0 as int]
                &&& spawn.args == pipeline[i].args
                &&& spawn.piped_input == run.holding
                &&& spawn.piped_output == !is_last(pipeline, i)
                &&& next == (PipelineRun {
                    stage: run.stage,
                    holding: false,
                    phase: Phase::Spawning,
                })
            },
            _ => true,
        },
{
}

/// The shell spawns nothing for a pipeline that is one builtin.
pub proof fn lemma_builtin_alone_spawns_nothing(
    entries: Seq<Seq<char>>,
    pipeline: Seq<Stage>,
    run: PipelineRun,
    report: Report,
)
    requires
        pipeline.len() == 1,
        intrinsic(pipeline[0].cmd),
    ensures
        !(stepped(entries, pipeline, run, report).1 is Spawn),
{
}

/// What holds of the state of every run: the stage at hand is one of the
/// pipeline or the end; a probe is for an entry of the search path and for a
/// stage that has a name to look up; a spawn is for a stage that the shell
/// does not carry out itself; and a handle is held only between a stage
/// that was spawned and the one after it.
pub open spec fn well_formed(
    entries: Seq<Seq<char>>,
    pipeline: Seq<Stage>,
    run: PipelineRun,
) -> bool {
    let i = run.stage as int;
    &&& i <= pipeline.len()
    &&& run.holding ==> 0 < i < pipeline.len() && !(run.phase is Spawning)
    &&& match run.phase {
        Phase::Ready => true,
        Phase::Probing(index) => i < pipeline.len() && index < entries.len() && search_name(
            pipeline,
            i,
        ) is Some,
        Phase::Spawning => i < pipeline.len() && !runs_builtin(pipeline, i),
    }
}

/// Every step leaves the state well formed, whatever is reported, and holds
/// no handle once a line is printed or the run is finished. A handle comes
/// to be held only by a spawn that worked and that was not for the last
/// stage.
pub proof fn lemma_step_keeps_well_formed(
    entries: Seq<Seq<char>>,
    pipeline: Seq<Stage>,
    run: PipelineRun,
    report: Report,
)
    requires
        pipeline.len() <= usize::MAX,
        entries.len() <= usize::MAX,
        well_formed(entries, pipeline, run),
    ensures
        ({
            let (next, order) = stepped(entries, pipeline, run, report);
            &&& well_formed(entries, pipeline, next)
            &&& (order is Print || order is Finish) ==> !next.holding
            &&& next.holding && !run.holding ==> run.phase is Spawning && report is Spawned
                && next.stage == run.stage + 1
        }),
{
}

/// A bound on the steps that a run in state `run` has before it: none past
/// the last stage; for each stage to come, one to begin it, one for each
/// entry of the search path, and one each for the spawn and for a line.
pub open spec fn steps_left(
    entries: Seq<Seq<char>>,
    pipeline: Seq<Stage>,
    run: PipelineRun,
) -> nat {
    let stages = pipeline.len() - run.stage;
    let probes = entries.len() as int;
    let rest: int = match run.phase {
        Phase::Ready => probes + 2,
        Phase::Probing(index) => if index < probes {
            probes + 1 - index
        } else {
            0
        },
        Phase::Spawning => 0,
    };
    if stages <= 0 {
        0
    } else {
        (stages * (probes + 3) + rest) as nat
    }
}

/// Every run comes to an end: each step that does not finish the run
/// leaves fewer steps to take, and past the last stage there is nothing to
/// do but to finish.
pub proof fn lemma_step_progress(
    entries: Seq<Seq<char>>,
    pipeline: Seq<Stage>,
    run: PipelineRun,
    report: Report,
)
    requires
        pipeline.len() <= usize::MAX,
        entries.len() <= usize::MAX,
    ensures
        ({
            let (next, order) = stepped(entries, pipeline, run, report);
            &&& !(order is Finish) ==> steps_left(entries, pipeline, next) < steps_left(
                entries,
                pipeline,
                run,
            )
            &&& order is Finish ==> steps_left(entries, pipeline, next) == 0
            &&& steps_left(entries, pipeline, run) == 0 ==> order is Finish
        }),
{
    let (next, order) = stepped(entries, pipeline, run, report);
    let stages = pipeline.len() - run.stage;
    let width = entries.len() + 3;
    if stages > 0 {
        assert(stages * width == (stages - 1) * width + width) by (nonlinear_arith);
        assert(stages * width >= width) by (nonlinear_arith)
            requires
                stages >= 1,
                width >= 0,
        ;
        if stages > 1 {
            assert((stages - 1) * width == (stages - 2) * width + width) by (nonlinear_arith);
            assert((stages - 2) * width >= 0) by (nonlinear_arith)
                requires
                    stages >= 2,
                    width >= 0,
            ;
        }
    }
}

impl PipelineRun {
    /// The state in which a run begins: the first stage is at hand and
    /// nothing is held. It is well formed for every pipeline.
    pub fn new() -> (run: PipelineRun)
        ensures
            run == ready(0, false),
            forall|entries: Seq<Seq<char>>, pipeline: Seq<Stage>|
                #[trigger] well_formed(entries, pipeline, run),
    {
        PipelineRun { stage: 0, holding: false, phase: Phase::Ready }
    }
}

impl Shell {
    /// The name that stage `i` has looked up on the search path.
    fn search_name<'a>(&self, pipeline: &'a [CommandSpec], i: usize) -> (name: Option<&'a str>)
        requires
            i < pipeline.len(),
        ensures
            name.deep_view() == search_name(pipeline.deep_view(), i as int),
    {
        let stage = &pipeline[i];
        if i == pipeline.len() - 1 && is_intrinsic(stage.cmd.as_str()) {
            self.lookup_for(stage)
        } else {
            Some(stage.cmd.as_str())
        }
    }

    /// What follows for stage `i` once its search has ended.
    fn settle(
        &self,
        pipeline: &[CommandSpec],
        i: usize,
        holding: bool,
        resolved: Option<&str>,
    ) -> (next: (PipelineRun, Action))
        requires
            i < pipeline.len(),
        ensures
            (next.0, next.1@) == settled(
                pipeline.deep_view(),
                i as int,
                holding,
                resolved.deep_view(),
            ),
    {
        let stage = &pipeline[i];
        let last = i == pipeline.len() - 1;
        let after = PipelineRun { stage: i + 1, holding: false, phase: Phase::Ready };
        if last && is_intrinsic(stage.cmd.as_str()) {
            match self.eval_builtin(stage, resolved) {
                Some(line) => {
                    if line.as_str().unicode_len() > 0 {
                        (after, Action::Print(line))
                    } else {
                        (after, Action::Finish)
                    }
                },
                None => (after, Action::Finish),
            }
        } else {
            match resolved {
                Some(path) => {
                    let request = SpawnRequest {
                        path: String::from_str(path),
                        args: copy_words(stage.args.as_slice()),
                        piped_input: holding,
                        piped_output: !last,
                    };
                    (
                        PipelineRun { stage: i, holding: false, phase: Phase::Spawning },
                        Action::Spawn(request),
                    )
                },
                None => (after, Action::Print(concat(stage.cmd.as_str(), ": command not found"))),
            }
        }
    }

    /// What follows for stage `i` when the candidates before `index` are of
    /// no use.
    fn search(&self, pipeline: &[CommandSpec], i: usize, holding: bool, index: usize) -> (next: (
        PipelineRun,
        Action,
    ))
        requires
            i < pipeline.len(),
        ensures
            (next.0, next.1@) == searched(
                self@,
                pipeline.deep_view(),
                i as int,
                holding,
                index as int,
            ),
    {
        match self.search_name(pipeline, i) {
            Some(name) => match self.candidate(name, index) {
                Some(path) => (
                    PipelineRun { stage: i, holding, phase: Phase::Probing(index) },
                    Action::Probe(path),
                ),
                None => self.settle(pipeline, i, holding, None),
            },
            None => self.settle(pipeline, i, holding, None),
        }
    }

    /// What follows when stage `i` is at hand.
    fn begin(&self, pipeline: &[CommandSpec], i: usize, holding: bool) -> (next: (
        PipelineRun,
        Action,
    ))
        ensures
            (next.0, next.1@) == begun(self@, pipeline.deep_view(), i as int, holding),
    {
        if i >= pipeline.len() {
            (PipelineRun { stage: i, holding: false, phase: Phase::Ready }, Action::Finish)
        } else {
            self.search(pipeline, i, holding, 0)
        }
    }

    /// Takes one step of the run of `pipeline`: given the state `run` and
    /// what the caller reports in `event`, returns the state that follows
    /// and what the caller is to do next. A run begins in
    /// [`PipelineRun::new`] with [`Event::Continue`] and is over with
    /// [`Action::Finish`].
    pub fn step(&self, pipeline: &[CommandSpec], run: PipelineRun, event: Event) -> (next: (
        PipelineRun,
        Action,
    ))
        ensures
            (next.0, next.1@) == stepped(self@, pipeline.deep_view(), run, event@),
            well_formed(self@, pipeline.deep_view(), run) ==> well_formed(
                self@,
                pipeline.deep_view(),
                next.0,
            ),
    {
        let entries = self.path_len();
        let stages = pipeline.len();
        proof {
            assert(pipeline.deep_view().len() == stages);
            if well_formed(self@, pipeline.deep_view(), run) {
                lemma_step_keeps_well_formed(self@, pipeline.deep_view(), run, event@);
            }
        }
        let i = run.stage;
        let over = (
            PipelineRun { stage: stages, holding: false, phase: Phase::Ready },
            Action::Finish,
        );
        match run.phase {
            Phase::Ready => match event {
                Event::Continue => self.begin(pipeline, i, run.holding),
                _ => over,
            },
            Phase::Probing(index) => match event {
                Event::Probed(status) => {
                    if i >= stages || index >= entries {
                        return over;
                    }
                    let name = match self.search_name(pipeline, i) {
                        Some(name) => name,
                        None => {
                            return over;
                        },
                    };
                    match self.candidate(name, index) {
                        Some(path) => {
                            if is_runnable(status) {
                                self.settle(pipeline, i, run.holding, Some(path.as_str()))
                            } else {
                                self.search(pipeline, i, run.holding, index + 1)
                            }
                        },
                        None => over,
                    }
                },
                _ => over,
            },
            Phase::Spawning => {
                if i >= stages {
                    return over;
                }
                match event {
                    Event::Spawned => self.begin(pipeline, i + 1, i + 1 < stages),
                    Event::SpawnFailed(reason) => {
                        let stage = &pipeline[i];
                        let mut line = concat(stage.cmd.as_str(), ": failed to execute: ");
                        line.append(reason.as_str());
                        (
                            PipelineRun { stage: i + 1, holding: false, phase: Phase::Ready },
                            Action::Print(line),
                        )
                    },
                    _ => over,
                }
            },
        }
    }
}

} // verus!
