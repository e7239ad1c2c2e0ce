//! A whole run of the executor, told in one piece.
//!
//! The machine of [`crate::exec`] takes one step at a time. Here the world
//! around it is fixed, a file system and the fate of every spawn, and the
//! orders of a whole run are compared with what the stages of the pipeline
//! call for, one after the other.
use crate::exec::{
    accepted, is_last, lemma_step_progress, ready, resolved, search_name, searched, settled,
    stepped, steps_left, Order, PipelineRun, Report,
};
use crate::parse::Stage;
use crate::shell::{path_in, FileStatus};
use vstd::prelude::*;

verus! {

/// The world around a run: the status that the file system has for each
/// path, and for each stage the reason for which its spawn fails, if it
/// does.
pub struct World {
    pub files: spec_fn(Seq<char>) -> Option<FileStatus>,
    pub failures: spec_fn(int) -> Option<Seq<char>>,
}

/// What the caller reports in `world` when it has carried out `order`, given
/// for stage `stage`.
pub open spec fn answer(world: World, order: Order, stage: int) -> Report {
    match order {
        Order::Probe(path) => Report::Probed((world.files)(path)),
        Order::Spawn(_) => match (world.failures)(stage) {
            Some(reason) => Report::SpawnFailed(reason),
            None => Report::Spawned,
        },
        _ => Report::Continue,
    }
}

/// The orders that the machine gives in `world` from state `run` on, when
/// `report` is what it is told first, up to the end of the run.
pub open spec fn orders(
    entries: Seq<Seq<char>>,
    pipeline: Seq<Stage>,
    world: World,
    run: PipelineRun,
    report: Report,
) -> Seq<Order>
    decreases steps_left(entries, pipeline, run),
    when pipeline.len() <= usize::MAX && entries.len() <= usize::MAX
    via orders_decreases
{
    let (next, order) = stepped(entries, pipeline, run, report);
    if order is Finish {
        Seq::empty()
    } else {
        seq![order] + orders(
            entries,
            pipeline,
            world,
            next,
            answer(world, order, next.stage as int),
        )
    }
}

#[via_fn]
proof fn orders_decreases(
    entries: Seq<Seq<char>>,
    pipeline: Seq<Stage>,
    world: World,
    run: PipelineRun,
    report: Report,
) {
    lemma_step_progress(entries, pipeline, run, report);
}

/// The probes of a search for `name` from entry `from` of the search path
/// on: one candidate after the other, up to the first that can be run.
pub open spec fn probes(
    entries: Seq<Seq<char>>,
    name: Seq<char>,
    world: World,
    from: nat,
) -> Seq<Order>
    decreases entries.len() - from,
{
    if from >= entries.len() {
        Seq::empty()
    } else {
        let path = path_in(entries[from as int], name);
        if accepted(world.files).contains(path) {
            seq![Order::Probe(path)]
        } else {
            seq![Order::Probe(path)] + probes(entries, name, world, from + 1)
        }
    }
}

/// What stage `i` calls for in `world`, when `holding` tells whether the
/// output of the stage before is held: the probes of its search, if it has a
/// name to look up; then the line of a builtin, or the spawn of the command
/// where it was found, with a line if the spawn fails, or the line that
/// tells that it was not found.
pub open spec fn stage_orders(
    entries: Seq<Seq<char>>,
    pipeline: Seq<Stage>,
    world: World,
    i: int,
    holding: bool,
) -> Seq<Order> {
    let search = match search_name(pipeline, i) {
        Some(name) => probes(entries, name, world, 0),
        None => Seq::empty(),
    };
    let order = settled(pipeline, i, holding, resolved(entries, pipeline, i, world.files, 0)).1;
    search + match order {
        Order::Finish => Seq::empty(),
        Order::Spawn(_) => match (world.failures)(i) {
            Some(reason) => seq![
                order,
                Order::Print(pipeline[i].cmd + ": failed to execute: "@ + reason),
            ],
            None => seq![order],
        },
        _ => seq![order],
    }
}

/// Whether the output of stage `i` is held when the stage is done: another
/// stage follows, and the command was found and spawned.
pub open spec fn held_after(
    entries: Seq<Seq<char>>,
    pipeline: Seq<Stage>,
    world: World,
    i: int,
) -> bool {
    &&& !is_last(pipeline, i)
    &&& resolved(entries, pipeline, i, world.files, 0) is Some
    &&& (world.failures)(i) is None
}

/// What the stages from `i` on call for in `world`, one after the other.
pub open spec fn script(
    entries: Seq<Seq<char>>,
    pipeline: Seq<Stage>,
    world: World,
    i: int,
    holding: bool,
) -> Seq<Order>
    decreases pipeline.len() - i,
{
    if i >= pipeline.len() {
        Seq::empty()
    } else {
        stage_orders(entries, pipeline, world, i, holding) + script(
            entries,
            pipeline,
            world,
            i + 1,
            held_after(entries, pipeline, world, i),
        )
    }
}

/// The orders that follow a step which led to state `next` with order
/// `order`: that order and what comes after the caller's answer to it.
pub open spec fn orders_after(
    entries: Seq<Seq<char>>,
    pipeline: Seq<Stage>,
    world: World,
    step: (PipelineRun, Order),
) -> Seq<Order> {
    if step.1 is Finish {
        Seq::empty()
    } else {
        seq![step.1] + orders(
            entries,
            pipeline,
            world,
            step.0,
            answer(world, step.1, step.0.stage as int),
        )
    }
}

/// From the search of stage `i` on, at entry `from`, the machine gives the
/// probes that are left, then what the end of the search calls for.
proof fn lemma_orders_of_search(
    entries: Seq<Seq<char>>,
    pipeline: Seq<Stage>,
    world: World,
    i: int,
    holding: bool,
    from: nat,
)
    requires
        0 <= i < pipeline.len() <= usize::MAX,
        from <= entries.len() <= usize::MAX,
    ensures
        orders_after(entries, pipeline, world, searched(entries, pipeline, i, holding, from as int))
            == (match search_name(pipeline, i) {
            Some(name) => probes(entries, name, world, from),
            None => Seq::empty(),
        }) + orders_after(
            entries,
            pipeline,
            world,
            settled(pipeline, i, holding, resolved(entries, pipeline, i, world.files, from)),
        ),
    decreases entries.len() - from,
{
    match search_name(pipeline, i) {
        Some(name) if from < entries.len() => {
            let path = path_in(entries[from as int], name);
            if !accepted(world.files).contains(path) {
                lemma_orders_of_search(entries, pipeline, world, i, holding, from + 1);
            }
        },
        _ => {},
    }
}

/// A run does what its stages call for, one after the other. The orders of
/// the machine from stage `i` on, in a fixed world, are those of the script:
/// for each stage its probes, up to the first candidate that can be run;
/// then its line or its spawn; and the output of a stage is held for the
/// next exactly if the stage was spawned and is not the last.
pub proof fn lemma_run_follows_script(
    entries: Seq<Seq<char>>,
    pipeline: Seq<Stage>,
    world: World,
    i: int,
    holding: bool,
)
    requires
        0 <= i <= pipeline.len() <= usize::MAX,
        entries.len() <= usize::MAX,
    ensures
        orders(entries, pipeline, world, ready(i, holding), Report::Continue) == script(
            entries,
            pipeline,
            world,
            i,
            holding,
        ),
    decreases pipeline.len() - i,
{
    if i < pipeline.len() {
        let found = resolved(entries, pipeline, i, world.files, 0);
        let end = settled(pipeline, i, holding, found);
        lemma_orders_of_search(entries, pipeline, world, i, holding, 0);
        lemma_run_follows_script(
            entries,
            pipeline,
            world,
            i + 1,
            held_after(entries, pipeline, world, i),
        );
        let after = orders(
            entries,
            pipeline,
            world,
            ready(i + 1, held_after(entries, pipeline, world, i)),
            Report::Continue,
        );
        match end.1 {
            Order::Spawn(_) => {
                let report = answer(world, end.1, i);
                assert(orders(entries, pipeline, world, end.0, report) == match (world.failures)(
                    i,
                ) {
                    Some(reason) => seq![
                        Order::Print(pipeline[i].cmd + ": failed to execute: "@ + reason),
                    ] + after,
                    None => after,
                });
            },
            _ => {},
        }
    }
}

} // verus!
