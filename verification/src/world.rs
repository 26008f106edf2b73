//! A model of the caller's side of the worker: files, a terminal and one
//! open file, in which every request succeeds that can. It says what the
//! requests of the worker mean, and composes worker and caller into the
//! loop that the caller runs.

use crate::files::{opened, perform_all, Files};
use crate::worker::{clip, step, EventView, RequestView, Stage, WorkerView};
use vstd::prelude::*;
use vstd::utf8::encode_utf8;

verus! {

/// What the worker's requests act on.
pub struct World {
    /// The files, by path.
    pub files: Files,
    /// Everything written to the terminal so far.
    pub terminal: Seq<char>,
    /// The path of the open file, if one is open.
    pub handle: Option<Seq<char>>,
    /// Whether bytes were appended to the open file since its last flush.
    pub dirty: bool,
    /// What the system says of a request that it cannot perform.
    pub excuse: Seq<char>,
}

/// The length that is measured at `path`: that of the file there, and 0
/// where there is none.
pub open spec fn length_at(files: Files, path: Seq<char>) -> u64 {
    if files.contains_key(path) {
        clip(files[path].len() as int)
    } else {
        0
    }
}

/// The world after a request, and the event that the request ends in.
pub open spec fn respond(world: World, request: RequestView) -> (World, EventView) {
    match request {
        RequestView::Append(text) => match world.handle {
            Some(path) if world.files.contains_key(path) => (
                World {
                    files: world.files.insert(path, world.files[path] + encode_utf8(text)),
                    dirty: true,
                    ..world
                },
                EventView::Done,
            ),
            _ => (world, EventView::Failed(world.excuse)),
        },
        RequestView::Print(text) => (
            World { terminal: world.terminal + text, ..world },
            EventView::Done,
        ),
        RequestView::Flush => (World { dirty: false, ..world }, EventView::Done),
        RequestView::Measure(path) => (
            World { handle: None, dirty: false, ..world },
            EventView::Length(length_at(world.files, path)),
        ),
        RequestView::Shift(moves) => (
            World { files: perform_all(world.files, moves), ..world },
            EventView::Done,
        ),
        RequestView::Open(path) => {
            let files = opened(world.files, path);
            (
                World { files, handle: Some(path), dirty: false, ..world },
                EventView::Opened(clip(files[path].len() as int)),
            )
        },
        RequestView::Receive => (world, EventView::TimedOut),
        RequestView::Halt => (World { handle: None, dirty: false, ..world }, EventView::Done),
    }
}

/// How far a stage is from the next wait, at most.
pub open spec fn rank(stage: Stage) -> nat {
    match stage {
        Stage::Uninitialized => 10,
        Stage::Waiting => 10,
        Stage::Appending(_) => 9,
        Stage::Measuring(_) => 8,
        Stage::Shifting(_) => 7,
        Stage::Opening(_) => 6,
        Stage::Printing => 5,
        Stage::Flushing => 5,
        Stage::Syncing => 4,
        Stage::Draining => 4,
        Stage::Failing => 1,
        Stage::Stopped => 0,
    }
}

/// Worker and world after the event was handed to the worker and every
/// request that followed was performed, up to the next wait for a command
/// or to the halt.
pub open spec fn settle(w: WorkerView, world: World, event: EventView, now: u64) -> (
    WorkerView,
    World,
)
    decreases rank(w.stage),
{
    let (next, request) = step(w, event, now);
    if request is Receive {
        (next, world)
    } else if request is Halt {
        (next, respond(world, request).0)
    } else if rank(next.stage) < rank(w.stage) {
        let (after, answer) = respond(world, request);
        settle(next, after, answer, now)
    } else {
        (next, world)
    }
}

/// What arrives at the waiting worker: a command or the end of the wait,
/// and the time at which it arrives.
pub struct Arrival {
    pub event: EventView,
    pub now: u64,
}

/// Worker and world after the loop has taken the arrivals in order.
pub open spec fn run(w: WorkerView, world: World, arrivals: Seq<Arrival>) -> (WorkerView, World)
    decreases arrivals.len(),
{
    if arrivals.len() == 0 {
        (w, world)
    } else {
        let (before, then) = run(w, world, arrivals.drop_last());
        settle(before, then, arrivals.last().event, arrivals.last().now)
    }
}

} // verus!
