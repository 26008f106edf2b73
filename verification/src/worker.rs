//! The worker: the one owner of the open file and of the rotation state.
//!
//! The worker is a state machine. The caller runs its loop: it hands the
//! worker an event, performs the one request that the worker answers with,
//! and hands back the event that the request ended in. The worker never
//! touches a file, the terminal or the channel itself.

use crate::rotation::{moves_of, rotate, rotation, Context, Move, Step};
use vstd::prelude::*;
use vstd::string::*;
use vstd::utf8::encode_utf8;

verus! {

/// The length of one time unit in seconds: the longest wait for a command,
/// and the shortest time between two periodic flushes.
pub const TIME_UNIT_SECONDS: u64 = 1;

/// What a producer asks of the worker.
pub enum Command {
    /// Append the text to the live file.
    WriteFile(String),
    /// Write the text to the terminal.
    WriteTerminal(String),
    /// Flush the open file.
    Flush,
    /// Go on in the file at this path.
    Redirect(String),
    /// Flush and stop.
    Exit,
}

/// A `Command` over the texts it holds.
pub enum CommandView {
    WriteFile(Seq<char>),
    WriteTerminal(Seq<char>),
    Flush,
    Redirect(Seq<char>),
    Exit,
}

impl View for Command {
    type V = CommandView;

    open spec fn view(&self) -> CommandView {
        match self {
            Command::WriteFile(text) => CommandView::WriteFile(text@),
            Command::WriteTerminal(text) => CommandView::WriteTerminal(text@),
            Command::Flush => CommandView::Flush,
            Command::Redirect(path) => CommandView::Redirect(path@),
            Command::Exit => CommandView::Exit,
        }
    }
}

/// What the caller reports to the worker.
pub enum Event {
    /// The loop starts.
    Begin,
    /// A command arrived within the wait.
    Received(Command),
    /// The wait ended without a command.
    TimedOut,
    /// The request was performed; it reports nothing.
    Done,
    /// The file that was measured has this length.
    Length(u64),
    /// The file was opened and has this length.
    Opened(u64),
    /// The request could not be performed, for the reason given.
    Failed(String),
}

/// An `Event` over the texts it holds.
pub enum EventView {
    Begin,
    Received(CommandView),
    TimedOut,
    Done,
    Length(u64),
    Opened(u64),
    Failed(Seq<char>),
}

impl View for Event {
    type V = EventView;

    open spec fn view(&self) -> EventView {
        match self {
            Event::Begin => EventView::Begin,
            Event::Received(command) => EventView::Received(command@),
            Event::TimedOut => EventView::TimedOut,
            Event::Done => EventView::Done,
            Event::Length(n) => EventView::Length(*n),
            Event::Opened(n) => EventView::Opened(*n),
            Event::Failed(reason) => EventView::Failed(reason@),
        }
    }
}

/// What the worker asks of the caller. Each request but `Halt` ends in one
/// event.
pub enum Request {
    /// Wait for the next command, one time unit at most: `Received` or
    /// `TimedOut`.
    Receive,
    /// Append the bytes of the text to the open file: `Done` or `Failed`.
    Append(String),
    /// Write the text to the terminal: `Done`.
    Print(String),
    /// Flush the open file: `Done` or `Failed`.
    Flush,
    /// Close the open file, if there is one, and measure the file at the
    /// path: `Length`, with 0 where no file is there, or `Failed`.
    Measure(String),
    /// Perform the steps in order, passing over those that fail: `Done`.
    Shift(Vec<Step>),
    /// Open the file at the path for appending, creating it where it is
    /// missing: `Opened` with its length, or `Failed`.
    Open(String),
    /// Close the open file, if there is one, and leave the loop.
    Halt,
}

/// A `Request` over the texts it holds.
pub enum RequestView {
    Receive,
    Append(Seq<char>),
    Print(Seq<char>),
    Flush,
    Measure(Seq<char>),
    Shift(Seq<Move>),
    Open(Seq<char>),
    Halt,
}

impl View for Request {
    type V = RequestView;

    open spec fn view(&self) -> RequestView {
        match self {
            Request::Receive => RequestView::Receive,
            Request::Append(text) => RequestView::Append(text@),
            Request::Print(text) => RequestView::Print(text@),
            Request::Flush => RequestView::Flush,
            Request::Measure(path) => RequestView::Measure(path@),
            Request::Shift(steps) => RequestView::Shift(moves_of(steps@)),
            Request::Open(path) => RequestView::Open(path@),
            Request::Halt => RequestView::Halt,
        }
    }
}

/// Where the worker stands: which event it waits for.
#[derive(Clone, Copy, PartialEq, Eq, Structural, Debug)]
pub enum Stage {
    /// Not started: waits for `Begin`.
    Uninitialized,
    /// Asked for the next command.
    Waiting,
    /// Asked to append this many bytes.
    Appending(u64),
    /// Asked to print.
    Printing,
    /// Asked to flush on a `Flush` command.
    Flushing,
    /// Asked to measure the live file; the flag tells the first opening
    /// from the later ones.
    Measuring(bool),
    /// Asked to shift the generations.
    Shifting(bool),
    /// Asked to open the live file.
    Opening(bool),
    /// Asked to flush because a time unit has passed.
    Syncing,
    /// Asked to flush before stopping.
    Draining,
    /// Asked to report a failure before stopping.
    Failing,
    /// Left the loop.
    Stopped,
}

/// The life of the worker in four states.
#[derive(Clone, Copy, PartialEq, Eq, Structural, Debug)]
pub enum Phase {
    Uninitialized,
    Running,
    Draining,
    Stopped,
}

/// The state of the worker's life that a stage belongs to.
pub open spec fn phase_of(stage: Stage) -> Phase {
    match stage {
        Stage::Uninitialized => Phase::Uninitialized,
        Stage::Draining => Phase::Draining,
        Stage::Stopped => Phase::Stopped,
        _ => Phase::Running,
    }
}

/// The worker as a value: its stream, its stage, and what it tracks of the
/// open file.
pub struct WorkerView {
    /// The path of the live file; empty where there is none.
    pub path: Seq<char>,
    /// The size from which on the live file is rotated.
    pub threshold: u64,
    /// The number of generations kept.
    pub count: usize,
    /// Whether aged files are compressed.
    pub compression: bool,
    /// The stage.
    pub stage: Stage,
    /// Whether a file is open.
    pub open: bool,
    /// The size of the open file, as far as the worker has counted it.
    pub size: u64,
    /// The size at the last periodic flush.
    pub last: u64,
    /// The time of the last periodic flush.
    pub ts: u64,
}

/// A byte count as the worker holds it: capped at the largest `u64`.
pub open spec fn clip(n: int) -> u64 {
    if n > u64::MAX {
        u64::MAX
    } else if n < 0 {
        0
    } else {
        n as u64
    }
}

/// The worker before its loop starts.
pub open spec fn fresh(
    path: Seq<char>,
    threshold: u64,
    count: usize,
    compression: bool,
) -> WorkerView {
    WorkerView {
        path,
        threshold,
        count,
        compression,
        stage: Stage::Uninitialized,
        open: false,
        size: 0,
        last: 0,
        ts: 0,
    }
}

/// The line that reports a failed request on the terminal.
pub open spec fn failure_line(reason: Seq<char>) -> Seq<char> {
    "error: "@ + reason + "\n"@
}

/// The worker reports a failed request; it stops once the report is out.
pub open spec fn fail(w: WorkerView, reason: Seq<char>) -> (WorkerView, RequestView) {
    (
        WorkerView { stage: Stage::Failing, open: false, ..w },
        RequestView::Print(failure_line(reason)),
    )
}

/// The worker leaves the loop.
pub open spec fn halt(w: WorkerView) -> (WorkerView, RequestView) {
    (WorkerView { stage: Stage::Stopped, open: false, ..w }, RequestView::Halt)
}

/// Whether a periodic flush is due at `now`: the file has grown since the
/// last one and at least one time unit has passed.
pub open spec fn flush_due(w: WorkerView, now: u64) -> bool {
    w.open && w.size > w.last && now > w.ts
}

/// The end of one turn of the loop: a periodic flush where one is due,
/// else the wait for the next command.
pub open spec fn pause(w: WorkerView, now: u64) -> (WorkerView, RequestView) {
    if flush_due(w, now) {
        (WorkerView { stage: Stage::Syncing, last: w.size, ts: now, ..w }, RequestView::Flush)
    } else {
        (WorkerView { stage: Stage::Waiting, ..w }, RequestView::Receive)
    }
}

/// The worker gives up the open file and starts a rotation check of its
/// path.
pub open spec fn reopen(w: WorkerView, first: bool) -> (WorkerView, RequestView) {
    (WorkerView { stage: Stage::Measuring(first), open: false, ..w }, RequestView::Measure(w.path))
}

/// The answer to a command that arrived while the worker waited.
pub open spec fn obey(w: WorkerView, command: CommandView, now: u64) -> (WorkerView, RequestView) {
    match command {
        CommandView::WriteFile(text) => if w.open {
            (
                WorkerView { stage: Stage::Appending(clip(encode_utf8(text).len() as int)), ..w },
                RequestView::Append(text),
            )
        } else {
            halt(w)
        },
        CommandView::WriteTerminal(text) => (
            WorkerView { stage: Stage::Printing, ..w },
            RequestView::Print(text),
        ),
        CommandView::Flush => if w.open {
            (WorkerView { stage: Stage::Flushing, ..w }, RequestView::Flush)
        } else {
            pause(w, now)
        },
        CommandView::Redirect(path) => reopen(WorkerView { path, ..w }, false),
        CommandView::Exit => if w.open {
            (WorkerView { stage: Stage::Draining, ..w }, RequestView::Flush)
        } else {
            halt(w)
        },
    }
}

/// The answer to the length that the live file was found to have: the
/// moves of the rotation where there are any, else the opening.
pub open spec fn measured(w: WorkerView, first: bool, length: u64) -> (WorkerView, RequestView) {
    let moves = rotation(w.path, w.threshold, w.count, w.compression, length);
    if moves.len() > 0 {
        (WorkerView { stage: Stage::Shifting(first), ..w }, RequestView::Shift(moves))
    } else {
        (WorkerView { stage: Stage::Opening(first), ..w }, RequestView::Open(w.path))
    }
}

/// The answer to the end of an append of `n` bytes: a rotation check once
/// the counted size has reached the threshold.
pub open spec fn appended(w: WorkerView, n: u64, now: u64) -> (WorkerView, RequestView) {
    let grown = WorkerView { size: clip(w.size + n), ..w };
    if grown.size >= w.threshold {
        reopen(grown, false)
    } else {
        pause(grown, now)
    }
}

/// The answer to the opening of the live file with `length` bytes in it.
pub open spec fn opened_with(w: WorkerView, first: bool, length: u64, now: u64) -> (
    WorkerView,
    RequestView,
) {
    let ready = WorkerView { open: true, size: length, ..w };
    if first {
        (WorkerView { stage: Stage::Waiting, ts: now, ..ready }, RequestView::Receive)
    } else {
        pause(ready, now)
    }
}

/// One step of the worker: its next state and its request, from its state,
/// the event and the time in whole time units. A failed request is
/// reported on the terminal and stops the worker. An event that the stage
/// does not wait for and a write with no file open stop it at once.
pub open spec fn step(w: WorkerView, event: EventView, now: u64) -> (WorkerView, RequestView) {
    match (w.stage, event) {
        (Stage::Stopped, _) => halt(w),
        (Stage::Failing, _) => halt(w),
        (_, EventView::Failed(reason)) => fail(w, reason),
        (Stage::Uninitialized, EventView::Begin) => if w.path.len() == 0 {
            (WorkerView { stage: Stage::Waiting, ts: now, ..w }, RequestView::Receive)
        } else {
            reopen(w, true)
        },
        (Stage::Waiting, EventView::Received(command)) => obey(w, command, now),
        (Stage::Waiting, EventView::TimedOut) => pause(w, now),
        (Stage::Appending(n), EventView::Done) => appended(w, n, now),
        (Stage::Printing, EventView::Done) => pause(w, now),
        (Stage::Flushing, EventView::Done) => pause(w, now),
        (Stage::Syncing, EventView::Done) => (
            WorkerView { stage: Stage::Waiting, ..w },
            RequestView::Receive,
        ),
        (Stage::Draining, EventView::Done) => halt(w),
        (Stage::Measuring(first), EventView::Length(n)) => measured(w, first, n),
        (Stage::Shifting(first), EventView::Done) => (
            WorkerView { stage: Stage::Opening(first), ..w },
            RequestView::Open(w.path),
        ),
        (Stage::Opening(first), EventView::Opened(n)) => opened_with(w, first, n, now),
        _ => halt(w),
    }
}

/// The worker of one stream.
pub struct Worker {
    ctx: Context,
    stage: Stage,
    open: bool,
    size: u64,
    last: u64,
    ts: u64,
}

impl View for Worker {
    type V = WorkerView;

    closed spec fn view(&self) -> WorkerView {
        WorkerView {
            path: self.ctx.path@,
            threshold: self.ctx.size,
            count: self.ctx.count,
            compression: self.ctx.compression,
            stage: self.stage,
            open: self.open,
            size: self.size,
            last: self.last,
            ts: self.ts,
        }
    }
}

impl Worker {
    /// A worker for the stream of `ctx`, not yet started.
    pub fn new(ctx: Context) -> (worker: Worker)
        ensures
            worker@ == fresh(ctx.path@, ctx.size, ctx.count, ctx.compression),
    {
        Worker { ctx, stage: Stage::Uninitialized, open: false, size: 0, last: 0, ts: 0 }
    }

    /// The stage of the worker.
    pub fn stage(&self) -> (stage: Stage)
        ensures
            stage == self@.stage,
    {
        self.stage
    }

    /// The state of the worker's life.
    pub fn phase(&self) -> (phase: Phase)
        ensures
            phase == phase_of(self@.stage),
    {
        match self.stage {
            Stage::Uninitialized => Phase::Uninitialized,
            Stage::Draining => Phase::Draining,
            Stage::Stopped => Phase::Stopped,
            _ => Phase::Running,
        }
    }

    /// The path of the live file.
    pub fn path(&self) -> (path: &str)
        ensures
            path@ == self@.path,
    {
        self.ctx.path.as_str()
    }

    /// The counted size of the open file.
    pub fn size(&self) -> (size: u64)
        ensures
            size == self@.size,
    {
        self.size
    }

    /// Whether the worker holds an open file.
    pub fn is_open(&self) -> (open: bool)
        ensures
            open == self@.open,
    {
        self.open
    }

    fn halt(&mut self) -> (request: Request)
        ensures
            (final(self)@, request@) == halt(old(self)@),
    {
        self.stage = Stage::Stopped;
        self.open = false;
        Request::Halt
    }

    fn fail(&mut self, reason: String) -> (request: Request)
        ensures
            (final(self)@, request@) == fail(old(self)@, reason@),
    {
        self.stage = Stage::Failing;
        self.open = false;
        let mut line = String::from_str("error: ");
        line.append(reason.as_str());
        line.append("\n");
        Request::Print(line)
    }

    fn pause(&mut self, now: u64) -> (request: Request)
        ensures
            (final(self)@, request@) == pause(old(self)@, now),
    {
        if self.open && self.size > self.last && now > self.ts {
            self.stage = Stage::Syncing;
            self.last = self.size;
            self.ts = now;
            Request::Flush
        } else {
            self.stage = Stage::Waiting;
            Request::Receive
        }
    }

    fn reopen(&mut self, first: bool) -> (request: Request)
        ensures
            (final(self)@, request@) == reopen(old(self)@, first),
    {
        self.stage = Stage::Measuring(first);
        self.open = false;
        Request::Measure(self.ctx.path.clone())
    }

    fn obey(&mut self, command: Command, now: u64) -> (request: Request)
        ensures
            (final(self)@, request@) == obey(old(self)@, command@, now),
    {
        match command {
            Command::WriteFile(text) => {
                if self.open {
                    let bytes = text.as_str().as_bytes();
                    let n: usize = bytes.len();
                    self.stage = Stage::Appending(n as u64);
                    Request::Append(text)
                } else {
                    self.halt()
                }
            },
            Command::WriteTerminal(text) => {
                self.stage = Stage::Printing;
                Request::Print(text)
            },
            Command::Flush => {
                if self.open {
                    self.stage = Stage::Flushing;
                    Request::Flush
                } else {
                    self.pause(now)
                }
            },
            Command::Redirect(path) => {
                self.ctx.path = path;
                self.reopen(false)
            },
            Command::Exit => {
                if self.open {
                    self.stage = Stage::Draining;
                    Request::Flush
                } else {
                    self.halt()
                }
            },
        }
    }

    /// Takes one event and answers with the next request.
    pub fn step(&mut self, event: Event, now: u64) -> (request: Request)
        ensures
            (final(self)@, request@) == step(old(self)@, event@, now),
    {
        match (self.stage, event) {
            (Stage::Stopped, _) => self.halt(),
            (Stage::Failing, _) => self.halt(),
            (_, Event::Failed(reason)) => self.fail(reason),
            (Stage::Uninitialized, Event::Begin) => {
                if self.ctx.path.as_str().is_empty() {
                    self.stage = Stage::Waiting;
                    self.ts = now;
                    Request::Receive
                } else {
                    self.reopen(true)
                }
            },
            (Stage::Waiting, Event::Received(command)) => self.obey(command, now),
            (Stage::Waiting, Event::TimedOut) => self.pause(now),
            (Stage::Appending(n), Event::Done) => {
                self.size = self.size.saturating_add(n);
                if self.size >= self.ctx.size {
                    self.reopen(false)
                } else {
                    self.pause(now)
                }
            },
            (Stage::Printing, Event::Done) => self.pause(now),
            (Stage::Flushing, Event::Done) => self.pause(now),
            (Stage::Syncing, Event::Done) => {
                self.stage = Stage::Waiting;
                Request::Receive
            },
            (Stage::Draining, Event::Done) => self.halt(),
            (Stage::Measuring(first), Event::Length(n)) => {
                let steps = rotate(&self.ctx, n);
                if steps.len() > 0 {
                    self.stage = Stage::Shifting(first);
                    Request::Shift(steps)
                } else {
                    self.stage = Stage::Opening(first);
                    Request::Open(self.ctx.path.clone())
                }
            },
            (Stage::Shifting(first), Event::Done) => {
                self.stage = Stage::Opening(first);
                Request::Open(self.ctx.path.clone())
            },
            (Stage::Opening(first), Event::Opened(n)) => {
                self.open = true;
                self.size = n;
                if first {
                    self.stage = Stage::Waiting;
                    self.ts = now;
                    Request::Receive
                } else {
                    self.pause(now)
                }
            },
            _ => self.halt(),
        }
    }
}

} // verus!
