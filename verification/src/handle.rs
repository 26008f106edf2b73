//! The handle of a started sink: stop, flush, redirect and the level.
//!
//! The handle decides; its owner sends the commands that it hands out and
//! joins the worker's thread when the handle says so.

use crate::config::{initial, stdout, Log2, Log2View, DEFAULT_COUNT, DEFAULT_FILE_SIZE};
use crate::levels::{get_level, level_named, lowercase_of, set_level, Level};
use crate::worker::{fresh, Command, CommandView, Worker};
use vstd::prelude::*;
use vstd::string::*;

verus! {

/// The handle of a started sink.
pub struct Handle {
    persistent: bool,
    running: bool,
}

/// A `Handle` as plain values.
pub struct HandleView {
    /// Whether file output is active.
    pub persistent: bool,
    /// Whether the worker has not been stopped through this handle yet.
    pub running: bool,
}

impl View for Handle {
    type V = HandleView;

    closed spec fn view(&self) -> HandleView {
        HandleView { persistent: self.persistent, running: self.running }
    }
}

impl Handle {
    /// Whether file output is active.
    pub fn persistent(&self) -> (yes: bool)
        ensures
            yes == self@.persistent,
    {
        self.persistent
    }

    /// Whether the worker has not been stopped through this handle yet.
    pub fn is_running(&self) -> (yes: bool)
        ensures
            yes == self@.running,
    {
        self.running
    }

    /// Stops the worker. The first call hands out the exit command: the
    /// owner sends it and then joins the worker's thread. Every later call
    /// hands out nothing and changes nothing.
    pub fn stop(&mut self) -> (command: Option<Command>)
        ensures
            old(self)@.running ==> (command matches Some(exit) && exit@ == CommandView::Exit),
            !old(self)@.running ==> command is None,
            final(self)@ == (HandleView { running: false, ..old(self)@ }),
    {
        if self.running {
            self.running = false;
            Some(Command::Exit)
        } else {
            None
        }
    }

    /// Makes the level of that name the process-wide maximum level, and
    /// returns it.
    pub fn set_level(&self, name: &str) -> (level: Level)
        ensures
            level == level_named(lowercase_of(name@)),
    {
        set_level(name)
    }

    /// Redirects the output to the file at `path`: file output is active
    /// from now on, and the command that is handed out takes the worker to
    /// the new path. The owner has made sure before that the file can be
    /// created.
    pub fn redirect(&mut self, path: &str) -> (command: Command)
        ensures
            command@ == CommandView::Redirect(path@),
            final(self)@ == (HandleView { persistent: true, ..old(self)@ }),
    {
        self.persistent = true;
        Command::Redirect(String::from_str(path))
    }

    /// The command that asks the worker to flush.
    pub fn flush(&self) -> (command: Command)
        ensures
            command@ == CommandView::Flush,
    {
        Command::Flush
    }
}

/// A started sink in its three parts.
pub struct Session {
    /// The sink, to be installed as the logger of the process.
    pub sink: Log2,
    /// The worker, to be run on a thread of its own.
    pub worker: Worker,
    /// The handle, to be given to the caller.
    pub handle: Handle,
    /// The maximum level for the facade: the caller sets it, with
    /// `Level::install`, once the sink is installed.
    pub max_level: Level,
}

/// Starts a sink: makes its worker and its handle, and asks for a facade
/// that is open for every level.
pub fn start_log2(logger: Log2) -> (session: Session)
    ensures
        session.sink == logger,
        session.worker@ == fresh(
            logger@.path,
            logger@.filesize,
            logger@.count,
            logger@.compression,
        ),
        logger@.count <= 1 ==> session.worker@.threshold == u64::MAX,
        session.handle@ == (HandleView { persistent: logger@.persistent, running: true }),
        session.max_level == Level::Trace,
{
    let ctx = logger.context();
    let handle = Handle { persistent: logger.persistent(), running: true };
    let worker = Worker::new(ctx);
    Session { sink: logger, worker, handle, max_level: Level::Trace }
}

/// The maximum level for the facade of a sink whose minimum level has the
/// name `name`: every level where the name is empty, else the level of
/// that name.
pub open spec fn started_level(name: Seq<char>) -> Level {
    if name.len() == 0 {
        Level::Trace
    } else {
        level_named(lowercase_of(name))
    }
}

impl Log2 {
    /// Starts the sink, and asks for a facade whose maximum level is the
    /// minimum level of the sink where one was named.
    pub fn start(self) -> (session: Session)
        ensures
            session.sink == self,
            session.worker@ == fresh(self@.path, self@.filesize, self@.count, self@.compression),
            self@.count <= 1 ==> session.worker@.threshold == u64::MAX,
            session.handle@ == (HandleView { persistent: self@.persistent, running: true }),
            session.max_level == started_level(self@.level),
    {
        let name = String::from_str(self.level_name());
        let mut session = start_log2(self);
        if !name.as_str().is_empty() {
            session.max_level = get_level(name.as_str());
        }
        session
    }
}

/// Starts a sink that echoes to the terminal and writes no file.
pub fn start() -> (session: Session)
    ensures
        session.sink@ == (Log2View { tee: true, ..initial() }),
        session.worker@ == fresh(Seq::empty(), DEFAULT_FILE_SIZE, DEFAULT_COUNT, false),
        session.handle@ == (HandleView { persistent: false, running: true }),
        session.max_level == Level::Trace,
{
    start_log2(stdout())
}

} // verus!
