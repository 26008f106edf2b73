//! The configuration of a sink, built step by step, and what the sink does
//! with an event.

use crate::levels::{at_least, get_level, level_named, lowercase_of, Level};
use crate::rotation::Context;
use crate::sink::{
    hook_answers, hook_renders, is_file_line, is_terminal_line, module_of, origin_of,
    render_origin, route, stamp_file, stamp_terminal, views_of, FilterFn, FormatFn, Formatter,
    ModuleFilter, Record, RecordView,
};
use crate::worker::{Command, CommandView};
use vstd::prelude::*;
use vstd::string::*;

verus! {

/// The size from which on a live file is rotated unless another is set:
/// 100 MiB.
pub const DEFAULT_FILE_SIZE: u64 = 100 * 1024 * 1024;

/// The number of generations kept unless another is set.
pub const DEFAULT_COUNT: usize = 10;

/// The configuration of a sink, and the sink itself once it is started.
pub struct Log2 {
    path: String,
    persistent: bool,
    tee: bool,
    module: bool,
    line: bool,
    filesize: u64,
    count: usize,
    level: String,
    compression: bool,
    module_filter: Option<Box<dyn ModuleFilter>>,
    formatter: Option<Box<dyn Formatter>>,
}

/// The settings of a sink as plain values.
pub struct Log2View {
    /// The path of the live file; empty where nothing goes to a file.
    pub path: Seq<char>,
    /// Whether the sink starts with file output active.
    pub persistent: bool,
    /// Whether events are echoed to the terminal.
    pub tee: bool,
    /// Whether the module of an event is shown.
    pub module: bool,
    /// Whether the line of an event is shown beside its module.
    pub line: bool,
    /// The size from which on the live file is rotated.
    pub filesize: u64,
    /// The number of generations kept.
    pub count: usize,
    /// The name of the minimum level; empty where none was set.
    pub level: Seq<char>,
    /// Whether aged files are compressed.
    pub compression: bool,
    /// Whether a module filter is set.
    pub filtered: bool,
    /// Whether a formatter is set.
    pub custom: bool,
}

/// The settings of a sink that nothing was set on.
pub open spec fn initial() -> Log2View {
    Log2View {
        path: Seq::empty(),
        persistent: false,
        tee: false,
        module: true,
        line: true,
        filesize: DEFAULT_FILE_SIZE,
        count: DEFAULT_COUNT,
        level: Seq::empty(),
        compression: false,
        filtered: false,
        custom: false,
    }
}

/// The settings after the size threshold was set: a sink that keeps one
/// generation or none never rotates, whatever size is asked for.
pub open spec fn sized(v: Log2View, filesize: u64) -> Log2View {
    Log2View {
        filesize: if v.count <= 1 {
            u64::MAX
        } else {
            filesize
        },
        ..v
    }
}

/// The settings after the number of generations was set: with one
/// generation or none the threshold goes out of reach.
pub open spec fn rotating(v: Log2View, count: usize) -> Log2View {
    Log2View {
        count,
        filesize: if count <= 1 {
            u64::MAX
        } else {
            v.filesize
        },
        ..v
    }
}

/// Whether `text` is a terminal text of the event: one that the formatter
/// may give where a formatter is set, else the built-in line with some time
/// stamp and some painting of the brackets and of the label of its level.
pub open spec fn terminal_text(
    v: Log2View,
    formatter: Option<Box<dyn Formatter>>,
    record: RecordView,
    text: Seq<char>,
) -> bool {
    match formatter {
        Some(custom) => custom.renders(record, true, text),
        None => is_terminal_line(
            text,
            record.level,
            origin_of(v.module, v.line, record),
            record.message,
        ),
    }
}

/// Whether `text` is a file text of the event: one that the formatter may
/// give where a formatter is set, else the built-in line with some time
/// stamp.
pub open spec fn file_text(
    v: Log2View,
    formatter: Option<Box<dyn Formatter>>,
    record: RecordView,
    text: Seq<char>,
) -> bool {
    match formatter {
        Some(custom) => custom.renders(record, false, text),
        None => is_file_line(
            text,
            record.level,
            origin_of(v.module, v.line, record),
            record.message,
        ),
    }
}

/// Whether `commands` are those of an event that passed the filter: the
/// terminal write where the terminal is echoed to, then the file write
/// where file output is active, and nothing else.
pub open spec fn shaped(
    v: Log2View,
    formatter: Option<Box<dyn Formatter>>,
    persistent: bool,
    record: RecordView,
    commands: Seq<CommandView>,
) -> bool {
    &&& commands.len() == (if v.tee {
        1nat
    } else {
        0nat
    }) + (if persistent {
        1nat
    } else {
        0nat
    })
    &&& v.tee ==> (commands[0] matches CommandView::WriteTerminal(text) && terminal_text(
        v,
        formatter,
        record,
        text,
    ))
    &&& persistent ==> (commands[commands.len() - 1] matches CommandView::WriteFile(text)
        && file_text(v, formatter, record, text))
}

/// Whether `commands` are those of an event on which the filter, where
/// one is set, has given `verdict`: none where it has rejected the module.
pub open spec fn judged(
    v: Log2View,
    formatter: Option<Box<dyn Formatter>>,
    persistent: bool,
    record: RecordView,
    verdict: bool,
    commands: Seq<CommandView>,
) -> bool {
    if verdict {
        shaped(v, formatter, persistent, record, commands)
    } else {
        commands.len() == 0
    }
}

/// Whether `commands` are those of the event. The filter, where one is
/// set, is asked about the module of the event, and about nothing else.
pub open spec fn logged_as(
    v: Log2View,
    filter: Option<Box<dyn ModuleFilter>>,
    formatter: Option<Box<dyn Formatter>>,
    persistent: bool,
    record: RecordView,
    commands: Seq<CommandView>,
) -> bool {
    match filter {
        Some(sieve) => {
            ||| sieve.answers(module_of(record), true) && judged(
                v,
                formatter,
                persistent,
                record,
                true,
                commands,
            )
            ||| sieve.answers(module_of(record), false) && judged(
                v,
                formatter,
                persistent,
                record,
                false,
                commands,
            )
        },
        None => shaped(v, formatter, persistent, record, commands),
    }
}

impl View for Log2 {
    type V = Log2View;

    closed spec fn view(&self) -> Log2View {
        Log2View {
            path: self.path@,
            persistent: self.persistent,
            tee: self.tee,
            module: self.module,
            line: self.line,
            filesize: self.filesize,
            count: self.count,
            level: self.level@,
            compression: self.compression,
            filtered: self.module_filter is Some,
            custom: self.formatter is Some,
        }
    }
}

impl Log2 {
    #[verifier::type_invariant]
    spec fn bounded(self) -> bool {
        self.count <= 1 ==> self.filesize == u64::MAX
    }

    /// The module filter of the sink, if one is set.
    pub closed spec fn filter_hook(&self) -> Option<Box<dyn ModuleFilter>> {
        self.module_filter
    }

    /// The formatter of the sink, if one is set.
    pub closed spec fn format_hook(&self) -> Option<Box<dyn Formatter>> {
        self.formatter
    }

    /// The settings say whether the hooks are set.
    pub proof fn lemma_settings_tell_hooks(&self)
        ensures
            self@.filtered == self.filter_hook() is Some,
            self@.custom == self.format_hook() is Some,
    {
    }

    /// A sink that writes nowhere yet: no path, no terminal echo, module
    /// and line shown, the default size and count, no compression.
    pub fn new() -> (logger: Self)
        ensures
            logger@ == initial(),
    {
        Log2 {
            path: String::new(),
            persistent: false,
            tee: false,
            module: true,
            line: true,
            filesize: DEFAULT_FILE_SIZE,
            count: DEFAULT_COUNT,
            level: String::new(),
            compression: false,
            module_filter: None,
            formatter: None,
        }
    }

    /// The stream of the sink, as its worker will hold it. A sink that
    /// keeps one generation or none has no size that its file can reach.
    pub fn context(&self) -> (ctx: Context)
        ensures
            ctx.path@ == self@.path,
            ctx.size == self@.filesize,
            ctx.count == self@.count,
            ctx.compression == self@.compression,
            ctx.count <= 1 ==> ctx.size == u64::MAX,
    {
        proof {
            use_type_invariant(self);
        }
        Context {
            path: self.path.clone(),
            size: self.filesize,
            count: self.count,
            compression: self.compression,
        }
    }

    /// Whether the sink starts with file output active.
    pub fn persistent(&self) -> (yes: bool)
        ensures
            yes == self@.persistent,
    {
        self.persistent
    }

    /// The name of the minimum level; empty where none was set.
    pub fn level_name(&self) -> (name: &str)
        ensures
            name@ == self@.level,
    {
        self.level.as_str()
    }

    /// Shows or hides the module of each event, and with it the line.
    pub fn module(self, show: bool) -> (logger: Self)
        ensures
            logger@ == (Log2View { module: show, ..self@ }),
            logger.filter_hook() == self.filter_hook(),
            logger.format_hook() == self.format_hook(),
    {
        proof {
            use_type_invariant(&self);
        }
        let mut logger = self;
        logger.module = show;
        logger
    }

    /// Shows or hides the line of each event beside its module. The line
    /// is only ever shown where the module is shown.
    pub fn module_with_line(self, show: bool) -> (logger: Self)
        ensures
            logger@ == (Log2View { line: show, ..self@ }),
            logger.filter_hook() == self.filter_hook(),
            logger.format_hook() == self.format_hook(),
    {
        proof {
            use_type_invariant(&self);
        }
        let mut logger = self;
        logger.line = show;
        logger
    }

    /// Turns the echo to the terminal on or off.
    pub fn tee(self, stdout: bool) -> (logger: Self)
        ensures
            logger@ == (Log2View { tee: stdout, ..self@ }),
            logger.filter_hook() == self.filter_hook(),
            logger.format_hook() == self.format_hook(),
    {
        proof {
            use_type_invariant(&self);
        }
        let mut logger = self;
        logger.tee = stdout;
        logger
    }

    /// Sets the size from which on the live file is rotated.
    pub fn size(self, filesize: u64) -> (logger: Self)
        ensures
            logger@ == sized(self@, filesize),
            logger.filter_hook() == self.filter_hook(),
            logger.format_hook() == self.format_hook(),
    {
        proof {
            use_type_invariant(&self);
        }
        let mut logger = self;
        if logger.count <= 1 {
            logger.filesize = u64::MAX;
        } else {
            logger.filesize = filesize;
        }
        logger
    }

    /// Sets the number of generations kept, the live file included.
    pub fn rotate(self, count: usize) -> (logger: Self)
        ensures
            logger@ == rotating(self@, count),
            logger.filter_hook() == self.filter_hook(),
            logger.format_hook() == self.format_hook(),
    {
        proof {
            use_type_invariant(&self);
        }
        let filesize: u64 = if count <= 1 {
            u64::MAX
        } else {
            self.filesize
        };
        Log2 {
            path: self.path,
            persistent: self.persistent,
            tee: self.tee,
            module: self.module,
            line: self.line,
            filesize,
            count,
            level: self.level,
            compression: self.compression,
            module_filter: self.module_filter,
            formatter: self.formatter,
        }
    }

    /// Sets the filter on module paths: an event passes where the filter
    /// answers `true`.
    pub fn module_filter<H: Fn(&str) -> bool + Send + 'static>(self, filter: H) -> (logger: Self)
        requires
            forall|module: &str| call_requires(filter, (module,)),
        ensures
            logger@ == (Log2View { filtered: true, ..self@ }),
            logger.format_hook() == self.format_hook(),
            logger.filter_hook() matches Some(sieve) && forall|module: Seq<char>, verdict: bool|
                #[trigger] sieve.answers(module, verdict) == hook_answers(filter, module, verdict),
    {
        proof {
            use_type_invariant(&self);
        }
        let mut logger = self;
        logger.module_filter = Some(Box::new(FilterFn::new(filter)));
        logger
    }

    /// Sets the formatter of events. It is asked once for the terminal,
    /// with `true`, and once for the file, with `false`.
    pub fn format<H: Fn(&Record, bool) -> String + Send + 'static>(self, formatter: H) -> (logger:
        Self)
        requires
            forall|record: &Record, tee: bool| call_requires(formatter, (record, tee)),
        ensures
            logger@ == (Log2View { custom: true, ..self@ }),
            logger.filter_hook() == self.filter_hook(),
            logger.format_hook() matches Some(custom) && forall|
                record: RecordView,
                tee: bool,
                text: Seq<char>,
            |
                #[trigger] custom.renders(record, tee, text) == hook_renders(
                    formatter,
                    record,
                    tee,
                    text,
                ),
    {
        proof {
            use_type_invariant(&self);
        }
        let mut logger = self;
        logger.formatter = Some(Box::new(FormatFn::new(formatter)));
        logger
    }

    /// Sets the name of the minimum level.
    pub fn level(self, name: &str) -> (logger: Self)
        ensures
            logger@ == (Log2View { level: name@, ..self@ }),
            logger.filter_hook() == self.filter_hook(),
            logger.format_hook() == self.format_hook(),
    {
        proof {
            use_type_invariant(&self);
        }
        let mut logger = self;
        logger.level = String::from_str(name);
        logger
    }

    /// Turns the compression of aged files on or off.
    pub fn compress(self, on: bool) -> (logger: Self)
        ensures
            logger@ == (Log2View { compression: on, ..self@ }),
            logger.filter_hook() == self.filter_hook(),
            logger.format_hook() == self.format_hook(),
    {
        proof {
            use_type_invariant(&self);
        }
        let mut logger = self;
        logger.compression = on;
        logger
    }

    /// Tests whether an event of `level` is at or above the minimum level
    /// of the sink.
    pub fn enabled(&self, level: Level) -> (yes: bool)
        ensures
            yes == at_least(level, level_named(lowercase_of(self@.level))),
    {
        let least = get_level(self.level.as_str());
        level.passes(least)
    }

    /// Turns one event into the commands for the worker. `persistent` says
    /// whether file output is active at this moment. An event whose module
    /// the filter rejects gives no command; every other event gives the
    /// terminal write, where the terminal is echoed to, and then the file
    /// write, where file output is active.
    pub fn log(&self, persistent: bool, record: &Record) -> (commands: Vec<Command>)
        ensures
            logged_as(
                self@,
                self.filter_hook(),
                self.format_hook(),
                persistent,
                record@,
                views_of(commands@),
            ),
    {
        let verdict = self.admits(record);
        if !verdict {
            return route(false, None, None);
        }
        let origin = render_origin(self.module, self.line, record);
        let terminal = if self.tee {
            Some(self.shown(record, origin.as_str()))
        } else {
            None
        };
        let file = if persistent {
            Some(self.kept(record, origin.as_str()))
        } else {
            None
        };
        route(true, terminal, file)
    }

    fn admits(&self, record: &Record) -> (verdict: bool)
        ensures
            match self.filter_hook() {
                Some(sieve) => sieve.answers(module_of(record@), verdict),
                None => verdict,
            },
    {
        match &self.module_filter {
            Some(filter) => {
                let module: &str = match &record.module {
                    Some(module) => module.as_str(),
                    None => "unknown",
                };
                filter.accepts(module)
            },
            None => true,
        }
    }

    fn shown(&self, record: &Record, origin: &str) -> (text: String)
        requires
            origin@ == origin_of(self@.module, self@.line, record@),
        ensures
            terminal_text(self@, self.format_hook(), record@, text@),
    {
        match &self.formatter {
            Some(formatter) => formatter.format(record, true),
            None => stamp_terminal(record.level, origin, record.message.as_str()),
        }
    }

    fn kept(&self, record: &Record, origin: &str) -> (text: String)
        requires
            origin@ == origin_of(self@.module, self@.line, record@),
        ensures
            file_text(self@, self.format_hook(), record@, text@),
    {
        match &self.formatter {
            Some(formatter) => formatter.format(record, false),
            None => stamp_file(record.level, origin, record.message.as_str()),
        }
    }

    /// The command that asks the worker to flush. It is only sent: the
    /// flush is done when the worker comes to it.
    pub fn flush(&self) -> (command: Command)
        ensures
            command@ == CommandView::Flush,
    {
        Command::Flush
    }
}

/// An event whose module the filter never accepts gives no command,
/// whatever else is set.
pub proof fn lemma_rejected_is_silent(
    v: Log2View,
    filter: Option<Box<dyn ModuleFilter>>,
    formatter: Option<Box<dyn Formatter>>,
    persistent: bool,
    record: RecordView,
    commands: Seq<CommandView>,
)
    requires
        logged_as(v, filter, formatter, persistent, record, commands),
        filter matches Some(sieve) && !sieve.answers(module_of(record), true),
    ensures
        commands.len() == 0,
{
}

/// An event whose module the filter never rejects gives the same commands
/// as without a filter.
pub proof fn lemma_accepted_is_logged(
    v: Log2View,
    filter: Option<Box<dyn ModuleFilter>>,
    formatter: Option<Box<dyn Formatter>>,
    persistent: bool,
    record: RecordView,
    commands: Seq<CommandView>,
)
    requires
        logged_as(v, filter, formatter, persistent, record, commands),
        filter matches Some(sieve) && !sieve.answers(module_of(record), false),
    ensures
        logged_as(v, None, formatter, persistent, record, commands),
{
}

/// A sink that echoes to the terminal and writes no file.
pub fn stdout() -> (logger: Log2)
    ensures
        logger@ == (Log2View { tee: true, ..initial() }),
{
    Log2::new().tee(true)
}

/// A sink that writes to the file at `path`, with file output active. The
/// caller sees to it that the file can be created before the sink starts.
pub fn open(path: &str) -> (logger: Log2)
    ensures
        logger@ == (Log2View { path: path@, persistent: true, ..initial() }),
{
    let mut logger = Log2::new();
    logger.path = String::from_str(path);
    logger.persistent = true;
    logger
}

/// The switches for the module and for the line can be set in either
/// order.
pub proof fn lemma_switches_commute(v: Log2View, module: bool, line: bool)
    ensures
        (Log2View { line, ..(Log2View { module, ..v }) }) == (Log2View {
            module,
            ..(Log2View { line, ..v })
        }),
{
}

/// On a sink that nothing was set on, the size and the number of
/// generations can be set in either order.
pub proof fn lemma_size_and_count_commute(v: Log2View, filesize: u64, count: usize)
    requires
        v.count > 1,
    ensures
        rotating(sized(v, filesize), count) == sized(rotating(v, count), filesize),
{
}

} // verus!
