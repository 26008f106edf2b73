//! The sink: what one event becomes on the caller's thread.
//!
//! The sink filters the event by its module, renders it once for the
//! terminal and once for the file, and hands back the commands for the
//! worker. It sends nothing itself.

use crate::levels::{label_of, Level};
use crate::text::{decimal, digits};
use crate::worker::{Command, CommandView};
use vstd::prelude::*;
use vstd::string::*;

verus! {

/// One event as the logging facade hands it over.
pub struct Record {
    /// The level of the event.
    pub level: Level,
    /// The path of the module that the event comes from, if known.
    pub module: Option<String>,
    /// The line that the event comes from, if known.
    pub line: Option<u32>,
    /// The message.
    pub message: String,
}

/// A `Record` over the texts it holds.
pub struct RecordView {
    pub level: Level,
    pub module: Option<Seq<char>>,
    pub line: Option<u32>,
    pub message: Seq<char>,
}

impl View for Record {
    type V = RecordView;

    open spec fn view(&self) -> RecordView {
        RecordView {
            level: self.level,
            module: match self.module {
                Some(module) => Some(module@),
                None => None,
            },
            line: self.line,
            message: self.message@,
        }
    }
}

/// A predicate on module paths: an event passes where it answers `true`.
/// It is called on the thread that logs and must not block.
pub trait ModuleFilter: Send {
    /// Whether `verdict` is an answer that the filter may give for the
    /// module path.
    spec fn answers(&self, module: Seq<char>, verdict: bool) -> bool;

    fn accepts(&self, module: &str) -> (verdict: bool)
        ensures
            self.answers(module@, verdict),
    ;
}

/// A formatter of events: it gives the whole text of an event, once for
/// the terminal (`tee` is `true`) and once for the file. It is called on
/// the thread that logs and must not block.
pub trait Formatter: Send {
    /// Whether `text` is a text that the formatter may give for the event.
    spec fn renders(&self, record: RecordView, tee: bool, text: Seq<char>) -> bool;

    fn format(&self, record: &Record, tee: bool) -> (text: String)
        ensures
            self.renders(record@, tee, text@),
    ;
}

/// Whether `verdict` is an answer that the closure may give for the module
/// path.
pub open spec fn hook_answers<H: Fn(&str) -> bool>(
    hook: H,
    module: Seq<char>,
    verdict: bool,
) -> bool {
    exists|path: &str| path@ == module && #[trigger] call_ensures(hook, (path,), verdict)
}

/// Whether `text` is a text that the closure may give for the event.
pub open spec fn hook_renders<H: Fn(&Record, bool) -> String>(
    hook: H,
    record: RecordView,
    tee: bool,
    text: Seq<char>,
) -> bool {
    exists|event: &Record, line: String|
        event@ == record && line@ == text && #[trigger] call_ensures(hook, (event, tee), line)
}

/// A closure as a module filter.
pub struct FilterFn<H: Fn(&str) -> bool> {
    hook: H,
}

impl<H: Fn(&str) -> bool> FilterFn<H> {
    #[verifier::type_invariant]
    spec fn callable(self) -> bool {
        forall|module: &str| call_requires(self.hook, (module,))
    }

    /// The closure.
    pub closed spec fn hook(&self) -> H {
        self.hook
    }

    /// Wraps a closure that may be called on every module path.
    pub fn new(hook: H) -> (filter: Self)
        requires
            forall|module: &str| call_requires(hook, (module,)),
        ensures
            filter.hook() == hook,
    {
        FilterFn { hook }
    }
}

impl<H: Fn(&str) -> bool + Send> ModuleFilter for FilterFn<H> {
    open spec fn answers(&self, module: Seq<char>, verdict: bool) -> bool {
        hook_answers(self.hook(), module, verdict)
    }

    fn accepts(&self, module: &str) -> (verdict: bool) {
        proof {
            use_type_invariant(self);
        }
        let verdict = (self.hook)(module);
        verdict
    }
}

/// A closure as a formatter.
pub struct FormatFn<H: Fn(&Record, bool) -> String> {
    hook: H,
}

impl<H: Fn(&Record, bool) -> String> FormatFn<H> {
    #[verifier::type_invariant]
    spec fn callable(self) -> bool {
        forall|record: &Record, tee: bool| call_requires(self.hook, (record, tee))
    }

    /// The closure.
    pub closed spec fn hook(&self) -> H {
        self.hook
    }

    /// Wraps a closure that may be called on every record.
    pub fn new(hook: H) -> (formatter: Self)
        requires
            forall|record: &Record, tee: bool| call_requires(hook, (record, tee)),
        ensures
            formatter.hook() == hook,
    {
        FormatFn { hook }
    }
}

impl<H: Fn(&Record, bool) -> String + Send> Formatter for FormatFn<H> {
    open spec fn renders(&self, record: RecordView, tee: bool, text: Seq<char>) -> bool {
        hook_renders(self.hook(), record, tee, text)
    }

    fn format(&self, record: &Record, tee: bool) -> (text: String) {
        proof {
            use_type_invariant(self);
        }
        let text = (self.hook)(record, tee);
        text
    }
}

/// A colour of the terminal.
#[derive(Clone, Copy, PartialEq, Eq, Structural, Debug)]
pub enum Tint {
    Black,
    BrightRed,
    Yellow,
    Green,
    BrightBlue,
    Cyan,
    TrueColor { r: u8, g: u8, b: u8 },
}

/// The colour of the label of a level.
pub open spec fn tint_of(level: Level) -> Tint {
    match level {
        Level::Off => Tint::Black,
        Level::Error => Tint::BrightRed,
        Level::Warn => Tint::Yellow,
        Level::Info => Tint::Green,
        Level::Debug => Tint::BrightBlue,
        Level::Trace => Tint::Cyan,
    }
}

/// Whether the text holds no escape character.
pub open spec fn no_escape(text: Seq<char>) -> bool {
    forall|i: int| 0 <= i < text.len() ==> text[i] != '\u{1b}'
}

/// The text between something before it and something after it.
pub open spec fn around(before: Seq<char>, text: Seq<char>, after: Seq<char>) -> Seq<char> {
    before + text + after
}

/// Whether `painted` is `text` with something before it and something
/// after it, and nothing changed in between.
pub open spec fn wraps(painted: Seq<char>, text: Seq<char>) -> bool {
    exists|before: Seq<char>, after: Seq<char>| painted == #[trigger] around(before, text, after)
}

/// The pattern of the time stamp: date, time and milliseconds.
pub open spec fn stamp_pattern() -> Seq<char> {
    "%Y-%m-%d %H:%M:%S%.3f"@
}

/// `chrono::Local::now`, then `DateTime::format` with the pattern and the
/// text of what it gives: the local time of the call. The text depends on
/// the clock and the time zone, so nothing is claimed of it. The pattern is
/// held to the one that the sink uses, which `chrono` accepts.
#[verifier::external_body]
fn timestamp(pattern: &str) -> (stamp: String)
    requires
        pattern@ == stamp_pattern(),
{
    chrono::Local::now().format(pattern).to_string()
}

/// `colored::Colorize::color` on a text, then the text of what it gives:
/// the text as it is, or the escape sequence of the colour, the text and
/// the reset sequence. Which of the two depends on variables that the
/// process inherits and on an override that any thread may set. Only a
/// text that holds a reset sequence is changed inside, and a text without
/// an escape character holds none.
#[verifier::external_body]
fn paint(text: &str, tint: Tint) -> (painted: String)
    ensures
        no_escape(text@) ==> wraps(painted@, text@),
{
    let color = match tint {
        Tint::Black => colored::Color::Black,
        Tint::BrightRed => colored::Color::BrightRed,
        Tint::Yellow => colored::Color::Yellow,
        Tint::Green => colored::Color::Green,
        Tint::BrightBlue => colored::Color::BrightBlue,
        Tint::Cyan => colored::Color::Cyan,
        Tint::TrueColor { r, g, b } => colored::Color::TrueColor { r, g, b },
    };
    colored::Colorize::color(text, color).to_string()
}

/// The module path of an event; `unknown` where it has none.
pub open spec fn module_of(record: RecordView) -> Seq<char> {
    match record.module {
        Some(module) => module,
        None => "unknown"@,
    }
}

/// The line of an event as text; empty where it has none.
pub open spec fn line_text(line: Option<u32>) -> Seq<char> {
    match line {
        Some(n) => digits(n as nat),
        None => Seq::empty(),
    }
}

/// The note of where an event comes from: nothing where modules are not
/// shown; else the module in brackets, with the line after a colon where
/// lines are shown, and a space after the closing bracket.
pub open spec fn origin_of(show_module: bool, show_line: bool, record: RecordView) -> Seq<char> {
    if !show_module {
        Seq::empty()
    } else if show_line {
        "["@ + module_of(record) + ":"@ + line_text(record.line) + "] "@
    } else {
        "["@ + module_of(record) + "] "@
    }
}

/// The line of an event in the file: time stamp and level in brackets,
/// the origin, the message and a line feed.
pub open spec fn file_line(
    stamp: Seq<char>,
    level: Level,
    origin: Seq<char>,
    message: Seq<char>,
) -> Seq<char> {
    "["@ + stamp + "] ["@ + label_of(level) + "] "@ + origin + message + "\n"@
}

/// The line of an event on the terminal, from its painted pieces: time
/// stamp and label each between the painted brackets, the origin, the
/// message and a line feed.
pub open spec fn terminal_line(
    open: Seq<char>,
    close: Seq<char>,
    stamp: Seq<char>,
    label: Seq<char>,
    origin: Seq<char>,
    message: Seq<char>,
) -> Seq<char> {
    open + stamp + close + " "@ + open + label + close + " "@ + origin + message + "\n"@
}

/// Whether `text` is the line of the event in the file under some time
/// stamp.
pub open spec fn is_file_line(
    text: Seq<char>,
    level: Level,
    origin: Seq<char>,
    message: Seq<char>,
) -> bool {
    exists|stamp: Seq<char>| text == #[trigger] file_line(stamp, level, origin, message)
}

/// Whether `text` is the line of the event on the terminal under some time
/// stamp and some painting of the brackets and of the label of the level:
/// each painted piece holds its text unchanged.
pub open spec fn is_terminal_line(
    text: Seq<char>,
    level: Level,
    origin: Seq<char>,
    message: Seq<char>,
) -> bool {
    exists|open: Seq<char>, close: Seq<char>, stamp: Seq<char>, label: Seq<char>|
        wraps(open, "["@) && wraps(close, "]"@) && wraps(label, label_of(level)) && text
            == #[trigger] terminal_line(open, close, stamp, label, origin, message)
}

/// Brackets and labels hold no escape character.
pub proof fn lemma_pieces_plain(level: Level)
    ensures
        no_escape("["@),
        no_escape("]"@),
        no_escape(label_of(level)),
{
    reveal_strlit("[");
    reveal_strlit("]");
    reveal_strlit("OFF");
    reveal_strlit("ERROR");
    reveal_strlit("WARN");
    reveal_strlit("INFO");
    reveal_strlit("DEBUG");
    reveal_strlit("TRACE");
}

/// The commands for one event: none where the filter has rejected its
/// module; else the terminal text, where there is one, and then the file
/// text, where there is one.
pub open spec fn routed(
    verdict: bool,
    terminal: Option<Seq<char>>,
    file: Option<Seq<char>>,
) -> Seq<CommandView> {
    if !verdict {
        Seq::empty()
    } else {
        let first = match terminal {
            Some(text) => seq![CommandView::WriteTerminal(text)],
            None => Seq::empty(),
        };
        let second = match file {
            Some(text) => seq![CommandView::WriteFile(text)],
            None => Seq::empty(),
        };
        first + second
    }
}

/// The text of a string that may be missing.
pub open spec fn text_of(text: Option<String>) -> Option<Seq<char>> {
    match text {
        Some(text) => Some(text@),
        None => None,
    }
}

/// The views of a vector of commands.
pub open spec fn views_of(commands: Seq<Command>) -> Seq<CommandView> {
    Seq::new(commands.len(), |k: int| commands[k]@)
}

/// Builds the line of an event in the file.
pub fn render_file(stamp: &str, level: Level, origin: &str, message: &str) -> (text: String)
    ensures
        text@ == file_line(stamp@, level, origin@, message@),
{
    let mut text = String::from_str("[");
    text.append(stamp);
    text.append("] [");
    text.append(level.label());
    text.append("] ");
    text.append(origin);
    text.append(message);
    text.append("\n");
    text
}

/// Builds the line of an event on the terminal from its painted pieces.
pub fn render_terminal(
    open: &str,
    close: &str,
    stamp: &str,
    label: &str,
    origin: &str,
    message: &str,
) -> (text: String)
    ensures
        text@ == terminal_line(open@, close@, stamp@, label@, origin@, message@),
{
    let mut text = String::from_str(open);
    text.append(stamp);
    text.append(close);
    text.append(" ");
    text.append(open);
    text.append(label);
    text.append(close);
    text.append(" ");
    text.append(origin);
    text.append(message);
    text.append("\n");
    text
}

/// Builds the note of where an event comes from.
pub fn render_origin(show_module: bool, show_line: bool, record: &Record) -> (text: String)
    ensures
        text@ == origin_of(show_module, show_line, record@),
{
    let mut text = String::new();
    if show_module {
        text.append("[");
        match &record.module {
            Some(module) => text.append(module.as_str()),
            None => text.append("unknown"),
        }
        if show_line {
            text.append(":");
            match record.line {
                Some(n) => {
                    let number = decimal(n as u64);
                    text.append(number.as_str());
                },
                None => {},
            }
        }
        text.append("] ");
    }
    text
}

/// Renders the built-in line of an event for the terminal: the time stamp
/// of this moment and the label of the level, each between grey brackets,
/// the label in the colour of its level. The painted pieces depend on the
/// clock and on whether colours are on; how they are put together does
/// not.
pub fn stamp_terminal(level: Level, origin: &str, message: &str) -> (text: String)
    ensures
        is_terminal_line(text@, level, origin@, message@),
{
    proof {
        lemma_pieces_plain(level);
    }
    let grey = Tint::TrueColor { r: 0x87, g: 0x87, b: 0x87 };
    let open = paint("[", grey);
    let close = paint("]", grey);
    let stamp = timestamp("%Y-%m-%d %H:%M:%S%.3f");
    let label = paint(level.label(), level_tint(level));
    render_terminal(
        open.as_str(),
        close.as_str(),
        stamp.as_str(),
        label.as_str(),
        origin,
        message,
    )
}

/// Renders the built-in line of an event for the file, with the time stamp
/// of this moment.
pub fn stamp_file(level: Level, origin: &str, message: &str) -> (text: String)
    ensures
        is_file_line(text@, level, origin@, message@),
{
    let stamp = timestamp("%Y-%m-%d %H:%M:%S%.3f");
    render_file(stamp.as_str(), level, origin, message)
}

/// The colour of the label of a level.
pub fn level_tint(level: Level) -> (tint: Tint)
    ensures
        tint == tint_of(level),
{
    match level {
        Level::Off => Tint::Black,
        Level::Error => Tint::BrightRed,
        Level::Warn => Tint::Yellow,
        Level::Info => Tint::Green,
        Level::Debug => Tint::BrightBlue,
        Level::Trace => Tint::Cyan,
    }
}

/// Puts the commands for one event together, once the filter has given
/// its verdict and the texts are rendered. A rejected event gives no
/// command at all.
pub fn route(verdict: bool, terminal: Option<String>, file: Option<String>) -> (commands: Vec<
    Command,
>)
    ensures
        views_of(commands@) == routed(verdict, text_of(terminal), text_of(file)),
        !verdict ==> commands@.len() == 0,
{
    let mut commands: Vec<Command> = Vec::new();
    if verdict {
        match terminal {
            Some(text) => commands.push(Command::WriteTerminal(text)),
            None => {},
        }
        match file {
            Some(text) => commands.push(Command::WriteFile(text)),
            None => {},
        }
    }
    commands
}

} // verus!
