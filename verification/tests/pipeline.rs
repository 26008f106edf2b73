use log2::{
    compress_file, Aging, Command, Context, Event, Handle, Level, Log2, Phase, Record, Request,
    Stage, Step, Worker,
};
use std::collections::BTreeMap;
use std::io::Read;

/// The caller's side of the worker, in memory: files by path, a terminal,
/// and the one open file.
struct Shell {
    files: BTreeMap<String, Vec<u8>>,
    terminal: String,
    handle: Option<String>,
    flushes: usize,
    rotations: usize,
}

impl Shell {
    fn new() -> Shell {
        Shell {
            files: BTreeMap::new(),
            terminal: String::new(),
            handle: None,
            flushes: 0,
            rotations: 0,
        }
    }

    fn with_file(path: &str) -> Shell {
        let mut shell = Shell::new();
        shell.touch(path);
        shell
    }

    fn touch(&mut self, path: &str) {
        self.files.entry(path.to_string()).or_default();
    }

    fn text(&self, path: &str) -> String {
        String::from_utf8(self.files[path].clone()).unwrap()
    }

    fn perform(&mut self, request: Request) -> Option<Event> {
        match request {
            Request::Receive => None,
            Request::Halt => {
                self.handle = None;
                None
            }
            Request::Append(text) => match &self.handle {
                Some(path) => {
                    self.files.get_mut(path).unwrap().extend_from_slice(text.as_bytes());
                    Some(Event::Done)
                }
                None => Some(Event::Failed("no file is open".to_string())),
            },
            Request::Print(text) => {
                self.terminal.push_str(&text);
                Some(Event::Done)
            }
            Request::Flush => {
                self.flushes += 1;
                Some(Event::Done)
            }
            Request::Measure(path) => {
                self.handle = None;
                let length = self.files.get(&path).map_or(0, |bytes| bytes.len());
                Some(Event::Length(u64::try_from(length).unwrap()))
            }
            Request::Shift(steps) => {
                self.rotations += 1;
                for step in steps {
                    match step {
                        Step::Rename { from, to } => {
                            if let Some(bytes) = self.files.remove(&from) {
                                self.files.insert(to, bytes);
                            }
                        }
                        Step::Compress { from, to } => {
                            let aging = self.files.get(&from).map(|b| compress_file(b, &to));
                            if let Some(Aging::Stored { name, bytes }) = aging {
                                self.files.insert(name, bytes);
                                self.files.remove(&from);
                            }
                        }
                    }
                }
                Some(Event::Done)
            }
            Request::Open(path) => {
                let length = self.files.entry(path.clone()).or_default().len();
                self.handle = Some(path);
                Some(Event::Opened(u64::try_from(length).unwrap()))
            }
        }
    }

    /// Hands the event to the worker and performs what it asks for, up to
    /// the next wait or the halt. Returns the number of requests performed.
    fn drive(&mut self, worker: &mut Worker, event: Event, now: u64) -> usize {
        let mut event = event;
        let mut performed = 0;
        loop {
            let request = worker.step(event, now);
            match self.perform(request) {
                Some(next) => {
                    performed += 1;
                    event = next;
                }
                None => return performed,
            }
        }
    }

    fn send(&mut self, worker: &mut Worker, commands: Vec<Command>, now: u64) {
        for command in commands {
            self.drive(worker, Event::Received(command), now);
        }
    }
}

fn record(level: Level, module: &str, line: u32, message: &str) -> Record {
    Record {
        level,
        module: Some(module.to_string()),
        line: Some(line),
        message: message.to_string(),
    }
}

fn five(module: &str, prefix: &str) -> Vec<Record> {
    vec![
        record(Level::Trace, module, 1, &format!("{prefix}send order request to server")),
        record(Level::Debug, module, 2, &format!("{prefix}receive order response")),
        record(Level::Info, module, 3, &format!("{prefix}order was executed")),
        record(Level::Warn, module, 4, &format!("{prefix}network speed is slow")),
        record(Level::Error, module, 5, &format!("{prefix}network connection was broken")),
    ]
}

fn log_all(sink: &Log2, handle: &Handle, shell: &mut Shell, worker: &mut Worker, records: &[Record]) {
    for record in records {
        let commands = sink.log(handle.persistent(), record);
        shell.send(worker, commands, 0);
    }
}

fn stop(handle: &mut Handle, shell: &mut Shell, worker: &mut Worker) {
    if let Some(exit) = handle.stop() {
        shell.drive(worker, Event::Received(exit), 0);
    }
}

fn gunzip(bytes: &[u8]) -> Vec<u8> {
    let mut decoder = flate2::read::GzDecoder::new(bytes);
    let mut plain = Vec::new();
    decoder.read_to_end(&mut plain).unwrap();
    plain
}

fn stream(path: &str, size: u64, count: usize, compression: bool) -> (Shell, Worker) {
    let mut shell = Shell::with_file(path);
    let mut worker = Worker::new(Context { path: path.to_string(), size, count, compression });
    shell.drive(&mut worker, Event::Begin, 0);
    (shell, worker)
}

fn write(shell: &mut Shell, worker: &mut Worker, text: &str) {
    shell.drive(worker, Event::Received(Command::WriteFile(text.to_string())), 0);
}

fn line(n: usize) -> String {
    format!("line {n:03} of the log, forty bytes in all\n")
}

#[test]
fn log_to_file() {
    const PATH: &str = "tests/log.txt";
    let session = log2::open(PATH).module(true).tee(true).start();
    let (sink, mut worker, mut handle) = (session.sink, session.worker, session.handle);
    let mut shell = Shell::with_file(PATH);
    shell.drive(&mut worker, Event::Begin, 0);
    log_all(&sink, &handle, &mut shell, &mut worker, &five("log2_file", ""));
    stop(&mut handle, &mut shell, &mut worker);

    let content = shell.text(PATH);
    let lines: Vec<&str> = content.lines().collect();
    assert_eq!(lines.len(), 5);
    assert!(lines[0].ends_with("] [TRACE] [log2_file:1] send order request to server"));
    assert!(lines[1].ends_with("] [DEBUG] [log2_file:2] receive order response"));
    assert!(lines[2].ends_with("] [INFO] [log2_file:3] order was executed"));
    assert!(lines[3].ends_with("] [WARN] [log2_file:4] network speed is slow"));
    assert!(lines[4].ends_with("] [ERROR] [log2_file:5] network connection was broken"));
    assert_eq!(shell.terminal.lines().count(), 5);
    assert!(shell.terminal.ends_with("[log2_file:5] network connection was broken\n"));
    assert_eq!(worker.phase(), Phase::Stopped);
    assert_eq!(shell.files.len(), 1);
}

#[test]
fn module_filter() {
    const PATH: &str = "tests/log_filter.txt";
    let session = log2::open(PATH)
        .tee(true)
        // only log messages from modules that contain "first"
        .module_filter(|module| module.contains("first"))
        .start();
    let (sink, mut worker, mut handle) = (session.sink, session.worker, session.handle);
    let mut shell = Shell::with_file(PATH);
    shell.drive(&mut worker, Event::Begin, 0);

    let first = five("log2_module_filter::module_filter::first_module", "first: ");
    let second = five("log2_module_filter::module_filter::second_module", "second: ");
    log_all(&sink, &handle, &mut shell, &mut worker, &first);
    log_all(&sink, &handle, &mut shell, &mut worker, &second);
    for record in &second {
        assert!(sink.log(true, record).is_empty());
    }
    stop(&mut handle, &mut shell, &mut worker);

    // Read the file to verify its content
    let log_content = shell.text(PATH);
    assert!(!log_content.contains("second:"), "Log module filter did not work");
    assert!(log_content.contains("first: send order request to server"));
    assert!(log_content.contains("first: network connection was broken"));
    assert_eq!(log_content.lines().count(), 5);
    assert!(!shell.terminal.contains("second:"));
    assert_eq!(shell.terminal.lines().count(), 5);
}

#[test]
fn redirect_log_file() {
    const PATH: &str = "tests/log2.txt";
    const REDIRECT: &str = "tests/redirect_log2.txt";
    let session = log2::open(PATH).module(true).tee(true).start();
    let (sink, mut worker, mut log2) = (session.sink, session.worker, session.handle);
    let mut shell = Shell::with_file(PATH);
    shell.drive(&mut worker, Event::Begin, 0);

    log_all(&sink, &log2, &mut shell, &mut worker, &five("log2_redirect", ""));
    let before = shell.text(PATH);

    shell.touch(REDIRECT);
    let redirect = log2.redirect(REDIRECT);
    shell.send(&mut worker, vec![redirect], 0);

    log_all(&sink, &log2, &mut shell, &mut worker, &five("log2_redirect", ""));

    // Check if the file was created
    assert!(shell.files.contains_key(REDIRECT), "{REDIRECT} file was not created");

    // Read the file to verify its content
    let log_content = shell.text(REDIRECT);
    assert!(log_content.contains("network connection was broken"), "Log content does not match");
    assert_eq!(log_content.lines().count(), 5);
    assert_eq!(shell.text(PATH), before);
    assert_eq!(before.lines().count(), 5);
    assert_eq!(worker.path(), REDIRECT);
    stop(&mut log2, &mut shell, &mut worker);
    assert_eq!(shell.text(PATH), before);
}

#[test]
fn redirect_stdout_file() {
    const REDIRECT: &str = "tests/redirect_stdout.txt";
    let session = log2::start();
    let (sink, mut worker, mut log2) = (session.sink, session.worker, session.handle);
    let mut shell = Shell::new();
    shell.drive(&mut worker, Event::Begin, 0);

    log_all(&sink, &log2, &mut shell, &mut worker, &five("log2_redirect_stdout", ""));
    assert!(shell.files.is_empty());
    assert_eq!(shell.terminal.lines().count(), 5);

    shell.touch(REDIRECT);
    let redirect = log2.redirect(REDIRECT);
    assert!(log2.persistent());
    shell.send(&mut worker, vec![redirect], 0);

    log_all(&sink, &log2, &mut shell, &mut worker, &five("log2_redirect_stdout", "file: "));

    // data should be flushed
    let flushes = shell.flushes;
    shell.send(&mut worker, vec![log2.flush()], 0);
    assert_eq!(shell.flushes, flushes + 1);

    // Check if the file was created
    assert!(shell.files.contains_key(REDIRECT), "{REDIRECT} file was not created");

    // Read the file to verify its content
    let log_content = shell.text(REDIRECT);
    assert!(
        log_content.contains("file: network connection was broken"),
        "Log content does not match"
    );
    assert_eq!(log_content.lines().count(), 5);
    assert!(!log_content.contains("] send order request to server"));
    assert_eq!(shell.terminal.lines().count(), 10);
    stop(&mut log2, &mut shell, &mut worker);
}

#[test]
fn log_to_stdout() {
    let session = log2::stdout().module(false).start();
    let (sink, mut worker, mut handle) = (session.sink, session.worker, session.handle);
    let mut shell = Shell::new();
    shell.drive(&mut worker, Event::Begin, 0);
    log_all(&sink, &handle, &mut shell, &mut worker, &five("log2_stdout", ""));
    stop(&mut handle, &mut shell, &mut worker);

    let lines: Vec<&str> = shell.terminal.lines().collect();
    assert_eq!(lines.len(), 5);
    assert!(lines[0].ends_with(" send order request to server"));
    assert!(lines[4].ends_with(" network connection was broken"));
    assert!(!shell.terminal.contains("log2_stdout"));
    assert!(shell.files.is_empty());
    assert_eq!(worker.phase(), Phase::Stopped);
}

#[test]
fn five_lines_rotate_once() {
    let (mut shell, mut worker) = stream("name.ext", 100, 3, false);
    let lines: Vec<String> = (1..=5).map(line).collect();
    for text in &lines {
        assert_eq!(text.len(), 40);
        write(&mut shell, &mut worker, text);
    }
    assert_eq!(shell.rotations, 1);
    assert!(shell.text("name.ext").contains(lines[4].as_str()));
    assert_eq!(shell.text("name.ext"), format!("{}{}", lines[3], lines[4]));
    assert_eq!(shell.text("name.1.ext"), format!("{}{}{}", lines[0], lines[1], lines[2]));
    assert!(shell.text("name.1.ext").contains(lines[2].as_str()));
    assert!(shell.files.len() <= 3);
    assert_eq!(shell.files.len(), 2);
    assert_eq!(worker.size(), 80);
}

#[test]
fn writes_keep_their_order() {
    let (mut shell, mut worker) = stream("order.log", 1 << 20, 10, false);
    let mut expected = String::new();
    let mut echoed = String::new();
    for n in 0..50 {
        let text = line(n);
        expected.push_str(&text);
        write(&mut shell, &mut worker, &text);
        let echo = format!("echo {n}\n");
        echoed.push_str(&echo);
        shell.drive(&mut worker, Event::Received(Command::WriteTerminal(echo)), 0);
    }
    assert_eq!(shell.text("order.log"), expected);
    assert_eq!(shell.terminal, echoed);
    assert_eq!(shell.rotations, 0);
    assert_eq!(worker.size(), 2000);
}

#[test]
fn rotations_fill_the_slots_one_by_one() {
    let count = 4;
    let (mut shell, mut worker) = stream("app.log", 100, count, false);
    let mut last_full = String::new();
    let mut live = String::new();
    for n in 0..40 {
        let text = line(n);
        live.push_str(&text);
        write(&mut shell, &mut worker, &text);
        if live.len() >= 100 {
            last_full = live.clone();
            live.clear();
        }
        let k = shell.rotations;
        assert_eq!(shell.files.len(), std::cmp::min(k + 1, count));
        assert!(worker.size() < 100);
        assert_eq!(shell.text("app.log"), live);
        if k > 0 {
            assert_eq!(shell.text("app.1.log"), last_full);
        }
    }
    assert_eq!(shell.rotations, 13);
    let names: Vec<&str> = shell.files.keys().map(|name| name.as_str()).collect();
    assert_eq!(names, vec!["app.1.log", "app.2.log", "app.3.log", "app.log"]);
}

#[test]
fn generations_read_oldest_first_give_what_was_written() {
    let (mut shell, mut worker) = stream("h.log", 100, 5, false);
    let mut written = String::new();
    for n in 0..12 {
        let text = line(n);
        written.push_str(&text);
        write(&mut shell, &mut worker, &text);
        let mut history = String::new();
        for name in ["h.4.log", "h.3.log", "h.2.log", "h.1.log", "h.log"] {
            if shell.files.contains_key(name) {
                history.push_str(&shell.text(name));
            }
        }
        assert_eq!(history, written);
    }
    assert_eq!(shell.rotations, 4);
    // the stream is full: the next rotation drops the oldest three lines
    for n in 12..15 {
        write(&mut shell, &mut worker, &line(n));
    }
    assert_eq!(shell.rotations, 5);
    assert_eq!(shell.files.len(), 5);
    assert_eq!(shell.text("h.4.log"), format!("{}{}{}", line(3), line(4), line(5)));
}

#[test]
fn a_stream_that_ends_in_gz_ages_like_any_other() {
    let (mut shell, mut worker) = stream("pack.gz", 100, 4, true);
    for n in 0..12 {
        write(&mut shell, &mut worker, &line(n));
        assert!(shell.files.len() <= 4);
    }
    assert_eq!(shell.rotations, 4);
    let names: Vec<&str> = shell.files.keys().map(|name| name.as_str()).collect();
    assert_eq!(names, vec!["pack.1.gz.gz", "pack.2.gz.gz", "pack.3.gz.gz", "pack.gz"]);
    let newest = format!("{}{}{}", line(9), line(10), line(11));
    let oldest = format!("{}{}{}", line(3), line(4), line(5));
    assert_eq!(gunzip(&shell.files["pack.1.gz.gz"]), newest.as_bytes());
    assert_eq!(gunzip(&shell.files["pack.3.gz.gz"]), oldest.as_bytes());
    assert_eq!(shell.text("pack.gz"), "");
}

#[test]
fn retention_never_exceeds_the_count() {
    for count in 2..6 {
        for compression in [false, true] {
            let (mut shell, mut worker) = stream("dir/cap.txt", 64, count, compression);
            for n in 0..200 {
                write(&mut shell, &mut worker, &line(n));
                assert!(shell.files.len() <= count);
            }
            assert_eq!(shell.files.len(), count);
            assert_eq!(shell.rotations, 100);
        }
    }
}

#[test]
fn aged_files_are_compressed_once() {
    let (mut shell, mut worker) = stream("z.log", 100, 3, true);
    let lines: Vec<String> = (0..9).map(line).collect();
    for text in &lines {
        write(&mut shell, &mut worker, text);
    }
    assert_eq!(shell.rotations, 3);
    let names: Vec<&str> = shell.files.keys().map(|name| name.as_str()).collect();
    assert_eq!(names, vec!["z.1.log.gz", "z.2.log.gz", "z.log"]);
    let newest = format!("{}{}{}", lines[6], lines[7], lines[8]);
    let older = format!("{}{}{}", lines[3], lines[4], lines[5]);
    assert_eq!(gunzip(&shell.files["z.1.log.gz"]), newest.as_bytes());
    assert_eq!(gunzip(&shell.files["z.2.log.gz"]), older.as_bytes());
    assert_ne!(shell.files["z.1.log.gz"], newest.as_bytes());
    assert_eq!(shell.text("z.log"), "");
}

#[test]
fn plain_aged_files_are_renamed_copies() {
    let (mut shell, mut worker) = stream("p.log", 100, 3, false);
    let lines: Vec<String> = (0..6).map(line).collect();
    for text in &lines {
        write(&mut shell, &mut worker, text);
    }
    assert_eq!(shell.text("p.1.log"), format!("{}{}{}", lines[3], lines[4], lines[5]));
    assert_eq!(shell.text("p.2.log"), format!("{}{}{}", lines[0], lines[1], lines[2]));
    assert!(!shell.files.keys().any(|name| name.ends_with(".gz")));
}

#[test]
fn a_full_file_is_rotated_at_the_start() {
    let mut shell = Shell::new();
    shell.files.insert("boot.log".to_string(), vec![b'x'; 150]);
    shell.files.insert("other.txt".to_string(), vec![b'o'; 500]);
    let mut worker = Worker::new(Context {
        path: "boot.log".to_string(),
        size: 100,
        count: 2,
        compression: false,
    });
    shell.drive(&mut worker, Event::Begin, 7);
    assert_eq!(shell.files["boot.1.log"], vec![b'x'; 150]);
    assert_eq!(shell.files["boot.log"], Vec::<u8>::new());
    assert_eq!(shell.files["other.txt"], vec![b'o'; 500]);
    assert_eq!(worker.size(), 0);
    assert!(worker.is_open());
    assert_eq!(worker.stage(), Stage::Waiting);
}

#[test]
fn a_file_below_the_threshold_is_kept_at_the_start() {
    let mut shell = Shell::new();
    shell.files.insert("keep.log".to_string(), vec![b'x'; 99]);
    let mut worker = Worker::new(Context {
        path: "keep.log".to_string(),
        size: 100,
        count: 5,
        compression: true,
    });
    shell.drive(&mut worker, Event::Begin, 0);
    assert_eq!(shell.files.len(), 1);
    assert_eq!(worker.size(), 99);
    write(&mut shell, &mut worker, "y");
    assert_eq!(shell.rotations, 1);
    let mut whole = vec![b'x'; 99];
    whole.push(b'y');
    assert_eq!(gunzip(&shell.files["keep.1.log.gz"]), whole);
}

#[test]
fn one_generation_never_rotates() {
    let session = log2::open("single.log").size(10).rotate(1).start();
    let mut worker = session.worker;
    let mut shell = Shell::with_file("single.log");
    shell.drive(&mut worker, Event::Begin, 0);
    for n in 0..20 {
        write(&mut shell, &mut worker, &line(n));
    }
    assert_eq!(shell.rotations, 0);
    assert_eq!(shell.files.len(), 1);
    assert_eq!(shell.files["single.log"].len(), 800);
}

#[test]
fn a_threshold_of_zero_rotates_on_every_write() {
    let (mut shell, mut worker) = stream("zero.log", 0, 3, false);
    assert_eq!(shell.rotations, 1);
    write(&mut shell, &mut worker, "a\n");
    write(&mut shell, &mut worker, "b\n");
    assert_eq!(shell.rotations, 3);
    assert_eq!(shell.text("zero.log"), "");
    assert_eq!(shell.text("zero.1.log"), "b\n");
    assert_eq!(shell.text("zero.2.log"), "a\n");
}

#[test]
fn a_terminal_only_sink_creates_no_file() {
    let session = log2::stdout().start();
    let (sink, mut worker, mut handle) = (session.sink, session.worker, session.handle);
    let mut shell = Shell::new();
    assert_eq!(worker.phase(), Phase::Uninitialized);
    assert_eq!(shell.drive(&mut worker, Event::Begin, 0), 0);
    assert_eq!(worker.phase(), Phase::Running);
    for record in five("quiet", "") {
        let commands = sink.log(handle.persistent(), &record);
        assert_eq!(commands.len(), 1);
        assert!(matches!(commands[0], Command::WriteTerminal(_)));
        shell.send(&mut worker, commands, 0);
        shell.drive(&mut worker, Event::TimedOut, 1);
        shell.send(&mut worker, vec![sink.flush()], 2);
    }
    stop(&mut handle, &mut shell, &mut worker);
    assert!(shell.files.is_empty());
    assert_eq!(shell.flushes, 0);
    assert!(!worker.is_open());
}

#[test]
fn exit_flushes_and_stops() {
    let (mut shell, mut worker) = stream("end.log", 1000, 3, false);
    write(&mut shell, &mut worker, "one\n");
    write(&mut shell, &mut worker, "two\n");
    assert_eq!(shell.flushes, 0);
    let request = worker.step(Event::Received(Command::Exit), 0);
    assert!(matches!(request, Request::Flush));
    assert_eq!(worker.phase(), Phase::Draining);
    let request = worker.step(Event::Done, 0);
    assert!(matches!(request, Request::Halt));
    assert_eq!(worker.phase(), Phase::Stopped);
    assert_eq!(shell.text("end.log"), "one\ntwo\n");
    let request = worker.step(Event::Received(Command::WriteFile("late\n".to_string())), 0);
    assert!(matches!(request, Request::Halt));
    assert_eq!(worker.phase(), Phase::Stopped);
}

#[test]
fn stop_is_idempotent() {
    let session = log2::open("idem.log").start();
    let mut handle = session.handle;
    assert!(handle.is_running());
    assert!(matches!(handle.stop(), Some(Command::Exit)));
    assert!(!handle.is_running());
    assert!(handle.stop().is_none());
    assert!(handle.stop().is_none());
    assert!(handle.persistent());
}

#[test]
fn redirect_switches_files() {
    let (mut shell, mut worker) = stream("a.log", 1000, 3, false);
    write(&mut shell, &mut worker, "before\n");
    shell.touch("sub/b.log");
    shell.drive(&mut worker, Event::Received(Command::Redirect("sub/b.log".to_string())), 0);
    assert_eq!(worker.path(), "sub/b.log");
    assert_eq!(shell.handle.as_deref(), Some("sub/b.log"));
    write(&mut shell, &mut worker, "after\n");
    shell.drive(&mut worker, Event::Received(Command::Exit), 0);
    assert_eq!(shell.text("a.log"), "before\n");
    assert_eq!(shell.text("sub/b.log"), "after\n");
    assert_eq!(shell.flushes, 1);
    assert_eq!(shell.handle, None);
}

#[test]
fn redirect_to_a_missing_file_creates_it() {
    let (mut shell, mut worker) = stream("a.log", 1000, 3, false);
    write(&mut shell, &mut worker, "kept\n");
    shell.drive(&mut worker, Event::Received(Command::Redirect("gone.log".to_string())), 0);
    assert_eq!(worker.phase(), Phase::Running);
    assert_eq!(worker.stage(), Stage::Waiting);
    assert!(worker.is_open());
    assert_eq!(worker.size(), 0);
    assert_eq!(shell.text("gone.log"), "");
    assert_eq!(shell.terminal, "");
    assert_eq!(shell.handle.as_deref(), Some("gone.log"));
    write(&mut shell, &mut worker, "found\n");
    assert_eq!(shell.text("gone.log"), "found\n");
    assert_eq!(shell.text("a.log"), "kept\n");
}

#[test]
fn a_missing_file_is_created_at_the_start() {
    let mut shell = Shell::new();
    shell.files.insert("lost.1.log".to_string(), b"old".to_vec());
    let mut worker = Worker::new(Context {
        path: "lost.log".to_string(),
        size: 100,
        count: 3,
        compression: false,
    });
    let request = worker.step(Event::Begin, 0);
    assert!(matches!(request, Request::Measure(path) if path == "lost.log"));
    // nothing is there: the length counts as 0 and nothing is moved
    let request = worker.step(Event::Length(0), 0);
    assert!(matches!(request, Request::Open(path) if path == "lost.log"));
    let mut shell_worker = Worker::new(Context {
        path: "lost.log".to_string(),
        size: 100,
        count: 3,
        compression: false,
    });
    shell.drive(&mut shell_worker, Event::Begin, 0);
    assert_eq!(shell_worker.stage(), Stage::Waiting);
    assert!(shell_worker.is_open());
    assert_eq!(shell.text("lost.log"), "");
    assert_eq!(shell.files["lost.1.log"], b"old");
    assert_eq!(shell.files.len(), 2);
    assert_eq!(shell.terminal, "");
}

#[test]
fn a_failed_measure_stops_the_worker() {
    let mut worker = Worker::new(Context {
        path: "denied.log".to_string(),
        size: 100,
        count: 3,
        compression: false,
    });
    assert!(matches!(worker.step(Event::Begin, 0), Request::Measure(_)));
    let request = worker.step(Event::Failed("permission denied".to_string()), 0);
    assert!(matches!(request, Request::Print(text) if text == "error: permission denied\n"));
    assert!(matches!(worker.step(Event::Done, 0), Request::Halt));
    assert_eq!(worker.phase(), Phase::Stopped);
}

#[test]
fn a_write_without_a_file_stops_the_worker() {
    let mut worker = Worker::new(Context {
        path: String::new(),
        size: 100,
        count: 3,
        compression: false,
    });
    assert!(matches!(worker.step(Event::Begin, 0), Request::Receive));
    let request = worker.step(Event::Received(Command::WriteFile("x".to_string())), 0);
    assert!(matches!(request, Request::Halt));
    assert_eq!(worker.stage(), Stage::Stopped);
}

#[test]
fn a_failed_request_stops_the_worker() {
    let (_, mut worker) = stream("f.log", 1000, 3, false);
    let request = worker.step(Event::Received(Command::WriteFile("x".to_string())), 0);
    assert!(matches!(request, Request::Append(text) if text == "x"));
    assert_eq!(worker.stage(), Stage::Appending(1));
    let request = worker.step(Event::Failed("disk full".to_string()), 0);
    assert!(matches!(request, Request::Print(text) if text == "error: disk full\n"));
    assert_eq!(worker.stage(), Stage::Failing);
    assert_eq!(worker.phase(), Phase::Running);
    assert!(!worker.is_open());
    assert!(matches!(worker.step(Event::Done, 0), Request::Halt));
    assert_eq!(worker.phase(), Phase::Stopped);
    assert!(matches!(worker.step(Event::Failed("again".to_string()), 0), Request::Halt));
}

#[test]
fn a_failure_during_the_report_stops_at_once() {
    let (_, mut worker) = stream("g.log", 1000, 3, false);
    assert!(matches!(worker.step(Event::Failed("first".to_string()), 0), Request::Print(_)));
    assert!(matches!(worker.step(Event::Failed("second".to_string()), 0), Request::Halt));
    assert_eq!(worker.stage(), Stage::Stopped);
}

#[test]
fn an_unexpected_event_stops_the_worker() {
    let (_, mut worker) = stream("u.log", 1000, 3, false);
    assert!(matches!(worker.step(Event::Opened(3), 0), Request::Halt));
    assert_eq!(worker.phase(), Phase::Stopped);
}

#[test]
fn the_periodic_flush_waits_for_growth_and_time() {
    let (mut shell, mut worker) = stream("tick.log", 1000, 3, false);
    // opened at time 0 with nothing written: no flush, however late it is
    shell.drive(&mut worker, Event::TimedOut, 50);
    assert_eq!(shell.flushes, 0);
    // grown, but within the same time unit as the last flush mark
    shell.drive(&mut worker, Event::Received(Command::WriteFile("abc".to_string())), 0);
    assert_eq!(shell.flushes, 0);
    // grown and one time unit later
    shell.drive(&mut worker, Event::TimedOut, 1);
    assert_eq!(shell.flushes, 1);
    assert_eq!(worker.stage(), Stage::Waiting);
    // not grown since
    shell.drive(&mut worker, Event::TimedOut, 9);
    assert_eq!(shell.flushes, 1);
    // grown again: flushed right after the write, since time has passed
    shell.drive(&mut worker, Event::Received(Command::WriteFile("d".to_string())), 9);
    assert_eq!(shell.flushes, 2);
    // grown, but in the time unit of the last flush
    shell.drive(&mut worker, Event::Received(Command::WriteFile("e".to_string())), 9);
    assert_eq!(shell.flushes, 2);
    // a clock that runs backwards never flushes
    shell.drive(&mut worker, Event::Received(Command::WriteFile("f".to_string())), 3);
    assert_eq!(shell.flushes, 2);
    shell.drive(&mut worker, Event::TimedOut, 10);
    assert_eq!(shell.flushes, 3);
}

#[test]
fn an_explicit_flush_reaches_the_open_file() {
    let (mut shell, mut worker) = stream("fl.log", 1000, 3, false);
    let request = worker.step(Event::Received(Command::Flush), 0);
    assert!(matches!(request, Request::Flush));
    assert_eq!(worker.stage(), Stage::Flushing);
    assert!(matches!(worker.step(Event::Done, 0), Request::Receive));
    shell.drive(&mut worker, Event::Received(Command::Flush), 0);
    assert_eq!(shell.flushes, 1);
}

#[test]
fn the_measured_length_decides_the_rotation() {
    let (_, mut worker) = stream("m.log", 10, 3, false);
    let text = "twelve bytes".to_string();
    assert!(matches!(worker.step(Event::Received(Command::WriteFile(text)), 0), Request::Append(_)));
    // the counted size has reached the threshold: the file is measured
    let request = worker.step(Event::Done, 0);
    assert!(matches!(request, Request::Measure(path) if path == "m.log"));
    assert!(!worker.is_open());
    // the file on disk turns out to be shorter: nothing is moved
    let request = worker.step(Event::Length(4), 0);
    assert!(matches!(request, Request::Open(path) if path == "m.log"));
    assert!(matches!(worker.step(Event::Opened(4), 0), Request::Receive));
    assert_eq!(worker.size(), 4);
    assert!(worker.is_open());
}

#[test]
fn the_size_starts_from_what_the_fresh_file_holds() {
    let (_, mut worker) = stream("r.log", 10, 3, false);
    let text = "twelve bytes".to_string();
    assert!(matches!(worker.step(Event::Received(Command::WriteFile(text)), 0), Request::Append(_)));
    assert!(matches!(worker.step(Event::Done, 0), Request::Measure(_)));
    let request = worker.step(Event::Length(12), 0);
    match request {
        Request::Shift(steps) => assert_eq!(steps.len(), 2),
        _ => panic!("a rotation was due"),
    }
    assert_eq!(worker.stage(), Stage::Shifting(false));
    assert!(matches!(worker.step(Event::Done, 0), Request::Open(_)));
    // another writer was faster: the fresh file already holds seven bytes
    assert!(matches!(worker.step(Event::Opened(7), 0), Request::Receive));
    assert_eq!(worker.size(), 7);
}

#[test]
fn sizes_count_bytes_not_characters() {
    let (mut shell, mut worker) = stream("utf.log", 1000, 3, false);
    write(&mut shell, &mut worker, "héllo wörld ✓\n");
    assert_eq!(worker.size(), 18);
    assert_eq!(shell.files["utf.log"].len(), 18);
}

#[test]
fn files_beside_the_stream_are_left_alone() {
    let (mut shell, mut worker) = stream("logs/app.log", 50, 3, true);
    shell.files.insert("logs/app.7.log.gz".to_string(), b"stray".to_vec());
    shell.files.insert("logs/app.log.bak".to_string(), b"backup".to_vec());
    shell.files.insert("logs/other.1.log".to_string(), b"other".to_vec());
    for n in 0..30 {
        write(&mut shell, &mut worker, &line(n));
    }
    assert_eq!(shell.files["logs/app.7.log.gz"], b"stray");
    assert_eq!(shell.files["logs/app.log.bak"], b"backup");
    assert_eq!(shell.files["logs/other.1.log"], b"other");
    assert_eq!(shell.files.len(), 3 + 3);
}
