//! What the loop of worker and caller does with each arrival, in closed
//! form, and what follows for whole runs: order, confinement to the
//! stream's own files, redirection and shutdown.

use crate::files::{lemma_moves_confined, opened, perform_all, same_at, touches};
use crate::retention::{
    aged, encoder_works, filled, generation, history, is_generation,
    lemma_failed_compression_keeps_live, lemma_filled_survives_write, lemma_history_grows,
    lemma_moves_touch_generations, lemma_rotation_fills, lemma_rotation_keeps_history,
    lemma_rotation_shifts, packs, rotated, slot_shifted, top_after_one,
};
use crate::rotation::{descending, rotation};
use crate::worker::{
    clip, failure_line, flush_due, fresh, pause, reopen, step, CommandView, EventView, Stage,
    WorkerView,
};
use crate::world::{length_at, rank, run, settle, Arrival, World};
use vstd::prelude::*;
use vstd::utf8::encode_utf8;

verus! {

/// Each step of the worker ends in a wait, in the halt, or in a stage that
/// is nearer to the next wait: the loop up to the next wait is finite.
pub proof fn lemma_step_descends(w: WorkerView, event: EventView, now: u64)
    ensures
        ({
            let (next, request) = step(w, event, now);
            &&& request is Receive <==> next.stage == Stage::Waiting
            &&& request is Halt <==> next.stage == Stage::Stopped
            &&& !(request is Receive) && !(request is Halt) ==> rank(next.stage) < rank(w.stage)
        }),
{
}

/// Whether the worker holds no file while it measures, moves and opens,
/// before its start and after its end.
pub open spec fn closed_while_rotating(w: WorkerView) -> bool {
    match w.stage {
        Stage::Uninitialized
        | Stage::Measuring(_)
        | Stage::Shifting(_)
        | Stage::Opening(_)
        | Stage::Failing
        | Stage::Stopped => !w.open,
        _ => true,
    }
}

/// The worker owns one file at a time: it has given up the old file before
/// it asks for files to be measured, moved or opened, and before it
/// leaves the loop.
pub proof fn lemma_one_file_at_a_time(w: WorkerView, event: EventView, now: u64)
    requires
        closed_while_rotating(w),
    ensures
        ({
            let (next, request) = step(w, event, now);
            &&& closed_while_rotating(next)
            &&& (request is Measure || request is Shift || request is Open || request is Halt)
                ==> !next.open
        }),
{
}

/// Whether the worker's record of its open file agrees with the world.
pub open spec fn coherent(w: WorkerView, world: World) -> bool {
    if w.open {
        &&& world.handle == Some(w.path)
        &&& world.files.contains_key(w.path)
        &&& w.size == clip(world.files[w.path].len() as int)
    } else {
        world.handle is None
    }
}

/// Worker and world at the next wait, after the periodic flush where one
/// is due.
pub open spec fn paused(w: WorkerView, world: World, now: u64) -> (WorkerView, World) {
    if flush_due(w, now) {
        (
            WorkerView { stage: Stage::Waiting, last: w.size, ts: now, ..w },
            World { dirty: false, ..world },
        )
    } else {
        (WorkerView { stage: Stage::Waiting, ..w }, world)
    }
}

/// Worker and world at the next wait, after a rotation check of the
/// worker's path and the opening of the live file.
pub open spec fn reopened(w: WorkerView, world: World, first: bool, now: u64) -> (
    WorkerView,
    World,
) {
    let length = length_at(world.files, w.path);
    let moves = rotation(w.path, w.threshold, w.count, w.compression, length);
    let files = opened(perform_all(world.files, moves), w.path);
    let ready = WorkerView { open: true, size: clip(files[w.path].len() as int), ..w };
    let after = World { files, handle: Some(w.path), dirty: false, ..world };
    if first {
        (WorkerView { stage: Stage::Waiting, ts: now, ..ready }, after)
    } else {
        paused(ready, after, now)
    }
}

proof fn lemma_settle_pause(w: WorkerView, world: World, event: EventView, now: u64)
    requires
        step(w, event, now) == pause(w, now),
        rank(w.stage) > 4,
    ensures
        settle(w, world, event, now) == paused(w, world, now),
{
    reveal_with_fuel(settle, 2);
}

proof fn lemma_settle_reopen(
    w: WorkerView,
    world: World,
    event: EventView,
    base: WorkerView,
    first: bool,
    now: u64,
)
    requires
        step(w, event, now) == reopen(base, first),
        rank(w.stage) > 8,
    ensures
        settle(w, world, event, now) == reopened(
            WorkerView { open: false, ..base },
            World { handle: None, dirty: false, ..world },
            first,
            now,
        ),
{
    reveal_with_fuel(settle, 6);
}

/// Worker and world after the worker has left the loop.
pub open spec fn stopped(w: WorkerView, world: World) -> (WorkerView, World) {
    (
        WorkerView { stage: Stage::Stopped, open: false, ..w },
        World { handle: None, dirty: false, ..world },
    )
}

/// Worker and world at the next wait after `text` went to the open file:
/// its bytes stand at the end of the live file, and where the file has
/// reached the threshold it was rotated and opened afresh.
pub open spec fn written(w: WorkerView, world: World, text: Seq<char>, now: u64) -> (
    WorkerView,
    World,
) {
    let files = world.files.insert(w.path, world.files[w.path] + encode_utf8(text));
    let grown = WorkerView { size: clip(files[w.path].len() as int), ..w };
    let wet = World { files, dirty: true, ..world };
    if grown.size >= w.threshold {
        reopened(
            WorkerView { open: false, ..grown },
            World { handle: None, dirty: false, ..wet },
            false,
            now,
        )
    } else {
        paused(grown, wet, now)
    }
}

/// Worker and world after one arrival at the waiting worker, up to the
/// next wait or to the halt.
pub open spec fn arrived(w: WorkerView, world: World, event: EventView, now: u64) -> (
    WorkerView,
    World,
) {
    match event {
        EventView::Received(CommandView::WriteFile(text)) => if w.open {
            written(w, world, text, now)
        } else {
            stopped(w, world)
        },
        EventView::Received(CommandView::WriteTerminal(text)) => paused(
            w,
            World { terminal: world.terminal + text, ..world },
            now,
        ),
        EventView::Received(CommandView::Flush) => if w.open {
            paused(w, World { dirty: false, ..world }, now)
        } else {
            paused(w, world, now)
        },
        EventView::Received(CommandView::Redirect(path)) => reopened(
            WorkerView { path, open: false, ..w },
            World { handle: None, dirty: false, ..world },
            false,
            now,
        ),
        EventView::Failed(reason) => stopped(
            w,
            World { terminal: world.terminal + failure_line(reason), ..world },
        ),
        EventView::TimedOut => paused(w, world, now),
        _ => stopped(w, world),
    }
}

proof fn lemma_clip_adds(a: int, b: int)
    requires
        a >= 0,
        b >= 0,
    ensures
        clip(clip(a) + clip(b)) == clip(a + b),
{
}

/// The loop, from one arrival at the waiting worker to the next wait, does
/// what `arrived` says.
pub proof fn lemma_arrival(w: WorkerView, world: World, event: EventView, now: u64)
    requires
        w.stage == Stage::Waiting,
        coherent(w, world),
    ensures
        settle(w, world, event, now) == arrived(w, world, event, now),
{
    match event {
        EventView::Received(CommandView::WriteFile(text)) => {
            if w.open {
                reveal_with_fuel(settle, 2);
                let bytes = encode_utf8(text);
                let n = clip(bytes.len() as int);
                let w1 = WorkerView { stage: Stage::Appending(n), ..w };
                let files = world.files.insert(w.path, world.files[w.path] + bytes);
                let wet = World { files, dirty: true, ..world };
                lemma_clip_adds(world.files[w.path].len() as int, bytes.len() as int);
                let grown = WorkerView { size: clip(files[w.path].len() as int), ..w1 };
                if grown.size >= w.threshold {
                    lemma_settle_reopen(w1, wet, EventView::Done, grown, false, now);
                } else {
                    reveal_with_fuel(settle, 3);
                }
            } else {
                reveal_with_fuel(settle, 2);
            }
        },
        EventView::Received(CommandView::WriteTerminal(text)) => {
            reveal_with_fuel(settle, 4);
        },
        EventView::Received(CommandView::Flush) => {
            reveal_with_fuel(settle, 4);
        },
        EventView::Received(CommandView::Redirect(path)) => {
            lemma_settle_reopen(w, world, event, WorkerView { path, ..w }, false, now);
        },
        EventView::Received(CommandView::Exit) => {
            reveal_with_fuel(settle, 4);
        },
        EventView::TimedOut => {
            lemma_settle_pause(w, world, event, now);
        },
        _ => {
            reveal_with_fuel(settle, 3);
        },
    }
}

/// A worker that has left the loop stays out of it.
pub proof fn lemma_stopped_stays(w: WorkerView, world: World, event: EventView, now: u64)
    requires
        w.stage == Stage::Stopped,
    ensures
        settle(w, world, event, now) == stopped(w, world),
{
}

/// After an arrival the worker waits again or has stopped, and while it
/// waits its record of the open file agrees with the world.
pub proof fn lemma_arrival_coherent(w: WorkerView, world: World, event: EventView, now: u64)
    requires
        w.stage == Stage::Waiting,
        coherent(w, world),
    ensures
        ({
            let (next, after) = arrived(w, world, event, now);
            &&& next.stage == Stage::Waiting || next.stage == Stage::Stopped
            &&& coherent(next, after)
        }),
{
}

/// What the arrival writes to the terminal.
pub open spec fn echo(event: EventView) -> Seq<char> {
    match event {
        EventView::Received(CommandView::WriteTerminal(text)) => text,
        _ => Seq::empty(),
    }
}

/// What the arrivals write to the terminal, in their order.
pub open spec fn echoed(arrivals: Seq<Arrival>) -> Seq<char>
    decreases arrivals.len(),
{
    if arrivals.len() == 0 {
        Seq::empty()
    } else {
        echoed(arrivals.drop_last()) + echo(arrivals.last().event)
    }
}

/// What the arrival appends to the live file.
pub open spec fn log_bytes(event: EventView) -> Seq<u8> {
    match event {
        EventView::Received(CommandView::WriteFile(text)) => encode_utf8(text),
        _ => Seq::empty(),
    }
}

/// What the arrivals append to the live file, in their order.
pub open spec fn logged(arrivals: Seq<Arrival>) -> Seq<u8>
    decreases arrivals.len(),
{
    if arrivals.len() == 0 {
        Seq::empty()
    } else {
        logged(arrivals.drop_last()) + log_bytes(arrivals.last().event)
    }
}

/// Whether the arrival keeps the worker in its loop and at its path: a
/// write, a flush or the end of a wait.
pub open spec fn plain(event: EventView) -> bool {
    match event {
        EventView::Received(CommandView::WriteFile(_)) => true,
        EventView::Received(CommandView::WriteTerminal(_)) => true,
        EventView::Received(CommandView::Flush) => true,
        EventView::TimedOut => true,
        _ => false,
    }
}

/// Whether all the arrivals are plain.
pub open spec fn all_plain(arrivals: Seq<Arrival>) -> bool {
    forall|k: int| 0 <= k < arrivals.len() ==> plain(#[trigger] arrivals[k].event)
}

proof fn lemma_plain_prefix(arrivals: Seq<Arrival>)
    requires
        all_plain(arrivals),
        arrivals.len() > 0,
    ensures
        all_plain(arrivals.drop_last()),
        plain(arrivals.last().event),
{
    let rest = arrivals.drop_last();
    assert forall|k: int| 0 <= k < rest.len() implies plain(#[trigger] rest[k].event) by {
        assert(rest[k] == arrivals[k]);
    }
    assert(plain(arrivals[arrivals.len() - 1].event));
}

/// A run from the waiting worker ends with the worker waiting or stopped,
/// and its record of the open file agrees with the world throughout.
pub proof fn lemma_run_coherent(w: WorkerView, world: World, arrivals: Seq<Arrival>)
    requires
        w.stage == Stage::Waiting || w.stage == Stage::Stopped,
        coherent(w, world),
    ensures
        ({
            let (next, after) = run(w, world, arrivals);
            &&& next.stage == Stage::Waiting || next.stage == Stage::Stopped
            &&& coherent(next, after)
        }),
    decreases arrivals.len(),
{
    if arrivals.len() > 0 {
        lemma_run_coherent(w, world, arrivals.drop_last());
        let (before, then) = run(w, world, arrivals.drop_last());
        let last = arrivals.last();
        if before.stage == Stage::Waiting {
            lemma_arrival(before, then, last.event, last.now);
            lemma_arrival_coherent(before, then, last.event, last.now);
        } else {
            lemma_stopped_stays(before, then, last.event, last.now);
        }
    }
}

/// A worker that waits after a run has waited before each of its arrivals.
pub proof fn lemma_run_waited(w: WorkerView, world: World, arrivals: Seq<Arrival>)
    requires
        w.stage == Stage::Waiting || w.stage == Stage::Stopped,
        coherent(w, world),
        arrivals.len() > 0,
        run(w, world, arrivals).0.stage == Stage::Waiting,
    ensures
        run(w, world, arrivals.drop_last()).0.stage == Stage::Waiting,
{
    lemma_run_coherent(w, world, arrivals.drop_last());
    let (before, then) = run(w, world, arrivals.drop_last());
    if before.stage == Stage::Stopped {
        lemma_stopped_stays(before, then, arrivals.last().event, arrivals.last().now);
    }
}

/// While the worker is in its loop, the terminal holds the texts of the
/// terminal writes in the order of their arrival, each of them whole and
/// none of them twice.
pub proof fn lemma_terminal_in_order(w: WorkerView, world: World, arrivals: Seq<Arrival>)
    requires
        w.stage == Stage::Waiting,
        coherent(w, world),
        run(w, world, arrivals).0.stage == Stage::Waiting,
    ensures
        run(w, world, arrivals).1.terminal == world.terminal + echoed(arrivals),
    decreases arrivals.len(),
{
    if arrivals.len() > 0 {
        let rest = arrivals.drop_last();
        let last = arrivals.last();
        lemma_run_waited(w, world, arrivals);
        lemma_run_coherent(w, world, rest);
        lemma_terminal_in_order(w, world, rest);
        let (before, then) = run(w, world, rest);
        lemma_arrival(before, then, last.event, last.now);
        assert(arrived(before, then, last.event, last.now).1.terminal == then.terminal + echo(
            last.event,
        ));
    }
}

/// Plain arrivals never stop the worker that holds an open file, and never
/// change its path.
pub proof fn lemma_plain_run_waits(w: WorkerView, world: World, arrivals: Seq<Arrival>)
    requires
        w.stage == Stage::Waiting,
        coherent(w, world),
        w.open,
        all_plain(arrivals),
    ensures
        ({
            let (next, after) = run(w, world, arrivals);
            &&& next.stage == Stage::Waiting
            &&& next.open
            &&& next.path == w.path
            &&& next.threshold == w.threshold
            &&& next.count == w.count
            &&& next.compression == w.compression
            &&& coherent(next, after)
        }),
    decreases arrivals.len(),
{
    if arrivals.len() > 0 {
        let rest = arrivals.drop_last();
        let last = arrivals.last();
        lemma_plain_prefix(arrivals);
        lemma_plain_run_waits(w, world, rest);
        let (before, then) = run(w, world, rest);
        lemma_arrival(before, then, last.event, last.now);
    }
}

/// An exit that arrives at the waiting worker stops it after a flush, and
/// loses nothing of what the run before it has written to the files and to
/// the terminal.
pub proof fn lemma_exit_keeps_all(w: WorkerView, world: World, arrivals: Seq<Arrival>, now: u64)
    requires
        w.stage == Stage::Waiting,
        coherent(w, world),
        run(w, world, arrivals).0.stage == Stage::Waiting,
    ensures
        ({
            let (before, then) = run(w, world, arrivals);
            let exit = Arrival { event: EventView::Received(CommandView::Exit), now };
            let (end, after) = run(w, world, arrivals.push(exit));
            &&& end.stage == Stage::Stopped
            &&& after.files == then.files
            &&& after.terminal == world.terminal + echoed(arrivals)
            &&& !after.dirty
            &&& after.handle is None
        }),
{
    let exit = Arrival { event: EventView::Received(CommandView::Exit), now };
    let all = arrivals.push(exit);
    assert(all.drop_last() =~= arrivals);
    lemma_run_coherent(w, world, arrivals);
    lemma_terminal_in_order(w, world, arrivals);
    let (before, then) = run(w, world, arrivals);
    lemma_arrival(before, then, exit.event, now);
}

/// While the live file stays below the threshold, it holds what it held
/// before and, after that, the bytes of the file writes in the order of
/// their arrival.
pub proof fn lemma_file_in_order(w: WorkerView, world: World, arrivals: Seq<Arrival>)
    requires
        w.stage == Stage::Waiting,
        coherent(w, world),
        w.open,
        all_plain(arrivals),
        world.files[w.path].len() + logged(arrivals).len() <= u64::MAX,
        world.files[w.path].len() + logged(arrivals).len() < w.threshold,
    ensures
        run(w, world, arrivals).1.files == world.files.insert(
            w.path,
            world.files[w.path] + logged(arrivals),
        ),
    decreases arrivals.len(),
{
    if arrivals.len() > 0 {
        let rest = arrivals.drop_last();
        let last = arrivals.last();
        lemma_plain_prefix(arrivals);
        lemma_plain_run_waits(w, world, rest);
        lemma_file_in_order(w, world, rest);
        let (before, then) = run(w, world, rest);
        lemma_arrival(before, then, last.event, last.now);
        let sofar = world.files[w.path] + logged(rest);
        assert(sofar + log_bytes(last.event) =~= world.files[w.path] + logged(arrivals));
    }
}

/// Whether `x` is a path that the stream may write, move or remove: its
/// live file, or the source or the target of one of the moves of its
/// rotation.
pub open spec fn owned(path: Seq<char>, compression: bool, count: usize, x: Seq<char>) -> bool {
    x == path || (count > 1 && touches(descending(path, compression, (count - 1) as nat), x))
}

/// A plain arrival changes no file but those that the worker's stream
/// owns.
pub proof fn lemma_arrival_confined(
    w: WorkerView,
    world: World,
    event: EventView,
    now: u64,
    x: Seq<char>,
)
    requires
        w.stage == Stage::Waiting,
        coherent(w, world),
        plain(event),
        !owned(w.path, w.compression, w.count, x),
    ensures
        same_at(world.files, arrived(w, world, event, now).1.files, x),
{
    match event {
        EventView::Received(CommandView::WriteFile(text)) => {
            if w.open {
                let files = world.files.insert(w.path, world.files[w.path] + encode_utf8(text));
                let length = clip(files[w.path].len() as int);
                let moves = rotation(w.path, w.threshold, w.count, w.compression, length);
                lemma_moves_confined(files, moves, x);
            }
        },
        _ => {},
    }
}

/// Plain arrivals change no file but those that the worker's stream owns.
/// Whatever else lies beside the stream, and every other stream, is left
/// as it was.
pub proof fn lemma_run_confined(w: WorkerView, world: World, arrivals: Seq<Arrival>, x: Seq<char>)
    requires
        w.stage == Stage::Waiting,
        coherent(w, world),
        w.open,
        all_plain(arrivals),
        !owned(w.path, w.compression, w.count, x),
    ensures
        same_at(world.files, run(w, world, arrivals).1.files, x),
    decreases arrivals.len(),
{
    if arrivals.len() > 0 {
        let rest = arrivals.drop_last();
        let last = arrivals.last();
        lemma_plain_prefix(arrivals);
        lemma_plain_run_waits(w, world, rest);
        lemma_run_confined(w, world, rest, x);
        let (before, then) = run(w, world, rest);
        lemma_arrival(before, then, last.event, last.now);
        lemma_arrival_confined(before, then, last.event, last.now, x);
    }
}

/// Whether none of the arrivals is a redirect.
pub open spec fn no_redirect(arrivals: Seq<Arrival>) -> bool {
    forall|k: int|
        0 <= k < arrivals.len() ==> !(#[trigger] arrivals[k].event matches EventView::Received(
            CommandView::Redirect(_),
        ))
}

/// The start of the loop: with no path the worker waits at once and no
/// file is touched; with a path it checks the rotation of the file there
/// and opens it, creating it where it is missing.
pub proof fn lemma_start(
    path: Seq<char>,
    threshold: u64,
    count: usize,
    compression: bool,
    world: World,
    now: u64,
)
    ensures
        ({
            let w = fresh(path, threshold, count, compression);
            settle(w, world, EventView::Begin, now) == if path.len() == 0 {
                (WorkerView { stage: Stage::Waiting, ts: now, ..w }, world)
            } else {
                reopened(w, World { handle: None, dirty: false, ..world }, true, now)
            }
        }),
{
    let w = fresh(path, threshold, count, compression);
    if path.len() > 0 {
        lemma_settle_reopen(w, world, EventView::Begin, w, true, now);
    }
}

/// The start of a stream that keeps two generations or more, with a
/// threshold above zero: the worker waits with the live file open. A file
/// that had reached the threshold was rotated first; a smaller one is kept
/// as it is, and a missing one is created empty. The live file is below
/// the threshold where it could age.
pub proof fn lemma_start_ready(
    path: Seq<char>,
    threshold: u64,
    count: usize,
    compression: bool,
    world: World,
    now: u64,
)
    requires
        path.len() > 0,
        count >= 2,
        threshold > 0,
    ensures
        ({
            let w = fresh(path, threshold, count, compression);
            let (next, after) = settle(w, world, EventView::Begin, now);
            &&& next == (WorkerView {
                stage: Stage::Waiting,
                open: true,
                size: next.size,
                ts: now,
                ..w
            })
            &&& coherent(next, after)
            &&& packs(world.files, path, compression) ==> next.size < threshold
            &&& after.terminal == world.terminal
            &&& after.files == if length_at(world.files, path) < threshold {
                opened(world.files, path)
            } else {
                rotated(world.files, path, compression, count as nat)
            }
        }),
{
    lemma_start(path, threshold, count, compression, world, now);
    if length_at(world.files, path) >= threshold {
        lemma_rotation_shifts(world.files, path, compression, count as nat);
    }
}

/// A stream that keeps one generation or none only ever grows: every file
/// write stands at the end of the live file, and no other file is touched.
pub proof fn lemma_single_generation_appends(
    w: WorkerView,
    world: World,
    text: Seq<char>,
    now: u64,
)
    requires
        w.stage == Stage::Waiting,
        coherent(w, world),
        w.open,
        w.count <= 1,
    ensures
        ({
            let event = EventView::Received(CommandView::WriteFile(text));
            let (next, after) = arrived(w, world, event, now);
            &&& next.stage == Stage::Waiting
            &&& next.open
            &&& after.files == world.files.insert(w.path, world.files[w.path] + encode_utf8(text))
        }),
{
}

/// A worker without an open file that is never redirected creates no file
/// and changes none, whatever arrives.
pub proof fn lemma_without_file_nothing_changes(w: WorkerView, world: World, arrivals: Seq<Arrival>)
    requires
        w.stage == Stage::Waiting || w.stage == Stage::Stopped,
        !w.open,
        world.handle is None,
        no_redirect(arrivals),
    ensures
        run(w, world, arrivals).1.files == world.files,
        !run(w, world, arrivals).0.open,
    decreases arrivals.len(),
{
    if arrivals.len() > 0 {
        let rest = arrivals.drop_last();
        let last = arrivals.last();
        assert(no_redirect(rest)) by {
            assert forall|k: int| 0 <= k < rest.len() implies !(#[trigger] rest[k].event matches
                EventView::Received(CommandView::Redirect(_))) by {
                assert(rest[k] == arrivals[k]);
            }
        }
        assert(arrivals.last() == arrivals[arrivals.len() - 1]);
        lemma_without_file_nothing_changes(w, world, rest);
        lemma_run_coherent(w, world, rest);
        let (before, then) = run(w, world, rest);
        if before.stage == Stage::Waiting {
            lemma_arrival(before, then, last.event, last.now);
        } else {
            lemma_stopped_stays(before, then, last.event, last.now);
        }
    }
}

/// Whether the arrival makes the worker rotate its stream: a file write
/// that takes the live file to the threshold.
pub open spec fn rotates(w: WorkerView, world: World, event: EventView) -> bool {
    event matches EventView::Received(CommandView::WriteFile(text)) && w.open && w.count > 1
        && clip((world.files[w.path] + encode_utf8(text)).len() as int) >= w.threshold
}

/// One file write at a stream that keeps two generations or more, with a
/// threshold above zero. Below the threshold the bytes stand at the end of
/// the live file and nothing else changes. From the threshold on the
/// stream is rotated. Where the live file can age, it is empty afterwards,
/// generation 1 holds what it held with the new bytes at its end,
/// compressed where the stream is, and one more generation is there unless
/// the stream is full. Where the encoder fails on it, the live file stays
/// as it is, new bytes included.
pub proof fn lemma_write_rotates(w: WorkerView, world: World, text: Seq<char>, now: u64, m: nat)
    requires
        w.stage == Stage::Waiting,
        coherent(w, world),
        w.open,
        w.count >= 2,
        w.threshold > 0,
        m <= w.count - 1,
        filled(world.files, w.path, w.compression, m),
    ensures
        ({
            let event = EventView::Received(CommandView::WriteFile(text));
            let content = world.files[w.path] + encode_utf8(text);
            let (next, after) = arrived(w, world, event, now);
            &&& next.size == clip(after.files[w.path].len() as int)
            &&& !rotates(w, world, event) ==> {
                &&& after.files == world.files.insert(w.path, content)
                &&& filled(after.files, w.path, w.compression, m)
                &&& next.size < w.threshold
            }
            &&& rotates(w, world, event) ==> after.files == rotated(
                world.files.insert(w.path, content),
                w.path,
                w.compression,
                w.count as nat,
            )
            &&& rotates(w, world, event) ==> (aged(w.compression, 0, content) matches Some(
                packed,
            ) ==> {
                &&& after.files[w.path] == Seq::<u8>::empty()
                &&& after.files[generation(w.path, w.compression, 1)] == packed
                &&& filled(
                    after.files,
                    w.path,
                    w.compression,
                    top_after_one(m, w.count as nat),
                )
                &&& next.size < w.threshold
            })
            &&& rotates(w, world, event) && aged(w.compression, 0, content) is None
                ==> after.files[w.path] == content
        }),
{
    let event = EventView::Received(CommandView::WriteFile(text));
    let content = world.files[w.path] + encode_utf8(text);
    let files = world.files.insert(w.path, content);
    lemma_filled_survives_write(world.files, w.path, w.compression, m, content);
    if rotates(w, world, event) {
        lemma_rotation_shifts(files, w.path, w.compression, w.count as nat);
        lemma_rotation_fills(files, w.path, w.compression, w.count as nat, m);
        let after = rotated(files, w.path, w.compression, w.count as nat);
        assert(slot_shifted(files, after, w.path, w.compression, (w.count - 1) as nat, 1));
        assert(generation(w.path, w.compression, 0) == w.path);
        if aged(w.compression, 0, content) is None {
            lemma_failed_compression_keeps_live(files, w.path, w.count as nat);
        }
    }
}

/// The number of rotations in a run.
pub open spec fn rotations(w: WorkerView, world: World, arrivals: Seq<Arrival>) -> nat
    decreases arrivals.len(),
{
    if arrivals.len() == 0 {
        0
    } else {
        let (before, then) = run(w, world, arrivals.drop_last());
        let more: nat = if rotates(before, then, arrivals.last().event) {
            1
        } else {
            0
        };
        rotations(w, world, arrivals.drop_last()) + more
    }
}

/// The highest generation that is there after `k` rotations of a fresh
/// stream that keeps `count` generations.
pub open spec fn top_after(k: nat, count: usize) -> nat {
    if k <= count - 1 {
        k
    } else {
        (count - 1) as nat
    }
}

/// A stream starts with its live file alone and below the threshold, and
/// keeps `count` generations, two or more. After a run of plain arrivals
/// with `k` rotations in it, the generations 0 to `k` are there, but never
/// more than `count` of them, and no other generation is; the live file is
/// below the threshold. For a compressed stream this holds where the
/// encoder fails on no content.
pub proof fn lemma_generations_after_rotations(w: WorkerView, world: World, arrivals: Seq<Arrival>)
    requires
        w.stage == Stage::Waiting,
        coherent(w, world),
        w.open,
        w.count >= 2,
        w.threshold > 0,
        w.size < w.threshold,
        all_plain(arrivals),
        filled(world.files, w.path, w.compression, 0),
    ensures
        ({
            let (next, after) = run(w, world, arrivals);
            (w.compression ==> encoder_works()) ==> {
                &&& filled(
                    after.files,
                    w.path,
                    w.compression,
                    top_after(rotations(w, world, arrivals), w.count),
                )
                &&& next.size < w.threshold
                &&& next.size == clip(after.files[w.path].len() as int)
            }
        }),
    decreases arrivals.len(),
{
    if arrivals.len() > 0 && (w.compression ==> encoder_works()) {
        let rest = arrivals.drop_last();
        let last = arrivals.last();
        lemma_plain_prefix(arrivals);
        lemma_plain_run_waits(w, world, rest);
        lemma_generations_after_rotations(w, world, rest);
        let (before, then) = run(w, world, rest);
        lemma_arrival(before, then, last.event, last.now);
        let m = top_after(rotations(w, world, rest), w.count);
        match last.event {
            EventView::Received(CommandView::WriteFile(text)) => {
                lemma_write_rotates(before, then, text, last.now, m);
                assert(aged(w.compression, 0, then.files[w.path] + encode_utf8(text)) is Some);
            },
            _ => {},
        }
    }
}

/// A plain stream starts with its live file alone and below the
/// threshold. As long as no generation has been dropped, its generations,
/// read from the oldest to the live file, hold what the live file held at
/// the start and, after that, the bytes of the file writes in the order of
/// their arrival.
pub proof fn lemma_history_in_order(w: WorkerView, world: World, arrivals: Seq<Arrival>)
    requires
        w.stage == Stage::Waiting,
        coherent(w, world),
        w.open,
        !w.compression,
        w.count >= 2,
        w.threshold > 0,
        w.size < w.threshold,
        all_plain(arrivals),
        filled(world.files, w.path, false, 0),
        rotations(w, world, arrivals) <= w.count - 1,
    ensures
        history(run(w, world, arrivals).1.files, w.path, rotations(w, world, arrivals))
            == world.files[w.path] + logged(arrivals),
    decreases arrivals.len(),
{
    if arrivals.len() > 0 {
        let rest = arrivals.drop_last();
        let last = arrivals.last();
        lemma_plain_prefix(arrivals);
        let k = rotations(w, world, rest);
        lemma_plain_run_waits(w, world, rest);
        lemma_generations_after_rotations(w, world, rest);
        lemma_history_in_order(w, world, rest);
        let (before, then) = run(w, world, rest);
        lemma_arrival(before, then, last.event, last.now);
        match last.event {
            EventView::Received(CommandView::WriteFile(text)) => {
                let bytes = encode_utf8(text);
                let content = then.files[w.path] + bytes;
                lemma_write_rotates(before, then, text, last.now, k);
                lemma_history_grows(then.files, w.path, k, bytes);
                if rotates(before, then, last.event) {
                    lemma_filled_survives_write(then.files, w.path, false, k, content);
                    lemma_rotation_keeps_history(
                        then.files.insert(w.path, content),
                        w.path,
                        w.count as nat,
                        k,
                    );
                }
            },
            _ => {},
        }
    }
}

/// Plain arrivals change no file but the generations of the worker's
/// stream: the live file and the aged files of the slots 1 to `count - 1`.
/// Whatever the stream holds, it holds in these files, so that it never
/// has more than `count` of them, or more than its live file where it
/// keeps one generation or none.
pub proof fn lemma_run_keeps_to_generations(
    w: WorkerView,
    world: World,
    arrivals: Seq<Arrival>,
    x: Seq<char>,
)
    requires
        w.stage == Stage::Waiting,
        coherent(w, world),
        w.open,
        all_plain(arrivals),
        !is_generation(
            w.path,
            w.compression,
            if w.count >= 2 {
                (w.count - 1) as nat
            } else {
                0
            },
            x,
        ),
    ensures
        same_at(world.files, run(w, world, arrivals).1.files, x),
{
    if w.count >= 2 {
        lemma_moves_touch_generations(w.path, w.compression, (w.count - 1) as nat, x);
    } else {
        assert(generation(w.path, w.compression, 0) == w.path);
    }
    lemma_run_confined(w, world, arrivals, x);
}

/// A redirect takes the worker to the new path, where the file is created
/// if it is missing. The file at the old path is closed and, unless the
/// new stream owns its path, holds afterwards what it held when the
/// redirect arrived, whatever plain arrivals follow.
pub proof fn lemma_redirect_leaves_old_file(
    w: WorkerView,
    world: World,
    target: Seq<char>,
    now: u64,
    arrivals: Seq<Arrival>,
)
    requires
        w.stage == Stage::Waiting,
        coherent(w, world),
        !owned(target, w.compression, w.count, w.path),
        all_plain(arrivals),
    ensures
        ({
            let redirect = EventView::Received(CommandView::Redirect(target));
            let (turned, then) = arrived(w, world, redirect, now);
            let (next, after) = run(turned, then, arrivals);
            &&& turned.stage == Stage::Waiting
            &&& turned.open
            &&& turned.path == target
            &&& then.handle == Some(target)
            &&& !then.dirty
            &&& length_at(world.files, target) < w.threshold ==> then.files == opened(
                world.files,
                target,
            )
            &&& next.path == target
            &&& same_at(world.files, after.files, w.path)
        }),
{
    let redirect = EventView::Received(CommandView::Redirect(target));
    let (turned, then) = arrived(w, world, redirect, now);
    let length = length_at(world.files, target);
    let moves = rotation(target, w.threshold, w.count, w.compression, length);
    lemma_moves_confined(world.files, moves, w.path);
    lemma_plain_run_waits(turned, then, arrivals);
    lemma_run_confined(turned, then, arrivals, w.path);
}

} // verus!
