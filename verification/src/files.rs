//! A model of the files that a rotation works on: a map from the text of a
//! path to the bytes stored under it. A move whose source is missing fails
//! and changes nothing, and so does a compression on whose source the
//! encoder fails; every other move succeeds.

use crate::compress::{aging, gzip_of, packed_name, AgingView};
use crate::rotation::Move;
use vstd::prelude::*;

verus! {

/// The files of the model, by path.
pub type Files = Map<Seq<char>, Seq<u8>>;

/// The files after one move.
pub open spec fn perform(files: Files, m: Move) -> Files {
    match m {
        Move::Rename { from, to } => if files.contains_key(from) {
            files.remove(from).insert(to, files[from])
        } else {
            files
        },
        Move::Compress { from, to } => if files.contains_key(from) {
            match aging(to, gzip_of(files[from])) {
                AgingView::Stored { name, bytes } => files.remove(from).insert(name, bytes),
                AgingView::Kept => files,
            }
        } else {
            files
        },
    }
}

/// The files after the moves of `moves`, done in order.
pub open spec fn perform_all(files: Files, moves: Seq<Move>) -> Files
    decreases moves.len(),
{
    if moves.len() == 0 {
        files
    } else {
        perform_all(perform(files, moves[0]), moves.drop_first())
    }
}

/// The files after `path` was opened for appending: as before where it
/// exists, else with an empty file under it.
pub open spec fn opened(files: Files, path: Seq<char>) -> Files {
    if files.contains_key(path) {
        files
    } else {
        files.insert(path, Seq::empty())
    }
}

/// Whether two sets of files agree on the path `x`.
pub open spec fn same_at(a: Files, b: Files, x: Seq<char>) -> bool {
    a.contains_key(x) == b.contains_key(x) && (a.contains_key(x) ==> a[x] == b[x])
}

/// The path that a move takes its file from.
pub open spec fn source_of(m: Move) -> Seq<char> {
    match m {
        Move::Rename { from, to } => from,
        Move::Compress { from, to } => from,
    }
}

/// The path that a move stores its file under.
pub open spec fn target_of(m: Move) -> Seq<char> {
    match m {
        Move::Rename { from, to } => to,
        Move::Compress { from, to } => packed_name(to),
    }
}

/// Whether one of the moves takes from `x` or stores under `x`.
pub open spec fn touches(moves: Seq<Move>, x: Seq<char>) -> bool {
    exists|k: int|
        0 <= k < moves.len() && (x == source_of(#[trigger] moves[k]) || x == target_of(moves[k]))
}

/// Moves change nothing but their sources and targets.
pub proof fn lemma_moves_confined(files: Files, moves: Seq<Move>, x: Seq<char>)
    requires
        !touches(moves, x),
    ensures
        same_at(files, perform_all(files, moves), x),
    decreases moves.len(),
{
    if moves.len() > 0 {
        let rest = moves.drop_first();
        assert(!touches(rest, x)) by {
            if touches(rest, x) {
                let k = choose|k: int|
                    0 <= k < rest.len() && (x == source_of(#[trigger] rest[k]) || x == target_of(
                        rest[k],
                    ));
                assert(rest[k] == moves[k + 1]);
            }
        }
        lemma_moves_confined(perform(files, moves[0]), rest, x);
    }
}

} // verus!
