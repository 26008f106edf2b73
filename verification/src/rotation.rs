//! Rotation of a bounded set of aged files.
//!
//! A stream of retention `n` lives in the file at its path and in up to
//! `n - 1` aged files beside it. A rotation moves every generation one slot
//! up, oldest first, and leaves the path free for a fresh live file.

use crate::compress::gz_tail;
use crate::text::{decimal, digits, extension, split_path, stem};
use vstd::prelude::*;
use vstd::string::*;

verus! {

/// What the worker knows of its stream.
pub struct Context {
    /// The path of the live file; empty where nothing is written to a file.
    pub path: String,
    /// The size in bytes from which on the live file is rotated.
    pub size: u64,
    /// The number of generations kept, the live file included.
    pub count: usize,
    /// Whether aged files are stored compressed.
    pub compression: bool,
}

/// One move of a rotation, best effort: where it cannot be done the
/// rotation goes on with the next.
pub enum Step {
    /// Rename `from` to `to`, replacing what is there.
    Rename { from: String, to: String },
    /// Compress the content of `from`, store it under the compressed name
    /// of `to`, then delete `from`. Where the encoder fails, nothing is
    /// written and `from` stays.
    Compress { from: String, to: String },
}

/// A `Step` over the texts of its names.
pub enum Move {
    Rename { from: Seq<char>, to: Seq<char> },
    Compress { from: Seq<char>, to: Seq<char> },
}

impl View for Step {
    type V = Move;

    open spec fn view(&self) -> Move {
        match self {
            Step::Rename { from, to } => Move::Rename { from: from@, to: to@ },
            Step::Compress { from, to } => Move::Compress { from: from@, to: to@ },
        }
    }
}

/// The moves that a vector of steps stands for.
pub open spec fn moves_of(steps: Seq<Step>) -> Seq<Move> {
    Seq::new(steps.len(), |k: int| steps[k]@)
}

/// The name with the number `i` before the extension of `path`.
pub open spec fn numbered(path: Seq<char>, i: nat) -> Seq<char> {
    stem(path) + seq!['.'] + digits(i) + extension(path)
}

/// The move for slot `index`, from the plain names `from` and `to`.
pub open spec fn maintained(compression: bool, from: Seq<char>, to: Seq<char>, index: nat) -> Move {
    if compression {
        if index == 0 {
            Move::Compress { from, to }
        } else {
            Move::Rename { from: from + gz_tail(), to: to + gz_tail() }
        }
    } else {
        Move::Rename { from, to }
    }
}

/// The move that takes generation `i` of the stream at `path` to slot
/// `i + 1`.
pub open spec fn shift(path: Seq<char>, compression: bool, i: nat) -> Move {
    maintained(
        compression,
        if i == 0 {
            path
        } else {
            numbered(path, i)
        },
        numbered(path, i + 1),
        i,
    )
}

/// The moves for slots `n - 1` down to 0, in that order.
pub open spec fn descending(path: Seq<char>, compression: bool, n: nat) -> Seq<Move> {
    Seq::new(n, |k: int| shift(path, compression, (n - 1 - k) as nat))
}

/// The moves of one rotation check: none while the live file is below the
/// threshold or where no more than one generation is kept; else one for
/// each slot but the last, from the oldest down to the live file.
pub open spec fn rotation(
    path: Seq<char>,
    threshold: u64,
    count: usize,
    compression: bool,
    size: u64,
) -> Seq<Move> {
    if size >= threshold && count > 1 {
        descending(path, compression, (count - 1) as nat)
    } else {
        Seq::empty()
    }
}

/// Builds the name with the number `i` between `prefix` and `suffix`.
pub fn numbered_name(prefix: &str, i: usize, suffix: &str) -> (name: String)
    ensures
        name@ == prefix@ + seq!['.'] + digits(i as nat) + suffix@,
{
    proof {
        reveal_strlit(".");
    }
    let mut name = String::from_str(prefix);
    name.append(".");
    let number = decimal(i as u64);
    name.append(number.as_str());
    name.append(suffix);
    name
}

/// Decides how the file in slot `index` moves up: by renaming, or, for the
/// live file of a compressed stream, by compressing.
pub fn maintain(ctx: &Context, from: &str, to: &str, index: usize) -> (step: Step)
    ensures
        step@ == maintained(ctx.compression, from@, to@, index as nat),
{
    proof {
        reveal_strlit(".gz");
        assert(".gz"@ =~= gz_tail());
    }
    if ctx.compression {
        if index == 0 {
            Step::Compress { from: String::from_str(from), to: String::from_str(to) }
        } else {
            Step::Rename {
                from: String::from_str(from).concat(".gz"),
                to: String::from_str(to).concat(".gz"),
            }
        }
    } else {
        Step::Rename { from: String::from_str(from), to: String::from_str(to) }
    }
}

/// Plans the rotation check of the stream, given the `size` that the live
/// file was found to have. The caller performs the steps in order and then
/// opens the path afresh.
pub fn rotate(ctx: &Context, size: u64) -> (steps: Vec<Step>)
    ensures
        moves_of(steps@) == rotation(ctx.path@, ctx.size, ctx.count, ctx.compression, size),
{
    let mut steps: Vec<Step> = Vec::new();
    if size >= ctx.size && ctx.count > 1 {
        let parts = split_path(ctx.path.as_str());
        let n: usize = ctx.count - 1;
        let mut i: usize = n;
        while i > 0
            invariant
                i <= n,
                n == ctx.count - 1,
                parts.0@ == stem(ctx.path@),
                parts.1@ == extension(ctx.path@),
                steps@.len() == n - i,
                forall|k: int|
                    0 <= k < steps@.len() ==> #[trigger] steps@[k]@ == shift(
                        ctx.path@,
                        ctx.compression,
                        (n - 1 - k) as nat,
                    ),
            decreases i,
        {
            i = i - 1;
            let from = if i == 0 {
                ctx.path.clone()
            } else {
                numbered_name(parts.0.as_str(), i, parts.1.as_str())
            };
            let to = numbered_name(parts.0.as_str(), i + 1, parts.1.as_str());
            let step = maintain(ctx, from.as_str(), to.as_str(), i);
            steps.push(step);
        }
    }
    steps
}

} // verus!
