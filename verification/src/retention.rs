//! What a rotation does to the generations of a stream.
//!
//! Generation 0 of a stream is its live file; generation `i` is the file
//! that has aged through `i` rotations.

use crate::compress::{gz_tail, gzip_of};
use crate::files::{
    opened, perform, perform_all, same_at, source_of, target_of, touches, Files,
};
use crate::rotation::{descending, numbered, shift};
use crate::text::{
    digits, ends_with, lemma_digits_injective, lemma_digits_value, lemma_split_joins, stem,
};
use vstd::prelude::*;

verus! {

/// The path under which generation `i` of a stream is stored.
pub open spec fn generation(path: Seq<char>, compression: bool, i: nat) -> Seq<char> {
    if i == 0 {
        path
    } else if compression {
        numbered(path, i) + gz_tail()
    } else {
        numbered(path, i)
    }
}

/// The content with which the file of slot `i` arrives in the slot above:
/// its own, or its gzip stream where it leaves the live slot of a
/// compressed stream; nothing where the encoder fails on it.
pub open spec fn aged(compression: bool, i: nat, content: Seq<u8>) -> Option<Seq<u8>> {
    if compression && i == 0 {
        gzip_of(content)
    } else {
        Some(content)
    }
}

/// Whether the live file of the stream, where there is one, can age: the
/// stream is plain, or the encoder gives a stream for what the file holds.
pub open spec fn packs(files: Files, path: Seq<char>, compression: bool) -> bool {
    files.contains_key(path) ==> aged(compression, 0, files[path]) is Some
}

/// Whether the encoder gives a stream for every content.
pub open spec fn encoder_works() -> bool {
    forall|data: Seq<u8>| #[trigger] gzip_of(data) is Some
}

/// Whether `x` is the path of one of the generations 0 to `n`.
pub open spec fn is_generation(path: Seq<char>, compression: bool, n: nat, x: Seq<char>) -> bool {
    exists|i: nat| i <= n && x == #[trigger] generation(path, compression, i)
}

/// The files after generation `i` has moved one slot up. Nothing moves
/// where the generation is missing or cannot age.
pub open spec fn slide(files: Files, path: Seq<char>, compression: bool, i: nat) -> Files {
    let from = generation(path, compression, i);
    if files.contains_key(from) {
        match aged(compression, i, files[from]) {
            Some(content) => files.remove(from).insert(
                generation(path, compression, i + 1),
                content,
            ),
            None => files,
        }
    } else {
        files
    }
}

/// Different generations of one stream have different paths, so a stream
/// of retention `n` is held in `n` files.
pub proof fn lemma_generations_distinct(path: Seq<char>, compression: bool, i: nat, j: nat)
    requires
        i != j,
    ensures
        generation(path, compression, i) != generation(path, compression, j),
{
    lemma_split_joins(path);
    lemma_digits_value(i);
    lemma_digits_value(j);
    let a = generation(path, compression, i);
    let b = generation(path, compression, j);
    if i != 0 && j != 0 && a == b {
        assert(a.len() == b.len());
        let lo: int = stem(path).len() as int + 1;
        let hi: int = lo + digits(i).len() as int;
        assert(a.subrange(lo, hi) =~= digits(i));
        assert(b.subrange(lo, hi) =~= digits(j));
        lemma_digits_injective(i, j);
    }
}

/// The aged files of a compressed stream carry `.gz` at the end of their
/// names, those of a plain stream the numbered name alone.
pub proof fn lemma_aged_names(path: Seq<char>, compression: bool, i: nat)
    requires
        i >= 1,
    ensures
        compression ==> ends_with(generation(path, compression, i), gz_tail()),
        !compression ==> generation(path, compression, i) == numbered(path, i),
{
    let name = generation(path, compression, i);
    if compression {
        assert(name.subrange(name.len() - 3, name.len() as int) =~= gz_tail());
    }
}

/// The move for slot `i` takes generation `i` to the path of generation
/// `i + 1`.
pub proof fn lemma_shift_slides(files: Files, path: Seq<char>, compression: bool, i: nat)
    ensures
        perform(files, shift(path, compression, i)) == slide(files, path, compression, i),
{
}

proof fn lemma_descending_unfolds(files: Files, path: Seq<char>, compression: bool, n: nat)
    requires
        n >= 1,
    ensures
        perform_all(files, descending(path, compression, n)) == perform_all(
            slide(files, path, compression, (n - 1) as nat),
            descending(path, compression, (n - 1) as nat),
        ),
{
    let plan = descending(path, compression, n);
    assert(plan.drop_first() =~= descending(path, compression, (n - 1) as nat));
    lemma_shift_slides(files, path, compression, (n - 1) as nat);
}

proof fn lemma_descending_elsewhere(
    files: Files,
    path: Seq<char>,
    compression: bool,
    n: nat,
    x: Seq<char>,
)
    requires
        !is_generation(path, compression, n, x),
    ensures
        same_at(files, perform_all(files, descending(path, compression, n)), x),
    decreases n,
{
    if n >= 1 {
        let m = (n - 1) as nat;
        let between = slide(files, path, compression, m);
        lemma_descending_unfolds(files, path, compression, n);
        assert(x != generation(path, compression, m));
        assert(x != generation(path, compression, n));
        lemma_descending_elsewhere(between, path, compression, m, x);
    }
}

proof fn lemma_descending_frees_live(files: Files, path: Seq<char>, compression: bool, n: nat)
    requires
        n >= 1,
        files.contains_key(path) ==> aged(compression, 0, files[path]) is Some,
    ensures
        !perform_all(files, descending(path, compression, n)).contains_key(path),
    decreases n,
{
    lemma_descending_unfolds(files, path, compression, n);
    let m = (n - 1) as nat;
    if n == 1 {
        lemma_generations_distinct(path, compression, 0, 1);
    } else {
        lemma_generations_distinct(path, compression, 0, m);
        lemma_generations_distinct(path, compression, 0, n);
        lemma_descending_frees_live(slide(files, path, compression, m), path, compression, m);
    }
}

proof fn lemma_descending_keeps_live(files: Files, path: Seq<char>, compression: bool, n: nat)
    requires
        files.contains_key(path),
        aged(compression, 0, files[path]) is None,
    ensures
        same_at(files, perform_all(files, descending(path, compression, n)), path),
    decreases n,
{
    if n >= 1 {
        lemma_descending_unfolds(files, path, compression, n);
        let m = (n - 1) as nat;
        if m > 0 {
            lemma_generations_distinct(path, compression, 0, m);
            lemma_generations_distinct(path, compression, 0, n);
        }
        lemma_descending_keeps_live(slide(files, path, compression, m), path, compression, m);
    }
}

proof fn lemma_not_below(path: Seq<char>, compression: bool, n: nat, j: nat)
    requires
        j > n,
    ensures
        !is_generation(path, compression, n, generation(path, compression, j)),
{
    if is_generation(path, compression, n, generation(path, compression, j)) {
        let i = choose|i: nat|
            i <= n && generation(path, compression, j) == #[trigger] generation(
                path,
                compression,
                i,
            );
        lemma_generations_distinct(path, compression, i, j);
    }
}

/// Whether slot `j` holds, after the moves for the slots below `n`, what
/// slot `j - 1` held before, as it has aged. Where the slot below was
/// empty or could not age, the top slot `n` keeps its own file and every
/// other slot is empty.
pub open spec fn slot_shifted(
    files: Files,
    after: Files,
    path: Seq<char>,
    compression: bool,
    n: nat,
    j: nat,
) -> bool {
    let below = generation(path, compression, (j - 1) as nat);
    let here = generation(path, compression, j);
    if files.contains_key(below) && aged(compression, (j - 1) as nat, files[below]) is Some {
        after.contains_key(here) && after[here] == aged(
            compression,
            (j - 1) as nat,
            files[below],
        )->0
    } else if j == n {
        same_at(files, after, here)
    } else {
        !after.contains_key(here)
    }
}

proof fn lemma_descending_slot(files: Files, path: Seq<char>, compression: bool, n: nat, j: nat)
    requires
        1 <= j <= n,
    ensures
        slot_shifted(
            files,
            perform_all(files, descending(path, compression, n)),
            path,
            compression,
            n,
            j,
        ),
    decreases n,
{
    let m = (n - 1) as nat;
    let between = slide(files, path, compression, m);
    lemma_descending_unfolds(files, path, compression, n);
    lemma_generations_distinct(path, compression, m, n);
    if j == n {
        lemma_not_below(path, compression, m, n);
        lemma_descending_elsewhere(between, path, compression, m, generation(path, compression, n));
    } else {
        lemma_descending_slot(between, path, compression, m, j);
        let k = (j - 1) as nat;
        lemma_generations_distinct(path, compression, k, m);
        lemma_generations_distinct(path, compression, k, n);
        lemma_generations_distinct(path, compression, j, n);
        if j != m {
            lemma_generations_distinct(path, compression, j, m);
        }
    }
}

/// The files after one rotation of the stream and the opening of a fresh
/// live file.
pub open spec fn rotated(files: Files, path: Seq<char>, compression: bool, count: nat) -> Files {
    opened(perform_all(files, descending(path, compression, (count - 1) as nat)), path)
}

/// One rotation of a stream that keeps `count` generations, two or more.
/// Every slot from 1 on holds what the slot below it held before, the
/// oldest generation is dropped, and every path that is not one of the
/// `count` generations is left alone. The live file is empty afterwards
/// where it could age.
pub proof fn lemma_rotation_shifts(files: Files, path: Seq<char>, compression: bool, count: nat)
    requires
        count >= 2,
    ensures
        ({
            let after = rotated(files, path, compression, count);
            &&& after.contains_key(path)
            &&& packs(files, path, compression) ==> after[path] == Seq::<u8>::empty()
            &&& forall|j: nat|
                1 <= j < count ==> #[trigger] slot_shifted(
                    files,
                    after,
                    path,
                    compression,
                    (count - 1) as nat,
                    j,
                )
            &&& forall|x: Seq<char>|
                !is_generation(path, compression, (count - 1) as nat, x) ==> #[trigger] same_at(
                    files,
                    after,
                    x,
                )
        }),
{
    let n = (count - 1) as nat;
    let after = rotated(files, path, compression, count);
    if packs(files, path, compression) {
        lemma_descending_frees_live(files, path, compression, n);
    }
    assert forall|j: nat| 1 <= j < count implies #[trigger] slot_shifted(
        files,
        after,
        path,
        compression,
        n,
        j,
    ) by {
        lemma_descending_slot(files, path, compression, n, j);
        lemma_generations_distinct(path, compression, 0, j);
    }
    assert forall|x: Seq<char>| !is_generation(path, compression, n, x) implies #[trigger] same_at(
        files,
        after,
        x,
    ) by {
        lemma_descending_elsewhere(files, path, compression, n, x);
        assert(x != generation(path, compression, 0));
    }
}

/// After a rotation, generation 1 holds what the live file held: in a
/// compressed stream the gzip stream of those bytes, under a name that
/// ends in `.gz`; in a plain stream the very bytes, under the numbered
/// name. Every generation above it holds, byte for byte, what the slot
/// below it held: a file is compressed when it leaves the live slot, and
/// never again.
pub proof fn lemma_aging_compresses_once(
    files: Files,
    path: Seq<char>,
    compression: bool,
    count: nat,
)
    requires
        count >= 2,
        files.contains_key(path),
    ensures
        ({
            let after = rotated(files, path, compression, count);
            let first = generation(path, compression, 1);
            &&& compression ==> ends_with(first, gz_tail())
            &&& !compression ==> first == numbered(path, 1)
            &&& aged(compression, 0, files[path]) matches Some(content) ==> after.contains_key(
                first,
            ) && after[first] == content
            &&& !compression ==> aged(compression, 0, files[path]) == Some(files[path])
            &&& compression ==> aged(compression, 0, files[path]) == gzip_of(files[path])
            &&& forall|j: nat|
                2 <= j < count && files.contains_key(
                    #[trigger] generation(path, compression, (j - 1) as nat),
                ) ==> after.contains_key(generation(path, compression, j)) && after[generation(
                    path,
                    compression,
                    j,
                )] == files[generation(path, compression, (j - 1) as nat)]
        }),
{
    let n = (count - 1) as nat;
    let after = rotated(files, path, compression, count);
    lemma_rotation_shifts(files, path, compression, count);
    lemma_aged_names(path, compression, 1);
    assert(slot_shifted(files, after, path, compression, n, 1));
    assert(generation(path, compression, 0) == path);
    assert forall|j: nat|
        2 <= j < count && files.contains_key(
            #[trigger] generation(path, compression, (j - 1) as nat),
        ) implies after.contains_key(generation(path, compression, j)) && after[generation(
        path,
        compression,
        j,
    )] == files[generation(path, compression, (j - 1) as nat)] by {
        assert(slot_shifted(files, after, path, compression, n, j));
    }
}

/// Where the encoder fails on the live file of a compressed stream, the
/// rotation leaves the live file in place with all its bytes, and writes
/// nothing in its stead.
pub proof fn lemma_failed_compression_keeps_live(files: Files, path: Seq<char>, count: nat)
    requires
        count >= 2,
        files.contains_key(path),
    ensures
        gzip_of(files[path]) is None ==> same_at(files, rotated(files, path, true, count), path),
{
    if gzip_of(files[path]) is None {
        lemma_descending_keeps_live(files, path, true, (count - 1) as nat);
    }
}

/// Whether the generations 0 to `m` of the stream are there and no
/// generation beyond them is.
pub open spec fn filled(files: Files, path: Seq<char>, compression: bool, m: nat) -> bool {
    forall|j: nat| files.contains_key(#[trigger] generation(path, compression, j)) <==> j <= m
}

/// Writing the live file changes nothing about which generations are
/// there.
pub proof fn lemma_filled_survives_write(
    files: Files,
    path: Seq<char>,
    compression: bool,
    m: nat,
    content: Seq<u8>,
)
    requires
        filled(files, path, compression, m),
    ensures
        filled(files.insert(path, content), path, compression, m),
{
    assert(files.contains_key(generation(path, compression, 0)));
    assert forall|j: nat|
        files.insert(path, content).contains_key(#[trigger] generation(path, compression, j))
            <==> j <= m by {
        assert(files.contains_key(generation(path, compression, j)) <==> j <= m);
    }
}

/// The highest slot that is taken after a rotation of a stream whose
/// generations 0 to `m` were there.
pub open spec fn top_after_one(m: nat, count: nat) -> nat {
    if m + 1 <= count - 1 {
        m + 1
    } else {
        (count - 1) as nat
    }
}

/// A rotation of a stream whose generations 0 to `m` are there, and whose
/// live file can age, leaves the generations 0 to `m + 1`, but never more
/// than the stream keeps.
pub proof fn lemma_rotation_fills(
    files: Files,
    path: Seq<char>,
    compression: bool,
    count: nat,
    m: nat,
)
    requires
        count >= 2,
        m <= count - 1,
        filled(files, path, compression, m),
    ensures
        packs(files, path, compression) ==> filled(
            rotated(files, path, compression, count),
            path,
            compression,
            top_after_one(m, count),
        ),
{
    let n = (count - 1) as nat;
    let top = top_after_one(m, count);
    let after = rotated(files, path, compression, count);
    lemma_rotation_shifts(files, path, compression, count);
    if packs(files, path, compression) {
        assert(files.contains_key(generation(path, compression, 0)));
        assert forall|j: nat| after.contains_key(#[trigger] generation(path, compression, j))
            <==> j <= top by {
            if 1 <= j < count {
                assert(slot_shifted(files, after, path, compression, n, j));
                assert(files.contains_key(generation(path, compression, (j - 1) as nat)) <==> j
                    - 1 <= m);
                assert(files.contains_key(generation(path, compression, n)) <==> n <= m);
            } else if j >= count {
                lemma_not_below(path, compression, n, j);
                assert(same_at(files, after, generation(path, compression, j)));
            }
        }
    }
}

/// The bytes of the generations `m` down to 0 of a plain stream, the oldest
/// first: what the stream holds, in the order in which it was written.
pub open spec fn history(files: Files, path: Seq<char>, m: nat) -> Seq<u8>
    decreases m,
{
    if m == 0 {
        files[path]
    } else {
        files[generation(path, false, m)] + history(files, path, (m - 1) as nat)
    }
}

/// Bytes appended to the live file stand at the end of the history.
pub proof fn lemma_history_grows(files: Files, path: Seq<char>, m: nat, bytes: Seq<u8>)
    ensures
        history(files.insert(path, files[path] + bytes), path, m) == history(files, path, m)
            + bytes,
    decreases m,
{
    if m > 0 {
        lemma_generations_distinct(path, false, 0, m);
        lemma_history_grows(files, path, (m - 1) as nat, bytes);
    }
}

proof fn lemma_history_slides(files: Files, path: Seq<char>, count: nat, j: nat)
    requires
        count >= 2,
        j + 1 <= count - 1,
        forall|i: nat| i <= j ==> files.contains_key(#[trigger] generation(path, false, i)),
    ensures
        history(rotated(files, path, false, count), path, j + 1) == history(files, path, j),
    decreases j,
{
    let after = rotated(files, path, false, count);
    lemma_rotation_shifts(files, path, false, count);
    assert(slot_shifted(files, after, path, false, (count - 1) as nat, j + 1));
    assert(files.contains_key(generation(path, false, j)));
    if j == 0 {
        assert(history(after, path, 1) == after[generation(path, false, 1)] + history(
            after,
            path,
            0,
        ));
    } else {
        lemma_history_slides(files, path, count, (j - 1) as nat);
    }
}

/// A rotation of a plain stream that has room for one more generation
/// keeps the history: nothing is lost and nothing changes its place.
pub proof fn lemma_rotation_keeps_history(files: Files, path: Seq<char>, count: nat, m: nat)
    requires
        count >= 2,
        m + 1 <= count - 1,
        filled(files, path, false, m),
    ensures
        history(rotated(files, path, false, count), path, m + 1) == history(files, path, m),
{
    lemma_history_slides(files, path, count, m);
}

/// A rotation of a plain stream that is full drops its oldest generation
/// and keeps the history of the others.
pub proof fn lemma_rotation_drops_oldest(files: Files, path: Seq<char>, count: nat)
    requires
        count >= 2,
        filled(files, path, false, (count - 1) as nat),
    ensures
        history(rotated(files, path, false, count), path, (count - 1) as nat) == history(
            files,
            path,
            (count - 2) as nat,
        ),
{
    lemma_history_slides(files, path, count, (count - 2) as nat);
}

/// The paths that the moves of a stream take from and store under are its
/// generations, and no others.
pub proof fn lemma_moves_touch_generations(
    path: Seq<char>,
    compression: bool,
    n: nat,
    x: Seq<char>,
)
    requires
        n >= 1,
    ensures
        touches(descending(path, compression, n), x) || x == path <==> is_generation(
            path,
            compression,
            n,
            x,
        ),
{
    let plan = descending(path, compression, n);
    if touches(plan, x) {
        let k = choose|k: int|
            0 <= k < plan.len() && (x == source_of(#[trigger] plan[k]) || x == target_of(plan[k]));
        let i = (n - 1 - k) as nat;
        assert(source_of(plan[k]) == generation(path, compression, i));
        assert(target_of(plan[k]) == generation(path, compression, i + 1));
    }
    if x == path {
        assert(x == generation(path, compression, 0));
    }
    if is_generation(path, compression, n, x) {
        let i = choose|i: nat| i <= n && x == #[trigger] generation(path, compression, i);
        if i >= 1 {
            let k = n - i;
            assert(target_of(plan[k]) == generation(path, compression, i));
        }
    }
}

} // verus!
