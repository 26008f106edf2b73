//! Gzip compression of a file that ages out of the live slot.

use vstd::prelude::*;
use vstd::string::*;

verus! {

/// What the encoder of `flate2` gives for `data`, written in one piece at
/// the default level with the default header: the gzip stream, or nothing
/// where the encoder reports an error.
pub uninterp spec fn gzip_of(data: Seq<u8>) -> Option<Seq<u8>>;

/// `flate2::write::GzEncoder::new` over an empty `Vec<u8>` with
/// `flate2::Compression::default()`, one `write_all` of `data`, then
/// `finish`. The header that `GzEncoder::new` writes holds no time stamp,
/// no name and a fixed system byte, and the vector takes every byte, so
/// both the stream and whether the encoder reports an error depend on
/// `data` alone.
#[verifier::external_body]
fn gzip(data: &[u8]) -> (packed: Option<Vec<u8>>)
    ensures
        bytes_of(packed) == gzip_of(data@),
{
    let mut encoder = flate2::write::GzEncoder::new(Vec::new(), flate2::Compression::default());
    match std::io::Write::write_all(&mut encoder, data) {
        Ok(()) => encoder.finish().ok(),
        Err(_) => None,
    }
}

/// The bytes of a vector that may be missing.
pub open spec fn bytes_of(packed: Option<Vec<u8>>) -> Option<Seq<u8>> {
    match packed {
        Some(bytes) => Some(bytes@),
        None => None,
    }
}

/// The three characters that mark a compressed file.
pub open spec fn gz_tail() -> Seq<char> {
    seq!['.', 'g', 'z']
}

/// The name under which the compressed form of `to` is stored: `to` with
/// `.gz` after it, whatever `to` ends in.
pub open spec fn packed_name(to: Seq<char>) -> Seq<char> {
    to + gz_tail()
}

/// What becomes of a live file that ages out of its slot.
pub enum Aging {
    /// The compressed file is written under `name`; once it is written,
    /// the live file is deleted.
    Stored { name: String, bytes: Vec<u8> },
    /// Nothing is written, and the live file stays where it is.
    Kept,
}

/// An `Aging` over the text of its name and its bytes.
pub enum AgingView {
    Stored { name: Seq<char>, bytes: Seq<u8> },
    Kept,
}

impl View for Aging {
    type V = AgingView;

    open spec fn view(&self) -> AgingView {
        match self {
            Aging::Stored { name, bytes } => AgingView::Stored { name: name@, bytes: bytes@ },
            Aging::Kept => AgingView::Kept,
        }
    }
}

/// What becomes of a live file that ages into `to`, by what the encoder
/// gave for it: stored under the compressed name of `to` where the encoder
/// gave a stream, kept where it failed.
pub open spec fn aging(to: Seq<char>, packed: Option<Seq<u8>>) -> AgingView {
    match packed {
        Some(bytes) => AgingView::Stored { name: packed_name(to), bytes },
        None => AgingView::Kept,
    }
}

/// Computes the name of the compressed form of `to`.
pub fn gz_name(to: &str) -> (name: String)
    ensures
        name@ == packed_name(to@),
{
    proof {
        reveal_strlit(".gz");
        assert(".gz"@ =~= gz_tail());
    }
    String::from_str(to).concat(".gz")
}

/// Decides what becomes of a live file that ages into `to`, once the
/// encoder has answered.
pub fn pack_as(to: &str, packed: Option<Vec<u8>>) -> (out: Aging)
    ensures
        out@ == aging(to@, bytes_of(packed)),
{
    match packed {
        Some(bytes) => Aging::Stored { name: gz_name(to), bytes },
        None => Aging::Kept,
    }
}

/// Compresses the content `data` of a live file that ages into `to`, and
/// says what becomes of the file: the gzip stream of `data` is stored
/// under the compressed name of `to`, or the file is kept where the
/// encoder fails on `data`.
pub fn compress_file(data: &[u8], to: &str) -> (out: Aging)
    ensures
        out@ == aging(to@, gzip_of(data@)),
{
    pack_as(to, gzip(data))
}

} // verus!
