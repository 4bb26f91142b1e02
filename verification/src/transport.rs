//! The framing of the connection: which frames carry an envelope, how their
//! payload is decompressed, and what becomes of a decoded envelope.

use crate::phase::Snapshot;
use vstd::prelude::*;
use vstd::string::*;
use zstd::bulk::Decompressor;

verus! {

/// `zstd::bulk::Decompressor`. Nothing is known of what is inside it but the
/// dictionary it has loaded, which `loaded_dictionary` names.
#[verifier::external_type_specification]
#[verifier::external_body]
pub struct ExDecompressor<'a>(zstd::bulk::Decompressor<'a>);

/// The most bytes the shared dictionary may take once it is decompressed.
pub const DICTIONARY_LIMIT: usize = 112_640;

/// What `zstd::bulk::decompress` gives for `data` when the result may take up to
/// `capacity` bytes: the decompressed bytes, or nothing where it reports an error.
pub uninterp spec fn zstd_inflated(data: Seq<u8>, capacity: nat) -> Option<Seq<u8>>;

/// What `zstd::bulk::Decompressor::decompress` gives for `data`, on a decompressor
/// that has loaded `dictionary`, when the result may take up to `capacity` bytes:
/// the decompressed bytes, or nothing where it reports an error.
pub uninterp spec fn zstd_decoded(dictionary: Seq<u8>, data: Seq<u8>, capacity: nat) -> Option<
    Seq<u8>,
>;

/// Whether `zstd::bulk::Decompressor::with_dictionary` gives a decompressor for
/// `dictionary`, rather than an error.
pub uninterp spec fn zstd_accepts(dictionary: Seq<u8>) -> bool;

/// The dictionary that a decompressor has loaded.
pub uninterp spec fn loaded_dictionary(decompressor: Decompressor<'static>) -> Seq<u8>;

/// What formatting a text with `{:?}` gives: the text in quotes, with escapes.
pub uninterp spec fn debug_quoted(text: Seq<char>) -> Seq<char>;

/// Calls `zstd::bulk::decompress`. Trusted: what comes back is a function of the
/// data and the capacity alone, named `zstd_inflated`, and, as the crate documents,
/// decompressed bytes are never more than `capacity`. The call allocates
/// `capacity` bytes at once, which panics beyond `isize::MAX`.
#[verifier::external_body]
fn zstd_inflate(data: &[u8], capacity: usize) -> (out: Option<Vec<u8>>)
    requires
        capacity <= usize::MAX / 2,
    ensures
        out matches Some(bytes) ==> zstd_inflated(data@, capacity as nat) == Some(bytes@)
            && bytes@.len() <= capacity,
        out is None ==> zstd_inflated(data@, capacity as nat) is None,
{
    zstd::bulk::decompress(data, capacity).ok()
}

/// Calls `zstd::bulk::Decompressor::with_dictionary`. Trusted: whether a
/// decompressor comes back depends on the dictionary alone, which `zstd_accepts`
/// names, and a decompressor that comes back has loaded the dictionary it was
/// given.
#[verifier::external_body]
fn zstd_with_dictionary(dictionary: &[u8]) -> (out: Option<Decompressor<'static>>)
    ensures
        out is Some <==> zstd_accepts(dictionary@),
        out matches Some(decompressor) ==> loaded_dictionary(decompressor) == dictionary@,
{
    Decompressor::with_dictionary(dictionary).ok()
}

/// Calls `zstd::bulk::Decompressor::decompress`. Trusted: the decompressor keeps
/// its dictionary, which zstd applies to every later frame; what comes back is a
/// function of that dictionary, the data and the capacity alone, named
/// `zstd_decoded`; and decompressed bytes are never more than `capacity`. The call
/// allocates `capacity` bytes at once, which panics beyond `isize::MAX`.
#[verifier::external_body]
fn zstd_decode(decompressor: &mut Decompressor<'static>, data: &[u8], capacity: usize) -> (out:
    Option<Vec<u8>>)
    requires
        capacity <= usize::MAX / 2,
    ensures
        loaded_dictionary(*final(decompressor)) == loaded_dictionary(*old(decompressor)),
        out matches Some(bytes) ==> zstd_decoded(
            loaded_dictionary(*old(decompressor)),
            data@,
            capacity as nat,
        ) == Some(bytes@) && bytes@.len() <= capacity,
        out is None ==> zstd_decoded(
            loaded_dictionary(*old(decompressor)),
            data@,
            capacity as nat,
        ) is None,
{
    decompressor.decompress(data, capacity).ok()
}

/// Formats the text with `{:?}`, as `<str as std::fmt::Debug>::fmt` writes it.
/// Trusted: what comes back is a function of the text alone, named `debug_quoted`.
#[verifier::external_body]
fn debug_quote(text: &String) -> (out: String)
    ensures
        out@ == debug_quoted(text@),
{
    format!("{:?}", text)
}

/// A frame as it comes off the connection.
#[derive(Clone, Debug, PartialEq, Eq)]
pub enum Frame {
    Binary(Vec<u8>),
    Text(String),
    Control,
}

/// Why a frame is not an envelope.
#[derive(Clone, Copy, Debug, PartialEq, Eq, Structural)]
pub enum TransportError {
    /// The frame is not a binary frame.
    UnexpectedFrame,
    /// The payload does not decompress within its budget.
    Undecodable,
}

/// A decoded envelope, as far as the agent reads it.
#[derive(Clone, Debug, PartialEq, Eq)]
pub enum Envelope {
    State(Snapshot),
    Error(String),
    Other,
}

/// What becomes of an envelope: a snapshot to act on, nothing, or the end of the
/// agent, with the details the server gave and the notice the agent still sends.
#[derive(Clone, Debug, PartialEq, Eq)]
pub enum Delivery {
    Snapshot(Snapshot),
    Nothing,
    Fatal { details: String, notice: String },
}

/// The decompressor of the connection, holding the shared dictionary.
pub struct FrameDecoder {
    decompressor: Decompressor<'static>,
}

/// The most bytes a payload of `len` bytes may take once it is decompressed: ten
/// times its length, and never more than can be allocated at once.
pub open spec fn frame_budget(len: nat) -> nat {
    if len * 10 <= usize::MAX / 2 {
        len * 10
    } else {
        (usize::MAX / 2) as nat
    }
}

/// The notice around the server's words, once they are quoted.
pub open spec fn notice_text(quoted: Seq<char>) -> Seq<char> {
    "Whoops, something went wrong! The error message is "@ + quoted + ". Disconnecting."@
}

/// The notice the agent sends when the server reports an error: it quotes the
/// server's words.
pub open spec fn error_notice(details: Seq<char>) -> Seq<char> {
    notice_text(debug_quoted(details))
}

/// The most bytes a payload of `len` bytes may take once it is decompressed.
pub fn budget(len: usize) -> (capacity: usize)
    ensures
        capacity == frame_budget(len as nat),
        capacity <= usize::MAX / 2,
{
    let most: usize = usize::MAX / 2;
    if len <= most / 10 {
        len * 10
    } else {
        most
    }
}

/// What a frame's payload is worth once the decompressor has answered: the bytes
/// it gave, or the error that it gave none.
pub fn opened(decoded: Option<Vec<u8>>) -> (result: Result<Vec<u8>, TransportError>)
    ensures
        match decoded {
            Some(bytes) => result == Ok::<Vec<u8>, TransportError>(bytes),
            None => result == Err::<Vec<u8>, TransportError>(TransportError::Undecodable),
        },
{
    match decoded {
        Some(bytes) => Ok(bytes),
        None => Err(TransportError::Undecodable),
    }
}

impl FrameDecoder {
    /// The dictionary the decoder decompresses with.
    pub closed spec fn dictionary(&self) -> Seq<u8> {
        loaded_dictionary(self.decompressor)
    }

    /// Prepares the decoder of a connection from the shared dictionary as it is
    /// shipped, compressed: the dictionary is decompressed, within
    /// `DICTIONARY_LIMIT` bytes, and loaded. There is no decoder where the
    /// dictionary does not decompress, or does not load.
    pub fn new(packed_dictionary: &[u8]) -> (decoder: Option<FrameDecoder>)
        ensures
            match zstd_inflated(packed_dictionary@, DICTIONARY_LIMIT as nat) {
                Some(dictionary) => if zstd_accepts(dictionary) {
                    decoder matches Some(ready) && ready.dictionary() == dictionary
                } else {
                    decoder is None
                },
                None => decoder is None,
            },
    {
        match zstd_inflate(packed_dictionary, DICTIONARY_LIMIT) {
            Some(dictionary) => {
                match zstd_with_dictionary(dictionary.as_slice()) {
                    Some(decompressor) => Some(FrameDecoder { decompressor }),
                    None => None,
                }
            },
            None => None,
        }
    }

    /// The bytes of the envelope that a frame carries. Only a binary frame carries
    /// one; its payload is decompressed with the dictionary, within the budget
    /// that its length allows.
    pub fn decode(&mut self, frame: &Frame) -> (result: Result<Vec<u8>, TransportError>)
        ensures
            final(self).dictionary() == old(self).dictionary(),
            match *frame {
                Frame::Binary(payload) => match zstd_decoded(
                    old(self).dictionary(),
                    payload@,
                    frame_budget(payload@.len()),
                ) {
                    Some(bytes) => result matches Ok(envelope) && envelope@ == bytes,
                    None => result == Err::<Vec<u8>, TransportError>(TransportError::Undecodable),
                },
                _ => result == Err::<Vec<u8>, TransportError>(TransportError::UnexpectedFrame),
            },
    {
        match frame {
            Frame::Binary(payload) => {
                let capacity = budget(payload.len());
                opened(zstd_decode(&mut self.decompressor, payload.as_slice(), capacity))
            },
            _ => Err(TransportError::UnexpectedFrame),
        }
    }
}

/// The notice around the server's words, once they are quoted.
pub fn notice_around(quoted: &String) -> (notice: String)
    ensures
        notice@ == notice_text(quoted@),
{
    let mut notice = String::from_str("Whoops, something went wrong! The error message is ");
    notice.append(quoted.as_str());
    notice.append(". Disconnecting.");
    notice
}

/// The notice the agent sends when the server reports an error.
pub fn notice_of(details: &String) -> (notice: String)
    ensures
        notice@ == error_notice(details@),
{
    let quoted = debug_quote(details);
    notice_around(&quoted)
}

/// Sorts a decoded envelope: a state is handed on as the next snapshot, an error
/// of the server ends the agent, and every other envelope is passed over.
pub fn deliver(envelope: Envelope) -> (delivery: Delivery)
    ensures
        match envelope {
            Envelope::State(snapshot) => delivery == Delivery::Snapshot(snapshot),
            Envelope::Error(details) => delivery matches Delivery::Fatal { details: given, notice }
                && given == details && notice@ == error_notice(details@),
            Envelope::Other => delivery == Delivery::Nothing,
        },
{
    match envelope {
        Envelope::State(snapshot) => Delivery::Snapshot(snapshot),
        Envelope::Error(details) => {
            let notice = notice_of(&details);
            Delivery::Fatal { details, notice }
        },
        Envelope::Other => Delivery::Nothing,
    }
}

} // verus!
