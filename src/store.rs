//! The session store: what saving, clearing and loading write and read.
//! Reading and writing the file itself is left to the caller, which hands
//! over the text read (or its absence) and writes the text returned.
use vstd::prelude::*;
use crate::codec::{encode_records, encode_session};
use crate::decode::{decode_records, decode_session};
use crate::record::{AppWindow, WindowModel, models};
use crate::round_trip::lemma_decode_encode;

verus! {

/// How an operation on the stored session failed.
#[derive(Debug, Clone, Copy, PartialEq, Eq, Structural)]
pub enum StoreError {
    /// The session could not be read, or what was read is no session.
    StorageReadError,
    /// The session's directory or file could not be written.
    StorageWriteError,
}

/// The text that saving `records` writes, replacing whatever was stored.
pub fn save_app_state(records: &Vec<AppWindow>) -> (r: String)
    ensures
        r@ == encode_session(models(records@)),
{
    encode_records(records)
}

/// The text that clearing writes: an empty session, `[]`.
pub fn clear_app_state() -> (r: String)
    ensures
        r@ == encode_session(seq![]),
        r@ == seq!['[', ']'],
{
    let empty: Vec<AppWindow> = Vec::new();
    assert(models(empty@) =~= seq![]);
    encode_records(&empty)
}

/// The session held by the stored text, given as `None` when the storage
/// location could not be read. A missing location or a text that is not a
/// session is a `StorageReadError`; no record is recovered from a partly
/// malformed text.
pub fn load_app_state(stored: Option<String>) -> (r: Result<Vec<AppWindow>, StoreError>)
    ensures
        match r {
            Ok(v) => stored is Some && decode_session(stored->Some_0@) == Some(models(v@)),
            Err(e) => e == StoreError::StorageReadError && (stored is None || decode_session(
                stored->Some_0@,
            ) is None),
        },
{
    match stored {
        Some(text) => match decode_records(text.as_str()) {
            Some(v) => Ok(v),
            None => Err(StoreError::StorageReadError),
        },
        None => Err(StoreError::StorageReadError),
    }
}

/// Loading what saving wrote gives back the saved records, in their order;
/// saving no records and loading gives no records, not an error.
pub proof fn lemma_load_after_save(rs: Seq<WindowModel>)
    ensures
        decode_session(encode_session(rs)) == Some(rs),
{
    lemma_decode_encode(rs);
}

/// Loading after a clear gives the empty session.
pub proof fn lemma_load_after_clear()
    ensures
        decode_session(seq!['[', ']']) == Some(Seq::<WindowModel>::empty()),
{
    lemma_decode_encode(seq![]);
    assert(encode_session(Seq::<WindowModel>::empty()) == seq!['[', ']']);
}

} // verus!
