//! The keyword-helper service: which directory a server holds, and what a client
//! needs to catch up with it.

use vstd::prelude::*;

use crate::error::WireError;
use crate::record::{Address, RecordCodec};
use crate::server::EthPirServer;

verus! {

/// What there is to know of a keyword directory besides its hash function.
///
/// A directory maps addresses to slots. Its base is a minimal perfect hash over
/// `mphf_len` addresses; addresses added since stand in an append-only tail of
/// `delta_len` entries, whose slots follow those of the base.
#[derive(Clone, Copy, Debug, PartialEq, Eq, Structural)]
pub struct DirectoryState {
    /// The generation of the hash function.
    pub version: u64,
    pub mphf_len: usize,
    pub delta_len: usize,
}

impl DirectoryState {
    /// How many slots the directory addresses: base and tail.
    pub open spec fn addressed(self) -> nat {
        (self.mphf_len + self.delta_len) as nat
    }

    /// The number of slots fits a machine word.
    pub open spec fn wf(self) -> bool {
        self.addressed() <= usize::MAX
    }

    /// How many slots the directory addresses.
    pub fn len(&self) -> (n: usize)
        requires
            self.wf(),
        ensures
            n == self.addressed(),
    {
        self.mphf_len + self.delta_len
    }
}

/// The index state a server needs to restart without moving any address.
pub struct KeywordCheckpoint {
    /// The directory in wire form.
    pub directory: Vec<u8>,
    pub version: u64,
    /// The address in each slot of the directory's base.
    pub keys: Vec<Address>,
}

/// What restoring a server had to do.
#[derive(Clone, Copy, Debug, PartialEq, Eq, Structural)]
pub struct RestoreReport {
    /// Records put back into the slots they had.
    pub placed: usize,
    /// Records of addresses that the directory did not know.
    pub appended: usize,
    /// Slots of the directory's base that stay empty.
    pub vacant: usize,
}

impl Default for RestoreReport {
    fn default() -> (report: Self)
        ensures
            report == (RestoreReport { placed: 0, appended: 0, vacant: 0 }),
    {
        RestoreReport { placed: 0, appended: 0, vacant: 0 }
    }
}

/// Which keyword-directory payload a client needs.
#[derive(Clone, Copy, Debug, PartialEq, Eq, Structural)]
pub enum KeywordSyncMode {
    /// The whole directory.
    Full,
    /// The tail, without the entries that the client has.
    Tail { from: usize },
}

/// The payload that brings a client of generation `client_version`, with
/// `client_tail_len` entries of the tail, up to the generation `version`.
pub open spec fn sync_mode_for(
    version: u64,
    client_version: u64,
    client_tail_len: usize,
) -> KeywordSyncMode {
    if client_version == version {
        KeywordSyncMode::Tail { from: client_tail_len }
    } else {
        KeywordSyncMode::Full
    }
}

/// The keyword-helper service as its own API surface.
pub struct KeywordWire<'a> {
    pub directory: &'a DirectoryState,
}

/// What writing into an empty buffer makes of the caller's request: the buffer as
/// `write` left it, or the failure.
pub open spec fn blob_gives<W: FnOnce(Vec<u8>) -> (Vec<u8>, Result<(), WireError>)>(
    write: W,
    result: Result<Vec<u8>, WireError>,
) -> bool {
    exists|buffer: Vec<u8>, written: (Vec<u8>, Result<(), WireError>)|
        buffer@ == Seq::<u8>::empty() && #[trigger] call_ensures(write, (buffer,), written)
            && result == match written.1 {
            Ok(()) => Ok(written.0),
            Err(e) => Err(e),
        }
}

fn write_blob<W: FnOnce(Vec<u8>) -> (Vec<u8>, Result<(), WireError>)>(write: W) -> (result: Result<
    Vec<u8>,
    WireError,
>)
    requires
        forall|buffer: Vec<u8>| #[trigger] call_requires(write, (buffer,)),
    ensures
        blob_gives(write, result),
{
    let buffer: Vec<u8> = Vec::new();
    let (blob, outcome) = write(buffer);
    match outcome {
        Ok(()) => Ok(blob),
        Err(e) => Err(e),
    }
}

impl<'a> KeywordWire<'a> {
    /// The generation of the directory's hash function.
    pub fn version(&self) -> (version: u64)
        ensures
            version == self.directory.version,
    {
        self.directory.version
    }

    /// Which payload a client with the given state needs.
    pub fn sync_mode(&self, client_version: u64, client_tail_len: usize) -> (mode: KeywordSyncMode)
        ensures
            mode == sync_mode_for(self.directory.version, client_version, client_tail_len),
    {
        if client_version == self.version() {
            KeywordSyncMode::Tail { from: client_tail_len }
        } else {
            KeywordSyncMode::Full
        }
    }

    /// The directory in wire form: what a client bootstraps or resyncs from.
    /// `write` writes the directory at the end of a buffer.
    pub fn try_full<W>(&self, write: W) -> (result: Result<Vec<u8>, WireError>) where
        W: FnOnce(Vec<u8>) -> (Vec<u8>, Result<(), WireError>),

        requires
            forall|buffer: Vec<u8>| #[trigger] call_requires(write, (buffer,)),
        ensures
            blob_gives(write, result),
    {
        write_blob(write)
    }

    /// The directory's hash function alone, in wire form. `write` writes it at the
    /// end of a buffer.
    pub fn try_mphf<W>(&self, write: W) -> (result: Result<Vec<u8>, WireError>) where
        W: FnOnce(Vec<u8>) -> (Vec<u8>, Result<(), WireError>),

        requires
            forall|buffer: Vec<u8>| #[trigger] call_requires(write, (buffer,)),
        ensures
            blob_gives(write, result),
    {
        write_blob(write)
    }

    /// The tail from entry `have` on, as a validated envelope. `write` writes the
    /// envelope from a given entry on at the end of a buffer.
    pub fn try_tail<W>(&self, have: usize, write: W) -> (result: Result<Vec<u8>, WireError>) where
        W: FnOnce(Vec<u8>, usize) -> (Vec<u8>, Result<(), WireError>),

        requires
            forall|buffer: Vec<u8>| #[trigger] call_requires(write, (buffer, have)),
        ensures
            exists|buffer: Vec<u8>, written: (Vec<u8>, Result<(), WireError>)|
                buffer@ == Seq::<u8>::empty() && #[trigger] call_ensures(
                    write,
                    (buffer, have),
                    written,
                ) && result == match written.1 {
                    Ok(()) => Ok(written.0),
                    Err(e) => Err(e),
                },
    {
        let buffer: Vec<u8> = Vec::new();
        let (tail, outcome) = write(buffer, have);
        match outcome {
            Ok(()) => Ok(tail),
            Err(e) => Err(e),
        }
    }
}

/// A client of another generation is always sent the whole directory, since
/// every slot may have moved; a client of this generation never is, and is sent
/// the tail from where its own ends.
pub proof fn law_generation_change_forces_full_sync(
    version: u64,
    client_version: u64,
    client_tail_len: usize,
)
    ensures
        sync_mode_for(version, client_version, client_tail_len) == KeywordSyncMode::Full
            <==> client_version != version,
        client_version == version ==> sync_mode_for(version, client_version, client_tail_len) == (
        KeywordSyncMode::Tail { from: client_tail_len }),
{
}

impl<C: RecordCodec> EthPirServer<C> {
    /// The keyword-helper service of this server.
    pub fn keyword(&self) -> (wire: KeywordWire<'_>)
        ensures
            *wire.directory == self@.directory,
    {
        KeywordWire { directory: self.directory_state() }
    }
}

/// A directory addresses one slot for each entry of its base and one for each of its
/// tail.
pub proof fn law_base_and_tail_are_addressed(state: DirectoryState)
    ensures
        state.addressed() == state.mphf_len + state.delta_len,
{
}

/// A blob is exactly what was written into an empty buffer, and comes exactly where
/// writing succeeded; a failure to write comes through as it is.
pub proof fn law_blob_is_what_was_written<W: FnOnce(Vec<u8>) -> (Vec<u8>, Result<(), WireError>)>(
    write: W,
    result: Result<Vec<u8>, WireError>,
)
    requires
        blob_gives(write, result),
    ensures
        exists|buffer: Vec<u8>, written: (Vec<u8>, Result<(), WireError>)|
            buffer@.len() == 0 && #[trigger] call_ensures(write, (buffer,), written) && (
            result is Ok <==> written.1 is Ok) && (result matches Ok(blob) ==> blob == written.0)
                && (result matches Err(e) ==> written.1 == Err::<(), WireError>(e)),
{
}

} // verus!
