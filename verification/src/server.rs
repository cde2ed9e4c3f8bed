//! Server side: the plaintext records behind the PIR database, and the
//! keyword-helper service.

use vstd::prelude::*;

use std::marker::PhantomData;

use crate::record::{Record, RecordCodec, U256Balance};
use crate::server::keyword::DirectoryState;

pub mod init_laws;
pub mod keyword;
pub mod laws;
pub mod operation_laws;
pub mod rebuild;
pub mod rebuild_laws;
pub mod records;
pub mod report;
pub mod responder;
pub mod restore;
pub mod restore_laws;
pub mod service;
pub mod start_laws;
pub mod step_laws;
pub mod wire_laws;

verus! {

/// What a server holds.
#[verifier::ext_equal]
pub struct ServerView {
    /// The keyword directory that clients of this server use.
    pub directory: DirectoryState,
    /// The plaintext record in each slot.
    pub records: Seq<Record>,
    /// The records that the encoded database was last built from: what a query
    /// reads.
    pub served: Seq<Record>,
    /// How many updates were applied since the database was last built.
    pub pending: nat,
}

impl ServerView {
    /// One record per slot that the directory addresses.
    pub open spec fn aligned(self) -> bool {
        &&& self.records.len() == self.directory.addressed()
        &&& self.directory.wf()
        &&& self.pending <= usize::MAX
    }

    /// One record per slot that the directory addresses; and where no update is
    /// pending, the served database is that of the records.
    pub open spec fn wf(self) -> bool {
        &&& self.aligned()
        &&& self.pending == 0 ==> self.served == self.records
    }

    /// Whether slot `slot` holds the record of `addr`.
    pub open spec fn holds(self, slot: int, addr: crate::record::Address) -> bool {
        0 <= slot < self.records.len() && crate::record::address_in(self.records[slot]) == addr
    }

    /// With `record` in slot `slot`.
    pub open spec fn written(self, slot: int, record: Record) -> ServerView {
        ServerView { records: self.records.update(slot, record), ..self }
    }

    /// With `record` in a slot of its own, at the end.
    pub open spec fn appended(self, record: Record) -> ServerView {
        ServerView {
            directory: DirectoryState {
                delta_len: (self.directory.delta_len + 1) as usize,
                ..self.directory
            },
            records: self.records.push(record),
            ..self
        }
    }

    /// With one more update pending.
    pub open spec fn counted(self) -> ServerView {
        ServerView { pending: self.pending + 1, ..self }
    }

    /// After the database was built from the current records.
    pub open spec fn published(self) -> ServerView {
        ServerView { served: self.records, pending: 0, ..self }
    }

    /// After the records were laid out anew for another directory and the
    /// database was built from them.
    pub open spec fn relocated(self, directory: DirectoryState, records: Seq<Record>) -> ServerView {
        ServerView { directory, records, served: records, pending: 0 }
    }
}

/// ETH PIR server: keyword helper state and plaintext master records.
///
/// The encoded database itself stands beside it. What that database was last
/// built from is part of the view, so that statements can tell what is written
/// from what is served.
pub struct EthPirServer<C: RecordCodec = U256Balance> {
    directory: DirectoryState,
    records: Vec<Record>,
    served: Ghost<Seq<Record>>,
    pending: usize,
    codec: PhantomData<C>,
}

impl<C: RecordCodec> View for EthPirServer<C> {
    type V = ServerView;

    closed spec fn view(&self) -> ServerView {
        ServerView {
            directory: self.directory,
            records: self.records@,
            served: self.served@,
            pending: self.pending as nat,
        }
    }
}

impl<C: RecordCodec> EthPirServer<C> {
    pub(crate) fn directory_state(&self) -> (directory: &DirectoryState)
        ensures
            *directory == self@.directory,
    {
        &self.directory
    }
}

} // verus!
