//! Client side: the keyword helper's state, query generation, and the
//! verification of what comes back.

use vstd::prelude::*;

use std::marker::PhantomData;

use crate::error::{eth_error_to_io, EthIoError, EthPirError, PirError, WireError};
use crate::record;
use crate::record::{belongs_to, payload_of, Address, Record, RecordCodec, U256Balance};
use crate::server::keyword;
use crate::server::keyword::{DirectoryState, KeywordSyncMode};
use crate::shape;
use crate::shape::{default_shape, Config, DatabaseLayout};

verus! {

/// Per-lookup client state: the address that was asked for, and what the PIR layer
/// needs to decode the answer.
pub struct LookupState<S> {
    addr: Address,
    state: S,
}

impl<S> LookupState<S> {
    /// The address that was asked for.
    pub closed spec fn addr(self) -> Address {
        self.addr
    }

    /// The PIR layer's part.
    pub closed spec fn state(self) -> S {
        self.state
    }
}

/// ETH PIR client: what is known of the keyword directory it is synced to.
///
/// Generic over the [`RecordCodec`] the server writes with; the two must agree,
/// since nothing on the wire identifies the layout.
pub struct EthPirClient<C: RecordCodec = U256Balance> {
    directory: DirectoryState,
    codec: PhantomData<C>,
}

impl<C: RecordCodec> View for EthPirClient<C> {
    type V = DirectoryState;

    closed spec fn view(&self) -> DirectoryState {
        self.directory
    }
}

/// A client with what stands beside it: the keyword directory `D` whose state it
/// keeps, and the PIR layer's client `K`.
pub struct Session<C: RecordCodec, D, K> {
    pub client: EthPirClient<C>,
    pub directory: D,
    pub pir: K,
}

/// The value that a decoded record gives whoever asked for `addr`.
///
/// The keyword index is a minimal perfect hash, so it maps an address the server
/// never indexed onto some arbitrary occupied slot rather than failing. Comparing
/// the prefix is what turns that into `NotInSet` instead of a confidently wrong
/// value.
pub fn verify_record<C: RecordCodec>(record: &Record, addr: &Address) -> (result: Result<
    C::Value,
    EthPirError,
>)
    ensures
        result == record::verified::<C>(*record, *addr),
{
    if !belongs_to(record, addr) {
        return Err(EthPirError::NotInSet);
    }
    Ok(C::decode(payload_of(record)))
}

/// How `error` is reported to those who expect an I/O error.
pub open spec fn reported(error: EthPirError) -> EthIoError {
    EthIoError { kind: error.io_kind(), error }
}

/// Whether a client can be set up with these calls: each may be made where it is
/// due.
pub open spec fn bootstrap_callable<D, K, R, M>(
    config: Config,
    layout: DatabaseLayout,
    blob: &[u8],
    read: R,
    make: M,
) -> bool where
    R: FnOnce(&[u8]) -> Result<(D, DirectoryState), WireError>,
    M: FnOnce(Config, DatabaseLayout) -> Result<K, PirError>,
 {
    &&& call_requires(read, (blob,))
    &&& call_requires(make, (config, layout))
}

/// What setting up a client from a directory blob may give. The directory is read
/// first; the first failure decides.
pub open spec fn bootstrap_gives<D, K, R, M>(
    config: Config,
    layout: DatabaseLayout,
    blob: &[u8],
    read: R,
    make: M,
    outcome: Result<(DirectoryState, D, K), EthPirError>,
) -> bool where
    R: FnOnce(&[u8]) -> Result<(D, DirectoryState), WireError>,
    M: FnOnce(Config, DatabaseLayout) -> Result<K, PirError>,
 {
    exists|found: Result<(D, DirectoryState), WireError>| #[trigger]
        call_ensures(read, (blob,), found) && match found {
            Err(e) => outcome == Err::<(DirectoryState, D, K), _>(
                EthPirError::Io { kind: e.kind, message: e.message },
            ),
            Ok((directory, state)) => exists|made: Result<K, PirError>| #[trigger]
                call_ensures(make, (config, layout), made) && outcome == match made {
                    Err(e) => Err(EthPirError::Pir(e)),
                    Ok(pir) => Ok((state, directory, pir)),
                },
        }
}

/// What resolving an address and building a query for its slot may give. The PIR
/// layer is asked for exactly the slot that the directory names.
pub open spec fn query_gives<Q, S, I, F>(
    addr: Address,
    index: I,
    ask: F,
    outcome: Result<(Q, LookupState<S>), EthPirError>,
) -> bool where I: FnOnce(&Address) -> usize, F: FnOnce(usize) -> Result<(Q, S), PirError> {
    exists|slot: usize, asked: Result<(Q, S), PirError>|
        #![trigger call_ensures(index, (&addr,), slot), call_ensures(ask, (slot,), asked)]
        {
            &&& call_ensures(index, (&addr,), slot)
            &&& call_ensures(ask, (slot,), asked)
            &&& match asked {
                Err(e) => outcome == Err::<(Q, LookupState<S>), _>(EthPirError::Pir(e)),
                Ok((query, state)) => outcome matches Ok((q, lookup)) && q == query
                    && lookup.addr() == addr && lookup.state() == state,
            }
        }
}

/// What decoding a response for a lookup may give: the PIR layer's failure, or what
/// the decoded record is worth to whoever asked.
pub open spec fn decrypt_gives<C: RecordCodec, A, S, F>(
    response: &A,
    lookup: LookupState<S>,
    decode: F,
    outcome: Result<C::Value, EthPirError>,
) -> bool where F: FnOnce(&A, &S) -> Result<Record, PirError> {
    exists|decoded: Result<Record, PirError>| #[trigger]
        call_ensures(decode, (response, &lookup.state()), decoded) && outcome == match decoded {
            Err(e) => Err(EthPirError::Pir(e)),
            Ok(record) => record::verified::<C>(record, lookup.addr()),
        }
}

impl<C: RecordCodec> EthPirClient<C> {
    /// Bootstraps from the server's full directory blob, at the fixed deployment
    /// shape. See [`try_new`](Self::try_new).
    pub fn new<D, K, R, M>(directory_blob: &[u8], read: R, make: M) -> (result: Result<
        Session<C, D, K>,
        EthIoError,
    >) where
        R: FnOnce(&[u8]) -> Result<(D, DirectoryState), WireError>,
        M: FnOnce(Config, DatabaseLayout) -> Result<K, PirError>,

        requires
            bootstrap_callable(
                shape::default_config(),
                shape::default_layout(),
                directory_blob,
                read,
                make,
            ),
        ensures
            result matches Ok(session) ==> call_ensures(
                read,
                (directory_blob,),
                Ok::<_, WireError>((session.directory, session.client@)),
            ) && call_ensures(make, (shape::default_config(), shape::default_layout()), Ok::<K, PirError>(session.pir)),
            result matches Ok(session) ==> bootstrap_gives(
                shape::default_config(),
                shape::default_layout(),
                directory_blob,
                read,
                make,
                Ok((session.client@, session.directory, session.pir)),
            ),
            result matches Err(io) ==> io == reported(io.error) && bootstrap_gives(
                shape::default_config(),
                shape::default_layout(),
                directory_blob,
                read,
                make,
                Err(io.error),
            ),
    {
        match Self::try_new(directory_blob, read, make) {
            Ok(session) => Ok(session),
            Err(e) => Err(eth_error_to_io(e)),
        }
    }

    /// Fallible bootstrap from the server's full directory blob.
    pub fn try_new<D, K, R, M>(directory_blob: &[u8], read: R, make: M) -> (result: Result<
        Session<C, D, K>,
        EthPirError,
    >) where
        R: FnOnce(&[u8]) -> Result<(D, DirectoryState), WireError>,
        M: FnOnce(Config, DatabaseLayout) -> Result<K, PirError>,

        requires
            bootstrap_callable(
                shape::default_config(),
                shape::default_layout(),
                directory_blob,
                read,
                make,
            ),
        ensures
            result matches Ok(session) ==> call_ensures(
                read,
                (directory_blob,),
                Ok::<_, WireError>((session.directory, session.client@)),
            ) && call_ensures(make, (shape::default_config(), shape::default_layout()), Ok::<K, PirError>(session.pir)),
            result matches Ok(session) ==> bootstrap_gives(
                shape::default_config(),
                shape::default_layout(),
                directory_blob,
                read,
                make,
                Ok((session.client@, session.directory, session.pir)),
            ),
            result matches Err(e) ==> bootstrap_gives(
                shape::default_config(),
                shape::default_layout(),
                directory_blob,
                read,
                make,
                Err(e),
            ),
    {
        let (config, layout) = default_shape();
        Self::try_with_shape(config, layout, directory_blob, read, make)
    }

    /// `new` at a caller-chosen shape, mainly for tests.
    pub fn with_shape<D, K, R, M>(
        config: Config,
        layout: DatabaseLayout,
        directory_blob: &[u8],
        read: R,
        make: M,
    ) -> (result: Result<Session<C, D, K>, EthIoError>) where
        R: FnOnce(&[u8]) -> Result<(D, DirectoryState), WireError>,
        M: FnOnce(Config, DatabaseLayout) -> Result<K, PirError>,

        requires
            bootstrap_callable(config, layout, directory_blob, read, make),
        ensures
            result matches Ok(session) ==> call_ensures(
                read,
                (directory_blob,),
                Ok::<_, WireError>((session.directory, session.client@)),
            ) && call_ensures(make, (config, layout), Ok::<K, PirError>(session.pir)),
            result matches Ok(session) ==> bootstrap_gives(
                config,
                layout,
                directory_blob,
                read,
                make,
                Ok((session.client@, session.directory, session.pir)),
            ),
            result matches Err(io) ==> io == reported(io.error) && bootstrap_gives(
                config,
                layout,
                directory_blob,
                read,
                make,
                Err(io.error),
            ),
    {
        match Self::try_with_shape(config, layout, directory_blob, read, make) {
            Ok(session) => Ok(session),
            Err(e) => Err(eth_error_to_io(e)),
        }
    }

    /// Fallible `new` at a caller-chosen shape.
    ///
    /// `read` gives the directory and its state from its wire form; `make` sets up
    /// the PIR layer's client.
    pub fn try_with_shape<D, K, R, M>(
        config: Config,
        layout: DatabaseLayout,
        directory_blob: &[u8],
        read: R,
        make: M,
    ) -> (result: Result<Session<C, D, K>, EthPirError>) where
        R: FnOnce(&[u8]) -> Result<(D, DirectoryState), WireError>,
        M: FnOnce(Config, DatabaseLayout) -> Result<K, PirError>,

        requires
            bootstrap_callable(config, layout, directory_blob, read, make),
        ensures
            result matches Ok(session) ==> call_ensures(
                read,
                (directory_blob,),
                Ok::<_, WireError>((session.directory, session.client@)),
            ) && call_ensures(make, (config, layout), Ok::<K, PirError>(session.pir)),
            result matches Ok(session) ==> bootstrap_gives(
                config,
                layout,
                directory_blob,
                read,
                make,
                Ok((session.client@, session.directory, session.pir)),
            ),
            result matches Err(e) ==> bootstrap_gives(
                config,
                layout,
                directory_blob,
                read,
                make,
                Err(e),
            ),
    {
        let (directory, state) = match read(directory_blob) {
            Ok(found) => found,
            Err(e) => {
                return Err(EthPirError::from(e));
            },
        };
        let pir = match make(config, layout) {
            Ok(pir) => pir,
            Err(e) => {
                return Err(EthPirError::from(e));
            },
        };
        Ok(
            Session {
                client: EthPirClient { directory: state, codec: PhantomData },
                directory,
                pir,
            },
        )
    }

    /// The generation of the hash function this client holds.
    pub fn version(&self) -> (version: u64)
        ensures
            version == self@.version,
    {
        self.directory.version
    }

    /// How much of the append-only tail this client already holds. A server is
    /// asked for what follows it.
    pub fn tail_len(&self) -> (len: usize)
        ensures
            len == self@.delta_len,
    {
        self.directory.delta_len
    }

    /// Applies a validated tail envelope. See
    /// [`try_apply_tail`](Self::try_apply_tail).
    pub fn apply_tail<F>(&mut self, tail: &[u8], apply: F) -> (result: Result<(), EthIoError>) where
        F: FnOnce(&[u8]) -> (DirectoryState, Result<(), WireError>),

        requires
            call_requires(apply, (tail,)),
        ensures
            exists|applied: (DirectoryState, Result<(), WireError>)| #[trigger]
                call_ensures(apply, (tail,), applied) && final(self)@ == applied.0 && result
                    == match applied.1 {
                    Ok(()) => Ok(()),
                    Err(e) => Err(
                        reported(EthPirError::Io { kind: e.kind, message: e.message }),
                    ),
                },
    {
        match self.try_apply_tail(tail, apply) {
            Ok(()) => Ok(()),
            Err(e) => Err(eth_error_to_io(e)),
        }
    }

    /// Applies a validated tail envelope to the directory beside this client.
    ///
    /// `apply` hands the envelope to the directory; it gives the state that the
    /// directory is in afterwards, and whether the envelope was taken.
    pub fn try_apply_tail<F>(&mut self, tail: &[u8], apply: F) -> (result: Result<
        (),
        EthPirError,
    >) where F: FnOnce(&[u8]) -> (DirectoryState, Result<(), WireError>)
        requires
            call_requires(apply, (tail,)),
        ensures
            exists|applied: (DirectoryState, Result<(), WireError>)| #[trigger]
                call_ensures(apply, (tail,), applied) && final(self)@ == applied.0 && result
                    == match applied.1 {
                    Ok(()) => Ok(()),
                    Err(e) => Err(EthPirError::Io { kind: e.kind, message: e.message }),
                },
    {
        let applied = apply(tail);
        self.directory = applied.0;
        match applied.1 {
            Ok(()) => Ok(()),
            Err(e) => Err(EthPirError::from(e)),
        }
    }

    /// Full refresh after bootstrap or server index rebuild. See
    /// [`try_resync`](Self::try_resync).
    pub fn resync<D, R>(&mut self, directory_blob: &[u8], read: R) -> (result: Result<
        D,
        EthIoError,
    >) where R: FnOnce(&[u8]) -> Result<(D, DirectoryState), WireError>
        requires
            call_requires(read, (directory_blob,)),
        ensures
            exists|found: Result<(D, DirectoryState), WireError>| #[trigger]
                call_ensures(read, (directory_blob,), found) && match found {
                    Ok((directory, state)) => final(self)@ == state && result == Ok::<
                        _,
                        EthIoError,
                    >(directory),
                    Err(e) => *final(self) == *old(self) && result == Err::<D, _>(
                        reported(EthPirError::Io { kind: e.kind, message: e.message }),
                    ),
                },
    {
        match self.try_resync(directory_blob, read) {
            Ok(directory) => Ok(directory),
            Err(e) => Err(eth_error_to_io(e)),
        }
    }

    /// Fallible full refresh after bootstrap or server index rebuild: gives the
    /// directory that takes the place of the one beside this client. A blob that
    /// cannot be read changes nothing.
    pub fn try_resync<D, R>(&mut self, directory_blob: &[u8], read: R) -> (result: Result<
        D,
        EthPirError,
    >) where R: FnOnce(&[u8]) -> Result<(D, DirectoryState), WireError>
        requires
            call_requires(read, (directory_blob,)),
        ensures
            exists|found: Result<(D, DirectoryState), WireError>| #[trigger]
                call_ensures(read, (directory_blob,), found) && match found {
                    Ok((directory, state)) => final(self)@ == state && result == Ok::<
                        _,
                        EthPirError,
                    >(directory),
                    Err(e) => *final(self) == *old(self) && result == Err::<D, _>(
                        EthPirError::Io { kind: e.kind, message: e.message },
                    ),
                },
    {
        let found = read(directory_blob);
        match found {
            Ok((directory, state)) => {
                self.directory = state;
                Ok(directory)
            },
            Err(e) => Err(EthPirError::from(e)),
        }
    }

    /// The database slot `addr` resolves to through the directory.
    ///
    /// Total, like the hash beneath it: an address the server never indexed still
    /// yields a valid slot belonging to some other address. Diagnostics only; a
    /// lookup must still go through [`try_query`](Self::try_query) and the address
    /// check in [`try_decrypt`](Self::try_decrypt).
    pub fn slot<I>(&self, addr: &Address, index: I) -> (slot: usize) where
        I: FnOnce(&Address) -> usize,

        requires
            call_requires(index, (addr,)),
        ensures
            call_ensures(index, (addr,), slot),
    {
        index(addr)
    }

    /// Serializes a query for transport.
    pub fn encode_query<Q, W>(&self, query: &Q, write: W) -> (result: Result<
        Vec<u8>,
        EthPirError,
    >) where W: FnOnce(&Q) -> Result<Vec<u8>, WireError>
        requires
            call_requires(write, (query,)),
        ensures
            exists|written: Result<Vec<u8>, WireError>| #[trigger]
                call_ensures(write, (query,), written) && result == match written {
                    Ok(bytes) => Ok(bytes),
                    Err(e) => Err(EthPirError::Io { kind: e.kind, message: e.message }),
                },
    {
        let written = write(query);
        match written {
            Ok(bytes) => Ok(bytes),
            Err(e) => Err(EthPirError::from(e)),
        }
    }

    /// Builds a PIR query for an ETH address, serialized for transport.
    pub fn try_query_bytes<Q, S, I, F, W>(
        &self,
        addr: Address,
        index: I,
        ask: F,
        write: W,
    ) -> (result: Result<(Vec<u8>, LookupState<S>), EthPirError>) where
        I: FnOnce(&Address) -> usize,
        F: FnOnce(usize) -> Result<(Q, S), PirError>,
        W: FnOnce(&Q) -> Result<Vec<u8>, WireError>,

        requires
            call_requires(index, (&addr,)),
            forall|slot: usize| #[trigger] call_requires(ask, (slot,)),
            forall|query: Q| #[trigger] call_requires(write, (&query,)),
        ensures
            exists|asked: Result<(Q, LookupState<S>), EthPirError>| #[trigger]
                query_gives(addr, index, ask, asked) && match asked {
                    Err(e) => result == Err::<(Vec<u8>, LookupState<S>), _>(e),
                    Ok((query, lookup)) => exists|written: Result<Vec<u8>, WireError>| #[trigger]
                        call_ensures(write, (&query,), written) && result == match written {
                            Ok(bytes) => Ok((bytes, lookup)),
                            Err(e) => Err(EthPirError::Io { kind: e.kind, message: e.message }),
                        },
                },
    {
        let asked = self.try_query(addr, index, ask);
        let ghost was_asked = asked;
        assert(query_gives(addr, index, ask, was_asked));
        match asked {
            Ok((query, lookup)) => match self.encode_query(&query, write) {
                Ok(bytes) => Ok((bytes, lookup)),
                Err(e) => Err(e),
            },
            Err(e) => Err(e),
        }
    }

    /// Parses a response received from a server.
    pub fn decode_response<A, R>(&self, bytes: &[u8], read: R) -> (result: Result<
        A,
        EthPirError,
    >) where R: FnOnce(&[u8]) -> Result<A, WireError>
        requires
            call_requires(read, (bytes,)),
        ensures
            exists|parsed: Result<A, WireError>| #[trigger]
                call_ensures(read, (bytes,), parsed) && result == match parsed {
                    Ok(response) => Ok(response),
                    Err(e) => Err(EthPirError::Io { kind: e.kind, message: e.message }),
                },
    {
        let parsed = read(bytes);
        match parsed {
            Ok(response) => Ok(response),
            Err(e) => Err(EthPirError::from(e)),
        }
    }

    /// Parses a serialized response and decrypts it in one step.
    pub fn try_decrypt_bytes<A, S, R, F>(
        &self,
        bytes: &[u8],
        lookup: &LookupState<S>,
        read: R,
        decode: F,
    ) -> (result: Result<C::Value, EthPirError>) where
        R: FnOnce(&[u8]) -> Result<A, WireError>,
        F: FnOnce(&A, &S) -> Result<Record, PirError>,

        requires
            call_requires(read, (bytes,)),
            forall|response: A| #[trigger] call_requires(decode, (&response, &lookup.state())),
        ensures
            exists|parsed: Result<A, WireError>| #[trigger]
                call_ensures(read, (bytes,), parsed) && match parsed {
                    Err(e) => result == Err::<C::Value, _>(
                        EthPirError::Io { kind: e.kind, message: e.message },
                    ),
                    Ok(response) => decrypt_gives::<C, A, S, F>(
                        &response,
                        *lookup,
                        decode,
                        result,
                    ),
                },
    {
        match self.decode_response(bytes, read) {
            Ok(response) => self.try_decrypt(&response, lookup, decode),
            Err(e) => Err(e),
        }
    }

    /// Builds a PIR query for an ETH address.
    ///
    /// `index` gives the slot that the directory names for an address, known to it
    /// or not; `ask` has the PIR layer build a query for a slot.
    pub fn try_query<Q, S, I, F>(&self, addr: Address, index: I, ask: F) -> (result: Result<
        (Q, LookupState<S>),
        EthPirError,
    >) where I: FnOnce(&Address) -> usize, F: FnOnce(usize) -> Result<(Q, S), PirError>
        requires
            call_requires(index, (&addr,)),
            forall|slot: usize| #[trigger] call_requires(ask, (slot,)),
        ensures
            query_gives(addr, index, ask, result),
    {
        let slot = index(&addr);
        let asked = ask(slot);
        match asked {
            Ok((query, state)) => Ok((query, LookupState { addr, state })),
            Err(e) => Err(EthPirError::from(e)),
        }
    }

    /// Decrypts a response and verifies that the retrieved record belongs to the
    /// queried address.
    pub fn decrypt<A, S, F>(&self, response: &A, lookup: &LookupState<S>, decode: F) -> (result:
        Result<C::Value, EthPirError>) where F: FnOnce(&A, &S) -> Result<Record, PirError>
        requires
            call_requires(decode, (response, &lookup.state())),
        ensures
            decrypt_gives::<C, A, S, F>(response, *lookup, decode, result),
    {
        self.try_decrypt(response, lookup, decode)
    }

    /// Fallible response decryptor with record-address verification.
    ///
    /// `decode` has the PIR layer decode a response into a record. What the record
    /// is worth to whoever asked, [`verify_record`] decides.
    pub fn try_decrypt<A, S, F>(&self, response: &A, lookup: &LookupState<S>, decode: F) -> (result:
        Result<C::Value, EthPirError>) where F: FnOnce(&A, &S) -> Result<Record, PirError>
        requires
            call_requires(decode, (response, &lookup.state())),
        ensures
            decrypt_gives::<C, A, S, F>(response, *lookup, decode, result),
    {
        let decoded = decode(response, &lookup.state);
        match decoded {
            Ok(record) => verify_record::<C>(&record, &lookup.addr),
            Err(e) => Err(EthPirError::from(e)),
        }
    }
}

/// A lookup reads the slot that the directory names for the address: where the PIR
/// layer decodes the response to a query for a slot into the record that is served
/// there, the lookup ends with what that record is worth to whoever asked.
pub proof fn law_lookup_reads_the_named_slot<C: RecordCodec, Q, S, A, I, F, E>(
    served: Seq<Record>,
    addr: Address,
    index: I,
    ask: F,
    query: Q,
    lookup: LookupState<S>,
    response: &A,
    decode: E,
    outcome: Result<C::Value, EthPirError>,
) where
    I: FnOnce(&Address) -> usize,
    F: FnOnce(usize) -> Result<(Q, S), PirError>,
    E: FnOnce(&A, &S) -> Result<Record, PirError>,

    requires
        query_gives(addr, index, ask, Ok((query, lookup))),
        decrypt_gives::<C, A, S, E>(response, lookup, decode, outcome),
        forall|slot: usize, query: Q, state: S, decoded: Result<Record, PirError>|
            #![trigger call_ensures(ask, (slot,), Ok((query, state))), call_ensures(
                decode,
                (response, &state),
                decoded,
            )]
            call_ensures(ask, (slot,), Ok((query, state))) && call_ensures(
                decode,
                (response, &state),
                decoded,
            ) ==> slot < served.len() && decoded == Ok::<_, PirError>(served[slot as int]),
    ensures
        exists|slot: usize| #[trigger]
            call_ensures(index, (&addr,), slot) && outcome == record::verified::<C>(
                served[slot as int],
                addr,
            ),
{
    let (slot, asked) = choose|slot: usize, asked: Result<(Q, S), PirError>|
        #![trigger call_ensures(index, (&addr,), slot), call_ensures(ask, (slot,), asked)]
        {
            &&& call_ensures(index, (&addr,), slot)
            &&& call_ensures(ask, (slot,), asked)
            &&& match asked {
                Err(e) => false,
                Ok((q, state)) => q == query && lookup.addr() == addr && lookup.state() == state,
            }
        };
    assert(asked == Ok::<(Q, S), PirError>((query, lookup.state())));
}

/// A client that was just set up is in exactly the state that reading the blob gave,
/// beside exactly the directory that was read and the PIR client that was made at the
/// shape that was asked for.
pub proof fn law_bootstrapped_client_is_what_was_read<D, K, R, M>(
    config: Config,
    layout: DatabaseLayout,
    blob: &[u8],
    read: R,
    make: M,
    state: DirectoryState,
    directory: D,
    pir: K,
) where
    R: FnOnce(&[u8]) -> Result<(D, DirectoryState), WireError>,
    M: FnOnce(Config, DatabaseLayout) -> Result<K, PirError>,

    requires
        bootstrap_gives(config, layout, blob, read, make, Ok((state, directory, pir))),
    ensures
        call_ensures(read, (blob,), Ok::<_, WireError>((directory, state))),
        call_ensures(make, (config, layout), Ok::<K, PirError>(pir)),
{
}

/// A client that was set up from a server's own directory is sent the tail from where
/// that directory's tail ended, and the whole directory by a server of another
/// generation.
pub proof fn law_bootstrapped_client_is_in_step<D, K, R, M>(
    config: Config,
    layout: DatabaseLayout,
    blob: &[u8],
    read: R,
    make: M,
    state: DirectoryState,
    directory: D,
    pir: K,
    served: DirectoryState,
    version: u64,
) where
    R: FnOnce(&[u8]) -> Result<(D, DirectoryState), WireError>,
    M: FnOnce(Config, DatabaseLayout) -> Result<K, PirError>,

    requires
        bootstrap_gives(config, layout, blob, read, make, Ok((state, directory, pir))),
        forall|found: Result<(D, DirectoryState), WireError>| #[trigger]
            call_ensures(read, (blob,), found) ==> (found matches Ok((_, read_as)) && read_as
                == served),
    ensures
        version == served.version ==> keyword::sync_mode_for(
            version,
            state.version,
            state.delta_len,
        ) == (KeywordSyncMode::Tail { from: served.delta_len }),
        version != served.version ==> keyword::sync_mode_for(
            version,
            state.version,
            state.delta_len,
        ) == KeywordSyncMode::Full,
{
}

/// Setting a client up fails only where the directory could not be read, with that
/// failure, or the PIR layer's client could not be made, with its error.
pub proof fn law_bootstrap_fails_only_where_a_call_fails<D, K, R, M>(
    config: Config,
    layout: DatabaseLayout,
    blob: &[u8],
    read: R,
    make: M,
    e: EthPirError,
) where
    R: FnOnce(&[u8]) -> Result<(D, DirectoryState), WireError>,
    M: FnOnce(Config, DatabaseLayout) -> Result<K, PirError>,

    requires
        bootstrap_gives(
            config,
            layout,
            blob,
            read,
            make,
            Err::<(DirectoryState, D, K), EthPirError>(e),
        ),
    ensures
        ({
            ||| exists|found: Result<(D, DirectoryState), WireError>| #[trigger]
                call_ensures(read, (blob,), found) && (found matches Err(w) && e == (
                EthPirError::Io { kind: w.kind, message: w.message }))
            ||| (exists|found: Result<(D, DirectoryState), WireError>| #[trigger]
                call_ensures(read, (blob,), found) && found is Ok) && exists|
                made: Result<K, PirError>,
            | #[trigger]
                call_ensures(make, (config, layout), made) && (made matches Err(p) && e
                    == EthPirError::Pir(p))
        }),
{
}

/// A query is one that the PIR layer built for a slot that the directory names for the
/// address, and the state kept for the lookup is that address with what the PIR layer
/// gave beside the query; no query is built only where the PIR layer refused, with its
/// error.
pub proof fn law_query_asks_for_the_named_slot<Q, S, I, F>(
    addr: Address,
    index: I,
    ask: F,
    outcome: Result<(Q, LookupState<S>), EthPirError>,
) where I: FnOnce(&Address) -> usize, F: FnOnce(usize) -> Result<(Q, S), PirError>
    requires
        query_gives(addr, index, ask, outcome),
    ensures
        outcome matches Ok((query, lookup)) ==> lookup.addr() == addr && exists|slot: usize|
            #[trigger]
            call_ensures(index, (&addr,), slot) && call_ensures(
                ask,
                (slot,),
                Ok::<(Q, S), PirError>((query, lookup.state())),
            ),
        outcome matches Err(e) ==> exists|slot: usize, p: PirError|
            #![trigger call_ensures(ask, (slot,), Err::<(Q, S), PirError>(p))]
            call_ensures(index, (&addr,), slot) && call_ensures(
                ask,
                (slot,),
                Err::<(Q, S), PirError>(p),
            ) && e == EthPirError::Pir(p),
{
    let (slot, asked) = choose|slot: usize, asked: Result<(Q, S), PirError>|
        #![trigger call_ensures(index, (&addr,), slot), call_ensures(ask, (slot,), asked)]
        {
            &&& call_ensures(index, (&addr,), slot)
            &&& call_ensures(ask, (slot,), asked)
            &&& match asked {
                Err(e) => outcome == Err::<(Q, LookupState<S>), _>(EthPirError::Pir(e)),
                Ok((query, state)) => outcome matches Ok((q, lookup)) && q == query
                    && lookup.addr() == addr && lookup.state() == state,
            }
        };
    match asked {
        Ok((query, state)) => {
            assert(asked == Ok::<(Q, S), PirError>((query, state)));
        },
        Err(p) => {
            assert(call_ensures(ask, (slot,), Err::<(Q, S), PirError>(p)));
        },
    }
}

/// A lookup gives a value exactly where the record that was decoded starts with the
/// twenty bytes of the address that was asked for, and then what the codec reads from
/// its other bytes; a decoded record that starts otherwise is "not in the set"; and a
/// response that cannot be decoded gives the PIR layer's error.
pub proof fn law_decrypt_follows_the_decoded_record<C: RecordCodec, A, S, F>(
    response: &A,
    lookup: LookupState<S>,
    decode: F,
    outcome: Result<C::Value, EthPirError>,
) where F: FnOnce(&A, &S) -> Result<Record, PirError>
    requires
        decrypt_gives::<C, A, S, F>(response, lookup, decode, outcome),
    ensures
        exists|decoded: Result<Record, PirError>| #[trigger]
            call_ensures(decode, (response, &lookup.state()), decoded) && {
                &&& decoded matches Err(p) ==> outcome == Err::<C::Value, _>(EthPirError::Pir(p))
                &&& decoded matches Ok(record) ==> {
                    &&& (forall|i: int| 0 <= i < 20 ==> #[trigger] record@[i] == lookup.addr()@[i])
                        ==> outcome == Ok::<C::Value, EthPirError>(
                        C::decoded(record::payload_in(record)),
                    )
                    &&& (exists|i: int| 0 <= i < 20 && #[trigger] record@[i] != lookup.addr()@[i])
                        ==> outcome == Err::<C::Value, _>(EthPirError::NotInSet)
                }
            },
{
    let decoded = choose|decoded: Result<Record, PirError>| #[trigger]
        call_ensures(decode, (response, &lookup.state()), decoded) && outcome == match decoded {
            Err(e) => Err(EthPirError::Pir(e)),
            Ok(record) => record::verified::<C>(record, lookup.addr()),
        };
    if let Ok(record) = decoded {
        record::law_parts_are_bytes_of_the_record(record);
        record::law_prefix_decides_a_lookup::<C>(
            record,
            lookup.addr(),
            record::payload_in(record),
        );
    }
}

/// An error that is reported as an I/O error is kept as it is.
pub proof fn law_reported_error_is_kept(error: EthPirError)
    ensures
        reported(error).error == error,
        reported(error).kind == error.io_kind(),
{
}

} // verus!
