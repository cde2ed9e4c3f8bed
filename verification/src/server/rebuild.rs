//! Publishing updates: rebuilding the served database, with the keyword
//! directory as it is or with a fresh one.

use vstd::prelude::*;

use crate::address_map::AddressMap;
use crate::error::{EthPirError, KeywordError, PirError};
use crate::record::{Address, Record, RecordCodec};
use crate::server::keyword::DirectoryState;
use crate::server::records;
use crate::server::records::{collect_keys, records_to_map, scatter_map_records};
use crate::server::report;
use crate::server::report::{Duration, KeywordRebuildTimings, RefreshTimings};
use crate::server::service;
use crate::server::EthPirServer;
use crate::server::ServerView;

verus! {

/// Whether the served database can be rebuilt from `records` with these calls:
/// each may be made where it is due.
pub open spec fn refresh_callable<W, Q, E, P, I, Clock>(
    records: Seq<Record>,
    encode: E,
    precompute: P,
    install: I,
    clock: Clock,
) -> bool where
    E: FnOnce(W, &Vec<Record>) -> (W, Result<(), PirError>),
    P: FnOnce(W) -> (W, Option<Q>),
    I: FnOnce(W, Q) -> (W, bool),
    Clock: Fn(W) -> (W, Duration),
 {
    &&& forall|world: W, data: Vec<Record>|
        data@ == records ==> #[trigger] call_requires(encode, (world, &data))
    &&& forall|world: W| #[trigger] call_requires(precompute, (world,))
    &&& forall|world: W, made: Q| #[trigger] call_requires(install, (world, made))
    &&& forall|world: W| #[trigger] call_requires(clock, (world,))
}

/// What rebuilding the served database from `records` may give, where `world` is
/// the outside world with the staging database and the serving side in it: that
/// world as it is then, and how long each step took, or the failure.
///
/// The staging database is encoded from exactly `records`; then a precomputation
/// is made for it; then the two are put in place as a pair. Each step acts on the
/// world that the step before it left. The first step to fail decides, and no
/// later one is taken. The clock is read before the first step and after each.
pub open spec fn refresh_gives<W, Q, E, P, I, Clock>(
    records: Seq<Record>,
    world: W,
    encode: E,
    precompute: P,
    install: I,
    clock: Clock,
    after: W,
    outcome: Result<RefreshTimings, EthPirError>,
) -> bool where
    E: FnOnce(W, &Vec<Record>) -> (W, Result<(), PirError>),
    P: FnOnce(W) -> (W, Option<Q>),
    I: FnOnce(W, Q) -> (W, bool),
    Clock: Fn(W) -> (W, Duration),
 {
    exists|start: (W, Duration), data: Vec<Record>, encoded: (W, Result<(), PirError>)|
        #![trigger call_ensures(clock, (world,), start), call_ensures(
            encode,
            (start.0, &data),
            encoded,
        )]
        {
            &&& call_ensures(clock, (world,), start)
            &&& data@ == records
            &&& call_ensures(encode, (start.0, &data), encoded)
            &&& match encoded.1 {
                Err(e) => after == encoded.0 && outcome == Err::<RefreshTimings, _>(
                    EthPirError::Pir(e),
                ),
                Ok(()) => exists|at: (W, Duration), made: (W, Option<Q>)|
                    #![trigger call_ensures(clock, (encoded.0,), at), call_ensures(
                        precompute,
                        (at.0,),
                        made,
                    )]
                    {
                        &&& call_ensures(clock, (encoded.0,), at)
                        &&& call_ensures(precompute, (at.0,), made)
                        &&& match made.1 {
                            None => after == made.0 && outcome == Err::<RefreshTimings, _>(
                                EthPirError::ServerPoisoned,
                            ),
                            Some(precomputation) => swap_gives(
                                start.1,
                                at.1,
                                made.0,
                                precomputation,
                                install,
                                clock,
                                after,
                                outcome,
                            ),
                        }
                    },
            }
        }
}

/// The part of [`refresh_gives`] that puts the pair in place: encoding took from
/// `start` to `at`, and `world` is what making the precomputation left.
pub open spec fn swap_gives<W, Q, I, Clock>(
    start: Duration,
    at: Duration,
    world: W,
    precomputation: Q,
    install: I,
    clock: Clock,
    after: W,
    outcome: Result<RefreshTimings, EthPirError>,
) -> bool where I: FnOnce(W, Q) -> (W, bool), Clock: Fn(W) -> (W, Duration) {
    exists|later: (W, Duration), placed: (W, bool)|
        #![trigger call_ensures(clock, (world,), later), call_ensures(
            install,
            (later.0, precomputation),
            placed,
        )]
        {
            &&& call_ensures(clock, (world,), later)
            &&& call_ensures(install, (later.0, precomputation), placed)
            &&& if placed.1 {
                exists|end: (W, Duration)| #[trigger]
                    call_ensures(clock, (placed.0,), end) && after == end.0 && (
                    outcome matches Ok(timings) && report::lasted(
                        timings.database_encode,
                        start,
                        at,
                    ) && report::lasted(timings.precompute, at, later.1) && report::lasted(
                        timings.install,
                        later.1,
                        end.1,
                    ))
            } else {
                after == placed.0 && outcome == Err::<RefreshTimings, _>(
                    EthPirError::ServerPoisoned,
                )
            }
        }
}

/// Whether the keyword index can be rebuilt over `entries` with these calls: each
/// may be made where it is due, and a directory rebuilt over the addresses names
/// fitting slots for them.
pub open spec fn keyword_rebuild_callable<C: RecordCodec, W, D, Q, R, X, E, P, I, Clock>(
    entries: Seq<(Address, C::Value)>,
    rebuild: R,
    index_all: X,
    encode: E,
    precompute: P,
    install: I,
    clock: Clock,
) -> bool where
    R: FnOnce(W, &Vec<Address>) -> (W, Result<(u64, D), KeywordError>),
    X: FnOnce(&D, &Vec<Address>) -> Vec<usize>,
    E: FnOnce(W, &Vec<Record>) -> (W, Result<(), PirError>),
    P: FnOnce(W) -> (W, Option<Q>),
    I: FnOnce(W, Q) -> (W, bool),
    Clock: Fn(W) -> (W, Duration),
 {
    &&& forall|world: W, keys: Vec<Address>|
        keys@ == records::addresses_of(entries) ==> #[trigger] call_requires(
            rebuild,
            (world, &keys),
        )
    &&& forall|world: W, keys: Vec<Address>, rebuilt: (W, Result<(u64, D), KeywordError>)|
        keys@ == records::addresses_of(entries) && #[trigger] call_ensures(
            rebuild,
            (world, &keys),
            rebuilt,
        ) ==> (rebuilt.1 matches Ok(pair) ==> service::indexable(pair.1, keys, index_all))
    &&& forall|laid: Seq<Record>|
        laid.len() == entries.len() ==> #[trigger] refresh_callable(
            laid,
            encode,
            precompute,
            install,
            clock,
        )
    &&& forall|world: W| #[trigger] call_requires(clock, (world,))
}

/// What rebuilding the keyword index over `entries` may give, once the clock was
/// read at `start`: the outside world as it is then; and the generation of the new
/// directory, the records in its order, the directory, and how long each step took,
/// or the failure.
///
/// A directory is rebuilt over exactly the addresses of `entries`, it is asked for
/// exactly their slots, and the served database is rebuilt from exactly the
/// records that those slots lay out. The first failure decides, and no later step
/// is taken. The clock is read before the directory is rebuilt, after it, and before
/// the served database is rebuilt.
pub open spec fn keyword_rebuild_gives<C: RecordCodec, W, D, Q, R, X, E, P, I, Clock>(
    entries: Seq<(Address, C::Value)>,
    start: (W, Duration),
    rebuild: R,
    index_all: X,
    encode: E,
    precompute: P,
    install: I,
    clock: Clock,
    after: W,
    outcome: Result<(u64, Seq<Record>, D, KeywordRebuildTimings), EthPirError>,
) -> bool where
    R: FnOnce(W, &Vec<Address>) -> (W, Result<(u64, D), KeywordError>),
    X: FnOnce(&D, &Vec<Address>) -> Vec<usize>,
    E: FnOnce(W, &Vec<Record>) -> (W, Result<(), PirError>),
    P: FnOnce(W) -> (W, Option<Q>),
    I: FnOnce(W, Q) -> (W, bool),
    Clock: Fn(W) -> (W, Duration),
 {
    exists|
        at: (W, Duration),
        keys: Vec<Address>,
        rebuilt: (W, Result<(u64, D), KeywordError>),
    |
        #![trigger call_ensures(clock, (start.0,), at), call_ensures(
            rebuild,
            (at.0, &keys),
            rebuilt,
        )]
        {
            &&& call_ensures(clock, (start.0,), at)
            &&& keys@ == records::addresses_of(entries)
            &&& call_ensures(rebuild, (at.0, &keys), rebuilt)
            &&& match rebuilt.1 {
                Err(e) => after == rebuilt.0 && outcome == Err::<
                    (u64, Seq<Record>, D, KeywordRebuildTimings),
                    _,
                >(EthPirError::Keyword(e)),
                Ok((version, directory)) => exists|later: (W, Duration), slots: Vec<usize>|
                    #![trigger call_ensures(clock, (rebuilt.0,), later), call_ensures(
                        index_all,
                        (&directory, &keys),
                        slots,
                    )]
                    {
                        &&& call_ensures(clock, (rebuilt.0,), later)
                        &&& call_ensures(index_all, (&directory, &keys), slots)
                        &&& permuted_gives::<C, W, D, Q, E, P, I, Clock>(
                            entries,
                            start.1,
                            at.1,
                            later,
                            version,
                            directory,
                            slots@,
                            encode,
                            precompute,
                            install,
                            clock,
                            after,
                            outcome,
                        )
                    },
            }
        }
}

/// The part of [`keyword_rebuild_gives`] that follows once the new directory named
/// the slots: collecting the addresses took from `start` to `at`, and rebuilding
/// the directory from there to `later`.
pub open spec fn permuted_gives<C: RecordCodec, W, D, Q, E, P, I, Clock>(
    entries: Seq<(Address, C::Value)>,
    start: Duration,
    at: Duration,
    later: (W, Duration),
    version: u64,
    directory: D,
    slots: Seq<usize>,
    encode: E,
    precompute: P,
    install: I,
    clock: Clock,
    after: W,
    outcome: Result<(u64, Seq<Record>, D, KeywordRebuildTimings), EthPirError>,
) -> bool where
    E: FnOnce(W, &Vec<Record>) -> (W, Result<(), PirError>),
    P: FnOnce(W) -> (W, Option<Q>),
    I: FnOnce(W, Q) -> (W, bool),
    Clock: Fn(W) -> (W, Duration),
 {
    exists|end: (W, Duration), refreshed: Result<RefreshTimings, EthPirError>|
        #![trigger call_ensures(clock, (later.0,), end), refresh_gives(
            service::laid_out::<C>(entries, slots),
            end.0,
            encode,
            precompute,
            install,
            clock,
            after,
            refreshed,
        )]
        {
            &&& call_ensures(clock, (later.0,), end)
            &&& refresh_gives(
                service::laid_out::<C>(entries, slots),
                end.0,
                encode,
                precompute,
                install,
                clock,
                after,
                refreshed,
            )
            &&& match refreshed {
                Err(e) => outcome == Err::<(u64, Seq<Record>, D, KeywordRebuildTimings), _>(e),
                Ok(refresh) => {
                    &&& outcome matches Ok((v, r, d, timings))
                    &&& v == version
                    &&& r == service::laid_out::<C>(entries, slots)
                    &&& d == directory
                    &&& report::lasted(timings.collect_keys, start, at)
                    &&& report::lasted(timings.mphf_rebuild, at, later.1)
                    &&& report::lasted(timings.permute, later.1, end.1)
                    &&& timings.refresh == refresh
                },
            }
        }
}

/// How rebuilding the keyword index over `entries` may end: with a server that was
/// relocated to the new directory, or with the failure and the server as it was.
/// The clock is read first.
pub open spec fn keyword_rebuild_ends<C: RecordCodec, W, D, Q, R, X, E, P, I, Clock>(
    before: ServerView,
    entries: Seq<(Address, C::Value)>,
    world: W,
    rebuild: R,
    index_all: X,
    encode: E,
    precompute: P,
    install: I,
    clock: Clock,
    result: (W, Result<(KeywordRebuildTimings, D), EthPirError>),
    after: ServerView,
) -> bool where
    R: FnOnce(W, &Vec<Address>) -> (W, Result<(u64, D), KeywordError>),
    X: FnOnce(&D, &Vec<Address>) -> Vec<usize>,
    E: FnOnce(W, &Vec<Record>) -> (W, Result<(), PirError>),
    P: FnOnce(W) -> (W, Option<Q>),
    I: FnOnce(W, Q) -> (W, bool),
    Clock: Fn(W) -> (W, Duration),
 {
    exists|start: (W, Duration)| #[trigger]
        call_ensures(clock, (world,), start) && match result.1 {
            Err(e) => {
                &&& keyword_rebuild_gives::<C, W, D, Q, R, X, E, P, I, Clock>(
                    entries,
                    start,
                    rebuild,
                    index_all,
                    encode,
                    precompute,
                    install,
                    clock,
                    result.0,
                    Err(e),
                )
                &&& after == before
            },
            Ok((timings, directory)) => {
                &&& keyword_rebuild_gives::<C, W, D, Q, R, X, E, P, I, Clock>(
                    entries,
                    start,
                    rebuild,
                    index_all,
                    encode,
                    precompute,
                    install,
                    clock,
                    result.0,
                    Ok((after.directory.version, after.records, directory, timings)),
                )
                &&& after == before.relocated(
                    DirectoryState {
                        version: after.directory.version,
                        mphf_len: entries.len() as usize,
                        delta_len: 0,
                    },
                    after.records,
                )
            },
        }
}

/// Rebuilds the served database from `records`.
///
/// `world` is the outside world with the staging database and the serving side in
/// it. `encode` fills the staging database; `precompute` makes the precomputation
/// that goes with it, or finds the serving side poisoned; `install` swaps the pair
/// in, unless it finds the serving side poisoned.
fn refresh<W, Q, E, P, I, Clock>(
    world: W,
    records: &Vec<Record>,
    encode: E,
    precompute: P,
    install: I,
    clock: &Clock,
) -> (result: (W, Result<RefreshTimings, EthPirError>)) where
    E: FnOnce(W, &Vec<Record>) -> (W, Result<(), PirError>),
    P: FnOnce(W) -> (W, Option<Q>),
    I: FnOnce(W, Q) -> (W, bool),
    Clock: Fn(W) -> (W, Duration),

    requires
        refresh_callable(records@, encode, precompute, install, *clock),
    ensures
        refresh_gives(
            records@,
            world,
            encode,
            precompute,
            install,
            *clock,
            result.0,
            result.1,
        ),
{
    let (world, start) = clock(world);
    let (world, encoded) = encode(world, records);
    match encoded {
        Ok(()) => {},
        Err(e) => {
            return (world, Err(EthPirError::from(e)));
        },
    }
    let (world, at) = clock(world);
    let (world, made) = precompute(world);
    let precomputation = match made {
        Some(precomputation) => precomputation,
        None => {
            return (world, Err(EthPirError::ServerPoisoned));
        },
    };
    let ghost unplaced = world;
    let (world, later) = clock(world);
    let (world, placed) = install(world, precomputation);
    if !placed {
        assert(swap_gives(
            start,
            at,
            unplaced,
            precomputation,
            install,
            *clock,
            world,
            Err(EthPirError::ServerPoisoned),
        ));
        return (world, Err(EthPirError::ServerPoisoned));
    }
    let (world, end) = clock(world);
    let timings = RefreshTimings {
        database_encode: at.since(start),
        precompute: later.since(at),
        install: end.since(later),
    };
    assert(swap_gives(
        start,
        at,
        unplaced,
        precomputation,
        install,
        *clock,
        world,
        Ok(timings),
    ));
    (world, Ok(timings))
}

impl<C: RecordCodec> EthPirServer<C> {
    /// Publishes everything applied since the last rebuild, against the directory
    /// as it is. `None` if nothing was pending; then no call is made.
    ///
    /// `world` is the outside world with the staging database and the serving side
    /// in it, and is handed back.
    pub fn try_rebuild_database<W, Q, E, P, I, Clock>(
        &mut self,
        world: W,
        encode: E,
        precompute: P,
        install: I,
        clock: Clock,
    ) -> (result: (W, Result<Option<RefreshTimings>, EthPirError>)) where
        E: FnOnce(W, &Vec<Record>) -> (W, Result<(), PirError>),
        P: FnOnce(W) -> (W, Option<Q>),
        I: FnOnce(W, Q) -> (W, bool),
        Clock: Fn(W) -> (W, Duration),

        requires
            old(self)@.wf(),
            refresh_callable(old(self)@.records, encode, precompute, install, clock),
        ensures
            final(self)@.wf(),
            result.1 is Err ==> final(self)@ == old(self)@,
            result.1 is Ok ==> final(self)@.served == old(self)@.records && final(self)@.pending == 0
                && final(self)@.records == old(self)@.records && final(self)@.directory
                == old(self)@.directory,
            old(self)@.pending == 0 ==> result == (
                world,
                Ok::<Option<RefreshTimings>, EthPirError>(None),
            ) && final(self)@ == old(self)@,
            old(self)@.pending != 0 ==> match result.1 {
                Ok(None) => false,
                Ok(Some(timings)) => {
                    &&& refresh_gives(
                        old(self)@.records,
                        world,
                        encode,
                        precompute,
                        install,
                        clock,
                        result.0,
                        Ok(timings),
                    )
                    &&& final(self)@ == old(self)@.published()
                },
                Err(e) => {
                    &&& refresh_gives(
                        old(self)@.records,
                        world,
                        encode,
                        precompute,
                        install,
                        clock,
                        result.0,
                        Err(e),
                    )
                    &&& final(self)@ == old(self)@
                },
            },
    {
        if self.pending == 0 {
            return (world, Ok(None));
        }
        match refresh(world, &self.records, encode, precompute, install, &clock) {
            (world, Ok(timings)) => {
                let ghost records = self.records@;
                self.served = Ghost(records);
                self.pending = 0;
                (world, Ok(Some(timings)))
            },
            (world, Err(e)) => (world, Err(e)),
        }
    }

    /// Compacts the directory: derives a fresh one over the addresses of the
    /// current records, lays the records out in its order, and rebuilds the served
    /// database to match. See
    /// [`rebuild_keyword_index_from`](Self::rebuild_keyword_index_from).
    pub fn rebuild_keyword_index<W, D, Q, R, X, E, P, I, Clock>(
        &mut self,
        world: W,
        rebuild: R,
        index_all: X,
        encode: E,
        precompute: P,
        install: I,
        clock: Clock,
    ) -> (result: (W, Result<(KeywordRebuildTimings, D), EthPirError>)) where
        R: FnOnce(W, &Vec<Address>) -> (W, Result<(u64, D), KeywordError>),
        X: FnOnce(&D, &Vec<Address>) -> Vec<usize>,
        E: FnOnce(W, &Vec<Record>) -> (W, Result<(), PirError>),
        P: FnOnce(W) -> (W, Option<Q>),
        I: FnOnce(W, Q) -> (W, bool),
        Clock: Fn(W) -> (W, Duration),

        requires
            old(self)@.wf(),
            forall|map: AddressMap<C::Value>| #[trigger]
                map.wf() && map@ == records::records_map::<C>(old(self)@.records)
                    ==> keyword_rebuild_callable::<C, W, D, Q, R, X, E, P, I, Clock>(
                    map.entries(),
                    rebuild,
                    index_all,
                    encode,
                    precompute,
                    install,
                    clock,
                ),
            forall|world: W| #[trigger] call_requires(clock, (world,)),
        ensures
            final(self)@.wf(),
            result.1 is Err ==> final(self)@ == old(self)@,
            result.1 is Ok ==> final(self)@.served == final(self)@.records
                && final(self)@.pending == 0 && final(self)@.directory.delta_len == 0,
            exists|map: AddressMap<C::Value>| #[trigger]
                map.wf() && map@ == records::records_map::<C>(old(self)@.records)
                    && keyword_rebuild_ends::<C, W, D, Q, R, X, E, P, I, Clock>(
                    old(self)@,
                    map.entries(),
                    world,
                    rebuild,
                    index_all,
                    encode,
                    precompute,
                    install,
                    clock,
                    result,
                    final(self)@,
                ),
    {
        let (started, start) = clock(world);
        let map = records_to_map::<C>(self.records.as_slice());
        let result = self.relocate(
            started,
            start,
            &map,
            rebuild,
            index_all,
            encode,
            precompute,
            install,
            &clock,
        );
        assert(keyword_rebuild_ends::<C, W, D, Q, R, X, E, P, I, Clock>(
            old(self)@,
            map.entries(),
            world,
            rebuild,
            index_all,
            encode,
            precompute,
            install,
            clock,
            result,
            self@,
        ));
        result
    }

    /// Derives a fresh directory over the addresses of `map`, lays the records of
    /// `map` out in its order, and rebuilds the served database to match.
    ///
    /// The new records and the new directory state replace the old ones only once
    /// that database is live: clients query by slot, and every slot may move. Where
    /// any step fails, the server stays as it was. The new directory is handed back
    /// for clients to be served from.
    ///
    /// `world` is the outside world with the old directory, the staging database and
    /// the serving side in it, and is handed back. `rebuild` derives a directory over
    /// the given addresses and tells its generation; `index_all` names the slot of
    /// each; the other calls are those of
    /// [`try_rebuild_database`](Self::try_rebuild_database).
    pub fn rebuild_keyword_index_from<W, D, Q, R, X, E, P, I, Clock>(
        &mut self,
        world: W,
        map: &AddressMap<C::Value>,
        rebuild: R,
        index_all: X,
        encode: E,
        precompute: P,
        install: I,
        clock: Clock,
    ) -> (result: (W, Result<(KeywordRebuildTimings, D), EthPirError>)) where
        R: FnOnce(W, &Vec<Address>) -> (W, Result<(u64, D), KeywordError>),
        X: FnOnce(&D, &Vec<Address>) -> Vec<usize>,
        E: FnOnce(W, &Vec<Record>) -> (W, Result<(), PirError>),
        P: FnOnce(W) -> (W, Option<Q>),
        I: FnOnce(W, Q) -> (W, bool),
        Clock: Fn(W) -> (W, Duration),

        requires
            old(self)@.wf(),
            map.wf(),
            keyword_rebuild_callable::<C, W, D, Q, R, X, E, P, I, Clock>(
                map.entries(),
                rebuild,
                index_all,
                encode,
                precompute,
                install,
                clock,
            ),
        ensures
            final(self)@.wf(),
            result.1 is Err ==> final(self)@ == old(self)@,
            result.1 is Ok ==> final(self)@.served == final(self)@.records
                && final(self)@.pending == 0 && final(self)@.directory.delta_len == 0
                && final(self)@.directory.mphf_len == map.entries().len(),
            keyword_rebuild_ends::<C, W, D, Q, R, X, E, P, I, Clock>(
                old(self)@,
                map.entries(),
                world,
                rebuild,
                index_all,
                encode,
                precompute,
                install,
                clock,
                result,
                final(self)@,
            ),
    {
        let (started, start) = clock(world);
        self.relocate(
            started,
            start,
            map,
            rebuild,
            index_all,
            encode,
            precompute,
            install,
            &clock,
        )
    }

    fn relocate<W, D, Q, R, X, E, P, I, Clock>(
        &mut self,
        world: W,
        start: Duration,
        map: &AddressMap<C::Value>,
        rebuild: R,
        index_all: X,
        encode: E,
        precompute: P,
        install: I,
        clock: &Clock,
    ) -> (result: (W, Result<(KeywordRebuildTimings, D), EthPirError>)) where
        R: FnOnce(W, &Vec<Address>) -> (W, Result<(u64, D), KeywordError>),
        X: FnOnce(&D, &Vec<Address>) -> Vec<usize>,
        E: FnOnce(W, &Vec<Record>) -> (W, Result<(), PirError>),
        P: FnOnce(W) -> (W, Option<Q>),
        I: FnOnce(W, Q) -> (W, bool),
        Clock: Fn(W) -> (W, Duration),

        requires
            old(self)@.wf(),
            map.wf(),
            keyword_rebuild_callable::<C, W, D, Q, R, X, E, P, I, Clock>(
                map.entries(),
                rebuild,
                index_all,
                encode,
                precompute,
                install,
                *clock,
            ),
        ensures
            final(self)@.wf(),
            result.1 is Ok ==> final(self)@.directory.mphf_len == map.entries().len(),
            result.1 matches Err(e) ==> final(self)@ == old(self)@
                && keyword_rebuild_gives::<C, W, D, Q, R, X, E, P, I, Clock>(
                map.entries(),
                (world, start),
                rebuild,
                index_all,
                encode,
                precompute,
                install,
                *clock,
                result.0,
                Err(e),
            ),
            result.1 matches Ok((timings, directory)) ==> final(self)@ == old(self)@.relocated(
                DirectoryState {
                    version: final(self)@.directory.version,
                    mphf_len: map.entries().len() as usize,
                    delta_len: 0,
                },
                final(self)@.records,
            ) && keyword_rebuild_gives::<C, W, D, Q, R, X, E, P, I, Clock>(
                map.entries(),
                (world, start),
                rebuild,
                index_all,
                encode,
                precompute,
                install,
                *clock,
                result.0,
                Ok((final(self)@.directory.version, final(self)@.records, directory, timings)),
            ),
    {
        let keys = collect_keys(map);
        let ghost begun = (world, start);
        let (world, at) = clock(world);
        assert(call_ensures(*clock, (begun.0,), (world, at)));
        let (world, rebuilt) = rebuild(world, &keys);
        let (version, directory) = match rebuilt {
            Ok(pair) => pair,
            Err(e) => {
                return (world, Err(EthPirError::from(e)));
            },
        };
        let (world, later) = clock(world);
        let ghost at_later = (world, later);
        let slots = index_all(&directory, &keys);
        let records = scatter_map_records::<C>(map, slots.as_slice());
        let (world, end) = clock(world);
        let (world, refreshed) = refresh(world, &records, encode, precompute, install, clock);
        assert(records@ == service::laid_out::<C>(map.entries(), slots@));
        match refreshed {
            Ok(refresh) => {
                let ghost laid = records@;
                self.directory = DirectoryState { version, mphf_len: keys.len(), delta_len: 0 };
                self.records = records;
                self.served = Ghost(laid);
                self.pending = 0;
                let timings = KeywordRebuildTimings {
                    collect_keys: at.since(start),
                    mphf_rebuild: later.since(at),
                    permute: end.since(later),
                    refresh,
                };
                assert(permuted_gives::<C, W, D, Q, E, P, I, Clock>(
                    map.entries(),
                    start,
                    at,
                    at_later,
                    version,
                    directory,
                    slots@,
                    encode,
                    precompute,
                    install,
                    *clock,
                    world,
                    Ok((version, laid, directory, timings)),
                ));
                (world, Ok((timings, directory)))
            },
            Err(e) => {
                assert(permuted_gives::<C, W, D, Q, E, P, I, Clock>(
                    map.entries(),
                    start,
                    at,
                    at_later,
                    version,
                    directory,
                    slots@,
                    encode,
                    precompute,
                    install,
                    *clock,
                    world,
                    Err(e),
                ));
                (world, Err(e))
            },
        }
    }
}

} // verus!
