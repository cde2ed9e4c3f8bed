//! What holds of every rebuild: what it publishes, what a failure leaves, and where
//! its time goes.

use vstd::prelude::*;

use crate::error::{EthPirError, KeywordError, PirError};
use crate::record::{Address, Record, RecordCodec};
use crate::server::laws;
use crate::server::rebuild;
use crate::server::records;
use crate::server::report;
use crate::server::report::{Duration, KeywordRebuildTimings, RefreshTimings};
use crate::server::service;
use crate::server::ServerView;

verus! {

/// Whether the calls of a rebuild act on a staging database and a served database as
/// they are meant to: encoding fills the staging database and leaves the served one
/// alone; a precomputation is made for the staging database as it is; installing a
/// precomputation with the staging database that it was made for serves that
/// database, and installing nothing leaves the served one alone; and reading the
/// clock touches neither.
pub open spec fn acts_on_databases<W, Q, E, P, I, Clock>(
    staging: spec_fn(W) -> Seq<Record>,
    database: spec_fn(W) -> Seq<Record>,
    made_for: spec_fn(Q) -> Seq<Record>,
    encode: E,
    precompute: P,
    install: I,
    clock: Clock,
) -> bool where
    E: FnOnce(W, &Vec<Record>) -> (W, Result<(), PirError>),
    P: FnOnce(W) -> (W, Option<Q>),
    I: FnOnce(W, Q) -> (W, bool),
    Clock: Fn(W) -> (W, Duration),
 {
    &&& forall|w: W, data: Vec<Record>, encoded: (W, Result<(), PirError>)| #[trigger]
        call_ensures(encode, (w, &data), encoded) ==> database(encoded.0) == database(w) && (
        encoded.1 is Ok ==> staging(encoded.0) == data@)
    &&& forall|w: W, made: (W, Option<Q>)| #[trigger]
        call_ensures(precompute, (w,), made) ==> staging(made.0) == staging(w) && database(made.0)
            == database(w) && (made.1 matches Some(q) ==> made_for(q) == staging(w))
    &&& forall|w: W, q: Q, placed: (W, bool)| #[trigger]
        call_ensures(install, (w, q), placed) ==> if placed.1 {
            made_for(q) == staging(w) ==> database(placed.0) == staging(w)
        } else {
            database(placed.0) == database(w)
        }
    &&& forall|w: W, reading: (W, Duration)| #[trigger]
        call_ensures(clock, (w,), reading) ==> staging(reading.0) == staging(w) && database(
            reading.0,
        ) == database(w)
}

/// Whether each call of a rebuild takes the time that is given for it, and reading
/// the clock takes none and tells the time.
pub open spec fn takes_time<W, Q, E, P, I, Clock>(
    now: spec_fn(W) -> nat,
    encoding: nat,
    precomputing: nat,
    installing: nat,
    encode: E,
    precompute: P,
    install: I,
    clock: Clock,
) -> bool where
    E: FnOnce(W, &Vec<Record>) -> (W, Result<(), PirError>),
    P: FnOnce(W) -> (W, Option<Q>),
    I: FnOnce(W, Q) -> (W, bool),
    Clock: Fn(W) -> (W, Duration),
 {
    &&& forall|w: W, data: Vec<Record>, encoded: (W, Result<(), PirError>)| #[trigger]
        call_ensures(encode, (w, &data), encoded) ==> now(encoded.0) == now(w) + encoding
    &&& forall|w: W, made: (W, Option<Q>)| #[trigger]
        call_ensures(precompute, (w,), made) ==> now(made.0) == now(w) + precomputing
    &&& forall|w: W, q: Q, placed: (W, bool)| #[trigger]
        call_ensures(install, (w, q), placed) ==> now(placed.0) == now(w) + installing
    &&& forall|w: W, reading: (W, Duration)| #[trigger]
        call_ensures(clock, (w,), reading) ==> reading.1@ == now(w) && now(reading.0) == now(w)
}

/// The world that a successful database rebuild hands back came out of an install
/// call that reported success, and that was given the precomputation made on the
/// world that encoding exactly `records` left. Beside that only the clock was read:
/// before the first step and after each.
pub proof fn law_refresh_installs_what_it_encoded<W, Q, E, P, I, Clock>(
    records: Seq<Record>,
    world: W,
    encode: E,
    precompute: P,
    install: I,
    clock: Clock,
    after: W,
    timings: RefreshTimings,
) -> (r: (
    (W, Duration),
    Vec<Record>,
    (W, Result<(), PirError>),
    (W, Duration),
    (W, Option<Q>),
    (W, Duration),
    (W, bool),
    (W, Duration),
)) where
    E: FnOnce(W, &Vec<Record>) -> (W, Result<(), PirError>),
    P: FnOnce(W) -> (W, Option<Q>),
    I: FnOnce(W, Q) -> (W, bool),
    Clock: Fn(W) -> (W, Duration),

    requires
        rebuild::refresh_gives(
            records,
            world,
            encode,
            precompute,
            install,
            clock,
            after,
            Ok(timings),
        ),
    ensures
        ({
            let (start, data, encoded, at, made, later, placed, end) = r;
            &&& call_ensures(clock, (world,), start)
            &&& data@ == records
            &&& call_ensures(encode, (start.0, &data), encoded)
            &&& encoded.1 is Ok
            &&& call_ensures(clock, (encoded.0,), at)
            &&& call_ensures(precompute, (at.0,), made)
            &&& made.1 is Some
            &&& call_ensures(clock, (made.0,), later)
            &&& call_ensures(install, (later.0, made.1->Some_0), placed)
            &&& placed.1
            &&& call_ensures(clock, (placed.0,), end)
            &&& after == end.0
            &&& start.1@ <= at.1@ ==> timings.database_encode@ == at.1@ - start.1@
            &&& at.1@ <= later.1@ ==> timings.precompute@ == later.1@ - at.1@
            &&& later.1@ <= end.1@ ==> timings.install@ == end.1@ - later.1@
        }),
{
    let outcome = Ok::<RefreshTimings, EthPirError>(timings);
    let (start, data, encoded) = choose|
        start: (W, Duration),
        data: Vec<Record>,
        encoded: (W, Result<(), PirError>),
    |
        #![trigger call_ensures(clock, (world,), start), call_ensures(
            encode,
            (start.0, &data),
            encoded,
        )]
        {
            &&& call_ensures(clock, (world,), start)
            &&& data@ == records
            &&& call_ensures(encode, (start.0, &data), encoded)
            &&& encoded.1 is Ok
            &&& exists|at: (W, Duration), made: (W, Option<Q>)|
                #![trigger call_ensures(clock, (encoded.0,), at), call_ensures(
                    precompute,
                    (at.0,),
                    made,
                )]
                {
                    &&& call_ensures(clock, (encoded.0,), at)
                    &&& call_ensures(precompute, (at.0,), made)
                    &&& made.1 matches Some(q) && rebuild::swap_gives(
                        start.1,
                        at.1,
                        made.0,
                        q,
                        install,
                        clock,
                        after,
                        outcome,
                    )
                }
        };
    let (at, made) = choose|at: (W, Duration), made: (W, Option<Q>)|
        #![trigger call_ensures(clock, (encoded.0,), at), call_ensures(precompute, (at.0,), made)]
        {
            &&& call_ensures(clock, (encoded.0,), at)
            &&& call_ensures(precompute, (at.0,), made)
            &&& made.1 matches Some(q) && rebuild::swap_gives(
                start.1,
                at.1,
                made.0,
                q,
                install,
                clock,
                after,
                outcome,
            )
        };
    let q = made.1->Some_0;
    let (later, placed) = choose|later: (W, Duration), placed: (W, bool)|
        #![trigger call_ensures(clock, (made.0,), later), call_ensures(
            install,
            (later.0, q),
            placed,
        )]
        {
            &&& call_ensures(clock, (made.0,), later)
            &&& call_ensures(install, (later.0, q), placed)
            &&& placed.1
            &&& exists|end: (W, Duration)| #[trigger]
                call_ensures(clock, (placed.0,), end) && after == end.0 && report::lasted(
                    timings.database_encode,
                    start.1,
                    at.1,
                ) && report::lasted(timings.precompute, at.1, later.1) && report::lasted(
                    timings.install,
                    later.1,
                    end.1,
                )
        };
    let end = choose|end: (W, Duration)| #[trigger]
        call_ensures(clock, (placed.0,), end) && after == end.0 && report::lasted(
            timings.database_encode,
            start.1,
            at.1,
        ) && report::lasted(timings.precompute, at.1, later.1) && report::lasted(
            timings.install,
            later.1,
            end.1,
        );
    (start, data, encoded, at, made, later, placed, end)
}

/// After every successful database rebuild the served database is that of the
/// server's records, whatever their number, where the calls act on the databases as
/// they are meant to.
pub proof fn law_rebuild_serves_the_records<W, Q, E, P, I, Clock>(
    staging: spec_fn(W) -> Seq<Record>,
    database: spec_fn(W) -> Seq<Record>,
    made_for: spec_fn(Q) -> Seq<Record>,
    records: Seq<Record>,
    world: W,
    encode: E,
    precompute: P,
    install: I,
    clock: Clock,
    after: W,
    timings: RefreshTimings,
) where
    E: FnOnce(W, &Vec<Record>) -> (W, Result<(), PirError>),
    P: FnOnce(W) -> (W, Option<Q>),
    I: FnOnce(W, Q) -> (W, bool),
    Clock: Fn(W) -> (W, Duration),

    requires
        acts_on_databases(staging, database, made_for, encode, precompute, install, clock),
        rebuild::refresh_gives(
            records,
            world,
            encode,
            precompute,
            install,
            clock,
            after,
            Ok(timings),
        ),
    ensures
        database(after) == records,
{
    let r = law_refresh_installs_what_it_encoded(
        records,
        world,
        encode,
        precompute,
        install,
        clock,
        after,
        timings,
    );
}

/// A database rebuild fails only where one of its steps failed, with what that step
/// said: the PIR layer's error where encoding failed, a poisoned server where no
/// precomputation was made or the pair was not installed.
pub proof fn law_refresh_fails_only_where_a_step_fails<W, Q, E, P, I, Clock>(
    records: Seq<Record>,
    world: W,
    encode: E,
    precompute: P,
    install: I,
    clock: Clock,
    after: W,
    e: EthPirError,
) where
    E: FnOnce(W, &Vec<Record>) -> (W, Result<(), PirError>),
    P: FnOnce(W) -> (W, Option<Q>),
    I: FnOnce(W, Q) -> (W, bool),
    Clock: Fn(W) -> (W, Duration),

    requires
        rebuild::refresh_gives(
            records,
            world,
            encode,
            precompute,
            install,
            clock,
            after,
            Err(e),
        ),
    ensures
        ({
            ||| exists|w: W, data: Vec<Record>, encoded: (W, Result<(), PirError>)|
                #![trigger call_ensures(encode, (w, &data), encoded)]
                call_ensures(encode, (w, &data), encoded) && (encoded.1 matches Err(p) && e
                    == EthPirError::Pir(p))
            ||| e == EthPirError::ServerPoisoned && exists|w: W, made: (W, Option<Q>)| #[trigger]
                call_ensures(precompute, (w,), made) && made.1 is None
            ||| e == EthPirError::ServerPoisoned && exists|w: W, q: Q, placed: (W, bool)|
                #[trigger]
                call_ensures(install, (w, q), placed) && !placed.1
        }),
{
}

/// A database rebuild whose steps succeed succeeds, whatever the records.
pub proof fn law_refresh_succeeds_where_its_steps_do<W, Q, E, P, I, Clock>(
    records: Seq<Record>,
    world: W,
    encode: E,
    precompute: P,
    install: I,
    clock: Clock,
    after: W,
    outcome: Result<RefreshTimings, EthPirError>,
) where
    E: FnOnce(W, &Vec<Record>) -> (W, Result<(), PirError>),
    P: FnOnce(W) -> (W, Option<Q>),
    I: FnOnce(W, Q) -> (W, bool),
    Clock: Fn(W) -> (W, Duration),

    requires
        rebuild::refresh_gives(
            records,
            world,
            encode,
            precompute,
            install,
            clock,
            after,
            outcome,
        ),
        forall|w: W, data: Vec<Record>, encoded: (W, Result<(), PirError>)| #[trigger]
            call_ensures(encode, (w, &data), encoded) ==> encoded.1 is Ok,
        forall|w: W, made: (W, Option<Q>)| #[trigger]
            call_ensures(precompute, (w,), made) ==> made.1 is Some,
        forall|w: W, q: Q, placed: (W, bool)| #[trigger]
            call_ensures(install, (w, q), placed) ==> placed.1,
    ensures
        outcome is Ok,
{
    if let Err(e) = outcome {
        law_refresh_fails_only_where_a_step_fails(
            records,
            world,
            encode,
            precompute,
            install,
            clock,
            after,
            e,
        );
    }
}

/// A database rebuild that fails leaves the served database as it was.
pub proof fn law_failed_refresh_keeps_serving<W, Q, E, P, I, Clock>(
    staging: spec_fn(W) -> Seq<Record>,
    database: spec_fn(W) -> Seq<Record>,
    made_for: spec_fn(Q) -> Seq<Record>,
    records: Seq<Record>,
    world: W,
    encode: E,
    precompute: P,
    install: I,
    clock: Clock,
    after: W,
    e: EthPirError,
) where
    E: FnOnce(W, &Vec<Record>) -> (W, Result<(), PirError>),
    P: FnOnce(W) -> (W, Option<Q>),
    I: FnOnce(W, Q) -> (W, bool),
    Clock: Fn(W) -> (W, Duration),

    requires
        acts_on_databases(staging, database, made_for, encode, precompute, install, clock),
        rebuild::refresh_gives(
            records,
            world,
            encode,
            precompute,
            install,
            clock,
            after,
            Err(e),
        ),
    ensures
        database(after) == database(world),
{
}

/// Each step of a database rebuild is reported with the time that it took, and with
/// no other's.
pub proof fn law_refresh_times_each_step<W, Q, E, P, I, Clock>(
    now: spec_fn(W) -> nat,
    encoding: nat,
    precomputing: nat,
    installing: nat,
    records: Seq<Record>,
    world: W,
    encode: E,
    precompute: P,
    install: I,
    clock: Clock,
    after: W,
    timings: RefreshTimings,
) where
    E: FnOnce(W, &Vec<Record>) -> (W, Result<(), PirError>),
    P: FnOnce(W) -> (W, Option<Q>),
    I: FnOnce(W, Q) -> (W, bool),
    Clock: Fn(W) -> (W, Duration),

    requires
        takes_time(
            now,
            encoding,
            precomputing,
            installing,
            encode,
            precompute,
            install,
            clock,
        ),
        rebuild::refresh_gives(
            records,
            world,
            encode,
            precompute,
            install,
            clock,
            after,
            Ok(timings),
        ),
    ensures
        timings.database_encode@ == encoding,
        timings.precompute@ == precomputing,
        timings.install@ == installing,
        now(after) == now(world) + timings.spent(),
{
    let r = law_refresh_installs_what_it_encoded(
        records,
        world,
        encode,
        precompute,
        install,
        clock,
        after,
        timings,
    );
}

/// After every successful rebuild of the keyword index the served database is that of
/// the server's new records, of which there is one for each entry; the directory
/// state tells that of the directory handed back; nothing is pending.
pub proof fn law_keyword_rebuild_serves_the_records<
    C: RecordCodec,
    W,
    D,
    Q,
    R,
    X,
    E,
    P,
    I,
    Clock,
>(
    staging: spec_fn(W) -> Seq<Record>,
    database: spec_fn(W) -> Seq<Record>,
    made_for: spec_fn(Q) -> Seq<Record>,
    before: ServerView,
    entries: Seq<(Address, C::Value)>,
    world: W,
    rebuild: R,
    index_all: X,
    encode: E,
    precompute: P,
    install: I,
    clock: Clock,
    left: W,
    timings: KeywordRebuildTimings,
    directory: D,
    after: ServerView,
) where
    R: FnOnce(W, &Vec<Address>) -> (W, Result<(u64, D), KeywordError>),
    X: FnOnce(&D, &Vec<Address>) -> Vec<usize>,
    E: FnOnce(W, &Vec<Record>) -> (W, Result<(), PirError>),
    P: FnOnce(W) -> (W, Option<Q>),
    I: FnOnce(W, Q) -> (W, bool),
    Clock: Fn(W) -> (W, Duration),

    requires
        acts_on_databases(staging, database, made_for, encode, precompute, install, clock),
        entries.len() <= usize::MAX,
        forall|keys: Vec<Address>, slots: Vec<usize>| #[trigger]
            call_ensures(index_all, (&directory, &keys), slots) && keys@.len() == entries.len()
                ==> service::slots_fit(slots@, entries.len()),
        rebuild::keyword_rebuild_ends::<C, W, D, Q, R, X, E, P, I, Clock>(
            before,
            entries,
            world,
            rebuild,
            index_all,
            encode,
            precompute,
            install,
            clock,
            (left, Ok((timings, directory))),
            after,
        ),
    ensures
        database(left) == after.records,
        after.records.len() == entries.len(),
        after.served == after.records,
        after.pending == 0,
        after.directory.mphf_len == entries.len(),
        after.directory.delta_len == 0,
        exists|w: W, keys: Vec<Address>, rebuilt: (W, Result<(u64, D), KeywordError>)|
            #![trigger call_ensures(rebuild, (w, &keys), rebuilt)]
            {
                &&& call_ensures(rebuild, (w, &keys), rebuilt)
                &&& keys@.len() == entries.len()
                &&& forall|i: int| 0 <= i < entries.len() ==> #[trigger] keys@[i] == entries[i].0
                &&& rebuilt.1 == Ok::<(u64, D), KeywordError>(
                    (after.directory.version, directory),
                )
            },
{
    let r = laws::relocation::<C, W, D, Q, R, X, E, P, I, Clock>(
        before,
        entries,
        world,
        rebuild,
        index_all,
        encode,
        precompute,
        install,
        clock,
        left,
        timings,
        directory,
        after,
    );
    law_rebuild_serves_the_records(
        staging,
        database,
        made_for,
        after.records,
        r.6.0,
        encode,
        precompute,
        install,
        clock,
        left,
        timings.refresh,
    );
    records::law_addresses_are_those_of_the_entries(entries);
    let slots = r.5@;
    assert(service::slots_fit(slots, entries.len()));
    let placements = records::placements_for::<C>(entries, slots);
    assert forall|i: int| 0 <= i < placements.len() implies (#[trigger] placements[i]).0
        < entries.len() by {
        assert(slots[i] < entries.len());
    }
    records::lemma_scattered_len(records::vacant_records(entries.len()), placements);
    let rebuilt = (r.3, Ok::<(u64, D), KeywordError>((after.directory.version, directory)));
    assert(call_ensures(rebuild, (r.1.0, &r.2), rebuilt));
}

/// A rebuild of the keyword index that fails leaves the server as it was, and fails
/// only where one of its steps failed, with what that step said.
pub proof fn law_failed_keyword_rebuild_changes_nothing<
    C: RecordCodec,
    W,
    D,
    Q,
    R,
    X,
    E,
    P,
    I,
    Clock,
>(
    before: ServerView,
    entries: Seq<(Address, C::Value)>,
    world: W,
    rebuild: R,
    index_all: X,
    encode: E,
    precompute: P,
    install: I,
    clock: Clock,
    left: W,
    e: EthPirError,
    after: ServerView,
) where
    R: FnOnce(W, &Vec<Address>) -> (W, Result<(u64, D), KeywordError>),
    X: FnOnce(&D, &Vec<Address>) -> Vec<usize>,
    E: FnOnce(W, &Vec<Record>) -> (W, Result<(), PirError>),
    P: FnOnce(W) -> (W, Option<Q>),
    I: FnOnce(W, Q) -> (W, bool),
    Clock: Fn(W) -> (W, Duration),

    requires
        rebuild::keyword_rebuild_ends::<C, W, D, Q, R, X, E, P, I, Clock>(
            before,
            entries,
            world,
            rebuild,
            index_all,
            encode,
            precompute,
            install,
            clock,
            (left, Err(e)),
            after,
        ),
    ensures
        after == before,
        ({
            ||| exists|w: W, keys: Vec<Address>, rebuilt: (W, Result<(u64, D), KeywordError>)|
                #![trigger call_ensures(rebuild, (w, &keys), rebuilt)]
                call_ensures(rebuild, (w, &keys), rebuilt) && (rebuilt.1 matches Err(k) && e
                    == EthPirError::Keyword(k))
            ||| exists|w: W, data: Vec<Record>, encoded: (W, Result<(), PirError>)|
                #![trigger call_ensures(encode, (w, &data), encoded)]
                call_ensures(encode, (w, &data), encoded) && (encoded.1 matches Err(p) && e
                    == EthPirError::Pir(p))
            ||| e == EthPirError::ServerPoisoned && exists|w: W, made: (W, Option<Q>)| #[trigger]
                call_ensures(precompute, (w,), made) && made.1 is None
            ||| e == EthPirError::ServerPoisoned && exists|w: W, q: Q, placed: (W, bool)|
                #[trigger]
                call_ensures(install, (w, q), placed) && !placed.1
        }),
{
    let start = choose|start: (W, Duration)| #[trigger]
        call_ensures(clock, (world,), start) && rebuild::keyword_rebuild_gives::<
            C,
            W,
            D,
            Q,
            R,
            X,
            E,
            P,
            I,
            Clock,
        >(
            entries,
            start,
            rebuild,
            index_all,
            encode,
            precompute,
            install,
            clock,
            left,
            Err(e),
        );
    if !(exists|w: W, keys: Vec<Address>, rebuilt: (W, Result<(u64, D), KeywordError>)|
        #![trigger call_ensures(rebuild, (w, &keys), rebuilt)]
        call_ensures(rebuild, (w, &keys), rebuilt) && (rebuilt.1 matches Err(k) && e
            == EthPirError::Keyword(k))) {
        let (w, laid) = choose|w: W, laid: Seq<Record>|
            #![trigger rebuild::refresh_gives(
                laid,
                w,
                encode,
                precompute,
                install,
                clock,
                left,
                Err(e),
            )]
            rebuild::refresh_gives(laid, w, encode, precompute, install, clock, left, Err(e));
        law_refresh_fails_only_where_a_step_fails(
            laid,
            w,
            encode,
            precompute,
            install,
            clock,
            left,
            e,
        );
    }
}

/// A rebuild of the keyword index whose steps succeed succeeds, whatever the entries.
pub proof fn law_keyword_rebuild_succeeds_where_its_steps_do<
    C: RecordCodec,
    W,
    D,
    Q,
    R,
    X,
    E,
    P,
    I,
    Clock,
>(
    before: ServerView,
    entries: Seq<(Address, C::Value)>,
    world: W,
    rebuild: R,
    index_all: X,
    encode: E,
    precompute: P,
    install: I,
    clock: Clock,
    left: W,
    outcome: Result<(KeywordRebuildTimings, D), EthPirError>,
    after: ServerView,
) where
    R: FnOnce(W, &Vec<Address>) -> (W, Result<(u64, D), KeywordError>),
    X: FnOnce(&D, &Vec<Address>) -> Vec<usize>,
    E: FnOnce(W, &Vec<Record>) -> (W, Result<(), PirError>),
    P: FnOnce(W) -> (W, Option<Q>),
    I: FnOnce(W, Q) -> (W, bool),
    Clock: Fn(W) -> (W, Duration),

    requires
        rebuild::keyword_rebuild_ends::<C, W, D, Q, R, X, E, P, I, Clock>(
            before,
            entries,
            world,
            rebuild,
            index_all,
            encode,
            precompute,
            install,
            clock,
            (left, outcome),
            after,
        ),
        forall|w: W, keys: Vec<Address>, rebuilt: (W, Result<(u64, D), KeywordError>)| #[trigger]
            call_ensures(rebuild, (w, &keys), rebuilt) ==> rebuilt.1 is Ok,
        forall|w: W, data: Vec<Record>, encoded: (W, Result<(), PirError>)| #[trigger]
            call_ensures(encode, (w, &data), encoded) ==> encoded.1 is Ok,
        forall|w: W, made: (W, Option<Q>)| #[trigger]
            call_ensures(precompute, (w,), made) ==> made.1 is Some,
        forall|w: W, q: Q, placed: (W, bool)| #[trigger]
            call_ensures(install, (w, q), placed) ==> placed.1,
    ensures
        outcome is Ok,
{
    if let Err(e) = outcome {
        law_failed_keyword_rebuild_changes_nothing::<C, W, D, Q, R, X, E, P, I, Clock>(
            before,
            entries,
            world,
            rebuild,
            index_all,
            encode,
            precompute,
            install,
            clock,
            left,
            e,
            after,
        );
    }
}

/// A rebuild of the keyword index that fails leaves the served database as it was,
/// where rebuilding a directory does not touch it.
pub proof fn law_failed_keyword_rebuild_keeps_serving<
    C: RecordCodec,
    W,
    D,
    Q,
    R,
    X,
    E,
    P,
    I,
    Clock,
>(
    staging: spec_fn(W) -> Seq<Record>,
    database: spec_fn(W) -> Seq<Record>,
    made_for: spec_fn(Q) -> Seq<Record>,
    before: ServerView,
    entries: Seq<(Address, C::Value)>,
    world: W,
    rebuild: R,
    index_all: X,
    encode: E,
    precompute: P,
    install: I,
    clock: Clock,
    left: W,
    e: EthPirError,
    after: ServerView,
) where
    R: FnOnce(W, &Vec<Address>) -> (W, Result<(u64, D), KeywordError>),
    X: FnOnce(&D, &Vec<Address>) -> Vec<usize>,
    E: FnOnce(W, &Vec<Record>) -> (W, Result<(), PirError>),
    P: FnOnce(W) -> (W, Option<Q>),
    I: FnOnce(W, Q) -> (W, bool),
    Clock: Fn(W) -> (W, Duration),

    requires
        acts_on_databases(staging, database, made_for, encode, precompute, install, clock),
        forall|w: W, keys: Vec<Address>, rebuilt: (W, Result<(u64, D), KeywordError>)| #[trigger]
            call_ensures(rebuild, (w, &keys), rebuilt) ==> database(rebuilt.0) == database(w),
        rebuild::keyword_rebuild_ends::<C, W, D, Q, R, X, E, P, I, Clock>(
            before,
            entries,
            world,
            rebuild,
            index_all,
            encode,
            precompute,
            install,
            clock,
            (left, Err(e)),
            after,
        ),
    ensures
        database(left) == database(world),
{
    let start = choose|start: (W, Duration)| #[trigger]
        call_ensures(clock, (world,), start) && rebuild::keyword_rebuild_gives::<
            C,
            W,
            D,
            Q,
            R,
            X,
            E,
            P,
            I,
            Clock,
        >(
            entries,
            start,
            rebuild,
            index_all,
            encode,
            precompute,
            install,
            clock,
            left,
            Err(e),
        );
    assert(database(start.0) == database(world));
    if database(left) != database(start.0) {
        let (w, laid) = choose|w: W, laid: Seq<Record>|
            #![trigger rebuild::refresh_gives(
                laid,
                w,
                encode,
                precompute,
                install,
                clock,
                left,
                Err(e),
            )]
            database(w) == database(start.0) && rebuild::refresh_gives(
                laid,
                w,
                encode,
                precompute,
                install,
                clock,
                left,
                Err(e),
            );
        law_failed_refresh_keeps_serving(
            staging,
            database,
            made_for,
            laid,
            w,
            encode,
            precompute,
            install,
            clock,
            left,
            e,
        );
    }
}

/// Each step of a keyword-index rebuild is reported with the time that its calls took,
/// and with no other's.
pub proof fn law_keyword_rebuild_times_each_step<
    C: RecordCodec,
    W,
    D,
    Q,
    R,
    X,
    E,
    P,
    I,
    Clock,
>(
    now: spec_fn(W) -> nat,
    rebuilding: nat,
    encoding: nat,
    precomputing: nat,
    installing: nat,
    before: ServerView,
    entries: Seq<(Address, C::Value)>,
    world: W,
    rebuild: R,
    index_all: X,
    encode: E,
    precompute: P,
    install: I,
    clock: Clock,
    left: W,
    timings: KeywordRebuildTimings,
    directory: D,
    after: ServerView,
) where
    R: FnOnce(W, &Vec<Address>) -> (W, Result<(u64, D), KeywordError>),
    X: FnOnce(&D, &Vec<Address>) -> Vec<usize>,
    E: FnOnce(W, &Vec<Record>) -> (W, Result<(), PirError>),
    P: FnOnce(W) -> (W, Option<Q>),
    I: FnOnce(W, Q) -> (W, bool),
    Clock: Fn(W) -> (W, Duration),

    requires
        takes_time(
            now,
            encoding,
            precomputing,
            installing,
            encode,
            precompute,
            install,
            clock,
        ),
        forall|w: W, keys: Vec<Address>, rebuilt: (W, Result<(u64, D), KeywordError>)| #[trigger]
            call_ensures(rebuild, (w, &keys), rebuilt) ==> now(rebuilt.0) == now(w) + rebuilding,
        rebuild::keyword_rebuild_ends::<C, W, D, Q, R, X, E, P, I, Clock>(
            before,
            entries,
            world,
            rebuild,
            index_all,
            encode,
            precompute,
            install,
            clock,
            (left, Ok((timings, directory))),
            after,
        ),
    ensures
        timings.collect_keys@ == 0,
        timings.mphf_rebuild@ == rebuilding,
        timings.permute@ == 0,
        timings.refresh.database_encode@ == encoding,
        timings.refresh.precompute@ == precomputing,
        timings.refresh.install@ == installing,
{
    let r = laws::relocation::<C, W, D, Q, R, X, E, P, I, Clock>(
        before,
        entries,
        world,
        rebuild,
        index_all,
        encode,
        precompute,
        install,
        clock,
        left,
        timings,
        directory,
        after,
    );
    law_refresh_times_each_step(
        now,
        encoding,
        precomputing,
        installing,
        after.records,
        r.6.0,
        encode,
        precompute,
        install,
        clock,
        left,
        timings.refresh,
    );
}

} // verus!
