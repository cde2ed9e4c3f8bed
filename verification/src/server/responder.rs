//! Answering queries, one at a time or in batches.

use vstd::prelude::*;

use crate::error::{EthPirError, PirError, WireError};
use crate::record::RecordCodec;
use crate::server::EthPirServer;

verus! {

/// What the serving side's reply to a query makes of the lookup: `None` says that
/// its lock was poisoned.
pub open spec fn reply_of<A>(reply: Option<Result<A, PirError>>) -> Result<A, EthPirError> {
    match reply {
        None => Err(EthPirError::ServerPoisoned),
        Some(Err(e)) => Err(EthPirError::Pir(e)),
        Some(Ok(answer)) => Ok(answer),
    }
}

pub fn take_reply<A>(reply: Option<Result<A, PirError>>) -> (result: Result<A, EthPirError>)
    ensures
        result == reply_of(reply),
{
    match reply {
        None => Err(EthPirError::ServerPoisoned),
        Some(Err(e)) => Err(EthPirError::from(e)),
        Some(Ok(answer)) => Ok(answer),
    }
}

/// Answers one query. `answer` takes the serving side's lock and asks it; `None`
/// says that the lock was poisoned.
pub fn respond_with<S, Q, A, F>(serving: &S, query: &Q, answer: F) -> (result: Result<
    A,
    EthPirError,
>) where F: FnOnce(&S, &Q) -> Option<Result<A, PirError>>
    requires
        call_requires(answer, (serving, query)),
    ensures
        exists|reply: Option<Result<A, PirError>>| #[trigger]
            call_ensures(answer, (serving, query), reply) && result == reply_of(reply),
{
    let reply = answer(serving, query);
    take_reply(reply)
}

/// Answers many queries in one pass over the database. `answer` takes the serving
/// side's lock and asks it; `None` says that the lock was poisoned.
pub fn respond_batch_with<S, Q, A, F>(serving: &S, queries: &[Q], answer: F) -> (result: Result<
    Vec<A>,
    EthPirError,
>) where F: FnOnce(&S, &[Q]) -> Option<Result<Vec<A>, PirError>>
    requires
        call_requires(answer, (serving, queries)),
    ensures
        exists|reply: Option<Result<Vec<A>, PirError>>| #[trigger]
            call_ensures(answer, (serving, queries), reply) && result == reply_of(reply),
{
    let reply = answer(serving, queries);
    take_reply(reply)
}

/// The error a lookup ends with where something could not be read or written.
pub open spec fn wire_failure(e: WireError) -> EthPirError {
    EthPirError::Io { kind: e.kind, message: e.message }
}

/// The queries among `reads`: what was parsed, in order.
pub open spec fn accepted<Q>(reads: Seq<Result<Q, WireError>>) -> Seq<Q>
    decreases reads.len(),
{
    if reads.len() == 0 {
        Seq::empty()
    } else {
        let earlier = accepted(reads.drop_last());
        match reads.last() {
            Ok(query) => earlier.push(query),
            Err(_) => earlier,
        }
    }
}

/// Where input `i` comes among the queries that were parsed.
pub open spec fn rank<Q>(reads: Seq<Result<Q, WireError>>, i: int) -> int {
    accepted(reads.take(i)).len() as int
}

/// Whether `reply` is what input `i` of a batch gets: its own failure where it
/// could not be parsed; else what writing the response of the same rank gave. Where
/// no response of that rank came, the reply is empty.
pub open spec fn batch_reply<Q>(
    reads: Seq<Result<Q, WireError>>,
    writes: Seq<Result<Vec<u8>, WireError>>,
    i: int,
    reply: Result<Vec<u8>, EthPirError>,
) -> bool {
    match reads[i] {
        Err(e) => reply == Err::<Vec<u8>, _>(wire_failure(e)),
        Ok(_) => if rank(reads, i) < writes.len() {
            match writes[rank(reads, i)] {
                Ok(bytes) => reply == Ok::<_, EthPirError>(bytes),
                Err(e) => reply == Err::<Vec<u8>, _>(wire_failure(e)),
            }
        } else {
            reply matches Ok(bytes) && bytes@ == Seq::<u8>::empty()
        },
    }
}

/// The ranks of a batch: below the number of parsed queries, growing with the
/// position, and leading to the query that was parsed there.
proof fn lemma_ranks<Q>(reads: Seq<Result<Q, WireError>>)
    ensures
        accepted(reads).len() <= reads.len(),
        forall|i: int|
            0 <= i < reads.len() && reads[i] is Ok ==> 0 <= #[trigger] rank(reads, i) < accepted(
                reads,
            ).len() && reads[i] == Ok::<Q, WireError>(accepted(reads)[rank(reads, i)]),
        forall|i: int, j: int|
            0 <= i < j < reads.len() && reads[i] is Ok && reads[j] is Ok ==> #[trigger] rank(
                reads,
                i,
            ) < #[trigger] rank(reads, j),
    decreases reads.len(),
{
    if reads.len() > 0 {
        let fewer = reads.drop_last();
        let n = reads.len() - 1;
        lemma_ranks(fewer);
        assert(reads.take(n) =~= fewer);
        assert forall|i: int| 0 <= i < n implies #[trigger] rank(reads, i) == rank(fewer, i) by {
            assert(reads.take(i) =~= fewer.take(i));
        }
        assert forall|i: int| 0 <= i < reads.len() && reads[i] is Ok implies 0
            <= #[trigger] rank(reads, i) < accepted(reads).len() && reads[i] == Ok::<Q, WireError>(
            accepted(reads)[rank(reads, i)],
        ) by {
            if i < n {
                assert(fewer[i] == reads[i]);
                assert(rank(fewer, i) < accepted(fewer).len());
            }
        }
        assert forall|i: int, j: int|
            0 <= i < j < reads.len() && reads[i] is Ok && reads[j] is Ok implies #[trigger] rank(
            reads,
            i,
        ) < #[trigger] rank(reads, j) by {
            assert(fewer[i] == reads[i]);
            assert(rank(fewer, i) < accepted(fewer).len());
            if j < n {
                assert(fewer[j] == reads[j]);
                assert(rank(fewer, i) < rank(fewer, j));
            }
        }
    }
}

/// In a batch, each query that can be parsed has a place of its own among those
/// that reach the database, in the order of the batch, and the database is asked
/// for that query at that place.
pub proof fn law_batch_keeps_order<Q>(reads: Seq<Result<Q, WireError>>, i: int, j: int)
    requires
        0 <= i < reads.len(),
        0 <= j < reads.len(),
        reads[i] is Ok,
        reads[j] is Ok,
    ensures
        0 <= rank(reads, i) < accepted(reads).len(),
        accepted(reads)[rank(reads, i)] == reads[i]->Ok_0,
        i < j <==> rank(reads, i) < rank(reads, j),
{
    lemma_ranks(reads);
    if i < j {
        assert(rank(reads, i) < rank(reads, j));
    } else if j < i {
        assert(rank(reads, j) < rank(reads, i));
    }
}

/// A query that cannot be parsed is answered with its own failure, whatever the
/// rest of the batch holds and whatever the database answers.
pub proof fn law_malformed_query_is_answered_alone<Q>(
    reads: Seq<Result<Q, WireError>>,
    writes: Seq<Result<Vec<u8>, WireError>>,
    i: int,
    reply: Result<Vec<u8>, EthPirError>,
)
    requires
        0 <= i < reads.len(),
        reads[i] is Err,
        batch_reply(reads, writes, i, reply),
    ensures
        reply == Err::<Vec<u8>, _>(wire_failure(reads[i]->Err_0)),
{
}

/// One malformed query denies nobody else in its batch: the queries that reach the
/// database, and the place of each other input among them, are the same without
/// it.
pub proof fn law_malformed_query_denies_nobody<Q>(reads: Seq<Result<Q, WireError>>, bad: int, i: int)
    requires
        0 <= bad < reads.len(),
        reads[bad] is Err,
        0 <= i < reads.len(),
        i != bad,
    ensures
        accepted(reads.remove(bad)) == accepted(reads),
        rank(reads.remove(bad), if i < bad {
            i
        } else {
            i - 1
        }) == rank(reads, i),
{
    lemma_without(reads, bad);
    if i < bad {
        assert(reads.remove(bad).take(i) =~= reads.take(i));
    } else {
        assert(reads.remove(bad).take(i - 1) =~= reads.take(i).remove(bad));
        lemma_without(reads.take(i), bad);
    }
}

proof fn lemma_without<Q>(reads: Seq<Result<Q, WireError>>, bad: int)
    requires
        0 <= bad < reads.len(),
        reads[bad] is Err,
    ensures
        accepted(reads.remove(bad)) == accepted(reads),
    decreases reads.len(),
{
    let rest = reads.remove(bad);
    if bad == reads.len() - 1 {
        assert(rest =~= reads.drop_last());
    } else {
        assert(rest.drop_last() =~= reads.drop_last().remove(bad));
        assert(rest.last() == reads.last());
        lemma_without(reads.drop_last(), bad);
    }
}

/// What answering one query in wire form may give. The lock comes first, then the
/// query is parsed, answered, and the response written; the first step to fail
/// decides.
pub open spec fn respond_bytes_gives<'a, S, G, Q, A, L, R, F, W>(
    serving: &'a S,
    query: &[u8],
    lock: L,
    read: R,
    respond: F,
    write: W,
    result: Result<Vec<u8>, EthPirError>,
) -> bool where
    L: FnOnce(&'a S) -> Option<G>,
    R: FnOnce(&G, &[u8]) -> Result<Q, WireError>,
    F: FnOnce(G, &Q) -> (G, Result<A, PirError>),
    W: FnOnce(&G, &A) -> Result<Vec<u8>, WireError>,
 {
    exists|locked: Option<G>| #[trigger]
        call_ensures(lock, (serving,), locked) && match locked {
            None => result == Err::<Vec<u8>, _>(EthPirError::ServerPoisoned),
            Some(guard) => exists|parsed: Result<Q, WireError>| #[trigger]
                call_ensures(read, (&guard, query), parsed) && answered_as(
                    guard,
                    parsed,
                    respond,
                    write,
                    result,
                ),
        }
}

/// What answering one query in wire form may give once it was parsed, with or
/// without success.
pub open spec fn answered_as<G, Q, A, F, W>(
    guard: G,
    parsed: Result<Q, WireError>,
    respond: F,
    write: W,
    result: Result<Vec<u8>, EthPirError>,
) -> bool where
    F: FnOnce(G, &Q) -> (G, Result<A, PirError>),
    W: FnOnce(&G, &A) -> Result<Vec<u8>, WireError>,
 {
    match parsed {
        Err(e) => result == Err::<Vec<u8>, _>(wire_failure(e)),
        Ok(parsed) => exists|asked: (G, Result<A, PirError>)| #[trigger]
            call_ensures(respond, (guard, &parsed), asked) && match asked.1 {
                Err(e) => result == Err::<Vec<u8>, _>(EthPirError::Pir(e)),
                Ok(answer) => exists|written: Result<Vec<u8>, WireError>| #[trigger]
                    call_ensures(write, (&asked.0, &answer), written) && result
                        == match written {
                        Ok(bytes) => Ok(bytes),
                        Err(e) => Err(wire_failure(e)),
                    },
            },
    }
}

/// Whether parsing `queries`, in order, may have given `reads`.
pub open spec fn read_by<B, G, Q, R: Fn(&G, &B) -> Result<Q, WireError>>(
    read: R,
    guard: G,
    queries: Seq<B>,
    reads: Seq<Result<Q, WireError>>,
) -> bool {
    &&& reads.len() == queries.len()
    &&& forall|i: int|
        0 <= i < queries.len() ==> call_ensures(read, (&guard, &queries[i]), #[trigger] reads[i])
}

/// Whether writing the first `n` of `responses`, in order, may have given `writes`.
pub open spec fn written_by<G, A, W: Fn(&G, &A) -> Result<Vec<u8>, WireError>>(
    write: W,
    guard: G,
    responses: Seq<A>,
    n: nat,
    writes: Seq<Result<Vec<u8>, WireError>>,
) -> bool {
    &&& writes.len() == if n < responses.len() {
        n
    } else {
        responses.len()
    }
    &&& forall|k: int|
        0 <= k < writes.len() ==> call_ensures(
            write,
            (&guard, &responses[k]),
            #[trigger] writes[k],
        )
}

/// One reply per input of a batch.
pub open spec fn replied<Q>(
    reads: Seq<Result<Q, WireError>>,
    writes: Seq<Result<Vec<u8>, WireError>>,
    replies: Seq<Result<Vec<u8>, EthPirError>>,
) -> bool {
    &&& replies.len() == reads.len()
    &&& forall|i: int|
        0 <= i < replies.len() ==> batch_reply(reads, writes, i, #[trigger] replies[i])
}

/// What answering a batch in wire form may give.
///
/// Every input is parsed under the lock. The database is asked once, for exactly
/// the queries that were parsed, and not at all where there are none; if it fails,
/// so does the batch.
pub open spec fn respond_batch_gives<'a, S, B, G, Q, A, L, R, F, W>(
    serving: &'a S,
    queries: Seq<B>,
    lock: L,
    read: R,
    respond: F,
    write: W,
    result: Result<Seq<Result<Vec<u8>, EthPirError>>, EthPirError>,
) -> bool where
    L: FnOnce(&'a S) -> Option<G>,
    R: Fn(&G, &B) -> Result<Q, WireError>,
    F: FnOnce(G, &Vec<Q>) -> (G, Result<Vec<A>, PirError>),
    W: Fn(&G, &A) -> Result<Vec<u8>, WireError>,
 {
    exists|locked: Option<G>| #[trigger]
        call_ensures(lock, (serving,), locked) && match locked {
            None => result == Err::<Seq<Result<Vec<u8>, EthPirError>>, _>(
                EthPirError::ServerPoisoned,
            ),
            Some(guard) => exists|reads: Seq<Result<Q, WireError>>| #[trigger]
                read_by(read, guard, queries, reads) && if accepted(reads).len() == 0 {
                    result matches Ok(replies) && replied(reads, Seq::empty(), replies)
                } else {
                    asked_gives(guard, reads, respond, write, result)
                },
        }
}

/// What answering a batch may give once its inputs were parsed, at least one of
/// them with success.
pub open spec fn asked_gives<G, Q, A, F, W>(
    guard: G,
    reads: Seq<Result<Q, WireError>>,
    respond: F,
    write: W,
    result: Result<Seq<Result<Vec<u8>, EthPirError>>, EthPirError>,
) -> bool where
    F: FnOnce(G, &Vec<Q>) -> (G, Result<Vec<A>, PirError>),
    W: Fn(&G, &A) -> Result<Vec<u8>, WireError>,
 {
    exists|parsed: Vec<Q>, asked: (G, Result<Vec<A>, PirError>)|
        parsed@ == accepted(reads) && #[trigger] call_ensures(respond, (guard, &parsed), asked)
            && match asked.1 {
            Err(e) => result == Err::<Seq<Result<Vec<u8>, EthPirError>>, _>(EthPirError::Pir(e)),
            Ok(responses) => exists|writes: Seq<Result<Vec<u8>, WireError>>|
                #![trigger written_by(write, asked.0, responses@, accepted(reads).len(), writes)]
                written_by(write, asked.0, responses@, accepted(reads).len(), writes) && (
                result matches Ok(replies) && replied(reads, writes, replies)),
        }
}

/// Parses each input, keeping its position: gives the queries that were parsed,
/// the position of each, and for each input the reply it has so far, empty where
/// it was parsed.
fn parse_queries<B, G, Q, R: Fn(&G, &B) -> Result<Q, WireError>>(
    queries: &[B],
    guard: &G,
    read: &R,
) -> (result: (
    Vec<Q>,
    Vec<usize>,
    Vec<Result<Vec<u8>, EthPirError>>,
    Ghost<Seq<Result<Q, WireError>>>,
))
    requires
        forall|query: B| #[trigger] call_requires(*read, (guard, &query)),
    ensures
        read_by(*read, *guard, queries@, result.3@),
        result.0@ == accepted(result.3@),
        result.1@.len() == accepted(result.3@).len(),
        forall|i: int|
            0 <= i < result.3@.len() && result.3@[i] is Ok ==> result.1@[#[trigger] rank(
                result.3@,
                i,
            )] == i,
        forall|k: int|
            0 <= k < result.1@.len() ==> #[trigger] result.1@[k] < result.3@.len()
                && result.3@[result.1@[k] as int] is Ok && rank(result.3@, result.1@[k] as int)
                == k,
        replied(result.3@, Seq::empty(), result.2@),
{
    let mut parsed: Vec<Q> = Vec::with_capacity(queries.len());
    let mut slots: Vec<usize> = Vec::with_capacity(queries.len());
    let mut replies: Vec<Result<Vec<u8>, EthPirError>> = Vec::with_capacity(queries.len());
    let ghost mut reads = Seq::<Result<Q, WireError>>::empty();
    for i in 0..queries.len()
        invariant
            forall|query: B| #[trigger] call_requires(*read, (guard, &query)),
            reads.len() == i,
            replies@.len() == i,
            forall|j: int|
                0 <= j < i ==> call_ensures(*read, (guard, &queries@[j]), #[trigger] reads[j]),
            parsed@ == accepted(reads),
            slots@.len() == accepted(reads).len(),
            forall|j: int|
                0 <= j < i && reads[j] is Ok ==> slots@[#[trigger] rank(reads, j)] == j,
            forall|k: int|
                0 <= k < slots@.len() ==> #[trigger] slots@[k] < i && reads[slots@[k] as int] is Ok
                    && rank(reads, slots@[k] as int) == k,
            forall|j: int|
                0 <= j < i ==> batch_reply(reads, Seq::empty(), j, #[trigger] replies@[j]),
    {
        let found = read(guard, &queries[i]);
        let ghost before = reads;
        proof {
            reads = reads.push(found);
            assert(reads.drop_last() =~= before);
            assert(reads.take(i as int) =~= before);
            assert forall|j: int| 0 <= j < i implies #[trigger] rank(reads, j) == rank(
                before,
                j,
            ) by {
                assert(reads.take(j) =~= before.take(j));
            }
            lemma_ranks(before);
        }
        match found {
            Ok(query) => {
                slots.push(i);
                parsed.push(query);
                replies.push(Ok(Vec::new()));
            },
            Err(e) => replies.push(Err(EthPirError::from(e))),
        }
        proof {
            assert forall|j: int| 0 <= j < i + 1 implies batch_reply(
                reads,
                Seq::empty(),
                j,
                #[trigger] replies@[j],
            ) by {
                if j < i {
                    assert(reads[j] == before[j]);
                    assert(rank(reads, j) == rank(before, j));
                }
            }
            assert forall|j: int| 0 <= j < i + 1 && reads[j] is Ok implies slots@[#[trigger] rank(
                reads,
                j,
            )] == j by {
                if j < i {
                    assert(reads[j] == before[j]);
                    assert(rank(before, j) < accepted(before).len());
                }
            }
            assert forall|k: int| 0 <= k < slots@.len() implies #[trigger] slots@[k] < i + 1
                && reads[slots@[k] as int] is Ok && rank(reads, slots@[k] as int) == k by {
                if k < accepted(before).len() {
                    assert(reads[slots@[k] as int] == before[slots@[k] as int]);
                    assert(rank(before, slots@[k] as int) == k);
                }
            }
        }
    }
    (parsed, slots, replies, Ghost(reads))
}

/// Writes each response into the reply of the input it answers.
fn write_replies<G, Q, A, W: Fn(&G, &A) -> Result<Vec<u8>, WireError>>(
    reads: Ghost<Seq<Result<Q, WireError>>>,
    slots: Vec<usize>,
    replies: Vec<Result<Vec<u8>, EthPirError>>,
    guard: &G,
    responses: &Vec<A>,
    write: &W,
) -> (result: (Vec<Result<Vec<u8>, EthPirError>>, Ghost<Seq<Result<Vec<u8>, WireError>>>))
    requires
        forall|answer: A| #[trigger] call_requires(*write, (guard, &answer)),
        slots@.len() == accepted(reads@).len(),
        forall|k: int|
            0 <= k < slots@.len() ==> #[trigger] slots@[k] < reads@.len()
                && reads@[slots@[k] as int] is Ok && rank(reads@, slots@[k] as int) == k,
        forall|i: int|
            0 <= i < reads@.len() && reads@[i] is Ok ==> slots@[#[trigger] rank(reads@, i)] == i,
        replied(reads@, Seq::empty(), replies@),
    ensures
        written_by(*write, *guard, responses@, accepted(reads@).len(), result.1@),
        replied(reads@, result.1@, result.0@),
{
    let mut replies = replies;
    let ghost mut writes = Seq::<Result<Vec<u8>, WireError>>::empty();
    let n = if slots.len() < responses.len() {
        slots.len()
    } else {
        responses.len()
    };
    for k in 0..n
        invariant
            n <= slots@.len(),
            n <= responses@.len(),
            forall|answer: A| #[trigger] call_requires(*write, (guard, &answer)),
            slots@.len() == accepted(reads@).len(),
            forall|k: int|
                0 <= k < slots@.len() ==> #[trigger] slots@[k] < reads@.len()
                    && reads@[slots@[k] as int] is Ok && rank(reads@, slots@[k] as int) == k,
            writes.len() == k,
            forall|j: int|
                0 <= j < k ==> call_ensures(
                    *write,
                    (guard, &responses@[j]),
                    #[trigger] writes[j],
                ),
            replied(reads@, writes, replies@),
    {
        let written = write(guard, &responses[k]);
        let ghost before = replies@;
        let ghost earlier = writes;
        proof {
            writes = writes.push(written);
        }
        let reply = match written {
            Ok(bytes) => Ok(bytes),
            Err(e) => Err(EthPirError::from(e)),
        };
        let slot = slots[k];
        replies.set(slot, reply);
        proof {
            lemma_ranks(reads@);
            assert forall|i: int| 0 <= i < replies@.len() implies batch_reply(
                reads@,
                writes,
                i,
                #[trigger] replies@[i],
            ) by {
                assert(batch_reply(reads@, earlier, i, before[i]));
                if i != slot && reads@[i] is Ok {
                    assert(rank(reads@, i) != rank(reads@, slot as int));
                }
            }
        }
    }
    (replies, Ghost(writes))
}

/// Whether a batch is answered as its queries are one by one: one answer for each
/// query, and at each place one of the same sense as the answer to that query alone,
/// where `sense` tells what an answer means to whoever asked.
pub open spec fn answers_agree<G, Q, A, V, F, F1>(
    respond: F,
    respond_one: F1,
    sense: spec_fn(A) -> V,
) -> bool where
    F: FnOnce(G, &Vec<Q>) -> (G, Result<Vec<A>, PirError>),
    F1: FnOnce(G, &Q) -> (G, Result<A, PirError>),
 {
    &&& forall|guard: G, parsed: Vec<Q>, asked: (G, Result<Vec<A>, PirError>)| #[trigger]
        call_ensures(respond, (guard, &parsed), asked) ==> (asked.1 matches Ok(answers)
            ==> answers@.len() == parsed@.len())
    &&& forall|
        guard: G,
        parsed: Vec<Q>,
        asked: (G, Result<Vec<A>, PirError>),
        alone: G,
        k: int,
        answered: (G, Result<A, PirError>),
    |
        #![trigger call_ensures(respond, (guard, &parsed), asked), call_ensures(
            respond_one,
            (alone, &parsed@[k]),
            answered,
        )]
        0 <= k < parsed@.len() && call_ensures(respond, (guard, &parsed), asked) && call_ensures(
            respond_one,
            (alone, &parsed@[k]),
            answered,
        ) ==> (asked.1 matches Ok(answers) ==> (answered.1 matches Ok(answer) && sense(answer)
            == sense(answers@[k])))
}

/// Whether `reply` is what writing `answer` gave.
pub open spec fn reply_written<G, A, W: Fn(&G, &A) -> Result<Vec<u8>, WireError>>(
    write: W,
    guard: G,
    answer: A,
    reply: Result<Vec<u8>, EthPirError>,
) -> bool {
    exists|written: Result<Vec<u8>, WireError>| #[trigger]
        call_ensures(write, (&guard, &answer), written) && reply == match written {
            Ok(bytes) => Ok(bytes),
            Err(e) => Err(wire_failure(e)),
        }
}

/// A query gets in a batch what it gets alone: the same parse failure; or a reply
/// written from an answer of the same sense.
///
/// `query` is input `i` of the batch, and `parsed` what parsing it gives, there and
/// here. The lock is not poisoned, and the PIR layer answers a batch as it answers
/// its queries one by one.
pub proof fn law_batch_answers_like_single_queries<'a, S, B, G, Q, A, V, L, R, F, W, R1, F1>(
    serving: &'a S,
    queries: Seq<B>,
    lock: L,
    read: R,
    respond: F,
    write: W,
    replies: Seq<Result<Vec<u8>, EthPirError>>,
    i: int,
    query: &[u8],
    read_one: R1,
    respond_one: F1,
    reply: Result<Vec<u8>, EthPirError>,
    parsed: Result<Q, WireError>,
    sense: spec_fn(A) -> V,
) where
    L: FnOnce(&'a S) -> Option<G>,
    R: Fn(&G, &B) -> Result<Q, WireError>,
    F: FnOnce(G, &Vec<Q>) -> (G, Result<Vec<A>, PirError>),
    W: Fn(&G, &A) -> Result<Vec<u8>, WireError>,
    R1: FnOnce(&G, &[u8]) -> Result<Q, WireError>,
    F1: FnOnce(G, &Q) -> (G, Result<A, PirError>),

    requires
        0 <= i < queries.len(),
        respond_batch_gives(serving, queries, lock, read, respond, write, Ok(replies)),
        respond_bytes_gives(serving, query, lock, read_one, respond_one, write, reply),
        forall|locked: Option<G>| #[trigger]
            call_ensures(lock, (serving,), locked) ==> locked is Some,
        forall|guard: G, read_as: Result<Q, WireError>| #[trigger]
            call_ensures(read, (&guard, &queries[i]), read_as) ==> read_as == parsed,
        forall|guard: G, read_as: Result<Q, WireError>| #[trigger]
            call_ensures(read_one, (&guard, query), read_as) ==> read_as == parsed,
        answers_agree(respond, respond_one, sense),
    ensures
        replies.len() == queries.len(),
        match parsed {
            Err(e) => {
                &&& replies[i] == Err::<Vec<u8>, _>(wire_failure(e))
                &&& reply == Err::<Vec<u8>, _>(wire_failure(e))
            },
            Ok(_) => exists|batched: (G, A), alone: (G, A)|
                #![trigger reply_written(write, batched.0, batched.1, replies[i]), reply_written(
                    write,
                    alone.0,
                    alone.1,
                    reply,
                )]
                {
                    &&& reply_written(write, batched.0, batched.1, replies[i])
                    &&& reply_written(write, alone.0, alone.1, reply)
                    &&& sense(batched.1) == sense(alone.1)
                },
        },
{
    let result = Ok::<_, EthPirError>(replies);
    let locked = choose|locked: Option<G>| #[trigger]
        call_ensures(lock, (serving,), locked) && match locked {
            None => false,
            Some(guard) => exists|reads: Seq<Result<Q, WireError>>| #[trigger]
                read_by(read, guard, queries, reads) && if accepted(reads).len() == 0 {
                    replied(reads, Seq::empty(), replies)
                } else {
                    asked_gives(guard, reads, respond, write, result)
                },
        };
    let guard = locked->Some_0;
    let reads = choose|reads: Seq<Result<Q, WireError>>| #[trigger]
        read_by(read, guard, queries, reads) && if accepted(reads).len() == 0 {
            replied(reads, Seq::empty(), replies)
        } else {
            asked_gives(guard, reads, respond, write, result)
        };
    assert(call_ensures(read, (&guard, &queries[i]), reads[i]));
    assert(reads[i] == parsed);
    let writes = batch_writes(guard, reads, respond, write, replies);
    assert(batch_reply(reads, writes.3, i, replies[i]));
    if parsed is Ok {
        lemma_ranks(reads);
        let k = rank(reads, i);
        assert(accepted(reads)[k] == parsed->Ok_0);
        let (qs, asked, answers, written) = writes;
        assert(qs@[k] == parsed->Ok_0);
        assert(call_ensures(write, (&asked.0, &answers@[k]), written[k]));
        assert(reply_written(write, asked.0, answers@[k], replies[i]));
        let alone = alone_answer(serving, query, lock, read_one, respond_one, write, reply, parsed);
        assert(call_ensures(respond_one, (alone.0, &qs@[k]), alone.1));
        let answer = alone.1.1->Ok_0;
        assert(reply_written(write, alone.1.0, answer, reply));
        let batched = (asked.0, answers@[k]);
        let single = (alone.1.0, answer);
        assert(reply_written(write, batched.0, batched.1, replies[i]));
        assert(reply_written(write, single.0, single.1, reply));
    }
}

/// What the database was asked for in a batch, what it answered, and what writing
/// the answers gave.
proof fn batch_writes<G, Q, A, F, W>(
    guard: G,
    reads: Seq<Result<Q, WireError>>,
    respond: F,
    write: W,
    replies: Seq<Result<Vec<u8>, EthPirError>>,
) -> (r: (
    Vec<Q>,
    (G, Result<Vec<A>, PirError>),
    Vec<A>,
    Seq<Result<Vec<u8>, WireError>>,
)) where
    F: FnOnce(G, &Vec<Q>) -> (G, Result<Vec<A>, PirError>),
    W: Fn(&G, &A) -> Result<Vec<u8>, WireError>,

    requires
        if accepted(reads).len() == 0 {
            replied(reads, Seq::empty(), replies)
        } else {
            asked_gives(guard, reads, respond, write, Ok(replies))
        },
    ensures
        replied(reads, r.3, replies),
        accepted(reads).len() > 0 ==> {
            &&& r.0@ == accepted(reads)
            &&& call_ensures(respond, (guard, &r.0), r.1)
            &&& r.1.1 == Ok::<Vec<A>, PirError>(r.2)
            &&& written_by(write, r.1.0, r.2@, accepted(reads).len(), r.3)
        },
{
    if accepted(reads).len() == 0 {
        (arbitrary(), arbitrary(), arbitrary(), Seq::empty())
    } else {
        let (parsed, asked) = choose|parsed: Vec<Q>, asked: (G, Result<Vec<A>, PirError>)|
            parsed@ == accepted(reads) && #[trigger] call_ensures(respond, (guard, &parsed), asked)
                && match asked.1 {
                Err(e) => false,
                Ok(responses) => exists|writes: Seq<Result<Vec<u8>, WireError>>|
                    #![trigger written_by(
                        write,
                        asked.0,
                        responses@,
                        accepted(reads).len(),
                        writes,
                    )]
                    written_by(write, asked.0, responses@, accepted(reads).len(), writes)
                        && replied(reads, writes, replies),
            };
        let responses = asked.1->Ok_0;
        let writes = choose|writes: Seq<Result<Vec<u8>, WireError>>|
            #![trigger written_by(write, asked.0, responses@, accepted(reads).len(), writes)]
            written_by(write, asked.0, responses@, accepted(reads).len(), writes) && replied(
                reads,
                writes,
                replies,
            );
        (parsed, asked, responses, writes)
    }
}

/// The lock under which a query was answered alone, and the answer.
proof fn alone_answer<'a, S, G, Q, A, L, R, F, W>(
    serving: &'a S,
    query: &[u8],
    lock: L,
    read: R,
    respond: F,
    write: W,
    reply: Result<Vec<u8>, EthPirError>,
    parsed: Result<Q, WireError>,
) -> (r: (G, (G, Result<A, PirError>))) where
    L: FnOnce(&'a S) -> Option<G>,
    R: FnOnce(&G, &[u8]) -> Result<Q, WireError>,
    F: FnOnce(G, &Q) -> (G, Result<A, PirError>),
    W: Fn(&G, &A) -> Result<Vec<u8>, WireError>,

    requires
        respond_bytes_gives(serving, query, lock, read, respond, write, reply),
        forall|locked: Option<G>| #[trigger]
            call_ensures(lock, (serving,), locked) ==> locked is Some,
        forall|guard: G, read_as: Result<Q, WireError>| #[trigger]
            call_ensures(read, (&guard, query), read_as) ==> read_as == parsed,
        parsed is Ok,
    ensures
        call_ensures(respond, (r.0, &parsed->Ok_0), r.1),
        match r.1.1 {
            Err(e) => reply == Err::<Vec<u8>, _>(EthPirError::Pir(e)),
            Ok(answer) => reply_written(write, r.1.0, answer, reply),
        },
{
    let locked = choose|locked: Option<G>| #[trigger]
        call_ensures(lock, (serving,), locked) && match locked {
            None => false,
            Some(guard) => exists|read_as: Result<Q, WireError>| #[trigger]
                call_ensures(read, (&guard, query), read_as) && answered_as(
                    guard,
                    read_as,
                    respond,
                    write,
                    reply,
                ),
        };
    let guard = locked->Some_0;
    let read_as = choose|read_as: Result<Q, WireError>| #[trigger]
        call_ensures(read, (&guard, query), read_as) && answered_as(
            guard,
            read_as,
            respond,
            write,
            reply,
        );
    let asked = choose|asked: (G, Result<A, PirError>)| #[trigger]
        call_ensures(respond, (guard, &parsed->Ok_0), asked) && match asked.1 {
            Err(e) => reply == Err::<Vec<u8>, _>(EthPirError::Pir(e)),
            Ok(answer) => reply_written(write, asked.0, answer, reply),
        };
    (guard, asked)
}

/// A reply in a batch decrypts to what the reply to the same query alone decrypts to:
/// where writing an answer does not fail and keeps its sense, which `read_back` tells
/// from its wire form, both replies have the same sense.
///
/// The rest is as in [`law_batch_answers_like_single_queries`].
pub proof fn law_batch_reply_decrypts_like_a_single_one<
    'a,
    S,
    B,
    G,
    Q,
    A,
    V,
    L,
    R,
    F,
    W,
    R1,
    F1,
>(
    serving: &'a S,
    queries: Seq<B>,
    lock: L,
    read: R,
    respond: F,
    write: W,
    replies: Seq<Result<Vec<u8>, EthPirError>>,
    i: int,
    query: &[u8],
    read_one: R1,
    respond_one: F1,
    reply: Result<Vec<u8>, EthPirError>,
    parsed: Result<Q, WireError>,
    sense: spec_fn(A) -> V,
    read_back: spec_fn(Seq<u8>) -> V,
) where
    L: FnOnce(&'a S) -> Option<G>,
    R: Fn(&G, &B) -> Result<Q, WireError>,
    F: FnOnce(G, &Vec<Q>) -> (G, Result<Vec<A>, PirError>),
    W: Fn(&G, &A) -> Result<Vec<u8>, WireError>,
    R1: FnOnce(&G, &[u8]) -> Result<Q, WireError>,
    F1: FnOnce(G, &Q) -> (G, Result<A, PirError>),

    requires
        0 <= i < queries.len(),
        respond_batch_gives(serving, queries, lock, read, respond, write, Ok(replies)),
        respond_bytes_gives(serving, query, lock, read_one, respond_one, write, reply),
        forall|locked: Option<G>| #[trigger]
            call_ensures(lock, (serving,), locked) ==> locked is Some,
        forall|guard: G, read_as: Result<Q, WireError>| #[trigger]
            call_ensures(read, (&guard, &queries[i]), read_as) ==> read_as == parsed,
        forall|guard: G, read_as: Result<Q, WireError>| #[trigger]
            call_ensures(read_one, (&guard, query), read_as) ==> read_as == parsed,
        answers_agree(respond, respond_one, sense),
        parsed is Ok,
        forall|guard: G, answer: A, written: Result<Vec<u8>, WireError>| #[trigger]
            call_ensures(write, (&guard, &answer), written) ==> (written matches Ok(bytes)
                && read_back(bytes@) == sense(answer)),
    ensures
        replies[i] is Ok,
        reply is Ok,
        read_back(replies[i]->Ok_0@) == read_back(reply->Ok_0@),
{
    law_batch_answers_like_single_queries(
        serving,
        queries,
        lock,
        read,
        respond,
        write,
        replies,
        i,
        query,
        read_one,
        respond_one,
        reply,
        parsed,
        sense,
    );
}

/// An answer comes through as it is, a failure of the PIR layer with its error, and a
/// poisoned lock as a poisoned server.
pub proof fn law_reply_comes_through<A>(reply: Option<Result<A, PirError>>)
    ensures
        forall|answer: A|
            reply == Some(Ok::<A, PirError>(answer)) <==> #[trigger] reply_of(reply) == Ok::<
                A,
                EthPirError,
            >(answer),
        reply is None <==> reply_of(reply) == Err::<A, EthPirError>(EthPirError::ServerPoisoned),
        forall|p: PirError|
            reply == Some(Err::<A, PirError>(p)) <==> #[trigger] reply_of(reply) == Err::<
                A,
                EthPirError,
            >(EthPirError::Pir(p)),
{
}

/// A wire failure keeps its kind and what was said of it.
pub proof fn law_wire_failure_is_kept(e: WireError)
    ensures
        wire_failure(e) matches EthPirError::Io { kind, message } && kind == e.kind && message
            == e.message,
{
}

/// A query that is answered in wire form was parsed under the lock, answered, and its
/// answer written: the reply is what writing gave.
pub proof fn law_reply_is_the_written_answer<'a, S, G, Q, A, L, R, F, W>(
    serving: &'a S,
    query: &[u8],
    lock: L,
    read: R,
    respond: F,
    write: W,
    bytes: Vec<u8>,
) where
    L: FnOnce(&'a S) -> Option<G>,
    R: FnOnce(&G, &[u8]) -> Result<Q, WireError>,
    F: FnOnce(G, &Q) -> (G, Result<A, PirError>),
    W: FnOnce(&G, &A) -> Result<Vec<u8>, WireError>,

    requires
        respond_bytes_gives(serving, query, lock, read, respond, write, Ok(bytes)),
    ensures
        exists|guard: G, parsed: Q, asked: (G, Result<A, PirError>), answer: A|
            #![trigger call_ensures(respond, (guard, &parsed), asked), call_ensures(
                write,
                (&asked.0, &answer),
                Ok::<Vec<u8>, WireError>(bytes),
            )]
            {
                &&& call_ensures(lock, (serving,), Some(guard))
                &&& call_ensures(read, (&guard, query), Ok::<Q, WireError>(parsed))
                &&& call_ensures(respond, (guard, &parsed), asked)
                &&& asked.1 == Ok::<A, PirError>(answer)
                &&& call_ensures(write, (&asked.0, &answer), Ok::<Vec<u8>, WireError>(bytes))
            },
{
    let result = Ok::<Vec<u8>, EthPirError>(bytes);
    let locked = choose|locked: Option<G>| #[trigger]
        call_ensures(lock, (serving,), locked) && (locked matches Some(guard) && exists|
            parsed: Result<Q, WireError>,
        | #[trigger]
            call_ensures(read, (&guard, query), parsed) && answered_as(
                guard,
                parsed,
                respond,
                write,
                result,
            ));
    let guard = locked->Some_0;
    let read_as = choose|parsed: Result<Q, WireError>| #[trigger]
        call_ensures(read, (&guard, query), parsed) && answered_as(
            guard,
            parsed,
            respond,
            write,
            result,
        );
    let parsed = read_as->Ok_0;
    let asked = choose|asked: (G, Result<A, PirError>)| #[trigger]
        call_ensures(respond, (guard, &parsed), asked) && (asked.1 matches Ok(answer) && exists|
            written: Result<Vec<u8>, WireError>,
        | #[trigger]
            call_ensures(write, (&asked.0, &answer), written) && written == Ok::<Vec<u8>, WireError>(
                bytes,
            ));
    let answer = asked.1->Ok_0;
    assert(locked == Some(guard));
    assert(read_as == Ok::<Q, WireError>(parsed));
    assert(asked.1 == Ok::<A, PirError>(answer));
    assert(call_ensures(write, (&asked.0, &answer), Ok::<Vec<u8>, WireError>(bytes)));
}

/// A query in wire form fails only where a step failed, with what that step said.
pub proof fn law_single_query_fails_only_where_a_step_fails<'a, S, G, Q, A, L, R, F, W>(
    serving: &'a S,
    query: &[u8],
    lock: L,
    read: R,
    respond: F,
    write: W,
    e: EthPirError,
) where
    L: FnOnce(&'a S) -> Option<G>,
    R: FnOnce(&G, &[u8]) -> Result<Q, WireError>,
    F: FnOnce(G, &Q) -> (G, Result<A, PirError>),
    W: FnOnce(&G, &A) -> Result<Vec<u8>, WireError>,

    requires
        respond_bytes_gives(
            serving,
            query,
            lock,
            read,
            respond,
            write,
            Err::<Vec<u8>, EthPirError>(e),
        ),
    ensures
        ({
            ||| e == EthPirError::ServerPoisoned && call_ensures(lock, (serving,), None::<G>)
            ||| exists|guard: G, w: WireError| #[trigger]
                call_ensures(read, (&guard, query), Err::<Q, WireError>(w)) && e == (
                EthPirError::Io { kind: w.kind, message: w.message })
            ||| exists|guard: G, parsed: Q, asked: (G, Result<A, PirError>)| #[trigger]
                call_ensures(respond, (guard, &parsed), asked) && (asked.1 matches Err(p) && e
                    == EthPirError::Pir(p))
            ||| exists|guard: G, answer: A, w: WireError| #[trigger]
                call_ensures(write, (&guard, &answer), Err::<Vec<u8>, WireError>(w)) && e == (
                EthPirError::Io { kind: w.kind, message: w.message })
        }),
{
    let result = Err::<Vec<u8>, EthPirError>(e);
    let locked = choose|locked: Option<G>| #[trigger]
        call_ensures(lock, (serving,), locked) && match locked {
            None => e == EthPirError::ServerPoisoned,
            Some(guard) => exists|parsed: Result<Q, WireError>| #[trigger]
                call_ensures(read, (&guard, query), parsed) && answered_as(
                    guard,
                    parsed,
                    respond,
                    write,
                    result,
                ),
        };
    if let Some(guard) = locked {
        let parsed = choose|parsed: Result<Q, WireError>| #[trigger]
            call_ensures(read, (&guard, query), parsed) && answered_as(
                guard,
                parsed,
                respond,
                write,
                result,
            );
        if let Err(w) = parsed {
            assert(call_ensures(read, (&guard, query), Err::<Q, WireError>(w)));
        } else {
            let q = parsed->Ok_0;
            let asked = choose|asked: (G, Result<A, PirError>)| #[trigger]
                call_ensures(respond, (guard, &q), asked) && match asked.1 {
                    Err(p) => e == EthPirError::Pir(p),
                    Ok(answer) => exists|written: Result<Vec<u8>, WireError>| #[trigger]
                        call_ensures(write, (&asked.0, &answer), written) && (
                        written matches Err(w) && e == wire_failure(w)),
                };
            if let Ok(answer) = asked.1 {
                let written = choose|written: Result<Vec<u8>, WireError>| #[trigger]
                    call_ensures(write, (&asked.0, &answer), written) && (written matches Err(w)
                        && e == wire_failure(w));
                let w = written->Err_0;
                assert(call_ensures(write, (&asked.0, &answer), Err::<Vec<u8>, WireError>(w)));
            }
        }
    } else {
        assert(locked == None::<G>);
    }
}

/// A batch fails only where the lock was poisoned or the database failed, with what
/// the database said; no query in it, and not their number, fails it.
pub proof fn law_batch_fails_only_as_a_whole<'a, S, B, G, Q, A, L, R, F, W>(
    serving: &'a S,
    queries: Seq<B>,
    lock: L,
    read: R,
    respond: F,
    write: W,
    e: EthPirError,
) where
    L: FnOnce(&'a S) -> Option<G>,
    R: Fn(&G, &B) -> Result<Q, WireError>,
    F: FnOnce(G, &Vec<Q>) -> (G, Result<Vec<A>, PirError>),
    W: Fn(&G, &A) -> Result<Vec<u8>, WireError>,

    requires
        respond_batch_gives(
            serving,
            queries,
            lock,
            read,
            respond,
            write,
            Err::<Seq<Result<Vec<u8>, EthPirError>>, EthPirError>(e),
        ),
    ensures
        ({
            ||| e == EthPirError::ServerPoisoned && call_ensures(lock, (serving,), None::<G>)
            ||| exists|guard: G, parsed: Vec<Q>, asked: (G, Result<Vec<A>, PirError>)| #[trigger]
                call_ensures(respond, (guard, &parsed), asked) && (asked.1 matches Err(p) && e
                    == EthPirError::Pir(p))
        }),
{
    let locked = choose|locked: Option<G>| #[trigger]
        call_ensures(lock, (serving,), locked) && match locked {
            None => e == EthPirError::ServerPoisoned,
            Some(guard) => exists|reads: Seq<Result<Q, WireError>>| #[trigger]
                read_by(read, guard, queries, reads) && accepted(reads).len() > 0 && asked_gives(
                    guard,
                    reads,
                    respond,
                    write,
                    Err::<Seq<Result<Vec<u8>, EthPirError>>, EthPirError>(e),
                ),
        };
    if locked is None {
        assert(locked == None::<G>);
    }
}

/// Where the lock is not poisoned and the database does not fail, a batch of any size
/// is answered, with one reply for each input.
pub proof fn law_batch_of_any_size_is_answered<'a, S, B, G, Q, A, L, R, F, W>(
    serving: &'a S,
    queries: Seq<B>,
    lock: L,
    read: R,
    respond: F,
    write: W,
    result: Result<Seq<Result<Vec<u8>, EthPirError>>, EthPirError>,
) where
    L: FnOnce(&'a S) -> Option<G>,
    R: Fn(&G, &B) -> Result<Q, WireError>,
    F: FnOnce(G, &Vec<Q>) -> (G, Result<Vec<A>, PirError>),
    W: Fn(&G, &A) -> Result<Vec<u8>, WireError>,

    requires
        respond_batch_gives(serving, queries, lock, read, respond, write, result),
        forall|locked: Option<G>| #[trigger]
            call_ensures(lock, (serving,), locked) ==> locked is Some,
        forall|guard: G, parsed: Vec<Q>, asked: (G, Result<Vec<A>, PirError>)| #[trigger]
            call_ensures(respond, (guard, &parsed), asked) ==> asked.1 is Ok,
    ensures
        result matches Ok(replies) && replies.len() == queries.len(),
{
    if let Err(e) = result {
        law_batch_fails_only_as_a_whole(
            serving,
            queries,
            lock,
            read,
            respond,
            write,
            e,
        );
    }
}

/// Where the database answers each query of a batch, input `i` gets its own parse
/// failure, or what writing the answer gave that the database gave at the place at
/// which it was asked for that very input.
pub proof fn law_each_input_gets_its_own_answer<'a, S, B, G, Q, A, L, R, F, W>(
    serving: &'a S,
    queries: Seq<B>,
    lock: L,
    read: R,
    respond: F,
    write: W,
    replies: Seq<Result<Vec<u8>, EthPirError>>,
    i: int,
) where
    L: FnOnce(&'a S) -> Option<G>,
    R: Fn(&G, &B) -> Result<Q, WireError>,
    F: FnOnce(G, &Vec<Q>) -> (G, Result<Vec<A>, PirError>),
    W: Fn(&G, &A) -> Result<Vec<u8>, WireError>,

    requires
        0 <= i < queries.len(),
        respond_batch_gives(serving, queries, lock, read, respond, write, Ok(replies)),
        forall|guard: G, parsed: Vec<Q>, asked: (G, Result<Vec<A>, PirError>)| #[trigger]
            call_ensures(respond, (guard, &parsed), asked) ==> (asked.1 matches Ok(answers)
                ==> answers@.len() == parsed@.len()),
    ensures
        replies.len() == queries.len(),
        exists|guard: G, read_as: Result<Q, WireError>|
            #![trigger call_ensures(read, (&guard, &queries[i]), read_as)]
            call_ensures(read, (&guard, &queries[i]), read_as) && match read_as {
                Err(w) => replies[i] == Err::<Vec<u8>, EthPirError>(
                    EthPirError::Io { kind: w.kind, message: w.message },
                ),
                Ok(query) => exists|
                    parsed: Vec<Q>,
                    asked: (G, Result<Vec<A>, PirError>),
                    k: int,
                    written: Result<Vec<u8>, WireError>,
                |
                    #![trigger call_ensures(respond, (guard, &parsed), asked), call_ensures(
                        write,
                        (&asked.0, &(asked.1->Ok_0)@[k]),
                        written,
                    )]
                    {
                        &&& call_ensures(respond, (guard, &parsed), asked)
                        &&& asked.1 is Ok
                        &&& 0 <= k < parsed@.len() <= queries.len()
                        &&& parsed@[k] == query
                        &&& call_ensures(write, (&asked.0, &(asked.1->Ok_0)@[k]), written)
                        &&& replies[i] == match written {
                            Ok(bytes) => Ok(bytes),
                            Err(w) => Err(
                                EthPirError::Io { kind: w.kind, message: w.message },
                            ),
                        }
                    },
            },
{
    let result = Ok::<_, EthPirError>(replies);
    let locked = choose|locked: Option<G>| #[trigger]
        call_ensures(lock, (serving,), locked) && (locked matches Some(guard) && exists|
            reads: Seq<Result<Q, WireError>>,
        | #[trigger]
            read_by(read, guard, queries, reads) && if accepted(reads).len() == 0 {
                replied(reads, Seq::empty(), replies)
            } else {
                asked_gives(guard, reads, respond, write, result)
            });
    let guard = locked->Some_0;
    let reads = choose|reads: Seq<Result<Q, WireError>>| #[trigger]
        read_by(read, guard, queries, reads) && if accepted(reads).len() == 0 {
            replied(reads, Seq::empty(), replies)
        } else {
            asked_gives(guard, reads, respond, write, result)
        };
    assert(call_ensures(read, (&guard, &queries[i]), reads[i]));
    let (parsed, asked, answers, writes) = batch_writes(guard, reads, respond, write, replies);
    assert(batch_reply(reads, writes, i, replies[i]));
    if let Ok(query) = reads[i] {
        lemma_ranks(reads);
        let k = rank(reads, i);
        assert(accepted(reads)[k] == query);
        assert(asked.1->Ok_0 == answers);
        assert(call_ensures(write, (&asked.0, &(asked.1->Ok_0)@[k]), writes[k]));
    }
}

/// Where the database gives fewer answers than it was asked for, an input that was
/// parsed gets what writing an answer gave, or what writing it failed with, where there
/// is one at its place, and an empty reply where there is none.
pub proof fn law_input_without_an_answer_gets_an_empty_reply<'a, S, B, G, Q, A, L, R, F, W>(
    serving: &'a S,
    queries: Seq<B>,
    lock: L,
    read: R,
    respond: F,
    write: W,
    replies: Seq<Result<Vec<u8>, EthPirError>>,
    i: int,
) where
    L: FnOnce(&'a S) -> Option<G>,
    R: Fn(&G, &B) -> Result<Q, WireError>,
    F: FnOnce(G, &Vec<Q>) -> (G, Result<Vec<A>, PirError>),
    W: Fn(&G, &A) -> Result<Vec<u8>, WireError>,

    requires
        0 <= i < queries.len(),
        respond_batch_gives(serving, queries, lock, read, respond, write, Ok(replies)),
        forall|guard: G, read_as: Result<Q, WireError>| #[trigger]
            call_ensures(read, (&guard, &queries[i]), read_as) ==> read_as is Ok,
    ensures
        exists|guard: G, parsed: Vec<Q>, asked: (G, Result<Vec<A>, PirError>), k: int|
            #![trigger call_ensures(respond, (guard, &parsed), asked), parsed@[k]]
            {
                &&& call_ensures(respond, (guard, &parsed), asked)
                &&& asked.1 is Ok
                &&& 0 <= k < parsed@.len() <= queries.len()
                &&& call_ensures(read, (&guard, &queries[i]), Ok::<Q, WireError>(parsed@[k]))
                &&& if k < (asked.1->Ok_0)@.len() {
                    exists|written: Result<Vec<u8>, WireError>| #[trigger]
                        call_ensures(write, (&asked.0, &(asked.1->Ok_0)@[k]), written)
                            && match written {
                            Ok(bytes) => replies[i] == Ok::<Vec<u8>, EthPirError>(bytes),
                            Err(w) => replies[i] == Err::<Vec<u8>, EthPirError>(
                                EthPirError::Io { kind: w.kind, message: w.message },
                            ),
                        }
                } else {
                    replies[i] matches Ok(bytes) && bytes@.len() == 0
                }
            },
{
    let result = Ok::<_, EthPirError>(replies);
    let locked = choose|locked: Option<G>| #[trigger]
        call_ensures(lock, (serving,), locked) && (locked matches Some(guard) && exists|
            reads: Seq<Result<Q, WireError>>,
        | #[trigger]
            read_by(read, guard, queries, reads) && if accepted(reads).len() == 0 {
                replied(reads, Seq::empty(), replies)
            } else {
                asked_gives(guard, reads, respond, write, result)
            });
    let guard = locked->Some_0;
    let reads = choose|reads: Seq<Result<Q, WireError>>| #[trigger]
        read_by(read, guard, queries, reads) && if accepted(reads).len() == 0 {
            replied(reads, Seq::empty(), replies)
        } else {
            asked_gives(guard, reads, respond, write, result)
        };
    assert(call_ensures(read, (&guard, &queries[i]), reads[i]));
    let (parsed, asked, answers, writes) = batch_writes(guard, reads, respond, write, replies);
    assert(batch_reply(reads, writes, i, replies[i]));
    lemma_ranks(reads);
    let k = rank(reads, i);
    assert(reads[i] == Ok::<Q, WireError>(accepted(reads)[k]));
    assert(parsed@[k] == accepted(reads)[k]);
    assert(asked.1->Ok_0 == answers);
    if k < answers@.len() {
        assert(call_ensures(write, (&asked.0, &(asked.1->Ok_0)@[k]), writes[k]));
    }
}

/// A batch in which nothing can be parsed is answered without the database: each input
/// gets its own failure, also where the database would fail.
pub proof fn law_unparsed_batch_needs_no_database<'a, S, B, G, Q, A, L, R, F, W>(
    serving: &'a S,
    queries: Seq<B>,
    lock: L,
    read: R,
    respond: F,
    write: W,
    result: Result<Seq<Result<Vec<u8>, EthPirError>>, EthPirError>,
) where
    L: FnOnce(&'a S) -> Option<G>,
    R: Fn(&G, &B) -> Result<Q, WireError>,
    F: FnOnce(G, &Vec<Q>) -> (G, Result<Vec<A>, PirError>),
    W: Fn(&G, &A) -> Result<Vec<u8>, WireError>,

    requires
        respond_batch_gives(serving, queries, lock, read, respond, write, result),
        forall|locked: Option<G>| #[trigger]
            call_ensures(lock, (serving,), locked) ==> locked is Some,
        forall|guard: G, i: int, read_as: Result<Q, WireError>|
            0 <= i < queries.len() && #[trigger] call_ensures(
                read,
                (&guard, &queries[i]),
                read_as,
            ) ==> read_as is Err,
    ensures
        result matches Ok(replies) && replies.len() == queries.len() && forall|i: int|
            0 <= i < replies.len() ==> #[trigger] replies[i] is Err,
{
    let locked = choose|locked: Option<G>| #[trigger]
        call_ensures(lock, (serving,), locked) && (locked matches Some(guard) && exists|
            reads: Seq<Result<Q, WireError>>,
        | #[trigger]
            read_by(read, guard, queries, reads) && if accepted(reads).len() == 0 {
                result matches Ok(replies) && replied(reads, Seq::empty(), replies)
            } else {
                asked_gives(guard, reads, respond, write, result)
            });
    let guard = locked->Some_0;
    let reads = choose|reads: Seq<Result<Q, WireError>>| #[trigger]
        read_by(read, guard, queries, reads) && if accepted(reads).len() == 0 {
            result matches Ok(replies) && replied(reads, Seq::empty(), replies)
        } else {
            asked_gives(guard, reads, respond, write, result)
        };
    assert forall|i: int| 0 <= i < reads.len() implies #[trigger] reads[i] is Err by {
        assert(call_ensures(read, (&guard, &queries[i]), reads[i]));
    }
    lemma_none_accepted(reads);
    let replies = result->Ok_0;
    assert forall|i: int| 0 <= i < replies.len() implies #[trigger] replies[i] is Err by {
        assert(batch_reply(reads, Seq::empty(), i, replies[i]));
        assert(reads[i] is Err);
    }
}

proof fn lemma_none_accepted<Q>(reads: Seq<Result<Q, WireError>>)
    requires
        forall|i: int| 0 <= i < reads.len() ==> #[trigger] reads[i] is Err,
    ensures
        accepted(reads).len() == 0,
    decreases reads.len(),
{
    if reads.len() > 0 {
        assert forall|i: int| 0 <= i < reads.drop_last().len() implies #[trigger] reads.drop_last()[i]
            is Err by {
            assert(reads[i] is Err);
        }
        lemma_none_accepted(reads.drop_last());
        assert(reads[reads.len() - 1] is Err);
    }
}

/// A cloneable handle on the serving side `S` of a server.
pub struct EthPirResponder<S> {
    serving: S,
}

impl<S> EthPirResponder<S> {
    /// The serving side this handle answers from.
    pub closed spec fn serving(self) -> S {
        self.serving
    }

    pub fn new(serving: S) -> (responder: Self)
        ensures
            responder.serving() == serving,
    {
        EthPirResponder { serving }
    }

    /// Answers one query. See [`respond_with`].
    pub fn try_respond<Q, A, F>(&self, query: &Q, answer: F) -> (result: Result<A, EthPirError>) where
        F: FnOnce(&S, &Q) -> Option<Result<A, PirError>>,

        requires
            call_requires(answer, (&self.serving(), query)),
        ensures
            exists|reply: Option<Result<A, PirError>>| #[trigger]
                call_ensures(answer, (&self.serving(), query), reply) && result == reply_of(reply),
    {
        respond_with(&self.serving, query, answer)
    }

    /// Answers many queries in one pass over the database. See
    /// [`respond_batch_with`].
    pub fn try_respond_batch<Q, A, F>(&self, queries: &[Q], answer: F) -> (result: Result<
        Vec<A>,
        EthPirError,
    >) where F: FnOnce(&S, &[Q]) -> Option<Result<Vec<A>, PirError>>
        requires
            call_requires(answer, (&self.serving(), queries)),
        ensures
            exists|reply: Option<Result<Vec<A>, PirError>>| #[trigger]
                call_ensures(answer, (&self.serving(), queries), reply) && result == reply_of(
                    reply,
                ),
    {
        respond_batch_with(&self.serving, queries, answer)
    }

    /// Answers one query that arrives in wire form, in wire form.
    ///
    /// `lock` takes the serving side's lock, `None` where it was poisoned; `read`
    /// parses the query; `respond` answers it and hands the lock back; `write`
    /// gives the response in wire form.
    pub fn try_respond_bytes<'a, G, Q, A, L, R, F, W>(
        &'a self,
        query: &[u8],
        lock: L,
        read: R,
        respond: F,
        write: W,
    ) -> (result: Result<Vec<u8>, EthPirError>) where
        L: FnOnce(&'a S) -> Option<G>,
        R: FnOnce(&G, &[u8]) -> Result<Q, WireError>,
        F: FnOnce(G, &Q) -> (G, Result<A, PirError>),
        W: FnOnce(&G, &A) -> Result<Vec<u8>, WireError>,

        requires
            call_requires(lock, (&self.serving(),)),
            forall|guard: G| #[trigger] call_requires(read, (&guard, query)),
            forall|guard: G, parsed: Q| #[trigger] call_requires(respond, (guard, &parsed)),
            forall|guard: G, answer: A| #[trigger] call_requires(write, (&guard, &answer)),
        ensures
            respond_bytes_gives(&self.serving(), query, lock, read, respond, write, result),
    {
        let guard = match lock(&self.serving) {
            Some(guard) => guard,
            None => {
                return Err(EthPirError::ServerPoisoned);
            },
        };
        let parsed = match read(&guard, query) {
            Ok(parsed) => parsed,
            Err(e) => {
                return Err(EthPirError::from(e));
            },
        };
        let (guard, answer) = match respond(guard, &parsed) {
            (guard, Ok(answer)) => (guard, answer),
            (_, Err(e)) => {
                return Err(EthPirError::from(e));
            },
        };
        match write(&guard, &answer) {
            Ok(bytes) => Ok(bytes),
            Err(e) => Err(EthPirError::from(e)),
        }
    }

    /// Answers many queries that arrive in wire form, in one pass over the
    /// database.
    ///
    /// One result per input, in order. A query that fails to parse yields its own
    /// error rather than failing the batch: one malformed request from one client
    /// must not deny everyone else in the same window. The outer error is reserved
    /// for a failure of the batch itself, which no individual query can be blamed
    /// for.
    ///
    /// The calls are those of [`try_respond_bytes`](Self::try_respond_bytes).
    pub fn try_respond_batch_bytes<'a, B, G, Q, A, L, R, F, W>(
        &'a self,
        queries: &[B],
        lock: L,
        read: R,
        respond: F,
        write: W,
    ) -> (result: Result<Vec<Result<Vec<u8>, EthPirError>>, EthPirError>) where
        L: FnOnce(&'a S) -> Option<G>,
        R: Fn(&G, &B) -> Result<Q, WireError>,
        F: FnOnce(G, &Vec<Q>) -> (G, Result<Vec<A>, PirError>),
        W: Fn(&G, &A) -> Result<Vec<u8>, WireError>,

        requires
            call_requires(lock, (&self.serving(),)),
            forall|guard: G, query: B| #[trigger] call_requires(read, (&guard, &query)),
            forall|guard: G, parsed: Vec<Q>| #[trigger] call_requires(respond, (guard, &parsed)),
            forall|guard: G, answer: A| #[trigger] call_requires(write, (&guard, &answer)),
        ensures
            result matches Ok(replies) ==> replies@.len() == queries@.len(),
            respond_batch_gives(
                &self.serving(),
                queries@,
                lock,
                read,
                respond,
                write,
                match result {
                    Ok(replies) => Ok(replies@),
                    Err(e) => Err(e),
                },
            ),
    {
        let guard = match lock(&self.serving) {
            Some(guard) => guard,
            None => {
                return Err(EthPirError::ServerPoisoned);
            },
        };
        let (parsed, slots, replies, Ghost(reads)) = parse_queries(queries, &guard, &read);
        if parsed.len() == 0 {
            assert(replied(reads, Seq::empty(), replies@));
            return Ok(replies);
        }
        let asked = respond(guard, &parsed);
        let (guard, responses) = match asked {
            (guard, Ok(responses)) => (guard, responses),
            (_, Err(e)) => {
                return Err(EthPirError::from(e));
            },
        };
        let (replies, Ghost(writes)) = write_replies::<G, Q, A, W>(
            Ghost(reads),
            slots,
            replies,
            &guard,
            &responses,
            &write,
        );
        assert(written_by(write, guard, responses@, accepted(reads).len(), writes));
        assert(replied(reads, writes, replies@));
        Ok(replies)
    }
}

impl<S: Clone> Clone for EthPirResponder<S> {
    fn clone(&self) -> (copy: Self)
        ensures
            cloned(self.serving(), copy.serving()),
    {
        EthPirResponder { serving: self.serving.clone() }
    }
}

impl<C: RecordCodec> EthPirServer<C> {
    /// Answers one query from the serving side that stands beside this server. See
    /// [`respond_with`].
    pub fn try_respond<S, Q, A, F>(&self, serving: &S, query: &Q, answer: F) -> (result: Result<
        A,
        EthPirError,
    >) where F: FnOnce(&S, &Q) -> Option<Result<A, PirError>>
        requires
            call_requires(answer, (serving, query)),
        ensures
            exists|reply: Option<Result<A, PirError>>| #[trigger]
                call_ensures(answer, (serving, query), reply) && result == reply_of(reply),
    {
        respond_with(serving, query, answer)
    }

    /// Answers many queries from the serving side that stands beside this server,
    /// in one pass over the database. See [`respond_batch_with`].
    pub fn try_respond_batch<S, Q, A, F>(&self, serving: &S, queries: &[Q], answer: F) -> (result:
        Result<Vec<A>, EthPirError>) where F: FnOnce(&S, &[Q]) -> Option<Result<Vec<A>, PirError>>
        requires
            call_requires(answer, (serving, queries)),
        ensures
            exists|reply: Option<Result<Vec<A>, PirError>>| #[trigger]
                call_ensures(answer, (serving, queries), reply) && result == reply_of(reply),
    {
        respond_batch_with(serving, queries, answer)
    }

    /// A handle that answers from the serving side that stands beside this server,
    /// while the server itself is being changed.
    pub fn responder<S: Clone>(&self, serving: &S) -> (responder: EthPirResponder<S>)
        ensures
            cloned(*serving, responder.serving()),
    {
        EthPirResponder { serving: serving.clone() }
    }
}

} // verus!
