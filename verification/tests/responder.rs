use std::cell::Cell;
use std::io::ErrorKind;

use eth_pir::server::responder::{respond_batch_with, respond_with, take_reply};
use eth_pir::{
    DirectoryState, EthPirError, EthPirResponder, EthPirServer, PirError, U256Balance, WireError,
};

fn broken() -> PirError {
    PirError {
        message: String::from("database is gone"),
    }
}

fn malformed(byte: u8) -> WireError {
    WireError {
        kind: ErrorKind::InvalidData,
        message: format!("bad query {}", byte),
    }
}

fn malformed_reply(byte: u8) -> EthPirError {
    EthPirError::from(malformed(byte))
}

/// A query is one byte below 100; its response is ten times as much.
fn read(_: &(), query: &[u8]) -> Result<u8, WireError> {
    if query[0] < 100 {
        Ok(query[0])
    } else {
        Err(malformed(query[0]))
    }
}

fn write(_: &(), response: &u16) -> Result<Vec<u8>, WireError> {
    if *response == 130 {
        Err(malformed(13))
    } else {
        Ok(vec![(*response / 10) as u8, 0])
    }
}

fn batch(queries: &[Vec<u8>]) -> Result<Vec<Result<Vec<u8>, EthPirError>>, EthPirError> {
    EthPirResponder::new(()).try_respond_batch_bytes(
        queries,
        |_: &()| Some(()),
        |guard: &(), query: &Vec<u8>| read(guard, query),
        |guard: (), parsed: &Vec<u8>| {
            (guard, Ok(parsed.iter().map(|q| *q as u16 * 10).collect()))
        },
        write,
    )
}

#[test]
fn a_reply_is_the_answer_or_the_failure() {
    assert_eq!(take_reply(Some(Ok(5))), Ok(5));
    assert_eq!(
        take_reply::<u8>(Some(Err(broken()))),
        Err(EthPirError::Pir(broken()))
    );
    assert_eq!(take_reply::<u8>(None), Err(EthPirError::ServerPoisoned));
}

#[test]
fn a_query_is_handed_to_the_serving_side() {
    let answered = respond_with(&3u32, &4u32, |serving: &u32, query: &u32| {
        Some(Ok(serving * 100 + query))
    });
    assert_eq!(answered, Ok(304));
    let poisoned = respond_with(&3u32, &4u32, |_: &u32, _: &u32| None::<Result<u32, PirError>>);
    assert_eq!(poisoned, Err(EthPirError::ServerPoisoned));
}

#[test]
fn a_batch_is_handed_to_the_serving_side() {
    let answered = respond_batch_with(&3u32, &[4u32, 5], |serving: &u32, queries: &[u32]| {
        Some(Ok(queries.iter().map(|q| serving * 100 + q).collect()))
    });
    assert_eq!(answered, Ok(vec![304, 305]));
    let failed = respond_batch_with(&3u32, &[4u32], |_: &u32, _: &[u32]| {
        Some(Err::<Vec<u32>, _>(broken()))
    });
    assert_eq!(failed, Err(EthPirError::Pir(broken())));
}

#[test]
fn a_server_and_its_responder_answer_alike() {
    let server = EthPirServer::<U256Balance>::assemble(
        DirectoryState {
            version: 0,
            mphf_len: 0,
            delta_len: 0,
        },
        Vec::new(),
    );
    let serving = String::from("database");
    let responder = server.responder(&serving);
    let copy = responder.clone();
    let answer = |serving: &String, query: &usize| Some(Ok(serving.len() + query));
    assert_eq!(server.try_respond(&serving, &1, answer), Ok(9));
    assert_eq!(responder.try_respond(&1, answer), Ok(9));
    assert_eq!(copy.try_respond(&1, answer), Ok(9));
    let answer_all = |serving: &String, queries: &[usize]| {
        Some(Ok(queries.iter().map(|q| serving.len() + q).collect()))
    };
    let all: Result<Vec<usize>, EthPirError> =
        server.try_respond_batch(&serving, &[1, 2], answer_all);
    assert_eq!(all, Ok(vec![9, 10]));
    assert_eq!(responder.try_respond_batch(&[1, 2], answer_all), Ok(vec![9, 10]));
}

fn one(
    query: &[u8],
    locked: bool,
    answer: Result<u16, PirError>,
) -> Result<Vec<u8>, EthPirError> {
    EthPirResponder::new(()).try_respond_bytes(
        query,
        |_: &()| if locked { Some(()) } else { None },
        read,
        |guard: (), _: &u8| (guard, answer),
        write,
    )
}

#[test]
fn a_query_in_wire_form_is_answered_in_wire_form() {
    assert_eq!(one(&[7], true, Ok(70)), Ok(vec![7, 0]));
}

#[test]
fn the_first_step_to_fail_decides_the_answer() {
    assert_eq!(
        one(&[200], false, Err(broken())),
        Err(EthPirError::ServerPoisoned)
    );
    assert_eq!(one(&[200], true, Err(broken())), Err(malformed_reply(200)));
    assert_eq!(one(&[7], true, Err(broken())), Err(EthPirError::Pir(broken())));
    assert_eq!(one(&[7], true, Ok(130)), Err(malformed_reply(13)));
}

#[test]
fn a_batch_is_answered_in_order() {
    assert_eq!(
        batch(&[vec![3], vec![1], vec![2]]),
        Ok(vec![Ok(vec![3, 0]), Ok(vec![1, 0]), Ok(vec![2, 0])])
    );
}

#[test]
fn a_malformed_query_denies_nobody_else_in_its_batch() {
    assert_eq!(
        batch(&[vec![200], vec![1], vec![201], vec![2], vec![3], vec![202]]),
        Ok(vec![
            Err(malformed_reply(200)),
            Ok(vec![1, 0]),
            Err(malformed_reply(201)),
            Ok(vec![2, 0]),
            Ok(vec![3, 0]),
            Err(malformed_reply(202)),
        ])
    );
}

#[test]
fn a_query_gets_in_a_batch_what_it_gets_alone() {
    let queries: Vec<Vec<u8>> = vec![vec![5], vec![200], vec![13], vec![0], vec![99], vec![101]];
    let replies = match batch(&queries) {
        Ok(replies) => replies,
        Err(e) => panic!("{}", e.to_text()),
    };
    assert_eq!(replies.len(), queries.len());
    for i in 0..queries.len() {
        let alone = EthPirResponder::new(()).try_respond_bytes(
            &queries[i],
            |_: &()| Some(()),
            read,
            |guard: (), parsed: &u8| (guard, Ok(*parsed as u16 * 10)),
            write,
        );
        assert_eq!(replies[i], alone);
    }
}

#[test]
fn a_response_that_cannot_be_written_fails_alone() {
    assert_eq!(
        batch(&[vec![1], vec![13], vec![2]]),
        Ok(vec![Ok(vec![1, 0]), Err(malformed_reply(13)), Ok(vec![2, 0])])
    );
}

#[test]
fn a_batch_without_a_query_does_not_reach_the_database() {
    let asked = Cell::new(false);
    let replies = EthPirResponder::new(()).try_respond_batch_bytes(
        &[vec![200u8], vec![201]],
        |_: &()| Some(()),
        |guard: &(), query: &Vec<u8>| read(guard, query),
        |guard: (), _: &Vec<u8>| {
            asked.set(true);
            (guard, Err::<Vec<u16>, _>(broken()))
        },
        write,
    );
    assert_eq!(
        replies,
        Ok(vec![Err(malformed_reply(200)), Err(malformed_reply(201))])
    );
    assert!(!asked.get());
    assert_eq!(batch(&[]), Ok(Vec::new()));
}

#[test]
fn a_failure_of_the_database_fails_the_batch() {
    let failed = EthPirResponder::new(()).try_respond_batch_bytes(
        &[vec![200u8], vec![1]],
        |_: &()| Some(()),
        |guard: &(), query: &Vec<u8>| read(guard, query),
        |guard: (), _: &Vec<u8>| (guard, Err::<Vec<u16>, _>(broken())),
        write,
    );
    assert_eq!(failed, Err(EthPirError::Pir(broken())));
    let poisoned = EthPirResponder::new(()).try_respond_batch_bytes(
        &[vec![1u8]],
        |_: &()| None::<()>,
        |guard: &(), query: &Vec<u8>| read(guard, query),
        |guard: (), _: &Vec<u8>| (guard, Ok(Vec::<u16>::new())),
        write,
    );
    assert_eq!(poisoned, Err(EthPirError::ServerPoisoned));
}

#[test]
fn a_query_without_a_response_gets_an_empty_reply() {
    let replies = EthPirResponder::new(()).try_respond_batch_bytes(
        &[vec![1u8], vec![2]],
        |_: &()| Some(()),
        |guard: &(), query: &Vec<u8>| read(guard, query),
        |guard: (), _: &Vec<u8>| (guard, Ok(vec![10u16])),
        write,
    );
    assert_eq!(replies, Ok(vec![Ok(vec![1, 0]), Ok(Vec::new())]));
}
