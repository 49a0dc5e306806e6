use enso::client::{Enso, Version};
use enso::pager::{addresses, Meta, PaginatedTokensStream, StreamState, Token, Tokens, TokensError};

fn page(last_page: u32, current_page: u32, addrs: &[&str]) -> Tokens {
    Tokens {
        meta: Meta {
            total: 5,
            last_page,
            current_page,
            per_page: 3,
            prev: None,
            next: None,
        },
        data: addrs
            .iter()
            .map(|a| Token {
                chain_id: 10,
                address: a.to_string(),
                kind: "base".to_owned(),
                protocol_slug: "enso".to_owned(),
                underlying_tokens: vec![],
                primary_address: a.to_string(),
            })
            .collect(),
    }
}

fn fresh() -> PaginatedTokensStream {
    Enso::new("key".to_string(), Version::V1).tokens_stream(&[("chainId", "10")])
}

#[test]
fn two_pages_then_end() {
    let mut s = fresh();
    let mut total = 0usize;
    let mut items = 0;

    assert_eq!(s.poll_request(), Some(1));
    assert_eq!(s.on_server_response(true), None);
    let got = s.on_parsed(Some(page(2, 1, &["0x1", "0x2", "0x3"]))).unwrap();
    assert_eq!(got, vec!["0x1", "0x2", "0x3"]);
    total += got.len();
    items += 1;

    assert_eq!(s.poll_request(), Some(2));
    assert_eq!(s.on_server_response(true), None);
    let got = s.on_parsed(Some(page(2, 2, &["0x4", "0x5"]))).unwrap();
    total += got.len();
    items += 1;

    assert_eq!(s.poll_request(), None);
    assert_eq!(s.poll_request(), None);
    assert_eq!(items, 2);
    assert_eq!(total, 5);
}

#[test]
fn decode_failure_retries_same_page() {
    let mut s = fresh();
    assert_eq!(s.poll_request(), Some(1));
    s.on_server_response(true);
    s.on_parsed(Some(page(2, 1, &["0x1"]))).unwrap();

    assert_eq!(s.poll_request(), Some(2));
    s.on_server_response(true);
    assert_eq!(s.on_parsed(None), Err(TokensError::Parsing));
    assert_eq!(s.page, 1);
    assert_eq!(s.state, StreamState::Checking);

    assert_eq!(s.poll_request(), Some(2));
    s.on_server_response(true);
    assert_eq!(s.on_parsed(Some(page(2, 2, &["0x2"]))).unwrap(), vec!["0x2"]);
    assert_eq!(s.poll_request(), None);
}

#[test]
fn transport_failure_is_not_fatal() {
    let mut s = fresh();
    assert_eq!(s.poll_request(), Some(1));
    assert_eq!(s.on_server_response(false), Some(TokensError::Server));
    assert_eq!(s.state, StreamState::Checking);
    assert_eq!(s.total_pages, None);
    assert_eq!(s.poll_request(), Some(1));
    assert_eq!(s.state, StreamState::PollingServer);
}

#[test]
fn unknown_page_count_always_fetches() {
    let mut s = fresh();
    for _ in 0..3 {
        assert_eq!(s.poll_request(), Some(1));
        s.on_server_response(true);
        assert!(s.on_parsed(None).is_err());
    }
}

#[test]
fn page_count_is_taken_from_the_latest_page() {
    let mut s = fresh();
    s.poll_request();
    s.on_server_response(true);
    s.on_parsed(Some(page(1, 1, &[]))).unwrap();
    assert_eq!(s.total_pages, Some(1));
    assert_eq!(s.poll_request(), None);

    let mut s = fresh();
    s.poll_request();
    s.on_server_response(true);
    s.on_parsed(Some(page(3, 1, &[]))).unwrap();
    s.poll_request();
    s.on_server_response(true);
    s.on_parsed(Some(page(2, 2, &[]))).unwrap();
    assert_eq!(s.total_pages, Some(2));
    assert_eq!(s.poll_request(), None);
}

#[test]
fn empty_listing_ends_after_first_page() {
    let mut s = fresh();
    assert_eq!(s.poll_request(), Some(1));
    s.on_server_response(true);
    assert_eq!(s.on_parsed(Some(page(0, 1, &[]))).unwrap(), Vec::<String>::new());
    assert_eq!(s.poll_request(), None);
}

#[test]
fn stream_carries_request_data() {
    let s = fresh();
    assert_eq!(s.url, "https://api.enso.finance/api/v1/tokens");
    assert_eq!(s.auth, "Bearer key");
    assert_eq!(s.params, vec![("chainId".to_owned(), "10".to_owned())]);
    assert_eq!(s.page, 0);
    assert_eq!(s.total_pages, None);
    assert_eq!(s.state, StreamState::Checking);
}

#[test]
fn addresses_keep_order() {
    assert_eq!(addresses(&page(1, 1, &["0xb", "0xa"])), vec!["0xb", "0xa"]);
}

#[test]
fn error_messages() {
    assert_eq!(TokensError::Server.to_string(), "Couldn't get tokens");
    assert_eq!(TokensError::Parsing.to_string(), "Couldn't parse result");
}
