use epubee::fetch::{begin_fetch, fetch_step, FetchAction, FetchError, FetchEvent, FetchState};
use std::collections::BTreeMap;

/// What the network of a test makes of one request.
#[derive(Clone)]
enum Reply {
    Timeout,
    Failure,
    Body(Vec<u8>),
    Unreadable,
}

struct Report {
    result: Result<Vec<u8>, FetchError>,
    requests: usize,
    prompts: usize,
    from_cache: bool,
}

/// Carries a fetch out against a cache in memory and a scripted network.
fn fetch(url: &str, cache: &mut BTreeMap<String, Vec<u8>>, replies: &[Reply]) -> Report {
    let mut replies = replies.iter();
    let mut report = Report { result: Err(FetchError::OutOfTurn), requests: 0, prompts: 0, from_cache: false };
    let (mut state, mut action) = begin_fetch();
    loop {
        let event = match action {
            FetchAction::Lookup => match cache.get(url) {
                Some(body) => FetchEvent::Hit(body.clone()),
                None => FetchEvent::Miss,
            },
            FetchAction::Request => {
                report.requests += 1;
                match replies.next().expect("the script ran out of replies").clone() {
                    Reply::Timeout => FetchEvent::Timeout,
                    Reply::Failure => FetchEvent::TransportFailure,
                    Reply::Body(body) => FetchEvent::Response(body),
                    Reply::Unreadable => FetchEvent::BodyFailure,
                }
            }
            FetchAction::Prompt => {
                report.prompts += 1;
                FetchEvent::Acknowledged
            }
            FetchAction::Store(body) => {
                cache.insert(url.to_string(), body);
                FetchEvent::Stored
            }
            FetchAction::Deliver { body, from_cache } => {
                report.result = Ok(body);
                report.from_cache = from_cache;
                return report;
            }
            FetchAction::Fail(e) => {
                report.result = Err(e);
                return report;
            }
        };
        let next = fetch_step(state, event);
        state = next.0;
        action = next.1;
    }
}

#[test]
fn a_fetch_begins_with_a_lookup() {
    assert_eq!(begin_fetch(), (FetchState::Looking, FetchAction::Lookup));
}

#[test]
fn a_hit_is_delivered_without_a_request() {
    assert_eq!(
        fetch_step(FetchState::Looking, FetchEvent::Hit(vec![1, 2, 3])),
        (FetchState::Done, FetchAction::Deliver { body: vec![1, 2, 3], from_cache: true })
    );
}

#[test]
fn a_miss_goes_to_the_network() {
    assert_eq!(
        fetch_step(FetchState::Looking, FetchEvent::Miss),
        (FetchState::Requesting, FetchAction::Request)
    );
}

#[test]
fn a_timeout_is_retried_at_once() {
    assert_eq!(
        fetch_step(FetchState::Requesting, FetchEvent::Timeout),
        (FetchState::Requesting, FetchAction::Request)
    );
}

#[test]
fn another_failure_waits_for_the_operator() {
    assert_eq!(
        fetch_step(FetchState::Requesting, FetchEvent::TransportFailure),
        (FetchState::Prompting, FetchAction::Prompt)
    );
    assert_eq!(
        fetch_step(FetchState::Prompting, FetchEvent::Acknowledged),
        (FetchState::Requesting, FetchAction::Request)
    );
}

#[test]
fn a_body_is_stored_before_it_is_delivered() {
    assert_eq!(
        fetch_step(FetchState::Requesting, FetchEvent::Response(vec![7, 8])),
        (FetchState::Storing(vec![7, 8]), FetchAction::Store(vec![7, 8]))
    );
    assert_eq!(
        fetch_step(FetchState::Storing(vec![7, 8]), FetchEvent::Stored),
        (FetchState::Done, FetchAction::Deliver { body: vec![7, 8], from_cache: false })
    );
}

#[test]
fn an_unreadable_body_ends_the_fetch() {
    assert_eq!(
        fetch_step(FetchState::Requesting, FetchEvent::BodyFailure),
        (FetchState::Done, FetchAction::Fail(FetchError::Body))
    );
}

#[test]
fn a_cache_that_refuses_ends_the_fetch() {
    assert_eq!(
        fetch_step(FetchState::Storing(vec![1]), FetchEvent::StoreFailed),
        (FetchState::Done, FetchAction::Fail(FetchError::Storage))
    );
}

#[test]
fn an_event_out_of_turn_ends_the_fetch() {
    let out_of_turn = (FetchState::Done, FetchAction::Fail(FetchError::OutOfTurn));
    assert_eq!(fetch_step(FetchState::Looking, FetchEvent::Timeout), out_of_turn);
    assert_eq!(fetch_step(FetchState::Looking, FetchEvent::Response(vec![1])), out_of_turn);
    assert_eq!(fetch_step(FetchState::Requesting, FetchEvent::Hit(vec![1])), out_of_turn);
    assert_eq!(fetch_step(FetchState::Requesting, FetchEvent::Stored), out_of_turn);
    assert_eq!(fetch_step(FetchState::Prompting, FetchEvent::Timeout), out_of_turn);
    assert_eq!(fetch_step(FetchState::Storing(vec![1]), FetchEvent::Acknowledged), out_of_turn);
    assert_eq!(fetch_step(FetchState::Done, FetchEvent::Miss), out_of_turn);
    assert_eq!(fetch_step(FetchState::Done, FetchEvent::Stored), out_of_turn);
}

#[test]
fn second_fetch_is_served_from_the_cache() {
    let mut cache = BTreeMap::new();
    let url = "http://reader.example/books/1/content.opf";
    let first = fetch(url, &mut cache, &[Reply::Body(b"<package/>".to_vec())]);
    assert_eq!(first.result, Ok(b"<package/>".to_vec()));
    assert_eq!(first.requests, 1);
    assert!(!first.from_cache);
    let kept = cache.clone();
    let second = fetch(url, &mut cache, &[]);
    assert_eq!(second.result, first.result);
    assert_eq!(second.requests, 0);
    assert_eq!(second.prompts, 0);
    assert!(second.from_cache);
    assert_eq!(cache, kept);
}

#[test]
fn timeouts_and_failures_are_ridden_out() {
    let mut cache = BTreeMap::new();
    let replies = [
        Reply::Timeout,
        Reply::Timeout,
        Reply::Failure,
        Reply::Timeout,
        Reply::Failure,
        Reply::Body(vec![9; 4]),
    ];
    let report = fetch("u", &mut cache, &replies);
    assert_eq!(report.result, Ok(vec![9; 4]));
    assert_eq!(report.requests, 6);
    assert_eq!(report.prompts, 2);
    assert_eq!(cache.get("u"), Some(&vec![9; 4]));
}

#[test]
fn each_url_has_its_own_entry() {
    let mut cache = BTreeMap::new();
    fetch("a", &mut cache, &[Reply::Body(vec![1])]);
    let b = fetch("b", &mut cache, &[Reply::Body(vec![2])]);
    assert_eq!(b.requests, 1);
    assert_eq!(fetch("a", &mut cache, &[]).result, Ok(vec![1]));
    assert_eq!(fetch("b", &mut cache, &[]).result, Ok(vec![2]));
    assert_eq!(cache.len(), 2);
}

#[test]
fn a_failed_fetch_stores_nothing() {
    let mut cache = BTreeMap::new();
    let report = fetch("u", &mut cache, &[Reply::Timeout, Reply::Unreadable]);
    assert_eq!(report.result, Err(FetchError::Body));
    assert_eq!(report.requests, 2);
    assert!(cache.is_empty());
}
