//! Deciding how one URL is fetched through the cache.
//!
//! A fetch asks the cache first and goes to the network only on a miss. A
//! request that times out is sent again at once; one that fails otherwise
//! waits for the operator before it is sent again. A body that arrives is
//! stored under its URL before it is handed on. The caller does the asking,
//! sending, prompting and storing: it carries out each [`FetchAction`] and
//! reports what came of it as a [`FetchEvent`].

use vstd::prelude::*;

verus! {

/// Why a fetch was given up.
#[derive(Debug, Clone, Copy, PartialEq, Eq, Structural)]
pub enum FetchError {
    /// A response came, but its body could not be read.
    Body,
    /// The cache would not take the body.
    Storage,
    /// The caller reported something that does not answer the last action.
    OutOfTurn,
}

/// What the caller reports.
#[derive(Debug, Clone, PartialEq, Eq)]
pub enum FetchEvent {
    /// The cache holds these bytes under the URL.
    Hit(Vec<u8>),
    /// The cache holds nothing under the URL.
    Miss,
    /// The request ran into its time limit.
    Timeout,
    /// The request failed in another way.
    TransportFailure,
    /// The request was answered with this body.
    Response(Vec<u8>),
    /// The request was answered, but the body could not be read.
    BodyFailure,
    /// The operator has acknowledged the failure.
    Acknowledged,
    /// The cache has taken the body.
    Stored,
    /// The cache would not take the body.
    StoreFailed,
}

/// What the caller is to do next.
#[derive(Debug, Clone, PartialEq, Eq)]
pub enum FetchAction {
    /// Look the URL up in the cache.
    Lookup,
    /// Send one request for the URL.
    Request,
    /// Tell the operator of the failure and wait for an acknowledgement.
    Prompt,
    /// Store these bytes in the cache under the URL.
    Store(Vec<u8>),
    /// Hand these bytes to whoever asked for the URL.
    Deliver { body: Vec<u8>, from_cache: bool },
    /// Give the fetch up.
    Fail(FetchError),
}

/// Where a fetch stands.
#[derive(Debug, Clone, PartialEq, Eq)]
pub enum FetchState {
    /// The cache has been asked.
    Looking,
    /// A request is under way.
    Requesting,
    /// The operator has been prompted.
    Prompting,
    /// The cache has been handed this body.
    Storing(Vec<u8>),
    /// The fetch is over.
    Done,
}

/// What a [`FetchEvent`] holds.
pub enum EventModel {
    Hit(Seq<u8>),
    Miss,
    Timeout,
    TransportFailure,
    Response(Seq<u8>),
    BodyFailure,
    Acknowledged,
    Stored,
    StoreFailed,
}

/// What a [`FetchAction`] holds.
pub enum ActionModel {
    Lookup,
    Request,
    Prompt,
    Store(Seq<u8>),
    Deliver { body: Seq<u8>, from_cache: bool },
    Fail(FetchError),
}

/// What a [`FetchState`] holds.
pub enum StateModel {
    Looking,
    Requesting,
    Prompting,
    Storing(Seq<u8>),
    Done,
}

impl View for FetchEvent {
    type V = EventModel;

    open spec fn view(&self) -> EventModel {
        match *self {
            FetchEvent::Hit(body) => EventModel::Hit(body@),
            FetchEvent::Miss => EventModel::Miss,
            FetchEvent::Timeout => EventModel::Timeout,
            FetchEvent::TransportFailure => EventModel::TransportFailure,
            FetchEvent::Response(body) => EventModel::Response(body@),
            FetchEvent::BodyFailure => EventModel::BodyFailure,
            FetchEvent::Acknowledged => EventModel::Acknowledged,
            FetchEvent::Stored => EventModel::Stored,
            FetchEvent::StoreFailed => EventModel::StoreFailed,
        }
    }
}

impl View for FetchAction {
    type V = ActionModel;

    open spec fn view(&self) -> ActionModel {
        match *self {
            FetchAction::Lookup => ActionModel::Lookup,
            FetchAction::Request => ActionModel::Request,
            FetchAction::Prompt => ActionModel::Prompt,
            FetchAction::Store(body) => ActionModel::Store(body@),
            FetchAction::Deliver { body, from_cache } => ActionModel::Deliver {
                body: body@,
                from_cache,
            },
            FetchAction::Fail(e) => ActionModel::Fail(e),
        }
    }
}

impl View for FetchState {
    type V = StateModel;

    open spec fn view(&self) -> StateModel {
        match *self {
            FetchState::Looking => StateModel::Looking,
            FetchState::Requesting => StateModel::Requesting,
            FetchState::Prompting => StateModel::Prompting,
            FetchState::Storing(body) => StateModel::Storing(body@),
            FetchState::Done => StateModel::Done,
        }
    }
}

/// The state and the action that follow an event. An event that does not
/// answer the state's action ends the fetch.
pub open spec fn step(state: StateModel, event: EventModel) -> (StateModel, ActionModel) {
    match (state, event) {
        (StateModel::Looking, EventModel::Hit(body)) => (
            StateModel::Done,
            ActionModel::Deliver { body, from_cache: true },
        ),
        (StateModel::Looking, EventModel::Miss) => (StateModel::Requesting, ActionModel::Request),
        (StateModel::Requesting, EventModel::Timeout) => (
            StateModel::Requesting,
            ActionModel::Request,
        ),
        (StateModel::Requesting, EventModel::TransportFailure) => (
            StateModel::Prompting,
            ActionModel::Prompt,
        ),
        (StateModel::Requesting, EventModel::Response(body)) => (
            StateModel::Storing(body),
            ActionModel::Store(body),
        ),
        (StateModel::Requesting, EventModel::BodyFailure) => (
            StateModel::Done,
            ActionModel::Fail(FetchError::Body),
        ),
        (StateModel::Prompting, EventModel::Acknowledged) => (
            StateModel::Requesting,
            ActionModel::Request,
        ),
        (StateModel::Storing(body), EventModel::Stored) => (
            StateModel::Done,
            ActionModel::Deliver { body, from_cache: false },
        ),
        (StateModel::Storing(_), EventModel::StoreFailed) => (
            StateModel::Done,
            ActionModel::Fail(FetchError::Storage),
        ),
        _ => (StateModel::Done, ActionModel::Fail(FetchError::OutOfTurn)),
    }
}

/// How every fetch begins: by asking the cache.
pub fn begin_fetch() -> (r: (FetchState, FetchAction))
    ensures
        r.0@ == StateModel::Looking,
        r.1@ == ActionModel::Lookup,
{
    (FetchState::Looking, FetchAction::Lookup)
}

/// Decides what follows an event.
pub fn fetch_step(state: FetchState, event: FetchEvent) -> (r: (FetchState, FetchAction))
    ensures
        (r.0@, r.1@) == step(state@, event@),
{
    match (state, event) {
        (FetchState::Looking, FetchEvent::Hit(body)) => (
            FetchState::Done,
            FetchAction::Deliver { body, from_cache: true },
        ),
        (FetchState::Looking, FetchEvent::Miss) => (FetchState::Requesting, FetchAction::Request),
        (FetchState::Requesting, FetchEvent::Timeout) => (
            FetchState::Requesting,
            FetchAction::Request,
        ),
        (FetchState::Requesting, FetchEvent::TransportFailure) => (
            FetchState::Prompting,
            FetchAction::Prompt,
        ),
        (FetchState::Requesting, FetchEvent::Response(body)) => {
            let kept = body.clone();
            (FetchState::Storing(kept), FetchAction::Store(body))
        },
        (FetchState::Requesting, FetchEvent::BodyFailure) => (
            FetchState::Done,
            FetchAction::Fail(FetchError::Body),
        ),
        (FetchState::Prompting, FetchEvent::Acknowledged) => (
            FetchState::Requesting,
            FetchAction::Request,
        ),
        (FetchState::Storing(body), FetchEvent::Stored) => (
            FetchState::Done,
            FetchAction::Deliver { body, from_cache: false },
        ),
        (FetchState::Storing(_), FetchEvent::StoreFailed) => (
            FetchState::Done,
            FetchAction::Fail(FetchError::Storage),
        ),
        _ => (FetchState::Done, FetchAction::Fail(FetchError::OutOfTurn)),
    }
}

/// What the network makes of one request.
pub enum Reply {
    /// The request ran into its time limit.
    Timeout,
    /// The request failed in another way.
    Failure,
    /// The request was answered with this body.
    Body(Seq<u8>),
    /// The request was answered, but the body could not be read.
    Unreadable,
}

/// How a fetch ended.
pub enum Outcome {
    /// These bytes were handed on.
    Delivered(Seq<u8>),
    /// The fetch was given up.
    Failed(FetchError),
    /// The network's replies ran out before the fetch was over.
    Open,
}

/// A fetch carried out: what it left in the cache, how it ended, and how many
/// requests it sent.
pub struct FetchRun {
    pub cache: Map<Seq<char>, Seq<u8>>,
    pub outcome: Outcome,
    pub requests: nat,
}

/// What a cache that works answers to a lookup.
pub open spec fn lookup(cache: Map<Seq<char>, Seq<u8>>, url: Seq<char>) -> EventModel {
    if cache.contains_key(url) {
        EventModel::Hit(cache[url])
    } else {
        EventModel::Miss
    }
}

/// The event by which the caller reports a reply of the network.
pub open spec fn reported(reply: Reply) -> EventModel {
    match reply {
        Reply::Timeout => EventModel::Timeout,
        Reply::Failure => EventModel::TransportFailure,
        Reply::Body(body) => EventModel::Response(body),
        Reply::Unreadable => EventModel::BodyFailure,
    }
}

/// How far an action is from the end of the fetch, requests apart.
pub open spec fn rank(action: ActionModel) -> nat {
    match action {
        ActionModel::Lookup => 2,
        ActionModel::Prompt => 2,
        ActionModel::Store(_) => 2,
        ActionModel::Request => 1,
        ActionModel::Deliver { .. } => 0,
        ActionModel::Fail(_) => 0,
    }
}

/// A caller that carries out `action` and all that follows it for `url`,
/// against a cache that keeps what it is given, an operator who always
/// acknowledges, and a network that answers the requests with `replies` in
/// turn.
pub open spec fn carried_out(
    url: Seq<char>,
    cache: Map<Seq<char>, Seq<u8>>,
    state: StateModel,
    action: ActionModel,
    replies: Seq<Reply>,
    requests: nat,
) -> FetchRun
    decreases replies.len(), rank(action),
{
    match action {
        ActionModel::Lookup => {
            let next = step(state, lookup(cache, url));
            if rank(next.1) < 2 {
                carried_out(url, cache, next.0, next.1, replies, requests)
            } else {
                FetchRun { cache, outcome: Outcome::Failed(FetchError::OutOfTurn), requests }
            }
        },
        ActionModel::Prompt => {
            let next = step(state, EventModel::Acknowledged);
            if rank(next.1) < 2 {
                carried_out(url, cache, next.0, next.1, replies, requests)
            } else {
                FetchRun { cache, outcome: Outcome::Failed(FetchError::OutOfTurn), requests }
            }
        },
        ActionModel::Store(body) => {
            let next = step(state, EventModel::Stored);
            if rank(next.1) < 2 {
                carried_out(url, cache.insert(url, body), next.0, next.1, replies, requests)
            } else {
                FetchRun { cache, outcome: Outcome::Failed(FetchError::OutOfTurn), requests }
            }
        },
        ActionModel::Request => if replies.len() == 0 {
            FetchRun { cache, outcome: Outcome::Open, requests }
        } else {
            let next = step(state, reported(replies[0]));
            carried_out(url, cache, next.0, next.1, replies.drop_first(), requests + 1)
        },
        ActionModel::Deliver { body, from_cache } => FetchRun {
            cache,
            outcome: Outcome::Delivered(body),
            requests,
        },
        ActionModel::Fail(e) => FetchRun { cache, outcome: Outcome::Failed(e), requests },
    }
}

/// A whole fetch of `url`, from the lookup on.
pub open spec fn fetched(url: Seq<char>, cache: Map<Seq<char>, Seq<u8>>, replies: Seq<Reply>) -> FetchRun {
    carried_out(url, cache, StateModel::Looking, ActionModel::Lookup, replies, 0)
}

/// What follows a lookup, a prompt or a store is a request or the end of
/// the fetch: the caller of [`carried_out`] is never left without a next
/// step of lower rank.
pub proof fn lemma_rank_falls(state: StateModel, event: EventModel)
    requires
        event is Hit || event is Miss || event is Acknowledged || event is Stored,
    ensures
        rank(step(state, event).1) < 2,
{
}

/// Once a fetch has delivered a body, the cache holds that body under the
/// URL: a fetch that is served from the cache leaves the cache as it was, and
/// one that went to the network stored what it delivers.
pub proof fn lemma_delivered_is_cached(
    url: Seq<char>,
    cache: Map<Seq<char>, Seq<u8>>,
    replies: Seq<Reply>,
)
    ensures
        fetched(url, cache, replies).outcome matches Outcome::Delivered(body) ==> fetched(
            url,
            cache,
            replies,
        ).cache.contains_key(url) && fetched(url, cache, replies).cache[url] == body,
{
    reveal_with_fuel(carried_out, 3);
    if cache.contains_key(url) {
    } else {
        lemma_request_stores(url, cache, replies, 0);
    }
}

/// A fetch that is at the point of sending a request delivers only what it
/// has stored.
proof fn lemma_request_stores(
    url: Seq<char>,
    cache: Map<Seq<char>, Seq<u8>>,
    replies: Seq<Reply>,
    requests: nat,
)
    ensures
        ({
            let run = carried_out(
                url,
                cache,
                StateModel::Requesting,
                ActionModel::Request,
                replies,
                requests,
            );
            run.outcome matches Outcome::Delivered(body) ==> run.cache.contains_key(url)
                && run.cache[url] == body
        }),
    decreases replies.len(),
{
    reveal_with_fuel(carried_out, 4);
    if replies.len() > 0 {
        match replies[0] {
            Reply::Timeout => {
                lemma_request_stores(url, cache, replies.drop_first(), requests + 1);
            },
            Reply::Failure => {
                lemma_request_stores(url, cache, replies.drop_first(), requests + 1);
            },
            Reply::Body(body) => {},
            Reply::Unreadable => {},
        }
    }
}

/// Fetching a URL again is served from the cache. If a fetch of `url` has
/// delivered a body, then any later fetch of `url` against the cache that the
/// first one left delivers the same body, sends no request, and leaves the
/// cache as it found it, whatever the network would have answered.
pub proof fn lemma_second_fetch_is_served_from_cache(
    url: Seq<char>,
    cache: Map<Seq<char>, Seq<u8>>,
    first: Seq<Reply>,
    second: Seq<Reply>,
)
    requires
        fetched(url, cache, first).outcome is Delivered,
    ensures
        fetched(url, fetched(url, cache, first).cache, second).outcome == fetched(
            url,
            cache,
            first,
        ).outcome,
        fetched(url, fetched(url, cache, first).cache, second).requests == 0,
        fetched(url, fetched(url, cache, first).cache, second).cache == fetched(
            url,
            cache,
            first,
        ).cache,
{
    reveal_with_fuel(carried_out, 3);
    lemma_delivered_is_cached(url, cache, first);
}

/// A fetch that is at the point of sending a request writes to the cache
/// under its own URL at most.
proof fn lemma_request_writes_own_entry(
    url: Seq<char>,
    cache: Map<Seq<char>, Seq<u8>>,
    replies: Seq<Reply>,
    requests: nat,
    other: Seq<char>,
)
    requires
        other != url,
    ensures
        ({
            let run = carried_out(
                url,
                cache,
                StateModel::Requesting,
                ActionModel::Request,
                replies,
                requests,
            );
            &&& run.cache.contains_key(other) == cache.contains_key(other)
            &&& cache.contains_key(other) ==> run.cache[other] == cache[other]
        }),
    decreases replies.len(),
{
    reveal_with_fuel(carried_out, 4);
    if replies.len() > 0 {
        match replies[0] {
            Reply::Timeout => {
                lemma_request_writes_own_entry(
                    url,
                    cache,
                    replies.drop_first(),
                    requests + 1,
                    other,
                );
            },
            Reply::Failure => {
                lemma_request_writes_own_entry(
                    url,
                    cache,
                    replies.drop_first(),
                    requests + 1,
                    other,
                );
            },
            Reply::Body(body) => {},
            Reply::Unreadable => {},
        }
    }
}

/// The cache is written once and never rewritten: whatever it holds under a
/// URL before a fetch, of that URL or of another, it holds after it.
pub proof fn lemma_cache_is_write_once(
    url: Seq<char>,
    cache: Map<Seq<char>, Seq<u8>>,
    replies: Seq<Reply>,
    held: Seq<char>,
)
    requires
        cache.contains_key(held),
    ensures
        fetched(url, cache, replies).cache.contains_key(held),
        fetched(url, cache, replies).cache[held] == cache[held],
{
    reveal_with_fuel(carried_out, 3);
    if !cache.contains_key(url) {
        lemma_request_writes_own_entry(url, cache, replies, 0, held);
    }
}

} // verus!
