//! The operations of the service: each takes a request and the state of the
//! service, and gives a response or a failure.

use crate::attributes::{name_set, AttributeMap, Attributes, MessageAttributes};
use crate::error::SqsError;
use crate::message::{sent_message, Message, MessageView};
use crate::trusted::{current_time_millis, md5_hex, UUID_TEXT_LENGTH};
use crate::state::{
    created_queue, effective_timeout, handle_in_flight, message_views, receive_pass,
    without_handle, Queue, QueueView,
};
use crate::store::{
    is_listing_of, queue_map_attributes, queue_map_contains, queue_map_insert, queue_map_names,
    queue_map_remove, queue_url_of, AppState, AppStateView,
};
use crate::text::starts_with;
use vstd::prelude::*;

verus! {

/// Asks for a queue of the given name and attributes. The tags are taken
/// and not kept.
#[derive(Debug)]
pub struct CreateQueueRequest {
    pub queue_name: String,
    pub attributes: Attributes,
    pub tags: Attributes,
}

/// The URL of the queue that a `CreateQueueRequest` asked for.
#[derive(Debug)]
pub struct CreateQueueResponse {
    pub queue_url: String,
}

/// Asks for the URL of the queue of the given name.
#[derive(Debug)]
pub struct GetQueueUrlRequest {
    pub queue_name: String,
}

/// The URL that a `GetQueueUrlRequest` asked for.
#[derive(Debug)]
pub struct GetQueueUrlResponse {
    pub queue_url: String,
}

/// Asks for the URLs of the queues whose names begin with the prefix, or
/// of all queues.
#[derive(Debug)]
pub struct ListQueuesRequest {
    pub queue_name_prefix: Option<String>,
}

/// The URLs that a `ListQueuesRequest` asked for.
#[derive(Debug)]
pub struct ListQueuesResponse {
    pub queue_urls: Vec<String>,
}

/// Asks for the attributes of a queue: those named, or all of them.
#[derive(Debug)]
pub struct GetQueueAttributesRequest {
    pub queue_url: String,
    pub attribute_names: Option<Vec<String>>,
}

/// The attributes that a `GetQueueAttributesRequest` asked for.
#[derive(Debug)]
pub struct GetQueueAttributesResponse {
    pub attributes: Attributes,
}

/// Asks to remove a queue.
#[derive(Debug)]
pub struct DeleteQueueRequest {
    pub queue_url: String,
}

/// Asks to discard the messages of a queue.
#[derive(Debug)]
pub struct PurgeQueueRequest {
    pub queue_url: String,
}

/// Asks to put a message into a queue, where it becomes visible after the
/// delay, if there is one.
#[derive(Debug)]
pub struct SendMessageRequest {
    pub queue_url: String,
    pub message_body: String,
    pub message_attributes: MessageAttributes,
    pub delay_seconds: Option<u32>,
}

/// The identifier and the body's digest of a message that was sent.
#[derive(Debug)]
pub struct SendMessageResponse {
    pub message_id: String,
    pub md5_of_message_body: String,
}

/// Asks to remove the message that was received under the receipt handle.
#[derive(Debug)]
pub struct DeleteMessageRequest {
    pub queue_url: String,
    pub receipt_handle: String,
}

/// Asks for messages of a queue: at most so many, hidden from other
/// receivers for the visibility timeout, after a wait of at most the wait
/// time where there is none at once.
#[derive(Debug)]
pub struct ReceiveMessageRequest {
    pub queue_url: String,
    pub max_number_of_messages: u32,
    pub visibility_timeout: Option<u32>,
    pub wait_time_seconds: Option<u32>,
}

/// The messages that a `ReceiveMessageRequest` got, as they were leased.
#[derive(Debug)]
pub struct ReceiveMessageResponse {
    pub messages: Vec<Message>,
}

/// How many messages a receive asks for that names no number.
pub fn default_max_number_of_messages() -> (r: u32)
    ensures
        r == 1,
{
    1
}

/// The queues of a service after the messages of the queue at `url` were
/// replaced by `messages`.
pub open spec fn with_messages(
    queues: Map<Seq<char>, QueueView>,
    url: Seq<char>,
    messages: Seq<MessageView>,
) -> Map<Seq<char>, QueueView> {
    queues.insert(url, QueueView { messages, ..queues[url] })
}

/// Whether a queue cannot be created at `url` with `attributes`: one is
/// there with other attributes.
pub open spec fn create_conflicts(
    queues: Map<Seq<char>, QueueView>,
    url: Seq<char>,
    attributes: Map<Seq<char>, Seq<char>>,
) -> bool {
    queues.contains_key(url) && queues[url].attributes != attributes
}

/// The queues of a service after a queue was created at `now`: a queue
/// that is there stays as it is.
pub open spec fn after_create(
    queues: Map<Seq<char>, QueueView>,
    name: Seq<char>,
    url: Seq<char>,
    attributes: Map<Seq<char>, Seq<char>>,
    now: int,
) -> Map<Seq<char>, QueueView> {
    if queues.contains_key(url) {
        queues
    } else {
        queues.insert(url, created_queue(name, url, attributes, now))
    }
}

/// Creates the queue named in the request, at `now`. Where the queue exists
/// with the same attributes nothing changes and its URL is returned; where
/// it exists with others the request fails.
pub fn create_queue_at(state: &mut AppState, request: CreateQueueRequest, now: i64) -> (r: Result<
    CreateQueueResponse,
    SqsError,
>)
    ensures
        r is Err <==> create_conflicts(
            old(state)@.queues,
            queue_url_of(old(state)@.host, old(state)@.port, request.queue_name@),
            request.attributes@,
        ),
        r is Err ==> r->Err_0 == SqsError::QueueNameExists && final(state)@ == old(state)@,
        r is Ok ==> r->Ok_0.queue_url@ == queue_url_of(
            old(state)@.host,
            old(state)@.port,
            request.queue_name@,
        ),
        r is Ok ==> final(state)@ == (AppStateView {
            queues: after_create(
                old(state)@.queues,
                request.queue_name@,
                queue_url_of(old(state)@.host, old(state)@.port, request.queue_name@),
                request.attributes@,
                now as int,
            ),
            ..old(state)@
        }),
{
    let queue_url = state.queue_url(request.queue_name.as_str());
    match queue_map_attributes(&state.queues, queue_url.as_str()) {
        Some(existing) => {
            if existing.same_as(&request.attributes) {
                Ok(CreateQueueResponse { queue_url })
            } else {
                Err(SqsError::QueueNameExists)
            }
        },
        None => {
            let queue = Queue::new(
                request.queue_name,
                queue_url.clone(),
                request.attributes,
                now,
            );
            queue_map_insert(&mut state.queues, queue_url.clone(), queue);
            Ok(CreateQueueResponse { queue_url })
        },
    }
}

/// Creates the queue named in the request, now by the system's clock.
pub fn create_queue(state: &mut AppState, request: CreateQueueRequest) -> (r: Result<
    CreateQueueResponse,
    SqsError,
>)
    ensures
        r is Err <==> create_conflicts(
            old(state)@.queues,
            queue_url_of(old(state)@.host, old(state)@.port, request.queue_name@),
            request.attributes@,
        ),
        r is Err ==> r->Err_0 == SqsError::QueueNameExists && final(state)@ == old(state)@,
        r is Ok ==> r->Ok_0.queue_url@ == queue_url_of(
            old(state)@.host,
            old(state)@.port,
            request.queue_name@,
        ),
        r is Ok ==> final(state)@ == (AppStateView {
            queues: after_create(
                old(state)@.queues,
                request.queue_name@,
                r->Ok_0.queue_url@,
                request.attributes@,
                final(state)@.queues[r->Ok_0.queue_url@].created_timestamp,
            ),
            ..old(state)@
        }),
{
    let now = current_time_millis();
    create_queue_at(state, request, now)
}

/// The URL of the queue named in the request, if the service holds it.
pub fn get_queue_url(state: &AppState, request: GetQueueUrlRequest) -> (r: Result<
    GetQueueUrlResponse,
    SqsError,
>)
    ensures
        r is Ok <==> state@.queues.contains_key(
            queue_url_of(state@.host, state@.port, request.queue_name@),
        ),
        r is Ok ==> r->Ok_0.queue_url@ == queue_url_of(
            state@.host,
            state@.port,
            request.queue_name@,
        ),
        r is Err ==> r->Err_0 == SqsError::QueueDoesNotExist,
{
    let queue_url = state.queue_url(request.queue_name.as_str());
    if queue_map_contains(&state.queues, queue_url.as_str()) {
        Ok(GetQueueUrlResponse { queue_url })
    } else {
        Err(SqsError::QueueDoesNotExist)
    }
}

/// Whether a queue named `name` is listed under `prefix`: no prefix lists
/// every queue.
pub open spec fn is_listed(prefix: Option<String>, name: Seq<char>) -> bool {
    match prefix {
        Some(p) => p@.is_prefix_of(name),
        None => true,
    }
}

/// Whether `url` is among `urls`.
pub open spec fn lists_url(urls: Seq<String>, url: Seq<char>) -> bool {
    exists|i: int| 0 <= i < urls.len() && (#[trigger] urls[i])@ == url
}

/// Whether no URL is twice among `urls`.
pub open spec fn distinct_urls(urls: Seq<String>) -> bool {
    forall|i: int, j: int|
        0 <= i < j < urls.len() ==> (#[trigger] urls[i])@ != (#[trigger] urls[j])@
}

/// Whether one of the first `i` entries of `listing` is a queue at `url`
/// that is listed under `prefix`.
pub open spec fn picks(
    listing: Seq<(String, String)>,
    prefix: Option<String>,
    url: Seq<char>,
    i: int,
) -> bool {
    exists|j: int|
        0 <= j < i && (#[trigger] listing[j]).0@ == url && is_listed(prefix, listing[j].1@)
}

/// The URLs of the queues whose names begin with the prefix of the
/// request, or of all queues where it has none; each once, in no
/// particular order.
pub fn list_queues(state: &AppState, request: ListQueuesRequest) -> (r: ListQueuesResponse)
    ensures
        distinct_urls(r.queue_urls@),
        forall|url: Seq<char>|
            lists_url(r.queue_urls@, url) <==> (state@.queues.contains_key(url) && is_listed(
                request.queue_name_prefix,
                state@.queues[url].name,
            )),
{
    let listing = queue_map_names(&state.queues);
    let ghost queues = state@.queues;
    let ghost prefix = request.queue_name_prefix;
    let mut queue_urls: Vec<String> = Vec::new();
    let mut i: usize = 0;
    while i < listing.len()
        invariant
            i <= listing@.len(),
            prefix == request.queue_name_prefix,
            is_listing_of(listing@, queues),
            distinct_urls(queue_urls@),
            forall|a: int|
                0 <= a < queue_urls@.len() ==> picks(
                    listing@,
                    prefix,
                    (#[trigger] queue_urls@[a])@,
                    i as int,
                ),
            forall|j: int|
                0 <= j < i && is_listed(prefix, (#[trigger] listing@[j]).1@) ==> lists_url(
                    queue_urls@,
                    listing@[j].0@,
                ),
        decreases listing@.len() - i,
    {
        let ghost listed = queue_urls@;
        let wanted = match &request.queue_name_prefix {
            Some(p) => starts_with(listing[i].1.as_str(), p.as_str()),
            None => true,
        };
        if wanted {
            queue_urls.push(listing[i].0.clone());
        }
        proof {
            assert forall|a: int| 0 <= a < queue_urls@.len() implies picks(
                listing@,
                prefix,
                (#[trigger] queue_urls@[a])@,
                i + 1,
            ) by {
                if a < listed.len() {
                    assert(picks(listing@, prefix, listed[a]@, i as int));
                } else {
                    assert(listing@[i as int].0@ == queue_urls@[a]@);
                }
            }
            assert forall|j: int|
                0 <= j < i + 1 && is_listed(
                    prefix,
                    (#[trigger] listing@[j]).1@,
                ) implies lists_url(queue_urls@, listing@[j].0@) by {
                if j < i {
                    let a = choose|a: int|
                        0 <= a < listed.len() && (#[trigger] listed[a])@ == listing@[j].0@;
                    assert(queue_urls@[a] == listed[a]);
                } else {
                    assert(queue_urls@[listed.len() as int]@ == listing@[j].0@);
                }
            }
            assert forall|a: int, b: int| 0 <= a < b < queue_urls@.len() implies (
            #[trigger] queue_urls@[a])@ != (#[trigger] queue_urls@[b])@ by {
                if b < listed.len() {
                    assert(listed[a]@ != listed[b]@);
                } else {
                    assert(picks(listing@, prefix, listed[a]@, i as int));
                }
            }
        }
        i += 1;
    }
    proof {
        assert forall|url: Seq<char>|
            lists_url(queue_urls@, url) <==> (queues.contains_key(url) && is_listed(
                prefix,
                queues[url].name,
            )) by {
            if lists_url(queue_urls@, url) {
                let a = choose|a: int|
                    0 <= a < queue_urls@.len() && (#[trigger] queue_urls@[a])@ == url;
                assert(picks(listing@, prefix, queue_urls@[a]@, i as int));
            }
            if queues.contains_key(url) && is_listed(prefix, queues[url].name) {
                let j = choose|j: int|
                    0 <= j < listing@.len() && (#[trigger] listing@[j]).0@ == url;
                assert(listing@[j].1@ == queues[url].name);
            }
        }
    }
    ListQueuesResponse { queue_urls }
}

/// The attributes that a request for those named `names` gets of a queue
/// with `attributes`: those named that the queue has, or all of them where
/// the request names none.
pub open spec fn requested_attributes(
    attributes: Map<Seq<char>, Seq<char>>,
    names: Option<Vec<String>>,
) -> Map<Seq<char>, Seq<char>> {
    match names {
        Some(list) => attributes.restrict(name_set(list@)),
        None => attributes,
    }
}

/// The attributes of the queue at the URL of the request.
pub fn get_queue_attributes(state: &AppState, request: GetQueueAttributesRequest) -> (r: Result<
    GetQueueAttributesResponse,
    SqsError,
>)
    ensures
        r is Ok <==> state@.queues.contains_key(request.queue_url@),
        r is Ok ==> r->Ok_0.attributes@ == requested_attributes(
            state@.queues[request.queue_url@].attributes,
            request.attribute_names,
        ),
        r is Err ==> r->Err_0 == SqsError::QueueDoesNotExist,
{
    match queue_map_attributes(&state.queues, request.queue_url.as_str()) {
        Some(all) => {
            let attributes = match &request.attribute_names {
                Some(names) => all.select(names),
                None => all,
            };
            Ok(GetQueueAttributesResponse { attributes })
        },
        None => Err(SqsError::QueueDoesNotExist),
    }
}

/// Removes the queue at the URL of the request, and its messages with it.
pub fn delete_queue(state: &mut AppState, request: DeleteQueueRequest) -> (r: Result<(), SqsError>)
    ensures
        r is Ok <==> old(state)@.queues.contains_key(request.queue_url@),
        r is Err ==> r->Err_0 == SqsError::QueueDoesNotExist && final(state)@ == old(state)@,
        r is Ok ==> final(state)@ == (AppStateView {
            queues: old(state)@.queues.remove(request.queue_url@),
            ..old(state)@
        }),
{
    match queue_map_remove(&mut state.queues, request.queue_url.as_str()) {
        Some(_) => Ok(()),
        None => {
            assert(final(state)@.queues =~= old(state)@.queues);
            Err(SqsError::QueueDoesNotExist)
        },
    }
}

/// Discards every message of the queue at the URL of the request.
pub fn purge_queue(state: &mut AppState, request: PurgeQueueRequest) -> (r: Result<(), SqsError>)
    ensures
        r is Ok <==> old(state)@.queues.contains_key(request.queue_url@),
        r is Err ==> r->Err_0 == SqsError::QueueDoesNotExist && final(state)@ == old(state)@,
        r is Ok ==> final(state)@ == (AppStateView {
            queues: with_messages(old(state)@.queues, request.queue_url@, Seq::empty()),
            ..old(state)@
        }),
{
    match queue_map_remove(&mut state.queues, request.queue_url.as_str()) {
        Some(mut queue) => {
            queue.purge();
            queue_map_insert(&mut state.queues, request.queue_url, queue);
            assert(final(state)@.queues =~= with_messages(
                old(state)@.queues,
                request.queue_url@,
                Seq::empty(),
            ));
            Ok(())
        },
        None => {
            assert(final(state)@.queues =~= old(state)@.queues);
            Err(SqsError::QueueDoesNotExist)
        },
    }
}

/// Sends the message of the request, at `now`, to the queue at its URL: the
/// message gets a random identifier and the digest of its body, and goes
/// behind the messages of the queue.
pub fn send_message_at(state: &mut AppState, request: SendMessageRequest, now: i64) -> (r: Result<
    SendMessageResponse,
    SqsError,
>)
    ensures
        r is Ok <==> old(state)@.queues.contains_key(request.queue_url@),
        r is Err ==> r->Err_0 == SqsError::QueueDoesNotExist && final(state)@ == old(state)@,
        r is Ok ==> r->Ok_0.message_id@.len() == UUID_TEXT_LENGTH,
        r is Ok ==> r->Ok_0.md5_of_message_body@ == md5_hex(request.message_body@),
        r is Ok ==> final(state)@ == (AppStateView {
            queues: with_messages(
                old(state)@.queues,
                request.queue_url@,
                old(state)@.queues[request.queue_url@].messages.push(
                    sent_message(
                        r->Ok_0.message_id@,
                        request.message_body@,
                        md5_hex(request.message_body@),
                        Map::empty(),
                        request.message_attributes@,
                        request.delay_seconds,
                        now as int,
                    ),
                ),
            ),
            ..old(state)@
        }),
{
    match queue_map_remove(&mut state.queues, request.queue_url.as_str()) {
        Some(mut queue) => {
            let message = Message::new_at(
                request.message_body,
                AttributeMap::new(),
                request.message_attributes,
                request.delay_seconds,
                now,
            );
            let response = SendMessageResponse {
                message_id: message.id.clone(),
                md5_of_message_body: message.md5_of_body.clone(),
            };
            queue.send(message);
            queue_map_insert(&mut state.queues, request.queue_url, queue);
            assert(final(state)@.queues =~= with_messages(
                old(state)@.queues,
                request.queue_url@,
                old(state)@.queues[request.queue_url@].messages.push(
                    sent_message(
                        response.message_id@,
                        request.message_body@,
                        md5_hex(request.message_body@),
                        Map::empty(),
                        request.message_attributes@,
                        request.delay_seconds,
                        now as int,
                    ),
                ),
            ));
            Ok(response)
        },
        None => {
            assert(final(state)@.queues =~= old(state)@.queues);
            Err(SqsError::QueueDoesNotExist)
        },
    }
}

/// Sends the message of the request, now by the system's clock.
pub fn send_message(state: &mut AppState, request: SendMessageRequest) -> (r: Result<
    SendMessageResponse,
    SqsError,
>)
    ensures
        r is Ok <==> old(state)@.queues.contains_key(request.queue_url@),
        r is Err ==> r->Err_0 == SqsError::QueueDoesNotExist && final(state)@ == old(state)@,
        r is Ok ==> r->Ok_0.message_id@.len() == UUID_TEXT_LENGTH,
        r is Ok ==> r->Ok_0.md5_of_message_body@ == md5_hex(request.message_body@),
        r is Ok ==> final(state)@ == (AppStateView {
            queues: with_messages(
                old(state)@.queues,
                request.queue_url@,
                old(state)@.queues[request.queue_url@].messages.push(
                    sent_message(
                        r->Ok_0.message_id@,
                        request.message_body@,
                        md5_hex(request.message_body@),
                        Map::empty(),
                        request.message_attributes@,
                        request.delay_seconds,
                        final(state)@.queues[request.queue_url@].messages.last().sent_timestamp,
                    ),
                ),
            ),
            ..old(state)@
        }),
{
    let now = current_time_millis();
    send_message_at(state, request, now)
}

/// Removes, from the queue at the URL of the request, the message that is
/// leased under the receipt handle of the request.
pub fn delete_message(state: &mut AppState, request: DeleteMessageRequest) -> (r: Result<
    (),
    SqsError,
>)
    ensures
        r is Ok <==> old(state)@.queues.contains_key(request.queue_url@) && handle_in_flight(
            old(state)@.queues[request.queue_url@].messages,
            request.receipt_handle@,
        ),
        r is Err ==> final(state)@ == old(state)@,
        r is Err ==> r->Err_0 == if old(state)@.queues.contains_key(request.queue_url@) {
            SqsError::MessageNotInflight
        } else {
            SqsError::QueueDoesNotExist
        },
        r is Ok ==> final(state)@ == (AppStateView {
            queues: with_messages(
                old(state)@.queues,
                request.queue_url@,
                without_handle(
                    old(state)@.queues[request.queue_url@].messages,
                    request.receipt_handle@,
                ),
            ),
            ..old(state)@
        }),
{
    match queue_map_remove(&mut state.queues, request.queue_url.as_str()) {
        Some(mut queue) => {
            let ghost messages = queue@.messages;
            let found = queue.delete_by_handle(request.receipt_handle.as_str());
            queue_map_insert(&mut state.queues, request.queue_url, queue);
            assert(final(state)@.queues =~= with_messages(
                old(state)@.queues,
                request.queue_url@,
                without_handle(messages, request.receipt_handle@),
            ));
            if found {
                Ok(())
            } else {
                proof {
                    crate::state::lemma_without_handle_when_absent(
                        messages,
                        request.receipt_handle@,
                    );
                    assert(final(state)@.queues =~= old(state)@.queues);
                }
                Err(SqsError::MessageNotInflight)
            }
        },
        None => {
            assert(final(state)@.queues =~= old(state)@.queues);
            Err(SqsError::QueueDoesNotExist)
        },
    }
}

/// What one pass of a receive at `now` does to a service: the messages
/// `returned` are leased in the queue at `url`, for the visibility timeout
/// of the request or else of the queue, and nothing else changes.
pub open spec fn received(
    before: AppStateView,
    after: AppStateView,
    returned: Seq<MessageView>,
    url: Seq<char>,
    max: nat,
    visibility_timeout: Option<u32>,
    now: int,
) -> bool {
    &&& after == (AppStateView {
        queues: with_messages(before.queues, url, after.queues[url].messages),
        ..before
    })
    &&& receive_pass(
        before.queues[url].messages,
        after.queues[url].messages,
        returned,
        now,
        max,
        effective_timeout(visibility_timeout, before.queues[url].attributes) as int,
    )
}

/// What a receive is told that asks for no message at all.
pub open spec fn no_messages_asked_for() -> Seq<char> {
    "MaxNumberOfMessages must be at least 1."@
}

/// Whether `error` says that a receive asked for no message at all.
pub open spec fn refuses_empty_receive(error: SqsError) -> bool {
    error matches SqsError::InvalidParameterValue(text) && text@ == no_messages_asked_for()
}

/// One pass of a receive at `now` on the queue at the URL of the request.
/// The queue is looked up first: where there is none the receive fails for
/// that, and only a receive on a queue that is there is refused for asking
/// for no message at all.
pub fn receive_message_at(state: &mut AppState, request: &ReceiveMessageRequest, now: i64) -> (r:
    Result<ReceiveMessageResponse, SqsError>)
    ensures
        r is Ok <==> request.max_number_of_messages >= 1 && old(state)@.queues.contains_key(
            request.queue_url@,
        ),
        r is Err ==> final(state)@ == old(state)@,
        !old(state)@.queues.contains_key(request.queue_url@) ==> r is Err && r->Err_0
            == SqsError::QueueDoesNotExist,
        old(state)@.queues.contains_key(request.queue_url@) && request.max_number_of_messages == 0
            ==> r is Err && refuses_empty_receive(r->Err_0),
        r is Ok ==> received(
            old(state)@,
            final(state)@,
            message_views(r->Ok_0.messages@),
            request.queue_url@,
            request.max_number_of_messages as nat,
            request.visibility_timeout,
            now as int,
        ),
{
    if !queue_map_contains(&state.queues, request.queue_url.as_str()) {
        return Err(SqsError::QueueDoesNotExist);
    }
    if request.max_number_of_messages == 0 {
        return Err(
            SqsError::InvalidParameterValue(
                String::from_str("MaxNumberOfMessages must be at least 1."),
            ),
        );
    }
    match queue_map_remove(&mut state.queues, request.queue_url.as_str()) {
        Some(mut queue) => {
            let timeout = match request.visibility_timeout {
                Some(seconds) => seconds,
                None => queue.visibility_timeout(),
            };
            let messages = queue.receive(now, request.max_number_of_messages, timeout);
            let ghost after = queue@.messages;
            queue_map_insert(&mut state.queues, request.queue_url.clone(), queue);
            assert(final(state)@.queues =~= with_messages(
                old(state)@.queues,
                request.queue_url@,
                after,
            ));
            Ok(ReceiveMessageResponse { messages })
        },
        None => {
            assert(final(state)@.queues =~= old(state)@.queues);
            Err(SqsError::QueueDoesNotExist)
        },
    }
}

/// One pass of a receive, now by the system's clock.
pub fn receive_message(state: &mut AppState, request: &ReceiveMessageRequest) -> (r: Result<
    ReceiveMessageResponse,
    SqsError,
>)
    ensures
        r is Ok <==> request.max_number_of_messages >= 1 && old(state)@.queues.contains_key(
            request.queue_url@,
        ),
        r is Err ==> final(state)@ == old(state)@,
        !old(state)@.queues.contains_key(request.queue_url@) ==> r is Err && r->Err_0
            == SqsError::QueueDoesNotExist,
        old(state)@.queues.contains_key(request.queue_url@) && request.max_number_of_messages == 0
            ==> r is Err && refuses_empty_receive(r->Err_0),
        r is Ok ==> exists|now: int|
            #[trigger] received(
                old(state)@,
                final(state)@,
                message_views(r->Ok_0.messages@),
                request.queue_url@,
                request.max_number_of_messages as nat,
                request.visibility_timeout,
                now,
            ),
{
    let now = current_time_millis();
    receive_message_at(state, request, now)
}

impl Default for ReceiveMessageRequest {
    fn default() -> (r: Self)
        ensures
            r.queue_url@ == Seq::<char>::empty(),
            r.max_number_of_messages == 0,
            r.visibility_timeout is None,
            r.wait_time_seconds is None,
    {
        ReceiveMessageRequest {
            queue_url: String::new(),
            max_number_of_messages: 0,
            visibility_timeout: None,
            wait_time_seconds: None,
        }
    }
}

/// How long a waiting receive pauses between two passes, in milliseconds.
pub const POLL_INTERVAL_MILLIS: u64 = 100;

/// What a waiting receive does after a pass.
#[derive(Debug, Clone, Copy, PartialEq, Eq, Structural)]
pub enum PollStep {
    /// Answer with what the pass returned.
    Respond,
    /// Pause for so many milliseconds, then make another pass.
    Pause(u64),
}

/// The whole seconds from `start` to `now`, both in milliseconds since the
/// epoch; a part of a second does not count.
pub open spec fn elapsed_seconds(start: int, now: int) -> int {
    if now >= start {
        (now - start) / 1000
    } else {
        -((start - now) / 1000)
    }
}

/// The seconds that a receive waits for messages: none where the request
/// names no wait time.
pub open spec fn wait_of(wait_time_seconds: Option<u32>) -> int {
    match wait_time_seconds {
        Some(seconds) => seconds as int,
        None => 0,
    }
}

/// What a receive that began at `start` does after a pass that returned
/// `returned` messages, at `now`: it answers where the pass returned a
/// message or the wait time has passed, and else pauses.
pub open spec fn next_step(
    returned: nat,
    start: int,
    now: int,
    wait_time_seconds: Option<u32>,
) -> PollStep {
    if returned > 0 || elapsed_seconds(start, now) >= wait_of(wait_time_seconds) {
        PollStep::Respond
    } else {
        PollStep::Pause(POLL_INTERVAL_MILLIS)
    }
}

/// Decides what a waiting receive does after a pass.
pub fn poll_step(returned: usize, start: i64, now: i64, wait_time_seconds: Option<u32>) -> (r:
    PollStep)
    ensures
        r == next_step(returned as nat, start as int, now as int, wait_time_seconds),
{
    if returned > 0 {
        return PollStep::Respond;
    }
    let wait: u32 = match wait_time_seconds {
        Some(seconds) => seconds,
        None => 0,
    };
    let elapsed: i128 = now as i128 - start as i128;
    let over = if wait == 0 {
        elapsed > -1000
    } else {
        elapsed >= 1000 * (wait as i128)
    };
    if over {
        PollStep::Respond
    } else {
        PollStep::Pause(POLL_INTERVAL_MILLIS)
    }
}

} // verus!
