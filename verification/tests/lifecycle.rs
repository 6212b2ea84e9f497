use local_sqs::attributes::{Attributes, MessageAttributes};
use local_sqs::error::SqsError;
use local_sqs::queue::{
    create_queue, create_queue_at, delete_message, delete_queue, get_queue_attributes,
    get_queue_url, list_queues, purge_queue, receive_message, receive_message_at, send_message,
    send_message_at, CreateQueueRequest, DeleteMessageRequest, DeleteQueueRequest,
    GetQueueAttributesRequest, GetQueueUrlRequest, ListQueuesRequest, PurgeQueueRequest,
    ReceiveMessageRequest, SendMessageRequest,
};
use local_sqs::store::AppState;

const T0: i64 = 1_700_000_000_000;

fn service() -> AppState {
    AppState::new(None, None)
}

fn create(state: &mut AppState, name: &str) -> String {
    let request = CreateQueueRequest {
        queue_name: name.to_string(),
        attributes: Attributes::new(),
        tags: Attributes::new(),
    };
    create_queue_at(state, request, T0).unwrap().queue_url
}

fn send(state: &mut AppState, url: &str, body: &str, delay: Option<u32>, now: i64) -> String {
    let request = SendMessageRequest {
        queue_url: url.to_string(),
        message_body: body.to_string(),
        message_attributes: MessageAttributes::new(),
        delay_seconds: delay,
    };
    send_message_at(state, request, now).unwrap().message_id
}

fn receive(url: &str, max: u32, timeout: Option<u32>) -> ReceiveMessageRequest {
    ReceiveMessageRequest {
        queue_url: url.to_string(),
        max_number_of_messages: max,
        visibility_timeout: timeout,
        wait_time_seconds: None,
    }
}

#[test]
fn send_then_receive_returns_the_message_once() {
    let mut state = service();
    let url = create(&mut state, "orders");
    assert_eq!(url, "http://localhost:9324/orders");
    let id = send(&mut state, &url, "A", None, T0);

    let first = receive_message_at(&mut state, &receive(&url, 1, None), T0).unwrap();
    assert_eq!(first.messages.len(), 1);
    let message = &first.messages[0];
    assert_eq!(message.body, "A");
    assert_eq!(message.id, id);
    assert_eq!(message.receive_count, 1);
    assert_eq!(message.sent_timestamp, T0);
    assert_eq!(message.visible_from, T0 + 30_000);
    let handle = message.receipt_handle.clone().unwrap();
    assert!(!handle.is_empty());
    assert_eq!(handle.chars().count(), 36);
}

#[test]
fn receive_within_the_timeout_returns_nothing() {
    let mut state = service();
    let url = create(&mut state, "orders");
    send(&mut state, &url, "A", None, T0);
    let first = receive_message_at(&mut state, &receive(&url, 1, None), T0).unwrap();
    assert_eq!(first.messages.len(), 1);
    let again = receive_message_at(&mut state, &receive(&url, 1, None), T0).unwrap();
    assert_eq!(again.messages.len(), 0);
    let later = receive_message_at(&mut state, &receive(&url, 1, None), T0 + 29_999).unwrap();
    assert_eq!(later.messages.len(), 0);
}

#[test]
fn delete_with_the_handle_empties_the_queue() {
    let mut state = service();
    let url = create(&mut state, "orders");
    send(&mut state, &url, "A", None, T0);
    let first = receive_message_at(&mut state, &receive(&url, 1, None), T0).unwrap();
    let handle = first.messages[0].receipt_handle.clone().unwrap();
    let deleted = delete_message(
        &mut state,
        DeleteMessageRequest { queue_url: url.clone(), receipt_handle: handle },
    );
    assert_eq!(deleted, Ok(()));
    let again = receive_message_at(&mut state, &receive(&url, 1, None), T0 + 60_000).unwrap();
    assert_eq!(again.messages.len(), 0);
    assert_eq!(state.queues.get(&url).unwrap().messages.len(), 0);
}

#[test]
fn delayed_message_is_hidden_until_the_delay_is_over() {
    let mut state = service();
    let url = create(&mut state, "orders");
    send(&mut state, &url, "late", Some(5), T0);
    let at_once = receive_message_at(&mut state, &receive(&url, 1, None), T0).unwrap();
    assert_eq!(at_once.messages.len(), 0);
    let just_before = receive_message_at(&mut state, &receive(&url, 1, None), T0 + 4_999).unwrap();
    assert_eq!(just_before.messages.len(), 0);
    let after = receive_message_at(&mut state, &receive(&url, 1, None), T0 + 5_000).unwrap();
    assert_eq!(after.messages.len(), 1);
    assert_eq!(after.messages[0].body, "late");
    assert_eq!(after.messages[0].receive_count, 1);
}

#[test]
fn expired_lease_hands_the_message_out_again() {
    let mut state = service();
    let url = create(&mut state, "orders");
    let id = send(&mut state, &url, "A", None, T0);
    let first = receive_message_at(&mut state, &receive(&url, 1, Some(1)), T0).unwrap();
    assert_eq!(first.messages.len(), 1);
    assert_eq!(first.messages[0].visible_from, T0 + 1_000);
    let first_handle = first.messages[0].receipt_handle.clone().unwrap();

    let second = receive_message_at(&mut state, &receive(&url, 1, Some(1)), T0 + 2_000).unwrap();
    assert_eq!(second.messages.len(), 1);
    assert_eq!(second.messages[0].id, id);
    assert_eq!(second.messages[0].body, "A");
    assert_eq!(second.messages[0].receive_count, 2);
    let second_handle = second.messages[0].receipt_handle.clone().unwrap();
    assert_ne!(first_handle, second_handle);

    let stale = delete_message(
        &mut state,
        DeleteMessageRequest { queue_url: url.clone(), receipt_handle: first_handle },
    );
    assert_eq!(stale, Err(SqsError::MessageNotInflight));
    let current = delete_message(
        &mut state,
        DeleteMessageRequest { queue_url: url.clone(), receipt_handle: second_handle.clone() },
    );
    assert_eq!(current, Ok(()));
    let used = delete_message(
        &mut state,
        DeleteMessageRequest { queue_url: url.clone(), receipt_handle: second_handle },
    );
    assert_eq!(used, Err(SqsError::MessageNotInflight));
}

#[test]
fn purge_discards_all_messages_and_keeps_the_queue() {
    let mut state = service();
    let url = create(&mut state, "orders");
    send(&mut state, &url, "one", None, T0);
    send(&mut state, &url, "two", None, T0);
    send(&mut state, &url, "three", None, T0);
    assert_eq!(purge_queue(&mut state, PurgeQueueRequest { queue_url: url.clone() }), Ok(()));

    let listed = list_queues(&state, ListQueuesRequest { queue_name_prefix: None });
    assert_eq!(listed.queue_urls, vec![url.clone()]);
    let attributes = get_queue_attributes(
        &state,
        GetQueueAttributesRequest { queue_url: url.clone(), attribute_names: None },
    );
    assert!(attributes.is_ok());
    let received = receive_message_at(&mut state, &receive(&url, 10, None), T0).unwrap();
    assert_eq!(received.messages.len(), 0);
}

#[test]
fn purge_discards_leased_messages_too() {
    let mut state = service();
    let url = create(&mut state, "orders");
    send(&mut state, &url, "one", None, T0);
    send(&mut state, &url, "two", None, T0);
    let first = receive_message_at(&mut state, &receive(&url, 1, None), T0).unwrap();
    let handle = first.messages[0].receipt_handle.clone().unwrap();
    assert_eq!(purge_queue(&mut state, PurgeQueueRequest { queue_url: url.clone() }), Ok(()));
    assert_eq!(state.queues.get(&url).unwrap().messages.len(), 0);
    let deleted = delete_message(
        &mut state,
        DeleteMessageRequest { queue_url: url.clone(), receipt_handle: handle },
    );
    assert_eq!(deleted, Err(SqsError::MessageNotInflight));
}

#[test]
fn receive_takes_the_oldest_messages_first() {
    let mut state = service();
    let url = create(&mut state, "orders");
    send(&mut state, &url, "one", None, T0);
    send(&mut state, &url, "two", None, T0 + 1);
    send(&mut state, &url, "three", None, T0 + 2);
    let first = receive_message_at(&mut state, &receive(&url, 2, None), T0 + 10).unwrap();
    assert_eq!(first.messages.len(), 2);
    assert_eq!(first.messages[0].body, "one");
    assert_eq!(first.messages[1].body, "two");
    assert_ne!(first.messages[0].receipt_handle, first.messages[1].receipt_handle);
    let second = receive_message_at(&mut state, &receive(&url, 2, None), T0 + 10).unwrap();
    assert_eq!(second.messages.len(), 1);
    assert_eq!(second.messages[0].body, "three");
    let queue = state.queues.get(&url).unwrap();
    assert_eq!(queue.messages.len(), 3);
    assert_eq!(queue.messages[0].body, "one");
    assert_eq!(queue.messages[1].body, "two");
    assert_eq!(queue.messages[2].body, "three");
    assert_eq!(queue.messages[0].receipt_handle, first.messages[0].receipt_handle);
}

#[test]
fn overlapping_receives_return_different_messages() {
    let mut state = service();
    let url = create(&mut state, "orders");
    for body in ["a", "b", "c", "d"] {
        send(&mut state, &url, body, None, T0);
    }
    let first = receive_message_at(&mut state, &receive(&url, 3, Some(10)), T0).unwrap();
    let second = receive_message_at(&mut state, &receive(&url, 3, Some(10)), T0 + 9_999).unwrap();
    assert_eq!(first.messages.len(), 3);
    assert_eq!(second.messages.len(), 1);
    for a in &first.messages {
        for b in &second.messages {
            assert_ne!(a.id, b.id);
        }
    }
}

#[test]
fn receive_on_a_missing_queue_fails_whatever_it_asks_for() {
    let mut state = service();
    let url = create(&mut state, "orders");
    send(&mut state, &url, "A", None, T0);
    for max in [0, 1, 10, u32::MAX] {
        for wait in [None, Some(0), Some(20)] {
            let mut request = receive("http://localhost:9324/missing", max, None);
            request.wait_time_seconds = wait;
            let result = receive_message_at(&mut state, &request, T0);
            assert_eq!(result.err(), Some(SqsError::QueueDoesNotExist));
        }
    }
    assert_eq!(state.queues.len(), 1);
    let queue = state.queues.get(&url).unwrap();
    assert_eq!(queue.messages.len(), 1);
    assert!(queue.messages[0].receipt_handle.is_none());
}

#[test]
fn receive_for_no_message_at_all_is_refused() {
    let mut state = service();
    let url = create(&mut state, "orders");
    send(&mut state, &url, "A", None, T0);
    let refused = receive_message_at(&mut state, &receive(&url, 0, None), T0);
    assert_eq!(
        refused.err(),
        Some(SqsError::InvalidParameterValue(
            "MaxNumberOfMessages must be at least 1.".to_string()
        ))
    );
    let missing = receive_message_at(&mut state, &receive("nowhere", 0, None), T0);
    assert_eq!(missing.err(), Some(SqsError::QueueDoesNotExist));
    let missing_by_the_clock = receive_message(&mut state, &receive("nowhere", 0, None));
    assert_eq!(missing_by_the_clock.err(), Some(SqsError::QueueDoesNotExist));
    let by_the_clock = receive_message(&mut state, &receive(&url, 0, None));
    assert!(matches!(by_the_clock, Err(SqsError::InvalidParameterValue(_))));
    let queue = state.queues.get(&url).unwrap();
    assert_eq!(queue.messages.len(), 1);
    assert!(queue.messages[0].receipt_handle.is_none());
    assert_eq!(queue.messages[0].receive_count, 0);
}

#[test]
fn queue_timeout_attribute_sets_the_lease() {
    let mut state = service();
    let mut attributes = Attributes::new();
    attributes.insert("VisibilityTimeout".to_string(), "7".to_string());
    let request = CreateQueueRequest {
        queue_name: "short".to_string(),
        attributes,
        tags: Attributes::new(),
    };
    let url = create_queue_at(&mut state, request, T0).unwrap().queue_url;
    send(&mut state, &url, "A", None, T0);
    let first = receive_message_at(&mut state, &receive(&url, 1, None), T0).unwrap();
    assert_eq!(first.messages[0].visible_from, T0 + 7_000);
    let second = receive_message_at(&mut state, &receive(&url, 1, Some(2)), T0 + 7_000).unwrap();
    assert_eq!(second.messages[0].visible_from, T0 + 9_000);
    assert_eq!(second.messages[0].receive_count, 2);
}

#[test]
fn queue_timeout_attribute_that_is_no_number_is_ignored() {
    let mut state = service();
    let mut attributes = Attributes::new();
    attributes.insert("VisibilityTimeout".to_string(), "soon".to_string());
    let request = CreateQueueRequest {
        queue_name: "odd".to_string(),
        attributes,
        tags: Attributes::new(),
    };
    let url = create_queue_at(&mut state, request, T0).unwrap().queue_url;
    send(&mut state, &url, "A", None, T0);
    let first = receive_message_at(&mut state, &receive(&url, 1, None), T0).unwrap();
    assert_eq!(first.messages[0].visible_from, T0 + 30_000);
}

#[test]
fn create_queue_twice_with_the_same_attributes_changes_nothing() {
    let mut state = service();
    let mut attributes = Attributes::new();
    attributes.insert("DelaySeconds".to_string(), "0".to_string());
    attributes.insert("VisibilityTimeout".to_string(), "5".to_string());
    let first = create_queue_at(
        &mut state,
        CreateQueueRequest {
            queue_name: "orders".to_string(),
            attributes: attributes.clone(),
            tags: Attributes::new(),
        },
        T0,
    )
    .unwrap();
    send(&mut state, &first.queue_url, "A", None, T0);

    let mut reordered = Attributes::new();
    reordered.insert("VisibilityTimeout".to_string(), "5".to_string());
    reordered.insert("DelaySeconds".to_string(), "0".to_string());
    let second = create_queue_at(
        &mut state,
        CreateQueueRequest {
            queue_name: "orders".to_string(),
            attributes: reordered,
            tags: Attributes::new(),
        },
        T0 + 5,
    )
    .unwrap();
    assert_eq!(first.queue_url, second.queue_url);
    assert_eq!(state.queues.len(), 1);
    let queue = state.queues.get(&first.queue_url).unwrap();
    assert_eq!(queue.created_timestamp, T0);
    assert_eq!(queue.last_modified_timestamp, T0);
    assert_eq!(queue.name, "orders");
    assert_eq!(queue.messages.len(), 1);
}

#[test]
fn create_queue_with_other_attributes_is_a_conflict() {
    let mut state = service();
    create(&mut state, "orders");
    let mut attributes = Attributes::new();
    attributes.insert("VisibilityTimeout".to_string(), "5".to_string());
    let second = create_queue_at(
        &mut state,
        CreateQueueRequest {
            queue_name: "orders".to_string(),
            attributes,
            tags: Attributes::new(),
        },
        T0,
    );
    assert_eq!(second.err(), Some(SqsError::QueueNameExists));
    assert_eq!(state.queues.len(), 1);
}

#[test]
fn get_queue_url_finds_only_what_was_created() {
    let mut state = service();
    let url = create(&mut state, "orders");
    let found = get_queue_url(&state, GetQueueUrlRequest { queue_name: "orders".to_string() });
    assert_eq!(found.unwrap().queue_url, url);
    let missing = get_queue_url(&state, GetQueueUrlRequest { queue_name: "other".to_string() });
    assert_eq!(missing.err(), Some(SqsError::QueueDoesNotExist));
}

#[test]
fn list_queues_filters_by_prefix() {
    let mut state = service();
    let orders = create(&mut state, "orders");
    let orders_eu = create(&mut state, "orders-eu");
    let invoices = create(&mut state, "invoices");

    let mut all = list_queues(&state, ListQueuesRequest { queue_name_prefix: None }).queue_urls;
    all.sort();
    let mut expected = vec![orders.clone(), orders_eu.clone(), invoices.clone()];
    expected.sort();
    assert_eq!(all, expected);

    let mut some = list_queues(
        &state,
        ListQueuesRequest { queue_name_prefix: Some("orders".to_string()) },
    )
    .queue_urls;
    some.sort();
    let mut expected = vec![orders, orders_eu];
    expected.sort();
    assert_eq!(some, expected);

    let none = list_queues(
        &state,
        ListQueuesRequest { queue_name_prefix: Some("x".to_string()) },
    );
    assert!(none.queue_urls.is_empty());
}

#[test]
fn get_queue_attributes_returns_all_or_those_named() {
    let mut state = service();
    let mut attributes = Attributes::new();
    attributes.insert("VisibilityTimeout".to_string(), "5".to_string());
    attributes.insert("DelaySeconds".to_string(), "0".to_string());
    let url = create_queue_at(
        &mut state,
        CreateQueueRequest {
            queue_name: "orders".to_string(),
            attributes,
            tags: Attributes::new(),
        },
        T0,
    )
    .unwrap()
    .queue_url;

    let all = get_queue_attributes(
        &state,
        GetQueueAttributesRequest { queue_url: url.clone(), attribute_names: None },
    )
    .unwrap();
    assert_eq!(all.attributes.len(), 2);
    assert_eq!(all.attributes.get("VisibilityTimeout"), Some(&"5".to_string()));
    assert_eq!(all.attributes.get("DelaySeconds"), Some(&"0".to_string()));

    let named = get_queue_attributes(
        &state,
        GetQueueAttributesRequest {
            queue_url: url.clone(),
            attribute_names: Some(vec!["DelaySeconds".to_string(), "Missing".to_string()]),
        },
    )
    .unwrap();
    assert_eq!(named.attributes.len(), 1);
    assert_eq!(named.attributes.get("DelaySeconds"), Some(&"0".to_string()));
    assert_eq!(named.attributes.get("VisibilityTimeout"), None);

    let missing = get_queue_attributes(
        &state,
        GetQueueAttributesRequest { queue_url: "nowhere".to_string(), attribute_names: None },
    );
    assert_eq!(missing.err(), Some(SqsError::QueueDoesNotExist));
}

#[test]
fn delete_queue_removes_the_queue_and_its_messages() {
    let mut state = service();
    let url = create(&mut state, "orders");
    let other = create(&mut state, "other");
    send(&mut state, &url, "A", None, T0);
    send(&mut state, &other, "B", None, T0);
    assert_eq!(delete_queue(&mut state, DeleteQueueRequest { queue_url: url.clone() }), Ok(()));
    assert!(!state.queues.contains_key(&url));
    assert_eq!(state.queues.get(&other).unwrap().messages.len(), 1);
    assert_eq!(
        delete_queue(&mut state, DeleteQueueRequest { queue_url: url.clone() }),
        Err(SqsError::QueueDoesNotExist)
    );
    let received = receive_message_at(&mut state, &receive(&url, 1, None), T0);
    assert_eq!(received.err(), Some(SqsError::QueueDoesNotExist));
}

#[test]
fn operations_on_a_missing_queue_fail() {
    let mut state = service();
    let url = "http://localhost:9324/missing".to_string();
    let sent = send_message_at(
        &mut state,
        SendMessageRequest {
            queue_url: url.clone(),
            message_body: "A".to_string(),
            message_attributes: MessageAttributes::new(),
            delay_seconds: None,
        },
        T0,
    );
    assert_eq!(sent.err(), Some(SqsError::QueueDoesNotExist));
    assert_eq!(
        purge_queue(&mut state, PurgeQueueRequest { queue_url: url.clone() }),
        Err(SqsError::QueueDoesNotExist)
    );
    assert_eq!(
        delete_message(
            &mut state,
            DeleteMessageRequest { queue_url: url.clone(), receipt_handle: "h".to_string() },
        ),
        Err(SqsError::QueueDoesNotExist)
    );
    assert_eq!(state.queues.len(), 0);
}

#[test]
fn delete_message_with_an_unknown_handle_changes_nothing() {
    let mut state = service();
    let url = create(&mut state, "orders");
    send(&mut state, &url, "A", None, T0);
    send(&mut state, &url, "B", None, T0);
    let first = receive_message_at(&mut state, &receive(&url, 1, None), T0).unwrap();
    let result = delete_message(
        &mut state,
        DeleteMessageRequest { queue_url: url.clone(), receipt_handle: "never-issued".to_string() },
    );
    assert_eq!(result, Err(SqsError::MessageNotInflight));
    let queue = state.queues.get(&url).unwrap();
    assert_eq!(queue.messages.len(), 2);
    assert_eq!(queue.messages[0].receipt_handle, first.messages[0].receipt_handle);
    assert_eq!(queue.messages[1].receipt_handle, None);
}

#[test]
fn delete_message_of_an_expired_lease_still_succeeds_before_the_next_receive() {
    let mut state = service();
    let url = create(&mut state, "orders");
    send(&mut state, &url, "A", None, T0);
    let first = receive_message_at(&mut state, &receive(&url, 1, Some(1)), T0).unwrap();
    let handle = first.messages[0].receipt_handle.clone().unwrap();
    let result = delete_message(
        &mut state,
        DeleteMessageRequest { queue_url: url.clone(), receipt_handle: handle },
    );
    assert_eq!(result, Ok(()));
    assert_eq!(state.queues.get(&url).unwrap().messages.len(), 0);
}

#[test]
fn send_message_reports_id_and_digest() {
    let mut state = service();
    let url = create(&mut state, "orders");
    let response = send_message_at(
        &mut state,
        SendMessageRequest {
            queue_url: url.clone(),
            message_body: "A".to_string(),
            message_attributes: MessageAttributes::new(),
            delay_seconds: None,
        },
        T0,
    )
    .unwrap();
    assert_eq!(response.md5_of_message_body, "7fc56270e7a70fa81a5935b72eacbe29");
    assert_eq!(response.message_id.chars().count(), 36);
    let queue = state.queues.get(&url).unwrap();
    assert_eq!(queue.messages.len(), 1);
    assert_eq!(queue.messages[0].id, response.message_id);
    assert_eq!(queue.messages[0].md5_of_body, "7fc56270e7a70fa81a5935b72eacbe29");
    assert_eq!(queue.messages[0].md5_of_message_attributes, "");
    assert_eq!(queue.messages[0].receive_count, 0);
    assert_eq!(queue.messages[0].receipt_handle, None);
    assert_eq!(queue.messages[0].visible_from, T0);
}

#[test]
fn operations_by_the_clock_run_the_same_lifecycle() {
    let mut state = service();
    let url = create_queue(
        &mut state,
        CreateQueueRequest {
            queue_name: "orders".to_string(),
            attributes: Attributes::new(),
            tags: Attributes::new(),
        },
    )
    .unwrap()
    .queue_url;
    let created = state.queues.get(&url).unwrap().created_timestamp;
    assert!(created > 1_600_000_000_000);

    let delayed = send_message(
        &mut state,
        SendMessageRequest {
            queue_url: url.clone(),
            message_body: "later".to_string(),
            message_attributes: MessageAttributes::new(),
            delay_seconds: Some(3600),
        },
    )
    .unwrap();
    let sent = send_message(
        &mut state,
        SendMessageRequest {
            queue_url: url.clone(),
            message_body: "now".to_string(),
            message_attributes: MessageAttributes::new(),
            delay_seconds: None,
        },
    )
    .unwrap();
    assert_ne!(delayed.message_id, sent.message_id);

    let first = receive_message(&mut state, &receive(&url, 10, None)).unwrap();
    assert_eq!(first.messages.len(), 1);
    assert_eq!(first.messages[0].body, "now");
    assert_eq!(first.messages[0].id, sent.message_id);
    assert_eq!(first.messages[0].receive_count, 1);
    assert!(first.messages[0].sent_timestamp >= created);
    assert_eq!(first.messages[0].visible_from - first.messages[0].sent_timestamp >= 30_000, true);
    let second = receive_message(&mut state, &receive(&url, 10, None)).unwrap();
    assert_eq!(second.messages.len(), 0);
}
