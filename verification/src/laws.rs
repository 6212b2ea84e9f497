//! What holds of the operations taken together: of a message from its
//! sending to its deletion, and of the queues of a service.

use crate::attributes::MessageAttributeValueView;
use crate::message::{deadline, delay_of, next_receive_count, sent_message, MessageView};
use crate::queue::{after_create, create_conflicts, received, with_messages};
use crate::state::{
    available_before, available_count, handle_in_flight, holds_handle, is_selected,
    receive_pass, received_count, without_handle, QueueView,
};
use crate::store::AppStateView;
use crate::text::{decimal, parse_decimal_spec};
use vstd::prelude::*;

verus! {

/// Whether no two messages have the same identifier.
pub open spec fn distinct_ids(messages: Seq<MessageView>) -> bool {
    forall|i: int, j: int|
        0 <= i < j < messages.len() ==> (#[trigger] messages[i]).id != (#[trigger] messages[j]).id
}

/// Whether some message has the identifier `id`.
pub open spec fn has_id(messages: Seq<MessageView>, id: Seq<char>) -> bool {
    exists|i: int| 0 <= i < messages.len() && (#[trigger] messages[i]).id == id
}

/// No message is visible and leased at once. A lease that has run out no
/// longer hides its message: once it is taken off, the message is visible
/// exactly if it was available. A lease that lasts is not taken off.
pub proof fn law_delivery_states(m: MessageView, t: int)
    ensures
        !(m.is_visible(t) && m.is_leased(t)),
        m.reclaimed(t).is_visible(t) <==> m.is_available(t),
        !m.reclaimed(t).is_visible(t) ==> m.reclaimed(t) == m,
        m.is_leased(t) ==> m.reclaimed(t).is_leased(t),
{
}

/// A message that was sent is visible from the end of its delay on and not
/// before: at once where it has none. No lease is recorded in it.
pub proof fn law_sent_message_visibility(
    id: Seq<char>,
    body: Seq<char>,
    md5_of_body: Seq<char>,
    attributes: Map<Seq<char>, Seq<char>>,
    message_attributes: Map<Seq<char>, MessageAttributeValueView>,
    delay_seconds: Option<u32>,
    now: int,
    t: int,
)
    ensures
        ({
            let m = sent_message(
                id,
                body,
                md5_of_body,
                attributes,
                message_attributes,
                delay_seconds,
                now,
            );
            &&& m.is_visible(t) <==> t >= deadline(now, delay_of(delay_seconds))
            &&& now + 1000 * delay_of(delay_seconds) <= i64::MAX ==> m.visible_from == now + 1000
                * delay_of(delay_seconds) && (m.is_visible(t) <==> t >= now + 1000 * delay_of(
                delay_seconds,
            ))
            &&& delay_of(delay_seconds) == 0 ==> m.is_visible(now)
            &&& delay_of(delay_seconds) > 0 && now + 1000 * delay_of(delay_seconds) <= i64::MAX
                ==> !m.is_visible(now)
            &&& !m.is_leased(t)
        }),
{
}

/// The number of available messages among the first `i` does not depend on
/// what comes behind them.
pub proof fn lemma_available_before_push(
    messages: Seq<MessageView>,
    last: MessageView,
    now: int,
    i: int,
)
    requires
        i <= messages.len(),
    ensures
        available_before(messages.push(last), now, i) == available_before(messages, now, i),
    decreases i,
{
    if i > 0 {
        lemma_available_before_push(messages, last, now, i - 1);
        assert(messages.push(last)[i - 1] == messages[i - 1]);
    }
}

/// A message that was sent at `now` is handed out by a pass at `t` exactly
/// if its delay has passed by then, where the pass asks for more messages
/// than are available before it. It is then the last that the pass returns;
/// otherwise it stays as it was sent.
pub proof fn law_sent_message_is_received_after_delay(
    before: Seq<MessageView>,
    sent: MessageView,
    after: Seq<MessageView>,
    returned: Seq<MessageView>,
    delay_seconds: Option<u32>,
    now: int,
    t: int,
    max: nat,
    timeout: int,
)
    requires
        sent.receipt_handle is None,
        sent.visible_from == deadline(now, delay_of(delay_seconds)),
        receive_pass(before.push(sent), after, returned, t, max, timeout),
        available_count(before, t) < max,
    ensures
        is_selected(before.push(sent), t, max, before.len() as int) <==> t >= deadline(
            now,
            delay_of(delay_seconds),
        ),
        t >= deadline(now, delay_of(delay_seconds)) ==> returned.len() == available_count(
            before,
            t,
        ) + 1 && returned.last().id == sent.id && returned.last().receive_count
            == next_receive_count(sent.receive_count),
        t < deadline(now, delay_of(delay_seconds)) ==> returned.len() == available_count(
            before,
            t,
        ) && after.last() == sent,
{
    let all = before.push(sent);
    let n = before.len() as int;
    lemma_available_before_push(before, sent, t, n);
    assert(all[n] == sent);
    assert(available_before(all, t, n + 1) == available_before(all, t, n) + if sent.is_available(
        t,
    ) {
        1nat
    } else {
        0nat
    });
    if t >= deadline(now, delay_of(delay_seconds)) {
        assert(is_selected(all, t, max, n));
        assert(returned[available_before(all, t, n) as int] == after[n]);
        assert(after[n] == all[n].leased(after[n].receipt_handle->0, t, timeout));
    } else {
        assert(after[n] == all[n].reclaimed(t));
    }
}

/// A pass keeps every message where it is, with its identifier, body and
/// time of sending.
pub proof fn law_receive_keeps_messages(
    before: Seq<MessageView>,
    after: Seq<MessageView>,
    returned: Seq<MessageView>,
    now: int,
    max: nat,
    timeout: int,
)
    requires
        receive_pass(before, after, returned, now, max, timeout),
    ensures
        after.len() == before.len(),
        forall|i: int|
            0 <= i < before.len() ==> {
                &&& (#[trigger] after[i]).id == before[i].id
                &&& after[i].body == before[i].body
                &&& after[i].md5_of_body == before[i].md5_of_body
                &&& after[i].sent_timestamp == before[i].sent_timestamp
                &&& after[i].receive_count >= before[i].receive_count
            },
        distinct_ids(before) ==> distinct_ids(after),
{
    assert forall|i: int| 0 <= i < before.len() implies {
        &&& (#[trigger] after[i]).id == before[i].id
        &&& after[i].body == before[i].body
        &&& after[i].md5_of_body == before[i].md5_of_body
        &&& after[i].sent_timestamp == before[i].sent_timestamp
        &&& after[i].receive_count >= before[i].receive_count
    } by {
        assert(after[i] == if is_selected(before, now, max, i) {
            before[i].leased(after[i].receipt_handle->0, now, timeout)
        } else {
            before[i].reclaimed(now)
        });
    }
    if distinct_ids(before) {
        assert forall|i: int, j: int| 0 <= i < j < after.len() implies (#[trigger] after[i]).id != (
        #[trigger] after[j]).id by {
            assert(before[i].id != before[j].id);
        }
    }
}

/// A pass returns the messages in the order in which the queue holds them,
/// which is the order in which they were sent.
pub proof fn law_receive_returns_in_queue_order(
    messages: Seq<MessageView>,
    now: int,
    max: nat,
    i: int,
    j: int,
)
    requires
        is_selected(messages, now, max, i),
        is_selected(messages, now, max, j),
        i < j,
    ensures
        available_before(messages, now, i) < available_before(messages, now, j),
        available_before(messages, now, j) < received_count(messages, now, max),
{
    crate::state::lemma_available_before_monotonic(messages, now, i + 1, j);
    crate::state::lemma_available_before_monotonic(messages, now, j + 1, messages.len() as int);
}

/// Each message that a pass returns is one that it selected.
pub proof fn lemma_returned_is_selected(messages: Seq<MessageView>, now: int, max: nat, k: int)
    requires
        0 <= k < received_count(messages, now, max),
    ensures
        exists|i: int|
            #[trigger] is_selected(messages, now, max, i) && available_before(messages, now, i)
                == k,
{
    lemma_position_of_available(messages, now, k, messages.len() as int);
    let i = choose|i: int|
        0 <= i < messages.len() && (#[trigger] messages[i]).is_available(now) && available_before(
            messages,
            now,
            i,
        ) == k;
    assert(is_selected(messages, now, max, i));
}

/// Among the first `n` messages, the one that is available with `k`
/// available before it exists, for `k` below the number of those available.
pub proof fn lemma_position_of_available(messages: Seq<MessageView>, now: int, k: int, n: int)
    requires
        0 <= k < available_before(messages, now, n),
        n <= messages.len(),
    ensures
        exists|i: int|
            0 <= i < n && (#[trigger] messages[i]).is_available(now) && available_before(
                messages,
                now,
                i,
            ) == k,
    decreases n,
{
    if n > 0 {
        if k < available_before(messages, now, n - 1) {
            lemma_position_of_available(messages, now, k, n - 1);
        } else {
            assert(messages[n - 1].is_available(now));
            assert(available_before(messages, now, n - 1) == k);
        }
    }
}

/// A message that one pass handed out is passed over by a pass that comes
/// while its lease lasts.
pub proof fn law_leased_message_is_passed_over(
    before: Seq<MessageView>,
    middle: Seq<MessageView>,
    first: Seq<MessageView>,
    now1: int,
    max1: nat,
    timeout1: int,
    now2: int,
    max2: nat,
    i: int,
)
    requires
        receive_pass(before, middle, first, now1, max1, timeout1),
        is_selected(before, now1, max1, i),
        now2 < deadline(now1, timeout1),
    ensures
        middle[i].is_leased(now2),
        !middle[i].is_visible(now2),
        !is_selected(middle, now2, max2, i),
{
    assert(middle[i] == before[i].leased(middle[i].receipt_handle->0, now1, timeout1));
}

/// Two passes on a queue, the second within the visibility timeout of the
/// first, return no message in common: where the messages of the queue have
/// identifiers of their own, no identifier is returned by both.
pub proof fn law_overlapping_receives_are_disjoint(
    before: Seq<MessageView>,
    middle: Seq<MessageView>,
    first: Seq<MessageView>,
    after: Seq<MessageView>,
    second: Seq<MessageView>,
    now1: int,
    max1: nat,
    timeout1: int,
    now2: int,
    max2: nat,
    timeout2: int,
)
    requires
        receive_pass(before, middle, first, now1, max1, timeout1),
        receive_pass(middle, after, second, now2, max2, timeout2),
        now2 < deadline(now1, timeout1),
        distinct_ids(before),
    ensures
        forall|a: int, b: int|
            0 <= a < first.len() && 0 <= b < second.len() ==> (#[trigger] first[a]).id != (
            #[trigger] second[b]).id,
{
    law_receive_keeps_messages(before, middle, first, now1, max1, timeout1);
    law_receive_keeps_messages(middle, after, second, now2, max2, timeout2);
    assert forall|a: int, b: int| 0 <= a < first.len() && 0 <= b < second.len() implies (
    #[trigger] first[a]).id != (#[trigger] second[b]).id by {
        lemma_returned_is_selected(before, now1, max1, a);
        lemma_returned_is_selected(middle, now2, max2, b);
        let i = choose|i: int|
            #[trigger] is_selected(before, now1, max1, i) && available_before(before, now1, i)
                == a;
        let j = choose|j: int|
            #[trigger] is_selected(middle, now2, max2, j) && available_before(middle, now2, j)
                == b;
        law_leased_message_is_passed_over(
            before,
            middle,
            first,
            now1,
            max1,
            timeout1,
            now2,
            max2,
            i,
        );
        assert(i != j);
        assert(first[a] == middle[i]);
        assert(second[b] == after[j]);
        assert(middle[i].id == before[i].id);
        assert(after[j].id == middle[j].id);
        assert(middle[j].id == before[j].id);
        if i < j {
            assert(before[i].id != before[j].id);
        } else {
            assert(before[j].id != before[i].id);
        }
    }
}

/// A lease that has run out gives way: the message is available again from
/// the end of its lease on, and a pass that comes then and asks for more
/// messages than are available before it returns the message once more,
/// with its receive count one higher and under a receipt handle.
pub proof fn law_expired_lease_is_redelivered(
    before: Seq<MessageView>,
    middle: Seq<MessageView>,
    first: Seq<MessageView>,
    after: Seq<MessageView>,
    second: Seq<MessageView>,
    now1: int,
    max1: nat,
    timeout1: int,
    now2: int,
    max2: nat,
    timeout2: int,
    i: int,
)
    requires
        receive_pass(before, middle, first, now1, max1, timeout1),
        receive_pass(middle, after, second, now2, max2, timeout2),
        is_selected(before, now1, max1, i),
        now2 >= deadline(now1, timeout1),
        available_before(middle, now2, i) < max2,
        before[i].receive_count + 2 <= u32::MAX,
    ensures
        forall|t: int| middle[i].is_available(t) <==> t >= deadline(now1, timeout1),
        is_selected(middle, now2, max2, i),
        ({
            let earlier = first[available_before(before, now1, i) as int];
            let later = second[available_before(middle, now2, i) as int];
            &&& later.id == earlier.id
            &&& later.body == earlier.body
            &&& earlier.receive_count == before[i].receive_count + 1
            &&& later.receive_count == earlier.receive_count + 1
            &&& later.receipt_handle is Some
            &&& after[i].receipt_handle == later.receipt_handle
        }),
{
    assert(middle[i] == before[i].leased(middle[i].receipt_handle->0, now1, timeout1));
    assert(is_selected(middle, now2, max2, i));
    assert(after[i] == middle[i].leased(after[i].receipt_handle->0, now2, timeout2));
    assert(first[available_before(before, now1, i) as int] == middle[i]);
    assert(second[available_before(middle, now2, i) as int] == after[i]);
}

/// A receipt handle is used up by the deletion that it allows: afterwards
/// no message is leased under it, so that a second deletion with it fails.
pub proof fn law_delete_consumes_handle(messages: Seq<MessageView>, handle: Seq<char>)
    ensures
        !handle_in_flight(without_handle(messages, handle), handle),
        without_handle(without_handle(messages, handle), handle) == without_handle(
            messages,
            handle,
        ),
{
    let keep = |m: MessageView| !holds_handle(m, handle);
    let rest = without_handle(messages, handle);
    assert forall|i: int| 0 <= i < rest.len() implies !holds_handle(#[trigger] rest[i], handle) by {
        messages.lemma_filter_pred(keep, i);
    }
    crate::state::lemma_without_handle_when_absent(rest, handle);
}

/// In a service in which a message was deleted under a receipt handle, the
/// queue is still there and no message of it is leased under the handle:
/// a second deletion with the handle fails for want of a message in flight.
pub proof fn law_second_delete_fails(
    queues: Map<Seq<char>, QueueView>,
    url: Seq<char>,
    handle: Seq<char>,
)
    requires
        queues.contains_key(url),
    ensures
        ({
            let after = with_messages(queues, url, without_handle(queues[url].messages, handle));
            &&& after.contains_key(url)
            &&& !handle_in_flight(after[url].messages, handle)
        }),
{
    law_delete_consumes_handle(queues[url].messages, handle);
}

/// Where one message is leased under the handle and no other is, a deletion
/// with the handle finds it and takes exactly it out of the queue: the
/// other messages stay as they are and in their order.
pub proof fn law_delete_takes_out_the_one_leased(
    messages: Seq<MessageView>,
    handle: Seq<char>,
    i: int,
)
    requires
        0 <= i < messages.len(),
        holds_handle(messages[i], handle),
        forall|j: int|
            0 <= j < messages.len() && j != i ==> !holds_handle(#[trigger] messages[j], handle),
    ensures
        handle_in_flight(messages, handle),
        without_handle(messages, handle) == messages.remove(i),
{
    let keep = |m: MessageView| !holds_handle(m, handle);
    let front = messages.subrange(0, i);
    let back = messages.subrange(i + 1, messages.len() as int);
    let one = seq![messages[i]];
    assert(messages =~= front + one + back);
    assert forall|j: int| 0 <= j < front.len() implies !holds_handle(
        #[trigger] front[j],
        handle,
    ) by {
        assert(front[j] == messages[j]);
    }
    assert forall|j: int| 0 <= j < back.len() implies !holds_handle(#[trigger] back[j], handle) by {
        assert(back[j] == messages[i + 1 + j]);
    }
    crate::state::lemma_without_handle_when_absent(front, handle);
    crate::state::lemma_without_handle_when_absent(back, handle);
    assert(one.filter(keep) =~= Seq::<MessageView>::empty()) by {
        let none = Seq::<MessageView>::empty();
        none.lemma_filter_push(messages[i], keep);
        none.lemma_filter_len(keep);
        assert(none.push(messages[i]) =~= one);
    }
    Seq::filter_distributes_over_add(front, one, keep);
    Seq::filter_distributes_over_add(front + one, back, keep);
    assert(messages.remove(i) =~= front + back);
}

/// A deletion removes the messages leased under the handle and no other:
/// each message that stays was there before, and each message not leased
/// under the handle stays.
pub proof fn law_delete_removes_only_the_leased(messages: Seq<MessageView>, handle: Seq<char>)
    ensures
        forall|j: int|
            0 <= j < without_handle(messages, handle).len() ==> messages.contains(
                #[trigger] without_handle(messages, handle)[j],
            ),
        forall|i: int|
            0 <= i < messages.len() && !holds_handle(#[trigger] messages[i], handle)
                ==> without_handle(messages, handle).contains(messages[i]),
        without_handle(messages, handle).len() <= messages.len(),
{
    let keep = |m: MessageView| !holds_handle(m, handle);
    let rest = without_handle(messages, handle);
    assert forall|j: int| 0 <= j < rest.len() implies messages.contains(#[trigger] rest[j]) by {
        assert(rest.contains(rest[j]));
        messages.lemma_filter_contains_rev(keep, rest[j]);
    }
    assert forall|i: int|
        0 <= i < messages.len() && !holds_handle(
            #[trigger] messages[i],
            handle,
        ) implies rest.contains(messages[i]) by {
        messages.lemma_filter_contains(keep, i);
    }
    messages.lemma_filter_len(keep);
}

/// A message that was deleted under its receipt handle is gone for good:
/// where the messages of the queue have identifiers of their own, none
/// that stays has its identifier, and no later pass returns it.
pub proof fn law_deleted_message_is_never_returned(
    messages: Seq<MessageView>,
    handle: Seq<char>,
    i: int,
    after: Seq<MessageView>,
    returned: Seq<MessageView>,
    now: int,
    max: nat,
    timeout: int,
)
    requires
        distinct_ids(messages),
        0 <= i < messages.len(),
        holds_handle(messages[i], handle),
        receive_pass(without_handle(messages, handle), after, returned, now, max, timeout),
    ensures
        !has_id(without_handle(messages, handle), messages[i].id),
        !has_id(after, messages[i].id),
        !has_id(returned, messages[i].id),
{
    let keep = |m: MessageView| !holds_handle(m, handle);
    let rest = without_handle(messages, handle);
    let gone = messages[i].id;
    assert forall|j: int| 0 <= j < rest.len() implies (#[trigger] rest[j]).id != gone by {
        messages.lemma_filter_pred(keep, j);
        assert(rest.contains(rest[j]));
        messages.lemma_filter_contains_rev(keep, rest[j]);
        let p = choose|p: int| 0 <= p < messages.len() && messages[p] == rest[j];
        if p < i {
            assert(messages[p].id != messages[i].id);
        } else if i < p {
            assert(messages[i].id != messages[p].id);
        }
    }
    law_receive_keeps_messages(rest, after, returned, now, max, timeout);
    assert forall|j: int| 0 <= j < after.len() implies (#[trigger] after[j]).id != gone by {
        assert(after[j].id == rest[j].id);
    }
    assert forall|k: int| 0 <= k < returned.len() implies (#[trigger] returned[k]).id != gone by {
        lemma_returned_is_selected(rest, now, max, k);
        let j = choose|j: int|
            #[trigger] is_selected(rest, now, max, j) && available_before(rest, now, j) == k;
        assert(returned[k] == after[j]);
    }
}

/// A receipt handle goes stale with its lease: after a pass that comes when
/// every lease under the handle has run out, and that hands out no message
/// under the same handle again, no message is leased under it, so that a
/// deletion with it fails.
pub proof fn law_expired_handle_is_stale(
    before: Seq<MessageView>,
    after: Seq<MessageView>,
    returned: Seq<MessageView>,
    now: int,
    max: nat,
    timeout: int,
    handle: Seq<char>,
)
    requires
        receive_pass(before, after, returned, now, max, timeout),
        forall|i: int|
            0 <= i < before.len() && holds_handle(#[trigger] before[i], handle) ==> now
                >= before[i].visible_from,
        forall|i: int|
            is_selected(before, now, max, i) ==> !holds_handle(#[trigger] after[i], handle),
    ensures
        !handle_in_flight(after, handle),
{
    assert forall|i: int| 0 <= i < after.len() implies !holds_handle(
        #[trigger] after[i],
        handle,
    ) by {
        if !is_selected(before, now, max, i) {
            assert(after[i] == before[i].reclaimed(now));
        }
    }
}

/// A queue that was purged holds no message, whatever it held and however
/// its messages were leased, and a pass on it returns none.
pub proof fn law_purged_queue_returns_nothing(
    after: Seq<MessageView>,
    returned: Seq<MessageView>,
    now: int,
    max: nat,
    timeout: int,
)
    requires
        receive_pass(Seq::empty(), after, returned, now, max, timeout),
    ensures
        returned.len() == 0,
        after.len() == 0,
{
}

/// A queue of a service that was purged is still a queue of the service,
/// with its attributes, and the next pass on it returns nothing.
pub proof fn law_purged_queue_stays_and_is_empty(
    before: AppStateView,
    url: Seq<char>,
    after: AppStateView,
    returned: Seq<MessageView>,
    max: nat,
    visibility_timeout: Option<u32>,
    now: int,
)
    requires
        before.queues.contains_key(url),
        received(
            AppStateView { queues: with_messages(before.queues, url, Seq::empty()), ..before },
            after,
            returned,
            url,
            max,
            visibility_timeout,
            now,
        ),
    ensures
        returned.len() == 0,
        after.queues.dom() == before.queues.dom(),
        after.queues[url] == (QueueView { messages: Seq::empty(), ..before.queues[url] }),
{
    let purged = with_messages(before.queues, url, Seq::empty());
    assert(purged[url].messages.len() == 0);
    assert(after.queues[url].messages =~= Seq::<MessageView>::empty());
    assert(after.queues.dom() =~= before.queues.dom());
}

/// What an operation does to the messages of one queue leaves the service
/// with the same queues, and every other queue as it was.
pub proof fn law_other_queues_are_untouched(
    queues: Map<Seq<char>, QueueView>,
    url: Seq<char>,
    messages: Seq<MessageView>,
    other: Seq<char>,
)
    requires
        queues.contains_key(url),
        other != url,
    ensures
        with_messages(queues, url, messages).dom() == queues.dom(),
        with_messages(queues, url, messages)[other] == queues[other],
        with_messages(queues, url, messages)[url].messages == messages,
{
    assert(with_messages(queues, url, messages).dom() =~= queues.dom());
}

/// Creating a queue twice with the same name and attributes is as good as
/// creating it once: the second creation succeeds and changes nothing. A
/// creation with the same name and other attributes fails.
pub proof fn law_create_is_idempotent(
    queues: Map<Seq<char>, QueueView>,
    name: Seq<char>,
    url: Seq<char>,
    attributes: Map<Seq<char>, Seq<char>>,
    other: Map<Seq<char>, Seq<char>>,
    now1: int,
    now2: int,
)
    requires
        !create_conflicts(queues, url, attributes),
    ensures
        ({
            let once = after_create(queues, name, url, attributes, now1);
            &&& once.contains_key(url)
            &&& !create_conflicts(once, url, attributes)
            &&& after_create(once, name, url, attributes, now2) == once
            &&& other != attributes ==> create_conflicts(once, url, other)
        }),
{
}

/// A number that was written in decimal is read back as itself.
pub proof fn law_decimal_is_read_back(n: nat, max: nat)
    requires
        n <= max,
    ensures
        parse_decimal_spec(decimal(n), max) == Some(n),
{
    crate::text::lemma_decimal_digits(n);
    assert(crate::text::is_digit(decimal(n)[0]));
}

} // verus!
