//! Queues: an ordered collection of messages with the queue's configuration,
//! and what sending, receiving, deleting and purging change in it.

use crate::attributes::Attributes;
use crate::message::{Message, MessageView};
use crate::trusted::{random_uuid_text, UUID_TEXT_LENGTH};
use crate::text::{parse_decimal, parse_decimal_spec};
use std::collections::VecDeque;
use vstd::prelude::*;

verus! {

/// The visibility timeout, in seconds, of a queue that configures none.
pub const DEFAULT_VISIBILITY_TIMEOUT: u32 = 30;

/// The name of the attribute that holds a queue's visibility timeout.
pub open spec fn visibility_timeout_name() -> Seq<char> {
    "VisibilityTimeout"@
}

/// Where messages go that were received too often. The policy is kept with
/// the queue and not acted on.
#[derive(Debug, PartialEq, Eq)]
pub struct RedrivePolicy {
    pub dead_letter_target_arn: String,
    pub max_receive_count: u32,
}

/// What a redrive policy holds, as mathematical values.
pub struct RedrivePolicyView {
    pub dead_letter_target_arn: Seq<char>,
    pub max_receive_count: nat,
}

impl View for RedrivePolicy {
    type V = RedrivePolicyView;

    open spec fn view(&self) -> RedrivePolicyView {
        RedrivePolicyView {
            dead_letter_target_arn: self.dead_letter_target_arn@,
            max_receive_count: self.max_receive_count as nat,
        }
    }
}

impl Clone for RedrivePolicy {
    fn clone(&self) -> (r: Self)
        ensures
            r == *self,
    {
        RedrivePolicy {
            dead_letter_target_arn: self.dead_letter_target_arn.clone(),
            max_receive_count: self.max_receive_count,
        }
    }
}

/// The view of an optional redrive policy.
pub open spec fn optional_policy(p: Option<RedrivePolicy>) -> Option<RedrivePolicyView> {
    match p {
        Some(policy) => Some(policy@),
        None => None,
    }
}

/// The views of a sequence of messages.
pub open spec fn message_views(s: Seq<Message>) -> Seq<MessageView> {
    s.map_values(|m: Message| m@)
}

/// A queue: its name and URL, its messages in the order in which they were
/// sent, and its configuration.
#[derive(Debug)]
pub struct Queue {
    pub name: String,
    pub url: String,
    pub messages: VecDeque<Message>,
    pub attributes: Attributes,
    /// When the queue was created, in milliseconds since the epoch.
    pub created_timestamp: i64,
    /// When the queue was last reconfigured, in milliseconds since the epoch.
    pub last_modified_timestamp: i64,
    pub redrive_policy: Option<RedrivePolicy>,
}

/// What a queue holds, as mathematical values.
pub struct QueueView {
    pub name: Seq<char>,
    pub url: Seq<char>,
    pub messages: Seq<MessageView>,
    pub attributes: Map<Seq<char>, Seq<char>>,
    pub created_timestamp: int,
    pub last_modified_timestamp: int,
    pub redrive_policy: Option<RedrivePolicyView>,
}

impl View for Queue {
    type V = QueueView;

    open spec fn view(&self) -> QueueView {
        QueueView {
            name: self.name@,
            url: self.url@,
            messages: message_views(self.messages@),
            attributes: self.attributes@,
            created_timestamp: self.created_timestamp as int,
            last_modified_timestamp: self.last_modified_timestamp as int,
            redrive_policy: optional_policy(self.redrive_policy),
        }
    }
}

/// The queue that is created at `now` under `name` and `url`: it is empty.
pub open spec fn created_queue(
    name: Seq<char>,
    url: Seq<char>,
    attributes: Map<Seq<char>, Seq<char>>,
    now: int,
) -> QueueView {
    QueueView {
        name,
        url,
        messages: Seq::empty(),
        attributes,
        created_timestamp: now,
        last_modified_timestamp: now,
        redrive_policy: None,
    }
}

/// The visibility timeout that a queue's attributes configure: the number
/// written under `VisibilityTimeout`, or the default where there is none or
/// it is no number of seconds.
pub open spec fn configured_timeout(attributes: Map<Seq<char>, Seq<char>>) -> u32 {
    if attributes.contains_key(visibility_timeout_name()) {
        match parse_decimal_spec(attributes[visibility_timeout_name()], u32::MAX as nat) {
            Some(seconds) => seconds as u32,
            None => DEFAULT_VISIBILITY_TIMEOUT,
        }
    } else {
        DEFAULT_VISIBILITY_TIMEOUT
    }
}

/// The visibility timeout of one receive: the caller's, or else the queue's.
pub open spec fn effective_timeout(
    requested: Option<u32>,
    attributes: Map<Seq<char>, Seq<char>>,
) -> u32 {
    match requested {
        Some(seconds) => seconds,
        None => configured_timeout(attributes),
    }
}

/// How many of the first `i` messages a receiver at `now` may get.
pub open spec fn available_before(messages: Seq<MessageView>, now: int, i: int) -> nat
    decreases i,
{
    if i <= 0 {
        0
    } else {
        available_before(messages, now, i - 1) + if messages[i - 1].is_available(now) {
            1nat
        } else {
            0nat
        }
    }
}

/// How many messages a receiver at `now` may get.
pub open spec fn available_count(messages: Seq<MessageView>, now: int) -> nat {
    available_before(messages, now, messages.len() as int)
}

/// Whether a receive at `now` for at most `max` messages hands out the
/// message at `i`: it is available and fewer than `max` before it are.
pub open spec fn is_selected(messages: Seq<MessageView>, now: int, max: nat, i: int) -> bool {
    &&& 0 <= i < messages.len()
    &&& messages[i].is_available(now)
    &&& available_before(messages, now, i) < max
}

/// How many messages a receive at `now` for at most `max` messages returns.
pub open spec fn received_count(messages: Seq<MessageView>, now: int, max: nat) -> nat {
    if available_count(messages, now) < max {
        available_count(messages, now)
    } else {
        max
    }
}

/// What one pass of a receive at `now` does to the messages of a queue:
/// `before` become `after`, and `returned` is handed to the receiver. The
/// first `max` available messages are leased for `timeout` seconds, each
/// under the receipt handle found in it afterwards, a text as long as a
/// UUID, and returned in their order as they are then; a lease that has run
/// out is taken off any other message. Which handles the pass gives is left
/// open.
pub open spec fn receive_pass(
    before: Seq<MessageView>,
    after: Seq<MessageView>,
    returned: Seq<MessageView>,
    now: int,
    max: nat,
    timeout: int,
) -> bool {
    &&& after.len() == before.len()
    &&& returned.len() == received_count(before, now, max)
    &&& forall|i: int|
        0 <= i < before.len() ==> #[trigger] after[i] == if is_selected(before, now, max, i) {
            before[i].leased(after[i].receipt_handle->0, now, timeout)
        } else {
            before[i].reclaimed(now)
        }
    &&& forall|i: int|
        is_selected(before, now, max, i) ==> {
            &&& (#[trigger] after[i]).receipt_handle is Some
            &&& after[i].receipt_handle->0.len() == UUID_TEXT_LENGTH
            &&& returned[available_before(before, now, i) as int] == after[i]
        }
}

/// Whether the message is leased under `handle`.
pub open spec fn holds_handle(m: MessageView, handle: Seq<char>) -> bool {
    m.receipt_handle == Some(handle)
}

/// Whether some message is leased under `handle`.
pub open spec fn handle_in_flight(messages: Seq<MessageView>, handle: Seq<char>) -> bool {
    exists|i: int| 0 <= i < messages.len() && holds_handle(#[trigger] messages[i], handle)
}

/// The messages without those leased under `handle`.
pub open spec fn without_handle(messages: Seq<MessageView>, handle: Seq<char>) -> Seq<
    MessageView,
> {
    messages.filter(|m: MessageView| !holds_handle(m, handle))
}

/// Among the first `j` messages no more are available than among the
/// first `i`, for `j` up to `i`.
pub proof fn lemma_available_before_monotonic(
    messages: Seq<MessageView>,
    now: int,
    j: int,
    i: int,
)
    requires
        j <= i,
    ensures
        available_before(messages, now, j) <= available_before(messages, now, i),
    decreases i - j,
{
    if j < i {
        lemma_available_before_monotonic(messages, now, j, i - 1);
    }
}

/// Where no message is leased under `handle`, taking those that are away
/// leaves the messages as they are.
pub proof fn lemma_without_handle_when_absent(messages: Seq<MessageView>, handle: Seq<char>)
    requires
        !handle_in_flight(messages, handle),
    ensures
        without_handle(messages, handle) == messages,
    decreases messages.len(),
{
    reveal(Seq::filter);
    if messages.len() > 0 {
        let front = messages.drop_last();
        assert forall|i: int| 0 <= i < front.len() implies !holds_handle(
            #[trigger] front[i],
            handle,
        ) by {
            assert(front[i] == messages[i]);
        }
        lemma_without_handle_when_absent(front, handle);
        assert(!holds_handle(messages[messages.len() - 1], handle));
        assert(front.push(messages.last()) =~= messages);
    }
}

impl Clone for Queue {
    fn clone(&self) -> (r: Self)
        ensures
            r@ == self@,
    {
        let mut messages: VecDeque<Message> = VecDeque::new();
        let mut i: usize = 0;
        while i < self.messages.len()
            invariant
                i <= self.messages@.len(),
                message_views(messages@) == message_views(self.messages@.subrange(0, i as int)),
            decreases self.messages@.len() - i,
        {
            let ghost seen = self.messages@.subrange(0, i as int);
            let ghost copied = messages@;
            let copy = self.messages[i].clone();
            assert(copy@ == self.messages@[i as int]@);
            messages.push_back(copy);
            assert(message_views(messages@) =~= message_views(copied).push(copy@));
            assert(message_views(self.messages@.subrange(0, i + 1)) =~= message_views(seen).push(
                self.messages@[i as int]@,
            ));
            i += 1;
        }
        assert(self.messages@.subrange(0, self.messages@.len() as int) =~= self.messages@);
        let redrive_policy = match &self.redrive_policy {
            Some(policy) => Some(policy.clone()),
            None => None,
        };
        Queue {
            name: self.name.clone(),
            url: self.url.clone(),
            messages,
            attributes: self.attributes.clone(),
            created_timestamp: self.created_timestamp,
            last_modified_timestamp: self.last_modified_timestamp,
            redrive_policy,
        }
    }
}

impl Queue {
    /// The empty queue created at `now`.
    pub fn new(name: String, url: String, attributes: Attributes, now: i64) -> (r: Queue)
        ensures
            r@ == created_queue(name@, url@, attributes@, now as int),
    {
        let r = Queue {
            name,
            url,
            messages: VecDeque::new(),
            attributes,
            created_timestamp: now,
            last_modified_timestamp: now,
            redrive_policy: None,
        };
        assert(r@.messages =~= Seq::<MessageView>::empty());
        r
    }

    /// The visibility timeout, in seconds, that the queue configures.
    pub fn visibility_timeout(&self) -> (r: u32)
        ensures
            r == configured_timeout(self@.attributes),
    {
        match self.attributes.get("VisibilityTimeout") {
            Some(text) => match parse_decimal(text.as_str(), u32::MAX as u64) {
                Some(seconds) => seconds as u32,
                None => DEFAULT_VISIBILITY_TIMEOUT,
            },
            None => DEFAULT_VISIBILITY_TIMEOUT,
        }
    }

    /// Appends `message` behind the messages of the queue.
    pub fn send(&mut self, message: Message)
        ensures
            final(self)@ == (QueueView {
                messages: old(self)@.messages.push(message@),
                ..old(self)@
            }),
    {
        self.messages.push_back(message);
        assert(message_views(self.messages@) =~= message_views(old(self).messages@).push(
            message@,
        ));
    }

    /// Discards every message of the queue, leased or not.
    pub fn purge(&mut self)
        ensures
            final(self)@ == (QueueView { messages: Seq::empty(), ..old(self)@ }),
    {
        self.messages.clear();
        assert(message_views(self.messages@) =~= Seq::<MessageView>::empty());
    }

    /// Removes the messages that are leased under `handle`, and says whether
    /// there was one.
    pub fn delete_by_handle(&mut self, handle: &str) -> (found: bool)
        ensures
            found == handle_in_flight(old(self)@.messages, handle@),
            final(self)@ == (QueueView {
                messages: without_handle(old(self)@.messages, handle@),
                ..old(self)@
            }),
    {
        let wanted = handle.to_owned();
        let mut rest: VecDeque<Message> = VecDeque::new();
        std::mem::swap(&mut self.messages, &mut rest);
        let ghost initial = rest@;
        let ghost keep = |m: MessageView| !holds_handle(m, handle@);
        let n = rest.len();
        let mut found = false;
        let mut i: usize = 0;
        assert(message_views(initial.subrange(0, 0)) =~= Seq::<MessageView>::empty());
        proof {
            reveal(Seq::filter);
        }
        while i < n
            invariant
                i <= n,
                n == initial.len(),
                wanted@ == handle@,
                keep == |m: MessageView| !holds_handle(m, handle@),
                rest@ == initial.subrange(i as int, n as int),
                message_views(self.messages@) == message_views(
                    initial.subrange(0, i as int),
                ).filter(keep),
                found == handle_in_flight(message_views(initial.subrange(0, i as int)), handle@),
                self.name == old(self).name,
                self.url == old(self).url,
                self.attributes == old(self).attributes,
                self.created_timestamp == old(self).created_timestamp,
                self.last_modified_timestamp == old(self).last_modified_timestamp,
                self.redrive_policy == old(self).redrive_policy,
            decreases n - i,
        {
            let ghost seen = message_views(initial.subrange(0, i as int));
            let ghost next = message_views(initial.subrange(0, i + 1));
            let message = rest.pop_front().unwrap();
            assert(message == initial[i as int]);
            proof {
                assert(next =~= seen.push(message@));
                seen.lemma_filter_push(message@, keep);
                assert(rest@ =~= initial.subrange(i + 1, n as int));
            }
            let held = match &message.receipt_handle {
                Some(h) => *h == wanted,
                None => false,
            };
            assert(held == holds_handle(message@, handle@));
            proof {
                if handle_in_flight(next, handle@) {
                    let j = choose|j: int|
                        0 <= j < next.len() && holds_handle(#[trigger] next[j], handle@);
                    if j < i {
                        assert(holds_handle(seen[j], handle@));
                    }
                }
                if found {
                    let j = choose|j: int|
                        0 <= j < seen.len() && holds_handle(#[trigger] seen[j], handle@);
                    assert(holds_handle(next[j], handle@));
                }
                if held {
                    assert(holds_handle(next[i as int], handle@));
                }
            }
            if held {
                found = true;
            } else {
                self.messages.push_back(message);
                assert(message_views(self.messages@) =~= seen.filter(keep).push(message@));
            }
            i += 1;
        }
        assert(initial.subrange(0, n as int) =~= initial);
        found
    }

    /// One pass of a receive at `now`: leases the first `max` available
    /// messages for `timeout` seconds, each under a new random receipt
    /// handle, and returns them as they are then.
    pub fn receive(&mut self, now: i64, max: u32, timeout: u32) -> (returned: Vec<Message>)
        ensures
            final(self)@ == (QueueView { messages: final(self)@.messages, ..old(self)@ }),
            receive_pass(
                old(self)@.messages,
                final(self)@.messages,
                message_views(returned@),
                now as int,
                max as nat,
                timeout as int,
            ),
    {
        let mut rest: VecDeque<Message> = VecDeque::new();
        std::mem::swap(&mut self.messages, &mut rest);
        let ghost initial = rest@;
        let ghost before = message_views(initial);
        let n = rest.len();
        let mut returned: Vec<Message> = Vec::new();
        let mut i: usize = 0;
        while i < n
            invariant
                i <= n,
                n == initial.len(),
                before == message_views(initial),
                rest@ == initial.subrange(i as int, n as int),
                self.messages@.len() == i,
                returned@.len() == if available_before(before, now as int, i as int) < max {
                    available_before(before, now as int, i as int)
                } else {
                    max as nat
                },
                forall|j: int|
                    0 <= j < i ==> (#[trigger] self.messages@[j])@ == if is_selected(
                        before,
                        now as int,
                        max as nat,
                        j,
                    ) {
                        before[j].leased(
                            self.messages@[j]@.receipt_handle->0,
                            now as int,
                            timeout as int,
                        )
                    } else {
                        before[j].reclaimed(now as int)
                    },
                forall|j: int|
                    0 <= j < i && is_selected(before, now as int, max as nat, j) ==> {
                        &&& (#[trigger] self.messages@[j])@.receipt_handle is Some
                        &&& self.messages@[j]@.receipt_handle->0.len() == UUID_TEXT_LENGTH
                        &&& returned@[available_before(before, now as int, j) as int]@
                            == self.messages@[j]@
                    },
                self.name == old(self).name,
                self.url == old(self).url,
                self.attributes == old(self).attributes,
                self.created_timestamp == old(self).created_timestamp,
                self.last_modified_timestamp == old(self).last_modified_timestamp,
                self.redrive_policy == old(self).redrive_policy,
            decreases n - i,
        {
            let ghost done = self.messages@;
            let ghost handed = returned@;
            let mut message = rest.pop_front().unwrap();
            assert(message == initial[i as int]);
            assert(message@ == before[i as int]);
            assert(rest@ =~= initial.subrange(i + 1, n as int));
            proof {
                assert forall|j: int|
                    0 <= j < i && is_selected(
                        before,
                        now as int,
                        max as nat,
                        j,
                    ) implies available_before(before, now as int, j) < handed.len() by {
                    lemma_available_before_monotonic(before, now as int, j + 1, i as int);
                }
            }
            if message.is_available(now) && returned.len() < max as usize {
                let handle = random_uuid_text();
                let copy = message.lease(handle, now, timeout);
                returned.push(copy);
            } else {
                message.reclaim(now);
            }
            self.messages.push_back(message);
            proof {
                assert forall|j: int| 0 <= j < i implies self.messages@[j] == done[j] by {}
            }
            i += 1;
        }
        proof {
            let after = message_views(self.messages@);
            let out = message_views(returned@);
            assert(receive_pass(before, after, out, now as int, max as nat, timeout as int)) by {
                assert forall|j: int| 0 <= j < before.len() implies #[trigger] after[j]
                    == if is_selected(before, now as int, max as nat, j) {
                    before[j].leased(after[j].receipt_handle->0, now as int, timeout as int)
                } else {
                    before[j].reclaimed(now as int)
                } by {
                    assert(after[j] == self.messages@[j]@);
                }
                assert forall|j: int|
                    is_selected(before, now as int, max as nat, j) implies ({
                    &&& (#[trigger] after[j]).receipt_handle is Some
                    &&& after[j].receipt_handle->0.len() == UUID_TEXT_LENGTH
                    &&& out[available_before(before, now as int, j) as int] == after[j]
                }) by {
                    assert(after[j] == self.messages@[j]@);
                    lemma_available_before_monotonic(before, now as int, j + 1, n as int);
                }
            }
        }
        returned
    }
}

} // verus!
