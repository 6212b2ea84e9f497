//! Messages and their delivery state: when a message may be handed to a
//! receiver, and what a lease changes.

use crate::attributes::{
    copy_optional_text, optional_text, Attributes, MessageAttributeValueView, MessageAttributes,
};
use crate::trusted::{current_time_millis, md5_hex, md5_of_text, random_uuid_text, UUID_TEXT_LENGTH};
use vstd::prelude::*;

verus! {

/// The milliseconds in a second.
pub const MILLIS_PER_SECOND: i64 = 1000;

/// The time `seconds` seconds after `now`, both in milliseconds since the
/// epoch; no later than the last time an `i64` can hold.
pub open spec fn deadline(now: int, seconds: int) -> int {
    if now + MILLIS_PER_SECOND * seconds > i64::MAX {
        i64::MAX as int
    } else {
        now + MILLIS_PER_SECOND * seconds
    }
}

/// The receive count after one more delivery; it stays at the largest count
/// once it has reached it.
pub open spec fn next_receive_count(count: nat) -> nat {
    if count < u32::MAX {
        count + 1
    } else {
        count
    }
}

/// The seconds of an optional delay: none is no delay.
pub open spec fn delay_of(delay_seconds: Option<u32>) -> int {
    match delay_seconds {
        Some(d) => d as int,
        None => 0,
    }
}

/// A message held by a queue.
#[derive(Debug)]
pub struct Message {
    /// The identifier given at send time.
    pub id: String,
    /// The receipt handle of the current lease, if the message is leased.
    pub receipt_handle: Option<String>,
    pub body: String,
    pub md5_of_body: String,
    pub attributes: Attributes,
    pub message_attributes: MessageAttributes,
    pub md5_of_message_attributes: String,
    /// The time before which no receiver gets the message, in milliseconds
    /// since the epoch.
    pub visible_from: i64,
    /// The time at which the message was sent, in milliseconds since the epoch.
    pub sent_timestamp: i64,
    /// How often the message has been handed to a receiver.
    pub receive_count: u32,
}

/// What a message holds, as mathematical values.
pub struct MessageView {
    pub id: Seq<char>,
    pub receipt_handle: Option<Seq<char>>,
    pub body: Seq<char>,
    pub md5_of_body: Seq<char>,
    pub attributes: Map<Seq<char>, Seq<char>>,
    pub message_attributes: Map<Seq<char>, MessageAttributeValueView>,
    pub md5_of_message_attributes: Seq<char>,
    pub visible_from: int,
    pub sent_timestamp: int,
    pub receive_count: nat,
}

impl View for Message {
    type V = MessageView;

    open spec fn view(&self) -> MessageView {
        MessageView {
            id: self.id@,
            receipt_handle: optional_text(self.receipt_handle),
            body: self.body@,
            md5_of_body: self.md5_of_body@,
            attributes: self.attributes@,
            message_attributes: self.message_attributes@,
            md5_of_message_attributes: self.md5_of_message_attributes@,
            visible_from: self.visible_from as int,
            sent_timestamp: self.sent_timestamp as int,
            receive_count: self.receive_count as nat,
        }
    }
}

impl MessageView {
    /// Visible: no lease is recorded and the time of visibility has come.
    pub open spec fn is_visible(self, now: int) -> bool {
        self.receipt_handle is None && now >= self.visible_from
    }

    /// Leased: a lease is recorded and has not run out.
    pub open spec fn is_leased(self, now: int) -> bool {
        self.receipt_handle is Some && now < self.visible_from
    }

    /// Whether a receiver at `now` may get the message: its time of
    /// visibility has come, so that a lease still recorded has run out.
    pub open spec fn is_available(self, now: int) -> bool {
        now >= self.visible_from
    }

    /// The message after a lease that has run out at `now` was taken off it.
    pub open spec fn reclaimed(self, now: int) -> MessageView {
        if self.receipt_handle is Some && now >= self.visible_from {
            MessageView { receipt_handle: None, ..self }
        } else {
            self
        }
    }

    /// The message after it was handed out at `now` under `handle`, hidden
    /// for `timeout` seconds.
    pub open spec fn leased(self, handle: Seq<char>, now: int, timeout: int) -> MessageView {
        MessageView {
            receipt_handle: Some(handle),
            visible_from: deadline(now, timeout),
            receive_count: next_receive_count(self.receive_count),
            ..self
        }
    }
}

/// The message that a send at `now` puts into a queue.
pub open spec fn sent_message(
    id: Seq<char>,
    body: Seq<char>,
    md5_of_body: Seq<char>,
    attributes: Map<Seq<char>, Seq<char>>,
    message_attributes: Map<Seq<char>, MessageAttributeValueView>,
    delay_seconds: Option<u32>,
    now: int,
) -> MessageView {
    MessageView {
        id,
        receipt_handle: None,
        body,
        md5_of_body,
        attributes,
        message_attributes,
        md5_of_message_attributes: Seq::empty(),
        visible_from: deadline(now, delay_of(delay_seconds)),
        sent_timestamp: now,
        receive_count: 0,
    }
}

/// The time `seconds` seconds after `now`.
pub fn deadline_after(now: i64, seconds: u32) -> (r: i64)
    ensures
        r == deadline(now as int, seconds as int),
{
    let span: i64 = MILLIS_PER_SECOND * (seconds as i64);
    if now > i64::MAX - span {
        i64::MAX
    } else {
        now + span
    }
}

impl Clone for Message {
    fn clone(&self) -> (r: Self)
        ensures
            r@ == self@,
    {
        Message {
            id: self.id.clone(),
            receipt_handle: copy_optional_text(&self.receipt_handle),
            body: self.body.clone(),
            md5_of_body: self.md5_of_body.clone(),
            attributes: self.attributes.clone(),
            message_attributes: self.message_attributes.clone(),
            md5_of_message_attributes: self.md5_of_message_attributes.clone(),
            visible_from: self.visible_from,
            sent_timestamp: self.sent_timestamp,
            receive_count: self.receive_count,
        }
    }
}

impl Message {
    /// The message sent at `now` with the given identifier and digest.
    pub fn assemble(
        id: String,
        body: String,
        md5_of_body: String,
        attributes: Attributes,
        message_attributes: MessageAttributes,
        delay_seconds: Option<u32>,
        now: i64,
    ) -> (r: Message)
        ensures
            r@ == sent_message(
                id@,
                body@,
                md5_of_body@,
                attributes@,
                message_attributes@,
                delay_seconds,
                now as int,
            ),
    {
        let visible_from = match delay_seconds {
            Some(delay) => deadline_after(now, delay),
            None => deadline_after(now, 0),
        };
        Message {
            id,
            receipt_handle: None,
            body,
            md5_of_body,
            attributes,
            message_attributes,
            md5_of_message_attributes: String::new(),
            visible_from,
            sent_timestamp: now,
            receive_count: 0,
        }
    }

    /// A message sent at `now`: it gets a random identifier and the digest
    /// of its body.
    pub fn new_at(
        body: String,
        attributes: Attributes,
        message_attributes: MessageAttributes,
        delay_seconds: Option<u32>,
        now: i64,
    ) -> (r: Message)
        ensures
            r@.id.len() == UUID_TEXT_LENGTH,
            r@ == sent_message(
                r@.id,
                body@,
                md5_hex(body@),
                attributes@,
                message_attributes@,
                delay_seconds,
                now as int,
            ),
    {
        let md5_of_body = md5_of_text(body.as_str());
        let id = random_uuid_text();
        Message::assemble(
            id,
            body,
            md5_of_body,
            attributes,
            message_attributes,
            delay_seconds,
            now,
        )
    }

    /// A message sent now, by the system's clock.
    pub fn new(
        body: String,
        attributes: Attributes,
        message_attributes: MessageAttributes,
        delay_seconds: Option<u32>,
    ) -> (r: Message)
        ensures
            r@.id.len() == UUID_TEXT_LENGTH,
            r@ == sent_message(
                r@.id,
                body@,
                md5_hex(body@),
                attributes@,
                message_attributes@,
                delay_seconds,
                r@.sent_timestamp,
            ),
    {
        let now = current_time_millis();
        Message::new_at(body, attributes, message_attributes, delay_seconds, now)
    }

    /// Whether the message is visible at `now`.
    pub fn is_visible(&self, now: i64) -> (r: bool)
        ensures
            r == self@.is_visible(now as int),
    {
        self.receipt_handle.is_none() && now >= self.visible_from
    }

    /// Whether the message is leased at `now`.
    pub fn is_leased(&self, now: i64) -> (r: bool)
        ensures
            r == self@.is_leased(now as int),
    {
        self.receipt_handle.is_some() && now < self.visible_from
    }

    /// Whether a receiver at `now` may get the message.
    pub fn is_available(&self, now: i64) -> (r: bool)
        ensures
            r == self@.is_available(now as int),
    {
        now >= self.visible_from
    }

    /// Takes a lease that has run out at `now` off the message.
    pub fn reclaim(&mut self, now: i64)
        ensures
            final(self)@ == old(self)@.reclaimed(now as int),
    {
        if self.receipt_handle.is_some() && now >= self.visible_from {
            self.receipt_handle = None;
        }
    }

    /// Hands the message out at `now` under `handle`, hidden for `timeout`
    /// seconds, and returns a copy of the message as it is then.
    pub fn lease(&mut self, handle: String, now: i64, timeout: u32) -> (r: Message)
        ensures
            final(self)@ == old(self)@.leased(handle@, now as int, timeout as int),
            r@ == final(self)@,
    {
        self.visible_from = deadline_after(now, timeout);
        self.receipt_handle = Some(handle);
        if self.receive_count < u32::MAX {
            self.receive_count = self.receive_count + 1;
        }
        self.clone()
    }
}

} // verus!
