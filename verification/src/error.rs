//! The failures that a queue operation can report.

use vstd::prelude::*;

verus! {

/// Why an operation failed.
#[derive(Debug, PartialEq, Eq)]
pub enum SqsError {
    /// A queue of that name exists with other attributes.
    QueueNameExists,
    /// No queue has the given URL.
    QueueDoesNotExist,
    /// An argument is not acceptable; the text says why.
    InvalidParameterValue(String),
    /// The named action is not one of the service's actions.
    InvalidAction(String),
    /// No message of the queue is currently leased under the receipt handle.
    MessageNotInflight,
}

/// The HTTP status that every failure is reported with.
pub const BAD_REQUEST: u16 = 400;

/// The text in front of the action's name in the message of `InvalidAction`.
pub open spec fn invalid_action_prefix() -> Seq<char> {
    "Invalid action: "@
}

impl SqsError {
    /// The HTTP status code of the failure.
    pub open spec fn status_spec(&self) -> u16 {
        BAD_REQUEST
    }

    /// The code that names the kind of failure.
    pub open spec fn code_spec(&self) -> Seq<char> {
        match self {
            SqsError::QueueNameExists => "QueueNameExists"@,
            SqsError::QueueDoesNotExist => "QueueDoesNotExist"@,
            SqsError::InvalidParameterValue(_) => "InvalidParameterValue"@,
            SqsError::InvalidAction(_) => "InvalidAction"@,
            SqsError::MessageNotInflight => "MessageNotInflight"@,
        }
    }

    /// The sentence that describes the failure to a reader.
    pub open spec fn message_spec(&self) -> Seq<char> {
        match self {
            SqsError::QueueNameExists => "A queue with this name already exists."@,
            SqsError::QueueDoesNotExist => "The specified queue does not exist."@,
            SqsError::InvalidParameterValue(text) => text@,
            SqsError::InvalidAction(action) => invalid_action_prefix() + action@,
            SqsError::MessageNotInflight => "The specified message is not in flight."@,
        }
    }

    /// The HTTP status code of the failure.
    pub fn status_code(&self) -> (r: u16)
        ensures
            r == self.status_spec(),
    {
        BAD_REQUEST
    }

    /// The code that names the kind of failure.
    pub fn error_code(&self) -> (r: &'static str)
        ensures
            r@ == self.code_spec(),
    {
        match self {
            SqsError::QueueNameExists => "QueueNameExists",
            SqsError::QueueDoesNotExist => "QueueDoesNotExist",
            SqsError::InvalidParameterValue(_) => "InvalidParameterValue",
            SqsError::InvalidAction(_) => "InvalidAction",
            SqsError::MessageNotInflight => "MessageNotInflight",
        }
    }

    /// The sentence that describes the failure to a reader.
    pub fn message(&self) -> (r: String)
        ensures
            r@ == self.message_spec(),
    {
        match self {
            SqsError::QueueNameExists => String::from_str(
                "A queue with this name already exists.",
            ),
            SqsError::QueueDoesNotExist => String::from_str("The specified queue does not exist."),
            SqsError::InvalidParameterValue(text) => text.clone(),
            SqsError::InvalidAction(action) => {
                let mut r = String::from_str("Invalid action: ");
                r.append(action.as_str());
                r
            },
            SqsError::MessageNotInflight => String::from_str(
                "The specified message is not in flight.",
            ),
        }
    }
}

impl Clone for SqsError {
    fn clone(&self) -> (r: Self)
        ensures
            r == *self,
    {
        match self {
            SqsError::QueueNameExists => SqsError::QueueNameExists,
            SqsError::QueueDoesNotExist => SqsError::QueueDoesNotExist,
            SqsError::InvalidParameterValue(text) => SqsError::InvalidParameterValue(text.clone()),
            SqsError::InvalidAction(action) => SqsError::InvalidAction(action.clone()),
            SqsError::MessageNotInflight => SqsError::MessageNotInflight,
        }
    }
}

} // verus!
