//! The actions of the service and the names under which requests ask for
//! them.

use crate::error::SqsError;
use vstd::prelude::*;

verus! {

/// An action of the service.
#[derive(Debug, Clone, Copy, PartialEq, Eq, Structural)]
pub enum Action {
    CreateQueue,
    GetQueueUrl,
    ListQueues,
    DeleteQueue,
    PurgeQueue,
    GetQueueAttributes,
    SendMessage,
    ReceiveMessage,
    DeleteMessage,
}

impl Action {
    /// The name under which a request asks for the action.
    pub open spec fn target_spec(self) -> Seq<char> {
        match self {
            Action::CreateQueue => "AmazonSQS.CreateQueue"@,
            Action::GetQueueUrl => "AmazonSQS.GetQueueUrl"@,
            Action::ListQueues => "AmazonSQS.ListQueues"@,
            Action::DeleteQueue => "AmazonSQS.DeleteQueue"@,
            Action::PurgeQueue => "AmazonSQS.PurgeQueue"@,
            Action::GetQueueAttributes => "AmazonSQS.GetQueueAttributes"@,
            Action::SendMessage => "AmazonSQS.SendMessage"@,
            Action::ReceiveMessage => "AmazonSQS.ReceiveMessage"@,
            Action::DeleteMessage => "AmazonSQS.DeleteMessage"@,
        }
    }

    /// The name under which a request asks for the action.
    pub fn target(self) -> (r: &'static str)
        ensures
            r@ == self.target_spec(),
    {
        match self {
            Action::CreateQueue => "AmazonSQS.CreateQueue",
            Action::GetQueueUrl => "AmazonSQS.GetQueueUrl",
            Action::ListQueues => "AmazonSQS.ListQueues",
            Action::DeleteQueue => "AmazonSQS.DeleteQueue",
            Action::PurgeQueue => "AmazonSQS.PurgeQueue",
            Action::GetQueueAttributes => "AmazonSQS.GetQueueAttributes",
            Action::SendMessage => "AmazonSQS.SendMessage",
            Action::ReceiveMessage => "AmazonSQS.ReceiveMessage",
            Action::DeleteMessage => "AmazonSQS.DeleteMessage",
        }
    }
}

/// Whether `target` names no action.
pub open spec fn is_unknown_target(target: Seq<char>) -> bool {
    forall|action: Action| #[trigger] action.target_spec() != target
}

fn names(target: &String, action: Action) -> (r: bool)
    ensures
        r == (target@ == action.target_spec()),
{
    *target == String::from_str(action.target())
}

/// The action that `target` names; an unknown name is an invalid action.
pub fn parse_target(target: &str) -> (r: Result<Action, SqsError>)
    ensures
        match r {
            Ok(action) => action.target_spec() == target@,
            Err(e) => is_unknown_target(target@) && (e matches SqsError::InvalidAction(name)
                && name@ == target@),
        },
{
    let name = String::from_str(target);
    if names(&name, Action::CreateQueue) {
        Ok(Action::CreateQueue)
    } else if names(&name, Action::GetQueueUrl) {
        Ok(Action::GetQueueUrl)
    } else if names(&name, Action::ListQueues) {
        Ok(Action::ListQueues)
    } else if names(&name, Action::DeleteQueue) {
        Ok(Action::DeleteQueue)
    } else if names(&name, Action::PurgeQueue) {
        Ok(Action::PurgeQueue)
    } else if names(&name, Action::GetQueueAttributes) {
        Ok(Action::GetQueueAttributes)
    } else if names(&name, Action::SendMessage) {
        Ok(Action::SendMessage)
    } else if names(&name, Action::ReceiveMessage) {
        Ok(Action::ReceiveMessage)
    } else if names(&name, Action::DeleteMessage) {
        Ok(Action::DeleteMessage)
    } else {
        assert forall|action: Action| #[trigger] action.target_spec() != target@ by {
            match action {
                Action::CreateQueue => {},
                Action::GetQueueUrl => {},
                Action::ListQueues => {},
                Action::DeleteQueue => {},
                Action::PurgeQueue => {},
                Action::GetQueueAttributes => {},
                Action::SendMessage => {},
                Action::ReceiveMessage => {},
                Action::DeleteMessage => {},
            }
        }
        Err(SqsError::InvalidAction(name))
    }
}

/// No two actions go by the same name, so that a name stands for one
/// action at most.
pub proof fn law_targets_are_distinct(a: Action, b: Action)
    requires
        a.target_spec() == b.target_spec(),
    ensures
        a == b,
{
    reveal_strlit("AmazonSQS.CreateQueue");
    reveal_strlit("AmazonSQS.GetQueueUrl");
    reveal_strlit("AmazonSQS.ListQueues");
    reveal_strlit("AmazonSQS.DeleteQueue");
    reveal_strlit("AmazonSQS.PurgeQueue");
    reveal_strlit("AmazonSQS.GetQueueAttributes");
    reveal_strlit("AmazonSQS.SendMessage");
    reveal_strlit("AmazonSQS.ReceiveMessage");
    reveal_strlit("AmazonSQS.DeleteMessage");
    if a != b {
        let s = a.target_spec();
        let t = b.target_spec();
        assert(s.len() != t.len() || s[10] != t[10] || s[11] != t[11] || s[16] != t[16]);
    }
}

} // verus!
