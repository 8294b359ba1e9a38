//! Identifiers for users, chats and messages.

use vstd::prelude::*;

verus! {

/// Numeric user id.
#[derive(Clone, Copy, Debug, PartialEq, Eq, Hash, Structural)]
pub struct UserId(pub i64);

/// Numeric chat id.
#[derive(Clone, Copy, Debug, PartialEq, Eq, Hash, Structural)]
pub struct ChatId(pub i64);

/// Numeric message id.
#[derive(Clone, Copy, Debug, PartialEq, Eq, Hash, Structural)]
pub struct MessageId(pub i32);

/// A stable reference to an outbound chat message.
#[derive(Clone, Copy, Debug, PartialEq, Eq, Hash, Structural)]
pub struct MessageRef {
    pub chat_id: ChatId,
    pub message_id: MessageId,
}

/// Assistant session id.
#[derive(Clone, Debug, PartialEq, Eq, Hash)]
pub struct SessionId(pub String);

} // verus!
