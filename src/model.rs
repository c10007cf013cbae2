use vstd::prelude::*;

verus! {

/// Identifies a conversation; stable for the conversation's lifetime.
#[derive(Clone, Copy, PartialEq, Eq, Structural, Debug, Hash)]
pub struct ConversationId {
    pub value: u128,
}

/// Identifies a message within its conversation; never reassigned.
#[derive(Clone, Copy, PartialEq, Eq, Structural, Debug, Hash)]
pub struct MessageId {
    pub value: u128,
}

/// One emoji on a message and the identities that reacted with it.
#[derive(Debug)]
pub struct Reaction {
    pub emoji: String,
    pub users: Vec<String>,
}

/// A chat message. Identities are DID keys in their textual form;
/// attachments are file names.
#[derive(Debug)]
pub struct Message {
    pub conversation_id: ConversationId,
    pub id: MessageId,
    pub sender: String,
    pub lines: Vec<String>,
    pub attachments: Vec<String>,
    pub reply_to: Option<MessageId>,
    pub reactions: Vec<Reaction>,
    /// Set once the message has been edited.
    pub edited: bool,
}

/// The text of a sequence of lines, one `Seq<char>` per line.
pub open spec fn text_of(lines: Seq<String>) -> Seq<Seq<char>> {
    lines.map_values(|s: String| s@)
}

} // verus!
