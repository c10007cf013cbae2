use vstd::prelude::*;

use crate::model::{ConversationId, MessageId};

verus! {

/// Whether a reaction command adds the local user's reaction or takes it back.
#[derive(Clone, Copy, PartialEq, Eq, Structural, Debug)]
pub enum ReactionState {
    Add,
    Remove,
}

/// Events that a conversation participant can broadcast.
#[derive(Clone, Copy, PartialEq, Eq, Structural, Debug)]
pub enum MessageEvent {
    Typing,
}

/// A request to the messaging backend. The reply slot that travels with it
/// is attached by whoever puts the command on the channel.
#[derive(Debug)]
pub enum Command {
    SendMessage { conv_id: ConversationId, msg: Vec<String>, attachments: Vec<String> },
    Reply { conv_id: ConversationId, reply_to: MessageId, msg: Vec<String> },
    EditMessage { conv_id: ConversationId, msg_id: MessageId, msg: Vec<String> },
    DeleteMessage { conv_id: ConversationId, msg_id: MessageId },
    React {
        conversation_id: ConversationId,
        message_id: MessageId,
        reaction_state: ReactionState,
        emoji: String,
    },
    DownloadAttachment {
        conv_id: ConversationId,
        msg_id: MessageId,
        file_name: String,
        directory: String,
    },
    FetchMore { conv_id: ConversationId, new_len: usize, current_len: usize },
    SendEvent { conv_id: ConversationId, event: MessageEvent },
}

/// Why a command did not complete.
#[derive(Debug)]
pub enum CommandError {
    /// The command could not be enqueued: the worker has terminated.
    ChannelClosed,
    /// The reply slot was dropped without an answer.
    Canceled,
    /// The backend answered with an error.
    Backend { reason: String },
}

/// The settled outcome of one issued command: `enqueued` tells whether the
/// command reached the worker, `reply` is what its reply slot delivered
/// (`None` when the slot was dropped unanswered).
pub open spec fn settled<T>(enqueued: bool, reply: Option<Result<T, String>>) -> Result<T, CommandError> {
    if !enqueued {
        Err(CommandError::ChannelClosed)
    } else {
        match reply {
            None => Err(CommandError::Canceled),
            Some(Err(e)) => Err(CommandError::Backend { reason: e }),
            Some(Ok(v)) => Ok(v),
        }
    }
}

/// Settles the outcome of one issued command. A dropped reply slot is a
/// failure, never a success.
pub fn settle<T>(enqueued: bool, reply: Option<Result<T, String>>) -> (r: Result<T, CommandError>)
    ensures
        r == settled(enqueued, reply),
{
    if !enqueued {
        return Err(CommandError::ChannelClosed);
    }
    match reply {
        None => Err(CommandError::Canceled),
        Some(Err(e)) => Err(CommandError::Backend { reason: e }),
        Some(Ok(v)) => Ok(v),
    }
}

} // verus!
