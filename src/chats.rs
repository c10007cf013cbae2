use vstd::prelude::*;

use crate::command::{Command, ReactionState};
use crate::compose::{all_blank, edit_outcome, edit_text, lines_all_blank, split_at_newlines};
use crate::model::{text_of, ConversationId, Message, MessageId};
use crate::window::{initial_visible, min_int, reaction_applied, ConversationWindow};

verus! {

/// When a remote participant was last seen typing (milliseconds).
#[derive(Debug)]
pub struct RemoteTyping {
    pub user: String,
    pub at: u64,
}

/// One conversation as the client holds it.
pub struct Chat {
    pub id: ConversationId,
    pub participants: Vec<String>,
    pub window: ConversationWindow,
    /// Messages received since the chat was last viewed.
    pub unreads: u32,
    /// The message the next submission replies to.
    pub replying_to: Option<MessageId>,
    /// Remote participants currently shown as typing.
    pub typing_indicator: Vec<RemoteTyping>,
    /// Attachments of this conversation being downloaded.
    pub pending_downloads: Vec<String>,
    /// The local message being edited, if any.
    pub editing: Option<MessageId>,
}

/// A remote typing entry seen at `at` has expired at `now`.
pub open spec fn typing_expired(at: u64, now: u64, timeout_ms: u64) -> bool {
    now - at > timeout_ms
}

/// The typing entries still shown at `now`.
pub open spec fn typing_live(now: u64, timeout_ms: u64) -> spec_fn(RemoteTyping) -> bool {
    |e: RemoteTyping| !typing_expired(e.at, now, timeout_ms)
}

/// Position of the first typing entry of `user`.
pub open spec fn typing_entry_of(entries: Seq<RemoteTyping>, user: Seq<char>) -> Option<int> {
    if exists|i: int| 0 <= i < entries.len() && (#[trigger] entries[i]).user@ == user {
        Some(
            choose|i: int|
                0 <= i < entries.len() && (#[trigger] entries[i]).user@ == user && forall|j: int|
                    0 <= j < i ==> (#[trigger] entries[j]).user@ != user,
        )
    } else {
        None
    }
}

/// There is something to send: a line that is not blank, or a file.
pub open spec fn submittable(lines: Seq<String>, files: Seq<String>) -> bool {
    (lines.len() > 0 && !all_blank(lines)) || files.len() > 0
}

/// The command that submits `lines` and `files` in `conv_id`: a reply when a
/// reply target is set (attachments are not sent with replies), a plain
/// message otherwise.
pub open spec fn submission(
    conv_id: ConversationId,
    replying_to: Option<MessageId>,
    lines: Vec<String>,
    files: Vec<String>,
) -> Command {
    match replying_to {
        Some(reply_to) => Command::Reply { conv_id, reply_to, msg: lines },
        None => Command::SendMessage { conv_id, msg: lines, attachments: files },
    }
}

/// `m` is the message synthesized locally for a submission in `conv_id`.
pub open spec fn mock_message_of(
    m: Message,
    conv_id: ConversationId,
    own_id: String,
    lines: Vec<String>,
    files: Vec<String>,
) -> bool {
    &&& m.conversation_id == conv_id
    &&& m.sender == own_id
    &&& m.lines == lines
    &&& m.attachments == files
    &&& m.reply_to is None
    &&& m.reactions@.len() == 0
    &&& !m.edited
}

/// What a submission in chat `o` leaves (`c`) and returns (`r`).
pub open spec fn submit_outcome(
    o: Chat,
    c: Chat,
    r: Option<Command>,
    lines: Vec<String>,
    files: Vec<String>,
    use_mock: bool,
    own_id: String,
) -> bool {
    if !submittable(lines@, files@) {
        r is None && c == o
    } else {
        &&& c.id == o.id
        &&& c.participants == o.participants
        &&& c.unreads == o.unreads
        &&& c.typing_indicator == o.typing_indicator
        &&& c.pending_downloads == o.pending_downloads
        &&& c.editing == o.editing
        &&& if use_mock {
            &&& r is None
            &&& c.window.messages@.len() == o.window.messages@.len() + 1
            &&& c.window.messages@.drop_last() == o.window.messages@
            &&& mock_message_of(c.window.messages@.last(), o.id, own_id, lines, files)
            &&& c.window.conversation_id == o.window.conversation_id
            &&& c.window.visible_count == o.window.visible_count
            &&& c.window.has_more == o.window.has_more
            &&& c.window.fetch_pending == o.window.fetch_pending
            &&& c.window.scroll_pending == o.window.scroll_pending
            &&& c.replying_to == o.replying_to
        } else {
            &&& r == Some(submission(o.id, o.replying_to, lines, files))
            &&& c.window == o.window
            &&& c.replying_to is None
        }
    }
}

/// Chat `o` shown again: its window back at the default size, to be
/// scrolled to the bottom once more; nothing else changes.
pub open spec fn reactivated(o: Chat) -> Chat {
    Chat {
        window: ConversationWindow {
            visible_count: initial_visible(o.window.messages@.len() as int) as usize,
            scroll_pending: true,
            ..o.window
        },
        ..o
    }
}

/// Relies on `uuid::Uuid::new_v4`: a fresh random identifier, as a 128-bit
/// integer.
#[verifier::external_body]
fn random_message_id() -> (r: MessageId) {
    MessageId { value: uuid::Uuid::new_v4().as_u128() }
}

/// No identity has two typing entries.
pub open spec fn typing_users_unique(entries: Seq<RemoteTyping>) -> bool {
    forall|j: int, k: int|
        0 <= j < entries.len() && 0 <= k < entries.len() && j != k ==> (#[trigger] entries[j]).user@
            != (#[trigger] entries[k]).user@
}

/// No name occurs twice.
pub open spec fn names_unique(names: Seq<String>) -> bool {
    forall|j: int, k: int|
        0 <= j < names.len() && 0 <= k < names.len() && j != k ==> (#[trigger] names[j])@ != (
        #[trigger] names[k])@
}

/// One of `names` is `name`.
pub open spec fn holds_name(names: Seq<String>, name: Seq<char>) -> bool {
    exists|j: int| 0 <= j < names.len() && (#[trigger] names[j])@ == name
}

fn upsert_typing(entries: &mut Vec<RemoteTyping>, user: String, at: u64)
    requires
        typing_users_unique(old(entries)@),
    ensures
        typing_users_unique(final(entries)@),
        ({
            let entry = RemoteTyping { user, at };
            match typing_entry_of(old(entries)@, user@) {
                Some(i) => final(entries)@ == old(entries)@.update(i, entry),
                None => final(entries)@ == old(entries)@.push(entry),
            }
        }),
{
    let mut i: usize = 0;
    while i < entries.len()
        invariant
            i <= entries@.len(),
            entries@ == old(entries)@,
            typing_users_unique(entries@),
            forall|j: int| 0 <= j < i ==> (#[trigger] entries@[j]).user@ != user@,
        decreases entries@.len() - i,
    {
        if entries[i].user == user {
            let ghost all = entries@;
            assert(typing_entry_of(all, user@) == Some(i as int)) by {
                let k = choose|k: int|
                    0 <= k < all.len() && (#[trigger] all[k]).user@ == user@ && forall|j: int|
                        0 <= j < k ==> (#[trigger] all[j]).user@ != user@;
                if k > i {
                    assert(all[i as int].user@ == user@);
                }
            }
            entries.set(i, RemoteTyping { user, at });
            assert forall|j: int| 0 <= j < all.len() implies (#[trigger] entries@[j]).user@
                == all[j].user@ by {
                if j != i {
                    assert(entries@[j] == all[j]);
                }
            }
            return;
        }
        i = i + 1;
    }
    let ghost all = entries@;
    entries.push(RemoteTyping { user, at });
    assert forall|j: int| 0 <= j < all.len() implies (#[trigger] entries@[j]) == all[j] by {}
}

impl Chat {
    pub open spec fn wf(&self) -> bool {
        &&& self.window.wf()
        &&& self.window.conversation_id == self.id
        &&& typing_users_unique(self.typing_indicator@)
        &&& names_unique(self.pending_downloads@)
    }

    /// A conversation with its participants and the messages known so far.
    pub fn new(
        id: ConversationId,
        participants: Vec<String>,
        messages: Vec<Message>,
        has_more: bool,
    ) -> (r: Chat)
        ensures
            r.wf(),
            r.id == id,
            r.participants == participants,
            r.window.conversation_id == id,
            r.window.messages@ == messages@,
            r.window.visible_count == initial_visible(messages@.len() as int),
            r.window.has_more == has_more,
            !r.window.fetch_pending,
            r.window.scroll_pending,
            r.unreads == 0,
            r.replying_to is None,
            r.typing_indicator@.len() == 0,
            r.pending_downloads@.len() == 0,
            r.editing is None,
    {
        Chat {
            id,
            participants,
            window: ConversationWindow::new(id, messages, has_more),
            unreads: 0,
            replying_to: None,
            typing_indicator: Vec::new(),
            pending_downloads: Vec::new(),
            editing: None,
        }
    }

    /// The next submission replies to `msg_id`.
    pub fn start_replying(&mut self, msg_id: MessageId)
        ensures
            *final(self) == (Chat { replying_to: Some(msg_id), ..*old(self) }),
    {
        self.replying_to = Some(msg_id);
    }

    /// The reply target is dropped; this is local state and never rolled
    /// back by the backend.
    pub fn cancel_reply(&mut self)
        ensures
            *final(self) == (Chat { replying_to: None, ..*old(self) }),
    {
        self.replying_to = None;
    }

    /// The command that deletes message `msg_id` of this conversation.
    pub fn delete_command(&self, msg_id: MessageId) -> (r: Command)
        ensures
            r == (Command::DeleteMessage { conv_id: self.id, msg_id }),
    {
        Command::DeleteMessage { conv_id: self.id, msg_id }
    }

    /// The chat was viewed: nothing is unread.
    pub fn clear_unreads(&mut self)
        ensures
            *final(self) == (Chat { unreads: 0, ..*old(self) }),
    {
        self.unreads = 0;
    }

    /// A message of this conversation arrived from the backend: it becomes
    /// the most recent one.
    pub fn receive_message(&mut self, m: Message)
        requires
            old(self).wf(),
        ensures
            final(self).wf(),
            final(self).window.messages@ == old(self).window.messages@.push(m),
            final(self).window.visible_count == old(self).window.visible_count,
            final(self).window.has_more == old(self).window.has_more,
            final(self).window.fetch_pending == old(self).window.fetch_pending,
            final(self).window.scroll_pending == old(self).window.scroll_pending,
            final(self).id == old(self).id,
            final(self).participants == old(self).participants,
            final(self).unreads == old(self).unreads,
            final(self).replying_to == old(self).replying_to,
            final(self).editing == old(self).editing,
            final(self).typing_indicator == old(self).typing_indicator,
            final(self).pending_downloads == old(self).pending_downloads,
    {
        self.window.push_message(m);
    }

    /// Submits the composed `lines` and `files` in this conversation.
    /// Nothing happens unless there is something to send. With the mock
    /// backend the message is appended at once, as `own_id`'s, and no
    /// command is issued; otherwise the command is returned and nothing is
    /// appended until the backend reports the message. A pending reply
    /// target turns the submission into a reply, and is cleared at once.
    pub fn submit(&mut self, lines: Vec<String>, files: Vec<String>, use_mock: bool, own_id: String) -> (r:
        Option<Command>)
        requires
            old(self).wf(),
        ensures
            final(self).wf(),
            submit_outcome(*old(self), *final(self), r, lines, files, use_mock, own_id),
    {
        let has_text = lines.len() > 0 && !lines_all_blank(&lines);
        if !has_text && files.len() == 0 {
            return None;
        }
        if use_mock {
            let m = Message {
                conversation_id: self.id,
                id: random_message_id(),
                sender: own_id,
                lines,
                attachments: files,
                reply_to: None,
                reactions: Vec::new(),
                edited: false,
            };
            self.window.push_message(m);
            assert(self.window.messages@.drop_last() =~= old(self).window.messages@);
            None
        } else {
            match self.replying_to {
                Some(reply_to) => {
                    self.replying_to = None;
                    Some(Command::Reply { conv_id: self.id, reply_to, msg: lines })
                },
                None => Some(Command::SendMessage { conv_id: self.id, msg: lines, attachments: files }),
            }
        }
    }

    /// Applies an event of this conversation.
    pub fn apply_event(&mut self, event: BackendEvent)
        requires
            old(self).wf(),
        ensures
            final(self).wf(),
            event_applied(*old(self), *final(self), event),
    {
        match event {
            BackendEvent::MessageReceived { message } => {
                self.window.push_message(message);
            },
            BackendEvent::MessageEdited { message } => {
                self.window.replace_message(message);
            },
            BackendEvent::MessageDeleted { conv_id: _, msg_id } => {
                self.window.remove_message(msg_id);
            },
            BackendEvent::ReactionChanged { conv_id: _, msg_id, user, emoji, state } => {
                self.window.react_message(msg_id, user, emoji, state);
            },
            BackendEvent::Typing { conv_id: _, user, at } => {
                upsert_typing(&mut self.typing_indicator, user, at);
            },
        }
    }

    /// Starts editing the message `msg_id`.
    pub fn start_editing(&mut self, msg_id: MessageId)
        ensures
            *final(self) == (Chat { editing: Some(msg_id), ..*old(self) }),
    {
        self.editing = Some(msg_id);
    }

    /// Leaves edit mode without changing anything.
    pub fn cancel_editing(&mut self)
        ensures
            *final(self) == (Chat { editing: None, ..*old(self) }),
    {
        self.editing = None;
    }

    /// Ends the edit in progress with the new text `update`, whose lines are
    /// separated by `'\n'`. Edit mode is left at once, whatever the backend
    /// later answers; the command for the edit is returned (see
    /// `edit_outcome`), none when no message is being edited or it is not in
    /// memory.
    pub fn finish_editing(&mut self, update: &str) -> (r: Option<Command>)
        ensures
            *final(self) == (Chat { editing: None, ..*old(self) }),
            old(self).editing is None ==> r is None,
            old(self).editing matches Some(id) && (forall|i: int|
                0 <= i < old(self).window.messages@.len()
                    ==> (#[trigger] old(self).window.messages@[i]).id != id) ==> r is None,
            old(self).editing matches Some(id) && (exists|i: int|
                0 <= i < old(self).window.messages@.len()
                    && (#[trigger] old(self).window.messages@[i]).id == id) ==> exists|
                i: int,
                lines: Vec<String>,
            |
                0 <= i < old(self).window.messages@.len() && old(self).window.messages@[i].id == old(
                    self,
                ).editing->0 && text_of(lines@) == split_at_newlines(update@) && r
                    == #[trigger] edit_outcome(old(self).window.messages@[i], lines),
    {
        let editing = self.editing;
        self.editing = None;
        match editing {
            None => None,
            Some(id) => match self.window.position(id) {
                Some(i) => edit_text(&self.window.messages[i], update),
                None => None,
            },
        }
    }

    /// Drops the typing entries that have expired at `now`; the remote side
    /// sends no "stopped typing", so expiry is the only way they clear.
    pub fn purge_typing(&mut self, now: u64, timeout_ms: u64)
        requires
            old(self).wf(),
        ensures
            final(self).wf(),
            final(self).typing_indicator@ == old(self).typing_indicator@.filter(
                typing_live(now, timeout_ms),
            ),
            final(self).id == old(self).id,
            final(self).participants == old(self).participants,
            final(self).window == old(self).window,
            final(self).unreads == old(self).unreads,
            final(self).replying_to == old(self).replying_to,
            final(self).editing == old(self).editing,
            final(self).pending_downloads == old(self).pending_downloads,
    {
        let mut entries: Vec<RemoteTyping> = Vec::new();
        std::mem::swap(&mut entries, &mut self.typing_indicator);
        let ghost all = entries@;
        let mut kept: Vec<RemoteTyping> = Vec::new();
        let mut i: usize = 0;
        while i < entries.len()
            invariant
                i <= entries@.len(),
                entries@ == all,
                kept@ == all.take(i as int).filter(typing_live(now, timeout_ms)),
                typing_users_unique(all),
                typing_users_unique(kept@),
                forall|k: int|
                    0 <= k < kept@.len() ==> exists|j: int|
                        0 <= j < i && (#[trigger] kept@[k]).user@ == (#[trigger] all[j]).user@,
            decreases entries@.len() - i,
        {
            let e = &entries[i];
            let ghost next = all.take(i + 1);
            assert(next.drop_last() =~= all.take(i as int));
            assert(next.last() == all[i as int]);
            assert(next.filter(typing_live(now, timeout_ms)) == (if typing_live(now, timeout_ms)(next.last()) {
                next.drop_last().filter(typing_live(now, timeout_ms)).push(next.last())
            } else {
                next.drop_last().filter(typing_live(now, timeout_ms))
            })) by {
                reveal(Seq::filter);
            }
            assert(typing_live(now, timeout_ms)(all[i as int]) == !typing_expired(e.at, now, timeout_ms));
            if (now as u128) <= (e.at as u128) + (timeout_ms as u128) {
                let copy = RemoteTyping { user: e.user.clone(), at: e.at };
                assert(copy == all[i as int]);
                let ghost prev = kept@;
                kept.push(copy);
                assert(kept@ =~= next.filter(typing_live(now, timeout_ms)));
                assert forall|k: int| 0 <= k < prev.len() implies (#[trigger] kept@[k]).user@
                    != copy.user@ by {
                    assert(kept@[k] == prev[k]);
                    let j = choose|j: int|
                        0 <= j < i && (#[trigger] prev[k]).user@ == (#[trigger] all[j]).user@;
                    assert(j != i);
                }
                assert forall|k: int| 0 <= k < kept@.len() implies exists|j: int|
                    0 <= j < i + 1 && (#[trigger] kept@[k]).user@ == (#[trigger] all[j]).user@ by {
                    if k < prev.len() {
                        assert(kept@[k] == prev[k]);
                        let j = choose|j: int|
                            0 <= j < i && (#[trigger] prev[k]).user@ == (#[trigger] all[j]).user@;
                        assert(kept@[k].user@ == all[j].user@);
                    } else {
                        assert(kept@[k].user@ == all[i as int].user@);
                    }
                }
            } else {
                assert(kept@ =~= next.filter(typing_live(now, timeout_ms)));
            }
            i = i + 1;
        }
        assert(all.take(all.len() as int) =~= all);
        self.typing_indicator = kept;
    }

    /// Requests the download of the attachment `file` of message `msg_id`
    /// into `directory`, and marks it pending. While it is pending a second
    /// request is suppressed: nothing changes and no command is returned.
    pub fn start_download(&mut self, msg_id: MessageId, file: String, directory: String) -> (r: Option<
        Command,
    >)
        requires
            old(self).wf(),
        ensures
            final(self).wf(),
            r is Some == !holds_name(old(self).pending_downloads@, file@),
            r is Some ==> {
                &&& final(self).pending_downloads@ == old(self).pending_downloads@.push(file)
                &&& r == Some(
                    Command::DownloadAttachment {
                        conv_id: old(self).id,
                        msg_id,
                        file_name: file,
                        directory,
                    },
                )
            },
            r is None ==> final(self).pending_downloads@ == old(self).pending_downloads@,
            final(self).id == old(self).id,
            final(self).participants == old(self).participants,
            final(self).window == old(self).window,
            final(self).unreads == old(self).unreads,
            final(self).replying_to == old(self).replying_to,
            final(self).editing == old(self).editing,
            final(self).typing_indicator == old(self).typing_indicator,
    {
        let mut j: usize = 0;
        while j < self.pending_downloads.len()
            invariant
                j <= self.pending_downloads@.len(),
                self.wf(),
                forall|k: int| 0 <= k < j ==> (#[trigger] self.pending_downloads@[k])@ != file@,
            decreases self.pending_downloads@.len() - j,
        {
            if self.pending_downloads[j] == file {
                return None;
            }
            j = j + 1;
        }
        let ghost all = self.pending_downloads@;
        self.pending_downloads.push(file.clone());
        assert forall|k: int| 0 <= k < all.len() implies (#[trigger] self.pending_downloads@[k])
            == all[k] by {}
        Some(Command::DownloadAttachment { conv_id: self.id, msg_id, file_name: file, directory })
    }

    /// The download of `file` completed or failed: it is no longer pending.
    pub fn finish_download(&mut self, file: &String)
        requires
            old(self).wf(),
        ensures
            final(self).wf(),
            forall|name: Seq<char>| #[trigger]
                holds_name(final(self).pending_downloads@, name) == (name != file@ && holds_name(
                    old(self).pending_downloads@,
                    name,
                )),
            final(self).id == old(self).id,
            final(self).participants == old(self).participants,
            final(self).window == old(self).window,
            final(self).unreads == old(self).unreads,
            final(self).replying_to == old(self).replying_to,
            final(self).editing == old(self).editing,
            final(self).typing_indicator == old(self).typing_indicator,
    {
        let mut names: Vec<String> = Vec::new();
        std::mem::swap(&mut names, &mut self.pending_downloads);
        let ghost all = names@;
        let mut kept: Vec<String> = Vec::new();
        let mut i: usize = 0;
        while i < names.len()
            invariant
                i <= names@.len(),
                names@ == all,
                forall|name: Seq<char>| #[trigger]
                    holds_name(kept@, name) == (name != file@ && holds_name(all.take(i as int), name)),
                names_unique(all),
                names_unique(kept@),
                forall|k: int|
                    0 <= k < kept@.len() ==> exists|j: int|
                        0 <= j < i && (#[trigger] kept@[k])@ == (#[trigger] all[j])@,
            decreases names@.len() - i,
        {
            let ghost prev = kept@;
            let ghost seen = all.take(i as int);
            let ghost next = all.take(i + 1);
            assert(next =~= seen.push(all[i as int]));
            if names[i] != *file {
                kept.push(names[i].clone());
                assert forall|k: int| 0 <= k < prev.len() implies (#[trigger] kept@[k])@ != all[i as int]@ by {
                    assert(kept@[k] == prev[k]);
                    let j = choose|j: int| 0 <= j < i && (#[trigger] prev[k])@ == (#[trigger] all[j])@;
                    assert(j != i);
                }
                assert forall|k: int| 0 <= k < kept@.len() implies exists|j: int|
                    0 <= j < i + 1 && (#[trigger] kept@[k])@ == (#[trigger] all[j])@ by {
                    if k < prev.len() {
                        assert(kept@[k] == prev[k]);
                        let j = choose|j: int| 0 <= j < i && (#[trigger] prev[k])@ == (#[trigger] all[j])@;
                        assert(kept@[k]@ == all[j]@);
                    } else {
                        assert(kept@[k]@ == all[i as int]@);
                    }
                }
                assert forall|name: Seq<char>| #[trigger]
                    holds_name(kept@, name) == (name != file@ && holds_name(next, name)) by {
                    if holds_name(kept@, name) {
                        let j = choose|j: int| 0 <= j < kept@.len() && (#[trigger] kept@[j])@ == name;
                        if j < prev.len() {
                            assert(prev[j] == kept@[j]);
                            assert(holds_name(prev, name));
                            let k = choose|k: int| 0 <= k < seen.len() && (#[trigger] seen[k])@ == name;
                            assert(next[k] == seen[k]);
                        } else {
                            assert(next[i as int]@ == name);
                        }
                    }
                    if name != file@ && holds_name(next, name) {
                        let j = choose|j: int| 0 <= j < next.len() && (#[trigger] next[j])@ == name;
                        if j < i {
                            assert(seen[j] == next[j]);
                            assert(holds_name(seen, name));
                            assert(holds_name(prev, name));
                            let k = choose|k: int| 0 <= k < prev.len() && (#[trigger] prev[k])@ == name;
                            assert(kept@[k] == prev[k]);
                        } else {
                            assert(kept@[prev.len() as int]@ == name);
                        }
                    }
                }
            } else {
                assert forall|name: Seq<char>| #[trigger]
                    holds_name(kept@, name) == (name != file@ && holds_name(next, name)) by {
                    if holds_name(prev, name) {
                        let k = choose|k: int| 0 <= k < seen.len() && (#[trigger] seen[k])@ == name;
                        assert(next[k] == seen[k]);
                    }
                    if name != file@ && holds_name(next, name) {
                        let j = choose|j: int| 0 <= j < next.len() && (#[trigger] next[j])@ == name;
                        assert(j < i);
                        assert(seen[j] == next[j]);
                    }
                }
            }
            i = i + 1;
        }
        assert(all.take(all.len() as int) =~= all);
        self.pending_downloads = kept;
    }
}

/// A change reported by the backend's event stream, for changes that may
/// originate elsewhere (remote participants, other devices).
pub enum BackendEvent {
    MessageReceived { message: Message },
    MessageEdited { message: Message },
    MessageDeleted { conv_id: ConversationId, msg_id: MessageId },
    ReactionChanged {
        conv_id: ConversationId,
        msg_id: MessageId,
        user: String,
        emoji: String,
        state: ReactionState,
    },
    /// A remote participant is typing; `at` is when the event arrived.
    Typing { conv_id: ConversationId, user: String, at: u64 },
}

/// The conversation an event concerns.
pub open spec fn event_conversation(event: BackendEvent) -> ConversationId {
    match event {
        BackendEvent::MessageReceived { message } => message.conversation_id,
        BackendEvent::MessageEdited { message } => message.conversation_id,
        BackendEvent::MessageDeleted { conv_id, .. } => conv_id,
        BackendEvent::ReactionChanged { conv_id, .. } => conv_id,
        BackendEvent::Typing { conv_id, .. } => conv_id,
    }
}

/// Chat `c` is chat `o` with `event` applied.
pub open spec fn event_applied(o: Chat, c: Chat, event: BackendEvent) -> bool {
    &&& c.id == o.id
    &&& c.participants == o.participants
    &&& c.unreads == o.unreads
    &&& c.replying_to == o.replying_to
    &&& c.editing == o.editing
    &&& c.pending_downloads == o.pending_downloads
    &&& c.window.has_more == o.window.has_more
    &&& c.window.fetch_pending == o.window.fetch_pending
    &&& c.window.scroll_pending == o.window.scroll_pending
    &&& match event {
        BackendEvent::Typing { user, at, .. } => {
            &&& c.window == o.window
            &&& match typing_entry_of(o.typing_indicator@, user@) {
                Some(i) => c.typing_indicator@ == o.typing_indicator@.update(
                    i,
                    RemoteTyping { user, at },
                ),
                None => c.typing_indicator@ == o.typing_indicator@.push(RemoteTyping { user, at }),
            }
        },
        _ => c.typing_indicator == o.typing_indicator && match event {
            BackendEvent::MessageReceived { message } => {
                &&& c.window.messages@ == o.window.messages@.push(message)
                &&& c.window.visible_count == o.window.visible_count
            },
            BackendEvent::MessageEdited { message } => {
                &&& c.window.visible_count == o.window.visible_count
                &&& (exists|i: int|
                    0 <= i < o.window.messages@.len() && (#[trigger] o.window.messages@[i]).id
                        == message.id && c.window.messages@ == o.window.messages@.update(i, message))
                    || (c.window.messages@ == o.window.messages@ && forall|i: int|
                    0 <= i < o.window.messages@.len() ==> (#[trigger] o.window.messages@[i]).id
                        != message.id)
            },
            BackendEvent::MessageDeleted { msg_id, .. } => {
                (exists|i: int|
                    0 <= i < o.window.messages@.len() && (#[trigger] o.window.messages@[i]).id
                        == msg_id && c.window.messages@ == o.window.messages@.remove(i)
                        && c.window.visible_count == min_int(
                        o.window.visible_count as int,
                        o.window.messages@.len() - 1,
                    )) || (c.window.messages@ == o.window.messages@ && c.window.visible_count
                    == o.window.visible_count && forall|i: int|
                    0 <= i < o.window.messages@.len() ==> (#[trigger] o.window.messages@[i]).id
                        != msg_id)
            },
            BackendEvent::ReactionChanged { msg_id, user, emoji, state, .. } => {
                &&& c.window.visible_count == o.window.visible_count
                &&& c.window.messages@.len() == o.window.messages@.len()
                &&& (exists|i: int|
                    0 <= i < o.window.messages@.len() && (#[trigger] o.window.messages@[i]).id
                        == msg_id && c.window.messages@ == o.window.messages@.update(
                        i,
                        c.window.messages@[i],
                    ) && reaction_applied(
                        o.window.messages@[i],
                        c.window.messages@[i],
                        user@,
                        emoji@,
                        state,
                    )) || (c.window.messages@ == o.window.messages@ && forall|i: int|
                    0 <= i < o.window.messages@.len() ==> (#[trigger] o.window.messages@[i]).id
                        != msg_id)
            },
            _ => true,
        },
    }
}

/// With the mock backend a submission shows up at once: the window gains the
/// locally synthesized message and no command is issued. With the real
/// backend the window is left as it was, and the message appears only when
/// the backend reports it.
pub proof fn submission_round_trip(
    o: Chat,
    mocked: Chat,
    mock_r: Option<Command>,
    sent: Chat,
    sent_r: Option<Command>,
    received: Chat,
    m: Message,
    lines: Vec<String>,
    files: Vec<String>,
    own_id: String,
)
    requires
        submittable(lines@, files@),
        submit_outcome(o, mocked, mock_r, lines, files, true, own_id),
        submit_outcome(o, sent, sent_r, lines, files, false, own_id),
        event_applied(sent, received, BackendEvent::MessageReceived { message: m }),
    ensures
        mock_r is None,
        mocked.window.messages@.drop_last() == o.window.messages@,
        mocked.window.messages@.last().lines == lines,
        mocked.window.messages@.last().conversation_id == o.id,
        sent_r == Some(submission(o.id, o.replying_to, lines, files)),
        sent.window.messages@ == o.window.messages@,
        received.window.messages@ == o.window.messages@.push(m),
{
}

/// All conversations the client knows, and which one is shown.
pub struct Chats {
    /// Whether the conversations have been loaded from the backend.
    pub initialized: bool,
    pub all: Vec<Chat>,
    /// The conversation shown to the user.
    pub active: Option<ConversationId>,
    /// The conversation of the ongoing call, if any.
    pub active_media: Option<ConversationId>,
    /// Conversations listed in the sidebar, in order.
    pub in_sidebar: Vec<ConversationId>,
    pub favorites: Vec<ConversationId>,
}

/// No two chats share an id.
pub open spec fn ids_unique(all: Seq<Chat>) -> bool {
    forall|j: int, k: int|
        0 <= j < all.len() && 0 <= k < all.len() && j != k ==> (#[trigger] all[j]).id != (
        #[trigger] all[k]).id
}

/// The chat with id `id`, if there is one.
pub open spec fn chat_at(all: Seq<Chat>, id: ConversationId) -> Option<Chat> {
    if exists|k: int| 0 <= k < all.len() && (#[trigger] all[k]).id == id {
        Some(all[choose|k: int| 0 <= k < all.len() && (#[trigger] all[k]).id == id])
    } else {
        None
    }
}

proof fn lemma_chat_at(all: Seq<Chat>, k: int)
    requires
        ids_unique(all),
        0 <= k < all.len(),
    ensures
        chat_at(all, all[k].id) == Some(all[k]),
{
    let id = all[k].id;
    let j = choose|j: int| 0 <= j < all.len() && (#[trigger] all[j]).id == id;
    assert(j == k);
}

proof fn lemma_chat_removed(all: Seq<Chat>, i: int)
    requires
        ids_unique(all),
        0 <= i < all.len(),
    ensures
        ids_unique(all.remove(i)),
        chat_at(all.remove(i), all[i].id) is None,
        forall|id: ConversationId| id != all[i].id ==> #[trigger] chat_at(all.remove(i), id) == chat_at(all, id),
{
    let rest = all.remove(i);
    assert forall|j: int, k: int|
        0 <= j < rest.len() && 0 <= k < rest.len() && j != k implies (#[trigger] rest[j]).id != (
        #[trigger] rest[k]).id by {
        let jj = if j < i { j } else { j + 1 };
        let kk = if k < i { k } else { k + 1 };
        assert(rest[j] == all[jj]);
        assert(rest[k] == all[kk]);
    }
    if exists|k: int| 0 <= k < rest.len() && (#[trigger] rest[k]).id == all[i].id {
        let k = choose|k: int| 0 <= k < rest.len() && (#[trigger] rest[k]).id == all[i].id;
        let kk = if k < i { k } else { k + 1 };
        assert(rest[k] == all[kk]);
    }
    assert forall|id: ConversationId| id != all[i].id implies #[trigger] chat_at(rest, id) == chat_at(all, id) by {
        if exists|k: int| 0 <= k < all.len() && (#[trigger] all[k]).id == id {
            let k = choose|k: int| 0 <= k < all.len() && (#[trigger] all[k]).id == id;
            assert(k != i);
            let kr = if k < i { k } else { k - 1 };
            assert(rest[kr] == all[k]);
            lemma_chat_at(all, k);
            lemma_chat_at(rest, kr);
        } else {
            if exists|k: int| 0 <= k < rest.len() && (#[trigger] rest[k]).id == id {
                let k = choose|k: int| 0 <= k < rest.len() && (#[trigger] rest[k]).id == id;
                let kk = if k < i { k } else { k + 1 };
                assert(rest[k] == all[kk]);
            }
        }
    }
}

proof fn lemma_chat_pushed(all: Seq<Chat>, c: Chat)
    requires
        ids_unique(all),
        chat_at(all, c.id) is None,
    ensures
        ids_unique(all.push(c)),
        chat_at(all.push(c), c.id) == Some(c),
        forall|id: ConversationId| id != c.id ==> #[trigger] chat_at(all.push(c), id) == chat_at(all, id),
{
    let next = all.push(c);
    assert forall|j: int| 0 <= j < all.len() implies (#[trigger] all[j]).id != c.id by {
        if all[j].id == c.id {
            assert(exists|k: int| 0 <= k < all.len() && (#[trigger] all[k]).id == c.id);
        }
    }
    assert forall|j: int, k: int|
        0 <= j < next.len() && 0 <= k < next.len() && j != k implies (#[trigger] next[j]).id != (
        #[trigger] next[k]).id by {
        if j < all.len() {
            assert(next[j] == all[j]);
        }
        if k < all.len() {
            assert(next[k] == all[k]);
        }
    }
    lemma_chat_at(next, all.len() as int);
    assert forall|id: ConversationId| id != c.id implies #[trigger] chat_at(next, id) == chat_at(all, id) by {
        if exists|k: int| 0 <= k < all.len() && (#[trigger] all[k]).id == id {
            let k = choose|k: int| 0 <= k < all.len() && (#[trigger] all[k]).id == id;
            assert(next[k] == all[k]);
            lemma_chat_at(all, k);
            lemma_chat_at(next, k);
        } else {
            if exists|k: int| 0 <= k < next.len() && (#[trigger] next[k]).id == id {
                let k = choose|k: int| 0 <= k < next.len() && (#[trigger] next[k]).id == id;
                assert(k != all.len());
                assert(next[k] == all[k]);
            }
        }
    }
}

impl Chats {
    pub open spec fn wf(&self) -> bool {
        &&& ids_unique(self.all@)
        &&& forall|k: int| 0 <= k < self.all@.len() ==> (#[trigger] self.all@[k]).wf()
    }

    /// No conversations yet.
    pub fn new() -> (r: Chats)
        ensures
            r.wf(),
            r.all@.len() == 0,
            r.active is None,
            r.active_media is None,
            !r.initialized,
    {
        Chats {
            initialized: false,
            all: Vec::new(),
            active: None,
            active_media: None,
            in_sidebar: Vec::new(),
            favorites: Vec::new(),
        }
    }

    /// Position of the chat `id` in `all`.
    pub fn find(&self, id: ConversationId) -> (r: Option<usize>)
        requires
            self.wf(),
        ensures
            r matches Some(i) ==> i < self.all@.len() && self.all@[i as int].id == id && chat_at(
                self.all@,
                id,
            ) == Some(self.all@[i as int]),
            r is None ==> chat_at(self.all@, id) is None,
    {
        let mut i: usize = 0;
        while i < self.all.len()
            invariant
                i <= self.all@.len(),
                ids_unique(self.all@),
                forall|j: int| 0 <= j < i ==> (#[trigger] self.all@[j]).id != id,
            decreases self.all@.len() - i,
        {
            if self.all[i].id == id {
                proof {
                    lemma_chat_at(self.all@, i as int);
                }
                return Some(i);
            }
            i = i + 1;
        }
        None
    }

    /// Takes the chat `id` out, to be worked on and put back.
    pub fn take(&mut self, id: ConversationId) -> (r: Option<Chat>)
        requires
            old(self).wf(),
        ensures
            final(self).wf(),
            r == chat_at(old(self).all@, id),
            r matches Some(c) ==> c.wf(),
            r is None ==> final(self).all@ == old(self).all@,
            chat_at(final(self).all@, id) is None,
            forall|other: ConversationId|
                other != id ==> #[trigger] chat_at(final(self).all@, other) == chat_at(
                    old(self).all@,
                    other,
                ),
            final(self).active == old(self).active,
            final(self).active_media == old(self).active_media,
            final(self).initialized == old(self).initialized,
            final(self).in_sidebar == old(self).in_sidebar,
            final(self).favorites == old(self).favorites,
    {
        match self.find(id) {
            Some(i) => {
                proof {
                    lemma_chat_removed(self.all@, i as int);
                }
                let c = self.all.remove(i);
                assert forall|k: int| 0 <= k < self.all@.len() implies (#[trigger] self.all@[k]).wf() by {
                    let kk = if k < i { k } else { k + 1 };
                    assert(self.all@[k] == old(self).all@[kk]);
                }
                Some(c)
            },
            None => None,
        }
    }

    /// Puts `chat` in, unless a chat with its id is already there.
    pub fn put(&mut self, chat: Chat) -> (added: bool)
        requires
            old(self).wf(),
            chat.wf(),
        ensures
            final(self).wf(),
            added == chat_at(old(self).all@, chat.id) is None,
            added ==> chat_at(final(self).all@, chat.id) == Some(chat),
            !added ==> final(self).all@ == old(self).all@,
            forall|other: ConversationId|
                other != chat.id ==> #[trigger] chat_at(final(self).all@, other) == chat_at(
                    old(self).all@,
                    other,
                ),
            final(self).active == old(self).active,
            final(self).active_media == old(self).active_media,
            final(self).initialized == old(self).initialized,
            final(self).in_sidebar == old(self).in_sidebar,
            final(self).favorites == old(self).favorites,
    {
        match self.find(chat.id) {
            Some(_) => false,
            None => {
                proof {
                    lemma_chat_pushed(self.all@, chat);
                }
                self.all.push(chat);
                assert forall|k: int| 0 <= k < self.all@.len() implies (#[trigger] self.all@[k]).wf() by {
                    if k < old(self).all@.len() {
                        assert(self.all@[k] == old(self).all@[k]);
                    }
                }
                true
            },
        }
    }

    /// Whether the shown conversation has unread messages.
    pub fn active_chat_has_unreads(&self) -> (r: bool)
        requires
            self.wf(),
        ensures
            r == (self.active matches Some(a) && chat_at(self.all@, a) matches Some(c) && c.unreads
                > 0),
    {
        let id = match self.active {
            Some(c) => c,
            None => return false,
        };
        match self.find(id) {
            Some(i) => self.all[i].unreads > 0,
            None => false,
        }
    }

    /// The message that the shown conversation's next submission replies to.
    pub fn get_replying_to(&self) -> (r: Option<MessageId>)
        requires
            self.wf(),
        ensures
            r == (match self.active {
                Some(a) => match chat_at(self.all@, a) {
                    Some(c) => c.replying_to,
                    None => None,
                },
                None => None,
            }),
    {
        let id = match self.active {
            Some(c) => c,
            None => return None,
        };
        match self.find(id) {
            Some(i) => self.all[i].replying_to,
            None => None,
        }
    }

    /// Shows the conversation `id`, if it is known: its window is reset to
    /// the default size and scrolls to the bottom once more. Returns whether
    /// it is known.
    pub fn set_active(&mut self, id: ConversationId) -> (found: bool)
        requires
            old(self).wf(),
        ensures
            final(self).wf(),
            found == chat_at(old(self).all@, id) is Some,
            !found ==> final(self).all@ == old(self).all@ && final(self).active == old(self).active,
            found ==> {
                &&& final(self).active == Some(id)
                &&& chat_at(final(self).all@, id) == Some(
                    reactivated(chat_at(old(self).all@, id)->0),
                )
            },
            forall|other: ConversationId|
                other != id ==> #[trigger] chat_at(final(self).all@, other) == chat_at(
                    old(self).all@,
                    other,
                ),
            final(self).initialized == old(self).initialized,
            final(self).active_media == old(self).active_media,
            final(self).in_sidebar == old(self).in_sidebar,
            final(self).favorites == old(self).favorites,
    {
        match self.take(id) {
            Some(mut c) => {
                c.window.reactivate();
                let added = self.put(c);
                assert(added);
                self.active = Some(id);
                true
            },
            None => false,
        }
    }

    /// The shown conversation was viewed: nothing in it is unread. Nothing
    /// changes when no known conversation is shown.
    pub fn clear_active_unreads(&mut self)
        requires
            old(self).wf(),
        ensures
            final(self).wf(),
            final(self).active == old(self).active,
            (match old(self).active {
                Some(a) => match chat_at(old(self).all@, a) {
                    Some(o) => chat_at(final(self).all@, a) == Some(Chat { unreads: 0, ..o }),
                    None => chat_at(final(self).all@, a) is None,
                },
                None => final(self).all@ == old(self).all@,
            }),
            forall|other: ConversationId|
                old(self).active != Some(other) ==> #[trigger] chat_at(final(self).all@, other) == chat_at(
                    old(self).all@,
                    other,
                ),
            final(self).initialized == old(self).initialized,
            final(self).active_media == old(self).active_media,
            final(self).in_sidebar == old(self).in_sidebar,
            final(self).favorites == old(self).favorites,
    {
        let id = match self.active {
            Some(c) => c,
            None => return,
        };
        match self.take(id) {
            Some(mut c) => {
                c.clear_unreads();
                let added = self.put(c);
                assert(added);
            },
            None => {},
        }
    }

    /// Applies an event from the backend to the conversation it concerns.
    /// Returns false, changing nothing, when that conversation is unknown.
    pub fn apply_event(&mut self, event: BackendEvent) -> (applied: bool)
        requires
            old(self).wf(),
        ensures
            final(self).wf(),
            applied == chat_at(old(self).all@, event_conversation(event)) is Some,
            !applied ==> final(self).all@ == old(self).all@,
            applied ==> (chat_at(final(self).all@, event_conversation(event)) matches Some(c)
                && event_applied(chat_at(old(self).all@, event_conversation(event))->0, c, event)),
            forall|other: ConversationId|
                other != event_conversation(event) ==> #[trigger] chat_at(final(self).all@, other)
                    == chat_at(old(self).all@, other),
            final(self).active == old(self).active,
            final(self).initialized == old(self).initialized,
            final(self).active_media == old(self).active_media,
            final(self).in_sidebar == old(self).in_sidebar,
            final(self).favorites == old(self).favorites,
    {
        let id = match &event {
            BackendEvent::MessageReceived { message } => message.conversation_id,
            BackendEvent::MessageEdited { message } => message.conversation_id,
            BackendEvent::MessageDeleted { conv_id, .. } => *conv_id,
            BackendEvent::ReactionChanged { conv_id, .. } => *conv_id,
            BackendEvent::Typing { conv_id, .. } => *conv_id,
        };
        match self.take(id) {
            Some(mut c) => {
                c.apply_event(event);
                let added = self.put(c);
                assert(added);
                true
            },
            None => false,
        }
    }

    /// Submits the composed lines and files in the shown conversation (see
    /// `Chat::submit`). Nothing happens when no conversation is shown.
    pub fn submit(&mut self, lines: Vec<String>, files: Vec<String>, use_mock: bool, own_id: String) -> (r:
        Option<Command>)
        requires
            old(self).wf(),
        ensures
            final(self).wf(),
            final(self).active == old(self).active,
            r is Some ==> old(self).active is Some,
            (match old(self).active {
                Some(a) => match chat_at(old(self).all@, a) {
                    Some(o) => (chat_at(final(self).all@, a) matches Some(c) && submit_outcome(
                        o,
                        c,
                        r,
                        lines,
                        files,
                        use_mock,
                        own_id,
                    )),
                    None => r is None && chat_at(final(self).all@, a) is None,
                },
                None => r is None,
            }),
            forall|other: ConversationId|
                old(self).active != Some(other) ==> #[trigger] chat_at(final(self).all@, other) == chat_at(
                    old(self).all@,
                    other,
                ),
            final(self).initialized == old(self).initialized,
            final(self).active_media == old(self).active_media,
            final(self).in_sidebar == old(self).in_sidebar,
            final(self).favorites == old(self).favorites,
    {
        let id = match self.active {
            Some(c) => c,
            None => return None,
        };
        match self.take(id) {
            Some(mut c) => {
                let r = c.submit(lines, files, use_mock, own_id);
                let added = self.put(c);
                assert(added);
                r
            },
            None => None,
        }
    }
}

} // verus!
