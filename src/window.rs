use vstd::prelude::*;

use crate::command::{Command, ReactionState};
use crate::compose::{apply_reaction, has_reacted};
use crate::model::{ConversationId, Message, MessageId};

verus! {

/// How many of the most recent messages are shown when a conversation opens.
pub const DEFAULT_VISIBLE: usize = 20;

/// How many more messages each periodic reveal tick shows.
pub const REVEAL_STEP: usize = 10;

/// How far the visible window grows when its oldest message is approached.
pub const FETCH_STEP: usize = DEFAULT_VISIBLE * 2;

/// The messages of one conversation that are held in memory, oldest first,
/// and the window of them that is rendered: the last `visible_count`.
pub struct ConversationWindow {
    pub conversation_id: ConversationId,
    pub messages: Vec<Message>,
    pub visible_count: usize,
    /// Whether the backend may hold history older than `messages`.
    pub has_more: bool,
    /// Whether a `FetchMore` for this conversation is outstanding.
    pub fetch_pending: bool,
    /// Whether the scroll-to-bottom of this activation is still to happen.
    pub scroll_pending: bool,
}

pub open spec fn min_int(a: int, b: int) -> int {
    if a <= b {
        a
    } else {
        b
    }
}

/// The visible count when a conversation is (re)activated.
pub open spec fn initial_visible(len: int) -> int {
    min_int(DEFAULT_VISIBLE as int, len)
}

/// The visible count after one reveal tick.
pub open spec fn revealed(visible: int, len: int) -> int {
    min_int(visible + REVEAL_STEP, len)
}

/// The visible count after `ticks` reveal ticks.
pub open spec fn revealed_after(visible: int, len: int, ticks: nat) -> int
    decreases ticks,
{
    if ticks == 0 {
        visible
    } else {
        revealed(revealed_after(visible, len, (ticks - 1) as nat), len)
    }
}

/// The visible count that approaching the oldest visible message asks for.
pub open spec fn grown_visible(visible: usize) -> usize {
    if visible + FETCH_STEP <= usize::MAX {
        (visible + FETCH_STEP) as usize
    } else {
        usize::MAX
    }
}

/// Approaching the oldest visible message only widens the window: enough
/// history is in memory.
pub open spec fn widens_locally(visible: usize, len: usize) -> bool {
    grown_visible(visible) < len
}

/// Approaching the oldest visible message asks the backend for more history.
pub open spec fn issues_fetch(visible: usize, len: usize, has_more: bool, fetch_pending: bool) -> bool {
    !widens_locally(visible, len) && has_more && !fetch_pending
}

/// `has_more` after a fetch that returned `fetched` messages.
pub open spec fn has_more_after_fetch(has_more: bool, fetched: nat) -> bool {
    has_more && fetched > 0
}

impl ConversationWindow {
    pub open spec fn wf(&self) -> bool {
        self.visible_count <= self.messages@.len()
    }

    /// A window over `messages` (oldest first), freshly activated.
    pub fn new(conversation_id: ConversationId, messages: Vec<Message>, has_more: bool) -> (r: Self)
        ensures
            r.wf(),
            r.conversation_id == conversation_id,
            r.messages@ == messages@,
            r.visible_count == initial_visible(messages@.len() as int),
            r.has_more == has_more,
            !r.fetch_pending,
            r.scroll_pending,
    {
        let len = messages.len();
        let visible_count = if len < DEFAULT_VISIBLE {
            len
        } else {
            DEFAULT_VISIBLE
        };
        ConversationWindow {
            conversation_id,
            messages,
            visible_count,
            has_more,
            fetch_pending: false,
            scroll_pending: true,
        }
    }

    /// Resets the view when the conversation becomes the active one again.
    pub fn reactivate(&mut self)
        requires
            old(self).wf(),
        ensures
            final(self).wf(),
            *final(self) == (ConversationWindow {
                visible_count: initial_visible(old(self).messages@.len() as int) as usize,
                scroll_pending: true,
                ..*old(self)
            }),
    {
        let len = self.messages.len();
        self.visible_count = if len < DEFAULT_VISIBLE {
            len
        } else {
            DEFAULT_VISIBLE
        };
        self.scroll_pending = true;
    }

    /// Index of the oldest rendered message: the window is
    /// `messages[visible_start()..]`.
    pub fn visible_start(&self) -> (r: usize)
        requires
            self.wf(),
        ensures
            r == self.messages@.len() - self.visible_count,
    {
        self.messages.len() - self.visible_count
    }

    /// The periodic reveal: shows `REVEAL_STEP` more messages, up to all of
    /// those in memory.
    pub fn reveal_tick(&mut self)
        requires
            old(self).wf(),
        ensures
            final(self).wf(),
            final(self).visible_count == revealed(
                old(self).visible_count as int,
                old(self).messages@.len() as int,
            ),
            final(self).visible_count >= old(self).visible_count,
            final(self).messages@ == old(self).messages@,
            final(self).conversation_id == old(self).conversation_id,
            final(self).has_more == old(self).has_more,
            final(self).fetch_pending == old(self).fetch_pending,
            final(self).scroll_pending == old(self).scroll_pending,
    {
        let len = self.messages.len();
        if len - self.visible_count <= REVEAL_STEP {
            self.visible_count = len;
        } else {
            self.visible_count = self.visible_count + REVEAL_STEP;
        }
    }

    /// The oldest rendered message was approached. Widens the window when
    /// enough history is in memory; otherwise asks the backend for more,
    /// unless history is exhausted or a fetch is already outstanding.
    pub fn approach_oldest(&mut self) -> (r: Option<Command>)
        requires
            old(self).wf(),
        ensures
            final(self).wf(),
            widens_locally(old(self).visible_count, old(self).messages@.len() as usize) ==> {
                &&& r is None
                &&& final(self).visible_count == grown_visible(old(self).visible_count)
            },
            !widens_locally(old(self).visible_count, old(self).messages@.len() as usize)
                ==> final(self).visible_count == old(self).visible_count,
            issues_fetch(
                old(self).visible_count,
                old(self).messages@.len() as usize,
                old(self).has_more,
                old(self).fetch_pending,
            ) ==> {
                &&& r == Some(
                    Command::FetchMore {
                        conv_id: old(self).conversation_id,
                        new_len: grown_visible(old(self).visible_count),
                        current_len: old(self).visible_count,
                    },
                )
                &&& final(self).fetch_pending
            },
            !issues_fetch(
                old(self).visible_count,
                old(self).messages@.len() as usize,
                old(self).has_more,
                old(self).fetch_pending,
            ) ==> r is None && final(self).fetch_pending == old(self).fetch_pending,
            final(self).visible_count >= old(self).visible_count,
            final(self).messages@ == old(self).messages@,
            final(self).conversation_id == old(self).conversation_id,
            final(self).has_more == old(self).has_more,
            final(self).scroll_pending == old(self).scroll_pending,
    {
        let grown = self.visible_count.saturating_add(FETCH_STEP);
        if grown < self.messages.len() {
            self.visible_count = grown;
            None
        } else if self.has_more && !self.fetch_pending {
            self.fetch_pending = true;
            Some(
                Command::FetchMore {
                    conv_id: self.conversation_id,
                    new_len: grown,
                    current_len: self.visible_count,
                },
            )
        } else {
            None
        }
    }

    /// The outstanding fetch returned `fetched` (oldest first): they are
    /// prepended and shown. An empty answer means history is exhausted.
    pub fn fetch_completed(&mut self, fetched: Vec<Message>)
        requires
            old(self).wf(),
        ensures
            final(self).wf(),
            final(self).messages@ == fetched@ + old(self).messages@,
            final(self).visible_count == old(self).visible_count + fetched@.len(),
            final(self).has_more == has_more_after_fetch(old(self).has_more, fetched@.len()),
            !final(self).fetch_pending,
            final(self).conversation_id == old(self).conversation_id,
            final(self).scroll_pending == old(self).scroll_pending,
    {
        self.fetch_pending = false;
        let k = fetched.len();
        if k == 0 {
            self.has_more = false;
        } else {
            let mut all = fetched;
            let mut rest = Vec::new();
            std::mem::swap(&mut rest, &mut self.messages);
            all.append(&mut rest);
            self.messages = all;
            let n = self.messages.len();
            assert(self.visible_count + k <= n);
            self.visible_count = self.visible_count + k;
        }
    }

    /// The outstanding fetch failed: nothing changes but that another may
    /// be issued on the next approach.
    pub fn fetch_failed(&mut self)
        requires
            old(self).wf(),
        ensures
            final(self).wf(),
            !final(self).fetch_pending,
            final(self).messages@ == old(self).messages@,
            final(self).visible_count == old(self).visible_count,
            final(self).has_more == old(self).has_more,
            final(self).conversation_id == old(self).conversation_id,
            final(self).scroll_pending == old(self).scroll_pending,
    {
        self.fetch_pending = false;
    }

    /// Whether to scroll to the bottom now; true at most once per activation.
    pub fn take_scroll_trigger(&mut self) -> (r: bool)
        ensures
            r == old(self).scroll_pending,
            !final(self).scroll_pending,
            final(self).messages@ == old(self).messages@,
            final(self).visible_count == old(self).visible_count,
            final(self).has_more == old(self).has_more,
            final(self).fetch_pending == old(self).fetch_pending,
            final(self).conversation_id == old(self).conversation_id,
    {
        let r = self.scroll_pending;
        self.scroll_pending = false;
        r
    }

    /// A new message arrived: it is appended as the most recent one. The
    /// visible count is kept, so the window follows the newest messages.
    pub fn push_message(&mut self, m: Message)
        requires
            old(self).wf(),
        ensures
            final(self).wf(),
            final(self).messages@ == old(self).messages@.push(m),
            final(self).visible_count == old(self).visible_count,
            final(self).conversation_id == old(self).conversation_id,
            final(self).has_more == old(self).has_more,
            final(self).fetch_pending == old(self).fetch_pending,
            final(self).scroll_pending == old(self).scroll_pending,
    {
        self.messages.push(m);
    }

    /// Replaces the message with the id of `m`, if it is in memory.
    pub fn replace_message(&mut self, m: Message) -> (found: bool)
        requires
            old(self).wf(),
        ensures
            final(self).wf(),
            found == exists|i: int|
                0 <= i < old(self).messages@.len() && (#[trigger] old(self).messages@[i]).id == m.id,
            found ==> exists|i: int|
                0 <= i < old(self).messages@.len() && (#[trigger] old(self).messages@[i]).id == m.id
                    && final(self).messages@ == old(self).messages@.update(i, m),
            !found ==> final(self).messages@ == old(self).messages@,
            final(self).visible_count == old(self).visible_count,
            final(self).conversation_id == old(self).conversation_id,
            final(self).has_more == old(self).has_more,
            final(self).fetch_pending == old(self).fetch_pending,
            final(self).scroll_pending == old(self).scroll_pending,
    {
        match self.position(m.id) {
            Some(i) => {
                self.messages.set(i, m);
                true
            },
            None => false,
        }
    }

    /// Removes the message `id`, if it is in memory; the visible count
    /// shrinks only as far as the number of messages left requires.
    pub fn remove_message(&mut self, id: MessageId) -> (found: bool)
        requires
            old(self).wf(),
        ensures
            final(self).wf(),
            found == exists|i: int|
                0 <= i < old(self).messages@.len() && (#[trigger] old(self).messages@[i]).id == id,
            found ==> exists|i: int|
                0 <= i < old(self).messages@.len() && (#[trigger] old(self).messages@[i]).id == id
                    && final(self).messages@ == old(self).messages@.remove(i),
            found ==> final(self).visible_count == min_int(
                old(self).visible_count as int,
                old(self).messages@.len() - 1,
            ),
            !found ==> final(self).messages@ == old(self).messages@ && final(self).visible_count
                == old(self).visible_count,
            final(self).conversation_id == old(self).conversation_id,
            final(self).has_more == old(self).has_more,
            final(self).fetch_pending == old(self).fetch_pending,
            final(self).scroll_pending == old(self).scroll_pending,
    {
        match self.position(id) {
            Some(i) => {
                self.messages.remove(i);
                if self.visible_count > self.messages.len() {
                    self.visible_count = self.messages.len();
                }
                true
            },
            None => false,
        }
    }

    /// Applies a reaction change to the message `id`, if it is in memory
    /// (see `apply_reaction`).
    pub fn react_message(
        &mut self,
        id: MessageId,
        user: String,
        emoji: String,
        state: ReactionState,
    ) -> (found: bool)
        requires
            old(self).wf(),
        ensures
            final(self).wf(),
            final(self).messages@.len() == old(self).messages@.len(),
            found == exists|i: int|
                0 <= i < old(self).messages@.len() && (#[trigger] old(self).messages@[i]).id == id,
            found ==> exists|i: int|
                0 <= i < old(self).messages@.len() && (#[trigger] old(self).messages@[i]).id == id
                    && final(self).messages@ == old(self).messages@.update(i, final(self).messages@[i])
                    && reaction_applied(
                    old(self).messages@[i],
                    final(self).messages@[i],
                    user@,
                    emoji@,
                    state,
                ),
            !found ==> final(self).messages@ == old(self).messages@,
            final(self).visible_count == old(self).visible_count,
            final(self).conversation_id == old(self).conversation_id,
            final(self).has_more == old(self).has_more,
            final(self).fetch_pending == old(self).fetch_pending,
            final(self).scroll_pending == old(self).scroll_pending,
    {
        match self.position(id) {
            Some(i) => {
                let ghost before = self.messages@;
                let mut m = self.messages.remove(i);
                apply_reaction(&mut m, user, emoji, state);
                self.messages.insert(i, m);
                assert(self.messages@ =~= before.update(i as int, m));
                assert(self.messages@[i as int] == m);
                true
            },
            None => false,
        }
    }

    /// Position of the message `id`, if it is in memory.
    pub fn position(&self, id: MessageId) -> (r: Option<usize>)
        ensures
            r matches Some(i) ==> i < self.messages@.len() && self.messages@[i as int].id == id,
            r is None ==> forall|i: int|
                0 <= i < self.messages@.len() ==> #[trigger] self.messages@[i].id != id,
    {
        let mut i: usize = 0;
        while i < self.messages.len()
            invariant
                i <= self.messages@.len(),
                forall|j: int| 0 <= j < i ==> #[trigger] self.messages@[j].id != id,
            decreases self.messages@.len() - i,
        {
            if self.messages[i].id == id {
                return Some(i);
            }
            i = i + 1;
        }
        None
    }
}

/// `after` is `before` with the reaction `emoji` of `user` set as `state`
/// says, every other (identity, emoji) pair and every other field kept.
pub open spec fn reaction_applied(
    before: Message,
    after: Message,
    user: Seq<char>,
    emoji: Seq<char>,
    state: ReactionState,
) -> bool {
    &&& state == ReactionState::Add ==> has_reacted(after.reactions@, user, emoji)
    &&& state == ReactionState::Remove ==> !has_reacted(after.reactions@, user, emoji)
    &&& forall|u: Seq<char>, e: Seq<char>|
        !(u == user && e == emoji) ==> has_reacted(after.reactions@, u, e) == has_reacted(
            before.reactions@,
            u,
            e,
        )
    &&& after.conversation_id == before.conversation_id
    &&& after.id == before.id
    &&& after.sender == before.sender
    &&& after.lines == before.lines
    &&& after.attachments == before.attachments
    &&& after.reply_to == before.reply_to
    &&& after.edited == before.edited
}

/// Once the history is exhausted, approaching the oldest message never
/// issues another fetch: after a fetch that returned nothing, whatever the
/// window's size and whether a fetch is outstanding.
pub proof fn exhausted_history_is_never_refetched(
    has_more: bool,
    visible: usize,
    len: usize,
    fetch_pending: bool,
)
    ensures
        !issues_fetch(visible, len, has_more_after_fetch(has_more, 0), fetch_pending),
{
}

/// The periodic reveal converges: after enough ticks every message in
/// memory is shown, and further ticks keep it so.
pub proof fn reveal_converges(visible: int, len: int, ticks: nat)
    requires
        0 <= visible <= len,
        ticks * REVEAL_STEP >= len - visible,
    ensures
        revealed_after(visible, len, ticks) == len,
        revealed(revealed_after(visible, len, ticks), len) == len,
    decreases ticks,
{
    if ticks > 0 {
        if visible + REVEAL_STEP >= len {
            reveal_stays_full(visible, len, ticks);
        } else {
            reveal_shift(visible, len, ticks);
            reveal_converges(visible + REVEAL_STEP, len, (ticks - 1) as nat);
        }
    }
}

proof fn reveal_stays_full(visible: int, len: int, ticks: nat)
    requires
        0 <= visible <= len,
        visible + REVEAL_STEP >= len,
        ticks > 0,
    ensures
        revealed_after(visible, len, ticks) == len,
    decreases ticks,
{
    assert(revealed_after(visible, len, ticks) == revealed(
        revealed_after(visible, len, (ticks - 1) as nat),
        len,
    ));
    if ticks > 1 {
        reveal_stays_full(visible, len, (ticks - 1) as nat);
    } else {
        assert(revealed_after(visible, len, 0) == visible);
    }
}

proof fn reveal_shift(visible: int, len: int, ticks: nat)
    requires
        0 <= visible <= len,
        ticks > 0,
    ensures
        revealed_after(visible, len, ticks) == revealed_after(
            revealed(visible, len),
            len,
            (ticks - 1) as nat,
        ),
    decreases ticks,
{
    assert(revealed_after(visible, len, ticks) == revealed(
        revealed_after(visible, len, (ticks - 1) as nat),
        len,
    ));
    if ticks > 1 {
        reveal_shift(visible, len, (ticks - 1) as nat);
        assert(revealed_after(revealed(visible, len), len, (ticks - 1) as nat) == revealed(
            revealed_after(revealed(visible, len), len, (ticks - 2) as nat),
            len,
        ));
    } else {
        assert(revealed_after(visible, len, 0) == visible);
        assert(revealed_after(revealed(visible, len), len, 0) == revealed(visible, len));
    }
}

} // verus!
