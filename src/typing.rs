use vstd::prelude::*;

use crate::command::{Command, MessageEvent};
use crate::model::ConversationId;

verus! {

/// How long before the remote side's expiry a typing announcement must be
/// repeated to keep the remote indicator alive, in milliseconds.
pub const GRACE_WINDOW_MS: u64 = 500;

/// The three signals that drive the local typing indicator.
#[derive(Clone, Copy, PartialEq, Eq, Structural, Debug)]
pub enum TypingSignal {
    /// The local user typed in the given conversation.
    Typing(ConversationId),
    /// The local user stopped composing (sent, or left the input).
    NotTyping,
    /// The periodic refresh timer fired for the given conversation.
    Refresh(ConversationId),
}

/// The conversation the local user is typing in, and when the last typing
/// event was sent there (milliseconds on a monotonic clock).
#[derive(Clone, Copy, PartialEq, Eq, Structural, Debug)]
pub struct TypingSession {
    pub conversation_id: ConversationId,
    pub last_sent_at: u64,
}

/// Throttles outbound typing events. `session` is `None` while idle.
/// `remote_timeout_ms` is how long the remote side keeps an indicator alive.
pub struct TypingCoordinator {
    pub session: Option<TypingSession>,
    pub remote_timeout_ms: u64,
}

/// A refresh at `now` still falls before the grace window of an announcement
/// sent at `last`: the announcement is repeated.
pub open spec fn before_grace_window(last: u64, now: u64, remote_timeout_ms: u64) -> bool {
    now - last <= remote_timeout_ms - GRACE_WINDOW_MS
}

/// One transition of the coordinator: the next session and the conversation
/// for which a typing event goes out, if any.
pub open spec fn typing_step(
    session: Option<TypingSession>,
    remote_timeout_ms: u64,
    signal: TypingSignal,
    now: u64,
) -> (Option<TypingSession>, Option<ConversationId>) {
    match signal {
        TypingSignal::Typing(id) => {
            if session is Some && session->0.conversation_id == id {
                (session, None)
            } else {
                (Some(TypingSession { conversation_id: id, last_sent_at: now }), Some(id))
            }
        },
        TypingSignal::NotTyping => (None, None),
        TypingSignal::Refresh(id) => {
            if session is None || session->0.conversation_id != id {
                (None, None)
            } else if before_grace_window(session->0.last_sent_at, now, remote_timeout_ms) {
                (Some(TypingSession { conversation_id: id, last_sent_at: now }), Some(id))
            } else {
                (None, None)
            }
        },
    }
}

/// The command that announces typing in `conv_id`.
pub open spec fn typing_command(conv_id: ConversationId) -> Command {
    Command::SendEvent { conv_id, event: MessageEvent::Typing }
}

/// The command sent for the outcome of one transition.
pub open spec fn typing_event(sent: Option<ConversationId>) -> Option<Command> {
    match sent {
        Some(id) => Some(typing_command(id)),
        None => None,
    }
}

/// Runs the coordinator over timed signals: the final session and the
/// conversations of the typing events sent, in order.
pub open spec fn typing_run(
    session: Option<TypingSession>,
    remote_timeout_ms: u64,
    signals: Seq<(TypingSignal, u64)>,
) -> (Option<TypingSession>, Seq<ConversationId>)
    decreases signals.len(),
{
    if signals.len() == 0 {
        (session, Seq::empty())
    } else {
        let (next, sent) = typing_step(session, remote_timeout_ms, signals[0].0, signals[0].1);
        let (last, rest) = typing_run(next, remote_timeout_ms, signals.drop_first());
        match sent {
            Some(id) => (last, seq![id] + rest),
            None => (last, rest),
        }
    }
}

/// Number of events (zero or one) that a single transition sends.
pub open spec fn sent_count(sent: Option<ConversationId>) -> nat {
    if sent is Some {
        1
    } else {
        0
    }
}

impl TypingCoordinator {
    /// An idle coordinator for a remote side that expires indicators after
    /// `remote_timeout_ms`.
    pub fn new(remote_timeout_ms: u64) -> (r: Self)
        ensures
            r.session is None,
            r.remote_timeout_ms == remote_timeout_ms,
    {
        TypingCoordinator { session: None, remote_timeout_ms }
    }

    /// Handles one signal at time `now_ms` and returns the typing event to
    /// send, if any. A failed send is not rolled back: the caller only logs it.
    pub fn handle(&mut self, signal: TypingSignal, now_ms: u64) -> (r: Option<Command>)
        ensures
            final(self).remote_timeout_ms == old(self).remote_timeout_ms,
            final(self).session == typing_step(
                old(self).session,
                old(self).remote_timeout_ms,
                signal,
                now_ms,
            ).0,
            r == typing_event(
                typing_step(old(self).session, old(self).remote_timeout_ms, signal, now_ms).1,
            ),
    {
        match signal {
            TypingSignal::Typing(id) => {
                let same = match self.session {
                    Some(s) => s.conversation_id == id,
                    None => false,
                };
                if same {
                    None
                } else {
                    self.session = Some(TypingSession { conversation_id: id, last_sent_at: now_ms });
                    Some(Command::SendEvent { conv_id: id, event: MessageEvent::Typing })
                }
            },
            TypingSignal::NotTyping => {
                self.session = None;
                None
            },
            TypingSignal::Refresh(id) => {
                match self.session {
                    None => None,
                    Some(s) => {
                        if s.conversation_id != id {
                            self.session = None;
                            None
                        } else if (now_ms as u128) + (GRACE_WINDOW_MS as u128) <= (
                        s.last_sent_at as u128) + (self.remote_timeout_ms as u128) {
                            self.session = Some(
                                TypingSession { conversation_id: id, last_sent_at: now_ms },
                            );
                            Some(Command::SendEvent { conv_id: id, event: MessageEvent::Typing })
                        } else {
                            self.session = None;
                            None
                        }
                    },
                }
            },
        }
    }
}

/// Repeated typing in one conversation is announced once: `Typing(a)`,
/// `Typing(a)`, then a `Refresh(a)` that arrives in the grace window of the
/// first signal, send at most one typing event, whatever the starting state.
pub proof fn repeated_typing_announced_once(
    session: Option<TypingSession>,
    remote_timeout_ms: u64,
    a: ConversationId,
    t1: u64,
    t2: u64,
    t3: u64,
)
    requires
        !before_grace_window(t1, t3, remote_timeout_ms),
    ensures
        ({
            let (s1, o1) = typing_step(session, remote_timeout_ms, TypingSignal::Typing(a), t1);
            let (s2, o2) = typing_step(s1, remote_timeout_ms, TypingSignal::Typing(a), t2);
            let (s3, o3) = typing_step(s2, remote_timeout_ms, TypingSignal::Refresh(a), t3);
            sent_count(o1) + sent_count(o2) + sent_count(o3) <= 1
        }),
{
}

/// Switching conversations announces the new one at once and nothing more
/// for the old one: after `Typing(a)` then `Typing(b)` with `a != b`, the
/// second signal sends exactly one event, for `b`, and a later refresh of
/// `a` sends nothing.
pub proof fn switching_announces_new_conversation_only(
    session: Option<TypingSession>,
    remote_timeout_ms: u64,
    a: ConversationId,
    b: ConversationId,
    t1: u64,
    t2: u64,
    t3: u64,
)
    requires
        a != b,
    ensures
        ({
            let (s1, o1) = typing_step(session, remote_timeout_ms, TypingSignal::Typing(a), t1);
            let (s2, o2) = typing_step(s1, remote_timeout_ms, TypingSignal::Typing(b), t2);
            &&& o2 == Some(b)
            &&& s2 == Some(TypingSession { conversation_id: b, last_sent_at: t2 })
            &&& typing_step(s2, remote_timeout_ms, TypingSignal::Refresh(a), t3).1 is None
        }),
{
}

/// Refreshes alone never send from an idle coordinator, and leave it idle.
proof fn idle_refreshes_send_nothing(remote_timeout_ms: u64, signals: Seq<(TypingSignal, u64)>)
    requires
        forall|i: int| 0 <= i < signals.len() ==> #[trigger] signals[i].0 is Refresh,
    ensures
        typing_run(None, remote_timeout_ms, signals).0 is None,
        typing_run(None, remote_timeout_ms, signals).1.len() == 0,
    decreases signals.len(),
{
    if signals.len() > 0 {
        assert(signals[0].0 is Refresh);
        let rest = signals.drop_first();
        assert forall|i: int| 0 <= i < rest.len() implies #[trigger] rest[i].0 is Refresh by {
            assert(rest[i] == signals[i + 1]);
        }
        idle_refreshes_send_nothing(remote_timeout_ms, rest);
    }
}

/// After `NotTyping`, any number of refreshes sends no typing event.
pub proof fn not_typing_silences_refreshes(
    session: Option<TypingSession>,
    remote_timeout_ms: u64,
    now: u64,
    refreshes: Seq<(TypingSignal, u64)>,
)
    requires
        forall|i: int| 0 <= i < refreshes.len() ==> #[trigger] refreshes[i].0 is Refresh,
    ensures
        typing_run(session, remote_timeout_ms, seq![(TypingSignal::NotTyping, now)] + refreshes).1.len()
            == 0,
{
    let all = seq![(TypingSignal::NotTyping, now)] + refreshes;
    assert(all.drop_first() =~= refreshes);
    idle_refreshes_send_nothing(remote_timeout_ms, refreshes);
}

} // verus!
