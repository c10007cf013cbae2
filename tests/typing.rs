use uplink::command::{Command, MessageEvent};
use uplink::model::ConversationId;
use uplink::typing::{TypingCoordinator, TypingSignal};

fn conv(v: u128) -> ConversationId {
    ConversationId { value: v }
}

fn is_typing_event(r: &Option<Command>, id: ConversationId) -> bool {
    matches!(r, Some(Command::SendEvent { conv_id, event: MessageEvent::Typing }) if *conv_id == id)
}

#[test]
fn repeated_typing_then_late_refresh_sends_once() {
    let a = conv(1);
    let mut t = TypingCoordinator::new(5000);
    let mut sent = 0;
    for (signal, now) in [
        (TypingSignal::Typing(a), 1000u64),
        (TypingSignal::Typing(a), 1200),
        (TypingSignal::Refresh(a), 5800),
    ] {
        if t.handle(signal, now).is_some() {
            sent += 1;
        }
    }
    assert_eq!(sent, 1);
}

#[test]
fn second_typing_in_same_conversation_sends_nothing() {
    let a = conv(1);
    let mut t = TypingCoordinator::new(5000);
    assert!(is_typing_event(&t.handle(TypingSignal::Typing(a), 10), a));
    assert!(t.handle(TypingSignal::Typing(a), 20).is_none());
    let s = t.session.unwrap();
    assert_eq!(s.conversation_id, a);
    assert_eq!(s.last_sent_at, 10);
}

#[test]
fn refresh_before_grace_window_resends() {
    let a = conv(1);
    let mut t = TypingCoordinator::new(5000);
    t.handle(TypingSignal::Typing(a), 1000);
    assert!(is_typing_event(&t.handle(TypingSignal::Refresh(a), 5500), a));
    assert_eq!(t.session.unwrap().last_sent_at, 5500);
}

#[test]
fn refresh_after_grace_window_lapses() {
    let a = conv(1);
    let mut t = TypingCoordinator::new(5000);
    t.handle(TypingSignal::Typing(a), 1000);
    assert!(t.handle(TypingSignal::Refresh(a), 5501).is_none());
    assert!(t.session.is_none());
    // typing again announces at once
    assert!(is_typing_event(&t.handle(TypingSignal::Typing(a), 5600), a));
}

#[test]
fn switching_conversation_announces_new_one_only() {
    let a = conv(1);
    let b = conv(2);
    let mut t = TypingCoordinator::new(5000);
    assert!(is_typing_event(&t.handle(TypingSignal::Typing(a), 0), a));
    assert!(is_typing_event(&t.handle(TypingSignal::Typing(b), 100), b));
    assert!(t.handle(TypingSignal::Refresh(a), 200).is_none());
    assert!(t.session.is_none());
}

#[test]
fn refreshes_after_not_typing_send_nothing() {
    let a = conv(1);
    let mut t = TypingCoordinator::new(5000);
    t.handle(TypingSignal::Typing(a), 0);
    assert!(t.handle(TypingSignal::NotTyping, 10).is_none());
    for i in 0..20u64 {
        assert!(t.handle(TypingSignal::Refresh(a), 20 + i * 100).is_none());
    }
    assert!(t.session.is_none());
}
