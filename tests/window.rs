use uplink::command::Command;
use uplink::model::{ConversationId, Message, MessageId};
use uplink::window::ConversationWindow;

fn msg(id: u128) -> Message {
    Message {
        conversation_id: ConversationId { value: 7 },
        id: MessageId { value: id },
        sender: "did:key:alice".to_string(),
        lines: vec![format!("message {id}")],
        attachments: vec![],
        reply_to: None,
        reactions: vec![],
        edited: false,
    }
}

fn window(n: u128, has_more: bool) -> ConversationWindow {
    ConversationWindow::new(ConversationId { value: 7 }, (0..n).map(msg).collect(), has_more)
}

#[test]
fn reveal_ticks_converge_to_all_messages() {
    let mut w = window(45, false);
    assert_eq!(w.visible_count, 20);
    w.reveal_tick();
    assert_eq!(w.visible_count, 30);
    w.reveal_tick();
    assert_eq!(w.visible_count, 40);
    w.reveal_tick();
    assert_eq!(w.visible_count, 45);
    w.reveal_tick();
    assert_eq!(w.visible_count, 45);
    assert_eq!(w.visible_start(), 0);
}

#[test]
fn short_conversation_shows_everything() {
    let w = window(5, true);
    assert_eq!(w.visible_count, 5);
    assert_eq!(w.visible_start(), 0);
    let w = window(0, true);
    assert_eq!(w.visible_count, 0);
}

#[test]
fn visible_window_is_the_most_recent_messages() {
    let w = window(45, false);
    assert_eq!(w.visible_start(), 25);
    assert_eq!(w.messages[w.visible_start()].id, MessageId { value: 25 });
}

#[test]
fn approaching_oldest_widens_when_history_is_in_memory() {
    let mut w = window(100, true);
    assert!(w.approach_oldest().is_none());
    assert_eq!(w.visible_count, 60);
    assert!(!w.fetch_pending);
}

#[test]
fn approaching_oldest_fetches_when_memory_is_exhausted() {
    let mut w = window(45, true);
    let c = w.approach_oldest();
    match c {
        Some(Command::FetchMore { conv_id, new_len, current_len }) => {
            assert_eq!(conv_id, ConversationId { value: 7 });
            assert_eq!(new_len, 60);
            assert_eq!(current_len, 20);
        }
        _ => panic!("expected a fetch"),
    }
    assert!(w.fetch_pending);
    assert_eq!(w.visible_count, 20);
    // no second fetch while one is outstanding
    assert!(w.approach_oldest().is_none());
}

#[test]
fn fetched_messages_are_prepended_and_shown() {
    let mut w = window(45, true);
    w.approach_oldest();
    w.fetch_completed((100..110).map(msg).collect());
    assert_eq!(w.messages.len(), 55);
    assert_eq!(w.messages[0].id, MessageId { value: 100 });
    assert_eq!(w.messages[10].id, MessageId { value: 0 });
    assert_eq!(w.visible_count, 30);
    assert!(w.has_more);
    assert!(!w.fetch_pending);
}

#[test]
fn empty_fetch_ends_history_for_good() {
    let mut w = window(45, true);
    assert!(w.approach_oldest().is_some());
    w.fetch_completed(vec![]);
    assert!(!w.has_more);
    assert!(w.approach_oldest().is_none());
    assert!(w.approach_oldest().is_none());
    assert_eq!(w.messages.len(), 45);
}

#[test]
fn failed_fetch_keeps_history_open() {
    let mut w = window(45, true);
    assert!(w.approach_oldest().is_some());
    w.fetch_failed();
    assert!(w.has_more);
    assert!(!w.fetch_pending);
    assert!(w.approach_oldest().is_some());
}

#[test]
fn scroll_trigger_fires_once_per_activation() {
    let mut w = window(45, true);
    assert!(w.take_scroll_trigger());
    assert!(!w.take_scroll_trigger());
    w.reveal_tick();
    w.reactivate();
    assert_eq!(w.visible_count, 20);
    assert!(w.take_scroll_trigger());
    assert!(!w.take_scroll_trigger());
}

#[test]
fn removed_message_shrinks_window_only_when_needed() {
    let mut w = window(3, true);
    assert_eq!(w.visible_count, 3);
    assert!(w.remove_message(MessageId { value: 1 }));
    assert_eq!(w.messages.len(), 2);
    assert_eq!(w.visible_count, 2);
    assert!(!w.remove_message(MessageId { value: 1 }));
    let mut w = window(30, true);
    assert!(w.remove_message(MessageId { value: 0 }));
    assert_eq!(w.visible_count, 20);
}

#[test]
fn replaced_message_takes_its_place() {
    let mut w = window(3, true);
    let mut m = msg(1);
    m.lines = vec!["changed".to_string()];
    m.edited = true;
    assert!(w.replace_message(m));
    assert_eq!(w.messages[1].lines, vec!["changed".to_string()]);
    assert!(w.messages[1].edited);
    assert!(!w.replace_message(msg(9)));
}
