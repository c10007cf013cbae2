use uplink::chats::{BackendEvent, Chat, Chats};
use uplink::command::{settle, Command, CommandError, ReactionState};
use uplink::config::Config;
use uplink::model::{ConversationId, Message, MessageId};

fn conv(v: u128) -> ConversationId {
    ConversationId { value: v }
}

fn msg(c: u128, id: u128, text: &str) -> Message {
    Message {
        conversation_id: conv(c),
        id: MessageId { value: id },
        sender: "did:key:bob".to_string(),
        lines: vec![text.to_string()],
        attachments: vec![],
        reply_to: None,
        reactions: vec![],
        edited: false,
    }
}

fn chats() -> Chats {
    let mut all = Chats::new();
    assert!(all.put(Chat::new(conv(1), vec![], vec![msg(1, 1, "a"), msg(1, 2, "b")], true)));
    assert!(all.put(Chat::new(conv(2), vec![], vec![], false)));
    assert!(all.set_active(conv(1)));
    all
}

fn hello() -> Vec<String> {
    vec!["hello".to_string()]
}

fn messages_of(all: &Chats, c: u128) -> usize {
    all.all[all.find(conv(c)).unwrap()].window.messages.len()
}

#[test]
fn mock_submit_appends_at_once() {
    let mut all = chats();
    let r = all.submit(hello(), vec![], true, "did:key:me".to_string());
    assert!(r.is_none());
    let c = &all.all[all.find(conv(1)).unwrap()];
    assert_eq!(c.window.messages.len(), 3);
    let last = c.window.messages.last().unwrap();
    assert_eq!(last.lines, hello());
    assert_eq!(last.sender, "did:key:me");
    assert_eq!(last.conversation_id, conv(1));
}

#[test]
fn mock_messages_get_fresh_ids() {
    let mut all = chats();
    all.submit(hello(), vec![], true, "did:key:me".to_string());
    all.submit(hello(), vec![], true, "did:key:me".to_string());
    let c = &all.all[all.find(conv(1)).unwrap()];
    assert_ne!(c.window.messages[2].id, c.window.messages[3].id);
}

#[test]
fn real_submit_waits_for_backend_event() {
    let mut all = chats();
    let r = all.submit(hello(), vec!["/tmp/a.png".to_string()], false, "did:key:me".to_string());
    match r {
        Some(Command::SendMessage { conv_id, msg, attachments }) => {
            assert_eq!(conv_id, conv(1));
            assert_eq!(msg, hello());
            assert_eq!(attachments, vec!["/tmp/a.png".to_string()]);
        }
        _ => panic!("expected a send"),
    }
    assert_eq!(messages_of(&all, 1), 2);
    assert!(all.apply_event(BackendEvent::MessageReceived { message: msg(1, 9, "hello") }));
    assert_eq!(messages_of(&all, 1), 3);
}

#[test]
fn submit_with_reply_target_sends_reply_and_clears_it() {
    let mut all = chats();
    let i = all.find(conv(1)).unwrap();
    let mut c = all.take(conv(1)).unwrap();
    c.start_replying(MessageId { value: 2 });
    assert!(all.put(c));
    assert_eq!(all.get_replying_to(), Some(MessageId { value: 2 }));
    let _ = i;
    let r = all.submit(hello(), vec![], false, "did:key:me".to_string());
    match r {
        Some(Command::Reply { conv_id, reply_to, msg }) => {
            assert_eq!(conv_id, conv(1));
            assert_eq!(reply_to, MessageId { value: 2 });
            assert_eq!(msg, hello());
        }
        _ => panic!("expected a reply"),
    }
    assert_eq!(all.get_replying_to(), None);
}

#[test]
fn blank_submit_does_nothing() {
    let mut all = chats();
    assert!(all.submit(vec!["  ".to_string()], vec![], false, "me".to_string()).is_none());
    assert!(all.submit(vec![], vec![], true, "me".to_string()).is_none());
    assert_eq!(messages_of(&all, 1), 2);
}

#[test]
fn files_alone_can_be_submitted() {
    let mut all = chats();
    let r = all.submit(vec![], vec!["f.txt".to_string()], false, "me".to_string());
    assert!(matches!(r, Some(Command::SendMessage { .. })));
}

#[test]
fn submit_without_active_chat_does_nothing() {
    let mut all = Chats::new();
    assert!(all.put(Chat::new(conv(1), vec![], vec![], false)));
    assert!(all.submit(hello(), vec![], true, "me".to_string()).is_none());
    assert_eq!(messages_of(&all, 1), 0);
}

#[test]
fn unreads_of_active_chat() {
    let mut all = chats();
    assert!(!all.active_chat_has_unreads());
    let mut c = all.take(conv(1)).unwrap();
    c.unreads = 3;
    assert!(all.put(c));
    assert!(all.active_chat_has_unreads());
    let mut c = all.take(conv(1)).unwrap();
    c.clear_unreads();
    assert!(all.put(c));
    assert!(!all.active_chat_has_unreads());
    all.active = None;
    assert!(!all.active_chat_has_unreads());
}

#[test]
fn duplicate_chat_is_refused() {
    let mut all = chats();
    assert!(!all.put(Chat::new(conv(1), vec![], vec![], false)));
    assert_eq!(messages_of(&all, 1), 2);
    assert!(!all.set_active(conv(5)));
    assert_eq!(all.active, Some(conv(1)));
}

#[test]
fn events_apply_to_their_conversation() {
    let mut all = chats();
    let mut edited = msg(1, 2, "b2");
    edited.edited = true;
    assert!(all.apply_event(BackendEvent::MessageEdited { message: edited }));
    let c = &all.all[all.find(conv(1)).unwrap()];
    assert_eq!(c.window.messages[1].lines, vec!["b2".to_string()]);
    assert!(all.apply_event(BackendEvent::ReactionChanged {
        conv_id: conv(1),
        msg_id: MessageId { value: 1 },
        user: "did:key:bob".to_string(),
        emoji: "❤️".to_string(),
        state: ReactionState::Add,
    }));
    let c = &all.all[all.find(conv(1)).unwrap()];
    assert_eq!(c.window.messages[0].reactions.len(), 1);
    assert!(all.apply_event(BackendEvent::MessageDeleted { conv_id: conv(1), msg_id: MessageId { value: 1 } }));
    assert_eq!(messages_of(&all, 1), 1);
    assert!(!all.apply_event(BackendEvent::MessageReceived { message: msg(8, 1, "x") }));
    assert_eq!(messages_of(&all, 2), 0);
}

#[test]
fn remote_typing_expires_after_timeout() {
    let mut all = chats();
    assert!(all.apply_event(BackendEvent::Typing { conv_id: conv(1), user: "did:key:bob".to_string(), at: 1000 }));
    assert!(all.apply_event(BackendEvent::Typing { conv_id: conv(1), user: "did:key:eve".to_string(), at: 3000 }));
    assert!(all.apply_event(BackendEvent::Typing { conv_id: conv(1), user: "did:key:bob".to_string(), at: 2000 }));
    let mut c = all.take(conv(1)).unwrap();
    assert_eq!(c.typing_indicator.len(), 2);
    assert_eq!(c.typing_indicator[0].at, 2000);
    c.purge_typing(7000, 5000);
    assert_eq!(c.typing_indicator.len(), 2);
    c.purge_typing(7001, 5000);
    assert_eq!(c.typing_indicator.len(), 1);
    assert_eq!(c.typing_indicator[0].user, "did:key:eve");
    c.purge_typing(9000, 5000);
    assert!(c.typing_indicator.is_empty());
}

#[test]
fn duplicate_downloads_are_suppressed() {
    let mut c = Chat::new(conv(1), vec![], vec![], false);
    let id = MessageId { value: 4 };
    match c.start_download(id, "a.png".to_string(), "/tmp".to_string()) {
        Some(Command::DownloadAttachment { conv_id, msg_id, file_name, directory }) => {
            assert_eq!(conv_id, conv(1));
            assert_eq!(msg_id, id);
            assert_eq!(file_name, "a.png");
            assert_eq!(directory, "/tmp");
        }
        _ => panic!("expected a download"),
    }
    assert!(c.start_download(id, "a.png".to_string(), "/tmp".to_string()).is_none());
    assert!(c.start_download(id, "b.png".to_string(), "/tmp".to_string()).is_some());
    c.finish_download(&"a.png".to_string());
    assert_eq!(c.pending_downloads, vec!["b.png".to_string()]);
    assert!(c.start_download(id, "a.png".to_string(), "/tmp".to_string()).is_some());
}

#[test]
fn settled_replies() {
    assert!(matches!(settle::<u8>(false, None), Err(CommandError::ChannelClosed)));
    assert!(matches!(settle::<u8>(true, None), Err(CommandError::Canceled)));
    match settle::<u8>(true, Some(Err("blocked".to_string()))) {
        Err(CommandError::Backend { reason }) => assert_eq!(reason, "blocked"),
        _ => panic!("expected a backend error"),
    }
    assert_eq!(settle(true, Some(Ok(5u8))).ok(), Some(5));
}

#[test]
fn config_defaults_and_theme() {
    let mut c = Config::new();
    assert_eq!(c.general.theme, "");
    assert!(!c.developer.developer_mode);
    c.developer.developer_mode = true;
    c.set_theme("dark".to_string());
    assert_eq!(c.general.theme, "dark");
    assert!(c.developer.developer_mode);
}

#[test]
fn finishing_an_edit_leaves_edit_mode_at_once() {
    let mut c = Chat::new(conv(1), vec![], vec![msg(1, 1, "a"), msg(1, 2, "b")], false);
    assert!(c.finish_editing("x").is_none());
    c.start_editing(MessageId { value: 2 });
    assert_eq!(c.editing, Some(MessageId { value: 2 }));
    match c.finish_editing("b\nmore") {
        Some(Command::EditMessage { conv_id, msg_id, msg }) => {
            assert_eq!(conv_id, conv(1));
            assert_eq!(msg_id, MessageId { value: 2 });
            assert_eq!(msg, vec!["b".to_string(), "more".to_string()]);
        }
        _ => panic!("expected an edit"),
    }
    assert_eq!(c.editing, None);
    c.start_editing(MessageId { value: 1 });
    assert!(c.finish_editing("a").is_none());
    assert_eq!(c.editing, None);
    c.start_editing(MessageId { value: 1 });
    assert!(matches!(c.finish_editing(" "), Some(Command::DeleteMessage { .. })));
    c.start_editing(MessageId { value: 7 });
    assert!(c.finish_editing("new").is_none());
    c.start_editing(MessageId { value: 7 });
    c.cancel_editing();
    assert_eq!(c.editing, None);
}

#[test]
fn delete_command_names_the_message() {
    let c = Chat::new(conv(4), vec![], vec![], false);
    match c.delete_command(MessageId { value: 8 }) {
        Command::DeleteMessage { conv_id, msg_id } => {
            assert_eq!(conv_id, conv(4));
            assert_eq!(msg_id, MessageId { value: 8 });
        }
        _ => panic!("expected a deletion"),
    }
}

#[test]
fn clearing_active_unreads_touches_only_the_shown_chat() {
    let mut all = chats();
    for id in [1u128, 2] {
        let mut c = all.take(conv(id)).unwrap();
        c.unreads = 4;
        assert!(all.put(c));
    }
    all.clear_active_unreads();
    assert!(!all.active_chat_has_unreads());
    assert_eq!(all.all[all.find(conv(2)).unwrap()].unreads, 4);
}

#[test]
fn switching_chats_keeps_reply_target_and_unreads() {
    let mut all = chats();
    let mut c = all.take(conv(1)).unwrap();
    c.start_replying(MessageId { value: 1 });
    c.unreads = 2;
    c.window.reveal_tick();
    assert!(all.put(c));
    assert!(all.set_active(conv(2)));
    assert!(all.set_active(conv(1)));
    let c = &all.all[all.find(conv(1)).unwrap()];
    assert_eq!(c.replying_to, Some(MessageId { value: 1 }));
    assert_eq!(c.unreads, 2);
    assert_eq!(c.window.visible_count, 2);
    assert!(c.window.scroll_pending);
}
