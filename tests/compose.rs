use uplink::command::{Command, ReactionState};
use uplink::compose::{
    apply_reaction, edit_command, edit_text, lines_all_blank, react_command, same_text,
    split_newlines, user_has_reacted,
};
use uplink::model::{ConversationId, Message, MessageId, Reaction};

fn lines(v: &[&str]) -> Vec<String> {
    v.iter().map(|s| s.to_string()).collect()
}

fn message(text: &[&str]) -> Message {
    Message {
        conversation_id: ConversationId { value: 3 },
        id: MessageId { value: 11 },
        sender: "did:key:me".to_string(),
        lines: lines(text),
        attachments: vec![],
        reply_to: None,
        reactions: vec![],
        edited: false,
    }
}

#[test]
fn unchanged_edit_sends_nothing() {
    let m = message(&["hello", "world"]);
    assert!(edit_command(&m, lines(&["hello", "world"])).is_none());
    assert!(edit_text(&m, "hello\nworld").is_none());
}

#[test]
fn blank_edit_becomes_delete() {
    let m = message(&["hello"]);
    match edit_text(&m, "   \n\t") {
        Some(Command::DeleteMessage { conv_id, msg_id }) => {
            assert_eq!(conv_id, ConversationId { value: 3 });
            assert_eq!(msg_id, MessageId { value: 11 });
        }
        _ => panic!("expected a deletion"),
    }
    assert!(matches!(edit_text(&m, ""), Some(Command::DeleteMessage { .. })));
}

#[test]
fn changed_edit_becomes_edit_with_split_lines() {
    let m = message(&["hello"]);
    match edit_text(&m, "hello\n  there ") {
        Some(Command::EditMessage { conv_id, msg_id, msg }) => {
            assert_eq!(conv_id, ConversationId { value: 3 });
            assert_eq!(msg_id, MessageId { value: 11 });
            assert_eq!(msg, lines(&["hello", "  there "]));
        }
        _ => panic!("expected an edit"),
    }
}

#[test]
fn blank_lines_are_detected_after_trimming() {
    assert!(lines_all_blank(&lines(&["  ", "\t", ""])));
    assert!(!lines_all_blank(&lines(&["  ", " x "])));
    assert!(lines_all_blank(&vec![]));
}

#[test]
fn text_comparison_is_line_by_line() {
    assert!(same_text(&lines(&["a", "b"]), &lines(&["a", "b"])));
    assert!(!same_text(&lines(&["a", "b"]), &lines(&["a"])));
    assert!(!same_text(&lines(&["a", "b"]), &lines(&["a", "c"])));
}

#[test]
fn reacting_toggles_between_add_and_remove() {
    let me = "did:key:me".to_string();
    let mut m = message(&["hi"]);
    let first = react_command(&m, &me, "👍".to_string());
    match first {
        Command::React { conversation_id, message_id, reaction_state, ref emoji } => {
            assert_eq!(conversation_id, ConversationId { value: 3 });
            assert_eq!(message_id, MessageId { value: 11 });
            assert_eq!(reaction_state, ReactionState::Add);
            assert_eq!(emoji, "👍");
        }
        _ => panic!("expected a reaction"),
    }
    apply_reaction(&mut m, me.clone(), "👍".to_string(), ReactionState::Add);
    match react_command(&m, &me, "👍".to_string()) {
        Command::React { reaction_state, .. } => assert_eq!(reaction_state, ReactionState::Remove),
        _ => panic!("expected a reaction"),
    }
    match react_command(&m, &me, "😂".to_string()) {
        Command::React { reaction_state, .. } => assert_eq!(reaction_state, ReactionState::Add),
        _ => panic!("expected a reaction"),
    }
}

#[test]
fn another_users_reaction_does_not_count_as_mine() {
    let me = "did:key:me".to_string();
    let mut m = message(&["hi"]);
    m.reactions = vec![Reaction { emoji: "👍".to_string(), users: vec!["did:key:bob".to_string()] }];
    assert!(!user_has_reacted(&m.reactions, &me, &"👍".to_string()));
    match react_command(&m, &me, "👍".to_string()) {
        Command::React { reaction_state, .. } => assert_eq!(reaction_state, ReactionState::Add),
        _ => panic!("expected a reaction"),
    }
    apply_reaction(&mut m, me.clone(), "👍".to_string(), ReactionState::Add);
    assert_eq!(m.reactions.len(), 1);
    assert_eq!(m.reactions[0].users, vec!["did:key:bob".to_string(), me.clone()]);
    apply_reaction(&mut m, me.clone(), "👍".to_string(), ReactionState::Remove);
    assert!(!user_has_reacted(&m.reactions, &me, &"👍".to_string()));
    assert!(user_has_reacted(&m.reactions, &"did:key:bob".to_string(), &"👍".to_string()));
}

#[test]
fn adding_a_new_emoji_creates_its_reaction() {
    let me = "did:key:me".to_string();
    let mut m = message(&["hi"]);
    apply_reaction(&mut m, me.clone(), "😎".to_string(), ReactionState::Add);
    assert_eq!(m.reactions.len(), 1);
    assert_eq!(m.reactions[0].emoji, "😎");
    assert_eq!(m.reactions[0].users, vec![me.clone()]);
    // adding twice keeps a single entry
    apply_reaction(&mut m, me.clone(), "😎".to_string(), ReactionState::Add);
    assert_eq!(m.reactions[0].users.len(), 1);
}

#[test]
fn split_keeps_empty_pieces() {
    assert_eq!(split_newlines("a\nb"), lines(&["a", "b"]));
    assert_eq!(split_newlines(""), lines(&[""]));
    assert_eq!(split_newlines("\n"), lines(&["", ""]));
    assert_eq!(split_newlines("x\n\ny\n"), lines(&["x", "", "y", ""]));
    assert_eq!(split_newlines("é ü\r"), lines(&["é ü\r"]));
}

#[test]
fn edit_differing_only_by_surrounding_white_space_sends_nothing() {
    let m = message(&["a", "b"]);
    assert!(edit_text(&m, "a \n\tb").is_none());
    assert!(edit_text(&m, "  a\nb\u{3000}").is_none());
    assert!(matches!(edit_text(&m, "a \nb\nc"), Some(Command::EditMessage { .. })));
    assert!(matches!(edit_text(&m, "a b\nb"), Some(Command::EditMessage { .. })));
}
