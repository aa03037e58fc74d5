use moose::conversations::{
    validate_conversation_title, validate_message_content, MessageRole, MessageStatus,
    MessageUpdate, NewConversation, NewMessage,
};
use moose::error::MooseError;

#[test]
fn conversation_creation_trims_title() {
    let conversation = NewConversation {
        provider_id: "provider-id".to_string(),
        model_id: Some("model-id".to_string()),
        title: "  First prompt  ".to_string(),
    }
    .into_conversation()
    .unwrap();

    assert_eq!(conversation.title, "First prompt");
    assert_eq!(conversation.provider_id, "provider-id");
    assert_eq!(conversation.model_id.as_deref(), Some("model-id"));
    assert!(conversation.archived_at.is_none());
}

#[test]
fn conversation_title_rejects_empty_values() {
    assert!(validate_conversation_title("   ").is_err());
}

#[test]
fn message_role_round_trips_storage_value() {
    assert_eq!(
        "assistant".parse::<MessageRole>().unwrap(),
        MessageRole::Assistant
    );
    assert_eq!(MessageRole::Tool.as_str(), "tool");
    assert!("unknown".parse::<MessageRole>().is_err());
}

#[test]
fn message_status_round_trips_storage_value() {
    assert_eq!(
        "cancelled".parse::<MessageStatus>().unwrap(),
        MessageStatus::Cancelled
    );
    assert!(MessageStatus::Complete.is_finished());
    assert!("unknown".parse::<MessageStatus>().is_err());
}

#[test]
fn user_message_is_complete() {
    let message = NewMessage::user("conversation-id", "Hello")
        .into_message()
        .unwrap();

    assert_eq!(message.role, MessageRole::User);
    assert_eq!(message.status, MessageStatus::Complete);
    assert!(message.completed_at.is_some());
}

#[test]
fn assistant_streaming_message_can_start_empty() {
    let message = NewMessage::assistant_streaming("conversation-id")
        .into_message()
        .unwrap();

    assert_eq!(message.role, MessageRole::Assistant);
    assert_eq!(message.status, MessageStatus::Streaming);
    assert!(message.content.is_empty());
    assert!(message.completed_at.is_none());
}

#[test]
fn every_role_and_status_reads_back_its_storage_value() {
    for role in [
        MessageRole::System,
        MessageRole::User,
        MessageRole::Assistant,
        MessageRole::Tool,
    ] {
        assert_eq!(role.as_str().parse::<MessageRole>().unwrap(), role);
    }
    for status in [
        MessageStatus::Streaming,
        MessageStatus::Complete,
        MessageStatus::Cancelled,
        MessageStatus::Failed,
    ] {
        assert_eq!(status.as_str().parse::<MessageStatus>().unwrap(), status);
    }
    assert!(!MessageStatus::Streaming.is_finished());
}

#[test]
fn conversation_with_given_identity_keeps_it() {
    let conversation = NewConversation {
        provider_id: " p ".to_string(),
        model_id: None,
        title: "Title".to_string(),
    }
    .into_conversation_with("id-1".to_string(), "2026-01-01T00:00:00Z".to_string())
    .unwrap();
    assert_eq!(conversation.id, "id-1");
    assert_eq!(conversation.provider_id, "p");
    assert_eq!(conversation.created_at, "2026-01-01T00:00:00Z");
    assert_eq!(conversation.updated_at, "2026-01-01T00:00:00Z");
    assert!(conversation.model_id.is_none());
}

#[test]
fn conversation_errors_name_the_bad_field() {
    let blank_provider = NewConversation {
        provider_id: "  ".to_string(),
        model_id: None,
        title: "Title".to_string(),
    }
    .into_conversation();
    assert_eq!(blank_provider.unwrap_err(), MooseError::InvalidIdentifier);

    let control_model = NewConversation {
        provider_id: "p".to_string(),
        model_id: Some("a\u{1}b".to_string()),
        title: "Title".to_string(),
    }
    .into_conversation();
    assert_eq!(control_model.unwrap_err(), MooseError::InvalidIdentifier);

    let long_title = NewConversation {
        provider_id: "p".to_string(),
        model_id: None,
        title: "x".repeat(161),
    }
    .into_conversation();
    assert_eq!(long_title.unwrap_err(), MooseError::InvalidConversationTitle);
}

#[test]
fn title_length_is_counted_in_bytes() {
    assert!(validate_conversation_title(&"x".repeat(160)).is_ok());
    // 80 two-byte characters fill the 160 bytes exactly; one more does not fit.
    assert!(validate_conversation_title(&"é".repeat(80)).is_ok());
    assert!(validate_conversation_title(&"é".repeat(81)).is_err());
    assert!(validate_conversation_title("line\tbreak").is_ok());
    assert!(validate_conversation_title("bell\u{7}").is_err());
}

#[test]
fn message_content_rules() {
    assert_eq!(
        validate_message_content("  keep spacing \n", &MessageStatus::Complete).unwrap(),
        "  keep spacing \n"
    );
    assert_eq!(
        validate_message_content("   ", &MessageStatus::Complete).unwrap_err(),
        MooseError::InvalidMessageContent
    );
    assert!(validate_message_content("", &MessageStatus::Streaming).is_ok());
    assert!(validate_message_content("", &MessageStatus::Failed).is_ok());
    assert_eq!(
        validate_message_content(" ", &MessageStatus::Cancelled).unwrap_err(),
        MooseError::InvalidMessageContent
    );
    assert!(validate_message_content("a\u{1}", &MessageStatus::Failed).is_err());
    assert!(validate_message_content("a\u{0}", &MessageStatus::Streaming).is_err());
}

#[test]
fn message_updates_carry_their_end_state() {
    assert_eq!(
        MessageUpdate::completed("m", "done").status,
        MessageStatus::Complete
    );
    assert_eq!(
        MessageUpdate::cancelled("m", "part").status,
        MessageStatus::Cancelled
    );
    let failed = MessageUpdate::failed("m", "");
    assert_eq!(failed.status, MessageStatus::Failed);
    assert_eq!(failed.id, "m");
    assert!(failed.token_count.is_none());
}

#[test]
fn finished_messages_complete_when_created() {
    let message = NewMessage::user("c", "Hi")
        .into_message_with("id".to_string(), "t0".to_string())
        .unwrap();
    assert_eq!(message.completed_at.as_deref(), Some("t0"));
    assert_eq!(message.created_at, "t0");
    let blank = NewMessage::user("c", " ").into_message();
    assert_eq!(blank.unwrap_err(), MooseError::InvalidMessageContent);
    let no_conversation = NewMessage::user(" ", "Hi").into_message();
    assert_eq!(no_conversation.unwrap_err(), MooseError::InvalidIdentifier);
}

#[test]
fn validated_titles_validate_again_unchanged() {
    for raw in ["  Trip plans  ", "Notes", "\tA\n"] {
        let once = validate_conversation_title(raw).unwrap();
        assert_eq!(validate_conversation_title(&once).unwrap(), once);
    }
}
