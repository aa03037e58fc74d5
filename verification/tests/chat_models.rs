use moose::chat::{build_conversation_context, chat_message_from_stored_message, ChatMessage, ChatRole};
use moose::conversations::{Message, MessageRole, MessageStatus};
use moose::error::MooseError;
use moose::ids::{new_id, utc_now};
use moose::models::{
    optional_u64_to_i64, validate_download_byte_count, validate_download_error_message,
    DownloadJobStatus, NewDownloadJob,
};
use moose::profiles::{validate_profile_description, validate_profile_name, validate_system_prompt};

fn stored(role: MessageRole, status: MessageStatus, content: &str) -> Message {
    Message {
        id: new_id(),
        conversation_id: "conversation-id".to_string(),
        role,
        content: content.to_string(),
        status,
        token_count: None,
        created_at: "2024-05-01T10:00:00Z".to_string(),
        completed_at: None,
    }
}

#[test]
fn context_keeps_recent_finished_messages() {
    let history = vec![
        stored(MessageRole::User, MessageStatus::Complete, "one"),
        stored(MessageRole::Assistant, MessageStatus::Complete, "two"),
        stored(MessageRole::User, MessageStatus::Complete, "three"),
        stored(MessageRole::Assistant, MessageStatus::Streaming, "partial"),
        stored(MessageRole::System, MessageStatus::Complete, "note"),
        stored(MessageRole::Assistant, MessageStatus::Failed, "   "),
    ];
    let context = build_conversation_context(&history, "four", 3, Some("  Be brief.  "));
    let roles: Vec<ChatRole> = context.iter().map(|m| m.role).collect();
    let contents: Vec<&str> = context.iter().map(|m| m.content.as_str()).collect();
    assert_eq!(roles, vec![ChatRole::System, ChatRole::Assistant, ChatRole::User, ChatRole::User]);
    assert_eq!(contents, vec!["Be brief.", "two", "three", "four"]);
}

#[test]
fn context_limit_of_zero_keeps_only_the_prompt() {
    let history = vec![stored(MessageRole::User, MessageStatus::Complete, "one")];
    let context = build_conversation_context(&history, "next", 0, Some("   "));
    assert_eq!(context.len(), 1);
    assert_eq!(context[0].content, "next");
}

#[test]
fn stored_messages_become_chat_messages() {
    let user = chat_message_from_stored_message(&stored(MessageRole::User, MessageStatus::Complete, "hi")).unwrap();
    assert_eq!(user.role, ChatRole::User);
    assert_eq!(user.content, "hi");
    assert!(chat_message_from_stored_message(&stored(MessageRole::Tool, MessageStatus::Complete, "x")).is_none());
    assert!(chat_message_from_stored_message(&stored(MessageRole::Assistant, MessageStatus::Streaming, "x")).is_none());
    let system = ChatMessage::system("rules");
    assert_eq!(system.role, ChatRole::System);
}

#[test]
fn download_status_round_trips_storage_value() {
    for status in [
        DownloadJobStatus::Queued,
        DownloadJobStatus::Running,
        DownloadJobStatus::Complete,
        DownloadJobStatus::Cancelled,
        DownloadJobStatus::Failed,
    ] {
        assert_eq!(DownloadJobStatus::parse(status.as_str()), Ok(status));
    }
    assert_eq!(DownloadJobStatus::parse("paused"), Err(MooseError::InvalidDownloadJobStatus));
    assert!(DownloadJobStatus::Running.is_active());
    assert!(!DownloadJobStatus::Failed.is_active());
}

#[test]
fn new_download_jobs_start_running() {
    let job = NewDownloadJob { provider_id: " provider ".to_string(), model_name: " llama3.2:1b ".to_string() }
        .into_download_job()
        .unwrap();
    assert_eq!(job.status, DownloadJobStatus::Running);
    assert_eq!(job.completed_bytes, Some(0));
    assert_eq!(job.model_name, "llama3.2:1b");
    assert_eq!(job.id.len(), 36);
    let bad = NewDownloadJob { provider_id: "p".to_string(), model_name: "bad name".to_string() }.into_download_job();
    assert_eq!(bad.unwrap_err(), MooseError::InvalidModelName);
}

#[test]
fn download_counts_and_messages_are_checked() {
    assert_eq!(validate_download_byte_count(Some(-1)), Err(MooseError::InvalidDownloadJobProgress));
    assert_eq!(validate_download_byte_count(Some(3)), Ok(Some(3)));
    assert_eq!(validate_download_error_message(Some("  ")), Ok(None));
    assert_eq!(validate_download_error_message(Some(" lost \n")), Ok(Some("lost".to_string())));
    assert_eq!(validate_download_error_message(Some("bad\u{7}")), Err(MooseError::InvalidMessageContent));
    assert_eq!(optional_u64_to_i64(Some(u64::MAX)), Err(MooseError::NumericConversion));
    assert_eq!(optional_u64_to_i64(Some(7)), Ok(Some(7)));
}

#[test]
fn profile_texts_are_trimmed_and_bounded() {
    assert_eq!(validate_profile_name("  Writer  ").unwrap(), "Writer");
    assert_eq!(validate_profile_name(&"n".repeat(49)), Err(MooseError::InvalidProfileName));
    assert_eq!(validate_profile_description(""), Err(MooseError::InvalidProfileDescription));
    assert_eq!(validate_system_prompt("  ").unwrap(), "");
    assert_eq!(validate_system_prompt("line\nnext").unwrap(), "line\nnext");
    assert_eq!(validate_system_prompt("bell\u{7}"), Err(MooseError::InvalidSystemPrompt));
}

#[test]
fn ids_and_timestamps_are_fresh() {
    let a = new_id();
    let b = new_id();
    assert_eq!(a.len(), 36);
    assert_ne!(a, b);
    let now = utc_now();
    assert!(now.ends_with('Z'));
}
