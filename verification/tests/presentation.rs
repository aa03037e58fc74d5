use moose::conversations::{Conversation, Message, MessageRole, MessageStatus};
use moose::error::MooseError;
use moose::models::{DownloadJob, DownloadJobStatus};
use moose::ollama::OllamaModel;
use moose::presentation::chat_text::{
    format_message_datetime, generated_title, message_content_with_live_state,
    message_header_label, message_role_label, month_name, next_thinking_step, split_words,
    stored_message_content, thinking_status, thinking_text, title_braces_reversed, title_json_text, truncate_title,
};
use moose::presentation::code::{
    code_height, code_language, code_line_count, inferred_code_language, known_language_of,
    language_candidates, language_extension, language_label_text, title_word, CodeHeightMode,
    KnownLanguage,
};
use moose::presentation::conversation_list::{
    conversation_list_entries, ConversationSummary, empty_list_label, ListEntry, ListHeading,
};
use moose::presentation::export::{
    default_filename, extension, markdown, message_heading, text, ExportData, ExportFormat,
};
use moose::presentation::live_markdown::{
    is_closing_fence, list_marker_text, live_segments, parse_opening_fence, split_inclusive_lines, LiveSegmentKind,
};
use moose::presentation::models_view::{
    compact_download_timestamp, compact_timestamp, contains_query, download_job_progress,
    download_job_status_text, download_job_subtitle, matching_models, model_family_matches_query,
    model_is_installed, model_matches_query, model_picker_choices, model_subtitle, normalize_query,
    optional_i64_to_u64, DownloadProgress, ModelFamily, ModelVariant,
};
use moose::presentation::providers_view::{
    chat_model_names, managed_port_from_setting, managed_port_from_text, managed_provider_change,
    managed_provider_count, managed_provider_name, managed_provider_name_from_text,
    ManagedProviderChange, next_port_candidate, provider_change_block, provider_is_local,
    provider_name_for_count,
};
use moose::presentation::settings::{
    model_choices, parse_i64, profile_choices, parse_optional_i64, parse_optional_non_negative_i64,
    shortcut_button_label,
};
use moose::presentation::reply::{check_send, ReplyEnd, ReplyProgress, SendCheck};
use moose::presentation::titles::{numbered_conversation_title, titles_except};
use moose::providers::{Provider, ProviderKind};

fn message(role: MessageRole, status: MessageStatus, content: &str) -> Message {
    Message {
        id: "message-id".to_string(),
        conversation_id: "conversation-id".to_string(),
        role,
        content: content.to_string(),
        status,
        token_count: None,
        created_at: "2024-05-01T10:00:00Z".to_string(),
        completed_at: None,
    }
}

fn conversation(id: &str, title: &str) -> Conversation {
    Conversation {
        id: id.to_string(),
        provider_id: "provider-id".to_string(),
        model_id: None,
        title: title.to_string(),
        created_at: "2024-05-01T10:00:00Z".to_string(),
        updated_at: "2024-05-01T10:00:00Z".to_string(),
        archived_at: None,
    }
}

fn provider(base_url: &str, is_managed: bool) -> Provider {
    Provider {
        id: "provider-id".to_string(),
        kind: ProviderKind::Ollama,
        name: "Local Ollama".to_string(),
        base_url: base_url.to_string(),
        is_managed,
        is_default: true,
        created_at: "2024-05-01T10:00:00Z".to_string(),
        updated_at: "2024-05-01T10:00:00Z".to_string(),
    }
}

fn model(name: &str, family: Option<&str>) -> OllamaModel {
    OllamaModel {
        name: name.to_string(),
        digest: None,
        size_bytes: None,
        family: family.map(str::to_string),
        families: Vec::new(),
        parameter_size: None,
        quantization_level: None,
        modified_at: None,
        supports_chat: true,
    }
}

fn job(status: DownloadJobStatus, completed: Option<i64>, total: Option<i64>) -> DownloadJob {
    DownloadJob {
        id: "job-id".to_string(),
        provider_id: "provider-id".to_string(),
        model_name: "llama3.2:1b".to_string(),
        status,
        total_bytes: total,
        completed_bytes: completed,
        error_message: None,
        created_at: "2024-05-01T10:00:00Z".to_string(),
        updated_at: "2024-05-01T10:11:12.345Z".to_string(),
    }
}

// ---------------------------------------------------------------------------
// Chat text.

#[test]
fn thinking_status_names_the_model() {
    assert_eq!(thinking_status("llama3.2"), "llama3.2 is thinking...");
}

#[test]
fn thinking_lines_take_turns() {
    assert_eq!(next_thinking_step(0), 1);
    assert_eq!(next_thinking_step(1), 2);
    assert_eq!(next_thinking_step(2), 0);
    assert_eq!(thinking_text("qwen3", 0), "qwen3 is thinking...");
    assert_eq!(thinking_text("qwen3", 1), "Reading your message...");
    assert_eq!(thinking_text("qwen3", 2), "Drafting response...");
}

#[test]
fn message_header_shows_time_when_known() {
    assert_eq!(message_header_label("You", Some("January 5, 3:07 PM")), "You - January 5, 3:07 PM");
    assert_eq!(message_header_label("You", Some("")), "You");
    assert_eq!(message_header_label("Assistant", None), "Assistant");
}

#[test]
fn message_datetime_uses_twelve_hour_clock() {
    assert_eq!(format_message_datetime(1, 5, 15, 7), "January 5, 3:07 PM");
    assert_eq!(format_message_datetime(12, 31, 0, 45), "December 31, 12:45 AM");
    assert_eq!(format_message_datetime(6, 1, 12, 0), "June 1, 12:00 PM");
    assert_eq!(month_name(13), "");
}

#[test]
fn role_labels_match_the_window() {
    assert_eq!(message_role_label(&MessageRole::User), "You");
    assert_eq!(message_role_label(&MessageRole::Assistant), "Assistant");
    assert_eq!(message_role_label(&MessageRole::System), "System");
    assert_eq!(message_role_label(&MessageRole::Tool), "Tool");
}

#[test]
fn stored_message_content_shows_end_states() {
    let streaming = message(MessageRole::Assistant, MessageStatus::Streaming, "  ");
    assert_eq!(stored_message_content(&streaming), "Generating response...");
    let partial = message(MessageRole::Assistant, MessageStatus::Streaming, "Hel");
    assert_eq!(stored_message_content(&partial), "Hel");
    let cancelled = message(MessageRole::Assistant, MessageStatus::Cancelled, "Half");
    assert_eq!(stored_message_content(&cancelled), "Half\n\nGeneration cancelled");
    let failed = message(MessageRole::Assistant, MessageStatus::Failed, "");
    assert_eq!(stored_message_content(&failed), "Generation failed");
    let complete = message(MessageRole::Assistant, MessageStatus::Complete, "Done");
    assert_eq!(stored_message_content(&complete), "Done");
    assert_eq!(message_content_with_live_state("Text", "Stopped"), "Text\n\nStopped");
}

#[test]
fn long_titles_are_truncated_to_thirty_characters() {
    let long = "An extremely long conversation title here";
    let truncated = truncate_title(long);
    assert_eq!(truncated, "An extremely long conversat...");
    assert_eq!(truncated.chars().count(), 30);
    assert_eq!(truncate_title("Short"), "Short");
}

#[test]
fn generated_titles_collapse_whitespace() {
    assert_eq!(generated_title("  Rust   lifetimes\nexplained ").unwrap(), "Rust lifetimes explained");
    assert_eq!(generated_title(" \n\t "), Err(MooseError::InvalidConversationTitle));
    assert_eq!(split_words(" a  b "), vec!["a".to_string(), "b".to_string()]);
}

#[test]
fn title_json_is_cut_from_surrounding_text() {
    assert_eq!(title_json_text("  {\"title\":\"x\"} "), "{\"title\":\"x\"}");
    assert_eq!(title_json_text("Sure! {\"title\":\"x\"} Enjoy"), "{\"title\":\"x\"}");
    assert_eq!(title_json_text("no braces"), "no braces");
    assert!(!title_braces_reversed("}{"));
    assert_eq!(title_json_text("}{"), "");
    assert!(title_braces_reversed("}x{"));
}

// ---------------------------------------------------------------------------
// Code blocks.

#[test]
fn code_language_prefers_fence_info() {
    assert_eq!(code_language("Rust,ignore extra", "print(1)"), "rust,ignore");
    assert_eq!(code_language("{.python}", ""), "python");
    assert_eq!(code_language("", "  {\"a\": 1}"), "json");
    assert_eq!(code_language("", "plain words"), "");
}

#[test]
fn inferred_languages_follow_the_code() {
    assert_eq!(inferred_code_language("SELECT * FROM t"), Some("sql"));
    assert_eq!(inferred_code_language("<!doctype html><p>"), Some("html"));
    assert_eq!(inferred_code_language("#!/bin/bash\necho hi"), Some("bash"));
    assert_eq!(inferred_code_language("import { a } from 'b'"), Some("javascript"));
    assert_eq!(inferred_code_language("import os"), Some("python"));
    assert_eq!(inferred_code_language("fn main() {}"), Some("rust"));
    assert_eq!(inferred_code_language("hello"), None);
}

#[test]
fn language_labels_use_known_names() {
    assert_eq!(language_label_text(""), "Text");
    assert_eq!(language_label_text("cpp"), "C++");
    assert_eq!(language_label_text("ts"), "TypeScript");
    assert_eq!(language_label_text("c"), "C");
    assert_eq!(language_label_text("my-lang_x"), "My Lang X");
    assert_eq!(language_label_text("über"), "Über");
    assert_eq!(title_word("word"), "Word");
    assert_eq!(title_word(""), "");
}

#[test]
fn language_candidates_and_extensions() {
    assert_eq!(known_language_of("golang"), Some(KnownLanguage::Go));
    assert_eq!(language_candidates("py"), vec!["python3", "python"]);
    assert!(language_candidates("brainfuck").is_empty());
    assert_eq!(language_extension("yml"), Some("yaml"));
    assert_eq!(language_extension("c"), Some("c"));
    assert_eq!(language_extension("text"), None);
}

#[test]
fn code_heights_grow_with_lines() {
    assert_eq!(code_line_count(""), 1);
    assert_eq!(code_line_count("a\nb"), 2);
    assert_eq!(code_line_count("a\n"), 2);
    assert_eq!(code_height("", CodeHeightMode::Stable), 58);
    let twenty = "x\n".repeat(19) + "x";
    assert_eq!(code_line_count(&twenty), 20);
    assert_eq!(code_height(&twenty, CodeHeightMode::Stable), 18 * 21 + 24);
    assert_eq!(code_height(&twenty, CodeHeightMode::Live), 20 * 21 + 24);
}

// ---------------------------------------------------------------------------
// Streaming markdown.

#[test]
fn live_segments_split_text_and_code() {
    let segments = live_segments("Intro\n```rust\nfn main() {}\n```\nAfter");
    assert_eq!(segments.len(), 3);
    assert_eq!(segments[0].kind, LiveSegmentKind::Text);
    assert_eq!(segments[0].content, "Intro\n");
    assert_eq!(segments[1].kind, LiveSegmentKind::Code);
    assert_eq!(segments[1].content, "fn main() {}\n");
    assert_eq!(segments[1].language, "rust");
    assert_eq!(segments[2].content, "After");
}

#[test]
fn unclosed_fence_runs_to_the_end() {
    let segments = live_segments("~~~\nSELECT 1\n");
    assert_eq!(segments.len(), 1);
    assert_eq!(segments[0].kind, LiveSegmentKind::Code);
    assert_eq!(segments[0].content, "SELECT 1\n");
    assert_eq!(segments[0].language, "sql");
}

#[test]
fn plain_answer_is_one_segment() {
    let segments = live_segments("Just text\nover lines");
    assert_eq!(segments.len(), 1);
    assert_eq!(segments[0].content, "Just text\nover lines");
    assert!(live_segments("").is_empty());
}

#[test]
fn fences_are_read_exactly() {
    let fence = parse_opening_fence("  ~~~~ python \n").unwrap();
    assert_eq!(fence.marker, '~');
    assert_eq!(fence.length, 4);
    assert_eq!(fence.info, "python");
    assert!(parse_opening_fence("``").is_none());
    assert!(parse_opening_fence("text").is_none());
    assert!(is_closing_fence("```  \n", '`', 3));
    assert!(!is_closing_fence("``\n", '`', 3));
    assert!(!is_closing_fence("``` more\n", '`', 3));
    assert_eq!(split_inclusive_lines("a\nb"), vec!["a\n".to_string(), "b".to_string()]);
}

// ---------------------------------------------------------------------------
// Export.

fn export_data() -> ExportData {
    ExportData {
        conversation: conversation("c1", "Trip plan"),
        provider: provider("http://127.0.0.1:11434/api", false),
        model: None,
        exported_at: "2024-05-02T08:00:00Z".to_string(),
        messages: vec![
            message(MessageRole::User, MessageStatus::Complete, "Where to?"),
            message(MessageRole::Assistant, MessageStatus::Complete, "Lisbon.  \n"),
        ],
    }
}

#[test]
fn markdown_export_has_headings() {
    assert_eq!(
        markdown(&export_data()),
        "# Trip plan\n\nProvider: Local Ollama\nModel: Not set\nExported: 2024-05-02T08:00:00Z\n\n## You\n\nWhere to?\n\n## Assistant\n\nLisbon.\n\n"
    );
}

#[test]
fn text_export_has_plain_headings() {
    let mut data = export_data();
    data.model = Some("llama3.2".to_string());
    assert_eq!(
        text(&data),
        "Trip plan\n\nProvider: Local Ollama\nModel: llama3.2\nExported: 2024-05-02T08:00:00Z\n\nYou\n\nWhere to?\n\nAssistant\n\nLisbon.\n\n"
    );
    assert_eq!(message_heading(&data.messages[0]), "You");
}

#[test]
fn export_filenames_are_safe() {
    assert_eq!(default_filename("Hello, World!", ExportFormat::Markdown), "hello-world.md");
    assert_eq!(default_filename("!!!", ExportFormat::Text), "conversation.txt");
    assert_eq!(default_filename("snake_case Title", ExportFormat::Json), "snake_case-title.json");
    let long = format!("{}-{}", "a".repeat(79), "b".repeat(10));
    assert_eq!(default_filename(&long, ExportFormat::Text), format!("{}.txt", "a".repeat(79)));
    assert_eq!(extension(ExportFormat::Json), "json");
}

// ---------------------------------------------------------------------------
// Model manager.

#[test]
fn installed_models_are_found_by_name() {
    assert!(model_is_installed("llama3.2:1b", &["qwen", "llama3.2:1b"]));
    assert!(!model_is_installed("llama3.2", &["llama3.2:1b"]));
}

#[test]
fn model_subtitles_join_known_details() {
    let mut m = model("llama3.2:1b", Some("llama"));
    m.parameter_size = Some("1.2B".to_string());
    m.quantization_level = Some(String::new());
    m.modified_at = Some("2024-05-01T10:00:00Z".to_string());
    assert_eq!(model_subtitle(&m), "llama - 1.2B - Modified 2024-05-01");
    assert_eq!(model_subtitle(&model("x", None)), "Installed locally");
    assert_eq!(compact_timestamp("2024-05-01"), "2024-05-01");
}

#[test]
fn model_search_ignores_case() {
    let mut m = model("Llama3.2:1B", Some("llama"));
    m.families = vec!["Llama".to_string()];
    assert!(contains_query("Llama3", "llama"));
    assert!(model_matches_query(&m, "1b"));
    assert!(model_matches_query(&m, ""));
    assert!(!model_matches_query(&m, "qwen"));
    assert_eq!(normalize_query("  QWEN "), "qwen");
    let models = vec![model("qwen", None), m, model("other", None)];
    assert_eq!(matching_models(&models, " LLAMA "), vec![1]);
}

#[test]
fn catalog_search_looks_into_variants() {
    let family = ModelFamily {
        id: "llama3.1".to_string(),
        title: "Llama 3.1".to_string(),
        subtitle: "Meta".to_string(),
        description: "General chat".to_string(),
        tags: vec!["chat".to_string()],
        variants: vec![ModelVariant {
            name: "llama3.1:8b".to_string(),
            title: "8B".to_string(),
            description: "Recommended".to_string(),
            tags: vec!["tools".to_string()],
        }],
    };
    assert!(model_family_matches_query(&family, "tools"));
    assert!(model_family_matches_query(&family, "meta"));
    assert!(!model_family_matches_query(&family, "vision"));
}

#[test]
fn download_history_texts() {
    assert_eq!(download_job_status_text(&DownloadJobStatus::Cancelled), "Cancelled");
    assert_eq!(optional_i64_to_u64(Some(-1)), None);
    assert_eq!(optional_i64_to_u64(Some(5)), Some(5));
    assert_eq!(
        download_job_progress(&job(DownloadJobStatus::Running, Some(50), Some(200))),
        DownloadProgress::Of { completed: 50, total: 200 }
    );
    assert_eq!(
        download_job_progress(&job(DownloadJobStatus::Running, Some(50), Some(0))),
        DownloadProgress::Downloaded { completed: 50 }
    );
    assert_eq!(
        download_job_progress(&job(DownloadJobStatus::Queued, None, Some(10))),
        DownloadProgress::Total { total: 10 }
    );
    assert_eq!(
        download_job_progress(&job(DownloadJobStatus::Queued, Some(-3), None)),
        DownloadProgress::Hidden
    );
    assert_eq!(compact_download_timestamp("2024-05-01T10:11:12.345Z"), "2024-05-01 10:11:12");
    assert_eq!(compact_download_timestamp("2024-05-01T10:11:12Z"), "2024-05-01 10:11:12Z");
    let mut failed = job(DownloadJobStatus::Failed, None, None);
    failed.error_message = Some("network down".to_string());
    assert_eq!(
        download_job_subtitle(&failed, Some("1 KB downloaded".to_string())),
        "1 KB downloaded\nUpdated 2024-05-01 10:11:12\nnetwork down"
    );
    assert_eq!(
        download_job_subtitle(&job(DownloadJobStatus::Complete, None, None), None),
        "Updated 2024-05-01 10:11:12"
    );
}

// ---------------------------------------------------------------------------
// Titles, settings, providers and the sidebar.

#[test]
fn taken_titles_get_numbers() {
    let existing = vec!["Chat".to_string(), "Chat 2".to_string()];
    assert_eq!(numbered_conversation_title(&existing, "Chat"), "Chat 3");
    assert_eq!(numbered_conversation_title(&existing, "New"), "New");
    let long = "abcdefghijklmnopqrstuvwxyz0123";
    let taken = vec![long.to_string()];
    assert_eq!(numbered_conversation_title(&taken, long), "abcdefghijklmnopqrstuvwxyz01 2");
    let conversations = vec![conversation("a", "First"), conversation("b", "Second")];
    assert_eq!(titles_except(&conversations, "a"), vec!["Second".to_string()]);
}

#[test]
fn whole_numbers_parse_like_std() {
    assert_eq!(parse_i64("42"), Some(42));
    assert_eq!(parse_i64("+7"), Some(7));
    assert_eq!(parse_i64("-9223372036854775808"), Some(i64::MIN));
    assert_eq!(parse_i64("9223372036854775807"), Some(i64::MAX));
    assert_eq!(parse_i64("9223372036854775808"), None);
    assert_eq!(parse_i64("-"), None);
    assert_eq!(parse_i64(""), None);
    assert_eq!(parse_i64("1a"), None);
    for n in [0i64, 7, -12, 4096, i64::MAX, i64::MIN] {
        assert_eq!(parse_i64(&n.to_string()), Some(n));
    }
}

#[test]
fn optional_number_fields() {
    assert_eq!(parse_optional_i64("  ", "Seed"), Ok(None));
    assert_eq!(parse_optional_i64(" 12 ", "Seed"), Ok(Some(12)));
    assert_eq!(parse_optional_i64("x", "Seed"), Err("Seed must be a whole number".to_string()));
    assert_eq!(
        parse_optional_non_negative_i64("-1", "Top K"),
        Err("Top K must be 0 or greater".to_string())
    );
    assert_eq!(parse_optional_non_negative_i64("0", "Top K"), Ok(Some(0)));
    assert_eq!(shortcut_button_label("  "), "Disabled");
    assert_eq!(shortcut_button_label("Ctrl+N"), "Ctrl+N");
}

#[test]
fn model_choices_mark_missing_preference() {
    let names = vec!["a".to_string(), "b".to_string()];
    let (labels, values, selected) = model_choices(&names, Some("b"));
    assert_eq!(labels, vec!["Use Selected Model", "a", "b"]);
    assert_eq!(values, vec![None, Some("a".to_string()), Some("b".to_string())]);
    assert_eq!(selected, 2);
    let (labels, values, selected) = model_choices(&names, Some("z"));
    assert_eq!(labels[3], "z (Unavailable)");
    assert_eq!(values[3], Some("z".to_string()));
    assert_eq!(selected, 3);
    let (_, _, selected) = model_choices(&names, None);
    assert_eq!(selected, 0);
}

#[test]
fn profile_choices_select_by_id() {
    let profiles = vec![
        ("p1".to_string(), "Careful".to_string()),
        ("p2".to_string(), "Creative".to_string()),
    ];
    let (labels, selected) = profile_choices(&profiles, Some("p2"));
    assert_eq!(labels, vec!["No Profile", "Careful", "Creative"]);
    assert_eq!(selected, 2);
    let (_, selected) = profile_choices(&profiles, Some("gone"));
    assert_eq!(selected, 0);
    let (labels, selected) = profile_choices(&[], None);
    assert_eq!(labels, vec!["No Profile"]);
    assert_eq!(selected, 0);
}

#[test]
fn local_providers_are_recognised() {
    assert!(provider_is_local(&provider("http://example.com", true)));
    assert!(provider_is_local(&provider("http://localhost:11434/api", false)));
    assert!(provider_is_local(&provider("http://[::1]:11434/api", false)));
    assert!(provider_is_local(&provider("http://127.0.0.1:11434/api", false)));
    assert!(!provider_is_local(&provider("http://192.168.1.20:11434/api", false)));
    assert!(!provider_is_local(&provider("not a url", false)));
}

#[test]
fn new_provider_names_and_ports() {
    assert_eq!(provider_name_for_count(Some(2)), "Ollama Provider 3");
    assert_eq!(provider_name_for_count(None), "Ollama Provider");
    assert_eq!(managed_provider_name(0), "Managed Ollama");
    assert_eq!(managed_provider_name(1), "Managed Ollama 2");
    let providers = vec![
        provider("http://127.0.0.1:11435/api", true),
        provider("http://127.0.0.1:11434/api", false),
    ];
    assert_eq!(managed_provider_count(&providers), 1);
    assert_eq!(next_port_candidate(&[11435, 11436], 11435), 11437);
    assert_eq!(next_port_candidate(&[11436], 11435), 11435);
    assert_eq!(next_port_candidate(&[65535], 65535), 65535);
    let mut embed = model("nomic", Some("bert"));
    embed.supports_chat = false;
    assert_eq!(chat_model_names(&[model("a", None), embed]), vec!["a".to_string()]);
}

#[test]
fn sidebar_groups_conversations() {
    let entries = conversation_list_entries(&[(false, true), (false, false), (false, false), (true, false)]);
    assert_eq!(
        entries,
        vec![
            ListEntry::Heading(ListHeading::Pinned),
            ListEntry::Row(0),
            ListEntry::Heading(ListHeading::Recent),
            ListEntry::Row(1),
            ListEntry::Row(2),
            ListEntry::Heading(ListHeading::Archived),
            ListEntry::Row(3),
        ]
    );
    assert_eq!(empty_list_label(""), "No conversations yet");
    assert_eq!(empty_list_label("x"), "No matching conversations");
}

#[test]
fn summaries_preview_the_latest_message() {
    let summary = ConversationSummary::from_latest_message(
        conversation("c1", "First prompt"),
        Some(message(MessageRole::User, MessageStatus::Complete, "Hello\nfrom Moose")),
    );
    assert_eq!(summary.preview, "Hello from Moose");
    assert_eq!(summary.last_message_status, Some(MessageStatus::Complete));
    let failed = ConversationSummary::from_latest_message(
        conversation("c2", "Generation"),
        Some(message(MessageRole::Assistant, MessageStatus::Failed, "")),
    );
    assert_eq!(failed.preview, "Generation failed");
    assert_eq!(failed.last_message_status, Some(MessageStatus::Failed));
    let empty = ConversationSummary::from_latest_message(conversation("c3", "New"), None);
    assert_eq!(empty.preview, "");
    assert_eq!(empty.last_message_status, None);
}

#[test]
fn managed_install_fields_are_checked() {
    assert_eq!(managed_port_from_text(" 11435 "), Ok(11435));
    assert_eq!(managed_port_from_text("+2048"), Ok(2048));
    let hint = "Use a port from 1024 to 65535 except 11434".to_string();
    assert_eq!(managed_port_from_text("11434"), Err(hint.clone()));
    assert_eq!(managed_port_from_text("80"), Err(hint.clone()));
    assert_eq!(managed_port_from_text("65536"), Err(hint.clone()));
    assert_eq!(managed_port_from_text("-0"), Err(hint.clone()));
    assert_eq!(managed_port_from_text("port"), Err(hint));
    assert_eq!(managed_provider_name_from_text("  Home  "), Ok("Home".to_string()));
    assert_eq!(managed_provider_name_from_text("   "), Err("Enter a provider name".to_string()));
}

#[test]
fn provider_changes_wait_for_running_work() {
    assert_eq!(provider_change_block(false, false, false), None);
    assert_eq!(
        provider_change_block(true, true, true),
        Some("Finish the active generation first".to_string())
    );
    assert_eq!(
        provider_change_block(false, true, true),
        Some("Finish the active model download first".to_string())
    );
    assert_eq!(
        provider_change_block(false, false, true),
        Some("Finish the active model deletion first".to_string())
    );
}

#[test]
fn model_picker_keeps_the_remembered_model() {
    let names = vec!["llama3.2:1b".to_string(), "qwen3:4b".to_string()];
    assert_eq!(model_picker_choices(&names, Some("qwen3:4b")), (names.clone(), 1, true));
    assert_eq!(model_picker_choices(&names, Some("gone")), (names.clone(), 0, true));
    assert_eq!(model_picker_choices(&names, None), (names, 0, true));
    assert_eq!(
        model_picker_choices(&[], Some("qwen3:4b")),
        (vec!["No model selected".to_string()], 0, false)
    );
}

#[test]
fn prompts_are_sent_only_when_nothing_else_runs() {
    assert!(matches!(check_send("  \n", true, true, true, false), SendCheck::Blank));
    assert!(matches!(check_send(" hi ", false, false, false, true), SendCheck::Ready(p) if p == "hi"));
    assert!(matches!(check_send("hi", true, true, false, false),
        SendCheck::Refused(m) if m == "Generation is already running"));
    assert!(matches!(check_send("hi", false, true, true, false),
        SendCheck::Refused(m) if m == "Finish the active model download first"));
    assert!(matches!(check_send("hi", false, false, true, false),
        SendCheck::Refused(m) if m == "Finish the active model deletion first"));
    assert!(matches!(check_send("hi", false, false, false, false),
        SendCheck::Refused(m) if m == "Select an installed model first"));
}

#[test]
fn replies_keep_every_token() {
    let mut reply = ReplyProgress::new();
    reply.push_token("Hel");
    reply.push_token("lo");
    assert_eq!(reply.content(), "Hello");
    let done = reply.finish("m1", ReplyEnd::Done);
    assert_eq!(done.shown, "Hello");
    assert_eq!(done.update.id, "m1");
    assert_eq!(done.update.content, "Hello");
    assert_eq!(done.update.status, MessageStatus::Complete);
}

#[test]
fn replies_end_with_their_state() {
    let empty = ReplyProgress::new().finish("m", ReplyEnd::Done);
    assert_eq!(empty.shown, "No response generated.");
    assert_eq!(empty.update.content, "No response generated.");

    let mut reply = ReplyProgress::new();
    reply.push_token("Partial");
    let failed = reply.finish("m", ReplyEnd::Failed);
    assert_eq!(failed.shown, "Partial\n\nResponse failed.");
    assert_eq!(failed.update.content, "Partial");
    assert_eq!(failed.update.status, MessageStatus::Failed);

    let stopped = ReplyProgress::new().finish("m", ReplyEnd::Cancelled);
    assert_eq!(stopped.shown, "Response cancelled.");
    assert_eq!(stopped.update.content, "");
    assert_eq!(stopped.update.status, MessageStatus::Cancelled);
}

#[test]
fn preference_ports_are_checked() {
    assert_eq!(managed_port_from_setting(" 11435 "), Ok(11435));
    assert_eq!(managed_port_from_setting("11434"), Err(MooseError::ManagedOllamaInvalidPort(11434)));
    assert_eq!(managed_port_from_setting("80"), Err(MooseError::ManagedOllamaInvalidPort(80)));
    assert_eq!(managed_port_from_setting("70000"), Err(MooseError::ManagedOllamaInvalidPort(0)));
    assert_eq!(managed_port_from_setting("port"), Err(MooseError::ManagedOllamaInvalidPort(0)));
}

#[test]
fn managed_providers_are_reused_by_address() {
    let mut existing = provider("http://127.0.0.1:11435/api", true);
    existing.id = "managed-1".to_string();
    let providers = vec![provider("http://127.0.0.1:11435/api", false), existing];
    match managed_provider_change(&providers, "Home", 11435).unwrap() {
        ManagedProviderChange::Update(update) => {
            assert_eq!(update.id, "managed-1");
            assert_eq!(update.name, "Home");
            assert_eq!(update.base_url, "http://127.0.0.1:11435/api");
            assert!(update.is_default);
        }
        ManagedProviderChange::Create(_) => panic!("expected the managed provider to be reused"),
    }
    match managed_provider_change(&providers, "Second", 11436).unwrap() {
        ManagedProviderChange::Create(new) => {
            assert_eq!(new.name, "Second");
            assert_eq!(new.base_url, "http://127.0.0.1:11436/api");
            assert!(new.is_managed && new.is_default);
        }
        ManagedProviderChange::Update(_) => panic!("expected a new managed provider"),
    }
    assert!(matches!(
        managed_provider_change(&providers, "Bad", 11434),
        Err(MooseError::ManagedOllamaInvalidPort(11434))
    ));
}

#[test]
fn list_markers_count_from_the_start() {
    assert_eq!(list_marker_text(true, 0, 0), "1.");
    assert_eq!(list_marker_text(true, 0, 2), "3.");
    assert_eq!(list_marker_text(true, 7, 1), "8.");
    assert_eq!(list_marker_text(false, 7, 1), "-");
}

#[test]
fn failed_reply_without_text_is_stored_and_previewed() {
    let update = ReplyProgress::new().finish("m1", ReplyEnd::Failed);
    assert_eq!(update.update.content, "");
    assert_eq!(
        moose::conversations::validate_message_content(&update.update.content, &update.update.status),
        Ok(String::new())
    );
    let summary = ConversationSummary::from_latest_message(
        conversation("c1", "Generation"),
        Some(message(MessageRole::Assistant, MessageStatus::Failed, "")),
    );
    assert_eq!(summary.preview, "Generation failed");
    assert_eq!(summary.last_message_status, Some(MessageStatus::Failed));
}
