use moose::chat::ChatStreamEvent;
use moose::ollama::{
    chat_event_from_line, error_message_from_body, models_from_tags, pull_progress_from_line,
    ChatLine, OllamaModel, OllamaPullProgress, PullLine, TagModel, TagModelDetails,
};
use moose::providers::validate_base_url;
use serde_json::Value;

fn text(value: &Value) -> Option<String> {
    value.as_str().map(str::to_string)
}

fn texts(value: &Value) -> Option<Vec<String>> {
    value
        .as_array()
        .map(|items| items.iter().filter_map(text).collect())
}

/// Reads an `/api/tags` answer into the library's tag records.
fn models(json: &str) -> Vec<OllamaModel> {
    let value: Value = serde_json::from_str(json).unwrap();
    let tags = value["models"]
        .as_array()
        .unwrap()
        .iter()
        .map(|model| TagModel {
            name: text(&model["name"]).unwrap(),
            modified_at: text(&model["modified_at"]),
            size: model["size"].as_u64(),
            digest: text(&model["digest"]),
            details: model.get("details").map(|details| TagModelDetails {
                family: text(&details["family"]),
                families: texts(&details["families"]),
                parameter_size: text(&details["parameter_size"]),
                quantization_level: text(&details["quantization_level"]),
            }),
        })
        .collect();
    models_from_tags(tags)
}

fn chat_event(json: &str) -> Option<ChatStreamEvent> {
    let value: Value = serde_json::from_str(json).unwrap();
    chat_event_from_line(ChatLine {
        message_content: text(&value["message"]["content"]),
        done: value["done"].as_bool().unwrap(),
    })
}

fn pull_progress(json: &str) -> OllamaPullProgress {
    let value: Value = serde_json::from_str(json).unwrap();
    pull_progress_from_line(PullLine {
        status: text(&value["status"]).unwrap(),
        digest: text(&value["digest"]),
        total: value["total"].as_u64(),
        completed: value["completed"].as_u64(),
    })
    .unwrap()
}

#[test]
fn ollama_client_rejects_invalid_urls() {
    assert!(validate_base_url("file:///tmp/ollama").is_err());
}

#[test]
fn parse_models_reads_tags_response() {
    let models = models(
        r#"{
            "models": [
                {
                    "name": "llama3.2:latest",
                    "modified_at": "2026-05-11T12:00:00Z",
                    "size": 2019393189,
                    "digest": "sha256:abc",
                    "details": {
                        "family": "llama",
                        "families": ["llama"],
                        "parameter_size": "3.2B",
                        "quantization_level": "Q4_K_M"
                    }
                }
            ]
        }"#,
    );

    assert_eq!(models.len(), 1);
    assert_eq!(models[0].name, "llama3.2:latest");
    assert_eq!(models[0].size_bytes, Some(2019393189));
    assert_eq!(models[0].family.as_deref(), Some("llama"));
    assert!(models[0].supports_chat);
}

#[test]
fn parse_models_marks_embedding_models_as_not_chat_capable() {
    let models = models(
        r#"{
            "models": [
                {
                    "name": "all-minilm:latest",
                    "size": 45960996,
                    "details": {
                        "family": "bert",
                        "families": ["bert"],
                        "parameter_size": "23M",
                        "quantization_level": "F16"
                    }
                }
            ]
        }"#,
    );

    assert!(!models[0].supports_chat);
}

#[test]
fn parse_chat_stream_reads_tokens_and_done() {
    let token = chat_event(r#"{"message":{"role":"assistant","content":"Hello"},"done":false}"#);
    let done = chat_event(r#"{"done":true}"#);

    assert_eq!(token, Some(ChatStreamEvent::Token("Hello".to_string())));
    assert_eq!(done, Some(ChatStreamEvent::Done));
}

#[test]
fn parse_error_body_reads_ollama_error() {
    let body = r#"{"error":"model does not support chat"}"#;
    let value: Value = serde_json::from_str(body).unwrap();
    let message = error_message_from_body(text(&value["error"]), body).unwrap();

    assert_eq!(message, "model does not support chat");
}

#[test]
fn parse_pull_stream_reads_progress() {
    let progress = pull_progress(r#"{"status":"downloading","digest":"sha256:abc","total":200,"completed":50}"#);

    assert_eq!(progress.status, "downloading");
    assert_eq!(progress.digest.as_deref(), Some("sha256:abc"));
    assert_eq!(progress.total_bytes, Some(200));
    assert_eq!(progress.completed_bytes, Some(50));
    assert!(!progress.done);
}

#[test]
fn parse_pull_stream_marks_success_done() {
    let progress = pull_progress(r#"{"status":"success"}"#);

    assert_eq!(progress.status, "success");
    assert!(progress.done);
}
