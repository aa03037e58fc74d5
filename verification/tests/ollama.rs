use moose::chat::ChatStreamEvent;
use moose::error::MooseError;
use moose::ollama::lines::LineBuffer;
use moose::ollama::manager::{
    archive_download_file_name, hex_digest, is_sha256_hex, safe_relative_path, verify_download,
    ManagedOllamaArchitecture, ManagedOllamaAsset, ManagedOllamaManifest,
};
use moose::ollama::service::{
    managed_ollama_base_url, managed_ollama_host, next_ready_backoff_ms, ready_sleep_ms, ready_step,
    recent_log_excerpt, startup_exit_message, validate_managed_ollama_port, ReadyAction, ReadyEvent,
};
use moose::ollama::{
    chat_event_from_line, endpoint_path, error_message_from_body, model_from_tag,
    models_from_tags, pull_progress_from_line, supports_chat, ChatLine, OllamaHealth,
    OllamaVersion, PullLine, TagModel, TagModelDetails,
};

const DIGEST: &str = "0123456789abcdef0123456789abcdef0123456789abcdef0123456789abcdef";

fn asset(url: &str) -> ManagedOllamaAsset {
    ManagedOllamaAsset { url: url.to_string(), sha256: DIGEST.to_string(), size_bytes: Some(10) }
}

#[test]
fn chat_lines_give_tokens_and_done() {
    let token = chat_event_from_line(ChatLine { message_content: Some("Hello".to_string()), done: false });
    assert_eq!(token, Some(ChatStreamEvent::Token("Hello".to_string())));
    let done = chat_event_from_line(ChatLine { message_content: None, done: true });
    assert_eq!(done, Some(ChatStreamEvent::Done));
    assert_eq!(chat_event_from_line(ChatLine { message_content: None, done: false }), None);
}

#[test]
fn pull_lines_give_progress() {
    let progress = pull_progress_from_line(PullLine {
        status: " downloading ".to_string(),
        digest: Some("sha256:abc".to_string()),
        total: Some(200),
        completed: Some(50),
    })
    .unwrap();
    assert_eq!(progress.status, "downloading");
    assert_eq!(progress.digest.as_deref(), Some("sha256:abc"));
    assert_eq!(progress.total_bytes, Some(200));
    assert_eq!(progress.completed_bytes, Some(50));
    assert!(!progress.done);
    let success = pull_progress_from_line(PullLine { status: "success".to_string(), digest: None, total: None, completed: None }).unwrap();
    assert!(success.done);
    let missing = pull_progress_from_line(PullLine { status: "  ".to_string(), digest: None, total: None, completed: Some(50) });
    assert_eq!(missing.unwrap_err(), MooseError::InvalidOllamaResponse("missing pull status".to_string()));
}

#[test]
fn error_bodies_give_messages() {
    assert_eq!(error_message_from_body(Some("model does not support chat".to_string()), "{}"), Some("model does not support chat".to_string()));
    assert_eq!(error_message_from_body(None, "  plain failure \n"), Some("plain failure".to_string()));
    assert_eq!(error_message_from_body(None, "   "), None);
}

#[test]
fn embedding_models_cannot_chat() {
    assert!(!supports_chat(&Some("bert".to_string()), &[]));
    assert!(!supports_chat(&None, &["llama".to_string(), "clip".to_string()]));
    assert!(supports_chat(&Some("llama".to_string()), &["llama".to_string()]));
}

#[test]
fn tags_become_models() {
    let tag = TagModel {
        name: "llama3.2:latest".to_string(),
        modified_at: Some("2024-05-01T10:00:00Z".to_string()),
        size: Some(2019393189),
        digest: Some("abc".to_string()),
        details: Some(TagModelDetails {
            family: Some("llama".to_string()),
            families: Some(vec!["llama".to_string()]),
            parameter_size: Some("3.2B".to_string()),
            quantization_level: Some("Q4_K_M".to_string()),
        }),
    };
    let model = model_from_tag(tag.clone());
    assert_eq!(model.name, "llama3.2:latest");
    assert_eq!(model.size_bytes, Some(2019393189));
    assert_eq!(model.family.as_deref(), Some("llama"));
    assert_eq!(model.families, vec!["llama".to_string()]);
    assert!(model.supports_chat);
    let embed = TagModel {
        name: "nomic-embed-text".to_string(),
        modified_at: None,
        size: None,
        digest: None,
        details: Some(TagModelDetails { family: Some("nomic-bert".to_string()), families: Some(vec!["nomic-bert".to_string(), "bert".to_string()]), parameter_size: None, quantization_level: None }),
    };
    let models = models_from_tags(vec![tag, embed]);
    assert_eq!(models.len(), 2);
    assert!(!models[1].supports_chat);
}

#[test]
fn health_reports_version() {
    let health = OllamaHealth::available(OllamaVersion { version: "0.5.1".to_string() });
    assert!(health.available);
    assert_eq!(health.message, "Ollama 0.5.1");
    let down = OllamaHealth::unavailable("refused".to_string());
    assert!(!down.available);
    assert_eq!(down.version, None);
}

#[test]
fn endpoints_join_without_double_slashes() {
    assert_eq!(endpoint_path("/api/", "/chat"), "/api/chat");
    assert_eq!(endpoint_path("/api", "tags"), "/api/tags");
    assert_eq!(endpoint_path("", "version"), "/version");
}

#[test]
fn line_buffer_keeps_partial_lines() {
    let mut buffer = LineBuffer::new();
    let lines = buffer.push_chunk(b"{\"a\":1}\n{\"b\"");
    assert_eq!(lines, vec![b"{\"a\":1}".to_vec()]);
    let lines = buffer.push_chunk(b":2}\n\n");
    assert_eq!(lines, vec![b"{\"b\":2}".to_vec(), Vec::new()]);
    let lines = buffer.push_chunk(b"tail");
    assert!(lines.is_empty());
    assert_eq!(buffer.finish(), b"tail".to_vec());
}

#[test]
fn managed_ports_and_urls() {
    assert_eq!(validate_managed_ollama_port(11435), Ok(11435));
    assert_eq!(validate_managed_ollama_port(11434), Err(MooseError::ManagedOllamaInvalidPort(11434)));
    assert_eq!(validate_managed_ollama_port(80), Err(MooseError::ManagedOllamaInvalidPort(80)));
    assert_eq!(managed_ollama_host(12000).unwrap(), "127.0.0.1:12000");
    assert_eq!(managed_ollama_base_url(12000).unwrap(), "http://127.0.0.1:12000/api");
}

#[test]
fn log_excerpts_keep_the_last_lines() {
    let log = "first\n\n  second  \nthird\n";
    assert_eq!(recent_log_excerpt(log, 2), Some("second | third".to_string()));
    assert_eq!(recent_log_excerpt(log, 10), Some("first | second | third".to_string()));
    assert_eq!(recent_log_excerpt(" \n ", 3), None);
    assert_eq!(startup_exit_message(Some("bind failed")), "process exited before Ollama became ready: bind failed");
    assert_eq!(startup_exit_message(None), "process exited before Ollama became ready");
}

#[test]
fn readiness_backoff_doubles_up_to_a_second() {
    assert_eq!(next_ready_backoff_ms(100), 200);
    assert_eq!(next_ready_backoff_ms(600), 1000);
    assert_eq!(ready_sleep_ms(400, 250), 250);
    assert_eq!(ready_sleep_ms(400, 900), 400);
}

#[test]
fn readiness_round_checks_process_then_version_then_clock() {
    assert_eq!(ready_step(100, ReadyEvent::Child { exited: true }), (100, ReadyAction::Exited));
    assert_eq!(ready_step(100, ReadyEvent::Child { exited: false }), (100, ReadyAction::AskVersion));
    assert_eq!(ready_step(100, ReadyEvent::Version { answered: true }), (100, ReadyAction::Ready));
    assert_eq!(ready_step(100, ReadyEvent::Version { answered: false }), (100, ReadyAction::ReadClock));
    assert_eq!(
        ready_step(100, ReadyEvent::Clock { at_deadline: true, remaining_ms: 0 }),
        (100, ReadyAction::TimedOut)
    );
    assert_eq!(
        ready_step(400, ReadyEvent::Clock { at_deadline: false, remaining_ms: 250 }),
        (400, ReadyAction::Sleep(250))
    );
    assert_eq!(
        ready_step(100, ReadyEvent::Clock { at_deadline: false, remaining_ms: 5000 }),
        (100, ReadyAction::Sleep(100))
    );
    assert_eq!(ready_step(100, ReadyEvent::Slept), (200, ReadyAction::CheckChild));
    assert_eq!(ready_step(800, ReadyEvent::Slept), (1000, ReadyAction::CheckChild));
}

#[test]
fn architectures_read_from_rust_and_manifest_names() {
    assert_eq!(ManagedOllamaArchitecture::from_rust_arch("x86_64"), Ok(ManagedOllamaArchitecture::Amd64));
    assert_eq!(ManagedOllamaArchitecture::from_rust_arch("aarch64"), Ok(ManagedOllamaArchitecture::Arm64));
    assert!(ManagedOllamaArchitecture::from_rust_arch("riscv64").is_err());
    assert_eq!(ManagedOllamaArchitecture::from_manifest_key("arm64"), Ok(ManagedOllamaArchitecture::Arm64));
    assert_eq!(ManagedOllamaArchitecture::Amd64.as_str(), "amd64");
}

#[test]
fn manifest_assets_must_be_official_releases() {
    let good = asset("https://github.com/ollama/ollama/releases/download/v0.5.1/ollama-linux-amd64.tar.zst");
    assert!(good.validate("v0.5.1", ManagedOllamaArchitecture::Amd64).is_ok());
    let wrong_host = asset("https://example.com/ollama/ollama/releases/download/v0.5.1/ollama-linux-amd64.tar.zst");
    assert!(matches!(wrong_host.validate("v0.5.1", ManagedOllamaArchitecture::Amd64), Err(MooseError::ManagedOllamaManifestInvalid(_))));
    let arm = asset("https://github.com/ollama/ollama/releases/download/v0.5.1/ollama-linux-arm64.tar.zst");
    let manifest = ManagedOllamaManifest::new(
        "v0.5.1".to_string(),
        vec![("amd64".to_string(), good.clone()), ("arm64".to_string(), arm.clone())],
    )
    .unwrap();
    assert!(manifest.validate().is_ok());
    assert_eq!(manifest.asset_for_architecture(ManagedOllamaArchitecture::Arm64).unwrap(), &arm);
    let partial =
        ManagedOllamaManifest::new("v0.5.1".to_string(), vec![("amd64".to_string(), good.clone())]).unwrap();
    assert_eq!(
        partial.validate().unwrap_err(),
        MooseError::ManagedOllamaManifestInvalid("missing asset for arm64".to_string())
    );
    assert_eq!(partial.asset_for_architecture(ManagedOllamaArchitecture::Amd64).unwrap(), &good);
    assert_eq!(
        partial.asset_for_architecture(ManagedOllamaArchitecture::Arm64).unwrap_err(),
        MooseError::ManagedOllamaUnsupportedArchitecture("arm64".to_string())
    );
    let floating = ManagedOllamaManifest::new("latest".to_string(), vec![("amd64".to_string(), good.clone())]).unwrap();
    assert!(floating.validate().is_err());
    let copy = manifest.clone();
    assert_eq!(copy, manifest);
    assert_eq!(copy.version(), "v0.5.1");
    assert_eq!(copy.assets().len(), 2);
}

#[test]
fn manifest_keys_are_sorted_and_distinct() {
    let good = asset("https://github.com/ollama/ollama/releases/download/v0.5.1/ollama-linux-amd64.tar.zst");
    let arm = asset("https://github.com/ollama/ollama/releases/download/v0.5.1/ollama-linux-arm64.tar.zst");
    assert!(ManagedOllamaManifest::new(
        "v0.5.1".to_string(),
        vec![("arm64".to_string(), arm.clone()), ("amd64".to_string(), good.clone())],
    )
    .is_none());
    assert!(ManagedOllamaManifest::new(
        "v0.5.1".to_string(),
        vec![("amd64".to_string(), good.clone()), ("amd64".to_string(), good.clone())],
    )
    .is_none());
    assert!(ManagedOllamaManifest::new("v0.5.1".to_string(), vec![]).is_some());
    let bad = ManagedOllamaManifest::new(
        "v0.5.1".to_string(),
        vec![("amd64".to_string(), good), ("riscv".to_string(), arm), ("x86".to_string(), asset("x"))],
    )
    .unwrap();
    assert_eq!(
        bad.validate().unwrap_err(),
        MooseError::ManagedOllamaManifestInvalid("unsupported manifest architecture riscv".to_string())
    );
}

#[test]
fn downloads_are_checked_by_size_and_digest() {
    let a = asset("https://github.com/ollama/ollama/releases/download/v0.5.1/ollama-linux-amd64.tar.zst");
    assert!(verify_download(&a, 10, &DIGEST.to_uppercase()).is_ok());
    assert_eq!(
        verify_download(&a, 9, DIGEST).unwrap_err(),
        MooseError::ManagedOllamaDownloadFailed("expected 10 bytes, downloaded 9 bytes".to_string())
    );
    assert!(matches!(verify_download(&a, 10, "00"), Err(MooseError::ManagedOllamaChecksumMismatch { .. })));
    assert!(is_sha256_hex(DIGEST));
    assert!(!is_sha256_hex("xyz"));
    assert_eq!(hex_digest(&[0x00, 0xab, 0x7f]), "00ab7f");
}

#[test]
fn archive_paths_must_stay_inside() {
    assert_eq!(safe_relative_path("./bin//ollama").unwrap(), "bin/ollama");
    assert!(matches!(safe_relative_path("/etc/passwd"), Err(MooseError::ManagedOllamaExtractionFailed(_))));
    assert!(matches!(safe_relative_path("lib/../../x"), Err(MooseError::ManagedOllamaExtractionFailed(_))));
    assert_eq!(
        safe_relative_path("./").unwrap_err(),
        MooseError::ManagedOllamaExtractionFailed("archive path is empty".to_string())
    );
    assert_eq!(
        archive_download_file_name("v0.5.1", ManagedOllamaArchitecture::Arm64, "id"),
        "ollama-v0.5.1-arm64-id.tar.zst.download"
    );
}

#[test]
fn cleaned_archive_paths_stay_the_same() {
    for raw in ["./bin//ollama", "lib/ollama/./libggml.so", "a/b/c"] {
        let once = safe_relative_path(raw).unwrap();
        assert_eq!(safe_relative_path(&once).unwrap(), once);
    }
}
