use moose::presentation::model_jobs::{
    model_load_view, model_loading_status, pull_refusal_text, pull_step, refresh_refusal, ModelLoadOutcome,
    PullEvent, PullJobChange,
};

#[test]
fn downloads_start_only_when_nothing_else_runs() {
    assert_eq!(pull_refusal_text(false, false, false), None);
    assert_eq!(pull_refusal_text(true, true, true), Some("Finish the active generation first".to_string()));
    assert_eq!(pull_refusal_text(false, true, true), Some("A model download is already running".to_string()));
    assert_eq!(pull_refusal_text(false, false, true), Some("Finish the active model deletion first".to_string()));
}

#[test]
fn download_progress_is_recorded_and_shown() {
    let step = pull_step(
        "qwen3:4b",
        PullEvent::Progress { status: "pulling manifest".to_string(), total: Some(200), completed: Some(50) },
    );
    assert!(matches!(step.job, PullJobChange::Progress { total: Some(200), completed: Some(50) }));
    assert_eq!(step.title, "Downloading qwen3:4b");
    assert_eq!(step.text, "pulling manifest");
    assert_eq!(step.measured, Some((50, 200)));
    assert!(!step.ended && !step.refresh);
    assert_eq!(step.toast, None);
    let waiting = pull_step(
        "qwen3:4b",
        PullEvent::Progress { status: "pulling".to_string(), total: Some(0), completed: Some(5) },
    );
    assert_eq!(waiting.measured, None);
}

#[test]
fn download_endings_complete_or_fail_the_job() {
    let done = pull_step("qwen3:4b", PullEvent::Done);
    assert!(matches!(done.job, PullJobChange::Complete));
    assert_eq!(done.title, "Download Complete");
    assert_eq!(done.text, "qwen3:4b is ready to use.");
    assert!(done.ended && done.succeeded && done.refresh);
    assert_eq!(done.toast, Some("Model download complete".to_string()));

    let failed = pull_step("qwen3:4b", PullEvent::Failed("disk full".to_string()));
    assert!(matches!(&failed.job, PullJobChange::Fail(m) if m == "disk full"));
    assert_eq!(failed.title, "Download Failed");
    assert_eq!(failed.text, "disk full");
    assert!(failed.ended && !failed.succeeded && !failed.refresh);
    assert_eq!(failed.toast, Some("Model download failed: disk full".to_string()));

    let stopped = pull_step("qwen3:4b", PullEvent::Stopped);
    assert!(matches!(&stopped.job, PullJobChange::Fail(m) if m == "Download stopped before completion."));
    assert_eq!(stopped.title, "Download Stopped");
    assert_eq!(stopped.text, "The model download stopped before completion.");
    assert!(stopped.ended && !stopped.succeeded);
    assert_eq!(stopped.toast, None);
}

#[test]
fn model_refresh_reports_each_outcome() {
    assert_eq!(refresh_refusal(true, true), Some("Finish the active model download first".to_string()));
    assert_eq!(refresh_refusal(false, true), Some("Finish the active model deletion first".to_string()));
    assert_eq!(refresh_refusal(false, false), None);
    assert_eq!(model_loading_status(true), "Starting");
    assert_eq!(model_loading_status(false), "Checking");

    let ready = model_load_view(true, ModelLoadOutcome::Loaded { available: true, status: "Ollama 0.5.1".to_string() });
    assert_eq!(ready.status, "Ready");
    assert_eq!(ready.unavailable, None);
    assert_eq!(ready.toast, None);
    let connected = model_load_view(false, ModelLoadOutcome::Loaded { available: true, status: "x".to_string() });
    assert_eq!(connected.status, "Connected");

    let down = model_load_view(false, ModelLoadOutcome::Loaded { available: false, status: "refused".to_string() });
    assert_eq!(down.status, "Disconnected");
    assert_eq!(
        down.unavailable,
        Some(("Ollama Unavailable".to_string(), "The active provider did not respond.".to_string()))
    );
    assert_eq!(down.toast, Some("Ollama unavailable: refused".to_string()));
    let managed_down = model_load_view(true, ModelLoadOutcome::Loaded { available: false, status: "refused".to_string() });
    assert_eq!(managed_down.toast, None);

    let failed = model_load_view(true, ModelLoadOutcome::Failed("bad json".to_string()));
    assert_eq!(failed.status, "Error");
    assert_eq!(failed.toast, Some("Model list failed: bad json".to_string()));
    assert_eq!(failed.unavailable.unwrap().0, "Models Could Not Load");

    let stopped = model_load_view(false, ModelLoadOutcome::Stopped);
    assert_eq!(stopped.status, "Disconnected");
    assert_eq!(
        stopped.unavailable,
        Some(("Ollama Disconnected".to_string(), "The model refresh stopped before a response was received.".to_string()))
    );
}
