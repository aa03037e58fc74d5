//! Downloading and refreshing models: when either may start, and what each
//! outcome does to the download history and to what the window shows.
use vstd::prelude::*;

use crate::text::{push_str, to_owned_string};
use crate::urls::opt_view;

verus! {

// ----------------------------------------------------------------------
// Downloading a model.
// ----------------------------------------------------------------------

/// Why a model download cannot start now: a reply being written, another
/// download, or a model deletion, in that order.
pub open spec fn pull_refusal(generating: bool, pulling: bool, deleting: bool) -> Option<Seq<char>> {
    if generating {
        Some("Finish the active generation first"@)
    } else if pulling {
        Some("A model download is already running"@)
    } else if deleting {
        Some("Finish the active model deletion first"@)
    } else {
        None
    }
}

pub fn pull_refusal_text(generating: bool, pulling: bool, deleting: bool) -> (r: Option<String>)
    ensures
        opt_view(r) == pull_refusal(generating, pulling, deleting),
{
    if generating {
        Some(to_owned_string("Finish the active generation first"))
    } else if pulling {
        Some(to_owned_string("A model download is already running"))
    } else if deleting {
        Some(to_owned_string("Finish the active model deletion first"))
    } else {
        None
    }
}

/// What the download of a model reports.
pub enum PullEvent {
    /// Ollama reports its progress: a status line and byte counts.
    Progress { status: String, total: Option<u64>, completed: Option<u64> },
    /// The model is downloaded.
    Done,
    /// The download failed with this message.
    Failed(String),
    /// The download went away before it finished.
    Stopped,
}

pub enum PullEventView {
    Progress { status: Seq<char>, total: Option<u64>, completed: Option<u64> },
    Done,
    Failed(Seq<char>),
    Stopped,
}

impl View for PullEvent {
    type V = PullEventView;

    open spec fn view(&self) -> PullEventView {
        match self {
            PullEvent::Progress { status, total, completed } => PullEventView::Progress {
                status: status@,
                total: *total,
                completed: *completed,
            },
            PullEvent::Done => PullEventView::Done,
            PullEvent::Failed(m) => PullEventView::Failed(m@),
            PullEvent::Stopped => PullEventView::Stopped,
        }
    }
}

/// What happens to the download's entry in the history.
pub enum PullJobChange {
    /// The byte counts are recorded (each only when known).
    Progress { total: Option<u64>, completed: Option<u64> },
    /// The download is recorded as complete.
    Complete,
    /// The download is recorded as failed with this message.
    Fail(String),
}

pub enum PullJobChangeView {
    Progress { total: Option<u64>, completed: Option<u64> },
    Complete,
    Fail(Seq<char>),
}

impl View for PullJobChange {
    type V = PullJobChangeView;

    open spec fn view(&self) -> PullJobChangeView {
        match self {
            PullJobChange::Progress { total, completed } => PullJobChangeView::Progress {
                total: *total,
                completed: *completed,
            },
            PullJobChange::Complete => PullJobChangeView::Complete,
            PullJobChange::Fail(m) => PullJobChangeView::Fail(m@),
        }
    }
}

/// One step of a download: the change to its history entry, the title and
/// text of the download panel, the byte counts to draw as `(completed, total)`
/// when both are known and the total is not zero, whether the download is
/// over, whether it succeeded (the bar is full rather than empty), the
/// notification to show, and whether the model list is loaded again.
pub struct PullStep {
    pub job: PullJobChange,
    pub title: String,
    pub text: String,
    pub measured: Option<(u64, u64)>,
    pub ended: bool,
    pub succeeded: bool,
    pub toast: Option<String>,
    pub refresh: bool,
}

pub struct PullStepView {
    pub job: PullJobChangeView,
    pub title: Seq<char>,
    pub text: Seq<char>,
    pub measured: Option<(u64, u64)>,
    pub ended: bool,
    pub succeeded: bool,
    pub toast: Option<Seq<char>>,
    pub refresh: bool,
}

impl View for PullStep {
    type V = PullStepView;

    open spec fn view(&self) -> PullStepView {
        PullStepView {
            job: self.job@,
            title: self.title@,
            text: self.text@,
            measured: self.measured,
            ended: self.ended,
            succeeded: self.succeeded,
            toast: opt_view(self.toast),
            refresh: self.refresh,
        }
    }
}

pub open spec fn measured_of(total: Option<u64>, completed: Option<u64>) -> Option<(u64, u64)> {
    match (completed, total) {
        (Some(c), Some(t)) => if t > 0 {
            Some((c, t))
        } else {
            None
        },
        _ => None,
    }
}

/// What a download of `model` does on each event.
pub open spec fn pull_step_of(model: Seq<char>, event: PullEventView) -> PullStepView {
    match event {
        PullEventView::Progress { status, total, completed } => PullStepView {
            job: PullJobChangeView::Progress { total, completed },
            title: "Downloading "@ + model,
            text: status,
            measured: measured_of(total, completed),
            ended: false,
            succeeded: false,
            toast: None,
            refresh: false,
        },
        PullEventView::Done => PullStepView {
            job: PullJobChangeView::Complete,
            title: "Download Complete"@,
            text: model + " is ready to use."@,
            measured: None,
            ended: true,
            succeeded: true,
            toast: Some("Model download complete"@),
            refresh: true,
        },
        PullEventView::Failed(m) => PullStepView {
            job: PullJobChangeView::Fail(m),
            title: "Download Failed"@,
            text: m,
            measured: None,
            ended: true,
            succeeded: false,
            toast: Some("Model download failed: "@ + m),
            refresh: false,
        },
        PullEventView::Stopped => PullStepView {
            job: PullJobChangeView::Fail("Download stopped before completion."@),
            title: "Download Stopped"@,
            text: "The model download stopped before completion."@,
            measured: None,
            ended: true,
            succeeded: false,
            toast: None,
            refresh: false,
        },
    }
}

fn measured(total: Option<u64>, completed: Option<u64>) -> (r: Option<(u64, u64)>)
    ensures
        r == measured_of(total, completed),
{
    match (completed, total) {
        (Some(c), Some(t)) => if t > 0 {
            Some((c, t))
        } else {
            None
        },
        _ => None,
    }
}

pub fn pull_step(model: &str, event: PullEvent) -> (r: PullStep)
    ensures
        r@ == pull_step_of(model@, event@),
{
    match event {
        PullEvent::Progress { status, total, completed } => {
            let mut title = to_owned_string("Downloading ");
            push_str(&mut title, model);
            PullStep {
                job: PullJobChange::Progress { total, completed },
                title,
                text: status,
                measured: measured(total, completed),
                ended: false,
                succeeded: false,
                toast: None,
                refresh: false,
            }
        },
        PullEvent::Done => {
            let mut text = to_owned_string(model);
            push_str(&mut text, " is ready to use.");
            PullStep {
                job: PullJobChange::Complete,
                title: to_owned_string("Download Complete"),
                text,
                measured: None,
                ended: true,
                succeeded: true,
                toast: Some(to_owned_string("Model download complete")),
                refresh: true,
            }
        },
        PullEvent::Failed(message) => {
            let mut toast = to_owned_string("Model download failed: ");
            push_str(&mut toast, message.as_str());
            let text = to_owned_string(message.as_str());
            PullStep {
                job: PullJobChange::Fail(message),
                title: to_owned_string("Download Failed"),
                text,
                measured: None,
                ended: true,
                succeeded: false,
                toast: Some(toast),
                refresh: false,
            }
        },
        PullEvent::Stopped => PullStep {
            job: PullJobChange::Fail(to_owned_string("Download stopped before completion.")),
            title: to_owned_string("Download Stopped"),
            text: to_owned_string("The model download stopped before completion."),
            measured: None,
            ended: true,
            succeeded: false,
            toast: None,
            refresh: false,
        },
    }
}

// ----------------------------------------------------------------------
// Loading the model list.
// ----------------------------------------------------------------------

/// Why the model list cannot be loaded again now: a download, then a
/// deletion, is still running.
pub open spec fn refresh_refusal_of(pulling: bool, deleting: bool) -> Option<Seq<char>> {
    if pulling {
        Some("Finish the active model download first"@)
    } else if deleting {
        Some("Finish the active model deletion first"@)
    } else {
        None
    }
}

pub fn refresh_refusal(pulling: bool, deleting: bool) -> (r: Option<String>)
    ensures
        opt_view(r) == refresh_refusal_of(pulling, deleting),
{
    if pulling {
        Some(to_owned_string("Finish the active model download first"))
    } else if deleting {
        Some(to_owned_string("Finish the active model deletion first"))
    } else {
        None
    }
}

/// The provider's status while its models load: a managed server is being
/// started, any other is being checked.
pub open spec fn loading_status_of(managed: bool) -> Seq<char> {
    if managed {
        "Starting"@
    } else {
        "Checking"@
    }
}

pub fn model_loading_status(managed: bool) -> (r: &'static str)
    ensures
        r@ == loading_status_of(managed),
{
    if managed {
        "Starting"
    } else {
        "Checking"
    }
}

/// How loading the model list ended.
pub enum ModelLoadOutcome {
    /// Ollama answered its health check (`available`, with its status text);
    /// when it was available, its models were listed.
    Loaded { available: bool, status: String },
    /// Listing the models failed with this message.
    Failed(String),
    /// The load went away before an answer came.
    Stopped,
}

pub enum ModelLoadOutcomeView {
    Loaded { available: bool, status: Seq<char> },
    Failed(Seq<char>),
    Stopped,
}

impl View for ModelLoadOutcome {
    type V = ModelLoadOutcomeView;

    open spec fn view(&self) -> ModelLoadOutcomeView {
        match self {
            ModelLoadOutcome::Loaded { available, status } => ModelLoadOutcomeView::Loaded {
                available: *available,
                status: status@,
            },
            ModelLoadOutcome::Failed(m) => ModelLoadOutcomeView::Failed(m@),
            ModelLoadOutcome::Stopped => ModelLoadOutcomeView::Stopped,
        }
    }
}

/// What the window shows once the model list has loaded: the provider's
/// status, the title and text of the model manager when it has no models to
/// show (none when the loaded models are shown), and the notification.
pub struct ModelLoadView {
    pub status: String,
    pub unavailable: Option<(String, String)>,
    pub toast: Option<String>,
}

pub struct ModelLoadDisplay {
    pub status: Seq<char>,
    pub unavailable: Option<(Seq<char>, Seq<char>)>,
    pub toast: Option<Seq<char>>,
}

pub open spec fn pair_view(p: Option<(String, String)>) -> Option<(Seq<char>, Seq<char>)> {
    match p {
        Some((a, b)) => Some((a@, b@)),
        None => None,
    }
}

impl View for ModelLoadView {
    type V = ModelLoadDisplay;

    open spec fn view(&self) -> ModelLoadDisplay {
        ModelLoadDisplay {
            status: self.status@,
            unavailable: pair_view(self.unavailable),
            toast: opt_view(self.toast),
        }
    }
}

/// The view for each outcome, for a managed provider or another one. An
/// unavailable provider is only announced when it is not managed.
pub open spec fn model_load_view_of(managed: bool, outcome: ModelLoadOutcomeView) -> ModelLoadDisplay {
    match outcome {
        ModelLoadOutcomeView::Loaded { available, status } => if available {
            ModelLoadDisplay {
                status: if managed {
                    "Ready"@
                } else {
                    "Connected"@
                },
                unavailable: None,
                toast: None,
            }
        } else {
            ModelLoadDisplay {
                status: "Disconnected"@,
                unavailable: Some(("Ollama Unavailable"@, "The active provider did not respond."@)),
                toast: if managed {
                    None
                } else {
                    Some("Ollama unavailable: "@ + status)
                },
            }
        },
        ModelLoadOutcomeView::Failed(m) => ModelLoadDisplay {
            status: "Error"@,
            unavailable: Some(
                ("Models Could Not Load"@, "Ollama returned an error while listing local models."@),
            ),
            toast: Some("Model list failed: "@ + m),
        },
        ModelLoadOutcomeView::Stopped => ModelLoadDisplay {
            status: "Disconnected"@,
            unavailable: Some(
                ("Ollama Disconnected"@, "The model refresh stopped before a response was received."@),
            ),
            toast: None,
        },
    }
}

pub fn model_load_view(managed: bool, outcome: ModelLoadOutcome) -> (r: ModelLoadView)
    ensures
        r@ == model_load_view_of(managed, outcome@),
{
    match outcome {
        ModelLoadOutcome::Loaded { available, status } => {
            if available {
                ModelLoadView {
                    status: to_owned_string(
                        if managed {
                            "Ready"
                        } else {
                            "Connected"
                        },
                    ),
                    unavailable: None,
                    toast: None,
                }
            } else {
                let toast = if managed {
                    None
                } else {
                    let mut t = to_owned_string("Ollama unavailable: ");
                    push_str(&mut t, status.as_str());
                    Some(t)
                };
                ModelLoadView {
                    status: to_owned_string("Disconnected"),
                    unavailable: Some(
                        (
                            to_owned_string("Ollama Unavailable"),
                            to_owned_string("The active provider did not respond."),
                        ),
                    ),
                    toast,
                }
            }
        },
        ModelLoadOutcome::Failed(message) => {
            let mut toast = to_owned_string("Model list failed: ");
            push_str(&mut toast, message.as_str());
            ModelLoadView {
                status: to_owned_string("Error"),
                unavailable: Some(
                    (
                        to_owned_string("Models Could Not Load"),
                        to_owned_string("Ollama returned an error while listing local models."),
                    ),
                ),
                toast: Some(toast),
            }
        },
        ModelLoadOutcome::Stopped => ModelLoadView {
            status: to_owned_string("Disconnected"),
            unavailable: Some(
                (
                    to_owned_string("Ollama Disconnected"),
                    to_owned_string("The model refresh stopped before a response was received."),
                ),
            ),
            toast: None,
        },
    }
}

} // verus!
