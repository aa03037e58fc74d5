//! Model downloads and the validation of their progress.
use vstd::prelude::*;

use crate::conversations::{required_id_ok, validate_required_id};
use crate::error::{MooseError, Result};
use crate::ids::{new_id, utc_now};
use crate::providers::{model_name_ok, validate_model_name};
use crate::text::{
    any_invalid_text_char, chars_of, has_invalid_text_char, str_eq, string_from_range, trim,
    trim_bounds,
};

verus! {

#[derive(Clone, Copy, Debug, PartialEq, Eq, Structural)]
pub enum DownloadJobStatus {
    Queued,
    Running,
    Complete,
    Cancelled,
    Failed,
}

#[derive(Clone, Debug, PartialEq, Eq)]
pub struct DownloadJob {
    pub id: String,
    pub provider_id: String,
    pub model_name: String,
    pub status: DownloadJobStatus,
    pub total_bytes: Option<i64>,
    pub completed_bytes: Option<i64>,
    pub error_message: Option<String>,
    pub created_at: String,
    pub updated_at: String,
}

#[derive(Clone, Debug, PartialEq, Eq)]
pub struct NewDownloadJob {
    pub provider_id: String,
    pub model_name: String,
}

impl DownloadJobStatus {
    pub open spec fn text(self) -> Seq<char> {
        match self {
            DownloadJobStatus::Queued => "queued"@,
            DownloadJobStatus::Running => "running"@,
            DownloadJobStatus::Complete => "complete"@,
            DownloadJobStatus::Cancelled => "cancelled"@,
            DownloadJobStatus::Failed => "failed"@,
        }
    }

    pub open spec fn from_text(s: Seq<char>) -> Option<DownloadJobStatus> {
        if s == "queued"@ {
            Some(DownloadJobStatus::Queued)
        } else if s == "running"@ {
            Some(DownloadJobStatus::Running)
        } else if s == "complete"@ {
            Some(DownloadJobStatus::Complete)
        } else if s == "cancelled"@ {
            Some(DownloadJobStatus::Cancelled)
        } else if s == "failed"@ {
            Some(DownloadJobStatus::Failed)
        } else {
            None
        }
    }

    pub open spec fn active(self) -> bool {
        self == DownloadJobStatus::Queued || self == DownloadJobStatus::Running
    }

    pub fn as_str(&self) -> (r: &'static str)
        ensures
            r@ == self.text(),
    {
        match self {
            DownloadJobStatus::Queued => "queued",
            DownloadJobStatus::Running => "running",
            DownloadJobStatus::Complete => "complete",
            DownloadJobStatus::Cancelled => "cancelled",
            DownloadJobStatus::Failed => "failed",
        }
    }

    /// Whether the download may still make progress.
    pub fn is_active(&self) -> (r: bool)
        ensures
            r == self.active(),
    {
        matches!(self, DownloadJobStatus::Queued | DownloadJobStatus::Running)
    }

    /// Reads a stored status.
    pub fn parse(value: &str) -> (r: Result<DownloadJobStatus>)
        ensures
            match DownloadJobStatus::from_text(value@) {
                Some(status) => r == Ok::<DownloadJobStatus, MooseError>(status),
                None => r == Err::<DownloadJobStatus, MooseError>(
                    MooseError::InvalidDownloadJobStatus,
                ),
            },
    {
        if str_eq(value, "queued") {
            Ok(DownloadJobStatus::Queued)
        } else if str_eq(value, "running") {
            Ok(DownloadJobStatus::Running)
        } else if str_eq(value, "complete") {
            Ok(DownloadJobStatus::Complete)
        } else if str_eq(value, "cancelled") {
            Ok(DownloadJobStatus::Cancelled)
        } else if str_eq(value, "failed") {
            Ok(DownloadJobStatus::Failed)
        } else {
            Err(MooseError::InvalidDownloadJobStatus)
        }
    }
}

impl core::str::FromStr for DownloadJobStatus {
    type Err = MooseError;

    fn from_str(value: &str) -> (r: Result<DownloadJobStatus>)
        ensures
            match DownloadJobStatus::from_text(value@) {
                Some(status) => r == Ok::<DownloadJobStatus, MooseError>(status),
                None => r == Err::<DownloadJobStatus, MooseError>(
                    MooseError::InvalidDownloadJobStatus,
                ),
            },
    {
        DownloadJobStatus::parse(value)
    }
}

/// Reading back the storage value of a download status gives the status.
pub proof fn lemma_download_status_round_trip(status: DownloadJobStatus)
    ensures
        DownloadJobStatus::from_text(status.text()) == Some(status),
{
    reveal_strlit("queued");
    reveal_strlit("running");
    reveal_strlit("complete");
    reveal_strlit("cancelled");
    reveal_strlit("failed");
    assert("running"@[0] != "queued"@[0]);
    assert("complete"@[0] != "queued"@[0]);
    assert("complete"@.len() != "running"@.len());
    assert("cancelled"@[0] != "queued"@[0]);
    assert("cancelled"@.len() != "running"@.len());
    assert("cancelled"@.len() != "complete"@.len());
    assert("failed"@[0] != "queued"@[0]);
    assert("failed"@.len() != "running"@.len());
    assert("failed"@.len() != "complete"@.len());
    assert("failed"@.len() != "cancelled"@.len());
}

impl NewDownloadJob {
    /// A running download, started at the given time with no bytes yet.
    pub fn into_download_job_with(self, id: String, timestamp: String) -> (r: Result<DownloadJob>)
        ensures
            r is Ok <==> required_id_ok(self.provider_id@) && model_name_ok(self.model_name@),
            r matches Ok(j) ==> {
                &&& j.id == id
                &&& j.provider_id@ == trim(self.provider_id@)
                &&& j.model_name@ == trim(self.model_name@)
                &&& j.status == DownloadJobStatus::Running
                &&& j.total_bytes is None
                &&& j.completed_bytes == Some(0i64)
                &&& j.error_message is None
                &&& j.created_at == timestamp
                &&& j.updated_at == timestamp
            },
            r matches Err(e) ==> if required_id_ok(self.provider_id@) {
                e == MooseError::InvalidModelName
            } else {
                e == MooseError::InvalidIdentifier
            },
    {
        let provider_id = validate_required_id(self.provider_id.as_str())?;
        let model_name = validate_model_name(self.model_name.as_str())?;
        let created_at = timestamp.clone();
        Ok(DownloadJob {
            id,
            provider_id,
            model_name,
            status: DownloadJobStatus::Running,
            total_bytes: None,
            completed_bytes: Some(0),
            error_message: None,
            created_at,
            updated_at: timestamp,
        })
    }

    /// A running download with a fresh identifier, started now.
    pub fn into_download_job(self) -> (r: Result<DownloadJob>)
        ensures
            r is Ok <==> required_id_ok(self.provider_id@) && model_name_ok(self.model_name@),
            r matches Ok(j) ==> {
                &&& j.provider_id@ == trim(self.provider_id@)
                &&& j.model_name@ == trim(self.model_name@)
                &&& j.status == DownloadJobStatus::Running
                &&& j.total_bytes is None
                &&& j.completed_bytes == Some(0i64)
                &&& j.error_message is None
                &&& j.created_at == j.updated_at
            },
            r matches Err(e) ==> if required_id_ok(self.provider_id@) {
                e == MooseError::InvalidModelName
            } else {
                e == MooseError::InvalidIdentifier
            },
    {
        let timestamp = utc_now();
        let id = new_id();
        self.into_download_job_with(id, timestamp)
    }
}

/// A byte count must not be negative, when present.
pub fn validate_download_byte_count(value: Option<i64>) -> (r: Result<Option<i64>>)
    ensures
        r is Ok <==> !(value matches Some(n) && n < 0),
        r matches Ok(v) ==> v == value,
        r matches Err(e) ==> e == MooseError::InvalidDownloadJobProgress,
{
    match value {
        Some(n) if n < 0 => Err(MooseError::InvalidDownloadJobProgress),
        _ => Ok(value),
    }
}

/// A present, non-blank error message is kept trimmed; a blank one is dropped.
pub fn validate_download_error_message(value: Option<&str>) -> (r: Result<Option<String>>)
    ensures
        match value {
            None => r == Ok::<Option<String>, MooseError>(None),
            Some(v) => if trim(v@).len() == 0 {
                r == Ok::<Option<String>, MooseError>(None)
            } else if has_invalid_text_char(trim(v@)) {
                r == Err::<Option<String>, MooseError>(MooseError::InvalidMessageContent)
            } else {
                r matches Ok(Some(s)) && s@ == trim(v@)
            },
        },
{
    let value = match value {
        Some(value) => value,
        None => return Ok(None),
    };
    let v = chars_of(value);
    let (a, b) = trim_bounds(v.as_slice());
    if a == b {
        return Ok(None);
    }
    let t = string_from_range(v.as_slice(), a, b);
    let tv = chars_of(t.as_str());
    if any_invalid_text_char(tv.as_slice()) {
        return Err(MooseError::InvalidMessageContent);
    }
    Ok(Some(t))
}

/// A byte count as stored: refused when it does not fit in `i64`.
pub fn optional_u64_to_i64(value: Option<u64>) -> (r: Result<Option<i64>>)
    ensures
        match value {
            None => r == Ok::<Option<i64>, MooseError>(None),
            Some(n) => if n <= i64::MAX {
                r == Ok::<Option<i64>, MooseError>(Some(n as i64))
            } else {
                r == Err::<Option<i64>, MooseError>(MooseError::NumericConversion)
            },
        },
{
    match value {
        None => Ok(None),
        Some(n) => if n <= i64::MAX as u64 {
            Ok(Some(n as i64))
        } else {
            Err(MooseError::NumericConversion)
        },
    }
}

} // verus!
