//! Talking to Ollama: the data its API returns and the server the application manages.
pub mod extraction;
pub mod lines;
pub mod manager;
pub mod service;

use vstd::prelude::*;

use crate::chat::ChatStreamEvent;
use crate::error::{MooseError, Result};
use crate::text::{
    chars_of, is_blank, push_range, push_str, str_eq, string_from_range, to_owned_string, trim,
    trim_bounds, trim_end_char, trim_start_char, lemma_trim_end_char_skip,
    lemma_trim_start_char_skip,
};
use crate::urls::opt_view;

verus! {

#[derive(Clone, Debug, PartialEq, Eq)]
pub struct OllamaHealth {
    pub available: bool,
    pub version: Option<String>,
    pub message: String,
}

#[derive(Clone, Debug, PartialEq, Eq)]
pub struct OllamaModel {
    pub name: String,
    pub digest: Option<String>,
    pub size_bytes: Option<u64>,
    pub family: Option<String>,
    pub families: Vec<String>,
    pub parameter_size: Option<String>,
    pub quantization_level: Option<String>,
    pub modified_at: Option<String>,
    pub supports_chat: bool,
}

#[derive(Clone, Debug, PartialEq, Eq)]
pub struct OllamaVersion {
    pub version: String,
}

#[derive(Clone, Debug, PartialEq, Eq)]
pub struct OllamaPullProgress {
    pub status: String,
    pub digest: Option<String>,
    pub total_bytes: Option<u64>,
    pub completed_bytes: Option<u64>,
    pub done: bool,
}

/// One model of the `/api/tags` answer, as read from JSON.
#[derive(Clone, Debug, PartialEq, Eq)]
pub struct TagModel {
    pub name: String,
    pub modified_at: Option<String>,
    pub size: Option<u64>,
    pub digest: Option<String>,
    pub details: Option<TagModelDetails>,
}

#[derive(Clone, Debug, PartialEq, Eq)]
pub struct TagModelDetails {
    pub family: Option<String>,
    pub families: Option<Vec<String>>,
    pub parameter_size: Option<String>,
    pub quantization_level: Option<String>,
}

/// One line of a streamed `/api/chat` answer, as read from JSON.
#[derive(Clone, Debug, PartialEq, Eq)]
pub struct ChatLine {
    pub message_content: Option<String>,
    pub done: bool,
}

/// One line of a streamed `/api/pull` answer, as read from JSON.
#[derive(Clone, Debug, PartialEq, Eq)]
pub struct PullLine {
    pub status: String,
    pub digest: Option<String>,
    pub total: Option<u64>,
    pub completed: Option<u64>,
}

pub open spec fn unsupported_family(f: Seq<char>) -> bool {
    f == "bert"@ || f == "clip"@
}

/// A model can chat unless its family, or one of its families, is an
/// embedding family (`bert`, `clip`).
pub open spec fn chat_capable(family: Option<Seq<char>>, families: Seq<Seq<char>>) -> bool {
    &&& !(family matches Some(f) && unsupported_family(f))
    &&& forall|i: int| 0 <= i < families.len() ==> !unsupported_family(#[trigger] families[i])
}

pub open spec fn seq_views(v: Seq<String>) -> Seq<Seq<char>> {
    v.map_values(|s: String| s@)
}

fn is_unsupported_family(family: &str) -> (r: bool)
    ensures
        r == unsupported_family(family@),
{
    str_eq(family, "bert") || str_eq(family, "clip")
}

/// Whether a model of these families can be used for chat.
pub fn supports_chat(family: &Option<String>, families: &[String]) -> (r: bool)
    ensures
        r == chat_capable(opt_view(*family), seq_views(families@)),
{
    match family {
        Some(f) => {
            if is_unsupported_family(f.as_str()) {
                return false;
            }
        },
        None => {},
    }
    let mut i: usize = 0;
    while i < families.len()
        invariant
            i <= families.len(),
            forall|j: int| 0 <= j < i ==> !unsupported_family(#[trigger] seq_views(families@)[j]),
        decreases families.len() - i,
    {
        if is_unsupported_family(families[i].as_str()) {
            assert(seq_views(families@)[i as int] == families@[i as int]@);
            return false;
        }
        i = i + 1;
    }
    true
}

/// The families of a model: the listed ones, else its single family.
pub open spec fn families_of(details: Option<TagModelDetails>) -> Seq<String> {
    match details {
        Some(d) => match d.families {
            Some(fs) => fs@,
            None => match d.family {
                Some(f) => seq![f],
                None => Seq::empty(),
            },
        },
        None => Seq::empty(),
    }
}

pub open spec fn family_of(details: Option<TagModelDetails>) -> Option<String> {
    match details {
        Some(d) => d.family,
        None => None,
    }
}

/// How a tag of the `/api/tags` answer is presented as a model.
pub open spec fn model_of_tag(t: TagModel, m: OllamaModel) -> bool {
    &&& m.name == t.name
    &&& m.digest == t.digest
    &&& m.size_bytes == t.size
    &&& m.family == family_of(t.details)
    &&& m.families@ == families_of(t.details)
    &&& m.parameter_size == match t.details {
        Some(d) => d.parameter_size,
        None => None,
    }
    &&& m.quantization_level == match t.details {
        Some(d) => d.quantization_level,
        None => None,
    }
    &&& m.modified_at == t.modified_at
    &&& m.supports_chat == chat_capable(opt_view(family_of(t.details)), seq_views(families_of(t.details)))
}

/// The model a tag describes.
pub fn model_from_tag(tag: TagModel) -> (m: OllamaModel)
    ensures
        model_of_tag(tag, m),
{
    let ghost t = tag;
    let TagModel { name, modified_at, size, digest, details } = tag;
    let (family, families, parameter_size, quantization_level) = match details {
        Some(d) => {
            let TagModelDetails { family, families, parameter_size, quantization_level } = d;
            let families = match families {
                Some(fs) => fs,
                None => match &family {
                    Some(f) => {
                        let mut one: Vec<String> = Vec::new();
                        one.push(f.clone());
                        one
                    },
                    None => Vec::new(),
                },
            };
            (family, families, parameter_size, quantization_level)
        },
        None => (None, Vec::new(), None, None),
    };
    proof {
        assert(families@ =~= families_of(t.details));
    }
    let supports = supports_chat(&family, families.as_slice());
    OllamaModel {
        name,
        digest,
        size_bytes: size,
        family,
        families,
        parameter_size,
        quantization_level,
        modified_at,
        supports_chat: supports,
    }
}

/// The models of an `/api/tags` answer, in order.
pub fn models_from_tags(tags: Vec<TagModel>) -> (models: Vec<OllamaModel>)
    ensures
        models.len() == tags.len(),
        forall|i: int| 0 <= i < tags.len() ==> model_of_tag(tags@[i], #[trigger] models@[i]),
{
    let ghost all_tags = tags@;
    let mut models: Vec<OllamaModel> = Vec::new();
    let mut rest = tags;
    while rest.len() > 0
        invariant
            models.len() + rest.len() == all_tags.len(),
            rest@ == all_tags.subrange(models.len() as int, all_tags.len() as int),
            forall|i: int| 0 <= i < models.len() ==> model_of_tag(all_tags[i], #[trigger] models@[i]),
        decreases rest.len(),
    {
        let tag = rest.remove(0);
        assert(tag == all_tags[models.len() as int]);
        let model = model_from_tag(tag);
        models.push(model);
        assert(rest@ =~= all_tags.subrange(models.len() as int, all_tags.len() as int));
    }
    models
}

/// The event a chat line reports: the end of the answer, or more text.
pub fn chat_event_from_line(line: ChatLine) -> (r: Option<ChatStreamEvent>)
    ensures
        line.done ==> r == Some(ChatStreamEvent::Done),
        !line.done ==> match line.message_content {
            Some(c) => r == Some(ChatStreamEvent::Token(c)),
            None => r is None,
        },
{
    if line.done {
        return Some(ChatStreamEvent::Done);
    }
    match line.message_content {
        Some(content) => Some(ChatStreamEvent::Token(content)),
        None => None,
    }
}

/// The progress a pull line reports; a line without a status is refused, and
/// the status `success` ends the pull.
pub fn pull_progress_from_line(line: PullLine) -> (r: Result<OllamaPullProgress>)
    ensures
        trim(line.status@).len() == 0 ==> (r matches Err(MooseError::InvalidOllamaResponse(m)) && m@
            == "missing pull status"@),
        trim(line.status@).len() > 0 ==> (r matches Ok(p) && p.status@ == trim(line.status@) && p.done
            == (trim(line.status@) == "success"@) && p.digest == line.digest && p.total_bytes
            == line.total && p.completed_bytes == line.completed),
{
    let v = chars_of(line.status.as_str());
    let (a, b) = trim_bounds(v.as_slice());
    if a == b {
        return Err(MooseError::InvalidOllamaResponse(to_owned_string("missing pull status")));
    }
    let status = string_from_range(v.as_slice(), a, b);
    let done = str_eq(status.as_str(), "success");
    Ok(OllamaPullProgress {
        done,
        status,
        digest: line.digest,
        total_bytes: line.total,
        completed_bytes: line.completed,
    })
}

/// The message of an error answer: the `error` field when the body is such a
/// JSON object, else the trimmed body when it is not blank.
pub fn error_message_from_body(parsed_error: Option<String>, body: &str) -> (r: Option<String>)
    ensures
        match parsed_error {
            Some(e) => r == Some(e),
            None => if trim(body@).len() == 0 {
                r is None
            } else {
                r matches Some(s) && s@ == trim(body@)
            },
        },
{
    match parsed_error {
        Some(e) => Some(e),
        None => {
            let v = chars_of(body);
            let (a, b) = trim_bounds(v.as_slice());
            if a == b {
                None
            } else {
                Some(string_from_range(v.as_slice(), a, b))
            }
        },
    }
}

impl OllamaHealth {
    /// An Ollama that answered with its version.
    pub fn available(version: OllamaVersion) -> (r: OllamaHealth)
        ensures
            r.available,
            r.version == Some(version.version),
            r.message@ == "Ollama "@ + version.version@,
    {
        let mut message = to_owned_string("Ollama ");
        push_str(&mut message, version.version.as_str());
        OllamaHealth { available: true, version: Some(version.version), message }
    }

    /// An Ollama that could not be reached, with the reason.
    pub fn unavailable(message: String) -> (r: OllamaHealth)
        ensures
            !r.available,
            r.version is None,
            r.message == message,
    {
        OllamaHealth { available: false, version: None, message }
    }
}

/// The path of an API endpoint under the base path: `<base>/<endpoint>`
/// without doubled slashes at the join.
pub open spec fn endpoint_path_of(base_path: Seq<char>, endpoint: Seq<char>) -> Seq<char> {
    trim_end_char(base_path, '/') + "/"@ + trim_start_char(endpoint, '/')
}

pub fn endpoint_path(base_path: &str, endpoint: &str) -> (r: String)
    ensures
        r@ == endpoint_path_of(base_path@, endpoint@),
{
    let b = chars_of(base_path);
    let mut end = b.len();
    while end > 0 && b[end - 1] == '/'
        invariant
            end <= b.len(),
            forall|j: int| end <= j < b.len() ==> #[trigger] b@[j] == '/',
        decreases end,
    {
        end = end - 1;
    }
    proof {
        lemma_trim_end_char_skip(b@, '/', end as int);
        let u = b@.subrange(0, end as int);
        if end > 0 {
            assert(u.last() == b@[end - 1]);
        }
        assert(trim_end_char(u, '/') == u);
    }
    let e = chars_of(endpoint);
    let mut start: usize = 0;
    while start < e.len() && e[start] == '/'
        invariant
            start <= e.len(),
            forall|j: int| 0 <= j < start ==> #[trigger] e@[j] == '/',
        decreases e.len() - start,
    {
        start = start + 1;
    }
    proof {
        lemma_trim_start_char_skip(e@, '/', start as int);
        let u = e@.subrange(start as int, e.len() as int);
        if start < e.len() {
            assert(u[0] == e@[start as int]);
        }
        assert(trim_start_char(u, '/') == u);
    }
    let mut out = string_from_range(b.as_slice(), 0, end);
    push_str(&mut out, "/");
    push_range(&mut out, e.as_slice(), start, e.len());
    out
}

} // verus!
