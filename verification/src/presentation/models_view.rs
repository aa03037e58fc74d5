//! What the model manager shows: installed models, the catalog of models to
//! download, searches over both, and the history of downloads.
use vstd::prelude::*;

use crate::models::{DownloadJob, DownloadJobStatus};
use crate::ollama::OllamaModel;
use crate::text::{
    chars_of, contains, contains_char, contains_seq, join, join_strings, lower, lower_chars,
    push_str, str_eq, string_from_range, string_views, to_owned_string, trim, trim_bounds,
    trim_end_char, lemma_trim_end_char_skip,
};

verus! {

pub open spec fn str_views(v: Seq<&str>) -> Seq<Seq<char>> {
    v.map_values(|s: &str| s@)
}

/// Whether a model of that name is among the installed ones.
pub fn model_is_installed(model_name: &str, installed_names: &[&str]) -> (r: bool)
    ensures
        r == str_views(installed_names@).contains(model_name@),
{
    let mut i: usize = 0;
    while i < installed_names.len()
        invariant
            i <= installed_names.len(),
            forall|j: int| 0 <= j < i ==> installed_names@[j]@ != model_name@,
        decreases installed_names.len() - i,
    {
        if str_eq(installed_names[i], model_name) {
            assert(str_views(installed_names@)[i as int] == model_name@);
            return true;
        }
        i = i + 1;
    }
    proof {
        if str_views(installed_names@).contains(model_name@) {
            let j = choose|j: int|
                0 <= j < str_views(installed_names@).len() && str_views(installed_names@)[j]
                    == model_name@;
            assert(installed_names@[j]@ == model_name@);
        }
    }
    false
}

/// Position of the first `c`, if any.
pub open spec fn first_index(s: Seq<char>, c: char, i: int) -> bool {
    0 <= i < s.len() && s[i] == c && forall|j: int| 0 <= j < i ==> s[j] != c
}

/// The text before the first `c` (`str::split_once(c)`'s first half), or all of it.
pub open spec fn before_first(s: Seq<char>, c: char) -> Seq<char> {
    if contains_char(s, c) {
        s.subrange(0, choose|i: int| first_index(s, c, i))
    } else {
        s
    }
}

fn index_of(v: &[char], c: char) -> (r: Option<usize>)
    ensures
        match r {
            Some(i) => first_index(v@, c, i as int),
            None => !contains_char(v@, c),
        },
{
    let mut i: usize = 0;
    while i < v.len()
        invariant
            i <= v.len(),
            forall|j: int| 0 <= j < i ==> v@[j] != c,
        decreases v.len() - i,
    {
        if v[i] == c {
            return Some(i);
        }
        i = i + 1;
    }
    None
}

proof fn lemma_first_index_unique(s: Seq<char>, c: char, i: int)
    requires
        first_index(s, c, i),
    ensures
        (choose|k: int| first_index(s, c, k)) == i,
{
    let k = choose|k: int| first_index(s, c, k);
    assert(first_index(s, c, k));
    if k < i {
        assert(s[k] != c);
    }
    if k > i {
        assert(s[i] != c);
    }
}

fn before_first_of(v: &[char], c: char) -> (r: String)
    ensures
        r@ == before_first(v@, c),
{
    match index_of(v, c) {
        Some(i) => {
            proof {
                lemma_first_index_unique(v@, c, i as int);
                assert(v@[i as int] == c);
            }
            string_from_range(v, 0, i)
        },
        None => string_from_range(v, 0, v.len()),
    }
}

/// The date of an ISO timestamp: what comes before its `T`.
pub fn compact_timestamp(value: &str) -> (r: String)
    ensures
        r@ == before_first(value@, 'T'),
{
    let v = chars_of(value);
    assert(v@.subrange(0, v.len() as int) =~= v@);
    before_first_of(v.as_slice(), 'T')
}

pub open spec fn nonempty_opt(o: Option<String>) -> Option<Seq<char>> {
    match o {
        Some(s) => if s@.len() > 0 {
            Some(s@)
        } else {
            None
        },
        None => None,
    }
}

pub open spec fn opt_part(o: Option<Seq<char>>) -> Seq<Seq<char>> {
    match o {
        Some(s) => seq![s],
        None => Seq::empty(),
    }
}

/// The details shown under an installed model: family, parameter size,
/// quantization and modification date, where known, joined by ` - `.
pub open spec fn subtitle_parts(m: OllamaModel) -> Seq<Seq<char>> {
    opt_part(nonempty_opt(m.family)) + opt_part(nonempty_opt(m.parameter_size)) + opt_part(
        nonempty_opt(m.quantization_level),
    ) + match nonempty_opt(m.modified_at) {
        Some(t) => seq!["Modified "@ + before_first(t, 'T')],
        None => Seq::empty(),
    }
}

pub open spec fn model_subtitle_text(m: OllamaModel) -> Seq<char> {
    if subtitle_parts(m).len() == 0 {
        "Installed locally"@
    } else {
        join(subtitle_parts(m), " - "@)
    }
}

fn push_nonempty(parts: &mut Vec<String>, value: &Option<String>)
    ensures
        string_views(final(parts)@) == string_views(old(parts)@) + opt_part(nonempty_opt(*value)),
{
    let ghost before = parts@;
    match value {
        Some(v) => {
            if chars_of(v.as_str()).len() > 0 {
                parts.push(v.clone());
                assert(string_views(parts@) =~= string_views(before) + seq![v@]);
                return;
            }
        },
        None => {},
    }
    assert(string_views(parts@) =~= string_views(before) + Seq::<Seq<char>>::empty());
}

pub fn model_subtitle(model: &OllamaModel) -> (r: String)
    ensures
        r@ == model_subtitle_text(*model),
{
    let mut parts: Vec<String> = Vec::new();
    push_nonempty(&mut parts, &model.family);
    push_nonempty(&mut parts, &model.parameter_size);
    push_nonempty(&mut parts, &model.quantization_level);
    let ghost before = parts@;
    match &model.modified_at {
        Some(t) => {
            if chars_of(t.as_str()).len() > 0 {
                let mut s = to_owned_string("Modified ");
                let date = compact_timestamp(t.as_str());
                push_str(&mut s, date.as_str());
                parts.push(s);
                assert(string_views(parts@) =~= string_views(before) + seq!["Modified "@ + before_first(t@, 'T')]);
            } else {
                assert(string_views(parts@) =~= string_views(before) + Seq::<Seq<char>>::empty());
            }
        },
        None => {
            assert(string_views(parts@) =~= string_views(before) + Seq::<Seq<char>>::empty());
        },
    }
    assert(string_views(parts@) =~= subtitle_parts(*model));
    if parts.len() == 0 {
        to_owned_string("Installed locally")
    } else {
        join_strings(parts.as_slice(), " - ")
    }
}

/// A search matches a text when the text in lower case holds it.
pub open spec fn matches_query(value: Seq<char>, query: Seq<char>) -> bool {
    contains_seq(lower(value), query)
}

pub fn contains_query(value: &str, query: &str) -> (r: bool)
    ensures
        r == matches_query(value@, query@),
{
    let v = chars_of(value);
    let l = lower_chars(v.as_slice());
    let q = chars_of(query);
    contains(l.as_slice(), q.as_slice())
}

pub open spec fn opt_matches(o: Option<String>, query: Seq<char>) -> bool {
    match o {
        Some(s) => matches_query(s@, query),
        None => false,
    }
}

pub open spec fn any_matches(v: Seq<String>, query: Seq<char>) -> bool {
    exists|i: int| 0 <= i < v.len() && matches_query(#[trigger] v[i]@, query)
}

/// An installed model matches a search (already in lower case) on its name,
/// family, families, parameter size or quantization; an empty search matches all.
pub open spec fn model_matches(m: OllamaModel, query: Seq<char>) -> bool {
    query.len() == 0 || matches_query(m.name@, query) || opt_matches(m.family, query)
        || any_matches(m.families@, query) || opt_matches(m.parameter_size, query) || opt_matches(
        m.quantization_level,
        query,
    )
}

fn opt_contains_query(o: &Option<String>, query: &str) -> (r: bool)
    ensures
        r == opt_matches(*o, query@),
{
    match o {
        Some(s) => contains_query(s.as_str(), query),
        None => false,
    }
}

fn any_contains_query(v: &Vec<String>, query: &str) -> (r: bool)
    ensures
        r == any_matches(v@, query@),
{
    let mut i: usize = 0;
    while i < v.len()
        invariant
            i <= v.len(),
            forall|j: int| 0 <= j < i ==> !matches_query(#[trigger] v@[j]@, query@),
        decreases v.len() - i,
    {
        if contains_query(v[i].as_str(), query) {
            return true;
        }
        i = i + 1;
    }
    false
}

pub fn model_matches_query(model: &OllamaModel, query: &str) -> (r: bool)
    ensures
        r == model_matches(*model, query@),
{
    if chars_of(query).len() == 0 {
        return true;
    }
    contains_query(model.name.as_str(), query) || opt_contains_query(&model.family, query)
        || any_contains_query(&model.families, query) || opt_contains_query(
        &model.parameter_size,
        query,
    ) || opt_contains_query(&model.quantization_level, query)
}

/// The search text as it is matched: trimmed, in lower case.
pub open spec fn normalized_query(query: Seq<char>) -> Seq<char> {
    lower(trim(query))
}

pub fn normalize_query(query: &str) -> (r: String)
    ensures
        r@ == normalized_query(query@),
{
    let v = chars_of(query);
    let (a, b) = trim_bounds(v.as_slice());
    let t = crate::text::chars_range(v.as_slice(), a, b);
    let l = lower_chars(t.as_slice());
    crate::text::string_from_chars(l.as_slice())
}

/// Positions, in order, of the installed models that match a search.
pub fn matching_models(models: &[OllamaModel], query: &str) -> (r: Vec<usize>)
    ensures
        forall|k: int| 0 <= k < r.len() ==> r@[k] < models.len(),
        forall|k: int, l: int| 0 <= k < l < r.len() ==> r@[k] < r@[l],
        forall|i: int|
            0 <= i < models.len() ==> (r@.contains(i as usize) <==> model_matches(
                #[trigger] models@[i],
                normalized_query(query@),
            )),
{
    let q = normalize_query(query);
    let mut r: Vec<usize> = Vec::new();
    let mut i: usize = 0;
    while i < models.len()
        invariant
            i <= models.len(),
            q@ == normalized_query(query@),
            forall|k: int| 0 <= k < r.len() ==> r@[k] < i,
            forall|k: int, l: int| 0 <= k < l < r.len() ==> r@[k] < r@[l],
            forall|x: int|
                0 <= x < i ==> (r@.contains(x as usize) <==> model_matches(
                    #[trigger] models@[x],
                    q@,
                )),
        decreases models.len() - i,
    {
        let ghost before = r@;
        if model_matches_query(&models[i], q.as_str()) {
            r.push(i);
            assert forall|x: int| 0 <= x < i + 1 implies (r@.contains(x as usize) <==> model_matches(
                #[trigger] models@[x],
                q@,
            )) by {
                if x < i {
                    if r@.contains(x as usize) {
                        let k = choose|k: int| 0 <= k < r@.len() && r@[k] == x as usize;
                        if k < before.len() {
                            assert(before[k] == x as usize);
                        }
                    }
                    if before.contains(x as usize) {
                        let k = choose|k: int| 0 <= k < before.len() && before[k] == x as usize;
                        assert(r@[k] == x as usize);
                    }
                } else {
                    assert(r@[before.len() as int] == i);
                }
            }
        } else {
            assert forall|x: int| 0 <= x < i + 1 implies (r@.contains(x as usize) <==> model_matches(
                #[trigger] models@[x],
                q@,
            )) by {
                if x == i {
                    if r@.contains(x as usize) {
                        let k = choose|k: int| 0 <= k < r@.len() && r@[k] == x as usize;
                        assert(r@[k] < i);
                    }
                }
            }
        }
        i = i + 1;
    }
    r
}

// ----------------------------------------------------------------------
// The catalog of downloadable models.
// ----------------------------------------------------------------------

/// One tag of a model family that can be downloaded.
pub struct ModelVariant {
    pub name: String,
    pub title: String,
    pub description: String,
    pub tags: Vec<String>,
}

/// A family of downloadable models, with its variants.
pub struct ModelFamily {
    pub id: String,
    pub title: String,
    pub subtitle: String,
    pub description: String,
    pub tags: Vec<String>,
    pub variants: Vec<ModelVariant>,
}

pub open spec fn variant_matches(v: ModelVariant, query: Seq<char>) -> bool {
    matches_query(v.name@, query) || matches_query(v.title@, query) || matches_query(
        v.description@,
        query,
    ) || any_matches(v.tags@, query)
}

/// A family matches a search on its id, title, subtitle, description or tags,
/// or on those of any variant; an empty search matches all.
pub open spec fn family_matches(f: ModelFamily, query: Seq<char>) -> bool {
    query.len() == 0 || matches_query(f.id@, query) || matches_query(f.title@, query)
        || matches_query(f.subtitle@, query) || matches_query(f.description@, query) || any_matches(
        f.tags@,
        query,
    ) || exists|i: int| 0 <= i < f.variants.len() && variant_matches(#[trigger] f.variants@[i], query)
}

fn variant_matches_query(v: &ModelVariant, query: &str) -> (r: bool)
    ensures
        r == variant_matches(*v, query@),
{
    contains_query(v.name.as_str(), query) || contains_query(v.title.as_str(), query)
        || contains_query(v.description.as_str(), query) || any_contains_query(&v.tags, query)
}

pub fn model_family_matches_query(family: &ModelFamily, query: &str) -> (r: bool)
    ensures
        r == family_matches(*family, query@),
{
    if chars_of(query).len() == 0 {
        return true;
    }
    if contains_query(family.id.as_str(), query) || contains_query(family.title.as_str(), query)
        || contains_query(family.subtitle.as_str(), query) || contains_query(
        family.description.as_str(),
        query,
    ) || any_contains_query(&family.tags, query) {
        return true;
    }
    let mut i: usize = 0;
    while i < family.variants.len()
        invariant
            i <= family.variants.len(),
            forall|j: int| 0 <= j < i ==> !variant_matches(#[trigger] family.variants@[j], query@),
        decreases family.variants.len() - i,
    {
        if variant_matches_query(&family.variants[i], query) {
            return true;
        }
        i = i + 1;
    }
    false
}

/// Positions, in order, of the catalog families that match a search.
pub fn matching_families(families: &[ModelFamily], query: &str) -> (r: Vec<usize>)
    ensures
        forall|k: int| 0 <= k < r.len() ==> r@[k] < families.len(),
        forall|k: int, l: int| 0 <= k < l < r.len() ==> r@[k] < r@[l],
        forall|i: int|
            0 <= i < families.len() ==> (r@.contains(i as usize) <==> family_matches(
                #[trigger] families@[i],
                normalized_query(query@),
            )),
{
    let q = normalize_query(query);
    let mut r: Vec<usize> = Vec::new();
    let mut i: usize = 0;
    while i < families.len()
        invariant
            i <= families.len(),
            q@ == normalized_query(query@),
            forall|k: int| 0 <= k < r.len() ==> r@[k] < i,
            forall|k: int, l: int| 0 <= k < l < r.len() ==> r@[k] < r@[l],
            forall|x: int|
                0 <= x < i ==> (r@.contains(x as usize) <==> family_matches(
                    #[trigger] families@[x],
                    q@,
                )),
        decreases families.len() - i,
    {
        let ghost before = r@;
        if model_family_matches_query(&families[i], q.as_str()) {
            r.push(i);
            assert forall|x: int| 0 <= x < i + 1 implies (r@.contains(x as usize) <==> family_matches(
                #[trigger] families@[x],
                q@,
            )) by {
                if x < i {
                    if r@.contains(x as usize) {
                        let k = choose|k: int| 0 <= k < r@.len() && r@[k] == x as usize;
                        if k < before.len() {
                            assert(before[k] == x as usize);
                        }
                    }
                    if before.contains(x as usize) {
                        let k = choose|k: int| 0 <= k < before.len() && before[k] == x as usize;
                        assert(r@[k] == x as usize);
                    }
                } else {
                    assert(r@[before.len() as int] == i);
                }
            }
        } else {
            assert forall|x: int| 0 <= x < i + 1 implies (r@.contains(x as usize) <==> family_matches(
                #[trigger] families@[x],
                q@,
            )) by {
                if x == i {
                    if r@.contains(x as usize) {
                        let k = choose|k: int| 0 <= k < r@.len() && r@[k] == x as usize;
                        assert(r@[k] < i);
                    }
                }
            }
        }
        i = i + 1;
    }
    r
}

// ----------------------------------------------------------------------
// Download history.
// ----------------------------------------------------------------------

pub open spec fn status_text(status: DownloadJobStatus) -> Seq<char> {
    match status {
        DownloadJobStatus::Queued => "Queued"@,
        DownloadJobStatus::Running => "Running"@,
        DownloadJobStatus::Complete => "Complete"@,
        DownloadJobStatus::Cancelled => "Cancelled"@,
        DownloadJobStatus::Failed => "Failed"@,
    }
}

pub fn download_job_status_text(status: &DownloadJobStatus) -> (r: &'static str)
    ensures
        r@ == status_text(*status),
{
    match status {
        DownloadJobStatus::Queued => "Queued",
        DownloadJobStatus::Running => "Running",
        DownloadJobStatus::Complete => "Complete",
        DownloadJobStatus::Cancelled => "Cancelled",
        DownloadJobStatus::Failed => "Failed",
    }
}

/// A stored byte count read back as unsigned; negative counts are dropped.
pub fn optional_i64_to_u64(value: Option<i64>) -> (r: Option<u64>)
    ensures
        r == match value {
            Some(v) => if v >= 0 {
                Some(v as u64)
            } else {
                None::<u64>
            },
            None => None::<u64>,
        },
{
    match value {
        Some(v) => if v >= 0 {
            Some(v as u64)
        } else {
            None
        },
        None => None,
    }
}

/// Which progress line a download shows; the sizes in it are written by the caller.
#[derive(Clone, Copy, Debug, PartialEq, Eq)]
pub enum DownloadProgress {
    /// `{completed} of {total}`.
    Of { completed: u64, total: u64 },
    /// `{completed} downloaded`.
    Downloaded { completed: u64 },
    /// `{total} total`.
    Total { total: u64 },
    /// No progress line.
    Hidden,
}

pub open spec fn as_unsigned(v: Option<i64>) -> Option<u64> {
    match v {
        Some(x) => if x >= 0 {
            Some(x as u64)
        } else {
            None
        },
        None => None,
    }
}

/// A known total with a known count shows both; else a positive count, else a
/// positive total; else no line.
pub open spec fn progress_of(completed: Option<i64>, total: Option<i64>) -> DownloadProgress {
    let c = as_unsigned(completed);
    let t = as_unsigned(total);
    if c is Some && t is Some && t.unwrap() > 0 {
        DownloadProgress::Of { completed: c.unwrap(), total: t.unwrap() }
    } else if c is Some && c.unwrap() > 0 {
        DownloadProgress::Downloaded { completed: c.unwrap() }
    } else if t is Some && t.unwrap() > 0 {
        DownloadProgress::Total { total: t.unwrap() }
    } else {
        DownloadProgress::Hidden
    }
}

pub fn download_job_progress(job: &DownloadJob) -> (r: DownloadProgress)
    ensures
        r == progress_of(job.completed_bytes, job.total_bytes),
{
    match (optional_i64_to_u64(job.completed_bytes), optional_i64_to_u64(job.total_bytes)) {
        (Some(completed), Some(total)) if total > 0 => DownloadProgress::Of { completed, total },
        (Some(completed), _) if completed > 0 => DownloadProgress::Downloaded { completed },
        (_, Some(total)) if total > 0 => DownloadProgress::Total { total },
        _ => DownloadProgress::Hidden,
    }
}

/// A stored timestamp shortened for the history: when the text without its
/// trailing `Z`s holds a `.`, the part of it before the first `.`; else the
/// whole text as stored. Each `T` in it becomes a space.
pub open spec fn compact_download_text(value: Seq<char>) -> Seq<char> {
    let t = trim_end_char(value, 'Z');
    let head = if contains_char(t, '.') {
        before_first(t, '.')
    } else {
        value
    };
    head.map_values(
        |c: char|
            if c == 'T' {
                ' '
            } else {
                c
            },
    )
}

pub fn compact_download_timestamp(value: &str) -> (r: String)
    ensures
        r@ == compact_download_text(value@),
{
    let v = chars_of(value);
    let n = v.len();
    let mut b: usize = n;
    while b > 0 && v[b - 1] == 'Z'
        invariant
            b <= n == v.len(),
            forall|j: int| b <= j < n ==> #[trigger] v@[j] == 'Z',
        decreases b,
    {
        b = b - 1;
    }
    let t = crate::text::chars_range(v.as_slice(), 0, b);
    proof {
        lemma_trim_end_char_skip(v@, 'Z', b as int);
        if t@.len() > 0 {
            assert(t@.last() == v@[b - 1]);
        }
        assert(trim_end_char(t@, 'Z') == t@);
    }
    let hv: Vec<char> = match index_of(t.as_slice(), '.') {
        Some(_) => chars_of(before_first_of(t.as_slice(), '.').as_str()),
        None => v,
    };
    let mut out = String::new();
    let mut i: usize = 0;
    while i < hv.len()
        invariant
            i <= hv.len(),
            out@ == hv@.subrange(0, i as int).map_values(
                |c: char|
                    if c == 'T' {
                        ' '
                    } else {
                        c
                    },
            ),
        decreases hv.len() - i,
    {
        let c = if hv[i] == 'T' {
            ' '
        } else {
            hv[i]
        };
        crate::text::push_char(&mut out, c);
        i = i + 1;
        assert(out@ =~= hv@.subrange(0, i as int).map_values(
            |c: char|
                if c == 'T' {
                    ' '
                } else {
                    c
                },
        ));
    }
    assert(hv@.subrange(0, hv.len() as int) =~= hv@);
    out
}

pub open spec fn failure_line(job: DownloadJob) -> Seq<Seq<char>> {
    if job.status == DownloadJobStatus::Failed {
        opt_part(nonempty_opt(job.error_message))
    } else {
        Seq::empty()
    }
}

/// The lines under a download in the history: its progress line when there
/// is one (as the caller wrote it), when it was updated, and why it failed.
pub open spec fn job_subtitle(job: DownloadJob, progress: Option<Seq<char>>) -> Seq<char> {
    join(
        opt_part(progress) + seq!["Updated "@ + compact_download_text(job.updated_at@)] + failure_line(
            job,
        ),
        "\n"@,
    )
}

pub fn download_job_subtitle(job: &DownloadJob, progress: Option<String>) -> (r: String)
    ensures
        r@ == job_subtitle(*job, crate::urls::opt_view(progress)),
{
    let mut lines: Vec<String> = Vec::new();
    let ghost p = crate::urls::opt_view(progress);
    match progress {
        Some(p) => {
            lines.push(p);
        },
        None => {},
    }
    assert(string_views(lines@) =~= opt_part(p));
    let mut updated = to_owned_string("Updated ");
    let stamp = compact_download_timestamp(job.updated_at.as_str());
    push_str(&mut updated, stamp.as_str());
    let ghost before = lines@;
    lines.push(updated);
    assert(string_views(lines@) =~= string_views(before) + seq![updated@]);
    if job.status == DownloadJobStatus::Failed {
        push_nonempty(&mut lines, &job.error_message);
    } else {
        assert(string_views(lines@) =~= string_views(lines@) + Seq::<Seq<char>>::empty());
    }
    join_strings(lines.as_slice(), "\n")
}

// ----------------------------------------------------------------------
// The model picker of the chat.
// ----------------------------------------------------------------------

/// The model shown picked: the first entry that is the remembered model, else the first.
pub open spec fn picker_selected(names: Seq<Seq<char>>, selected: Option<Seq<char>>) -> int {
    match selected {
        Some(m) => if names.contains(m) {
            choose|i: int| 0 <= i < names.len() && names[i] == m && forall|j: int| 0 <= j < i ==> names[j] != m
        } else {
            0
        },
        None => 0,
    }
}

/// What the chat's model picker shows for the models that can chat: their
/// names, the one picked, and whether the picker can be used. With no model it
/// shows "No model selected" and cannot be used.
pub fn model_picker_choices(models: &[String], selected_model: Option<&str>) -> (r: (Vec<String>, u32, bool))
    ensures
        models@.len() == 0 ==> string_views(r.0@) == seq!["No model selected"@] && r.1 == 0 && !r.2,
        models@.len() > 0 ==> string_views(r.0@) == string_views(models@) && r.1 == picker_selected(
            string_views(models@),
            match selected_model {
                Some(m) => Some(m@),
                None => None,
            },
        ) as u32 && r.2,
{
    if models.len() == 0 {
        let mut labels: Vec<String> = Vec::new();
        labels.push(to_owned_string("No model selected"));
        assert(string_views(labels@) =~= seq!["No model selected"@]);
        return (labels, 0, false);
    }
    let ghost names = string_views(models@);
    let ghost sel: Option<Seq<char>> = match selected_model {
        Some(m) => Some(m@),
        None => None,
    };
    let mut labels: Vec<String> = Vec::new();
    let mut found: Option<usize> = None;
    let mut i: usize = 0;
    while i < models.len()
        invariant
            i <= models.len(),
            names == string_views(models@),
            sel == (match selected_model {
                Some(m) => Some(m@),
                None => None,
            }),
            string_views(labels@) == names.subrange(0, i as int),
            match found {
                Some(k) => k < i && sel is Some && names[k as int] == sel.unwrap() && forall|j: int|
                    0 <= j < k ==> names[j] != sel.unwrap(),
                None => sel is None || forall|j: int| 0 <= j < i ==> names[j] != sel.unwrap(),
            },
        decreases models.len() - i,
    {
        let ghost l0 = labels@;
        labels.push(models[i].clone());
        assert(names[i as int] == models@[i as int]@);
        assert(string_views(labels@) =~= string_views(l0).push(names[i as int]));
        assert(names.subrange(0, i + 1) =~= names.subrange(0, i as int).push(names[i as int]));
        if found.is_none() {
            match selected_model {
                Some(m) => {
                    if str_eq(models[i].as_str(), m) {
                        found = Some(i);
                    }
                },
                None => {},
            }
        }
        i = i + 1;
    }
    assert(names.subrange(0, models.len() as int) =~= names);
    let selected: usize = match found {
        Some(k) => {
            proof {
                let m = sel.unwrap();
                let c = choose|x: int| 0 <= x < names.len() && names[x] == m && forall|j: int| 0 <= j < x ==> names[j] != m;
                assert(0 <= k < names.len() && names[k as int] == m && forall|j: int| 0 <= j < k ==> names[j] != m);
                if c < k {
                    assert(names[c] != m);
                }
                if c > k {
                    assert(names[k as int] != m);
                }
            }
            k
        },
        None => {
            proof {
                if sel is Some && names.contains(sel.unwrap()) {
                    let x = choose|x: int| 0 <= x < names.len() && names[x] == sel.unwrap();
                    assert(names[x] != sel.unwrap());
                }
            }
            0
        },
    };
    (labels, selected as u32, true)
}


/// An installed model matches a (lower-case) search exactly when the search is
/// empty, or the lower-cased text of one of its name, family, families,
/// parameter size or quantization level holds it.
pub proof fn model_search_law(m: OllamaModel, query: Seq<char>)
    ensures
        query.len() == 0 ==> model_matches(m, query),
        contains_seq(lower(m.name@), query) ==> model_matches(m, query),
        (m.family matches Some(f) && contains_seq(lower(f@), query)) ==> model_matches(m, query),
        forall|i: int| 0 <= i < m.families.len() && contains_seq(lower(#[trigger] m.families@[i]@), query)
            ==> model_matches(m, query),
        (m.parameter_size matches Some(p) && contains_seq(lower(p@), query)) ==> model_matches(m, query),
        (m.quantization_level matches Some(ql) && contains_seq(lower(ql@), query)) ==> model_matches(m, query),
        model_matches(m, query) ==> {
            ||| query.len() == 0
            ||| contains_seq(lower(m.name@), query)
            ||| (m.family matches Some(f) && contains_seq(lower(f@), query))
            ||| (exists|i: int| 0 <= i < m.families.len() && contains_seq(lower(#[trigger] m.families@[i]@), query))
            ||| (m.parameter_size matches Some(p) && contains_seq(lower(p@), query))
            ||| (m.quantization_level matches Some(ql) && contains_seq(lower(ql@), query))
        },
{
    assert forall|i: int| 0 <= i < m.families.len() && contains_seq(lower(#[trigger] m.families@[i]@), query)
        implies model_matches(m, query) by {
        assert(matches_query(m.families@[i]@, query));
    }
}

} // verus!
