//! Ollama instances the client can talk to, and the validation of their settings.
use vstd::prelude::*;

use crate::error::{MooseError, Result};
use crate::ids::{new_id, utc_now};
use crate::ollama::service::{base_url_for_port, managed_base_url};
use crate::text::{
    any_ctrl, char_is_ascii_alnum, chars_of, has_ctrl, is_ascii_alnum, lemma_trim_end_char_skip, lemma_trim_noop, push_str,
    str_eq, string_from_range, to_owned_string, trim, trim_bounds, trim_end_char, trim_string,
    utf8_len, utf8_len_at_most,
};
use crate::urls::{parse_url, parsed_url, UrlView};

verus! {

pub const DEFAULT_OLLAMA_BASE_URL: &'static str = "http://127.0.0.1:11434/api";

pub const MAX_MODEL_NAME_BYTES: usize = 256;

#[derive(Clone, Copy, Debug, PartialEq, Eq, Structural)]
pub enum ProviderKind {
    Ollama,
}

impl ProviderKind {
    pub open spec fn text(self) -> Seq<char> {
        match self {
            ProviderKind::Ollama => "ollama"@,
        }
    }

    /// Storage value of the kind.
    pub fn as_str(&self) -> (r: &'static str)
        ensures
            r@ == self.text(),
    {
        match self {
            ProviderKind::Ollama => "ollama",
        }
    }

    /// Reads a stored kind; any text but `ollama` is refused.
    pub fn parse_kind(value: &str) -> (r: Result<ProviderKind>)
        ensures
            value@ == "ollama"@ ==> r == Ok::<ProviderKind, MooseError>(ProviderKind::Ollama),
            value@ != "ollama"@ ==> (r matches Err(MooseError::InvalidOllamaResponse(m)) && m@
                == "unknown provider kind "@ + value@),
    {
        if str_eq(value, "ollama") {
            Ok(ProviderKind::Ollama)
        } else {
            let mut message = to_owned_string("unknown provider kind ");
            push_str(&mut message, value);
            Err(MooseError::InvalidOllamaResponse(message))
        }
    }
}

impl core::str::FromStr for ProviderKind {
    type Err = MooseError;

    fn from_str(value: &str) -> (r: Result<ProviderKind>)
        ensures
            value@ == "ollama"@ ==> r == Ok::<ProviderKind, MooseError>(ProviderKind::Ollama),
            value@ != "ollama"@ ==> (r matches Err(MooseError::InvalidOllamaResponse(m)) && m@
                == "unknown provider kind "@ + value@),
    {
        ProviderKind::parse_kind(value)
    }
}

#[derive(Clone, Debug, PartialEq, Eq)]
pub struct Provider {
    pub id: String,
    pub kind: ProviderKind,
    pub name: String,
    pub base_url: String,
    pub is_managed: bool,
    pub is_default: bool,
    pub created_at: String,
    pub updated_at: String,
}

#[derive(Clone, Debug, PartialEq, Eq)]
pub struct NewProvider {
    pub kind: ProviderKind,
    pub name: String,
    pub base_url: String,
    pub is_managed: bool,
    pub is_default: bool,
}

#[derive(Clone, Debug, PartialEq, Eq)]
pub struct ProviderUpdate {
    pub id: String,
    pub name: String,
    pub base_url: String,
    pub is_default: bool,
}

// ----------------------------------------------------------------------
// Specifications of the validators.
// ----------------------------------------------------------------------

/// A provider name is the trimmed text: non-empty, without control characters.
pub open spec fn provider_name_ok(s: Seq<char>) -> bool {
    trim(s).len() > 0 && !has_ctrl(trim(s))
}

pub open spec fn model_name_char(c: char) -> bool {
    is_ascii_alnum(c) || c == '.' || c == ':' || c == '_' || c == '-' || c == '/' || c == '@'
}

/// A model name is the trimmed text: non-empty, at most 256 bytes, made of ASCII
/// letters, digits and `.:_-/@`.
pub open spec fn model_name_ok(s: Seq<char>) -> bool {
    let t = trim(s);
    &&& t.len() > 0
    &&& utf8_len(t) <= 256
    &&& forall|i: int| 0 <= i < t.len() ==> model_name_char(#[trigger] t[i])
}

/// The text a base URL is stored as: trimmed, without trailing slashes.
pub open spec fn base_url_text(s: Seq<char>) -> Seq<char> {
    trim_end_char(trim(s), '/')
}

/// An HTTP(S) URL with a host, and without credentials, query or fragment.
pub open spec fn url_accepted(u: UrlView) -> bool {
    &&& (u.scheme == "http"@ || u.scheme == "https"@)
    &&& u.username.len() == 0
    &&& u.password is None
    &&& u.host is Some
    &&& u.query is None
    &&& u.fragment is None
}

pub open spec fn base_url_ok(s: Seq<char>) -> bool {
    match parsed_url(base_url_text(s)) {
        Some(u) => url_accepted(u),
        None => false,
    }
}

/// The error `validate_base_url` gives for a refused text.
pub open spec fn base_url_error(s: Seq<char>, e: MooseError) -> bool {
    match parsed_url(base_url_text(s)) {
        Some(u) => !url_accepted(u) && e == MooseError::InvalidProviderUrl,
        None => e is Url,
    }
}

// ----------------------------------------------------------------------
// Validators.
// ----------------------------------------------------------------------

pub fn validate_provider_name(value: &str) -> (r: Result<String>)
    ensures
        r is Ok <==> provider_name_ok(value@),
        r matches Ok(s) ==> s@ == trim(value@),
        r matches Err(e) ==> e == MooseError::InvalidProviderName,
{
    let v = chars_of(value);
    let (a, b) = trim_bounds(v.as_slice());
    let t = string_from_range(v.as_slice(), a, b);
    let tv = chars_of(t.as_str());
    if tv.len() == 0 || any_ctrl(tv.as_slice()) {
        return Err(MooseError::InvalidProviderName);
    }
    Ok(t)
}

/// A managed server's base URL is its own stored text: already trimmed, and
/// ending in `i`, not `/`.
proof fn lemma_managed_base_url_text(s: Seq<char>)
    requires
        managed_base_url(s),
    ensures
        base_url_text(s) == s,
{
    let port = choose|port: u16| s == #[trigger] base_url_for_port(port);
    reveal_strlit("http://");
    reveal_strlit("/api");
    assert(s[0] == 'h');
    assert(s.last() == 'i');
    lemma_trim_noop(s);
}

/// Checks a provider's base URL and gives the text it is stored as. The base
/// URL of a managed server, `http://127.0.0.1:<port>/api`, is accepted as it is.
pub fn validate_base_url(value: &str) -> (r: Result<String>)
    ensures
        r is Ok <==> base_url_ok(value@),
        r matches Ok(s) ==> s@ == base_url_text(value@),
        r matches Err(e) ==> base_url_error(value@, e),
        managed_base_url(value@) ==> (r matches Ok(s) && s@ == value@),
{
    let v = chars_of(value);
    let (a, b0) = trim_bounds(v.as_slice());
    let mut b = b0;
    while b > a && v[b - 1] == '/'
        invariant
            a <= b <= b0 <= v.len(),
            forall|j: int| b <= j < b0 ==> #[trigger] v@[j] == '/',
        decreases b,
    {
        b = b - 1;
    }
    proof {
        let t = v@.subrange(a as int, b0 as int);
        assert forall|j: int| (b - a) <= j < t.len() implies #[trigger] t[j] == '/' by {
            assert(t[j] == v@[j + a]);
        }
        lemma_trim_end_char_skip(t, '/', b - a);
        assert(t.subrange(0, b - a) =~= v@.subrange(a as int, b as int));
        let u = v@.subrange(a as int, b as int);
        if b > a {
            assert(u.last() == v@[b - 1]);
        }
        assert(trim_end_char(u, '/') == u);
    }
    let text = string_from_range(v.as_slice(), a, b);
    proof {
        if managed_base_url(value@) {
            lemma_managed_base_url_text(value@);
            assert(managed_base_url(text@));
        }
    }
    let parts = match parse_url(text.as_str()) {
        Ok(parts) => parts,
        Err(failure) => return Err(MooseError::Url(failure.error)),
    };
    let supported_scheme = str_eq(parts.scheme.as_str(), "http") || str_eq(
        parts.scheme.as_str(),
        "https",
    );
    let username = chars_of(parts.username.as_str());
    let has_credentials = username.len() != 0 || parts.password.is_some();
    if !supported_scheme || parts.host.is_none() || has_credentials || parts.query.is_some()
        || parts.fragment.is_some() {
        return Err(MooseError::InvalidProviderUrl);
    }
    Ok(text)
}

pub fn validate_model_name(value: &str) -> (r: Result<String>)
    ensures
        r is Ok <==> model_name_ok(value@),
        r matches Ok(s) ==> s@ == trim(value@),
        r matches Err(e) ==> e == MooseError::InvalidModelName,
{
    let t = trim_string(value);
    let tv = chars_of(t.as_str());
    if tv.len() == 0 || !utf8_len_at_most(tv.as_slice(), MAX_MODEL_NAME_BYTES) {
        return Err(MooseError::InvalidModelName);
    }
    let mut i: usize = 0;
    while i < tv.len()
        invariant
            i <= tv.len(),
            tv@ == trim(value@),
            forall|j: int| 0 <= j < i ==> model_name_char(#[trigger] tv@[j]),
        decreases tv.len() - i,
    {
        let c = tv[i];
        if !(char_is_ascii_alnum(c) || c == '.' || c == ':' || c == '_' || c == '-' || c == '/'
            || c == '@') {
            return Err(MooseError::InvalidModelName);
        }
        i = i + 1;
    }
    Ok(t)
}

impl NewProvider {
    /// The provider for an Ollama on this machine at its usual address.
    pub fn local_ollama(is_default: bool) -> (r: NewProvider)
        ensures
            r.kind == ProviderKind::Ollama,
            r.name@ == "Local Ollama"@,
            r.base_url@ == "http://127.0.0.1:11434/api"@,
            !r.is_managed,
            r.is_default == is_default,
    {
        NewProvider {
            kind: ProviderKind::Ollama,
            name: to_owned_string("Local Ollama"),
            base_url: to_owned_string(DEFAULT_OLLAMA_BASE_URL),
            is_managed: false,
            is_default,
        }
    }

    /// The provider with the given identifier and creation time, once its name
    /// and base URL are valid.
    pub fn into_provider_with(self, id: String, timestamp: String) -> (r: Result<Provider>)
        ensures
            r is Ok <==> provider_name_ok(self.name@) && base_url_ok(self.base_url@),
            r matches Ok(p) ==> {
                &&& p.id == id
                &&& p.kind == self.kind
                &&& p.name@ == trim(self.name@)
                &&& p.base_url@ == base_url_text(self.base_url@)
                &&& p.is_managed == self.is_managed
                &&& p.is_default == self.is_default
                &&& p.created_at == timestamp
                &&& p.updated_at == timestamp
            },
            r matches Err(e) ==> if !provider_name_ok(self.name@) {
                e == MooseError::InvalidProviderName
            } else {
                base_url_error(self.base_url@, e)
            },
    {
        let name = validate_provider_name(self.name.as_str())?;
        let base_url = validate_base_url(self.base_url.as_str())?;
        let created_at = timestamp.clone();
        Ok(Provider {
            id,
            kind: self.kind,
            name,
            base_url,
            is_managed: self.is_managed,
            is_default: self.is_default,
            created_at,
            updated_at: timestamp,
        })
    }

    /// The provider with a fresh identifier, created now.
    pub fn into_provider(self) -> (r: Result<Provider>)
        ensures
            r is Ok <==> provider_name_ok(self.name@) && base_url_ok(self.base_url@),
            r matches Ok(p) ==> {
                &&& p.kind == self.kind
                &&& p.name@ == trim(self.name@)
                &&& p.base_url@ == base_url_text(self.base_url@)
                &&& p.is_managed == self.is_managed
                &&& p.is_default == self.is_default
                &&& p.created_at == p.updated_at
            },
            r matches Err(e) ==> if !provider_name_ok(self.name@) {
                e == MooseError::InvalidProviderName
            } else {
                base_url_error(self.base_url@, e)
            },
    {
        let timestamp = utc_now();
        let id = new_id();
        self.into_provider_with(id, timestamp)
    }
}

/// A model name that passes validation is stored trimmed, and the stored
/// name passes validation again unchanged.
pub proof fn lemma_model_name_validation_idempotent(s: Seq<char>)
    requires
        model_name_ok(s),
    ensures
        model_name_ok(trim(s)),
        trim(trim(s)) == trim(s),
{
    crate::text::lemma_trim_idempotent(s);
}

} // verus!
