//! Providers as the window lists them: which run on this machine, the names
//! offered for new ones, the port a new managed server takes, and the models
//! that can chat.
use vstd::prelude::*;

use crate::error::MooseError;
use crate::ollama::service::{base_url_for_port, managed_ollama_base_url, port_ok, validate_managed_ollama_port};
use crate::ollama::OllamaModel;
use crate::presentation::settings::{i64_value, parse_i64};
use crate::providers::{provider_name_ok, validate_provider_name, NewProvider, Provider, ProviderKind, ProviderUpdate};
use crate::text::{
    chars_of, decimal, decimal_string, push_str, str_eq, string_from_range, string_views, to_owned_string, trim,
    trim_bounds,
};
use crate::urls::{parse_url, parsed_url};

verus! {

pub open spec fn trim_brackets_start(s: Seq<char>) -> Seq<char>
    decreases s.len(),
{
    if s.len() > 0 && (s[0] == '[' || s[0] == ']') {
        trim_brackets_start(s.drop_first())
    } else {
        s
    }
}

pub open spec fn trim_brackets_end(s: Seq<char>) -> Seq<char>
    decreases s.len(),
{
    if s.len() > 0 && (s.last() == '[' || s.last() == ']') {
        trim_brackets_end(s.drop_last())
    } else {
        s
    }
}

/// A host name without the brackets around an IPv6 address.
pub open spec fn bare_host(h: Seq<char>) -> Seq<char> {
    trim_brackets_end(trim_brackets_start(h))
}

pub open spec fn is_local_host(h: Seq<char>) -> bool {
    h == "localhost"@ || h == "127.0.0.1"@ || h == "::1"@
}

/// A provider runs on this machine when the application manages it, or when
/// its URL names the loopback host.
pub open spec fn provider_local(p: Provider) -> bool {
    p.is_managed || match parsed_url(p.base_url@) {
        Some(u) => match u.host {
            Some(h) => is_local_host(bare_host(h)),
            None => false,
        },
        None => false,
    }
}

proof fn lemma_bracket_start_skip(s: Seq<char>, i: int)
    requires
        0 <= i <= s.len(),
        forall|j: int| 0 <= j < i ==> #[trigger] s[j] == '[' || s[j] == ']',
    ensures
        trim_brackets_start(s) == trim_brackets_start(s.subrange(i, s.len() as int)),
    decreases i,
{
    if i == 0 {
        assert(s.subrange(0, s.len() as int) =~= s);
    } else {
        let t = s.drop_first();
        assert(s[0] == '[' || s[0] == ']');
        assert forall|j: int| 0 <= j < i - 1 implies #[trigger] t[j] == '[' || t[j] == ']' by {
            assert(t[j] == s[j + 1]);
        }
        lemma_bracket_start_skip(t, i - 1);
        assert(t.subrange(i - 1, t.len() as int) =~= s.subrange(i, s.len() as int));
    }
}

proof fn lemma_bracket_end_skip(s: Seq<char>, k: int)
    requires
        0 <= k <= s.len(),
        forall|j: int| k <= j < s.len() ==> #[trigger] s[j] == '[' || s[j] == ']',
    ensures
        trim_brackets_end(s) == trim_brackets_end(s.subrange(0, k)),
    decreases s.len() - k,
{
    if k == s.len() {
        assert(s.subrange(0, k) =~= s);
    } else {
        let t = s.drop_last();
        assert(s.last() == s[s.len() - 1]);
        assert forall|j: int| k <= j < t.len() implies #[trigger] t[j] == '[' || t[j] == ']' by {
            assert(t[j] == s[j]);
        }
        lemma_bracket_end_skip(t, k);
        assert(t.subrange(0, k) =~= s.subrange(0, k));
    }
}

fn bare_host_of(h: &str) -> (r: String)
    ensures
        r@ == bare_host(h@),
{
    let v = chars_of(h);
    let n = v.len();
    let mut a: usize = 0;
    while a < n && (v[a] == '[' || v[a] == ']')
        invariant
            a <= n == v.len(),
            forall|j: int| 0 <= j < a ==> #[trigger] v@[j] == '[' || v@[j] == ']',
        decreases n - a,
    {
        a = a + 1;
    }
    proof {
        lemma_bracket_start_skip(v@, a as int);
    }
    let ghost t = v@.subrange(a as int, n as int);
    assert(t.len() > 0 ==> t[0] == v@[a as int]);
    assert(trim_brackets_start(t) == t);
    let mut b: usize = n;
    while b > a && (v[b - 1] == '[' || v[b - 1] == ']')
        invariant
            a <= b <= n == v.len(),
            forall|j: int| b <= j < n ==> #[trigger] v@[j] == '[' || v@[j] == ']',
        decreases b,
    {
        b = b - 1;
    }
    proof {
        assert forall|j: int| (b - a) <= j < t.len() implies #[trigger] t[j] == '[' || t[j] == ']' by {
            assert(t[j] == v@[j + a]);
        }
        lemma_bracket_end_skip(t, b - a);
        let u = t.subrange(0, b - a);
        assert(u =~= v@.subrange(a as int, b as int));
        assert(u.len() > 0 ==> u.last() == v@[b - 1]);
        assert(trim_brackets_end(u) == u);
    }
    string_from_range(v.as_slice(), a, b)
}

/// Whether a provider runs on this machine, where a remote pull needs no confirmation.
pub fn provider_is_local(provider: &Provider) -> (r: bool)
    ensures
        r == provider_local(*provider),
{
    if provider.is_managed {
        return true;
    }
    match parse_url(provider.base_url.as_str()) {
        Ok(url) => match url.host {
            Some(host) => {
                let h = bare_host_of(host.as_str());
                str_eq(h.as_str(), "localhost") || str_eq(h.as_str(), "127.0.0.1") || str_eq(
                    h.as_str(),
                    "::1",
                )
            },
            None => false,
        },
        Err(_) => false,
    }
}

/// The name offered for a new provider when `count` providers exist; when
/// they could not be counted, no number.
pub open spec fn provider_name_text(count: Option<usize>) -> Seq<char> {
    match count {
        Some(n) => "Ollama Provider "@ + decimal((n + 1) as nat),
        None => "Ollama Provider"@,
    }
}

pub fn provider_name_for_count(count: Option<usize>) -> (r: String)
    requires
        count matches Some(n) ==> n < usize::MAX,
    ensures
        r@ == provider_name_text(count),
{
    match count {
        Some(n) => {
            let mut s = to_owned_string("Ollama Provider ");
            let digits = decimal_string((n + 1) as u64);
            push_str(&mut s, digits.as_str());
            s
        },
        None => to_owned_string("Ollama Provider"),
    }
}

/// The number of managed providers.
pub open spec fn managed_count(ps: Seq<Provider>) -> nat
    decreases ps.len(),
{
    if ps.len() == 0 {
        0
    } else {
        managed_count(ps.drop_last()) + if ps.last().is_managed {
            1nat
        } else {
            0nat
        }
    }
}

pub fn managed_provider_count(providers: &[Provider]) -> (r: usize)
    ensures
        r == managed_count(providers@),
{
    let mut count: usize = 0;
    let mut i: usize = 0;
    while i < providers.len()
        invariant
            i <= providers.len(),
            count == managed_count(providers@.subrange(0, i as int)),
            count <= i,
        decreases providers.len() - i,
    {
        assert(providers@.subrange(0, i + 1).drop_last() =~= providers@.subrange(0, i as int));
        if providers[i].is_managed {
            count = count + 1;
        }
        i = i + 1;
    }
    assert(providers@.subrange(0, providers.len() as int) =~= providers@);
    count
}

/// The name offered for a new managed provider: the first has no number, the
/// next ones count on from 2.
pub open spec fn managed_name_text(managed: usize) -> Seq<char> {
    if managed == 0 {
        "Managed Ollama"@
    } else {
        "Managed Ollama "@ + decimal((managed + 1) as nat)
    }
}

pub fn managed_provider_name(managed_count: usize) -> (r: String)
    requires
        managed_count < usize::MAX,
    ensures
        r@ == managed_name_text(managed_count),
{
    if managed_count == 0 {
        to_owned_string("Managed Ollama")
    } else {
        let mut s = to_owned_string("Managed Ollama ");
        let digits = decimal_string((managed_count + 1) as u64);
        push_str(&mut s, digits.as_str());
        s
    }
}

/// The first port from `port` on that no managed provider uses, or the
/// highest port when all above are taken.
pub open spec fn is_port_candidate(used: Seq<u16>, port: u16, r: u16) -> bool {
    &&& port <= r
    &&& forall|p: u16| port <= p < r ==> used.contains(p)
    &&& (r < u16::MAX ==> !used.contains(r))
}

pub fn next_port_candidate(used_ports: &[u16], port: u16) -> (r: u16)
    ensures
        is_port_candidate(used_ports@, port, r),
{
    let mut p = port;
    loop
        invariant
            port <= p,
            forall|q: u16| port <= q < p ==> used_ports@.contains(q),
        decreases u16::MAX - p,
    {
        let mut found = false;
        let mut i: usize = 0;
        while i < used_ports.len()
            invariant
                i <= used_ports.len(),
                found == (exists|j: int| 0 <= j < i && used_ports@[j] == p),
            decreases used_ports.len() - i,
        {
            if used_ports[i] == p {
                found = true;
            }
            i = i + 1;
        }
        if !found || p == u16::MAX {
            return p;
        }
        p = p + 1;
    }
}

/// The names of the models that can chat, in order.
pub open spec fn chat_names(ms: Seq<OllamaModel>) -> Seq<Seq<char>>
    decreases ms.len(),
{
    if ms.len() == 0 {
        Seq::empty()
    } else if ms.last().supports_chat {
        chat_names(ms.drop_last()).push(ms.last().name@)
    } else {
        chat_names(ms.drop_last())
    }
}

pub fn chat_model_names(models: &[OllamaModel]) -> (r: Vec<String>)
    ensures
        string_views(r@) == chat_names(models@),
{
    let mut r: Vec<String> = Vec::new();
    let mut i: usize = 0;
    while i < models.len()
        invariant
            i <= models.len(),
            string_views(r@) == chat_names(models@.subrange(0, i as int)),
        decreases models.len() - i,
    {
        let ghost before = r@;
        assert(models@.subrange(0, i + 1).drop_last() =~= models@.subrange(0, i as int));
        assert(models@.subrange(0, i + 1).last() == models@[i as int]);
        if models[i].supports_chat {
            r.push(models[i].name.clone());
            assert(string_views(r@) =~= string_views(before).push(models@[i as int].name@));
        }
        i = i + 1;
    }
    assert(models@.subrange(0, models.len() as int) =~= models@);
    r
}

// ----------------------------------------------------------------------
// The fields of the dialog that installs a managed server.
// ----------------------------------------------------------------------

pub open spec fn port_hint() -> Seq<char> {
    "Use a port from 1024 to 65535 except 11434"@
}

/// The port typed into the dialog: the trimmed text as a whole number, which
/// must be a port that a managed server may take. A negative number, one past
/// 65535, or text that is no number gets the same hint.
pub open spec fn port_entry(text: Seq<char>) -> Result<u16, Seq<char>> {
    match i64_value(trim(text)) {
        Some(v) => if 0 <= v <= 65535 && port_ok(v as u16) {
            Ok(v as u16)
        } else {
            Err(port_hint())
        },
        None => Err(port_hint()),
    }
}

pub fn managed_port_from_text(text: &str) -> (r: Result<u16, String>)
    ensures
        match port_entry(text@) {
            Ok(p) => r == Ok::<u16, String>(p),
            Err(m) => r matches Err(e) && e@ == m,
        },
{
    let v = chars_of(text);
    let (a, b) = trim_bounds(v.as_slice());
    let t = string_from_range(v.as_slice(), a, b);
    let hint = "Use a port from 1024 to 65535 except 11434";
    proof {
        reveal_strlit("Use a port from 1024 to 65535 except 11434");
    }
    match parse_i64(t.as_str()) {
        Some(value) => {
            if 0 <= value && value <= 65535 {
                let port: u16 = value as u16;
                match validate_managed_ollama_port(port) {
                    Ok(p) => Ok(p),
                    Err(_) => Err(to_owned_string(hint)),
                }
            } else {
                Err(to_owned_string(hint))
            }
        },
        None => Err(to_owned_string(hint)),
    }
}

/// The provider name typed into the dialog, trimmed, or a hint when it is blank
/// or holds a control character.
pub open spec fn provider_name_entry(text: Seq<char>) -> Result<Seq<char>, Seq<char>> {
    if provider_name_ok(text) {
        Ok(trim(text))
    } else {
        Err("Enter a provider name"@)
    }
}

pub fn managed_provider_name_from_text(text: &str) -> (r: Result<String, String>)
    ensures
        match provider_name_entry(text@) {
            Ok(n) => r matches Ok(s) && s@ == n,
            Err(m) => r matches Err(e) && e@ == m,
        },
{
    match validate_provider_name(text) {
        Ok(name) => Ok(name),
        Err(_) => {
            proof {
                reveal_strlit("Enter a provider name");
            }
            Err(to_owned_string("Enter a provider name"))
        },
    }
}

// ----------------------------------------------------------------------
// Switching providers.
// ----------------------------------------------------------------------

/// Why the active provider cannot change now: a reply that is still being
/// written, then a model download, then a model deletion, in that order.
pub open spec fn provider_change_reason(generating: bool, pulling: bool, deleting: bool) -> Option<Seq<char>> {
    if generating {
        Some("Finish the active generation first"@)
    } else if pulling {
        Some("Finish the active model download first"@)
    } else if deleting {
        Some("Finish the active model deletion first"@)
    } else {
        None
    }
}

pub fn provider_change_block(generating: bool, pulling: bool, deleting: bool) -> (r: Option<String>)
    ensures
        match provider_change_reason(generating, pulling, deleting) {
            Some(m) => r matches Some(s) && s@ == m,
            None => r is None,
        },
{
    if generating {
        proof {
            reveal_strlit("Finish the active generation first");
        }
        Some(to_owned_string("Finish the active generation first"))
    } else if pulling {
        proof {
            reveal_strlit("Finish the active model download first");
        }
        Some(to_owned_string("Finish the active model download first"))
    } else if deleting {
        proof {
            reveal_strlit("Finish the active model deletion first");
        }
        Some(to_owned_string("Finish the active model deletion first"))
    } else {
        None
    }
}

/// The port typed into the preferences: the trimmed text as a whole number
/// that a managed server may take. Text that is no port number is refused as
/// port 0; a port that may not be taken is refused as itself.
pub open spec fn port_setting(text: Seq<char>) -> core::result::Result<u16, MooseError> {
    match i64_value(trim(text)) {
        Some(v) => if 0 <= v <= 65535 {
            if port_ok(v as u16) {
                Ok(v as u16)
            } else {
                Err(MooseError::ManagedOllamaInvalidPort(v as u16))
            }
        } else {
            Err(MooseError::ManagedOllamaInvalidPort(0))
        },
        None => Err(MooseError::ManagedOllamaInvalidPort(0)),
    }
}

pub fn managed_port_from_setting(text: &str) -> (r: crate::error::Result<u16>)
    ensures
        r == port_setting(text@),
{
    let v = chars_of(text);
    let (a, b) = trim_bounds(v.as_slice());
    let t = string_from_range(v.as_slice(), a, b);
    match parse_i64(t.as_str()) {
        Some(value) => {
            if 0 <= value && value <= 65535 {
                validate_managed_ollama_port(value as u16)
            } else {
                Err(MooseError::ManagedOllamaInvalidPort(0))
            }
        },
        None => Err(MooseError::ManagedOllamaInvalidPort(0)),
    }
}

/// How a managed provider for a port is saved: the managed provider that
/// already has the port's address is renamed and made the default, else a
/// new default managed provider is made.
pub enum ManagedProviderChange {
    Update(ProviderUpdate),
    Create(NewProvider),
}

/// The first managed provider with that address, if any.
pub open spec fn first_managed_at(providers: Seq<Provider>, url: Seq<char>, i: int) -> bool {
    &&& 0 <= i < providers.len()
    &&& providers[i].is_managed && providers[i].base_url@ == url
    &&& forall|j: int| 0 <= j < i ==> !(#[trigger] providers[j].is_managed && providers[j].base_url@ == url)
}

pub fn managed_provider_change(providers: &[Provider], name: &str, port: u16) -> (r: crate::error::Result<
    ManagedProviderChange,
>)
    ensures
        !port_ok(port) ==> (r matches Err(e) && e == MooseError::ManagedOllamaInvalidPort(port)),
        port_ok(port) ==> match r {
            Ok(ManagedProviderChange::Update(u)) => exists|i: int|
                first_managed_at(providers@, base_url_for_port(port), i) && u.id == providers@[i].id
                    && u.name@ == name@ && u.base_url@ == base_url_for_port(port) && u.is_default,
            Ok(ManagedProviderChange::Create(n)) => (forall|i: int|
                0 <= i < providers@.len() ==> !(#[trigger] providers@[i].is_managed && providers@[i].base_url@
                    == base_url_for_port(port))) && n.kind == ProviderKind::Ollama && n.name@ == name@
                && n.base_url@ == base_url_for_port(port) && n.is_managed && n.is_default,
            Err(_) => false,
        },
{
    let base_url = managed_ollama_base_url(port)?;
    let ghost url = base_url@;
    let mut i: usize = 0;
    while i < providers.len()
        invariant
            i <= providers.len(),
            port_ok(port),
            url == base_url@,
            url == base_url_for_port(port),
            forall|j: int| 0 <= j < i ==> !(#[trigger] providers@[j].is_managed && providers@[j].base_url@ == url),
        decreases providers.len() - i,
    {
        if providers[i].is_managed && str_eq(providers[i].base_url.as_str(), base_url.as_str()) {
            let update = ProviderUpdate {
                id: providers[i].id.clone(),
                name: to_owned_string(name),
                base_url,
                is_default: true,
            };
            proof {
                assert(first_managed_at(providers@, url, i as int) && update.id == providers@[i as int].id);
            }
            return Ok(ManagedProviderChange::Update(update));
        }
        i = i + 1;
    }
    Ok(
        ManagedProviderChange::Create(
            NewProvider {
                kind: ProviderKind::Ollama,
                name: to_owned_string(name),
                base_url,
                is_managed: true,
                is_default: true,
            },
        ),
    )
}

} // verus!
