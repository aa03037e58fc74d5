//! The pinned Ollama release the application can install for itself, and the
//! checks its download and archive go through.
use vstd::prelude::*;

use crate::digest::{sha256_digest, sha256_fed, sha256_feed, sha256_finish, sha256_start, Sha256State};
use crate::error::{MooseError, Result};
use crate::text::{
    chars_of, is_ascii_hexdigit, join, lower, lower_chars, chars_eq, push_char, push_str,
    split, split_chars, str_eq, string_views, to_owned_string, trim, decimal, decimal_string,
    is_blank, join_strings, no_char, parts_without,
};
use crate::urls::{parse_url, url_parse_outcome, UrlView};

verus! {

pub const INSTALLATION_METADATA_FILE: &'static str = "managed_ollama_installation.json";

pub const OLLAMA_BINARY_RELATIVE_PATH: &'static str = "bin/ollama";

#[derive(Clone, Debug, PartialEq, Eq)]
pub struct ManagedOllamaAsset {
    pub url: String,
    pub sha256: String,
    pub size_bytes: Option<u64>,
}

/// The pinned release and its assets, keyed by architecture. The keys are
/// distinct and in ascending order (the type's invariant), as in a sorted map.
#[derive(Debug, PartialEq, Eq)]
pub struct ManagedOllamaManifest {
    version: String,
    assets: Vec<(String, ManagedOllamaAsset)>,
}

/// `str`'s order: lexicographic by character, which for UTF-8 text is the
/// order of the bytes.
pub open spec fn key_less(a: Seq<char>, b: Seq<char>) -> bool
    decreases a.len(),
{
    if a.len() == 0 {
        b.len() > 0
    } else if b.len() == 0 {
        false
    } else if a[0] != b[0] {
        (a[0] as u32) < (b[0] as u32)
    } else {
        key_less(a.drop_first(), b.drop_first())
    }
}

/// The keys are in strictly ascending order, so none occurs twice.
pub open spec fn keys_ascending(entries: Seq<(String, ManagedOllamaAsset)>) -> bool {
    forall|i: int, j: int|
        0 <= i < j < entries.len() ==> key_less(#[trigger] entries[i].0@, #[trigger] entries[j].0@)
}

proof fn lemma_key_less_irreflexive(a: Seq<char>)
    ensures
        !key_less(a, a),
    decreases a.len(),
{
    if a.len() > 0 {
        lemma_key_less_irreflexive(a.drop_first());
    }
}

/// Keys in ascending order are distinct.
pub proof fn lemma_ascending_keys_distinct(entries: Seq<(String, ManagedOllamaAsset)>, i: int, j: int)
    requires
        keys_ascending(entries),
        0 <= i < j < entries.len(),
    ensures
        entries[i].0@ != entries[j].0@,
{
    lemma_key_less_irreflexive(entries[i].0@);
}

fn str_less(a: &str, b: &str) -> (r: bool)
    ensures
        r == key_less(a@, b@),
{
    let x = chars_of(a);
    let y = chars_of(b);
    assert(x@.subrange(0, x.len() as int) =~= x@);
    assert(y@.subrange(0, y.len() as int) =~= y@);
    let mut i: usize = 0;
    while i < x.len() && i < y.len() && x[i] == y[i]
        invariant
            i <= x.len(),
            i <= y.len(),
            key_less(a@, b@) == key_less(x@.subrange(i as int, x.len() as int), y@.subrange(i as int, y.len() as int)),
            x@ == a@,
            y@ == b@,
        decreases x.len() - i,
    {
        let ghost xs = x@.subrange(i as int, x.len() as int);
        let ghost ys = y@.subrange(i as int, y.len() as int);
        assert(xs.drop_first() =~= x@.subrange(i + 1, x.len() as int));
        assert(ys.drop_first() =~= y@.subrange(i + 1, y.len() as int));
        i = i + 1;
    }
    let ghost xs = x@.subrange(i as int, x.len() as int);
    let ghost ys = y@.subrange(i as int, y.len() as int);
    if i == x.len() {
        i < y.len()
    } else if i == y.len() {
        false
    } else {
        assert(xs[0] == x@[i as int] && ys[0] == y@[i as int]);
        (x[i] as u32) < (y[i] as u32)
    }
}

#[derive(Clone, Copy, Debug, PartialEq, Eq, Hash, Ord, PartialOrd, Structural)]
pub enum ManagedOllamaArchitecture {
    Amd64,
    Arm64,
}

#[derive(Clone, Debug, PartialEq, Eq)]
pub enum ManagedOllamaInstallStatus {
    NotInstalled,
    Installed { version: Option<String> },
}

#[derive(Clone, Debug, PartialEq, Eq)]
pub enum ManagedOllamaInstallProgress {
    DownloadStarted { total_bytes: Option<u64> },
    Downloading { downloaded_bytes: u64, total_bytes: Option<u64> },
    Verifying { downloaded_bytes: u64 },
    Extracting,
    Installing,
    Installed { version: String },
}

impl ManagedOllamaArchitecture {
    pub open spec fn text(self) -> Seq<char> {
        match self {
            ManagedOllamaArchitecture::Amd64 => "amd64"@,
            ManagedOllamaArchitecture::Arm64 => "arm64"@,
        }
    }

    pub fn as_str(self) -> (r: &'static str)
        ensures
            r@ == self.text(),
    {
        match self {
            ManagedOllamaArchitecture::Amd64 => "amd64",
            ManagedOllamaArchitecture::Arm64 => "arm64",
        }
    }

    /// The architecture Rust names `x86_64` or `aarch64`; others are unsupported.
    pub fn from_rust_arch(value: &str) -> (r: Result<ManagedOllamaArchitecture>)
        ensures
            value@ == "x86_64"@ ==> r == Ok::<ManagedOllamaArchitecture, MooseError>(
                ManagedOllamaArchitecture::Amd64,
            ),
            value@ == "aarch64"@ ==> r == Ok::<ManagedOllamaArchitecture, MooseError>(
                ManagedOllamaArchitecture::Arm64,
            ),
            value@ != "x86_64"@ && value@ != "aarch64"@ ==> (r matches Err(
                MooseError::ManagedOllamaUnsupportedArchitecture(m),
            ) && m@ == value@),
    {
        proof {
            reveal_strlit("x86_64");
            reveal_strlit("aarch64");
            assert("x86_64"@[0] != "aarch64"@[0]);
        }
        if str_eq(value, "x86_64") {
            Ok(ManagedOllamaArchitecture::Amd64)
        } else if str_eq(value, "aarch64") {
            Ok(ManagedOllamaArchitecture::Arm64)
        } else {
            Err(MooseError::ManagedOllamaUnsupportedArchitecture(to_owned_string(value)))
        }
    }

    /// The architecture a manifest key names.
    pub fn from_manifest_key(value: &str) -> (r: Result<ManagedOllamaArchitecture>)
        ensures
            value@ == "amd64"@ ==> r == Ok::<ManagedOllamaArchitecture, MooseError>(
                ManagedOllamaArchitecture::Amd64,
            ),
            value@ == "arm64"@ ==> r == Ok::<ManagedOllamaArchitecture, MooseError>(
                ManagedOllamaArchitecture::Arm64,
            ),
            !key_ok(value@) ==> (r matches Err(MooseError::ManagedOllamaManifestInvalid(m)) && m@
                == bad_key_message(value@)),
    {
        proof {
            reveal_strlit("amd64");
            reveal_strlit("arm64");
            assert("amd64"@[1] != "arm64"@[1]);
        }
        if str_eq(value, "amd64") {
            Ok(ManagedOllamaArchitecture::Amd64)
        } else if str_eq(value, "arm64") {
            Ok(ManagedOllamaArchitecture::Arm64)
        } else {
            let mut message = to_owned_string("unsupported manifest architecture ");
            push_str(&mut message, value);
            Err(MooseError::ManagedOllamaManifestInvalid(message))
        }
    }
}

// ----------------------------------------------------------------------
// Specification of the manifest checks.
// ----------------------------------------------------------------------

pub open spec fn key_ok(k: Seq<char>) -> bool {
    k == "amd64"@ || k == "arm64"@
}

pub open spec fn bad_key_message(k: Seq<char>) -> Seq<char> {
    "unsupported manifest architecture "@ + k
}

pub open spec fn version_ok(v: Seq<char>) -> bool {
    trim(v).len() > 0 && v.len() > 0 && v[0] == 'v'
}

/// The first index at which the key occurs.
pub open spec fn first_with_key(entries: Seq<(String, ManagedOllamaAsset)>, key: Seq<char>, i: int) -> bool {
    &&& 0 <= i < entries.len()
    &&& entries[i].0@ == key
    &&& forall|j: int| 0 <= j < i ==> (#[trigger] entries[j]).0@ != key
}

pub open spec fn has_key(entries: Seq<(String, ManagedOllamaAsset)>, key: Seq<char>) -> bool {
    exists|i: int| 0 <= i < entries.len() && (#[trigger] entries[i]).0@ == key
}

/// The asset stored under a key.
pub open spec fn asset_for(entries: Seq<(String, ManagedOllamaAsset)>, key: Seq<char>) -> Option<ManagedOllamaAsset> {
    if has_key(entries, key) {
        Some(entries[choose|i: int| first_with_key(entries, key, i)].1)
    } else {
        None
    }
}

/// The first index whose key names no architecture.
pub open spec fn first_bad_key(entries: Seq<(String, ManagedOllamaAsset)>, i: int) -> bool {
    &&& 0 <= i < entries.len()
    &&& !key_ok(entries[i].0@)
    &&& forall|j: int| 0 <= j < i ==> key_ok((#[trigger] entries[j]).0@)
}

pub open spec fn expected_asset_path(version: Seq<char>, arch: Seq<char>) -> Seq<char> {
    "/ollama/ollama/releases/download/"@ + version + "/ollama-linux-"@ + arch + ".tar.zst"@
}

pub open spec fn sha256_hex_ok(s: Seq<char>) -> bool {
    s.len() == 64 && forall|i: int| 0 <= i < s.len() ==> is_ascii_hexdigit(#[trigger] s[i])
}

pub open spec fn official_url(u: UrlView, version: Seq<char>, arch: Seq<char>) -> bool {
    &&& u.scheme == "https"@
    &&& u.host == Some("github.com"@)
    &&& u.path == expected_asset_path(version, arch)
    &&& u.query is None
    &&& u.fragment is None
}

/// The outcome of checking one asset: it must be the official release archive
/// for its architecture, with a SHA-256 checksum and a positive size if any.
pub open spec fn asset_check(a: ManagedOllamaAsset, version: Seq<char>, arch: Seq<char>) -> core::result::Result<(), Seq<char>> {
    match url_parse_outcome(a.url@) {
        Err(reason) => Err("invalid asset URL: "@ + reason),
        Ok(u) => if !official_url(u, version, arch) {
            Err(
                "asset URL for "@ + arch + " must point to the official Ollama GitHub release"@,
            )
        } else if !sha256_hex_ok(a.sha256@) {
            Err("asset checksum for "@ + arch + " must be a SHA-256 hex digest"@)
        } else if a.size_bytes == Some(0u64) {
            Err("asset size for "@ + arch + " must be greater than zero"@)
        } else {
            Ok(())
        },
    }
}

pub open spec fn arch_check(m: ManagedOllamaManifest, arch: Seq<char>) -> core::result::Result<(), Seq<char>> {
    match asset_for(m.spec_assets(), arch) {
        None => Err("missing asset for "@ + arch),
        Some(a) => asset_check(a, m.spec_version(), arch),
    }
}

/// The outcome of checking a manifest: the version is a release tag, every key
/// names an architecture, and both architectures have a valid asset. The first
/// problem found is reported.
pub open spec fn manifest_check(m: ManagedOllamaManifest) -> core::result::Result<(), Seq<char>> {
    if !version_ok(m.spec_version()) {
        Err("version must be a fixed release tag beginning with v"@)
    } else if exists|i: int| first_bad_key(m.spec_assets(), i) {
        Err(bad_key_message(m.spec_assets()[choose|i: int| first_bad_key(m.spec_assets(), i)].0@))
    } else {
        match arch_check(m, "amd64"@) {
            Err(e) => Err(e),
            Ok(_) => arch_check(m, "arm64"@),
        }
    }
}

// ----------------------------------------------------------------------
// Checks.
// ----------------------------------------------------------------------

fn manifest_invalid(message: String) -> (e: MooseError)
    ensures
        e == MooseError::ManagedOllamaManifestInvalid(message),
{
    MooseError::ManagedOllamaManifestInvalid(message)
}

fn concat3(a: &str, b: &str, c: &str) -> (r: String)
    ensures
        r@ == a@ + b@ + c@,
{
    let mut r = to_owned_string(a);
    push_str(&mut r, b);
    push_str(&mut r, c);
    r
}

/// Whether a text is 64 hexadecimal digits.
pub fn is_sha256_hex(value: &str) -> (r: bool)
    ensures
        r == sha256_hex_ok(value@),
{
    let v = chars_of(value);
    if v.len() != 64 {
        return false;
    }
    let mut i: usize = 0;
    while i < v.len()
        invariant
            i <= v.len(),
            v@ == value@,
            forall|j: int| 0 <= j < i ==> is_ascii_hexdigit(#[trigger] v@[j]),
        decreases v.len() - i,
    {
        let c = v[i];
        if !(('0' <= c && c <= '9') || ('a' <= c && c <= 'f') || ('A' <= c && c <= 'F')) {
            assert(!is_ascii_hexdigit(value@[i as int]));
            assert(!sha256_hex_ok(value@));
            return false;
        }
        i = i + 1;
    }
    true
}

fn find_asset(entries: &Vec<(String, ManagedOllamaAsset)>, key: &str) -> (r: Option<usize>)
    ensures
        match r {
            Some(i) => first_with_key(entries@, key@, i as int),
            None => !has_key(entries@, key@),
        },
{
    let mut i: usize = 0;
    while i < entries.len()
        invariant
            i <= entries.len(),
            forall|j: int| 0 <= j < i ==> (#[trigger] entries@[j]).0@ != key@,
        decreases entries.len() - i,
    {
        if str_eq(entries[i].0.as_str(), key) {
            return Some(i);
        }
        i = i + 1;
    }
    None
}

proof fn lemma_first_with_key_unique(entries: Seq<(String, ManagedOllamaAsset)>, key: Seq<char>, i: int)
    requires
        first_with_key(entries, key, i),
    ensures
        has_key(entries, key),
        asset_for(entries, key) == Some(entries[i].1),
{
    assert(has_key(entries, key));
    let k = choose|k: int| first_with_key(entries, key, k);
    assert(first_with_key(entries, key, k));
    if k < i {
        assert(entries[k].0@ != key);
    }
    if k > i {
        assert(entries[i].0@ != key);
    }
}

impl ManagedOllamaAsset {
    /// Checks that the asset is the official release archive for the architecture.
    pub fn validate(&self, version: &str, architecture: ManagedOllamaArchitecture) -> (r: Result<()>)
        ensures
            match asset_check(*self, version@, architecture.text()) {
                Ok(_) => r is Ok,
                Err(m) => r matches Err(MooseError::ManagedOllamaManifestInvalid(x)) && x@ == m,
            },
    {
        let arch = architecture.as_str();
        let parts = match parse_url(self.url.as_str()) {
            Ok(parts) => parts,
            Err(failure) => {
                let mut message = to_owned_string("invalid asset URL: ");
                push_str(&mut message, failure.message.as_str());
                return Err(manifest_invalid(message));
            },
        };
        let mut expected_path = to_owned_string("/ollama/ollama/releases/download/");
        push_str(&mut expected_path, version);
        push_str(&mut expected_path, "/ollama-linux-");
        push_str(&mut expected_path, arch);
        push_str(&mut expected_path, ".tar.zst");
        let host_ok = match &parts.host {
            Some(h) => str_eq(h.as_str(), "github.com"),
            None => false,
        };
        if !str_eq(parts.scheme.as_str(), "https") || !host_ok || !str_eq(
            parts.path.as_str(),
            expected_path.as_str(),
        ) || parts.query.is_some() || parts.fragment.is_some() {
            return Err(
                manifest_invalid(
                    concat3(
                        "asset URL for ",
                        arch,
                        " must point to the official Ollama GitHub release",
                    ),
                ),
            );
        }
        if !is_sha256_hex(self.sha256.as_str()) {
            return Err(
                manifest_invalid(concat3("asset checksum for ", arch, " must be a SHA-256 hex digest")),
            );
        }
        if matches!(self.size_bytes, Some(0)) {
            return Err(
                manifest_invalid(concat3("asset size for ", arch, " must be greater than zero")),
            );
        }
        Ok(())
    }
}


impl Clone for ManagedOllamaManifest {
    fn clone(&self) -> (r: Self)
        ensures
            r.spec_version() == self.spec_version(),
            r.spec_assets() == self.spec_assets(),
    {
        proof {
            use_type_invariant(self);
        }
        let mut assets: Vec<(String, ManagedOllamaAsset)> = Vec::new();
        let mut i: usize = 0;
        while i < self.assets.len()
            invariant
                i <= self.assets.len(),
                assets@ == self.assets@.subrange(0, i as int),
            decreases self.assets.len() - i,
        {
            let (key, asset) = &self.assets[i];
            let copy = ManagedOllamaAsset {
                url: asset.url.clone(),
                sha256: asset.sha256.clone(),
                size_bytes: asset.size_bytes,
            };
            assets.push((key.clone(), copy));
            assert(assets@ =~= self.assets@.subrange(0, i + 1));
            i = i + 1;
        }
        assert(assets@ =~= self.assets@);
        ManagedOllamaManifest { version: self.version.clone(), assets }
    }
}

impl ManagedOllamaManifest {
    #[verifier::type_invariant]
    spec fn assets_sorted(self) -> bool {
        keys_ascending(self.assets@)
    }

    pub closed spec fn spec_version(self) -> Seq<char> {
        self.version@
    }

    pub closed spec fn spec_assets(self) -> Seq<(String, ManagedOllamaAsset)> {
        self.assets@
    }

    /// A manifest for the release and its assets, when the assets' keys are in
    /// strictly ascending order (as a sorted map hands them out); none else.
    pub fn new(version: String, assets: Vec<(String, ManagedOllamaAsset)>) -> (r: Option<
        ManagedOllamaManifest,
    >)
        ensures
            r is Some <==> keys_ascending(assets@),
            r matches Some(m) ==> m.spec_version() == version@ && m.spec_assets() == assets@,
    {
        let mut i: usize = 0;
        while i < assets.len()
            invariant
                i <= assets.len(),
                forall|k: int, j: int|
                    0 <= k < j < assets.len() && k < i ==> key_less(
                        #[trigger] assets@[k].0@,
                        #[trigger] assets@[j].0@,
                    ),
            decreases assets.len() - i,
        {
            let mut j: usize = i + 1;
            while j < assets.len()
                invariant
                    i < assets.len(),
                    i + 1 <= j <= assets.len(),
                    forall|k: int, l: int|
                        0 <= k < l < assets.len() && k < i ==> key_less(
                            #[trigger] assets@[k].0@,
                            #[trigger] assets@[l].0@,
                        ),
                    forall|l: int| i < l < j ==> key_less(assets@[i as int].0@, #[trigger] assets@[l].0@),
                decreases assets.len() - j,
            {
                if !str_less(assets[i].0.as_str(), assets[j].0.as_str()) {
                    return None;
                }
                j = j + 1;
            }
            i = i + 1;
        }
        Some(ManagedOllamaManifest { version, assets })
    }

    /// The release tag.
    pub fn version(&self) -> (r: &str)
        ensures
            r@ == self.spec_version(),
    {
        self.version.as_str()
    }

    /// The assets by architecture key, in ascending key order.
    pub fn assets(&self) -> (r: &Vec<(String, ManagedOllamaAsset)>)
        ensures
            r@ == self.spec_assets(),
            keys_ascending(r@),
    {
        proof {
            use_type_invariant(self);
        }
        &self.assets
    }

    /// Checks the manifest, reporting the first problem.
    pub fn validate(&self) -> (r: Result<()>)
        ensures
            match manifest_check(*self) {
                Ok(_) => r is Ok,
                Err(m) => r matches Err(MooseError::ManagedOllamaManifestInvalid(x)) && x@ == m,
            },
    {
        let version_chars = chars_of(self.version.as_str());
        if is_blank(self.version.as_str()) || version_chars.len() == 0 || version_chars[0] != 'v' {
            return Err(
                manifest_invalid(
                    to_owned_string("version must be a fixed release tag beginning with v"),
                ),
            );
        }
        let mut i: usize = 0;
        while i < self.assets.len()
            invariant
                i <= self.assets.len(),
                version_ok(self.version@),
                forall|j: int| 0 <= j < i ==> key_ok((#[trigger] self.assets@[j]).0@),
            decreases self.assets.len() - i,
        {
            match ManagedOllamaArchitecture::from_manifest_key(self.assets[i].0.as_str()) {
                Ok(_) => {},
                Err(error) => {
                    proof {
                        assert(first_bad_key(self.assets@, i as int));
                        let k = choose|k: int| first_bad_key(self.assets@, k);
                        if k < i {
                            assert(key_ok(self.assets@[k].0@));
                        }
                        if k > i {
                            assert(key_ok(self.assets@[i as int].0@));
                        }
                    }
                    return Err(error);
                },
            }
            i = i + 1;
        }
        assert(!exists|k: int| first_bad_key(self.assets@, k));
        self.validate_architecture(ManagedOllamaArchitecture::Amd64)?;
        self.validate_architecture(ManagedOllamaArchitecture::Arm64)
    }

    fn validate_architecture(&self, architecture: ManagedOllamaArchitecture) -> (r: Result<()>)
        ensures
            match arch_check(*self, architecture.text()) {
                Ok(_) => r is Ok,
                Err(m) => r matches Err(MooseError::ManagedOllamaManifestInvalid(x)) && x@ == m,
            },
    {
        let key = architecture.as_str();
        match find_asset(&self.assets, key) {
            Some(index) => {
                proof {
                    lemma_first_with_key_unique(self.assets@, key@, index as int);
                }
                self.assets[index].1.validate(self.version.as_str(), architecture)
            },
            None => {
                let mut message = to_owned_string("missing asset for ");
                push_str(&mut message, key);
                Err(manifest_invalid(message))
            },
        }
    }

    /// The asset for an architecture.
    pub fn asset_for_architecture(&self, architecture: ManagedOllamaArchitecture) -> (r: Result<&ManagedOllamaAsset>)
        ensures
            match asset_for(self.spec_assets(), architecture.text()) {
                Some(a) => r == Ok::<&ManagedOllamaAsset, MooseError>(&a),
                None => r matches Err(MooseError::ManagedOllamaUnsupportedArchitecture(m)) && m@
                    == architecture.text(),
            },
    {
        let key = architecture.as_str();
        match find_asset(&self.assets, key) {
            Some(index) => {
                proof {
                    lemma_first_with_key_unique(self.assets@, key@, index as int);
                }
                Ok(&self.assets[index].1)
            },
            None => Err(MooseError::ManagedOllamaUnsupportedArchitecture(to_owned_string(key))),
        }
    }
}

// ----------------------------------------------------------------------
// Checking a download.
// ----------------------------------------------------------------------

/// A download is accepted when its size matches the expected size (if one is
/// known) and its digest matches the checksum, ignoring ASCII case.
pub open spec fn download_verdict(
    asset: ManagedOllamaAsset,
    downloaded: nat,
    actual: Seq<char>,
    r: Result<()>,
) -> bool {
    match asset.size_bytes {
        Some(expected) if downloaded != expected => r matches Err(
            MooseError::ManagedOllamaDownloadFailed(m),
        ) && m@ == "expected "@ + decimal(expected as nat) + " bytes, downloaded "@ + decimal(downloaded)
            + " bytes"@,
        _ => if lower(asset.sha256@) == lower(actual) {
            r is Ok
        } else {
            r matches Err(MooseError::ManagedOllamaChecksumMismatch { expected, actual: a })
                && expected == asset.sha256 && a@ == actual
        },
    }
}

pub fn verify_download(asset: &ManagedOllamaAsset, downloaded_bytes: u64, actual: &str) -> (r: Result<()>)
    ensures
        download_verdict(*asset, downloaded_bytes as nat, actual@, r),
{
    match asset.size_bytes {
        Some(expected_bytes) => {
            if downloaded_bytes != expected_bytes {
                let mut message = to_owned_string("expected ");
                let expected_text = decimal_string(expected_bytes);
                push_str(&mut message, expected_text.as_str());
                push_str(&mut message, " bytes, downloaded ");
                let downloaded_text = decimal_string(downloaded_bytes);
                push_str(&mut message, downloaded_text.as_str());
                push_str(&mut message, " bytes");
                return Err(MooseError::ManagedOllamaDownloadFailed(message));
            }
        },
        None => {},
    }
    let expected_lower = lower_chars(chars_of(asset.sha256.as_str()).as_slice());
    let actual_lower = lower_chars(chars_of(actual).as_slice());
    if !chars_eq(expected_lower.as_slice(), actual_lower.as_slice()) {
        return Err(
            MooseError::ManagedOllamaChecksumMismatch {
                expected: asset.sha256.clone(),
                actual: to_owned_string(actual),
            },
        );
    }
    Ok(())
}

pub open spec fn hex_digit(n: u8) -> char {
    if n < 10 {
        ((n + 48) as u32) as char
    } else {
        ((n + 87) as u32) as char
    }
}

/// Lowercase hexadecimal digits of bytes, two per byte.
pub open spec fn hex_of(bytes: Seq<u8>) -> Seq<char>
    decreases bytes.len(),
{
    if bytes.len() == 0 {
        Seq::empty()
    } else {
        hex_of(bytes.drop_last()) + seq![hex_digit(bytes.last() / 16), hex_digit(bytes.last() % 16)]
    }
}

fn hex_digit_char(n: u8) -> (c: char)
    requires
        n < 16,
    ensures
        c == hex_digit(n),
{
    if n < 10 {
        (n + 48) as char
    } else {
        (n + 87) as char
    }
}

/// The lowercase hexadecimal form of a digest.
pub fn hex_digest(bytes: &[u8]) -> (r: String)
    ensures
        r@ == hex_of(bytes@),
{
    let mut out = String::new();
    let mut i: usize = 0;
    while i < bytes.len()
        invariant
            i <= bytes.len(),
            out@ == hex_of(bytes@.subrange(0, i as int)),
        decreases bytes.len() - i,
    {
        let b = bytes[i];
        push_char(&mut out, hex_digit_char(b / 16));
        push_char(&mut out, hex_digit_char(b % 16));
        i = i + 1;
        assert(bytes@.subrange(0, i as int).drop_last() =~= bytes@.subrange(0, i - 1));
    }
    assert(bytes@.subrange(0, bytes.len() as int) =~= bytes@);
    out
}

/// A download being received: its bytes are counted and hashed as they
/// arrive, and checked against the asset at the end.
pub struct DownloadCheck {
    hasher: Sha256State,
    downloaded: u64,
}

impl View for DownloadCheck {
    type V = Seq<u8>;

    /// The bytes received so far.
    closed spec fn view(&self) -> Seq<u8> {
        sha256_fed(self.hasher)
    }
}

impl DownloadCheck {
    #[verifier::type_invariant]
    spec fn counted(self) -> bool {
        self.downloaded == sha256_fed(self.hasher).len()
    }

    /// A download that has received nothing yet.
    pub fn new() -> (r: DownloadCheck)
        ensures
            r@ == Seq::<u8>::empty(),
    {
        DownloadCheck { hasher: sha256_start(), downloaded: 0 }
    }

    /// The number of bytes received so far.
    pub fn downloaded(&self) -> (r: u64)
        ensures
            r == self@.len(),
    {
        proof {
            use_type_invariant(self);
        }
        self.downloaded
    }

    /// A chunk arrived after the bytes before it. The count must stay within
    /// a `u64`.
    pub fn feed(&mut self, chunk: &[u8])
        requires
            old(self)@.len() + chunk@.len() <= u64::MAX,
        ensures
            final(self)@ == old(self)@ + chunk@,
    {
        let mut current = DownloadCheck::new();
        core::mem::swap(&mut current, self);
        *self = current.followed_by(chunk);
    }

    fn followed_by(self, chunk: &[u8]) -> (r: DownloadCheck)
        requires
            self@.len() + chunk@.len() <= u64::MAX,
        ensures
            r@ == self@ + chunk@,
    {
        proof {
            use_type_invariant(&self);
        }
        let DownloadCheck { mut hasher, downloaded } = self;
        let n: u64 = chunk.len() as u64;
        sha256_feed(&mut hasher, chunk);
        DownloadCheck { hasher, downloaded: downloaded + n }
    }

    /// The check of the whole download against the asset: its size, then its
    /// SHA-256 digest in lower-case hex, as `verify_download` decides.
    pub fn finish(self, asset: &ManagedOllamaAsset) -> (r: Result<()>)
        ensures
            download_verdict(*asset, self@.len(), hex_of(sha256_digest(self@)), r),
    {
        proof {
            use_type_invariant(&self);
        }
        let downloaded = self.downloaded;
        let digest = sha256_finish(self.hasher);
        let actual = hex_digest(digest.as_slice());
        verify_download(asset, downloaded, actual.as_str())
    }
}

// ----------------------------------------------------------------------
// Archive paths.
// ----------------------------------------------------------------------

/// The components `Path::components` yields for a relative path on Unix: the
/// pieces between slashes, without empty pieces and `.`.
pub open spec fn path_components(pieces: Seq<Seq<char>>) -> Seq<Seq<char>>
    decreases pieces.len(),
{
    if pieces.len() == 0 {
        Seq::empty()
    } else {
        path_components(pieces.drop_last()) + if pieces.last().len() == 0 || pieces.last() == "."@ {
            Seq::<Seq<char>>::empty()
        } else {
            seq![pieces.last()]
        }
    }
}

pub open spec fn unsafe_path(p: Seq<char>) -> bool {
    ||| (p.len() > 0 && p[0] == '/')
    ||| exists|i: int| 0 <= i < split(p, '/').len() && #[trigger] split(p, '/')[i] == ".."@
}

/// The relative path an archive entry may be written to: no root, no `..`,
/// and at least one component.
pub open spec fn safe_path_check(p: Seq<char>) -> core::result::Result<Seq<char>, Seq<char>> {
    if unsafe_path(p) {
        Err("archive path "@ + p + " is not a safe relative path"@)
    } else if path_components(split(p, '/')).len() == 0 {
        Err("archive path is empty"@)
    } else {
        Ok(join(path_components(split(p, '/')), "/"@))
    }
}

/// The safe relative form of an archive entry's path.
pub fn safe_relative_path(path: &str) -> (r: Result<String>)
    ensures
        match safe_path_check(path@) {
            Ok(p) => r matches Ok(s) && s@ == p,
            Err(m) => r matches Err(MooseError::ManagedOllamaExtractionFailed(x)) && x@ == m,
        },
{
    let v = chars_of(path);
    let pieces = split_chars(v.as_slice(), '/');
    let mut parent_at: Option<usize> = None;
    let mut kept: Vec<String> = Vec::new();
    let mut i: usize = 0;
    while i < pieces.len()
        invariant
            i <= pieces.len(),
            string_views(pieces@) == split(path@, '/'),
            string_views(kept@) == path_components(string_views(pieces@).subrange(0, i as int)),
            match parent_at {
                Some(k) => k < pieces.len() && string_views(pieces@)[k as int] == ".."@,
                None => forall|j: int| 0 <= j < i ==> string_views(pieces@)[j] != ".."@,
            },
        decreases pieces.len() - i,
    {
        let ghost before = kept@;
        let ghost piece = pieces@[i as int]@;
        assert(string_views(pieces@)[i as int] == piece);
        assert(string_views(pieces@).subrange(0, i + 1).drop_last() =~= string_views(pieces@).subrange(0, i as int));
        if str_eq(pieces[i].as_str(), "..") {
            parent_at = Some(i);
        }
        proof {
            if piece.len() == 0 {
                assert(piece =~= Seq::<char>::empty());
            }
        }
        if chars_of(pieces[i].as_str()).len() == 0 || str_eq(pieces[i].as_str(), ".") {
            assert(string_views(kept@) =~= string_views(before) + Seq::<Seq<char>>::empty());
        } else {
            kept.push(pieces[i].clone());
            assert(string_views(kept@) =~= string_views(before) + seq![piece]);
        }
        i = i + 1;
    }
    assert(string_views(pieces@).subrange(0, pieces.len() as int) =~= string_views(pieces@));
    let rooted = v.len() > 0 && v[0] == '/';
    if rooted || parent_at.is_some() {
        let mut message = to_owned_string("archive path ");
        push_str(&mut message, path);
        push_str(&mut message, " is not a safe relative path");
        return Err(MooseError::ManagedOllamaExtractionFailed(message));
    }
    if kept.len() == 0 {
        return Err(MooseError::ManagedOllamaExtractionFailed(to_owned_string("archive path is empty")));
    }
    Ok(join_strings(kept.as_slice(), "/"))
}

/// The file name a release archive is downloaded to.
pub fn archive_download_file_name(version: &str, architecture: ManagedOllamaArchitecture, id: &str) -> (r: String)
    ensures
        r@ == "ollama-"@ + version@ + "-"@ + architecture.text() + "-"@ + id@ + ".tar.zst.download"@,
{
    let mut name = to_owned_string("ollama-");
    push_str(&mut name, version);
    push_str(&mut name, "-");
    push_str(&mut name, architecture.as_str());
    push_str(&mut name, "-");
    push_str(&mut name, id);
    push_str(&mut name, ".tar.zst.download");
    name
}

/// Every component is one of the pieces, non-empty and not `.`.
proof fn lemma_components_shape(pieces: Seq<Seq<char>>)
    ensures
        forall|i: int|
            0 <= i < path_components(pieces).len() ==> pieces.contains(
                #[trigger] path_components(pieces)[i],
            ) && path_components(pieces)[i].len() > 0 && path_components(pieces)[i] != "."@,
    decreases pieces.len(),
{
    if pieces.len() > 0 {
        let init = pieces.drop_last();
        lemma_components_shape(init);
        let c = path_components(pieces);
        let ci = path_components(init);
        assert forall|i: int| 0 <= i < c.len() implies pieces.contains(#[trigger] c[i]) && c[i].len() > 0 && c[i] != "."@ by {
            if i < ci.len() {
                assert(c[i] == ci[i]);
                let k = choose|k: int| 0 <= k < init.len() && init[k] == ci[i];
                assert(pieces[k] == init[k]);
            } else {
                assert(c[i] == pieces.last());
                assert(pieces[pieces.len() - 1] == pieces.last());
            }
        }
    }
}

/// Components that are already clean are kept as they are.
proof fn lemma_components_of_clean(cs: Seq<Seq<char>>)
    requires
        forall|i: int| 0 <= i < cs.len() ==> (#[trigger] cs[i]).len() > 0 && cs[i] != "."@,
    ensures
        path_components(cs) == cs,
    decreases cs.len(),
{
    if cs.len() > 0 {
        let init = cs.drop_last();
        assert forall|i: int| 0 <= i < init.len() implies (#[trigger] init[i]).len() > 0 && init[i] != "."@ by {
            assert(init[i] == cs[i]);
        }
        lemma_components_of_clean(init);
        assert(cs.last() == cs[cs.len() - 1]);
        assert(path_components(cs) =~= init.push(cs.last()));
        assert(init.push(cs.last()) =~= cs);
    }
}

/// The path an archive entry is written to passes the same check unchanged:
/// it is relative, without `..`, `.` or empty components.
pub proof fn lemma_safe_path_is_stable(path: Seq<char>)
    requires
        safe_path_check(path) is Ok,
    ensures
        safe_path_check(safe_path_check(path)->Ok_0) == safe_path_check(path),
{
    reveal_strlit("/");
    reveal_strlit("..");
    reveal_strlit(".");
    let pieces = split(path, '/');
    let cs = path_components(pieces);
    let q = join(cs, "/"@);
    assert("/"@ =~= seq!['/']);
    crate::text::lemma_split_no_sep(path, '/', Seq::empty());
    lemma_components_shape(pieces);
    assert(parts_without(cs, '/')) by {
        assert forall|i: int| 0 <= i < cs.len() implies no_char(#[trigger] cs[i], '/') by {
            let k = choose|k: int| 0 <= k < pieces.len() && pieces[k] == cs[i];
            assert(no_char(pieces[k], '/'));
        }
    }
    crate::text::lemma_split_join(cs, '/');
    assert(split(q, '/') == cs);
    lemma_components_of_clean(cs);
    crate::text::lemma_join_ends(cs, "/"@);
    assert(cs[0].len() > 0 && no_char(cs[0], '/'));
    assert(q[0] != '/');
    assert forall|i: int| 0 <= i < split(q, '/').len() implies #[trigger] split(q, '/')[i] != ".."@ by {
        let k = choose|k: int| 0 <= k < pieces.len() && pieces[k] == cs[i];
        assert(!unsafe_path(path));
        assert(split(path, '/')[k] != ".."@);
    }
    assert(!unsafe_path(q));
}

} // verus!
