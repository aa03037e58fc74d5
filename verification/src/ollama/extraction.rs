//! Extracting the managed Ollama archive: what is done with each entry, and
//! which entries are refused.
use vstd::prelude::*;

use crate::error::{MooseError, Result};
use crate::ollama::manager::{safe_path_check, safe_relative_path};
use crate::text::{push_str, str_eq, string_views, to_owned_string};

verus! {

/// The kind of an archive entry, as the archive reader tells it.
pub enum ArchiveEntryKind {
    /// An entry that only describes other entries (extended headers, long names).
    Metadata,
    Directory,
    File,
    Symlink,
    HardLink,
    /// Any other kind, with the reader's name for it.
    Other(String),
}

/// What to do with an entry: nothing, or make it at a safe relative path
/// (links with their safe relative target).
pub enum EntryAction {
    Skip,
    Directory(String),
    File(String),
    Symlink { path: String, target: String },
    HardLink { path: String, target: String },
}

/// The relative paths extracted so far, other than directories.
pub struct ExtractionState {
    paths: Vec<String>,
}

impl View for ExtractionState {
    type V = Seq<Seq<char>>;

    closed spec fn view(&self) -> Seq<Seq<char>> {
        string_views(self.paths@)
    }
}

pub open spec fn no_duplicates(s: Seq<Seq<char>>) -> bool {
    forall|i: int, j: int| 0 <= i < j < s.len() ==> #[trigger] s[i] != #[trigger] s[j]
}

/// The outcome of an entry, as a value the contract compares with.
pub enum EntryOutcome {
    Skip,
    Directory(Seq<char>),
    File(Seq<char>),
    Symlink(Seq<char>, Seq<char>),
    HardLink(Seq<char>, Seq<char>),
    Refused(Seq<char>),
}

pub open spec fn action_outcome(r: Result<EntryAction>) -> Option<EntryOutcome> {
    match r {
        Ok(EntryAction::Skip) => Some(EntryOutcome::Skip),
        Ok(EntryAction::Directory(p)) => Some(EntryOutcome::Directory(p@)),
        Ok(EntryAction::File(p)) => Some(EntryOutcome::File(p@)),
        Ok(EntryAction::Symlink { path, target }) => Some(EntryOutcome::Symlink(path@, target@)),
        Ok(EntryAction::HardLink { path, target }) => Some(EntryOutcome::HardLink(path@, target@)),
        Err(MooseError::ManagedOllamaExtractionFailed(m)) => Some(EntryOutcome::Refused(m@)),
        Err(_) => None,
    }
}

pub open spec fn kind_name(kind: ArchiveEntryKind) -> Seq<char> {
    match kind {
        ArchiveEntryKind::Other(name) => name@,
        _ => Seq::empty(),
    }
}

/// A link's target: refused when missing or unsafe, else its safe form.
pub open spec fn link_target(link: Option<Seq<char>>, missing: Seq<char>) -> core::result::Result<
    Seq<char>,
    Seq<char>,
> {
    match link {
        None => Err(missing),
        Some(t) => safe_path_check(t),
    }
}

/// What an entry leads to, in order: metadata is skipped; the path must be a
/// safe relative path; an entry other than a directory must not repeat a path
/// already extracted; then directories and files are made, links are made to
/// their safe target, and other kinds are refused.
pub open spec fn entry_outcome(
    extracted: Seq<Seq<char>>,
    kind: ArchiveEntryKind,
    raw_path: Seq<char>,
    link: Option<Seq<char>>,
) -> EntryOutcome {
    match kind {
        ArchiveEntryKind::Metadata => EntryOutcome::Skip,
        _ => match safe_path_check(raw_path) {
            Err(m) => EntryOutcome::Refused(m),
            Ok(p) => if !(kind is Directory) && extracted.contains(p) {
                EntryOutcome::Refused("duplicate archive entry "@ + p)
            } else {
                match kind {
                    ArchiveEntryKind::Directory => EntryOutcome::Directory(p),
                    ArchiveEntryKind::File => EntryOutcome::File(p),
                    ArchiveEntryKind::Symlink => match link_target(link, "symlink entry is missing a target"@) {
                        Err(m) => EntryOutcome::Refused(m),
                        Ok(t) => EntryOutcome::Symlink(p, t),
                    },
                    ArchiveEntryKind::HardLink => match link_target(
                        link,
                        "hardlink entry is missing a target"@,
                    ) {
                        Err(m) => EntryOutcome::Refused(m),
                        Ok(t) => EntryOutcome::HardLink(p, t),
                    },
                    _ => EntryOutcome::Refused(
                        "unsupported archive entry type "@ + kind_name(kind) + " for "@ + p,
                    ),
                }
            },
        },
    }
}

/// The extracted paths after an entry: a new path of an entry other than a
/// directory is added once its path has been found safe and new.
pub open spec fn extracted_after(
    extracted: Seq<Seq<char>>,
    kind: ArchiveEntryKind,
    raw_path: Seq<char>,
) -> Seq<Seq<char>> {
    match kind {
        ArchiveEntryKind::Metadata => extracted,
        ArchiveEntryKind::Directory => extracted,
        _ => match safe_path_check(raw_path) {
            Ok(p) => if extracted.contains(p) {
                extracted
            } else {
                extracted.push(p)
            },
            Err(_) => extracted,
        },
    }
}

pub open spec fn opt_str(o: Option<&str>) -> Option<Seq<char>> {
    match o {
        Some(s) => Some(s@),
        None => None,
    }
}

impl ExtractionState {
    #[verifier::type_invariant]
    spec fn paths_distinct(self) -> bool {
        no_duplicates(string_views(self.paths@))
    }

    /// Nothing extracted yet.
    pub fn new() -> (r: ExtractionState)
        ensures
            r@ == Seq::<Seq<char>>::empty(),
    {
        let r = ExtractionState { paths: Vec::new() };
        assert(string_views(r.paths@) =~= Seq::<Seq<char>>::empty());
        r
    }

    fn contains(&self, path: &str) -> (r: bool)
        ensures
            r == self@.contains(path@),
    {
        let mut i: usize = 0;
        while i < self.paths.len()
            invariant
                i <= self.paths.len(),
                forall|j: int| 0 <= j < i ==> self.paths@[j]@ != path@,
            decreases self.paths.len() - i,
        {
            if str_eq(self.paths[i].as_str(), path) {
                assert(self@[i as int] == path@);
                return true;
            }
            i = i + 1;
        }
        proof {
            if self@.contains(path@) {
                let k = choose|k: int| 0 <= k < self@.len() && self@[k] == path@;
                assert(self.paths@[k]@ == path@);
            }
        }
        false
    }

    fn add(&mut self, path: &str)
        requires
            !old(self)@.contains(path@),
        ensures
            final(self)@ == old(self)@.push(path@),
    {
        proof {
            use_type_invariant(&*self);
        }
        let mut paths: Vec<String> = Vec::new();
        core::mem::swap(&mut paths, &mut self.paths);
        let ghost before = string_views(paths@);
        paths.push(to_owned_string(path));
        proof {
            assert(string_views(paths@) =~= before.push(path@));
            assert forall|i: int, j: int|
                0 <= i < j < string_views(paths@).len() implies #[trigger] string_views(paths@)[i]
                != #[trigger] string_views(paths@)[j] by {
                if j == before.len() {
                    assert(before[i] != path@);
                } else {
                    assert(before[i] != before[j]);
                }
            }
        }
        self.paths = paths;
    }
}

/// Decides what to do with the next archive entry, and records its path.
pub fn extraction_step(
    state: &mut ExtractionState,
    kind: ArchiveEntryKind,
    raw_path: &str,
    link: Option<&str>,
) -> (r: Result<EntryAction>)
    ensures
        action_outcome(r) == Some(entry_outcome(old(state)@, kind, raw_path@, opt_str(link))),
        final(state)@ == extracted_after(old(state)@, kind, raw_path@),
        no_duplicates(final(state)@),
{
    let r = extraction_decision(state, kind, raw_path, link);
    proof {
        use_type_invariant(&*state);
    }
    r
}

fn extraction_decision(
    state: &mut ExtractionState,
    kind: ArchiveEntryKind,
    raw_path: &str,
    link: Option<&str>,
) -> (r: Result<EntryAction>)
    ensures
        action_outcome(r) == Some(entry_outcome(old(state)@, kind, raw_path@, opt_str(link))),
        final(state)@ == extracted_after(old(state)@, kind, raw_path@),
{
    if let ArchiveEntryKind::Metadata = kind {
        return Ok(EntryAction::Skip);
    }
    let path = safe_relative_path(raw_path)?;
    let is_dir = matches!(kind, ArchiveEntryKind::Directory);
    if !is_dir {
        if state.contains(path.as_str()) {
            let mut message = to_owned_string("duplicate archive entry ");
            push_str(&mut message, path.as_str());
            return Err(MooseError::ManagedOllamaExtractionFailed(message));
        }
        state.add(path.as_str());
    }
    match kind {
        ArchiveEntryKind::Directory => Ok(EntryAction::Directory(path)),
        ArchiveEntryKind::File => Ok(EntryAction::File(path)),
        ArchiveEntryKind::Symlink => match link {
            None => Err(
                MooseError::ManagedOllamaExtractionFailed(
                    to_owned_string("symlink entry is missing a target"),
                ),
            ),
            Some(t) => {
                let target = safe_relative_path(t)?;
                Ok(EntryAction::Symlink { path, target })
            },
        },
        ArchiveEntryKind::HardLink => match link {
            None => Err(
                MooseError::ManagedOllamaExtractionFailed(
                    to_owned_string("hardlink entry is missing a target"),
                ),
            ),
            Some(t) => {
                let target = safe_relative_path(t)?;
                Ok(EntryAction::HardLink { path, target })
            },
        },
        ArchiveEntryKind::Other(name) => {
            let mut message = to_owned_string("unsupported archive entry type ");
            push_str(&mut message, name.as_str());
            push_str(&mut message, " for ");
            push_str(&mut message, path.as_str());
            Err(MooseError::ManagedOllamaExtractionFailed(message))
        },
        ArchiveEntryKind::Metadata => Ok(EntryAction::Skip),
    }
}

} // verus!
