use moose::error::MooseError;
use moose::ollama::extraction::{extraction_step, ArchiveEntryKind, EntryAction, ExtractionState};
use moose::ollama::manager::{DownloadCheck, ManagedOllamaAsset};

const ABC_SHA256: &str = "ba7816bf8f01cfea414140de5dae2223b00361a396177a9cb410ff61f20015ad";

fn asset(sha256: &str, size_bytes: Option<u64>) -> ManagedOllamaAsset {
    ManagedOllamaAsset { url: "https://example.com".to_string(), sha256: sha256.to_string(), size_bytes }
}

#[test]
fn downloads_are_hashed_as_they_arrive() {
    let mut check = DownloadCheck::new();
    check.feed(b"a");
    check.feed(b"bc");
    assert_eq!(check.downloaded(), 3);
    assert_eq!(check.finish(&asset(&ABC_SHA256.to_uppercase(), Some(3))), Ok(()));
    let mut whole = DownloadCheck::new();
    whole.feed(b"abc");
    assert_eq!(whole.finish(&asset(ABC_SHA256, None)), Ok(()));
}

#[test]
fn downloads_with_another_digest_or_size_are_refused() {
    let mut wrong = DownloadCheck::new();
    wrong.feed(b"abd");
    assert!(matches!(
        wrong.finish(&asset(ABC_SHA256, Some(3))),
        Err(MooseError::ManagedOllamaChecksumMismatch { .. })
    ));
    let mut short = DownloadCheck::new();
    short.feed(b"ab");
    assert_eq!(
        short.finish(&asset(ABC_SHA256, Some(3))),
        Err(MooseError::ManagedOllamaDownloadFailed("expected 3 bytes, downloaded 2 bytes".to_string()))
    );
    let empty = DownloadCheck::new();
    assert_eq!(empty.downloaded(), 0);
    assert!(matches!(
        empty.finish(&asset(ABC_SHA256, None)),
        Err(MooseError::ManagedOllamaChecksumMismatch { actual, .. })
            if actual == "e3b0c44298fc1c149afbf4c8996fb92427ae41e4649b934ca495991b7852b855"
    ));
}

fn refused(message: &str) -> Result<EntryAction, MooseError> {
    Err(MooseError::ManagedOllamaExtractionFailed(message.to_string()))
}

#[test]
fn archive_entries_are_decided_in_order() {
    let mut state = ExtractionState::new();
    assert!(matches!(
        extraction_step(&mut state, ArchiveEntryKind::Metadata, "/../anything", None),
        Ok(EntryAction::Skip)
    ));
    assert!(matches!(
        extraction_step(&mut state, ArchiveEntryKind::Directory, "./bin/", None),
        Ok(EntryAction::Directory(p)) if p == "bin"
    ));
    assert!(matches!(
        extraction_step(&mut state, ArchiveEntryKind::Directory, "bin", None),
        Ok(EntryAction::Directory(_))
    ));
    assert!(matches!(
        extraction_step(&mut state, ArchiveEntryKind::File, "./bin//ollama", None),
        Ok(EntryAction::File(p)) if p == "bin/ollama"
    ));
    assert!(matches!(
        extraction_step(&mut state, ArchiveEntryKind::File, "bin/ollama", None),
        Err(MooseError::ManagedOllamaExtractionFailed(m)) if m == "duplicate archive entry bin/ollama"
    ));
    assert!(matches!(
        extraction_step(&mut state, ArchiveEntryKind::Symlink, "lib/libx.so", Some("libx.so.1")),
        Ok(EntryAction::Symlink { path, target }) if path == "lib/libx.so" && target == "libx.so.1"
    ));
    assert!(matches!(
        extraction_step(&mut state, ArchiveEntryKind::HardLink, "lib/copy", Some("bin/ollama")),
        Ok(EntryAction::HardLink { path, target }) if path == "lib/copy" && target == "bin/ollama"
    ));
    assert_eq!(
        format!("{:?}", extraction_step(&mut state, ArchiveEntryKind::Symlink, "lib/a", None).map(|_| ())),
        format!("{:?}", refused("symlink entry is missing a target").map(|_| ()))
    );
    assert!(matches!(
        extraction_step(&mut state, ArchiveEntryKind::HardLink, "lib/b", Some("../etc/passwd")),
        Err(MooseError::ManagedOllamaExtractionFailed(m))
            if m == "archive path ../etc/passwd is not a safe relative path"
    ));
    assert!(matches!(
        extraction_step(&mut state, ArchiveEntryKind::File, "/etc/passwd", None),
        Err(MooseError::ManagedOllamaExtractionFailed(_))
    ));
    assert!(matches!(
        extraction_step(&mut state, ArchiveEntryKind::Other("Fifo".to_string()), "pipe", None),
        Err(MooseError::ManagedOllamaExtractionFailed(m)) if m == "unsupported archive entry type Fifo for pipe"
    ));
}
