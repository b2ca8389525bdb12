//! How a downloaded payload is to be unpacked, decided by its file name alone.

use vstd::prelude::*;
use crate::text::ends_with;

verus! {

/// The way a payload is unpacked.
#[derive(Clone, Copy, Debug, PartialEq, Eq, Structural)]
pub enum ArchiveKind {
    /// A gzip stream that holds a tar archive.
    TarGz,
    /// A zip archive.
    Zip,
    /// No archive: the payload is the binary itself.
    Plain,
}

/// The kind of archive that a file name stands for: `.tar.gz` and `.tgz`
/// are gzipped tar, `.zip` is zip, and anything else is no archive.
pub open spec fn archive_kind_of(filename: Seq<char>) -> ArchiveKind {
    if ".tar.gz"@.is_suffix_of(filename) || ".tgz"@.is_suffix_of(filename) {
        ArchiveKind::TarGz
    } else if ".zip"@.is_suffix_of(filename) {
        ArchiveKind::Zip
    } else {
        ArchiveKind::Plain
    }
}

/// Decides from the file name alone how a payload is unpacked.
pub fn archive_kind(filename: &str) -> (kind: ArchiveKind)
    ensures
        kind == archive_kind_of(filename@),
{
    if ends_with(filename, ".tar.gz") || ends_with(filename, ".tgz") {
        ArchiveKind::TarGz
    } else if ends_with(filename, ".zip") {
        ArchiveKind::Zip
    } else {
        ArchiveKind::Plain
    }
}

/// Whether a payload of this name has to be unpacked before it is installed.
pub fn is_archive(filename: &str) -> (b: bool)
    ensures
        b == (archive_kind_of(filename@) != ArchiveKind::Plain),
{
    match archive_kind(filename) {
        ArchiveKind::Plain => false,
        _ => true,
    }
}

/// A name is never unpacked both ways: the zip decoder is used only for a
/// name that ends in `.zip`, and the gzip and tar decoders only for one
/// that ends in `.tar.gz` or `.tgz`.
pub proof fn lemma_dispatch_is_exclusive(filename: Seq<char>)
    ensures
        archive_kind_of(filename) == ArchiveKind::Zip ==> ".zip"@.is_suffix_of(filename) && !(
        ".tar.gz"@.is_suffix_of(filename) || ".tgz"@.is_suffix_of(filename)),
        archive_kind_of(filename) == ArchiveKind::TarGz <==> (".tar.gz"@.is_suffix_of(filename)
            || ".tgz"@.is_suffix_of(filename)),
        ".zip"@.is_suffix_of(filename) ==> archive_kind_of(filename) == ArchiveKind::Zip,
{
    reveal_strlit(".zip");
    reveal_strlit(".tar.gz");
    reveal_strlit(".tgz");
    if ".zip"@.is_suffix_of(filename) {
        let n = filename.len() as int;
        assert(filename.subrange(n - 4, n)[3] == 'p');
        if ".tar.gz"@.is_suffix_of(filename) {
            assert(filename.subrange(n - 7, n)[6] == 'z');
        }
        if ".tgz"@.is_suffix_of(filename) {
            assert(filename.subrange(n - 4, n)[3] == 'z');
        }
    }
}

} // verus!
