//! Distribution archives: gzipped tar files, read by the `tar` and `flate2` crates, and zip files,
//! read by the `zip` crate.
use vstd::prelude::*;

verus! {

/// What an attempt to read a text gives: the text, or the message of an error.
pub type Reading = Result<Seq<char>, Seq<char>>;

/// What an attempt to get at an archive's member gives: its path and its text, or the message of an
/// error.
pub type Member = Result<(Seq<char>, Reading), Seq<char>>;

/// What a string or the message of an error holds.
pub open spec fn reading(r: Result<String, String>) -> Reading {
    match r {
        Ok(s) => Ok(s@),
        Err(e) => Err(e@),
    }
}

/// A text that was read.
pub open spec fn text_read(t: Seq<char>) -> Reading {
    Ok(t)
}

/// The message of an error in place of a text.
pub open spec fn not_read(message: Seq<char>) -> Reading {
    Err(message)
}

/// A member with its path and its text.
pub open spec fn member_at(m: (Seq<char>, Reading)) -> Member {
    Ok(m)
}

/// The message of an error in place of a member.
pub open spec fn no_member(message: Seq<char>) -> Member {
    Err(message)
}

/// What an attempt to open an archive gives: its members, or the message of an error.
pub type Listing = Result<Seq<Member>, Seq<char>>;

/// The members of an archive.
pub open spec fn listed(members: Seq<Member>) -> Listing {
    Ok(members)
}

/// The message of an error in place of the members.
pub open spec fn unlisted(message: Seq<char>) -> Listing {
    Err(message)
}

/// A gzipped tar file.
#[verifier::external_body]
pub struct Sdist<'b>(tar::Archive<flate2::read::GzDecoder<&'b [u8]>>);

/// The members of a gzipped tar file, one after the other, and the one that came last.
#[verifier::external_body]
pub struct SdistEntries<'a, 'b> {
    entries: tar::Entries<'a, flate2::read::GzDecoder<&'b [u8]>>,
    current: Option<tar::Entry<'a, flate2::read::GzDecoder<&'b [u8]>>>,
}

/// The members of the gzipped tar file made of the bytes, or the message of the error that comes in
/// their place.
pub uninterp spec fn tar_listing(bytes: Seq<u8>) -> Listing;

/// The members that an archive gives when it is asked for them.
pub uninterp spec fn sdist_listing(archive: Sdist<'_>) -> Listing;

/// The members that are still to come. An error among them has no path and no text.
pub uninterp spec fn entries_left(entries: SdistEntries<'_, '_>) -> Seq<Member>;

/// The member that came last, where there is one that has not been read: its path, and what reading it
/// gives.
pub uninterp spec fn current_member(entries: SdistEntries<'_, '_>) -> Option<(Seq<char>, Reading)>;

/// `tar::Archive::new` on `flate2::read::GzDecoder::new`: the archive gives the members that the
/// bytes hold. Nothing is read yet, so that errors come later.
#[verifier::external_body]
pub(crate) fn sdist_open(bytes: &[u8]) -> (r: Sdist<'_>)
    ensures
        sdist_listing(r) == tar_listing(bytes@),
{
    Sdist(tar::Archive::new(flate2::read::GzDecoder::new(bytes)))
}

/// `tar::Archive::entries`: the members of the archive, in their order, or an error.
#[verifier::external_body]
pub(crate) fn sdist_entries<'a, 'b>(archive: &'a mut Sdist<'b>) -> (r: Result<
    SdistEntries<'a, 'b>,
    String,
>)
    ensures
        match r {
            Ok(entries) => sdist_listing(*old(archive)) == listed(entries_left(entries)),
            Err(e) => sdist_listing(*old(archive)) == unlisted(e@),
        },
{
    match archive.0.entries() {
        Ok(entries) => Ok(SdistEntries { entries, current: None }),
        Err(e) => Err(e.to_string()),
    }
}

/// `next` of `tar::Entries`: the first of the members that are left comes, and is then no longer left.
#[verifier::external_body]
pub(crate) fn sdist_next(entries: &mut SdistEntries<'_, '_>) -> (r: Option<Result<(), String>>)
    ensures
        match r {
            Some(Ok(_)) => {
                &&& entries_left(*old(entries)).len() > 0
                &&& current_member(*final(entries)) is Some
                &&& entries_left(*old(entries))[0] == member_at(current_member(*final(entries))->0)
                &&& entries_left(*final(entries)) == entries_left(*old(entries)).drop_first()
            },
            Some(Err(e)) => {
                &&& entries_left(*old(entries)).len() > 0
                &&& entries_left(*old(entries))[0] == no_member(e@)
            },
            None => entries_left(*old(entries)).len() == 0,
        },
{
    match entries.entries.next() {
        Some(Ok(entry)) => {
            entries.current = Some(entry);
            Some(Ok(()))
        },
        Some(Err(e)) => Some(Err(e.to_string())),
        None => None,
    }
}

/// `tar::Entry::path` of the member that came last, as text, with replacement characters for what is
/// not Unicode. On Unix it never fails.
#[verifier::external_body]
pub(crate) fn sdist_path(entries: &SdistEntries<'_, '_>) -> (r: Result<String, String>)
    requires
        current_member(*entries) is Some,
    ensures
        reading(r) == text_read((current_member(*entries)->0).0),
{
    match entries.current.as_ref().unwrap().path() {
        Ok(path) => Ok(path.to_string_lossy().into_owned()),
        Err(e) => Err(e.to_string()),
    }
}

/// `read_to_string` on the `tar::Entry` that came last. Nothing is said of what is left after it, which
/// shares the archive's reader.
#[verifier::external_body]
pub(crate) fn sdist_text(entries: &mut SdistEntries<'_, '_>) -> (r: Result<String, String>)
    requires
        current_member(*old(entries)) is Some,
    ensures
        reading(r) == (current_member(*old(entries))->0).1,
{
    let mut content = String::new();
    match std::io::Read::read_to_string(entries.current.as_mut().unwrap(), &mut content) {
        Ok(_) => Ok(content),
        Err(e) => Err(e.to_string()),
    }
}

/// A zip file.
#[verifier::external_type_specification]
#[verifier::external_body]
#[verifier::reject_recursive_types(R)]
pub struct ExZipArchive<R>(zip::ZipArchive<R>);

/// A reader over bytes in memory.
#[verifier::external_type_specification]
#[verifier::external_body]
#[verifier::reject_recursive_types(T)]
pub struct ExCursor<T>(std::io::Cursor<T>);

/// The members of the zip file made of the bytes, or the message of the error that comes in their
/// place.
pub uninterp spec fn zip_listing(bytes: Seq<u8>) -> Listing;

/// The members of a zip file, by their numbers.
pub uninterp spec fn zip_members(archive: zip::ZipArchive<std::io::Cursor<&[u8]>>) -> Seq<Member>;

/// `zip::ZipArchive::new` over bytes in memory: the archive with the members that the bytes hold, or
/// an error.
#[verifier::external_body]
pub(crate) fn zip_open(bytes: &[u8]) -> (r: Result<
    zip::ZipArchive<std::io::Cursor<&[u8]>>,
    String,
>)
    ensures
        match r {
            Ok(archive) => zip_listing(bytes@) == listed(zip_members(archive)),
            Err(e) => zip_listing(bytes@) == unlisted(e@),
        },
{
    zip::ZipArchive::new(std::io::Cursor::new(bytes)).map_err(|e| e.to_string())
}

/// `zip::ZipArchive::len`: how many members there are.
#[verifier::external_body]
pub(crate) fn zip_len(archive: &zip::ZipArchive<std::io::Cursor<&[u8]>>) -> (r: usize)
    ensures
        r == zip_members(*archive).len(),
{
    archive.len()
}

/// `zip::ZipArchive::by_index` and `name` of the file that it gives: the member's path, or the error
/// that comes in place of the member. The members stay as they are.
#[verifier::external_body]
pub(crate) fn zip_name(
    archive: &mut zip::ZipArchive<std::io::Cursor<&[u8]>>,
    index: usize,
) -> (r: Result<String, String>)
    requires
        index < zip_members(*old(archive)).len(),
    ensures
        match zip_members(*old(archive))[index as int] {
            Ok(member) => reading(r) == text_read(member.0),
            Err(e) => reading(r) == not_read(e),
        },
        zip_members(*final(archive)) == zip_members(*old(archive)),
{
    match archive.by_index(index) {
        Ok(file) => Ok(file.name().to_string()),
        Err(e) => Err(e.to_string()),
    }
}

/// `read_to_string` on the file that `zip::ZipArchive::by_index` gives: the member's text, or the
/// error that comes in place of the text or of the member. The members stay as they are.
#[verifier::external_body]
pub(crate) fn zip_text(
    archive: &mut zip::ZipArchive<std::io::Cursor<&[u8]>>,
    index: usize,
) -> (r: Result<String, String>)
    requires
        index < zip_members(*old(archive)).len(),
    ensures
        match zip_members(*old(archive))[index as int] {
            Ok(member) => reading(r) == member.1,
            Err(e) => reading(r) == not_read(e),
        },
        zip_members(*final(archive)) == zip_members(*old(archive)),
{
    let mut content = String::new();
    match archive.by_index(index) {
        Ok(mut file) => match std::io::Read::read_to_string(&mut file, &mut content) {
            Ok(_) => Ok(content),
            Err(e) => Err(e.to_string()),
        },
        Err(e) => Err(e.to_string()),
    }
}

} // verus!
