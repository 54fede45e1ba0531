//! Distribution files, and their upload to a public index.
use crate::archives;
use crate::core_metadata;
use crate::core_metadata::{CoreMetadata, CoreView};
use crate::paths;
use crate::text;
use vstd::prelude::*;

verus! {

/// What a distribution file is.
pub enum FileKind {
    Sdist,
    Wheel { python_tag: String },
}

/// What a `FileKind` holds.
pub enum KindView {
    Sdist,
    Wheel { python_tag: Seq<char> },
}

impl View for FileKind {
    type V = KindView;

    open spec fn view(&self) -> KindView {
        match self {
            FileKind::Sdist => KindView::Sdist,
            FileKind::Wheel { python_tag } => KindView::Wheel { python_tag: python_tag@ },
        }
    }
}

/// A distribution file that has been read.
pub struct PyDistFile {
    pub path: String,
    pub bytes: Vec<u8>,
    pub kind: FileKind,
    pub metadata: CoreMetadata,
}

/// What a `PyDistFile` holds.
pub struct DistView {
    pub path: Seq<char>,
    pub bytes: Seq<u8>,
    pub kind: KindView,
    pub metadata: CoreView,
}

impl View for PyDistFile {
    type V = DistView;

    open spec fn view(&self) -> DistView {
        DistView {
            path: self.path@,
            bytes: self.bytes@,
            kind: self.kind@,
            metadata: self.metadata@,
        }
    }
}

/// Why a distribution file could not be read.
#[derive(Debug)]
pub enum DistError {
    /// The file's path ends neither like a source archive's nor like a wheel's.
    Unsupported(String),
    /// The file system failed.
    Read(String),
    /// The archive is broken.
    Archive(String),
    /// There is no `PKG-INFO` where a source archive has it.
    NoPkgInfo,
    /// There is no `METADATA` where a wheel has it.
    NoMetadata,
    /// The wheel has no file name that is text.
    NoWheelName,
    /// The file name has too few parts for a wheel's.
    WheelName(String),
}

/// What a `DistError` holds.
pub enum DistErrorView {
    Unsupported(Seq<char>),
    Read(Seq<char>),
    Archive(Seq<char>),
    NoPkgInfo,
    NoMetadata,
    NoWheelName,
    WheelName(Seq<char>),
}

impl View for DistError {
    type V = DistErrorView;

    open spec fn view(&self) -> DistErrorView {
        match self {
            DistError::Unsupported(path) => DistErrorView::Unsupported(path@),
            DistError::Read(message) => DistErrorView::Read(message@),
            DistError::Archive(message) => DistErrorView::Archive(message@),
            DistError::NoPkgInfo => DistErrorView::NoPkgInfo,
            DistError::NoMetadata => DistErrorView::NoMetadata,
            DistError::NoWheelName => DistErrorView::NoWheelName,
            DistError::WheelName(name) => DistErrorView::WheelName(name@),
        }
    }
}

impl DistErrorView {
    /// The error in words.
    pub open spec fn words(self) -> Seq<char> {
        match self {
            DistErrorView::Unsupported(path) => "unsupported distribution file: "@ + path,
            DistErrorView::Read(message) => message,
            DistErrorView::Archive(message) => message,
            DistErrorView::NoPkgInfo => "PKG-INFO not found inside sdist (malformed archive?)"@,
            DistErrorView::NoMetadata => "METADATA not found inside wheel (malformed archive?)"@,
            DistErrorView::NoWheelName => "wheel filename is not valid UTF-8"@,
            DistErrorView::WheelName(name) => "wheel filename '"@ + name
                + "' does not match the wheel spec"@,
        }
    }
}

impl DistError {
    /// The error in words.
    pub fn message(&self) -> (r: String)
        ensures
            r@ == self@.words(),
            match self {
                DistError::Unsupported(path) => r@ == "unsupported distribution file: "@ + path@,
                DistError::Read(message) => r@ == message@,
                DistError::Archive(message) => r@ == message@,
                DistError::WheelName(name) => r@ == "wheel filename '"@ + name@
                    + "' does not match the wheel spec"@,
                _ => true,
            },
    {
        match self {
            DistError::Unsupported(path) => text::concat2("unsupported distribution file: ", path),
            DistError::Read(message) => message.clone(),
            DistError::Archive(message) => message.clone(),
            DistError::NoPkgInfo => {
                "PKG-INFO not found inside sdist (malformed archive?)".to_owned()
            },
            DistError::NoMetadata => {
                "METADATA not found inside wheel (malformed archive?)".to_owned()
            },
            DistError::NoWheelName => "wheel filename is not valid UTF-8".to_owned(),
            DistError::WheelName(name) => text::concat3(
                "wheel filename '",
                name,
                "' does not match the wheel spec",
            ),
        }
    }
}

/// What reading a distribution file gives.
pub type DistOutcome = Result<DistView, DistErrorView>;

/// What the outcome of reading a distribution file holds.
pub open spec fn outcome(r: Result<PyDistFile, DistError>) -> DistOutcome {
    match r {
        Ok(dist) => Ok(dist@),
        Err(e) => Err(e@),
    }
}

/// The file with a source archive's metadata, which lies directly in the archive's one directory.
pub const PKG_INFO: &'static str = "PKG-INFO";

/// Whether a member of a source archive is its metadata file.
pub open spec fn pkg_info_path(path: Seq<char>) -> bool {
    paths::file_name_of(path) == Some(PKG_INFO@) && paths::component_count(path) == 2
}

/// The text of the first metadata file among the members of a source archive, where there is one. An
/// error on the way to it comes in its place.
pub open spec fn pkg_info(members: Seq<archives::Member>) -> Result<Option<Seq<char>>, Seq<char>>
    decreases members.len(),
{
    if members.len() == 0 {
        Ok(None)
    } else {
        match members[0] {
            Err(e) => Err(e),
            Ok((path, content)) => if !pkg_info_path(path) {
                pkg_info(members.drop_first())
            } else {
                match content {
                    Ok(t) => Ok(Some(t)),
                    Err(e) => Err(e),
                }
            },
        }
    }
}

/// The source archive with the given metadata file.
pub open spec fn sdist_with(
    path: Seq<char>,
    bytes: Seq<u8>,
    content: Option<Seq<char>>,
) -> DistOutcome {
    match content {
        Some(raw) => Ok(
            DistView {
                path,
                bytes,
                kind: KindView::Sdist,
                metadata: core_metadata::core_metadata(raw),
            },
        ),
        None => Err(DistErrorView::NoPkgInfo),
    }
}

/// What reading a source archive gives.
pub open spec fn sdist_outcome(path: Seq<char>, bytes: Seq<u8>) -> DistOutcome {
    match archives::tar_listing(bytes) {
        Err(e) => Err(DistErrorView::Archive(e)),
        Ok(members) => match pkg_info(members) {
            Err(e) => Err(DistErrorView::Archive(e)),
            Ok(content) => sdist_with(path, bytes, content),
        },
    }
}

/// Whether a member of a source archive is its metadata file.
pub fn is_pkg_info(path: &str) -> (r: bool)
    ensures
        r == pkg_info_path(path@),
{
    proof {
        reveal_strlit("PKG-INFO");
        reveal_strlit(".");
        reveal_strlit("..");
    }
    paths::is_second_of_two(path, PKG_INFO)
}

/// The source archive with the given metadata file.
pub fn sdist_with_pkg_info(path: &str, bytes: Vec<u8>, content: Option<String>) -> (r: Result<
    PyDistFile,
    DistError,
>)
    ensures
        outcome(r) == sdist_with(path@, bytes@, text::opt_text(content)),
{
    match content {
        Some(raw) => Ok(
            PyDistFile {
                path: path.to_owned(),
                bytes,
                kind: FileKind::Sdist,
                metadata: core_metadata::parse_core_metadata(&raw),
            },
        ),
        None => Err(DistError::NoPkgInfo),
    }
}

/// What a search for a metadata file gives.
pub open spec fn found(r: Result<Option<String>, String>) -> Result<Option<Seq<char>>, Seq<char>> {
    match r {
        Ok(content) => Ok(text::opt_text(content)),
        Err(e) => Err(e@),
    }
}

/// Looks for the metadata file among the members of a source archive.
fn find_pkg_info(entries: &mut archives::SdistEntries<'_, '_>) -> (r: Result<
    Option<String>,
    String,
>)
    ensures
        found(r) == pkg_info(archives::entries_left(*old(entries))),
{
    let ghost all = archives::entries_left(*entries);
    loop
        invariant
            all == archives::entries_left(*old(entries)),
            pkg_info(all) == pkg_info(archives::entries_left(*entries)),
        decreases archives::entries_left(*entries).len(),
    {
        match archives::sdist_next(entries) {
            None => {
                return Ok(None);
            },
            Some(Err(e)) => {
                return Err(e);
            },
            Some(Ok(_)) => {
                match archives::sdist_path(entries) {
                    Err(e) => {
                        return Err(e);
                    },
                    Ok(path) => {
                        if is_pkg_info(&path) {
                            return match archives::sdist_text(entries) {
                                Ok(content) => Ok(Some(content)),
                                Err(e) => Err(e),
                            };
                        }
                    },
                }
            },
        }
    }
}

/// Reads a source archive and the metadata in it.
fn read_sdist(path: &str, bytes: Vec<u8>) -> (r: Result<PyDistFile, DistError>)
    ensures
        outcome(r) == sdist_outcome(path@, bytes@),
{
    let content = {
        let mut archive = archives::sdist_open(bytes.as_slice());
        match archives::sdist_entries(&mut archive) {
            Err(e) => {
                return Err(DistError::Archive(e));
            },
            Ok(mut entries) => match find_pkg_info(&mut entries) {
                Err(e) => {
                    return Err(DistError::Archive(e));
                },
                Ok(content) => content,
            },
        }
    };
    sdist_with_pkg_info(path, bytes, content)
}

/// What the path of a wheel's metadata file ends with.
pub const METADATA_SUFFIX: &'static str = ".dist-info/METADATA";

/// The text of the first metadata file among the members of a wheel, where there is one. An error on
/// the way to it comes in its place.
pub open spec fn wheel_metadata(members: Seq<archives::Member>) -> Result<
    Option<Seq<char>>,
    Seq<char>,
>
    decreases members.len(),
{
    if members.len() == 0 {
        Ok(None)
    } else {
        match members[0] {
            Err(e) => Err(e),
            Ok((path, content)) => if !text::finishes_with(path, METADATA_SUFFIX@) {
                wheel_metadata(members.drop_first())
            } else {
                match content {
                    Ok(t) => Ok(Some(t)),
                    Err(e) => Err(e),
                }
            },
        }
    }
}

/// The Python tag of a wheel, the third of its file name's parts from the end.
pub open spec fn python_tag(path: Seq<char>) -> Result<Seq<char>, DistErrorView> {
    match paths::file_name_of(path) {
        None => Err(DistErrorView::NoWheelName),
        Some(name) => {
            let parts = text::pieces(paths::stem_of(name), '-');
            if parts.len() < 5 {
                Err(DistErrorView::WheelName(paths::stem_of(name)))
            } else {
                Ok(parts[parts.len() - 3])
            }
        },
    }
}

/// The wheel with the given metadata file.
pub open spec fn wheel_with(
    path: Seq<char>,
    bytes: Seq<u8>,
    content: Option<Seq<char>>,
) -> DistOutcome {
    match content {
        None => Err(DistErrorView::NoMetadata),
        Some(raw) => match python_tag(path) {
            Err(e) => Err(e),
            Ok(tag) => Ok(
                DistView {
                    path,
                    bytes,
                    kind: KindView::Wheel { python_tag: tag },
                    metadata: core_metadata::core_metadata(raw),
                },
            ),
        },
    }
}

/// What reading a wheel gives.
pub open spec fn wheel_outcome(path: Seq<char>, bytes: Seq<u8>) -> DistOutcome {
    match archives::zip_listing(bytes) {
        Err(e) => Err(DistErrorView::Archive(e)),
        Ok(members) => match wheel_metadata(members) {
            Err(e) => Err(DistErrorView::Archive(e)),
            Ok(content) => wheel_with(path, bytes, content),
        },
    }
}

/// The Python tag of a wheel.
pub fn wheel_python_tag(path: &str) -> (r: Result<String, DistError>)
    ensures
        match r {
            Ok(tag) => python_tag(path@) is Ok && python_tag(path@)->Ok_0 == tag@,
            Err(e) => python_tag(path@) is Err && python_tag(path@)->Err_0 == e@,
        },
{
    match paths::file_name(path) {
        None => Err(DistError::NoWheelName),
        Some(name) => {
            let stem = paths::file_stem(&name);
            let parts = text::split(&stem, '-');
            assert(text::pieces(stem@, '-').len() == parts@.len());
            if parts.len() < 5 {
                return Err(DistError::WheelName(stem));
            }
            assert(text::texts(parts@)[parts@.len() - 3] == parts@[parts@.len() - 3]@);
            Ok(parts[parts.len() - 3].clone())
        },
    }
}

/// The wheel with the given metadata file.
pub fn wheel_with_metadata(path: &str, bytes: Vec<u8>, content: Option<String>) -> (r: Result<
    PyDistFile,
    DistError,
>)
    ensures
        outcome(r) == wheel_with(path@, bytes@, text::opt_text(content)),
{
    match content {
        None => Err(DistError::NoMetadata),
        Some(raw) => match wheel_python_tag(path) {
            Err(e) => Err(e),
            Ok(tag) => Ok(
                PyDistFile {
                    path: path.to_owned(),
                    bytes,
                    kind: FileKind::Wheel { python_tag: tag },
                    metadata: core_metadata::parse_core_metadata(&raw),
                },
            ),
        },
    }
}

/// Looks for the metadata file among the members of a wheel.
fn find_wheel_metadata(archive: &mut zip::ZipArchive<std::io::Cursor<&[u8]>>) -> (r: Result<
    Option<String>,
    String,
>)
    ensures
        found(r) == wheel_metadata(archives::zip_members(*old(archive))),
{
    let ghost all = archives::zip_members(*archive);
    let n: usize = archives::zip_len(archive);
    let mut i: usize = 0;
    assert(all.skip(0) =~= all);
    while i < n
        invariant
            all == archives::zip_members(*old(archive)),
            all == archives::zip_members(*archive),
            n == all.len(),
            i <= n,
            wheel_metadata(all) == wheel_metadata(all.skip(i as int)),
        decreases n - i,
    {
        proof {
            assert(all.skip(i as int)[0] == all[i as int]);
            assert(all.skip(i as int).drop_first() =~= all.skip(i + 1));
        }
        match archives::zip_name(archive, i) {
            Err(e) => {
                return Err(e);
            },
            Ok(name) => {
                if text::ends_with(&name, METADATA_SUFFIX) {
                    return match archives::zip_text(archive, i) {
                        Ok(content) => Ok(Some(content)),
                        Err(e) => Err(e),
                    };
                }
            },
        }
        i = i + 1;
    }
    assert(all.skip(n as int) =~= Seq::empty());
    Ok(None)
}

/// Reads a wheel and the metadata in it.
fn read_wheel(path: &str, bytes: Vec<u8>) -> (r: Result<PyDistFile, DistError>)
    ensures
        outcome(r) == wheel_outcome(path@, bytes@),
{
    let content = match archives::zip_open(bytes.as_slice()) {
        Err(e) => {
            return Err(DistError::Archive(e));
        },
        Ok(mut archive) => match find_wheel_metadata(&mut archive) {
            Err(e) => {
                return Err(DistError::Archive(e));
            },
            Ok(content) => content,
        },
    };
    wheel_with_metadata(path, bytes, content)
}

/// The formats of distribution files that can be read.
#[derive(Debug, Clone, Copy, PartialEq, Eq, Structural)]
pub enum DistFormat {
    Sdist,
    Wheel,
}

/// The format of the distribution file at a path, by the path's ending.
pub open spec fn format_of(path: Seq<char>) -> Option<DistFormat> {
    if text::finishes_with(path, ".tar.gz"@) {
        Some(DistFormat::Sdist)
    } else if text::finishes_with(path, ".whl"@) {
        Some(DistFormat::Wheel)
    } else {
        None
    }
}

/// The format of the distribution file at a path, by the path's ending.
pub fn distribution_format(path: &str) -> (r: Option<DistFormat>)
    ensures
        r == format_of(path@),
{
    if text::ends_with(path, ".tar.gz") {
        Some(DistFormat::Sdist)
    } else if text::ends_with(path, ".whl") {
        Some(DistFormat::Wheel)
    } else {
        None
    }
}

/// What reading the distribution file at a path gives, where `contents` is what the file system gives
/// for it.
pub open spec fn dist_outcome(
    path: Seq<char>,
    contents: Result<Seq<u8>, Seq<char>>,
) -> DistOutcome {
    match format_of(path) {
        None => Err(DistErrorView::Unsupported(path)),
        Some(format) => match contents {
            Err(e) => Err(DistErrorView::Read(e)),
            Ok(bytes) => match format {
                DistFormat::Sdist => sdist_outcome(path, bytes),
                DistFormat::Wheel => wheel_outcome(path, bytes),
            },
        },
    }
}

/// What the contents of a file, or the message of the error that came in their place, hold.
pub open spec fn file_contents(r: Result<Vec<u8>, String>) -> Result<Seq<u8>, Seq<char>> {
    match r {
        Ok(bytes) => Ok(bytes@),
        Err(e) => Err(e@),
    }
}

/// Reads the distribution file at a path, given what the file system gives for it. The path's ending
/// decides before the contents do.
pub fn read_dist_file(path: &str, contents: Result<Vec<u8>, String>) -> (r: Result<
    PyDistFile,
    DistError,
>)
    ensures
        outcome(r) == dist_outcome(path@, file_contents(contents)),
        r matches Ok(dist) ==> dist.path@ == path@ && contents is Ok && dist.bytes@
            == contents->Ok_0@,
{
    match distribution_format(path) {
        None => Err(DistError::Unsupported(path.to_owned())),
        Some(format) => match contents {
            Err(e) => Err(DistError::Read(e)),
            Ok(bytes) => match format {
                DistFormat::Sdist => read_sdist(path, bytes),
                DistFormat::Wheel => read_wheel(path, bytes),
            },
        },
    }
}

/// A distribution that was read is the file that was given: it keeps its path and its bytes, and is of
/// the format that its path says.
pub proof fn law_distributions_are_their_files(
    path: Seq<char>,
    contents: Result<Seq<u8>, Seq<char>>,
)
    requires
        dist_outcome(path, contents) is Ok,
    ensures
        dist_outcome(path, contents)->Ok_0.path == path,
        contents is Ok && dist_outcome(path, contents)->Ok_0.bytes == contents->Ok_0,
        match dist_outcome(path, contents)->Ok_0.kind {
            KindView::Sdist => format_of(path) == Some(DistFormat::Sdist),
            KindView::Wheel { python_tag: tag } => format_of(path) == Some(DistFormat::Wheel)
                && python_tag(path) == Ok::<Seq<char>, DistErrorView>(tag),
        },
{
}

/// The metadata of a source archive is that of the first metadata file in it, however many there
/// are.
pub proof fn law_first_pkg_info_counts(members: Seq<archives::Member>, k: int)
    requires
        0 <= k < members.len(),
        forall|j: int|
            0 <= j < k ==> (#[trigger] members[j] is Ok && !pkg_info_path(members[j]->Ok_0.0)),
        members[k] is Ok,
        pkg_info_path(members[k]->Ok_0.0),
        members[k]->Ok_0.1 is Ok,
    ensures
        pkg_info(members) == Ok::<Option<Seq<char>>, Seq<char>>(
            Some(members[k]->Ok_0.1->Ok_0),
        ),
    decreases k,
{
    if k > 0 {
        let rest = members.drop_first();
        assert(members[0] is Ok);
        assert forall|j: int| 0 <= j < k - 1 implies #[trigger] rest[j] is Ok && !pkg_info_path(
            rest[j]->Ok_0.0,
        ) by {
            assert(rest[j] == members[j + 1]);
        }
        assert(rest[k - 1] == members[k]);
        law_first_pkg_info_counts(rest, k - 1);
    }
}

/// The metadata of a wheel is that of the first metadata file in it, however many there are.
pub proof fn law_first_wheel_metadata_counts(members: Seq<archives::Member>, k: int)
    requires
        0 <= k < members.len(),
        forall|j: int|
            0 <= j < k ==> (#[trigger] members[j] is Ok && !text::finishes_with(
                members[j]->Ok_0.0,
                METADATA_SUFFIX@,
            )),
        members[k] is Ok,
        text::finishes_with(members[k]->Ok_0.0, METADATA_SUFFIX@),
        members[k]->Ok_0.1 is Ok,
    ensures
        wheel_metadata(members) == Ok::<Option<Seq<char>>, Seq<char>>(
            Some(members[k]->Ok_0.1->Ok_0),
        ),
    decreases k,
{
    if k > 0 {
        let rest = members.drop_first();
        assert(members[0] is Ok);
        assert forall|j: int| 0 <= j < k - 1 implies #[trigger] rest[j] is Ok
            && !text::finishes_with(rest[j]->Ok_0.0, METADATA_SUFFIX@) by {
            assert(rest[j] == members[j + 1]);
        }
        assert(rest[k - 1] == members[k]);
        law_first_wheel_metadata_counts(rest, k - 1);
    }
}

} // verus!
