//! The packages directory: what its file names say about the packages in it.
use crate::order;
use crate::patterns;
use crate::patterns::NamePatterns;
use crate::text;
use vstd::prelude::*;

verus! {

/// A distribution file of the packages directory.
#[derive(Debug)]
pub struct PkgFile {
    pub pkgname: String,
    pub pkgname_norm: String,
    pub version: String,
    /// The file name, relative to the packages directory.
    pub relfn: String,
    pub full_path: String,
}

/// What a `PkgFile` holds.
pub struct PkgView {
    pub pkgname: Seq<char>,
    pub pkgname_norm: Seq<char>,
    pub version: Seq<char>,
    pub relfn: Seq<char>,
    pub full_path: Seq<char>,
}

impl View for PkgFile {
    type V = PkgView;

    open spec fn view(&self) -> PkgView {
        PkgView {
            pkgname: self.pkgname@,
            pkgname_norm: self.pkgname_norm@,
            version: self.version@,
            relfn: self.relfn@,
            full_path: self.full_path@,
        }
    }
}

impl Clone for PkgFile {
    fn clone(&self) -> (r: Self)
        ensures
            r@ == self@,
    {
        PkgFile {
            pkgname: self.pkgname.clone(),
            pkgname_norm: self.pkgname_norm.clone(),
            version: self.version.clone(),
            relfn: self.relfn.clone(),
            full_path: self.full_path.clone(),
        }
    }
}

/// What a list of `PkgFile` holds.
pub open spec fn pkg_views(v: Seq<PkgFile>) -> Seq<PkgView> {
    Seq::new(v.len(), |i: int| v[i]@)
}

/// The normal form of a project name: each run of separators is one dash, and letters are in lower
/// case.
pub open spec fn normalized(name: Seq<char>) -> Seq<char> {
    text::lowered(patterns::collapsed(name))
}

/// The normal form of a project name, as PEP 503 defines it.
pub fn normalize_pkgname(name: &str) -> (r: String)
    ensures
        r@ == normalized(name@),
{
    normalize_with(&NamePatterns::new(), name)
}

/// The normal form of a project name, by patterns that are compiled already.
pub fn normalize_with(patterns: &NamePatterns, name: &str) -> (r: String)
    ensures
        r@ == normalized(name@),
{
    text::to_lower(&patterns.collapse(name))
}

/// The name and the version that the name of a source archive, without its ending, stands for. Where
/// there is one dash it parts them; where there are more, the first dash in front of a digit does.
/// Where nothing parts them the version is empty.
pub open spec fn guessed_from_stem(stem: Seq<char>) -> (Seq<char>, Seq<char>) {
    let parts = text::pieces(stem, '-');
    let at = patterns::dash_digit_from(stem, 0);
    if parts.len() == 1 {
        (stem, Seq::empty())
    } else if parts.len() == 2 {
        (parts[0], parts[1])
    } else if at < stem.len() {
        (stem.take(at), stem.skip(at + 1))
    } else {
        (stem, Seq::empty())
    }
}

/// The name and the version that a file name stands for, where it is that of a wheel or of a source
/// archive.
pub open spec fn guessed(filename: Seq<char>) -> Option<(Seq<char>, Seq<char>)> {
    if text::finishes_with(filename, ".whl"@) {
        match patterns::wheel_name(filename) {
            Some(w) => Some(
                (
                    w.name,
                    match w.build {
                        Some(b) => w.version + "-"@ + b,
                        None => w.version,
                    },
                ),
            ),
            None => None,
        }
    } else if patterns::has_archive_suffix(filename) {
        Some(guessed_from_stem(patterns::archive_stem(filename)))
    } else {
        None
    }
}

/// The name and the version that a file name stands for. Wheels are read exactly, by the structure
/// that the wheel format gives their names; for source archives it is a guess.
pub fn guess_pkgname_and_version(filename: &str) -> (r: Option<(String, String)>)
    ensures
        match r {
            Some(p) => guessed(filename@) == Some((p.0@, p.1@)),
            None => guessed(filename@) is None,
        },
{
    guess_with(&NamePatterns::new(), filename)
}

/// The name and the version that a file name stands for, by patterns that are compiled already.
pub fn guess_with(patterns: &NamePatterns, filename: &str) -> (r: Option<(String, String)>)
    ensures
        match r {
            Some(p) => guessed(filename@) == Some((p.0@, p.1@)),
            None => guessed(filename@) is None,
        },
{
    if text::ends_with(filename, ".whl") {
        return match patterns.wheel_parts(filename) {
            Some((name, ver, build)) => {
                let version = match build {
                    Some(b) => text::concat3(&ver, "-", &b),
                    None => ver,
                };
                Some((name, version))
            },
            None => None,
        };
    }
    match patterns.strip_archive_suffix(filename) {
        Some(stripped) => Some(guess_from_stem(patterns, stripped)),
        None => None,
    }
}

/// The name and the version that the name of a source archive, without its ending, stands for.
fn guess_from_stem(patterns: &NamePatterns, stripped: String) -> (r: (String, String))
    ensures
        guessed_from_stem(stripped@) == (r.0@, r.1@),
{
    let parts = text::split(&stripped, '-');
    assert(text::pieces(stripped@, '-').len() == parts@.len());
    if parts.len() == 1 {
        return (stripped, String::new());
    }
    if parts.len() == 2 {
        proof {
            assert(text::texts(parts@)[0] == parts@[0]@);
            assert(text::texts(parts@)[1] == parts@[1]@);
        }
        return (parts[0].clone(), parts[1].clone());
    }
    match patterns.split_at_dash_digit(&stripped) {
        Some(pair) => pair,
        None => (stripped, String::new()),
    }
}

/// Where the packages lie, unless the environment says otherwise.
pub const DEFAULT_PACKAGES_DIR: &'static str = "/data/packages";

/// The packages directory, given what the environment says about it.
pub fn packages_dir(configured: Option<String>) -> (r: String)
    ensures
        r@ == (match configured {
            Some(dir) => dir@,
            None => DEFAULT_PACKAGES_DIR@,
        }),
        configured is None ==> r@ == "/data/packages"@,
{
    match configured {
        Some(dir) => dir,
        None => DEFAULT_PACKAGES_DIR.to_owned(),
    }
}

/// An entry of the packages directory, as the file system lists it. A file name that is not Unicode
/// is absent.
#[derive(Debug)]
pub struct DirEntry {
    pub file_name: Option<String>,
    pub is_file: bool,
    pub path: String,
}

/// What a `DirEntry` holds.
pub struct DirEntryView {
    pub file_name: Option<Seq<char>>,
    pub is_file: bool,
    pub path: Seq<char>,
}

impl View for DirEntry {
    type V = DirEntryView;

    open spec fn view(&self) -> DirEntryView {
        DirEntryView {
            file_name: text::opt_text(self.file_name),
            is_file: self.is_file,
            path: self.path@,
        }
    }
}

/// What a list of `DirEntry` holds.
pub open spec fn entry_views(v: Seq<DirEntry>) -> Seq<DirEntryView> {
    Seq::new(v.len(), |i: int| v[i]@)
}

/// What a metadata sidecar's file name ends with.
pub const SIDECAR_SUFFIX: &'static str = ".metadata.json";

/// Whether a file name is left out of the scan: a metadata sidecar's, or a hidden file's.
pub open spec fn skipped_name(name: Seq<char>) -> bool {
    text::finishes_with(name, SIDECAR_SUFFIX@) || text::begins_with(name, "."@)
}

/// The package that a directory entry stands for, where it stands for one: a file whose name is not
/// skipped and has the form of a distribution's.
pub open spec fn listed(e: DirEntryView) -> Option<PkgView> {
    if !e.is_file || e.file_name is None || skipped_name(e.file_name->0) {
        None
    } else {
        match guessed(e.file_name->0) {
            Some((name, version)) => Some(
                PkgView {
                    pkgname: name,
                    pkgname_norm: normalized(name),
                    version: version,
                    relfn: e.file_name->0,
                    full_path: e.path,
                },
            ),
            None => None,
        }
    }
}

/// The packages that the entries stand for, in their order.
pub open spec fn scanned(entries: Seq<DirEntryView>) -> Seq<PkgView>
    decreases entries.len(),
{
    if entries.len() == 0 {
        Seq::empty()
    } else {
        let before = scanned(entries.drop_last());
        match listed(entries.last()) {
            Some(p) => before.push(p),
            None => before,
        }
    }
}

/// The package that one directory entry stands for.
fn list_entry(patterns: &NamePatterns, e: &DirEntry) -> (r: Option<PkgFile>)
    ensures
        match r {
            Some(p) => listed(e@) == Some(p@),
            None => listed(e@) is None,
        },
{
    if !e.is_file {
        return None;
    }
    match &e.file_name {
        None => None,
        Some(fname) => {
            if text::ends_with(fname, SIDECAR_SUFFIX) || text::starts_with(fname, ".") {
                return None;
            }
            match guess_with(patterns, fname) {
                Some((pkgname, version)) => Some(
                    PkgFile {
                        pkgname_norm: normalize_with(patterns, &pkgname),
                        pkgname,
                        version,
                        relfn: fname.clone(),
                        full_path: e.path.clone(),
                    },
                ),
                None => None,
            }
        },
    }
}

/// The packages of the packages directory, given its entries. The directory is flat: what lies in
/// directories below it does not count.
pub fn scan_packages(entries: &Vec<DirEntry>) -> (out: Vec<PkgFile>)
    ensures
        pkg_views(out@) == scanned(entry_views(entries@)),
{
    let patterns = NamePatterns::new();
    let ghost all = entry_views(entries@);
    let mut out: Vec<PkgFile> = Vec::new();
    let mut i: usize = 0;
    while i < entries.len()
        invariant
            all == entry_views(entries@),
            i <= entries@.len(),
            pkg_views(out@) == scanned(all.take(i as int)),
        decreases entries@.len() - i,
    {
        let ghost before = out@;
        assert(all.take(i + 1).drop_last() =~= all.take(i as int));
        assert(all.take(i + 1).last() == entries@[i as int]@);
        match list_entry(&patterns, &entries[i]) {
            Some(p) => {
                out.push(p);
                assert(pkg_views(out@) =~= pkg_views(before).push(p@));
            },
            None => {},
        }
        i = i + 1;
    }
    assert(all.take(entries@.len() as int) =~= all);
    out
}

/// The packages of a project, in their order: those whose name has the project's normal form.
pub open spec fn project_packages(packages: Seq<PkgView>, project: Seq<char>) -> Seq<PkgView> {
    packages.filter(|p: PkgView| p.pkgname_norm == normalized(project))
}

/// The packages of a project, among those that a scan has found.
pub fn find_project_packages(project: &str, packages: &Vec<PkgFile>) -> (out: Vec<PkgFile>)
    ensures
        pkg_views(out@) == project_packages(pkg_views(packages@), project@),
{
    let wanted = normalize_pkgname(project);
    let ghost all = pkg_views(packages@);
    let ghost chosen = |p: PkgView| p.pkgname_norm == normalized(project@);
    let mut out: Vec<PkgFile> = Vec::new();
    let mut i: usize = 0;
    proof {
        reveal(Seq::filter);
        assert(all.take(0) =~= Seq::empty());
        assert(pkg_views(out@) =~= all.take(0).filter(chosen));
    }
    while i < packages.len()
        invariant
            all == pkg_views(packages@),
            chosen == (|p: PkgView| p.pkgname_norm == normalized(project@)),
            wanted@ == normalized(project@),
            i <= packages@.len(),
            pkg_views(out@) == all.take(i as int).filter(chosen),
        decreases packages@.len() - i,
    {
        let ghost before = out@;
        proof {
            reveal(Seq::filter);
            assert(all.take(i + 1).drop_last() =~= all.take(i as int));
            assert(all.take(i + 1).last() == packages@[i as int]@);
        }
        if packages[i].pkgname_norm == wanted {
            let p = packages[i].clone();
            out.push(p);
            assert(pkg_views(out@) =~= pkg_views(before).push(packages@[i as int]@));
        }
        i = i + 1;
    }
    assert(all.take(packages@.len() as int) =~= all);
    out
}

/// The normal forms of the packages' names, in the packages' order.
pub open spec fn norms(packages: Seq<PkgView>) -> Seq<Seq<char>> {
    packages.map_values(|p: PkgView| p.pkgname_norm)
}

/// The projects that the packages belong to: the normal form of each package's name, once, in
/// dictionary order.
pub fn get_projects(packages: &Vec<PkgFile>) -> (out: Vec<String>)
    ensures
        order::distinct_sorted(norms(pkg_views(packages@)), text::texts(out@)),
        forall|i: int|
            0 <= i < packages@.len() ==> text::texts(out@).contains(
                (#[trigger] packages@[i]).pkgname_norm@,
            ),
        forall|s: Seq<char>| #[trigger]
            text::texts(out@).contains(s) ==> exists|j: int|
                0 <= j < packages@.len() && (#[trigger] packages@[j]).pkgname_norm@ == s,
        forall|i: int, j: int|
            0 <= i < j < out@.len() ==> order::text_less(
                (#[trigger] out@[i])@,
                (#[trigger] out@[j])@,
            ),
{
    let mut keys: Vec<Vec<char>> = Vec::new();
    let mut i: usize = 0;
    while i < packages.len()
        invariant
            i <= packages@.len(),
            keys@.len() == i,
            forall|j: int| 0 <= j < i ==> keys@[j]@ == packages@[j].pkgname_norm@,
        decreases packages@.len() - i,
    {
        keys.push(text::chars_of(&packages[i].pkgname_norm));
        i = i + 1;
    }
    assert(order::key_texts(keys@) =~= norms(pkg_views(packages@)));
    let out = order::sorted_distinct(&keys);
    proof {
        let all = norms(pkg_views(packages@));
        let held = text::texts(out@);
        assert forall|i: int| 0 <= i < packages@.len() implies held.contains(
            (#[trigger] packages@[i]).pkgname_norm@,
        ) by {
            assert(all[i] == packages@[i].pkgname_norm@);
            assert(all.contains(all[i]));
        }
        assert forall|s: Seq<char>| #[trigger] held.contains(s) implies exists|j: int|
            0 <= j < packages@.len() && (#[trigger] packages@[j]).pkgname_norm@ == s by {
            assert(all.contains(s));
            let j = choose|j: int| 0 <= j < all.len() && all[j] == s;
            assert(packages@[j].pkgname_norm@ == s);
        }
        assert forall|i: int, j: int| 0 <= i < j < out@.len() implies order::text_less(
            (#[trigger] out@[i])@,
            (#[trigger] out@[j])@,
        ) by {
            assert(order::text_less(held[i], held[j]));
        }
    }
    out
}

/// What an uploader says about a distribution.
#[derive(Debug)]
pub struct PackageMetadata {
    pub name: Option<String>,
    pub version: Option<String>,
    pub summary: Option<String>,
    pub author: Option<String>,
    pub license: Option<String>,
    pub requires_python: Option<String>,
    pub classifiers: Option<Vec<String>>,
    pub requires_dist: Option<Vec<String>>,
}

/// What a `PackageMetadata` holds.
pub struct MetadataView {
    pub name: Option<Seq<char>>,
    pub version: Option<Seq<char>>,
    pub summary: Option<Seq<char>>,
    pub author: Option<Seq<char>>,
    pub license: Option<Seq<char>>,
    pub requires_python: Option<Seq<char>>,
    pub classifiers: Option<Seq<Seq<char>>>,
    pub requires_dist: Option<Seq<Seq<char>>>,
}

/// What an optional list of strings holds.
pub open spec fn opt_texts(o: Option<Vec<String>>) -> Option<Seq<Seq<char>>> {
    match o {
        Some(v) => Some(text::texts(v@)),
        None => None,
    }
}

impl View for PackageMetadata {
    type V = MetadataView;

    open spec fn view(&self) -> MetadataView {
        MetadataView {
            name: text::opt_text(self.name),
            version: text::opt_text(self.version),
            summary: text::opt_text(self.summary),
            author: text::opt_text(self.author),
            license: text::opt_text(self.license),
            requires_python: text::opt_text(self.requires_python),
            classifiers: opt_texts(self.classifiers),
            requires_dist: opt_texts(self.requires_dist),
        }
    }
}

/// A copy of an optional list of strings.
fn copy_opt_texts(o: &Option<Vec<String>>) -> (r: Option<Vec<String>>)
    ensures
        opt_texts(r) == opt_texts(*o),
{
    match o {
        Some(v) => Some(text::copy_texts(v)),
        None => None,
    }
}

impl Clone for PackageMetadata {
    fn clone(&self) -> (r: Self)
        ensures
            r@ == self@,
    {
        PackageMetadata {
            name: text::copy_opt(&self.name),
            version: text::copy_opt(&self.version),
            summary: text::copy_opt(&self.summary),
            author: text::copy_opt(&self.author),
            license: text::copy_opt(&self.license),
            requires_python: text::copy_opt(&self.requires_python),
            classifiers: copy_opt_texts(&self.classifiers),
            requires_dist: copy_opt_texts(&self.requires_dist),
        }
    }
}

/// Metadata that says nothing.
pub open spec fn no_metadata() -> MetadataView {
    MetadataView {
        name: None,
        version: None,
        summary: None,
        author: None,
        license: None,
        requires_python: None,
        classifiers: None,
        requires_dist: None,
    }
}

impl Default for PackageMetadata {
    fn default() -> (r: Self)
        ensures
            r@ == no_metadata(),
            r.name is None && r.version is None && r.summary is None && r.author is None,
            r.license is None && r.requires_python is None,
            r.classifiers is None && r.requires_dist is None,
    {
        PackageMetadata {
            name: None,
            version: None,
            summary: None,
            author: None,
            license: None,
            requires_python: None,
            classifiers: None,
            requires_dist: None,
        }
    }
}

/// Where the metadata of the distribution at `path` lies: beside it.
pub open spec fn sidecar(path: Seq<char>) -> Seq<char> {
    path + SIDECAR_SUFFIX@
}

/// Where the metadata of the distribution at `path` lies.
pub fn sidecar_path(path: &str) -> (r: String)
    ensures
        r@ == sidecar(path@),
        r@ == path@ + ".metadata.json"@,
{
    text::concat2(path, SIDECAR_SUFFIX)
}

/// The metadata of a distribution, given what its sidecar holds. A sidecar that is missing or cannot
/// be read says nothing.
pub fn read_metadata(sidecar: Option<PackageMetadata>) -> (r: PackageMetadata)
    ensures
        r@ == (match sidecar {
            Some(m) => m@,
            None => no_metadata(),
        }),
        sidecar matches Some(m) ==> r == m,
{
    match sidecar {
        Some(m) => m,
        None => PackageMetadata::default(),
    }
}

} // verus!
