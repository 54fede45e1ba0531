//! What the index answers to requests.
use crate::auth::Redirection;
use crate::extractors::BasicAuth;
use crate::order;
use crate::paths;
use crate::storage;
use crate::storage::{PackageMetadata, PkgFile, PkgView};
use crate::text;
use vstd::prelude::*;

verus! {

/// The status of a request that cannot be understood.
pub const BAD_REQUEST: u16 = 400;

/// The status of a request for something that is not there.
pub const NOT_FOUND: u16 = 404;

/// The status of an upload of something that is there already.
pub const CONFLICT: u16 = 409;

/// The status of a request that failed for no fault of its own.
pub const INTERNAL_SERVER_ERROR: u16 = 500;

/// The answer to a request without credentials that pass.
#[derive(Debug, Clone, Copy, PartialEq, Eq, Structural)]
pub struct Unauthorized;

/// How a tool is asked for credentials.
pub const CHALLENGE: &'static str = "Basic realm=\"pypi\"";

impl Unauthorized {
    /// The status of the answer.
    pub fn status(&self) -> (r: u16)
        ensures
            r == 401,
    {
        401
    }

    /// The value of the answer's `WWW-Authenticate` header.
    pub fn challenge(&self) -> (r: String)
        ensures
            r@ == CHALLENGE@,
            r@ == "Basic realm=\"pypi\""@,
    {
        CHALLENGE.to_owned()
    }
}

/// The answer to a request without credentials that pass.
pub fn unauthorized() -> (r: Unauthorized)
    ensures
        r == Unauthorized,
{
    Unauthorized
}

/// A page, or the way to the login page.
#[derive(Debug)]
pub enum PageOrRedirect<T> {
    Page(T),
    Redirect(Redirection),
}

/// Whether a name is among the entries, without regard to white space around them.
pub open spec fn among(name: Seq<char>, entries: Seq<Seq<char>>) -> bool {
    exists|i: int| 0 <= i < entries.len() && text::trimmed(#[trigger] entries[i]) == name
}

/// Whether a project is on the list of those that are pushed to the public index. The list's entries
/// are parted by commas, and white space around them does not count. The match is exact.
pub open spec fn on_sync_list(name: Seq<char>, list: Option<Seq<char>>) -> bool {
    match list {
        Some(raw) => among(name, text::pieces(raw, ',')),
        None => false,
    }
}

/// Whether a project is pushed to the public index, given the list. Without a list none is.
pub fn should_sync_to_public_registry(name: &str, list: &Option<String>) -> (r: bool)
    ensures
        r == on_sync_list(name@, text::opt_text(*list)),
        list is None ==> !r,
{
    match list {
        None => false,
        Some(raw) => {
            let entries = text::split(raw, ',');
            let ghost all = text::pieces(raw@, ',');
            let mut i: usize = 0;
            while i < entries.len()
                invariant
                    all == text::texts(entries@),
                    all == text::pieces(raw@, ','),
                    text::opt_text(*list) == Some(raw@),
                    i <= entries@.len(),
                    forall|j: int| 0 <= j < i ==> text::trimmed(#[trigger] all[j]) != name@,
                decreases entries@.len() - i,
            {
                let entry = text::trim(&entries[i]);
                assert(all[i as int] == entries@[i as int]@);
                if text::same_text(&entry, name) {
                    return true;
                }
                i = i + 1;
            }
            false
        },
    }
}

/// The list of projects.
#[derive(Debug)]
pub struct SimpleIndexTemplate {
    pub projects: Vec<String>,
}

/// The list of the projects that the packages belong to.
pub fn simple_index(_auth: BasicAuth, packages: &Vec<PkgFile>) -> (r: SimpleIndexTemplate)
    ensures
        order::distinct_sorted(
            storage::norms(storage::pkg_views(packages@)),
            text::texts(r.projects@),
        ),
        forall|i: int|
            0 <= i < packages@.len() ==> text::texts(r.projects@).contains(
                (#[trigger] packages@[i]).pkgname_norm@,
            ),
        forall|s: Seq<char>| #[trigger]
            text::texts(r.projects@).contains(s) ==> exists|j: int|
                0 <= j < packages@.len() && (#[trigger] packages@[j]).pkgname_norm@ == s,
        forall|i: int, j: int|
            0 <= i < j < r.projects@.len() ==> order::text_less(
                (#[trigger] r.projects@[i])@,
                (#[trigger] r.projects@[j])@,
            ),
{
    SimpleIndexTemplate { projects: storage::get_projects(packages) }
}

/// A link to a package.
#[derive(Debug)]
pub struct SimpleLink {
    pub filename: String,
    pub href: String,
}

/// What a `SimpleLink` holds.
pub struct LinkView {
    pub filename: Seq<char>,
    pub href: Seq<char>,
}

impl View for SimpleLink {
    type V = LinkView;

    open spec fn view(&self) -> LinkView {
        LinkView { filename: self.filename@, href: self.href@ }
    }
}

/// What a list of `SimpleLink` holds.
pub open spec fn links_held(links: Seq<SimpleLink>) -> Seq<LinkView> {
    Seq::new(links.len(), |i: int| links[i]@)
}

/// The list of a project's packages.
#[derive(Debug)]
pub struct SimpleProjectTemplate {
    pub project: String,
    pub links: Vec<SimpleLink>,
}

/// What a package's link begins with: the way from a project's page to the packages.
pub const PACKAGES_HREF: &'static str = "../../packages/";

/// The link to a package.
pub open spec fn link_to(p: PkgView) -> LinkView {
    LinkView { filename: p.relfn, href: PACKAGES_HREF@ + p.relfn }
}

/// The file names of packages.
pub open spec fn filenames(packages: Seq<PkgView>) -> Seq<Seq<char>> {
    packages.map_values(|p: PkgView| p.relfn)
}

/// The versions of packages.
pub open spec fn versions(packages: Seq<PkgView>) -> Seq<Seq<char>> {
    packages.map_values(|p: PkgView| p.version)
}

/// The packages in the sorted order of their keys.
fn arrange(packages: &Vec<PkgFile>, keys: &Vec<Vec<char>>, descending: bool) -> (out: Vec<PkgFile>)
    requires
        keys@.len() == packages@.len(),
    ensures
        storage::pkg_views(out@) == order::arranged(
            storage::pkg_views(packages@),
            order::key_texts(keys@),
            descending,
        ),
{
    let positions = order::sort_positions(keys, descending);
    let ghost all = storage::pkg_views(packages@);
    let ghost wanted = order::arranged(all, order::key_texts(keys@), descending);
    let mut out: Vec<PkgFile> = Vec::new();
    let mut i: usize = 0;
    while i < positions.len()
        invariant
            keys@.len() == packages@.len(),
            all == storage::pkg_views(packages@),
            order::sorted_order(order::key_texts(keys@), descending, positions@),
            wanted == order::arranged(all, order::key_texts(keys@), descending),
            positions@ == order::sort_order(order::key_texts(keys@), descending),
            i <= positions@.len(),
            out@.len() == i,
            forall|j: int| 0 <= j < i ==> (#[trigger] out@[j])@ == wanted[j],
        decreases positions@.len() - i,
    {
        let p: usize = positions[i];
        assert(p < order::key_texts(keys@).len());
        out.push(packages[p].clone());
        i = i + 1;
    }
    assert(storage::pkg_views(out@) =~= wanted);
    out
}

/// The packages in dictionary order of their file names.
fn by_filename(packages: &Vec<PkgFile>) -> (out: Vec<PkgFile>)
    ensures
        storage::pkg_views(out@) == order::arranged(
            storage::pkg_views(packages@),
            filenames(storage::pkg_views(packages@)),
            false,
        ),
{
    let mut keys: Vec<Vec<char>> = Vec::new();
    let mut i: usize = 0;
    while i < packages.len()
        invariant
            i <= packages@.len(),
            keys@.len() == i,
            forall|j: int| 0 <= j < i ==> keys@[j]@ == packages@[j].relfn@,
        decreases packages@.len() - i,
    {
        keys.push(text::chars_of(&packages[i].relfn));
        i = i + 1;
    }
    assert(order::key_texts(keys@) =~= filenames(storage::pkg_views(packages@)));
    arrange(packages, &keys, false)
}

/// The packages in dictionary order of their versions, or, where `descending`, the other way round.
fn by_version(packages: &Vec<PkgFile>, descending: bool) -> (out: Vec<PkgFile>)
    ensures
        storage::pkg_views(out@) == order::arranged(
            storage::pkg_views(packages@),
            versions(storage::pkg_views(packages@)),
            descending,
        ),
{
    let mut keys: Vec<Vec<char>> = Vec::new();
    let mut i: usize = 0;
    while i < packages.len()
        invariant
            i <= packages@.len(),
            keys@.len() == i,
            forall|j: int| 0 <= j < i ==> keys@[j]@ == packages@[j].version@,
        decreases packages@.len() - i,
    {
        keys.push(text::chars_of(&packages[i].version));
        i = i + 1;
    }
    assert(order::key_texts(keys@) =~= versions(storage::pkg_views(packages@)));
    arrange(packages, &keys, descending)
}

/// The links to a project's packages, in dictionary order of their file names.
pub open spec fn project_links(found: Seq<PkgView>) -> Seq<LinkView> {
    order::arranged(found, filenames(found), false).map_values(|p: PkgView| link_to(p))
}

/// The list of a project's packages. A project without packages is not found.
pub fn simple_project(project: String, _auth: BasicAuth, packages: &Vec<PkgFile>) -> (r: Result<
    SimpleProjectTemplate,
    u16,
>)
    ensures
        ({
            let found = storage::project_packages(storage::pkg_views(packages@), project@);
            match r {
                Ok(page) => {
                    &&& found.len() > 0
                    &&& page.project@ == project@
                    &&& links_held(page.links@) == project_links(found)
                    &&& page.links@.len() == found.len()
                    &&& forall|i: int|
                        0 <= i < page.links@.len() ==> (#[trigger] page.links@[i]).href@
                            == "../../packages/"@ + page.links@[i].filename@
                },
                Err(status) => found.len() == 0 && status == NOT_FOUND && status == 404,
            }
        }),
{
    let found = storage::find_project_packages(&project, packages);
    let ghost views = storage::pkg_views(found@);
    if found.len() == 0 {
        return Err(NOT_FOUND);
    }
    let sorted = by_filename(&found);
    let ghost all = storage::pkg_views(sorted@);
    proof {
        order::lemma_sort_order(filenames(views), false);
    }
    let mut links: Vec<SimpleLink> = Vec::new();
    let mut i: usize = 0;
    while i < sorted.len()
        invariant
            all == storage::pkg_views(sorted@),
            i <= sorted@.len(),
            links@.len() == i,
            forall|j: int| 0 <= j < i ==> (#[trigger] links@[j])@ == link_to(all[j]),
            forall|j: int|
                0 <= j < i ==> (#[trigger] links@[j]).href@ == "../../packages/"@
                    + links@[j].filename@,
        decreases sorted@.len() - i,
    {
        links.push(
            SimpleLink {
                filename: sorted[i].relfn.clone(),
                href: text::concat2(PACKAGES_HREF, &sorted[i].relfn),
            },
        );
        i = i + 1;
    }
    assert(links_held(links@) =~= project_links(views));
    Ok(SimpleProjectTemplate { project, links })
}

/// A package that is sent as it is, whatever its ending says: as binary data, to be saved under its
/// own name.
#[derive(Debug)]
pub struct PackageDownload {
    pub path: String,
    pub filename: String,
}

impl PackageDownload {
    /// The value of the answer's `Content-Disposition` header.
    pub fn content_disposition(&self) -> (r: String)
        ensures
            r@ == "attachment; filename=\""@ + self.filename@ + "\""@,
    {
        text::concat3("attachment; filename=\"", &self.filename, "\"")
    }
}

/// Where the package with the given file name lies. The packages directory is flat, so that a name with
/// a path separator stands for none.
pub open spec fn download_path(filename: Seq<char>, dir: Seq<char>) -> Option<Seq<char>> {
    if paths::separated(filename) {
        None
    } else {
        Some(paths::path_in(dir, filename))
    }
}

/// The package with the given file name.
pub fn download(filename: String, _auth: BasicAuth, dir: &str) -> (r: Option<PackageDownload>)
    ensures
        match r {
            Some(d) => {
                &&& download_path(filename@, dir@) == Some(d.path@)
                &&& d.filename@ == filename@
            },
            None => download_path(filename@, dir@) is None,
        },
        r is Some <==> !filename@.contains('/') && !filename@.contains('\\'),
        r matches Some(d) ==> d.path@ == (if dir@.len() == 0 || dir@.last() == '/' {
            dir@ + filename@
        } else {
            dir@ + "/"@ + filename@
        }),
{
    if paths::has_separator(&filename) {
        return None;
    }
    Some(PackageDownload { path: paths::join(dir, &filename), filename })
}

/// The address of the index, unless the environment says otherwise.
pub const DEFAULT_BASE_URL: &'static str = "http://localhost:8080/";

/// The text with a slash at its end.
pub open spec fn with_final_slash(url: Seq<char>) -> Seq<char> {
    if text::finishes_with(url, "/"@) {
        url
    } else {
        url + "/"@
    }
}

/// The address of the index: as configured or the default, with a slash at its end.
pub open spec fn base_url_for(configured: Option<Seq<char>>) -> Seq<char> {
    with_final_slash(
        match configured {
            Some(url) => url,
            None => DEFAULT_BASE_URL@,
        },
    )
}

/// The address of the index, given what the environment says about it.
pub fn public_base_url(configured: Option<String>) -> (r: String)
    ensures
        r@ == base_url_for(text::opt_text(configured)),
        text::finishes_with(r@, "/"@),
        r@ == (match configured {
            None => "http://localhost:8080/"@,
            Some(url) => if url@.len() > 0 && url@.last() == '/' {
                url@
            } else {
                url@ + "/"@
            },
        }),
{
    proof {
        reveal_strlit("/");
        reveal_strlit("http://localhost:8080/");
    }
    let url: String = match configured {
        Some(url) => url,
        None => DEFAULT_BASE_URL.to_owned(),
    };
    if text::ends_with(&url, "/") {
        assert(url@.skip(url@.len() - 1)[0] == url@.last());
        url
    } else {
        proof {
            if url@.len() > 0 && url@.last() == '/' {
                assert(url@.skip(url@.len() - 1) =~= "/"@);
            }
        }
        let r = text::concat2(&url, "/");
        assert(r@.skip(r@.len() - "/"@.len()) =~= "/"@);
        r
    }
}

/// A project's packages by version: the last version in dictionary order comes last, or, where
/// `newest_first`, first. Packages with the same version keep the order they have.
pub open spec fn releases_of(
    packages: Seq<PkgView>,
    project: Seq<char>,
    newest_first: bool,
) -> Seq<PkgView> {
    let found = storage::project_packages(packages, project);
    order::arranged(found, versions(found), newest_first)
}

/// A project's packages by version.
pub fn project_releases(project: &str, packages: &Vec<PkgFile>, newest_first: bool) -> (r: Vec<
    PkgFile,
>)
    ensures
        storage::pkg_views(r@) == releases_of(
            storage::pkg_views(packages@),
            project@,
            newest_first,
        ),
{
    let found = storage::find_project_packages(project, packages);
    by_version(&found, newest_first)
}

/// The package that stands for a project: the one with the last version.
pub open spec fn latest_of(releases: Seq<PkgView>, newest_first: bool) -> Option<PkgView> {
    if releases.len() == 0 {
        None
    } else if newest_first {
        Some(releases[0])
    } else {
        Some(releases.last())
    }
}

/// The package that stands for a project, among its packages by version.
pub fn latest_release(releases: &Vec<PkgFile>, newest_first: bool) -> (r: Option<PkgFile>)
    ensures
        match r {
            Some(p) => latest_of(storage::pkg_views(releases@), newest_first) == Some(p@),
            None => latest_of(storage::pkg_views(releases@), newest_first) is None,
        },
        r is None <==> releases@.len() == 0,
        r matches Some(p) ==> p@ == (if newest_first {
            releases@[0]@
        } else {
            releases@.last()@
        }),
{
    if releases.len() == 0 {
        None
    } else if newest_first {
        Some(releases[0].clone())
    } else {
        Some(releases[releases.len() - 1].clone())
    }
}

/// A release as it is shown.
#[derive(Debug)]
pub struct ReleaseView {
    pub version: String,
    pub filename: String,
}

/// The version and the file name of each release.
pub open spec fn shown(releases: Seq<ReleaseView>) -> Seq<(Seq<char>, Seq<char>)> {
    Seq::new(releases.len(), |i: int| (releases[i].version@, releases[i].filename@))
}

/// The version and the file name of each package.
pub open spec fn to_show(packages: Seq<PkgView>) -> Seq<(Seq<char>, Seq<char>)> {
    packages.map_values(|p: PkgView| (p.version, p.relfn))
}

/// The releases as they are shown.
fn show(packages: &Vec<PkgFile>) -> (r: Vec<ReleaseView>)
    ensures
        shown(r@) == to_show(storage::pkg_views(packages@)),
        r@.len() == packages@.len(),
        forall|i: int|
            0 <= i < packages@.len() ==> (#[trigger] r@[i]).version@ == packages@[i].version@
                && r@[i].filename@ == packages@[i].relfn@,
{
    let mut r: Vec<ReleaseView> = Vec::new();
    let mut i: usize = 0;
    while i < packages.len()
        invariant
            i <= packages@.len(),
            r@.len() == i,
            forall|j: int|
                0 <= j < i ==> (#[trigger] r@[j]).version@ == packages@[j].version@
                    && r@[j].filename@ == packages@[j].relfn@,
        decreases packages@.len() - i,
    {
        r.push(
            ReleaseView {
                version: packages[i].version.clone(),
                filename: packages[i].relfn.clone(),
            },
        );
        i = i + 1;
    }
    assert(shown(r@) =~= to_show(storage::pkg_views(packages@)));
    r
}

/// What the index says about a project in machine-readable form.
#[derive(Debug)]
pub struct JsonInfo {
    pub name: String,
    pub version: String,
    pub summary: Option<String>,
    pub author: Option<String>,
    pub license: Option<String>,
    pub requires_python: Option<String>,
    pub classifiers: Option<Vec<String>>,
    pub requires_dist: Option<Vec<String>>,
    pub releases: Vec<ReleaseView>,
}

/// What the index says about a project in machine-readable form, given the project's packages by
/// version, the last one last, and the metadata of the last one. A project without packages is not
/// found.
pub fn json_info(project: String, releases: &Vec<PkgFile>, meta: PackageMetadata) -> (r: Result<
    JsonInfo,
    u16,
>)
    ensures
        ({
            let latest = latest_of(storage::pkg_views(releases@), false);
            match r {
                Ok(info) => {
                    &&& latest is Some
                    &&& info.name@ == text::text_or(meta@.name, project@)
                    &&& info.version@ == latest->0.version
                    &&& text::opt_text(info.summary) == meta@.summary
                    &&& text::opt_text(info.author) == meta@.author
                    &&& text::opt_text(info.license) == meta@.license
                    &&& text::opt_text(info.requires_python) == meta@.requires_python
                    &&& storage::opt_texts(info.classifiers) == meta@.classifiers
                    &&& storage::opt_texts(info.requires_dist) == meta@.requires_dist
                    &&& shown(info.releases@) == to_show(storage::pkg_views(releases@))
                },
                Err(status) => latest is None && status == NOT_FOUND,
            }
        }),
        r is Ok <==> releases@.len() > 0,
        r matches Err(status) ==> status == 404,
        r matches Ok(info) ==> {
            &&& info.name@ == (match meta.name {
                Some(name) => name@,
                None => project@,
            })
            &&& info.version@ == releases@.last().version@
            &&& info.summary == meta.summary
            &&& info.author == meta.author
            &&& info.license == meta.license
            &&& info.requires_python == meta.requires_python
            &&& info.classifiers == meta.classifiers
            &&& info.requires_dist == meta.requires_dist
            &&& info.releases@.len() == releases@.len()
            &&& forall|i: int|
                0 <= i < releases@.len() ==> (#[trigger] info.releases@[i]).version@
                    == releases@[i].version@ && info.releases@[i].filename@ == releases@[i].relfn@
        },
{
    match latest_release(releases, false) {
        None => Err(NOT_FOUND),
        Some(latest) => {
            let name: String = match meta.name {
                Some(name) => name,
                None => project,
            };
            Ok(
                JsonInfo {
                    name,
                    version: latest.version,
                    summary: meta.summary,
                    author: meta.author,
                    license: meta.license,
                    requires_python: meta.requires_python,
                    classifiers: meta.classifiers,
                    requires_dist: meta.requires_dist,
                    releases: show(releases),
                },
            )
        },
    }
}

/// What the index says about a project on a page.
#[derive(Debug)]
pub struct DetailsTemplate {
    pub name: String,
    pub version: String,
    pub summary: String,
    pub author: String,
    pub license: String,
    pub requires_python: String,
    pub classifiers: Vec<String>,
    pub requires_dist: Vec<String>,
    pub releases: Vec<ReleaseView>,
    pub index_url: String,
}

/// What a `DetailsTemplate` holds.
#[verifier::ext_equal]
pub struct DetailsView {
    pub name: Seq<char>,
    pub version: Seq<char>,
    pub summary: Seq<char>,
    pub author: Seq<char>,
    pub license: Seq<char>,
    pub requires_python: Seq<char>,
    pub classifiers: Seq<Seq<char>>,
    pub requires_dist: Seq<Seq<char>>,
    pub releases: Seq<(Seq<char>, Seq<char>)>,
    pub index_url: Seq<char>,
}

impl View for DetailsTemplate {
    type V = DetailsView;

    open spec fn view(&self) -> DetailsView {
        DetailsView {
            name: self.name@,
            version: self.version@,
            summary: self.summary@,
            author: self.author@,
            license: self.license@,
            requires_python: self.requires_python@,
            classifiers: text::texts(self.classifiers@),
            requires_dist: text::texts(self.requires_dist@),
            releases: shown(self.releases@),
            index_url: self.index_url@,
        }
    }
}

/// The path of a project's page.
pub fn details_path(project: &str) -> (r: String)
    ensures
        r@ == "/details/"@ + project@,
{
    text::concat2("/details/", project)
}

/// The text, or nothing where there is none.
pub open spec fn text_or_nothing(o: Option<Seq<char>>) -> Seq<char> {
    match o {
        Some(s) => s,
        None => Seq::empty(),
    }
}

/// The texts, or none.
pub open spec fn texts_or_none(o: Option<Seq<Seq<char>>>) -> Seq<Seq<char>> {
    match o {
        Some(v) => v,
        None => Seq::empty(),
    }
}

/// The page of a project, given its packages by version, the last one first, and the metadata of the
/// last one. A project without packages has a page with its name and nothing else.
pub open spec fn details_page(
    project: Seq<char>,
    releases: Seq<PkgView>,
    meta: storage::MetadataView,
    base_url: Seq<char>,
) -> DetailsView {
    let index_url = base_url + "simple/"@;
    match latest_of(releases, true) {
        None => DetailsView {
            name: project,
            version: Seq::empty(),
            summary: Seq::empty(),
            author: Seq::empty(),
            license: Seq::empty(),
            requires_python: Seq::empty(),
            classifiers: Seq::empty(),
            requires_dist: Seq::empty(),
            releases: Seq::empty(),
            index_url,
        },
        Some(latest) => DetailsView {
            name: text::text_or(meta.name, project),
            version: latest.version,
            summary: text_or_nothing(meta.summary),
            author: text_or_nothing(meta.author),
            license: text_or_nothing(meta.license),
            requires_python: text_or_nothing(meta.requires_python),
            classifiers: texts_or_none(meta.classifiers),
            requires_dist: texts_or_none(meta.requires_dist),
            releases: to_show(releases),
            index_url,
        },
    }
}

/// The string, or an empty one.
fn or_nothing(o: Option<String>) -> (r: String)
    ensures
        r@ == text_or_nothing(text::opt_text(o)),
        o matches Some(s) ==> r@ == s@,
        o is None ==> r@.len() == 0,
{
    match o {
        Some(s) => s,
        None => String::new(),
    }
}

/// The strings, or none.
fn or_none(o: Option<Vec<String>>) -> (r: Vec<String>)
    ensures
        text::texts(r@) == texts_or_none(storage::opt_texts(o)),
        o matches Some(v) ==> r == v,
        o is None ==> r@.len() == 0,
{
    match o {
        Some(v) => v,
        None => {
            let r: Vec<String> = Vec::new();
            assert(text::texts(r@) =~= Seq::empty());
            r
        },
    }
}

/// The page of a project, for a session that was let through; any other is sent to the login page.
pub fn package_details(
    access: Result<(), Redirection>,
    project: String,
    releases: &Vec<PkgFile>,
    meta: PackageMetadata,
    configured_url: Option<String>,
) -> (r: PageOrRedirect<DetailsTemplate>)
    ensures
        match access {
            Err(away) => r == PageOrRedirect::<DetailsTemplate>::Redirect(away),
            Ok(_) => r is Page && r->Page_0@ == details_page(
                project@,
                storage::pkg_views(releases@),
                meta@,
                base_url_for(text::opt_text(configured_url)),
            ),
        },
        r matches PageOrRedirect::Page(page) ==> {
            &&& page.releases@.len() == releases@.len()
            &&& forall|i: int|
                0 <= i < releases@.len() ==> (#[trigger] page.releases@[i]).version@
                    == releases@[i].version@ && page.releases@[i].filename@ == releases@[i].relfn@
            &&& page.index_url@ == (match configured_url {
                None => "http://localhost:8080/"@,
                Some(url) => if url@.len() > 0 && url@.last() == '/' {
                    url@
                } else {
                    url@ + "/"@
                },
            }) + "simple/"@
        },
        r matches PageOrRedirect::Page(page) ==> releases@.len() > 0 ==> {
            &&& page.name@ == (match meta.name {
                Some(name) => name@,
                None => project@,
            })
            &&& page.version@ == releases@[0].version@
            &&& meta.summary matches Some(s) ==> page.summary@ == s@
            &&& meta.summary is None ==> page.summary@.len() == 0
            &&& meta.author matches Some(s) ==> page.author@ == s@
            &&& meta.author is None ==> page.author@.len() == 0
            &&& meta.license matches Some(s) ==> page.license@ == s@
            &&& meta.license is None ==> page.license@.len() == 0
            &&& meta.requires_python matches Some(s) ==> page.requires_python@ == s@
            &&& meta.requires_python is None ==> page.requires_python@.len() == 0
            &&& meta.classifiers matches Some(v) ==> text::texts(page.classifiers@) == text::texts(
                v@,
            )
            &&& meta.classifiers is None ==> page.classifiers@.len() == 0
            &&& meta.requires_dist matches Some(v) ==> text::texts(page.requires_dist@)
                == text::texts(v@)
            &&& meta.requires_dist is None ==> page.requires_dist@.len() == 0
        },
        r matches PageOrRedirect::Page(page) ==> releases@.len() == 0 ==> {
            &&& page.name@ == project@
            &&& page.version@.len() == 0
            &&& page.summary@.len() == 0
            &&& page.author@.len() == 0
            &&& page.license@.len() == 0
            &&& page.requires_python@.len() == 0
            &&& page.classifiers@.len() == 0
            &&& page.requires_dist@.len() == 0
        },
{
    match access {
        Err(away) => {
            return PageOrRedirect::Redirect(away);
        },
        Ok(_) => {},
    }
    let ghost wanted = details_page(
        project@,
        storage::pkg_views(releases@),
        meta@,
        base_url_for(text::opt_text(configured_url)),
    );
    let base_url = public_base_url(configured_url);
    let index_url = text::concat2(&base_url, "simple/");
    let page: DetailsTemplate = match latest_release(releases, true) {
        None => DetailsTemplate {
            name: project,
            version: String::new(),
            summary: String::new(),
            author: String::new(),
            license: String::new(),
            requires_python: String::new(),
            classifiers: Vec::new(),
            requires_dist: Vec::new(),
            releases: Vec::new(),
            index_url,
        },
        Some(latest) => {
            let name: String = match meta.name {
                Some(name) => name,
                None => project,
            };
            DetailsTemplate {
                name,
                version: latest.version,
                summary: or_nothing(meta.summary),
                author: or_nothing(meta.author),
                license: or_nothing(meta.license),
                requires_python: or_nothing(meta.requires_python),
                classifiers: or_none(meta.classifiers),
                requires_dist: or_none(meta.requires_dist),
                releases: show(releases),
                index_url,
            }
        },
    };
    assert(page@ =~= wanted);
    PageOrRedirect::Page(page)
}

/// The welcome page.
#[derive(Debug)]
pub struct WelcomeTemplate {
    pub num_pkgs: usize,
    pub base_url: String,
    pub packages_url: String,
    pub simple_url: String,
    pub version: String,
}

/// The welcome page: how many projects there are, and where.
pub fn welcome(configured_url: Option<String>, packages: &Vec<PkgFile>, version: &str) -> (r:
    WelcomeTemplate)
    ensures
        ({
            let base_url = base_url_for(text::opt_text(configured_url));
            &&& r.num_pkgs == storage::norms(storage::pkg_views(packages@)).to_set().len()
            &&& r.base_url@ == base_url
            &&& r.packages_url@ == base_url + "packages/"@
            &&& r.simple_url@ == base_url + "simple/"@
            &&& r.version@ == version@
        }),
{
    let base_url = public_base_url(configured_url);
    let projects = storage::get_projects(packages);
    proof {
        order::lemma_distinct_sorted_len(
            storage::norms(storage::pkg_views(packages@)),
            text::texts(projects@),
        );
    }
    WelcomeTemplate {
        num_pkgs: projects.len(),
        packages_url: text::concat2(&base_url, "packages/"),
        simple_url: text::concat2(&base_url, "simple/"),
        base_url,
        version: version.to_owned(),
    }
}

} // verus!
