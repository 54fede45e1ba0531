//! Laws of the index's answers.
use crate::order;
use crate::order_laws;
use crate::paths;
use crate::push_consumer;
use crate::pypi_push;
use crate::routes;
use crate::storage;
use crate::storage_laws;
use crate::text;
use crate::text_laws;
use crate::uploads;
use vstd::prelude::*;

verus! {

/// Sorting keeps the items: what is arranged holds the same items, as many of them.
proof fn lemma_arranged_items(
    items: Seq<storage::PkgView>,
    keys: Seq<Seq<char>>,
    descending: bool,
)
    requires
        items.len() == keys.len() <= usize::MAX,
    ensures
        order::arranged(items, keys, descending).len() == items.len(),
        forall|p: storage::PkgView| #[trigger]
            order::arranged(items, keys, descending).contains(p) <==> items.contains(p),
{
    order::lemma_sort_order(keys, descending);
    let o = order::sort_order(keys, descending);
    let out = order::arranged(items, keys, descending);
    assert forall|p: storage::PkgView| #[trigger] out.contains(p) <==> items.contains(p) by {
        if out.contains(p) {
            let i = choose|i: int| 0 <= i < out.len() && out[i] == p;
            assert(o[i] < keys.len());
            assert(items[o[i] as int] == p);
        }
        if items.contains(p) {
            let q = choose|q: int| 0 <= q < items.len() && items[q] == p;
            assert(o.contains(q as usize));
            let i = choose|i: int| 0 <= i < o.len() && o[i] == q as usize;
            assert(out[i] == p);
        }
    }
}

/// What comes later in sorted order has no smaller key; the other way round where it is descending.
proof fn lemma_arranged_order(
    items: Seq<storage::PkgView>,
    keys: Seq<Seq<char>>,
    descending: bool,
    i: int,
    j: int,
)
    requires
        items.len() == keys.len() <= usize::MAX,
        0 <= i <= j < items.len(),
    ensures
        ({
            let o = order::sort_order(keys, descending);
            let a = keys[o[i] as int];
            let b = keys[o[j] as int];
            if descending {
                !order::text_less(a, b)
            } else {
                !order::text_less(b, a)
            }
        }),
{
    order::lemma_sort_order(keys, descending);
    let o = order::sort_order(keys, descending);
    let a = keys[o[i] as int];
    let b = keys[o[j] as int];
    order::lemma_text_less_irreflexive(a);
    if i < j {
        assert(order::goes_before(keys, descending, o[i] as int, o[j] as int));
        if order::text_less(a, b) && order::text_less(b, a) {
            order::lemma_text_less_transitive(a, b, a);
        }
    }
}

/// The releases of a project are its packages, as many of them, whichever way they are sorted.
pub proof fn law_releases_are_the_packages(
    packages: Seq<storage::PkgView>,
    project: Seq<char>,
    newest_first: bool,
)
    requires
        packages.len() <= usize::MAX,
    ensures
        ({
            let found = storage::project_packages(packages, project);
            let releases = routes::releases_of(packages, project, newest_first);
            &&& releases.len() == found.len()
            &&& forall|p: storage::PkgView| #[trigger] releases.contains(p) <==> found.contains(p)
        }),
{
    let found = storage::project_packages(packages, project);
    packages.lemma_filter_len(
        |p: storage::PkgView| p.pkgname_norm == storage::normalized(project),
    );
    lemma_arranged_items(found, routes::versions(found), newest_first);
}

/// The package that stands for a project is one of its packages, and none of them has a later
/// version in dictionary order.
pub proof fn law_latest_is_greatest(
    packages: Seq<storage::PkgView>,
    project: Seq<char>,
    newest_first: bool,
    p: storage::PkgView,
)
    requires
        packages.len() <= usize::MAX,
        storage::project_packages(packages, project).contains(p),
    ensures
        ({
            let releases = routes::releases_of(packages, project, newest_first);
            let latest = routes::latest_of(releases, newest_first);
            &&& latest is Some
            &&& storage::project_packages(packages, project).contains(latest->0)
            &&& !order::text_less(latest->0.version, p.version)
        }),
{
    let found = storage::project_packages(packages, project);
    let keys = routes::versions(found);
    let releases = routes::releases_of(packages, project, newest_first);
    let o = order::sort_order(keys, newest_first);
    packages.lemma_filter_len(
        |q: storage::PkgView| q.pkgname_norm == storage::normalized(project),
    );
    lemma_arranged_items(found, keys, newest_first);
    order::lemma_sort_order(keys, newest_first);
    assert(releases.contains(p));
    let i = choose|i: int| 0 <= i < releases.len() && releases[i] == p;
    let n = releases.len() as int;
    let k = if newest_first {
        0
    } else {
        n - 1
    };
    assert(releases.contains(releases[k]));
    assert(o[i] < keys.len() && o[k] < keys.len());
    assert(keys[o[i] as int] == p.version);
    assert(keys[o[k] as int] == releases[k].version);
    if newest_first {
        lemma_arranged_order(found, keys, newest_first, k, i);
    } else {
        lemma_arranged_order(found, keys, newest_first, i, k);
    }
}

/// The releases of a project are in the order of their versions, the last one first or last.
pub proof fn law_releases_sorted(
    packages: Seq<storage::PkgView>,
    project: Seq<char>,
    newest_first: bool,
    i: int,
    j: int,
)
    requires
        packages.len() <= usize::MAX,
        0 <= i <= j < storage::project_packages(packages, project).len(),
    ensures
        ({
            let releases = routes::releases_of(packages, project, newest_first);
            &&& releases.len() == storage::project_packages(packages, project).len()
            &&& newest_first ==> !order::text_less(releases[i].version, releases[j].version)
            &&& !newest_first ==> !order::text_less(releases[j].version, releases[i].version)
        }),
{
    let found = storage::project_packages(packages, project);
    let keys = routes::versions(found);
    packages.lemma_filter_len(
        |q: storage::PkgView| q.pkgname_norm == storage::normalized(project),
    );
    order::lemma_sort_order(keys, newest_first);
    let o = order::sort_order(keys, newest_first);
    assert(o[i] < keys.len() && o[j] < keys.len());
    lemma_arranged_order(found, keys, newest_first, i, j);
}

/// Releases with the same version keep the order that the packages have.
pub proof fn law_releases_keep_their_order(
    packages: Seq<storage::PkgView>,
    project: Seq<char>,
    newest_first: bool,
    a: int,
    b: int,
)
    requires
        packages.len() <= usize::MAX,
        0 <= a < b < storage::project_packages(packages, project).len(),
        storage::project_packages(packages, project)[a].version == storage::project_packages(
            packages,
            project,
        )[b].version,
    ensures
        ({
            let found = storage::project_packages(packages, project);
            let releases = routes::releases_of(packages, project, newest_first);
            exists|i: int, j: int|
                0 <= i < j < releases.len() && #[trigger] releases[i] == found[a]
                    && #[trigger] releases[j] == found[b]
        }),
{
    let found = storage::project_packages(packages, project);
    packages.lemma_filter_len(
        |q: storage::PkgView| q.pkgname_norm == storage::normalized(project),
    );
    lemma_arranged_stable(found, routes::versions(found), newest_first, a, b);
    let releases = routes::releases_of(packages, project, newest_first);
    assert(releases == order::arranged(found, routes::versions(found), newest_first));
    let (i, j) = choose|i: int, j: int|
        0 <= i < j < releases.len() && #[trigger] releases[i] == found[a]
            && #[trigger] releases[j] == found[b];
    assert(releases[i] == found[a] && releases[j] == found[b]);
}

/// Items with the same key keep the order they have.
proof fn lemma_arranged_stable(
    items: Seq<storage::PkgView>,
    keys: Seq<Seq<char>>,
    descending: bool,
    a: int,
    b: int,
)
    requires
        items.len() == keys.len() <= usize::MAX,
        0 <= a < b < items.len(),
        keys[a] == keys[b],
    ensures
        ({
            let out = order::arranged(items, keys, descending);
            exists|i: int, j: int|
                0 <= i < j < out.len() && #[trigger] out[i] == items[a] && #[trigger] out[j]
                    == items[b]
        }),
{
    order::lemma_sort_order(keys, descending);
    order_laws::law_sorting(items, keys, descending);
    let at = order::sort_order(keys, descending);
    let out = order::arranged(items, keys, descending);
    assert(at.contains(a as usize));
    assert(at.contains(b as usize));
    let i = choose|i: int| 0 <= i < at.len() && at[i] == a as usize;
    let j = choose|j: int| 0 <= j < at.len() && at[j] == b as usize;
    if j < i {
        assert(at[j] < at[i]);
    }
    assert(out[i] == items[a] && out[j] == items[b]);
}

/// The page and the machine-readable form name the same version as a project's last.
pub proof fn law_latest_versions_agree(packages: Seq<storage::PkgView>, project: Seq<char>)
    requires
        packages.len() <= usize::MAX,
        storage::project_packages(packages, project).len() > 0,
    ensures
        ({
            let a = routes::latest_of(routes::releases_of(packages, project, false), false);
            let b = routes::latest_of(routes::releases_of(packages, project, true), true);
            a is Some && b is Some && a->0.version == b->0.version
        }),
{
    let found = storage::project_packages(packages, project);
    let a = routes::latest_of(routes::releases_of(packages, project, false), false);
    let b = routes::latest_of(routes::releases_of(packages, project, true), true);
    assert(found.contains(found[0]));
    law_latest_is_greatest(packages, project, false, found[0]);
    law_latest_is_greatest(packages, project, true, found[0]);
    law_latest_is_greatest(packages, project, false, b->0);
    law_latest_is_greatest(packages, project, true, a->0);
    order::lemma_text_less_total(a->0.version, b->0.version);
}

/// A project's page links to each of its packages, as many times as there are packages, in dictionary
/// order of the file names.
pub proof fn law_links_sorted(packages: Seq<storage::PkgView>, project: Seq<char>, i: int, j: int)
    requires
        packages.len() <= usize::MAX,
        0 <= i <= j < storage::project_packages(packages, project).len(),
    ensures
        ({
            let found = storage::project_packages(packages, project);
            let links = routes::project_links(found);
            &&& links.len() == found.len()
            &&& !order::text_less(links[j].filename, links[i].filename)
            &&& links.contains(routes::link_to(found[i]))
        }),
{
    let found = storage::project_packages(packages, project);
    let keys = routes::filenames(found);
    let sorted = order::arranged(found, keys, false);
    let links = routes::project_links(found);
    let o = order::sort_order(keys, false);
    packages.lemma_filter_len(
        |q: storage::PkgView| q.pkgname_norm == storage::normalized(project),
    );
    lemma_arranged_items(found, keys, false);
    order::lemma_sort_order(keys, false);
    lemma_arranged_order(found, keys, false, i, j);
    assert(o[i] < keys.len() && o[j] < keys.len());
    assert(found.contains(found[i]));
    assert(sorted.contains(found[i]));
    let k = choose|k: int| 0 <= k < sorted.len() && sorted[k] == found[i];
    assert(links[k] == routes::link_to(found[i]));
}

/// Where a file of the packages directory lies: behind the directory's path, with a slash between them
/// where there is none yet.
pub open spec fn place(dir: Seq<char>, name: Seq<char>) -> Seq<char> {
    if dir.len() == 0 || dir.last() == '/' {
        dir + name
    } else {
        dir + seq!['/'] + name
    }
}

/// Every link of a project's page leads to the file that it names: behind the way from the page to the
/// packages stands the file's name, character by character, and a download of what stands there takes
/// the path at which an upload of that name stores its content.
pub proof fn law_links_lead_to_files(
    packages: Seq<storage::PkgView>,
    project: Seq<char>,
    i: int,
    metadata: storage::MetadataView,
    dir: Seq<char>,
    list: Option<Seq<char>>,
)
    requires
        packages.len() <= usize::MAX,
        0 <= i < routes::project_links(storage::project_packages(packages, project)).len(),
    ensures
        ({
            let link = routes::project_links(storage::project_packages(packages, project))[i];
            let asked = link.href.skip("../../packages/"@.len() as int);
            let begin = uploads::first_step("file_upload"@, Some(link.filename), metadata, dir);
            let next = uploads::step(begin.0, uploads::EventView::Looked(false), list);
            &&& link.href == "../../packages/"@ + link.filename
            &&& asked == link.filename
            &&& !link.filename.contains('/') && !link.filename.contains('\\') ==> {
                &&& routes::download_path(asked, dir) == Some(place(dir, link.filename))
                &&& begin.1 == uploads::ActionView::LookFor(place(dir, link.filename))
                &&& next.1 == uploads::ActionView::Store(place(dir, link.filename))
            }
        }),
{
    reveal_strlit("/");
    assert("/"@ =~= seq!['/']);
    let link = routes::project_links(storage::project_packages(packages, project))[i];
    assert(link.href.skip("../../packages/"@.len() as int) =~= link.filename);
}

/// A project's page names the files of its packages: there is a link for every package, with the
/// package's file name, and none besides.
pub proof fn law_links_name_the_files(
    packages: Seq<storage::PkgView>,
    project: Seq<char>,
    name: Seq<char>,
)
    requires
        packages.len() <= usize::MAX,
    ensures
        ({
            let found = storage::project_packages(packages, project);
            let links = routes::project_links(found);
            &&& links.len() == found.len()
            &&& (exists|i: int| 0 <= i < links.len() && (#[trigger] links[i]).filename == name)
                <==> (exists|j: int| 0 <= j < found.len() && (#[trigger] found[j]).relfn == name)
        }),
{
    let found = storage::project_packages(packages, project);
    let keys = routes::filenames(found);
    let sorted = order::arranged(found, keys, false);
    let links = routes::project_links(found);
    packages.lemma_filter_len(
        |q: storage::PkgView| q.pkgname_norm == storage::normalized(project),
    );
    lemma_arranged_items(found, keys, false);
    if exists|i: int| 0 <= i < links.len() && (#[trigger] links[i]).filename == name {
        let i = choose|i: int| 0 <= i < links.len() && (#[trigger] links[i]).filename == name;
        assert(sorted[i].relfn == name);
        assert(sorted.contains(sorted[i]));
        assert(found.contains(sorted[i]));
        let j = choose|j: int| 0 <= j < found.len() && found[j] == sorted[i];
        assert(found[j].relfn == name);
    }
    if exists|j: int| 0 <= j < found.len() && (#[trigger] found[j]).relfn == name {
        let j = choose|j: int| 0 <= j < found.len() && (#[trigger] found[j]).relfn == name;
        assert(found.contains(found[j]));
        assert(sorted.contains(found[j]));
        let i = choose|i: int| 0 <= i < sorted.len() && sorted[i] == found[j];
        assert(links[i].filename == name);
    }
}

/// A list of names, joined by commas, with white space before and behind each.
pub open spec fn list_text(
    before: Seq<Seq<char>>,
    names: Seq<Seq<char>>,
    behind: Seq<Seq<char>>,
) -> Seq<char> {
    text::joined(
        Seq::new(names.len(), |i: int| before[i] + names[i] + behind[i]),
        seq![','],
    )
}

/// Whether the names can stand on a list: none holds a comma, and none begins or ends with white space,
/// which may stand around them.
pub open spec fn proper_list(
    before: Seq<Seq<char>>,
    names: Seq<Seq<char>>,
    behind: Seq<Seq<char>>,
) -> bool {
    &&& names.len() > 0
    &&& before.len() == names.len()
    &&& behind.len() == names.len()
    &&& forall|i: int|
        0 <= i < names.len() ==> !(#[trigger] names[i]).contains(',') && text_laws::tight(names[i])
            && text_laws::blank(before[i]) && text_laws::blank(behind[i])
}

/// A project is on a list of names if and only if its name is one of them, with nothing before it or
/// behind it. Without a list it is not on it.
pub proof fn law_sync_list(
    before: Seq<Seq<char>>,
    names: Seq<Seq<char>>,
    behind: Seq<Seq<char>>,
    name: Seq<char>,
)
    requires
        proper_list(before, names, behind),
    ensures
        routes::on_sync_list(name, Some(list_text(before, names, behind))) <==> names.contains(
            name,
        ),
        !routes::on_sync_list(name, None),
{
    let entries = Seq::new(names.len(), |i: int| before[i] + names[i] + behind[i]);
    assert forall|i: int| 0 <= i < entries.len() implies !(#[trigger] entries[i]).contains(',')
        && text::trimmed(entries[i]) == names[i] by {
        let n = names[i];
        assert(!n.contains(','));
        text_laws::law_trimmed(before[i], n, behind[i]);
        if entries[i].contains(',') {
            let k = choose|k: int| 0 <= k < entries[i].len() && entries[i][k] == ',';
            let a = before[i].len() as int;
            let b = a + n.len();
            if k < a {
                assert(text::white_space(before[i][k]));
            } else if k < b {
                assert(n[k - a] == ',');
            } else {
                assert(text::white_space(behind[i][k - b]));
            }
        }
    }
    text_laws::law_pieces_of_joined(entries, ',');
    if names.contains(name) {
        let i = choose|i: int| 0 <= i < names.len() && names[i] == name;
        assert(text::trimmed(entries[i]) == name);
    }
}

/// A stored file is announced for the project that its own metadata name, if and only if that name is
/// on the list of names.
pub proof fn law_announced_projects(
    dist: pypi_push::DistView,
    before: Seq<Seq<char>>,
    names: Seq<Seq<char>>,
    behind: Seq<Seq<char>>,
)
    requires
        proper_list(before, names, behind),
    ensures
        ({
            let single = dist.metadata.single;
            let r = uploads::announced_project(
                Ok(dist),
                Some(list_text(before, names, behind)),
            );
            &&& r is Some <==> single.contains_key("Name"@) && names.contains(single["Name"@])
            &&& r matches Some(project) ==> project == single["Name"@]
        }),
        uploads::announced_project(Ok(dist), None) is None,
        forall|e: pypi_push::DistErrorView, list: Option<Seq<char>>| #[trigger]
            uploads::announced_project(Err(e), list) is None,
{
    law_sync_list(before, names, behind, dist.metadata.single["Name"@]);
}

/// A stored file is found where it was stored: the download and the push of that name take the same
/// path.
pub proof fn law_stored_files_are_found(
    action: Seq<char>,
    name: Option<Seq<char>>,
    metadata: storage::MetadataView,
    dir: Seq<char>,
    filename: Seq<char>,
    path: Seq<char>,
    repository_url: Option<Seq<char>>,
    username: Option<Seq<char>>,
    password: Seq<char>,
)
    requires
        uploads::first_step(action, name, metadata, dir).0 == (uploads::StateView::Looking {
            filename,
            path,
            metadata,
        }),
    ensures
        name == Some(filename),
        !paths::separated(filename),
        routes::download_path(filename, dir) == Some(path),
        push_consumer::plan(filename, dir, repository_url, username, Some(password)) is Ok,
        push_consumer::plan(
            filename,
            dir,
            repository_url,
            username,
            Some(password),
        )->Ok_0.path == path,
{
}

/// A stored file with a distribution's name is listed, under its own name, and its metadata are
/// looked for where the upload put them.
pub proof fn law_stored_distributions_are_listed(
    action: Seq<char>,
    name: Option<Seq<char>>,
    metadata: storage::MetadataView,
    dir: Seq<char>,
    filename: Seq<char>,
    path: Seq<char>,
    entries: Seq<storage::DirEntryView>,
    j: int,
)
    requires
        uploads::first_step(action, name, metadata, dir).0 == (uploads::StateView::Looking {
            filename,
            path,
            metadata,
        }),
        !storage::skipped_name(filename),
        storage::guessed(filename) is Some,
        0 <= j < entries.len(),
        entries[j] == (storage::DirEntryView {
            file_name: Some(filename),
            is_file: true,
            path,
        }),
    ensures
        ({
            let p = storage::listed(entries[j]);
            &&& p is Some
            &&& storage::scanned(entries).contains(p->0)
            &&& p->0.relfn == filename
            &&& storage::sidecar(p->0.full_path) == storage::sidecar(path)
        }),
{
    storage_laws::law_scan_is_complete(entries, j);
}

/// A name with a path separator is refused wherever it comes from: a file of that name is neither
/// stored nor sent nor pushed.
pub proof fn law_separators_refused(
    name: Seq<char>,
    metadata: storage::MetadataView,
    dir: Seq<char>,
    repository_url: Option<Seq<char>>,
    username: Option<Seq<char>>,
    password: Seq<char>,
)
    requires
        name.contains('/') || name.contains('\\'),
    ensures
        uploads::first_step("file_upload"@, Some(name), metadata, dir) == uploads::refused(400),
        routes::download_path(name, dir) is None,
        push_consumer::plan(name, dir, repository_url, username, Some(password)) == Err::<
            push_consumer::PlanView,
            push_consumer::PushErrorView,
        >(push_consumer::PushErrorView::Separator(name)),
{
}

/// The address of the index ends with a slash, and a configured address that does is taken as it is.
pub proof fn law_base_url(url: Seq<char>)
    ensures
        text::finishes_with(routes::base_url_for(Some(url)), "/"@),
        text::finishes_with(url, "/"@) ==> routes::base_url_for(Some(url)) == url,
        routes::base_url_for(None) == "http://localhost:8080/"@,
        url.len() > 0 && url.last() == '/' ==> routes::base_url_for(Some(url)) == url,
        url.len() == 0 || url.last() != '/' ==> routes::base_url_for(Some(url)) == url.push('/'),
{
    reveal_strlit("/");
    reveal_strlit("http://localhost:8080/");
    let slashed = url + "/"@;
    assert(slashed.skip(slashed.len() - 1) =~= "/"@);
    assert(slashed =~= url.push('/'));
    if url.len() > 0 {
        assert(url.skip(url.len() - 1)[0] == url.last());
        assert(url.last() == '/' ==> url.skip(url.len() - 1) =~= "/"@);
    }
    let d = routes::DEFAULT_BASE_URL@;
    assert(d.skip(d.len() - 1) =~= "/"@);
}

} // verus!
