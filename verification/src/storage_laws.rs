//! Laws of the packages directory.
use crate::name_laws;
use crate::order;
use crate::storage;
use crate::text;
use vstd::prelude::*;

verus! {

/// Every package of a scan comes from a file of the directory, under the file's own name, which is
/// neither a sidecar's nor hidden. Its name and version are those that the file name stands for, and
/// its normal form is that of its name.
pub proof fn law_scan_is_faithful(entries: Seq<storage::DirEntryView>, i: int)
    requires
        0 <= i < storage::scanned(entries).len(),
    ensures
        ({
            let p = storage::scanned(entries)[i];
            &&& exists|j: int|
                0 <= j < entries.len() && storage::listed(#[trigger] entries[j]) == Some(p)
                    && entries[j].is_file && entries[j].file_name == Some(p.relfn)
                    && entries[j].path == p.full_path
            &&& !storage::skipped_name(p.relfn)
            &&& storage::guessed(p.relfn) == Some((p.pkgname, p.version))
            &&& p.pkgname_norm == storage::normalized(p.pkgname)
        }),
    decreases entries.len(),
{
    let last = entries.last();
    let before = storage::scanned(entries.drop_last());
    let p = storage::scanned(entries)[i];
    if i < before.len() {
        law_scan_is_faithful(entries.drop_last(), i);
        let j = choose|j: int|
            0 <= j < entries.drop_last().len() && storage::listed(
                #[trigger] entries.drop_last()[j],
            ) == Some(p) && entries.drop_last()[j].is_file && entries.drop_last()[j].file_name
                == Some(p.relfn) && entries.drop_last()[j].path == p.full_path;
        assert(entries[j] == entries.drop_last()[j]);
    } else {
        assert(storage::listed(last) == Some(p));
        assert(entries[entries.len() - 1] == last);
    }
}

/// Every file with a distribution's name is in the scan.
pub proof fn law_scan_is_complete(entries: Seq<storage::DirEntryView>, j: int)
    requires
        0 <= j < entries.len(),
        storage::listed(entries[j]) is Some,
    ensures
        storage::scanned(entries).contains(storage::listed(entries[j])->0),
    decreases entries.len(),
{
    let before = storage::scanned(entries.drop_last());
    let all = storage::scanned(entries);
    let p = storage::listed(entries[j])->0;
    if j == entries.len() - 1 {
        assert(all[all.len() - 1] == p);
    } else {
        law_scan_is_complete(entries.drop_last(), j);
        assert(entries.drop_last()[j] == entries[j]);
        let k = choose|k: int| 0 <= k < before.len() && before[k] == p;
        assert(all[k] == p);
    }
}

/// What is listed: a file with a name that begins with no dot, does not end like a sidecar's and is that
/// of a wheel or of a source archive. It is listed under its own name, at its own path, with the name
/// and the version that the file name stands for.
pub proof fn law_listed(e: storage::DirEntryView)
    ensures
        ({
            let name = e.file_name->0;
            &&& storage::listed(e) is Some <==> {
                &&& e.is_file
                &&& e.file_name is Some
                &&& !(name.len() > 0 && name[0] == '.')
                &&& !exists|stem: Seq<char>| name == #[trigger] (stem + ".metadata.json"@)
                &&& storage::guessed(name) is Some
            }
            &&& storage::listed(e) matches Some(p) ==> {
                &&& p.relfn == name
                &&& p.full_path == e.path
                &&& storage::guessed(name) == Some((p.pkgname, p.version))
                &&& p.pkgname_norm == storage::normalized(p.pkgname)
            }
        }),
{
    reveal_strlit(".");
    let name = e.file_name->0;
    let suffix = ".metadata.json"@;
    if text::finishes_with(name, suffix) {
        let stem = name.take(name.len() - suffix.len());
        assert(name =~= stem + suffix);
    }
    if exists|stem: Seq<char>| name == #[trigger] (stem + suffix) {
        let stem = choose|stem: Seq<char>| name == #[trigger] (stem + suffix);
        assert(name.skip(name.len() - suffix.len()) =~= suffix);
    }
    if name.len() > 0 {
        assert(name.take(1)[0] == name[0]);
        assert(name[0] == '.' ==> name.take(1) =~= "."@);
    }
}

/// A scan goes entry by entry: what it finds in two lists of entries, one behind the other, is what it
/// finds in the first and then what it finds in the second.
pub proof fn law_scan_of_parts(a: Seq<storage::DirEntryView>, b: Seq<storage::DirEntryView>)
    ensures
        storage::scanned(a + b) == storage::scanned(a) + storage::scanned(b),
    decreases b.len(),
{
    if b.len() == 0 {
        assert(a + b =~= a);
        assert(storage::scanned(a) + storage::scanned(b) =~= storage::scanned(a));
    } else {
        law_scan_of_parts(a, b.drop_last());
        assert((a + b).drop_last() =~= a + b.drop_last());
        assert((a + b).last() == b.last());
        assert(storage::scanned(a + b) =~= storage::scanned(a) + storage::scanned(b));
    }
}

/// One entry gives the package that it stands for, or none.
pub proof fn law_scan_of_one(e: storage::DirEntryView)
    ensures
        storage::scanned(seq![e]) == (match storage::listed(e) {
            Some(p) => seq![p],
            None => Seq::empty(),
        }),
{
    reveal_with_fuel(storage::scanned, 3);
    assert(seq![e].drop_last() =~= Seq::empty());
    assert(seq![e].last() == e);
}

/// A project's packages are found one by one: those in two lists, one behind the other, are those in
/// the first and then those in the second, and a package is found if its name has the normal form of
/// the project's.
pub proof fn law_project_packages_of_parts(
    a: Seq<storage::PkgView>,
    b: Seq<storage::PkgView>,
    p: storage::PkgView,
    project: Seq<char>,
)
    ensures
        storage::project_packages(a + b, project) == storage::project_packages(a, project)
            + storage::project_packages(b, project),
        storage::project_packages(seq![p], project) == (if p.pkgname_norm == storage::normalized(
            project,
        ) {
            seq![p]
        } else {
            Seq::empty()
        }),
{
    reveal_with_fuel(Seq::filter, 3);
    let chosen = |q: storage::PkgView| q.pkgname_norm == storage::normalized(project);
    lemma_filter_parts(a, b, chosen);
    assert(seq![p].drop_last() =~= Seq::empty());
    assert(seq![p].last() == p);
    assert(Seq::<storage::PkgView>::empty().push(p) =~= seq![p]);
}

/// Choosing goes item by item.
proof fn lemma_filter_parts(
    a: Seq<storage::PkgView>,
    b: Seq<storage::PkgView>,
    chosen: spec_fn(storage::PkgView) -> bool,
)
    ensures
        (a + b).filter(chosen) == a.filter(chosen) + b.filter(chosen),
    decreases b.len(),
{
    reveal(Seq::filter);
    if b.len() == 0 {
        assert(a + b =~= a);
        assert(a.filter(chosen) + b.filter(chosen) =~= a.filter(chosen));
    } else {
        lemma_filter_parts(a, b.drop_last(), chosen);
        assert((a + b).drop_last() =~= a + b.drop_last());
        assert((a + b).last() == b.last());
        assert((a + b).filter(chosen) =~= a.filter(chosen) + b.filter(chosen));
    }
}

/// A metadata sidecar is never taken for a package, whatever lies beside it.
pub proof fn law_sidecars_unlisted(entry: storage::DirEntryView, name: Seq<char>)
    requires
        entry.file_name == Some(storage::sidecar(name)),
    ensures
        storage::sidecar(name) == name + ".metadata.json"@,
        storage::listed(entry) is None,
{
    let s = storage::sidecar(name);
    let suffix = storage::SIDECAR_SUFFIX@;
    assert(s.skip(s.len() - suffix.len()) =~= suffix);
}

/// A project is found under every spelling of its name.
pub proof fn law_found_by_any_spelling(
    packages: Seq<storage::PkgView>,
    a: Seq<char>,
    b: Seq<char>,
)
    requires
        storage::normalized(a) == storage::normalized(b),
    ensures
        storage::project_packages(packages, a) == storage::project_packages(packages, b),
{
}

/// A package belongs to a project if and only if its name has the normal form of the project's.
pub proof fn law_project_membership(
    packages: Seq<storage::PkgView>,
    project: Seq<char>,
    p: storage::PkgView,
)
    ensures
        storage::project_packages(packages, project).contains(p) <==> packages.contains(p)
            && p.pkgname_norm == storage::normalized(project),
{
    let chosen = |q: storage::PkgView| q.pkgname_norm == storage::normalized(project);
    let found = storage::project_packages(packages, project);
    if found.contains(p) {
        let i = choose|i: int| 0 <= i < found.len() && found[i] == p;
        packages.lemma_filter_pred(chosen, i);
        packages.lemma_filter_contains_rev(chosen, p);
    }
    if packages.contains(p) && chosen(p) {
        let i = choose|i: int| 0 <= i < packages.len() && packages[i] == p;
        packages.lemma_filter_contains(chosen, i);
    }
}

/// What the index lists is determined by the packages: there is one list of the different normal forms
/// in dictionary order.
pub proof fn law_project_list_is_unique(
    packages: Seq<storage::PkgView>,
    a: Seq<Seq<char>>,
    b: Seq<Seq<char>>,
)
    requires
        order::distinct_sorted(storage::norms(packages), a),
        order::distinct_sorted(storage::norms(packages), b),
    ensures
        a == b,
{
    order::lemma_distinct_sorted_unique(storage::norms(packages), a, b);
}

/// A project that the index lists has packages under the listed name, where a package of that
/// project has an ASCII name.
pub proof fn law_listed_projects_have_packages(
    entries: Seq<storage::DirEntryView>,
    projects: Seq<Seq<char>>,
    i: int,
)
    requires
        order::distinct_sorted(storage::norms(storage::scanned(entries)), projects),
        0 <= i < storage::scanned(entries).len(),
        vstd::utf8::is_ascii_chars(storage::scanned(entries)[i].pkgname),
    ensures
        projects.contains(storage::scanned(entries)[i].pkgname_norm),
        storage::project_packages(
            storage::scanned(entries),
            storage::scanned(entries)[i].pkgname_norm,
        ).contains(storage::scanned(entries)[i]),
{
    let packages = storage::scanned(entries);
    let p = packages[i];
    law_scan_is_faithful(entries, i);
    name_laws::law_normalizing_twice(p.pkgname);
    assert(storage::norms(packages)[i] == p.pkgname_norm);
    assert(storage::norms(packages).contains(p.pkgname_norm));
    law_project_membership(packages, p.pkgname_norm, p);
}

} // verus!
