//! Laws of distribution files: which files are read, and what is read out of them.
use crate::archives;
use crate::core_metadata;
use crate::paths;
use crate::pypi_push;
use crate::pypi_push::{DistErrorView, DistFormat, DistView, KindView};
use crate::text;
use crate::text_laws;
use vstd::prelude::*;

verus! {

/// A file is read as a source archive if and only if its path is something with `.tar.gz` behind it, and
/// as a wheel if and only if it is something with `.whl` behind it.
pub proof fn law_formats(path: Seq<char>)
    ensures
        pypi_push::format_of(path) == Some(DistFormat::Sdist) <==> exists|stem: Seq<char>|
            path == #[trigger] (stem + ".tar.gz"@),
        pypi_push::format_of(path) == Some(DistFormat::Wheel) <==> exists|stem: Seq<char>|
            path == #[trigger] (stem + ".whl"@),
{
    reveal_strlit(".tar.gz");
    reveal_strlit(".whl");
    text_laws::law_parts(path, ".tar.gz"@);
    text_laws::law_parts(path, ".whl"@);
    if text::finishes_with(path, ".tar.gz"@) && text::finishes_with(path, ".whl"@) {
        assert(path.skip(path.len() - 7)[6] == path.last());
        assert(path.skip(path.len() - 4)[3] == path.last());
    }
}

/// Choosing goes item by item.
proof fn lemma_filter_push(
    parts: Seq<Seq<char>>,
    part: Seq<char>,
    chosen: spec_fn(Seq<char>) -> bool,
)
    ensures
        parts.push(part).filter(chosen) == (if chosen(part) {
            parts.filter(chosen).push(part)
        } else {
            parts.filter(chosen)
        }),
{
    reveal(Seq::filter);
    assert(parts.push(part).drop_last() =~= parts);
    assert(parts.push(part).last() == part);
}

/// The components between the slashes of a path that is put together from names.
proof fn lemma_inner_parts(names: Seq<Seq<char>>, path: Seq<char>)
    requires
        names.len() > 0,
        forall|i: int| 0 <= i < names.len() ==> !(#[trigger] names[i]).contains('/'),
        path == text::joined(names, seq!['/']),
    ensures
        text::pieces(path, '/') == names,
        paths::inner_parts(path) == names.filter(|part: Seq<char>| paths::counts(part)),
        paths::rooted(path) <==> names.len() > 1 && names[0].len() == 0,
{
    text_laws::law_pieces_of_joined(names, '/');
    text::lemma_index_of(path, '/');
    if path.len() > 0 && path[0] == '/' {
        assert(path.contains('/'));
        assert(text::index_of(path, '/') == 0);
        assert(names[0] == path.take(0));
        text::lemma_pieces_nonempty(path.skip(1), '/');
    }
    if names.len() > 1 && names[0].len() == 0 {
        assert(path.contains('/')) by {
            if !path.contains('/') {
                assert(text::pieces(path, '/') == seq![path]);
            }
        }
        assert(names[0] == path.take(text::index_of(path, '/')));
    }
}

/// Two names with a slash between them.
proof fn lemma_two(a: Seq<char>, b: Seq<char>)
    ensures
        text::joined(seq![a, b], seq!['/']) == a + seq!['/'] + b,
{
    reveal_with_fuel(text::joined, 3);
    assert(seq![a, b].drop_last() =~= seq![a]);
    assert(seq![a, b].last() == b);
}

/// What a source archive's metadata file is called, letter by letter.
proof fn lemma_pkg_info_name()
    ensures
        paths::counts("PKG-INFO"@),
        "PKG-INFO"@ != ".."@,
        !"PKG-INFO"@.contains('/'),
{
    reveal_strlit("PKG-INFO");
    reveal_strlit(".");
    reveal_strlit("..");
    assert("PKG-INFO"@.len() == 8 && "."@.len() == 1 && ".."@.len() == 2);
}

/// A file of the name `PKG-INFO` that lies directly in a directory of a source archive is the archive's
/// metadata file.
pub proof fn law_pkg_info(dir: Seq<char>)
    requires
        !dir.contains('/'),
    ensures
        pypi_push::pkg_info_path(dir + seq!['/'] + "PKG-INFO"@),
{
    let name = "PKG-INFO"@;
    let path = dir + seq!['/'] + name;
    let names = seq![dir, name];
    let chosen = |part: Seq<char>| paths::counts(part);
    lemma_pkg_info_name();
    lemma_two(dir, name);
    assert forall|i: int| 0 <= i < names.len() implies !(#[trigger] names[i]).contains('/') by {}
    lemma_inner_parts(names, path);
    reveal_strlit(".");
    let none = Seq::<Seq<char>>::empty();
    assert(names =~= none.push(dir).push(name));
    lemma_filter_push(none, dir, chosen);
    lemma_filter_push(none.push(dir), name, chosen);
    assert(none.filter(chosen) =~= none) by {
        reveal(Seq::filter);
    }
    assert(paths::inner_parts(path).last() == name);
}

/// Names that count are all kept.
proof fn lemma_filter_all(names: Seq<Seq<char>>, chosen: spec_fn(Seq<char>) -> bool)
    requires
        forall|i: int| 0 <= i < names.len() ==> chosen(#[trigger] names[i]),
    ensures
        names.filter(chosen) == names,
    decreases names.len(),
{
    reveal(Seq::filter);
    if names.len() > 0 {
        let front = names.drop_last();
        assert(chosen(names[names.len() - 1]));
        assert forall|i: int| 0 <= i < front.len() implies chosen(#[trigger] front[i]) by {
            assert(front[i] == names[i]);
        }
        lemma_filter_all(front, chosen);
        assert(front.push(names.last()) =~= names);
    } else {
        assert(names.filter(chosen) =~= names);
    }
}

/// Of the paths in a source archive that are put together from names, those that are made of two names,
/// the second of them `PKG-INFO`, are the metadata file's, and no others: neither a `PKG-INFO` in no
/// directory nor one that lies deeper.
pub proof fn law_pkg_info_paths(names: Seq<Seq<char>>)
    requires
        names.len() > 0,
        forall|i: int|
            0 <= i < names.len() ==> !(#[trigger] names[i]).contains('/') && names[i].len() > 0
                && names[i] != "."@,
    ensures
        pypi_push::pkg_info_path(text::joined(names, seq!['/'])) <==> names.len() == 2 && names[1]
            == "PKG-INFO"@,
{
    let path = text::joined(names, seq!['/']);
    let chosen = |part: Seq<char>| paths::counts(part);
    lemma_pkg_info_name();
    lemma_inner_parts(names, path);
    assert forall|i: int| 0 <= i < names.len() implies chosen(#[trigger] names[i]) by {
        assert(names[i].len() > 0);
    }
    lemma_filter_all(names, chosen);
    assert(names[0] != "."@ && names[0].len() > 0);
    assert(paths::inner_parts(path) == names);
}

/// A file name without its extension is what stands before the last dot, unless nothing does; a name
/// without a dot has no extension.
pub proof fn law_stems(front: Seq<char>, extension: Seq<char>)
    requires
        !extension.contains('.'),
    ensures
        front.len() > 0 ==> paths::stem_of(front + seq!['.'] + extension) == front,
        paths::stem_of(seq!['.'] + extension) == seq!['.'] + extension,
        paths::stem_of(extension) == extension,
{
    let name = front + seq!['.'] + extension;
    lemma_last_dot(front, extension);
    lemma_last_dot(Seq::empty(), extension);
    assert(Seq::<char>::empty() + seq!['.'] + extension =~= seq!['.'] + extension);
    lemma_no_dot(extension);
    assert(name.take(front.len() as int) =~= front);
}

/// The last dot is where it was put.
proof fn lemma_last_dot(front: Seq<char>, extension: Seq<char>)
    requires
        !extension.contains('.'),
    ensures
        paths::last_index_of(front + seq!['.'] + extension, '.') == front.len(),
    decreases extension.len(),
{
    let name = front + seq!['.'] + extension;
    if extension.len() == 0 {
        assert(name.last() == '.');
    } else {
        let shorter = extension.drop_last();
        assert(extension.contains(extension.last()));
        assert forall|i: int| 0 <= i < shorter.len() implies shorter[i] != '.' by {
            assert(extension.contains(extension[i]));
        }
        lemma_last_dot(front, shorter);
        assert(name.drop_last() =~= front + seq!['.'] + shorter);
        assert(name.last() == extension.last());
    }
}

/// A text without a dot has none.
proof fn lemma_no_dot(s: Seq<char>)
    requires
        !s.contains('.'),
    ensures
        paths::last_index_of(s, '.') == -1,
    decreases s.len(),
{
    if s.len() > 0 {
        assert(s.contains(s.last()));
        assert forall|i: int| 0 <= i < s.drop_last().len() implies s.drop_last()[i] != '.' by {
            assert(s.contains(s[i]));
        }
        lemma_no_dot(s.drop_last());
    }
}

/// A slash at the end of a path does not count, and neither does a single dot behind it; two dots are
/// no name.
pub proof fn law_file_names(path: Seq<char>)
    ensures
        paths::file_name_of(path + seq!['/']) == paths::file_name_of(path),
        paths::file_name_of(path + seq!['/', '.']) == paths::file_name_of(path),
        paths::file_name_of(path + seq!['/', '.', '.']) is None,
{
    let chosen = |part: Seq<char>| paths::counts(part);
    let parts = text::pieces(path, '/');
    let none = Seq::<char>::empty();
    reveal_strlit(".");
    reveal_strlit("..");
    text_laws::lemma_pieces_back(path, '/', none);
    text_laws::lemma_pieces_back(path, '/', seq!['.']);
    text_laws::lemma_pieces_back(path, '/', seq!['.', '.']);
    assert(path.push('/') + none =~= path + seq!['/']);
    assert(path.push('/') + seq!['.'] =~= path + seq!['/', '.']);
    assert(path.push('/') + seq!['.', '.'] =~= path + seq!['/', '.', '.']);
    assert(seq!['.'] =~= "."@);
    assert(seq!['.', '.'] =~= ".."@);
    lemma_filter_push(parts, none, chosen);
    lemma_filter_push(parts, seq!['.'], chosen);
    lemma_filter_push(parts, seq!['.', '.'], chosen);
}

/// The Python tag of a wheel is the third part of its file name from the end, where it has at least
/// five parts between its dashes; a file name with fewer is refused.
pub proof fn law_python_tag(dir: Seq<char>, parts: Seq<Seq<char>>)
    requires
        parts.len() > 0,
        forall|i: int| 0 <= i < parts.len() ==> !(#[trigger] parts[i]).contains('-'),
        text::joined(parts, seq!['-']).len() > 0,
        !text::joined(parts, seq!['-']).contains('/'),
    ensures
        ({
            let stem = text::joined(parts, seq!['-']);
            pypi_push::python_tag(paths::path_in(dir, stem + ".whl"@)) == (if parts.len() >= 5 {
                Ok::<Seq<char>, DistErrorView>(parts[parts.len() - 3])
            } else {
                Err::<Seq<char>, DistErrorView>(DistErrorView::WheelName(stem))
            })
        }),
{
    reveal_strlit(".whl");
    reveal_strlit(".");
    reveal_strlit("..");
    let stem = text::joined(parts, seq!['-']);
    let name = stem + ".whl"@;
    assert(!name.contains('/')) by {
        if name.contains('/') {
            let i = choose|i: int| 0 <= i < name.len() && name[i] == '/';
            if i < stem.len() {
                assert(stem[i] == '/');
            } else {
                assert(".whl"@[i - stem.len()] == '/');
            }
        }
    }
    assert("."@.len() == 1 && ".."@.len() == 2);
    paths::law_name_in_directory(dir, name);
    let extension = seq!['w', 'h', 'l'];
    assert(".whl"@ =~= seq!['.'] + extension);
    assert(name =~= stem + seq!['.'] + extension);
    law_stems(stem, extension);
    text_laws::law_pieces_of_joined(parts, '-');
}

/// The message of the error for which nothing can be read out of a member: the member itself is broken,
/// or its text is.
pub open spec fn broken(member: archives::Member) -> Option<Seq<char>> {
    match member {
        Err(e) => Some(e),
        Ok((path, Err(e))) => Some(e),
        Ok((path, Ok(t))) => None,
    }
}

/// Where nothing among the members is a metadata file, none is found, and a broken one that comes first
/// is the outcome.
proof fn lemma_pkg_info_absent(members: Seq<archives::Member>, k: int)
    requires
        0 <= k <= members.len(),
        forall|j: int|
            0 <= j < k ==> (#[trigger] members[j] is Ok && !pypi_push::pkg_info_path(
                members[j]->Ok_0.0,
            )),
        k < members.len() ==> broken(members[k]) is Some && (members[k] is Ok
            ==> pypi_push::pkg_info_path(members[k]->Ok_0.0)),
    ensures
        k == members.len() ==> pypi_push::pkg_info(members) == Ok::<
            Option<Seq<char>>,
            Seq<char>,
        >(None),
        k < members.len() ==> pypi_push::pkg_info(members) == Err::<Option<Seq<char>>, Seq<char>>(
            broken(members[k])->0,
        ),
    decreases k,
{
    if k > 0 {
        let rest = members.drop_first();
        assert(members[0] is Ok);
        assert forall|j: int| 0 <= j < k - 1 implies #[trigger] rest[j] is Ok
            && !pypi_push::pkg_info_path(rest[j]->Ok_0.0) by {
            assert(rest[j] == members[j + 1]);
        }
        if k < members.len() {
            assert(rest[k - 1] == members[k]);
        }
        lemma_pkg_info_absent(rest, k - 1);
    }
}

/// Where nothing among the members of a wheel is a metadata file, none is found, and a broken one that
/// comes first is the outcome.
proof fn lemma_wheel_metadata_absent(members: Seq<archives::Member>, k: int)
    requires
        0 <= k <= members.len(),
        forall|j: int|
            0 <= j < k ==> (#[trigger] members[j] is Ok && !text::finishes_with(
                members[j]->Ok_0.0,
                ".dist-info/METADATA"@,
            )),
        k < members.len() ==> broken(members[k]) is Some && (members[k] is Ok
            ==> text::finishes_with(members[k]->Ok_0.0, ".dist-info/METADATA"@)),
    ensures
        k == members.len() ==> pypi_push::wheel_metadata(members) == Ok::<
            Option<Seq<char>>,
            Seq<char>,
        >(None),
        k < members.len() ==> pypi_push::wheel_metadata(members) == Err::<
            Option<Seq<char>>,
            Seq<char>,
        >(broken(members[k])->0),
    decreases k,
{
    if k > 0 {
        let rest = members.drop_first();
        assert(members[0] is Ok);
        assert forall|j: int| 0 <= j < k - 1 implies #[trigger] rest[j] is Ok
            && !text::finishes_with(rest[j]->Ok_0.0, ".dist-info/METADATA"@) by {
            assert(rest[j] == members[j + 1]);
        }
        if k < members.len() {
            assert(rest[k - 1] == members[k]);
        }
        lemma_wheel_metadata_absent(rest, k - 1);
    }
}

/// A source archive reads back: a file whose path ends with `.tar.gz`, and whose first metadata file
/// holds a text, is a distribution with the fields of that text.
pub proof fn law_source_archives_read(
    stem: Seq<char>,
    bytes: Seq<u8>,
    members: Seq<archives::Member>,
    k: int,
    dir: Seq<char>,
    raw: Seq<char>,
)
    requires
        archives::tar_listing(bytes) == archives::listed(members),
        0 <= k < members.len(),
        forall|j: int|
            0 <= j < k ==> (#[trigger] members[j] is Ok && !pypi_push::pkg_info_path(
                members[j]->Ok_0.0,
            )),
        !dir.contains('/'),
        members[k] == archives::member_at(
            (dir + seq!['/'] + "PKG-INFO"@, archives::text_read(raw)),
        ),
    ensures
        pypi_push::dist_outcome(stem + ".tar.gz"@, Ok(bytes)) == Ok::<DistView, DistErrorView>(
            DistView {
                path: stem + ".tar.gz"@,
                bytes,
                kind: KindView::Sdist,
                metadata: core_metadata::core_metadata(raw),
            },
        ),
{
    law_formats(stem + ".tar.gz"@);
    law_pkg_info(dir);
    pypi_push::law_first_pkg_info_counts(members, k);
}

/// A source archive without a metadata file is refused, and so is one with a broken member before the
/// metadata file, or whose metadata file is broken.
pub proof fn law_source_archives_refused(
    stem: Seq<char>,
    bytes: Seq<u8>,
    members: Seq<archives::Member>,
    k: int,
)
    requires
        archives::tar_listing(bytes) == archives::listed(members),
        0 <= k <= members.len(),
        forall|j: int|
            0 <= j < k ==> (#[trigger] members[j] is Ok && !pypi_push::pkg_info_path(
                members[j]->Ok_0.0,
            )),
        k < members.len() ==> broken(members[k]) is Some && (members[k] is Ok
            ==> pypi_push::pkg_info_path(members[k]->Ok_0.0)),
    ensures
        pypi_push::dist_outcome(stem + ".tar.gz"@, Ok(bytes)) == Err::<DistView, DistErrorView>(
            if k < members.len() {
                DistErrorView::Archive(broken(members[k])->0)
            } else {
                DistErrorView::NoPkgInfo
            },
        ),
{
    law_formats(stem + ".tar.gz"@);
    lemma_pkg_info_absent(members, k);
}

/// A wheel without a metadata file is refused, and so is one with a broken member before the metadata
/// file, or whose metadata file is broken.
pub proof fn law_wheels_refused(
    stem: Seq<char>,
    bytes: Seq<u8>,
    members: Seq<archives::Member>,
    k: int,
)
    requires
        archives::zip_listing(bytes) == archives::listed(members),
        0 <= k <= members.len(),
        forall|j: int|
            0 <= j < k ==> (#[trigger] members[j] is Ok && !text::finishes_with(
                members[j]->Ok_0.0,
                ".dist-info/METADATA"@,
            )),
        k < members.len() ==> broken(members[k]) is Some && (members[k] is Ok
            ==> text::finishes_with(members[k]->Ok_0.0, ".dist-info/METADATA"@)),
    ensures
        pypi_push::dist_outcome(stem + ".whl"@, Ok(bytes)) == Err::<DistView, DistErrorView>(
            if k < members.len() {
                DistErrorView::Archive(broken(members[k])->0)
            } else {
                DistErrorView::NoMetadata
            },
        ),
{
    law_formats(stem + ".whl"@);
    lemma_wheel_metadata_absent(members, k);
}

/// A file that is no archive of the kind that its name says is refused.
pub proof fn law_broken_archives_refused(stem: Seq<char>, bytes: Seq<u8>, message: Seq<char>)
    ensures
        archives::tar_listing(bytes) == archives::unlisted(message) ==> pypi_push::dist_outcome(
            stem + ".tar.gz"@,
            Ok(bytes),
        ) == Err::<DistView, DistErrorView>(DistErrorView::Archive(message)),
        archives::zip_listing(bytes) == archives::unlisted(message) ==> pypi_push::dist_outcome(
            stem + ".whl"@,
            Ok(bytes),
        ) == Err::<DistView, DistErrorView>(DistErrorView::Archive(message)),
{
    law_formats(stem + ".tar.gz"@);
    law_formats(stem + ".whl"@);
}

/// A wheel reads back: a file whose name is made of parts as the wheel format has them, and whose first
/// metadata file holds a text, is a distribution with the fields of that text and the Python tag of the
/// file name.
pub proof fn law_wheels_read(
    dir: Seq<char>,
    parts: Seq<Seq<char>>,
    bytes: Seq<u8>,
    members: Seq<archives::Member>,
    k: int,
    front: Seq<char>,
    raw: Seq<char>,
)
    requires
        parts.len() >= 5,
        forall|i: int| 0 <= i < parts.len() ==> !(#[trigger] parts[i]).contains('-'),
        !text::joined(parts, seq!['-']).contains('/'),
        archives::zip_listing(bytes) == archives::listed(members),
        0 <= k < members.len(),
        forall|j: int|
            0 <= j < k ==> (#[trigger] members[j] is Ok && !text::finishes_with(
                members[j]->Ok_0.0,
                ".dist-info/METADATA"@,
            )),
        members[k] == archives::member_at(
            (front + ".dist-info/METADATA"@, archives::text_read(raw)),
        ),
    ensures
        ({
            let path = paths::path_in(dir, text::joined(parts, seq!['-']) + ".whl"@);
            pypi_push::dist_outcome(path, Ok(bytes)) == Ok::<DistView, DistErrorView>(
                DistView {
                    path,
                    bytes,
                    kind: KindView::Wheel { python_tag: parts[parts.len() - 3] },
                    metadata: core_metadata::core_metadata(raw),
                },
            )
        }),
{
    let stem = text::joined(parts, seq!['-']);
    let path = paths::path_in(dir, stem + ".whl"@);
    assert(stem.len() > 0);
    law_python_tag(dir, parts);
    lemma_wheel_path(dir, stem);
    text_laws::law_parts(front + ".dist-info/METADATA"@, ".dist-info/METADATA"@);
    pypi_push::law_first_wheel_metadata_counts(members, k);
}

/// A wheel with a metadata file is refused where its file name has fewer parts than the wheel format
/// asks for.
pub proof fn law_wheels_without_tag_refused(
    dir: Seq<char>,
    parts: Seq<Seq<char>>,
    bytes: Seq<u8>,
    members: Seq<archives::Member>,
    k: int,
    front: Seq<char>,
    raw: Seq<char>,
)
    requires
        0 < parts.len() < 5,
        forall|i: int| 0 <= i < parts.len() ==> !(#[trigger] parts[i]).contains('-'),
        text::joined(parts, seq!['-']).len() > 0,
        !text::joined(parts, seq!['-']).contains('/'),
        archives::zip_listing(bytes) == archives::listed(members),
        0 <= k < members.len(),
        forall|j: int|
            0 <= j < k ==> (#[trigger] members[j] is Ok && !text::finishes_with(
                members[j]->Ok_0.0,
                ".dist-info/METADATA"@,
            )),
        members[k] == archives::member_at(
            (front + ".dist-info/METADATA"@, archives::text_read(raw)),
        ),
    ensures
        ({
            let stem = text::joined(parts, seq!['-']);
            pypi_push::dist_outcome(paths::path_in(dir, stem + ".whl"@), Ok(bytes)) == Err::<
                DistView,
                DistErrorView,
            >(DistErrorView::WheelName(stem))
        }),
{
    law_python_tag(dir, parts);
    lemma_wheel_path(dir, text::joined(parts, seq!['-']));
    text_laws::law_parts(front + ".dist-info/METADATA"@, ".dist-info/METADATA"@);
    pypi_push::law_first_wheel_metadata_counts(members, k);
}

/// A path with a wheel's file name behind it is a wheel's.
proof fn lemma_wheel_path(dir: Seq<char>, stem: Seq<char>)
    ensures
        pypi_push::format_of(paths::path_in(dir, stem + ".whl"@)) == Some(DistFormat::Wheel),
{
    let name = stem + ".whl"@;
    let path = paths::path_in(dir, name);
    let front = if dir.len() == 0 || dir.last() == '/' {
        dir + stem
    } else {
        dir + "/"@ + stem
    };
    assert(path =~= front + ".whl"@);
    law_formats(path);
}

/// A file that is neither a source archive's nor a wheel's by its name is refused before it is read, and
/// one that cannot be read is refused for that.
pub proof fn law_files_refused(
    path: Seq<char>,
    contents: Result<Seq<u8>, Seq<char>>,
    message: Seq<char>,
)
    ensures
        !(exists|stem: Seq<char>| path == #[trigger] (stem + ".tar.gz"@)) && !(exists|
            stem: Seq<char>,
        |
            path == #[trigger] (stem + ".whl"@)) ==> pypi_push::dist_outcome(path, contents)
            == Err::<DistView, DistErrorView>(DistErrorView::Unsupported(path)),
        (exists|stem: Seq<char>| path == #[trigger] (stem + ".tar.gz"@)) || (exists|
            stem: Seq<char>,
        |
            path == #[trigger] (stem + ".whl"@)) ==> pypi_push::dist_outcome(path, Err(message))
            == Err::<DistView, DistErrorView>(DistErrorView::Read(message)),
{
    law_formats(path);
}

} // verus!
