//! Laws of the upload form as a whole: what it says under each name, and in which order.
use crate::digests;
use crate::paths;
use crate::pypi_push::{DistView, KindView};
use crate::text;
use crate::text_laws;
use crate::warehouse;
use crate::warehouse::{Field, FormError};
use crate::warehouse_laws;
use vstd::prelude::*;

verus! {

/// The value of a single-valued field of the metadata, where there is one.
pub open spec fn held(single: Map<Seq<char>, Seq<char>>, key: Seq<char>) -> Seq<Seq<char>> {
    if single.contains_key(key) {
        seq![single[key]]
    } else {
        Seq::empty()
    }
}

/// The values of a multi-valued field of the metadata.
pub open spec fn all_held(multi: Map<Seq<char>, Seq<Seq<char>>>, key: Seq<char>) -> Seq<Seq<char>> {
    if multi.contains_key(key) {
        multi[key]
    } else {
        Seq::empty()
    }
}

/// What an upload says under a name that every upload has.
pub open spec fn leading_values(dist: DistView, name: Seq<char>) -> Seq<Seq<char>> {
    if name == ":action"@ {
        seq!["file_upload"@]
    } else if name == "protocol_version"@ {
        seq!["1"@]
    } else if name == "metadata_version"@ {
        seq![if dist.metadata.single.contains_key("Metadata-Version"@) {
            dist.metadata.single["Metadata-Version"@]
        } else {
            "2.1"@
        }]
    } else if name == "name"@ {
        seq![dist.metadata.single["Name"@]]
    } else if name == "version"@ {
        seq![dist.metadata.single["Version"@]]
    } else if name == "filetype"@ {
        seq![if dist.kind is Sdist {
            "sdist"@
        } else {
            "bdist_wheel"@
        }]
    } else if name == "pyversion"@ {
        seq![match dist.kind {
            KindView::Sdist => "source"@,
            KindView::Wheel { python_tag } => python_tag,
        }]
    } else if name == "md5_digest"@ {
        seq![digests::hex_text(digests::md5_sum(dist.bytes))]
    } else if name == "sha256_digest"@ {
        seq![digests::hex_text(digests::sha256_sum(dist.bytes))]
    } else {
        Seq::empty()
    }
}

/// What an upload says under the name of a piece of single-valued metadata.
pub open spec fn single_values(single: Map<Seq<char>, Seq<char>>, name: Seq<char>) -> Seq<Seq<char>> {
    if name == "summary"@ {
        held(single, "Summary"@)
    } else if name == "home_page"@ {
        held(single, "Home-page"@)
    } else if name == "author"@ {
        held(single, "Author"@)
    } else if name == "author_email"@ {
        held(single, "Author-email"@)
    } else if name == "maintainer"@ {
        held(single, "Maintainer"@)
    } else if name == "maintainer_email"@ {
        held(single, "Maintainer-email"@)
    } else if name == "license"@ {
        held(single, "License"@)
    } else if name == "description_content_type"@ {
        held(single, "Description-Content-Type"@)
    } else if name == "requires_python"@ {
        held(single, "Requires-Python"@)
    } else if name == "keywords"@ {
        held(single, "Keywords"@)
    } else {
        Seq::empty()
    }
}

/// What an upload says under the name of a piece of multi-valued metadata.
pub open spec fn multi_values(
    multi: Map<Seq<char>, Seq<Seq<char>>>,
    name: Seq<char>,
) -> Seq<Seq<char>> {
    if name == "classifiers"@ {
        all_held(multi, "Classifier"@)
    } else if name == "requires_dist"@ {
        all_held(multi, "Requires-Dist"@)
    } else if name == "project_urls"@ {
        all_held(multi, "Project-URL"@)
    } else if name == "provides_dist"@ {
        all_held(multi, "Provides-Dist"@)
    } else if name == "obsoletes_dist"@ {
        all_held(multi, "Obsoletes-Dist"@)
    } else if name == "platform"@ {
        all_held(multi, "Platform"@)
    } else if name == "supported_platform"@ {
        all_held(multi, "Supported-Platform"@)
    } else if name == "dynamic"@ {
        all_held(multi, "Dynamic"@)
    } else {
        Seq::empty()
    }
}

/// The place of a field's name in the order in which an upload has them.
pub open spec fn rank(name: Seq<char>) -> int {
    if name == ":action"@ {
        1
    } else if name == "protocol_version"@ {
        2
    } else if name == "metadata_version"@ {
        3
    } else if name == "name"@ {
        4
    } else if name == "version"@ {
        5
    } else if name == "filetype"@ {
        6
    } else if name == "pyversion"@ {
        7
    } else if name == "md5_digest"@ {
        8
    } else if name == "sha256_digest"@ {
        9
    } else if name == "summary"@ {
        10
    } else if name == "home_page"@ {
        11
    } else if name == "author"@ {
        12
    } else if name == "author_email"@ {
        13
    } else if name == "maintainer"@ {
        14
    } else if name == "maintainer_email"@ {
        15
    } else if name == "license"@ {
        16
    } else if name == "description_content_type"@ {
        17
    } else if name == "requires_python"@ {
        18
    } else if name == "keywords"@ {
        19
    } else if name == "description"@ {
        20
    } else if name == "classifiers"@ {
        21
    } else if name == "requires_dist"@ {
        22
    } else if name == "project_urls"@ {
        23
    } else if name == "provides_dist"@ {
        24
    } else if name == "obsoletes_dist"@ {
        25
    } else if name == "platform"@ {
        26
    } else if name == "supported_platform"@ {
        27
    } else if name == "dynamic"@ {
        28
    } else {
        0
    }
}

/// What tells a form field's name from the others: its length and its first two letters.
spec fn mark(name: Seq<char>) -> (nat, char, char) {
    (name.len(), name[0], name[1])
}

/// The names that every upload has can be told apart.
proof fn lemma_leading_marks()
    ensures
        mark(":action"@) == (7nat, ':', 'a'),
        mark("protocol_version"@) == (16nat, 'p', 'r'),
        mark("metadata_version"@) == (16nat, 'm', 'e'),
        mark("name"@) == (4nat, 'n', 'a'),
        mark("version"@) == (7nat, 'v', 'e'),
        mark("filetype"@) == (8nat, 'f', 'i'),
        mark("pyversion"@) == (9nat, 'p', 'y'),
        mark("md5_digest"@) == (10nat, 'm', 'd'),
        mark("sha256_digest"@) == (13nat, 's', 'h'),
{
    reveal_strlit(":action");
    reveal_strlit("protocol_version");
    reveal_strlit("metadata_version");
    reveal_strlit("name");
    reveal_strlit("version");
    reveal_strlit("filetype");
    reveal_strlit("pyversion");
    reveal_strlit("md5_digest");
    reveal_strlit("sha256_digest");
}

/// The names for single-valued metadata can be told apart.
proof fn lemma_single_marks()
    ensures
        mark("summary"@) == (7nat, 's', 'u'),
        mark("home_page"@) == (9nat, 'h', 'o'),
        mark("author"@) == (6nat, 'a', 'u'),
        mark("author_email"@) == (12nat, 'a', 'u'),
        mark("maintainer"@) == (10nat, 'm', 'a'),
        mark("maintainer_email"@) == (16nat, 'm', 'a'),
        mark("license"@) == (7nat, 'l', 'i'),
        mark("description_content_type"@) == (24nat, 'd', 'e'),
        mark("requires_python"@) == (15nat, 'r', 'e'),
        mark("keywords"@) == (8nat, 'k', 'e'),
        mark("description"@) == (11nat, 'd', 'e'),
{
    reveal_strlit("summary");
    reveal_strlit("home_page");
    reveal_strlit("author");
    reveal_strlit("author_email");
    reveal_strlit("maintainer");
    reveal_strlit("maintainer_email");
    reveal_strlit("license");
    reveal_strlit("description_content_type");
    reveal_strlit("requires_python");
    reveal_strlit("keywords");
    reveal_strlit("description");
}

/// The names for multi-valued metadata can be told apart.
proof fn lemma_multi_marks()
    ensures
        mark("classifiers"@) == (11nat, 'c', 'l'),
        mark("requires_dist"@) == (13nat, 'r', 'e'),
        mark("project_urls"@) == (12nat, 'p', 'r'),
        mark("provides_dist"@) == (13nat, 'p', 'r'),
        mark("obsoletes_dist"@) == (14nat, 'o', 'b'),
        mark("platform"@) == (8nat, 'p', 'l'),
        mark("supported_platform"@) == (18nat, 's', 'u'),
        mark("dynamic"@) == (7nat, 'd', 'y'),
{
    reveal_strlit("classifiers");
    reveal_strlit("requires_dist");
    reveal_strlit("project_urls");
    reveal_strlit("provides_dist");
    reveal_strlit("obsoletes_dist");
    reveal_strlit("platform");
    reveal_strlit("supported_platform");
    reveal_strlit("dynamic");
}

/// Every name has its own place.
proof fn lemma_ranks()
    ensures
        rank(":action"@) == 1,
        rank("protocol_version"@) == 2,
        rank("metadata_version"@) == 3,
        rank("name"@) == 4,
        rank("version"@) == 5,
        rank("filetype"@) == 6,
        rank("pyversion"@) == 7,
        rank("md5_digest"@) == 8,
        rank("sha256_digest"@) == 9,
        rank("summary"@) == 10,
        rank("home_page"@) == 11,
        rank("author"@) == 12,
        rank("author_email"@) == 13,
        rank("maintainer"@) == 14,
        rank("maintainer_email"@) == 15,
        rank("license"@) == 16,
        rank("description_content_type"@) == 17,
        rank("requires_python"@) == 18,
        rank("keywords"@) == 19,
        rank("description"@) == 20,
        rank("classifiers"@) == 21,
        rank("requires_dist"@) == 22,
        rank("project_urls"@) == 23,
        rank("provides_dist"@) == 24,
        rank("obsoletes_dist"@) == 25,
        rank("platform"@) == 26,
        rank("supported_platform"@) == 27,
        rank("dynamic"@) == 28,
{
    lemma_leading_marks();
    lemma_single_marks();
    lemma_multi_marks();
}

/// Whether the fields are in the order of their names' places, none behind the given one.
#[verifier::opaque]
spec fn ranked(fields: Seq<Field>, top: int) -> bool {
    &&& forall|i: int, j: int|
        0 <= i <= j < fields.len() ==> rank((#[trigger] fields[i]).0) <= rank(
            (#[trigger] fields[j]).0,
        )
    &&& forall|i: int| 0 <= i < fields.len() ==> rank((#[trigger] fields[i]).0) <= top
}

/// What fields under one name put behind others change.
proof fn lemma_extend(
    fields: Seq<Field>,
    more: Seq<Field>,
    name: Seq<char>,
    field: Seq<char>,
    values: Seq<Seq<char>>,
    top: int,
)
    requires
        ranked(fields, top),
        top < rank(field),
        more.len() == values.len(),
        forall|i: int| 0 <= i < more.len() ==> #[trigger] more[i] == (field, values[i]),
        field == name ==> warehouse_laws::field_values(fields, name).len() == 0,
    ensures
        ranked(fields + more, rank(field)),
        warehouse_laws::field_values(fields + more, name) == (if field == name {
            values
        } else {
            warehouse_laws::field_values(fields, name)
        }),
{
    reveal(ranked);
    let all = fields + more;
    assert(more =~= warehouse::repeated_field(field, values));
    warehouse_laws::lemma_field_values_append(fields, more, name);
    warehouse_laws::lemma_field_values_repeated(field, values, name);
    let before = warehouse_laws::field_values(fields, name);
    assert(before + Seq::<Seq<char>>::empty() =~= before);
    if field == name {
        assert(before + values =~= values);
    }
    assert forall|i: int| 0 <= i < all.len() implies rank((#[trigger] all[i]).0) <= rank(field)
        && (i < fields.len() ==> all[i] == fields[i]) && (i >= fields.len() ==> all[i].0
        == field) by {
        if i >= fields.len() {
            assert(all[i] == more[i - fields.len()]);
        }
    }
    assert forall|i: int, j: int| 0 <= i <= j < all.len() implies rank((#[trigger] all[i]).0)
        <= rank((#[trigger] all[j]).0) by {}
}

/// What the fields for a piece of multi-valued metadata put behind others change.
proof fn lemma_extend_multi(
    fields: Seq<Field>,
    multi: Map<Seq<char>, Seq<Seq<char>>>,
    name: Seq<char>,
    field: Seq<char>,
    key: Seq<char>,
    top: int,
)
    requires
        ranked(fields, top),
        top < rank(field),
        field == name ==> warehouse_laws::field_values(fields, name).len() == 0,
    ensures
        ranked(fields + warehouse::multi_field(field, multi, key), rank(field)),
        warehouse_laws::field_values(fields + warehouse::multi_field(field, multi, key), name) == (
        if field == name {
            all_held(multi, key)
        } else {
            warehouse_laws::field_values(fields, name)
        }),
{
    let more = warehouse::multi_field(field, multi, key);
    lemma_extend(fields, more, name, field, all_held(multi, key), top);
}

/// What the field for a piece of single-valued metadata put behind others changes.
proof fn lemma_extend_single(
    fields: Seq<Field>,
    single: Map<Seq<char>, Seq<char>>,
    name: Seq<char>,
    field: Seq<char>,
    key: Seq<char>,
    top: int,
)
    requires
        ranked(fields, top),
        top < rank(field),
        field == name ==> warehouse_laws::field_values(fields, name).len() == 0,
    ensures
        ({
            let more = warehouse::optional_field(field, warehouse::single_value(single, key));
            &&& ranked(fields + more, rank(field))
            &&& warehouse_laws::field_values(fields + more, name) == (if field == name {
                held(single, key)
            } else {
                warehouse_laws::field_values(fields, name)
            })
        }),
{
    let more = warehouse::optional_field(field, warehouse::single_value(single, key));
    lemma_extend(fields, more, name, field, held(single, key), top);
}

/// What the field for the description put behind others changes.
proof fn lemma_extend_description(
    fields: Seq<Field>,
    description: Option<Seq<char>>,
    name: Seq<char>,
    top: int,
)
    requires
        ranked(fields, top),
        top < rank("description"@),
        name == "description"@ ==> warehouse_laws::field_values(fields, name).len() == 0,
    ensures
        ({
            let more = warehouse::optional_field("description"@, description);
            &&& ranked(fields + more, rank("description"@))
            &&& warehouse_laws::field_values(fields + more, name) == (if name == "description"@ {
                match description {
                    Some(d) => seq![d],
                    None => Seq::empty(),
                }
            } else {
                warehouse_laws::field_values(fields, name)
            })
        }),
{
    let more = warehouse::optional_field("description"@, description);
    let d = match description {
        Some(d) => seq![d],
        None => Seq::empty(),
    };
    lemma_extend(fields, more, name, "description"@, d, top);
}

/// What the fields that every upload has say under a name.
proof fn lemma_leading(dist: DistView, name: Seq<char>)
    ensures
        ranked(warehouse::leading_fields(dist), 9),
        warehouse_laws::field_values(warehouse::leading_fields(dist), name) == leading_values(
            dist,
            name,
        ),
{
    lemma_leading_marks();
    lemma_ranks();
    reveal(ranked);
    let f0 = Seq::<Field>::empty();
    let all = warehouse::leading_fields(dist);
    let v1 = leading_values(dist, ":action"@);
    let f1 = f0.push((":action"@, v1[0]));
    assert(v1.len() == 1);
    assert(f1 =~= f0 + seq![(":action"@, v1[0])]);
    lemma_extend(f0, seq![(":action"@, v1[0])], name, ":action"@, v1, 0);
    let v2 = leading_values(dist, "protocol_version"@);
    let f2 = f1.push(("protocol_version"@, v2[0]));
    assert(v2.len() == 1);
    assert(f2 =~= f1 + seq![("protocol_version"@, v2[0])]);
    lemma_extend(f1, seq![("protocol_version"@, v2[0])], name, "protocol_version"@, v2, 1);
    let v3 = leading_values(dist, "metadata_version"@);
    let f3 = f2.push(("metadata_version"@, v3[0]));
    assert(v3.len() == 1);
    assert(f3 =~= f2 + seq![("metadata_version"@, v3[0])]);
    lemma_extend(f2, seq![("metadata_version"@, v3[0])], name, "metadata_version"@, v3, 2);
    let v4 = leading_values(dist, "name"@);
    let f4 = f3.push(("name"@, v4[0]));
    assert(v4.len() == 1);
    assert(f4 =~= f3 + seq![("name"@, v4[0])]);
    lemma_extend(f3, seq![("name"@, v4[0])], name, "name"@, v4, 3);
    let v5 = leading_values(dist, "version"@);
    let f5 = f4.push(("version"@, v5[0]));
    assert(v5.len() == 1);
    assert(f5 =~= f4 + seq![("version"@, v5[0])]);
    lemma_extend(f4, seq![("version"@, v5[0])], name, "version"@, v5, 4);
    let v6 = leading_values(dist, "filetype"@);
    let f6 = f5.push(("filetype"@, v6[0]));
    assert(v6.len() == 1);
    assert(f6 =~= f5 + seq![("filetype"@, v6[0])]);
    lemma_extend(f5, seq![("filetype"@, v6[0])], name, "filetype"@, v6, 5);
    let v7 = leading_values(dist, "pyversion"@);
    let f7 = f6.push(("pyversion"@, v7[0]));
    assert(v7.len() == 1);
    assert(f7 =~= f6 + seq![("pyversion"@, v7[0])]);
    lemma_extend(f6, seq![("pyversion"@, v7[0])], name, "pyversion"@, v7, 6);
    let v8 = leading_values(dist, "md5_digest"@);
    let f8 = f7.push(("md5_digest"@, v8[0]));
    assert(v8.len() == 1);
    assert(f8 =~= f7 + seq![("md5_digest"@, v8[0])]);
    lemma_extend(f7, seq![("md5_digest"@, v8[0])], name, "md5_digest"@, v8, 7);
    let v9 = leading_values(dist, "sha256_digest"@);
    let f9 = f8.push(("sha256_digest"@, v9[0]));
    assert(v9.len() == 1);
    assert(f9 =~= f8 + seq![("sha256_digest"@, v9[0])]);
    lemma_extend(f8, seq![("sha256_digest"@, v9[0])], name, "sha256_digest"@, v9, 8);
    assert(all =~= f9);
}

/// What the fields for the single-valued metadata say under a name, put behind others.
proof fn lemma_singles(
    fields: Seq<Field>,
    single: Map<Seq<char>, Seq<char>>,
    name: Seq<char>,
)
    requires
        ranked(fields, 9),
        9 < rank(name) <= 19 ==> warehouse_laws::field_values(fields, name).len() == 0,
    ensures
        ({
            let all = fields + warehouse::single_fields(single);
            &&& ranked(all, 19)
            &&& warehouse_laws::field_values(all, name) == (if 9 < rank(name) <= 19 {
                single_values(single, name)
            } else {
                warehouse_laws::field_values(fields, name)
            })
        }),
{
    lemma_single_marks();
    lemma_ranks();
    let g0 = warehouse::optional_field(
        "summary"@,
        warehouse::single_value(single, "Summary"@),
    );
    let g1 = warehouse::optional_field(
        "home_page"@,
        warehouse::single_value(single, "Home-page"@),
    );
    let g2 = warehouse::optional_field(
        "author"@,
        warehouse::single_value(single, "Author"@),
    );
    let g3 = warehouse::optional_field(
        "author_email"@,
        warehouse::single_value(single, "Author-email"@),
    );
    let g4 = warehouse::optional_field(
        "maintainer"@,
        warehouse::single_value(single, "Maintainer"@),
    );
    let g5 = warehouse::optional_field(
        "maintainer_email"@,
        warehouse::single_value(single, "Maintainer-email"@),
    );
    let g6 = warehouse::optional_field(
        "license"@,
        warehouse::single_value(single, "License"@),
    );
    let g7 = warehouse::optional_field(
        "description_content_type"@,
        warehouse::single_value(single, "Description-Content-Type"@),
    );
    let g8 = warehouse::optional_field(
        "requires_python"@,
        warehouse::single_value(single, "Requires-Python"@),
    );
    let g9 = warehouse::optional_field(
        "keywords"@,
        warehouse::single_value(single, "Keywords"@),
    );
    let h0 = fields;
    let h1 = h0 + g0;
    lemma_extend_single(h0, single, name, "summary"@, "Summary"@, 9);
    let h2 = h1 + g1;
    lemma_extend_single(h1, single, name, "home_page"@, "Home-page"@, 10);
    let h3 = h2 + g2;
    lemma_extend_single(h2, single, name, "author"@, "Author"@, 11);
    let h4 = h3 + g3;
    lemma_extend_single(h3, single, name, "author_email"@, "Author-email"@, 12);
    let h5 = h4 + g4;
    lemma_extend_single(h4, single, name, "maintainer"@, "Maintainer"@, 13);
    let h6 = h5 + g5;
    lemma_extend_single(h5, single, name, "maintainer_email"@, "Maintainer-email"@, 14);
    let h7 = h6 + g6;
    lemma_extend_single(h6, single, name, "license"@, "License"@, 15);
    let h8 = h7 + g7;
    lemma_extend_single(h7, single, name, "description_content_type"@, "Description-Content-Type"@, 16);
    let h9 = h8 + g8;
    lemma_extend_single(h8, single, name, "requires_python"@, "Requires-Python"@, 17);
    let h10 = h9 + g9;
    lemma_extend_single(h9, single, name, "keywords"@, "Keywords"@, 18);
    lemma_append(fields, g0, g1);
    lemma_append(fields, g0 + g1, g2);
    lemma_append(fields, g0 + g1 + g2, g3);
    lemma_append(fields, g0 + g1 + g2 + g3, g4);
    lemma_append(fields, g0 + g1 + g2 + g3 + g4, g5);
    lemma_append(fields, g0 + g1 + g2 + g3 + g4 + g5, g6);
    lemma_append(fields, g0 + g1 + g2 + g3 + g4 + g5 + g6, g7);
    lemma_append(fields, g0 + g1 + g2 + g3 + g4 + g5 + g6 + g7, g8);
    lemma_append(fields, g0 + g1 + g2 + g3 + g4 + g5 + g6 + g7 + g8, g9);
    assert(warehouse::single_fields(single) == g0 + g1 + g2 + g3 + g4 + g5 + g6 + g7 + g8 + g9);
}

/// What the fields for the multi-valued metadata say under a name, put behind others.
proof fn lemma_multis(
    fields: Seq<Field>,
    multi: Map<Seq<char>, Seq<Seq<char>>>,
    name: Seq<char>,
)
    requires
        ranked(fields, 20),
        rank(name) > 20 ==> warehouse_laws::field_values(fields, name).len() == 0,
    ensures
        ({
            let all = fields + warehouse::multi_fields(multi);
            &&& ranked(all, 28)
            &&& warehouse_laws::field_values(all, name) == (if rank(name) > 20 {
                multi_values(multi, name)
            } else {
                warehouse_laws::field_values(fields, name)
            })
        }),
{
    lemma_multi_marks();
    lemma_ranks();
    let g0 = warehouse::multi_field("classifiers"@, multi, "Classifier"@);
    let g1 = warehouse::multi_field("requires_dist"@, multi, "Requires-Dist"@);
    let g2 = warehouse::multi_field("project_urls"@, multi, "Project-URL"@);
    let g3 = warehouse::multi_field("provides_dist"@, multi, "Provides-Dist"@);
    let g4 = warehouse::multi_field("obsoletes_dist"@, multi, "Obsoletes-Dist"@);
    let g5 = warehouse::multi_field("platform"@, multi, "Platform"@);
    let g6 = warehouse::multi_field("supported_platform"@, multi, "Supported-Platform"@);
    let g7 = warehouse::multi_field("dynamic"@, multi, "Dynamic"@);
    let h0 = fields;
    let h1 = h0 + g0;
    lemma_extend_multi(h0, multi, name, "classifiers"@, "Classifier"@, 20);
    let h2 = h1 + g1;
    lemma_extend_multi(h1, multi, name, "requires_dist"@, "Requires-Dist"@, 21);
    let h3 = h2 + g2;
    lemma_extend_multi(h2, multi, name, "project_urls"@, "Project-URL"@, 22);
    let h4 = h3 + g3;
    lemma_extend_multi(h3, multi, name, "provides_dist"@, "Provides-Dist"@, 23);
    let h5 = h4 + g4;
    lemma_extend_multi(h4, multi, name, "obsoletes_dist"@, "Obsoletes-Dist"@, 24);
    let h6 = h5 + g5;
    lemma_extend_multi(h5, multi, name, "platform"@, "Platform"@, 25);
    let h7 = h6 + g6;
    lemma_extend_multi(h6, multi, name, "supported_platform"@, "Supported-Platform"@, 26);
    let h8 = h7 + g7;
    lemma_extend_multi(h7, multi, name, "dynamic"@, "Dynamic"@, 27);
    lemma_append(fields, g0, g1);
    lemma_append(fields, g0 + g1, g2);
    lemma_append(fields, g0 + g1 + g2, g3);
    lemma_append(fields, g0 + g1 + g2 + g3, g4);
    lemma_append(fields, g0 + g1 + g2 + g3 + g4, g5);
    lemma_append(fields, g0 + g1 + g2 + g3 + g4 + g5, g6);
    lemma_append(fields, g0 + g1 + g2 + g3 + g4 + g5 + g6, g7);
    assert(warehouse::multi_fields(multi) == g0 + g1 + g2 + g3 + g4 + g5 + g6 + g7);
}

/// Lists can be put behind one another in any grouping.
proof fn lemma_append(a: Seq<Field>, b: Seq<Field>, c: Seq<Field>)
    ensures
        (a + b) + c == a + (b + c),
{
    assert((a + b) + c =~= a + (b + c));
}

/// What an upload says under a name.
pub open spec fn values_sent(dist: DistView, name: Seq<char>) -> Seq<Seq<char>> {
    if 1 <= rank(name) <= 9 {
        leading_values(dist, name)
    } else if 10 <= rank(name) <= 19 {
        single_values(dist.metadata.single, name)
    } else if name == "description"@ {
        match dist.metadata.description {
            Some(d) => seq![d],
            None => Seq::empty(),
        }
    } else {
        multi_values(dist.metadata.multi, name)
    }
}

/// What the form of an upload says under each name, and that it says nothing under any other.
pub proof fn law_form_values(dist: DistView, name: Seq<char>)
    ensures
        warehouse_laws::field_values(warehouse::form_fields(dist), name) == values_sent(dist, name),
{
    lemma_form(dist, name);
}

/// The fields of an upload's form come in the order of their names' places.
pub proof fn law_form_order(dist: DistView, i: int, j: int)
    requires
        0 <= i <= j < warehouse::form_fields(dist).len(),
    ensures
        rank(warehouse::form_fields(dist)[i].0) <= rank(warehouse::form_fields(dist)[j].0),
{
    reveal(ranked);
    lemma_form(dist, Seq::empty());
}

/// What the form of an upload says under each name, and in which order.
proof fn lemma_form(dist: DistView, name: Seq<char>)
    ensures
        ranked(warehouse::form_fields(dist), 28),
        warehouse_laws::field_values(warehouse::form_fields(dist), name) == values_sent(dist, name),
{
    lemma_leading_marks();
    lemma_single_marks();
    lemma_multi_marks();
    lemma_ranks();
    lemma_leading(dist, name);
    let a = warehouse::leading_fields(dist);
    lemma_singles(a, dist.metadata.single, name);
    let b = a + warehouse::single_fields(dist.metadata.single);
    lemma_extend_description(b, dist.metadata.description, name, 19);
    let c = b + warehouse::optional_field("description"@, dist.metadata.description);
    lemma_multis(c, dist.metadata.multi, name);
}

/// The digests in the form of an upload are those of the whole file, one of each kind.
pub proof fn law_digests_sent(dist: DistView)
    ensures
        warehouse_laws::field_values(warehouse::form_fields(dist), "md5_digest"@) == seq![
            digests::hex_text(digests::md5_sum(dist.bytes)),
        ],
        warehouse_laws::field_values(warehouse::form_fields(dist), "sha256_digest"@) == seq![
            digests::hex_text(digests::sha256_sum(dist.bytes)),
        ],
{
    lemma_leading_marks();
    lemma_ranks();
    law_form_values(dist, "md5_digest"@);
    law_form_values(dist, "sha256_digest"@);
}

/// There is a form for every distribution that names its project and its version and has a file name,
/// with all its fields; else it is said what lacks, the project first.
pub proof fn law_requests(dist: DistView)
    ensures
        ({
            let single = dist.metadata.single;
            let r = warehouse::request_for(dist);
            &&& !single.contains_key("Name"@) ==> r == Err::<warehouse::RequestView, FormError>(
                FormError::MissingName,
            )
            &&& single.contains_key("Name"@) && !single.contains_key("Version"@) ==> r == Err::<
                warehouse::RequestView,
                FormError,
            >(FormError::MissingVersion)
            &&& single.contains_key("Name"@) && single.contains_key("Version"@) ==> match paths::file_name_of(
                dist.path,
            ) {
                None => r == Err::<warehouse::RequestView, FormError>(FormError::NoFilename),
                Some(filename) => {
                    &&& r is Ok
                    &&& r->Ok_0.filename == filename
                    &&& r->Ok_0.name == single["Name"@]
                    &&& r->Ok_0.version == single["Version"@]
                    &&& forall|name: Seq<char>|
                        warehouse_laws::field_values(r->Ok_0.fields, name) == #[trigger] values_sent(
                            dist,
                            name,
                        )
                },
            }
        }),
{
    assert forall|name: Seq<char>|
        warehouse_laws::field_values(warehouse::form_fields(dist), name) == #[trigger] values_sent(
            dist,
            name,
        ) by {
        law_form_values(dist, name);
    }
}

/// The index has a file already if and only if it answers with status 400 and says so somewhere in its
/// answer, in whatever letters.
pub proof fn law_already_there(status: u16, body: Seq<char>)
    ensures
        warehouse::has_it_already(status, body) <==> status == 400 && exists|a: Seq<char>, b: Seq<char>|
            text::lowered(body) == #[trigger] (a + "already exists"@ + b),
{
    text_laws::law_parts(text::lowered(body), "already exists"@);
}

} // verus!
