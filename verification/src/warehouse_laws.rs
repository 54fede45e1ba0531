//! Laws of the upload form.
use crate::core_metadata;
use crate::paths;
use crate::pypi_push::DistView;
use crate::warehouse;
use crate::warehouse::Field;
use vstd::prelude::*;

verus! {

/// A file is pushed under the name that it has in the packages directory, as long as its metadata name a
/// project and a version.
pub proof fn law_files_keep_their_names(dist: DistView, dir: Seq<char>, filename: Seq<char>)
    requires
        dist.path == paths::path_in(dir, filename),
        !paths::separated(filename),
        paths::counts(filename),
        filename != ".."@,
        dist.metadata.single.contains_key("Name"@),
        dist.metadata.single.contains_key("Version"@),
    ensures
        warehouse::request_for(dist) is Ok,
        warehouse::request_for(dist)->Ok_0.filename == filename,
        warehouse::request_for(dist)->Ok_0.name == dist.metadata.single["Name"@],
        warehouse::request_for(dist)->Ok_0.version == dist.metadata.single["Version"@],
{
    paths::law_name_in_directory(dir, filename);
}

/// The values that a form has under a name, in their order.
pub open spec fn field_values(fields: Seq<Field>, name: Seq<char>) -> Seq<Seq<char>>
    decreases fields.len(),
{
    if fields.len() == 0 {
        Seq::empty()
    } else if fields.last().0 == name {
        field_values(fields.drop_last(), name).push(fields.last().1)
    } else {
        field_values(fields.drop_last(), name)
    }
}

/// The values of a form made of two parts are those of the first and those of the second.
pub proof fn lemma_field_values_append(a: Seq<Field>, b: Seq<Field>, name: Seq<char>)
    ensures
        field_values(a + b, name) == field_values(a, name) + field_values(b, name),
    decreases b.len(),
{
    if b.len() == 0 {
        assert(a + b =~= a);
        assert(field_values(a, name) + field_values(b, name) =~= field_values(a, name));
    } else {
        lemma_field_values_append(a, b.drop_last(), name);
        assert((a + b).drop_last() =~= a + b.drop_last());
        assert((a + b).last() == b.last());
        assert(field_values(a + b, name) =~= field_values(a, name) + field_values(b, name));
    }
}

/// Fields under other names add no values.
proof fn lemma_field_values_absent(fields: Seq<Field>, name: Seq<char>)
    requires
        forall|i: int| 0 <= i < fields.len() ==> (#[trigger] fields[i]).0 != name,
    ensures
        field_values(fields, name) == Seq::<Seq<char>>::empty(),
    decreases fields.len(),
{
    if fields.len() > 0 {
        let front = fields.drop_last();
        assert(fields.last() == fields[fields.len() - 1]);
        assert forall|i: int| 0 <= i < front.len() implies (#[trigger] front[i]).0 != name by {
            assert(front[i] == fields[i]);
        }
        lemma_field_values_absent(front, name);
    }
}

/// A repeated field has the values that it was made of, and adds none under other names.
pub proof fn lemma_field_values_repeated(
    field: Seq<char>,
    values: Seq<Seq<char>>,
    name: Seq<char>,
)
    ensures
        field_values(warehouse::repeated_field(field, values), name) == (if field == name {
            values
        } else {
            Seq::empty()
        }),
    decreases values.len(),
{
    let fields = warehouse::repeated_field(field, values);
    if values.len() > 0 {
        lemma_field_values_repeated(field, values.drop_last(), name);
        assert(fields.drop_last() =~= warehouse::repeated_field(field, values.drop_last()));
        assert(fields.last() == (field, values.last()));
        assert(values.drop_last().push(values.last()) =~= values);
    }
    if field == name {
        assert(field_values(fields, name) =~= values);
    }
}

/// An optional field adds nothing under other names.
proof fn lemma_field_values_optional(field: Seq<char>, value: Option<Seq<char>>, name: Seq<char>)
    requires
        field != name,
    ensures
        field_values(warehouse::optional_field(field, value), name) == Seq::<Seq<char>>::empty(),
{
    lemma_field_values_absent(warehouse::optional_field(field, value), name);
}

/// The name of the form field for a piece of multi-valued metadata.
pub open spec fn field_for(key: Seq<char>) -> Seq<char> {
    if key == "Classifier"@ {
        "classifiers"@
    } else if key == "Requires-Dist"@ {
        "requires_dist"@
    } else if key == "Project-URL"@ {
        "project_urls"@
    } else if key == "Provides-Dist"@ {
        "provides_dist"@
    } else if key == "Obsoletes-Dist"@ {
        "obsoletes_dist"@
    } else if key == "Platform"@ {
        "platform"@
    } else if key == "Supported-Platform"@ {
        "supported_platform"@
    } else {
        "dynamic"@
    }
}

/// The names of the repeated fields.
pub open spec fn repeated_name(name: Seq<char>) -> bool {
    ||| name == "classifiers"@
    ||| name == "requires_dist"@
    ||| name == "project_urls"@
    ||| name == "provides_dist"@
    ||| name == "obsoletes_dist"@
    ||| name == "platform"@
    ||| name == "supported_platform"@
    ||| name == "dynamic"@
}

/// The repeated fields can be told apart from one another by the length and the first letter of their
/// names.
proof fn lemma_repeated_names()
    ensures
        "classifiers"@.len() == 11 && "classifiers"@[0] == 'c',
        "requires_dist"@.len() == 13 && "requires_dist"@[0] == 'r',
        "project_urls"@.len() == 12 && "project_urls"@[0] == 'p',
        "provides_dist"@.len() == 13 && "provides_dist"@[0] == 'p',
        "obsoletes_dist"@.len() == 14 && "obsoletes_dist"@[0] == 'o',
        "platform"@.len() == 8 && "platform"@[0] == 'p',
        "supported_platform"@.len() == 18 && "supported_platform"@[0] == 's',
        "dynamic"@.len() == 7 && "dynamic"@[0] == 'd',
{
    reveal_strlit("classifiers");
    reveal_strlit("requires_dist");
    reveal_strlit("project_urls");
    reveal_strlit("provides_dist");
    reveal_strlit("obsoletes_dist");
    reveal_strlit("platform");
    reveal_strlit("supported_platform");
    reveal_strlit("dynamic");
}

/// The fields that every upload has are under other names.
proof fn lemma_leading_names(dist: DistView, name: Seq<char>)
    requires
        repeated_name(name),
    ensures
        field_values(warehouse::leading_fields(dist), name) == Seq::<Seq<char>>::empty(),
{
    lemma_repeated_names();
    reveal_strlit(":action");
    reveal_strlit("protocol_version");
    reveal_strlit("metadata_version");
    reveal_strlit("name");
    reveal_strlit("version");
    reveal_strlit("filetype");
    reveal_strlit("pyversion");
    reveal_strlit("md5_digest");
    reveal_strlit("sha256_digest");
    assert(":action"@[0] == ':' && "version"@[0] == 'v' && "filetype"@[0] == 'f');
    assert("sha256_digest"@[0] == 's');
    let fields = warehouse::leading_fields(dist);
    assert forall|i: int| 0 <= i < fields.len() implies (#[trigger] fields[i]).0 != name by {}
    lemma_field_values_absent(fields, name);
}

/// The fields for single-valued metadata are under other names.
proof fn lemma_single_names(single: Map<Seq<char>, Seq<char>>, name: Seq<char>)
    requires
        repeated_name(name),
    ensures
        field_values(warehouse::single_fields(single), name) == Seq::<Seq<char>>::empty(),
{
    lemma_repeated_names();
    reveal_strlit("summary");
    reveal_strlit("home_page");
    reveal_strlit("author");
    reveal_strlit("author_email");
    reveal_strlit("maintainer");
    reveal_strlit("maintainer_email");
    reveal_strlit("license");
    reveal_strlit("description_content_type");
    reveal_strlit("requires_python");
    reveal_strlit("keywords");
    assert("summary"@[0] == 's' && "license"@[0] == 'l' && "keywords"@[0] == 'k');
    assert("author_email"@[0] == 'a');
    let fields = warehouse::single_fields(single);
    assert forall|i: int| 0 <= i < fields.len() implies (#[trigger] fields[i]).0 != name by {}
    lemma_field_values_absent(fields, name);
}

/// The values, where the names are the same, else none.
spec fn values_if(same: bool, values: Seq<Seq<char>>) -> Seq<Seq<char>> {
    if same {
        values
    } else {
        Seq::empty()
    }
}

/// What the fields for the multi-valued metadata have under a name.
proof fn lemma_multi_values(multi: Map<Seq<char>, Seq<Seq<char>>>, name: Seq<char>)
    ensures
        field_values(warehouse::multi_fields(multi), name) == values_if(
            name == "classifiers"@,
            core_metadata::values_of(multi, "Classifier"@),
        ) + values_if(
            name == "requires_dist"@,
            core_metadata::values_of(multi, "Requires-Dist"@),
        ) + values_if(
            name == "project_urls"@,
            core_metadata::values_of(multi, "Project-URL"@),
        ) + values_if(
            name == "provides_dist"@,
            core_metadata::values_of(multi, "Provides-Dist"@),
        ) + values_if(
            name == "obsoletes_dist"@,
            core_metadata::values_of(multi, "Obsoletes-Dist"@),
        ) + values_if(
            name == "platform"@,
            core_metadata::values_of(multi, "Platform"@),
        ) + values_if(
            name == "supported_platform"@,
            core_metadata::values_of(multi, "Supported-Platform"@),
        ) + values_if(
            name == "dynamic"@,
            core_metadata::values_of(multi, "Dynamic"@),
        ),
{
    let f0 = warehouse::multi_field("classifiers"@, multi, "Classifier"@);
    let f1 = warehouse::multi_field("requires_dist"@, multi, "Requires-Dist"@);
    let f2 = warehouse::multi_field("project_urls"@, multi, "Project-URL"@);
    let f3 = warehouse::multi_field("provides_dist"@, multi, "Provides-Dist"@);
    let f4 = warehouse::multi_field("obsoletes_dist"@, multi, "Obsoletes-Dist"@);
    let f5 = warehouse::multi_field("platform"@, multi, "Platform"@);
    let f6 = warehouse::multi_field("supported_platform"@, multi, "Supported-Platform"@);
    let f7 = warehouse::multi_field("dynamic"@, multi, "Dynamic"@);
    lemma_field_values_repeated(
        "classifiers"@,
        core_metadata::values_of(multi, "Classifier"@),
        name,
    );
    lemma_field_values_repeated(
        "requires_dist"@,
        core_metadata::values_of(multi, "Requires-Dist"@),
        name,
    );
    lemma_field_values_repeated(
        "project_urls"@,
        core_metadata::values_of(multi, "Project-URL"@),
        name,
    );
    lemma_field_values_repeated(
        "provides_dist"@,
        core_metadata::values_of(multi, "Provides-Dist"@),
        name,
    );
    lemma_field_values_repeated(
        "obsoletes_dist"@,
        core_metadata::values_of(multi, "Obsoletes-Dist"@),
        name,
    );
    lemma_field_values_repeated(
        "platform"@,
        core_metadata::values_of(multi, "Platform"@),
        name,
    );
    lemma_field_values_repeated(
        "supported_platform"@,
        core_metadata::values_of(multi, "Supported-Platform"@),
        name,
    );
    lemma_field_values_repeated(
        "dynamic"@,
        core_metadata::values_of(multi, "Dynamic"@),
        name,
    );
    lemma_field_values_append(f0, f1, name);
    lemma_field_values_append(f0 + f1, f2, name);
    lemma_field_values_append(f0 + f1 + f2, f3, name);
    lemma_field_values_append(f0 + f1 + f2 + f3, f4, name);
    lemma_field_values_append(f0 + f1 + f2 + f3 + f4, f5, name);
    lemma_field_values_append(f0 + f1 + f2 + f3 + f4 + f5, f6, name);
    lemma_field_values_append(f0 + f1 + f2 + f3 + f4 + f5 + f6, f7, name);
}

/// What the metadata have more than once is sent more than once: for each multi-valued field of the
/// metadata, the form has all its values under one and the same name, in their order, and nothing else
/// under that name.
pub proof fn law_repeated_values_sent(dist: DistView, key: Seq<char>)
    requires
        core_metadata::multi_valued(key),
    ensures
        field_values(warehouse::form_fields(dist), field_for(key)) == core_metadata::values_of(
            dist.metadata.multi,
            key,
        ),
{
    let name = field_for(key);
    let a = warehouse::leading_fields(dist);
    let b = warehouse::single_fields(dist.metadata.single);
    let c = warehouse::optional_field("description"@, dist.metadata.description);
    let d = warehouse::multi_fields(dist.metadata.multi);
    lemma_repeated_names();
    lemma_field_for(key);
    reveal_strlit("description");
    assert("description"@[0] == 'd' && "description"@.len() == 11);
    lemma_leading_names(dist, name);
    lemma_single_names(dist.metadata.single, name);
    lemma_field_values_optional("description"@, dist.metadata.description, name);
    lemma_field_values_append(a, b, name);
    lemma_field_values_append(a + b, c, name);
    lemma_field_values_append(a + b + c, d, name);
    lemma_multi_values(dist.metadata.multi, name);
    assert(field_values(warehouse::form_fields(dist), name) =~= core_metadata::values_of(
        dist.metadata.multi,
        key,
    ));
}

/// Different multi-valued fields of the metadata go by different names.
proof fn lemma_field_for(key: Seq<char>)
    requires
        core_metadata::multi_valued(key),
    ensures
        repeated_name(field_for(key)),
        field_for(key) == "classifiers"@ <==> key == "Classifier"@,
        field_for(key) == "requires_dist"@ <==> key == "Requires-Dist"@,
        field_for(key) == "project_urls"@ <==> key == "Project-URL"@,
        field_for(key) == "provides_dist"@ <==> key == "Provides-Dist"@,
        field_for(key) == "obsoletes_dist"@ <==> key == "Obsoletes-Dist"@,
        field_for(key) == "platform"@ <==> key == "Platform"@,
        field_for(key) == "supported_platform"@ <==> key == "Supported-Platform"@,
        field_for(key) == "dynamic"@ <==> key == "Dynamic"@,
{
    lemma_repeated_names();
    reveal_strlit("Classifier");
    reveal_strlit("Requires-Dist");
    reveal_strlit("Project-URL");
    reveal_strlit("Provides-Dist");
    reveal_strlit("Obsoletes-Dist");
    reveal_strlit("Platform");
    reveal_strlit("Supported-Platform");
    reveal_strlit("Dynamic");
    assert("Classifier"@.len() == 10 && "Classifier"@[0] == 'C');
    assert("Requires-Dist"@.len() == 13 && "Requires-Dist"@[0] == 'R');
    assert("Project-URL"@.len() == 11 && "Project-URL"@[0] == 'P');
    assert("Provides-Dist"@.len() == 13 && "Provides-Dist"@[0] == 'P');
    assert("Obsoletes-Dist"@.len() == 14 && "Obsoletes-Dist"@[0] == 'O');
    assert("Platform"@.len() == 8 && "Platform"@[0] == 'P');
    assert("Supported-Platform"@.len() == 18 && "Supported-Platform"@[0] == 'S');
    assert("Dynamic"@.len() == 7 && "Dynamic"@[0] == 'D');
}

} // verus!
