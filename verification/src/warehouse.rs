//! The upload form of a Warehouse index, and what its answer means.
use crate::core_metadata;
use crate::core_metadata::CoreMetadata;
use crate::digests;
use crate::paths;
use crate::pypi_push::{DistView, FileKind, KindView, PyDistFile};
use crate::text;
use vstd::hash_map::StringHashMap;
use vstd::prelude::*;

verus! {

/// A form field's name and value.
pub type Field = (Seq<char>, Seq<char>);

/// What a list of form fields holds.
pub open spec fn fields_held(fields: Seq<(String, String)>) -> Seq<Field> {
    Seq::new(fields.len(), |i: int| (fields[i].0@, fields[i].1@))
}

/// A form with a distribution file: its fields, in their order, and the name under which the file is
/// sent.
#[derive(Debug)]
pub struct UploadRequest {
    pub fields: Vec<(String, String)>,
    pub filename: String,
    pub name: String,
    pub version: String,
}

/// What an `UploadRequest` holds.
pub struct RequestView {
    pub fields: Seq<Field>,
    pub filename: Seq<char>,
    pub name: Seq<char>,
    pub version: Seq<char>,
}

impl View for UploadRequest {
    type V = RequestView;

    open spec fn view(&self) -> RequestView {
        RequestView {
            fields: fields_held(self.fields@),
            filename: self.filename@,
            name: self.name@,
            version: self.version@,
        }
    }
}

/// Why a distribution cannot be uploaded.
#[derive(Debug, Clone, Copy, PartialEq, Eq, Structural)]
pub enum FormError {
    MissingName,
    MissingVersion,
    NoFilename,
}

impl FormError {
    /// The error in words.
    pub open spec fn words(self) -> Seq<char> {
        match self {
            FormError::MissingName => "distribution metadata is missing Name"@,
            FormError::MissingVersion => "distribution metadata is missing Version"@,
            FormError::NoFilename => "distribution file has no filename"@,
        }
    }

    /// The error in words.
    pub fn message(&self) -> (r: String)
        ensures
            r@ == self.words(),
    {
        match self {
            FormError::MissingName => "distribution metadata is missing Name".to_owned(),
            FormError::MissingVersion => "distribution metadata is missing Version".to_owned(),
            FormError::NoFilename => "distribution file has no filename".to_owned(),
        }
    }
}

/// The metadata version of a distribution that does not say.
pub const DEFAULT_METADATA_VERSION: &'static str = "2.1";

/// The value of a single-valued field, where it has one.
pub open spec fn single_value(
    single: Map<Seq<char>, Seq<char>>,
    key: Seq<char>,
) -> Option<Seq<char>> {
    if single.contains_key(key) {
        Some(single[key])
    } else {
        None
    }
}

/// The form field for an optional value: none where the value is absent.
pub open spec fn optional_field(name: Seq<char>, value: Option<Seq<char>>) -> Seq<Field> {
    match value {
        Some(v) => seq![(name, v)],
        None => Seq::empty(),
    }
}

/// The form fields for a list of values: one each, under the same name.
pub open spec fn repeated_field(name: Seq<char>, values: Seq<Seq<char>>) -> Seq<Field> {
    values.map_values(|v: Seq<char>| (name, v))
}

/// The file type and the Python version by which the index knows a distribution.
pub open spec fn kind_fields(kind: KindView) -> Seq<Field> {
    match kind {
        KindView::Sdist => seq![("filetype"@, "sdist"@), ("pyversion"@, "source"@)],
        KindView::Wheel { python_tag } => seq![
            ("filetype"@, "bdist_wheel"@),
            ("pyversion"@, python_tag),
        ],
    }
}

/// The form fields that every upload has.
pub open spec fn leading_fields(dist: DistView) -> Seq<Field> {
    let single = dist.metadata.single;
    let metadata_version = match single_value(single, "Metadata-Version"@) {
        Some(v) => v,
        None => DEFAULT_METADATA_VERSION@,
    };
    seq![
        (":action"@, "file_upload"@),
        ("protocol_version"@, "1"@),
        ("metadata_version"@, metadata_version),
        ("name"@, single["Name"@]),
        ("version"@, single["Version"@]),
    ] + kind_fields(dist.kind) + seq![
        ("md5_digest"@, digests::hex_text(digests::md5_sum(dist.bytes))),
        ("sha256_digest"@, digests::hex_text(digests::sha256_sum(dist.bytes))),
    ]
}

/// The form fields for the single-valued metadata that a distribution need not have.
pub open spec fn single_fields(single: Map<Seq<char>, Seq<char>>) -> Seq<Field> {
    optional_field("summary"@, single_value(single, "Summary"@)) + optional_field(
        "home_page"@,
        single_value(single, "Home-page"@),
    ) + optional_field("author"@, single_value(single, "Author"@)) + optional_field(
        "author_email"@,
        single_value(single, "Author-email"@),
    ) + optional_field("maintainer"@, single_value(single, "Maintainer"@)) + optional_field(
        "maintainer_email"@,
        single_value(single, "Maintainer-email"@),
    ) + optional_field("license"@, single_value(single, "License"@)) + optional_field(
        "description_content_type"@,
        single_value(single, "Description-Content-Type"@),
    ) + optional_field("requires_python"@, single_value(single, "Requires-Python"@))
        + optional_field("keywords"@, single_value(single, "Keywords"@))
}

/// The form fields for a piece of multi-valued metadata.
pub open spec fn multi_field(
    name: Seq<char>,
    multi: Map<Seq<char>, Seq<Seq<char>>>,
    key: Seq<char>,
) -> Seq<Field> {
    repeated_field(name, core_metadata::values_of(multi, key))
}

/// The form fields for the multi-valued metadata: every value is sent, one field each.
pub open spec fn multi_fields(multi: Map<Seq<char>, Seq<Seq<char>>>) -> Seq<Field> {
    multi_field("classifiers"@, multi, "Classifier"@)
        + multi_field("requires_dist"@, multi, "Requires-Dist"@)
        + multi_field("project_urls"@, multi, "Project-URL"@)
        + multi_field("provides_dist"@, multi, "Provides-Dist"@)
        + multi_field("obsoletes_dist"@, multi, "Obsoletes-Dist"@)
        + multi_field("platform"@, multi, "Platform"@)
        + multi_field("supported_platform"@, multi, "Supported-Platform"@)
        + multi_field("dynamic"@, multi, "Dynamic"@)
}

/// The form fields of a distribution's upload, in their order.
pub open spec fn form_fields(dist: DistView) -> Seq<Field> {
    leading_fields(dist) + single_fields(dist.metadata.single) + optional_field(
        "description"@,
        dist.metadata.description,
    ) + multi_fields(dist.metadata.multi)
}

/// The form of a distribution's upload, or why there is none.
pub open spec fn request_for(dist: DistView) -> Result<RequestView, FormError> {
    let single = dist.metadata.single;
    if !single.contains_key("Name"@) {
        Err(FormError::MissingName)
    } else if !single.contains_key("Version"@) {
        Err(FormError::MissingVersion)
    } else {
        match paths::file_name_of(dist.path) {
            None => Err(FormError::NoFilename),
            Some(filename) => Ok(
                RequestView {
                    fields: form_fields(dist),
                    filename,
                    name: single["Name"@],
                    version: single["Version"@],
                },
            ),
        }
    }
}

/// The fields of a metadata's single-valued part.
pub open spec fn singles(single: StringHashMap<String>) -> Map<Seq<char>, Seq<char>> {
    single@.map_values(|s: String| s@)
}

/// Lists can be put behind one another in any grouping.
proof fn lemma_append(a: Seq<Field>, b: Seq<Field>, c: Seq<Field>)
    ensures
        (a + b) + c == a + (b + c),
{
    assert((a + b) + c =~= a + (b + c));
}

/// Puts a field behind the others.
fn push_field(fields: &mut Vec<(String, String)>, name: &str, value: &str)
    ensures
        fields_held(final(fields)@) == fields_held(old(fields)@).push((name@, value@)),
{
    let ghost before = fields@;
    fields.push((name.to_owned(), value.to_owned()));
    assert(fields_held(fields@) =~= fields_held(before).push((name@, value@)));
}

/// Puts the field for a piece of single-valued metadata behind the others, where there is one.
fn push_single(
    fields: &mut Vec<(String, String)>,
    single: &StringHashMap<String>,
    key: &str,
    name: &str,
)
    ensures
        fields_held(final(fields)@) == fields_held(old(fields)@) + optional_field(
            name@,
            single_value(singles(*single), key@),
        ),
{
    let ghost before = fields_held(fields@);
    match single.get(key) {
        Some(v) => {
            push_field(fields, name, v.as_str());
            assert(fields_held(fields@) =~= before + seq![(name@, v@)]);
        },
        None => {
            assert(before =~= before + Seq::<Field>::empty());
        },
    }
}

/// Puts the fields for a piece of multi-valued metadata behind the others.
fn push_multi(fields: &mut Vec<(String, String)>, meta: &CoreMetadata, key: &str, name: &str)
    ensures
        fields_held(final(fields)@) == fields_held(old(fields)@) + multi_field(
            name@,
            meta@.multi,
            key@,
        ),
{
    let ghost before = fields_held(fields@);
    match meta.multi.get(key) {
        Some(values) => {
            let ghost all = text::texts(values@);
            assert(core_metadata::values_of(meta@.multi, key@) == all);
            let mut i: usize = 0;
            assert(before =~= before + repeated_field(name@, all.take(0)));
            while i < values.len()
                invariant
                    all == text::texts(values@),
                    i <= values@.len(),
                    fields_held(fields@) == before + repeated_field(name@, all.take(i as int)),
                decreases values@.len() - i,
            {
                push_field(fields, name, values[i].as_str());
                proof {
                    assert(repeated_field(name@, all.take(i + 1)) =~= repeated_field(
                        name@,
                        all.take(i as int),
                    ).push((name@, values@[i as int]@)));
                    assert(fields_held(fields@) =~= before + repeated_field(
                        name@,
                        all.take(i + 1),
                    ));
                }
                i = i + 1;
            }
            assert(all.take(values@.len() as int) =~= all);
        },
        None => {
            assert(before =~= before + repeated_field(name@, Seq::empty()));
        },
    }
}

/// Puts the fields that every upload has into a form.
fn push_leading(fields: &mut Vec<(String, String)>, dist: &PyDistFile, name: &str, version: &str)
    requires
        old(fields)@.len() == 0,
        dist@.metadata.single["Name"@] == name@,
        dist@.metadata.single["Version"@] == version@,
    ensures
        fields_held(final(fields)@) == leading_fields(dist@),
{
    let metadata_version: String = match dist.metadata.single.get("Metadata-Version") {
        Some(v) => v.clone(),
        None => DEFAULT_METADATA_VERSION.to_owned(),
    };
    push_field(fields, ":action", "file_upload");
    push_field(fields, "protocol_version", "1");
    push_field(fields, "metadata_version", &metadata_version);
    push_field(fields, "name", name);
    push_field(fields, "version", version);
    match &dist.kind {
        FileKind::Sdist => {
            push_field(fields, "filetype", "sdist");
            push_field(fields, "pyversion", "source");
        },
        FileKind::Wheel { python_tag } => {
            push_field(fields, "filetype", "bdist_wheel");
            push_field(fields, "pyversion", python_tag);
        },
    }
    let (md5_hex, sha256_hex) = digests::digest_hex(dist.bytes.as_slice());
    push_field(fields, "md5_digest", &md5_hex);
    push_field(fields, "sha256_digest", &sha256_hex);
    assert(fields_held(fields@) =~= leading_fields(dist@));
}

/// Puts the fields for the single-valued metadata behind the others.
fn push_singles(fields: &mut Vec<(String, String)>, single: &StringHashMap<String>)
    ensures
        fields_held(final(fields)@) == fields_held(old(fields)@) + single_fields(singles(*single)),
{
    let ghost before = fields_held(fields@);
    push_single(fields, single, "Summary", "summary");
    push_single(fields, single, "Home-page", "home_page");
    push_single(fields, single, "Author", "author");
    push_single(fields, single, "Author-email", "author_email");
    push_single(fields, single, "Maintainer", "maintainer");
    push_single(fields, single, "Maintainer-email", "maintainer_email");
    push_single(fields, single, "License", "license");
    push_single(fields, single, "Description-Content-Type", "description_content_type");
    push_single(fields, single, "Requires-Python", "requires_python");
    push_single(fields, single, "Keywords", "keywords");
    proof {
        let m = singles(*single);
        let f0 = optional_field("summary"@, single_value(m, "Summary"@));
        let f1 = optional_field("home_page"@, single_value(m, "Home-page"@));
        let f2 = optional_field("author"@, single_value(m, "Author"@));
        let f3 = optional_field("author_email"@, single_value(m, "Author-email"@));
        let f4 = optional_field("maintainer"@, single_value(m, "Maintainer"@));
        let f5 = optional_field("maintainer_email"@, single_value(m, "Maintainer-email"@));
        let f6 = optional_field("license"@, single_value(m, "License"@));
        let f7 = optional_field("description_content_type"@, single_value(m, "Description-Content-Type"@));
        let f8 = optional_field("requires_python"@, single_value(m, "Requires-Python"@));
        let f9 = optional_field("keywords"@, single_value(m, "Keywords"@));
        lemma_append(before, f0, f1);
        lemma_append(before, f0 + f1, f2);
        lemma_append(before, f0 + f1 + f2, f3);
        lemma_append(before, f0 + f1 + f2 + f3, f4);
        lemma_append(before, f0 + f1 + f2 + f3 + f4, f5);
        lemma_append(before, f0 + f1 + f2 + f3 + f4 + f5, f6);
        lemma_append(before, f0 + f1 + f2 + f3 + f4 + f5 + f6, f7);
        lemma_append(before, f0 + f1 + f2 + f3 + f4 + f5 + f6 + f7, f8);
        lemma_append(before, f0 + f1 + f2 + f3 + f4 + f5 + f6 + f7 + f8, f9);
    }
}

/// Puts the fields for the multi-valued metadata behind the others.
fn push_multis(fields: &mut Vec<(String, String)>, meta: &CoreMetadata)
    ensures
        fields_held(final(fields)@) == fields_held(old(fields)@) + multi_fields(meta@.multi),
{
    let ghost before = fields_held(fields@);
    push_multi(fields, meta, "Classifier", "classifiers");
    push_multi(fields, meta, "Requires-Dist", "requires_dist");
    push_multi(fields, meta, "Project-URL", "project_urls");
    push_multi(fields, meta, "Provides-Dist", "provides_dist");
    push_multi(fields, meta, "Obsoletes-Dist", "obsoletes_dist");
    push_multi(fields, meta, "Platform", "platform");
    push_multi(fields, meta, "Supported-Platform", "supported_platform");
    push_multi(fields, meta, "Dynamic", "dynamic");
    proof {
        let m = meta@.multi;
        let f0 = multi_field("classifiers"@, m, "Classifier"@);
        let f1 = multi_field("requires_dist"@, m, "Requires-Dist"@);
        let f2 = multi_field("project_urls"@, m, "Project-URL"@);
        let f3 = multi_field("provides_dist"@, m, "Provides-Dist"@);
        let f4 = multi_field("obsoletes_dist"@, m, "Obsoletes-Dist"@);
        let f5 = multi_field("platform"@, m, "Platform"@);
        let f6 = multi_field("supported_platform"@, m, "Supported-Platform"@);
        let f7 = multi_field("dynamic"@, m, "Dynamic"@);
        lemma_append(before, f0, f1);
        lemma_append(before, f0 + f1, f2);
        lemma_append(before, f0 + f1 + f2, f3);
        lemma_append(before, f0 + f1 + f2 + f3, f4);
        lemma_append(before, f0 + f1 + f2 + f3 + f4, f5);
        lemma_append(before, f0 + f1 + f2 + f3 + f4 + f5, f6);
        lemma_append(before, f0 + f1 + f2 + f3 + f4 + f5 + f6, f7);
    }
}

/// The form of a distribution's upload: the fields that the index expects, in the order in which it
/// is used to them. What the metadata lack is left out.
pub fn upload_request(dist: &PyDistFile) -> (r: Result<UploadRequest, FormError>)
    ensures
        match r {
            Ok(request) => request_for(dist@) is Ok && request_for(dist@)->Ok_0 == request@,
            Err(e) => request_for(dist@) is Err && request_for(dist@)->Err_0 == e,
        },
        r is Ok <==> dist@.metadata.single.contains_key("Name"@)
            && dist@.metadata.single.contains_key("Version"@) && paths::file_name_of(
            dist@.path,
        ) is Some,
        r matches Ok(request) ==> {
            &&& request.fields@.len() == form_fields(dist@).len()
            &&& forall|i: int|
                0 <= i < request.fields@.len() ==> (#[trigger] request.fields@[i]).0@
                    == form_fields(dist@)[i].0 && request.fields@[i].1@ == form_fields(dist@)[i].1
            &&& request.fields@[7].0@ == "md5_digest"@
            &&& request.fields@[7].1@ == digests::hex_text(digests::md5_sum(dist.bytes@))
            &&& request.fields@[8].0@ == "sha256_digest"@
            &&& request.fields@[8].1@ == digests::hex_text(digests::sha256_sum(dist.bytes@))
            &&& paths::file_name_of(dist.path@) == Some(request.filename@)
        },
{
    let name: String = match dist.metadata.single.get("Name") {
        Some(v) => v.clone(),
        None => {
            return Err(FormError::MissingName);
        },
    };
    let version: String = match dist.metadata.single.get("Version") {
        Some(v) => v.clone(),
        None => {
            return Err(FormError::MissingVersion);
        },
    };
    let filename: String = match paths::file_name(&dist.path) {
        Some(f) => f,
        None => {
            return Err(FormError::NoFilename);
        },
    };
    let mut fields: Vec<(String, String)> = Vec::new();
    push_leading(&mut fields, dist, &name, &version);
    push_singles(&mut fields, &dist.metadata.single);
    let ghost before = fields_held(fields@);
    match &dist.metadata.description {
        Some(d) => {
            push_field(&mut fields, "description", d);
        },
        None => {},
    }
    assert(fields_held(fields@) =~= before + optional_field(
        "description"@,
        dist@.metadata.description,
    ));
    push_multis(&mut fields, &dist.metadata);
    proof {
        let all = form_fields(dist@);
        assert(fields_held(fields@) == all);
        assert forall|i: int| 0 <= i < fields@.len() implies (#[trigger] fields@[i]).0@ == all[i].0
            && fields@[i].1@ == all[i].1 by {
            assert(fields_held(fields@)[i] == (fields@[i].0@, fields@[i].1@));
        }
        assert(leading_fields(dist@).len() == 9);
        assert(all[7] == leading_fields(dist@)[7]);
        assert(all[8] == leading_fields(dist@)[8]);
    }
    Ok(UploadRequest { fields, filename, name, version })
}

/// Whether an HTTP status says success.
pub open spec fn success(status: u16) -> bool {
    200 <= status < 300
}

/// Whether an HTTP status says success.
pub fn is_success(status: u16) -> (r: bool)
    ensures
        r == success(status),
        r <==> 200 <= status <= 299,
{
    200 <= status && status < 300
}

/// What the index says where it has the file already.
pub const ALREADY_EXISTS: &'static str = "already exists";

/// Whether the index's answer says that it has the file already.
pub open spec fn has_it_already(status: u16, body: Seq<char>) -> bool {
    status == 400 && text::occurs_in(ALREADY_EXISTS@, text::lowered(body))
}

/// What is said of an upload that the index refused.
pub open spec fn refusal(
    name: Seq<char>,
    version: Seq<char>,
    status_line: Seq<char>,
    body: Seq<char>,
) -> Seq<char> {
    "PyPI upload of "@ + name + "@"@ + version + " failed: HTTP "@ + status_line + " - "@
        + text::trimmed(body)
}

/// What the index's answer means: the file was taken, or the index had it already, or the upload
/// failed.
pub fn upload_verdict(request: &UploadRequest, status: u16, status_line: &str, body: &str) -> (r:
    Result<bool, String>)
    ensures
        match r {
            Ok(taken) => {
                &&& success(status) || has_it_already(status, body@)
                &&& taken == success(status)
            },
            Err(message) => {
                &&& !success(status)
                &&& !has_it_already(status, body@)
                &&& message@ == refusal(request@.name, request@.version, status_line@, body@)
            },
        },
        r == Ok::<bool, String>(true) <==> 200 <= status <= 299,
        r == Ok::<bool, String>(false) ==> status == 400,
        r matches Err(message) ==> message@ == "PyPI upload of "@ + request.name@ + "@"@
            + request.version@ + " failed: HTTP "@ + status_line@ + " - "@ + text::trimmed(body@),
{
    if is_success(status) {
        return Ok(true);
    }
    if status == 400 && text::contains_text(&text::to_lower(body), ALREADY_EXISTS) {
        return Ok(false);
    }
    let mut message = text::concat3("PyPI upload of ", &request.name, "@");
    message.append(&request.version);
    message.append(" failed: HTTP ");
    message.append(status_line);
    message.append(" - ");
    message.append(&text::trim(body));
    Err(message)
}

} // verus!
