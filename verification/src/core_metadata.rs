//! The core metadata of a distribution: the header block of its `PKG-INFO` or `METADATA` file.
use crate::text;
use vstd::hash_map::StringHashMap;
use vstd::prelude::*;

verus! {

/// The fields of a core metadata file. Of a single-valued field the last occurrence counts; of a
/// multi-valued field all occurrences do. The long description may stand in a header or behind the
/// blank line that ends the headers, and is held apart.
pub struct CoreMetadata {
    pub single: StringHashMap<String>,
    pub multi: StringHashMap<Vec<String>>,
    pub description: Option<String>,
}

/// What a `CoreMetadata` holds.
#[verifier::ext_equal]
pub struct CoreView {
    pub single: Map<Seq<char>, Seq<char>>,
    pub multi: Map<Seq<char>, Seq<Seq<char>>>,
    pub description: Option<Seq<char>>,
}

impl View for CoreMetadata {
    type V = CoreView;

    open spec fn view(&self) -> CoreView {
        CoreView {
            single: self.single@.map_values(|s: String| s@),
            multi: self.multi@.map_values(|v: Vec<String>| text::texts(v@)),
            description: text::opt_text(self.description),
        }
    }
}

/// No fields at all.
pub open spec fn no_fields() -> CoreView {
    CoreView { single: Map::empty(), multi: Map::empty(), description: None }
}

impl Default for CoreMetadata {
    fn default() -> (r: Self)
        ensures
            r@ == no_fields(),
    {
        let r = CoreMetadata {
            single: StringHashMap::new(),
            multi: StringHashMap::new(),
            description: None,
        };
        assert(r@ =~= no_fields());
        r
    }
}

/// The header with the long description.
pub const DESCRIPTION: &'static str = "Description";

/// Whether a field may occur more than once.
pub open spec fn multi_valued(key: Seq<char>) -> bool {
    ||| key == "Classifier"@
    ||| key == "Requires-Dist"@
    ||| key == "Provides-Dist"@
    ||| key == "Obsoletes-Dist"@
    ||| key == "Project-URL"@
    ||| key == "Platform"@
    ||| key == "Supported-Platform"@
    ||| key == "Dynamic"@
}

/// Whether a field may occur more than once.
fn is_multi_valued(key: &str) -> (r: bool)
    ensures
        r == multi_valued(key@),
{
    text::same_text(key, "Classifier") || text::same_text(key, "Requires-Dist") || text::same_text(
        key,
        "Provides-Dist",
    ) || text::same_text(key, "Obsoletes-Dist") || text::same_text(key, "Project-URL")
        || text::same_text(key, "Platform") || text::same_text(key, "Supported-Platform")
        || text::same_text(key, "Dynamic")
}

/// Whether a line continues the header before it.
pub open spec fn continuation(line: Seq<char>) -> bool {
    line.len() > 0 && line[0] == ' '
}

/// Whether a line is a header: neither blank nor a continuation, and with a colon.
pub open spec fn header(line: Seq<char>) -> bool {
    line.len() > 0 && line[0] != ' ' && line.contains(':')
}

/// The name of a header: what stands before its first colon.
pub open spec fn header_key(line: Seq<char>) -> Seq<char> {
    text::trimmed(line.take(text::index_of(line, ':')))
}

/// The value of a header: what stands behind its first colon.
pub open spec fn header_value(line: Seq<char>) -> Seq<char> {
    text::trimmed(line.skip(text::index_of(line, ':') + 1))
}

/// The fields read so far, and the header that a continuation would continue.
pub struct ParseState {
    pub meta: CoreView,
    pub last_key: Option<Seq<char>>,
}

/// The values of a multi-valued field, none where it did not occur.
pub open spec fn values_of(
    multi: Map<Seq<char>, Seq<Seq<char>>>,
    key: Seq<char>,
) -> Seq<Seq<char>> {
    if multi.contains_key(key) {
        multi[key]
    } else {
        Seq::empty()
    }
}

/// The value of a single-valued field, empty where it did not occur.
pub open spec fn value_of(single: Map<Seq<char>, Seq<char>>, key: Seq<char>) -> Seq<char> {
    if single.contains_key(key) {
        single[key]
    } else {
        Seq::empty()
    }
}

/// What a header line does to the fields.
pub open spec fn with_header(meta: CoreView, key: Seq<char>, value: Seq<char>) -> CoreView {
    if multi_valued(key) {
        CoreView { multi: meta.multi.insert(key, values_of(meta.multi, key).push(value)), ..meta }
    } else {
        CoreView { single: meta.single.insert(key, value), ..meta }
    }
}

/// What a continuation line adds to the description: a line break, and the line without its leading
/// space and the bars behind it.
pub open spec fn with_continuation(meta: CoreView, line: Seq<char>) -> CoreView {
    CoreView {
        single: meta.single.insert(
            DESCRIPTION@,
            value_of(meta.single, DESCRIPTION@) + seq!['\n'] + text::without_leading(
                line.skip(1),
                '|',
            ),
        ),
        ..meta
    }
}

/// What a line that is not blank does.
pub open spec fn with_line(st: ParseState, line: Seq<char>) -> ParseState {
    if continuation(line) {
        if st.last_key == Some(DESCRIPTION@) {
            ParseState { meta: with_continuation(st.meta, line), ..st }
        } else {
            st
        }
    } else if header(line) {
        ParseState {
            meta: with_header(st.meta, header_key(line), header_value(line)),
            last_key: Some(header_key(line)),
        }
    } else {
        st
    }
}

/// What the text behind the blank line does: it is the description, unless it is all white space.
pub open spec fn with_body(meta: CoreView, body: Seq<char>) -> CoreView {
    if text::trimmed(body).len() == 0 {
        meta
    } else {
        CoreView { description: Some(body), ..meta }
    }
}

/// The state before the first line.
pub open spec fn start() -> ParseState {
    ParseState { meta: no_fields(), last_key: None }
}

/// The state after the lines of the header block.
pub open spec fn after_lines(lines: Seq<Seq<char>>) -> ParseState
    decreases lines.len(),
{
    if lines.len() == 0 {
        start()
    } else {
        with_line(after_lines(lines.drop_last()), lines.last())
    }
}

/// The position of the first blank line, or the number of lines where there is none.
pub open spec fn blank_index(lines: Seq<Seq<char>>) -> int
    decreases lines.len(),
{
    if lines.len() == 0 || lines[0].len() == 0 {
        0
    } else {
        1 + blank_index(lines.drop_first())
    }
}

/// The lines of the header block: those before the first blank line.
pub open spec fn header_lines(lines: Seq<Seq<char>>) -> Seq<Seq<char>> {
    lines.take(blank_index(lines))
}

/// The text behind the first blank line, empty where there is none.
pub open spec fn body_text(lines: Seq<Seq<char>>) -> Seq<char> {
    text::joined(lines.skip(blank_index(lines) + 1), "\n"@)
}

/// The fields of the header block, with the description of the body, where there is one.
pub open spec fn with_lines(lines: Seq<Seq<char>>) -> CoreView {
    let meta = after_lines(header_lines(lines)).meta;
    if blank_index(lines) < lines.len() {
        with_body(meta, body_text(lines))
    } else {
        meta
    }
}

/// `blank_index` is the position of the first blank line.
pub proof fn lemma_blank_index(lines: Seq<Seq<char>>, k: int)
    requires
        0 <= k <= lines.len(),
        k < lines.len() ==> lines[k].len() == 0,
        forall|j: int| 0 <= j < k ==> (#[trigger] lines[j]).len() > 0,
    ensures
        blank_index(lines) == k,
    decreases lines.len(),
{
    if k > 0 {
        let rest = lines.drop_first();
        assert(lines[0].len() > 0);
        assert forall|j: int| 0 <= j < k - 1 implies (#[trigger] rest[j]).len() > 0 by {
            assert(rest[j] == lines[j + 1]);
        }
        if k < lines.len() {
            assert(rest[k - 1] == lines[k]);
        }
        lemma_blank_index(rest, k - 1);
    }
}

/// A description in a header takes the place of one in the body.
pub open spec fn settled(meta: CoreView) -> CoreView {
    if meta.single.contains_key(DESCRIPTION@) {
        CoreView { description: Some(meta.single[DESCRIPTION@]), ..meta }
    } else {
        meta
    }
}

/// The fields of a core metadata file.
pub open spec fn core_metadata(raw: Seq<char>) -> CoreView {
    settled(with_lines(text::text_lines(raw)))
}

/// Adds a header to the fields.
fn add_header(meta: &mut CoreMetadata, key: &String, value: String)
    ensures
        final(meta)@ == with_header(old(meta)@, key@, value@),
{
    if is_multi_valued(key) {
        let mut values: Vec<String> = match meta.multi.get(key) {
            Some(v) => text::copy_texts(v),
            None => Vec::new(),
        };
        let ghost before = text::texts(values@);
        assert(before =~= values_of(old(meta)@.multi, key@));
        values.push(value);
        assert(text::texts(values@) =~= before.push(value@));
        meta.multi.insert(key.clone(), values);
        assert(meta@.multi =~= with_header(old(meta)@, key@, value@).multi);
        assert(meta@ =~= with_header(old(meta)@, key@, value@));
    } else {
        meta.single.insert(key.clone(), value);
        assert(meta@.single =~= with_header(old(meta)@, key@, value@).single);
        assert(meta@ =~= with_header(old(meta)@, key@, value@));
    }
}

/// Adds a continuation line to the description header.
fn add_continuation(meta: &mut CoreMetadata, line: &str)
    requires
        continuation(line@),
    ensures
        final(meta)@ == with_continuation(old(meta)@, line@),
{
    let chars = text::chars_of(line);
    let stripped = text::text_range(&chars, 1, chars.len());
    assert(stripped@ =~= line@.skip(1));
    let rest = text::trim_start_char(&stripped, '|');
    let mut entry: String = match meta.single.get(DESCRIPTION) {
        Some(v) => v.clone(),
        None => String::new(),
    };
    assert(entry@ =~= value_of(old(meta)@.single, DESCRIPTION@));
    entry.push('\n');
    entry.append(&rest);
    assert(entry@ =~= value_of(old(meta)@.single, DESCRIPTION@) + seq!['\n'] + rest@);
    meta.single.insert(DESCRIPTION.to_owned(), entry);
    assert(meta@.single =~= with_continuation(old(meta)@, line@).single);
    assert(meta@ =~= with_continuation(old(meta)@, line@));
}

/// Reads the fields of a core metadata file.
pub fn parse_core_metadata(raw: &str) -> (r: CoreMetadata)
    ensures
        r@ == core_metadata(raw@),
{
    let lines = text::lines(raw);
    let ghost all = text::texts(lines@);
    let mut meta = CoreMetadata::default();
    let mut last_key: Option<String> = None;
    let mut i: usize = 0;
    assert(all.take(0) =~= Seq::empty());
    while i < lines.len() && !lines[i].as_str().is_empty()
        invariant
            all == text::texts(lines@),
            i <= lines@.len(),
            forall|j: int| 0 <= j < i ==> (#[trigger] all[j]).len() > 0,
            after_lines(all.take(i as int)) == (ParseState {
                meta: meta@,
                last_key: text::opt_text(last_key),
            }),
        decreases lines@.len() - i,
    {
        let line = &lines[i];
        assert(all[i as int] == line@);
        assert(all.take(i + 1).drop_last() =~= all.take(i as int));
        assert(all.take(i + 1).last() == line@);
        let folded: bool = text::starts_with(line, " ");
        proof {
            reveal_strlit(" ");
            assert(folded == continuation(line@)) by {
                if folded {
                    assert(line@[0] == line@.take(1)[0]);
                } else {
                    assert(line@[0] == ' ' ==> line@.take(1) =~= " "@);
                }
            }
        }
        if folded {
            let in_description: bool = match &last_key {
                Some(k) => text::same_text(k, DESCRIPTION),
                None => false,
            };
            if in_description {
                add_continuation(&mut meta, line);
            }
        } else {
            proof {
                text::lemma_index_of(line@, ':');
            }
            match text::split_once(line, ':') {
                Some((key, value)) => {
                    let key = text::trim(&key);
                    let value = text::trim(&value);
                    add_header(&mut meta, &key, value);
                    last_key = Some(key);
                },
                None => {},
            }
        }
        i = i + 1;
    }
    proof {
        assert(i < lines@.len() ==> all[i as int] == lines@[i as int]@);
        lemma_blank_index(all, i as int);
    }
    if i < lines.len() {
        let body = text::join_from(&lines, i + 1, "\n");
        let trimmed = text::trim(&body);
        if !trimmed.as_str().is_empty() {
            meta.description = Some(body);
        }
    }
    let ghost before = meta@;
    match meta.single.get(DESCRIPTION) {
        Some(d) => {
            let d = d.clone();
            meta.description = Some(d);
        },
        None => {},
    }
    assert(meta@ =~= settled(before));
    meta
}

/// The value of the last header with the given key, where there is one.
pub open spec fn last_value(lines: Seq<Seq<char>>, key: Seq<char>) -> Option<Seq<char>>
    decreases lines.len(),
{
    if lines.len() == 0 {
        None
    } else if header(lines.last()) && header_key(lines.last()) == key {
        Some(header_value(lines.last()))
    } else {
        last_value(lines.drop_last(), key)
    }
}

/// The values of all headers with the given key, in their order.
pub open spec fn all_values(lines: Seq<Seq<char>>, key: Seq<char>) -> Seq<Seq<char>>
    decreases lines.len(),
{
    if lines.len() == 0 {
        Seq::empty()
    } else if header(lines.last()) && header_key(lines.last()) == key {
        all_values(lines.drop_last(), key).push(header_value(lines.last()))
    } else {
        all_values(lines.drop_last(), key)
    }
}

/// What the header block leaves under a single-valued key.
proof fn lemma_last_value(lines: Seq<Seq<char>>, key: Seq<char>)
    requires
        !multi_valued(key),
        key != DESCRIPTION@,
    ensures
        ({
            let single = after_lines(lines).meta.single;
            match last_value(lines, key) {
                Some(v) => single.contains_key(key) && single[key] == v,
                None => !single.contains_key(key),
            }
        }),
    decreases lines.len(),
{
    if lines.len() > 0 {
        lemma_last_value(lines.drop_last(), key);
    }
}

/// Of a single-valued field other than the description, the last occurrence in the header block
/// counts; a field that does not occur is absent.
pub proof fn law_last_occurrence_counts(raw: Seq<char>, key: Seq<char>)
    requires
        !multi_valued(key),
        key != DESCRIPTION@,
    ensures
        ({
            let single = core_metadata(raw).single;
            match last_value(header_lines(text::text_lines(raw)), key) {
                Some(v) => single.contains_key(key) && single[key] == v,
                None => !single.contains_key(key),
            }
        }),
{
    lemma_last_value(header_lines(text::text_lines(raw)), key);
}

/// What the header block leaves under a multi-valued key.
proof fn lemma_all_values(lines: Seq<Seq<char>>, key: Seq<char>)
    requires
        multi_valued(key),
    ensures
        ({
            let multi = after_lines(lines).meta.multi;
            &&& values_of(multi, key) == all_values(lines, key)
            &&& multi.contains_key(key) <==> all_values(lines, key).len() > 0
        }),
    decreases lines.len(),
{
    if lines.len() > 0 {
        lemma_all_values(lines.drop_last(), key);
    }
}

/// Of a multi-valued field all occurrences in the header block are collected, in their order; a
/// field that does not occur is absent.
pub proof fn law_all_occurrences_collected(raw: Seq<char>, key: Seq<char>)
    requires
        multi_valued(key),
    ensures
        values_of(core_metadata(raw).multi, key) == all_values(
            header_lines(text::text_lines(raw)),
            key,
        ),
        core_metadata(raw).multi.contains_key(key) <==> all_values(
            header_lines(text::text_lines(raw)),
            key,
        ).len() > 0,
{
    lemma_all_values(header_lines(text::text_lines(raw)), key);
}

/// A header block leaves no multi-valued key among the single-valued fields, no other key among the
/// multi-valued ones, and no description.
proof fn lemma_kinds_apart(lines: Seq<Seq<char>>)
    ensures
        forall|key: Seq<char>| #[trigger]
            after_lines(lines).meta.single.contains_key(key) ==> !multi_valued(key),
        forall|key: Seq<char>| #[trigger]
            after_lines(lines).meta.multi.contains_key(key) ==> multi_valued(key),
        after_lines(lines).meta.description is None,
    decreases lines.len(),
{
    if lines.len() > 0 {
        lemma_kinds_apart(lines.drop_last());
        reveal_strlit("Description");
        reveal_strlit("Classifier");
        reveal_strlit("Requires-Dist");
        reveal_strlit("Provides-Dist");
        reveal_strlit("Obsoletes-Dist");
        reveal_strlit("Project-URL");
        reveal_strlit("Platform");
        reveal_strlit("Supported-Platform");
        reveal_strlit("Dynamic");
        assert(!multi_valued(DESCRIPTION@)) by {
            assert(DESCRIPTION@[0] == 'D');
            assert(DESCRIPTION@[1] == 'e');
        }
    }
}

/// Single-valued and multi-valued fields are kept apart.
pub proof fn law_fields_kept_apart(raw: Seq<char>, key: Seq<char>)
    ensures
        core_metadata(raw).single.contains_key(key) ==> !multi_valued(key),
        core_metadata(raw).multi.contains_key(key) ==> multi_valued(key),
{
    lemma_kinds_apart(header_lines(text::text_lines(raw)));
}

/// The long description is that of the header, where there is one; else the text behind the blank
/// line, unless it is all white space; else there is none.
pub proof fn law_description(raw: Seq<char>)
    ensures
        ({
            let meta = core_metadata(raw);
            let lines = text::text_lines(raw);
            if meta.single.contains_key(DESCRIPTION@) {
                meta.description == Some(meta.single[DESCRIPTION@])
            } else if blank_index(lines) < lines.len() && text::trimmed(body_text(lines)).len() > 0 {
                meta.description == Some(body_text(lines))
            } else {
                meta.description is None
            }
        }),
{
    lemma_kinds_apart(header_lines(text::text_lines(raw)));
}

} // verus!
