//! Laws of core metadata: what is written down reads back.
use crate::core_metadata;
use crate::text;
use crate::text_laws;
use vstd::prelude::*;

verus! {

/// A header as it is written down: the key, the colon and the value, with white space before the key,
/// before the colon, behind it and behind the value.
pub struct Header {
    pub margin: Seq<char>,
    pub key: Seq<char>,
    pub gap: Seq<char>,
    pub lead: Seq<char>,
    pub value: Seq<char>,
    pub trail: Seq<char>,
}

/// The line that a header is written down as.
pub open spec fn line_of(h: Header) -> Seq<char> {
    h.margin + h.key + h.gap + seq![':'] + h.lead + h.value + h.trail
}

/// Whether a header is written down as one line from which it can be told: the key holds no colon,
/// neither key nor value begins or ends with white space, and the line does not begin with a space.
pub open spec fn proper_header(h: Header) -> bool {
    &&& !h.key.contains(':')
    &&& text_laws::tight(h.key)
    &&& text_laws::tight(h.value)
    &&& text_laws::blank(h.margin)
    &&& text_laws::blank(h.gap)
    &&& text_laws::blank(h.lead)
    &&& text_laws::blank(h.trail)
    &&& line_of(h)[0] != ' '
    &&& text_laws::line_text(line_of(h))
}

/// A line of a header block: a field's header, a line that continues one, with its bars and the text
/// behind them, or a line that is neither.
pub enum Line {
    Field(Header),
    Fold { bars: nat, rest: Seq<char> },
    Other(Seq<char>),
}

/// A line that continues another: a space, any number of bars, and the text.
pub open spec fn folded_line(bars: nat, rest: Seq<char>) -> Seq<char> {
    seq![' '] + Seq::new(bars, |i: int| '|') + rest
}

/// The line as it is written down.
pub open spec fn line_text(line: Line) -> Seq<char> {
    match line {
        Line::Field(h) => line_of(h),
        Line::Fold { bars, rest } => folded_line(bars, rest),
        Line::Other(t) => t,
    }
}

/// Whether the line can be told for what it is: a text behind bars begins with none, and a line that is
/// neither header nor continuation does not begin with a space, has no colon and is not blank.
pub open spec fn proper_line(line: Line) -> bool {
    &&& text_laws::line_text(line_text(line))
    &&& match line {
        Line::Field(h) => proper_header(h),
        Line::Fold { bars, rest } => rest.len() > 0 ==> rest[0] != '|',
        Line::Other(t) => t.len() > 0 && t[0] != ' ' && !t.contains(':'),
    }
}

/// Whether all lines can be told for what they are.
pub open spec fn proper_lines(lines: Seq<Line>) -> bool {
    forall|i: int| 0 <= i < lines.len() ==> proper_line(#[trigger] lines[i])
}

/// The lines as they are written down.
pub open spec fn written(lines: Seq<Line>) -> Seq<Seq<char>> {
    lines.map_values(|line: Line| line_text(line))
}

/// The fields that may occur more than once.
pub open spec fn repeatable(key: Seq<char>) -> bool {
    ||| key == "Classifier"@
    ||| key == "Requires-Dist"@
    ||| key == "Provides-Dist"@
    ||| key == "Obsoletes-Dist"@
    ||| key == "Project-URL"@
    ||| key == "Platform"@
    ||| key == "Supported-Platform"@
    ||| key == "Dynamic"@
}

/// The values of the headers with a key, in their order.
pub open spec fn values_under(lines: Seq<Line>, key: Seq<char>) -> Seq<Seq<char>>
    decreases lines.len(),
{
    if lines.len() == 0 {
        Seq::empty()
    } else {
        let before = values_under(lines.drop_last(), key);
        match lines.last() {
            Line::Field(h) => if h.key == key {
                before.push(h.value)
            } else {
                before
            },
            _ => before,
        }
    }
}

/// Whether the last header, where there is one, is a description's.
pub open spec fn describing(lines: Seq<Line>) -> bool
    decreases lines.len(),
{
    lines.len() > 0 && match lines.last() {
        Line::Field(h) => h.key == "Description"@,
        _ => describing(lines.drop_last()),
    }
}

/// The description in the headers: the value of the last one that is a description's, and behind it,
/// each on a line of its own, the texts of the lines that continue it.
pub open spec fn described(lines: Seq<Line>) -> Option<Seq<char>>
    decreases lines.len(),
{
    if lines.len() == 0 {
        None
    } else {
        let before = described(lines.drop_last());
        match lines.last() {
            Line::Field(h) => if h.key == "Description"@ {
                Some(h.value)
            } else {
                before
            },
            Line::Fold { bars, rest } => if describing(lines.drop_last()) {
                Some(before->0 + seq!['\n'] + rest)
            } else {
                before
            },
            Line::Other(_) => before,
        }
    }
}

/// The key and the value of a header can be told from its line.
proof fn lemma_header_line(h: Header)
    requires
        proper_header(h),
    ensures
        line_of(h).len() > 0,
        core_metadata::header(line_of(h)),
        !core_metadata::continuation(line_of(h)),
        core_metadata::header_key(line_of(h)) == h.key,
        core_metadata::header_value(line_of(h)) == h.value,
{
    let line = line_of(h);
    let m = h.margin.len() as int;
    let k = m + h.key.len() + h.gap.len();
    assert(line[k] == ':');
    assert(line.contains(':'));
    assert forall|j: int| 0 <= j < k implies line[j] != ':' by {
        if j < m {
            assert(line[j] == h.margin[j]);
            assert(text::white_space(h.margin[j]));
        } else if j < m + h.key.len() {
            assert(line[j] == h.key[j - m]);
            assert(h.key.contains(h.key[j - m]));
        } else {
            assert(line[j] == h.gap[j - m - h.key.len()]);
            assert(text::white_space(h.gap[j - m - h.key.len()]));
        }
    }
    text::lemma_index_of_is(line, ':', k);
    assert(line.take(k) =~= h.margin + h.key + h.gap);
    text_laws::law_trimmed(h.margin, h.key, h.gap);
    assert(line.skip(k + 1) =~= h.lead + h.value + h.trail);
    text_laws::law_trimmed(h.lead, h.value, h.trail);
}

/// A header reads back: a file that holds the line of one header, `key: value`, has that value under
/// that key and no other field. Everything behind the first colon counts, but for white space around it.
pub proof fn law_header_reads_back(key: Seq<char>, value: Seq<char>)
    requires
        !key.contains(':'),
        !key.contains('\n'),
        text_laws::tight(key),
        !value.contains('\n'),
        text_laws::tight(value),
    ensures
        ({
            let meta = core_metadata::core_metadata(key + seq![':', ' '] + value);
            if repeatable(key) {
                &&& meta.single == Map::<Seq<char>, Seq<char>>::empty()
                &&& meta.multi == Map::<Seq<char>, Seq<Seq<char>>>::empty().insert(
                    key,
                    seq![value],
                )
                &&& meta.description is None
            } else {
                &&& meta.single == Map::<Seq<char>, Seq<char>>::empty().insert(key, value)
                &&& meta.multi == Map::<Seq<char>, Seq<Seq<char>>>::empty()
                &&& meta.description == (if key == "Description"@ {
                    Some(value)
                } else {
                    None
                })
            }
        }),
{
    let none = Seq::<char>::empty();
    let h = Header { margin: none, key, gap: none, lead: seq![' '], value, trail: none };
    let raw = key + seq![':', ' '] + value;
    let line = line_of(h);
    assert(raw =~= line);
    lemma_no_line_feed(h);
    if key.len() > 0 {
        assert(line[0] == key[0]);
    } else {
        assert(line[0] == ':');
    }
    if line.last() == '\r' {
        if value.len() > 0 {
            assert(line.last() == value.last());
        } else {
            assert(line.last() == ' ');
        }
    }
    lemma_header_line(h);
    text_laws::lemma_single_line(line);
    let lines = seq![line];
    core_metadata::lemma_blank_index(lines, 1);
    assert(core_metadata::header_lines(lines) =~= lines);
    reveal_with_fuel(core_metadata::after_lines, 3);
    assert(lines.drop_last() =~= Seq::<Seq<char>>::empty());
    assert(lines.last() == line);
    let meta = core_metadata::core_metadata(raw);
    if repeatable(key) {
        core_metadata::law_fields_kept_apart(raw, "Description"@);
        assert(Seq::<Seq<char>>::empty().push(value) =~= seq![value]);
        lemma_description_is_single();
    }
}

/// The description occurs once.
proof fn lemma_description_is_single()
    ensures
        !repeatable("Description"@),
{
    reveal_strlit("Description");
    reveal_strlit("Classifier");
    reveal_strlit("Requires-Dist");
    reveal_strlit("Provides-Dist");
    reveal_strlit("Obsoletes-Dist");
    reveal_strlit("Project-URL");
    reveal_strlit("Platform");
    reveal_strlit("Supported-Platform");
    reveal_strlit("Dynamic");
    assert("Description"@[0] == 'D' && "Description"@.len() == 11);
    assert("Project-URL"@[0] == 'P');
}

/// A line made of parts without line feeds has none.
proof fn lemma_no_line_feed(h: Header)
    requires
        !h.margin.contains('\n'),
        !h.key.contains('\n'),
        !h.gap.contains('\n'),
        !h.lead.contains('\n'),
        !h.value.contains('\n'),
        !h.trail.contains('\n'),
    ensures
        !line_of(h).contains('\n'),
{
    let line = line_of(h);
    if line.contains('\n') {
        let i = choose|i: int| 0 <= i < line.len() && line[i] == '\n';
        let m = h.margin.len() as int;
        let a = m + h.key.len();
        let b = a + h.gap.len();
        let c = b + 1 + h.lead.len();
        let d = c + h.value.len();
        if i < m {
            assert(h.margin[i] == '\n');
        } else if i < a {
            assert(h.key[i - m] == '\n');
        } else if i < b {
            assert(h.gap[i - a] == '\n');
        } else if i == b {
        } else if i < c {
            assert(h.lead[i - b - 1] == '\n');
        } else if i < d {
            assert(h.value[i - c] == '\n');
        } else {
            assert(h.trail[i - d] == '\n');
        }
    }
}

/// Bars in front of a text that begins with none go.
proof fn lemma_bars(bars: nat, s: Seq<char>)
    requires
        s.len() > 0 ==> s[0] != '|',
    ensures
        text::without_leading(Seq::new(bars, |i: int| '|') + s, '|') == s,
    decreases bars,
{
    let t = Seq::new(bars, |i: int| '|') + s;
    if bars == 0 {
        assert(t =~= s);
    } else {
        lemma_bars((bars - 1) as nat, s);
        assert(t.drop_first() =~= Seq::new((bars - 1) as nat, |i: int| '|') + s);
    }
}

/// A line does what it is for.
proof fn lemma_line(line: Line)
    requires
        proper_line(line),
    ensures
        ({
            let t = line_text(line);
            &&& t.len() > 0
            &&& core_metadata::header(t) <==> line is Field
            &&& core_metadata::continuation(t) <==> line is Fold
            &&& line matches Line::Field(h) ==> core_metadata::header_key(t) == h.key
                && core_metadata::header_value(t) == h.value
            &&& line matches Line::Fold { bars, rest } ==> text::without_leading(t.skip(1), '|')
                == rest
        }),
{
    match line {
        Line::Field(h) => {
            lemma_header_line(h);
        },
        Line::Fold { bars, rest } => {
            let t = folded_line(bars, rest);
            assert(t.skip(1) =~= Seq::new(bars, |i: int| '|') + rest);
            lemma_bars(bars, rest);
        },
        Line::Other(t) => {},
    }
}

/// What a block of lines leaves of the description.
proof fn lemma_described(lines: Seq<Line>)
    requires
        proper_lines(lines),
    ensures
        ({
            let st = core_metadata::after_lines(written(lines));
            &&& st.meta.description is None
            &&& !st.meta.multi.contains_key("Description"@)
            &&& st.last_key == Some("Description"@) <==> describing(lines)
            &&& describing(lines) ==> described(lines) is Some
            &&& st.meta.single.contains_key("Description"@) <==> described(lines) is Some
            &&& described(lines) matches Some(d) ==> st.meta.single["Description"@] == d
        }),
    decreases lines.len(),
{
    if lines.len() > 0 {
        let front = lines.drop_last();
        let line = lines[lines.len() - 1];
        assert(proper_line(line));
        assert forall|i: int| 0 <= i < front.len() implies proper_line(#[trigger] front[i]) by {
            assert(front[i] == lines[i]);
        }
        lemma_described(front);
        lemma_line(line);
        lemma_description_is_single();
        assert(written(lines).drop_last() =~= written(front));
        assert(written(lines).last() == line_text(line));
    }
}

/// What a block of lines leaves under a key.
proof fn lemma_values(lines: Seq<Line>, key: Seq<char>)
    requires
        proper_lines(lines),
        key != "Description"@,
    ensures
        ({
            let st = core_metadata::after_lines(written(lines));
            let values = values_under(lines, key);
            if repeatable(key) {
                &&& !st.meta.single.contains_key(key)
                &&& st.meta.multi.contains_key(key) <==> values.len() > 0
                &&& values.len() > 0 ==> st.meta.multi[key] == values
            } else {
                &&& !st.meta.multi.contains_key(key)
                &&& st.meta.single.contains_key(key) <==> values.len() > 0
                &&& values.len() > 0 ==> st.meta.single[key] == values.last()
            }
        }),
    decreases lines.len(),
{
    if lines.len() > 0 {
        let front = lines.drop_last();
        let line = lines[lines.len() - 1];
        assert(proper_line(line));
        assert forall|i: int| 0 <= i < front.len() implies proper_line(#[trigger] front[i]) by {
            assert(front[i] == lines[i]);
        }
        lemma_values(front, key);
        lemma_line(line);
        assert(written(lines).drop_last() =~= written(front));
        assert(written(lines).last() == line_text(line));
        let before = core_metadata::after_lines(written(front)).meta;
        if repeatable(key) {
            assert(core_metadata::values_of(before.multi, key) =~= values_under(front, key));
        }
    }
}

/// Where the header block of a file ends.
proof fn lemma_block(lines: Seq<Line>, back: Seq<char>)
    requires
        proper_lines(lines),
        back.len() == 0 || back[0] == '\n',
    ensures
        ({
            let raw = text_laws::with_line_feeds(written(lines)) + back;
            let all = text::text_lines(raw);
            &&& all == written(lines) + text::text_lines(back)
            &&& core_metadata::blank_index(all) == lines.len()
            &&& core_metadata::header_lines(all) == written(lines)
            &&& back.len() > 0 ==> lines.len() < all.len() && all.skip(lines.len() as int + 1)
                == text::text_lines(back.skip(1))
            &&& back.len() == 0 ==> lines.len() == all.len()
        }),
{
    let block = written(lines);
    let raw = text_laws::with_line_feeds(block) + back;
    let all = text::text_lines(raw);
    assert forall|i: int| 0 <= i < lines.len() implies (#[trigger] block[i]).len() > 0
        && text_laws::line_text(block[i]) by {
        assert(proper_line(lines[i]));
        lemma_line(lines[i]);
    }
    text_laws::law_lines(block, back);
    let n = lines.len() as int;
    assert forall|j: int| 0 <= j < n implies (#[trigger] all[j]).len() > 0 by {
        assert(all[j] == block[j]);
    }
    if back.len() > 0 {
        text::lemma_index_of_is(back, '\n', 0);
        assert(back.take(0) =~= Seq::<char>::empty());
        assert(text::text_lines(back) == seq![Seq::<char>::empty()] + text::text_lines(
            back.skip(1),
        ));
        assert(all[n] == text::text_lines(back)[0]);
        assert(all.skip(n + 1) =~= text::text_lines(back.skip(1)));
    }
    core_metadata::lemma_blank_index(all, n);
    assert(core_metadata::header_lines(all) =~= block);
}

/// Headers read back, however many there are: of a field that may be repeated all values are there, in
/// their order; of any other field the last one is; and a field that does not occur is not there. Lines
/// that continue a header or are none make no difference to this, and neither does what follows on a
/// blank line. The description is a matter of its own.
pub proof fn law_headers_read_back(lines: Seq<Line>, back: Seq<char>, key: Seq<char>)
    requires
        proper_lines(lines),
        back.len() == 0 || back[0] == '\n',
        key != "Description"@,
    ensures
        ({
            let raw = text_laws::with_line_feeds(written(lines)) + back;
            let meta = core_metadata::core_metadata(raw);
            let values = values_under(lines, key);
            if repeatable(key) {
                &&& !meta.single.contains_key(key)
                &&& meta.multi.contains_key(key) <==> values.len() > 0
                &&& values.len() > 0 ==> meta.multi[key] == values
            } else {
                &&& !meta.multi.contains_key(key)
                &&& meta.single.contains_key(key) <==> values.len() > 0
                &&& values.len() > 0 ==> meta.single[key] == values.last()
            }
        }),
{
    lemma_block(lines, back);
    lemma_values(lines, key);
}

/// A description in the headers reads back, with the lines that continue it, and goes before one behind
/// the blank line; where there is none, and nothing behind the headers, there is no description.
pub proof fn law_description_reads_back(lines: Seq<Line>, back: Seq<char>)
    requires
        proper_lines(lines),
        back.len() == 0 || back[0] == '\n',
    ensures
        ({
            let raw = text_laws::with_line_feeds(written(lines)) + back;
            let meta = core_metadata::core_metadata(raw);
            &&& described(lines) is Some ==> meta.description == described(lines)
            &&& described(lines) is None && back.len() == 0 ==> meta.description is None
            &&& described(lines) matches Some(d) ==> meta.single.contains_key("Description"@)
                && meta.single["Description"@] == d
            &&& described(lines) is None ==> !meta.single.contains_key("Description"@)
        }),
{
    lemma_block(lines, back);
    lemma_described(lines);
}

/// The long description reads back: lines behind the blank line that ends the headers, joined by line
/// feeds, are the description, where the headers hold none, unless they are all white space.
pub proof fn law_body_reads_back(lines: Seq<Line>, body_lines: Seq<Seq<char>>, body: Seq<char>)
    requires
        proper_lines(lines),
        described(lines) is None,
        body_lines.len() > 0,
        forall|i: int| 0 <= i < body_lines.len() ==> text_laws::line_text(#[trigger] body_lines[i]),
        body_lines.last().len() > 0,
        body == text::joined(body_lines, seq!['\n']),
    ensures
        ({
            let raw = text_laws::with_line_feeds(written(lines)) + seq!['\n'] + body;
            core_metadata::core_metadata(raw).description == (if text_laws::blank(body) {
                None
            } else {
                Some(body)
            })
        }),
{
    reveal_strlit("\n");
    let back = seq!['\n'] + body;
    let block = text_laws::with_line_feeds(written(lines));
    assert(block + seq!['\n'] + body =~= block + back);
    lemma_block(lines, back);
    assert(back.skip(1) =~= body);
    text_laws::law_lines_of_joined(body_lines);
    assert("\n"@ =~= seq!['\n']);
    if text_laws::blank(body) {
        let none = Seq::<char>::empty();
        text_laws::law_trimmed(body, none, none);
        assert(body + none + none =~= body);
    } else {
        lemma_trimmed_kept(body);
    }
    lemma_described(lines);
}

/// A text that is not all white space is not empty when it is trimmed.
proof fn lemma_trimmed_kept(s: Seq<char>)
    requires
        !text_laws::blank(s),
    ensures
        text::trimmed(s).len() > 0,
{
    let i = choose|i: int| 0 <= i < s.len() && !text::white_space(#[trigger] s[i]);
    lemma_trimmed_start_kept(s, i);
    lemma_trimmed_end_kept(text::trimmed_start(s));
}

/// Taking white space off the front stops at a character that is none.
proof fn lemma_trimmed_start_kept(s: Seq<char>, i: int)
    requires
        0 <= i < s.len(),
        !text::white_space(s[i]),
    ensures
        text::trimmed_start(s).len() > 0,
        !text::white_space(text::trimmed_start(s)[0]),
    decreases s.len(),
{
    if text::white_space(s[0]) {
        assert(s.drop_first()[i - 1] == s[i]);
        lemma_trimmed_start_kept(s.drop_first(), i - 1);
    }
}

/// Taking white space off the end stops at a character that is none.
proof fn lemma_trimmed_end_kept(s: Seq<char>)
    requires
        s.len() > 0,
        !text::white_space(s[0]),
    ensures
        text::trimmed_end(s).len() > 0,
    decreases s.len(),
{
    if text::white_space(s.last()) {
        assert(s.drop_last()[0] == s[0]);
        lemma_trimmed_end_kept(s.drop_last());
    }
}

} // verus!
