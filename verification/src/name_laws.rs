//! Laws of project names and file names.
use crate::paths;
use crate::patterns;
use crate::pypi_push;
use crate::storage;
use crate::text;
use crate::text_laws;
use vstd::prelude::*;

verus! {

/// Collapsing leaves no separator but the dash, and no two dashes in a row.
proof fn lemma_collapsed_shape(s: Seq<char>)
    ensures
        s.len() > 0 ==> patterns::collapsed(s).len() > 0,
        s.len() > 0 ==> (patterns::separator(s.last()) <==> patterns::collapsed(s).last() == '-'),
        forall|i: int|
            0 <= i < patterns::collapsed(s).len() ==> #[trigger] patterns::collapsed(s)[i] != '_'
                && patterns::collapsed(s)[i] != '.',
        forall|i: int|
            0 <= i < patterns::collapsed(s).len() - 1 ==> !(#[trigger] patterns::collapsed(s)[i]
                == '-' && patterns::collapsed(s)[i + 1] == '-'),
    decreases s.len(),
{
    if s.len() > 0 {
        let t = s.drop_last();
        let c = patterns::collapsed(t);
        let d = patterns::collapsed(s);
        lemma_collapsed_shape(t);
        if s.len() > 1 {
            assert(t.last() == s[s.len() - 2]);
        }
        assert forall|i: int| 0 <= i < d.len() - 1 implies !(#[trigger] d[i] == '-' && d[i + 1]
            == '-') by {
            assert(d[i] == c[i]);
            if i + 1 < c.len() {
                assert(d[i + 1] == c[i + 1]);
            } else {
                assert(c.last() == c[i]);
            }
        }
    }
}

/// A text without separators but the dash, and without two dashes in a row, collapses to itself.
proof fn lemma_collapsed_fixed(s: Seq<char>)
    requires
        forall|i: int| 0 <= i < s.len() ==> #[trigger] s[i] != '_' && s[i] != '.',
        forall|i: int| 0 <= i < s.len() - 1 ==> !(#[trigger] s[i] == '-' && s[i + 1] == '-'),
    ensures
        patterns::collapsed(s) == s,
    decreases s.len(),
{
    if s.len() > 0 {
        let t = s.drop_last();
        assert forall|i: int| 0 <= i < t.len() - 1 implies !(#[trigger] t[i] == '-' && t[i + 1]
            == '-') by {
            assert(s[i] == t[i] && s[i + 1] == t[i + 1]);
        }
        assert forall|i: int| 0 <= i < t.len() implies #[trigger] t[i] != '_' && t[i] != '.' by {
            assert(s[i] == t[i]);
        }
        lemma_collapsed_fixed(t);
        assert(s.last() == s[s.len() - 1]);
        if s.len() > 1 {
            assert(!(s[s.len() - 2] == '-' && s[s.len() - 2 + 1] == '-'));
        }
        assert(t.push(s.last()) =~= s);
    }
}

/// Collapsing an ASCII text gives an ASCII text.
proof fn lemma_collapsed_ascii(s: Seq<char>)
    requires
        vstd::utf8::is_ascii_chars(s),
    ensures
        vstd::utf8::is_ascii_chars(patterns::collapsed(s)),
    decreases s.len(),
{
    if s.len() > 0 {
        assert(vstd::utf8::is_ascii_chars(s.drop_last()));
        lemma_collapsed_ascii(s.drop_last());
    }
}

/// What a name is before its letters are put in lower case, whatever its characters are: there is no
/// separator but the dash in it, no two dashes stand in a row, and collapsing it again changes nothing.
pub proof fn law_collapsed_form(name: Seq<char>)
    ensures
        storage::normalized(name) == text::lowered(patterns::collapsed(name)),
        forall|i: int|
            0 <= i < patterns::collapsed(name).len() ==> #[trigger] patterns::collapsed(name)[i]
                != '_' && patterns::collapsed(name)[i] != '.',
        forall|i: int|
            0 <= i < patterns::collapsed(name).len() - 1 ==> !(
            #[trigger] patterns::collapsed(name)[i] == '-' && patterns::collapsed(name)[i + 1]
                == '-'),
        patterns::collapsed(patterns::collapsed(name)) == patterns::collapsed(name),
{
    lemma_collapsed_shape(name);
    lemma_collapsed_fixed(patterns::collapsed(name));
}

/// The normal form of an ASCII name is an ASCII name without capital letters, without separators
/// but the dash, and without two dashes in a row.
pub proof fn law_normal_form(name: Seq<char>)
    requires
        vstd::utf8::is_ascii_chars(name),
    ensures
        vstd::utf8::is_ascii_chars(storage::normalized(name)),
        forall|i: int|
            0 <= i < storage::normalized(name).len() ==> {
                let c = #[trigger] storage::normalized(name)[i];
                &&& c != '_'
                &&& c != '.'
                &&& !('A' <= c <= 'Z')
            },
        forall|i: int|
            0 <= i < storage::normalized(name).len() - 1 ==> !(
            #[trigger] storage::normalized(name)[i] == '-' && storage::normalized(name)[i + 1] == '-'),
{
    let c = patterns::collapsed(name);
    let n = storage::normalized(name);
    lemma_collapsed_shape(name);
    lemma_collapsed_ascii(name);
    assert forall|i: int| 0 <= i < n.len() implies {
        let d = #[trigger] n[i];
        &&& d != '_'
        &&& d != '.'
        &&& !('A' <= d <= 'Z')
        &&& (d == '-' <==> c[i] == '-')
        &&& (d as u32) < 128
    } by {
        assert(n[i] == text::ascii_lower(c[i]));
        assert(c[i] != '_' && c[i] != '.');
    }
    assert forall|i: int| 0 <= i < n.len() - 1 implies !(#[trigger] n[i] == '-' && n[i + 1] == '-') by {
        assert(!(c[i] == '-' && c[i + 1] == '-'));
        assert(n[i] == n[i] && n[i + 1] == n[i + 1]);
    }
}

/// The normal form of an ASCII name is its own normal form.
pub proof fn law_normalizing_twice(name: Seq<char>)
    requires
        vstd::utf8::is_ascii_chars(name),
    ensures
        storage::normalized(storage::normalized(name)) == storage::normalized(name),
{
    let n = storage::normalized(name);
    law_normal_form(name);
    assert forall|i: int| 0 <= i < n.len() implies #[trigger] n[i] != '_' && n[i] != '.' by {
        let c = n[i];
    }
    lemma_collapsed_fixed(n);
    assert forall|i: int| 0 <= i < n.len() implies text::ascii_lower(#[trigger] n[i]) == n[i] by {
        let c = n[i];
    }
    assert(storage::normalized(n) =~= n);
}

/// One separator is as good as another: names with separators in the same places, and the same
/// characters elsewhere, have the same normal form.
pub proof fn law_separators_alike(a: Seq<char>, b: Seq<char>)
    requires
        a.len() == b.len(),
        forall|i: int|
            0 <= i < a.len() ==> #[trigger] a[i] == b[i] || (patterns::separator(a[i])
                && patterns::separator(b[i])),
    ensures
        storage::normalized(a) == storage::normalized(b),
{
    lemma_collapsed_alike(a, b);
}

/// Names with separators in the same places, and the same characters elsewhere, collapse alike.
proof fn lemma_collapsed_alike(a: Seq<char>, b: Seq<char>)
    requires
        a.len() == b.len(),
        forall|i: int|
            0 <= i < a.len() ==> #[trigger] a[i] == b[i] || (patterns::separator(a[i])
                && patterns::separator(b[i])),
    ensures
        patterns::collapsed(a) == patterns::collapsed(b),
    decreases a.len(),
{
    if a.len() > 0 {
        let x = a.drop_last();
        let y = b.drop_last();
        assert forall|i: int| 0 <= i < x.len() implies #[trigger] x[i] == y[i] || (
        patterns::separator(x[i]) && patterns::separator(y[i])) by {
            assert(a[i] == x[i]);
        }
        lemma_collapsed_alike(x, y);
        assert(a.last() == a[a.len() - 1]);
        if a.len() > 1 {
            assert(a[a.len() - 2] == x.last());
        }
    } else {
        assert(a =~= b);
    }
}

/// The length of a run of separators does not matter: a separator behind another can go.
pub proof fn law_separator_runs(front: Seq<char>, c: char, d: char, back: Seq<char>)
    requires
        patterns::separator(c),
        patterns::separator(d),
    ensures
        storage::normalized(front.push(c).push(d) + back) == storage::normalized(
            front.push(c) + back,
        ),
{
    lemma_collapsed_run(front, c, d, back);
}

/// A separator behind another makes no difference to collapsing.
proof fn lemma_collapsed_run(front: Seq<char>, c: char, d: char, back: Seq<char>)
    requires
        patterns::separator(c),
        patterns::separator(d),
    ensures
        patterns::collapsed(front.push(c).push(d) + back) == patterns::collapsed(
            front.push(c) + back,
        ),
    decreases back.len(),
{
    let a = front.push(c).push(d) + back;
    let b = front.push(c) + back;
    if back.len() == 0 {
        assert(a.drop_last() =~= front.push(c));
        assert(b =~= front.push(c));
    } else {
        lemma_collapsed_run(front, c, d, back.drop_last());
        assert(a.drop_last() =~= front.push(c).push(d) + back.drop_last());
        assert(b.drop_last() =~= front.push(c) + back.drop_last());
        assert(a.last() == back.last() && b.last() == back.last());
        if back.len() == 1 {
            assert(a[a.len() - 2] == d);
            assert(b[b.len() - 2] == c);
        } else {
            assert(a[a.len() - 2] == back[back.len() - 2]);
            assert(b[b.len() - 2] == back[back.len() - 2]);
        }
    }
}

/// The case of letters does not matter: ASCII names that differ in it alone have the same normal
/// form.
pub proof fn law_case_ignored(a: Seq<char>, b: Seq<char>)
    requires
        vstd::utf8::is_ascii_chars(a),
        vstd::utf8::is_ascii_chars(b),
        a.len() == b.len(),
        forall|i: int|
            0 <= i < a.len() ==> text::ascii_lower(#[trigger] a[i]) == text::ascii_lower(b[i]),
    ensures
        storage::normalized(a) == storage::normalized(b),
{
    lemma_collapsed_ascii(a);
    lemma_collapsed_ascii(b);
    lemma_collapsed_case(a, b);
    assert(storage::normalized(a) =~= storage::normalized(b));
}

/// Names that differ in the case of letters alone collapse to names that do.
proof fn lemma_collapsed_case(a: Seq<char>, b: Seq<char>)
    requires
        a.len() == b.len(),
        forall|i: int|
            0 <= i < a.len() ==> text::ascii_lower(#[trigger] a[i]) == text::ascii_lower(b[i]),
    ensures
        patterns::collapsed(a).len() == patterns::collapsed(b).len(),
        forall|i: int|
            0 <= i < patterns::collapsed(a).len() ==> text::ascii_lower(
                #[trigger] patterns::collapsed(a)[i],
            ) == text::ascii_lower(patterns::collapsed(b)[i]),
    decreases a.len(),
{
    if a.len() > 0 {
        let x = a.drop_last();
        let y = b.drop_last();
        assert forall|i: int| 0 <= i < x.len() implies text::ascii_lower(#[trigger] x[i])
            == text::ascii_lower(y[i]) by {
            assert(a[i] == x[i]);
        }
        lemma_collapsed_case(x, y);
        lemma_lower_separator(a[a.len() - 1], b[a.len() - 1]);
        if a.len() > 1 {
            lemma_lower_separator(a[a.len() - 2], b[a.len() - 2]);
        }
    }
}

/// Of two characters that differ in case alone, both are separators or neither is.
proof fn lemma_lower_separator(c: char, d: char)
    requires
        text::ascii_lower(c) == text::ascii_lower(d),
    ensures
        patterns::separator(c) == patterns::separator(d),
        patterns::separator(c) ==> c == d,
{
}

/// A name taken apart: its words, and the runs of separators between them.
pub struct Spelling {
    pub words: Seq<Seq<char>>,
    pub runs: Seq<Seq<char>>,
}

/// Whether a text is a run of separators: not empty, and nothing but separators.
pub open spec fn separator_run(run: Seq<char>) -> bool {
    run.len() > 0 && forall|i: int| 0 <= i < run.len() ==> patterns::separator(#[trigger] run[i])
}

/// Whether there is a run of separators between any two neighbouring words. A word may be empty, so
/// that a name can begin or end with a run.
pub open spec fn proper_spelling(s: Spelling) -> bool {
    &&& s.words.len() == s.runs.len() + 1
    &&& forall|i: int| 0 <= i < s.runs.len() ==> separator_run(#[trigger] s.runs[i])
}

/// The name that is spelled.
pub open spec fn spelled(words: Seq<Seq<char>>, runs: Seq<Seq<char>>) -> Seq<char>
    decreases words.len(),
{
    if words.len() == 0 {
        Seq::empty()
    } else if words.len() == 1 {
        words[0]
    } else {
        spelled(words.drop_last(), runs.drop_last()) + runs.last() + words.last()
    }
}

/// Whether two texts differ in the case of letters alone.
pub open spec fn same_letters(a: Seq<char>, b: Seq<char>) -> bool {
    a.len() == b.len() && forall|i: int|
        0 <= i < a.len() ==> text::ascii_lower(#[trigger] a[i]) == text::ascii_lower(b[i])
}

/// Every spelling of a name has the same normal form: ASCII names that differ only in the case of
/// letters, and in which run of separators stands at each place where there is one, are the same name.
pub proof fn law_spellings_alike(x: Spelling, y: Spelling)
    requires
        proper_spelling(x),
        proper_spelling(y),
        x.words.len() == y.words.len(),
        forall|i: int| 0 <= i < x.words.len() ==> same_letters(#[trigger] x.words[i], y.words[i]),
        vstd::utf8::is_ascii_chars(spelled(x.words, x.runs)),
        vstd::utf8::is_ascii_chars(spelled(y.words, y.runs)),
    ensures
        storage::normalized(spelled(x.words, x.runs)) == storage::normalized(
            spelled(y.words, y.runs),
        ),
{
    let a = spelled(x.words, x.runs);
    let b = spelled(y.words, y.runs);
    let n = x.runs.len();
    let none = Seq::<char>::empty();
    lemma_spelled_with_dashes(x.words, x.runs, none);
    lemma_spelled_with_dashes(y.words, y.runs, none);
    let c = spelled(x.words, dashes(n));
    let d = spelled(y.words, dashes(n));
    assert(a + none =~= a && b + none =~= b && c + none =~= c && d + none =~= d);
    lemma_spelled_letters(x.words, y.words);
    lemma_collapsed_case(c, d);
    lemma_collapsed_ascii(a);
    lemma_collapsed_ascii(b);
    assert(storage::normalized(a) =~= storage::normalized(b));
}

/// Runs of one dash each.
spec fn dashes(n: nat) -> Seq<Seq<char>> {
    Seq::new(n, |i: int| seq!['-'])
}

/// Collapsing makes no difference between a run of separators and a dash.
proof fn lemma_collapsed_one_run(front: Seq<char>, run: Seq<char>, back: Seq<char>)
    requires
        separator_run(run),
    ensures
        patterns::collapsed(front + run + back) == patterns::collapsed(front + seq!['-'] + back),
    decreases run.len(),
{
    assert(patterns::separator(run[0]));
    if run.len() == 1 {
        let a = front + run + back;
        let b = front + seq!['-'] + back;
        assert forall|i: int| 0 <= i < a.len() implies #[trigger] a[i] == b[i] || (
        patterns::separator(a[i]) && patterns::separator(b[i])) by {}
        lemma_collapsed_alike(a, b);
    } else {
        let n = run.len() as int;
        let shorter = run.drop_last();
        assert(patterns::separator(run[n - 2]) && patterns::separator(run[n - 1]));
        assert forall|i: int| 0 <= i < shorter.len() implies patterns::separator(
            #[trigger] shorter[i],
        ) by {
            assert(shorter[i] == run[i]);
        }
        let base = front + run.take(n - 2);
        lemma_collapsed_run(base, run[n - 2], run[n - 1], back);
        assert(base.push(run[n - 2]).push(run[n - 1]) + back =~= front + run + back);
        assert(base.push(run[n - 2]) + back =~= front + shorter + back);
        lemma_collapsed_one_run(front, shorter, back);
    }
}

/// Collapsing makes no difference between a spelling and the one with dashes.
proof fn lemma_spelled_with_dashes(
    words: Seq<Seq<char>>,
    runs: Seq<Seq<char>>,
    back: Seq<char>,
)
    requires
        words.len() == runs.len() + 1,
        forall|i: int| 0 <= i < runs.len() ==> separator_run(#[trigger] runs[i]),
    ensures
        patterns::collapsed(spelled(words, runs) + back) == patterns::collapsed(
            spelled(words, dashes(runs.len())) + back,
        ),
    decreases words.len(),
{
    if words.len() > 1 {
        let n = runs.len();
        let w = words.drop_last();
        let r = runs.drop_last();
        let front = spelled(w, r);
        let plain = spelled(w, dashes(r.len()));
        let dash = seq!['-'];
        let rest = words.last() + back;
        assert(separator_run(runs[n - 1]));
        assert forall|i: int| 0 <= i < r.len() implies separator_run(#[trigger] r[i]) by {
            assert(r[i] == runs[i]);
        }
        assert(spelled(words, runs) + back =~= front + runs.last() + rest);
        lemma_collapsed_one_run(front, runs.last(), rest);
        assert(front + dash + rest =~= front + (dash + rest));
        lemma_spelled_with_dashes(w, r, dash + rest);
        assert(dashes(n).drop_last() =~= dashes(r.len()));
        assert(dashes(n).last() == dash);
        assert(spelled(words, dashes(n)) + back =~= plain + (dash + rest));
    } else {
        assert(words.len() == 1);
    }
}

/// Spellings with dashes of words that differ in the case of letters alone do so themselves.
proof fn lemma_spelled_letters(a: Seq<Seq<char>>, b: Seq<Seq<char>>)
    requires
        a.len() == b.len(),
        a.len() > 0,
        forall|i: int| 0 <= i < a.len() ==> same_letters(#[trigger] a[i], b[i]),
    ensures
        same_letters(
            spelled(a, dashes((a.len() - 1) as nat)),
            spelled(b, dashes((b.len() - 1) as nat)),
        ),
    decreases a.len(),
{
    let n = (a.len() - 1) as nat;
    assert(same_letters(a[n as int], b[n as int]));
    if a.len() > 1 {
        let x = a.drop_last();
        let y = b.drop_last();
        assert forall|i: int| 0 <= i < x.len() implies same_letters(#[trigger] x[i], y[i]) by {
            assert(x[i] == a[i] && y[i] == b[i]);
        }
        lemma_spelled_letters(x, y);
        assert(dashes(n).drop_last() =~= dashes((n - 1) as nat));
        assert(dashes(n).last() == seq!['-']);
        let p = spelled(x, dashes((n - 1) as nat));
        let q = spelled(y, dashes((n - 1) as nat));
        let c = spelled(a, dashes(n));
        let d = spelled(b, dashes(n));
        assert(c == p + seq!['-'] + a.last());
        assert(d == q + seq!['-'] + b.last());
        assert forall|i: int| 0 <= i < c.len() implies text::ascii_lower(#[trigger] c[i])
            == text::ascii_lower(d[i]) by {
            if i < p.len() {
                assert(c[i] == p[i] && d[i] == q[i]);
            } else if i > p.len() {
                let k = i - p.len() - 1;
                assert(c[i] == a.last()[k] && d[i] == b.last()[k]);
            }
        }
    }
}

/// A letter from `A` to `Z` in lower case, 32 places behind it; any other character as it is.
pub open spec fn small(c: char) -> char {
    if 'A' <= c && c <= 'Z' {
        ((c as u32) + 32) as char
    } else {
        c
    }
}

/// A word with its letters in lower case.
pub open spec fn small_word(word: Seq<char>) -> Seq<char> {
    word.map_values(|c: char| small(c))
}

/// Whether a text is a word of a name: it holds no separator.
pub open spec fn plain_word(word: Seq<char>) -> bool {
    !word.contains('-') && !word.contains('_') && !word.contains('.')
}

/// The normal form of a name, whatever its characters are, is that of its words, all of them and in
/// their order, with one dash where there was a run of separators, in lower case.
pub proof fn law_words_kept(s: Spelling)
    requires
        proper_spelling(s),
        forall|i: int| 0 <= i < s.words.len() ==> plain_word(#[trigger] s.words[i]),
        forall|i: int| 0 < i < s.words.len() - 1 ==> (#[trigger] s.words[i]).len() > 0,
    ensures
        storage::normalized(spelled(s.words, s.runs)) == text::lowered(
            text::joined(s.words, seq!['-']),
        ),
        patterns::collapsed(spelled(s.words, s.runs)) == text::joined(s.words, seq!['-']),
{
    let name = spelled(s.words, s.runs);
    let none = Seq::<char>::empty();
    let plain = text::joined(s.words, seq!['-']);
    lemma_spelled_with_dashes(s.words, s.runs, none);
    assert(name + none =~= name);
    lemma_spelled_joined(s.words);
    assert(spelled(s.words, dashes(s.runs.len())) + none =~= plain);
    lemma_joined_words(s.words);
    lemma_collapsed_fixed(plain);
}

/// The normal form of an ASCII name is its words, all of them, in lower case and in their order, with
/// one dash where there was a run of separators.
pub proof fn law_normal_form_of_words(s: Spelling)
    requires
        proper_spelling(s),
        vstd::utf8::is_ascii_chars(spelled(s.words, s.runs)),
        forall|i: int| 0 <= i < s.words.len() ==> plain_word(#[trigger] s.words[i]),
        forall|i: int| 0 < i < s.words.len() - 1 ==> (#[trigger] s.words[i]).len() > 0,
    ensures
        storage::normalized(spelled(s.words, s.runs)) == text::joined(
            s.words.map_values(|word: Seq<char>| small_word(word)),
            seq!['-'],
        ),
{
    let plain = text::joined(s.words, seq!['-']);
    law_words_kept(s);
    lemma_collapsed_ascii(spelled(s.words, s.runs));
    lemma_joined_small(s.words);
    assert(text::lowered(plain) =~= small_word(plain));
}

/// Words spelled with dashes are words joined by dashes.
proof fn lemma_spelled_joined(words: Seq<Seq<char>>)
    requires
        words.len() > 0,
    ensures
        spelled(words, dashes((words.len() - 1) as nat)) == text::joined(words, seq!['-']),
    decreases words.len(),
{
    if words.len() > 1 {
        let n = (words.len() - 1) as nat;
        lemma_spelled_joined(words.drop_last());
        assert(dashes(n).drop_last() =~= dashes((n - 1) as nat));
        assert(dashes(n).last() == seq!['-']);
    }
}

/// Words joined by dashes hold no other separator, and no two dashes in a row.
proof fn lemma_joined_words(words: Seq<Seq<char>>)
    requires
        words.len() > 0,
        forall|i: int| 0 <= i < words.len() ==> plain_word(#[trigger] words[i]),
        forall|i: int| 0 < i < words.len() - 1 ==> (#[trigger] words[i]).len() > 0,
    ensures
        ({
            let s = text::joined(words, seq!['-']);
            &&& forall|i: int| 0 <= i < s.len() ==> #[trigger] s[i] != '_' && s[i] != '.'
            &&& forall|i: int|
                0 <= i < s.len() - 1 ==> !(#[trigger] s[i] == '-' && s[i + 1] == '-')
            &&& words.last().len() > 0 ==> s.len() > 0 && s.last() != '-'
            &&& words.len() == 1 ==> s == words[0]
        }),
    decreases words.len(),
{
    let s = text::joined(words, seq!['-']);
    let last = words[words.len() - 1];
    assert(plain_word(last));
    assert forall|i: int| 0 <= i < last.len() implies #[trigger] last[i] != '_' && last[i] != '.'
        && last[i] != '-' by {
        assert(last.contains(last[i]));
    }
    if words.len() > 1 {
        let front = words.drop_last();
        assert forall|i: int| 0 <= i < front.len() implies plain_word(#[trigger] front[i]) by {
            assert(front[i] == words[i]);
        }
        assert forall|i: int| 0 < i < front.len() - 1 implies (#[trigger] front[i]).len() > 0 by {
            assert(front[i] == words[i]);
        }
        lemma_joined_words(front);
        let a = text::joined(front, seq!['-']);
        let n = a.len() as int;
        if front.len() > 1 {
            assert(words[words.len() - 2].len() > 0);
            assert(front.last() == words[words.len() - 2]);
        } else {
            let w = front[0];
            assert(plain_word(w));
            if w.len() > 0 {
                assert(w.contains(w.last()));
            }
        }
        assert(n > 0 ==> a.last() != '-');
        assert(s =~= a + seq!['-'] + last);
        assert forall|i: int| 0 <= i < s.len() implies #[trigger] s[i] != '_' && s[i] != '.' by {
            if i > n {
                assert(s[i] == last[i - n - 1]);
            }
        }
        assert forall|i: int| 0 <= i < s.len() - 1 implies !(#[trigger] s[i] == '-' && s[i + 1]
            == '-') by {
            if i + 1 < n {
                assert(s[i] == a[i] && s[i + 1] == a[i + 1]);
            } else if i + 1 == n {
                assert(s[i] == a.last());
            } else {
                assert(s[i + 1] == last[i - n]);
            }
        }
    }
}

/// Putting letters in lower case goes word by word.
proof fn lemma_joined_small(words: Seq<Seq<char>>)
    ensures
        small_word(text::joined(words, seq!['-'])) == text::joined(
            words.map_values(|word: Seq<char>| small_word(word)),
            seq!['-'],
        ),
    decreases words.len(),
{
    let lower = words.map_values(|word: Seq<char>| small_word(word));
    if words.len() > 1 {
        lemma_joined_small(words.drop_last());
        assert(lower.drop_last() =~= words.drop_last().map_values(
            |word: Seq<char>| small_word(word),
        ));
        assert(lower.last() == small_word(words.last()));
    }
    assert(small_word(text::joined(words, seq!['-'])) =~= text::joined(lower, seq!['-']));
}

/// Cutting at the first separator: it takes off a piece that holds none.
proof fn lemma_pieces_front(front: Seq<char>, c: char, back: Seq<char>)
    requires
        !front.contains(c),
    ensures
        text::pieces(front.push(c) + back, c) == seq![front] + text::pieces(back, c),
{
    let s = front.push(c) + back;
    let k = front.len() as int;
    assert(s[k] == c);
    assert forall|j: int| 0 <= j < k implies s[j] != c by {
        assert(s[j] == front[j]);
    }
    text::lemma_index_of_is(s, c, k);
    assert(s.take(k) =~= front);
    assert(s.skip(k + 1) =~= back);
}

/// A text without the separator is one piece.
proof fn lemma_pieces_single(s: Seq<char>, c: char)
    requires
        !s.contains(c),
    ensures
        text::pieces(s, c) == seq![s],
{
    text::lemma_index_of(s, c);
}

/// The file name of a wheel, as the wheel format puts it together.
pub open spec fn wheel_file(
    name: Seq<char>,
    version: Seq<char>,
    build: Option<Seq<char>>,
    python: Seq<char>,
    abi: Seq<char>,
    platform: Seq<char>,
) -> Seq<char> {
    let front = name.push('-') + version;
    let numbered = match build {
        Some(b) => front.push('-') + b,
        None => front,
    };
    (numbered.push('-') + python).push('-') + abi.push('-') + platform + ".whl"@
}

/// Whether a text can be a part of a wheel's file name: not empty, and without a dash.
pub open spec fn wheel_part(t: Seq<char>) -> bool {
    t.len() > 0 && !t.contains('-')
}

/// The name and the version of a wheel can be read off its file name: for parts as the wheel format
/// has them, the version and the build beginning with a digit, what was put together is what is
/// guessed. The build counts as part of the version.
pub proof fn law_wheel_file_read_back(
    name: Seq<char>,
    version: Seq<char>,
    build: Option<Seq<char>>,
    python: Seq<char>,
    abi: Seq<char>,
    platform: Seq<char>,
)
    requires
        wheel_part(name),
        !name.contains('\n'),
        wheel_part(version),
        patterns::digit_led(version),
        build matches Some(b) ==> wheel_part(b) && patterns::digit_led(b),
        wheel_part(python),
        wheel_part(abi),
        wheel_part(platform),
    ensures
        storage::guessed(wheel_file(name, version, build, python, abi, platform)) == Some(
            (
                name,
                match build {
                    Some(b) => version + "-"@ + b,
                    None => version,
                },
            ),
        ),
{
    reveal_strlit(".whl");
    let s = wheel_file(name, version, build, python, abi, platform);
    let stem = s.take(s.len() - 4);
    let tags = python.push('-') + (abi.push('-') + platform);
    lemma_pieces_single(platform, '-');
    lemma_pieces_front(abi, '-', platform);
    lemma_pieces_front(python, '-', abi.push('-') + platform);
    assert(s.skip(s.len() - 4) =~= ".whl"@);
    assert(text::pieces(tags, '-') =~= seq![python, abi, platform]);
    let behind = match build {
        Some(b) => version.push('-') + (b.push('-') + tags),
        None => version.push('-') + tags,
    };
    match build {
        Some(b) => {
            lemma_pieces_front(b, '-', tags);
            lemma_pieces_front(version, '-', b.push('-') + tags);
            assert(text::pieces(behind, '-') =~= seq![version, b, python, abi, platform]);
        },
        None => {
            lemma_pieces_front(version, '-', tags);
            assert(text::pieces(behind, '-') =~= seq![version, python, abi, platform]);
        },
    }
    lemma_pieces_front(name, '-', behind);
    assert(stem =~= name.push('-') + behind);
    let parts = text::pieces(stem, '-');
    assert(parts.take(1) =~= seq![name]);
    assert(text::joined(parts.take(1), "-"@) == name);
    assert(patterns::wheel_name_ok(parts, 1));
}

/// The Python tag of a wheel can be read off its path: for parts as the wheel format has them, on one
/// level of a directory, it is the one that was put into the file name.
pub proof fn law_wheel_python_tag_read_back(
    dir: Seq<char>,
    name: Seq<char>,
    version: Seq<char>,
    build: Option<Seq<char>>,
    python: Seq<char>,
    abi: Seq<char>,
    platform: Seq<char>,
)
    requires
        wheel_part(name),
        wheel_part(version),
        build matches Some(b) ==> wheel_part(b),
        wheel_part(python),
        wheel_part(abi),
        wheel_part(platform),
        !wheel_file(name, version, build, python, abi, platform).contains('/'),
    ensures
        pypi_push::python_tag(
            paths::path_in(dir, wheel_file(name, version, build, python, abi, platform)),
        ) == Ok::<Seq<char>, pypi_push::DistErrorView>(python),
{
    reveal_strlit(".whl");
    reveal_strlit(".");
    reveal_strlit("..");
    let s = wheel_file(name, version, build, python, abi, platform);
    let n = s.len() as int;
    assert(s.skip(n - 4) =~= ".whl"@);
    assert(s[n - 4] == s.skip(n - 4)[0]);
    assert(s[n - 3] == s.skip(n - 4)[1]);
    assert(s[n - 2] == s.skip(n - 4)[2]);
    assert(s[n - 1] == s.skip(n - 4)[3]);
    assert(n > 4);
    paths::law_name_in_directory(dir, s);
    assert(paths::last_index_of(s, '.') == n - 4) by {
        reveal_with_fuel(paths::last_index_of, 5);
        assert(s.drop_last().drop_last().drop_last().last() == s[n - 4]);
        assert(s.drop_last().drop_last().last() == s[n - 3]);
        assert(s.drop_last().last() == s[n - 2]);
    }
    let stem = s.take(n - 4);
    let tags = python.push('-') + (abi.push('-') + platform);
    lemma_pieces_single(platform, '-');
    lemma_pieces_front(abi, '-', platform);
    lemma_pieces_front(python, '-', abi.push('-') + platform);
    assert(text::pieces(tags, '-') =~= seq![python, abi, platform]);
    match build {
        Some(b) => {
            let behind = version.push('-') + (b.push('-') + tags);
            lemma_pieces_front(b, '-', tags);
            lemma_pieces_front(version, '-', b.push('-') + tags);
            lemma_pieces_front(name, '-', behind);
            assert(stem =~= name.push('-') + behind);
            assert(text::pieces(stem, '-') =~= seq![name, version, b, python, abi, platform]);
        },
        None => {
            let behind = version.push('-') + tags;
            lemma_pieces_front(version, '-', tags);
            lemma_pieces_front(name, '-', behind);
            assert(stem =~= name.push('-') + behind);
            assert(text::pieces(stem, '-') =~= seq![name, version, python, abi, platform]);
        },
    }
}

/// The endings of source archives and eggs.
pub open spec fn archive_ending(e: Seq<char>) -> bool {
    ||| e == ".zip"@
    ||| e == ".tar.gz"@
    ||| e == ".tgz"@
    ||| e == ".tar.bz2"@
    ||| e == ".tar.xz"@
    ||| e == ".egg"@
}

/// Whether a Python version tag, as eggs have it, stands at position `p`.
pub open spec fn python_tag_at(s: Seq<char>, p: int) -> bool {
    &&& 0 <= p
    &&& p + 7 <= s.len()
    &&& patterns::same_but_case(s.subrange(p, p + 3), "-py"@)
    &&& s[p + 3] == '2' || s[p + 3] == '3'
    &&& s[p + 4] == '.'
    &&& patterns::decimal_digit(s[p + 5])
    &&& s[p + 6] == '-'
}

/// What an archive ending looks like, character by character.
proof fn lemma_archive_endings(t: Seq<char>)
    requires
        patterns::archive_suffix(t),
    ensures
        t.len() >= 7 && python_tag_at(t, 0) || {
            &&& t.len() >= 4
            &&& t[0] == '.'
            &&& t.len() == 4 || t.len() == 7 || t.len() == 8
            &&& t.len() > 4 ==> t[4] == '.'
            &&& t.len() == 8 ==> t[7] == '2'
        },
{
    reveal_strlit(".zip");
    reveal_strlit(".tar.gz");
    reveal_strlit(".tgz");
    reveal_strlit(".tar.bz2");
    reveal_strlit(".tar.xz");
    reveal_strlit(".egg");
    if t.len() >= 7 {
        assert(t.take(3) =~= t.subrange(0, 3));
    }
    if t.len() > 0 {
        let _ = t[0];
    }
    if t.len() == 7 || t.len() == 8 {
        let _ = t[4];
    }
    if t.len() == 8 {
        let _ = t[7];
    }
}

/// A written ending is an archive ending, and no longer one ends like it.
proof fn lemma_ending_is_longest(stem: Seq<char>, ending: Seq<char>)
    requires
        archive_ending(ending),
        forall|p: int| !python_tag_at(stem + ending, p),
    ensures
        patterns::archive_suffix(ending),
        forall|p: int|
            0 <= p < stem.len() ==> !patterns::archive_suffix(#[trigger] (stem + ending).skip(p)),
{
    reveal_strlit(".zip");
    reveal_strlit(".tar.gz");
    reveal_strlit(".tgz");
    reveal_strlit(".tar.bz2");
    reveal_strlit(".tar.xz");
    reveal_strlit(".egg");
    let s = stem + ending;
    assert(patterns::archive_suffix(ending)) by {
        assert(patterns::same_but_case(ending, ending));
    }
    assert forall|p: int| 0 <= p < stem.len() implies !patterns::archive_suffix(
        #[trigger] s.skip(p),
    ) by {
        let t = s.skip(p);
        if patterns::archive_suffix(t) {
            lemma_archive_endings(t);
            if t.len() >= 7 && python_tag_at(t, 0) {
                assert(t.subrange(0, 3) =~= s.subrange(p, p + 3));
                assert(python_tag_at(s, p));
            } else {
                let at = t.len() - ending.len();
                assert(t[at] == ending[0]);
                assert(t[t.len() - 1] == ending[ending.len() - 1]);
                assert(ending[0] == '.');
                assert(t[at] == '.');
                assert(at > 0);
                lemma_dots_in_endings(t, at);
            }
        }
    }
}

/// Behind the first character of an archive ending without a Python tag, a dot stands at position
/// four or nowhere.
proof fn lemma_dots_in_endings(t: Seq<char>, at: int)
    requires
        patterns::archive_suffix(t),
        !(t.len() >= 7 && python_tag_at(t, 0)),
        0 < at < t.len(),
        t[at] == '.',
    ensures
        at == 4,
        t.len() == 7 || t.len() == 8,
{
    reveal_strlit(".zip");
    reveal_strlit(".tar.gz");
    reveal_strlit(".tgz");
    reveal_strlit(".tar.bz2");
    reveal_strlit(".tar.xz");
    reveal_strlit(".egg");
    if t.len() >= 7 {
        assert(t.take(3) =~= t.subrange(0, 3));
    }
    assert(text::ascii_lower(t[at]) == '.');
}

/// Where the longest archive ending begins, it is taken off.
proof fn lemma_stem_from(s: Seq<char>, p: int, k: int)
    requires
        0 <= p <= k <= s.len(),
        k < s.len() ==> patterns::archive_suffix(s.skip(k)),
        forall|q: int| p <= q < k ==> !patterns::archive_suffix(#[trigger] s.skip(q)),
    ensures
        patterns::archive_stem_from(s, p) == s.take(k),
    decreases k - p,
{
    if p < k {
        assert(!patterns::archive_suffix(s.skip(p)));
        lemma_stem_from(s, p + 1, k);
    }
}

/// The name and the version of a source archive can be read off its file name, where the version
/// begins with a digit, no dash in the name stands in front of a digit, and no part of the file name
/// reads as an egg's Python version tag.
pub proof fn law_archive_file_read_back(name: Seq<char>, version: Seq<char>, ending: Seq<char>)
    requires
        patterns::digit_led(version),
        forall|p: int| !patterns::dash_digit_at(name, p),
        archive_ending(ending),
        forall|p: int| !python_tag_at(name.push('-') + version + ending, p),
    ensures
        storage::guessed(name.push('-') + version + ending) == Some((name, version)),
{
    let stem = name.push('-') + version;
    let s = stem + ending;
    lemma_archive_stem(stem, ending);
    let at = name.len() as int;
    assert(stem[at] == '-' && stem[at + 1] == version[0]);
    assert forall|q: int| 0 <= q < at implies !patterns::dash_digit_at(stem, q) by {
        assert(stem[q] == name[q]);
        if q + 1 < at {
            assert(stem[q + 1] == name[q + 1]);
            assert(!patterns::dash_digit_at(name, q));
        }
    }
    patterns::lemma_dash_digit_from(stem, 0, at);
    assert(stem.take(at) =~= name);
    assert(stem.skip(at + 1) =~= version);
    let parts = text::pieces(stem, '-');
    let k = text::index_of(stem, '-');
    text::lemma_index_of(stem, '-');
    assert(stem.contains('-'));
    let rest = stem.skip(k + 1);
    text::lemma_index_of(rest, '-');
    if parts.len() == 2 {
        assert(text::index_of(rest, '-') == rest.len()) by {
            lemma_pieces_some(rest, '-');
        }
        if k < at {
            assert(rest[at - k - 1] == '-');
            assert(rest.contains('-'));
        }
        assert(k == at);
        assert(parts[0] == name);
        assert(parts[1] == version);
    } else {
        lemma_pieces_some(rest, '-');
    }
}

/// A text has at least one piece, and more than one where the separator occurs in it.
proof fn lemma_pieces_some(s: Seq<char>, c: char)
    ensures
        text::pieces(s, c).len() >= 1,
        s.contains(c) <==> text::pieces(s, c).len() >= 2,
    decreases s.len(),
{
    text::lemma_index_of(s, c);
    let k = text::index_of(s, c);
    if k < s.len() {
        lemma_pieces_some(s.skip(k + 1), c);
    }
}

/// Taking the ending off an archive's file name gives what stands before it.
proof fn lemma_archive_stem(stem: Seq<char>, ending: Seq<char>)
    requires
        archive_ending(ending),
        forall|p: int| !python_tag_at(stem + ending, p),
    ensures
        patterns::has_archive_suffix(stem + ending),
        patterns::archive_stem(stem + ending) == stem,
        !text::finishes_with(stem + ending, ".whl"@),
{
    let s = stem + ending;
    let k = stem.len() as int;
    lemma_ending_is_longest(stem, ending);
    assert(s.skip(k) =~= ending);
    assert(s.take(k) =~= stem);
    lemma_stem_from(s, 0, k);
    reveal_strlit(".whl");
    reveal_strlit(".zip");
    reveal_strlit(".tar.gz");
    reveal_strlit(".tgz");
    reveal_strlit(".tar.bz2");
    reveal_strlit(".tar.xz");
    reveal_strlit(".egg");
    assert(s.last() == ending.last());
    if text::finishes_with(s, ".whl"@) {
        assert(s.skip(s.len() - 4)[3] == s.last());
    }
}

/// A source archive whose name and version hold no dash reads back, whatever the version begins
/// with.
pub proof fn law_plain_archive_file_read_back(
    name: Seq<char>,
    version: Seq<char>,
    ending: Seq<char>,
)
    requires
        !name.contains('-'),
        !version.contains('-'),
        archive_ending(ending),
    ensures
        storage::guessed(name.push('-') + version + ending) == Some((name, version)),
{
    let stem = name.push('-') + version;
    let s = stem + ending;
    reveal_strlit(".zip");
    reveal_strlit(".tar.gz");
    reveal_strlit(".tgz");
    reveal_strlit(".tar.bz2");
    reveal_strlit(".tar.xz");
    reveal_strlit(".egg");
    reveal_strlit("-py");
    assert forall|p: int| !python_tag_at(s, p) by {
        if python_tag_at(s, p) {
            assert(text::ascii_lower(s.subrange(p, p + 3)[0]) == '-');
            assert(s[p] == '-' && s[p + 6] == '-');
            lemma_one_dash(name, version, ending, p);
            lemma_one_dash(name, version, ending, p + 6);
        }
    }
    lemma_archive_stem(stem, ending);
    lemma_pieces_single(version, '-');
    lemma_pieces_front(name, '-', version);
    assert(text::pieces(stem, '-') =~= seq![name, version]);
}

/// A source archive whose name holds no dash has no version, and its name is all that stands before the
/// ending.
pub proof fn law_archive_file_without_version(name: Seq<char>, ending: Seq<char>)
    requires
        !name.contains('-'),
        archive_ending(ending),
    ensures
        storage::guessed(name + ending) == Some((name, Seq::<char>::empty())),
{
    let s = name + ending;
    reveal_strlit("-py");
    assert forall|p: int| !python_tag_at(s, p) by {
        if python_tag_at(s, p) {
            assert(text::ascii_lower(s.subrange(p, p + 3)[0]) == '-');
            assert(s[p] == '-');
            lemma_no_dash(name, ending, p);
        }
    }
    lemma_archive_stem(name, ending);
    lemma_pieces_single(name, '-');
}

/// A name with more dashes than one, none of them in front of a digit, is all name and no version.
pub proof fn law_archive_file_all_name(name: Seq<char>, ending: Seq<char>, i: int, j: int)
    requires
        0 <= i < j < name.len(),
        name[i] == '-',
        name[j] == '-',
        forall|p: int| !patterns::dash_digit_at(name, p),
        archive_ending(ending),
        forall|p: int| !python_tag_at(name + ending, p),
    ensures
        storage::guessed(name + ending) == Some((name, Seq::<char>::empty())),
{
    lemma_archive_stem(name, ending);
    patterns::lemma_dash_digit_from(name, 0, name.len() as int);
    let k = text::index_of(name, '-');
    text::lemma_index_of(name, '-');
    assert(name.contains('-'));
    let rest = name.skip(k + 1);
    assert(rest[j - k - 1] == '-');
    assert(rest.contains('-'));
    lemma_pieces_some(rest, '-');
}

/// A file name made of fewer parts than a wheel's has, with a wheel's ending, stands for nothing.
pub proof fn law_short_wheel_file(parts: Seq<Seq<char>>)
    requires
        0 < parts.len() < 5,
        forall|i: int| 0 <= i < parts.len() ==> !(#[trigger] parts[i]).contains('-'),
    ensures
        storage::guessed(text::joined(parts, seq!['-']) + ".whl"@) is None,
{
    reveal_strlit(".whl");
    let stem = text::joined(parts, seq!['-']);
    let s = stem + ".whl"@;
    assert(s.skip(s.len() - 4) =~= ".whl"@);
    assert(s.take(s.len() - 4) =~= stem);
    text_laws::law_pieces_of_joined(parts, '-');
}

/// There is no dash in a name without dashes and its ending.
proof fn lemma_no_dash(name: Seq<char>, ending: Seq<char>, p: int)
    requires
        !name.contains('-'),
        archive_ending(ending),
        0 <= p < (name + ending).len(),
    ensures
        (name + ending)[p] != '-',
{
    let s = name + ending;
    reveal_strlit(".zip");
    reveal_strlit(".tar.gz");
    reveal_strlit(".tgz");
    reveal_strlit(".tar.bz2");
    reveal_strlit(".tar.xz");
    reveal_strlit(".egg");
    if p < name.len() {
        assert(name[p] == s[p]);
    } else {
        assert(ending[p - name.len()] == s[p]);
    }
}

/// In a file name made of a name and a version without dashes, the only dash parts the two.
proof fn lemma_one_dash(name: Seq<char>, version: Seq<char>, ending: Seq<char>, p: int)
    requires
        !name.contains('-'),
        !version.contains('-'),
        archive_ending(ending),
        0 <= p < (name.push('-') + version + ending).len(),
        (name.push('-') + version + ending)[p] == '-',
    ensures
        p == name.len(),
{
    let s = name.push('-') + version + ending;
    reveal_strlit(".zip");
    reveal_strlit(".tar.gz");
    reveal_strlit(".tgz");
    reveal_strlit(".tar.bz2");
    reveal_strlit(".tar.xz");
    reveal_strlit(".egg");
    if p < name.len() {
        assert(name[p] == s[p]);
    } else if p > name.len() && p < name.len() + 1 + version.len() {
        assert(version[p - name.len() - 1] == s[p]);
    } else if p > name.len() {
        assert(ending[p - name.len() - 1 - version.len()] == s[p]);
    }
}

} // verus!
