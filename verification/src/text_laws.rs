//! Laws of text.
use crate::text;
use vstd::prelude::*;

verus! {

/// Whether all the characters are white space.
pub open spec fn blank(s: Seq<char>) -> bool {
    forall|i: int| 0 <= i < s.len() ==> text::white_space(#[trigger] s[i])
}

/// Whether a text neither begins nor ends with white space.
pub open spec fn tight(s: Seq<char>) -> bool {
    s.len() > 0 ==> !text::white_space(s[0]) && !text::white_space(s.last())
}

/// Which characters are white space, by their code points.
pub proof fn law_white_space(c: char)
    ensures
        ({
            let u = c as u32;
            text::white_space(c) <==> u == 0x9 || u == 0xa || u == 0xb || u == 0xc || u == 0xd || u
                == 0x20 || u == 0x85 || u == 0xa0 || u == 0x1680 || (0x2000 <= u && u <= 0x200a)
                || u == 0x2028 || u == 0x2029 || u == 0x202f || u == 0x205f || u == 0x3000
        }),
{
}

/// A text begins with another if it is the other with something behind it, ends with another if it is
/// something with the other behind it, and holds another if it is the other between two texts.
pub proof fn law_parts(s: Seq<char>, p: Seq<char>)
    ensures
        text::begins_with(s, p) <==> exists|back: Seq<char>| s == #[trigger] (p + back),
        text::finishes_with(s, p) <==> exists|front: Seq<char>| s == #[trigger] (front + p),
        text::occurs_in(p, s) <==> exists|front: Seq<char>, back: Seq<char>|
            s == #[trigger] (front + p + back),
{
    let n = p.len() as int;
    if text::begins_with(s, p) {
        assert(s =~= p + s.skip(n));
    }
    if exists|back: Seq<char>| s == #[trigger] (p + back) {
        assert(s.take(n) =~= p);
    }
    if text::finishes_with(s, p) {
        assert(s =~= s.take(s.len() - n) + p);
    }
    if exists|front: Seq<char>| s == #[trigger] (front + p) {
        assert(s.skip(s.len() - n) =~= p);
    }
    if text::occurs_in(p, s) {
        let i = choose|i: int|
            0 <= i <= s.len() - p.len() && #[trigger] s.subrange(i, i + p.len()) == p;
        assert(s =~= s.take(i) + p + s.skip(i + n));
    }
    if exists|front: Seq<char>, back: Seq<char>| s == #[trigger] (front + p + back) {
        let (front, back) = choose|front: Seq<char>, back: Seq<char>|
            s == #[trigger] (front + p + back);
        let i = front.len() as int;
        assert(s.subrange(i, i + n) =~= p);
    }
}

/// How lines end: with a line feed, with a carriage return and a line feed, or with the text. One
/// carriage return goes, and only where a line feed follows.
pub proof fn law_line_endings(line: Seq<char>, back: Seq<char>)
    requires
        !line.contains('\n'),
    ensures
        text::text_lines(line + seq!['\r', '\n'] + back) == seq![line] + text::text_lines(back),
        line.len() == 0 || line.last() != '\r' ==> text::text_lines(line + seq!['\n'] + back)
            == seq![line] + text::text_lines(back),
        text::text_lines(line) == (if line.len() == 0 {
            Seq::empty()
        } else {
            seq![line]
        }),
{
    let n = line.len() as int;
    let a = line + seq!['\r', '\n'] + back;
    let b = line + seq!['\n'] + back;
    assert forall|j: int| 0 <= j < n implies line[j] != '\n' by {
        assert(line.contains(line[j]));
    }
    text::lemma_index_of_is(a, '\n', n + 1);
    assert(a.take(n + 1) =~= line.push('\r'));
    assert(line.push('\r').drop_last() =~= line);
    assert(a.skip(n + 2) =~= back);
    text::lemma_index_of_is(b, '\n', n);
    assert(b.take(n) =~= line);
    assert(b.skip(n + 1) =~= back);
    text::lemma_index_of(line, '\n');
}

/// White space in front goes.
proof fn lemma_trimmed_front(pre: Seq<char>, s: Seq<char>)
    requires
        blank(pre),
    ensures
        text::trimmed_start(pre + s) == text::trimmed_start(s),
    decreases pre.len(),
{
    if pre.len() == 0 {
        assert(pre + s =~= s);
    } else {
        let rest = pre.drop_first();
        assert(text::white_space(pre[0]));
        assert forall|i: int| 0 <= i < rest.len() implies text::white_space(#[trigger] rest[i]) by {
            assert(rest[i] == pre[i + 1]);
        }
        lemma_trimmed_front(rest, s);
        assert((pre + s)[0] == pre[0]);
        assert((pre + s).drop_first() =~= rest + s);
    }
}

/// White space at the end goes.
proof fn lemma_trimmed_back(s: Seq<char>, post: Seq<char>)
    requires
        blank(post),
    ensures
        text::trimmed_end(s + post) == text::trimmed_end(s),
    decreases post.len(),
{
    if post.len() == 0 {
        assert(s + post =~= s);
    } else {
        let rest = post.drop_last();
        assert(text::white_space(post[post.len() - 1]));
        assert forall|i: int| 0 <= i < rest.len() implies text::white_space(#[trigger] rest[i]) by {
            assert(rest[i] == post[i]);
        }
        lemma_trimmed_back(s, rest);
        assert((s + post).last() == post.last());
        assert((s + post).drop_last() =~= s + rest);
    }
}

/// Trimming takes off the white space around a text, all of it, and nothing else.
pub proof fn law_trimmed(pre: Seq<char>, s: Seq<char>, post: Seq<char>)
    requires
        blank(pre),
        blank(post),
        tight(s),
    ensures
        text::trimmed(pre + s + post) == s,
{
    assert(pre + s + post =~= pre + (s + post));
    lemma_trimmed_front(pre, s + post);
    if s.len() == 0 {
        assert(s + post =~= post + s);
        lemma_trimmed_front(post, s);
        assert(text::trimmed_start(s) =~= s);
        assert(text::trimmed_end(s) =~= s);
    } else {
        assert((s + post)[0] == s[0]);
        lemma_trimmed_back(s, post);
    }
}

/// What stands behind the last separator is a piece of its own, behind those of what stands before it.
pub proof fn lemma_pieces_back(front: Seq<char>, c: char, back: Seq<char>)
    requires
        !back.contains(c),
    ensures
        text::pieces(front.push(c) + back, c) == text::pieces(front, c).push(back),
    decreases front.len(),
{
    let s = front.push(c) + back;
    let k = text::index_of(s, c);
    text::lemma_index_of(s, c);
    text::lemma_index_of(front, c);
    assert(s[front.len() as int] == c);
    assert(s.contains(c));
    if front.contains(c) {
        let j = text::index_of(front, c);
        assert forall|i: int| 0 <= i < j implies s[i] != c by {
            assert(s[i] == front[i]);
        }
        assert(s[j] == front[j]);
        text::lemma_index_of_is(s, c, j);
        let rest = front.skip(j + 1);
        lemma_pieces_back(rest, c, back);
        assert(s.skip(j + 1) =~= rest.push(c) + back);
        assert(s.take(j) =~= front.take(j));
        assert(text::pieces(s, c) =~= text::pieces(front, c).push(back));
    } else {
        let n = front.len() as int;
        assert forall|i: int| 0 <= i < n implies s[i] != c by {
            assert(s[i] == front[i]);
        }
        text::lemma_index_of_is(s, c, n);
        text::lemma_index_of(back, c);
        assert(s.take(n) =~= front);
        assert(s.skip(n + 1) =~= back);
        assert(text::pieces(back, c) == seq![back]);
        assert(text::pieces(front, c) == seq![front]);
        assert(text::pieces(s, c) == seq![front] + seq![back]);
        assert(text::pieces(s, c) =~= seq![front].push(back));
    }
}

/// Cutting undoes joining: texts that do not hold the separator, joined by it, are the pieces of the
/// whole.
pub proof fn law_pieces_of_joined(parts: Seq<Seq<char>>, c: char)
    requires
        parts.len() > 0,
        forall|i: int| 0 <= i < parts.len() ==> !(#[trigger] parts[i]).contains(c),
    ensures
        text::pieces(text::joined(parts, seq![c]), c) == parts,
    decreases parts.len(),
{
    assert(!parts[parts.len() - 1].contains(c));
    if parts.len() == 1 {
        text::lemma_index_of(parts[0], c);
        assert(seq![parts[0]] =~= parts);
    } else {
        let front = parts.drop_last();
        assert forall|i: int| 0 <= i < front.len() implies !(#[trigger] front[i]).contains(c) by {
            assert(front[i] == parts[i]);
        }
        law_pieces_of_joined(front, c);
        let s = text::joined(front, seq![c]);
        lemma_pieces_back(s, c, parts.last());
        assert(s + seq![c] + parts.last() =~= s.push(c) + parts.last());
        assert(front.push(parts.last()) =~= parts);
    }
}

/// Joining undoes cutting: the pieces of a text, joined by the separator, are the text, and none of
/// them holds the separator.
pub proof fn law_joined_pieces(s: Seq<char>, c: char)
    ensures
        text::joined(text::pieces(s, c), seq![c]) == s,
        forall|i: int|
            0 <= i < text::pieces(s, c).len() ==> !(#[trigger] text::pieces(s, c)[i]).contains(c),
    decreases s.len(),
{
    text::lemma_index_of(s, c);
    let k = text::index_of(s, c);
    let all = text::pieces(s, c);
    if k < s.len() {
        let rest = s.skip(k + 1);
        law_joined_pieces(rest, c);
        text::lemma_pieces_nonempty(rest, c);
        lemma_joined_front(s.take(k), text::pieces(rest, c), seq![c]);
        assert(s =~= s.take(k) + seq![c] + rest);
        assert forall|i: int| 0 <= i < all.len() implies !(#[trigger] all[i]).contains(c) by {
            if i > 0 {
                assert(all[i] == text::pieces(rest, c)[i - 1]);
            } else {
                assert(all[0] == s.take(k));
                assert forall|j: int| 0 <= j < k implies s.take(k)[j] != c by {
                    assert(s.take(k)[j] == s[j]);
                }
            }
        }
    }
}

/// Joining a part and then others puts the part, the separator and the others one behind the other.
proof fn lemma_joined_front(first: Seq<char>, parts: Seq<Seq<char>>, sep: Seq<char>)
    requires
        parts.len() > 0,
    ensures
        text::joined(seq![first] + parts, sep) == first + sep + text::joined(parts, sep),
    decreases parts.len(),
{
    let all = seq![first] + parts;
    assert(all.drop_last() =~= seq![first] + parts.drop_last());
    assert(all.last() == parts.last());
    if parts.len() == 1 {
        assert(all.drop_last() =~= seq![first]);
        assert(text::joined(seq![first], sep) == first);
    } else {
        lemma_joined_front(first, parts.drop_last(), sep);
        let inner = text::joined(parts.drop_last(), sep);
        assert(first + sep + inner + sep + parts.last() =~= first + sep + (inner + sep
            + parts.last()));
    }
}

/// Whether a text can be a line: it holds no line feed and does not end with a carriage return.
pub open spec fn line_text(s: Seq<char>) -> bool {
    !s.contains('\n') && (s.len() > 0 ==> s.last() != '\r')
}

/// Lines put one behind the other, with a line feed behind each.
pub open spec fn with_line_feeds(lines: Seq<Seq<char>>) -> Seq<char>
    decreases lines.len(),
{
    if lines.len() == 0 {
        Seq::empty()
    } else {
        with_line_feeds(lines.drop_last()) + lines.last() + seq!['\n']
    }
}

/// A text that begins with whole lines has these lines and those of the rest.
proof fn lemma_lines_append(front: Seq<char>, back: Seq<char>)
    requires
        front.len() == 0 || front.last() == '\n',
    ensures
        text::text_lines(front + back) == text::text_lines(front) + text::text_lines(back),
    decreases front.len(),
{
    let s = front + back;
    if front.len() == 0 {
        assert(s =~= back);
        assert(text::text_lines(front) + text::text_lines(back) =~= text::text_lines(back));
    } else {
        text::lemma_index_of(front, '\n');
        let k = text::index_of(front, '\n');
        assert(front[front.len() - 1] == '\n');
        assert(front.contains('\n'));
        assert forall|i: int| 0 <= i < k implies s[i] != '\n' by {
            assert(s[i] == front[i]);
        }
        assert(s[k] == front[k]);
        text::lemma_index_of_is(s, '\n', k);
        let rest = front.skip(k + 1);
        if rest.len() > 0 {
            assert(rest.last() == front.last());
        }
        lemma_lines_append(rest, back);
        assert(s.skip(k + 1) =~= rest + back);
        assert(s.take(k) =~= front.take(k));
        assert(text::text_lines(s) =~= text::text_lines(front) + text::text_lines(back));
    }
}

/// A line without its line feed at the end of the text.
pub proof fn lemma_single_line(line: Seq<char>)
    requires
        line.len() > 0,
        !line.contains('\n'),
    ensures
        text::text_lines(line) == seq![line],
{
    text::lemma_index_of(line, '\n');
}

/// Texts that can be lines, each with a line feed behind it, are the lines of the whole; what follows
/// them has its own lines.
pub proof fn law_lines(lines: Seq<Seq<char>>, back: Seq<char>)
    requires
        forall|i: int| 0 <= i < lines.len() ==> line_text(#[trigger] lines[i]),
    ensures
        text::text_lines(with_line_feeds(lines) + back) == lines + text::text_lines(back),
    decreases lines.len(),
{
    if lines.len() == 0 {
        assert(with_line_feeds(lines) + back =~= back);
        assert(lines + text::text_lines(back) =~= text::text_lines(back));
    } else {
        let front = lines.drop_last();
        let line = lines.last();
        assert(line_text(lines[lines.len() - 1]));
        assert forall|i: int| 0 <= i < front.len() implies line_text(#[trigger] front[i]) by {
            assert(front[i] == lines[i]);
        }
        let rest = line + seq!['\n'] + back;
        law_lines(front, rest);
        assert(with_line_feeds(lines) + back =~= with_line_feeds(front) + rest);
        let n = line.len() as int;
        assert forall|i: int| 0 <= i < n implies rest[i] != '\n' by {
            assert(rest[i] == line[i]);
            assert(line.contains(line[i]));
        }
        assert(rest[n] == '\n');
        text::lemma_index_of_is(rest, '\n', n);
        assert(rest.take(n) =~= line);
        assert(rest.skip(n + 1) =~= back);
        assert(text::text_lines(rest) =~= seq![line] + text::text_lines(back));
        assert(front + text::text_lines(rest) =~= lines + text::text_lines(back));
    }
}

/// Texts that can be lines, joined by line feeds, are the lines of the whole, where the last is not
/// empty.
pub proof fn law_lines_of_joined(lines: Seq<Seq<char>>)
    requires
        lines.len() > 0,
        forall|i: int| 0 <= i < lines.len() ==> line_text(#[trigger] lines[i]),
        lines.last().len() > 0,
    ensures
        text::text_lines(text::joined(lines, seq!['\n'])) == lines,
{
    let front = lines.drop_last();
    let last = lines.last();
    assert(line_text(lines[lines.len() - 1]));
    assert forall|i: int| 0 <= i < front.len() implies line_text(#[trigger] front[i]) by {
        assert(front[i] == lines[i]);
    }
    lemma_joined_feeds(lines);
    law_lines(front, last);
    lemma_single_line(last);
    assert(front + seq![last] =~= lines);
}

/// Lines joined by line feeds are the lines but the last with a line feed behind each, and the last.
proof fn lemma_joined_feeds(lines: Seq<Seq<char>>)
    requires
        lines.len() > 0,
    ensures
        text::joined(lines, seq!['\n']) == with_line_feeds(lines.drop_last()) + lines.last(),
    decreases lines.len(),
{
    let front = lines.drop_last();
    if lines.len() == 1 {
        assert(with_line_feeds(front) + lines.last() =~= lines[0]);
    } else {
        lemma_joined_feeds(front);
        assert(text::joined(lines, seq!['\n']) =~= with_line_feeds(front) + lines.last());
    }
}

/// Replacing puts the replacement in place of each occurrence, and keeps the rest: it goes character by
/// character.
pub proof fn law_replaced(a: Seq<char>, b: Seq<char>, c: char, r: Seq<char>)
    ensures
        text::replaced(a + b, c, r) == text::replaced(a, c, r) + text::replaced(b, c, r),
        !a.contains(c) ==> text::replaced(a, c, r) == a,
        text::replaced(seq![c], c, r) == r,
    decreases b.len(), a.len(),
{
    reveal_with_fuel(text::replaced, 3);
    assert(seq![c].drop_last() =~= Seq::<char>::empty());
    assert(Seq::<char>::empty() + r =~= r);
    if b.len() == 0 {
        assert(a + b =~= a);
        assert(text::replaced(a, c, r) + text::replaced(b, c, r) =~= text::replaced(a, c, r));
        if a.len() > 0 && !a.contains(c) {
            let front = a.drop_last();
            assert(a.contains(a[a.len() - 1]));
            if front.contains(c) {
                let i = choose|i: int| 0 <= i < front.len() && front[i] == c;
                assert(a[i] == c);
            }
            law_replaced(front, b, c, r);
            assert(front + seq![a.last()] =~= a);
        }
    } else {
        law_replaced(a, b.drop_last(), c, r);
        assert((a + b).drop_last() =~= a + b.drop_last());
        assert((a + b).last() == b.last());
        let tail = if b.last() == c {
            r
        } else {
            seq![b.last()]
        };
        assert(text::replaced(a, c, r) + text::replaced(b.drop_last(), c, r) + tail
            =~= text::replaced(a, c, r) + (text::replaced(b.drop_last(), c, r) + tail));
    }
}

} // verus!
