//! File paths as text, by the rules of Unix.
use crate::text;
use vstd::prelude::*;

verus! {

/// Whether what stands between two slashes counts as a component: neither empty nor a single dot.
pub open spec fn counts(part: Seq<char>) -> bool {
    part.len() > 0 && part != "."@
}

/// The components of a path between its slashes.
pub open spec fn inner_parts(path: Seq<char>) -> Seq<Seq<char>> {
    text::pieces(path, '/').filter(|part: Seq<char>| counts(part))
}

/// Whether the path begins at the root.
pub open spec fn rooted(path: Seq<char>) -> bool {
    path.len() > 0 && path[0] == '/'
}

/// Whether the path begins with a single dot, which counts there and nowhere else.
pub open spec fn dot_led(path: Seq<char>) -> bool {
    text::pieces(path, '/')[0] == "."@
}

/// How many components a path has. The root is one.
pub open spec fn component_count(path: Seq<char>) -> nat {
    inner_parts(path).len() + (if rooted(path) || dot_led(path) {
        1nat
    } else {
        0nat
    })
}

/// The last component of a path, where it is a name: not the root, and neither one dot nor two.
pub open spec fn file_name_of(path: Seq<char>) -> Option<Seq<char>> {
    let parts = inner_parts(path);
    if parts.len() > 0 && parts.last() != ".."@ {
        Some(parts.last())
    } else {
        None
    }
}

/// The position of the last `c` in `s`, or -1 where there is none.
pub open spec fn last_index_of(s: Seq<char>, c: char) -> int
    decreases s.len(),
{
    if s.len() == 0 {
        -1
    } else if s.last() == c {
        s.len() - 1
    } else {
        last_index_of(s.drop_last(), c)
    }
}

/// A file name without its extension: what stands before the last dot, unless that is nothing.
pub open spec fn stem_of(name: Seq<char>) -> Seq<char> {
    let dot = last_index_of(name, '.');
    if dot > 0 {
        name.take(dot)
    } else {
        name
    }
}

/// The directory's path with a name put behind it.
pub open spec fn path_in(dir: Seq<char>, name: Seq<char>) -> Seq<char> {
    if dir.len() == 0 || dir.last() == '/' {
        dir + name
    } else {
        dir + "/"@ + name
    }
}

/// Whether a name holds a path separator of any system.
pub open spec fn separated(name: Seq<char>) -> bool {
    name.contains('/') || name.contains('\\')
}

/// Whether a name holds a path separator of any system.
pub fn has_separator(name: &str) -> (r: bool)
    ensures
        r == separated(name@),
{
    text::has_char(name, '/') || text::has_char(name, '\\')
}

/// The components of a path between its slashes.
fn inner_components(parts: &Vec<String>) -> (out: Vec<String>)
    ensures
        text::texts(out@) == text::texts(parts@).filter(|part: Seq<char>| counts(part)),
{
    let ghost all = text::texts(parts@);
    let ghost chosen = |part: Seq<char>| counts(part);
    let mut out: Vec<String> = Vec::new();
    let mut i: usize = 0;
    proof {
        reveal(Seq::filter);
        assert(text::texts(out@) =~= all.take(0).filter(chosen));
    }
    while i < parts.len()
        invariant
            all == text::texts(parts@),
            chosen == (|part: Seq<char>| counts(part)),
            i <= parts@.len(),
            text::texts(out@) == all.take(i as int).filter(chosen),
        decreases parts@.len() - i,
    {
        let ghost before = out@;
        proof {
            reveal(Seq::filter);
            assert(all.take(i + 1).drop_last() =~= all.take(i as int));
            assert(all.take(i + 1).last() == parts@[i as int]@);
        }
        if !parts[i].as_str().is_empty() && !text::same_text(&parts[i], ".") {
            out.push(parts[i].clone());
            assert(text::texts(out@) =~= text::texts(before).push(parts@[i as int]@));
        }
        i = i + 1;
    }
    assert(all.take(parts@.len() as int) =~= all);
    out
}

/// Whether a path has exactly two components, of which the second is `name`.
pub fn is_second_of_two(path: &str, name: &str) -> (r: bool)
    requires
        counts(name@),
        name@ != ".."@,
    ensures
        r == (file_name_of(path@) == Some(name@) && component_count(path@) == 2),
{
    let parts = text::split(path, '/');
    proof {
        text::lemma_pieces_nonempty(path@, '/');
        assert(text::texts(parts@)[0] == parts@[0]@);
    }
    let led: bool = text::starts_with(path, "/") || text::same_text(&parts[0], ".");
    proof {
        reveal_strlit("/");
        assert(text::begins_with(path@, "/"@) == rooted(path@)) by {
            if path@.len() > 0 {
                assert(path@.take(1)[0] == path@[0]);
                assert(path@[0] == '/' ==> path@.take(1) =~= "/"@);
            }
        }
    }
    let inner = inner_components(&parts);
    assert(text::texts(inner@) == inner_parts(path@));
    if inner.len() == 0 {
        return false;
    }
    assert(inner_parts(path@).last() == inner@[inner@.len() - 1]@);
    text::same_text(&inner[inner.len() - 1], name) && (if led {
        inner.len() == 1
    } else {
        inner.len() == 2
    })
}

/// The last component of a path, where it is a name.
pub fn file_name(path: &str) -> (r: Option<String>)
    ensures
        text::opt_text(r) == file_name_of(path@),
{
    let parts = text::split(path, '/');
    let inner = inner_components(&parts);
    assert(text::texts(inner@) == inner_parts(path@));
    if inner.len() == 0 {
        return None;
    }
    assert(inner_parts(path@).last() == inner@[inner@.len() - 1]@);
    if text::same_text(&inner[inner.len() - 1], "..") {
        None
    } else {
        Some(inner[inner.len() - 1].clone())
    }
}

/// A file name without its extension.
pub fn file_stem(name: &str) -> (r: String)
    ensures
        r@ == stem_of(name@),
{
    let v = text::chars_of(name);
    let mut i: usize = v.len();
    assert(v@.take(i as int) =~= v@);
    while i > 0 && v[i - 1] != '.'
        invariant
            i <= v@.len(),
            last_index_of(v@, '.') == last_index_of(v@.take(i as int), '.'),
        decreases i,
    {
        assert(v@.take(i as int).drop_last() =~= v@.take(i - 1));
        i = i - 1;
    }
    if i > 1 {
        let r = text::text_range(&v, 0, i - 1);
        assert(r@ =~= v@.take(i - 1));
        r
    } else {
        name.to_owned()
    }
}

/// The directory's path with a name put behind it.
pub fn join(dir: &str, name: &str) -> (r: String)
    ensures
        r@ == path_in(dir@, name@),
{
    let v = text::chars_of(dir);
    if v.len() == 0 || v[v.len() - 1] == '/' {
        text::concat2(dir, name)
    } else {
        text::concat3(dir, "/", name)
    }
}

/// The last piece of a text is what stands behind its last separator.
proof fn lemma_last_piece(front: Seq<char>, c: char, back: Seq<char>)
    requires
        !back.contains(c),
    ensures
        text::pieces(front.push(c) + back, c).last() == back,
    decreases front.len(),
{
    let s = front.push(c) + back;
    let k = text::index_of(s, c);
    text::lemma_index_of(s, c);
    text::lemma_pieces_nonempty(s.skip(k + 1), c);
    assert(s[front.len() as int] == c);
    assert(s.contains(c));
    if k < front.len() {
        let rest = front.skip(k + 1);
        lemma_last_piece(rest, c, back);
        assert(s.skip(k + 1) =~= rest.push(c) + back);
    } else {
        assert(s.skip(k + 1) =~= back);
        text::lemma_index_of(back, c);
    }
}

/// What is put behind a directory's path is the file name of the whole, whatever the directory is.
pub proof fn law_name_in_directory(dir: Seq<char>, name: Seq<char>)
    requires
        !name.contains('/'),
        counts(name),
        name != ".."@,
    ensures
        file_name_of(path_in(dir, name)) == Some(name),
{
    reveal(Seq::filter);
    reveal_strlit("/");
    let path = path_in(dir, name);
    let parts = text::pieces(path, '/');
    text::lemma_pieces_nonempty(path, '/');
    if dir.len() == 0 {
        assert(path =~= name);
        text::lemma_index_of(name, '/');
        assert(parts == seq![name]);
    } else if dir.last() == '/' {
        assert(path =~= dir.drop_last().push('/') + name);
        lemma_last_piece(dir.drop_last(), '/', name);
    } else {
        assert(path =~= dir.push('/') + name);
        lemma_last_piece(dir, '/', name);
    }
    assert(parts.last() == name);
}

} // verus!
