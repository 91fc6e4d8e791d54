//! Lexical algebra of `/`-separated paths.
//!
//! A path is read as a root marker followed by names. Empty segments and `.`
//! segments carry no meaning and are dropped when a path is read; `..` is a
//! name like any other until a path is normalized. Nothing here touches a
//! file system: every operation is a function of the characters alone.

use vstd::prelude::*;
use crate::text::{append_chars, char_rows, chars_equal, copy_chars, from_chars, to_chars};

verus! {

/// What a path means: whether it starts at the root, and its names in order.
pub struct PathModel {
    pub absolute: bool,
    pub names: Seq<Seq<char>>,
}

/// The pieces of `s` between its separators, empty pieces included.
pub open spec fn segments(s: Seq<char>) -> Seq<Seq<char>>
    decreases s.len(),
{
    if s.len() == 0 {
        seq![Seq::<char>::empty()]
    } else {
        let before = segments(s.drop_last());
        if s.last() == '/' {
            before.push(Seq::<char>::empty())
        } else {
            before.drop_last().push(before.last().push(s.last()))
        }
    }
}

/// A segment that names something: neither empty nor `.`.
pub open spec fn is_name(segment: Seq<char>) -> bool {
    segment.len() > 0 && segment != seq!['.']
}

/// The segments that are names, in order.
pub open spec fn names_of(segs: Seq<Seq<char>>) -> Seq<Seq<char>>
    decreases segs.len(),
{
    if segs.len() == 0 {
        Seq::<Seq<char>>::empty()
    } else {
        let before = names_of(segs.drop_last());
        if is_name(segs.last()) {
            before.push(segs.last())
        } else {
            before
        }
    }
}

/// Whether `s` starts at the root.
pub open spec fn is_absolute(s: Seq<char>) -> bool {
    s.len() > 0 && s[0] == '/'
}

/// The names of `s`.
pub open spec fn components(s: Seq<char>) -> Seq<Seq<char>> {
    names_of(segments(s))
}

/// The meaning of `s`.
pub open spec fn model(s: Seq<char>) -> PathModel {
    PathModel { absolute: is_absolute(s), names: components(s) }
}

/// The names separated by single `/` characters.
pub open spec fn joined(names: Seq<Seq<char>>) -> Seq<char>
    decreases names.len(),
{
    if names.len() == 0 {
        Seq::<char>::empty()
    } else if names.len() == 1 {
        names[0]
    } else {
        joined(names.drop_last()) + seq!['/'] + names.last()
    }
}

/// The shortest text that means `m`.
pub open spec fn rendered(m: PathModel) -> Seq<char> {
    if m.absolute {
        seq!['/'] + joined(m.names)
    } else {
        joined(m.names)
    }
}

/// Names with every `..` cancelled against the name before it. At the start
/// nothing is left to cancel and the `..` is dropped.
pub open spec fn resolved(names: Seq<Seq<char>>) -> Seq<Seq<char>>
    decreases names.len(),
{
    if names.len() == 0 {
        Seq::<Seq<char>>::empty()
    } else {
        let before = resolved(names.drop_last());
        if names.last() == seq!['.', '.'] {
            if before.len() > 0 {
                before.drop_last()
            } else {
                before
            }
        } else {
            before.push(names.last())
        }
    }
}

/// The normal form of `s`: same root marker, names resolved.
pub open spec fn normalized(s: Seq<char>) -> Seq<char> {
    rendered(PathModel { absolute: is_absolute(s), names: resolved(components(s)) })
}

/// `base` followed by `rel` with one separator between them; `rel` alone
/// where it starts at the root or `base` is empty.
pub open spec fn joined_path(base: Seq<char>, rel: Seq<char>) -> Seq<char> {
    if is_absolute(rel) || base.len() == 0 {
        rel
    } else if base.last() == '/' {
        base + rel
    } else {
        base + seq!['/'] + rel
    }
}

/// Whether `base` is `path` or one of its ancestors.
pub open spec fn is_under(path: Seq<char>, base: Seq<char>) -> bool {
    &&& is_absolute(path) == is_absolute(base)
    &&& components(base).len() <= components(path).len()
    &&& components(path).take(components(base).len() as int) == components(base)
}

/// The names of `path` below `base`.
pub open spec fn names_below(path: Seq<char>, base: Seq<char>) -> Seq<Seq<char>> {
    components(path).skip(components(base).len() as int)
}

/// `path` as seen from `base`, where `base` is `path` or an ancestor of it.
pub open spec fn relative_to(path: Seq<char>, base: Seq<char>) -> Option<Seq<char>> {
    if is_under(path, base) {
        Some(joined(names_below(path, base)))
    } else {
        None
    }
}

/// The path one name shorter than `s`; none where `s` has no name.
pub open spec fn parent_of(s: Seq<char>) -> Option<Seq<char>> {
    if components(s).len() == 0 {
        None
    } else {
        Some(rendered(PathModel { absolute: is_absolute(s), names: components(s).drop_last() }))
    }
}

/// The last name of `s`; none where `s` has no name.
pub open spec fn last_name(s: Seq<char>) -> Option<Seq<char>> {
    if components(s).len() == 0 {
        None
    } else {
        Some(components(s).last())
    }
}

/// A name as it can stand in a rendered path: a name without a separator.
pub open spec fn is_plain_name(name: Seq<char>) -> bool {
    is_name(name) && forall|i: int| 0 <= i < name.len() ==> name[i] != '/'
}

/// Every element is a plain name.
pub open spec fn all_plain(names: Seq<Seq<char>>) -> bool {
    forall|i: int| 0 <= i < names.len() ==> is_plain_name(#[trigger] names[i])
}

/// A path read into its parts.
pub struct LexicalPath {
    pub absolute: bool,
    pub names: Vec<Vec<char>>,
}

impl View for LexicalPath {
    type V = PathModel;

    open spec fn view(&self) -> PathModel {
        PathModel { absolute: self.absolute, names: char_rows(self.names@) }
    }
}

/// Whether `segment` is a name.
pub fn holds_name(segment: &Vec<char>) -> (yes: bool)
    ensures
        yes == is_name(segment@),
{
    if segment.len() == 0 {
        return false;
    }
    if segment.len() == 1 && segment[0] == '.' {
        assert(segment@ =~= seq!['.']);
        return false;
    }
    assert(segment@ != seq!['.']) by {
        if segment@ == seq!['.'] {
            assert(seq!['.'].len() == 1);
            assert(seq!['.'][0] == '.');
        }
    }
    true
}

/// Whether `name` is `..`.
pub fn is_parent_mark(name: &Vec<char>) -> (yes: bool)
    ensures
        yes == (name@ == seq!['.', '.']),
{
    if name.len() == 2 && name[0] == '.' && name[1] == '.' {
        assert(name@ =~= seq!['.', '.']);
        true
    } else {
        assert(name@ != seq!['.', '.']) by {
            if name@ == seq!['.', '.'] {
                assert(seq!['.', '.'].len() == 2);
                assert(seq!['.', '.'][0] == '.');
                assert(seq!['.', '.'][1] == '.');
            }
        }
        false
    }
}

/// Reads the characters of a path into its parts.
pub fn read_path(s: &Vec<char>) -> (p: LexicalPath)
    ensures
        p@ == model(s@),
{
    let mut names: Vec<Vec<char>> = Vec::new();
    let mut current: Vec<char> = Vec::new();
    let mut i: usize = 0;
    let ghost mut done: Seq<Seq<char>> = Seq::empty();
    while i < s.len()
        invariant
            i <= s.len(),
            done.len() == names@.len(),
            forall|k: int| 0 <= k < done.len() ==> done[k] == (#[trigger] names@[k])@,
            done == names_of(segments(s@.take(i as int)).drop_last()),
            current@ == segments(s@.take(i as int)).last(),
            segments(s@.take(i as int)).len() > 0,
        decreases s.len() - i,
    {
        let c = s[i];
        proof {
            let before = s@.take(i as int);
            let now = s@.take(i + 1);
            assert(now.drop_last() =~= before);
            assert(now.last() == c);
            let segs = segments(before);
            if c == '/' {
                assert(segments(now) == segs.push(Seq::<char>::empty()));
                assert(segments(now).drop_last() =~= segs);
            } else {
                assert(segments(now) == segs.drop_last().push(segs.last().push(c)));
                assert(segments(now).drop_last() =~= segs.drop_last());
            }
        }
        if c == '/' {
            if holds_name(&current) {
                proof {
                    done = done.push(current@);
                }
                names.push(current);
            }
            current = Vec::new();
        } else {
            current.push(c);
        }
        i += 1;
    }
    proof {
        assert(s@.take(s.len() as int) =~= s@);
    }
    if holds_name(&current) {
        proof {
            done = done.push(current@);
        }
        names.push(current);
    }
    let p = LexicalPath { absolute: s.len() > 0 && s[0] == '/', names };
    assert(char_rows(p.names@) =~= done);
    p
}

/// Writes the parts of a path as the shortest text that means them.
pub fn write_path(p: &LexicalPath) -> (out: Vec<char>)
    ensures
        out@ == rendered(p@),
{
    let mut out: Vec<char> = Vec::new();
    if p.absolute {
        out.push('/');
    }
    let ghost head: Seq<char> = out@;
    assert(head =~= if p.absolute {
        seq!['/']
    } else {
        Seq::<char>::empty()
    });
    let mut k: usize = 0;
    while k < p.names.len()
        invariant
            k <= p.names.len(),
            out@ == head + joined(char_rows(p.names@).take(k as int)),
        decreases p.names.len() - k,
    {
        proof {
            let now = char_rows(p.names@).take(k + 1);
            assert(now.drop_last() =~= char_rows(p.names@).take(k as int));
            assert(now.last() == p.names@[k as int]@);
            if k == 0 {
                assert(now[0] == p.names@[0]@);
                assert(joined(char_rows(p.names@).take(0)) =~= Seq::<char>::empty());
            }
        }
        if k > 0 {
            out.push('/');
        }
        append_chars(&mut out, &p.names[k]);
        k += 1;
        assert(out@ =~= head + joined(char_rows(p.names@).take(k as int)));
    }
    assert(char_rows(p.names@).take(p.names.len() as int) =~= char_rows(p.names@));
    assert(out@ =~= rendered(p@));
    out
}

/// Cancels every `..` against the name before it.
pub fn resolve_names(names: &Vec<Vec<char>>) -> (out: Vec<Vec<char>>)
    ensures
        char_rows(out@) == resolved(char_rows(names@)),
{
    let mut out: Vec<Vec<char>> = Vec::new();
    let mut k: usize = 0;
    assert(char_rows(names@).take(0) =~= Seq::<Seq<char>>::empty());
    while k < names.len()
        invariant
            k <= names.len(),
            char_rows(out@) == resolved(char_rows(names@).take(k as int)),
        decreases names.len() - k,
    {
        proof {
            let now = char_rows(names@).take(k + 1);
            assert(now.drop_last() =~= char_rows(names@).take(k as int));
            assert(now.last() == names@[k as int]@);
        }
        let ghost before = char_rows(out@);
        if is_parent_mark(&names[k]) {
            if out.len() > 0 {
                out.pop();
                assert(char_rows(out@) =~= before.drop_last());
            }
        } else {
            out.push(copy_chars(&names[k]));
            assert(char_rows(out@) =~= before.push(names@[k as int]@));
        }
        k += 1;
    }
    assert(char_rows(names@).take(names.len() as int) =~= char_rows(names@));
    out
}

/// The normal form of a path, on its characters.
pub fn normalize_chars(s: &Vec<char>) -> (out: Vec<char>)
    ensures
        out@ == normalized(s@),
{
    let p = read_path(s);
    let tidy = LexicalPath { absolute: p.absolute, names: resolve_names(&p.names) };
    write_path(&tidy)
}

/// `base` followed by `rel`, on their characters.
pub fn join_chars(base: &Vec<char>, rel: &Vec<char>) -> (out: Vec<char>)
    ensures
        out@ == joined_path(base@, rel@),
{
    if (rel.len() > 0 && rel[0] == '/') || base.len() == 0 {
        return copy_chars(rel);
    }
    let mut out = copy_chars(base);
    if base[base.len() - 1] != '/' {
        out.push('/');
        assert(out@ =~= base@ + seq!['/']);
    }
    append_chars(&mut out, rel);
    out
}

/// Whether the names of `base` open the names of `path`.
pub fn names_open_with(path: &Vec<Vec<char>>, base: &Vec<Vec<char>>) -> (yes: bool)
    ensures
        yes == (base@.len() <= path@.len() && char_rows(path@).take(base@.len() as int)
            == char_rows(base@)),
{
    if base.len() > path.len() {
        return false;
    }
    let mut k: usize = 0;
    while k < base.len()
        invariant
            k <= base.len(),
            base.len() <= path.len(),
            forall|j: int| 0 <= j < k ==> path@[j]@ == base@[j]@,
        decreases base.len() - k,
    {
        if !chars_equal(&path[k], &base[k]) {
            assert(char_rows(path@).take(base@.len() as int)[k as int] == path@[k as int]@);
            assert(char_rows(base@)[k as int] == base@[k as int]@);
            return false;
        }
        k += 1;
    }
    assert(char_rows(path@).take(base@.len() as int) =~= char_rows(base@));
    true
}

/// `path` as seen from `base`, on their characters.
pub fn relative_chars(path: &Vec<char>, base: &Vec<char>) -> (out: Option<Vec<char>>)
    ensures
        match out {
            Some(rel) => relative_to(path@, base@) == Some(rel@),
            None => relative_to(path@, base@) is None,
        },
{
    let p = read_path(path);
    let b = read_path(base);
    if p.absolute != b.absolute || !names_open_with(&p.names, &b.names) {
        return None;
    }
    let mut rest: Vec<Vec<char>> = Vec::new();
    let mut k: usize = b.names.len();
    while k < p.names.len()
        invariant
            b.names.len() <= k <= p.names.len(),
            char_rows(rest@) == char_rows(p.names@).subrange(b.names.len() as int, k as int),
        decreases p.names.len() - k,
    {
        let ghost before = char_rows(rest@);
        rest.push(copy_chars(&p.names[k]));
        k += 1;
        assert(char_rows(rest@) =~= before.push(p.names@[k - 1]@));
        assert(char_rows(p.names@).subrange(b.names.len() as int, k as int) =~= char_rows(
            p.names@,
        ).subrange(b.names.len() as int, k - 1).push(p.names@[k - 1]@));
    }
    assert(char_rows(rest@) =~= names_below(path@, base@));
    let below = LexicalPath { absolute: false, names: rest };
    Some(write_path(&below))
}

/// The path one name shorter, on its characters.
pub fn parent_chars(s: &Vec<char>) -> (out: Option<Vec<char>>)
    ensures
        match out {
            Some(up) => parent_of(s@) == Some(up@),
            None => parent_of(s@) is None,
        },
{
    let mut p = read_path(s);
    if p.names.len() == 0 {
        return None;
    }
    let ghost before = char_rows(p.names@);
    p.names.pop();
    assert(char_rows(p.names@) =~= before.drop_last());
    Some(write_path(&p))
}

/// The last name of a path, on its characters.
pub fn last_name_chars(s: &Vec<char>) -> (out: Option<Vec<char>>)
    ensures
        match out {
            Some(name) => last_name(s@) == Some(name@),
            None => last_name(s@) is None,
        },
{
    let mut p = read_path(s);
    let ghost before = char_rows(p.names@);
    match p.names.pop() {
        Some(name) => {
            assert(before.last() == name@);
            Some(name)
        },
        None => None,
    }
}

/// The normal form of `path`: the root marker kept, empty and `.` segments
/// dropped, every `..` cancelled against the name before it.
pub fn normalize_path(path: &str) -> (out: String)
    ensures
        out@ == normalized(path@),
{
    from_chars(&normalize_chars(&to_chars(path)))
}

/// `base` followed by `rel`; `rel` alone where it starts at the root or
/// `base` is empty.
pub fn join(base: &str, rel: &str) -> (out: String)
    ensures
        out@ == joined_path(base@, rel@),
{
    from_chars(&join_chars(&to_chars(base), &to_chars(rel)))
}

/// `path` as seen from `base`: its names below those of `base`. None unless
/// both start alike at the root and the names of `base` open those of `path`.
pub fn strip_prefix(path: &str, base: &str) -> (out: Option<String>)
    ensures
        match out {
            Some(rel) => relative_to(path@, base@) == Some(rel@),
            None => relative_to(path@, base@) is None,
        },
{
    match relative_chars(&to_chars(path), &to_chars(base)) {
        Some(rel) => Some(from_chars(&rel)),
        None => None,
    }
}

/// The path one name shorter than `path`; none where `path` has no name.
pub fn parent(path: &str) -> (out: Option<String>)
    ensures
        match out {
            Some(up) => parent_of(path@) == Some(up@),
            None => parent_of(path@) is None,
        },
{
    match parent_chars(&to_chars(path)) {
        Some(up) => Some(from_chars(&up)),
        None => None,
    }
}

/// The last name of `path`; none where `path` has no name.
pub fn file_name(path: &str) -> (out: Option<String>)
    ensures
        match out {
            Some(name) => last_name(path@) == Some(name@),
            None => last_name(path@) is None,
        },
{
    match last_name_chars(&to_chars(path)) {
        Some(name) => Some(from_chars(&name)),
        None => None,
    }
}

/// The ancestor of a path that keeps its first `count` names, on its
/// characters.
pub fn ancestor_chars(p: &LexicalPath, count: usize) -> (out: Vec<char>)
    requires
        count <= p.names@.len(),
    ensures
        out@ == rendered(
            PathModel { absolute: p.absolute, names: char_rows(p.names@).take(count as int) },
        ),
{
    let mut kept: Vec<Vec<char>> = Vec::new();
    let mut k: usize = 0;
    while k < count
        invariant
            k <= count <= p.names@.len(),
            char_rows(kept@) == char_rows(p.names@).take(k as int),
        decreases count - k,
    {
        let ghost before = char_rows(kept@);
        kept.push(copy_chars(&p.names[k]));
        k += 1;
        assert(char_rows(kept@) =~= before.push(p.names@[k - 1]@));
        assert(char_rows(p.names@).take(k as int) =~= char_rows(p.names@).take(k - 1).push(
            p.names@[k - 1]@,
        ));
    }
    let up = LexicalPath { absolute: p.absolute, names: kept };
    write_path(&up)
}

} // verus!
