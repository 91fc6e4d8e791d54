//! What holds of the path algebra: how reading a path goes together with
//! joining, rendering and normalizing it.

use vstd::prelude::*;
use crate::paths::{
    all_plain, components, is_absolute, is_name, is_plain_name, is_under, joined, joined_path,
    model, names_below, names_of, normalized, relative_to, rendered, resolved, segments,
    PathModel,
};

verus! {

/// Every text has at least one segment.
pub proof fn lemma_segments_nonempty(s: Seq<char>)
    ensures
        segments(s).len() >= 1,
    decreases s.len(),
{
    if s.len() > 0 {
        lemma_segments_nonempty(s.drop_last());
    }
}

/// The segments of two texts with a separator between them are the
/// segments of the first followed by those of the second.
pub proof fn lemma_segments_around_separator(s: Seq<char>, t: Seq<char>)
    ensures
        segments(s + seq!['/'] + t) == segments(s) + segments(t),
    decreases t.len(),
{
    let whole = s + seq!['/'] + t;
    lemma_segments_nonempty(s);
    if t.len() == 0 {
        assert(whole.drop_last() =~= s);
        assert(whole.last() == '/');
        assert(segments(whole) == segments(s).push(Seq::<char>::empty()));
        assert(segments(s).push(Seq::<char>::empty()) =~= segments(s) + segments(t));
    } else {
        let shorter = t.drop_last();
        let c = t.last();
        assert(whole.drop_last() =~= s + seq!['/'] + shorter);
        assert(whole.last() == c);
        lemma_segments_around_separator(s, shorter);
        lemma_segments_nonempty(shorter);
        let before = segments(s) + segments(shorter);
        if c == '/' {
            assert(before.push(Seq::<char>::empty()) =~= segments(s) + segments(shorter).push(
                Seq::<char>::empty(),
            ));
        } else {
            assert(before.last() == segments(shorter).last());
            assert(before.drop_last() =~= segments(s) + segments(shorter).drop_last());
            assert(before.drop_last().push(before.last().push(c)) =~= segments(s) + segments(
                shorter,
            ).drop_last().push(segments(shorter).last().push(c)));
        }
    }
}

/// The names of two runs of segments, one behind the other, are the names
/// of the first followed by those of the second.
pub proof fn lemma_names_of_concat(a: Seq<Seq<char>>, b: Seq<Seq<char>>)
    ensures
        names_of(a + b) == names_of(a) + names_of(b),
    decreases b.len(),
{
    if b.len() == 0 {
        assert(a + b =~= a);
        assert(names_of(a) + names_of(b) =~= names_of(a));
    } else {
        assert((a + b).drop_last() =~= a + b.drop_last());
        assert((a + b).last() == b.last());
        lemma_names_of_concat(a, b.drop_last());
        if is_name(b.last()) {
            assert((names_of(a) + names_of(b.drop_last())).push(b.last()) =~= names_of(a)
                + names_of(b.drop_last()).push(b.last()));
        }
    }
}

/// A single segment has itself as its only name where it is a name, and no
/// name else.
pub proof fn lemma_names_of_single(x: Seq<char>)
    ensures
        names_of(seq![x]) == if is_name(x) {
            seq![x]
        } else {
            Seq::<Seq<char>>::empty()
        },
{
    reveal_with_fuel(names_of, 2);
    assert(seq![x].drop_last() =~= Seq::<Seq<char>>::empty());
    assert(seq![x].last() == x);
    assert(Seq::<Seq<char>>::empty().push(x) =~= seq![x]);
}

/// The empty text has no names.
pub proof fn lemma_empty_has_no_names()
    ensures
        components(Seq::<char>::empty()) == Seq::<Seq<char>>::empty(),
{
    assert(segments(Seq::<char>::empty()) =~= seq![Seq::<char>::empty()]);
    lemma_names_of_single(Seq::<char>::empty());
}

/// A text without a separator is its own single segment.
pub proof fn lemma_segments_of_plain(x: Seq<char>)
    requires
        forall|i: int| 0 <= i < x.len() ==> x[i] != '/',
    ensures
        segments(x) == seq![x],
    decreases x.len(),
{
    if x.len() == 0 {
        assert(x =~= Seq::<char>::empty());
        assert(segments(x) =~= seq![x]);
    } else {
        lemma_segments_of_plain(x.drop_last());
        let before = segments(x.drop_last());
        assert(before.last() == x.drop_last());
        assert(x.drop_last().push(x.last()) =~= x);
        assert(before.drop_last().push(before.last().push(x.last())) =~= seq![x]);
    }
}

/// No segment holds a separator.
pub proof fn lemma_segments_hold_no_separator(s: Seq<char>)
    ensures
        forall|k: int, i: int|
            0 <= k < segments(s).len() && 0 <= i < segments(s)[k].len() ==> segments(s)[k][i]
                != '/',
    decreases s.len(),
{
    if s.len() > 0 {
        lemma_segments_hold_no_separator(s.drop_last());
        lemma_segments_nonempty(s.drop_last());
    }
}

/// The names of a run of segments are names, and hold no separator where
/// the segments hold none.
pub proof fn lemma_names_are_plain(segs: Seq<Seq<char>>)
    requires
        forall|k: int, i: int|
            0 <= k < segs.len() && 0 <= i < segs[k].len() ==> segs[k][i] != '/',
    ensures
        all_plain(names_of(segs)),
    decreases segs.len(),
{
    if segs.len() > 0 {
        lemma_names_are_plain(segs.drop_last());
        assert(forall|i: int| 0 <= i < segs.last().len() ==> segs.last()[i] != '/') by {
            assert(segs.last() == segs[segs.len() - 1]);
        }
    }
}

/// The names of a path are plain names: not empty, not `.`, without a
/// separator.
pub proof fn lemma_components_are_plain(s: Seq<char>)
    ensures
        all_plain(components(s)),
{
    lemma_segments_hold_no_separator(s);
    lemma_names_are_plain(segments(s));
}

/// The text of plain names joined by separators does not start at the
/// root, and reads back as those names.
pub proof fn lemma_joined_reads_back(names: Seq<Seq<char>>)
    requires
        all_plain(names),
    ensures
        components(joined(names)) == names,
        !is_absolute(joined(names)),
        names.len() > 0 ==> joined(names).len() > 0,
    decreases names.len(),
{
    if names.len() == 0 {
        assert(joined(names) =~= Seq::<char>::empty());
        lemma_empty_has_no_names();
        assert(components(joined(names)) =~= names);
    } else if names.len() == 1 {
        let x = names[0];
        assert(is_plain_name(x));
        lemma_segments_of_plain(x);
        lemma_names_of_single(x);
        assert(seq![x] =~= names);
    } else {
        let front = names.drop_last();
        let x = names.last();
        assert(is_plain_name(x));
        assert(all_plain(front)) by {
            assert forall|i: int| 0 <= i < front.len() implies is_plain_name(
                #[trigger] front[i],
            ) by {
                assert(front[i] == names[i]);
            }
        }
        lemma_joined_reads_back(front);
        lemma_segments_around_separator(joined(front), x);
        lemma_segments_of_plain(x);
        lemma_names_of_concat(segments(joined(front)), seq![x]);
        lemma_names_of_single(x);
        assert(front + seq![x] =~= names);
        assert(joined(names)[0] == joined(front)[0]);
    }
}

/// The shortest text of a meaning with plain names reads back as that
/// meaning.
pub proof fn lemma_rendered_reads_back(m: PathModel)
    requires
        all_plain(m.names),
    ensures
        model(rendered(m)) == m,
{
    lemma_joined_reads_back(m.names);
    if m.absolute {
        let text = joined(m.names);
        assert(seq!['/'] + text =~= Seq::<char>::empty() + seq!['/'] + text);
        lemma_segments_around_separator(Seq::<char>::empty(), text);
        lemma_names_of_concat(segments(Seq::<char>::empty()), segments(text));
        lemma_empty_has_no_names();
        assert(Seq::<Seq<char>>::empty() + components(text) =~= components(text));
        assert((seq!['/'] + text)[0] == '/');
    }
}

/// Joining a path that does not start at the root onto a base keeps the
/// base's root marker and puts the names of the path behind those of the
/// base.
pub proof fn lemma_join_appends_names(base: Seq<char>, rel: Seq<char>)
    requires
        !is_absolute(rel),
    ensures
        components(joined_path(base, rel)) == components(base) + components(rel),
        base.len() > 0 ==> is_absolute(joined_path(base, rel)) == is_absolute(base),
{
    if base.len() == 0 {
        assert(base =~= Seq::<char>::empty());
        lemma_empty_has_no_names();
        assert(components(base) + components(rel) =~= components(rel));
    } else if base.last() == '/' {
        let front = base.drop_last();
        assert(base + rel =~= front + seq!['/'] + rel);
        lemma_segments_around_separator(front, rel);
        lemma_names_of_concat(segments(front), segments(rel));
        let closed = segments(front).push(Seq::<char>::empty());
        assert(segments(base) == closed);
        assert(closed.drop_last() =~= segments(front));
        assert(names_of(closed) == names_of(segments(front)));
        assert((base + rel)[0] == base[0]);
    } else {
        lemma_segments_around_separator(base, rel);
        lemma_names_of_concat(segments(base), segments(rel));
        assert((base + seq!['/'] + rel)[0] == base[0]);
    }
}

/// Whether none of `names` is `..`.
pub open spec fn free_of_parent_marks(names: Seq<Seq<char>>) -> bool {
    forall|i: int| 0 <= i < names.len() ==> #[trigger] names[i] != seq!['.', '.']
}

/// Resolving plain names leaves plain names, none of them `..`, and no
/// more of them than there were.
pub proof fn lemma_resolved_is_clean(names: Seq<Seq<char>>)
    requires
        all_plain(names),
    ensures
        all_plain(resolved(names)),
        free_of_parent_marks(resolved(names)),
        resolved(names).len() <= names.len(),
    decreases names.len(),
{
    if names.len() > 0 {
        let front = names.drop_last();
        assert(all_plain(front)) by {
            assert forall|i: int| 0 <= i < front.len() implies is_plain_name(
                #[trigger] front[i],
            ) by {
                assert(front[i] == names[i]);
            }
        }
        lemma_resolved_is_clean(front);
        let before = resolved(front);
        assert(is_plain_name(names[names.len() - 1]));
        if names.last() == seq!['.', '.'] {
            if before.len() > 0 {
                let cut = before.drop_last();
                assert forall|i: int| 0 <= i < cut.len() implies is_plain_name(
                    #[trigger] cut[i],
                ) && cut[i] != seq!['.', '.'] by {
                    assert(cut[i] == before[i]);
                }
            }
        } else {
            let more = before.push(names.last());
            assert forall|i: int| 0 <= i < more.len() implies is_plain_name(#[trigger] more[i])
                && more[i] != seq!['.', '.'] by {
                if i < before.len() {
                    assert(more[i] == before[i]);
                }
            }
        }
    }
}

/// Names without `..` resolve to themselves.
pub proof fn lemma_resolved_keeps_clean_names(names: Seq<Seq<char>>)
    requires
        free_of_parent_marks(names),
    ensures
        resolved(names) == names,
    decreases names.len(),
{
    if names.len() == 0 {
        assert(resolved(names) =~= names);
    } else {
        let front = names.drop_last();
        assert(free_of_parent_marks(front)) by {
            assert forall|i: int| 0 <= i < front.len() implies #[trigger] front[i] != seq![
                '.',
                '.',
            ] by {
                assert(front[i] == names[i]);
            }
        }
        lemma_resolved_keeps_clean_names(front);
        assert(names[names.len() - 1] != seq!['.', '.']);
        assert(front.push(names.last()) =~= names);
    }
}

/// A normal form keeps the root marker of its path, has the resolved names
/// of its path as its names, none of them `..`, and is the shortest text
/// of its meaning: no doubled separator, no `.` segment, no separator at
/// its end. Normalizing it again changes nothing.
pub proof fn lemma_normalized_is_normal(s: Seq<char>)
    ensures
        model(normalized(s)) == (PathModel {
            absolute: is_absolute(s),
            names: resolved(components(s)),
        }),
        free_of_parent_marks(components(normalized(s))),
        rendered(model(normalized(s))) == normalized(s),
        normalized(normalized(s)) == normalized(s),
{
    lemma_components_are_plain(s);
    lemma_resolved_is_clean(components(s));
    let m = PathModel { absolute: is_absolute(s), names: resolved(components(s)) };
    lemma_rendered_reads_back(m);
    lemma_resolved_keeps_clean_names(m.names);
}

/// A path joined onto a base lies under that base, and seen from the base
/// it is the path again, in its shortest text.
pub proof fn lemma_joined_lies_under_base(base: Seq<char>, rel: Seq<char>)
    requires
        !is_absolute(rel),
    ensures
        is_under(joined_path(base, rel), base),
        names_below(joined_path(base, rel), base) == components(rel),
        relative_to(joined_path(base, rel), base) == Some(joined(components(rel))),
{
    lemma_join_appends_names(base, rel);
    let whole = components(base) + components(rel);
    assert(whole.take(components(base).len() as int) =~= components(base));
    assert(whole.skip(components(base).len() as int) =~= components(rel));
}

/// What a path is seen from a base reads back as the names of the path
/// below that base, and does not start at the root.
pub proof fn lemma_relative_reads_back(path: Seq<char>, base: Seq<char>)
    requires
        is_under(path, base),
    ensures
        relative_to(path, base) is Some,
        components(relative_to(path, base)->0) == names_below(path, base),
        !is_absolute(relative_to(path, base)->0),
        all_plain(names_below(path, base)),
{
    lemma_components_are_plain(path);
    let below = names_below(path, base);
    assert(all_plain(below)) by {
        assert forall|i: int| 0 <= i < below.len() implies is_plain_name(#[trigger] below[i]) by {
            assert(below[i] == components(path)[i + components(base).len()]);
        }
    }
    lemma_joined_reads_back(below);
}

} // verus!
