//! Targets named on the command line: `schema.object` and
//! `schema.object.column`, split at their dots.

use vstd::prelude::*;

verus! {

/// The parts of `s` between its dots, in order, as `str::split('.')` yields
/// them: one more part than there are dots, empty parts included.
pub open spec fn split_on_dots(s: Seq<char>) -> Seq<Seq<char>>
    decreases s.len(),
{
    if s.len() == 0 {
        seq![Seq::empty()]
    } else {
        let parts = split_on_dots(s.drop_last());
        if s.last() == '.' {
            parts.push(Seq::empty())
        } else {
            parts.update(parts.len() - 1, parts.last().push(s.last()))
        }
    }
}

/// `parts` joined with dots between them.
pub open spec fn join_with_dots(parts: Seq<Seq<char>>) -> Seq<char>
    decreases parts.len(),
{
    if parts.len() <= 1 {
        if parts.len() == 0 {
            Seq::empty()
        } else {
            parts[0]
        }
    } else {
        join_with_dots(parts.drop_last()) + seq!['.'] + parts.last()
    }
}

pub open spec fn has_no_dot(s: Seq<char>) -> bool {
    forall|i: int| 0 <= i < s.len() ==> s[i] != '.'
}

pub open spec fn string_views(v: Seq<String>) -> Seq<Seq<char>> {
    v.map_values(|s: String| s@)
}

pub proof fn lemma_split_nonempty(s: Seq<char>)
    ensures
        split_on_dots(s).len() >= 1,
    decreases s.len(),
{
    if s.len() > 0 {
        lemma_split_nonempty(s.drop_last());
    }
}

/// Splits `target` at its dots.
pub fn split_target(target: &str) -> (parts: Vec<String>)
    ensures
        string_views(parts@) == split_on_dots(target@),
{
    let n = target.unicode_len();
    let mut parts: Vec<String> = Vec::new();
    let mut start: usize = 0;
    let mut i: usize = 0;
    proof {
        assert(target@.take(0) =~= Seq::<char>::empty());
        assert(string_views(parts@) =~= split_on_dots(target@.take(0)).drop_last());
    }
    while i < n
        invariant
            n == target@.len(),
            start <= i <= n,
            split_on_dots(target@.take(i as int)).len() >= 1,
            string_views(parts@) =~= split_on_dots(target@.take(i as int)).drop_last(),
            split_on_dots(target@.take(i as int)).last() =~= target@.subrange(
                start as int,
                i as int,
            ),
        decreases n - i,
    {
        let c = target.get_char(i);
        let ghost before = split_on_dots(target@.take(i as int));
        assert(target@.take(i + 1).drop_last() =~= target@.take(i as int));
        assert(target@.take(i + 1).last() == c);
        if c == '.' {
            let piece = target.substring_char(start, i);
            parts.push(String::from_str(piece));
            assert(before.push(Seq::<char>::empty()).drop_last() =~= before);
            assert(before =~= before.drop_last().push(before.last()));
            start = i + 1;
        } else {
            assert(target@.subrange(start as int, i + 1) =~= target@.subrange(
                start as int,
                i as int,
            ).push(c));
        }
        i = i + 1;
    }
    let piece = target.substring_char(start, n);
    parts.push(String::from_str(piece));
    proof {
        let whole = split_on_dots(target@.take(n as int));
        assert(target@.take(n as int) =~= target@);
        assert(whole =~= whole.drop_last().push(whole.last()));
        assert(string_views(parts@) =~= whole);
    }
    parts
}

/// Splitting at the dots and joining the parts with dots gives back the text.
pub proof fn lemma_split_join(s: Seq<char>)
    ensures
        join_with_dots(split_on_dots(s)) == s,
        forall|k: int|
            0 <= k < split_on_dots(s).len() ==> has_no_dot(#[trigger] split_on_dots(s)[k]),
    decreases s.len(),
{
    if s.len() > 0 {
        let t = s.drop_last();
        lemma_split_join(t);
        lemma_split_nonempty(t);
        let parts = split_on_dots(t);
        if s.last() == '.' {
            let p2 = parts.push(Seq::empty());
            assert(p2.drop_last() =~= parts);
            assert(join_with_dots(p2) =~= s);
        } else {
            let p2 = parts.update(parts.len() - 1, parts.last().push(s.last()));
            if parts.len() == 1 {
                assert(join_with_dots(parts) == parts[0]);
                assert(p2[0] == parts.last().push(s.last()));
                assert(s =~= t.push(s.last()));
                assert(join_with_dots(p2) =~= s);
            } else {
                assert(p2.drop_last() =~= parts.drop_last());
                assert(join_with_dots(parts) == join_with_dots(parts.drop_last()) + seq!['.']
                    + parts.last());
                assert(p2.last() == parts.last().push(s.last()));
                assert(join_with_dots(p2) == join_with_dots(parts.drop_last()) + seq!['.'] + p2.last());
                assert(s =~= t.push(s.last()));
                assert(join_with_dots(p2) =~= s);
            }
            assert forall|k: int| 0 <= k < p2.len() implies has_no_dot(#[trigger] p2[k]) by {
                if k < p2.len() - 1 {
                    assert(p2[k] == parts[k]);
                } else {
                    assert(has_no_dot(parts.last()));
                }
            }
        }
    }
}

proof fn lemma_split_append_plain(s: Seq<char>, t: Seq<char>)
    requires
        has_no_dot(t),
    ensures
        split_on_dots(s + t) == split_on_dots(s).update(
            split_on_dots(s).len() - 1,
            split_on_dots(s).last() + t,
        ),
    decreases t.len(),
{
    lemma_split_nonempty(s);
    if t.len() == 0 {
        assert(s + t =~= s);
        assert(split_on_dots(s).last() + t =~= split_on_dots(s).last());
        assert(split_on_dots(s).update(split_on_dots(s).len() - 1, split_on_dots(s).last())
            =~= split_on_dots(s));
    } else {
        let u = t.drop_last();
        lemma_split_append_plain(s, u);
        assert((s + t).drop_last() =~= s + u);
        assert((s + t).last() == t.last());
        let ps = split_on_dots(s);
        let pu = split_on_dots(s + u);
        assert(pu.last() =~= ps.last() + u);
        assert(pu.last().push(t.last()) =~= ps.last() + t);
        assert(split_on_dots(s + t) =~= ps.update(ps.len() - 1, ps.last() + t));
    }
}

/// Text without dots is a single part.
proof fn lemma_split_plain(t: Seq<char>)
    requires
        has_no_dot(t),
    ensures
        split_on_dots(t) == seq![t],
{
    lemma_split_append_plain(Seq::empty(), t);
    assert(Seq::<char>::empty() + t =~= t);
    assert(split_on_dots(Seq::<char>::empty()) == seq![Seq::<char>::empty()]);
    assert(Seq::<char>::empty() + t =~= t);
    assert(seq![Seq::<char>::empty()].update(0, Seq::<char>::empty() + t) =~= seq![t]);
}

/// Writing dot-free parts joined by one dot and splitting the result again
/// gives the parts back.
pub proof fn lemma_split_two(a: Seq<char>, b: Seq<char>)
    requires
        has_no_dot(a),
        has_no_dot(b),
    ensures
        split_on_dots(a + seq!['.'] + b) == seq![a, b],
{
    lemma_split_plain(a);
    let ad = a.push('.');
    assert(ad.drop_last() =~= a);
    assert(split_on_dots(ad) =~= seq![a, Seq::<char>::empty()]);
    lemma_split_append_plain(ad, b);
    assert(a + seq!['.'] + b =~= ad + b);
    assert(Seq::<char>::empty() + b =~= b);
    assert(seq![a, Seq::<char>::empty()].update(1, Seq::<char>::empty() + b) =~= seq![a, b]);
}

/// Writing three dot-free parts joined by dots and splitting the result again
/// gives the parts back.
pub proof fn lemma_split_three(a: Seq<char>, b: Seq<char>, c: Seq<char>)
    requires
        has_no_dot(a),
        has_no_dot(b),
        has_no_dot(c),
    ensures
        split_on_dots(a + seq!['.'] + b + seq!['.'] + c) == seq![a, b, c],
{
    lemma_split_two(a, b);
    let ab = a + seq!['.'] + b;
    let abd = ab.push('.');
    assert(abd.drop_last() =~= ab);
    assert(split_on_dots(abd) =~= seq![a, b, Seq::<char>::empty()]);
    lemma_split_append_plain(abd, c);
    assert(a + seq!['.'] + b + seq!['.'] + c =~= abd + c);
    assert(Seq::<char>::empty() + c =~= c);
    assert(seq![a, b, Seq::<char>::empty()].update(2, Seq::<char>::empty() + c) =~= seq![a, b, c]);
}

} // verus!
