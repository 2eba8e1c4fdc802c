//! Splitting and joining of tracker lists around a separator, with the
//! round-trip relation between the two.

use vstd::prelude::*;
use vstd::string::StrSliceExecFns;
use vstd::string::StringExecFns;

verus! {

/// The views of a sequence of strings.
pub open spec fn views(l: Seq<String>) -> Seq<Seq<char>> {
    l.map_values(|x: String| x@)
}

/// Position of the first occurrence of `sep` in `s` at or after `from`,
/// if any.
pub open spec fn spec_find(s: Seq<char>, sep: Seq<char>, from: int) -> Option<int>
    decreases s.len() - from,
        when 0 <= from && 0 < sep.len()
{
    if from + sep.len() > s.len() {
        None::<int>
    } else if s.subrange(from, from + sep.len()) == sep {
        Some(from)
    } else {
        spec_find(s, sep, from + 1)
    }
}

pub proof fn lemma_find_bounds(s: Seq<char>, sep: Seq<char>, from: int)
    requires
        0 <= from,
        0 < sep.len(),
    ensures
        spec_find(s, sep, from) matches Some(i) ==> from <= i && i + sep.len() <= s.len(),
    decreases s.len() - from,
{
    if from + sep.len() > s.len() {
    } else if s.subrange(from, from + sep.len()) == sep {
    } else {
        lemma_find_bounds(s, sep, from + 1);
    }
}

/// The pieces of `s` between the occurrences of `sep`, in order.
pub open spec fn spec_split(s: Seq<char>, sep: Seq<char>) -> Seq<Seq<char>>
    decreases s.len(),
        when 0 < sep.len()
        via spec_split_decreases
{
    match spec_find(s, sep, 0) {
        None => seq![s],
        Some(i) => seq![s.subrange(0, i)] + spec_split(
            s.subrange(i + sep.len(), s.len() as int),
            sep,
        ),
    }
}

#[via_fn]
proof fn spec_split_decreases(s: Seq<char>, sep: Seq<char>) {
    if 0 < sep.len() {
        lemma_find_bounds(s, sep, 0);
    }
}

/// The elements of `parts` concatenated, with `sep` between neighbours.
pub open spec fn spec_join(parts: Seq<Seq<char>>, sep: Seq<char>) -> Seq<char>
    decreases parts.len(),
{
    if parts.len() == 0 {
        Seq::empty()
    } else if parts.len() == 1 {
        parts[0]
    } else {
        parts[0] + sep + spec_join(parts.drop_first(), sep)
    }
}

/// Whether the fixed text `pat` stands in `s` at position `i`.
fn pattern_at(s: &str, i: usize, pat: &str) -> (b: bool)
    requires
        i + pat@.len() <= s@.len(),
        s@.len() <= usize::MAX,
    ensures
        b == (s@.subrange(i as int, i + pat@.len()) == pat@),
{
    let m = pat.unicode_len();
    let mut j: usize = 0;
    while j < m
        invariant
            j <= m,
            m == pat@.len(),
            i + m <= s@.len() <= usize::MAX,
            forall|k: int| 0 <= k < j ==> s@[i + k] == pat@[k],
        decreases m - j,
    {
        if s.get_char(i + j) != pat.get_char(j) {
            assert(s@.subrange(i as int, i + m as int)[j as int] != pat@[j as int]);
            return false;
        }
        j = j + 1;
    }
    assert(s@.subrange(i as int, i + m as int) =~= pat@);
    true
}

/// First occurrence of `sep` in `s` at or after `from`, if any.
pub fn find_from(s: &str, sep: &str, from: usize) -> (r: Option<usize>)
    requires
        1 <= sep@.len(),
        from <= s@.len(),
    ensures
        match r {
            Some(i) => spec_find(s@, sep@, from as int) == Some(i as int) && from <= i && i
                + sep@.len() <= s@.len(),
            None => spec_find(s@, sep@, from as int) is None,
        },
{
    let n = s.unicode_len();
    let m = sep.unicode_len();
    let mut i: usize = from;
    loop
        invariant
            from <= i <= n,
            n == s@.len(),
            m == sep@.len(),
            1 <= m,
            spec_find(s@, sep@, from as int) == spec_find(s@, sep@, i as int),
        decreases n - i,
    {
        if m > n - i {
            return None;
        }
        if pattern_at(s, i, sep) {
            return Some(i);
        }
        i = i + 1;
    }
}

proof fn lemma_views_push(l: Seq<String>, x: String)
    ensures
        views(l.push(x)) == views(l).push(x@),
{
    assert(views(l.push(x)) =~= views(l).push(x@));
}

/// Splits `s` at each occurrence of `sep`, keeping the pieces in order.
pub fn split_str(s: &str, sep: &str) -> (r: Vec<String>)
    requires
        1 <= sep@.len(),
    ensures
        views(r@) == spec_split(s@, sep@),
{
    let mut out: Vec<String> = Vec::new();
    let mut rest: &str = s;
    loop
        invariant
            1 <= sep@.len(),
            views(out@) + spec_split(rest@, sep@) =~= spec_split(s@, sep@),
        decreases rest@.len(),
    {
        let rest_len = rest.unicode_len();
        let ghost prev_out = out@;
        let ghost prev_rest = rest@;
        match find_from(rest, sep, 0) {
            Some(i) => {
                let m = sep.unicode_len();
                let piece = rest.substring_char(0, i).to_owned();
                proof {
                    lemma_views_push(prev_out, piece);
                }
                out.push(piece);
                rest = rest.substring_char(i + m, rest_len);
                assert(views(out@) + spec_split(rest@, sep@) =~= spec_split(s@, sep@));
            },
            None => {
                let piece = rest.to_owned();
                proof {
                    lemma_views_push(prev_out, piece);
                }
                out.push(piece);
                assert(spec_split(prev_rest, sep@) =~= seq![prev_rest]);
                assert(views(out@) =~= spec_split(s@, sep@));
                return out;
            },
        }
    }
}

proof fn lemma_join_push(parts: Seq<Seq<char>>, x: Seq<char>, sep: Seq<char>)
    requires
        parts.len() >= 1,
    ensures
        spec_join(parts.push(x), sep) == spec_join(parts, sep) + sep + x,
    decreases parts.len(),
{
    if parts.len() == 1 {
        let l2 = parts.push(x);
        assert(l2.drop_first() =~= seq![x]);
        assert(spec_join(seq![x], sep) == x);
        assert(spec_join(l2, sep) == l2[0] + sep + spec_join(l2.drop_first(), sep));
    } else {
        assert(parts.push(x).drop_first() =~= parts.drop_first().push(x));
        lemma_join_push(parts.drop_first(), x, sep);
    }
}

/// Joins the elements of `parts` with `sep` between neighbours.
pub fn join_strs(parts: &Vec<String>, sep: &str) -> (r: String)
    ensures
        r@ == spec_join(views(parts@), sep@),
{
    if parts.len() == 0 {
        return String::new();
    }
    let mut r: String = parts[0].clone();
    let mut i: usize = 1;
    assert(views(parts@).take(1) =~= seq![parts@[0]@]);
    while i < parts.len()
        invariant
            1 <= i <= parts@.len(),
            r@ == spec_join(views(parts@).take(i as int), sep@),
        decreases parts@.len() - i,
    {
        r.append(sep);
        r.append(parts[i].as_str());
        proof {
            let v = views(parts@);
            assert(v.take(i + 1).drop_last() =~= v.take(i as int));
            assert(v.take(i + 1) =~= v.take(i as int).push(v[i as int]));
            lemma_join_push(v.take(i as int), v[i as int], sep@);
        }
        i = i + 1;
    }
    assert(views(parts@).take(parts@.len() as int) =~= views(parts@));
    r
}

proof fn lemma_find_none_when_free(s: Seq<char>, sep: Seq<char>, from: int)
    requires
        sep.len() == 1,
        0 <= from <= s.len(),
        forall|j: int| 0 <= j < s.len() ==> s[j] != sep[0],
    ensures
        spec_find(s, sep, from) is None,
    decreases s.len() - from,
{
    if from + 1 > s.len() {
    } else {
        assert(s.subrange(from, from + 1)[0] == s[from]);
        assert(s.subrange(from, from + 1) != sep);
        lemma_find_none_when_free(s, sep, from + 1);
    }
}

proof fn lemma_find_first_hit(s: Seq<char>, sep: Seq<char>, from: int, p: int)
    requires
        sep.len() == 1,
        0 <= from <= p,
        p < s.len(),
        s[p] == sep[0],
        forall|j: int| from <= j < p ==> s[j] != sep[0],
    ensures
        spec_find(s, sep, from) == Some(p),
    decreases p - from,
{
    if from == p {
        assert(s.subrange(p, p + 1) =~= sep);
    } else {
        assert(s.subrange(from, from + 1)[0] == s[from]);
        assert(s.subrange(from, from + 1) != sep);
        lemma_find_first_hit(s, sep, from + 1, p);
    }
}

/// Joining non-empty, separator-free pieces and splitting the result by the
/// same one-character separator gives back exactly those pieces.
pub proof fn lemma_split_join_round_trip(parts: Seq<Seq<char>>, sep: Seq<char>)
    requires
        sep.len() == 1,
        parts.len() > 0,
        forall|i: int| 0 <= i < parts.len() ==> parts[i].len() > 0,
        forall|i: int, j: int|
            0 <= i < parts.len() && 0 <= j < parts[i].len() ==> #[trigger] parts[i][j] != sep[0],
    ensures
        spec_split(spec_join(parts, sep), sep) == parts,
    decreases parts.len(),
{
    let joined = spec_join(parts, sep);
    if parts.len() == 1 {
        assert(joined == parts[0]);
        lemma_find_none_when_free(joined, sep, 0);
        assert(spec_split(joined, sep) =~= parts);
    } else {
        let head = parts[0];
        let rest = parts.drop_first();
        let tail = spec_join(rest, sep);
        let p = head.len() as int;
        assert(joined == head + sep + tail);
        assert forall|j: int| 0 <= j < p implies joined[j] != sep[0] by {
            assert(joined[j] == head[j]);
        }
        assert(joined[p] == sep[0]);
        lemma_find_first_hit(joined, sep, 0, p);
        assert(spec_find(joined, sep, 0) == Some(p));
        assert(joined.subrange(0, p) =~= head);
        assert(joined.subrange(p + 1, joined.len() as int) =~= tail);
        lemma_split_join_round_trip(rest, sep);
        assert(spec_split(joined, sep) == seq![head] + rest);
        assert(seq![head] + rest =~= parts);
    }
}

} // verus!
