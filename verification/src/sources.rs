//! Classification of source descriptors: a descriptor that ends with
//! `announce` is a literal tracker, usable as-is; every other descriptor is
//! a fetchable reference that must be resolved over the network.

use vstd::prelude::*;
use vstd::string::StrSliceExecFns;
use crate::text::views;

verus! {

/// A descriptor is a literal tracker exactly when it ends with the
/// eight characters `announce`.
pub open spec fn spec_is_literal(s: Seq<char>) -> bool {
    s.len() >= "announce"@.len() && s.subrange(
        s.len() - "announce"@.len(),
        s.len() as int,
    ) == "announce"@
}

/// The literal descriptors of `l`, in order.
pub open spec fn spec_literals(l: Seq<Seq<char>>) -> Seq<Seq<char>>
    decreases l.len(),
{
    if l.len() == 0 {
        Seq::empty()
    } else if spec_is_literal(l.last()) {
        spec_literals(l.drop_last()).push(l.last())
    } else {
        spec_literals(l.drop_last())
    }
}

/// The fetchable descriptors of `l`, in order.
pub open spec fn spec_fetchables(l: Seq<Seq<char>>) -> Seq<Seq<char>>
    decreases l.len(),
{
    if l.len() == 0 {
        Seq::empty()
    } else if !spec_is_literal(l.last()) {
        spec_fetchables(l.drop_last()).push(l.last())
    } else {
        spec_fetchables(l.drop_last())
    }
}

/// Decides whether a descriptor is a literal tracker.
pub fn is_literal_descriptor(s: &str) -> (b: bool)
    ensures
        b == spec_is_literal(s@),
{
    proof {
        reveal_strlit("announce");
    }
    let n = s.unicode_len();
    if n < 8 {
        return false;
    }
    let mut i: usize = 0;
    while i < 8
        invariant
            i <= 8,
            8 <= n,
            n == s@.len(),
            "announce"@.len() == 8,
            forall|k: int| 0 <= k < i ==> s@[n - 8 + k] == "announce"@[k],
        decreases 8 - i,
    {
        if s.get_char(n - 8 + i) != "announce".get_char(i) {
            assert(s@.subrange(n - 8, n as int)[i as int] != "announce"@[i as int]);
            return false;
        }
        i = i + 1;
    }
    assert(s@.subrange(n - 8, n as int) =~= "announce"@);
    true
}

/// Partitions the configured descriptors into the literal trackers (passed
/// through unchanged, never fetched) and the fetchable references (each the
/// target of one outbound read request).
pub fn partition_sources(sources: &Vec<String>) -> (r: (Vec<String>, Vec<String>))
    ensures
        views(r.0@) == spec_literals(views(sources@)),
        views(r.1@) == spec_fetchables(views(sources@)),
{
    let mut lits: Vec<String> = Vec::new();
    let mut fetch: Vec<String> = Vec::new();
    let mut i: usize = 0;
    while i < sources.len()
        invariant
            i <= sources@.len(),
            views(lits@) == spec_literals(views(sources@).take(i as int)),
            views(fetch@) == spec_fetchables(views(sources@).take(i as int)),
        decreases sources@.len() - i,
    {
        let s = sources[i].clone();
        proof {
            let v = views(sources@);
            assert(v.take(i + 1).drop_last() =~= v.take(i as int));
            assert(v.take(i + 1).last() == v[i as int]);
            assert(views(lits@.push(s)) =~= views(lits@).push(s@));
            assert(views(fetch@.push(s)) =~= views(fetch@).push(s@));
        }
        if is_literal_descriptor(s.as_str()) {
            lits.push(s);
        } else {
            fetch.push(s);
        }
        i = i + 1;
    }
    assert(views(sources@).take(sources@.len() as int) =~= views(sources@));
    (lits, fetch)
}

/// A literal descriptor always lands among the literals and never among the
/// fetchable references, so it never triggers a network fetch.
pub proof fn lemma_literal_classification(l: Seq<Seq<char>>, d: Seq<char>)
    requires
        l.contains(d),
        spec_is_literal(d),
    ensures
        spec_literals(l).contains(d),
        !spec_fetchables(l).contains(d),
    decreases l.len(),
{
    lemma_fetchables_sound(l);
    if l.len() > 0 {
        if l.last() == d {
            if !spec_literals(l.drop_last()).contains(d) {
                assert(spec_literals(l) == spec_literals(l.drop_last()).push(d));
                assert(spec_literals(l).last() == d);
            }
        } else {
            let i = choose|i: int| 0 <= i < l.len() && l[i] == d;
            assert(l.drop_last()[i] == d);
            assert(l.drop_last().contains(d));
            lemma_literal_classification(l.drop_last(), d);
            if spec_is_literal(l.last()) {
                let inner = spec_literals(l.drop_last());
                let j = choose|j: int| 0 <= j < inner.len() && inner[j] == d;
                assert(inner.push(l.last())[j] == d);
            }
        }
    }
}

/// Every fetchable reference fails the literal test.
proof fn lemma_fetchables_sound(l: Seq<Seq<char>>)
    ensures
        forall|i: int|
            0 <= i < spec_fetchables(l).len() ==> !spec_is_literal(
                #[trigger] spec_fetchables(l)[i],
            ),
    decreases l.len(),
{
    if l.len() > 0 {
        lemma_fetchables_sound(l.drop_last());
        let inner = spec_fetchables(l.drop_last());
        if !spec_is_literal(l.last()) {
            assert forall|i: int| 0 <= i < spec_fetchables(l).len() implies !spec_is_literal(
                spec_fetchables(l)[i],
            ) by {
                if i < inner.len() {
                    assert(spec_fetchables(l)[i] == inner[i]);
                } else {
                    assert(spec_fetchables(l)[i] == l.last());
                }
            }
        }
    }
}

} // verus!
