//! The deduplicated tracker collection and the merge that builds it from
//! literal descriptors and fetched tracker lists.

use vstd::prelude::*;
use vstd::string::StrSliceExecFns;
use crate::text::{views, spec_join, join_strs};

verus! {

/// Adds `x` to `acc` unless it is empty or already present.
pub open spec fn spec_insert(acc: Seq<Seq<char>>, x: Seq<char>) -> Seq<Seq<char>> {
    if x.len() == 0 || acc.contains(x) {
        acc
    } else {
        acc.push(x)
    }
}

/// Adds the elements of `xs` to `acc` in order, dropping empty strings and
/// duplicates.
pub open spec fn spec_insert_all(acc: Seq<Seq<char>>, xs: Seq<Seq<char>>) -> Seq<Seq<char>>
    decreases xs.len(),
{
    if xs.len() == 0 {
        acc
    } else {
        spec_insert_all(spec_insert(acc, xs[0]), xs.drop_first())
    }
}

/// Adds each batch of `batches` to `acc` in order.
pub open spec fn spec_insert_batches(
    acc: Seq<Seq<char>>,
    batches: Seq<Seq<Seq<char>>>,
) -> Seq<Seq<char>>
    decreases batches.len(),
{
    if batches.len() == 0 {
        acc
    } else {
        spec_insert_batches(spec_insert_all(acc, batches[0]), batches.drop_first())
    }
}

/// The union of the literal trackers and every fetched batch, deduplicated
/// by string equality, in first-insertion order.
pub open spec fn spec_merge(lits: Seq<Seq<char>>, batches: Seq<Seq<Seq<char>>>) -> Seq<Seq<char>> {
    spec_insert_batches(spec_insert_all(Seq::empty(), lits), batches)
}

/// The views of a sequence of string vectors.
pub open spec fn batch_views(l: Seq<Vec<String>>) -> Seq<Seq<Seq<char>>> {
    l.map_values(|v: Vec<String>| views(v@))
}

/// A set of tracker strings: no duplicates, no empty entries, stored in
/// first-insertion order.
pub struct TrackerCollection {
    items: Vec<String>,
}

impl View for TrackerCollection {
    type V = Seq<Seq<char>>;

    closed spec fn view(&self) -> Seq<Seq<char>> {
        views(self.items@)
    }
}

impl TrackerCollection {
    /// All entries are pairwise distinct and non-empty.
    pub open spec fn wf(self) -> bool {
        &&& forall|i: int, j: int| 0 <= i < j < self@.len() ==> self@[i] != self@[j]
        &&& forall|i: int| 0 <= i < self@.len() ==> self@[i].len() > 0
    }

    pub fn new() -> (r: TrackerCollection)
        ensures
            r@ == Seq::<Seq<char>>::empty(),
            r.wf(),
    {
        let r = TrackerCollection { items: Vec::new() };
        proof {
            assert(r@ =~= Seq::<Seq<char>>::empty());
        }
        r
    }

    pub fn len(&self) -> (n: usize)
        ensures
            n == self@.len(),
    {
        self.items.len()
    }

    /// The entries, in stored order.
    pub fn entries(&self) -> (r: &Vec<String>)
        ensures
            views(r@) == self@,
    {
        &self.items
    }

    /// Whether `x` is already present, by string equality.
    pub fn contains(&self, x: &String) -> (b: bool)
        ensures
            b == self@.contains(x@),
    {
        let mut i: usize = 0;
        while i < self.items.len()
            invariant
                i <= self.items@.len(),
                self@ == views(self.items@),
                forall|k: int| 0 <= k < i ==> self@[k] != x@,
            decreases self.items@.len() - i,
        {
            if self.items[i] == *x {
                assert(self@[i as int] == x@);
                return true;
            }
            i = i + 1;
        }
        assert(forall|k: int| 0 <= k < self@.len() ==> self@[k] != x@);
        false
    }

    /// Inserts one tracker, keeping the collection deduplicated and free of
    /// empty entries.
    pub fn insert(&mut self, x: String)
        ensures
            final(self)@ == spec_insert(old(self)@, x@),
            old(self).wf() ==> final(self).wf(),
    {
        if x.as_str().is_empty() {
            return ;
        }
        if self.contains(&x) {
            return ;
        }
        let ghost prev = self.items@;
        self.items.push(x);
        proof {
            assert(views(prev.push(x)) =~= views(prev).push(x@));
        }
    }

    /// Inserts every element of `xs`, in order.
    pub fn insert_all(&mut self, xs: &Vec<String>)
        ensures
            final(self)@ == spec_insert_all(old(self)@, views(xs@)),
            old(self).wf() ==> final(self).wf(),
    {
        let mut i: usize = 0;
        proof {
            assert(views(xs@).skip(0) =~= views(xs@));
        }
        while i < xs.len()
            invariant
                i <= xs@.len(),
                spec_insert_all(old(self)@, views(xs@)) == spec_insert_all(
                    self@,
                    views(xs@).skip(i as int),
                ),
                old(self).wf() ==> self.wf(),
            decreases xs@.len() - i,
        {
            let ghost vs = views(xs@);
            proof {
                assert(vs.skip(i as int).len() > 0);
                assert(vs.skip(i as int)[0] == vs[i as int]);
                assert(vs.skip(i as int).drop_first() =~= vs.skip(i + 1));
            }
            self.insert(xs[i].clone());
            i = i + 1;
        }
        proof {
            assert(views(xs@).skip(xs@.len() as int) =~= Seq::<Seq<char>>::empty());
        }
    }

    /// Serializes the collection with `sep` between entries.
    pub fn join(&self, sep: &str) -> (r: String)
        ensures
            r@ == spec_join(self@, sep@),
    {
        join_strs(&self.items, sep)
    }

    /// Renders the collection for the HTTP responder: comma-joined at the
    /// root path, blank-line-joined everywhere else.
    pub fn render(&self, root_path: bool) -> (r: String)
        ensures
            root_path ==> r@ == spec_join(self@, ","@),
            !root_path ==> r@ == spec_join(self@, "\n\n"@),
    {
        if root_path {
            self.join(",")
        } else {
            self.join("\n\n")
        }
    }
}

/// Whether a request path is the root path `/`.
pub fn is_root_path(path: &str) -> (b: bool)
    ensures
        b == (path@ == "/"@),
{
    proof {
        reveal_strlit("/");
    }
    let n = path.unicode_len();
    if n != 1 {
        return false;
    }
    if path.get_char(0) == '/' {
        assert(path@ =~= "/"@);
        true
    } else {
        assert(path@[0] != "/"@[0]);
        false
    }
}

/// Combines the literal trackers with every fetched batch into one
/// deduplicated collection.
pub fn merge_trackers(literals: &Vec<String>, fetched: &Vec<Vec<String>>) -> (r: TrackerCollection)
    ensures
        r@ == spec_merge(views(literals@), batch_views(fetched@)),
        r.wf(),
{
    let mut r = TrackerCollection::new();
    r.insert_all(literals);
    let mut i: usize = 0;
    proof {
        assert(batch_views(fetched@).skip(0) =~= batch_views(fetched@));
    }
    while i < fetched.len()
        invariant
            i <= fetched@.len(),
            r.wf(),
            spec_merge(views(literals@), batch_views(fetched@)) == spec_insert_batches(
                r@,
                batch_views(fetched@).skip(i as int),
            ),
        decreases fetched@.len() - i,
    {
        let ghost bs = batch_views(fetched@);
        proof {
            assert(bs.skip(i as int).len() > 0);
            assert(bs.skip(i as int)[0] == bs[i as int]);
            assert(bs.skip(i as int).drop_first() =~= bs.skip(i + 1));
        }
        r.insert_all(&fetched[i]);
        i = i + 1;
    }
    proof {
        assert(batch_views(fetched@).skip(fetched@.len() as int) =~= Seq::<Seq<Seq<char>>>::empty());
    }
    r
}

/// Inserting keeps everything that was already present, and adds every
/// non-empty inserted string.
pub proof fn lemma_insert_all_membership(acc: Seq<Seq<char>>, xs: Seq<Seq<char>>, d: Seq<char>)
    requires
        acc.contains(d) || (xs.contains(d) && d.len() > 0),
    ensures
        spec_insert_all(acc, xs).contains(d),
    decreases xs.len(),
{
    if xs.len() == 0 {
    } else {
        let acc2 = spec_insert(acc, xs[0]);
        if acc.contains(d) {
            let i = choose|i: int| 0 <= i < acc.len() && acc[i] == d;
            assert(acc2[i] == d);
            assert(acc2.contains(d));
            lemma_insert_all_membership(acc2, xs.drop_first(), d);
        } else {
            if xs[0] == d {
                if !acc2.contains(d) {
                    assert(acc2 == acc.push(d));
                    assert(acc2.last() == d);
                }
                lemma_insert_all_membership(acc2, xs.drop_first(), d);
            } else {
                let i = choose|i: int| 0 <= i < xs.len() && xs[i] == d;
                assert(xs.drop_first()[i - 1] == d);
                assert(xs.drop_first().contains(d));
                lemma_insert_all_membership(acc2, xs.drop_first(), d);
            }
        }
    }
}

/// Batch insertion keeps everything that was already present.
pub proof fn lemma_insert_batches_membership(
    acc: Seq<Seq<char>>,
    batches: Seq<Seq<Seq<char>>>,
    d: Seq<char>,
)
    requires
        acc.contains(d),
    ensures
        spec_insert_batches(acc, batches).contains(d),
    decreases batches.len(),
{
    if batches.len() == 0 {
    } else {
        lemma_insert_all_membership(acc, batches[0], d);
        lemma_insert_batches_membership(
            spec_insert_all(acc, batches[0]),
            batches.drop_first(),
            d,
        );
    }
}

/// Pairwise distinctness of a sequence of strings.
pub open spec fn distinct_entries(l: Seq<Seq<char>>) -> bool {
    forall|i: int, j: int| 0 <= i < j < l.len() ==> l[i] != l[j]
}

proof fn lemma_insert_all_distinct(acc: Seq<Seq<char>>, xs: Seq<Seq<char>>)
    requires
        distinct_entries(acc),
    ensures
        distinct_entries(spec_insert_all(acc, xs)),
    decreases xs.len(),
{
    if xs.len() == 0 {
    } else {
        let acc2 = spec_insert(acc, xs[0]);
        if xs[0].len() == 0 || acc.contains(xs[0]) {
        } else {
            assert forall|i: int, j: int| 0 <= i < j < acc2.len() implies acc2[i] != acc2[j] by {
                if j < acc.len() {
                } else {
                    assert(acc2[j] == xs[0]);
                    assert(acc2[i] == acc[i]);
                    if acc[i] == xs[0] {
                        assert(acc.contains(xs[0]));
                    }
                }
            }
        }
        lemma_insert_all_distinct(acc2, xs.drop_first());
    }
}

proof fn lemma_insert_batches_distinct(acc: Seq<Seq<char>>, batches: Seq<Seq<Seq<char>>>)
    requires
        distinct_entries(acc),
    ensures
        distinct_entries(spec_insert_batches(acc, batches)),
    decreases batches.len(),
{
    if batches.len() == 0 {
    } else {
        lemma_insert_all_distinct(acc, batches[0]);
        lemma_insert_batches_distinct(spec_insert_all(acc, batches[0]), batches.drop_first());
    }
}

/// The merged collection never holds the same string twice, whatever the
/// sources and the fetched batches were.
pub proof fn lemma_merge_no_duplicates(lits: Seq<Seq<char>>, batches: Seq<Seq<Seq<char>>>)
    ensures
        distinct_entries(spec_merge(lits, batches)),
{
    lemma_insert_all_distinct(Seq::empty(), lits);
    lemma_insert_batches_distinct(spec_insert_all(Seq::empty(), lits), batches);
}

proof fn lemma_insert_all_sound(acc: Seq<Seq<char>>, xs: Seq<Seq<char>>, d: Seq<char>)
    requires
        spec_insert_all(acc, xs).contains(d),
    ensures
        acc.contains(d) || (xs.contains(d) && d.len() > 0),
    decreases xs.len(),
{
    if xs.len() == 0 {
    } else {
        let acc2 = spec_insert(acc, xs[0]);
        lemma_insert_all_sound(acc2, xs.drop_first(), d);
        if acc2.contains(d) && !acc.contains(d) && !(xs.contains(d) && d.len() > 0) {
            assert(acc2 == acc.push(xs[0]));
            let i = choose|i: int| 0 <= i < acc2.len() && acc2[i] == d;
            if i < acc.len() {
                assert(acc[i] == d);
            } else {
                assert(d == xs[0]);
                assert(xs.contains(d));
            }
        }
        if xs.drop_first().contains(d) {
            let j = choose|j: int| 0 <= j < xs.drop_first().len() && xs.drop_first()[j] == d;
            assert(xs[j + 1] == d);
        }
    }
}

proof fn lemma_insert_batches_sound(
    acc: Seq<Seq<char>>,
    batches: Seq<Seq<Seq<char>>>,
    d: Seq<char>,
)
    requires
        spec_insert_batches(acc, batches).contains(d),
    ensures
        acc.contains(d) || (d.len() > 0 && exists|i: int|
            0 <= i < batches.len() && #[trigger] batches[i].contains(d)),
    decreases batches.len(),
{
    if batches.len() == 0 {
    } else {
        let acc2 = spec_insert_all(acc, batches[0]);
        lemma_insert_batches_sound(acc2, batches.drop_first(), d);
        if acc2.contains(d) {
            lemma_insert_all_sound(acc, batches[0], d);
        }
        if exists|i: int| 0 <= i < batches.drop_first().len() && #[trigger] batches.drop_first()[i].contains(d) {
            let i = choose|i: int|
                0 <= i < batches.drop_first().len() && #[trigger] batches.drop_first()[i].contains(
                    d,
                );
            assert(batches[i + 1].contains(d));
        }
    }
}

proof fn lemma_insert_batches_adds(
    acc: Seq<Seq<char>>,
    batches: Seq<Seq<Seq<char>>>,
    d: Seq<char>,
    i: int,
)
    requires
        0 <= i < batches.len(),
        batches[i].contains(d),
        d.len() > 0,
    ensures
        spec_insert_batches(acc, batches).contains(d),
    decreases batches.len(),
{
    let acc2 = spec_insert_all(acc, batches[0]);
    if i == 0 {
        lemma_insert_all_membership(acc, batches[0], d);
        lemma_insert_batches_membership(acc2, batches.drop_first(), d);
    } else {
        assert(batches.drop_first()[i - 1] == batches[i]);
        lemma_insert_batches_adds(acc2, batches.drop_first(), d, i - 1);
    }
}

/// The merged collection holds exactly the non-empty strings that stand
/// among the literal trackers or in some fetched batch.
pub proof fn lemma_merge_membership(
    lits: Seq<Seq<char>>,
    batches: Seq<Seq<Seq<char>>>,
    d: Seq<char>,
)
    ensures
        spec_merge(lits, batches).contains(d) <==> (d.len() > 0 && (lits.contains(d) || exists|
            i: int,
        |
            0 <= i < batches.len() && #[trigger] batches[i].contains(d))),
{
    let base = spec_insert_all(Seq::empty(), lits);
    if spec_merge(lits, batches).contains(d) {
        lemma_insert_batches_sound(base, batches, d);
        if base.contains(d) {
            lemma_insert_all_sound(Seq::empty(), lits, d);
        }
        if d.len() == 0 && base.contains(d) {
            assert(false);
        }
    }
    if d.len() > 0 {
        if lits.contains(d) {
            lemma_insert_all_membership(Seq::empty(), lits, d);
            lemma_insert_batches_membership(base, batches, d);
        } else if exists|i: int| 0 <= i < batches.len() && #[trigger] batches[i].contains(d) {
            let i = choose|i: int| 0 <= i < batches.len() && #[trigger] batches[i].contains(d);
            lemma_insert_batches_adds(base, batches, d, i);
        }
    }
}

/// Every literal descriptor of the configured sources stands verbatim in
/// the merged collection, whatever the fetched batches hold, and never
/// among the fetchable references.
pub proof fn lemma_literal_preserved(
    sources: Seq<Seq<char>>,
    batches: Seq<Seq<Seq<char>>>,
    d: Seq<char>,
)
    requires
        sources.contains(d),
        crate::sources::spec_is_literal(d),
    ensures
        spec_merge(crate::sources::spec_literals(sources), batches).contains(d),
        !crate::sources::spec_fetchables(sources).contains(d),
{
    reveal_strlit("announce");
    crate::sources::lemma_literal_classification(sources, d);
    lemma_insert_all_membership(Seq::empty(), crate::sources::spec_literals(sources), d);
    lemma_insert_batches_membership(
        spec_insert_all(Seq::empty(), crate::sources::spec_literals(sources)),
        batches,
        d,
    );
}

} // verus!
