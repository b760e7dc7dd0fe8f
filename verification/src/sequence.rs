//! The most-recently-used sequence of layouts: an ordered list, most recent
//! first, in which no layout stands twice.

use crate::layout::{layouts_view, spec_parse, Layout, LayoutView};
use crate::search::{first_match, lemma_first_match_unique};
use crate::text::strings_view;
use vstd::prelude::*;

verus! {

/// The condition "is `x`" on layouts.
pub open spec fn same_as(x: LayoutView) -> spec_fn(LayoutView) -> bool {
    |l: LayoutView| l == x
}

/// The condition "is not `x`" on layouts.
pub open spec fn differs_from(x: LayoutView) -> spec_fn(LayoutView) -> bool {
    |l: LayoutView| l != x
}

/// `s` with every occurrence of `x` taken out, the rest in their order.
pub open spec fn spec_without(s: Seq<LayoutView>, x: LayoutView) -> Seq<LayoutView> {
    s.filter(differs_from(x))
}

/// `s` with `x` moved (or put) to the front: `x`, then what else `s` holds,
/// in its order.
pub open spec fn spec_promote(s: Seq<LayoutView>, x: LayoutView) -> Seq<LayoutView> {
    seq![x] + spec_without(s, x)
}

/// The layouts that the strings of `entries` parse to, in order; a string
/// that does not parse is passed over.
pub open spec fn spec_parse_lenient(entries: Seq<Seq<char>>) -> Seq<LayoutView>
    decreases entries.len(),
{
    if entries.len() == 0 {
        Seq::empty()
    } else {
        let before = spec_parse_lenient(entries.drop_last());
        match spec_parse(entries.last()) {
            Ok(l) => before.push(l),
            Err(_) => before,
        }
    }
}

/// The sequence after each of `layouts` has been promoted in turn,
/// starting from `s`.
pub open spec fn spec_promote_all(s: Seq<LayoutView>, layouts: Seq<LayoutView>) -> Seq<LayoutView>
    decreases layouts.len(),
{
    if layouts.len() == 0 {
        s
    } else {
        spec_promote(spec_promote_all(s, layouts.drop_last()), layouts.last())
    }
}

/// What is left of `s` without `x` does not hold `x`, holds every other
/// element of `s`, and is `s` itself where `s` does not hold `x`.
pub proof fn lemma_without(s: Seq<LayoutView>, x: LayoutView)
    ensures
        !spec_without(s, x).contains(x),
        forall|l: LayoutView| l != x ==> (spec_without(s, x).contains(l) <==> s.contains(l)),
        !s.contains(x) ==> spec_without(s, x) == s,
        spec_without(s, x).len() <= s.len(),
    decreases s.len(),
{
    reveal(Seq::filter);
    let p = differs_from(x);
    if s.len() > 0 {
        let init = s.drop_last();
        let last = s.last();
        lemma_without(init, x);
        let w = spec_without(s, x);
        let wi = spec_without(init, x);
        assert(w == if p(last) {
            wi.push(last)
        } else {
            wi
        });
        if w.contains(x) {
            let i = choose|i: int| 0 <= i < w.len() && w[i] == x;
            if i < wi.len() {
                assert(wi[i] == x);
                assert(wi.contains(x));
            }
        }
        assert forall|l: LayoutView| l != x implies (w.contains(l) <==> s.contains(l)) by {
            if w.contains(l) {
                let i = choose|i: int| 0 <= i < w.len() && w[i] == l;
                if i < wi.len() {
                    assert(wi[i] == l);
                    assert(wi.contains(l));
                    assert(init.contains(l));
                    let j = choose|j: int| 0 <= j < init.len() && init[j] == l;
                    assert(s[j] == l);
                } else {
                    assert(s[s.len() - 1] == l);
                }
            }
            if s.contains(l) {
                let j = choose|j: int| 0 <= j < s.len() && s[j] == l;
                if j < init.len() {
                    assert(init[j] == l);
                    assert(init.contains(l));
                    let i = choose|i: int| 0 <= i < wi.len() && wi[i] == l;
                    assert(w[i] == l);
                } else {
                    assert(w[w.len() - 1] == l);
                }
            }
        }
        if !s.contains(x) {
            assert(!init.contains(x)) by {
                if init.contains(x) {
                    let j = choose|j: int| 0 <= j < init.len() && init[j] == x;
                    assert(s[j] == x);
                }
            }
            assert(last != x) by {
                assert(s[s.len() - 1] == last);
            }
            assert(wi.push(last) =~= s);
        }
    }
}

/// Taking `x` out keeps a sequence free of duplicates.
pub proof fn lemma_without_no_duplicates(s: Seq<LayoutView>, x: LayoutView)
    requires
        s.no_duplicates(),
    ensures
        spec_without(s, x).no_duplicates(),
    decreases s.len(),
{
    reveal(Seq::filter);
    if s.len() > 0 {
        let init = s.drop_last();
        let last = s.last();
        lemma_without_no_duplicates(init, x);
        lemma_without(init, x);
        let w = spec_without(s, x);
        let wi = spec_without(init, x);
        if last != x {
            assert(w == wi.push(last));
            assert forall|i: int, j: int| 0 <= i < j < w.len() implies w[i] != w[j] by {
                if j == wi.len() {
                    assert(wi.contains(wi[i]));
                    if wi[i] == last {
                        assert(init.contains(last));
                        let k = choose|k: int| 0 <= k < init.len() && init[k] == last;
                        assert(s[k] == s[s.len() - 1]);
                    }
                }
            }
        }
    }
}

/// Promotion is idempotent: promoting the same layout twice is promoting it once.
pub proof fn lemma_promote_idempotent(s: Seq<LayoutView>, x: LayoutView)
    ensures
        spec_promote(spec_promote(s, x), x) == spec_promote(s, x),
{
    let w = spec_without(s, x);
    lemma_without(s, x);
    lemma_without(w, x);
    Seq::lemma_filter_prepend(w, x, differs_from(x));
    assert(spec_without(seq![x] + w, x) =~= w);
}

/// Promotion puts the layout first, holds it once, and leaves the other
/// layouts in the order they had; a sequence without duplicates stays so.
pub proof fn lemma_promote(s: Seq<LayoutView>, x: LayoutView)
    ensures
        spec_promote(s, x).len() >= 1,
        spec_promote(s, x)[0] == x,
        spec_promote(s, x).drop_first() == spec_without(s, x),
        !spec_promote(s, x).drop_first().contains(x),
        forall|l: LayoutView| spec_promote(s, x).contains(l) <==> (l == x || s.contains(l)),
        s.no_duplicates() ==> spec_promote(s, x).no_duplicates(),
        s.len() > 0 && s[0] == x && s.no_duplicates() ==> spec_promote(s, x) == s,
{
    let w = spec_without(s, x);
    let p = spec_promote(s, x);
    lemma_without(s, x);
    assert(p.drop_first() =~= w);
    assert forall|l: LayoutView| p.contains(l) <==> (l == x || s.contains(l)) by {
        if p.contains(l) {
            let i = choose|i: int| 0 <= i < p.len() && p[i] == l;
            if i > 0 {
                assert(w[i - 1] == l);
                assert(w.contains(l));
            }
        }
        if l == x {
            assert(p[0] == l);
        } else if s.contains(l) {
            assert(w.contains(l));
            let i = choose|i: int| 0 <= i < w.len() && w[i] == l;
            assert(p[i + 1] == l);
        }
    }
    if s.no_duplicates() {
        lemma_without_no_duplicates(s, x);
        assert forall|i: int, j: int| 0 <= i < j < p.len() implies p[i] != p[j] by {
            assert(p[j] == w[j - 1]);
            assert(w.contains(w[j - 1]));
            if i > 0 {
                assert(p[i] == w[i - 1]);
            }
        }
        if s.len() > 0 && s[0] == x {
            let rest = s.drop_first();
            assert(!rest.contains(x)) by {
                if rest.contains(x) {
                    let k = choose|k: int| 0 <= k < rest.len() && rest[k] == x;
                    assert(s[k + 1] == s[0]);
                }
            }
            lemma_without(rest, x);
            assert(s =~= seq![x] + rest);
            Seq::lemma_filter_prepend(rest, x, differs_from(x));
            assert(p =~= s);
        }
    }
}

/// A sequence that is built by promotions alone, starting from one that
/// holds no layout twice, holds no layout twice.
pub proof fn lemma_promote_all_no_duplicates(s: Seq<LayoutView>, layouts: Seq<LayoutView>)
    requires
        s.no_duplicates(),
    ensures
        spec_promote_all(s, layouts).no_duplicates(),
    decreases layouts.len(),
{
    if layouts.len() > 0 {
        lemma_promote_all_no_duplicates(s, layouts.drop_last());
        lemma_promote(spec_promote_all(s, layouts.drop_last()), layouts.last());
    }
}

/// Whether `layouts` holds `target`.
pub fn contains(layouts: &[Layout], target: &Layout) -> (res: bool)
    ensures
        res == layouts_view(layouts@).contains(target@),
{
    let mut i: usize = 0;
    while i < layouts.len()
        invariant
            i <= layouts@.len(),
            forall|j: int| 0 <= j < i ==> layouts_view(layouts@)[j] != target@,
        decreases layouts@.len() - i,
    {
        if layouts[i] == *target {
            assert(layouts_view(layouts@)[i as int] == target@);
            return true;
        }
        i += 1;
    }
    false
}

/// The place of `target` in `layouts`: the index of its first occurrence.
pub fn index_of(layouts: &[Layout], target: &Layout) -> (res: Option<usize>)
    ensures
        match res {
            Some(i) => i < layouts@.len() && i == first_match(
                layouts_view(layouts@),
                same_as(target@),
            ),
            None => !layouts_view(layouts@).contains(target@),
        },
{
    let mut i: usize = 0;
    while i < layouts.len()
        invariant
            i <= layouts@.len(),
            forall|j: int| 0 <= j < i ==> !same_as(target@)(#[trigger] layouts_view(layouts@)[j]),
        decreases layouts@.len() - i,
    {
        if layouts[i] == *target {
            proof {
                assert(same_as(target@)(layouts_view(layouts@)[i as int]));
                lemma_first_match_unique(layouts_view(layouts@), same_as(target@), i as int);
            }
            return Some(i);
        }
        i += 1;
    }
    proof {
        let v = layouts_view(layouts@);
        if v.contains(target@) {
            let j = choose|j: int| 0 <= j < v.len() && v[j] == target@;
            assert(same_as(target@)(v[j]));
        }
    }
    None
}

/// `layouts` with every occurrence of `target` taken out.
pub fn without(layouts: &[Layout], target: &Layout) -> (res: Vec<Layout>)
    ensures
        layouts_view(res@) == spec_without(layouts_view(layouts@), target@),
{
    let ghost all = layouts_view(layouts@);
    let mut res: Vec<Layout> = Vec::new();
    let mut i: usize = 0;
    proof {
        reveal(Seq::filter);
        assert(all.take(0) =~= Seq::<LayoutView>::empty());
        assert(layouts_view(res@) =~= Seq::<LayoutView>::empty());
    }
    while i < layouts.len()
        invariant
            i <= layouts@.len(),
            all == layouts_view(layouts@),
            layouts_view(res@) == spec_without(all.take(i as int), target@),
        decreases layouts@.len() - i,
    {
        let ghost before = layouts_view(res@);
        proof {
            assert(all.take(i + 1) =~= all.take(i as int).push(all[i as int]));
            Seq::lemma_filter_push(all.take(i as int), all[i as int], differs_from(target@));
        }
        if layouts[i] != *target {
            res.push(layouts[i].clone());
            proof {
                assert(layouts_view(res@) =~= before.push(all[i as int]));
            }
        }
        i += 1;
    }
    proof {
        assert(all.take(layouts@.len() as int) =~= all);
    }
    res
}

/// `sequence` with `target` moved (or put) to the front.
pub fn promote(sequence: &[Layout], target: &Layout) -> (res: Vec<Layout>)
    ensures
        layouts_view(res@) == spec_promote(layouts_view(sequence@), target@),
{
    let mut res: Vec<Layout> = Vec::new();
    res.push(target.clone());
    let mut rest = without(sequence, target);
    let ghost first = layouts_view(res@);
    let ghost others = layouts_view(rest@);
    res.append(&mut rest);
    proof {
        assert(first =~= seq![target@]);
        assert(layouts_view(res@) =~= first + others);
    }
    res
}

/// The layouts that `entries` parse to, in order; an entry that does not
/// parse is dropped.
pub fn parse_lenient(entries: &[String]) -> (res: Vec<Layout>)
    ensures
        layouts_view(res@) == spec_parse_lenient(strings_view(entries@)),
{
    let ghost all = strings_view(entries@);
    let mut res: Vec<Layout> = Vec::new();
    let mut i: usize = 0;
    proof {
        assert(layouts_view(res@) =~= Seq::<LayoutView>::empty());
    }
    while i < entries.len()
        invariant
            i <= entries@.len(),
            all == strings_view(entries@),
            layouts_view(res@) == spec_parse_lenient(all.take(i as int)),
        decreases entries@.len() - i,
    {
        let ghost before = layouts_view(res@);
        proof {
            assert(all.take(i + 1).drop_last() =~= all.take(i as int));
            assert(all.take(i + 1).last() == entries@[i as int]@);
        }
        match Layout::try_from(entries[i].as_str()) {
            Ok(layout) => {
                res.push(layout);
                proof {
                    assert(layouts_view(res@) =~= before.push(layout@));
                }
            },
            Err(_) => {},
        }
        i += 1;
    }
    proof {
        assert(all.take(entries@.len() as int) =~= all);
    }
    res
}

/// The canonical strings of `layouts`, in order.
pub fn to_strings(layouts: &[Layout]) -> (res: Vec<String>)
    ensures
        strings_view(res@) == spec_canonical_all(layouts_view(layouts@)),
{
    let mut res: Vec<String> = Vec::new();
    let mut i: usize = 0;
    while i < layouts.len()
        invariant
            i <= layouts@.len(),
            res@.len() == i,
            forall|j: int| 0 <= j < i ==> res@[j]@ == layouts@[j]@.canonical(),
        decreases layouts@.len() - i,
    {
        res.push(layouts[i].to_string());
        i += 1;
    }
    proof {
        assert(strings_view(res@) =~= spec_canonical_all(layouts_view(layouts@)));
    }
    res
}

/// The canonical strings of `layouts`, in order.
pub open spec fn spec_canonical_all(layouts: Seq<LayoutView>) -> Seq<Seq<char>> {
    Seq::new(layouts.len(), |i: int| layouts[i].canonical())
}

} // verus!
