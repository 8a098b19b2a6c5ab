//! Herdr-style pane chains: each new pane splits the pane created just
//! before it, keeping a share of the space for that existing pane.

use vstd::prelude::*;
use crate::layout::{
    index_range, layout_ok, layout_panes, ratio_ok, ratios_ok, Layout, LayoutError, Ratio,
    SplitDirection,
};

verus! {

/// A share the existing pane may keep: from 0.1 through 0.9.
pub open spec fn pane_share_ok(r: Ratio) -> bool {
    &&& r.whole > 0
    &&& 10 * r.first >= r.whole
    &&& 10 * r.first <= 9 * r.whole
}

/// Accepts a pane-chain share from 0.1 through 0.9.
pub fn validate_pane_share(ratio: Ratio) -> (r: Result<(), LayoutError>)
    ensures
        r is Ok <==> pane_share_ok(ratio),
        r matches Err(e) ==> e == (LayoutError::InvalidPaneShare { ratio }),
{
    let first = ratio.first as u128;
    let whole = ratio.whole as u128;
    if whole > 0 && 10 * first >= whole && 10 * first <= 9 * whole {
        Ok(())
    } else {
        Err(LayoutError::InvalidPaneShare { ratio })
    }
}

/// The split that puts `new` beside `existing`, which keeps `share`.
pub open spec fn chain_split(d: SplitDirection, share: Ratio, existing: usize, new: usize) -> Layout {
    Layout::Split {
        direction: d,
        ratio: share,
        first: Box::new(Layout::Pane(existing)),
        second: Box::new(Layout::Pane(new)),
    }
}

/// The layout with the leaf `p` replaced: the first subtree holding it is
/// searched first.
pub open spec fn spec_replace(l: Layout, p: usize, rep: Layout) -> Layout
    decreases l,
{
    match l {
        Layout::Pane(i) => if i == p {
            rep
        } else {
            l
        },
        Layout::Split { direction, ratio, first, second } => if layout_panes(*first).contains(p) {
            Layout::Split {
                direction,
                ratio,
                first: Box::new(spec_replace(*first, p, rep)),
                second,
            }
        } else if layout_panes(*second).contains(p) {
            Layout::Split {
                direction,
                ratio,
                first,
                second: Box::new(spec_replace(*second, p, rep)),
            }
        } else {
            l
        },
    }
}

/// The sequence with the first `p` replaced by `t`.
pub open spec fn seq_replace(s: Seq<usize>, p: usize, t: Seq<usize>) -> Seq<usize>
    decreases s.len(),
{
    if s.len() == 0 {
        s
    } else if s[0] == p {
        t + s.drop_first()
    } else {
        seq![s[0]] + seq_replace(s.drop_first(), p, t)
    }
}

proof fn lemma_seq_replace_concat(a: Seq<usize>, b: Seq<usize>, p: usize, t: Seq<usize>)
    ensures
        seq_replace(a + b, p, t) == if a.contains(p) {
            seq_replace(a, p, t) + b
        } else {
            a + seq_replace(b, p, t)
        },
    decreases a.len(),
{
    if a.len() == 0 {
        assert(a + b == b);
    } else {
        assert((a + b)[0] == a[0]);
        assert((a + b).drop_first() == a.drop_first() + b);
        if a[0] == p {
            assert(a.contains(p));
            assert(t + (a.drop_first() + b) == (t + a.drop_first()) + b);
        } else {
            lemma_seq_replace_concat(a.drop_first(), b, p, t);
            if a.contains(p) {
                let k = choose|k: int| 0 <= k < a.len() && a[k] == p;
                assert(a.drop_first()[k - 1] == p);
                assert(seq![a[0]] + (seq_replace(a.drop_first(), p, t) + b) == (seq![a[0]]
                    + seq_replace(a.drop_first(), p, t)) + b);
            } else {
                assert forall|k: int| 0 <= k < a.drop_first().len() implies a.drop_first()[k]
                    != p by {
                    assert(a.drop_first()[k] == a[k + 1]);
                }
                assert(seq![a[0]] + (a.drop_first() + seq_replace(b, p, t)) == (seq![a[0]]
                    + a.drop_first()) + seq_replace(b, p, t));
                assert(seq![a[0]] + a.drop_first() == a);
            }
        }
    }
}

proof fn lemma_replace_panes(l: Layout, p: usize, rep: Layout)
    ensures
        layout_panes(spec_replace(l, p, rep)) == seq_replace(layout_panes(l), p, layout_panes(rep)),
    decreases l,
{
    match l {
        Layout::Pane(i) => {
            let s = seq![i];
            assert(s.drop_first() =~= Seq::<usize>::empty());
            if i == p {
                assert(layout_panes(rep) + s.drop_first() == layout_panes(rep));
            } else {
                assert(seq![s[0]] + seq_replace(s.drop_first(), p, layout_panes(rep)) == s);
            }
        },
        Layout::Split { direction, ratio, first, second } => {
            let a = layout_panes(*first);
            let b = layout_panes(*second);
            lemma_seq_replace_concat(a, b, p, layout_panes(rep));
            lemma_replace_panes(*first, p, rep);
            lemma_replace_panes(*second, p, rep);
            if !a.contains(p) && !b.contains(p) {
                lemma_seq_replace_absent(b, p, layout_panes(rep));
            }
        },
    }
}

proof fn lemma_seq_replace_absent(s: Seq<usize>, p: usize, t: Seq<usize>)
    requires
        !s.contains(p),
    ensures
        seq_replace(s, p, t) == s,
    decreases s.len(),
{
    if s.len() > 0 {
        assert(s[0] != p);
        assert forall|k: int| 0 <= k < s.drop_first().len() implies s.drop_first()[k] != p by {
            assert(s.drop_first()[k] == s[k + 1]);
        }
        lemma_seq_replace_absent(s.drop_first(), p, t);
        assert(seq![s[0]] + s.drop_first() == s);
    }
}

proof fn lemma_replace_ratios(l: Layout, p: usize, rep: Layout)
    requires
        ratios_ok(l),
        ratios_ok(rep),
    ensures
        ratios_ok(spec_replace(l, p, rep)),
    decreases l,
{
    match l {
        Layout::Pane(_) => {},
        Layout::Split { first, second, .. } => {
            lemma_replace_ratios(*first, p, rep);
            lemma_replace_ratios(*second, p, rep);
        },
    }
}

/// Replacing `p` by `p` and then `q` keeps every element and adds `q`.
proof fn lemma_split_leaf_contains(s: Seq<usize>, p: usize, q: usize, x: usize)
    requires
        s.contains(p),
    ensures
        seq_replace(s, p, seq![p, q]).contains(x) <==> (s.contains(x) || x == q),
    decreases s.len(),
{
    let t = seq![p, q];
    if s[0] == p {
        let r = t + s.drop_first();
        if s.contains(x) {
            let k = choose|k: int| 0 <= k < s.len() && s[k] == x;
            if k == 0 {
                assert(r[0] == x);
            } else {
                assert(r[k + 1] == x);
            }
        }
        if x == q {
            assert(r[1] == x);
        }
        if r.contains(x) {
            let k = choose|k: int| 0 <= k < r.len() && r[k] == x;
            if k >= 2 {
                assert(s[k - 1] == x);
            } else if k == 0 {
                assert(s[0] == x);
            }
        }
    } else {
        let rest = s.drop_first();
        let k0 = choose|k: int| 0 <= k < s.len() && s[k] == p;
        assert(rest[k0 - 1] == p);
        lemma_split_leaf_contains(rest, p, q, x);
        let r = seq![s[0]] + seq_replace(rest, p, t);
        if s.contains(x) {
            let k = choose|k: int| 0 <= k < s.len() && s[k] == x;
            if k == 0 {
                assert(r[0] == x);
            } else {
                assert(rest[k - 1] == x);
                let j = choose|j: int|
                    0 <= j < seq_replace(rest, p, t).len() && seq_replace(rest, p, t)[j] == x;
                assert(r[j + 1] == x);
            }
        }
        if x == q {
            let j = choose|j: int|
                0 <= j < seq_replace(rest, p, t).len() && seq_replace(rest, p, t)[j] == x;
            assert(r[j + 1] == x);
        }
        if r.contains(x) {
            let k = choose|k: int| 0 <= k < r.len() && r[k] == x;
            if k == 0 {
                assert(s[0] == x);
            } else {
                assert(seq_replace(rest, p, t)[k - 1] == x);
                if rest.contains(x) {
                    let j = choose|j: int| 0 <= j < rest.len() && rest[j] == x;
                    assert(s[j + 1] == x);
                }
            }
        }
    }
}

proof fn lemma_split_leaf_unique(s: Seq<usize>, p: usize, q: usize)
    requires
        s.contains(p),
        s.no_duplicates(),
        !s.contains(q),
    ensures
        seq_replace(s, p, seq![p, q]).no_duplicates(),
    decreases s.len(),
{
    let t = seq![p, q];
    let rest = s.drop_first();
    assert(rest.no_duplicates()) by {
        assert forall|i: int, j: int| 0 <= i < rest.len() && 0 <= j < rest.len() && i != j implies rest[i]
            != rest[j] by {
            assert(rest[i] == s[i + 1] && rest[j] == s[j + 1]);
        }
    }
    assert(!rest.contains(q)) by {
        if rest.contains(q) {
            let j = choose|j: int| 0 <= j < rest.len() && rest[j] == q;
            assert(s[j + 1] == q);
        }
    }
    assert(!rest.contains(s[0])) by {
        if rest.contains(s[0]) {
            let j = choose|j: int| 0 <= j < rest.len() && rest[j] == s[0];
            assert(s[j + 1] == s[0]);
        }
    }
    if s[0] == p {
        let r = t + rest;
        assert(p != q) by {
            assert(s[0] == p);
        }
        assert forall|i: int, j: int| 0 <= i < r.len() && 0 <= j < r.len() && i != j implies r[i]
            != r[j] by {
            if i >= 2 && j >= 2 {
                assert(r[i] == rest[i - 2] && r[j] == rest[j - 2]);
            } else if i < 2 && j >= 2 {
                assert(r[j] == rest[j - 2]);
            } else if j < 2 && i >= 2 {
                assert(r[i] == rest[i - 2]);
            }
        }
    } else {
        let k0 = choose|k: int| 0 <= k < s.len() && s[k] == p;
        assert(rest[k0 - 1] == p);
        lemma_split_leaf_unique(rest, p, q);
        let tail = seq_replace(rest, p, t);
        lemma_split_leaf_contains(rest, p, q, s[0]);
        assert(s[0] != q) by {
            assert(s.contains(s[0]));
        }
        let r = seq![s[0]] + tail;
        assert forall|i: int, j: int| 0 <= i < r.len() && 0 <= j < r.len() && i != j implies r[i]
            != r[j] by {
            if i > 0 && j > 0 {
                assert(r[i] == tail[i - 1] && r[j] == tail[j - 1]);
            } else if i == 0 {
                assert(r[j] == tail[j - 1]);
                assert(tail.contains(r[j]));
            } else {
                assert(r[i] == tail[i - 1]);
                assert(tail.contains(r[i]));
            }
        }
    }
}

/// The largest element of a non-empty sequence.
pub open spec fn seq_max(s: Seq<usize>) -> usize
    decreases s.len(),
{
    if s.len() <= 1 {
        if s.len() == 1 {
            s[0]
        } else {
            0
        }
    } else {
        let m = seq_max(s.drop_last());
        if s.last() > m {
            s.last()
        } else {
            m
        }
    }
}

/// The index after the largest pane, if there is one.
pub open spec fn spec_next(l: Layout) -> Option<usize> {
    let m = seq_max(layout_panes(l));
    if m < usize::MAX {
        Some((m + 1) as usize)
    } else {
        None
    }
}

fn max_pane(l: &Layout) -> (r: usize)
    ensures
        r == seq_max(layout_panes(*l)),
{
    let panes = l.pane_indices();
    let mut m: usize = 0;
    let mut i: usize = 0;
    while i < panes.len()
        invariant
            i <= panes@.len(),
            i > 0 ==> m == seq_max(panes@.take(i as int)),
        decreases panes.len() - i,
    {
        assert(panes@.take(i + 1).drop_last() == panes@.take(i as int));
        assert(panes@.take(i + 1).last() == panes@[i as int]);
        if i == 0 || panes[i] > m {
            m = panes[i];
        }
        i += 1;
    }
    proof {
        lemma_panes_nonempty(*l);
        assert(panes@.take(panes@.len() as int) == panes@);
    }
    m
}

proof fn lemma_panes_nonempty(l: Layout)
    ensures
        layout_panes(l).len() > 0,
    decreases l,
{
    match l {
        Layout::Pane(_) => {},
        Layout::Split { first, .. } => {
            lemma_panes_nonempty(*first);
        },
    }
}

/// Builds a chain by repeatedly splitting the leaf created most recently.
/// The builder starts with one pane; `split` allocates sequential pane
/// indices, `split_pane` lets the caller choose one.
pub struct PaneChainBuilder {
    layout: Layout,
    tail_pane: usize,
    next_pane: Option<usize>,
}

impl PaneChainBuilder {
    #[verifier::type_invariant]
    spec fn well_formed(self) -> bool {
        &&& layout_ok(self.layout)
        &&& layout_panes(self.layout).contains(self.tail_pane)
        &&& self.next_pane == spec_next(self.layout)
    }

    pub closed spec fn layout_view(self) -> Layout {
        self.layout
    }

    pub closed spec fn tail_view(self) -> usize {
        self.tail_pane
    }

    pub closed spec fn next_view(self) -> Option<usize> {
        self.next_pane
    }

    /// Starts a chain at `first_pane`.
    pub fn new(first_pane: usize) -> (r: Self)
        ensures
            r.layout_view() == Layout::Pane(first_pane),
            r.tail_view() == first_pane,
            r.next_view() == (if first_pane < usize::MAX {
                Some((first_pane + 1) as usize)
            } else {
                None::<usize>
            }),
    {
        let next = first_pane.checked_add(1);
        proof {
            assert(layout_panes(Layout::Pane(first_pane))[0] == first_pane);
            assert(seq_max(layout_panes(Layout::Pane(first_pane))) == first_pane);
            lemma_index_single(first_pane);
        }
        PaneChainBuilder { layout: Layout::Pane(first_pane), tail_pane: first_pane, next_pane: next }
    }

    /// Splits the most recently created pane and allocates the next index.
    pub fn split(self, direction: SplitDirection, existing_pane_share: Ratio) -> (r: Result<
        Self,
        LayoutError,
    >)
        ensures
            match self.next_view() {
                None => r == Err::<Self, LayoutError>(LayoutError::PaneIndexOverflow),
                Some(q) => split_outcome(self, q, direction, existing_pane_share, r),
            },
    {
        match self.next_pane {
            None => Err(LayoutError::PaneIndexOverflow),
            Some(q) => self.split_pane(q, direction, existing_pane_share),
        }
    }

    /// Splits the most recently created pane, placing `pane_index` second.
    pub fn split_pane(self, pane_index: usize, direction: SplitDirection, existing_pane_share: Ratio) -> (r:
        Result<Self, LayoutError>)
        ensures
            split_outcome(self, pane_index, direction, existing_pane_share, r),
    {
        proof {
            use_type_invariant(&self);
        }
        match validate_pane_share(existing_pane_share) {
            Err(e) => {
                return Err(e);
            },
            Ok(()) => {},
        }
        if self.layout.contains_pane(pane_index) {
            return Err(LayoutError::DuplicatePane { index: pane_index });
        }
        let tail = self.tail_pane;
        let replacement = Layout::Split {
            direction,
            ratio: existing_pane_share,
            first: Box::new(Layout::Pane(tail)),
            second: Box::new(Layout::Pane(pane_index)),
        };
        let ghost old_layout = self.layout;
        let layout = match replace_pane(self.layout, tail, replacement) {
            Ok(l) => l,
            Err(e) => {
                return Err(e);
            },
        };
        proof {
            let s = layout_panes(old_layout);
            lemma_replace_panes(old_layout, tail, chain_split(direction, existing_pane_share, tail, pane_index));
            assert(layout_panes(Layout::Pane(tail)) == seq![tail]);
            assert(layout_panes(Layout::Pane(pane_index)) == seq![pane_index]);
            assert(ratios_ok(Layout::Pane(tail)));
            assert(ratios_ok(Layout::Pane(pane_index)));
            assert(layout_panes(chain_split(direction, existing_pane_share, tail, pane_index))
                =~= seq![tail, pane_index]);
            assert(pane_share_ok(existing_pane_share));
            assert(ratio_ok(existing_pane_share));
            assert(ratios_ok(chain_split(direction, existing_pane_share, tail, pane_index)));
            lemma_split_leaf_unique(s, tail, pane_index);
            lemma_split_leaf_contains(s, tail, pane_index, pane_index);
            lemma_replace_ratios(old_layout, tail, chain_split(direction, existing_pane_share, tail, pane_index));
        }
        let m = max_pane(&layout);
        let next = m.checked_add(1);
        Ok(PaneChainBuilder { layout, tail_pane: pane_index, next_pane: next })
    }

    /// `split` to the right.
    pub fn split_right(self, existing_pane_share: Ratio) -> (r: Result<Self, LayoutError>)
        ensures
            match self.next_view() {
                None => r == Err::<Self, LayoutError>(LayoutError::PaneIndexOverflow),
                Some(q) => split_outcome(self, q, SplitDirection::Right, existing_pane_share, r),
            },
    {
        self.split(SplitDirection::Right, existing_pane_share)
    }

    /// `split` downwards.
    pub fn split_down(self, existing_pane_share: Ratio) -> (r: Result<Self, LayoutError>)
        ensures
            match self.next_view() {
                None => r == Err::<Self, LayoutError>(LayoutError::PaneIndexOverflow),
                Some(q) => split_outcome(self, q, SplitDirection::Down, existing_pane_share, r),
            },
    {
        self.split(SplitDirection::Down, existing_pane_share)
    }

    /// The layout built so far.
    pub fn layout(&self) -> (r: &Layout)
        ensures
            *r == self.layout_view(),
    {
        &self.layout
    }

    /// The pane that the next call to `split` will replace.
    pub fn tail_pane(&self) -> (r: usize)
        ensures
            r == self.tail_view(),
    {
        self.tail_pane
    }

    /// Finishes the chain.
    pub fn build(self) -> (r: Layout)
        ensures
            r == self.layout_view(),
            layout_ok(r),
    {
        proof {
            use_type_invariant(&self);
        }
        self.layout
    }
}

proof fn lemma_index_single(p: usize)
    ensures
        seq_max(seq![p]) == p,
{
}

/// What splitting the tail of `b` to add `q` gives.
pub open spec fn split_outcome(
    b: PaneChainBuilder,
    q: usize,
    d: SplitDirection,
    share: Ratio,
    r: Result<PaneChainBuilder, LayoutError>,
) -> bool {
    if !pane_share_ok(share) {
        r == Err::<PaneChainBuilder, LayoutError>(LayoutError::InvalidPaneShare { ratio: share })
    } else if layout_panes(b.layout_view()).contains(q) {
        r == Err::<PaneChainBuilder, LayoutError>(LayoutError::DuplicatePane { index: q })
    } else {
        r matches Ok(n) && n.layout_view() == spec_replace(
            b.layout_view(),
            b.tail_view(),
            chain_split(d, share, b.tail_view(), q),
        ) && n.tail_view() == q && n.next_view() == spec_next(n.layout_view())
    }
}

/// Replaces the leaf `pane_index` of a layout.
pub fn replace_pane(layout: Layout, pane_index: usize, replacement: Layout) -> (r: Result<
    Layout,
    LayoutError,
>)
    ensures
        layout_panes(layout).contains(pane_index) ==> r == Ok::<Layout, LayoutError>(
            spec_replace(layout, pane_index, replacement),
        ),
        !layout_panes(layout).contains(pane_index) ==> r == Err::<Layout, LayoutError>(
            LayoutError::PaneNotFound { index: pane_index },
        ),
    decreases layout,
{
    match layout {
        Layout::Pane(index) => {
            proof {
                assert(layout_panes(Layout::Pane(index))[0] == index);
                if layout_panes(Layout::Pane(index)).contains(pane_index) {
                    let k = choose|k: int|
                        0 <= k < layout_panes(Layout::Pane(index)).len() && layout_panes(
                            Layout::Pane(index),
                        )[k] == pane_index;
                }
            }
            if index == pane_index {
                Ok(replacement)
            } else {
                Err(LayoutError::PaneNotFound { index: pane_index })
            }
        },
        Layout::Split { direction, ratio, first, second } => {
            let ghost a = layout_panes(*first);
            let ghost b = layout_panes(*second);
            proof {
                if (a + b).contains(pane_index) {
                    let k = choose|k: int| 0 <= k < (a + b).len() && (a + b)[k] == pane_index;
                    if k < a.len() {
                        assert(a[k] == pane_index);
                    } else {
                        assert(b[k - a.len()] == pane_index);
                    }
                }
                if a.contains(pane_index) {
                    let k = choose|k: int| 0 <= k < a.len() && a[k] == pane_index;
                    assert((a + b)[k] == pane_index);
                }
                if b.contains(pane_index) {
                    let k = choose|k: int| 0 <= k < b.len() && b[k] == pane_index;
                    assert((a + b)[a.len() + k] == pane_index);
                }
            }
            if first.contains_pane(pane_index) {
                match replace_pane(*first, pane_index, replacement) {
                    Ok(f) => Ok(Layout::Split { direction, ratio, first: Box::new(f), second }),
                    Err(e) => Err(e),
                }
            } else if second.contains_pane(pane_index) {
                match replace_pane(*second, pane_index, replacement) {
                    Ok(s) => Ok(Layout::Split { direction, ratio, first, second: Box::new(s) }),
                    Err(e) => Err(e),
                }
            } else {
                Err(LayoutError::PaneNotFound { index: pane_index })
            }
        },
    }
}

} // verus!

verus! {

/// The chain of `n` panes numbered from zero, each new pane split off the
/// one created just before it, which keeps `share`.
pub open spec fn spec_chain(n: nat, d: SplitDirection, share: Ratio) -> Layout
    decreases n,
{
    if n <= 1 {
        Layout::Pane(0)
    } else {
        spec_replace(
            spec_chain((n - 1) as nat, d, share),
            (n - 2) as usize,
            chain_split(d, share, (n - 2) as usize, (n - 1) as usize),
        )
    }
}

proof fn lemma_range_max(k: nat)
    requires
        1 <= k <= usize::MAX + 1,
    ensures
        seq_max(index_range(0, k)) == k - 1,
    decreases k,
{
    if k > 1 {
        lemma_range_max((k - 1) as nat);
        assert(index_range(0, k).drop_last() =~= index_range(0, (k - 1) as nat));
    }
}

proof fn lemma_chain(n: nat, d: SplitDirection, share: Ratio)
    requires
        1 <= n <= usize::MAX,
        ratio_ok(share),
    ensures
        layout_panes(spec_chain(n, d, share)) == index_range(0, n),
        ratios_ok(spec_chain(n, d, share)),
    decreases n,
{
    if n == 1 {
        assert(layout_panes(Layout::Pane(0)) =~= index_range(0, 1));
    } else {
        let prev = spec_chain((n - 1) as nat, d, share);
        let p = (n - 2) as usize;
        let q = (n - 1) as usize;
        lemma_chain((n - 1) as nat, d, share);
        let rep = chain_split(d, share, p, q);
        assert(layout_panes(Layout::Pane(p)) == seq![p]);
        assert(layout_panes(Layout::Pane(q)) == seq![q]);
        assert(layout_panes(rep) =~= seq![p, q]);
        lemma_replace_panes(prev, p, rep);
        let front = index_range(0, (n - 2) as nat);
        assert(index_range(0, (n - 1) as nat) =~= front + seq![p]);
        assert(!front.contains(p)) by {
            if front.contains(p) {
                let k = choose|k: int| 0 <= k < front.len() && front[k] == p;
            }
        }
        lemma_seq_replace_concat(front, seq![p], p, seq![p, q]);
        assert(seq![p].drop_first() =~= Seq::<usize>::empty());
        assert(seq_replace(seq![p], p, seq![p, q]) =~= seq![p, q]);
        assert(front + seq![p, q] =~= index_range(0, n));
        assert(ratios_ok(Layout::Pane(p)));
        assert(ratios_ok(Layout::Pane(q)));
        lemma_replace_ratios(prev, p, rep);
    }
}

/// A pane chain of `n` panes holds the panes `0..n` in index order, each
/// once, with valid shares.
pub proof fn pane_chains_hold_every_pane_once(n: nat, d: SplitDirection, share: Ratio)
    requires
        1 <= n <= usize::MAX,
        pane_share_ok(share),
    ensures
        layout_panes(spec_chain(n, d, share)) == index_range(0, n),
        layout_ok(spec_chain(n, d, share)),
{
    lemma_chain(n, d, share);
    crate::layout::lemma_index_range_unique(0, n);
}

impl Layout {
    /// A sequential pane chain with one direction and one share: pane zero
    /// is the first leaf, and each later pane splits the one created just
    /// before it, which keeps `existing_pane_share`.
    pub fn pane_chain(pane_count: usize, direction: SplitDirection, existing_pane_share: Ratio) -> (r:
        Result<Layout, LayoutError>)
        ensures
            pane_count == 0 ==> r == Err::<Layout, LayoutError>(LayoutError::Empty),
            pane_count > 0 && !pane_share_ok(existing_pane_share) ==> r == Err::<Layout, LayoutError>(
                LayoutError::InvalidPaneShare { ratio: existing_pane_share },
            ),
            pane_count > 0 && pane_share_ok(existing_pane_share) ==> r == Ok::<Layout, LayoutError>(
                spec_chain(pane_count as nat, direction, existing_pane_share),
            ),
    {
        if pane_count == 0 {
            return Err(LayoutError::Empty);
        }
        match validate_pane_share(existing_pane_share) {
            Err(e) => {
                return Err(e);
            },
            Ok(()) => {},
        }
        let mut builder = PaneChainBuilder::new(0);
        proof {
            assert(layout_panes(Layout::Pane(0)) =~= index_range(0, 1));
        }
        let mut k: usize = 1;
        while k < pane_count
            invariant
                1 <= k <= pane_count,
                pane_share_ok(existing_pane_share),
                builder.layout_view() == spec_chain(k as nat, direction, existing_pane_share),
                builder.tail_view() == k - 1,
                builder.next_view() == Some(k),
            decreases pane_count - k,
        {
            proof {
                assert(ratio_ok(existing_pane_share));
                lemma_chain(k as nat, direction, existing_pane_share);
                let s = index_range(0, k as nat);
                assert(!s.contains(k)) by {
                    if s.contains(k) {
                        let j = choose|j: int| 0 <= j < s.len() && s[j] == k;
                    }
                }
            }
            builder = match builder.split(direction, existing_pane_share) {
                Ok(b) => b,
                Err(e) => {
                    return Err(e);
                },
            };
            proof {
                assert(ratio_ok(existing_pane_share));
                lemma_chain((k + 1) as nat, direction, existing_pane_share);
                lemma_range_max((k + 1) as nat);
            }
            k += 1;
        }
        Ok(builder.build())
    }
}

} // verus!

verus! {

/// The first split share, visiting a split before its children, that a
/// multiplexer sizing panes from 0.1 through 0.9 cannot represent.
pub open spec fn first_unrepresentable(l: Layout) -> Option<Ratio>
    decreases l,
{
    match l {
        Layout::Pane(_) => None,
        Layout::Split { ratio, first, second, .. } => if !pane_share_ok(ratio) {
            Some(ratio)
        } else {
            match first_unrepresentable(*first) {
                Some(r) => Some(r),
                None => first_unrepresentable(*second),
            }
        },
    }
}

/// Finds the first share outside 0.1 through 0.9.
pub fn find_unrepresentable(l: &Layout) -> (r: Option<Ratio>)
    ensures
        r == first_unrepresentable(*l),
    decreases l,
{
    match l {
        Layout::Pane(_) => None,
        Layout::Split { ratio, first, second, .. } => {
            if validate_pane_share(*ratio).is_err() {
                return Some(*ratio);
            }
            match find_unrepresentable(first) {
                Some(r) => Some(r),
                None => find_unrepresentable(second),
            }
        },
    }
}

/// The message refusing a share that `backend` cannot represent.
pub open spec fn unrepresentable_message(r: Ratio, backend: Seq<char>) -> Seq<char> {
    "layout ratio "@ + crate::zellij::decimal(r.first as nat) + seq!['/'] + crate::zellij::decimal(
        r.whole as nat,
    ) + " cannot be represented by "@ + backend + " (supported range is 0.1 through 0.9)."@
}

/// Refuses a layout with a share outside 0.1 through 0.9, naming the first
/// one and the backend.
pub fn validate_representable(l: &Layout, backend: &str) -> (r: Result<(), String>)
    ensures
        match first_unrepresentable(*l) {
            None => r is Ok,
            Some(x) => r matches Err(m) && m@ == unrepresentable_message(x, backend@),
        },
{
    match find_unrepresentable(l) {
        None => Ok(()),
        Some(x) => {
            let mut m: Vec<char> = Vec::new();
            crate::text::extend_str(&mut m, "layout ratio ");
            let a = crate::zellij::decimal_string_u64(x.first);
            crate::text::extend_str(&mut m, a.as_str());
            m.push('/');
            let b = crate::zellij::decimal_string_u64(x.whole);
            crate::text::extend_str(&mut m, b.as_str());
            crate::text::extend_str(&mut m, " cannot be represented by ");
            crate::text::extend_str(&mut m, backend);
            crate::text::extend_str(&mut m, " (supported range is 0.1 through 0.9).");
            Err(crate::text::string_of(m.as_slice()))
        },
    }
}

} // verus!
