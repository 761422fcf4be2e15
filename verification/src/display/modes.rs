//! Lists of distinct items in rank order, and the capability list of a
//! monitor as the first of them.
//!
//! A display driver lists the modes of a monitor in no particular order and
//! with repetitions. Consumers rely on one form for "best match" choices: no
//! mode twice, the widest first, among equally wide ones the tallest, then
//! the fastest. Modes that differ in colour depth only keep the order in
//! which the driver first listed them. The lists of choices that are offered
//! to the user are made in the same way under other orders.

use vstd::prelude::*;

use super::resolution::Resolution;

verus! {

/// Items with an order of precedence. Items that do not outrank each other
/// are of the same rank; they need not be equal.
pub trait Ranked: Copy + Sized {
    /// `self` stands before `other`.
    spec fn outranks(self, other: Self) -> bool;

    /// Whether `self` stands before `other`.
    fn ranks_before(&self, other: &Self) -> (before: bool)
        ensures
            before == self.outranks(*other),
    ;

    /// Whether the two are equal.
    fn same(&self, other: &Self) -> (equal: bool)
        ensures
            equal == (*self == *other),
    ;

    /// Precedence is an order: no two items outrank each other, and an item
    /// that outranks another outranks everything that is not ahead of that
    /// other.
    proof fn lemma_precedence(a: Self, b: Self, c: Self)
        ensures
            !(a.outranks(b) && b.outranks(a)),
            a.outranks(b) ==> a.outranks(c) || c.outranks(b),
    ;
}

/// Neither stands before the other.
pub open spec fn same_rank<T: Ranked>(a: T, b: T) -> bool {
    !a.outranks(b) && !b.outranks(a)
}

/// No item stands behind one that it outranks.
pub open spec fn in_rank_order<T: Ranked>(items: Seq<T>) -> bool {
    forall|i: int, j: int|
        0 <= i < j < items.len() ==> !(#[trigger] items[j]).outranks(#[trigger] items[i])
}

/// `a` occurs in `source` before `b` occurs for the first time, if `b`
/// occurs at all.
pub open spec fn seen_before<T>(source: Seq<T>, a: T, b: T) -> bool {
    exists|p: int|
        0 <= p < source.len() && #[trigger] source[p] == a && forall|q: int|
            0 <= q <= p ==> #[trigger] source[q] != b
}

/// `listed` holds the items of `source`, each once, in rank order, and
/// items of the same rank in the order of their first appearance in
/// `source`.
pub open spec fn is_ranked_form<T: Ranked>(source: Seq<T>, listed: Seq<T>) -> bool {
    &&& in_rank_order(listed)
    &&& listed.no_duplicates()
    &&& forall|r: T| #[trigger] listed.contains(r) <==> source.contains(r)
    &&& forall|i: int, j: int|
        0 <= i < j < listed.len() && same_rank(#[trigger] listed[i], #[trigger] listed[j])
            ==> seen_before(source, listed[i], listed[j])
}

/// `a` stands before `b` in a capability list: it is wider, or as wide and
/// taller, or of the same size and faster.
pub open spec fn outranks(a: Resolution, b: Resolution) -> bool {
    a.width > b.width || (a.width == b.width && (a.height > b.height || (a.height == b.height
        && a.frequency > b.frequency)))
}

impl Ranked for Resolution {
    open spec fn outranks(self, other: Self) -> bool {
        outranks(self, other)
    }

    fn ranks_before(&self, other: &Self) -> (before: bool) {
        self.width > other.width || (self.width == other.width && (self.height > other.height || (
        self.height == other.height && self.frequency > other.frequency)))
    }

    fn same(&self, other: &Self) -> (equal: bool) {
        *self == *other
    }

    proof fn lemma_precedence(a: Self, b: Self, c: Self) {
    }
}

/// `listed` is the capability list made from what the driver listed in
/// `source`: the same modes, each once, in catalog order, and modes of the
/// same size and rate in the order of their first appearance in `source`.
pub open spec fn is_catalog_form(source: Seq<Resolution>, listed: Seq<Resolution>) -> bool {
    is_ranked_form(source, listed)
}

/// Whether `a` stands before `b` in a capability list.
pub fn ranks_before(a: &Resolution, b: &Resolution) -> (before: bool)
    ensures
        before == outranks(*a, *b),
{
    a.ranks_before(b)
}

/// Whether the list holds the item.
pub fn holds<T: Ranked>(items: &Vec<T>, item: &T) -> (found: bool)
    ensures
        found == items@.contains(*item),
{
    let mut i: usize = 0;
    while i < items.len()
        invariant
            i <= items.len(),
            forall|k: int| 0 <= k < i ==> items@[k] != *item,
        decreases items.len() - i,
    {
        if items[i].same(item) {
            return true;
        }
        i += 1;
    }
    false
}

/// Seeing one more mode of the source that is listed already changes
/// nothing, and neither does any longer source take away what was seen.
proof fn lemma_source_grows<T: Ranked>(source: Seq<T>, n: int, listed: Seq<T>)
    requires
        0 <= n < source.len(),
        is_ranked_form(source.take(n), listed),
        listed.contains(source[n]),
    ensures
        is_ranked_form(source.take(n + 1), listed),
{
    let shorter = source.take(n);
    let longer = source.take(n + 1);
    assert forall|r: T| #[trigger] listed.contains(r) <==> longer.contains(r) by {
        if listed.contains(r) {
            assert(shorter.contains(r));
            let p = choose|p: int| 0 <= p < shorter.len() && shorter[p] == r;
            assert(longer[p] == r);
        }
        if longer.contains(r) {
            let p = choose|p: int| 0 <= p < longer.len() && longer[p] == r;
            if p < n {
                assert(shorter[p] == r);
            }
        }
    }
    assert forall|i: int, j: int|
        0 <= i < j < listed.len() && same_rank(
            #[trigger] listed[i],
            #[trigger] listed[j],
        ) implies seen_before(longer, listed[i], listed[j]) by {
        assert(seen_before(shorter, listed[i], listed[j]));
        let p = choose|p: int|
            0 <= p < shorter.len() && #[trigger] shorter[p] == listed[i] && forall|q: int|
                0 <= q <= p ==> #[trigger] shorter[q] != listed[j];
        assert(longer[p] == listed[i]);
        assert forall|q: int| 0 <= q <= p implies #[trigger] longer[q] != listed[j] by {
            assert(shorter[q] != listed[j]);
        }
    }
}

/// Putting an item that was not seen before at the first place where it
/// outranks what stands there keeps the list in catalog form.
proof fn lemma_new_item<T: Ranked>(source: Seq<T>, n: int, listed: Seq<T>, at: int)
    requires
        0 <= n < source.len(),
        is_ranked_form(source.take(n), listed),
        !listed.contains(source[n]),
        0 <= at <= listed.len(),
        forall|k: int| 0 <= k < at ==> !source[n].outranks(#[trigger] listed[k]),
        at < listed.len() ==> source[n].outranks(listed[at]),
    ensures
        is_ranked_form(source.take(n + 1), listed.insert(at, source[n])),
{
    let mode = source[n];
    let shorter = source.take(n);
    let longer = source.take(n + 1);
    let after = listed.insert(at, mode);
    listed.insert_ensures(at, mode);
    assert(after.len() == listed.len() + 1);
    assert(after[at] == mode);
    assert forall|k: int| 0 <= k < at implies #[trigger] after[k] == listed[k] by {}
    assert forall|k: int| at < k < after.len() implies #[trigger] after[k] == listed[k - 1] by {}
    assert forall|k: int| 0 <= k < listed.len() implies listed[k] != mode by {
        if listed[k] == mode {
            assert(listed.contains(mode));
        }
    }
    assert forall|k: int| at <= k < listed.len() implies mode.outranks(#[trigger] listed[k]) by {
        if at < k {
            assert(!listed[k].outranks(listed[at]));
            T::lemma_precedence(mode, listed[at], listed[k]);
        }
    }
    assert(in_rank_order(after)) by {
        assert forall|i: int, j: int| 0 <= i < j < after.len() implies !(
        #[trigger] after[j]).outranks(#[trigger] after[i]) by {
            if j == at {
                assert(after[i] == listed[i]);
            } else if i == at {
                assert(after[j] == listed[j - 1]);
                assert(mode.outranks(listed[j - 1]));
                T::lemma_precedence(mode, listed[j - 1], mode);
            } else {
                let oi = if i < at { i } else { i - 1 };
                let oj = if j < at { j } else { j - 1 };
                assert(after[i] == listed[oi] && after[j] == listed[oj]);
                assert(!listed[oj].outranks(listed[oi]));
            }
        }
    }
    assert(after.no_duplicates()) by {
        assert forall|i: int, j: int| 0 <= i < after.len() && 0 <= j < after.len() && i
            != j implies after[i] != after[j] by {
            let oi = if i < at { i } else { i - 1 };
            let oj = if j < at { j } else { j - 1 };
            if i != at && j != at {
                assert(after[i] == listed[oi] && after[j] == listed[oj]);
                assert(listed[oi] != listed[oj]);
            } else if i == at {
                assert(after[j] == listed[oj]);
            } else {
                assert(after[i] == listed[oi]);
            }
        }
    }
    assert forall|r: T| #[trigger] after.contains(r) <==> longer.contains(r) by {
        if after.contains(r) {
            let k = choose|k: int| 0 <= k < after.len() && after[k] == r;
            if k == at {
                assert(longer[n] == r);
            } else {
                let ok = if k < at { k } else { k - 1 };
                assert(listed[ok] == r);
                assert(listed.contains(r));
                assert(shorter.contains(r));
                let p = choose|p: int| 0 <= p < shorter.len() && shorter[p] == r;
                assert(longer[p] == r);
            }
        }
        if longer.contains(r) {
            let p = choose|p: int| 0 <= p < longer.len() && longer[p] == r;
            if p < n {
                assert(shorter[p] == r);
                assert(shorter.contains(r));
                assert(listed.contains(r));
                let k = choose|k: int| 0 <= k < listed.len() && listed[k] == r;
                let nk = if k < at { k } else { k + 1 };
                assert(after[nk] == r);
            } else {
                assert(after[at] == r);
            }
        }
    }
    assert forall|i: int, j: int|
        0 <= i < j < after.len() && same_rank(
            #[trigger] after[i],
            #[trigger] after[j],
        ) implies seen_before(longer, after[i], after[j]) by {
        if j == at {
            assert(after[i] == listed[i]);
            assert(listed.contains(listed[i]));
            assert(shorter.contains(listed[i]));
            let p = choose|p: int| 0 <= p < shorter.len() && shorter[p] == listed[i];
            assert(longer[p] == listed[i]);
            assert forall|q: int| 0 <= q <= p implies #[trigger] longer[q] != mode by {
                if longer[q] == mode {
                    assert(shorter[q] == mode);
                    assert(shorter.contains(mode));
                }
            }
        } else if i == at {
            assert(after[j] == listed[j - 1]);
            assert(mode.outranks(listed[j - 1]));
        } else {
            let oi = if i < at { i } else { i - 1 };
            let oj = if j < at { j } else { j - 1 };
            assert(after[i] == listed[oi] && after[j] == listed[oj]);
            assert(seen_before(shorter, listed[oi], listed[oj]));
            let p = choose|p: int|
                0 <= p < shorter.len() && #[trigger] shorter[p] == listed[oi] && forall|q: int|
                    0 <= q <= p ==> #[trigger] shorter[q] != listed[oj];
            assert(longer[p] == listed[oi]);
            assert forall|q: int| 0 <= q <= p implies #[trigger] longer[q] != listed[oj] by {
                assert(shorter[q] != listed[oj]);
            }
        }
    }
}

/// `x` has its place before `y` in the ranked form of `source`: it outranks
/// `y`, or is of the same rank and was seen first.
pub open spec fn placed_before<T: Ranked>(source: Seq<T>, x: T, y: T) -> bool {
    x.outranks(y) || (same_rank(x, y) && seen_before(source, x, y))
}

/// Every item of the list has its place before the items behind it.
pub open spec fn all_placed<T: Ranked>(source: Seq<T>, listed: Seq<T>) -> bool {
    forall|i: int, j: int|
        0 <= i < j < listed.len() ==> placed_before(
            source,
            #[trigger] listed[i],
            #[trigger] listed[j],
        )
}

/// Of two different items at most one has its place before the other.
proof fn lemma_one_place<T: Ranked>(source: Seq<T>, x: T, y: T)
    requires
        x != y,
        placed_before(source, x, y),
    ensures
        !placed_before(source, y, x),
{
    T::lemma_precedence(x, y, x);
    if seen_before(source, x, y) && seen_before(source, y, x) {
        let p = choose|p: int|
            0 <= p < source.len() && #[trigger] source[p] == x && forall|q: int|
                0 <= q <= p ==> #[trigger] source[q] != y;
        let r = choose|r: int|
            0 <= r < source.len() && #[trigger] source[r] == y && forall|q: int|
                0 <= q <= r ==> #[trigger] source[q] != x;
        if p <= r {
            assert(source[p] != x);
        } else {
            assert(source[r] != y);
        }
    }
}

/// Two lists of the same distinct items in which every item has its place
/// are the same list.
proof fn lemma_places_settle<T: Ranked>(source: Seq<T>, a: Seq<T>, b: Seq<T>)
    requires
        a.no_duplicates(),
        b.no_duplicates(),
        forall|r: T| a.contains(r) <==> b.contains(r),
        all_placed(source, a),
        all_placed(source, b),
    ensures
        a == b,
    decreases a.len(),
{
    if a.len() == 0 {
        if b.len() > 0 {
            assert(b.contains(b[0]));
            assert(a.contains(b[0]));
        }
        assert(a =~= b);
    } else {
        assert(a.contains(a[0]));
        assert(b.contains(a[0]));
        let j = choose|j: int| 0 <= j < b.len() && b[j] == a[0];
        if j > 0 {
            assert(placed_before(source, b[0], b[j]));
            assert(b.contains(b[0]));
            assert(a.contains(b[0]));
            let i = choose|i: int| 0 <= i < a.len() && a[i] == b[0];
            assert(b[0] != b[j]);
            assert(i > 0);
            assert(placed_before(source, a[0], a[i]));
            lemma_one_place(source, a[0], b[0]);
        }
        assert(a[0] == b[0]);
        let rest_a = a.skip(1);
        let rest_b = b.skip(1);
        assert forall|r: T| rest_a.contains(r) <==> rest_b.contains(r) by {
            if rest_a.contains(r) {
                let i = choose|i: int| 0 <= i < rest_a.len() && rest_a[i] == r;
                assert(a[i + 1] == r);
                assert(a.contains(r));
                assert(r != a[0]);
                assert(b.contains(r));
                let k = choose|k: int| 0 <= k < b.len() && b[k] == r;
                assert(rest_b[k - 1] == r);
            }
            if rest_b.contains(r) {
                let i = choose|i: int| 0 <= i < rest_b.len() && rest_b[i] == r;
                assert(b[i + 1] == r);
                assert(b.contains(r));
                assert(r != b[0]);
                assert(a.contains(r));
                let k = choose|k: int| 0 <= k < a.len() && a[k] == r;
                assert(rest_a[k - 1] == r);
            }
        }
        assert(all_placed(source, rest_a)) by {
            assert forall|i: int, j: int| 0 <= i < j < rest_a.len() implies placed_before(
                source,
                #[trigger] rest_a[i],
                #[trigger] rest_a[j],
            ) by {
                assert(placed_before(source, a[i + 1], a[j + 1]));
            }
        }
        assert(all_placed(source, rest_b)) by {
            assert forall|i: int, j: int| 0 <= i < j < rest_b.len() implies placed_before(
                source,
                #[trigger] rest_b[i],
                #[trigger] rest_b[j],
            ) by {
                assert(placed_before(source, b[i + 1], b[j + 1]));
            }
        }
        assert(rest_a.no_duplicates()) by {
            assert forall|i: int, j: int|
                0 <= i < rest_a.len() && 0 <= j < rest_a.len() && i != j implies rest_a[i]
                != rest_a[j] by {
                assert(a[i + 1] != a[j + 1]);
            }
        }
        assert(rest_b.no_duplicates()) by {
            assert forall|i: int, j: int|
                0 <= i < rest_b.len() && 0 <= j < rest_b.len() && i != j implies rest_b[i]
                != rest_b[j] by {
                assert(b[i + 1] != b[j + 1]);
            }
        }
        lemma_places_settle(source, rest_a, rest_b);
        assert(a =~= seq![a[0]] + rest_a);
        assert(b =~= seq![b[0]] + rest_b);
    }
}

/// A source has one ranked form only: whatever meets `is_ranked_form` is the
/// list that `ranked_form` makes.
pub proof fn lemma_ranked_form_unique<T: Ranked>(source: Seq<T>, a: Seq<T>, b: Seq<T>)
    requires
        is_ranked_form(source, a),
        is_ranked_form(source, b),
    ensures
        a == b,
{
    assert(all_placed(source, a)) by {
        assert forall|i: int, j: int| 0 <= i < j < a.len() implies placed_before(
            source,
            #[trigger] a[i],
            #[trigger] a[j],
        ) by {
            assert(!a[j].outranks(a[i]));
        }
    }
    assert(all_placed(source, b)) by {
        assert forall|i: int, j: int| 0 <= i < j < b.len() implies placed_before(
            source,
            #[trigger] b[i],
            #[trigger] b[j],
        ) by {
            assert(!b[j].outranks(b[i]));
        }
    }
    assert forall|r: T| a.contains(r) <==> b.contains(r) by {
        assert(a.contains(r) <==> source.contains(r));
        assert(b.contains(r) <==> source.contains(r));
    }
    lemma_places_settle(source, a, b);
}

/// The items of `source`, each once, in rank order; items of the same rank
/// in the order of their first appearance.
pub fn ranked_form<T: Ranked>(source: &Vec<T>) -> (listed: Vec<T>)
    ensures
        is_ranked_form(source@, listed@),
{
    let mut listed: Vec<T> = Vec::new();
    let mut n: usize = 0;
    proof {
        assert(source@.take(0) =~= Seq::<T>::empty());
    }
    while n < source.len()
        invariant
            n <= source.len(),
            is_ranked_form(source@.take(n as int), listed@),
        decreases source.len() - n,
    {
        let item = source[n];
        if holds(&listed, &item) {
            proof {
                lemma_source_grows(source@, n as int, listed@);
            }
        } else {
            let mut at: usize = 0;
            while at < listed.len() && !item.ranks_before(&listed[at])
                invariant
                    at <= listed.len(),
                    forall|k: int| 0 <= k < at ==> !item.outranks(#[trigger] listed@[k]),
                decreases listed.len() - at,
            {
                at += 1;
            }
            proof {
                lemma_new_item(source@, n as int, listed@, at as int);
            }
            listed.insert(at, item);
        }
        n += 1;
    }
    proof {
        assert(source@.take(n as int) =~= source@);
    }
    listed
}

/// Makes the capability list from the modes that a driver listed.
pub fn catalog_form(source: &Vec<Resolution>) -> (listed: Vec<Resolution>)
    ensures
        is_catalog_form(source@, listed@),
{
    ranked_form(source)
}

} // verus!
