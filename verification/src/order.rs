//! Lists put in order: by a count, greatest first, and by name.

use crate::text::chars_of;
use vstd::prelude::*;

verus! {

/// Whether a text goes before another: at the first place where they differ it has the lesser
/// character, or it ends there.
pub open spec fn text_before(a: Seq<char>, b: Seq<char>) -> bool
    decreases a.len(),
{
    if b.len() == 0 {
        false
    } else if a.len() == 0 {
        true
    } else if a[0] != b[0] {
        (a[0] as int) < (b[0] as int)
    } else {
        text_before(a.skip(1), b.skip(1))
    }
}

/// Whether a character is the lesser.
fn char_before(c: char, d: char) -> (r: bool)
    ensures
        r == ((c as int) < (d as int)),
{
    c < d
}

/// Whether a text goes before another.
pub fn precedes(a: &str, b: &str) -> (r: bool)
    ensures
        r == text_before(a@, b@),
{
    let x: Vec<char> = chars_of(a);
    let y: Vec<char> = chars_of(b);
    let mut i: usize = 0;
    assert(x@.skip(0) =~= x@);
    assert(y@.skip(0) =~= y@);
    while i < x.len() && i < y.len()
        invariant
            i <= x@.len(),
            i <= y@.len(),
            x@ == a@,
            y@ == b@,
            text_before(x@, y@) == text_before(x@.skip(i as int), y@.skip(i as int)),
        decreases x@.len() - i,
    {
        proof {
            assert(x@.skip(i as int)[0] == x@[i as int]);
            assert(y@.skip(i as int)[0] == y@[i as int]);
            assert(x@.skip(i as int).skip(1) =~= x@.skip(i + 1));
            assert(y@.skip(i as int).skip(1) =~= y@.skip(i + 1));
        }
        let c: char = x[i];
        let d: char = y[i];
        if c != d {
            return char_before(c, d);
        }
        i += 1;
    }
    i < y.len()
}

/// No two texts go before each other.
pub proof fn text_order_is_one_way(a: Seq<char>, b: Seq<char>)
    ensures
        !(text_before(a, b) && text_before(b, a)),
    decreases a.len(),
{
    if a.len() > 0 && b.len() > 0 && a[0] == b[0] {
        text_order_is_one_way(a.skip(1), b.skip(1));
    }
}

/// What goes before a text goes before all that follow the text.
pub proof fn text_order_carries_over(a: Seq<char>, b: Seq<char>, c: Seq<char>)
    requires
        text_before(a, b),
        text_before(b, c),
    ensures
        text_before(a, c),
    decreases a.len(),
{
    if a.len() > 0 && a[0] == b[0] && b[0] == c[0] {
        text_order_carries_over(a.skip(1), b.skip(1), c.skip(1));
    }
}

/// Of two texts that differ, one goes before the other.
pub proof fn text_order_is_total(a: Seq<char>, b: Seq<char>)
    requires
        a != b,
    ensures
        text_before(a, b) || text_before(b, a),
    decreases a.len(),
{
    if a.len() > 0 && b.len() > 0 {
        if a[0] == b[0] {
            if a.skip(1) == b.skip(1) {
                assert(a =~= seq![a[0]] + a.skip(1));
                assert(b =~= seq![b[0]] + b.skip(1));
                assert(a =~= b);
            }
            text_order_is_total(a.skip(1), b.skip(1));
        } else {
            let (c, d) = (a[0], b[0]);
            assert(c as int != d as int);
        }
    } else if a.len() == 0 && b.len() == 0 {
        assert(a =~= b);
    }
}

/// An item of a list that is to be put in order.
#[derive(Debug, Clone)]
pub struct Ranked {
    pub count: u64,
    pub name: String,
    /// Where the item stands in the list.
    pub index: usize,
}

/// A [`Ranked`] as plain values.
pub struct RankView {
    pub count: u64,
    pub name: Seq<char>,
    pub index: usize,
}

impl View for Ranked {
    type V = RankView;

    open spec fn view(&self) -> RankView {
        RankView { count: self.count, name: self.name@, index: self.index }
    }
}

/// The items as plain values.
pub open spec fn rank_views(v: Seq<Ranked>) -> Seq<RankView> {
    Seq::new(v.len(), |i: int| v[i]@)
}

/// Whether an item goes before another: it has the greater count, or the same count and a name that
/// goes before.
pub open spec fn goes_before(a: RankView, b: RankView) -> bool {
    a.count > b.count || (a.count == b.count && text_before(a.name, b.name))
}

/// Where an item is put into a list that is in order: before the first that it goes before.
pub open spec fn slot_for(v: Seq<RankView>, x: RankView, from: int) -> int
    decreases v.len() - from,
{
    if from < 0 || from >= v.len() {
        v.len() as int
    } else if goes_before(x, v[from]) {
        from
    } else {
        slot_for(v, x, from + 1)
    }
}

/// A list put in order. Of two items of which neither goes before the other, the one that came
/// first stays first.
pub open spec fn in_order(v: Seq<RankView>) -> Seq<RankView>
    decreases v.len(),
{
    if v.len() == 0 {
        Seq::empty()
    } else {
        let before = in_order(v.drop_last());
        before.insert(slot_for(before, v.last(), 0), v.last())
    }
}

/// Where an item is put.
proof fn lemma_slot(v: Seq<RankView>, x: RankView, from: int)
    requires
        0 <= from <= v.len(),
    ensures
        from <= slot_for(v, x, from) <= v.len(),
        forall|i: int| from <= i < slot_for(v, x, from) ==> !goes_before(x, #[trigger] v[i]),
        slot_for(v, x, from) < v.len() ==> goes_before(x, v[slot_for(v, x, from)]),
    decreases v.len() - from,
{
    if from < v.len() && !goes_before(x, v[from]) {
        lemma_slot(v, x, from + 1);
    }
}

/// What goes before an item that goes before a third goes before the third, and is not gone before
/// by either.
proof fn lemma_before(a: RankView, b: RankView, c: RankView)
    ensures
        goes_before(a, b) ==> !goes_before(b, a),
        goes_before(a, b) && goes_before(b, c) ==> goes_before(a, c),
{
    text_order_is_one_way(a.name, b.name);
    if text_before(a.name, b.name) && text_before(b.name, c.name) {
        text_order_carries_over(a.name, b.name, c.name);
    }
}

/// A list put in order holds the same items, and none stands after one that it goes before.
pub proof fn order_is_kept(v: Seq<RankView>)
    ensures
        in_order(v).len() == v.len(),
        in_order(v).to_multiset() == v.to_multiset(),
        forall|i: int, j: int|
            0 <= i < j < in_order(v).len() ==> !goes_before(
                #[trigger] in_order(v)[j],
                #[trigger] in_order(v)[i],
            ),
    decreases v.len(),
{
    broadcast use vstd::seq_lib::group_to_multiset_ensures;

    if v.len() > 0 {
        let before = in_order(v.drop_last());
        let x = v.last();
        let k = slot_for(before, x, 0);
        order_is_kept(v.drop_last());
        lemma_slot(before, x, 0);
        let after = before.insert(k, x);
        assert forall|i: int, j: int| 0 <= i < j < after.len() implies !goes_before(
            #[trigger] after[j],
            #[trigger] after[i],
        ) by {
            if j < k {
                assert(after[j] == before[j] && after[i] == before[i]);
            } else if j == k {
                assert(after[i] == before[i]);
            } else if i < k {
                assert(after[i] == before[i] && after[j] == before[j - 1]);
            } else if i == k {
                assert(after[j] == before[j - 1]);
                assert(goes_before(x, before[k]));
                lemma_before(x, before[k], x);
                lemma_before(before[j - 1], x, before[k]);
                if j - 1 > k {
                    assert(!goes_before(before[j - 1], before[k]));
                }
            } else {
                assert(after[i] == before[i - 1] && after[j] == before[j - 1]);
            }
        }
        assert(v =~= v.drop_last().push(x));
        assert(after.to_multiset() =~= before.to_multiset().insert(x)) by {
            before.to_multiset_ensures();
            after.to_multiset_ensures();
            assert(after.remove(k) =~= before);
        }
    } else {
        assert(in_order(v) =~= v);
    }
}

/// Items that stand in order of their places hold no place outside the list when they are put in
/// order by rank.
pub proof fn order_keeps_places(v: Seq<RankView>, n: int)
    requires
        forall|i: int| 0 <= i < v.len() ==> (#[trigger] v[i]).index < n,
    ensures
        forall|i: int| 0 <= i < in_order(v).len() ==> (#[trigger] in_order(v)[i]).index < n,
        in_order(v).len() == v.len(),
    decreases v.len(),
{
    if v.len() > 0 {
        let before = in_order(v.drop_last());
        order_keeps_places(v.drop_last(), n);
        lemma_slot(before, v.last(), 0);
        let k = slot_for(before, v.last(), 0);
        let after = before.insert(k, v.last());
        assert forall|i: int| 0 <= i < after.len() implies (#[trigger] after[i]).index < n by {
            if i < k {
                assert(after[i] == before[i]);
            } else if i > k {
                assert(after[i] == before[i - 1]);
            }
        }
    }
}

/// Whether an item goes before another.
fn is_before(a: &Ranked, b: &Ranked) -> (r: bool)
    ensures
        r == goes_before(a@, b@),
{
    a.count > b.count || (a.count == b.count && precedes(a.name.as_str(), b.name.as_str()))
}

/// Puts a list in order.
pub fn put_in_order(v: Vec<Ranked>) -> (r: Vec<Ranked>)
    ensures
        rank_views(r@) == in_order(rank_views(v@)),
{
    let ghost all = rank_views(v@);
    let mut out: Vec<Ranked> = Vec::new();
    assert(rank_views(out@) =~= in_order(all.take(0)));
    let mut i: usize = 0;
    while i < v.len()
        invariant
            i <= v@.len(),
            all == rank_views(v@),
            rank_views(out@) == in_order(all.take(i as int)),
        decreases v@.len() - i,
    {
        let x: Ranked = Ranked {
            count: v[i].count,
            name: v[i].name.clone(),
            index: v[i].index,
        };
        let ghost before = rank_views(out@);
        proof {
            assert(all.take(i + 1).drop_last() =~= all.take(i as int));
            assert(all.take(i + 1).last() == all[i as int]);
            assert(all[i as int] == x@);
        }
        let mut k: usize = 0;
        while k < out.len() && !is_before(&x, &out[k])
            invariant
                k <= out@.len(),
                before == rank_views(out@),
                slot_for(before, x@, 0) == slot_for(before, x@, k as int),
            decreases out@.len() - k,
        {
            assert(before[k as int] == out@[k as int]@);
            k += 1;
        }
        proof {
            if k < out@.len() {
                assert(before[k as int] == out@[k as int]@);
            }
            assert(rank_views(out@.insert(k as int, x)) =~= before.insert(k as int, x@));
        }
        out.insert(k, x);
        i += 1;
    }
    assert(all.take(i as int) =~= all);
    out
}

} // verus!
