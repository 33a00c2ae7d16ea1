//! The overlay as a whole: its settings, the order of its rows, and what is
//! shown for each entry.

use vstd::prelude::*;

pub mod root;
pub mod widget;

verus! {

/// Whether something is shown, as the host says it of each thing.
#[derive(Clone, Copy, Debug, PartialEq, Eq, Structural)]
pub enum Visibility {
    /// As the parent is.
    Inherited,
    /// Not shown.
    Hidden,
    /// Shown.
    Visible,
}

/// What the host knows of the visibility of one overlay. Each part may be
/// missing.
#[derive(Clone, Copy, Debug, PartialEq, Eq, Structural)]
pub struct RootVisibility {
    /// What is set for the overlay itself.
    pub visibility: Option<Visibility>,
    /// Whether the parent of the overlay is shown.
    pub inherited: Option<bool>,
    /// Whether the layout displays the overlay at all.
    pub displayed: Option<bool>,
}

impl RootVisibility {
    /// Whether the overlay is shown: it is not hidden, its parent is not known
    /// to be hidden where it goes by its parent, and the layout does not leave
    /// it out. What is missing counts as shown.
    pub open spec fn shown(self) -> bool {
        let visible = match self.visibility {
            None => true,
            Some(Visibility::Hidden) => false,
            Some(Visibility::Visible) => true,
            Some(Visibility::Inherited) => match self.inherited {
                Some(parent) => parent,
                None => true,
            },
        };
        let displayed = match self.displayed {
            Some(d) => d,
            None => true,
        };
        visible && displayed
    }

    /// Whether the overlay is shown: see [`RootVisibility::shown`].
    pub fn is_shown(&self) -> (r: bool)
        ensures
            r == self.shown(),
    {
        let visible: bool = match self.visibility {
            None => true,
            Some(Visibility::Hidden) => false,
            Some(Visibility::Visible) => true,
            Some(Visibility::Inherited) => match self.inherited {
                Some(parent) => parent,
                None => true,
            },
        };
        let displayed: bool = match self.displayed {
            Some(d) => d,
            None => true,
        };
        visible && displayed
    }
}

/// Whether any overlay is shown. While none is, nothing has to be done.
pub fn rc_any_visible(roots: &Vec<RootVisibility>) -> (r: bool)
    ensures
        r == exists|i: int| 0 <= i < roots@.len() && (#[trigger] roots@[i]).shown(),
{
    let mut i: usize = 0;
    while i < roots.len()
        invariant
            i <= roots@.len(),
            forall|j: int| 0 <= j < i ==> !(#[trigger] roots@[j]).shown(),
        decreases roots@.len() - i,
    {
        if roots[i].is_shown() {
            return true;
        }
        i = i + 1;
    }
    false
}

/// A row of an overlay: its identifier, and its sort key if it has one.
#[derive(Clone, Copy, Debug, PartialEq, Eq, Structural)]
pub struct Child {
    pub entity: u64,
    pub key: Option<i32>,
}

impl Child {
    /// The key by which the row is ordered: a row without a key has the key 0.
    pub open spec fn order(self) -> int {
        match self.key {
            Some(k) => k as int,
            None => 0,
        }
    }

    /// The key by which the row is ordered: see [`Child::order`].
    pub fn order_key(&self) -> (r: i32)
        ensures
            r == self.order(),
    {
        match self.key {
            Some(k) => k,
            None => 0,
        }
    }
}

/// The keys of the rows never fall from one row to a later one.
pub open spec fn in_order(s: Seq<Child>) -> bool {
    forall|i: int, j: int| 0 <= i < j < s.len() ==> (#[trigger] s[i]).order() <= (#[trigger] s[j]).order()
}

/// The rows with one more row, which goes behind the last row whose key is
/// not greater than its own.
pub open spec fn placed(s: Seq<Child>, c: Child) -> Seq<Child>
    decreases s.len(),
{
    if s.len() == 0 {
        seq![c]
    } else if s.last().order() <= c.order() {
        s.push(c)
    } else {
        placed(s.drop_last(), c).push(s.last())
    }
}

/// The rows in the order of their keys. Rows of the same key stay in the
/// order in which they were.
pub open spec fn sorted_children(s: Seq<Child>) -> Seq<Child>
    decreases s.len(),
{
    if s.len() == 0 {
        Seq::<Child>::empty()
    } else {
        placed(sorted_children(s.drop_last()), s.last())
    }
}

/// Placing a row is inserting it at the place behind which every row has a
/// greater key, and in front of which the next row has none.
pub proof fn lemma_placed_is_insert(s: Seq<Child>, c: Child, p: int)
    requires
        0 <= p <= s.len(),
        forall|i: int| p <= i < s.len() ==> (#[trigger] s[i]).order() > c.order(),
        p > 0 ==> s[p - 1].order() <= c.order(),
    ensures
        placed(s, c) == s.insert(p, c),
    decreases s.len(),
{
    if s.len() == 0 {
        assert(s.insert(0, c) =~= seq![c]);
    } else if p == s.len() {
        assert(s.insert(p, c) =~= s.push(c));
    } else {
        assert(s[s.len() - 1].order() > c.order());
        let t = s.drop_last();
        assert forall|i: int| p <= i < t.len() implies (#[trigger] t[i]).order() > c.order() by {
            assert(t[i] == s[i]);
        }
        lemma_placed_is_insert(t, c, p);
        assert(t.insert(p, c).push(s.last()) =~= s.insert(p, c));
    }
}

/// Placing a row keeps rows in order, and adds the row and no other.
pub proof fn lemma_placed_in_order(s: Seq<Child>, c: Child)
    requires
        in_order(s),
    ensures
        in_order(placed(s, c)),
        placed(s, c).to_multiset() == s.to_multiset().insert(c),
        placed(s, c).len() == s.len() + 1,
    decreases s.len(),
{
    broadcast use vstd::seq_lib::group_to_multiset_ensures;

    if s.len() == 0 {
        assert(s =~= Seq::<Child>::empty());
        assert(seq![c] =~= Seq::<Child>::empty().push(c));
    } else if s.last().order() <= c.order() {
        let t = s.push(c);
        assert forall|i: int, j: int| 0 <= i < j < t.len() implies (#[trigger] t[i]).order() <= (
        #[trigger] t[j]).order() by {
            if j == s.len() {
                if i < s.len() - 1 {
                    assert(s[i].order() <= s[s.len() - 1].order());
                }
            } else {
                assert(s[i].order() <= s[j].order());
            }
        }
    } else {
        let t = s.drop_last();
        assert forall|i: int, j: int| 0 <= i < j < t.len() implies (#[trigger] t[i]).order() <= (
        #[trigger] t[j]).order() by {
            assert(s[i].order() <= s[j].order());
        }
        lemma_placed_in_order(t, c);
        let u = placed(t, c);
        let r = u.push(s.last());
        assert(s =~= t.push(s.last()));
        assert(u.to_multiset().insert(s.last()) =~= s.to_multiset().insert(c));
        assert forall|i: int, j: int| 0 <= i < j < r.len() implies (#[trigger] r[i]).order() <= (
        #[trigger] r[j]).order() by {
            if j == u.len() {
                // every row of `u` is `c` or a row of `t`
                assert(u.to_multiset().count(u[i]) > 0);
                if u[i] != c {
                    assert(t.to_multiset().count(u[i]) > 0);
                    let k = choose|k: int| 0 <= k < t.len() && t[k] == u[i];
                    assert(s[k].order() <= s[s.len() - 1].order());
                }
            } else {
                assert(u[i].order() <= u[j].order());
            }
        }
    }
}

/// The sorted rows are in order, and they are the rows that were given: each
/// as often as it was there.
pub proof fn lemma_sorted_children(s: Seq<Child>)
    ensures
        in_order(sorted_children(s)),
        sorted_children(s).to_multiset() == s.to_multiset(),
        sorted_children(s).len() == s.len(),
    decreases s.len(),
{
    broadcast use vstd::seq_lib::group_to_multiset_ensures;

    if s.len() == 0 {
        assert(s =~= Seq::<Child>::empty());
    } else {
        lemma_sorted_children(s.drop_last());
        lemma_placed_in_order(sorted_children(s.drop_last()), s.last());
        assert(s =~= s.drop_last().push(s.last()));
    }
}

/// The rows of one key, in the order in which they stand.
pub open spec fn rows_of_key(s: Seq<Child>, k: int) -> Seq<Child> {
    s.filter(|c: Child| c.order() == k)
}

/// Taking the rows of one key from rows with one more row at the end.
proof fn lemma_rows_of_key_push(s: Seq<Child>, c: Child, k: int)
    ensures
        rows_of_key(s.push(c), k) == (if c.order() == k {
            rows_of_key(s, k).push(c)
        } else {
            rows_of_key(s, k)
        }),
{
    reveal(Seq::filter);
    assert(s.push(c).drop_last() =~= s);
    assert(s.push(c).last() == c);
}

/// Placing a row puts it behind the rows of its own key, and leaves the rows
/// of every key in the order in which they were.
pub proof fn lemma_placed_is_stable(s: Seq<Child>, c: Child, k: int)
    ensures
        rows_of_key(placed(s, c), k) == (if c.order() == k {
            rows_of_key(s, k).push(c)
        } else {
            rows_of_key(s, k)
        }),
    decreases s.len(),
{
    if s.len() == 0 {
        assert(seq![c] =~= s.push(c));
        lemma_rows_of_key_push(s, c, k);
    } else if s.last().order() <= c.order() {
        lemma_rows_of_key_push(s, c, k);
    } else {
        let t = s.drop_last();
        lemma_placed_is_stable(t, c, k);
        lemma_rows_of_key_push(placed(t, c), s.last(), k);
        lemma_rows_of_key_push(t, s.last(), k);
        assert(t.push(s.last()) =~= s);
    }
}

/// Sorting is stable: the rows of each key stand in the sorted rows in the
/// order in which they were given.
pub proof fn lemma_sorted_children_stable(s: Seq<Child>, k: int)
    ensures
        rows_of_key(sorted_children(s), k) == rows_of_key(s, k),
    decreases s.len(),
{
    if s.len() == 0 {
    } else {
        let t = s.drop_last();
        lemma_sorted_children_stable(t, k);
        lemma_placed_is_stable(sorted_children(t), s.last(), k);
        lemma_rows_of_key_push(t, s.last(), k);
        assert(t.push(s.last()) =~= s);
    }
}

/// Puts the rows of an overlay in the order of their sort keys. A row without
/// a key has the key 0, and rows of the same key stay in the order in which
/// they were.
pub fn sort_perf_ui_widgets(children: &Vec<Child>) -> (r: Vec<Child>)
    ensures
        r@ == sorted_children(children@),
        in_order(r@),
        r@.to_multiset() == children@.to_multiset(),
{
    let mut out: Vec<Child> = Vec::new();
    let mut i: usize = 0;
    while i < children.len()
        invariant
            i <= children@.len(),
            out@ == sorted_children(children@.take(i as int)),
            out@.len() == i,
        decreases children@.len() - i,
    {
        let c: Child = children[i];
        let k: i32 = c.order_key();
        let mut p: usize = out.len();
        while p > 0 && out[p - 1].order_key() > k
            invariant
                p <= out@.len(),
                k == c.order(),
                forall|j: int| p <= j < out@.len() ==> (#[trigger] out@[j]).order() > c.order(),
            decreases p,
        {
            p = p - 1;
        }
        proof {
            lemma_placed_is_insert(out@, c, p as int);
            let next = children@.take(i + 1);
            assert(next.drop_last() =~= children@.take(i as int));
            assert(next.last() == c);
            lemma_sorted_children(next);
        }
        out.insert(p, c);
        i = i + 1;
    }
    proof {
        assert(children@.take(children@.len() as int) =~= children@);
        lemma_sorted_children(children@);
    }
    out
}

} // verus!
