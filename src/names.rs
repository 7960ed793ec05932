//! Sets of names kept in ascending order.

use vstd::prelude::*;
use crate::text::chars_of;

verus! {

/// `a` comes before `b` when compared character by character, by code point,
/// a proper prefix first. This is the order of `String`'s `Ord`: UTF-8 keeps
/// the order of code points.
pub open spec fn text_less(a: Seq<char>, b: Seq<char>) -> bool
    decreases a.len(),
{
    if a.len() == 0 {
        b.len() > 0
    } else if b.len() == 0 {
        false
    } else if a[0] != b[0] {
        a[0] < b[0]
    } else {
        text_less(a.drop_first(), b.drop_first())
    }
}

/// Two different texts are ordered one way or the other.
pub proof fn lemma_text_less_total(a: Seq<char>, b: Seq<char>)
    ensures
        a != b ==> text_less(a, b) || text_less(b, a),
        !(text_less(a, b) && text_less(b, a)),
        !text_less(a, a),
    decreases a.len(),
{
    if a.len() > 0 && b.len() > 0 && a[0] == b[0] {
        lemma_text_less_total(a.drop_first(), b.drop_first());
        if a.drop_first() == b.drop_first() {
            assert(a == seq![a[0]] + a.drop_first());
            assert(b == seq![b[0]] + b.drop_first());
        }
    }
    if a.len() > 0 {
        lemma_text_less_total(a.drop_first(), a.drop_first());
    }
    if a.len() == 0 && b.len() == 0 {
        assert(a == b);
    }
}

/// The order is transitive.
pub proof fn lemma_text_less_trans(a: Seq<char>, b: Seq<char>, c: Seq<char>)
    requires
        text_less(a, b),
        text_less(b, c),
    ensures
        text_less(a, c),
    decreases a.len(),
{
    if a.len() > 0 && b.len() > 0 && c.len() > 0 && a[0] == b[0] && b[0] == c[0] {
        lemma_text_less_trans(a.drop_first(), b.drop_first(), c.drop_first());
    }
}

/// `s` is strictly ascending.
pub open spec fn ascending(s: Seq<Seq<char>>) -> bool {
    forall|i: int| 0 <= i < s.len() - 1 ==> text_less(#[trigger] s[i], s[i + 1])
}

/// In an ascending sequence every earlier element comes before every later one.
pub proof fn lemma_ascending_pairwise(s: Seq<Seq<char>>)
    requires
        ascending(s),
    ensures
        forall|i: int, j: int| 0 <= i < j < s.len() ==> text_less(s[i], s[j]),
{
    assert forall|i: int, j: int| 0 <= i < j < s.len() implies text_less(s[i], s[j]) by {
        lemma_ascending_step(s, i, j);
    }
}

proof fn lemma_ascending_step(s: Seq<Seq<char>>, i: int, j: int)
    requires
        ascending(s),
        0 <= i < j < s.len(),
    ensures
        text_less(s[i], s[j]),
    decreases j - i,
{
    if j > i + 1 {
        lemma_ascending_step(s, i, j - 1);
        lemma_text_less_trans(s[i], s[j - 1], s[j]);
    }
}

/// Two ascending sequences with the same elements are equal: a set of names
/// has exactly one ascending listing.
pub proof fn lemma_ascending_unique(s1: Seq<Seq<char>>, s2: Seq<Seq<char>>)
    requires
        ascending(s1),
        ascending(s2),
        s1.to_set() == s2.to_set(),
    ensures
        s1 == s2,
    decreases s1.len(),
{
    lemma_ascending_pairwise(s1);
    lemma_ascending_pairwise(s2);
    if s1.len() == 0 {
        if s2.len() > 0 {
            assert(s2.to_set().contains(s2[0]));
        }
        assert(s1 =~= s2);
    } else if s2.len() == 0 {
        assert(s1.to_set().contains(s1[0]));
    } else {
        assert(s2.to_set().contains(s1[0]));
        let k = choose|k: int| 0 <= k < s2.len() && s2[k] == s1[0];
        assert(s1.to_set().contains(s2[0]));
        let m = choose|m: int| 0 <= m < s1.len() && s1[m] == s2[0];
        lemma_text_less_total(s1[0], s1[0]);
        lemma_text_less_total(s1[0], s1[m]);
        if k > 0 {
            assert(text_less(s2[0], s2[k]));
            assert(false);
        }
        let t1 = s1.drop_first();
        let t2 = s2.drop_first();
        assert(ascending(t1)) by {
            assert forall|i: int| 0 <= i < t1.len() - 1 implies text_less(
                #[trigger] t1[i],
                t1[i + 1],
            ) by {
                assert(t1[i] == s1[i + 1]);
            }
        }
        assert(ascending(t2)) by {
            assert forall|i: int| 0 <= i < t2.len() - 1 implies text_less(
                #[trigger] t2[i],
                t2[i + 1],
            ) by {
                assert(t2[i] == s2[i + 1]);
            }
        }
        assert(t1.to_set() =~= t2.to_set()) by {
            assert forall|x: Seq<char>| t1.contains(x) implies t2.contains(x) by {
                let a = choose|a: int| 0 <= a < t1.len() && t1[a] == x;
                assert(s1[a + 1] == x);
                assert(s1.to_set().contains(x));
                let b = choose|b: int| 0 <= b < s2.len() && s2[b] == x;
                lemma_text_less_total(x, x);
                if b == 0 {
                    assert(text_less(s1[0], s1[a + 1]));
                }
                assert(t2[b - 1] == x);
            }
            assert forall|x: Seq<char>| t2.contains(x) implies t1.contains(x) by {
                let a = choose|a: int| 0 <= a < t2.len() && t2[a] == x;
                assert(s2[a + 1] == x);
                assert(s2.to_set().contains(x));
                let b = choose|b: int| 0 <= b < s1.len() && s1[b] == x;
                lemma_text_less_total(x, x);
                if b == 0 {
                    assert(text_less(s2[0], s2[a + 1]));
                }
                assert(t1[b - 1] == x);
            }
        }
        lemma_ascending_unique(t1, t2);
        assert(s1 =~= s2) by {
            assert(s1 == seq![s1[0]] + t1);
            assert(s2 == seq![s2[0]] + t2);
        }
    }
}

/// `s` with `x` put in its place; nothing changes when `x` is already there.
pub open spec fn insert_name(s: Seq<Seq<char>>, x: Seq<char>) -> Seq<Seq<char>>
    decreases s.len(),
{
    if s.len() == 0 {
        seq![x]
    } else if s[0] == x {
        s
    } else if text_less(x, s[0]) {
        seq![x] + s
    } else {
        seq![s[0]] + insert_name(s.drop_first(), x)
    }
}

proof fn lemma_insert_name(s: Seq<Seq<char>>, x: Seq<char>)
    requires
        ascending(s),
    ensures
        ascending(insert_name(s, x)),
        insert_name(s, x).to_set() == s.to_set().insert(x),
        insert_name(s, x).len() > 0,
        insert_name(s, x)[0] == x || (s.len() > 0 && insert_name(s, x)[0] == s[0]),
    decreases s.len(),
{
    let r = insert_name(s, x);
    if s.len() == 0 {
        assert(r.to_set() =~= s.to_set().insert(x)) by {
            assert(r[0] == x);
        }
    } else if s[0] == x {
        assert(r.to_set() =~= s.to_set().insert(x)) by {
            assert(s.contains(x));
        }
    } else if text_less(x, s[0]) {
        assert(ascending(r)) by {
            assert forall|i: int| 0 <= i < r.len() - 1 implies text_less(#[trigger] r[i], r[i + 1]) by {
                if i > 0 {
                    assert(r[i] == s[i - 1] && r[i + 1] == s[i]);
                }
            }
        }
        assert(r.to_set() =~= s.to_set().insert(x)) by {
            assert forall|y: Seq<char>| r.contains(y) <==> s.contains(y) || y == x by {
                if r.contains(y) {
                    let k = choose|k: int| 0 <= k < r.len() && r[k] == y;
                    if k > 0 {
                        assert(s[k - 1] == y);
                    }
                }
                if s.contains(y) {
                    let k = choose|k: int| 0 <= k < s.len() && s[k] == y;
                    assert(r[k + 1] == y);
                }
                if y == x {
                    assert(r[0] == y);
                }
            }
        }
    } else {
        let t = s.drop_first();
        assert(ascending(t)) by {
            assert forall|i: int| 0 <= i < t.len() - 1 implies text_less(#[trigger] t[i], t[i + 1]) by {
                assert(t[i] == s[i + 1]);
            }
        }
        lemma_insert_name(t, x);
        let rt = insert_name(t, x);
        lemma_text_less_total(x, s[0]);
        assert(r == seq![s[0]] + rt);
        assert(ascending(r)) by {
            assert forall|i: int| 0 <= i < r.len() - 1 implies text_less(#[trigger] r[i], r[i + 1]) by {
                if i == 0 {
                    if rt[0] == x {
                    } else {
                        assert(rt[0] == t[0]);
                        assert(text_less(s[0], s[1]));
                    }
                } else {
                    assert(r[i] == rt[i - 1] && r[i + 1] == rt[i]);
                }
            }
        }
        assert(r.to_set() =~= s.to_set().insert(x)) by {
            assert forall|y: Seq<char>| r.contains(y) <==> s.contains(y) || y == x by {
                if r.contains(y) {
                    let k = choose|k: int| 0 <= k < r.len() && r[k] == y;
                    if k > 0 {
                        assert(rt[k - 1] == y);
                        assert(rt.to_set().contains(y));
                        if y != x {
                            assert(t.to_set().contains(y));
                            let j = choose|j: int| 0 <= j < t.len() && t[j] == y;
                            assert(s[j + 1] == y);
                        }
                    }
                }
                if s.contains(y) {
                    let k = choose|k: int| 0 <= k < s.len() && s[k] == y;
                    if k == 0 {
                        assert(r[0] == y);
                    } else {
                        assert(t[k - 1] == y);
                        assert(t.to_set().contains(y));
                        assert(rt.to_set().contains(y));
                        let j = choose|j: int| 0 <= j < rt.len() && rt[j] == y;
                        assert(r[j + 1] == y);
                    }
                }
                if y == x {
                    assert(rt.to_set().contains(x));
                    let j = choose|j: int| 0 <= j < rt.len() && rt[j] == x;
                    assert(r[j + 1] == x);
                }
            }
        }
    }
}

/// Every finite set of names has an ascending listing.
pub proof fn lemma_listing_exists(names: Set<Seq<char>>)
    requires
        names.finite(),
    ensures
        exists|l: Seq<Seq<char>>| ascending(l) && l.to_set() == names,
    decreases names.len(),
{
    if names.len() == 0 {
        let l = Seq::<Seq<char>>::empty();
        assert(names =~= Set::empty()) by {
            if exists|y: Seq<char>| names.contains(y) {
                let y = choose|y: Seq<char>| names.contains(y);
                assert(names.remove(y).len() < names.len());
            }
        }
        assert(l.to_set() =~= names);
    } else {
        let x = names.choose();
        assert(names.contains(x)) by {
            if !(exists|y: Seq<char>| names.contains(y)) {
                assert(names =~= Set::empty());
            }
        }
        let rest = names.remove(x);
        lemma_listing_exists(rest);
        let l = choose|l: Seq<Seq<char>>| ascending(l) && l.to_set() == rest;
        lemma_insert_name(l, x);
        assert(rest.insert(x) =~= names);
        assert(ascending(insert_name(l, x)) && insert_name(l, x).to_set() == names);
    }
}

/// Compares two texts: `Some(true)` when `a` comes first, `Some(false)` when
/// `b` does, `None` when they are equal.
pub fn compare_text(a: &String, b: &String) -> (r: Option<bool>)
    ensures
        r == Some(true) <==> text_less(a@, b@),
        r == Some(false) <==> text_less(b@, a@),
        r is None <==> a@ == b@,
{
    proof {
        lemma_text_less_total(a@, b@);
    }
    let x = chars_of(a.as_str());
    let y = chars_of(b.as_str());
    let mut i: usize = 0;
    assert(x@.skip(0) == x@ && y@.skip(0) == y@);
    while i < x.len() && i < y.len() && x[i] == y[i]
        invariant
            i <= x@.len(),
            i <= y@.len(),
            x@ == a@,
            y@ == b@,
            x@.take(i as int) == y@.take(i as int),
            text_less(a@, b@) == text_less(x@.skip(i as int), y@.skip(i as int)),
            text_less(b@, a@) == text_less(y@.skip(i as int), x@.skip(i as int)),
        decreases x@.len() - i,
    {
        assert(x@.skip(i as int).drop_first() == x@.skip(i + 1));
        assert(y@.skip(i as int).drop_first() == y@.skip(i + 1));
        assert(x@.take(i + 1) == x@.take(i as int).push(x@[i as int]));
        assert(y@.take(i + 1) == y@.take(i as int).push(y@[i as int]));
        i = i + 1;
    }
    if i == x.len() && i == y.len() {
        assert(x@ == x@.take(i as int));
        assert(y@ == y@.take(i as int));
        None
    } else if i == x.len() {
        Some(true)
    } else if i == y.len() {
        Some(false)
    } else {
        assert(x@.skip(i as int)[0] == x@[i as int]);
        assert(y@.skip(i as int)[0] == y@[i as int]);
        Some(x[i] < y[i])
    }
}

/// Names in strictly ascending order, without repeats.
#[derive(Debug, Clone)]
pub struct NameSet {
    names: Vec<String>,
}

impl View for NameSet {
    type V = Seq<Seq<char>>;

    closed spec fn view(&self) -> Seq<Seq<char>> {
        self.names@.map_values(|s: String| s@)
    }
}

impl NameSet {
    /// The names are strictly ascending.
    pub open spec fn wf(&self) -> bool {
        ascending(self@)
    }

    /// The empty set.
    pub fn new() -> (r: NameSet)
        ensures
            r.wf(),
            r@ == Seq::<Seq<char>>::empty(),
    {
        let r = NameSet { names: Vec::new() };
        assert(r@ =~= Seq::<Seq<char>>::empty());
        r
    }

    /// Adds `name`, keeping the order; a name already present is not added again.
    pub fn insert(&mut self, name: String)
        requires
            old(self).wf(),
        ensures
            final(self).wf(),
            final(self)@.to_set() == old(self)@.to_set().insert(name@),
    {
        let ghost before = self@;
        let n = self.names.len();
        let mut i: usize = 0;
        while i < n
            invariant
                n == self.names@.len(),
                i <= n,
                self@ == before,
                ascending(before),
                forall|j: int| 0 <= j < i ==> text_less(#[trigger] before[j], name@),
            ensures
                i <= n,
                self@ == before,
                forall|j: int| 0 <= j < i ==> text_less(#[trigger] before[j], name@),
                i < n ==> text_less(name@, before[i as int]),
            decreases n - i,
        {
            match compare_text(&self.names[i], &name) {
                Some(true) => {
                    i = i + 1;
                },
                Some(false) => {
                    break;
                },
                None => {
                    assert(before.to_set().insert(name@) =~= before.to_set()) by {
                        assert(before[i as int] == name@);
                        assert(before.contains(name@));
                    }
                    return;
                },
            }
        }
        proof {
            if i < n {
                assert(text_less(name@, before[i as int]));
            }
        }
        self.names.insert(i, name);
        proof {
            let after = self@;
            assert(after =~= before.insert(i as int, name@));
            assert(ascending(after)) by {
                assert forall|j: int| 0 <= j < after.len() - 1 implies text_less(
                    #[trigger] after[j],
                    after[j + 1],
                ) by {
                    if j + 1 < i {
                        assert(after[j] == before[j] && after[j + 1] == before[j + 1]);
                    } else if j + 1 == i {
                        assert(after[j] == before[j]);
                    } else if j == i {
                    } else {
                        assert(after[j] == before[j - 1] && after[j + 1] == before[j]);
                    }
                }
            }
            assert(after.to_set() =~= before.to_set().insert(name@)) by {
                assert forall|x: Seq<char>| after.contains(x) <==> before.contains(x) || x
                    == name@ by {
                    if after.contains(x) {
                        let k = choose|k: int| 0 <= k < after.len() && after[k] == x;
                        if k < i {
                            assert(before[k] == x);
                        } else if k > i {
                            assert(before[k - 1] == x);
                        }
                    }
                    if before.contains(x) {
                        let k = choose|k: int| 0 <= k < before.len() && before[k] == x;
                        if k < i {
                            assert(after[k] == x);
                        } else {
                            assert(after[k + 1] == x);
                        }
                    }
                    if x == name@ {
                        assert(after[i as int] == x);
                    }
                }
            }
        }
    }

    /// The names, in ascending order.
    pub fn to_vec(&self) -> (r: Vec<String>)
        ensures
            r@.map_values(|s: String| s@) == self@,
    {
        self.names.clone()
    }
}

} // verus!
