//! Pairs of texts in the order of their keys, with each key once.

use vstd::prelude::*;

verus! {

// ------------------------------------------------------------------ the order

/// Does `a` stand before `b` in the order of bytes?
pub open spec fn bytes_before(a: Seq<u8>, b: Seq<u8>) -> bool
    decreases a.len(),
{
    if b.len() == 0 {
        false
    } else if a.len() == 0 {
        true
    } else if a[0] != b[0] {
        a[0] < b[0]
    } else {
        bytes_before(a.skip(1), b.skip(1))
    }
}

/// The order of texts is the order of their bytes in UTF-8.
pub open spec fn before(a: Seq<char>, b: Seq<char>) -> bool {
    bytes_before(vstd::utf8::encode_utf8(a), vstd::utf8::encode_utf8(b))
}

/// Where one text stands to another.
#[derive(Debug, Clone, Copy, PartialEq, Eq, Structural)]
pub enum Place {
    Before,
    Same,
    After,
}

proof fn lemma_bytes_total(a: Seq<u8>, b: Seq<u8>)
    ensures
        bytes_before(a, b) || a == b || bytes_before(b, a),
        !(bytes_before(a, b) && a == b),
        !(bytes_before(a, b) && bytes_before(b, a)),
    decreases a.len(),
{
    if a.len() > 0 && b.len() > 0 && a[0] == b[0] {
        lemma_bytes_total(a.skip(1), b.skip(1));
        if a.skip(1) == b.skip(1) {
            assert(a =~= seq![a[0]] + a.skip(1));
            assert(b =~= seq![b[0]] + b.skip(1));
        }
    } else if a.len() == 0 && b.len() == 0 {
        assert(a =~= b);
    }
}

proof fn lemma_bytes_transitive(a: Seq<u8>, b: Seq<u8>, c: Seq<u8>)
    requires
        bytes_before(a, b),
        bytes_before(b, c),
    ensures
        bytes_before(a, c),
    decreases a.len(),
{
    if a.len() > 0 && a[0] == b[0] && b[0] == c[0] {
        lemma_bytes_transitive(a.skip(1), b.skip(1), c.skip(1));
    }
}

proof fn lemma_same_bytes(a: Seq<char>, b: Seq<char>)
    ensures
        vstd::utf8::encode_utf8(a) == vstd::utf8::encode_utf8(b) ==> a == b,
{
    vstd::utf8::encode_utf8_decode_utf8(a);
    vstd::utf8::encode_utf8_decode_utf8(b);
}

/// Of two texts exactly one holds: they are the same, or one of them stands
/// before the other.
pub proof fn law_order_is_total(a: Seq<char>, b: Seq<char>)
    ensures
        before(a, b) || a == b || before(b, a),
        !(before(a, b) && a == b),
        !(before(a, b) && before(b, a)),
{
    lemma_bytes_total(vstd::utf8::encode_utf8(a), vstd::utf8::encode_utf8(b));
    lemma_same_bytes(a, b);
}

/// What stands before something stands before all that follows it.
pub proof fn law_order_is_transitive(a: Seq<char>, b: Seq<char>, c: Seq<char>)
    requires
        before(a, b),
        before(b, c),
    ensures
        before(a, c),
{
    lemma_bytes_transitive(vstd::utf8::encode_utf8(a), vstd::utf8::encode_utf8(b), vstd::utf8::encode_utf8(c));
}

/// Where `a` stands to `b`.
pub fn place(a: &str, b: &str) -> (r: Place)
    ensures
        r == Place::Before <==> before(a@, b@),
        r == Place::Same <==> a@ == b@,
        r == Place::After <==> before(b@, a@),
{
    proof {
        law_order_is_total(a@, b@);
    }
    let (x, y) = (a.as_bytes(), b.as_bytes());
    let mut i: usize = 0;
    assert(x@.skip(0) =~= x@);
    assert(y@.skip(0) =~= y@);
    while i < x.len() && i < y.len()
        invariant
            i <= x@.len(),
            i <= y@.len(),
            forall|j: int| 0 <= j < i ==> x@[j] == y@[j],
            before(a@, b@) == bytes_before(x@.skip(i as int), y@.skip(i as int)),
            before(b@, a@) == bytes_before(y@.skip(i as int), x@.skip(i as int)),
            x@ == vstd::utf8::encode_utf8(a@),
            y@ == vstd::utf8::encode_utf8(b@),
            before(a@, b@) || a@ == b@ || before(b@, a@),
            !(before(a@, b@) && a@ == b@),
            !(before(b@, a@) && a@ == b@),
            !(before(a@, b@) && before(b@, a@)),
        decreases x@.len() - i,
    {
        if x[i] < y[i] {
            return Place::Before;
        }
        if x[i] > y[i] {
            return Place::After;
        }
        assert(x@.skip(i as int).skip(1) =~= x@.skip(i + 1));
        assert(y@.skip(i as int).skip(1) =~= y@.skip(i + 1));
        i += 1;
    }
    if i < y.len() {
        Place::Before
    } else if i < x.len() {
        Place::After
    } else {
        proof {
            assert(x@ =~= y@);
            lemma_same_bytes(a@, b@);
        }
        Place::Same
    }
}

// ------------------------------------------------------------------ the pairs

pub type PairView = (Seq<char>, Seq<char>);

pub open spec fn pair_view(p: (String, String)) -> PairView {
    (p.0@, p.1@)
}

/// The texts behind a sequence of pairs.
pub open spec fn pairs(v: Seq<(String, String)>) -> Seq<PairView> {
    v.map_values(|p: (String, String)| pair_view(p))
}

/// Are the keys in their order, each once?
pub open spec fn in_order(v: Seq<PairView>) -> bool {
    forall|i: int, j: int| 0 <= i < j < v.len() ==> before((#[trigger] v[i]).0, (#[trigger] v[j]).0)
}

/// The map that the pairs stand for: of two pairs with one key the later counts.
pub open spec fn as_map(v: Seq<PairView>) -> Map<Seq<char>, Seq<char>>
    decreases v.len(),
{
    if v.len() == 0 {
        Map::empty()
    } else {
        as_map(v.drop_last()).insert(v.last().0, v.last().1)
    }
}

pub proof fn lemma_map_of_concat(a: Seq<PairView>, b: Seq<PairView>)
    ensures
        as_map(a + b) == as_map(a).union_prefer_right(as_map(b)),
    decreases b.len(),
{
    if b.len() == 0 {
        assert(a + b =~= a);
        assert(as_map(a).union_prefer_right(as_map(b)) =~= as_map(a));
    } else {
        lemma_map_of_concat(a, b.drop_last());
        assert((a + b).drop_last() =~= a + b.drop_last());
        assert(as_map(a + b) =~= as_map(a).union_prefer_right(as_map(b)));
    }
}

/// A key of the map is the key of some pair, and the key of every pair is one.
pub proof fn lemma_keys(v: Seq<PairView>, k: Seq<char>)
    ensures
        as_map(v).dom().contains(k) <==> exists|i: int|
            0 <= i < v.len() && (#[trigger] v[i]).0 == k,
    decreases v.len(),
{
    if v.len() > 0 {
        let front = v.drop_last();
        lemma_keys(front, k);
        if v.last().0 == k {
            assert(v[v.len() - 1].0 == k);
        } else if as_map(front).dom().contains(k) {
            let i = choose|i: int| 0 <= i < front.len() && (#[trigger] front[i]).0 == k;
            assert(v[i].0 == k);
        } else {
            assert forall|i: int| 0 <= i < v.len() implies (#[trigger] v[i]).0 != k by {
                if i < front.len() {
                    assert(front[i] == v[i]);
                }
            }
        }
    }
}

/// With each key once, the map gives back the value of each pair.
pub proof fn lemma_values(v: Seq<PairView>, i: int)
    requires
        in_order(v),
        0 <= i < v.len(),
    ensures
        as_map(v).dom().contains(v[i].0),
        as_map(v)[v[i].0] == v[i].1,
    decreases v.len(),
{
    if i < v.len() - 1 {
        let front = v.drop_last();
        assert(front[i] == v[i]);
        lemma_values(front, i);
        law_order_is_total(v[i].0, v.last().0);
    }
}

/// In order, the pairs are told by their map: two sequences stand for one map only
/// if they are the same.
pub proof fn law_order_makes_pairs_unique(a: Seq<PairView>, b: Seq<PairView>)
    requires
        in_order(a),
        in_order(b),
        as_map(a) == as_map(b),
    ensures
        a == b,
    decreases a.len(),
{
    if a.len() == 0 {
        if b.len() > 0 {
            lemma_values(b, 0);
        }
        assert(a =~= b);
    } else {
        lemma_values(a, a.len() - 1);
        lemma_keys(b, a.last().0);
        let j = choose|j: int| 0 <= j < b.len() && (#[trigger] b[j]).0 == a.last().0;
        lemma_values(b, b.len() - 1);
        lemma_keys(a, b.last().0);
        let i = choose|i: int| 0 <= i < a.len() && (#[trigger] a[i]).0 == b.last().0;
        law_order_is_total(a.last().0, b.last().0);
        assert(a.last().0 == b.last().0);
        assert(a.last() == b.last());
        let (fa, fb) = (a.drop_last(), b.drop_last());
        lemma_front_map(a);
        lemma_front_map(b);
        law_order_makes_pairs_unique(fa, fb);
        assert(a =~= fa.push(a.last()));
        assert(b =~= fb.push(b.last()));
    }
}

proof fn lemma_front_map(v: Seq<PairView>)
    requires
        in_order(v),
        v.len() > 0,
    ensures
        as_map(v.drop_last()) == as_map(v).remove(v.last().0),
        in_order(v.drop_last()),
{
    let front = v.drop_last();
    lemma_keys(front, v.last().0);
    if as_map(front).dom().contains(v.last().0) {
        let i = choose|i: int| 0 <= i < front.len() && (#[trigger] front[i]).0 == v.last().0;
        assert(before(v[i].0, v.last().0));
        law_order_is_total(v[i].0, v.last().0);
    }
    assert(as_map(front) =~= as_map(v).remove(v.last().0));
}

// ---------------------------------------------------------------- the sorting

/// The pairs at the given places.
pub open spec fn picked(v: Seq<PairView>, at: Seq<usize>) -> Seq<PairView> {
    at.map_values(|i: usize| v[i as int])
}

pub open spec fn within(at: Seq<usize>, n: nat) -> bool {
    forall|i: int| 0 <= i < at.len() ==> (#[trigger] at[i]) < n
}

/// Do all pairs of `v` stand before the key?
pub open spec fn all_before(v: Seq<PairView>, k: Seq<char>) -> bool {
    forall|i: int| 0 <= i < v.len() ==> before((#[trigger] v[i]).0, k)
}

proof fn lemma_push_in_order(v: Seq<PairView>, p: PairView)
    requires
        in_order(v),
        all_before(v, p.0),
    ensures
        in_order(v.push(p)),
        as_map(v.push(p)) == as_map(v).insert(p.0, p.1),
{
    assert(v.push(p).drop_last() =~= v);
}

proof fn lemma_not_a_key(v: Seq<PairView>, k: Seq<char>)
    requires
        all_before(v, k),
    ensures
        !as_map(v).dom().contains(k),
{
    lemma_keys(v, k);
    law_order_is_total(k, k);
}

proof fn lemma_all_before_further(v: Seq<PairView>, k: Seq<char>, l: Seq<char>)
    requires
        all_before(v, k),
        before(k, l),
    ensures
        all_before(v, l),
{
    assert forall|i: int| 0 <= i < v.len() implies before((#[trigger] v[i]).0, l) by {
        law_order_is_transitive(v[i].0, k, l);
    }
}

/// What the merging of two sorted sequences has come to.
spec fn merged_so_far(
    all: Seq<PairView>,
    a: Seq<usize>,
    b: Seq<usize>,
    i: int,
    j: int,
    out: Seq<usize>,
) -> bool {
    &&& 0 <= i <= a.len()
    &&& 0 <= j <= b.len()
    &&& within(out, all.len())
    &&& in_order(picked(all, out))
    &&& as_map(picked(all, out)) == as_map(picked(all, a).take(i)).union_prefer_right(
        as_map(picked(all, b).take(j)),
    )
    &&& i < a.len() ==> all_before(picked(all, out), all[a[i] as int].0)
    &&& j < b.len() ==> all_before(picked(all, out), all[b[j] as int].0)
}

proof fn lemma_take_left(
    all: Seq<PairView>,
    a: Seq<usize>,
    b: Seq<usize>,
    i: int,
    j: int,
    out: Seq<usize>,
)
    requires
        within(a, all.len()),
        within(b, all.len()),
        in_order(picked(all, a)),
        in_order(picked(all, b)),
        merged_so_far(all, a, b, i, j, out),
        i < a.len(),
        j < b.len() ==> before(all[a[i] as int].0, all[b[j] as int].0),
    ensures
        merged_so_far(all, a, b, i + 1, j, out.push(a[i])),
{
    let (x, y) = (picked(all, a), picked(all, b));
    let p = all[a[i] as int];
    let now = picked(all, out);
    assert(picked(all, out.push(a[i])) =~= now.push(p));
    lemma_push_in_order(now, p);
    assert(x.take(i + 1).drop_last() =~= x.take(i));
    lemma_not_a_key(now, p.0);
    assert(!as_map(y.take(j)).dom().contains(p.0));
    assert(as_map(now.push(p)) =~= as_map(x.take(i + 1)).union_prefer_right(as_map(y.take(j))));
    if i + 1 < a.len() {
        assert(before(x[i].0, x[i + 1].0));
        lemma_all_before_further(now, p.0, x[i + 1].0);
    }
}

proof fn lemma_take_right(
    all: Seq<PairView>,
    a: Seq<usize>,
    b: Seq<usize>,
    i: int,
    j: int,
    out: Seq<usize>,
)
    requires
        within(a, all.len()),
        within(b, all.len()),
        in_order(picked(all, a)),
        in_order(picked(all, b)),
        merged_so_far(all, a, b, i, j, out),
        j < b.len(),
        i < a.len() ==> before(all[b[j] as int].0, all[a[i] as int].0),
    ensures
        merged_so_far(all, a, b, i, j + 1, out.push(b[j])),
{
    let (x, y) = (picked(all, a), picked(all, b));
    let p = all[b[j] as int];
    let now = picked(all, out);
    assert(picked(all, out.push(b[j])) =~= now.push(p));
    lemma_push_in_order(now, p);
    assert(y.take(j + 1).drop_last() =~= y.take(j));
    assert(as_map(now.push(p)) =~= as_map(x.take(i)).union_prefer_right(as_map(y.take(j + 1))));
    if j + 1 < b.len() {
        assert(before(y[j].0, y[j + 1].0));
        lemma_all_before_further(now, p.0, y[j + 1].0);
    }
}

proof fn lemma_take_both(
    all: Seq<PairView>,
    a: Seq<usize>,
    b: Seq<usize>,
    i: int,
    j: int,
    out: Seq<usize>,
)
    requires
        within(a, all.len()),
        within(b, all.len()),
        in_order(picked(all, a)),
        in_order(picked(all, b)),
        merged_so_far(all, a, b, i, j, out),
        i < a.len(),
        j < b.len(),
        all[a[i] as int].0 == all[b[j] as int].0,
    ensures
        merged_so_far(all, a, b, i + 1, j + 1, out.push(b[j])),
{
    let (x, y) = (picked(all, a), picked(all, b));
    let p = all[b[j] as int];
    let now = picked(all, out);
    assert(picked(all, out.push(b[j])) =~= now.push(p));
    lemma_push_in_order(now, p);
    assert(x.take(i + 1).drop_last() =~= x.take(i));
    assert(y.take(j + 1).drop_last() =~= y.take(j));
    assert(as_map(now.push(p)) =~= as_map(x.take(i + 1)).union_prefer_right(
        as_map(y.take(j + 1)),
    ));
    if i + 1 < a.len() {
        assert(before(x[i].0, x[i + 1].0));
        lemma_all_before_further(now, p.0, x[i + 1].0);
    }
    if j + 1 < b.len() {
        assert(before(y[j].0, y[j + 1].0));
        lemma_all_before_further(now, p.0, y[j + 1].0);
    }
}

/// Merges two sorted selections; where both have a key, that of `b` counts.
fn merge(all: &Vec<(String, String)>, a: &Vec<usize>, b: &Vec<usize>) -> (r: Vec<usize>)
    requires
        within(a@, all@.len()),
        within(b@, all@.len()),
        in_order(picked(pairs(all@), a@)),
        in_order(picked(pairs(all@), b@)),
    ensures
        within(r@, all@.len()),
        in_order(picked(pairs(all@), r@)),
        as_map(picked(pairs(all@), r@)) == as_map(picked(pairs(all@), a@)).union_prefer_right(
            as_map(picked(pairs(all@), b@)),
        ),
{
    let ghost v = pairs(all@);
    let mut out: Vec<usize> = Vec::new();
    let mut i: usize = 0;
    let mut j: usize = 0;
    proof {
        assert(as_map(picked(v, out@)) =~= as_map(picked(v, a@).take(0)).union_prefer_right(
            as_map(picked(v, b@).take(0)),
        ));
    }
    while i < a.len() || j < b.len()
        invariant
            v == pairs(all@),
            within(a@, all@.len()),
            within(b@, all@.len()),
            in_order(picked(v, a@)),
            in_order(picked(v, b@)),
            merged_so_far(v, a@, b@, i as int, j as int, out@),
        decreases a@.len() - i + b@.len() - j,
    {
        let left: bool = j == b.len();
        let right: bool = i == a.len();
        if left {
            proof {
                lemma_take_left(v, a@, b@, i as int, j as int, out@);
            }
            out.push(a[i]);
            i += 1;
        } else if right {
            proof {
                lemma_take_right(v, a@, b@, i as int, j as int, out@);
            }
            out.push(b[j]);
            j += 1;
        } else {
            match place(all[a[i]].0.as_str(), all[b[j]].0.as_str()) {
                Place::Before => {
                    proof {
                        lemma_take_left(v, a@, b@, i as int, j as int, out@);
                    }
                    out.push(a[i]);
                    i += 1;
                },
                Place::After => {
                    proof {
                        lemma_take_right(v, a@, b@, i as int, j as int, out@);
                    }
                    out.push(b[j]);
                    j += 1;
                },
                Place::Same => {
                    proof {
                        lemma_take_both(v, a@, b@, i as int, j as int, out@);
                    }
                    out.push(b[j]);
                    i += 1;
                    j += 1;
                },
            }
        }
    }
    assert(picked(v, a@).take(a@.len() as int) =~= picked(v, a@));
    assert(picked(v, b@).take(b@.len() as int) =~= picked(v, b@));
    out
}

/// The places of a part of the pairs, in order of their keys.
fn sort_part(all: &Vec<(String, String)>, from: usize, to: usize) -> (r: Vec<usize>)
    requires
        from <= to <= all@.len(),
    ensures
        within(r@, all@.len()),
        in_order(picked(pairs(all@), r@)),
        as_map(picked(pairs(all@), r@)) == as_map(
            pairs(all@).subrange(from as int, to as int),
        ),
    decreases to - from,
{
    let ghost v = pairs(all@);
    if to - from == 0 {
        let r: Vec<usize> = Vec::new();
        assert(picked(v, r@) =~= v.subrange(from as int, to as int));
        return r;
    }
    if to - from == 1 {
        let r: Vec<usize> = vec![from];
        assert(picked(v, r@) =~= v.subrange(from as int, to as int));
        return r;
    }
    let mid: usize = from + (to - from) / 2;
    let a = sort_part(all, from, mid);
    let b = sort_part(all, mid, to);
    proof {
        let (x, y) = (v.subrange(from as int, mid as int), v.subrange(mid as int, to as int));
        assert(v.subrange(from as int, to as int) =~= x + y);
        lemma_map_of_concat(x, y);
    }
    merge(all, &a, &b)
}

/// The same map, in order.
pub fn sort(all: &Vec<(String, String)>) -> (r: Vec<(String, String)>)
    ensures
        in_order(pairs(r@)),
        as_map(pairs(r@)) == as_map(pairs(all@)),
{
    let at = sort_part(all, 0, all.len());
    let ghost goal = picked(pairs(all@), at@);
    let mut out: Vec<(String, String)> = Vec::new();
    for i in 0..at.len()
        invariant
            within(at@, all@.len()),
            goal == picked(pairs(all@), at@),
            pairs(out@) == goal.take(i as int),
    {
        let ghost so_far = out@;
        let k: usize = at[i];
        out.push((all[k].0.clone(), all[k].1.clone()));
        assert(pairs(out@) =~= pairs(so_far).push(goal[i as int]));
        assert(pairs(out@) =~= goal.take(i + 1));
    }
    assert(goal.take(at@.len() as int) =~= goal);
    assert(pairs(all@).subrange(0, all@.len() as int) =~= pairs(all@));
    out
}

/// The order of bytes is decided at the first place where two texts differ, by the
/// smaller byte; and a text stands before every longer one that begins with it.
pub proof fn law_first_difference_decides(
    p: Seq<u8>,
    x: u8,
    y: u8,
    s: Seq<u8>,
    t: Seq<u8>,
)
    ensures
        x < y ==> bytes_before(p + seq![x] + s, p + seq![y] + t),
        x > y ==> !bytes_before(p + seq![x] + s, p + seq![y] + t),
        bytes_before(p, p + seq![x] + s),
        !bytes_before(p + s, p),
    decreases p.len(),
{
    if p.len() == 0 {
        assert((p + seq![x] + s)[0] == x);
        assert((p + seq![y] + t)[0] == y);
    } else {
        let q = p.skip(1);
        law_first_difference_decides(q, x, y, s, t);
        assert((p + seq![x] + s).skip(1) =~= q + seq![x] + s);
        assert((p + seq![y] + t).skip(1) =~= q + seq![y] + t);
        assert((p + s).skip(1) =~= q + s);
        assert((p + seq![x] + s)[0] == p[0]);
        assert((p + seq![y] + t)[0] == p[0]);
        assert((p + s)[0] == p[0]);
    }
}

/// Texts are ordered by their bytes in UTF-8.
pub proof fn law_texts_are_ordered_by_their_bytes(a: Seq<char>, b: Seq<char>)
    ensures
        before(a, b) <==> bytes_before(vstd::utf8::encode_utf8(a), vstd::utf8::encode_utf8(b)),
{
}

/// The map of pairs: nothing for none, and each further pair sets its key to its value.
pub proof fn law_each_pair_sets_its_key(v: Seq<PairView>, k: Seq<char>, x: Seq<char>)
    ensures
        as_map(Seq::empty()) == Map::<Seq<char>, Seq<char>>::empty(),
        as_map(v.push((k, x))) == as_map(v).insert(k, x),
{
    assert(v.push((k, x)).drop_last() =~= v);
}

/// Pairs are spoken of one by one, each by its two texts, and are in order exactly if
/// each key stands before all that follow.
pub proof fn law_pairs_are_item_by_item(v: Seq<(String, String)>, w: Seq<PairView>, i: int)
    ensures
        pairs(v).len() == v.len(),
        0 <= i < v.len() ==> pairs(v)[i] == (v[i].0@, v[i].1@),
        in_order(w) <==> forall|i: int, j: int|
            0 <= i < j < w.len() ==> before((#[trigger] w[i]).0, (#[trigger] w[j]).0),
{
}

} // verus!
