//! Is a clone what `git clone` would have made? Two repositories are compared by
//! what they have from the remote and by all objects that they reach.

use crate::errors::{Error, ErrorView};
use crate::sorted;
use crate::sorted::{PairView, Place};
use crate::text;
use vstd::prelude::*;

verus! {

/// The refs and the objects of a repository, in order and each once.
#[derive(Debug)]
pub struct RepoSnapshot {
    refs: Vec<(String, String)>,
    objects: Vec<(String, String)>,
}

pub struct SnapshotView {
    /// Names and objects, in the order of the names.
    pub refs: Seq<PairView>,
    /// The objects, in their order.
    pub objects: Seq<Seq<char>>,
}

/// The first texts of pairs.
pub open spec fn firsts(v: Seq<PairView>) -> Seq<Seq<char>> {
    v.map_values(|p: PairView| p.0)
}

impl View for RepoSnapshot {
    type V = SnapshotView;

    closed spec fn view(&self) -> SnapshotView {
        SnapshotView {
            refs: sorted::pairs(self.refs@),
            objects: firsts(sorted::pairs(self.objects@)),
        }
    }
}

/// Are the texts in their order, each once?
pub open spec fn texts_in_order(v: Seq<Seq<char>>) -> bool {
    forall|i: int, j: int| 0 <= i < j < v.len() ==> sorted::before(#[trigger] v[i], #[trigger] v[j])
}

impl SnapshotView {
    pub open spec fn wf(self) -> bool {
        sorted::in_order(self.refs) && texts_in_order(self.objects)
    }

    pub open spec fn ref_map(self) -> Map<Seq<char>, Seq<char>> {
        sorted::as_map(self.refs)
    }

    pub open spec fn object_set(self) -> Set<Seq<char>> {
        self.objects.to_set()
    }
}

// ------------------------------------------------------------------- commands

pub fn list_refs_args() -> (r: Vec<String>)
    ensures
        text::texts(r@) == seq!["for-each-ref"@, "--format=%(refname) %(objectname)"@],
{
    let r = text::words(vec!["for-each-ref", "--format=%(refname) %(objectname)"]);
    assert(text::texts(r@) =~= seq!["for-each-ref"@, "--format=%(refname) %(objectname)"@]);
    r
}

pub fn list_objects_args() -> (r: Vec<String>)
    ensures
        text::texts(r@) == seq!["rev-list"@, "--objects"@, "--all"@],
{
    let r = text::words(vec!["rev-list", "--objects", "--all"]);
    assert(text::texts(r@) =~= seq!["rev-list"@, "--objects"@, "--all"@]);
    r
}

// ------------------------------------------------------------------- snapshot

/// The refs in a listing: name and object on each line. A line without a space
/// says nothing, and of two lines with one name the later counts.
pub open spec fn refs_listed(lines: Seq<Seq<char>>) -> Map<Seq<char>, Seq<char>>
    decreases lines.len(),
{
    if lines.len() == 0 {
        Map::empty()
    } else {
        let rest = refs_listed(lines.drop_last());
        match text::split_first(lines.last(), ' ') {
            Some((name, oid)) => rest.insert(name, oid),
            None => rest,
        }
    }
}

/// A line up to its first space.
pub open spec fn first_word(line: Seq<char>) -> Seq<char> {
    line.take(text::find_char(line, ' '))
}

/// The objects in a listing: the first word of each line.
pub open spec fn objects_listed(lines: Seq<Seq<char>>) -> Set<Seq<char>> {
    lines.map_values(|l: Seq<char>| first_word(l)).to_set()
}

fn listed_refs(lines: &Vec<&[char]>) -> (r: Vec<(String, String)>)
    ensures
        sorted::as_map(sorted::pairs(r@)) == refs_listed(text::views(lines@)),
{
    let ghost all = text::views(lines@);
    let mut out: Vec<(String, String)> = Vec::new();
    assert(sorted::as_map(sorted::pairs(out@)) == refs_listed(all.take(0)));
    for i in 0..lines.len()
        invariant
            all == text::views(lines@),
            sorted::as_map(sorted::pairs(out@)) == refs_listed(all.take(i as int)),
    {
        let ghost so_far = out@;
        assert(all.take(i + 1).drop_last() =~= all.take(i as int));
        assert(all.take(i + 1).last() == lines@[i as int]@);
        if let Some((name, oid)) = text::split_once(lines[i], ' ') {
            out.push((text::string_of(name), text::string_of(oid)));
            assert(sorted::pairs(out@) =~= sorted::pairs(so_far).push((name@, oid@)));
            assert(sorted::pairs(out@).drop_last() =~= sorted::pairs(so_far));
        }
    }
    assert(all.take(all.len() as int) =~= all);
    out
}

fn listed_objects(lines: &Vec<&[char]>) -> (r: Vec<(String, String)>)
    ensures
        firsts(sorted::pairs(r@)) == text::views(lines@).map_values(
            |l: Seq<char>| first_word(l),
        ),
{
    let ghost goal = text::views(lines@).map_values(|l: Seq<char>| first_word(l));
    let mut out: Vec<(String, String)> = Vec::new();
    for i in 0..lines.len()
        invariant
            goal == text::views(lines@).map_values(|l: Seq<char>| first_word(l)),
            firsts(sorted::pairs(out@)) == goal.take(i as int),
    {
        let ghost so_far = out@;
        let end: usize = text::position_of(lines[i], ' ');
        let word = vstd::slice::slice_subrange(lines[i], 0, end);
        assert(word@ =~= goal[i as int]);
        out.push((text::string_of(word), String::new()));
        assert(firsts(sorted::pairs(out@)) =~= firsts(sorted::pairs(so_far)).push(
            goal[i as int],
        ));
        assert(firsts(sorted::pairs(out@)) =~= goal.take(i + 1));
    }
    assert(goal.take(lines@.len() as int) =~= goal);
    out
}

proof fn lemma_firsts_are_the_keys(v: Seq<PairView>)
    ensures
        firsts(v).to_set() == sorted::as_map(v).dom(),
{
    assert forall|k: Seq<char>| firsts(v).to_set().contains(k) <==> sorted::as_map(
        v,
    ).dom().contains(k) by {
        sorted::lemma_keys(v, k);
        if firsts(v).contains(k) {
            let i = choose|i: int| 0 <= i < firsts(v).len() && firsts(v)[i] == k;
            assert(v[i].0 == k);
        }
        if sorted::as_map(v).dom().contains(k) {
            let i = choose|i: int| 0 <= i < v.len() && (#[trigger] v[i]).0 == k;
            assert(firsts(v)[i] == k);
        }
    }
    assert(firsts(v).to_set() =~= sorted::as_map(v).dom());
}

/// The snapshot of a repository, from the listing of its refs and that of the
/// objects that they reach.
pub fn snapshot(refs_out: &str, objects_out: &str) -> (r: RepoSnapshot)
    ensures
        r@.wf(),
        r@.ref_map() == refs_listed(text::lines_of(refs_out@)),
        r@.object_set() == objects_listed(text::lines_of(objects_out@)),
{
    let rv = text::chars_of(refs_out);
    let ov = text::chars_of(objects_out);
    let found_refs = listed_refs(&text::lines(rv.as_slice()));
    let found_objects = listed_objects(&text::lines(ov.as_slice()));
    let r = RepoSnapshot {
        refs: sorted::sort(&found_refs),
        objects: sorted::sort(&found_objects),
    };
    proof {
        lemma_firsts_are_the_keys(sorted::pairs(found_objects@));
        lemma_firsts_are_the_keys(sorted::pairs(r.objects@));
    }
    r
}

impl RepoSnapshot {
    #[verifier::type_invariant]
    spec fn holds_together(self) -> bool {
        sorted::in_order(sorted::pairs(self.refs@)) && sorted::in_order(
            sorted::pairs(self.objects@),
        )
    }

    /// The object that a ref names, if the repository has the ref.
    pub fn object_of(&self, name: &str) -> (r: Option<String>)
        ensures
            r is Some <==> self@.ref_map().dom().contains(name@),
            r matches Some(oid) ==> oid@ == self@.ref_map()[name@],
    {
        proof {
            use_type_invariant(self);
            sorted::lemma_keys(self@.refs, name@);
        }
        for i in 0..self.refs.len()
            invariant
                sorted::in_order(self@.refs),
                self@.refs == sorted::pairs(self.refs@),
                forall|j: int| 0 <= j < i ==> (#[trigger] self@.refs[j]).0 != name@,
                self@.ref_map().dom().contains(name@) <==> exists|k: int|
                    0 <= k < self@.refs.len() && (#[trigger] self@.refs[k]).0 == name@,
        {
            assert(self@.refs[i as int] == sorted::pair_view(self.refs@[i as int]));
            if text::same_text(self.refs[i].0.as_str(), name) {
                proof {
                    sorted::lemma_values(self@.refs, i as int);
                }
                return Some(self.refs[i].1.clone());
            }
        }
        None
    }

    /// How many objects the repository reaches.
    pub fn object_count(&self) -> (r: usize)
        ensures
            r == self@.objects.len(),
    {
        self.objects.len()
    }
}

// ----------------------------------------------------------------- comparison

/// Does the ref come from the remote? The branch that the remote's HEAD names is
/// no ref of its own.
pub open spec fn from_remote(name: Seq<char>) -> bool {
    &&& text::begins_with(name, "refs/remotes/origin/"@) || text::begins_with(name, "refs/tags/"@)
    &&& name != "refs/remotes/origin/HEAD"@
}

/// The refs that come from the remote, in their order.
pub open spec fn relevant(refs: Seq<PairView>) -> Seq<PairView> {
    refs.filter(|p: PairView| from_remote(p.0))
}

/// The refs that come from the remote, as a map.
pub open spec fn relevant_map(m: Map<Seq<char>, Seq<char>>) -> Map<Seq<char>, Seq<char>> {
    m.restrict(Set::new(|k: Seq<char>| from_remote(k)))
}

fn is_from_remote(name: &str) -> (r: bool)
    ensures
        r == from_remote(name@),
{
    let v = text::chars_of(name);
    let c = v.as_slice();
    (text::starts_with(c, "refs/remotes/origin/") || text::starts_with(c, "refs/tags/"))
        && !text::same_text(name, "refs/remotes/origin/HEAD")
}

fn relevant_refs(refs: &Vec<(String, String)>) -> (r: Vec<(String, String)>)
    ensures
        sorted::pairs(r@) == relevant(sorted::pairs(refs@)),
{
    let ghost all = sorted::pairs(refs@);
    let ghost pred = |p: PairView| from_remote(p.0);
    let mut out: Vec<(String, String)> = Vec::new();
    proof {
        reveal(Seq::filter);
        assert(sorted::pairs(out@) =~= all.take(0).filter(pred));
    }
    for i in 0..refs.len()
        invariant
            all == sorted::pairs(refs@),
            pred == (|p: PairView| from_remote(p.0)),
            sorted::pairs(out@) == all.take(i as int).filter(pred),
    {
        let ghost so_far = out@;
        proof {
            reveal(Seq::filter);
            assert(all.take(i + 1).drop_last() =~= all.take(i as int));
            assert(all.take(i + 1).last() == sorted::pair_view(refs@[i as int]));
        }
        if is_from_remote(refs[i].0.as_str()) {
            out.push((refs[i].0.clone(), refs[i].1.clone()));
            assert(sorted::pairs(out@) =~= sorted::pairs(so_far).push(all[i as int]));
        }
    }
    assert(all.take(all.len() as int) =~= all);
    out
}

/// Filtering keeps the order and restricts the map.
proof fn lemma_relevant(refs: Seq<PairView>)
    requires
        sorted::in_order(refs),
    ensures
        sorted::in_order(relevant(refs)),
        sorted::as_map(relevant(refs)) == relevant_map(sorted::as_map(refs)),
        forall|i: int|
            0 <= i < relevant(refs).len() ==> refs.contains(#[trigger] relevant(refs)[i]),
    decreases refs.len(),
{
    reveal(Seq::filter);
    if refs.len() == 0 {
        assert(sorted::as_map(relevant(refs)) =~= relevant_map(sorted::as_map(refs)));
    } else {
        let (front, last) = (refs.drop_last(), refs.last());
        lemma_relevant(front);
        assert forall|i: int| 0 <= i < relevant(refs).len() implies refs.contains(
            #[trigger] relevant(refs)[i],
        ) by {
            if i < relevant(front).len() {
                assert(relevant(refs)[i] == relevant(front)[i]);
                let k = choose|k: int| 0 <= k < front.len() && front[k] == relevant(front)[i];
                assert(refs[k] == relevant(refs)[i]);
            } else {
                assert(refs[refs.len() - 1] == relevant(refs)[i]);
            }
        }
        if from_remote(last.0) {
            assert(relevant(refs) == relevant(front).push(last));
            assert(relevant(refs).drop_last() =~= relevant(front));
            assert forall|i: int, j: int| 0 <= i < j < relevant(refs).len() implies sorted::before(
                (#[trigger] relevant(refs)[i]).0,
                (#[trigger] relevant(refs)[j]).0,
            ) by {
                if j == relevant(front).len() {
                    assert(relevant(refs)[i] == relevant(front)[i]);
                    let k = choose|k: int| 0 <= k < front.len() && front[k] == relevant(front)[i];
                    assert(refs[k] == relevant(front)[i]);
                    assert(sorted::before(refs[k].0, refs[refs.len() - 1].0));
                } else {
                    assert(relevant(refs)[i] == relevant(front)[i]);
                    assert(relevant(refs)[j] == relevant(front)[j]);
                }
            }
        }
        assert(sorted::as_map(relevant(refs)) =~= relevant_map(sorted::as_map(refs)));
    }
}

fn same_pairs(a: &Vec<(String, String)>, b: &Vec<(String, String)>) -> (r: bool)
    ensures
        r == (sorted::pairs(a@) == sorted::pairs(b@)),
{
    let ghost (x, y) = (sorted::pairs(a@), sorted::pairs(b@));
    if a.len() != b.len() {
        assert(x.len() != y.len());
        return false;
    }
    for i in 0..a.len()
        invariant
            x == sorted::pairs(a@),
            y == sorted::pairs(b@),
            a@.len() == b@.len(),
            forall|j: int| 0 <= j < i ==> #[trigger] x[j] == y[j],
    {
        assert(x[i as int] == sorted::pair_view(a@[i as int]));
        assert(y[i as int] == sorted::pair_view(b@[i as int]));
        if a[i].0 != b[i].0 || a[i].1 != b[i].1 {
            assert(x[i as int] != y[i as int]);
            return false;
        }
    }
    assert(x =~= y);
    true
}

/// One pair in the rendering of a map.
pub open spec fn debug_pair(p: PairView) -> Seq<char> {
    text::debug_text(p.0) + ": "@ + text::debug_text(p.1)
}

/// The `Debug` rendering of a map from strings to strings.
pub open spec fn debug_map(v: Seq<PairView>) -> Seq<char> {
    seq!['{'] + text::joined(v.map_values(|p: PairView| debug_pair(p)), ", "@, v.len()) + seq!['}']
}

fn quote_map(v: &Vec<(String, String)>) -> (r: String)
    ensures
        r@ == debug_map(sorted::pairs(v@)),
{
    let ghost goal = sorted::pairs(v@).map_values(|p: PairView| debug_pair(p));
    let mut parts: Vec<String> = Vec::new();
    for i in 0..v.len()
        invariant
            goal == sorted::pairs(v@).map_values(|p: PairView| debug_pair(p)),
            text::texts(parts@) == goal.take(i as int),
    {
        let ghost so_far = parts@;
        let mut part = text::quote(v[i].0.as_str());
        part.append(": ");
        part.append(text::quote(v[i].1.as_str()).as_str());
        assert(part@ =~= goal[i as int]);
        parts.push(part);
        assert(text::texts(parts@) =~= text::texts(so_far).push(goal[i as int]));
        assert(text::texts(parts@) =~= goal.take(i + 1));
    }
    assert(text::texts(parts@) =~= goal);
    let mut out = String::new();
    out.push('{');
    out.append(text::join(&parts, ", ").as_str());
    out.push('}');
    assert(out@ =~= debug_map(sorted::pairs(v@)));
    out
}

/// What is said of two repositories whose quoted refs differ.
pub open spec fn refs_differ(quoted_a: Seq<char>, quoted_b: Seq<char>) -> ErrorView {
    ErrorView::plain("refs differ:\nonly A: "@ + quoted_a + "\nonly B: "@ + quoted_b)
}

pub fn refs_differ_error(quoted_a: &str, quoted_b: &str) -> (r: Error)
    ensures
        r@ == refs_differ(quoted_a@, quoted_b@),
{
    let mut m = String::from_str("refs differ:\nonly A: ");
    m.append(quoted_a);
    m.append("\nonly B: ");
    m.append(quoted_b);
    Error::Other(m)
}

/// Have both repositories the same from the remote? What is local to one of them,
/// branches and HEAD, does not count.
pub fn assert_same_refs(a: &RepoSnapshot, b: &RepoSnapshot) -> (r: Result<(), Error>)
    ensures
        r is Ok <==> relevant_map(a@.ref_map()) == relevant_map(b@.ref_map()),
        r matches Err(e) ==> e@ == refs_differ(
            debug_map(relevant(a@.refs)),
            debug_map(relevant(b@.refs)),
        ),
{
    proof {
        use_type_invariant(a);
        use_type_invariant(b);
        lemma_relevant(a@.refs);
        lemma_relevant(b@.refs);
    }
    let ra = relevant_refs(&a.refs);
    let rb = relevant_refs(&b.refs);
    if same_pairs(&ra, &rb) {
        return Ok(());
    }
    proof {
        if relevant_map(a@.ref_map()) == relevant_map(b@.ref_map()) {
            sorted::law_order_makes_pairs_unique(relevant(a@.refs), relevant(b@.refs));
        }
    }
    Err(refs_differ_error(quote_map(&ra).as_str(), quote_map(&rb).as_str()))
}

/// The texts of `a` that are not among `b`, in their order.
pub open spec fn missing_from(a: Seq<Seq<char>>, b: Seq<Seq<char>>) -> Seq<Seq<char>> {
    a.filter(|s: Seq<char>| !b.contains(s))
}

/// The first ten of the given texts, or as many as there are.
pub open spec fn first_ten(v: Seq<Seq<char>>) -> Seq<Seq<char>> {
    if v.len() <= 10 {
        v
    } else {
        v.take(10)
    }
}

proof fn lemma_sorted_firsts(v: Seq<PairView>)
    requires
        sorted::in_order(v),
    ensures
        texts_in_order(firsts(v)),
{
    assert forall|i: int, j: int| 0 <= i < j < firsts(v).len() implies sorted::before(
        #[trigger] firsts(v)[i],
        #[trigger] firsts(v)[j],
    ) by {
        assert(sorted::before(v[i].0, v[j].0));
    }
}

/// What `a` has and `b` has not. Both are walked once, side by side.
fn difference(a: &Vec<(String, String)>, b: &Vec<(String, String)>) -> (r: Vec<String>)
    requires
        sorted::in_order(sorted::pairs(a@)),
        sorted::in_order(sorted::pairs(b@)),
    ensures
        text::texts(r@) == missing_from(
            firsts(sorted::pairs(a@)),
            firsts(sorted::pairs(b@)),
        ),
{
    let ghost (x, y) = (firsts(sorted::pairs(a@)), firsts(sorted::pairs(b@)));
    let ghost pred = |s: Seq<char>| !y.contains(s);
    let mut out: Vec<String> = Vec::new();
    let mut j: usize = 0;
    proof {
        lemma_sorted_firsts(sorted::pairs(a@));
        lemma_sorted_firsts(sorted::pairs(b@));
        reveal(Seq::filter);
        assert(text::texts(out@) =~= x.take(0).filter(pred));
    }
    for i in 0..a.len()
        invariant
            x == firsts(sorted::pairs(a@)),
            y == firsts(sorted::pairs(b@)),
            texts_in_order(x),
            texts_in_order(y),
            pred == (|s: Seq<char>| !y.contains(s)),
            j <= b@.len(),
            forall|k: int, l: int|
                0 <= k < j && i <= l < x.len() ==> sorted::before(#[trigger] y[k], #[trigger] x[l]),
            text::texts(out@) == x.take(i as int).filter(pred),
    {
        while j < b.len() && sorted::place(b[j].0.as_str(), a[i].0.as_str()) == Place::Before
            invariant
                x == firsts(sorted::pairs(a@)),
                y == firsts(sorted::pairs(b@)),
                texts_in_order(x),
                i < a@.len(),
                j <= b@.len(),
                forall|k: int, l: int|
                    0 <= k < j && i <= l < x.len() ==> sorted::before(
                        #[trigger] y[k],
                        #[trigger] x[l],
                    ),
            decreases b@.len() - j,
        {
            proof {
                assert(y[j as int] == b@[j as int].0@);
                assert(x[i as int] == a@[i as int].0@);
                assert forall|l: int| i <= l < x.len() implies sorted::before(
                    y[j as int],
                    #[trigger] x[l],
                ) by {
                    if l > i {
                        sorted::law_order_is_transitive(y[j as int], x[i as int], x[l]);
                    }
                }
            }
            j += 1;
        }
        let here: bool = j < b.len() && sorted::place(b[j].0.as_str(), a[i].0.as_str())
            == Place::Same;
        let ghost so_far = out@;
        proof {
            let s = x[i as int];
            assert(s == a@[i as int].0@);
            if here {
                assert(y[j as int] == b@[j as int].0@);
                assert(y.contains(s));
            } else if y.contains(s) {
                let k = choose|k: int| 0 <= k < y.len() && y[k] == s;
                sorted::law_order_is_total(s, s);
                assert(k >= j);
                assert(y[j as int] == b@[j as int].0@);
                sorted::law_order_is_total(y[j as int], s);
                assert(sorted::before(s, y[j as int]));
                if k > j {
                    assert(sorted::before(y[j as int], y[k]));
                }
            }
            reveal(Seq::filter);
            assert(x.take(i + 1).drop_last() =~= x.take(i as int));
            assert(x.take(i + 1).last() == s);
        }
        if !here {
            out.push(a[i].0.clone());
            assert(text::texts(out@) =~= text::texts(so_far).push(x[i as int]));
        }
    }
    assert(x.take(x.len() as int) =~= x);
    out
}

fn at_most_ten(v: Vec<String>) -> (r: Vec<String>)
    ensures
        text::texts(r@) == first_ten(text::texts(v@)),
{
    let mut out: Vec<String> = Vec::new();
    let n: usize = if v.len() <= 10 {
        v.len()
    } else {
        10
    };
    for i in 0..n
        invariant
            n <= v@.len(),
            text::texts(out@) == text::texts(v@).take(i as int),
    {
        let ghost so_far = out@;
        out.push(v[i].clone());
        assert(text::texts(out@) =~= text::texts(so_far).push(v@[i as int]@));
        assert(text::texts(out@) =~= text::texts(v@).take(i + 1));
    }
    assert(text::texts(out@) =~= first_ten(text::texts(v@)));
    out
}

proof fn lemma_none_missing(a: Seq<Seq<char>>, b: Seq<Seq<char>>)
    ensures
        missing_from(a, b).len() == 0 <==> forall|s: Seq<char>| a.contains(s) ==> b.contains(s),
    decreases a.len(),
{
    reveal(Seq::filter);
    if a.len() > 0 {
        let (front, last) = (a.drop_last(), a.last());
        lemma_none_missing(front, b);
        assert(a.contains(last)) by {
            assert(a[a.len() - 1] == last);
        }
        assert forall|s: Seq<char>| a.contains(s) <==> front.contains(s) || s == last by {
            if front.contains(s) {
                let k = choose|k: int| 0 <= k < front.len() && front[k] == s;
                assert(a[k] == s);
            }
            if a.contains(s) {
                let k = choose|k: int| 0 <= k < a.len() && a[k] == s;
                if k < front.len() {
                    assert(front[k] == s);
                }
            }
        }
    }
}

/// What is said of two repositories whose objects differ: how many each has, and
/// some that only one has, quoted.
pub open spec fn objects_differ(
    count_a: nat,
    count_b: nat,
    quoted_a: Seq<char>,
    quoted_b: Seq<char>,
) -> ErrorView {
    ErrorView::plain(
        "objects differ (counts "@ + text::decimal(count_a) + " vs "@ + text::decimal(count_b)
            + ")\nonly A: "@ + quoted_a + "\nonly B: "@ + quoted_b,
    )
}

pub fn objects_differ_error(count_a: usize, count_b: usize, quoted_a: &str, quoted_b: &str) -> (r:
    Error)
    ensures
        r@ == objects_differ(count_a as nat, count_b as nat, quoted_a@, quoted_b@),
{
    let mut m = String::from_str("objects differ (counts ");
    text::push_decimal(&mut m, count_a as u64);
    m.append(" vs ");
    text::push_decimal(&mut m, count_b as u64);
    m.append(")\nonly A: ");
    m.append(quoted_a);
    m.append("\nonly B: ");
    m.append(quoted_b);
    Error::Other(m)
}

/// Do both repositories reach the same objects? Here everything counts, local
/// branches too.
pub fn assert_same_objects(a: &RepoSnapshot, b: &RepoSnapshot) -> (r: Result<(), Error>)
    ensures
        r is Ok <==> a@.object_set() == b@.object_set(),
        r matches Err(e) ==> e@ == objects_differ(
            a@.objects.len(),
            b@.objects.len(),
            text::debug_list(first_ten(missing_from(a@.objects, b@.objects))),
            text::debug_list(first_ten(missing_from(b@.objects, a@.objects))),
        ),
{
    proof {
        use_type_invariant(a);
        use_type_invariant(b);
    }
    let only_a = difference(&a.objects, &b.objects);
    let only_b = difference(&b.objects, &a.objects);
    proof {
        lemma_none_missing(a@.objects, b@.objects);
        lemma_none_missing(b@.objects, a@.objects);
        assert(text::texts(only_a@).len() == only_a@.len());
        assert(text::texts(only_b@).len() == only_b@.len());
    }
    if only_a.len() == 0 && only_b.len() == 0 {
        assert(a@.object_set() =~= b@.object_set());
        return Ok(());
    }
    proof {
        if a@.object_set() == b@.object_set() {
            assert forall|s: Seq<char>| a@.objects.contains(s) <==> b@.objects.contains(s) by {
                assert(a@.object_set().contains(s) == b@.object_set().contains(s));
            }
        }
    }
    Err(
        objects_differ_error(
            a.objects.len(),
            b.objects.len(),
            text::quote_list(&at_most_ten(only_a)).as_str(),
            text::quote_list(&at_most_ten(only_b)).as_str(),
        ),
    )
}

// ----------------------------------------------------------------------- laws

/// A ref that does not come from the remote has no say in the comparison: with it
/// or without it, the relevant refs are the same. The pointer that says which
/// branch is the remote's default is such a ref.
pub proof fn law_local_refs_do_not_count(
    m: Map<Seq<char>, Seq<char>>,
    name: Seq<char>,
    oid: Seq<char>,
)
    requires
        !from_remote(name),
    ensures
        relevant_map(m.insert(name, oid)) == relevant_map(m),
        relevant_map(m.remove(name)) == relevant_map(m),
        !from_remote("refs/remotes/origin/HEAD"@),
{
    assert(relevant_map(m.insert(name, oid)) =~= relevant_map(m));
    assert(relevant_map(m.remove(name)) =~= relevant_map(m));
}

/// A branch or a tag of the remote that one side lacks, or has at another object,
/// makes the two sides differ.
pub proof fn law_remote_refs_count(
    a: Map<Seq<char>, Seq<char>>,
    b: Map<Seq<char>, Seq<char>>,
    name: Seq<char>,
)
    requires
        from_remote(name),
        a.dom().contains(name),
        !b.dom().contains(name) || b[name] != a[name],
    ensures
        relevant_map(a) != relevant_map(b),
{
    assert(relevant_map(a).dom().contains(name));
    assert(relevant_map(a)[name] == a[name]);
    if relevant_map(b).dom().contains(name) {
        assert(relevant_map(b)[name] == b[name]);
    }
}

/// How the refs of a listing are read: each line sets the ref that it names, up to its
/// first space, to all that follows the space. A line without a space says nothing, and
/// an empty listing has no refs.
pub proof fn law_lines_set_refs(lines: Seq<Seq<char>>, name: Seq<char>, oid: Seq<char>)
    requires
        !name.contains(' '),
    ensures
        refs_listed(Seq::empty()) == Map::<Seq<char>, Seq<char>>::empty(),
        refs_listed(lines.push(name + seq![' '] + oid)) == refs_listed(lines).insert(name, oid),
        refs_listed(lines.push(name)) == refs_listed(lines),
{
    text::law_split_at_the_first(name, ' ', oid);
    assert(lines.push(name + seq![' '] + oid).drop_last() =~= lines);
    assert(lines.push(name).drop_last() =~= lines);
}

/// How the objects of a listing are read: each line adds its first word, whatever else
/// stands in it, and an empty listing has no objects.
pub proof fn law_lines_add_objects(lines: Seq<Seq<char>>, oid: Seq<char>, path: Seq<char>)
    requires
        !oid.contains(' '),
    ensures
        objects_listed(Seq::empty()) == Set::<Seq<char>>::empty(),
        objects_listed(lines.push(oid)) == objects_listed(lines).insert(oid),
        objects_listed(lines.push(oid + seq![' '] + path)) == objects_listed(lines).insert(oid),
{
    let line = oid + seq![' '] + path;
    assert forall|j: int| 0 <= j < oid.len() implies oid[j] != ' ' && line[j] != ' ' by {
        assert(oid.contains(oid[j]));
    }
    text::lemma_find_char(oid, ' ', oid.len() as int);
    text::lemma_find_char(line, ' ', oid.len() as int);
    assert(first_word(oid) =~= oid);
    assert(first_word(line) =~= oid);
    lemma_one_more_object(lines, oid);
    lemma_one_more_object(lines, line);
    assert(objects_listed(Seq::empty()) =~= Set::<Seq<char>>::empty());
}

proof fn lemma_one_more_object(lines: Seq<Seq<char>>, line: Seq<char>)
    ensures
        objects_listed(lines.push(line)) == objects_listed(lines).insert(first_word(line)),
{
    let f = |l: Seq<char>| first_word(l);
    let (a, b) = (lines.map_values(f), lines.push(line).map_values(f));
    assert(b =~= a.push(first_word(line)));
    assert forall|s: Seq<char>| #[trigger] b.to_set().contains(s) <==> a.to_set().insert(
        first_word(line),
    ).contains(s) by {
        if b.contains(s) {
            let i = choose|i: int| 0 <= i < b.len() && b[i] == s;
            if i < a.len() {
                assert(a[i] == s);
            }
        }
        if a.contains(s) {
            let i = choose|i: int| 0 <= i < a.len() && a[i] == s;
            assert(b[i] == s);
        }
        assert(b[a.len() as int] == first_word(line));
    }
    assert(b.to_set() =~= a.to_set().insert(first_word(line)));
}

/// Which refs come from the remote: all below `refs/remotes/origin/` but the pointer to
/// the default branch, all tags, and no others.
pub proof fn law_what_comes_from_the_remote(name: Seq<char>)
    ensures
        from_remote("refs/remotes/origin/"@ + name) <==> name != "HEAD"@,
        from_remote("refs/tags/"@ + name),
        !text::begins_with(name, "refs/remotes/origin/"@) && !text::begins_with(
            name,
            "refs/tags/"@,
        ) ==> !from_remote(name),
{
    reveal_strlit("refs/remotes/origin/");
    reveal_strlit("refs/remotes/origin/HEAD");
    reveal_strlit("refs/tags/");
    reveal_strlit("HEAD");
    let (b, t) = ("refs/remotes/origin/"@ + name, "refs/tags/"@ + name);
    assert(b.subrange(0, 20) =~= "refs/remotes/origin/"@);
    assert(t.subrange(0, 10) =~= "refs/tags/"@);
    assert("refs/remotes/origin/HEAD"@ =~= "refs/remotes/origin/"@ + "HEAD"@);
    if b == "refs/remotes/origin/HEAD"@ {
        assert(b.skip(20) =~= name);
        assert("refs/remotes/origin/HEAD"@.skip(20) =~= "HEAD"@);
    }
    assert(t[5] == 't');
    assert("refs/remotes/origin/HEAD"@[5] == 'r');
}

/// What is compared: of each repository exactly the refs that come from the remote, each
/// at its object.
pub proof fn law_what_is_compared(m: Map<Seq<char>, Seq<char>>, k: Seq<char>)
    ensures
        relevant_map(m).dom().contains(k) <==> m.dom().contains(k) && from_remote(k),
        m.dom().contains(k) && from_remote(k) ==> relevant_map(m)[k] == m[k],
{
}

/// What is shown of the refs that differ, and of the objects: those that come from the
/// remote, in their order; the objects that the other side lacks, in their order, and
/// the first ten of them.
pub proof fn law_what_is_shown_of_differences(
    refs: Seq<PairView>,
    p: PairView,
    a: Seq<Seq<char>>,
    b: Seq<Seq<char>>,
    x: Seq<char>,
)
    ensures
        relevant(Seq::empty()) == Seq::<PairView>::empty(),
        relevant(refs.push(p)) == if from_remote(p.0) {
            relevant(refs).push(p)
        } else {
            relevant(refs)
        },
        missing_from(Seq::empty(), b) == Seq::<Seq<char>>::empty(),
        missing_from(a.push(x), b) == if b.contains(x) {
            missing_from(a, b)
        } else {
            missing_from(a, b).push(x)
        },
        a.len() <= 10 ==> first_ten(a) == a,
        a.len() > 10 ==> first_ten(a) == a.subrange(0, 10),
{
    reveal(Seq::filter);
    assert(refs.push(p).drop_last() =~= refs);
    assert(a.push(x).drop_last() =~= a);
    assert(relevant(Seq::empty()) =~= Seq::<PairView>::empty());
    assert(missing_from(Seq::empty(), b) =~= Seq::<Seq<char>>::empty());
    if a.len() > 10 {
        assert(a.take(10) =~= a.subrange(0, 10));
    }
}

/// How differences are told, word for word.
pub proof fn law_how_differences_are_told(
    m: nat,
    n: nat,
    x: Seq<char>,
    y: Seq<char>,
    v: Seq<PairView>,
    p: PairView,
)
    ensures
        refs_differ(x, y).rendered() == "refs differ:\nonly A: "@ + x + "\nonly B: "@ + y,
        refs_differ(x, y).kind is None,
        objects_differ(m, n, x, y).rendered() == "objects differ (counts "@ + text::decimal(m)
            + " vs "@ + text::decimal(n) + ")\nonly A: "@ + x + "\nonly B: "@ + y,
        objects_differ(m, n, x, y).kind is None,
        debug_map(Seq::empty()) == seq!['{', '}'],
        debug_map(seq![p]) == seq!['{'] + text::debug_text(p.0) + ": "@ + text::debug_text(p.1)
            + seq!['}'],
        v.len() > 0 ==> debug_map(v.push(p)) == debug_map(v).drop_last() + seq![',', ' ']
            + text::debug_text(p.0) + ": "@ + text::debug_text(p.1) + seq!['}'],
{
    reveal_strlit(", ");
    assert(refs_differ(x, y).rendered() =~= "refs differ:\nonly A: "@ + x + "\nonly B: "@ + y);
    assert(objects_differ(m, n, x, y).rendered() =~= "objects differ (counts "@ + text::decimal(
        m,
    ) + " vs "@ + text::decimal(n) + ")\nonly A: "@ + x + "\nonly B: "@ + y);
    let f = |q: PairView| debug_pair(q);
    assert(Seq::<PairView>::empty().map_values(f) =~= Seq::empty());
    assert(seq![p].map_values(f) =~= seq![debug_pair(p)]);
    assert(v.push(p).map_values(f) =~= v.map_values(f).push(debug_pair(p)));
    text::law_joined(v.map_values(f), debug_pair(p), ", "@);
    text::law_joined(Seq::empty(), debug_pair(p), ", "@);
    assert(debug_map(Seq::empty()) =~= seq!['{', '}']);
    assert(debug_map(seq![p]) =~= seq!['{'] + text::debug_text(p.0) + ": "@ + text::debug_text(
        p.1,
    ) + seq!['}']);
    if v.len() > 0 {
        assert(", "@ =~= seq![',', ' ']);
        assert(debug_map(v.push(p)) =~= debug_map(v).drop_last() + seq![',', ' ']
            + text::debug_text(p.0) + ": "@ + text::debug_text(p.1) + seq!['}']);
    }
}

/// What a snapshot stands for: the map of its refs and the set of its objects; both are
/// in order, with nothing twice.
pub proof fn law_what_a_snapshot_stands_for(s: SnapshotView, v: Seq<PairView>, i: int)
    ensures
        s.ref_map() == sorted::as_map(s.refs),
        forall|x: Seq<char>| s.object_set().contains(x) <==> s.objects.contains(x),
        s.wf() <==> {
            &&& sorted::in_order(s.refs)
            &&& forall|i: int, j: int|
                0 <= i < j < s.objects.len() ==> sorted::before(
                    #[trigger] s.objects[i],
                    #[trigger] s.objects[j],
                )
        },
        firsts(v).len() == v.len(),
        0 <= i < v.len() ==> firsts(v)[i] == v[i].0,
{
}

} // verus!
