//! From the unordered annotations of an article to the two-level list that
//! is shown: roots by time, each followed by its replies.

use vstd::prelude::*;
use vstd::string::*;
use vstd::utf8::encode_utf8;
use crate::envelope::opt_chars;

verus! {

/// The name shown for an annotation that carries none.
pub const ANONYMOUS: &'static str = "Anonymous";

/// One annotation as the store returned it.
pub struct Annotation {
    pub id: i64,
    pub display_name: Option<String>,
    pub body_html: String,
    pub parent_id: Option<i64>,
    pub created_at: Option<String>,
}

/// The mathematical content of an [`Annotation`].
pub ghost struct AnnotationView {
    pub id: i64,
    pub display_name: Option<Seq<char>>,
    pub body_html: Seq<char>,
    pub parent_id: Option<i64>,
    pub created_at: Option<Seq<char>>,
}

impl View for Annotation {
    type V = AnnotationView;

    open spec fn view(&self) -> AnnotationView {
        AnnotationView {
            id: self.id,
            display_name: opt_chars(self.display_name),
            body_html: self.body_html@,
            parent_id: self.parent_id,
            created_at: opt_chars(self.created_at),
        }
    }
}

/// One row of the list: the annotation at `index` of the collection, shown
/// as a root or nested as a reply.
#[derive(Clone, Copy, Debug, PartialEq, Eq, Structural)]
pub struct Row {
    pub index: usize,
    pub reply: bool,
}

/// The contents of a collection of annotations.
pub open spec fn views_of(items: Seq<Annotation>) -> Seq<AnnotationView> {
    items.map_values(|a: Annotation| a@)
}

/// `a` comes before `b` in the order of byte strings, read from offset `i`
/// on: at the first offset where they differ `a` ends or holds the smaller
/// byte.
pub open spec fn bytes_before_from(a: Seq<u8>, b: Seq<u8>, i: int) -> bool
    decreases b.len() - i,
{
    if i >= b.len() {
        false
    } else if i >= a.len() {
        true
    } else if a[i] != b[i] {
        a[i] < b[i]
    } else {
        bytes_before_from(a, b, i + 1)
    }
}

/// `a` comes strictly before `b`, byte by byte.
pub open spec fn bytes_before(a: Seq<u8>, b: Seq<u8>) -> bool {
    bytes_before_from(a, b, 0)
}

/// The key by which a root is placed: the bytes of its time stamp, if it
/// has one.
pub open spec fn time_key(a: AnnotationView) -> Option<Seq<u8>> {
    match a.created_at {
        Some(t) => Some(encode_utf8(t)),
        None => None,
    }
}

/// The order of keys: no time stamp comes before every time stamp, and
/// time stamps are ordered byte by byte.
pub open spec fn key_before(x: Option<Seq<u8>>, y: Option<Seq<u8>>) -> bool {
    match (x, y) {
        (None, Some(_)) => true,
        (Some(a), Some(b)) => bytes_before(a, b),
        _ => false,
    }
}

/// The item at `i` is a root: it answers to no other annotation.
pub open spec fn is_root(items: Seq<AnnotationView>, i: int) -> bool {
    0 <= i < items.len() && items[i].parent_id is None
}

/// The root at `i` is listed before the root at `j`: its key comes first,
/// or the keys are equal and it stood first in the collection.
pub open spec fn root_before(items: Seq<AnnotationView>, i: int, j: int) -> bool {
    key_before(time_key(items[i]), time_key(items[j])) || (time_key(items[i]) == time_key(
        items[j],
    ) && i < j)
}

/// `order` lists the roots of `items`, each once, by ascending time stamp,
/// roots of equal time stamp in the order of the collection.
pub open spec fn is_root_order(items: Seq<AnnotationView>, order: Seq<usize>) -> bool {
    &&& forall|k: int| 0 <= k < order.len() ==> is_root(items, #[trigger] order[k] as int)
    &&& forall|i: int| #[trigger] is_root(items, i) ==> exists|k: int| 0 <= k < order.len() && order[k] == i
    &&& forall|k: int, l: int|
        0 <= k < l < order.len() ==> root_before(items, #[trigger] order[k] as int, #[trigger] order[l] as int)
}

/// The order in which the roots of `items` are listed.
pub open spec fn root_order(items: Seq<AnnotationView>) -> Seq<usize> {
    choose|order: Seq<usize>| is_root_order(items, order)
}

/// The rows of the replies to the annotation `id` among the first `n`
/// items, in the order of the collection.
pub open spec fn reply_rows(items: Seq<AnnotationView>, id: i64, n: int) -> Seq<Row>
    decreases n,
{
    if n <= 0 {
        Seq::<Row>::empty()
    } else if items[n - 1].parent_id == Some(id) {
        reply_rows(items, id, n - 1).push(Row { index: (n - 1) as usize, reply: true })
    } else {
        reply_rows(items, id, n - 1)
    }
}

/// The rows of one root: the root, then its replies.
pub open spec fn thread_rows(items: Seq<AnnotationView>, root: usize) -> Seq<Row> {
    seq![Row { index: root, reply: false }] + reply_rows(
        items,
        items[root as int].id,
        items.len() as int,
    )
}

/// The rows of the roots in `order`, one thread after the other.
pub open spec fn rows_of(items: Seq<AnnotationView>, order: Seq<usize>) -> Seq<Row>
    decreases order.len(),
{
    if order.len() == 0 {
        Seq::<Row>::empty()
    } else {
        rows_of(items, order.drop_last()) + thread_rows(items, order.last())
    }
}

/// The list that is shown for `items`.
pub open spec fn projection(items: Seq<AnnotationView>) -> Seq<Row> {
    rows_of(items, root_order(items))
}

/// The key of an optional time stamp.
pub open spec fn stamp_key(stamp: Option<String>) -> Option<Seq<u8>> {
    match stamp {
        Some(t) => Some(encode_utf8(t@)),
        None => None,
    }
}

impl Annotation {
    /// The name under which the annotation is shown: its display name, or
    /// `Anonymous` where it has none.
    pub fn shown_name(&self) -> (name: String)
        ensures
            name@ == (match self@.display_name {
                Some(n) => n,
                None => ANONYMOUS@,
            }),
    {
        match &self.display_name {
            Some(n) => n.clone(),
            None => String::from_str(ANONYMOUS),
        }
    }
}

/// Whether `a` comes strictly before `b`, byte by byte.
fn bytes_precede(a: &[u8], b: &[u8]) -> (r: bool)
    ensures
        r == bytes_before(a@, b@),
{
    let mut i: usize = 0;
    while i < a.len() && i < b.len() && a[i] == b[i]
        invariant
            i <= a.len(),
            i <= b.len(),
            bytes_before(a@, b@) == bytes_before_from(a@, b@, i as int),
        decreases a.len() - i,
    {
        i += 1;
    }
    if i >= b.len() {
        false
    } else if i >= a.len() {
        true
    } else {
        a[i] < b[i]
    }
}

/// Whether the time stamp `x` comes strictly before `y`.
pub fn stamp_precedes(x: &Option<String>, y: &Option<String>) -> (r: bool)
    ensures
        r == key_before(stamp_key(*x), stamp_key(*y)),
{
    match (x, y) {
        (None, Some(_)) => true,
        (Some(a), Some(b)) => bytes_precede(a.as_str().as_bytes(), b.as_str().as_bytes()),
        _ => false,
    }
}

/// The places of the roots of `items`, in the order in which they are
/// listed.
pub fn sorted_roots(items: &Vec<Annotation>) -> (order: Vec<usize>)
    ensures
        is_root_order(views_of(items@), order@),
        order@ == root_order(views_of(items@)),
{
    let ghost views = views_of(items@);
    let mut order: Vec<usize> = Vec::new();
    let mut i: usize = 0;
    while i < items.len()
        invariant
            i <= items.len(),
            views == views_of(items@),
            forall|k: int|
                0 <= k < order.len() ==> is_root(views, #[trigger] order@[k] as int) && order@[k]
                    < i,
            forall|r: int|
                #[trigger] is_root(views, r) && r < i ==> exists|k: int|
                    0 <= k < order.len() && order@[k] == r,
            forall|k: int, l: int|
                0 <= k < l < order.len() ==> root_before(
                    views,
                    #[trigger] order@[k] as int,
                    #[trigger] order@[l] as int,
                ),
        decreases items.len() - i,
    {
        if items[i].parent_id.is_none() {
            let mut p: usize = order.len();
            while p > 0 && stamp_precedes(&items[i].created_at, &items[order[p - 1]].created_at)
                invariant
                    p <= order.len(),
                    i < items.len(),
                    views == views_of(items@),
                    forall|k: int|
                        0 <= k < order.len() ==> is_root(views, #[trigger] order@[k] as int),
                    forall|k: int|
                        p <= k < order.len() ==> key_before(
                            time_key(views[i as int]),
                            time_key(views[#[trigger] order@[k] as int]),
                        ),
                decreases p,
            {
                p -= 1;
            }
            let ghost before = order@;
            proof {
                if p > 0 {
                    let prev = before[p - 1] as int;
                    lemma_key_order(time_key(views[prev]), time_key(views[i as int]), None);
                    assert(root_before(views, prev, i as int));
                    assert forall|k: int| 0 <= k < p implies root_before(
                        views,
                        #[trigger] before[k] as int,
                        i as int,
                    ) by {
                        if k < p - 1 {
                            assert(root_before(views, before[k] as int, before[p - 1] as int));
                            lemma_root_order_is_total(views, before[k] as int, prev, i as int);
                        }
                    }
                }
            }
            order.insert(p, i);
            proof {
                assert forall|k: int, l: int| 0 <= k < l < order.len() implies root_before(
                    views,
                    #[trigger] order@[k] as int,
                    #[trigger] order@[l] as int,
                ) by {
                    if l < p {
                        assert(root_before(views, before[k] as int, before[l] as int));
                    } else if l == p {
                        assert(root_before(views, before[k] as int, i as int));
                    } else if k < p {
                        assert(root_before(views, before[k] as int, before[l - 1] as int));
                    } else if k == p {
                        assert(key_before(
                            time_key(views[i as int]),
                            time_key(views[before[l - 1] as int]),
                        ));
                    } else {
                        assert(root_before(views, before[k - 1] as int, before[l - 1] as int));
                    }
                }
                assert forall|r: int| #[trigger] is_root(views, r) && r < i + 1 implies exists|
                    k: int,
                | 0 <= k < order.len() && order@[k] == r by {
                    if r == i {
                        assert(order@[p as int] == i);
                    } else {
                        let k0 = choose|k: int| 0 <= k < before.len() && before[k] == r;
                        if k0 < p {
                            assert(order@[k0] == before[k0]);
                        } else {
                            assert(order@[k0 + 1] == before[k0]);
                        }
                    }
                }
                assert forall|k: int| 0 <= k < order.len() implies is_root(
                    views,
                    #[trigger] order@[k] as int,
                ) && order@[k] < i + 1 by {
                    if k < p {
                        assert(order@[k] == before[k]);
                    } else if k > p {
                        assert(order@[k] == before[k - 1]);
                    }
                }
            }
        }
        i += 1;
    }
    proof {
        assert(is_root_order(views, order@));
        let chosen = root_order(views);
        assert(is_root_order(views, chosen));
        lemma_root_order_unique(views, order@, chosen);
    }
    order
}

/// Projects the annotations of an article to the list that is shown.
///
/// The roots come first by time stamp, a root without one before all that
/// have one, roots of equal time stamp in the order of the collection.
/// Under each root stand the annotations that answer to its identifier, in
/// the order of the collection. An annotation that answers to no root of
/// the collection is left out.
pub fn project(items: &Vec<Annotation>) -> (rows: Vec<Row>)
    ensures
        rows@ == projection(views_of(items@)),
        is_root_order(views_of(items@), root_order(views_of(items@))),
        forall|k: int| 0 <= k < rows.len() ==> (#[trigger] rows@[k]).index < items.len(),
{
    let ghost views = views_of(items@);
    let order = sorted_roots(items);
    let mut rows: Vec<Row> = Vec::new();
    let mut k: usize = 0;
    while k < order.len()
        invariant
            k <= order.len(),
            views == views_of(items@),
            is_root_order(views, order@),
            rows@ == rows_of(views, order@.take(k as int)),
            forall|r: int| 0 <= r < rows.len() ==> (#[trigger] rows@[r]).index < items.len(),
        decreases order.len() - k,
    {
        let root = order[k];
        assert(is_root(views, order@[k as int] as int));
        let id = items[root].id;
        rows.push(Row { index: root, reply: false });
        let mut j: usize = 0;
        while j < items.len()
            invariant
                j <= items.len(),
                root < items.len(),
                views == views_of(items@),
                id == views[root as int].id,
                rows@ == rows_of(views, order@.take(k as int)) + seq![
                    Row { index: root, reply: false },
                ] + reply_rows(views, id, j as int),
                forall|r: int| 0 <= r < rows.len() ==> (#[trigger] rows@[r]).index < items.len(),
            decreases items.len() - j,
        {
            let answers = match items[j].parent_id {
                Some(parent) => parent == id,
                None => false,
            };
            if answers {
                rows.push(Row { index: j, reply: true });
            }
            j += 1;
        }
        proof {
            assert(order@.take(k + 1).drop_last() =~= order@.take(k as int));
            assert(order@.take(k + 1).last() == root);
        }
        k += 1;
    }
    proof {
        assert(order@.take(k as int) =~= order@);
    }
    rows
}

proof fn lemma_bytes_irreflexive(a: Seq<u8>, i: int)
    requires
        0 <= i,
    ensures
        !bytes_before_from(a, a, i),
    decreases a.len() - i,
{
    if i < a.len() {
        lemma_bytes_irreflexive(a, i + 1);
    }
}

proof fn lemma_bytes_transitive(a: Seq<u8>, b: Seq<u8>, c: Seq<u8>, i: int)
    requires
        0 <= i,
        bytes_before_from(a, b, i),
        bytes_before_from(b, c, i),
    ensures
        bytes_before_from(a, c, i),
    decreases c.len() - i,
{
    if i < a.len() && a[i] == b[i] && b[i] == c[i] {
        lemma_bytes_transitive(a, b, c, i + 1);
    }
}

proof fn lemma_bytes_total(a: Seq<u8>, b: Seq<u8>, i: int)
    requires
        0 <= i <= a.len(),
        i <= b.len(),
        forall|j: int| 0 <= j < i ==> a[j] == b[j],
        a != b,
    ensures
        bytes_before_from(a, b, i) || bytes_before_from(b, a, i),
    decreases a.len() - i,
{
    if i == a.len() {
        if i == b.len() {
            assert(a =~= b);
        }
    } else if i < b.len() && a[i] == b[i] {
        lemma_bytes_total(a, b, i + 1);
    }
}

/// The order of keys is a strict total order.
pub proof fn lemma_key_order(x: Option<Seq<u8>>, y: Option<Seq<u8>>, z: Option<Seq<u8>>)
    ensures
        !key_before(x, x),
        key_before(x, y) && key_before(y, z) ==> key_before(x, z),
        x != y ==> key_before(x, y) || key_before(y, x),
        !(key_before(x, y) && key_before(y, x)),
{
    if x is Some {
        lemma_bytes_irreflexive(x->0, 0);
    }
    if key_before(x, y) && key_before(y, z) && x is Some {
        lemma_bytes_transitive(x->0, y->0, z->0, 0);
    }
    if x != y && x is Some && y is Some {
        lemma_bytes_total(x->0, y->0, 0);
    }
    if key_before(x, y) && key_before(y, x) {
        lemma_bytes_transitive(x->0, y->0, x->0, 0);
    }
}

/// The order in which roots are listed is a strict total order on the
/// places of the collection.
pub proof fn lemma_root_order_is_total(items: Seq<AnnotationView>, i: int, j: int, k: int)
    ensures
        !root_before(items, i, i),
        root_before(items, i, j) && root_before(items, j, k) ==> root_before(items, i, k),
        i != j ==> root_before(items, i, j) || root_before(items, j, i),
        !(root_before(items, i, j) && root_before(items, j, i)),
{
    lemma_key_order(time_key(items[i]), time_key(items[j]), time_key(items[k]));
    lemma_key_order(time_key(items[j]), time_key(items[i]), time_key(items[k]));
}

/// There is one way to list the roots of a collection: two lists that both
/// satisfy [`is_root_order`] are the same list.
pub proof fn lemma_root_order_unique(items: Seq<AnnotationView>, a: Seq<usize>, b: Seq<usize>)
    requires
        is_root_order(items, a),
        is_root_order(items, b),
    ensures
        a == b,
    decreases a.len(),
{
    if a.len() == 0 {
        if b.len() > 0 {
            assert(is_root(items, b[0] as int));
        }
        assert(a =~= b);
    } else {
        let top = a.last();
        assert(is_root(items, top as int));
        let kb = choose|k: int| 0 <= k < b.len() && b[k] == top as int;
        // `top` is the last of `b` too: whatever followed it in `b` would
        // have to come both after and before it.
        if kb < b.len() - 1 {
            let other = b[kb + 1];
            assert(is_root(items, other as int));
            let ka = choose|k: int| 0 <= k < a.len() && a[k] == other as int;
            assert(root_before(items, b[kb] as int, b[kb + 1] as int));
            if ka < a.len() - 1 {
                assert(root_before(items, a[ka] as int, a[a.len() - 1] as int));
            }
            lemma_root_order_is_total(items, top as int, other as int, top as int);
            assert(false);
        }
        let a0 = a.drop_last();
        let b0 = b.drop_last();
        assert forall|i: int| #[trigger] is_root(items, i) && i != top implies exists|k: int|
            0 <= k < a0.len() && a0[k] == i by {
            let k = choose|k: int| 0 <= k < a.len() && a[k] == i;
            assert(a0[k] == a[k]);
        }
        assert forall|i: int| #[trigger] is_root(items, i) && i != top implies exists|k: int|
            0 <= k < b0.len() && b0[k] == i by {
            let k = choose|k: int| 0 <= k < b.len() && b[k] == i;
            assert(b0[k] == b[k]);
        }
        // Both shortened lists order the roots of the collection without
        // `top`; the claim for them is the claim for a collection in which
        // `top` answers to something.
        let rest = items.update(
            top as int,
            AnnotationView { parent_id: Some(0i64), ..items[top as int] },
        );
        assert forall|k: int, l: int| 0 <= k < l < a.len() implies a[k] != a[l] by {
            assert(root_before(items, a[k] as int, a[l] as int));
            lemma_root_order_is_total(items, a[k] as int, a[l] as int, a[k] as int);
        }
        assert forall|k: int, l: int| 0 <= k < l < b.len() implies b[k] != b[l] by {
            assert(root_before(items, b[k] as int, b[l] as int));
            lemma_root_order_is_total(items, b[k] as int, b[l] as int, b[k] as int);
        }
        lemma_shortened_order(items, rest, top, a);
        lemma_shortened_order(items, rest, top, b);
        lemma_root_order_unique(rest, a0, b0);
        assert(a =~= a0.push(top));
        assert(b =~= b0.push(top));
    }
}

proof fn lemma_shortened_order(
    items: Seq<AnnotationView>,
    rest: Seq<AnnotationView>,
    top: usize,
    a: Seq<usize>,
)
    requires
        is_root_order(items, a),
        a.len() > 0,
        a.last() == top,
        forall|k: int, l: int| 0 <= k < l < a.len() ==> a[k] != a[l],
        rest == items.update(
            top as int,
            AnnotationView { parent_id: Some(0i64), ..items[top as int] },
        ),
    ensures
        is_root_order(rest, a.drop_last()),
{
    let a0 = a.drop_last();
    assert(is_root(items, a[a.len() - 1] as int));
    assert forall|k: int| 0 <= k < a0.len() implies is_root(rest, #[trigger] a0[k] as int) by {
        assert(is_root(items, a[k] as int));
        assert(a[k] != a[a.len() - 1]);
    }
    assert forall|i: int| #[trigger] is_root(rest, i) implies exists|k: int|
        0 <= k < a0.len() && a0[k] == i by {
        assert(is_root(items, i));
        let k = choose|k: int| 0 <= k < a.len() && a[k] == i;
        assert(a0[k] == a[k]);
    }
    assert forall|k: int, l: int| 0 <= k < l < a0.len() implies root_before(
        rest,
        #[trigger] a0[k] as int,
        #[trigger] a0[l] as int,
    ) by {
        assert(root_before(items, a[k] as int, a[l] as int));
        assert(a[k] != a[a.len() - 1]);
        assert(a[l] != a[a.len() - 1]);
        assert(is_root(items, a[k] as int));
        assert(is_root(items, a[l] as int));
    }
}

} // verus!
