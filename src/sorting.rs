use vstd::prelude::*;

verus! {

/// The column rows are ordered by.
#[derive(Clone, Copy, Debug, PartialEq, Eq, Structural)]
pub enum SortField {
    Name,
    Commits,
    Lines,
    Repos,
    Prs,
}

/// The direction rows are ordered in.
#[derive(Clone, Copy, Debug, PartialEq, Eq, Structural)]
pub enum SortOrder {
    Ascending,
    Descending,
}

/// The value a row is ordered by: a count, or a name.
pub enum RowKey {
    Count(int),
    Text(Seq<char>),
}

/// Names are ordered character by character, by code point; a proper prefix
/// comes first.
pub open spec fn text_lt(a: Seq<char>, b: Seq<char>) -> bool
    decreases a.len(),
{
    if a.len() == 0 {
        b.len() > 0
    } else if b.len() == 0 {
        false
    } else if a[0] != b[0] {
        (a[0] as int) < (b[0] as int)
    } else {
        text_lt(a.drop_first(), b.drop_first())
    }
}

/// The strict order of keys: counts by value, names by `text_lt`.
pub open spec fn key_lt(a: RowKey, b: RowKey) -> bool {
    match (a, b) {
        (RowKey::Count(x), RowKey::Count(y)) => x < y,
        (RowKey::Text(x), RowKey::Text(y)) => text_lt(x, y),
        (RowKey::Count(_), RowKey::Text(_)) => true,
        (RowKey::Text(_), RowKey::Count(_)) => false,
    }
}

/// A row with key `a` goes strictly before a row with key `b`.
pub open spec fn before(a: RowKey, b: RowKey, order: SortOrder) -> bool {
    match order {
        SortOrder::Ascending => key_lt(a, b),
        SortOrder::Descending => key_lt(b, a),
    }
}

pub proof fn lemma_text_lt_irreflexive(a: Seq<char>)
    ensures
        !text_lt(a, a),
    decreases a.len(),
{
    if a.len() > 0 {
        lemma_text_lt_irreflexive(a.drop_first());
    }
}

pub proof fn lemma_text_lt_transitive(a: Seq<char>, b: Seq<char>, c: Seq<char>)
    requires
        text_lt(a, b),
        text_lt(b, c),
    ensures
        text_lt(a, c),
    decreases a.len(),
{
    if a.len() > 0 && b.len() > 0 && c.len() > 0 && a[0] == b[0] && b[0] == c[0] {
        lemma_text_lt_transitive(a.drop_first(), b.drop_first(), c.drop_first());
    }
}

pub proof fn lemma_text_lt_total(a: Seq<char>, b: Seq<char>)
    ensures
        a == b || text_lt(a, b) || text_lt(b, a),
    decreases a.len(),
{
    if a.len() == 0 {
        if b.len() == 0 {
            assert(a =~= b);
        }
    } else if b.len() > 0 {
        if a[0] == b[0] {
            lemma_text_lt_total(a.drop_first(), b.drop_first());
            if a.drop_first() == b.drop_first() {
                assert(a =~= seq![a[0]] + a.drop_first());
                assert(b =~= seq![b[0]] + b.drop_first());
            }
        } else {
            assert((a[0] as int) != (b[0] as int));
        }
    }
}

/// `before` is a strict total order on keys, in either direction.
pub proof fn lemma_before_order(order: SortOrder)
    ensures
        forall|a: RowKey| !#[trigger] before(a, a, order),
        forall|a: RowKey, b: RowKey, c: RowKey|
            #[trigger] before(a, b, order) && #[trigger] before(b, c, order) ==> before(a, c, order),
        forall|a: RowKey, b: RowKey|
            a == b || #[trigger] before(a, b, order) || #[trigger] before(b, a, order),
{
    assert forall|a: RowKey| !#[trigger] before(a, a, order) by {
        if let RowKey::Text(x) = a {
            lemma_text_lt_irreflexive(x);
        }
    }
    assert forall|a: RowKey, b: RowKey, c: RowKey|
        #[trigger] before(a, b, order) && #[trigger] before(b, c, order) implies before(a, c, order) by {
        match (a, b, c) {
            (RowKey::Text(x), RowKey::Text(y), RowKey::Text(z)) => {
                if order == SortOrder::Ascending {
                    lemma_text_lt_transitive(x, y, z);
                } else {
                    lemma_text_lt_transitive(z, y, x);
                }
            },
            _ => {},
        }
    }
    assert forall|a: RowKey, b: RowKey|
        a == b || #[trigger] before(a, b, order) || #[trigger] before(b, a, order) by {
        if let (RowKey::Text(x), RowKey::Text(y)) = (a, b) {
            lemma_text_lt_total(x, y);
        }
    }
}

/// A row that can be ordered by each `SortField`.
pub trait SortRow: Sized {
    /// The key this row is ordered by under `field`.
    spec fn sort_key(&self, field: SortField) -> RowKey;

    /// Whether this row goes strictly before `other`.
    fn precedes(&self, other: &Self, field: SortField, order: SortOrder) -> (r: bool)
        ensures
            r == before(self.sort_key(field), other.sort_key(field), order),
    ;
}

/// Inserts `x` into `r` after every row that `x` does not go strictly
/// before.
pub open spec fn insert_sorted<T: SortRow>(r: Seq<T>, x: T, field: SortField, order: SortOrder) -> Seq<T>
    decreases r.len(),
{
    if r.len() == 0 {
        seq![x]
    } else if before(x.sort_key(field), r[0].sort_key(field), order) {
        seq![x] + r
    } else {
        seq![r[0]] + insert_sorted(r.drop_first(), x, field, order)
    }
}

/// The stable sort of `s`: its rows ordered by `field` in `order`, rows with
/// equal keys keeping their relative order.
pub open spec fn sort_rows<T: SortRow>(s: Seq<T>, field: SortField, order: SortOrder) -> Seq<T>
    decreases s.len(),
{
    if s.len() == 0 {
        s
    } else {
        insert_sorted(sort_rows(s.drop_last(), field, order), s.last(), field, order)
    }
}

/// No row goes strictly before a row ahead of it.
pub open spec fn is_sorted<T: SortRow>(s: Seq<T>, field: SortField, order: SortOrder) -> bool {
    forall|i: int, j: int|
        0 <= i < j < s.len() ==> !before(#[trigger] s[j].sort_key(field), #[trigger] s[i].sort_key(field), order)
}

/// The rows of `s` whose key is `k`, in order.
pub open spec fn with_key<T: SortRow>(s: Seq<T>, field: SortField, k: RowKey) -> Seq<T>
    decreases s.len(),
{
    if s.len() == 0 {
        s
    } else if s[0].sort_key(field) == k {
        seq![s[0]] + with_key(s.drop_first(), field, k)
    } else {
        with_key(s.drop_first(), field, k)
    }
}

proof fn lemma_insert_contents<T: SortRow>(r: Seq<T>, x: T, field: SortField, order: SortOrder)
    ensures
        insert_sorted(r, x, field, order).len() == r.len() + 1,
        forall|i: int|
            0 <= i < r.len() + 1 ==> #[trigger] insert_sorted(r, x, field, order)[i] == x || r.contains(
                insert_sorted(r, x, field, order)[i],
            ),
    decreases r.len(),
{
    let ins = insert_sorted(r, x, field, order);
    if r.len() > 0 && !before(x.sort_key(field), r[0].sort_key(field), order) {
        let rest = r.drop_first();
        lemma_insert_contents(rest, x, field, order);
        assert forall|i: int| 0 <= i < r.len() + 1 implies #[trigger] ins[i] == x || r.contains(ins[i]) by {
            if i > 0 {
                let e = insert_sorted(rest, x, field, order)[i - 1];
                assert(ins[i] == e);
                if e != x {
                    let k = choose|k: int| 0 <= k < rest.len() && rest[k] == e;
                    assert(r[k + 1] == e);
                }
            } else {
                assert(r[0] == ins[0]);
            }
        }
    } else if r.len() > 0 {
        assert forall|i: int| 0 <= i < r.len() + 1 implies #[trigger] ins[i] == x || r.contains(ins[i]) by {
            if i > 0 {
                assert(ins[i] == r[i - 1]);
            }
        }
    }
}

proof fn lemma_insert_sorted<T: SortRow>(r: Seq<T>, x: T, field: SortField, order: SortOrder)
    requires
        is_sorted(r, field, order),
    ensures
        is_sorted(insert_sorted(r, x, field, order), field, order),
    decreases r.len(),
{
    lemma_before_order(order);
    let ins = insert_sorted(r, x, field, order);
    if r.len() == 0 {
    } else if before(x.sort_key(field), r[0].sort_key(field), order) {
        assert forall|i: int, j: int| 0 <= i < j < ins.len() implies !before(
            #[trigger] ins[j].sort_key(field),
            #[trigger] ins[i].sort_key(field),
            order,
        ) by {
            assert(ins[j] == r[j - 1]);
            if i > 0 {
                assert(ins[i] == r[i - 1]);
            } else if j - 1 > 0 {
                assert(!before(r[j - 1].sort_key(field), r[0].sort_key(field), order));
            }
        }
    } else {
        let rest = r.drop_first();
        assert(is_sorted(rest, field, order)) by {
            assert forall|i: int, j: int| 0 <= i < j < rest.len() implies !before(
                #[trigger] rest[j].sort_key(field),
                #[trigger] rest[i].sort_key(field),
                order,
            ) by {
                assert(rest[i] == r[i + 1] && rest[j] == r[j + 1]);
            }
        }
        lemma_insert_sorted(rest, x, field, order);
        lemma_insert_contents(rest, x, field, order);
        let tail = insert_sorted(rest, x, field, order);
        assert forall|i: int, j: int| 0 <= i < j < ins.len() implies !before(
            #[trigger] ins[j].sort_key(field),
            #[trigger] ins[i].sort_key(field),
            order,
        ) by {
            assert(ins[j] == tail[j - 1]);
            if i > 0 {
                assert(ins[i] == tail[i - 1]);
            } else {
                let e = tail[j - 1];
                if e != x {
                    let k = choose|k: int| 0 <= k < rest.len() && rest[k] == e;
                    assert(r[k + 1] == e);
                }
            }
        }
    }
}

proof fn lemma_sort_sorted<T: SortRow>(s: Seq<T>, field: SortField, order: SortOrder)
    ensures
        is_sorted(sort_rows(s, field, order), field, order),
        sort_rows(s, field, order).len() == s.len(),
    decreases s.len(),
{
    if s.len() > 0 {
        lemma_sort_sorted(s.drop_last(), field, order);
        lemma_insert_sorted(sort_rows(s.drop_last(), field, order), s.last(), field, order);
        lemma_insert_contents(sort_rows(s.drop_last(), field, order), s.last(), field, order);
    }
}

proof fn lemma_with_key_add<T: SortRow>(a: Seq<T>, b: Seq<T>, field: SortField, k: RowKey)
    ensures
        with_key(a + b, field, k) == with_key(a, field, k) + with_key(b, field, k),
    decreases a.len(),
{
    if a.len() == 0 {
        assert(a + b =~= b);
        assert(with_key(a, field, k) + with_key(b, field, k) =~= with_key(b, field, k));
    } else {
        lemma_with_key_add(a.drop_first(), b, field, k);
        assert((a + b).drop_first() =~= a.drop_first() + b);
        assert((a + b)[0] == a[0]);
        if a[0].sort_key(field) == k {
            assert(seq![a[0]] + (with_key(a.drop_first(), field, k) + with_key(b, field, k))
                =~= (seq![a[0]] + with_key(a.drop_first(), field, k)) + with_key(b, field, k));
        }
    }
}

proof fn lemma_with_key_one<T: SortRow>(x: T, field: SortField, k: RowKey)
    ensures
        with_key(seq![x], field, k) == (if x.sort_key(field) == k { seq![x] } else { Seq::<T>::empty() }),
{
    let s = seq![x];
    assert(s.drop_first() =~= Seq::<T>::empty());
    assert(with_key(s.drop_first(), field, k) == Seq::<T>::empty());
    if x.sort_key(field) == k {
        assert(seq![x] + Seq::<T>::empty() =~= seq![x]);
    }
}

proof fn lemma_with_key_absent<T: SortRow>(s: Seq<T>, field: SortField, k: RowKey)
    requires
        forall|i: int| 0 <= i < s.len() ==> #[trigger] s[i].sort_key(field) != k,
    ensures
        with_key(s, field, k) == Seq::<T>::empty(),
    decreases s.len(),
{
    if s.len() > 0 {
        assert forall|i: int| 0 <= i < s.drop_first().len() implies #[trigger] s.drop_first()[i].sort_key(field) != k by {
            assert(s.drop_first()[i] == s[i + 1]);
        }
        lemma_with_key_absent(s.drop_first(), field, k);
    }
}

proof fn lemma_with_key_present<T: SortRow>(s: Seq<T>, field: SortField, k: RowKey)
    requires
        with_key(s, field, k).len() > 0,
    ensures
        exists|i: int| 0 <= i < s.len() && #[trigger] s[i].sort_key(field) == k,
{
    if forall|i: int| 0 <= i < s.len() ==> #[trigger] s[i].sort_key(field) != k {
        lemma_with_key_absent(s, field, k);
    }
}

proof fn lemma_with_key_insert<T: SortRow>(r: Seq<T>, x: T, field: SortField, order: SortOrder, k: RowKey)
    requires
        is_sorted(r, field, order),
    ensures
        with_key(insert_sorted(r, x, field, order), field, k) == with_key(r, field, k) + with_key(
            seq![x],
            field,
            k,
        ),
    decreases r.len(),
{
    lemma_before_order(order);
    lemma_with_key_one(x, field, k);
    let ins = insert_sorted(r, x, field, order);
    if r.len() == 0 {
        assert(with_key(r, field, k) + with_key(seq![x], field, k) =~= with_key(seq![x], field, k));
    } else if before(x.sort_key(field), r[0].sort_key(field), order) {
        lemma_with_key_add(seq![x], r, field, k);
        if x.sort_key(field) == k {
            assert forall|i: int| 0 <= i < r.len() implies #[trigger] r[i].sort_key(field) != k by {
                if i > 0 {
                    assert(!before(r[i].sort_key(field), r[0].sort_key(field), order));
                }
            }
            lemma_with_key_absent(r, field, k);
            assert(with_key(seq![x], field, k) + Seq::<T>::empty() =~= with_key(seq![x], field, k));
            assert(Seq::<T>::empty() + with_key(seq![x], field, k) =~= with_key(seq![x], field, k));
        } else {
            assert(Seq::<T>::empty() + with_key(r, field, k) =~= with_key(r, field, k));
            assert(with_key(r, field, k) + Seq::<T>::empty() =~= with_key(r, field, k));
        }
    } else {
        let rest = r.drop_first();
        assert(is_sorted(rest, field, order)) by {
            assert forall|i: int, j: int| 0 <= i < j < rest.len() implies !before(
                #[trigger] rest[j].sort_key(field),
                #[trigger] rest[i].sort_key(field),
                order,
            ) by {
                assert(rest[i] == r[i + 1] && rest[j] == r[j + 1]);
            }
        }
        lemma_with_key_insert(rest, x, field, order, k);
        let tail = insert_sorted(rest, x, field, order);
        lemma_with_key_add(seq![r[0]], tail, field, k);
        lemma_with_key_add(seq![r[0]], rest, field, k);
        assert(r =~= seq![r[0]] + rest);
        assert(ins == seq![r[0]] + tail);
        assert(with_key(seq![r[0]], field, k) + (with_key(rest, field, k) + with_key(seq![x], field, k))
            =~= (with_key(seq![r[0]], field, k) + with_key(rest, field, k)) + with_key(seq![x], field, k));
    }
}

proof fn lemma_with_key_sort<T: SortRow>(s: Seq<T>, field: SortField, order: SortOrder, k: RowKey)
    ensures
        with_key(sort_rows(s, field, order), field, k) == with_key(s, field, k),
    decreases s.len(),
{
    if s.len() > 0 {
        let init = s.drop_last();
        lemma_with_key_sort(init, field, order, k);
        lemma_sort_sorted(init, field, order);
        lemma_with_key_insert(sort_rows(init, field, order), s.last(), field, order, k);
        assert(s =~= init + seq![s.last()]);
        lemma_with_key_add(init, seq![s.last()], field, k);
    }
}

proof fn lemma_sorted_unique<T: SortRow>(a: Seq<T>, b: Seq<T>, field: SortField, order: SortOrder)
    requires
        is_sorted(a, field, order),
        is_sorted(b, field, order),
        forall|k: RowKey| #[trigger] with_key(a, field, k) == with_key(b, field, k),
    ensures
        a == b,
    decreases a.len() + b.len(),
{
    lemma_before_order(order);
    if a.len() == 0 {
        if b.len() > 0 {
            let k = b[0].sort_key(field);
            assert(with_key(b, field, k).len() > 0);
            assert(with_key(a, field, k).len() == 0);
        }
        assert(a =~= b);
    } else if b.len() == 0 {
        let k = a[0].sort_key(field);
        assert(with_key(a, field, k).len() > 0);
        assert(with_key(b, field, k).len() == 0);
    } else {
        let ka = a[0].sort_key(field);
        let kb = b[0].sort_key(field);
        assert(with_key(a, field, ka).len() > 0);
        assert(with_key(b, field, ka) == with_key(a, field, ka));
        lemma_with_key_present(b, field, ka);
        let jb = choose|i: int| 0 <= i < b.len() && #[trigger] b[i].sort_key(field) == ka;
        if jb > 0 {
            assert(!before(b[jb].sort_key(field), b[0].sort_key(field), order));
        }
        assert(with_key(b, field, kb).len() > 0);
        assert(with_key(a, field, kb) == with_key(b, field, kb));
        lemma_with_key_present(a, field, kb);
        let ja = choose|i: int| 0 <= i < a.len() && #[trigger] a[i].sort_key(field) == kb;
        if ja > 0 {
            assert(!before(a[ja].sort_key(field), a[0].sort_key(field), order));
        }
        assert(ka == kb);
        assert(a[0] == with_key(a, field, ka)[0]);
        assert(b[0] == with_key(b, field, ka)[0]);
        let ra = a.drop_first();
        let rb = b.drop_first();
        assert forall|k: RowKey| #[trigger] with_key(ra, field, k) == with_key(rb, field, k) by {
            assert(with_key(a, field, k) == with_key(b, field, k));
            if k == ka {
                assert(with_key(ra, field, k) =~= with_key(a, field, k).drop_first());
                assert(with_key(rb, field, k) =~= with_key(b, field, k).drop_first());
            }
        }
        assert(is_sorted(ra, field, order)) by {
            assert forall|i: int, j: int| 0 <= i < j < ra.len() implies !before(
                #[trigger] ra[j].sort_key(field),
                #[trigger] ra[i].sort_key(field),
                order,
            ) by {
                assert(ra[i] == a[i + 1] && ra[j] == a[j + 1]);
            }
        }
        assert(is_sorted(rb, field, order)) by {
            assert forall|i: int, j: int| 0 <= i < j < rb.len() implies !before(
                #[trigger] rb[j].sort_key(field),
                #[trigger] rb[i].sort_key(field),
                order,
            ) by {
                assert(rb[i] == b[i + 1] && rb[j] == b[j + 1]);
            }
        }
        lemma_sorted_unique(ra, rb, field, order);
        assert(a =~= seq![a[0]] + ra);
        assert(b =~= seq![b[0]] + rb);
    }
}

/// Sorting rows that were sorted before by the same field, in whichever
/// order, gives what sorting the unsorted rows gives: the earlier order
/// survives only among rows with equal keys, and a stable sort keeps it.
pub proof fn lemma_resort<T: SortRow>(s: Seq<T>, field: SortField, first: SortOrder, second: SortOrder)
    ensures
        sort_rows(sort_rows(s, field, first), field, second) == sort_rows(s, field, second),
{
    let once = sort_rows(s, field, first);
    let a = sort_rows(once, field, second);
    let b = sort_rows(s, field, second);
    lemma_sort_sorted(once, field, second);
    lemma_sort_sorted(s, field, second);
    assert forall|k: RowKey| #[trigger] with_key(a, field, k) == with_key(b, field, k) by {
        lemma_with_key_sort(once, field, second, k);
        lemma_with_key_sort(s, field, first, k);
        lemma_with_key_sort(s, field, second, k);
    }
    lemma_sorted_unique(a, b, field, second);
}

/// Sorting twice by the same field and order gives what sorting once gives.
pub proof fn lemma_sort_idempotent<T: SortRow>(s: Seq<T>, field: SortField, order: SortOrder)
    ensures
        sort_rows(sort_rows(s, field, order), field, order) == sort_rows(s, field, order),
{
    lemma_resort(s, field, order, order);
}

/// The other direction.
pub open spec fn flipped(order: SortOrder) -> SortOrder {
    match order {
        SortOrder::Ascending => SortOrder::Descending,
        SortOrder::Descending => SortOrder::Ascending,
    }
}

/// Rows sorted by a field, then re-sorted in the other direction and back
/// again, are in the order they had.
pub proof fn lemma_toggle_twice<T: SortRow>(s: Seq<T>, field: SortField, order: SortOrder)
    ensures
        sort_rows(sort_rows(sort_rows(s, field, order), field, flipped(order)), field, order)
            == sort_rows(s, field, order),
{
    lemma_resort(sort_rows(s, field, order), field, flipped(order), order);
    lemma_sort_idempotent(s, field, order);
}

proof fn lemma_text_lt_skip(a: Seq<char>, b: Seq<char>, i: int)
    requires
        0 <= i <= a.len(),
        i <= b.len(),
        a.take(i) == b.take(i),
    ensures
        text_lt(a, b) == text_lt(a.skip(i), b.skip(i)),
    decreases i,
{
    if i > 0 {
        assert(a[0] == a.take(i)[0] && b[0] == b.take(i)[0]);
        assert(a.drop_first().take(i - 1) =~= a.take(i).drop_first());
        assert(b.drop_first().take(i - 1) =~= b.take(i).drop_first());
        lemma_text_lt_skip(a.drop_first(), b.drop_first(), i - 1);
        assert(a.drop_first().skip(i - 1) =~= a.skip(i));
        assert(b.drop_first().skip(i - 1) =~= b.skip(i));
    } else {
        assert(a.skip(0) =~= a);
        assert(b.skip(0) =~= b);
    }
}

/// Whether name `a` comes strictly before name `b`.
pub fn text_less(a: &str, b: &str) -> (r: bool)
    ensures
        r == text_lt(a@, b@),
{
    let la = a.unicode_len();
    let lb = b.unicode_len();
    let mut i: usize = 0;
    while i < la && i < lb
        invariant
            la == a@.len(),
            lb == b@.len(),
            i <= la,
            i <= lb,
            a@.take(i as int) == b@.take(i as int),
        decreases la - i,
    {
        let ca = a.get_char(i);
        let cb = b.get_char(i);
        if ca != cb {
            proof {
                lemma_text_lt_skip(a@, b@, i as int);
                assert(a@.skip(i as int)[0] == ca);
                assert(b@.skip(i as int)[0] == cb);
            }
            return (ca as u32) < (cb as u32);
        }
        proof {
            assert(a@.take(i + 1) =~= a@.take(i as int).push(ca));
            assert(b@.take(i + 1) =~= b@.take(i as int).push(cb));
        }
        i = i + 1;
    }
    proof {
        lemma_text_lt_skip(a@, b@, i as int);
    }
    i < lb
}

/// Whether two names are the same.
pub fn text_equal(a: &str, b: &str) -> (r: bool)
    ensures
        r == (a@ == b@),
{
    proof {
        lemma_text_lt_total(a@, b@);
        lemma_text_lt_irreflexive(a@);
    }
    !text_less(a, b) && !text_less(b, a)
}

/// Whether a row with count `a` goes strictly before one with count `b`.
pub fn count_precedes(a: i64, b: i64, order: SortOrder) -> (r: bool)
    ensures
        r == before(RowKey::Count(a as int), RowKey::Count(b as int), order),
{
    match order {
        SortOrder::Ascending => a < b,
        SortOrder::Descending => b < a,
    }
}

/// Whether a row with name `a` goes strictly before one with name `b`.
pub fn text_precedes(a: &String, b: &String, order: SortOrder) -> (r: bool)
    ensures
        r == before(RowKey::Text(a@), RowKey::Text(b@), order),
{
    match order {
        SortOrder::Ascending => text_less(a.as_str(), b.as_str()),
        SortOrder::Descending => text_less(b.as_str(), a.as_str()),
    }
}

proof fn lemma_insert_at<T: SortRow>(r: Seq<T>, x: T, field: SortField, order: SortOrder, p: int)
    requires
        0 <= p <= r.len(),
        forall|j: int| 0 <= j < p ==> !before(x.sort_key(field), #[trigger] r[j].sort_key(field), order),
        p < r.len() ==> before(x.sort_key(field), r[p].sort_key(field), order),
    ensures
        insert_sorted(r, x, field, order) == r.insert(p, x),
    decreases p,
{
    if p == 0 {
        if r.len() == 0 {
            assert(r.insert(0, x) =~= seq![x]);
        } else {
            assert(r.insert(0, x) =~= seq![x] + r);
        }
    } else {
        let rest = r.drop_first();
        assert(!before(x.sort_key(field), r[0].sort_key(field), order));
        assert forall|j: int| 0 <= j < p - 1 implies !before(
            x.sort_key(field),
            #[trigger] rest[j].sort_key(field),
            order,
        ) by {
            assert(rest[j] == r[j + 1]);
        }
        lemma_insert_at(rest, x, field, order, p - 1);
        assert(r.insert(p, x) =~= seq![r[0]] + rest.insert(p - 1, x));
    }
}

/// Sorts `rows` stably by `field` in `order`.
pub fn sort_rows_by<T: SortRow>(rows: &mut Vec<T>, field: SortField, order: SortOrder)
    ensures
        final(rows)@ == sort_rows(old(rows)@, field, order),
{
    let ghost orig = rows@;
    let mut out: Vec<T> = Vec::new();
    let ghost mut k: int = 0;
    proof {
        assert(orig.take(0) =~= Seq::<T>::empty());
        assert(orig.skip(0) =~= orig);
    }
    while rows.len() > 0
        invariant
            0 <= k <= orig.len(),
            rows@ == orig.skip(k),
            out@ == sort_rows(orig.take(k), field, order),
        decreases rows@.len(),
    {
        let x = rows.remove(0);
        let mut p: usize = 0;
        while p < out.len() && !x.precedes(&out[p], field, order)
            invariant
                p <= out@.len(),
                forall|j: int| 0 <= j < p ==> !before(x.sort_key(field), #[trigger] out@[j].sort_key(field), order),
            decreases out@.len() - p,
        {
            p = p + 1;
        }
        proof {
            lemma_insert_at(out@, x, field, order, p as int);
            assert(orig.take(k + 1).drop_last() =~= orig.take(k));
            assert(orig.take(k + 1).last() == orig[k]);
            assert(orig.skip(k)[0] == orig[k]);
            assert(orig.skip(k).drop_first() =~= orig.skip(k + 1));
        }
        out.insert(p, x);
        proof {
            k = k + 1;
        }
    }
    proof {
        assert(orig.take(k) =~= orig);
    }
    *rows = out;
}

} // verus!
