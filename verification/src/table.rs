//! A map from texts to values that is walked in ascending order of the texts.
use vstd::prelude::*;
use vstd::string::*;
use vstd::utf8::*;
use crate::text::same_text;

verus! {

/// Whether `a` comes before `b` in lexicographic order.
pub open spec fn bytes_before(a: Seq<u8>, b: Seq<u8>) -> bool
    decreases a.len(),
{
    if b.len() == 0 {
        false
    } else if a.len() == 0 {
        true
    } else if a[0] == b[0] {
        bytes_before(a.drop_first(), b.drop_first())
    } else {
        a[0] < b[0]
    }
}

/// Whether the text `a` comes before the text `b`: by the bytes of their encodings.
pub open spec fn text_before(a: Seq<char>, b: Seq<char>) -> bool {
    bytes_before(encode_utf8(a), encode_utf8(b))
}

proof fn lemma_before_is_transitive(a: Seq<u8>, b: Seq<u8>, c: Seq<u8>)
    requires
        bytes_before(a, b),
        bytes_before(b, c),
    ensures
        bytes_before(a, c),
    decreases a.len(),
{
    if a.len() > 0 && a[0] == b[0] && b[0] == c[0] {
        lemma_before_is_transitive(a.drop_first(), b.drop_first(), c.drop_first());
    }
}

proof fn lemma_before_is_strict(a: Seq<u8>)
    ensures
        !bytes_before(a, a),
    decreases a.len(),
{
    if a.len() > 0 {
        lemma_before_is_strict(a.drop_first());
    }
}

proof fn lemma_before_is_total(a: Seq<u8>, b: Seq<u8>)
    ensures
        a == b || bytes_before(a, b) || bytes_before(b, a),
    decreases a.len(),
{
    if a.len() > 0 && b.len() > 0 && a[0] == b[0] {
        lemma_before_is_total(a.drop_first(), b.drop_first());
        if a.drop_first() == b.drop_first() {
            assert(a =~= seq![a[0]] + a.drop_first());
            assert(b =~= seq![b[0]] + b.drop_first());
        }
    } else if a.len() == 0 && b.len() == 0 {
        assert(a =~= b);
    }
}

/// The order of texts is strict, transitive and total.
pub proof fn texts_are_totally_ordered(a: Seq<char>, b: Seq<char>, c: Seq<char>)
    ensures
        !text_before(a, a),
        text_before(a, b) && text_before(b, c) ==> text_before(a, c),
        a == b || text_before(a, b) || text_before(b, a),
{
    lemma_before_is_strict(encode_utf8(a));
    if text_before(a, b) && text_before(b, c) {
        lemma_before_is_transitive(encode_utf8(a), encode_utf8(b), encode_utf8(c));
    }
    lemma_before_is_total(encode_utf8(a), encode_utf8(b));
    encode_utf8_decode_utf8(a);
    encode_utf8_decode_utf8(b);
}

proof fn lemma_skip_step(a: Seq<u8>, b: Seq<u8>, i: int)
    requires
        0 <= i < a.len(),
        i < b.len(),
    ensures
        a[i] == b[i] ==> bytes_before(a.skip(i), b.skip(i)) == bytes_before(
            a.skip(i + 1),
            b.skip(i + 1),
        ),
        a[i] != b[i] ==> bytes_before(a.skip(i), b.skip(i)) == (a[i] < b[i]),
{
    assert(a.skip(i).drop_first() =~= a.skip(i + 1));
    assert(b.skip(i).drop_first() =~= b.skip(i + 1));
    assert(a.skip(i)[0] == a[i]);
    assert(b.skip(i)[0] == b[i]);
}

/// Whether `a` comes before `b`.
pub fn comes_before(a: &str, b: &str) -> (yes: bool)
    ensures
        yes == text_before(a@, b@),
{
    let x = a.as_bytes();
    let y = b.as_bytes();
    let ghost p = x@;
    let ghost q = y@;
    let mut i: usize = 0;
    assert(p.skip(0) =~= p);
    assert(q.skip(0) =~= q);
    while i < x.len() && i < y.len()
        invariant
            x@ == p,
            y@ == q,
            p == encode_utf8(a@),
            q == encode_utf8(b@),
            i <= p.len(),
            i <= q.len(),
            text_before(a@, b@) == bytes_before(p.skip(i as int), q.skip(i as int)),
        decreases p.len() - i,
    {
        proof {
            lemma_skip_step(p, q, i as int);
        }
        if x[i] != y[i] {
            return x[i] < y[i];
        }
        i = i + 1;
    }
    i < y.len()
}

/// Whether the names stand in strictly ascending order.
pub open spec fn ascending<V>(entries: Seq<(Seq<char>, V)>) -> bool {
    forall|i: int, j: int|
        0 <= i < j < entries.len() ==> text_before(#[trigger] entries[i].0, #[trigger] entries[j].0)
}

/// Whether `key` stands at `i`.
pub open spec fn stands_at<V>(entries: Seq<(Seq<char>, V)>, key: Seq<char>, i: int) -> bool {
    0 <= i < entries.len() && entries[i].0 == key
}

/// The value under `key`.
pub open spec fn found<V>(entries: Seq<(Seq<char>, V)>, key: Seq<char>) -> Option<V> {
    if exists|i: int| stands_at(entries, key, i) {
        Some(entries[choose|i: int| stands_at(entries, key, i)].1)
    } else {
        None
    }
}

/// What stands at a position of an ascending list is what is found there.
pub proof fn entries_are_found<V>(entries: Seq<(Seq<char>, V)>, i: int)
    requires
        ascending(entries),
        0 <= i < entries.len(),
    ensures
        found(entries, entries[i].0) == Some(entries[i].1),
{
    let key = entries[i].0;
    assert(stands_at(entries, key, i));
    let j = choose|j: int| stands_at(entries, key, j);
    texts_are_totally_ordered(key, key, key);
    assert(i == j) by {
        if i < j {
            assert(text_before(entries[i].0, entries[j].0));
        } else if j < i {
            assert(text_before(entries[j].0, entries[i].0));
        }
    }
}

/// An ascending list is fixed by what is found in it.
pub proof fn ascending_lists_are_fixed_by_their_content<V>(
    a: Seq<(Seq<char>, V)>,
    b: Seq<(Seq<char>, V)>,
)
    requires
        ascending(a),
        ascending(b),
        forall|key: Seq<char>| #[trigger] found(a, key) == found(b, key),
    ensures
        a == b,
    decreases a.len(),
{
    if a.len() == 0 {
        if b.len() > 0 {
            entries_are_found(b, 0);
            assert(found(a, b[0].0) is None);
        }
        assert(a =~= b);
    } else if b.len() == 0 {
        entries_are_found(a, 0);
        assert(found(b, a[0].0) is None);
    } else {
        let x = a.last();
        let y = b.last();
        let m = a.len() - 1;
        let n = b.len() - 1;
        entries_are_found(a, m);
        entries_are_found(b, n);
        assert(found(b, x.0) == found(a, x.0));
        assert(found(a, y.0) == found(b, y.0));
        let i = choose|i: int| stands_at(b, x.0, i);
        assert(stands_at(b, x.0, i));
        let j = choose|j: int| stands_at(a, y.0, j);
        assert(stands_at(a, y.0, j));
        texts_are_totally_ordered(x.0, y.0, x.0);
        assert(x.0 == y.0) by {
            if i < n && j < m {
                assert(text_before(b[i].0, b[n].0));
                assert(text_before(a[j].0, a[m].0));
            }
        }
        assert(x == y);
        let p = a.drop_last();
        let q = b.drop_last();
        assert forall|key: Seq<char>| #[trigger] found(p, key) == found(q, key) by {
            lemma_found_in_prefix(a, key);
            lemma_found_in_prefix(b, key);
            assert(found(a, key) == found(b, key));
        }
        ascending_lists_are_fixed_by_their_content(p, q);
        assert(a =~= p.push(x));
        assert(b =~= q.push(y));
    }
}

proof fn lemma_found_in_prefix<V>(a: Seq<(Seq<char>, V)>, key: Seq<char>)
    requires
        ascending(a),
        a.len() > 0,
    ensures
        ascending(a.drop_last()),
        found(a.drop_last(), key) == (if key == a.last().0 {
            None
        } else {
            found(a, key)
        }),
{
    let p = a.drop_last();
    assert(ascending(p));
    if found(p, key) is Some {
        let i = choose|i: int| stands_at(p, key, i);
        assert(stands_at(p, key, i));
        assert(p[i] == a[i]);
        entries_are_found(p, i);
        entries_are_found(a, i);
        assert(text_before(a[i].0, a[a.len() - 1].0));
        texts_are_totally_ordered(key, key, key);
    }
    if found(a, key) is Some && key != a.last().0 {
        let i = choose|i: int| stands_at(a, key, i);
        assert(stands_at(a, key, i));
        assert(i < p.len());
        assert(p[i] == a[i]);
        assert(stands_at(p, key, i));
        entries_are_found(p, i);
        entries_are_found(a, i);
    }
}

/// The list with `value` under `key`, in place of what stood there.
pub open spec fn placed<V>(entries: Seq<(Seq<char>, V)>, key: Seq<char>, value: V) -> Seq<
    (Seq<char>, V),
>
    decreases entries.len(),
{
    if entries.len() == 0 {
        seq![(key, value)]
    } else if entries.last().0 == key {
        entries.drop_last().push((key, value))
    } else if text_before(entries.last().0, key) {
        entries.push((key, value))
    } else {
        placed(entries.drop_last(), key, value).push(entries.last())
    }
}

/// The list without what stands under `key`.
pub open spec fn dropped<V>(entries: Seq<(Seq<char>, V)>, key: Seq<char>) -> Seq<(Seq<char>, V)>
    decreases entries.len(),
{
    if entries.len() == 0 {
        entries
    } else if entries.last().0 == key {
        entries.drop_last()
    } else {
        dropped(entries.drop_last(), key).push(entries.last())
    }
}

proof fn lemma_dropped<V>(entries: Seq<(Seq<char>, V)>, key: Seq<char>, at: int)
    requires
        ascending(entries),
        stands_at(entries, key, at),
    ensures
        dropped(entries, key) == entries.remove(at),
    decreases entries.len(),
{
    if entries.last().0 == key {
        entries_are_found(entries, at);
        texts_are_totally_ordered(key, key, key);
        if at < entries.len() - 1 {
            assert(text_before(entries[at].0, entries[entries.len() - 1].0));
        }
        assert(entries.drop_last() =~= entries.remove(at));
    } else {
        let head = entries.drop_last();
        assert(ascending(head));
        assert(stands_at(head, key, at));
        lemma_dropped(head, key, at);
        assert(head.remove(at).push(entries.last()) =~= entries.remove(at));
    }
}

proof fn lemma_dropped_absent<V>(entries: Seq<(Seq<char>, V)>, key: Seq<char>)
    requires
        forall|i: int| !stands_at(entries, key, i),
    ensures
        dropped(entries, key) == entries,
    decreases entries.len(),
{
    if entries.len() > 0 {
        let head = entries.drop_last();
        assert(!stands_at(entries, key, entries.len() - 1));
        assert forall|i: int| !stands_at(head, key, i) by {
            assert(!stands_at(entries, key, i));
        }
        lemma_dropped_absent(head, key);
        assert(head.push(entries.last()) =~= entries);
    }
}

proof fn lemma_placed<V>(entries: Seq<(Seq<char>, V)>, key: Seq<char>, value: V, at: int)
    requires
        ascending(entries),
        0 <= at <= entries.len(),
        forall|i: int| 0 <= i < at ==> text_before(#[trigger] entries[i].0, key),
        forall|i: int| at <= i < entries.len() ==> text_before(key, #[trigger] entries[i].0),
    ensures
        placed(entries, key, value) == entries.insert(at, (key, value)),
    decreases entries.len(),
{
    if entries.len() == 0 {
        assert(seq![(key, value)] =~= entries.insert(at, (key, value)));
    } else {
        let last = entries.len() - 1;
        texts_are_totally_ordered(entries[last].0, key, entries[last].0);
        texts_are_totally_ordered(key, entries[last].0, key);
        if at == entries.len() {
            assert(text_before(entries[last].0, key));
            assert(entries.push((key, value)) =~= entries.insert(at, (key, value)));
        } else {
            assert(text_before(key, entries[last].0));
            let head = entries.drop_last();
            assert(ascending(head));
            lemma_placed(head, key, value, at);
            assert(head.insert(at, (key, value)).push(entries.last()) =~= entries.insert(
                at,
                (key, value),
            ));
        }
    }
}

proof fn lemma_replaced<V>(entries: Seq<(Seq<char>, V)>, key: Seq<char>, value: V, at: int)
    requires
        ascending(entries),
        stands_at(entries, key, at),
    ensures
        placed(entries, key, value) == entries.update(at, (key, value)),
    decreases entries.len(),
{
    let last = entries.len() - 1;
    texts_are_totally_ordered(key, key, key);
    if at == last {
        assert(entries.drop_last().push((key, value)) =~= entries.update(at, (key, value)));
    } else {
        assert(text_before(entries[at].0, entries[last].0));
        texts_are_totally_ordered(entries[last].0, key, entries[last].0);
        let head = entries.drop_last();
        assert(ascending(head));
        assert(stands_at(head, key, at));
        lemma_replaced(head, key, value, at);
        assert(head.update(at, (key, value)).push(entries.last()) =~= entries.update(
            at,
            (key, value),
        ));
    }
}

/// A placed value is found under its key, and nothing else changes.
pub proof fn a_placed_value_is_found<V>(
    entries: Seq<(Seq<char>, V)>,
    key: Seq<char>,
    value: V,
    other: Seq<char>,
)
    requires
        ascending(entries),
    ensures
        ascending(placed(entries, key, value)),
        found(placed(entries, key, value), other) == (if other == key {
            Some(value)
        } else {
            found(entries, other)
        }),
        placed(entries, key, value).len() == entries.len() + (if found(entries, key) is Some {
            0int
        } else {
            1
        }),
{
    let after = placed(entries, key, value);
    if exists|i: int| stands_at(entries, key, i) {
        let at = choose|i: int| stands_at(entries, key, i);
        lemma_replaced(entries, key, value, at);
        assert(ascending(after)) by {
            assert forall|i: int, j: int| 0 <= i < j < after.len() implies text_before(
                #[trigger] after[i].0,
                #[trigger] after[j].0,
            ) by {
                assert(text_before(entries[i].0, entries[j].0));
            }
        }
        entries_are_found(after, at);
        lemma_found_after_removal(entries, at, other);
        lemma_found_after_removal(after, at, other);
        assert(after.remove(at) =~= entries.remove(at));
    } else {
        let at = lemma_gap(entries, key);
        lemma_placed(entries, key, value, at);
        assert forall|i: int, j: int| 0 <= i < j < after.len() implies text_before(
            #[trigger] after[i].0,
            #[trigger] after[j].0,
        ) by {
            let x = if i < at { i } else { i - 1 };
            let y = if j < at { j } else { j - 1 };
            if i != at && j != at {
                assert(after[i] == entries[x] && after[j] == entries[y]);
            } else if i == at {
                assert(after[j] == entries[y]);
            } else {
                assert(after[i] == entries[x]);
            }
        }
        entries_are_found(after, at);
        lemma_found_after_removal(after, at, other);
        assert(after.remove(at) =~= entries);
    }
}

/// Where a key that is not there would have to stand.
proof fn lemma_gap<V>(entries: Seq<(Seq<char>, V)>, key: Seq<char>) -> (at: int)
    requires
        ascending(entries),
        forall|i: int| !stands_at(entries, key, i),
    ensures
        0 <= at <= entries.len(),
        forall|i: int| 0 <= i < at ==> text_before(#[trigger] entries[i].0, key),
        forall|i: int| at <= i < entries.len() ==> text_before(key, #[trigger] entries[i].0),
    decreases entries.len(),
{
    if entries.len() == 0 {
        0
    } else {
        let last = entries.len() - 1;
        let head = entries.drop_last();
        assert(!stands_at(entries, key, last));
        texts_are_totally_ordered(entries[last].0, key, key);
        if text_before(entries[last].0, key) {
            assert forall|i: int| 0 <= i < entries.len() implies text_before(
                #[trigger] entries[i].0,
                key,
            ) by {
                if i < last {
                    assert(text_before(entries[i].0, entries[last].0));
                    texts_are_totally_ordered(entries[i].0, entries[last].0, key);
                }
            }
            entries.len() as int
        } else {
            assert forall|i: int| !stands_at(head, key, i) by {
                assert(!stands_at(entries, key, i));
            }
            assert(ascending(head));
            let at = lemma_gap(head, key);
            assert forall|i: int| 0 <= i < at implies text_before(#[trigger] entries[i].0, key) by {
                assert(head[i] == entries[i]);
            }
            assert forall|i: int| at <= i < entries.len() implies text_before(
                key,
                #[trigger] entries[i].0,
            ) by {
                if i < last {
                    assert(head[i] == entries[i]);
                }
            }
            at
        }
    }
}

/// What has been dropped is not found, and nothing else changes.
pub proof fn a_dropped_value_is_gone<V>(
    entries: Seq<(Seq<char>, V)>,
    key: Seq<char>,
    other: Seq<char>,
)
    requires
        ascending(entries),
    ensures
        ascending(dropped(entries, key)),
        found(dropped(entries, key), other) == (if other == key {
            None
        } else {
            found(entries, other)
        }),
        dropped(entries, key).len() == entries.len() - (if found(entries, key) is Some {
            1int
        } else {
            0
        }),
{
    if exists|i: int| stands_at(entries, key, i) {
        let at = choose|i: int| stands_at(entries, key, i);
        lemma_dropped(entries, key, at);
        lemma_found_after_removal(entries, at, other);
    } else {
        lemma_dropped_absent(entries, key);
    }
}

/// The contents of named values.
pub open spec fn contents<V: View>(entries: Seq<(Seq<char>, V)>) -> Seq<(Seq<char>, V::V)> {
    entries.map_values(|e: (Seq<char>, V)| (e.0, e.1@))
}

/// Placing a value places its content.
pub proof fn contents_are_placed<V: View>(
    entries: Seq<(Seq<char>, V)>,
    key: Seq<char>,
    value: V,
)
    ensures
        contents(placed(entries, key, value)) == placed(contents(entries), key, value@),
    decreases entries.len(),
{
    let all = contents(entries);
    if entries.len() > 0 {
        let head = entries.drop_last();
        contents_are_placed(head, key, value);
        assert(contents(head) =~= all.drop_last());
        assert(all.last().0 == entries.last().0);
    }
    assert(contents(placed(entries, key, value)) =~= placed(all, key, value@));
}

/// Dropping a value drops its content.
pub proof fn contents_are_dropped<V: View>(entries: Seq<(Seq<char>, V)>, key: Seq<char>)
    ensures
        contents(dropped(entries, key)) == dropped(contents(entries), key),
    decreases entries.len(),
{
    let all = contents(entries);
    if entries.len() > 0 {
        let head = entries.drop_last();
        contents_are_dropped(head, key);
        assert(contents(head) =~= all.drop_last());
        assert(all.last().0 == entries.last().0);
    }
    assert(contents(dropped(entries, key)) =~= dropped(all, key));
}

/// Where a value is found, its content is.
pub proof fn contents_are_found<V: View>(entries: Seq<(Seq<char>, V)>, key: Seq<char>)
    requires
        ascending(entries),
    ensures
        ascending(contents(entries)),
        found(contents(entries), key) == (match found(entries, key) {
            Some(v) => Some(v@),
            None => None,
        }),
{
    let all = contents(entries);
    assert(ascending(all)) by {
        assert forall|i: int, j: int| 0 <= i < j < all.len() implies text_before(
            #[trigger] all[i].0,
            #[trigger] all[j].0,
        ) by {
            assert(text_before(entries[i].0, entries[j].0));
        }
    }
    if exists|i: int| stands_at(entries, key, i) {
        let i = choose|i: int| stands_at(entries, key, i);
        entries_are_found(entries, i);
        assert(all[i].0 == key);
        entries_are_found(all, i);
    } else {
        assert forall|i: int| !stands_at(all, key, i) by {
            assert(!stands_at(entries, key, i));
        }
    }
}

/// A map from texts to values.
#[derive(Debug, PartialEq, Eq)]
pub struct TextMap<V> {
    entries: Vec<(String, V)>,
}

impl<V> View for TextMap<V> {
    type V = Seq<(Seq<char>, V)>;

    closed spec fn view(&self) -> Seq<(Seq<char>, V)> {
        Seq::new(self.entries@.len(), |i: int| (self.entries@[i].0@, self.entries@[i].1))
    }
}

impl<V> TextMap<V> {
    /// The names stand in ascending order, each once.
    pub open spec fn well_formed(&self) -> bool {
        ascending(self@)
    }

    pub fn new() -> (map: TextMap<V>)
        ensures
            map.well_formed(),
            map@ == Seq::<(Seq<char>, V)>::empty(),
    {
        let map = TextMap { entries: Vec::new() };
        assert(map@ =~= Seq::<(Seq<char>, V)>::empty());
        map
    }

    pub fn len(&self) -> (n: usize)
        ensures
            n == self@.len(),
    {
        self.entries.len()
    }

    /// The name at a position.
    pub fn key_at(&self, i: usize) -> (key: &str)
        requires
            i < self@.len(),
        ensures
            key@ == self@[i as int].0,
    {
        self.entries[i].0.as_str()
    }

    /// The value at a position.
    pub fn value_at(&self, i: usize) -> (value: &V)
        requires
            i < self@.len(),
        ensures
            *value == self@[i as int].1,
    {
        &self.entries[i].1
    }

    /// Where `key` stands, or would have to stand.
    fn position(&self, key: &str) -> (at: usize)
        requires
            self.well_formed(),
        ensures
            at <= self@.len(),
            forall|i: int| 0 <= i < at ==> text_before(#[trigger] self@[i].0, key@),
            forall|i: int| at <= i < self@.len() ==> !text_before(#[trigger] self@[i].0, key@),
    {
        let mut at: usize = 0;
        while at < self.entries.len() && comes_before(self.entries[at].0.as_str(), key)
            invariant
                at <= self@.len(),
                self@.len() == self.entries@.len(),
                forall|i: int| 0 <= i < at ==> text_before(#[trigger] self@[i].0, key@),
            decreases self@.len() - at,
        {
            assert(self@[at as int].0 == self.entries@[at as int].0@);
            at = at + 1;
        }
        proof {
            assert forall|i: int| at <= i < self@.len() implies !text_before(
                #[trigger] self@[i].0,
                key@,
            ) by {
                assert(self@[at as int].0 == self.entries@[at as int].0@);
                if i > at {
                    assert(text_before(self@[at as int].0, self@[i].0));
                    texts_are_totally_ordered(self@[at as int].0, self@[i].0, key@);
                }
            }
        }
        at
    }

    /// Where `key` stands, if it does.
    pub fn index_of(&self, key: &str) -> (at: Option<usize>)
        requires
            self.well_formed(),
        ensures
            match at {
                Some(at) => at < self@.len() && self@[at as int].0 == key@ && found(self@, key@)
                    == Some(self@[at as int].1),
                None => found(self@, key@) is None,
            },
    {
        let at: usize = self.position(key);
        if at < self.entries.len() && same_text(self.entries[at].0.as_str(), key) {
            proof {
                assert(self@[at as int].0 == self.entries@[at as int].0@);
                entries_are_found(self@, at as int);
            }
            return Some(at);
        }
        proof {
            if found(self@, key@) is Some {
                let i = choose|i: int| stands_at(self@, key@, i);
                assert(stands_at(self@, key@, i));
                texts_are_totally_ordered(key@, key@, key@);
                assert(i >= at);
                assert(self@[at as int].0 == self.entries@[at as int].0@);
                if i > at {
                    assert(text_before(self@[at as int].0, self@[i].0));
                }
            }
        }
        None
    }

    /// The value under `key`.
    pub fn get(&self, key: &str) -> (value: Option<&V>)
        requires
            self.well_formed(),
        ensures
            match value {
                Some(v) => found(self@, key@) == Some(*v),
                None => found(self@, key@) is None,
            },
    {
        match self.index_of(key) {
            Some(at) => Some(&self.entries[at].1),
            None => None,
        }
    }

    /// The value at a position, to be changed in place.
    pub fn value_at_mut(&mut self, i: usize) -> (value: &mut V)
        requires
            i < old(self)@.len(),
        ensures
            *value == old(self)@[i as int].1,
            final(self)@ == old(self)@.update(i as int, (old(self)@[i as int].0, *final(value))),
    {
        let value = &mut self.entries[i].1;
        value
    }

    /// Takes out what stands under `key`.
    pub fn remove(&mut self, key: &str) -> (value: Option<V>)
        requires
            old(self).well_formed(),
        ensures
            final(self).well_formed(),
            value == found(old(self)@, key@),
            final(self)@ == dropped(old(self)@, key@),
            value is None ==> final(self)@ == old(self)@,
    {
        let ghost before = self@;
        proof {
            a_dropped_value_is_gone(before, key@, key@);
        }
        match self.index_of(key) {
            None => {
                proof {
                    lemma_dropped_absent(before, key@);
                }
                None
            },
            Some(at) => {
                let (_, value) = self.entries.remove(at);
                proof {
                    assert(stands_at(before, key@, at as int));
                    assert(self@ =~= before.remove(at as int));
                    lemma_dropped(before, key@, at as int);
                }
                Some(value)
            },
        }
    }

    /// Puts `value` in under `key`, in place of what stood there.
    pub fn insert(&mut self, key: String, value: V)
        requires
            old(self).well_formed(),
        ensures
            final(self).well_formed(),
            final(self)@ == placed(old(self)@, key@, value),
    {
        let ghost before = self@;
        proof {
            a_placed_value_is_found(before, key@, value, key@);
        }
        let known = self.index_of(key.as_str());
        let at: usize = self.position(key.as_str());
        match known {
            Some(i) => {
                self.entries.set(i, (key, value));
                proof {
                    assert(stands_at(before, key@, i as int));
                    lemma_replaced(before, key@, value, i as int);
                    assert(self@ =~= before.update(i as int, (key@, value)));
                }
            },
            None => {
                proof {
                    assert forall|i: int| at <= i < before.len() implies text_before(
                        key@,
                        #[trigger] before[i].0,
                    ) by {
                        texts_are_totally_ordered(before[i].0, key@, key@);
                        assert(!stands_at(before, key@, i));
                    }
                    lemma_placed(before, key@, value, at as int);
                }
                self.entries.insert(at, (key, value));
                assert(self@ =~= before.insert(at as int, (key@, value)));
            },
        }
    }

    /// Takes everything out.
    pub fn clear(&mut self)
        ensures
            final(self).well_formed(),
            final(self)@ == Seq::<(Seq<char>, V)>::empty(),
    {
        self.entries.clear();
        assert(self@ =~= Seq::<(Seq<char>, V)>::empty());
    }
}

impl Clone for TextMap<String> {
    fn clone(&self) -> (copy: Self)
        ensures
            contents(copy@) == contents(self@),
            self.well_formed() ==> copy.well_formed(),
    {
        let mut entries: Vec<(String, String)> = Vec::new();
        let mut i: usize = 0;
        while i < self.entries.len()
            invariant
                i <= self.entries@.len(),
                entries@.len() == i,
                forall|j: int|
                    0 <= j < i ==> (#[trigger] entries@[j]).0@ == self.entries@[j].0@
                        && entries@[j].1@ == self.entries@[j].1@,
            decreases self.entries@.len() - i,
        {
            entries.push((self.entries[i].0.clone(), self.entries[i].1.clone()));
            i = i + 1;
        }
        let copy = TextMap { entries };
        assert forall|j: int| 0 <= j < self@.len() implies (#[trigger] copy@[j]).0 == self@[j].0
            && copy@[j].1@ == self@[j].1@ by {
            assert(copy@[j].0 == entries@[j].0@);
        }
        assert(contents(copy@) =~= contents(self@));
        copy
    }
}

proof fn lemma_found_after_removal<V>(a: Seq<(Seq<char>, V)>, at: int, key: Seq<char>)
    requires
        ascending(a),
        0 <= at < a.len(),
    ensures
        ascending(a.remove(at)),
        found(a.remove(at), key) == (if key == a[at].0 {
            None
        } else {
            found(a, key)
        }),
{
    let b = a.remove(at);
    assert forall|i: int, j: int| 0 <= i < j < b.len() implies text_before(
        #[trigger] b[i].0,
        #[trigger] b[j].0,
    ) by {
        let x = if i < at { i } else { i + 1 };
        let y = if j < at { j } else { j + 1 };
        assert(b[i] == a[x] && b[j] == a[y]);
    }
    if found(b, key) is Some {
        let i = choose|i: int| stands_at(b, key, i);
        assert(stands_at(b, key, i));
        let x = if i < at { i } else { i + 1 };
        assert(b[i] == a[x]);
        entries_are_found(b, i);
        entries_are_found(a, x);
        texts_are_totally_ordered(key, key, key);
        if x < at {
            assert(text_before(a[x].0, a[at].0));
        } else {
            assert(text_before(a[at].0, a[x].0));
        }
    }
    if found(a, key) is Some && key != a[at].0 {
        let x = choose|i: int| stands_at(a, key, i);
        assert(stands_at(a, key, x));
        let i = if x < at { x } else { x - 1 };
        assert(b[i] == a[x]);
        assert(stands_at(b, key, i));
        entries_are_found(b, i);
        entries_are_found(a, x);
    }
}

} // verus!
