//! A map that keeps its entries in the order of their keys.

use vstd::prelude::*;
use vstd::utf8::*;

verus! {

/// How one key stands to another.
pub enum Position {
    Before,
    Same,
    After,
}

/// Keys with a strict total order.
pub trait Key: DeepView + Sized {
    spec fn less(a: Self::V, b: Self::V) -> bool;

    proof fn less_irreflexive(a: Self::V)
        ensures
            !Self::less(a, a),
    ;

    proof fn less_transitive(a: Self::V, b: Self::V, c: Self::V)
        requires
            Self::less(a, b),
            Self::less(b, c),
        ensures
            Self::less(a, c),
    ;

    proof fn less_total(a: Self::V, b: Self::V)
        ensures
            Self::less(a, b) || a == b || Self::less(b, a),
    ;

    fn place(&self, other: &Self) -> (r: Position)
        ensures
            match r {
                Position::Before => Self::less(self.deep_view(), other.deep_view()),
                Position::Same => self.deep_view() == other.deep_view(),
                Position::After => Self::less(other.deep_view(), self.deep_view()),
            },
    ;
}

impl Key for i64 {
    open spec fn less(a: i64, b: i64) -> bool {
        a < b
    }

    proof fn less_irreflexive(a: i64) {
    }

    proof fn less_transitive(a: i64, b: i64, c: i64) {
    }

    proof fn less_total(a: i64, b: i64) {
    }

    fn place(&self, other: &i64) -> (r: Position) {
        if *self < *other {
            Position::Before
        } else if *self == *other {
            Position::Same
        } else {
            Position::After
        }
    }
}

/// `a` and `b` agree before position `k`; there `a` ends, or has the smaller byte.
pub open spec fn parts_below(a: Seq<u8>, b: Seq<u8>, k: int) -> bool {
    &&& 0 <= k <= a.len()
    &&& k < b.len()
    &&& forall|i: int| 0 <= i < k ==> a[i] == #[trigger] b[i]
    &&& k == a.len() || a[k] < b[k]
}

/// The order of `str`: that of the UTF-8 bytes, the first difference decides.
pub open spec fn text_less(a: Seq<char>, b: Seq<char>) -> bool {
    exists|k: int| parts_below(encode_utf8(a), encode_utf8(b), k)
}

impl Key for String {
    open spec fn less(a: Seq<char>, b: Seq<char>) -> bool {
        text_less(a, b)
    }

    proof fn less_irreflexive(a: Seq<char>) {
    }

    proof fn less_transitive(a: Seq<char>, b: Seq<char>, c: Seq<char>) {
        let i = choose|k: int| parts_below(encode_utf8(a), encode_utf8(b), k);
        let j = choose|k: int| parts_below(encode_utf8(b), encode_utf8(c), k);
        let k = if i < j {
            i
        } else {
            j
        };
        assert(parts_below(encode_utf8(a), encode_utf8(c), k));
    }

    proof fn less_total(a: Seq<char>, b: Seq<char>) {
        let x = encode_utf8(a);
        let y = encode_utf8(b);
        encode_utf8_decode_utf8(a);
        encode_utf8_decode_utf8(b);
        if x == y {
            assert(a == b);
        } else {
            lemma_first_difference(x, y, 0);
        }
    }

    fn place(&self, other: &String) -> (r: Position) {
        let x = self.as_str().as_bytes();
        let y = other.as_str().as_bytes();
        proof {
            encode_utf8_decode_utf8(self@);
            encode_utf8_decode_utf8(other@);
        }
        let mut i: usize = 0;
        while i < x.len() && i < y.len() && x[i] == y[i]
            invariant
                i <= x@.len(),
                i <= y@.len(),
                forall|k: int| 0 <= k < i ==> x@[k] == y@[k],
            decreases x@.len() - i,
        {
            i = i + 1;
        }
        if i == x.len() && i == y.len() {
            assert(x@ =~= y@);
            Position::Same
        } else if i < y.len() && (i == x.len() || x[i] < y[i]) {
            assert(parts_below(x@, y@, i as int));
            Position::Before
        } else {
            assert(parts_below(y@, x@, i as int));
            Position::After
        }
    }
}

proof fn lemma_first_difference(x: Seq<u8>, y: Seq<u8>, from: int)
    requires
        x != y,
        0 <= from <= x.len(),
        from <= y.len(),
        forall|i: int| 0 <= i < from ==> x[i] == y[i],
    ensures
        exists|k: int| parts_below(x, y, k) || parts_below(y, x, k),
    decreases x.len() - from,
{
    if from == x.len() && from == y.len() {
        assert(x =~= y);
    } else if from < x.len() && from < y.len() && x[from] == y[from] {
        lemma_first_difference(x, y, from + 1);
    } else {
        assert(parts_below(x, y, from) || parts_below(y, x, from));
    }
}

pub open spec fn triple_less(a: (Seq<char>, Seq<char>, Seq<char>), b: (Seq<char>, Seq<char>, Seq<char>)) -> bool {
    ||| text_less(a.0, b.0)
    ||| a.0 == b.0 && text_less(a.1, b.1)
    ||| a.0 == b.0 && a.1 == b.1 && text_less(a.2, b.2)
}

impl Key for (String, String, String) {
    open spec fn less(a: (Seq<char>, Seq<char>, Seq<char>), b: (Seq<char>, Seq<char>, Seq<char>)) -> bool {
        triple_less(a, b)
    }

    proof fn less_irreflexive(a: (Seq<char>, Seq<char>, Seq<char>)) {
        String::less_irreflexive(a.0);
        String::less_irreflexive(a.1);
        String::less_irreflexive(a.2);
    }

    proof fn less_transitive(a: (Seq<char>, Seq<char>, Seq<char>), b: (Seq<char>, Seq<char>, Seq<char>), c: (Seq<char>, Seq<char>, Seq<char>)) {
        if text_less(a.0, b.0) && text_less(b.0, c.0) {
            String::less_transitive(a.0, b.0, c.0);
        }
        if text_less(a.1, b.1) && text_less(b.1, c.1) {
            String::less_transitive(a.1, b.1, c.1);
        }
        if text_less(a.2, b.2) && text_less(b.2, c.2) {
            String::less_transitive(a.2, b.2, c.2);
        }
    }

    proof fn less_total(a: (Seq<char>, Seq<char>, Seq<char>), b: (Seq<char>, Seq<char>, Seq<char>)) {
        String::less_total(a.0, b.0);
        String::less_total(a.1, b.1);
        String::less_total(a.2, b.2);
    }

    fn place(&self, other: &(String, String, String)) -> (r: Position) {
        match self.0.place(&other.0) {
            Position::Same => match self.1.place(&other.1) {
                Position::Same => self.2.place(&other.2),
                place => place,
            },
            place => place,
        }
    }
}

/// The value that belongs to a key.
pub open spec fn lookup<A, B>(entries: Seq<(A, B)>, key: A) -> Option<B> {
    if exists|i: int| 0 <= i < entries.len() && (#[trigger] entries[i]).0 == key {
        let i = choose|i: int| 0 <= i < entries.len() && (#[trigger] entries[i]).0 == key;
        Some(entries[i].1)
    } else {
        None
    }
}

pub open spec fn has_key<A, B>(entries: Seq<(A, B)>, key: A) -> bool {
    exists|i: int| 0 <= i < entries.len() && (#[trigger] entries[i]).0 == key
}

/// Entries with the keys in strictly rising order.
pub open spec fn sorted<K: Key, B>(entries: Seq<(K::V, B)>) -> bool {
    forall|i: int, j: int|
        0 <= i < j < entries.len() ==> K::less((#[trigger] entries[i]).0, (#[trigger] entries[j]).0)
}

/// The entries with `key` set to `value`: those with smaller keys, the new one, and those with
/// greater keys.
pub open spec fn inserted<K: Key, B>(entries: Seq<(K::V, B)>, key: K::V, value: B) -> Seq<(K::V, B)> {
    entries.filter(|entry: (K::V, B)| K::less(entry.0, key)) + seq![(key, value)] + entries.filter(
        |entry: (K::V, B)| K::less(key, entry.0),
    )
}

/// The entries without the one for `key`.
pub open spec fn without<A, B>(entries: Seq<(A, B)>, key: A) -> Seq<(A, B)> {
    entries.filter(|entry: (A, B)| entry.0 != key)
}

/// The entries whose value passes a test.
pub open spec fn kept<A, B>(entries: Seq<(A, B)>, passes: spec_fn(B) -> bool) -> Seq<(A, B)> {
    entries.filter(|entry: (A, B)| passes(entry.1))
}

/// Each entry that is kept was there before, with a position that rises with its own.
proof fn lemma_filter_positions<T>(s: Seq<T>, p: spec_fn(T) -> bool) -> (at: Seq<int>)
    ensures
        at.len() == s.filter(p).len(),
        forall|i: int|
            0 <= i < at.len() ==> 0 <= #[trigger] at[i] < s.len() && s[at[i]] == s.filter(p)[i],
        forall|i: int, j: int| 0 <= i < j < at.len() ==> #[trigger] at[i] < #[trigger] at[j],
    decreases s.len(),
{
    reveal(Seq::filter);
    if s.len() == 0 {
        Seq::empty()
    } else {
        let front = lemma_filter_positions(s.drop_last(), p);
        if p(s.last()) {
            front.push(s.len() - 1)
        } else {
            front
        }
    }
}

/// Keeping some entries keeps their order.
pub proof fn lemma_kept_sorted<K: Key, B>(entries: Seq<(K::V, B)>, passes: spec_fn(B) -> bool)
    requires
        sorted::<K, B>(entries),
    ensures
        sorted::<K, B>(kept(entries, passes)),
{
    let at = lemma_filter_positions(entries, |entry: (K::V, B)| passes(entry.1));
    let rest = kept(entries, passes);
    assert forall|i: int, j: int| 0 <= i < j < rest.len() implies K::less((#[trigger] rest[i]).0, (#[trigger] rest[j]).0) by {
        assert(at[i] < at[j]);
        assert(K::less(entries[at[i]].0, entries[at[j]].0));
    }
}

/// Removing a key that is not there changes nothing.
pub proof fn lemma_without_absent<A, B>(entries: Seq<(A, B)>, key: A)
    requires
        lookup(entries, key) is None,
    ensures
        without(entries, key) == entries,
{
    lemma_filter_take(entries, |entry: (A, B)| entry.0 != key, entries.len() as int);
    assert(entries.take(entries.len() as int) =~= entries);
}

proof fn lemma_filter_take<T>(s: Seq<T>, p: spec_fn(T) -> bool, n: int)
    requires
        0 <= n <= s.len(),
        forall|i: int| 0 <= i < n ==> p(#[trigger] s[i]),
        forall|i: int| n <= i < s.len() ==> !p(#[trigger] s[i]),
    ensures
        s.filter(p) == s.take(n),
    decreases s.len(),
{
    reveal(Seq::filter);
    if s.len() > 0 {
        let m = if n < s.len() {
            n
        } else {
            n - 1
        };
        lemma_filter_take(s.drop_last(), p, m);
        if n == s.len() {
            assert(s.drop_last().take(m).push(s.last()) =~= s.take(n));
        } else {
            assert(s.drop_last().take(m) =~= s.take(n));
        }
    } else {
        assert(s.take(n) =~= s);
    }
}

proof fn lemma_filter_skip<T>(s: Seq<T>, p: spec_fn(T) -> bool, n: int)
    requires
        0 <= n <= s.len(),
        forall|i: int| 0 <= i < n ==> !p(#[trigger] s[i]),
        forall|i: int| n <= i < s.len() ==> p(#[trigger] s[i]),
    ensures
        s.filter(p) == s.skip(n),
    decreases s.len(),
{
    reveal(Seq::filter);
    if s.len() > n {
        lemma_filter_skip(s.drop_last(), p, n);
        assert(s.drop_last().skip(n).push(s.last()) =~= s.skip(n));
    } else if s.len() > 0 {
        lemma_filter_skip(s.drop_last(), p, n - 1);
        assert(s.drop_last().skip(n - 1) =~= s.skip(n));
    } else {
        assert(s.skip(n) =~= s);
    }
}

pub proof fn lemma_lookup_at<K: Key, B>(entries: Seq<(K::V, B)>, i: int)
    requires
        sorted::<K, B>(entries),
        0 <= i < entries.len(),
    ensures
        lookup(entries, entries[i].0) == Some(entries[i].1),
{
    let key = entries[i].0;
    let j = choose|j: int| 0 <= j < entries.len() && (#[trigger] entries[j]).0 == key;
    K::less_irreflexive(key);
    assert(i == j) by {
        if i < j {
            assert(K::less(entries[i].0, entries[j].0));
        } else if j < i {
            assert(K::less(entries[j].0, entries[i].0));
        }
    }
}

proof fn lemma_without_at<A, B>(entries: Seq<(A, B)>, key: A, n: int, m: int)
    requires
        0 <= n <= m <= entries.len(),
        forall|i: int| 0 <= i < n ==> (#[trigger] entries[i]).0 != key,
        forall|i: int| n <= i < m ==> (#[trigger] entries[i]).0 == key,
        forall|i: int| m <= i < entries.len() ==> (#[trigger] entries[i]).0 != key,
    ensures
        without(entries, key) == entries.take(n) + entries.skip(m),
    decreases entries.len(),
{
    reveal(Seq::filter);
    let p = |entry: (A, B)| entry.0 != key;
    if entries.len() == 0 {
        assert(entries.take(n) + entries.skip(m) =~= entries);
    } else {
        let front = entries.drop_last();
        let last = entries.last();
        assert(entries.filter(p) == if p(last) { front.filter(p).push(last) } else { front.filter(p) });
        if m < entries.len() {
            lemma_without_at(front, key, n, m);
            assert((front.take(n) + front.skip(m)).push(last) =~= entries.take(n) + entries.skip(m));
        } else if n < m {
            lemma_without_at(front, key, n, m - 1);
            assert(front.take(n) + front.skip(m - 1) =~= entries.take(n) + entries.skip(m));
        } else {
            lemma_without_at(front, key, n - 1, m - 1);
            assert((front.take(n - 1) + front.skip(m - 1)).push(last) =~= entries.take(n) + entries.skip(m));
        }
    }
}

proof fn lemma_inserted_at<K: Key, B>(entries: Seq<(K::V, B)>, key: K::V, value: B, n: int, m: int)
    requires
        0 <= n <= m <= entries.len(),
        forall|i: int| 0 <= i < n ==> K::less((#[trigger] entries[i]).0, key),
        forall|i: int| n <= i < m ==> (#[trigger] entries[i]).0 == key,
        forall|i: int| m <= i < entries.len() ==> K::less(key, (#[trigger] entries[i]).0),
    ensures
        inserted::<K, B>(entries, key, value) == entries.take(n) + seq![(key, value)] + entries.skip(m),
        without(entries, key) == entries.take(n) + entries.skip(m),
{
    K::less_irreflexive(key);
    assert forall|i: int| m <= i < entries.len() implies !K::less((#[trigger] entries[i]).0, key) && entries[i].0 != key by {
        if K::less(entries[i].0, key) {
            K::less_transitive(key, entries[i].0, key);
        }
    }
    assert forall|i: int| 0 <= i < n implies !K::less(key, (#[trigger] entries[i]).0) && entries[i].0 != key by {
        if K::less(key, entries[i].0) {
            K::less_transitive(key, entries[i].0, key);
        }
    }
    assert(entries.filter(|entry: (K::V, B)| K::less(entry.0, key)) == entries.take(n)) by {
        lemma_filter_take(entries, |entry: (K::V, B)| K::less(entry.0, key), n);
    }
    assert(entries.filter(|entry: (K::V, B)| K::less(key, entry.0)) == entries.skip(m)) by {
        lemma_filter_skip(entries, |entry: (K::V, B)| K::less(key, entry.0), m);
    }
    lemma_without_at(entries, key, n, m);
}

/// Where a key stands among sorted entries: the entries before `n` are smaller, those from `m` on
/// greater, and those between have the key.
proof fn lemma_place<K: Key, B>(entries: Seq<(K::V, B)>, key: K::V) -> (r: (int, int))
    requires
        sorted::<K, B>(entries),
    ensures
        0 <= r.0 <= r.1 <= entries.len(),
        r.1 <= r.0 + 1,
        forall|i: int| 0 <= i < r.0 ==> K::less((#[trigger] entries[i]).0, key),
        forall|i: int| r.0 <= i < r.1 ==> (#[trigger] entries[i]).0 == key,
        forall|i: int| r.1 <= i < entries.len() ==> K::less(key, (#[trigger] entries[i]).0),
    decreases entries.len(),
{
    if entries.len() == 0 {
        (0, 0)
    } else {
        let (n, m) = lemma_place::<K, B>(entries.drop_last(), key);
        let last = entries.last().0;
        K::less_total(last, key);
        K::less_irreflexive(key);
        assert forall|i: int| 0 <= i < entries.len() - 1 implies entries.drop_last()[i] == #[trigger] entries[i] by {}
        if K::less(last, key) {
            assert forall|i: int| 0 <= i < entries.len() implies K::less((#[trigger] entries[i]).0, key) by {
                if i < entries.len() - 1 {
                    assert(K::less(entries[i].0, entries[entries.len() - 1].0));
                    K::less_transitive(entries[i].0, last, key);
                }
            }
            (entries.len() as int, entries.len() as int)
        } else if last == key {
            assert forall|i: int| 0 <= i < entries.len() - 1 implies K::less((#[trigger] entries[i]).0, key) by {
                assert(K::less(entries[i].0, entries[entries.len() - 1].0));
            }
            (entries.len() - 1, entries.len() as int)
        } else {
            (n, m)
        }
    }
}

/// Setting a key keeps the order, gives that key its value, and leaves the others as they were.
pub proof fn lemma_inserted<K: Key, B>(entries: Seq<(K::V, B)>, key: K::V, value: B)
    requires
        sorted::<K, B>(entries),
    ensures
        sorted::<K, B>(inserted::<K, B>(entries, key, value)),
        lookup(inserted::<K, B>(entries, key, value), key) == Some(value),
        forall|other: K::V|
            other != key ==> #[trigger] lookup(inserted::<K, B>(entries, key, value), other) == lookup(
                entries,
                other,
            ),
{
    let (n, m) = lemma_place::<K, B>(entries, key);
    lemma_inserted_at::<K, B>(entries, key, value, n, m);
    let all = inserted::<K, B>(entries, key, value);
    assert(all.len() == n + 1 + (entries.len() - m));
    assert forall|i: int, j: int| 0 <= i < j < all.len() implies K::less((#[trigger] all[i]).0, (#[trigger] all[j]).0) by {
        if i < n && j > n {
            K::less_transitive(all[i].0, key, all[j].0);
        }
        if i < n && j < n {
            assert(K::less(entries[i].0, entries[j].0));
        }
        if i > n {
            assert(K::less(entries[i - n - 1 + m].0, entries[j - n - 1 + m].0));
        }
    }
    assert(all[n] == (key, value));
    lemma_lookup_at::<K, B>(all, n);
    assert forall|other: K::V| other != key implies #[trigger] lookup(all, other) == lookup(entries, other) by {
        if has_key(all, other) {
            let i = choose|i: int| 0 <= i < all.len() && (#[trigger] all[i]).0 == other;
            lemma_lookup_at::<K, B>(all, i);
            let j = if i < n {
                i
            } else {
                i - n - 1 + m
            };
            assert(entries[j] == all[i]);
            lemma_lookup_at::<K, B>(entries, j);
        } else if has_key(entries, other) {
            let j = choose|j: int| 0 <= j < entries.len() && (#[trigger] entries[j]).0 == other;
            let i = if j < n {
                j
            } else {
                j - m + n + 1
            };
            assert(entries[j] == all[i]);
        }
    }
}

/// Removing a key keeps the order, and leaves exactly the other keys with their values.
pub proof fn lemma_without<K: Key, B>(entries: Seq<(K::V, B)>, key: K::V)
    requires
        sorted::<K, B>(entries),
    ensures
        sorted::<K, B>(without(entries, key)),
        lookup(without(entries, key), key) is None,
        forall|other: K::V|
            other != key ==> #[trigger] lookup(without(entries, key), other) == lookup(entries, other),
{
    let (n, m) = lemma_place::<K, B>(entries, key);
    let rest = without(entries, key);
    K::less_irreflexive(key);
    lemma_without_at(entries, key, n, m);
    assert forall|i: int, j: int| 0 <= i < j < rest.len() implies K::less((#[trigger] rest[i]).0, (#[trigger] rest[j]).0) by {
        let x = if i < n {
            i
        } else {
            i - n + m
        };
        let y = if j < n {
            j
        } else {
            j - n + m
        };
        assert(rest[i] == entries[x] && rest[j] == entries[y]);
        assert(K::less(entries[x].0, entries[y].0));
    }
    assert forall|i: int| 0 <= i < rest.len() implies (#[trigger] rest[i]).0 != key by {
        let x = if i < n {
            i
        } else {
            i - n + m
        };
        assert(rest[i] == entries[x]);
    }
    assert forall|other: K::V| other != key implies #[trigger] lookup(rest, other) == lookup(entries, other) by {
        if has_key(rest, other) {
            let i = choose|i: int| 0 <= i < rest.len() && (#[trigger] rest[i]).0 == other;
            lemma_lookup_at::<K, B>(rest, i);
            let j = if i < n {
                i
            } else {
                i - n + m
            };
            assert(entries[j] == rest[i]);
            lemma_lookup_at::<K, B>(entries, j);
        } else if has_key(entries, other) {
            let j = choose|j: int| 0 <= j < entries.len() && (#[trigger] entries[j]).0 == other;
            let i = if j < n {
                j
            } else {
                j - m + n
            };
            assert(entries[j] == rest[i]);
        }
    }
}

/// A map whose entries stand in the order of their keys.
#[verifier::reject_recursive_types(K)]
#[verifier::reject_recursive_types(T)]
pub struct OrderedMap<K: Key, T: DeepView> {
    entries: Vec<(K, T)>,
}

impl<K: Key, T: DeepView> DeepView for OrderedMap<K, T> {
    type V = Seq<(K::V, T::V)>;

    closed spec fn deep_view(&self) -> Seq<(K::V, T::V)> {
        self.entries.deep_view()
    }
}

fn find_entry<K: Key, T: DeepView>(entries: &Vec<(K, T)>, key: &K) -> (r: (usize, bool))
    requires
        sorted::<K, T::V>(entries.deep_view()),
    ensures
        r.0 <= entries.deep_view().len(),
        r.1 ==> r.0 < entries.deep_view().len() && entries.deep_view()[r.0 as int].0 == key.deep_view(),
        forall|i: int| 0 <= i < r.0 ==> K::less((#[trigger] entries.deep_view()[i]).0, key.deep_view()),
        forall|i: int|
            r.0 + (if r.1 {
                1int
            } else {
                0int
            }) <= i < entries.deep_view().len() ==> K::less(
                key.deep_view(),
                (#[trigger] entries.deep_view()[i]).0,
            ),
{
    let ghost view = entries.deep_view();
    let mut low: usize = 0;
    let mut high: usize = entries.len();
    while low < high
        invariant
            low <= high <= view.len(),
            view == entries.deep_view(),
            sorted::<K, T::V>(view),
            forall|i: int| 0 <= i < low ==> K::less((#[trigger] view[i]).0, key.deep_view()),
            forall|i: int|
                high <= i < view.len() ==> K::less(key.deep_view(), (#[trigger] view[i]).0),
        decreases high - low,
    {
        let middle: usize = low + (high - low) / 2;
        let place = entries[middle].0.place(key);
        assert(view[middle as int].0 == entries@[middle as int].0.deep_view());
        match place {
            Position::Same => {
                assert forall|i: int| 0 <= i < middle implies K::less((#[trigger] view[i]).0, key.deep_view()) by {
                    assert(K::less(view[i].0, view[middle as int].0));
                }
                assert forall|i: int| middle + 1 <= i < view.len() implies K::less(key.deep_view(), (#[trigger] view[i]).0) by {
                    assert(K::less(view[middle as int].0, view[i].0));
                }
                return (middle, true);
            },
            Position::Before => {
                assert forall|i: int| 0 <= i < middle + 1 implies K::less((#[trigger] view[i]).0, key.deep_view()) by {
                    if i < middle {
                        assert(K::less(view[i].0, view[middle as int].0));
                        K::less_transitive(view[i].0, view[middle as int].0, key.deep_view());
                    }
                }
                low = middle + 1;
            },
            Position::After => {
                assert forall|i: int| middle <= i < view.len() implies K::less(key.deep_view(), (#[trigger] view[i]).0) by {
                    if middle < i {
                        assert(K::less(view[middle as int].0, view[i].0));
                        K::less_transitive(key.deep_view(), view[middle as int].0, view[i].0);
                    }
                }
                high = middle;
            },
        }
    }
    (low, false)
}

proof fn lemma_absent<K: Key, B>(view: Seq<(K::V, B)>, key: K::V, n: int)
    requires
        0 <= n <= view.len(),
        forall|i: int| 0 <= i < n ==> K::less((#[trigger] view[i]).0, key),
        forall|i: int| n <= i < view.len() ==> K::less(key, (#[trigger] view[i]).0),
    ensures
        !has_key(view, key),
        lookup(view, key) is None,
{
    K::less_irreflexive(key);
}

impl<K: Key, T: DeepView> OrderedMap<K, T> {
    #[verifier::type_invariant]
    spec fn rises(self) -> bool {
        sorted::<K, T::V>(self.entries.deep_view())
    }

    pub fn new() -> (r: Self)
        ensures
            r.deep_view() == Seq::<(K::V, T::V)>::empty(),
    {
        let entries: Vec<(K, T)> = Vec::new();
        assert(entries.deep_view() =~= Seq::<(K::V, T::V)>::empty());
        OrderedMap { entries }
    }

    /// The number of entries; their keys rise strictly.
    pub fn len(&self) -> (n: usize)
        ensures
            n == self.deep_view().len(),
            sorted::<K, T::V>(self.deep_view()),
    {
        proof {
            use_type_invariant(self);
        }
        self.entries.len()
    }

    /// The entry at a position of the key order.
    pub fn at(&self, i: usize) -> (entry: &(K, T))
        requires
            i < self.deep_view().len(),
        ensures
            entry.deep_view() == self.deep_view()[i as int],
    {
        &self.entries[i]
    }

    /// The value that belongs to a key.
    pub fn get(&self, key: &K) -> (r: Option<&T>)
        ensures
            match r {
                Some(value) => lookup(self.deep_view(), key.deep_view()) == Some(value.deep_view()),
                None => lookup(self.deep_view(), key.deep_view()) is None,
            },
    {
        proof {
            use_type_invariant(self);
        }
        let (i, found) = find_entry(&self.entries, key);
        if found {
            proof {
                lemma_lookup_at::<K, T::V>(self.deep_view(), i as int);
            }
            Some(&self.entries[i].1)
        } else {
            proof {
                lemma_absent::<K, T::V>(self.deep_view(), key.deep_view(), i as int);
            }
            None
        }
    }

    /// Sets the value that belongs to a key.
    pub fn insert(&mut self, key: K, value: T)
        ensures
            final(self).deep_view() == inserted::<K, T::V>(
                old(self).deep_view(),
                key.deep_view(),
                value.deep_view(),
            ),
    {
        proof {
            use_type_invariant(&*self);
        }
        let mut entries: Vec<(K, T)> = Vec::new();
        assert(entries.deep_view() =~= Seq::<(K::V, T::V)>::empty());
        std::mem::swap(&mut entries, &mut self.entries);
        let ghost view = entries.deep_view();
        let (i, found) = find_entry(&entries, &key);
        proof {
            lemma_inserted::<K, T::V>(view, key.deep_view(), value.deep_view());
            lemma_inserted_at::<K, T::V>(
                view,
                key.deep_view(),
                value.deep_view(),
                i as int,
                if found {
                    i + 1
                } else {
                    i as int
                },
            );
        }
        let ghost entry = (key.deep_view(), value.deep_view());
        if found {
            entries.remove(i);
            assert(entries.deep_view() =~= view.take(i as int) + view.skip(i + 1));
        }
        entries.insert(i, (key, value));
        assert(entries.deep_view() =~= inserted::<K, T::V>(view, entry.0, entry.1));
        self.entries = entries;
    }

    /// Removes a key, and gives the value that belonged to it.
    pub fn remove(&mut self, key: &K) -> (r: Option<T>)
        ensures
            final(self).deep_view() == without(old(self).deep_view(), key.deep_view()),
            r.deep_view() == lookup(old(self).deep_view(), key.deep_view()),
    {
        proof {
            use_type_invariant(&*self);
        }
        let mut entries: Vec<(K, T)> = Vec::new();
        assert(entries.deep_view() =~= Seq::<(K::V, T::V)>::empty());
        std::mem::swap(&mut entries, &mut self.entries);
        let ghost view = entries.deep_view();
        let (i, found) = find_entry(&entries, key);
        proof {
            lemma_without::<K, T::V>(view, key.deep_view());
            K::less_irreflexive(key.deep_view());
            lemma_without_at(
                view,
                key.deep_view(),
                i as int,
                if found {
                    i + 1
                } else {
                    i as int
                },
            );
        }
        let removed = if found {
            proof {
                lemma_lookup_at::<K, T::V>(view, i as int);
            }
            let entry = entries.remove(i);
            assert(entries.deep_view() =~= view.take(i as int) + view.skip(i + 1));
            Some(entry.1)
        } else {
            proof {
                lemma_absent::<K, T::V>(view, key.deep_view(), i as int);
            }
            assert(entries.deep_view() =~= view.take(i as int) + view.skip(i as int));
            None
        };
        self.entries = entries;
        removed
    }

    /// Keeps the entries whose value passes a test, which `passes` states on views.
    pub fn retain<F: Fn(&T) -> bool>(&mut self, test: F, Ghost(passes): Ghost<spec_fn(T::V) -> bool>)
        requires
            forall|value: &T| #[trigger] test.requires((value,)),
            forall|value: &T, r: bool|
                #[trigger] test.ensures((value,), r) ==> r == passes(value.deep_view()),
        ensures
            final(self).deep_view() == kept(old(self).deep_view(), passes),
    {
        proof {
            use_type_invariant(&*self);
        }
        let mut entries: Vec<(K, T)> = Vec::new();
        assert(entries.deep_view() =~= Seq::<(K::V, T::V)>::empty());
        std::mem::swap(&mut entries, &mut self.entries);
        let ghost view = entries.deep_view();
        let ghost p = |entry: (K::V, T::V)| passes(entry.1);
        let ghost mut done: int = 0;
        let mut i: usize = 0;
        proof {
            lemma_kept_sorted::<K, T::V>(view, passes);
            reveal(Seq::filter);
        }
        assert(view.take(0).filter(p) =~= view.take(0));
        while i < entries.len()
            invariant
                0 <= i <= entries.deep_view().len(),
                0 <= done <= view.len(),
                entries.deep_view() == view.take(done).filter(p) + view.skip(done),
                i == view.take(done).filter(p).len(),
                p == (|entry: (K::V, T::V)| passes(entry.1)),
                forall|value: &T| #[trigger] test.requires((value,)),
                forall|value: &T, r: bool|
                    #[trigger] test.ensures((value,), r) ==> r == passes(value.deep_view()),
            decreases entries.deep_view().len() - i,
        {
            let ghost before = entries.deep_view();
            let keep = test(&entries[i].1);
            assert(before[i as int] == view[done]);
            assert(before[i as int].1 == entries@[i as int].1.deep_view());
            assert(view.take(done + 1).drop_last() =~= view.take(done));
            assert(view.take(done + 1).filter(p) == if keep {
                view.take(done).filter(p).push(view[done])
            } else {
                view.take(done).filter(p)
            }) by {
                reveal(Seq::filter);
            }
            if keep {
                assert(before =~= view.take(done + 1).filter(p) + view.skip(done + 1));
                i = i + 1;
            } else {
                entries.remove(i);
                assert(entries.deep_view() =~= before.remove(i as int));
                assert(before.remove(i as int) =~= view.take(done).filter(p) + view.skip(done + 1));
            }
            proof {
                done = done + 1;
            }
        }
        assert(view.skip(done).len() == 0);
        assert(view.take(done) =~= view);
        assert(entries.deep_view() =~= view.filter(p));
        self.entries = entries;
    }

    /// Drops every entry.
    pub fn clear(&mut self)
        ensures
            final(self).deep_view() == Seq::<(K::V, T::V)>::empty(),
    {
        let entries: Vec<(K, T)> = Vec::new();
        assert(entries.deep_view() =~= Seq::<(K::V, T::V)>::empty());
        self.entries = entries;
    }
}

} // verus!
