//! Mathematical model of `Value` and the operations on it.

use vstd::prelude::*;
use vstd::seq_lib::seq_to_set_is_finite;

verus! {

/// The mathematical picture of a `Value`.
///
/// A number is modelled by the bit pattern of its IEEE-754 binary64 encoding,
/// a time stamp by its seconds since the Unix epoch and the nanoseconds within that second,
/// and a mapping by the list of its entries in insertion order.
pub enum ValueModel {
    Bool(bool),
    Integer(i64),
    Number(u64),
    String(Seq<char>),
    Bytes(Seq<u8>),
    Null,
    Sequence(Seq<ValueModel>),
    Mapping(Seq<(Seq<char>, ValueModel)>),
    TimeStamp(i64, u32),
}

/// The entries of a mapping, in insertion order.
pub type Entries = Seq<(Seq<char>, ValueModel)>;

/// Both values are of the same kind (both integers, both sequences, ...).
pub open spec fn same_kind(a: ValueModel, b: ValueModel) -> bool {
    match (a, b) {
        (ValueModel::Bool(_), ValueModel::Bool(_)) => true,
        (ValueModel::Integer(_), ValueModel::Integer(_)) => true,
        (ValueModel::Number(_), ValueModel::Number(_)) => true,
        (ValueModel::String(_), ValueModel::String(_)) => true,
        (ValueModel::Bytes(_), ValueModel::Bytes(_)) => true,
        (ValueModel::Null, ValueModel::Null) => true,
        (ValueModel::Sequence(_), ValueModel::Sequence(_)) => true,
        (ValueModel::Mapping(_), ValueModel::Mapping(_)) => true,
        (ValueModel::TimeStamp(_, _), ValueModel::TimeStamp(_, _)) => true,
        _ => false,
    }
}

// ---------------------------------------------------------------------------
// equality

/// The bit pattern encodes a NaN (all exponent bits set, mantissa not zero).
pub open spec fn float_is_nan(b: u64) -> bool {
    (b >> 52u64) & 0x7ffu64 == 0x7ffu64 && b & 0xf_ffff_ffff_ffffu64 != 0
}

/// IEEE-754 equality of two encoded numbers: no NaN equals anything, and both zeros are equal.
pub open spec fn float_eq(a: u64, b: u64) -> bool {
    !float_is_nan(a) && !float_is_nan(b) && (a == b || (a & 0x7fff_ffff_ffff_ffffu64 == 0
        && b & 0x7fff_ffff_ffff_ffffu64 == 0))
}

/// Equality of values: numbers compare as IEEE-754 numbers, sequences element by element,
/// and mappings hold the same number of entries, each of which the other mapping holds
/// under the same key with an equal value (the order of entries does not matter).
pub open spec fn value_eq(a: ValueModel, b: ValueModel) -> bool
    decreases a,
{
    match a {
        ValueModel::Bool(x) => b == ValueModel::Bool(x),
        ValueModel::Integer(x) => b == ValueModel::Integer(x),
        ValueModel::Number(x) => match b {
            ValueModel::Number(y) => float_eq(x, y),
            _ => false,
        },
        ValueModel::String(x) => b == ValueModel::String(x),
        ValueModel::Bytes(x) => b == ValueModel::Bytes(x),
        ValueModel::Null => b == ValueModel::Null,
        ValueModel::Sequence(xs) => match b {
            ValueModel::Sequence(ys) => xs.len() == ys.len() && seqs_eq(xs, ys),
            _ => false,
        },
        ValueModel::Mapping(m) => match b {
            ValueModel::Mapping(n) => m.len() == n.len() && entries_in(m, n),
            _ => false,
        },
        ValueModel::TimeStamp(s, ns) => b == ValueModel::TimeStamp(s, ns),
    }
}

/// Element-wise equality of the first `xs.len()` elements.
pub open spec fn seqs_eq(xs: Seq<ValueModel>, ys: Seq<ValueModel>) -> bool
    decreases xs,
{
    if xs.len() == 0 {
        true
    } else {
        ys.len() == xs.len() && seqs_eq(xs.drop_last(), ys.drop_last()) && value_eq(
            xs.last(),
            ys.last(),
        )
    }
}

/// Every entry of `m` is found in `n` under its key with an equal value.
pub open spec fn entries_in(m: Entries, n: Entries) -> bool
    decreases m,
{
    if m.len() == 0 {
        true
    } else {
        entries_in(m.drop_last(), n) && match map_get(n, m.last().0) {
            Some(w) => value_eq(m.last().1, w),
            None => false,
        }
    }
}

pub open spec fn entry_found_equal(n: Entries, e: (Seq<char>, ValueModel)) -> bool {
    match map_get(n, e.0) {
        Some(w) => value_eq(e.1, w),
        None => false,
    }
}

pub proof fn lemma_seqs_eq(xs: Seq<ValueModel>, ys: Seq<ValueModel>)
    requires
        xs.len() == ys.len(),
    ensures
        seqs_eq(xs, ys) <==> forall|j: int| 0 <= j < xs.len() ==> value_eq(#[trigger] xs[j], ys[j]),
    decreases xs.len(),
{
    if xs.len() > 0 {
        lemma_seqs_eq(xs.drop_last(), ys.drop_last());
        assert forall|j: int| 0 <= j < xs.len() - 1 implies xs.drop_last()[j] == xs[j]
            && ys.drop_last()[j] == ys[j] by {}
    }
}

pub proof fn lemma_entries_in(m: Entries, n: Entries)
    ensures
        entries_in(m, n) <==> forall|j: int| 0 <= j < m.len() ==> entry_found_equal(n, #[trigger] m[j]),
    decreases m.len(),
{
    if m.len() > 0 {
        lemma_entries_in(m.drop_last(), n);
        assert forall|j: int| 0 <= j < m.len() - 1 implies m.drop_last()[j] == m[j] by {}
    }
}

// ---------------------------------------------------------------------------
// mappings

/// Index of the first entry whose key is `k`, or `-1` when there is none.
pub open spec fn key_index<V>(m: Seq<(Seq<char>, V)>, k: Seq<char>) -> int
    decreases m.len(),
{
    if m.len() == 0 {
        -1
    } else {
        let j = key_index(m.drop_last(), k);
        if j >= 0 {
            j
        } else if m.last().0 == k {
            m.len() - 1
        } else {
            -1
        }
    }
}

pub open spec fn map_get<V>(m: Seq<(Seq<char>, V)>, k: Seq<char>) -> Option<V> {
    let i = key_index(m, k);
    if i >= 0 {
        Some(m[i].1)
    } else {
        None
    }
}

/// Replaces the value of an existing key in place, or appends a new entry.
pub open spec fn map_insert<V>(m: Seq<(Seq<char>, V)>, k: Seq<char>, v: V) -> Seq<(Seq<char>, V)> {
    let i = key_index(m, k);
    if i >= 0 {
        m.update(i, (k, v))
    } else {
        m.push((k, v))
    }
}

/// Removes a key by moving the last entry into its place.
pub open spec fn map_remove<V>(m: Seq<(Seq<char>, V)>, k: Seq<char>) -> Seq<(Seq<char>, V)> {
    let i = key_index(m, k);
    if i >= 0 {
        m.update(i, m.last()).drop_last()
    } else {
        m
    }
}

/// No key occurs twice.
pub open spec fn keys_distinct<V>(m: Seq<(Seq<char>, V)>) -> bool {
    forall|i: int, j: int| 0 <= i < m.len() && 0 <= j < m.len() && i != j ==> m[i].0 != m[j].0
}

pub open spec fn keys_of<V>(m: Seq<(Seq<char>, V)>) -> Seq<Seq<char>> {
    m.map_values(|e: (Seq<char>, V)| e.0)
}

pub proof fn lemma_key_index<V>(m: Seq<(Seq<char>, V)>, k: Seq<char>)
    ensures
        -1 <= key_index(m, k) < m.len(),
        key_index(m, k) >= 0 ==> m[key_index(m, k)].0 == k,
        key_index(m, k) >= 0 ==> forall|j: int| 0 <= j < key_index(m, k) ==> m[j].0 != k,
        key_index(m, k) == -1 ==> forall|j: int| 0 <= j < m.len() ==> m[j].0 != k,
    decreases m.len(),
{
    if m.len() > 0 {
        lemma_key_index(m.drop_last(), k);
        assert forall|j: int| 0 <= j < m.len() - 1 implies m.drop_last()[j] == #[trigger] m[j] by {}
    }
}

/// Characterizes `key_index` by the first position that holds the key.
pub proof fn lemma_key_index_at<V>(m: Seq<(Seq<char>, V)>, k: Seq<char>, i: int)
    requires
        0 <= i < m.len(),
        m[i].0 == k,
        forall|j: int| 0 <= j < i ==> m[j].0 != k,
    ensures
        key_index(m, k) == i,
{
    lemma_key_index(m, k);
}

pub proof fn lemma_key_index_absent<V>(m: Seq<(Seq<char>, V)>, k: Seq<char>)
    requires
        forall|j: int| 0 <= j < m.len() ==> m[j].0 != k,
    ensures
        key_index(m, k) == -1,
{
    lemma_key_index(m, k);
}

// ---------------------------------------------------------------------------
// paths

/// Splits `p` at every `.`; an empty text gives one empty token.
pub open spec fn split_path(p: Seq<char>) -> Seq<Seq<char>>
    decreases p.len(),
{
    if p.len() == 0 {
        seq![Seq::<char>::empty()]
    } else {
        let rest = split_path(p.drop_last());
        if p.last() == '.' {
            rest.push(Seq::<char>::empty())
        } else {
            rest.update(rest.len() - 1, rest.last().push(p.last()))
        }
    }
}

pub proof fn lemma_split_path_nonempty(p: Seq<char>)
    ensures
        split_path(p).len() >= 1,
    decreases p.len(),
{
    if p.len() > 0 {
        lemma_split_path_nonempty(p.drop_last());
    }
}

pub open spec fn is_digit(c: char) -> bool {
    '0' <= c <= '9'
}

pub open spec fn all_digits(s: Seq<char>) -> bool {
    forall|i: int| 0 <= i < s.len() ==> is_digit(#[trigger] s[i])
}

pub open spec fn digit_value(c: char) -> int {
    (c as int) - ('0' as int)
}

/// The number that a text of decimal digits denotes.
pub open spec fn digits_value(s: Seq<char>) -> int
    decreases s.len(),
{
    if s.len() == 0 {
        0
    } else {
        digits_value(s.drop_last()) * 10 + digit_value(s.last())
    }
}

pub proof fn lemma_digits_value_nonneg(s: Seq<char>)
    requires
        all_digits(s),
    ensures
        digits_value(s) >= 0,
    decreases s.len(),
{
    if s.len() > 0 {
        lemma_digits_value_nonneg(s.drop_last());
    }
}

/// The index that a path token denotes: decimal digits without a sign and
/// without a leading zero (but `0` itself), within the range of `usize`.
pub open spec fn parse_index(s: Seq<char>) -> Option<int> {
    if s.len() == 0 || s[0] == '+' || (s[0] == '0' && s.len() != 1) {
        None
    } else if all_digits(s) && digits_value(s) <= usize::MAX {
        Some(digits_value(s))
    } else {
        None
    }
}

/// The value that a token sequence leads to, starting at `v`.
pub open spec fn path_lookup(v: ValueModel, toks: Seq<Seq<char>>) -> Option<ValueModel>
    decreases toks.len(),
{
    if toks.len() == 0 {
        Some(v)
    } else {
        let next = match v {
            ValueModel::Mapping(m) => map_get(m, toks[0]),
            ValueModel::Sequence(xs) => match parse_index(toks[0]) {
                Some(i) => if i < xs.len() {
                    Some(xs[i])
                } else {
                    None
                },
                None => None,
            },
            _ => None,
        };
        match next {
            Some(n) => path_lookup(n, toks.drop_first()),
            None => None,
        }
    }
}

/// The value that a path text leads to; the empty path denotes `v` itself.
pub open spec fn value_at_path(v: ValueModel, p: Seq<char>) -> Option<ValueModel> {
    if p.len() == 0 {
        Some(v)
    } else {
        path_lookup(v, split_path(p))
    }
}

pub open spec fn empty_mapping() -> ValueModel {
    ValueModel::Mapping(Seq::empty())
}

/// Inserting `new` under `key` followed by the tokens `rest`, starting at `v`:
/// the resulting value and the value that was replaced.
///
/// A node on the way that is not a mapping is replaced by a new mapping that holds only the
/// rest of the path, so every missing level is created.
pub open spec fn insert_at(v: ValueModel, key: Seq<char>, rest: Seq<Seq<char>>, new: ValueModel) -> (
    ValueModel,
    Option<ValueModel>,
)
    decreases rest.len(), 1int,
{
    if rest.len() == 0 {
        match v {
            ValueModel::Mapping(m) => (ValueModel::Mapping(map_insert(m, key, new)), map_get(m, key)),
            _ => (ValueModel::Mapping(seq![(key, new)]), None),
        }
    } else {
        match v {
            ValueModel::Mapping(m) => {
                let child = match map_get(m, key) {
                    Some(c) => c,
                    None => empty_mapping(),
                };
                let (c2, old) = insert_at(child, rest[0], rest.drop_first(), new);
                (ValueModel::Mapping(map_insert(m, key, c2)), old)
            },
            _ => {
                let (c2, _) = insert_at(empty_mapping(), rest[0], rest.drop_first(), new);
                (ValueModel::Mapping(seq![(key, c2)]), None)
            },
        }
    }
}

/// The outcome of inserting `new` at the path text `p`; the empty path changes nothing.
pub open spec fn insert_by_path(v: ValueModel, p: Seq<char>, new: ValueModel) -> (
    ValueModel,
    Option<ValueModel>,
) {
    if p.len() == 0 {
        (v, None)
    } else {
        let toks = split_path(p);
        insert_at(v, toks[0], toks.drop_first(), new)
    }
}

pub proof fn lemma_map_insert_get<V>(m: Seq<(Seq<char>, V)>, k: Seq<char>, x: V, k2: Seq<char>)
    ensures
        map_get(map_insert(m, k, x), k2) == if k2 == k {
            Some(x)
        } else {
            map_get(m, k2)
        },
{
    let m2 = map_insert(m, k, x);
    lemma_key_index(m, k);
    lemma_key_index(m, k2);
    lemma_key_index(m2, k2);
    let i = key_index(m, k);
    if i >= 0 {
        assert forall|j: int| 0 <= j < m.len() && j != i implies m2[j] == m[j] by {}
        if k2 == k {
            lemma_key_index_at(m2, k2, i);
        } else {
            let i2 = key_index(m, k2);
            if i2 >= 0 {
                lemma_key_index_at(m2, k2, i2);
            } else {
                lemma_key_index_absent(m2, k2);
            }
        }
    } else {
        assert forall|j: int| 0 <= j < m.len() implies m2[j] == m[j] by {}
        if k2 == k {
            lemma_key_index_at(m2, k2, m.len() as int);
        } else {
            let i2 = key_index(m, k2);
            if i2 >= 0 {
                lemma_key_index_at(m2, k2, i2);
            } else {
                lemma_key_index_absent(m2, k2);
            }
        }
    }
}

/// Inserting along `key` and `rest` makes that path lead to the inserted value, and a value
/// that it hands back is what the path led to before.
pub proof fn lemma_insert_at_lookup(v: ValueModel, key: Seq<char>, rest: Seq<Seq<char>>, new: ValueModel)
    ensures
        path_lookup(insert_at(v, key, rest, new).0, seq![key] + rest) == Some(new),
        insert_at(v, key, rest, new).1 is Some ==> insert_at(v, key, rest, new).1 == path_lookup(
            v,
            seq![key] + rest,
        ),
    decreases rest.len(),
{
    let toks = seq![key] + rest;
    assert(toks[0] == key);
    assert(toks.drop_first() =~= rest);
    let r = insert_at(v, key, rest, new);
    if rest.len() == 0 {
        match v {
            ValueModel::Mapping(m) => {
                lemma_map_insert_get(m, key, new, key);
                if let Some(n) = map_get(m, key) {
                    assert(path_lookup(n, rest) == Some(n));
                }
            },
            _ => {
                lemma_key_index_at(seq![(key, new)], key, 0);
            },
        }
        assert(path_lookup(new, rest) == Some(new));
    } else {
        assert(seq![rest[0]] + rest.drop_first() =~= rest);
        match v {
            ValueModel::Mapping(m) => {
                let child = match map_get(m, key) {
                    Some(c) => c,
                    None => empty_mapping(),
                };
                if map_get(m, key) is None {
                    lemma_lookup_empty(rest);
                }
                lemma_insert_at_lookup(child, rest[0], rest.drop_first(), new);
                let (c2, old) = insert_at(child, rest[0], rest.drop_first(), new);
                lemma_map_insert_get(m, key, c2, key);
                assert(seq![rest[0]] + rest.drop_first() =~= rest);
            },
            _ => {
                lemma_insert_at_lookup(empty_mapping(), rest[0], rest.drop_first(), new);
                let (c2, _) = insert_at(empty_mapping(), rest[0], rest.drop_first(), new);
                lemma_key_index_at(seq![(key, c2)], key, 0);
            },
        }
    }
}

/// No non-empty path leads anywhere from an empty mapping.
pub proof fn lemma_lookup_empty(toks: Seq<Seq<char>>)
    requires
        toks.len() > 0,
    ensures
        path_lookup(empty_mapping(), toks) is None,
{
    lemma_key_index_absent(Seq::<(Seq<char>, ValueModel)>::empty(), toks[0]);
}

/// After inserting a value at a non-empty path, the path leads to that value, and a value
/// that the insertion returns is the one the path led to before.
pub proof fn law_insert_by_path_then_lookup(v: ValueModel, p: Seq<char>, new: ValueModel)
    requires
        p.len() > 0,
    ensures
        value_at_path(insert_by_path(v, p, new).0, p) == Some(new),
        insert_by_path(v, p, new).1 is Some ==> insert_by_path(v, p, new).1 == value_at_path(v, p),
{
    let toks = split_path(p);
    lemma_split_path_nonempty(p);
    assert(seq![toks[0]] + toks.drop_first() =~= toks);
    lemma_insert_at_lookup(v, toks[0], toks.drop_first(), new);
}


/// Splitting `a.b` gives the tokens of `a` followed by those of `b`.
pub proof fn lemma_split_path_join(a: Seq<char>, b: Seq<char>)
    ensures
        split_path(a + seq!['.'] + b) == split_path(a) + split_path(b),
    decreases b.len(),
{
    let c = a + seq!['.'] + b;
    if b.len() == 0 {
        assert(c.drop_last() =~= a);
        assert(split_path(a).push(Seq::<char>::empty()) =~= split_path(a) + split_path(b));
    } else {
        let b0 = b.drop_last();
        lemma_split_path_join(a, b0);
        assert(c.drop_last() =~= a + seq!['.'] + b0);
        assert(c.last() == b.last());
        let x = split_path(a);
        let y = split_path(b0);
        lemma_split_path_nonempty(b0);
        if b.last() == '.' {
            assert((x + y).push(Seq::<char>::empty()) =~= x + y.push(Seq::<char>::empty()));
        } else {
            let xy = x + y;
            assert(xy.update(xy.len() - 1, xy.last().push(b.last())) =~= x + y.update(
                y.len() - 1,
                y.last().push(b.last()),
            ));
        }
    }
}

/// Looking up `s` followed by `t` is looking up `s`, then `t` from where it led.
pub proof fn lemma_path_lookup_join(v: ValueModel, s: Seq<Seq<char>>, t: Seq<Seq<char>>)
    ensures
        path_lookup(v, s + t) == match path_lookup(v, s) {
            Some(u) => path_lookup(u, t),
            None => None,
        },
    decreases s.len(),
{
    if s.len() == 0 {
        assert(s + t =~= t);
    } else {
        assert((s + t)[0] == s[0]);
        assert((s + t).drop_first() =~= s.drop_first() + t);
        let next = match v {
            ValueModel::Mapping(m) => map_get(m, s[0]),
            ValueModel::Sequence(xs) => match parse_index(s[0]) {
                Some(i) => if i < xs.len() {
                    Some(xs[i])
                } else {
                    None
                },
                None => None,
            },
            _ => None,
        };
        if let Some(n) = next {
            lemma_path_lookup_join(n, s.drop_first(), t);
        }
    }
}

/// A lookup by `a.b` is a lookup by `a` and then by `b` (both not empty); the empty path
/// leads to the value itself, and a value that is neither a mapping nor a sequence leads
/// nowhere by a non-empty path.
pub proof fn law_path_lookup_composes(v: ValueModel, a: Seq<char>, b: Seq<char>)
    requires
        a.len() > 0,
        b.len() > 0,
    ensures
        value_at_path(v, Seq::empty()) == Some(v),
        value_at_path(v, a + seq!['.'] + b) == match value_at_path(v, a) {
            Some(t) => value_at_path(t, b),
            None => None,
        },
        !(v is Mapping) && !(v is Sequence) ==> value_at_path(v, a) is None,
{
    lemma_split_path_join(a, b);
    lemma_path_lookup_join(v, split_path(a), split_path(b));
    lemma_split_path_nonempty(a);
}

/// Every node in which a key of the path is looked up, the last one included, is a mapping,
/// or lies below a key that is absent.
pub open spec fn lookups_in_mappings(v: ValueModel, key: Seq<char>, rest: Seq<Seq<char>>) -> bool
    decreases rest.len(),
{
    match v {
        ValueModel::Mapping(m) => if rest.len() == 0 {
            true
        } else {
            match map_get(m, key) {
                Some(c) => lookups_in_mappings(c, rest[0], rest.drop_first()),
                None => true,
            }
        },
        _ => false,
    }
}

proof fn lemma_insert_into_empty_old(key: Seq<char>, rest: Seq<Seq<char>>, new: ValueModel)
    ensures
        insert_at(empty_mapping(), key, rest, new).1 is None,
    decreases rest.len(),
{
    lemma_key_index_absent(Seq::<(Seq<char>, ValueModel)>::empty(), key);
    if rest.len() > 0 {
        lemma_insert_into_empty_old(rest[0], rest.drop_first(), new);
    }
}

proof fn lemma_insert_at_old(v: ValueModel, key: Seq<char>, rest: Seq<Seq<char>>, new: ValueModel)
    requires
        lookups_in_mappings(v, key, rest),
    ensures
        insert_at(v, key, rest, new).1 == path_lookup(v, seq![key] + rest),
    decreases rest.len(),
{
    let toks = seq![key] + rest;
    assert(toks[0] == key);
    assert(toks.drop_first() =~= rest);
    let m = v->Mapping_0;
    if rest.len() == 0 {
        if let Some(n) = map_get(m, key) {
            assert(path_lookup(n, rest) == Some(n));
        }
    } else {
        assert(seq![rest[0]] + rest.drop_first() =~= rest);
        match map_get(m, key) {
            Some(c) => {
                lemma_insert_at_old(c, rest[0], rest.drop_first(), new);
            },
            None => {
                lemma_insert_into_empty_old(rest[0], rest.drop_first(), new);
            },
        }
    }
}

/// Where every node in which a key of a non-empty path is looked up is a mapping (or lies
/// below an absent key), inserting at the path returns exactly what the path led to
/// before: `None` exactly when it led nowhere.
pub proof fn law_insert_by_path_returns_old(v: ValueModel, p: Seq<char>, new: ValueModel)
    requires
        p.len() > 0,
        lookups_in_mappings(v, split_path(p)[0], split_path(p).drop_first()),
    ensures
        insert_by_path(v, p, new).1 == value_at_path(v, p),
        insert_by_path(v, p, new).1 is None <==> value_at_path(v, p) is None,
{
    let toks = split_path(p);
    lemma_split_path_nonempty(p);
    assert(seq![toks[0]] + toks.drop_first() =~= toks);
    lemma_insert_at_old(v, toks[0], toks.drop_first(), new);
}


/// The value stored under the last key of a path, reached through mappings only: each key
/// but the last is looked up in a mapping, and the last one too; anything else gives `None`.
pub open spec fn stored_at(v: ValueModel, key: Seq<char>, rest: Seq<Seq<char>>) -> Option<ValueModel>
    decreases rest.len(),
{
    match v {
        ValueModel::Mapping(m) => if rest.len() == 0 {
            map_get(m, key)
        } else {
            match map_get(m, key) {
                Some(c) => stored_at(c, rest[0], rest.drop_first()),
                None => None,
            }
        },
        _ => None,
    }
}

proof fn lemma_insert_at_stored(v: ValueModel, key: Seq<char>, rest: Seq<Seq<char>>, new: ValueModel)
    ensures
        insert_at(v, key, rest, new).1 == stored_at(v, key, rest),
    decreases rest.len(),
{
    if rest.len() > 0 {
        match v {
            ValueModel::Mapping(m) => match map_get(m, key) {
                Some(c) => lemma_insert_at_stored(c, rest[0], rest.drop_first(), new),
                None => lemma_insert_into_empty_old(rest[0], rest.drop_first(), new),
            },
            _ => {},
        }
    }
}

/// Inserting at a non-empty path returns `Some(old)` exactly when the path, followed through
/// mappings only, reaches a mapping that holds `old` under the last key; otherwise `None`.
/// The empty path changes nothing and returns `None`.
pub proof fn law_insert_by_path_returns_stored(v: ValueModel, p: Seq<char>, new: ValueModel)
    ensures
        p.len() == 0 ==> insert_by_path(v, p, new) == (v, None::<ValueModel>),
        p.len() > 0 ==> insert_by_path(v, p, new).1 == stored_at(
            v,
            split_path(p)[0],
            split_path(p).drop_first(),
        ),
{
    if p.len() > 0 {
        let toks = split_path(p);
        lemma_insert_at_stored(v, toks[0], toks.drop_first(), new);
    }
}

/// A value read from a mapping right after it was stored under a key is that value,
/// and the other keys keep theirs.
pub proof fn law_map_insert_then_get<V>(m: Seq<(Seq<char>, V)>, k: Seq<char>, x: V, k2: Seq<char>)
    ensures
        map_get(map_insert(m, k, x), k) == Some(x),
        k2 != k ==> map_get(map_insert(m, k, x), k2) == map_get(m, k2),
{
    lemma_map_insert_get(m, k, x, k);
    lemma_map_insert_get(m, k, x, k2);
}

/// With distinct keys, a key is gone right after it was removed, and the other keys keep
/// their values.
pub proof fn law_map_remove_then_get<V>(m: Seq<(Seq<char>, V)>, k: Seq<char>, k2: Seq<char>)
    requires
        keys_distinct(m),
    ensures
        map_get(map_remove(m, k), k) is None,
        k2 != k ==> map_get(map_remove(m, k), k2) == map_get(m, k2),
{
    lemma_key_index(m, k);
    lemma_key_index(m, k2);
    let i = key_index(m, k);
    if i >= 0 {
        let n = m.len();
        let r = map_remove(m, k);
        assert(r =~= m.update(i, m.last()).drop_last());
        assert forall|j: int| 0 <= j < r.len() implies r[j].0 != k by {
            if j == i {
                assert(r[j] == m[n - 1]);
            } else {
                assert(r[j] == m[j]);
            }
        }
        lemma_key_index_absent(r, k);
        if k2 != k {
            let j2 = key_index(m, k2);
            if j2 >= 0 {
                let p = if j2 == n - 1 { i } else { j2 };
                assert(r[p] == m[j2]);
                assert forall|q: int| 0 <= q < p implies r[q].0 != k2 by {
                    if q == i {
                        assert(r[q] == m[n - 1]);
                    } else {
                        assert(r[q] == m[q]);
                    }
                }
                lemma_key_index_at(r, k2, p);
            } else {
                assert forall|q: int| 0 <= q < r.len() implies r[q].0 != k2 by {
                    if q == i {
                        assert(r[q] == m[n - 1]);
                    } else {
                        assert(r[q] == m[q]);
                    }
                }
                lemma_key_index_absent(r, k2);
            }
        }
    }
}

// ---------------------------------------------------------------------------
// well-formed values

/// No number is a NaN and no mapping holds a key twice, at any depth.
pub open spec fn well_formed(v: ValueModel) -> bool
    decreases v,
{
    match v {
        ValueModel::Number(x) => !float_is_nan(x),
        ValueModel::Sequence(xs) => all_well_formed(xs),
        ValueModel::Mapping(m) => keys_distinct(m) && entries_well_formed(m),
        _ => true,
    }
}

pub open spec fn all_well_formed(xs: Seq<ValueModel>) -> bool
    decreases xs,
{
    if xs.len() == 0 {
        true
    } else {
        all_well_formed(xs.drop_last()) && well_formed(xs.last())
    }
}

pub open spec fn entries_well_formed(m: Entries) -> bool
    decreases m,
{
    if m.len() == 0 {
        true
    } else {
        entries_well_formed(m.drop_last()) && well_formed(m.last().1)
    }
}

pub proof fn lemma_all_well_formed(xs: Seq<ValueModel>)
    ensures
        all_well_formed(xs) <==> forall|j: int| 0 <= j < xs.len() ==> well_formed(#[trigger] xs[j]),
    decreases xs.len(),
{
    if xs.len() > 0 {
        lemma_all_well_formed(xs.drop_last());
        assert forall|j: int| 0 <= j < xs.len() - 1 implies xs.drop_last()[j] == xs[j] by {}
    }
}

pub proof fn lemma_entries_well_formed(m: Entries)
    ensures
        entries_well_formed(m) <==> forall|j: int| 0 <= j < m.len() ==> well_formed(#[trigger] m[j].1),
    decreases m.len(),
{
    if m.len() > 0 {
        lemma_entries_well_formed(m.drop_last());
        assert forall|j: int| 0 <= j < m.len() - 1 implies m.drop_last()[j] == m[j] by {}
    }
}

/// Every well-formed value equals itself (a NaN does not, and neither does a mapping that
/// holds a key twice with different values).
pub proof fn law_value_eq_reflexive(v: ValueModel)
    requires
        well_formed(v),
    ensures
        value_eq(v, v),
    decreases v,
{
    match v {
        ValueModel::Sequence(xs) => {
            lemma_all_well_formed(xs);
            lemma_seqs_eq(xs, xs);
            assert forall|j: int| 0 <= j < xs.len() implies value_eq(#[trigger] xs[j], xs[j]) by {
                assert(decreases_to!(v => xs));
                law_value_eq_reflexive(xs[j]);
            }
        },
        ValueModel::Mapping(m) => {
            lemma_entries_well_formed(m);
            lemma_entries_in(m, m);
            assert forall|j: int| 0 <= j < m.len() implies entry_found_equal(m, #[trigger] m[j]) by {
                assert forall|q: int| 0 <= q < j implies m[q].0 != m[j].0 by {}
                lemma_key_index_at(m, m[j].0, j);
                assert(decreases_to!(v => m));
                assert(decreases_to!(m => m[j]));
                assert(decreases_to!(m[j] => m[j].1));
                law_value_eq_reflexive(m[j].1);
            }
        },
        _ => {},
    }
}



/// No mapping holds a key twice, at any depth.
pub open spec fn unique_keys(v: ValueModel) -> bool
    decreases v,
{
    match v {
        ValueModel::Sequence(xs) => all_unique_keys(xs),
        ValueModel::Mapping(m) => keys_distinct(m) && entries_unique_keys(m),
        _ => true,
    }
}

pub open spec fn all_unique_keys(xs: Seq<ValueModel>) -> bool
    decreases xs,
{
    if xs.len() == 0 {
        true
    } else {
        all_unique_keys(xs.drop_last()) && unique_keys(xs.last())
    }
}

pub open spec fn entries_unique_keys(m: Entries) -> bool
    decreases m,
{
    if m.len() == 0 {
        true
    } else {
        entries_unique_keys(m.drop_last()) && unique_keys(m.last().1)
    }
}

pub proof fn lemma_all_unique_keys(xs: Seq<ValueModel>)
    ensures
        all_unique_keys(xs) <==> forall|j: int| 0 <= j < xs.len() ==> unique_keys(#[trigger] xs[j]),
    decreases xs.len(),
{
    if xs.len() > 0 {
        lemma_all_unique_keys(xs.drop_last());
        assert forall|j: int| 0 <= j < xs.len() - 1 implies xs.drop_last()[j] == xs[j] by {}
    }
}

pub proof fn lemma_entries_unique_keys(m: Entries)
    ensures
        entries_unique_keys(m) <==> forall|j: int| 0 <= j < m.len() ==> unique_keys(#[trigger] m[j].1),
    decreases m.len(),
{
    if m.len() > 0 {
        lemma_entries_unique_keys(m.drop_last());
        assert forall|j: int| 0 <= j < m.len() - 1 implies m.drop_last()[j] == m[j] by {}
    }
}

/// With distinct keys on both sides and as many entries, a mapping all of whose keys are keys
/// of another one holds all the keys of that other one.
pub proof fn lemma_same_keys<V, W>(m: Seq<(Seq<char>, V)>, n: Seq<(Seq<char>, W)>)
    requires
        keys_distinct(m),
        keys_distinct(n),
        m.len() == n.len(),
        forall|i: int| 0 <= i < m.len() ==> key_index(n, #[trigger] m[i].0) >= 0,
    ensures
        forall|j: int| 0 <= j < n.len() ==> key_index(m, #[trigger] n[j].0) >= 0,
{
    let km = keys_of(m);
    let kn = keys_of(n);
    assert(km.no_duplicates()) by {
        assert forall|i: int, j: int| 0 <= i < km.len() && 0 <= j < km.len() && i != j implies km[i]
            != km[j] by {
            assert(km[i] == m[i].0 && km[j] == m[j].0);
        }
    }
    assert(kn.no_duplicates()) by {
        assert forall|i: int, j: int| 0 <= i < kn.len() && 0 <= j < kn.len() && i != j implies kn[i]
            != kn[j] by {
            assert(kn[i] == n[i].0 && kn[j] == n[j].0);
        }
    }
    km.unique_seq_to_set();
    kn.unique_seq_to_set();
    seq_to_set_is_finite(km);
    seq_to_set_is_finite(kn);
    assert(km.to_set().subset_of(kn.to_set())) by {
        assert forall|x: Seq<char>| km.to_set().contains(x) implies kn.to_set().contains(x) by {
            let i = choose|i: int| 0 <= i < km.len() && km[i] == x;
            assert(km[i] == m[i].0);
            lemma_key_index(n, m[i].0);
            let q = key_index(n, m[i].0);
            assert(kn[q] == x);
        }
    }
    vstd::set_lib::lemma_subset_equality(km.to_set(), kn.to_set());
    assert forall|j: int| 0 <= j < n.len() implies key_index(m, #[trigger] n[j].0) >= 0 by {
        assert(kn[j] == n[j].0);
        assert(kn.to_set().contains(n[j].0));
        assert(km.to_set().contains(n[j].0));
        let i = choose|i: int| 0 <= i < km.len() && km[i] == n[j].0;
        assert(km[i] == m[i].0);
        lemma_key_index(m, n[j].0);
    }
}

/// Equality of values does not depend on the order of its operands, where no mapping holds a
/// key twice.
pub proof fn law_value_eq_symmetric(a: ValueModel, b: ValueModel)
    requires
        unique_keys(a),
        unique_keys(b),
    ensures
        value_eq(a, b) ==> value_eq(b, a),
    decreases a,
{
    if value_eq(a, b) {
        match a {
            ValueModel::Sequence(xs) => {
                let ys = b->Sequence_0;
                lemma_all_unique_keys(xs);
                lemma_all_unique_keys(ys);
                lemma_seqs_eq(xs, ys);
                lemma_seqs_eq(ys, xs);
                assert forall|j: int| 0 <= j < ys.len() implies value_eq(#[trigger] ys[j], xs[j]) by {
                    assert(decreases_to!(a => xs));
                    law_value_eq_symmetric(xs[j], ys[j]);
                }
            },
            ValueModel::Mapping(m) => {
                let n = b->Mapping_0;
                lemma_entries_unique_keys(m);
                lemma_entries_unique_keys(n);
                lemma_entries_in(m, n);
                lemma_entries_in(n, m);
                assert forall|i: int| 0 <= i < m.len() implies key_index(n, #[trigger] m[i].0)
                    >= 0 by {
                    assert(entry_found_equal(n, m[i]));
                }
                lemma_same_keys(m, n);
                assert forall|j: int| 0 <= j < n.len() implies entry_found_equal(m, #[trigger] n[j])
                    by {
                    let k = n[j].0;
                    assert(key_index(m, n[j].0) >= 0);
                    lemma_key_index(m, k);
                    let i = key_index(m, k);
                    assert(entry_found_equal(n, m[i]));
                    lemma_key_index(n, k);
                    assert forall|q: int| 0 <= q < j implies n[q].0 != k by {}
                    lemma_key_index_at(n, k, j);
                    assert(decreases_to!(a => m));
                    assert(decreases_to!(m => m[i]));
                    assert(decreases_to!(m[i] => m[i].1));
                    law_value_eq_symmetric(m[i].1, n[j].1);
                }
            },
            _ => {},
        }
    }
}


/// Equality of values is transitive.
pub proof fn law_value_eq_transitive(a: ValueModel, b: ValueModel, c: ValueModel)
    ensures
        value_eq(a, b) && value_eq(b, c) ==> value_eq(a, c),
    decreases a,
{
    if value_eq(a, b) && value_eq(b, c) {
        match a {
            ValueModel::Sequence(xs) => {
                let ys = b->Sequence_0;
                let zs = c->Sequence_0;
                lemma_seqs_eq(xs, ys);
                lemma_seqs_eq(ys, zs);
                lemma_seqs_eq(xs, zs);
                assert forall|j: int| 0 <= j < xs.len() implies value_eq(#[trigger] xs[j], zs[j]) by {
                    assert(decreases_to!(a => xs));
                    law_value_eq_transitive(xs[j], ys[j], zs[j]);
                }
            },
            ValueModel::Mapping(m) => {
                let n = b->Mapping_0;
                let o = c->Mapping_0;
                lemma_entries_in(m, n);
                lemma_entries_in(n, o);
                lemma_entries_in(m, o);
                assert forall|i: int| 0 <= i < m.len() implies entry_found_equal(o, #[trigger] m[i])
                    by {
                    let k = m[i].0;
                    assert(entry_found_equal(n, m[i]));
                    lemma_key_index(n, k);
                    let j = key_index(n, k);
                    assert(entry_found_equal(o, n[j]));
                    lemma_key_index(o, k);
                    let q = key_index(o, k);
                    assert(decreases_to!(a => m));
                    assert(decreases_to!(m => m[i]));
                    assert(decreases_to!(m[i] => m[i].1));
                    law_value_eq_transitive(m[i].1, n[j].1, o[q].1);
                }
            },
            _ => {},
        }
    }
}

} // verus!
