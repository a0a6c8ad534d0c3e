//! Mathematical model shared by the store: keyed sequences as maps, and the
//! decimal rendering of minted identifiers.

use vstd::prelude::*;

use crate::uid::{EntityType, UidView};

verus! {

/// The map described by a sequence of key/value entries, later entries
/// winning over earlier ones.
pub open spec fn assoc_map<V>(s: Seq<(UidView, V)>) -> Map<UidView, V>
    decreases s.len(),
{
    if s.len() == 0 {
        Map::empty()
    } else {
        assoc_map(s.drop_last()).insert(s.last().0, s.last().1)
    }
}

/// No two entries share a key.
pub open spec fn keys_distinct<V>(s: Seq<(UidView, V)>) -> bool {
    forall|i: int, j: int| 0 <= i < j < s.len() ==> (#[trigger] s[i]).0 != (#[trigger] s[j]).0
}

/// A key is in the map exactly when some entry carries it.
pub proof fn lemma_assoc_contains<V>(s: Seq<(UidView, V)>, k: UidView)
    ensures
        assoc_map(s).contains_key(k) <==> exists|i: int| 0 <= i < s.len() && (#[trigger] s[i]).0
            == k,
    decreases s.len(),
{
    if s.len() > 0 {
        lemma_assoc_contains(s.drop_last(), k);
        if assoc_map(s).contains_key(k) {
            if s.last().0 == k {
                assert(s[s.len() - 1].0 == k);
            } else {
                let i = choose|i: int| 0 <= i < s.drop_last().len() && (#[trigger] s.drop_last()[
                    i]).0 == k;
                assert(s[i].0 == k);
            }
        }
        if exists|i: int| 0 <= i < s.len() && (#[trigger] s[i]).0 == k {
            let i = choose|i: int| 0 <= i < s.len() && (#[trigger] s[i]).0 == k;
            if i < s.len() - 1 {
                assert(s.drop_last()[i].0 == k);
            }
        }
    }
}

/// With distinct keys, the map sends each entry's key to its value.
pub proof fn lemma_assoc_get<V>(s: Seq<(UidView, V)>, i: int)
    requires
        keys_distinct(s),
        0 <= i < s.len(),
    ensures
        assoc_map(s).contains_key(s[i].0),
        assoc_map(s)[s[i].0] == s[i].1,
    decreases s.len(),
{
    if i == s.len() - 1 {
    } else {
        assert(keys_distinct(s.drop_last()));
        assert(s.drop_last()[i] == s[i]);
        lemma_assoc_get(s.drop_last(), i);
        assert(s[i].0 != s.last().0);
    }
}

/// Appending an entry inserts its key.
pub proof fn lemma_assoc_push<V>(s: Seq<(UidView, V)>, p: (UidView, V))
    ensures
        assoc_map(s.push(p)) == assoc_map(s).insert(p.0, p.1),
{
    assert(s.push(p).drop_last() =~= s);
    assert(s.push(p).last() == p);
}

/// Overwriting the entry that carries a key updates that key alone.
pub proof fn lemma_assoc_update<V>(s: Seq<(UidView, V)>, i: int, p: (UidView, V))
    requires
        keys_distinct(s),
        0 <= i < s.len(),
        p.0 == s[i].0,
    ensures
        assoc_map(s.update(i, p)) == assoc_map(s).insert(p.0, p.1),
    decreases s.len(),
{
    if i == s.len() - 1 {
        assert(s.update(i, p).drop_last() =~= s.drop_last());
        assert(s.update(i, p).last() == p);
    } else {
        assert(keys_distinct(s.drop_last()));
        assert(s.drop_last()[i] == s[i]);
        lemma_assoc_update(s.drop_last(), i, p);
        assert(s.update(i, p).drop_last() =~= s.drop_last().update(i, p));
        assert(s.update(i, p).last() == s.last());
        assert(s[i].0 != s.last().0);
        assert(assoc_map(s.drop_last()).insert(p.0, p.1).insert(s.last().0, s.last().1)
            =~= assoc_map(s.drop_last()).insert(s.last().0, s.last().1).insert(p.0, p.1));
    }
}

/// Removing the entry that carries a key removes that key alone.
pub proof fn lemma_assoc_remove<V>(s: Seq<(UidView, V)>, i: int)
    requires
        keys_distinct(s),
        0 <= i < s.len(),
    ensures
        assoc_map(s.remove(i)) == assoc_map(s).remove(s[i].0),
    decreases s.len(),
{
    if i == s.len() - 1 {
        assert(s.remove(i) =~= s.drop_last());
        lemma_assoc_contains(s.drop_last(), s[i].0);
        assert(forall|j: int|
            0 <= j < s.drop_last().len() ==> (#[trigger] s.drop_last()[j]).0 != s[i].0);
        assert(!assoc_map(s.drop_last()).contains_key(s[i].0));
        assert(assoc_map(s.drop_last()).insert(s.last().0, s.last().1).remove(s[i].0)
            =~= assoc_map(s.drop_last()));
    } else {
        assert(keys_distinct(s.drop_last()));
        assert(s.drop_last()[i] == s[i]);
        lemma_assoc_remove(s.drop_last(), i);
        assert(s.remove(i).drop_last() =~= s.drop_last().remove(i));
        assert(s.remove(i).last() == s.last());
        assert(s[i].0 != s.last().0);
        assert(assoc_map(s.drop_last()).remove(s[i].0).insert(s.last().0, s.last().1)
            =~= assoc_map(s.drop_last()).insert(s.last().0, s.last().1).remove(s[i].0));
    }
}

/// With distinct keys the map is finite and has one key per entry.
pub proof fn lemma_assoc_len<V>(s: Seq<(UidView, V)>)
    requires
        keys_distinct(s),
    ensures
        assoc_map(s).dom().finite(),
        assoc_map(s).dom().len() == s.len(),
    decreases s.len(),
{
    if s.len() > 0 {
        assert(keys_distinct(s.drop_last()));
        lemma_assoc_len(s.drop_last());
        lemma_assoc_contains(s.drop_last(), s.last().0);
        assert(forall|j: int|
            0 <= j < s.drop_last().len() ==> (#[trigger] s.drop_last()[j]).0 != s.last().0);
        assert(!assoc_map(s.drop_last()).contains_key(s.last().0));
    }
}

/// Appending an entry with a fresh key keeps keys distinct.
pub proof fn lemma_distinct_push<V>(s: Seq<(UidView, V)>, p: (UidView, V))
    requires
        keys_distinct(s),
        forall|i: int| 0 <= i < s.len() ==> (#[trigger] s[i]).0 != p.0,
    ensures
        keys_distinct(s.push(p)),
{
    let t = s.push(p);
    assert forall|i: int, j: int| 0 <= i < j < t.len() implies (#[trigger] t[i]).0 != (
    #[trigger] t[j]).0 by {
        if j < s.len() {
            assert(t[i] == s[i] && t[j] == s[j]);
        } else {
            assert(t[i] == s[i] && t[j] == p);
        }
    }
}

/// Overwriting an entry without changing its key keeps keys distinct.
pub proof fn lemma_distinct_update<V>(s: Seq<(UidView, V)>, i: int, p: (UidView, V))
    requires
        keys_distinct(s),
        0 <= i < s.len(),
        p.0 == s[i].0,
    ensures
        keys_distinct(s.update(i, p)),
{
    let t = s.update(i, p);
    assert forall|a: int, b: int| 0 <= a < b < t.len() implies (#[trigger] t[a]).0 != (
    #[trigger] t[b]).0 by {
        assert(t[a].0 == s[a].0 && t[b].0 == s[b].0);
    }
}

/// Removing an entry keeps keys distinct.
pub proof fn lemma_distinct_remove<V>(s: Seq<(UidView, V)>, i: int)
    requires
        keys_distinct(s),
        0 <= i < s.len(),
    ensures
        keys_distinct(s.remove(i)),
{
    let t = s.remove(i);
    assert forall|a: int, b: int| 0 <= a < b < t.len() implies (#[trigger] t[a]).0 != (
    #[trigger] t[b]).0 by {
        let a0 = if a < i { a } else { a + 1 };
        let b0 = if b < i { b } else { b + 1 };
        assert(t[a] == s[a0] && t[b] == s[b0]);
    }
}

/// The decimal digit characters.
pub open spec fn dec_digit(d: nat) -> char {
    if d == 0 {
        '0'
    } else if d == 1 {
        '1'
    } else if d == 2 {
        '2'
    } else if d == 3 {
        '3'
    } else if d == 4 {
        '4'
    } else if d == 5 {
        '5'
    } else if d == 6 {
        '6'
    } else if d == 7 {
        '7'
    } else if d == 8 {
        '8'
    } else {
        '9'
    }
}

/// The decimal rendering of a counter value, most significant digit first,
/// without leading zeros.
pub open spec fn dec_str(n: nat) -> Seq<char>
    decreases n,
{
    if n < 10 {
        seq![dec_digit(n)]
    } else {
        dec_str(n / 10).push(dec_digit(n % 10))
    }
}

proof fn lemma_dec_str_len(n: nat)
    ensures
        dec_str(n).len() >= 1,
        n >= 10 ==> dec_str(n).len() >= 2,
    decreases n,
{
    if n >= 10 {
        lemma_dec_str_len(n / 10);
    }
}

/// Distinct counter values render to distinct strings.
pub proof fn lemma_dec_str_inj(a: nat, b: nat)
    requires
        dec_str(a) == dec_str(b),
    ensures
        a == b,
    decreases a,
{
    lemma_dec_str_len(a);
    lemma_dec_str_len(b);
    if a < 10 && b < 10 {
        assert(dec_str(a)[0] == dec_digit(a));
        assert(dec_str(b)[0] == dec_digit(b));
    } else if a < 10 {
        assert(dec_str(a).len() == 1);
    } else if b < 10 {
        assert(dec_str(b).len() == 1);
    } else {
        assert(dec_str(a).last() == dec_digit(a % 10));
        assert(dec_str(b).last() == dec_digit(b % 10));
        assert(a % 10 == b % 10);
        assert(dec_str(a).drop_last() =~= dec_str(a / 10));
        assert(dec_str(b).drop_last() =~= dec_str(b / 10));
        lemma_dec_str_inj(a / 10, b / 10);
        vstd::arithmetic::div_mod::lemma_fundamental_div_mod(a as int, 10);
        vstd::arithmetic::div_mod::lemma_fundamental_div_mod(b as int, 10);
    }
}

/// The identifiers of kind `ty` whose textual ids render the counter
/// values in `[start, cur)`.
pub open spec fn minted_range(ty: EntityType, start: int, cur: int) -> Set<UidView> {
    Set::new(
        |k: UidView|
            exists|m: int|
                start <= m < cur && k == (UidView { kind: ty, id: #[trigger] dec_str(m as nat) }),
    )
}

/// A range of minted identifiers has one member per counter value.
pub proof fn lemma_minted_range_card(ty: EntityType, start: int, cur: int)
    requires
        0 <= start <= cur,
    ensures
        minted_range(ty, start, cur).finite(),
        minted_range(ty, start, cur).len() == cur - start,
    decreases cur - start,
{
    if cur == start {
        assert(minted_range(ty, start, cur) =~= Set::<UidView>::empty());
    } else {
        lemma_minted_range_card(ty, start, cur - 1);
        let key = UidView { kind: ty, id: dec_str((cur - 1) as nat) };
        assert forall|k: UidView| minted_range(ty, start, cur).contains(k) implies minted_range(
            ty, start, cur - 1).insert(key).contains(k) by {
            let m = choose|m: int|
                start <= m < cur && k == (UidView { kind: ty, id: #[trigger] dec_str(m as nat) });
            if m < cur - 1 {
                assert(minted_range(ty, start, cur - 1).contains(k));
            }
        }
        assert(minted_range(ty, start, cur) =~= minted_range(ty, start, cur - 1).insert(key));
        if minted_range(ty, start, cur - 1).contains(key) {
            let m = choose|m: int|
                start <= m < cur - 1 && key == (UidView { kind: ty, id: #[trigger] dec_str(m as nat) });
            lemma_dec_str_inj(m as nat, (cur - 1) as nat);
            assert(false);
        }
    }
}

/// Relies on std's `Display` for `usize`: formats the value in decimal,
/// most significant digit first, without leading zeros.
#[verifier::external_body]
pub(crate) fn index_string(n: usize) -> (s: String)
    ensures
        s@ == dec_str(n as nat),
{
    format!("{}", n)
}

} // verus!
