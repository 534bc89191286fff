//! Stable sorting of `(key, value)` pairs by key, as `sort_by_key` orders strings.
use vstd::prelude::*;
use crate::text::{
    chars_of, chars_lt, lemma_seq_le_trans, lemma_seq_lt_asym, seq_le, seq_lt,
};

verus! {

/// The position at which a pair with key `k` is inserted into `s`: after every
/// pair whose key does not sort after `k`.
pub open spec fn insert_position<V>(s: Seq<(String, V)>, k: Seq<char>) -> int
    decreases s.len(),
{
    if s.len() == 0 {
        0
    } else if seq_lt(k, s.last().0@) {
        insert_position(s.drop_last(), k)
    } else {
        s.len() as int
    }
}

/// `s` sorted by key with a stable insertion sort.
pub open spec fn sorted_by_key<V>(s: Seq<(String, V)>) -> Seq<(String, V)>
    decreases s.len(),
{
    if s.len() == 0 {
        seq![]
    } else {
        let r = sorted_by_key(s.drop_last());
        r.insert(insert_position(r, s.last().0@), s.last())
    }
}

proof fn lemma_insert_position_bounds<V>(s: Seq<(String, V)>, k: Seq<char>)
    ensures
        0 <= insert_position(s, k) <= s.len(),
    decreases s.len(),
{
    if s.len() > 0 {
        lemma_insert_position_bounds(s.drop_last(), k);
    }
}

pub proof fn lemma_sorted_len<V>(s: Seq<(String, V)>)
    ensures
        sorted_by_key(s).len() == s.len(),
    decreases s.len(),
{
    if s.len() > 0 {
        lemma_sorted_len(s.drop_last());
        lemma_insert_position_bounds(sorted_by_key(s.drop_last()), s.last().0@);
    }
}

/// Whether the keys of `s` never decrease.
pub open spec fn keys_ordered<V>(s: Seq<(String, V)>) -> bool {
    forall|i: int, j: int| 0 <= i < j < s.len() ==> seq_le(#[trigger] s[i].0@, #[trigger] s[j].0@)
}

proof fn lemma_insert_position_props<V>(s: Seq<(String, V)>, k: Seq<char>)
    ensures
        forall|j: int| insert_position(s, k) <= j < s.len() ==> seq_lt(k, #[trigger] s[j].0@),
        insert_position(s, k) > 0 ==> !seq_lt(k, s[insert_position(s, k) - 1].0@),
    decreases s.len(),
{
    if s.len() > 0 && seq_lt(k, s.last().0@) {
        let d = s.drop_last();
        lemma_insert_position_props(d, k);
        lemma_insert_position_bounds(d, k);
        assert forall|j: int| insert_position(s, k) <= j < s.len() implies seq_lt(
            k,
            #[trigger] s[j].0@,
        ) by {
            if j < s.len() - 1 {
                assert(s[j] == d[j]);
            }
        }
    }
}

/// Sorting by key puts the keys in order and keeps every pair.
pub proof fn law_sort_by_key_orders<V>(s: Seq<(String, V)>)
    ensures
        keys_ordered(sorted_by_key(s)),
        sorted_by_key(s).to_multiset() == s.to_multiset(),
    decreases s.len(),
{
    if s.len() == 0 {
        assert(sorted_by_key(s) =~= s);
    } else {
        let d = s.drop_last();
        let x = s.last();
        let k = x.0@;
        let r = sorted_by_key(d);
        law_sort_by_key_orders(d);
        lemma_sorted_len(d);
        lemma_insert_position_bounds(r, k);
        lemma_insert_position_props(r, k);
        let pos = insert_position(r, k);
        let out = r.insert(pos, x);
        assert(sorted_by_key(s) == out);
        assert forall|i: int, j: int| 0 <= i < j < out.len() implies seq_le(
            #[trigger] out[i].0@,
            #[trigger] out[j].0@,
        ) by {
            if j < pos {
            } else if j == pos {
                if i < pos - 1 {
                    assert(seq_le(r[i].0@, r[pos - 1].0@));
                    lemma_seq_le_trans(r[i].0@, r[pos - 1].0@, k);
                }
            } else if i < pos {
                assert(seq_le(r[i].0@, r[j - 1].0@));
            } else if i == pos {
                assert(seq_lt(k, r[j - 1].0@));
                lemma_seq_lt_asym(k, r[j - 1].0@);
            } else {
                assert(seq_le(r[i - 1].0@, r[j - 1].0@));
            }
        }
        vstd::seq_lib::to_multiset_insert(r, pos, x);
        vstd::seq_lib::to_multiset_build(d, x);
        assert(d.push(x) =~= s);
    }
}

/// The pairs sorted by key; pairs with equal keys keep their order.
pub fn sort_by_key<V>(items: Vec<(String, V)>) -> (r: Vec<(String, V)>)
    ensures
        r@ == sorted_by_key(items@),
{
    let ghost orig = items@;
    let mut rest = items;
    let mut out: Vec<(String, V)> = Vec::new();
    let n = rest.len();
    let mut i: usize = 0;
    assert(rest@ =~= orig.skip(0));
    while rest.len() > 0
        invariant
            n == orig.len(),
            rest@.len() + i == n,
            rest@ =~= orig.skip(i as int),
            out@ == sorted_by_key(orig.take(i as int)),
        decreases rest@.len(),
    {
        let e = rest.remove(0);
        assert(e == orig[i as int]);
        assert(orig.skip(i + 1) =~= orig.skip(i as int).drop_first());
        assert(orig.take(i + 1).drop_last() =~= orig.take(i as int));
        let k = chars_of(e.0.as_str());
        let mut pos: usize = out.len();
        proof {
            lemma_sorted_len(orig.take(i as int));
        }
        assert(out@.take(pos as int) =~= out@);
        loop
            invariant
                pos <= out@.len(),
                k@ == e.0@,
                insert_position(out@, k@) == insert_position(out@.take(pos as int), k@),
            ensures
                insert_position(out@, k@) == pos,
            decreases pos,
        {
            if pos == 0 {
                assert(out@.take(0) =~= Seq::<(String, V)>::empty());
                break;
            }
            let kp = chars_of(out[pos - 1].0.as_str());
            assert(out@.take(pos as int).last() == out@[pos - 1]);
            if !chars_lt(&k, &kp) {
                break;
            }
            assert(out@.take(pos as int).drop_last() =~= out@.take(pos - 1));
            pos -= 1;
        }
        out.insert(pos, e);
        i += 1;
    }
    assert(orig.take(n as int) =~= orig);
    out
}

} // verus!
