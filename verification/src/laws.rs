use vstd::prelude::*;
use crate::store::{
    del_count, del_model, get_model, hget_model, hset_model, hset_ok, slice_model, str_entry,
    with_ttl, Contents,
};
use crate::StoreError;

verus! {

/// Write-then-read round trip for scalars: after a write of `v` under
/// `k`, a read of `k` yields `v`.
pub proof fn lemma_set_then_get(c: Contents, k: Seq<char>, v: Seq<char>)
    ensures
        get_model(c.insert(k, str_entry(v)), k) == Ok::<Seq<char>, StoreError>(v),
{
}

/// Write-then-read round trip for hash fields: after field `f` under `k`
/// is set to `v`, a read of that field yields `v`.
pub proof fn lemma_hset_then_hget(c: Contents, k: Seq<char>, f: Seq<char>, v: Seq<char>)
    requires
        hset_ok(c, k),
    ensures
        hget_model(hset_model(c, k, f, v), k, f) == Ok::<Seq<char>, StoreError>(v),
{
}

/// Write-then-read round trip for lists: a freshly pushed head value is
/// what a head read returns.
pub proof fn lemma_lpush_then_head(l: Seq<Seq<char>>, v: Seq<char>)
    ensures
        slice_model(seq![v] + l, 0, 0) == seq![v],
{
    assert(slice_model(seq![v] + l, 0, 0) =~= seq![v]);
}

/// A full range read returns the whole list.
pub proof fn lemma_full_range(l: Seq<Seq<char>>)
    requires
        l.len() > 0,
    ensures
        slice_model(l, 0, -1) == l,
{
    assert(slice_model(l, 0, -1) =~= l);
}

/// The most recent expiry wins: setting a time-to-live twice on the same
/// key leaves the second value, with no accumulation.
pub proof fn lemma_expire_latest_wins(c: Contents, k: Seq<char>, t1: i64, t2: i64)
    ensures
        with_ttl(with_ttl(c, k, t1), k, t2) == with_ttl(c, k, t2),
{
    if c.contains_key(k) {
        assert(with_ttl(with_ttl(c, k, t1), k, t2) =~= with_ttl(c, k, t2));
    }
}

/// Expiry is idempotent: repeating expire with the same time-to-live
/// changes nothing further.
pub proof fn lemma_expire_idempotent(c: Contents, k: Seq<char>, t: i64)
    ensures
        with_ttl(with_ttl(c, k, t), k, t) == with_ttl(c, k, t),
{
    lemma_expire_latest_wins(c, k, t, t);
}

/// Deleting a key that is not live is no error: the contents are
/// untouched and zero deletions are reported.
pub proof fn lemma_del_absent(c: Contents, k: Seq<char>)
    requires
        !c.contains_key(k),
    ensures
        del_model(c, seq![k]) == c,
        del_count(c, seq![k]) == 0,
{
    assert(c.remove(k) =~= c);
    let rest = seq![k].drop_first();
    assert(rest =~= Seq::<Seq<char>>::empty());
    assert(rest.len() == 0);
    assert(del_model(c, seq![k]) == del_model(c.remove(k), rest));
    assert(del_model(c.remove(k), rest) == c.remove(k));
    assert(del_count(c, seq![k]) == 0 + del_count(c.remove(k), rest));
    assert(del_count(c.remove(k), rest) == 0);
}

} // verus!
