use vstd::prelude::*;
use vstd::string::StrSliceExecFns;

verus! {

/// Character-by-character string equality, decided without trusting any
/// outside comparison.
pub fn str_eq(a: &str, b: &str) -> (r: bool)
    ensures
        r == (a@ == b@),
{
    let alen = a.unicode_len();
    let blen = b.unicode_len();
    if alen != blen {
        return false;
    }
    let mut i: usize = 0;
    while i < alen
        invariant
            alen == a@.len(),
            blen == b@.len(),
            alen == blen,
            i <= alen,
            forall|j: int| 0 <= j < i ==> a@[j] == b@[j],
        decreases alen - i,
    {
        if a.get_char(i) != b.get_char(i) {
            return false;
        }
        i += 1;
    }
    proof {
        assert(a@ =~= b@);
    }
    true
}

/// No two entries carry the same key (keys compared as character sequences).
pub open spec fn keys_unique<V>(s: Seq<(String, V)>) -> bool {
    forall|i: int, j: int| 0 <= i < j < s.len() ==> s[i].0@ != s[j].0@
}

/// The finite map an association vector denotes; later entries win, which
/// is immaterial once `keys_unique` holds.
pub open spec fn assoc_map<V: View>(s: Seq<(String, V)>) -> Map<Seq<char>, V::V>
    decreases s.len(),
{
    if s.len() == 0 {
        Map::<Seq<char>, V::V>::empty()
    } else {
        assoc_map(s.drop_last()).insert(s.last().0@, s.last().1@)
    }
}

pub proof fn lemma_assoc_map_contains<V: View>(s: Seq<(String, V)>, k: Seq<char>)
    ensures
        assoc_map(s).contains_key(k) <==> exists|i: int| 0 <= i < s.len() && s[i].0@ == k,
    decreases s.len(),
{
    if s.len() == 0 {
    } else {
        lemma_assoc_map_contains(s.drop_last(), k);
        if s.last().0@ == k {
            assert(s[s.len() - 1].0@ == k);
        } else {
            if assoc_map(s).contains_key(k) {
                let i = choose|i: int|
                    0 <= i < s.drop_last().len() && s.drop_last()[i].0@ == k;
                assert(s[i].0@ == k);
            }
            if exists|i: int| 0 <= i < s.len() && s[i].0@ == k {
                let i = choose|i: int| 0 <= i < s.len() && s[i].0@ == k;
                assert(s.drop_last()[i].0@ == k);
            }
        }
    }
}

pub proof fn lemma_assoc_map_index<V: View>(s: Seq<(String, V)>, i: int)
    requires
        keys_unique(s),
        0 <= i < s.len(),
    ensures
        assoc_map(s).contains_key(s[i].0@),
        assoc_map(s)[s[i].0@] == s[i].1@,
    decreases s.len(),
{
    if i == s.len() - 1 {
    } else {
        assert(s.drop_last()[i] == s[i]);
        lemma_assoc_map_index(s.drop_last(), i);
        assert(s[i].0@ != s.last().0@);
    }
}

pub proof fn lemma_assoc_map_remove<V: View>(s: Seq<(String, V)>, i: int)
    requires
        keys_unique(s),
        0 <= i < s.len(),
    ensures
        assoc_map(s.remove(i)) == assoc_map(s).remove(s[i].0@),
        keys_unique(s.remove(i)),
    decreases s.len(),
{
    assert forall|a: int, b: int| 0 <= a < b < s.remove(i).len() implies s.remove(i)[a].0@
        != s.remove(i)[b].0@ by {
        let a0: int = if a < i { a } else { a + 1 };
        let b0: int = if b < i { b } else { b + 1 };
        assert(s.remove(i)[a] == s[a0]);
        assert(s.remove(i)[b] == s[b0]);
    }
    if i == s.len() - 1 {
        assert(s.remove(i) =~= s.drop_last());
        lemma_assoc_map_contains(s.drop_last(), s[i].0@);
        assert forall|j: int| 0 <= j < s.drop_last().len() implies s.drop_last()[j].0@
            != s[i].0@ by {
            assert(s.drop_last()[j] == s[j]);
        }
        assert(!assoc_map(s.drop_last()).contains_key(s[i].0@));
        assert(assoc_map(s.drop_last()).insert(s.last().0@, s.last().1@).remove(s[i].0@)
            =~= assoc_map(s.drop_last()));
    } else {
        lemma_assoc_map_remove(s.drop_last(), i);
        assert(s.remove(i).drop_last() =~= s.drop_last().remove(i));
        assert(s.remove(i).last() == s.last());
        assert(s.drop_last()[i] == s[i]);
        assert(s[i].0@ != s.last().0@);
        assert(assoc_map(s.remove(i)) == assoc_map(s.drop_last().remove(i)).insert(
            s.last().0@,
            s.last().1@,
        ));
        assert(assoc_map(s.drop_last()).remove(s[i].0@).insert(s.last().0@, s.last().1@)
            =~= assoc_map(s.drop_last()).insert(s.last().0@, s.last().1@).remove(s[i].0@));
    }
}

pub proof fn lemma_assoc_map_push<V: View>(s: Seq<(String, V)>, k: String, v: V)
    ensures
        assoc_map(s.push((k, v))) == assoc_map(s).insert(k@, v@),
{
    assert(s.push((k, v)).drop_last() =~= s);
    assert(s.push((k, v)).last() == (k, v));
}

/// Finds the index of the entry for `k`, if one exists.
pub fn assoc_find<V: View>(v: &Vec<(String, V)>, k: &str) -> (r: Option<usize>)
    requires
        keys_unique(v@),
    ensures
        match r {
            Some(i) => i < v@.len() && v@[i as int].0@ == k@ && assoc_map(v@).contains_key(k@)
                && assoc_map(v@)[k@] == v@[i as int].1@,
            None => !assoc_map(v@).contains_key(k@),
        },
{
    let mut i: usize = 0;
    while i < v.len()
        invariant
            keys_unique(v@),
            i <= v@.len(),
            forall|j: int| 0 <= j < i ==> v@[j].0@ != k@,
        decreases v@.len() - i,
    {
        if str_eq(v[i].0.as_str(), k) {
            proof {
                lemma_assoc_map_index(v@, i as int);
            }
            return Some(i);
        }
        i += 1;
    }
    proof {
        lemma_assoc_map_contains(v@, k@);
    }
    None
}

/// Removes and returns the entry at `i`; the denoted map loses that
/// entry's key.
pub fn assoc_take<V: View>(v: &mut Vec<(String, V)>, i: usize) -> (r: (String, V))
    requires
        keys_unique(old(v)@),
        i < old(v)@.len(),
    ensures
        r == old(v)@[i as int],
        keys_unique(final(v)@),
        assoc_map(final(v)@) == assoc_map(old(v)@).remove(r.0@),
        !assoc_map(final(v)@).contains_key(r.0@),
        forall|j: int| 0 <= j < final(v)@.len() ==> exists|m: int|
            0 <= m < old(v)@.len() && (#[trigger] final(v)@[j]) == (#[trigger] old(v)@[m]),
{
    proof {
        lemma_assoc_map_remove(v@, i as int);
        assert forall|j: int| 0 <= j < v@.remove(i as int).len() implies exists|m: int|
            0 <= m < v@.len() && (#[trigger] v@.remove(i as int)[j]) == (#[trigger] v@[m]) by {
            let m0: int = if j < i { j } else { j + 1 };
            assert(v@.remove(i as int)[j] == v@[m0]);
        }
    }
    v.remove(i)
}

/// Appends an entry for a key not yet present; the denoted map gains it.
pub fn assoc_put<V: View>(v: &mut Vec<(String, V)>, k: String, val: V)
    requires
        keys_unique(old(v)@),
        !assoc_map(old(v)@).contains_key(k@),
    ensures
        keys_unique(final(v)@),
        assoc_map(final(v)@) == assoc_map(old(v)@).insert(k@, val@),
        forall|j: int| 0 <= j < final(v)@.len() ==> (#[trigger] final(v)@[j]).1 == val
            || exists|m: int| 0 <= m < old(v)@.len() && final(v)@[j] == (#[trigger] old(v)@[m]),
{
    proof {
        lemma_assoc_map_contains(v@, k@);
        lemma_assoc_map_push(v@, k, val);
        assert forall|a: int, b: int| 0 <= a < b < v@.push((k, val)).len() implies v@.push(
            (k, val),
        )[a].0@ != v@.push((k, val))[b].0@ by {
            if b < v@.len() {
                assert(v@.push((k, val))[a] == v@[a]);
                assert(v@.push((k, val))[b] == v@[b]);
            } else {
                assert(v@.push((k, val))[a] == v@[a]);
                assert(v@.push((k, val))[b] == (k, val));
            }
        }
    }
    v.push((k, val));
}

} // verus!
