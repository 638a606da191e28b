use vstd::prelude::*;
use vstd::string::StringExecFns;
use crate::assoc::{
    assoc_find, assoc_map, assoc_put, assoc_take, keys_unique, lemma_assoc_map_contains,
};
use crate::glob::{glob_match, glob_matches};
use crate::StoreError;

verus! {

/// A stored value: a scalar string, a field/value hash, or a list.
pub enum StoredValue {
    Str(String),
    Hash(Vec<(String, String)>),
    List(Vec<String>),
}

/// Mathematical model of a stored value.
pub enum ValueModel {
    Str(Seq<char>),
    Hash(Map<Seq<char>, Seq<char>>),
    List(Seq<Seq<char>>),
}

pub open spec fn seq_view(s: Seq<String>) -> Seq<Seq<char>> {
    s.map_values(|x: String| x@)
}

impl View for StoredValue {
    type V = ValueModel;

    open spec fn view(&self) -> ValueModel {
        match self {
            StoredValue::Str(s) => ValueModel::Str(s@),
            StoredValue::Hash(h) => ValueModel::Hash(assoc_map(h@)),
            StoredValue::List(l) => ValueModel::List(seq_view(l@)),
        }
    }
}

/// A key's entry: its value and, if one was set, its time-to-live in
/// seconds.
pub struct Entry {
    pub val: StoredValue,
    pub ttl: Option<i64>,
}

/// Mathematical model of an entry.
pub struct EntryModel {
    pub val: ValueModel,
    pub ttl: Option<i64>,
}

impl View for Entry {
    type V = EntryModel;

    open spec fn view(&self) -> EntryModel {
        EntryModel { val: self.val@, ttl: self.ttl }
    }
}

/// The contents of a store: each live key mapped to its entry.
pub type Contents = Map<Seq<char>, EntryModel>;

pub open spec fn str_entry(v: Seq<char>) -> EntryModel {
    EntryModel { val: ValueModel::Str(v), ttl: None }
}

/// What a scalar read of `k` yields from contents `c`: the string value,
/// `Absent` when the key is missing, `TypeConversion` when the key holds a
/// non-scalar value.
pub open spec fn get_model(c: Contents, k: Seq<char>) -> Result<Seq<char>, StoreError> {
    if !c.contains_key(k) {
        Err(StoreError::Absent)
    } else {
        match c[k].val {
            ValueModel::Str(s) => Ok(s),
            _ => Err(StoreError::TypeConversion),
        }
    }
}

/// Contents after an expiry of `t` seconds is set on `k`: the entry keeps
/// its value and takes the new time-to-live; a missing key is untouched.
pub open spec fn with_ttl(c: Contents, k: Seq<char>, t: i64) -> Contents {
    if c.contains_key(k) {
        c.insert(k, EntryModel { val: c[k].val, ttl: Some(t) })
    } else {
        c
    }
}

/// Contents after the keys of `ks` are deleted, first to last.
pub open spec fn del_model(c: Contents, ks: Seq<Seq<char>>) -> Contents
    decreases ks.len(),
{
    if ks.len() == 0 {
        c
    } else {
        del_model(c.remove(ks[0]), ks.drop_first())
    }
}

/// How many of the deletions of `ks`, first to last, found their key live.
pub open spec fn del_count(c: Contents, ks: Seq<Seq<char>>) -> nat
    decreases ks.len(),
{
    if ks.len() == 0 {
        0
    } else {
        (if c.contains_key(ks[0]) {
            1nat
        } else {
            0nat
        }) + del_count(c.remove(ks[0]), ks.drop_first())
    }
}

pub open spec fn str_res_view(r: Result<String, StoreError>) -> Result<Seq<char>, StoreError> {
    match r {
        Ok(s) => Ok(s@),
        Err(e) => Err(e),
    }
}


/// What a hash-field read of field `f` under key `k` yields from `c`.
pub open spec fn hget_model(c: Contents, k: Seq<char>, f: Seq<char>) -> Result<
    Seq<char>,
    StoreError,
> {
    if !c.contains_key(k) {
        Err(StoreError::Absent)
    } else {
        match c[k].val {
            ValueModel::Hash(h) => if h.contains_key(f) {
                Ok(h[f])
            } else {
                Err(StoreError::Absent)
            },
            _ => Err(StoreError::TypeConversion),
        }
    }
}

/// Whether a hash-field write under `k` is accepted: the key is free or
/// already holds a hash.
pub open spec fn hset_ok(c: Contents, k: Seq<char>) -> bool {
    !c.contains_key(k) || c[k].val matches ValueModel::Hash(_)
}

/// Contents after field `f` of the hash under `k` is set to `v`; a fresh
/// key gets a one-field hash with no time-to-live, an existing hash keeps
/// its time-to-live, and a key of another shape is untouched.
pub open spec fn hset_model(c: Contents, k: Seq<char>, f: Seq<char>, v: Seq<char>) -> Contents {
    if !c.contains_key(k) {
        c.insert(
            k,
            EntryModel {
                val: ValueModel::Hash(Map::<Seq<char>, Seq<char>>::empty().insert(f, v)),
                ttl: None,
            },
        )
    } else {
        match c[k].val {
            ValueModel::Hash(h) => c.insert(
                k,
                EntryModel { val: ValueModel::Hash(h.insert(f, v)), ttl: c[k].ttl },
            ),
            _ => c,
        }
    }
}

/// Contents after field `f` of the hash under `k` is deleted; a hash left
/// with no fields leaves with its key.
pub open spec fn hdel_model(c: Contents, k: Seq<char>, f: Seq<char>) -> Contents {
    if !c.contains_key(k) {
        c
    } else {
        match c[k].val {
            ValueModel::Hash(h) => if !h.contains_key(f) {
                c
            } else if h.remove(f) == Map::<Seq<char>, Seq<char>>::empty() {
                c.remove(k)
            } else {
                c.insert(k, EntryModel { val: ValueModel::Hash(h.remove(f)), ttl: c[k].ttl })
            },
            _ => c,
        }
    }
}


/// The sublist a range read keeps: indices are inclusive, a negative
/// index counts from the end, and an out-of-range pair yields the empty
/// list.
pub open spec fn slice_model(l: Seq<Seq<char>>, start: int, stop: int) -> Seq<Seq<char>> {
    let n = l.len() as int;
    let lo0 = if start < 0 { n + start } else { start };
    let lo = if lo0 < 0 { 0 } else { lo0 };
    let hi0 = if stop < 0 { n + stop } else { stop };
    let hi = if hi0 >= n { n - 1 } else { hi0 };
    if lo > hi { Seq::<Seq<char>>::empty() } else { l.subrange(lo, hi + 1) }
}

/// The list after up to `cnt` occurrences of `v` are removed, scanning
/// from the head.
pub open spec fn rem_head(l: Seq<Seq<char>>, v: Seq<char>, cnt: nat) -> Seq<Seq<char>>
    decreases l.len(),
{
    if l.len() == 0 {
        l
    } else if l[0] == v && cnt > 0 {
        rem_head(l.drop_first(), v, (cnt - 1) as nat)
    } else {
        seq![l[0]] + rem_head(l.drop_first(), v, cnt)
    }
}

/// The list after up to `cnt` occurrences of `v` are removed, scanning
/// from the tail.
pub open spec fn rem_tail(l: Seq<Seq<char>>, v: Seq<char>, cnt: nat) -> Seq<Seq<char>>
    decreases l.len(),
{
    if l.len() == 0 {
        l
    } else if l.last() == v && cnt > 0 {
        rem_tail(l.drop_last(), v, (cnt - 1) as nat)
    } else {
        rem_tail(l.drop_last(), v, cnt) + seq![l.last()]
    }
}

/// The list an occurrence-removal command leaves: a positive count scans
/// from the head, a negative one from the tail, and zero removes every
/// occurrence.
pub open spec fn lrem_list(l: Seq<Seq<char>>, count: i64, v: Seq<char>) -> Seq<Seq<char>> {
    if count > 0 {
        rem_head(l, v, count as nat)
    } else if count < 0 {
        rem_tail(l, v, (-(count as int)) as nat)
    } else {
        rem_head(l, v, l.len())
    }
}

pub proof fn lemma_rem_head_len(l: Seq<Seq<char>>, v: Seq<char>, cnt: nat)
    ensures
        rem_head(l, v, cnt).len() <= l.len(),
    decreases l.len(),
{
    if l.len() == 0 {
    } else if l[0] == v && cnt > 0 {
        lemma_rem_head_len(l.drop_first(), v, (cnt - 1) as nat);
    } else {
        lemma_rem_head_len(l.drop_first(), v, cnt);
    }
}

pub proof fn lemma_rem_tail_len(l: Seq<Seq<char>>, v: Seq<char>, cnt: nat)
    ensures
        rem_tail(l, v, cnt).len() <= l.len(),
    decreases l.len(),
{
    if l.len() == 0 {
    } else if l.last() == v && cnt > 0 {
        lemma_rem_tail_len(l.drop_last(), v, (cnt - 1) as nat);
    } else {
        lemma_rem_tail_len(l.drop_last(), v, cnt);
    }
}

/// Clones the inclusive range `[start, stop]` of `l` under the
/// range-read index rules.
fn list_slice(l: &Vec<String>, start: i64, stop: i64) -> (r: Vec<String>)
    ensures
        seq_view(r@) == slice_model(seq_view(l@), start as int, stop as int),
{
    let n: i128 = l.len() as i128;
    let lo0: i128 = if start < 0 { n + start as i128 } else { start as i128 };
    let lo: i128 = if lo0 < 0 { 0 } else { lo0 };
    let hi0: i128 = if stop < 0 { n + stop as i128 } else { stop as i128 };
    let hi: i128 = if hi0 >= n { n - 1 } else { hi0 };
    let mut out: Vec<String> = Vec::new();
    if lo > hi {
        proof {
            assert(seq_view(out@) =~= slice_model(seq_view(l@), start as int, stop as int));
        }
        return out;
    }
    let lou: usize = lo as usize;
    let hiu: usize = hi as usize;
    let mut j: usize = lou;
    while j <= hiu
        invariant
            lou <= j <= hiu + 1,
            hiu < l@.len(),
            l@.len() <= usize::MAX,
            seq_view(out@) =~= seq_view(l@).subrange(lou as int, j as int),
        decreases hiu + 1 - j,
    {
        out.push(l[j].clone());
        proof {
            assert(seq_view(out@) =~= seq_view(l@).subrange(lou as int, j as int).push(
                l@[j as int]@,
            ));
            assert(seq_view(l@).subrange(lou as int, j + 1 as int) =~= seq_view(l@).subrange(
                lou as int,
                j as int,
            ).push(seq_view(l@)[j as int]));
        }
        j += 1;
    }
    proof {
        assert(seq_view(out@) =~= slice_model(seq_view(l@), start as int, stop as int));
    }
    out
}

/// Copies `l` with up to `cnt` head-side occurrences of `v` left out.
fn list_rem_head(l: &Vec<String>, v: &str, cnt: u64) -> (r: Vec<String>)
    ensures
        seq_view(r@) == rem_head(seq_view(l@), v@, cnt as nat),
{
    let mut out: Vec<String> = Vec::new();
    let mut remaining: u64 = cnt;
    let mut i: usize = 0;
    proof {
        assert(seq_view(l@).skip(0) =~= seq_view(l@));
    }
    while i < l.len()
        invariant
            i <= l@.len(),
            rem_head(seq_view(l@), v@, cnt as nat) == seq_view(out@) + rem_head(
                seq_view(l@).skip(i as int),
                v@,
                remaining as nat,
            ),
        decreases l@.len() - i,
    {
        proof {
            assert(seq_view(l@).skip(i as int)[0] == l@[i as int]@);
            assert(seq_view(l@).skip(i as int).drop_first() =~= seq_view(l@).skip(i as int + 1));
        }
        let ghost pre = seq_view(out@);
        let ghost rest = seq_view(l@).skip(i as int);
        if remaining > 0 && crate::assoc::str_eq(l[i].as_str(), v) {
            remaining -= 1;
        } else {
            out.push(l[i].clone());
            proof {
                assert(seq_view(out@) =~= pre.push(l@[i as int]@));
                assert(pre + (seq![rest[0]] + rem_head(rest.drop_first(), v@, remaining as nat))
                    =~= pre.push(l@[i as int]@) + rem_head(rest.drop_first(), v@, remaining as nat));
            }
        }
        i += 1;
    }
    proof {
        assert(seq_view(l@).skip(l@.len() as int) =~= Seq::<Seq<char>>::empty());
        assert(seq_view(out@) + Seq::<Seq<char>>::empty() =~= seq_view(out@));
    }
    out
}

/// Copies `l` with up to `cnt` tail-side occurrences of `v` left out.
fn list_rem_tail(l: &Vec<String>, v: &str, cnt: u64) -> (r: Vec<String>)
    ensures
        seq_view(r@) == rem_tail(seq_view(l@), v@, cnt as nat),
{
    let mut out: Vec<String> = Vec::new();
    let mut remaining: u64 = cnt;
    let mut i: usize = l.len();
    proof {
        assert(seq_view(l@).take(l@.len() as int) =~= seq_view(l@));
    }
    while i > 0
        invariant
            i <= l@.len(),
            rem_tail(seq_view(l@), v@, cnt as nat) == rem_tail(
                seq_view(l@).take(i as int),
                v@,
                remaining as nat,
            ) + seq_view(out@),
        decreases i,
    {
        proof {
            assert(seq_view(l@).take(i as int).last() == l@[i - 1]@);
            assert(seq_view(l@).take(i as int).drop_last() =~= seq_view(l@).take(i - 1));
        }
        let ghost pre = seq_view(out@);
        let ghost part = seq_view(l@).take(i as int);
        if remaining > 0 && crate::assoc::str_eq(l[i - 1].as_str(), v) {
            remaining -= 1;
        } else {
            out.insert(0, l[i - 1].clone());
            proof {
                assert(seq_view(out@) =~= seq![l@[i - 1]@] + pre);
                assert((rem_tail(part.drop_last(), v@, remaining as nat) + seq![part.last()]) + pre
                    =~= rem_tail(part.drop_last(), v@, remaining as nat) + (seq![l@[i - 1]@] + pre));
            }
        }
        i -= 1;
    }
    proof {
        assert(seq_view(l@).take(0) =~= Seq::<Seq<char>>::empty());
        assert(Seq::<Seq<char>>::empty() + seq_view(out@) =~= seq_view(out@));
    }
    out
}

/// An in-memory store holding the same shapes of data as the remote
/// store, with the command semantics stated exactly. It is the reference
/// the client's commands are understood against, and what the
/// authorization gate's decision is specified over.
pub struct MemStore {
    entries: Vec<(String, Entry)>,
}

pub open spec fn value_wf(v: StoredValue) -> bool {
    match v {
        StoredValue::Hash(h) => keys_unique(h@),
        _ => true,
    }
}

impl MemStore {
    /// Key uniqueness of the store and of every hash held in it.
    pub closed spec fn wf(self) -> bool {
        keys_unique(self.entries@) && forall|i: int|
            0 <= i < self.entries@.len() ==> value_wf((#[trigger] self.entries@[i]).1.val)
    }

    pub closed spec fn contents(self) -> Contents {
        assoc_map(self.entries@)
    }

    /// An empty store.
    pub fn new() -> (r: MemStore)
        ensures
            r.wf(),
            r.contents() == Map::<Seq<char>, EntryModel>::empty(),
    {
        MemStore { entries: Vec::new() }
    }

    /// Whether `k` is a live key.
    pub fn exists_key(&self, k: &str) -> (r: bool)
        requires
            self.wf(),
        ensures
            r == self.contents().contains_key(k@),
    {
        match assoc_find(&self.entries, k) {
            Some(_) => true,
            None => false,
        }
    }

    /// Reads the scalar value of `k`.
    pub fn get(&self, k: &str) -> (r: Result<String, StoreError>)
        requires
            self.wf(),
        ensures
            str_res_view(r) == get_model(self.contents(), k@),
    {
        match assoc_find(&self.entries, k) {
            None => Err(StoreError::Absent),
            Some(i) => match &self.entries[i].1.val {
                StoredValue::Str(s) => Ok(s.clone()),
                _ => Err(StoreError::TypeConversion),
            },
        }
    }

    /// Writes scalar `v` under `k`, replacing any previous value and
    /// clearing any time-to-live.
    pub fn set(&mut self, k: &str, v: &str)
        requires
            old(self).wf(),
        ensures
            final(self).wf(),
            final(self).contents() == old(self).contents().insert(k@, str_entry(v@)),
    {
        let entry = Entry { val: StoredValue::Str(String::from_str(v)), ttl: None };
        match assoc_find(&self.entries, k) {
            Some(i) => {
                let (key, _) = assoc_take(&mut self.entries, i);
                assoc_put(&mut self.entries, key, entry);
                proof {
                    assert(self.contents() =~= old(self).contents().insert(k@, str_entry(v@)));
                }
            },
            None => {
                assoc_put(&mut self.entries, String::from_str(k), entry);
            },
        }
    }

    /// Deletes the keys of `ks`, first to last, and reports how many were
    /// live; deleting a missing key is no error and adds nothing to the
    /// count.
    pub fn del(&mut self, ks: &Vec<String>) -> (r: usize)
        requires
            old(self).wf(),
        ensures
            final(self).wf(),
            final(self).contents() == del_model(old(self).contents(), seq_view(ks@)),
            r == del_count(old(self).contents(), seq_view(ks@)),
    {
        let mut n: usize = 0;
        let mut i: usize = 0;
        proof {
            assert(seq_view(ks@).skip(0) =~= seq_view(ks@));
        }
        while i < ks.len()
            invariant
                self.wf(),
                i <= ks@.len(),
                n <= i,
                del_model(old(self).contents(), seq_view(ks@)) == del_model(
                    self.contents(),
                    seq_view(ks@).skip(i as int),
                ),
                del_count(old(self).contents(), seq_view(ks@)) == n + del_count(
                    self.contents(),
                    seq_view(ks@).skip(i as int),
                ),
            decreases ks@.len() - i,
        {
            let ghost pre = self.contents();
            proof {
                assert(seq_view(ks@).skip(i as int)[0] == ks@[i as int]@);
                assert(seq_view(ks@).skip(i as int).drop_first() =~= seq_view(ks@).skip(
                    i as int + 1,
                ));
            }
            match assoc_find(&self.entries, ks[i].as_str()) {
                Some(j) => {
                    let _ = assoc_take(&mut self.entries, j);
                    n += 1;
                },
                None => {
                    proof {
                        assert(pre.remove(ks@[i as int]@) =~= pre);
                    }
                },
            }
            i += 1;
        }
        proof {
            assert(seq_view(ks@).skip(ks@.len() as int) =~= Seq::<Seq<char>>::empty());
        }
        n
    }

    /// Sets a time-to-live of `sec` seconds on `k`; reports whether the
    /// key was live.
    pub fn expire(&mut self, k: &str, sec: i64) -> (r: bool)
        requires
            old(self).wf(),
        ensures
            final(self).wf(),
            final(self).contents() == with_ttl(old(self).contents(), k@, sec),
            r == old(self).contents().contains_key(k@),
    {
        match assoc_find(&self.entries, k) {
            Some(i) => {
                let (key, e) = assoc_take(&mut self.entries, i);
                assoc_put(&mut self.entries, key, Entry { val: e.val, ttl: Some(sec) });
                proof {
                    assert(self.contents() =~= with_ttl(old(self).contents(), k@, sec));
                }
                true
            },
            None => false,
        }
    }

    /// Every live key that matches the glob `pattern`, each exactly once.
    pub fn keys(&self, pattern: &str) -> (r: Vec<String>)
        requires
            self.wf(),
        ensures
            forall|j: int| 0 <= j < r@.len() ==> self.contents().contains_key(
                (#[trigger] r@[j])@,
            ) && glob_matches(pattern@, r@[j]@),
            forall|k: Seq<char>|
                self.contents().contains_key(k) && glob_matches(pattern@, k) ==> exists|j: int|
                    0 <= j < r@.len() && (#[trigger] r@[j])@ == k,
            forall|a: int, b: int| 0 <= a < b < r@.len() ==> r@[a]@ != r@[b]@,
    {
        let mut out: Vec<String> = Vec::new();
        let mut i: usize = 0;
        while i < self.entries.len()
            invariant
                self.wf(),
                i <= self.entries@.len(),
                forall|j: int| 0 <= j < out@.len() ==> self.contents().contains_key(
                    (#[trigger] out@[j])@,
                ) && glob_matches(pattern@, out@[j]@),
                forall|m: int|
                    0 <= m < i && glob_matches(pattern@, (#[trigger] self.entries@[m]).0@)
                        ==> exists|j: int| 0 <= j < out@.len() && (#[trigger] out@[j])@
                        == self.entries@[m].0@,
                forall|a: int| 0 <= a < out@.len() ==> exists|m: int|
                    0 <= m < i && (#[trigger] out@[a])@ == (#[trigger] self.entries@[m]).0@,
                forall|a: int, b: int| 0 <= a < b < out@.len() ==> out@[a]@ != out@[b]@,
            decreases self.entries@.len() - i,
        {
            let ghost out0 = out@;
            let matched = glob_match(pattern, self.entries[i].0.as_str());
            if matched {
                proof {
                    crate::assoc::lemma_assoc_map_index(self.entries@, i as int);
                    assert forall|a: int| 0 <= a < out@.len() implies out@[a]@
                        != self.entries@[i as int].0@ by {
                        let m = choose|m: int|
                            0 <= m < i && (#[trigger] out@[a])@ == (#[trigger] self.entries@[m]).0@;
                        assert(self.entries@[m].0@ != self.entries@[i as int].0@);
                    }
                }
                out.push(self.entries[i].0.clone());
                proof {
                    assert(out@[out@.len() - 1]@ == self.entries@[i as int].0@);
                }
            }
            proof {
                assert forall|m: int|
                    0 <= m < i + 1 && glob_matches(pattern@, (#[trigger] self.entries@[m]).0@)
                        implies exists|j: int| 0 <= j < out@.len() && (#[trigger] out@[j])@
                    == self.entries@[m].0@ by {
                    if m < i {
                        let j = choose|j: int|
                            0 <= j < out0.len() && (#[trigger] out0[j])@ == self.entries@[m].0@;
                        assert(out@[j] == out0[j]);
                    } else {
                        assert(out@[out@.len() - 1]@ == self.entries@[m].0@);
                    }
                }
                assert forall|a: int| 0 <= a < out@.len() implies exists|m: int|
                    0 <= m < i + 1 && (#[trigger] out@[a])@ == (#[trigger] self.entries@[m]).0@ by {
                    if a < out0.len() {
                        let m = choose|m: int|
                            0 <= m < i && (#[trigger] out0[a])@ == (#[trigger] self.entries@[m]).0@;
                        assert(out@[a] == out0[a]);
                    } else {
                        assert(out@[a]@ == self.entries@[i as int].0@);
                    }
                }
            }
            i += 1;
        }
        proof {
            assert forall|k: Seq<char>|
                self.contents().contains_key(k) && glob_matches(pattern@, k) implies exists|j: int|
                0 <= j < out@.len() && (#[trigger] out@[j])@ == k by {
                lemma_assoc_map_contains(self.entries@, k);
            }
        }
        out
    }

    /// Sets field `f` of the hash under `k` to `v`.
    pub fn hset(&mut self, k: &str, f: &str, v: &str) -> (r: Result<(), StoreError>)
        requires
            old(self).wf(),
        ensures
            final(self).wf(),
            final(self).contents() == hset_model(old(self).contents(), k@, f@, v@),
            r == if hset_ok(old(self).contents(), k@) {
                Ok::<(), StoreError>(())
            } else {
                Err::<(), StoreError>(StoreError::TypeConversion)
            },
    {
        match assoc_find(&self.entries, k) {
            None => {
                let mut h: Vec<(String, String)> = Vec::new();
                assoc_put(&mut h, String::from_str(f), String::from_str(v));
                assoc_put(
                    &mut self.entries,
                    String::from_str(k),
                    Entry { val: StoredValue::Hash(h), ttl: None },
                );
                Ok(())
            },
            Some(i) => {
                let (key, e) = assoc_take(&mut self.entries, i);
                match e.val {
                    StoredValue::Hash(mut hv) => {
                        let ghost h0 = assoc_map(hv@);
                        match assoc_find(&hv, f) {
                            Some(j) => {
                                let (fkey, _) = assoc_take(&mut hv, j);
                                assoc_put(&mut hv, fkey, String::from_str(v));
                                proof {
                                    assert(assoc_map(hv@) =~= h0.insert(f@, v@));
                                }
                            },
                            None => {
                                assoc_put(&mut hv, String::from_str(f), String::from_str(v));
                            },
                        }
                        assoc_put(&mut self.entries, key, Entry { val: StoredValue::Hash(hv), ttl: e.ttl });
                        proof {
                            assert(self.contents() =~= hset_model(old(self).contents(), k@, f@, v@));
                        }
                        Ok(())
                    },
                    other => {
                        assoc_put(&mut self.entries, key, Entry { val: other, ttl: e.ttl });
                        proof {
                            assert(self.contents() =~= old(self).contents());
                        }
                        Err(StoreError::TypeConversion)
                    },
                }
            },
        }
    }

    /// Reads field `f` of the hash under `k`.
    pub fn hget(&self, k: &str, f: &str) -> (r: Result<String, StoreError>)
        requires
            self.wf(),
        ensures
            str_res_view(r) == hget_model(self.contents(), k@, f@),
    {
        match assoc_find(&self.entries, k) {
            None => Err(StoreError::Absent),
            Some(i) => match &self.entries[i].1.val {
                StoredValue::Hash(h) => match assoc_find(h, f) {
                    Some(j) => Ok(h[j].1.clone()),
                    None => Err(StoreError::Absent),
                },
                _ => Err(StoreError::TypeConversion),
            },
        }
    }

    /// Whether the hash under `k` has field `f`; a missing key has no
    /// fields, a key of another shape is a conversion failure.
    pub fn hexists(&self, k: &str, f: &str) -> (r: Result<bool, StoreError>)
        requires
            self.wf(),
        ensures
            r == if !self.contents().contains_key(k@) {
                Ok::<bool, StoreError>(false)
            } else {
                match self.contents()[k@].val {
                    ValueModel::Hash(h) => Ok::<bool, StoreError>(h.contains_key(f@)),
                    _ => Err::<bool, StoreError>(StoreError::TypeConversion),
                }
            },
    {
        match assoc_find(&self.entries, k) {
            None => Ok(false),
            Some(i) => match &self.entries[i].1.val {
                StoredValue::Hash(h) => match assoc_find(h, f) {
                    Some(_) => Ok(true),
                    None => Ok(false),
                },
                _ => Err(StoreError::TypeConversion),
            },
        }
    }

    /// Deletes field `f` of the hash under `k`; reports whether the field
    /// was present.
    pub fn hdel(&mut self, k: &str, f: &str) -> (r: Result<bool, StoreError>)
        requires
            old(self).wf(),
        ensures
            final(self).wf(),
            final(self).contents() == hdel_model(old(self).contents(), k@, f@),
            r == if !old(self).contents().contains_key(k@) {
                Ok::<bool, StoreError>(false)
            } else {
                match old(self).contents()[k@].val {
                    ValueModel::Hash(h) => Ok::<bool, StoreError>(h.contains_key(f@)),
                    _ => Err::<bool, StoreError>(StoreError::TypeConversion),
                }
            },
    {
        match assoc_find(&self.entries, k) {
            None => Ok(false),
            Some(i) => {
                let (key, e) = assoc_take(&mut self.entries, i);
                match e.val {
                    StoredValue::Hash(mut hv) => {
                        let ghost h0 = assoc_map(hv@);
                        match assoc_find(&hv, f) {
                            None => {
                                assoc_put(&mut self.entries, key, Entry { val: StoredValue::Hash(hv), ttl: e.ttl });
                                proof {
                                    assert(self.contents() =~= old(self).contents());
                                }
                                Ok(false)
                            },
                            Some(j) => {
                                let _ = assoc_take(&mut hv, j);
                                if hv.len() == 0 {
                                    proof {
                                        assert(assoc_map(hv@) =~= Map::<Seq<char>, Seq<char>>::empty());
                                        assert(self.contents() =~= old(self).contents().remove(k@));
                                    }
                                    Ok(true)
                                } else {
                                    proof {
                                        assert(assoc_map(hv@).contains_key(hv@.last().0@)) by {
                                            crate::assoc::lemma_assoc_map_index(hv@, hv@.len() - 1);
                                        }
                                        assert(assoc_map(hv@) != Map::<Seq<char>, Seq<char>>::empty());
                                    }
                                    assoc_put(&mut self.entries, key, Entry { val: StoredValue::Hash(hv), ttl: e.ttl });
                                    proof {
                                        assert(self.contents() =~= hdel_model(old(self).contents(), k@, f@));
                                    }
                                    Ok(true)
                                }
                            },
                        }
                    },
                    other => {
                        assoc_put(&mut self.entries, key, Entry { val: other, ttl: e.ttl });
                        proof {
                            assert(self.contents() =~= old(self).contents());
                        }
                        Err(StoreError::TypeConversion)
                    },
                }
            },
        }
    }

    /// Prepends `v` to the list under `k`, creating a fresh list (with no
    /// time-to-live) for a free key; reports the new length.
    pub fn lpush(&mut self, k: &str, v: &str) -> (r: Result<usize, StoreError>)
        requires
            old(self).wf(),
        ensures
            final(self).wf(),
            !old(self).contents().contains_key(k@) ==> final(self).contents() == old(
                self,
            ).contents().insert(
                k@,
                EntryModel { val: ValueModel::List(seq![v@]), ttl: None },
            ) && r == Ok::<usize, StoreError>(1),
            old(self).contents().contains_key(k@) ==> match old(self).contents()[k@].val {
                ValueModel::List(l) => final(self).contents() == old(self).contents().insert(
                    k@,
                    EntryModel {
                        val: ValueModel::List(seq![v@] + l),
                        ttl: old(self).contents()[k@].ttl,
                    },
                ) && r == Ok::<usize, StoreError>((l.len() + 1) as usize),
                _ => final(self).contents() == old(self).contents() && r == Err::<
                    usize,
                    StoreError,
                >(StoreError::TypeConversion),
            },
    {
        match assoc_find(&self.entries, k) {
            None => {
                let mut l: Vec<String> = Vec::new();
                l.push(String::from_str(v));
                proof {
                    assert(seq_view(l@) =~= seq![v@]);
                }
                assoc_put(
                    &mut self.entries,
                    String::from_str(k),
                    Entry { val: StoredValue::List(l), ttl: None },
                );
                Ok(1)
            },
            Some(i) => {
                let (key, e) = assoc_take(&mut self.entries, i);
                match e.val {
                    StoredValue::List(mut l) => {
                        let ghost l0 = seq_view(l@);
                        l.insert(0, String::from_str(v));
                        proof {
                            assert(seq_view(l@) =~= seq![v@] + l0);
                        }
                        let n = l.len();
                        assoc_put(&mut self.entries, key, Entry { val: StoredValue::List(l), ttl: e.ttl });
                        proof {
                            assert(self.contents() =~= old(self).contents().insert(
                                k@,
                                EntryModel {
                                    val: ValueModel::List(seq![v@] + l0),
                                    ttl: old(self).contents()[k@].ttl,
                                },
                            ));
                        }
                        Ok(n)
                    },
                    other => {
                        assoc_put(&mut self.entries, key, Entry { val: other, ttl: e.ttl });
                        proof {
                            assert(self.contents() =~= old(self).contents());
                        }
                        Err(StoreError::TypeConversion)
                    },
                }
            },
        }
    }

    /// The length of the list under `k`; a missing key counts as empty.
    pub fn llen(&self, k: &str) -> (r: Result<usize, StoreError>)
        requires
            self.wf(),
        ensures
            r == if !self.contents().contains_key(k@) {
                Ok::<usize, StoreError>(0)
            } else {
                match self.contents()[k@].val {
                    ValueModel::List(l) => Ok::<usize, StoreError>(l.len() as usize),
                    _ => Err::<usize, StoreError>(StoreError::TypeConversion),
                }
            },
    {
        match assoc_find(&self.entries, k) {
            None => Ok(0),
            Some(i) => match &self.entries[i].1.val {
                StoredValue::List(l) => Ok(l.len()),
                _ => Err(StoreError::TypeConversion),
            },
        }
    }

    /// Reads the inclusive range `[start, stop]` of the list under `k`;
    /// a missing key reads as empty.
    pub fn lrange(&self, k: &str, start: i64, stop: i64) -> (r: Result<Vec<String>, StoreError>)
        requires
            self.wf(),
        ensures
            !self.contents().contains_key(k@) ==> (r matches Ok(out) && out@.len() == 0),
            self.contents().contains_key(k@) ==> match self.contents()[k@].val {
                ValueModel::List(l) => (r matches Ok(out) && seq_view(out@) == slice_model(
                    l,
                    start as int,
                    stop as int,
                )),
                _ => (r matches Err(e) && e == StoreError::TypeConversion),
            },
    {
        match assoc_find(&self.entries, k) {
            None => Ok(Vec::new()),
            Some(i) => match &self.entries[i].1.val {
                StoredValue::List(l) => Ok(list_slice(l, start, stop)),
                _ => Err(StoreError::TypeConversion),
            },
        }
    }

    /// Keeps only the inclusive range `[start, stop]` of the list under
    /// `k`; a list trimmed to nothing leaves with its key, and a missing
    /// key is no error.
    pub fn ltrim(&mut self, k: &str, start: i64, stop: i64) -> (r: Result<(), StoreError>)
        requires
            old(self).wf(),
        ensures
            final(self).wf(),
            !old(self).contents().contains_key(k@) ==> final(self).contents() == old(
                self,
            ).contents() && r == Ok::<(), StoreError>(()),
            old(self).contents().contains_key(k@) ==> match old(self).contents()[k@].val {
                ValueModel::List(l) => r == Ok::<(), StoreError>(()) && final(self).contents()
                    == if slice_model(l, start as int, stop as int).len() == 0 {
                    old(self).contents().remove(k@)
                } else {
                    old(self).contents().insert(
                        k@,
                        EntryModel {
                            val: ValueModel::List(slice_model(l, start as int, stop as int)),
                            ttl: old(self).contents()[k@].ttl,
                        },
                    )
                },
                _ => final(self).contents() == old(self).contents() && r == Err::<
                    (),
                    StoreError,
                >(StoreError::TypeConversion),
            },
    {
        match assoc_find(&self.entries, k) {
            None => Ok(()),
            Some(i) => {
                let (key, e) = assoc_take(&mut self.entries, i);
                match e.val {
                    StoredValue::List(l) => {
                        let kept = list_slice(&l, start, stop);
                        if kept.len() == 0 {
                            proof {
                                assert(self.contents() =~= old(self).contents().remove(k@));
                            }
                        } else {
                            assoc_put(&mut self.entries, key, Entry { val: StoredValue::List(kept), ttl: e.ttl });
                            proof {
                                assert(self.contents() =~= old(self).contents().insert(
                                    k@,
                                    EntryModel {
                                        val: ValueModel::List(
                                            slice_model(
                                                seq_view(l@),
                                                start as int,
                                                stop as int,
                                            ),
                                        ),
                                        ttl: old(self).contents()[k@].ttl,
                                    },
                                ));
                            }
                        }
                        Ok(())
                    },
                    other => {
                        assoc_put(&mut self.entries, key, Entry { val: other, ttl: e.ttl });
                        proof {
                            assert(self.contents() =~= old(self).contents());
                        }
                        Err(StoreError::TypeConversion)
                    },
                }
            },
        }
    }

    /// Removes occurrences of `v` from the list under `k` — from the head
    /// for a positive `count`, from the tail for a negative one, all of
    /// them for zero — and reports how many left; a list emptied this way
    /// leaves with its key, and a missing key removes nothing.
    pub fn lrem(&mut self, k: &str, count: i64, v: &str) -> (r: Result<usize, StoreError>)
        requires
            old(self).wf(),
        ensures
            final(self).wf(),
            !old(self).contents().contains_key(k@) ==> final(self).contents() == old(
                self,
            ).contents() && r == Ok::<usize, StoreError>(0),
            old(self).contents().contains_key(k@) ==> match old(self).contents()[k@].val {
                ValueModel::List(l) => r == Ok::<usize, StoreError>(
                    (l.len() - lrem_list(l, count, v@).len()) as usize,
                ) && final(self).contents() == if lrem_list(l, count, v@).len() == 0 {
                    old(self).contents().remove(k@)
                } else {
                    old(self).contents().insert(
                        k@,
                        EntryModel {
                            val: ValueModel::List(lrem_list(l, count, v@)),
                            ttl: old(self).contents()[k@].ttl,
                        },
                    )
                },
                _ => final(self).contents() == old(self).contents() && r == Err::<
                    usize,
                    StoreError,
                >(StoreError::TypeConversion),
            },
    {
        match assoc_find(&self.entries, k) {
            None => Ok(0),
            Some(i) => {
                let (key, e) = assoc_take(&mut self.entries, i);
                match e.val {
                    StoredValue::List(l) => {
                        let kept: Vec<String> = if count > 0 {
                            list_rem_head(&l, v, count as u64)
                        } else if count < 0 {
                            let mag: i128 = -(count as i128);
                            list_rem_tail(&l, v, mag as u64)
                        } else {
                            list_rem_head(&l, v, l.len() as u64)
                        };
                        proof {
                            if count > 0 {
                                lemma_rem_head_len(seq_view(l@), v@, count as nat);
                            } else if count < 0 {
                                lemma_rem_tail_len(seq_view(l@), v@, (-(count as int)) as nat);
                            } else {
                                lemma_rem_head_len(seq_view(l@), v@, seq_view(l@).len());
                            }
                        }
                        let removed = l.len() - kept.len();
                        if kept.len() == 0 {
                            proof {
                                assert(self.contents() =~= old(self).contents().remove(k@));
                            }
                            Ok(removed)
                        } else {
                            assoc_put(&mut self.entries, key, Entry { val: StoredValue::List(kept), ttl: e.ttl });
                            proof {
                                assert(self.contents() =~= old(self).contents().insert(
                                    k@,
                                    EntryModel {
                                        val: ValueModel::List(lrem_list(seq_view(l@), count, v@)),
                                        ttl: old(self).contents()[k@].ttl,
                                    },
                                ));
                            }
                            Ok(removed)
                        }
                    },
                    other => {
                        assoc_put(&mut self.entries, key, Entry { val: other, ttl: e.ttl });
                        proof {
                            assert(self.contents() =~= old(self).contents());
                        }
                        Err(StoreError::TypeConversion)
                    },
                }
            },
        }
    }

    /// The time-to-live set on `k`, if the key is live and one was set.
    pub fn ttl_of(&self, k: &str) -> (r: Option<i64>)
        requires
            self.wf(),
        ensures
            r == if self.contents().contains_key(k@) {
                self.contents()[k@].ttl
            } else {
                None::<i64>
            },
    {
        match assoc_find(&self.entries, k) {
            None => None,
            Some(i) => self.entries[i].1.ttl,
        }
    }
}

} // verus!
