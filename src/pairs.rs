//! Key/value pairs taken from a node's children, and the mapping they fold
//! into: keys unique, a later pair overwriting an earlier one.

use crate::xml::entries_view;
use vstd::prelude::*;
use vstd::string::StringExecFns;

verus! {

/// A pair of strings as a pair of character sequences.
pub open spec fn pairs_view(v: Seq<(String, String)>) -> Seq<(Seq<char>, Seq<char>)> {
    v.map_values(|p: (String, String)| (p.0@, p.1@))
}

/// The mapping that the pairs fold into, in order: a later pair with the
/// same key overwrites an earlier one.
pub open spec fn kv_map(pairs: Seq<(Seq<char>, Seq<char>)>) -> Map<Seq<char>, Seq<char>>
    decreases pairs.len(),
{
    if pairs.len() == 0 {
        Map::empty()
    } else {
        kv_map(pairs.drop_last()).insert(pairs.last().0, pairs.last().1)
    }
}

/// The keys of the pairs, in order.
pub open spec fn keys_of(pairs: Seq<(Seq<char>, Seq<char>)>) -> Seq<Seq<char>> {
    pairs.map_values(|p: (Seq<char>, Seq<char>)| p.0)
}

/// Each key of the pairs once, in the order of its first occurrence.
pub open spec fn first_keys(pairs: Seq<(Seq<char>, Seq<char>)>) -> Seq<Seq<char>>
    decreases pairs.len(),
{
    if pairs.len() == 0 {
        Seq::empty()
    } else {
        let earlier = first_keys(pairs.drop_last());
        if earlier.contains(pairs.last().0) {
            earlier
        } else {
            earlier.push(pairs.last().0)
        }
    }
}

/// No key occurs twice.
pub open spec fn keys_unique(pairs: Seq<(Seq<char>, Seq<char>)>) -> bool {
    forall|a: int, b: int| 0 <= a < b < pairs.len() ==> pairs[a].0 != pairs[b].0
}

/// Every entry has a name.
pub open spec fn all_named(entries: Seq<(Option<Seq<char>>, Seq<char>)>) -> bool {
    forall|i: int| 0 <= i < entries.len() ==> (#[trigger] entries[i]).0 is Some
}

/// The named entries as pairs of name and text.
pub open spec fn named_pairs(entries: Seq<(Option<Seq<char>>, Seq<char>)>) -> Seq<(Seq<char>, Seq<char>)> {
    entries.map_values(|e: (Option<Seq<char>>, Seq<char>)| (e.0->0, e.1))
}

/// A key is in the mapping exactly where some pair carries it.
pub proof fn lemma_kv_map_keys(pairs: Seq<(Seq<char>, Seq<char>)>, k: Seq<char>)
    ensures
        kv_map(pairs).contains_key(k) <==> exists|i: int| 0 <= i < pairs.len() && pairs[i].0 == k,
    decreases pairs.len(),
{
    if pairs.len() > 0 {
        let init = pairs.drop_last();
        lemma_kv_map_keys(init, k);
        if exists|i: int| 0 <= i < init.len() && init[i].0 == k {
            let i = choose|i: int| 0 <= i < init.len() && init[i].0 == k;
            assert(pairs[i].0 == k);
        }
        if exists|i: int| 0 <= i < pairs.len() && pairs[i].0 == k {
            let i = choose|i: int| 0 <= i < pairs.len() && pairs[i].0 == k;
            if i < init.len() {
                assert(init[i].0 == k);
            }
        }
    }
}

/// A later pair with the same key wins: the value of a key is the value of
/// the last pair that carries it.
pub proof fn lemma_last_pair_wins(pairs: Seq<(Seq<char>, Seq<char>)>, i: int)
    requires
        0 <= i < pairs.len(),
        forall|j: int| i < j < pairs.len() ==> pairs[j].0 != pairs[i].0,
    ensures
        kv_map(pairs).contains_key(pairs[i].0),
        kv_map(pairs)[pairs[i].0] == pairs[i].1,
    decreases pairs.len(),
{
    if i < pairs.len() - 1 {
        let init = pairs.drop_last();
        assert forall|j: int| i < j < init.len() implies init[j].0 != init[i].0 by {
            assert(pairs[j].0 != pairs[i].0);
        }
        lemma_last_pair_wins(init, i);
        assert(pairs.last().0 != pairs[i].0);
    }
}

/// With each key once, the mapping has one key per pair.
proof fn lemma_kv_map_len(pairs: Seq<(Seq<char>, Seq<char>)>)
    requires
        keys_unique(pairs),
    ensures
        kv_map(pairs).dom().finite(),
        kv_map(pairs).len() == pairs.len(),
    decreases pairs.len(),
{
    if pairs.len() > 0 {
        let init = pairs.drop_last();
        lemma_kv_map_len(init);
        lemma_kv_map_keys(init, pairs.last().0);
        if kv_map(init).contains_key(pairs.last().0) {
            let i = choose|i: int| 0 <= i < init.len() && init[i].0 == pairs.last().0;
            assert(pairs[i].0 == pairs[pairs.len() - 1].0);
        }
    }
}

/// Rewriting the value of a key that occurs once updates the mapping.
proof fn lemma_kv_map_update(pairs: Seq<(Seq<char>, Seq<char>)>, j: int, v: Seq<char>)
    requires
        keys_unique(pairs),
        0 <= j < pairs.len(),
    ensures
        kv_map(pairs.update(j, (pairs[j].0, v))) == kv_map(pairs).insert(pairs[j].0, v),
    decreases pairs.len(),
{
    let k = pairs[j].0;
    let updated = pairs.update(j, (k, v));
    let init = pairs.drop_last();
    if j == pairs.len() - 1 {
        assert(updated.drop_last() =~= init);
        assert(kv_map(updated) =~= kv_map(pairs).insert(k, v));
    } else {
        assert(updated.drop_last() =~= init.update(j, (k, v)));
        lemma_kv_map_update(init, j, v);
        assert(pairs.last().0 != k);
        assert(kv_map(updated) =~= kv_map(pairs).insert(k, v));
    }
}

/// The entries as pairs, where each has a name; `MissingName` where one
/// lacks it.
pub fn name_entries(entries: &Vec<(Option<String>, String)>) -> (r: Result<Vec<(String, String)>, crate::extract::LogicError>)
    ensures
        r is Ok <==> all_named(entries_view(entries@)),
        r is Err ==> r->Err_0 is MissingName,
        r is Ok ==> pairs_view(r->Ok_0@) == named_pairs(entries_view(entries@)),
{
    let mut out: Vec<(String, String)> = Vec::new();
    let mut i: usize = 0;
    while i < entries.len()
        invariant
            i <= entries.len(),
            out@.len() == i,
            forall|m: int| 0 <= m < i ==> (#[trigger] entries@[m]).0 is Some,
            forall|m: int|
                0 <= m < i ==> (#[trigger] out@[m]).0@ == entries@[m].0->0@ && out@[m].1@
                    == entries@[m].1@,
        decreases entries.len() - i,
    {
        let name = match &entries[i].0 {
            Some(name) => name.clone(),
            None => {
                assert(entries_view(entries@)[i as int].0 is None);
                return Err(crate::extract::LogicError::MissingName);
            },
        };
        out.push((name, entries[i].1.clone()));
        i = i + 1;
    }
    assert forall|m: int| 0 <= m < entries@.len() implies (#[trigger] entries_view(entries@)[m]).0 is Some by {
        assert(entries@[m].0 is Some);
    }
    assert(pairs_view(out@) =~= named_pairs(entries_view(entries@)));
    Ok(out)
}

/// A mapping from tag names to text, kept as its entries in the order in
/// which their keys first came, each key once.
pub struct KeyValues {
    entries: Vec<(String, String)>,
}

impl KeyValues {
    /// The mapping.
    pub closed spec fn view(&self) -> Map<Seq<char>, Seq<char>> {
        kv_map(pairs_view(self.entries@))
    }

    /// The keys, in the order in which they first came.
    pub closed spec fn keys(&self) -> Seq<Seq<char>> {
        keys_of(pairs_view(self.entries@))
    }

    /// Each key is held once.
    pub closed spec fn wf(&self) -> bool {
        keys_unique(pairs_view(self.entries@))
    }

    /// The value held for `key`.
    pub fn get(&self, key: &str) -> (r: Option<String>)
        requires
            self.wf(),
        ensures
            r is Some <==> self.view().contains_key(key@),
            r is Some ==> r->0@ == self.view()[key@],
    {
        let ghost pv = pairs_view(self.entries@);
        let wanted = String::from_str(key);
        let mut j: usize = 0;
        while j < self.entries.len()
            invariant
                j <= self.entries.len(),
                pv == pairs_view(self.entries@),
                keys_unique(pv),
                wanted@ == key@,
                forall|m: int| 0 <= m < j ==> pv[m].0 != key@,
            decreases self.entries.len() - j,
        {
            assert(pv[j as int] == (self.entries@[j as int].0@, self.entries@[j as int].1@));
            if self.entries[j].0 == wanted {
                proof {
                    assert(keys_unique(pv));
                    assert forall|k: int| j < k < pv.len() implies pv[k].0 != pv[j as int].0 by {
                        assert(pv[j as int].0 != pv[k].0);
                    }
                    lemma_last_pair_wins(pv, j as int);
                }
                return Some(self.entries[j].1.clone());
            }
            j = j + 1;
        }
        proof {
            lemma_kv_map_keys(pv, key@);
        }
        None
    }

    /// The entries, each key once, in the order in which the keys first came.
    pub fn pairs(&self) -> (r: &Vec<(String, String)>)
        requires
            self.wf(),
        ensures
            keys_unique(pairs_view(r@)),
            kv_map(pairs_view(r@)) == self.view(),
            keys_of(pairs_view(r@)) == self.keys(),
    {
        &self.entries
    }

    /// The number of keys.
    pub fn len(&self) -> (r: usize)
        requires
            self.wf(),
        ensures
            r == self.view().len(),
    {
        proof {
            lemma_kv_map_len(pairs_view(self.entries@));
        }
        self.entries.len()
    }

    /// Folds `pairs` into a mapping, in order, a later value of a key
    /// overwriting an earlier one.
    pub fn from_pairs(pairs: &Vec<(String, String)>) -> (r: KeyValues)
        ensures
            r.wf(),
            r.view() == kv_map(pairs_view(pairs@)),
            r.keys() == first_keys(pairs_view(pairs@)),
    {
        let mut entries: Vec<(String, String)> = Vec::new();
        let mut i: usize = 0;
        while i < pairs.len()
            invariant
                i <= pairs.len(),
                keys_unique(pairs_view(entries@)),
                kv_map(pairs_view(entries@)) == kv_map(pairs_view(pairs@).take(i as int)),
                keys_of(pairs_view(entries@)) == first_keys(pairs_view(pairs@).take(i as int)),
            decreases pairs.len() - i,
        {
            let key = pairs[i].0.clone();
            let value = pairs[i].1.clone();
            let ghost before = pairs_view(entries@);
            assert(pairs_view(pairs@).take(i + 1).drop_last() =~= pairs_view(pairs@).take(i as int));
            let mut j: usize = 0;
            let mut found = false;
            while j < entries.len() && !found
                invariant
                    j <= entries.len(),
                    before == pairs_view(entries@),
                    found ==> j < entries.len() && before[j as int].0 == key@,
                    forall|m: int| 0 <= m < j ==> before[m].0 != key@,
                decreases entries.len() - j + (if found { 0int } else { 1int }),
            {
                if entries[j].0 == key {
                    found = true;
                } else {
                    j = j + 1;
                }
            }
            if found {
                proof {
                    lemma_kv_map_update(before, j as int, value@);
                }
                entries[j] = (key, value);
                assert(pairs_view(entries@) =~= before.update(j as int, (before[j as int].0, value@)));
                assert(keys_of(pairs_view(entries@)) =~= keys_of(before));
                assert(keys_of(before)[j as int] == key@);
            } else {
                entries.push((key, value));
                let ghost after = pairs_view(entries@);
                assert(after.drop_last() =~= before);
                assert(keys_of(after) =~= keys_of(before).push(key@));
                assert(!keys_of(before).contains(key@)) by {
                    if keys_of(before).contains(key@) {
                        let m = choose|m: int| 0 <= m < keys_of(before).len() && keys_of(before)[m] == key@;
                        assert(before[m].0 == key@);
                    }
                }
                assert forall|a: int, b: int| 0 <= a < b < after.len() implies after[a].0
                    != after[b].0 by {
                    if b == after.len() - 1 {
                        assert(before[a].0 != key@);
                    } else {
                        assert(before[a].0 != before[b].0);
                    }
                }
            }
            i = i + 1;
        }
        assert(pairs_view(pairs@).take(i as int) =~= pairs_view(pairs@));
        KeyValues { entries }
    }
}

} // verus!
