//! A string-keyed counter that remembers its keys, so that its entries can be
//! listed and ranked.

use vstd::hash_map::StringHashMap;
use vstd::prelude::*;

use crate::text::{seq_lt, views};

verus! {

/// Counts per string key.
pub struct CountTable {
    counts: StringHashMap<u64>,
    keys: Vec<String>,
}

/// One ranked entry: a key and its count.
#[derive(Clone, Debug)]
pub struct CountItem {
    pub key: String,
    pub count: u64,
}

/// `a` ranks before `b`: a larger count first, equal counts by key.
pub open spec fn ranks_before(a: (Seq<char>, u64), b: (Seq<char>, u64)) -> bool {
    a.1 > b.1 || (a.1 == b.1 && seq_lt(a.0, b.0))
}

pub open spec fn item_view(i: CountItem) -> (Seq<char>, u64) {
    (i.key@, i.count)
}

pub proof fn lemma_ranks_transitive(a: (Seq<char>, u64), b: (Seq<char>, u64), c: (Seq<char>, u64))
    requires
        ranks_before(a, b),
        ranks_before(b, c),
    ensures
        ranks_before(a, c),
{
    if a.1 == b.1 && b.1 == c.1 {
        crate::text::lemma_seq_lt_transitive(a.0, b.0, c.0);
    }
}

pub proof fn lemma_ranks_total(a: (Seq<char>, u64), b: (Seq<char>, u64))
    requires
        a.0 != b.0,
    ensures
        ranks_before(a, b) || ranks_before(b, a),
        !(ranks_before(a, b) && ranks_before(b, a)),
{
    crate::text::lemma_seq_lt_total(a.0, b.0);
}

impl View for CountTable {
    type V = Map<Seq<char>, u64>;

    closed spec fn view(&self) -> Map<Seq<char>, u64> {
        self.counts@
    }
}

impl CountTable {
    /// The table's keys are exactly its remembered keys, each once.
    pub closed spec fn wf(&self) -> bool {
        &&& views(self.keys@).no_duplicates()
        &&& views(self.keys@).to_set() == self.counts@.dom()
    }

    /// An empty table.
    pub fn new() -> (r: Self)
        ensures
            r.wf(),
            r@ == Map::<Seq<char>, u64>::empty(),
    {
        let r = CountTable { counts: StringHashMap::new(), keys: Vec::new() };
        assert(views(r.keys@).to_set() =~= Set::empty());
        r
    }

    pub proof fn lemma_len(&self)
        requires
            self.wf(),
        ensures
            self@.dom().finite(),
    {
        views(self.keys@).unique_seq_to_set();
    }

    proof fn lemma_len_keys(&self)
        requires
            self.wf(),
        ensures
            self@.dom().finite(),
            self@.len() == self.keys@.len(),
    {
        views(self.keys@).unique_seq_to_set();
    }

    /// How many distinct keys are counted.
    pub fn len(&self) -> (r: usize)
        requires
            self.wf(),
        ensures
            r == self@.len(),
    {
        proof {
            self.lemma_len_keys();
        }
        self.keys.len()
    }

    /// The count of `key`, if it is present.
    pub fn get(&self, key: &str) -> (r: Option<u64>)
        ensures
            match r {
                Some(c) => self@.contains_key(key@) && c == self@[key@],
                None => !self@.contains_key(key@),
            },
    {
        match self.counts.get(key) {
            Some(c) => Some(*c),
            None => None,
        }
    }

    /// Sets `key` to `value`, remembering it when it is new.
    pub fn set(&mut self, key: String, value: u64)
        requires
            old(self).wf(),
        ensures
            final(self).wf(),
            final(self)@ == old(self)@.insert(key@, value),
    {
        if !self.counts.contains_key(key.as_str()) {
            let ghost old_keys = views(self.keys@);
            self.keys.push(key.clone());
            proof {
                broadcast use vstd::seq_lib::group_seq_properties;
                assert(views(self.keys@) == old_keys.push(key@));
                assert(!old_keys.contains(key@));
                assert(views(self.keys@).to_set() =~= old_keys.to_set().insert(key@));
            }
        }
        self.counts.insert(key, value);
        assert(views(self.keys@).to_set() =~= self.counts@.dom());
    }
}

/// Adds one to `key`'s count when it is counted already; adds it with count 1
/// while fewer than `cap` keys are counted; otherwise leaves the table as it
/// is and marks the result as approximate.
pub fn bump_capped_at(map: &mut CountTable, key: String, truncated: &mut bool, cap: usize)
    requires
        old(map).wf(),
        old(map)@.contains_key(key@) ==> old(map)@[key@] < u64::MAX,
    ensures
        final(map).wf(),
        old(map)@.contains_key(key@) ==> final(map)@ == old(map)@.insert(key@, (old(map)@[key@]
            + 1) as u64) && *final(truncated) == *old(truncated),
        !old(map)@.contains_key(key@) && old(map)@.len() < cap ==> final(map)@ == old(map)@.insert(
            key@,
            1,
        ) && *final(truncated) == *old(truncated),
        !old(map)@.contains_key(key@) && old(map)@.len() >= cap ==> final(map)@ == old(map)@
            && *final(truncated),
{
    match map.get(key.as_str()) {
        Some(count) => {
            map.set(key, count + 1);
        },
        None => {
            if map.len() < cap {
                map.set(key, 1);
            } else {
                *truncated = true;
            }
        },
    }
}

/// `items` are the `n` entries of `m` that rank first (all of them when
/// there are fewer), in rank order: larger counts first, equal counts by
/// key; every entry left out ranks after all of them.
pub open spec fn is_top_n(items: Seq<(Seq<char>, u64)>, m: Map<Seq<char>, u64>, n: usize) -> bool {
    &&& items.len() == if n < m.len() { n as int } else { m.len() as int }
    &&& forall|i: int| 0 <= i < items.len() ==> m.contains_key(#[trigger] items[i].0) && m[items[i].0] == items[i].1
    &&& forall|i: int, j: int| 0 <= i < j < items.len() ==> ranks_before(#[trigger] items[i], #[trigger] items[j])
    &&& forall|k: Seq<char>|
        #![trigger m[k]]
        m.contains_key(k) && (forall|i: int| 0 <= i < items.len() ==> items[i].0 != k) ==> forall|i: int|
            0 <= i < items.len() ==> ranks_before(#[trigger] items[i], (k, m[k]))
}

pub open spec fn items_view(items: Seq<CountItem>) -> Seq<(Seq<char>, u64)> {
    items.map_values(|i: CountItem| item_view(i))
}

/// The `top_n` entries with the largest counts, ties broken by key order.
pub fn top_n_items(map: &CountTable, top_n: usize) -> (r: Vec<CountItem>)
    requires
        map.wf(),
    ensures
        is_top_n(items_view(r@), map@, top_n),
        r@.len() == if top_n < map@.len() { top_n as int } else { map@.len() as int },
        forall|i: int|
            0 <= i < r@.len() ==> map@.contains_key(#[trigger] r@[i].key@) && map@[r@[i].key@]
                == r@[i].count,
        forall|i: int, j: int|
            0 <= i < j < r@.len() ==> ranks_before(item_view(#[trigger] r@[i]), item_view(#[trigger] r@[j])),
        forall|k: Seq<char>|
            #![trigger map@[k]]
            map@.contains_key(k) && (forall|i: int| 0 <= i < r@.len() ==> r@[i].key@ != k)
                ==> forall|i: int| 0 <= i < r@.len() ==> ranks_before(item_view(#[trigger] r@[i]), (k, map@[k])),
{
    proof {
        map.lemma_len_keys();
    }
    let keys = &map.keys;
    let ghost kv = views(keys@);
    let n = keys.len();
    let m = if top_n < n { top_n } else { n };
    let mut chosen: Vec<bool> = Vec::new();
    let mut j: usize = 0;
    while j < n
        invariant
            j <= n,
            chosen@.len() == j,
            forall|q: int| 0 <= q < j ==> !#[trigger] chosen@[q],
        decreases n - j,
    {
        chosen.push(false);
        j += 1;
    }
    let mut out: Vec<CountItem> = Vec::new();
    let ghost mut sel: Seq<int> = Seq::empty();
    while out.len() < m
        invariant
            map.wf(),
            keys == &map.keys,
            kv == views(keys@),
            n == keys@.len(),
            m <= n,
            chosen@.len() == n,
            out@.len() <= m,
            sel.len() == out@.len(),
            forall|i: int| 0 <= i < sel.len() ==> 0 <= #[trigger] sel[i] < n,
            forall|i: int| 0 <= i < sel.len() ==> chosen@[#[trigger] sel[i]],
            forall|q: int|
                0 <= q < n && #[trigger] chosen@[q] ==> exists|i: int| 0 <= i < sel.len() && sel[i] == q,
            forall|i: int|
                0 <= i < out@.len() ==> (#[trigger] out@[i]).key@ == kv[sel[i]] && out@[i].count
                    == map@[kv[sel[i]]],
            forall|i: int, p: int|
                0 <= i < p < out@.len() ==> ranks_before(item_view(#[trigger] out@[i]), item_view(#[trigger] out@[p])),
            forall|i: int, q: int|
                0 <= i < out@.len() && 0 <= q < n && !#[trigger] chosen@[q] ==> ranks_before(
                    item_view(#[trigger] out@[i]),
                    (kv[q], map@[kv[q]]),
                ),
        decreases m - out@.len(),
    {
        // Some key is still unchosen, because fewer than `n` have been taken.
        proof {
            if forall|q: int| 0 <= q < n ==> #[trigger] chosen@[q] {
                let range = vstd::set_lib::set_int_range(0, n as int);
                vstd::set_lib::lemma_int_range(0, n as int);
                assert forall|q: int| range.contains(q) implies sel.to_set().contains(q) by {
                    assert(chosen@[q]);
                    let i = choose|i: int| 0 <= i < sel.len() && sel[i] == q;
                    assert(sel.contains(q));
                }
                vstd::set_lib::lemma_len_subset(range, sel.to_set());
                sel.lemma_cardinality_of_set();
                assert(false);
            }
        }
        let mut best: usize = n;
        let mut q: usize = 0;
        while q < n
            invariant
                map.wf(),
                keys == &map.keys,
                kv == views(keys@),
                n == keys@.len(),
                chosen@.len() == n,
                q <= n,
                best == n || (best < q && !chosen@[best as int]),
                best == n ==> forall|p: int| 0 <= p < q ==> #[trigger] chosen@[p],
                best < n ==> forall|p: int|
                    0 <= p < q && !#[trigger] chosen@[p] && p != best ==> ranks_before(
                        (kv[best as int], map@[kv[best as int]]),
                        (kv[p], map@[kv[p]]),
                    ),
            decreases n - q,
        {
            if !chosen[q] {
                if best == n {
                    best = q;
                } else {
                    proof {
                        assert(kv[q as int] == keys@[q as int]@);
                        assert(kv[best as int] == keys@[best as int]@);
                        assert(kv.to_set().contains(kv[q as int]));
                        assert(kv.to_set().contains(kv[best as int]));
                    }
                    let cq = *map.counts.get(keys[q].as_str()).unwrap();
                    let cb = *map.counts.get(keys[best].as_str()).unwrap();
                    if cq > cb || (cq == cb && crate::text::str_lt(
                        keys[q].as_str(),
                        keys[best].as_str(),
                    )) {
                        proof {
                            let a = (kv[q as int], map@[kv[q as int]]);
                            let b = (kv[best as int], map@[kv[best as int]]);
                            assert forall|p: int|
                                0 <= p < q + 1 && !#[trigger] chosen@[p] && p != q implies ranks_before(
                                a,
                                (kv[p], map@[kv[p]]),
                            ) by {
                                if p != best {
                                    lemma_ranks_transitive(a, b, (kv[p], map@[kv[p]]));
                                }
                            }
                        }
                        best = q;
                    } else {
                        proof {
                            assert(kv[q as int] != kv[best as int]);
                            lemma_ranks_total(
                                (kv[q as int], map@[kv[q as int]]),
                                (kv[best as int], map@[kv[best as int]]),
                            );
                        }
                    }
                }
            }
            q += 1;
        }
        proof {
            assert(kv[best as int] == keys@[best as int]@);
            assert(kv.to_set().contains(kv[best as int]));
        }
        let c = *map.counts.get(keys[best].as_str()).unwrap();
        let item = CountItem { key: keys[best].clone(), count: c };
        let ghost old_out = out@;
        let ghost old_chosen = chosen@;
        let ghost old_sel = sel;
        out.push(item);
        chosen.set(best, true);
        proof {
            sel = sel.push(best as int);
            assert forall|q: int|
                0 <= q < n && #[trigger] chosen@[q] implies exists|i: int| 0 <= i < sel.len() && sel[i] == q by {
                if q == best {
                    assert(sel[sel.len() - 1] == q);
                } else {
                    assert(old_chosen[q]);
                    let i = choose|i: int| 0 <= i < old_sel.len() && old_sel[i] == q;
                    assert(sel[i] == q);
                }
            }
            assert forall|i: int| 0 <= i < out@.len() implies (#[trigger] out@[i]).key@ == kv[sel[i]]
                && out@[i].count == map@[kv[sel[i]]] by {
                if i < old_out.len() {
                    assert(out@[i] == old_out[i]);
                }
            }
            assert forall|i: int, p: int|
                0 <= i < p < out@.len() implies ranks_before(item_view(#[trigger] out@[i]), item_view(#[trigger] out@[p])) by {
                if p == out@.len() - 1 {
                    assert(out@[i] == old_out[i]);
                    assert(!old_chosen[best as int]);
                } else {
                    assert(out@[i] == old_out[i]);
                    assert(out@[p] == old_out[p]);
                }
            }
            assert forall|i: int, q: int|
                0 <= i < out@.len() && 0 <= q < n && !#[trigger] chosen@[q] implies ranks_before(
                item_view(#[trigger] out@[i]),
                (kv[q], map@[kv[q]]),
            ) by {
                assert(q != best);
                assert(!old_chosen[q]);
                if i < old_out.len() {
                    assert(out@[i] == old_out[i]);
                }
            }
        }
    }
    proof {
        assert forall|i: int|
            0 <= i < out@.len() implies map@.contains_key(#[trigger] out@[i].key@) && map@[out@[i].key@]
            == out@[i].count by {
            assert(kv.to_set().contains(kv[sel[i]]));
        }
        assert forall|k: Seq<char>|
            #![trigger map@[k]]
            map@.contains_key(k) && (forall|i: int| 0 <= i < out@.len() ==> out@[i].key@ != k)
            implies forall|i: int| 0 <= i < out@.len() ==> ranks_before(item_view(#[trigger] out@[i]), (k, map@[k])) by {
            assert(kv.to_set().contains(k));
            let q = choose|q: int| 0 <= q < kv.len() && kv[q] == k;
            if chosen@[q] {
                let i = choose|i: int| 0 <= i < sel.len() && sel[i] == q;
                assert(out@[i].key@ == k);
            }
        }
        let iv = items_view(out@);
        assert forall|i: int| 0 <= i < iv.len() implies map@.contains_key(#[trigger] iv[i].0) && map@[iv[i].0]
            == iv[i].1 by {
            assert(iv[i] == item_view(out@[i]));
        }
        assert forall|i: int, j: int| 0 <= i < j < iv.len() implies ranks_before(#[trigger] iv[i], #[trigger] iv[j]) by {
            assert(iv[i] == item_view(out@[i]));
            assert(iv[j] == item_view(out@[j]));
        }
        assert forall|k: Seq<char>|
            #![trigger map@[k]]
            map@.contains_key(k) && (forall|i: int| 0 <= i < iv.len() ==> iv[i].0 != k) implies forall|i: int|
                0 <= i < iv.len() ==> ranks_before(#[trigger] iv[i], (k, map@[k])) by {
            assert forall|i: int| 0 <= i < out@.len() implies out@[i].key@ != k by {
                assert(iv[i] == item_view(out@[i]));
            }
            assert forall|i: int| 0 <= i < iv.len() implies ranks_before(#[trigger] iv[i], (k, map@[k])) by {
                assert(iv[i] == item_view(out@[i]));
            }
        }
    }
    out
}

} // verus!
