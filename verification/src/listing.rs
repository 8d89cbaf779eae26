//! Listing order shared by the stores: records newest first, records of
//! the same second in the order they were kept (a stable sort).

use vstd::prelude::*;

verus! {

/// A record that carries its creation time.
pub trait Timestamped: Sized {
    spec fn stamp_spec(&self) -> u64;

    fn stamp(&self) -> (r: u64)
        ensures
            r == self.stamp_spec(),
    ;
}

/// The records created at `t`.
pub open spec fn stamped<T: Timestamped>(t: u64) -> spec_fn(T) -> bool {
    |x: T| x.stamp_spec() == t
}

/// Newest first.
pub open spec fn newest_first<T: Timestamped>(s: Seq<T>) -> bool {
    forall|i: int, j: int| 0 <= i <= j < s.len() ==> (#[trigger] s[i]).stamp_spec() >= (#[trigger] s[j]).stamp_spec()
}

/// `out` is `input` newest first, the records of one second in their order.
pub open spec fn sorted_newest_first<T: Timestamped>(out: Seq<T>, input: Seq<T>) -> bool {
    &&& newest_first(out)
    &&& forall|t: u64| #[trigger] out.filter(stamped::<T>(t)) == input.filter(stamped::<T>(t))
}

fn insert_by_stamp<T: Timestamped>(out: &mut Vec<T>, x: T, Ghost(seen): Ghost<Seq<T>>)
    requires
        sorted_newest_first(old(out)@, seen),
    ensures
        sorted_newest_first(final(out)@, seen.push(x)),
{
    let xs = x.stamp();
    let mut pos: usize = 0;
    while pos < out.len() && out[pos].stamp() >= xs
        invariant
            pos <= out@.len(),
            xs == x.stamp_spec(),
            forall|j: int| 0 <= j < pos ==> (#[trigger] out@[j]).stamp_spec() >= x.stamp_spec(),
        decreases out@.len() - pos,
    {
        pos += 1;
    }
    let ghost before = out@;
    proof {
        let t = before.take(pos as int);
        let k = before.skip(pos as int);
        assert(before == t + k);
        assert forall|j: int| 0 <= j < k.len() implies (#[trigger] k[j]).stamp_spec() < x.stamp_spec() by {
            assert(k[j] == before[pos + j]);
            assert(before[pos as int].stamp_spec() >= before[pos + j].stamp_spec());
        }
        assert(before.insert(pos as int, x) == t + seq![x] + k);
        assert forall|c: u64| #[trigger] (t + seq![x] + k).filter(stamped::<T>(c)) == seen.push(x).filter(stamped::<T>(c)) by {
            Seq::filter_distributes_over_add(t + seq![x], k, stamped::<T>(c));
            Seq::filter_distributes_over_add(t, seq![x], stamped::<T>(c));
            Seq::filter_distributes_over_add(t, k, stamped::<T>(c));
            seen.lemma_filter_push(x, stamped::<T>(c));
            assert(seq![x].filter(stamped::<T>(c)) == if x.stamp_spec() == c { seq![x] } else { Seq::<T>::empty() }) by {
                Seq::<T>::empty().lemma_filter_prepend(x, stamped::<T>(c));
                assert(seq![x] == seq![x] + Seq::<T>::empty());
            }
            if x.stamp_spec() == c {
                assert(k.all(|r: T| !stamped::<T>(c)(r)));
                k.lemma_all_neg_filter_empty(stamped::<T>(c));
            }
        }
        let o = t + seq![x] + k;
        assert forall|i: int, j: int| 0 <= i <= j < o.len() implies (#[trigger] o[i]).stamp_spec() >= (#[trigger] o[j]).stamp_spec() by {
            if i < pos {
                assert(o[i] == before[i]);
                if j < pos {
                    assert(o[j] == before[j]);
                } else if j > pos {
                    assert(o[j] == k[j - pos - 1]);
                }
            } else if i == pos {
                if j > pos {
                    assert(o[j] == k[j - pos - 1]);
                }
            } else {
                assert(o[i] == before[i - 1]);
                assert(o[j] == before[j - 1]);
            }
        }
    }
    out.insert(pos, x);
}

/// The records newest first, records of one second keeping their order.
pub fn sort_newest_first<T: Timestamped>(items: Vec<T>) -> (r: Vec<T>)
    ensures
        sorted_newest_first(r@, items@),
{
    let ghost input = items@;
    let mut rest = items;
    let mut out: Vec<T> = Vec::new();
    let ghost mut n: int = 0;
    assert(input.skip(0) == input);
    assert(input.take(0) == out@);
    while rest.len() > 0
        invariant
            0 <= n <= input.len(),
            rest@ == input.skip(n),
            sorted_newest_first(out@, input.take(n)),
        decreases rest.len(),
    {
        let x = rest.remove(0);
        assert(x == input[n]);
        assert(input.skip(n).remove(0) == input.skip(n + 1));
        assert(input.take(n + 1) == input.take(n).push(x));
        insert_by_stamp(&mut out, x, Ghost(input.take(n)));
        proof {
            n = n + 1;
        }
    }
    assert(input.take(n) == input);
    out
}


/// The newest `cap` records, newest first.
pub fn take_newest<T: Timestamped>(items: Vec<T>, cap: usize) -> (r: Vec<T>)
    ensures
        exists|sorted: Seq<T>| sorted_newest_first(sorted, items@)
            && #[trigger] r@ == sorted.take(if sorted.len() < cap { sorted.len() as int } else { cap as int }),
{
    let mut sorted = sort_newest_first(items);
    let ghost all = sorted@;
    if sorted.len() > cap {
        sorted.truncate(cap);
    }
    assert(sorted@ == all.take(if all.len() < cap { all.len() as int } else { cap as int }));
    sorted
}

/// A stored item named by a text key.
pub trait Keyed: Sized {
    spec fn key_spec(&self) -> Seq<char>;

    fn key(&self) -> (r: &str)
        ensures
            r@ == self.key_spec(),
    ;
}

/// The items whose key differs from `key`.
pub open spec fn other_key<T: Keyed>(key: Seq<char>) -> spec_fn(T) -> bool {
    |x: T| x.key_spec() != key
}

pub open spec fn has_key<T: Keyed>(items: Seq<T>, key: Seq<char>) -> bool {
    exists|i: int| 0 <= i < items.len() && (#[trigger] items[i]).key_spec() == key
}

/// Removes the items with `key`; returns whether any was there.
pub fn remove_keyed<T: Keyed>(items: &mut Vec<T>, key: &str) -> (removed: bool)
    ensures
        final(items)@ == old(items)@.filter(other_key::<T>(key@)),
        removed == has_key(old(items)@, key@),
{
    let ghost orig = items@;
    let mut rest: Vec<T> = Vec::new();
    std::mem::swap(&mut rest, items);
    let mut kept: Vec<T> = Vec::new();
    let mut found = false;
    let ghost mut i: int = 0;
    assert(orig.skip(0) == orig);
    assert(orig.take(0) == Seq::<T>::empty());
    while rest.len() > 0
        invariant
            0 <= i <= orig.len(),
            rest@ == orig.skip(i),
            kept@ == orig.take(i).filter(other_key::<T>(key@)),
            found == has_key(orig.take(i), key@),
        decreases rest.len(),
    {
        let x = rest.remove(0);
        proof {
            assert(x == orig[i]);
            assert(orig.take(i + 1) == orig.take(i).push(x));
            orig.take(i).lemma_filter_push(x, other_key::<T>(key@));
            assert(orig.skip(i + 1) == orig.skip(i).remove(0));
            if has_key(orig.take(i), key@) {
                let j = choose|j: int| 0 <= j < orig.take(i).len() && (#[trigger] orig.take(i)[j]).key_spec() == key@;
                assert(orig.take(i + 1)[j] == orig.take(i)[j]);
            }
            if x.key_spec() == key@ {
                assert(orig.take(i + 1)[i] == x);
            }
            if has_key(orig.take(i + 1), key@) && x.key_spec() != key@ {
                let j = choose|j: int| 0 <= j < orig.take(i + 1).len() && (#[trigger] orig.take(i + 1)[j]).key_spec() == key@;
                assert(orig.take(i)[j] == orig.take(i + 1)[j]);
            }
        }
        let same = crate::text::eq_str(x.key(), key);
        if same {
            found = true;
        } else {
            kept.push(x);
        }
        proof {
            i = i + 1;
        }
    }
    assert(orig.take(i) == orig);
    *items = kept;
    found
}

/// Keeps `item` in place of the items with its key, at the end.
pub fn upsert_keyed<T: Keyed>(items: &mut Vec<T>, item: T)
    ensures
        final(items)@ == old(items)@.filter(other_key::<T>(item.key_spec())).push(item),
{
    let k = item.key().to_string();
    let _ = remove_keyed(items, k.as_str());
    items.push(item);
}

} // verus!
