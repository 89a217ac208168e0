//! Listings already read, by folder key, so that a folder opened again shows
//! at once while it is read anew.

use vstd::prelude::*;
use crate::files::entry::{clone_entries, entries_view, EntryV, FileEntry};
use crate::text::str_eq;

verus! {

/// Folder listings by key; one listing per key.
pub struct ListingCache {
    items: Vec<(String, Vec<FileEntry>)>,
}

/// The listings that `items` hold: a later item replaces an earlier one with
/// the same key.
pub open spec fn items_map(items: Seq<(String, Vec<FileEntry>)>) -> Map<Seq<char>, Seq<EntryV>>
    decreases items.len(),
{
    if items.len() == 0 {
        Map::empty()
    } else {
        items_map(items.drop_last()).insert(items.last().0@, entries_view(items.last().1@))
    }
}

/// `items` without those with key `k`.
pub open spec fn items_without(items: Seq<(String, Vec<FileEntry>)>, k: Seq<char>) -> Seq<
    (String, Vec<FileEntry>),
>
    decreases items.len(),
{
    if items.len() == 0 {
        Seq::empty()
    } else {
        let rest = items_without(items.drop_last(), k);
        if items.last().0@ == k {
            rest
        } else {
            rest.push(items.last())
        }
    }
}

proof fn lemma_items_push(s: Seq<(String, Vec<FileEntry>)>, x: (String, Vec<FileEntry>))
    ensures
        items_map(s.push(x)) == items_map(s).insert(x.0@, entries_view(x.1@)),
{
    assert(s.push(x).drop_last() =~= s);
}

proof fn lemma_items_without(items: Seq<(String, Vec<FileEntry>)>, k: Seq<char>)
    ensures
        items_map(items_without(items, k)) == items_map(items).remove(k),
    decreases items.len(),
{
    if items.len() > 0 {
        let t = items.drop_last();
        lemma_items_without(t, k);
        if items.last().0@ == k {
            assert(items_map(items_without(items, k)) =~= items_map(items).remove(k));
        } else {
            assert(items_without(items, k) == items_without(t, k).push(items.last()));
            lemma_items_push(items_without(t, k), items.last());
            assert(items_map(items_without(items, k)) == items_map(items_without(t, k)).insert(
                items.last().0@,
                entries_view(items.last().1@),
            ));
            assert(items_map(items_without(items, k)) =~= items_map(items).remove(k));
        }
    } else {
        assert(items_map(items_without(items, k)) =~= items_map(items).remove(k));
    }
}

proof fn lemma_items_last(items: Seq<(String, Vec<FileEntry>)>, k: Seq<char>, i: int)
    requires
        0 <= i < items.len(),
        items[i].0@ == k,
        forall|j: int| i < j < items.len() ==> items[j].0@ != k,
    ensures
        items_map(items).contains_key(k),
        items_map(items)[k] == entries_view(items[i].1@),
    decreases items.len(),
{
    if i < items.len() - 1 {
        lemma_items_last(items.drop_last(), k, i);
    }
}

proof fn lemma_items_absent(items: Seq<(String, Vec<FileEntry>)>, k: Seq<char>)
    requires
        forall|j: int| 0 <= j < items.len() ==> items[j].0@ != k,
    ensures
        !items_map(items).contains_key(k),
    decreases items.len(),
{
    if items.len() > 0 {
        lemma_items_absent(items.drop_last(), k);
    }
}

impl View for ListingCache {
    type V = Map<Seq<char>, Seq<EntryV>>;

    closed spec fn view(&self) -> Map<Seq<char>, Seq<EntryV>> {
        items_map(self.items@)
    }
}

impl ListingCache {
    pub fn new() -> (r: ListingCache)
        ensures
            r@ == Map::<Seq<char>, Seq<EntryV>>::empty(),
    {
        ListingCache { items: Vec::new() }
    }

    /// A copy of the listing stored under `key`.
    pub fn get(&self, key: &str) -> (r: Option<Vec<FileEntry>>)
        ensures
            match r {
                Some(v) => self@.contains_key(key@) && entries_view(v@) == self@[key@],
                None => !self@.contains_key(key@),
            },
    {
        let mut k: usize = self.items.len();
        while k > 0
            invariant
                k <= self.items@.len(),
                forall|j: int| k <= j < self.items@.len() ==> self.items@[j].0@ != key@,
            decreases k,
        {
            if str_eq(self.items[k - 1].0.as_str(), key) {
                proof {
                    lemma_items_last(self.items@, key@, k - 1);
                }
                return Some(clone_entries(&self.items[k - 1].1));
            }
            k = k - 1;
        }
        proof {
            lemma_items_absent(self.items@, key@);
        }
        None
    }

    /// Stores `entries` under `key`, in place of any listing stored there.
    pub fn insert(&mut self, key: String, entries: Vec<FileEntry>)
        ensures
            final(self)@ == old(self)@.insert(key@, entries_view(entries@)),
    {
        let ghost old_items = self.items@;
        let n = self.items.len();
        let mut kept: Vec<(String, Vec<FileEntry>)> = Vec::new();
        let mut items: Vec<(String, Vec<FileEntry>)> = Vec::new();
        std::mem::swap(&mut items, &mut self.items);
        let mut i: usize = 0;
        while items.len() > 0
            invariant
                i <= old_items.len(),
                old_items.len() == n,
                items@ == old_items.skip(i as int),
                kept@ == items_without(old_items.take(i as int), key@),
            decreases items@.len(),
        {
            assert(old_items.take(i + 1).drop_last() =~= old_items.take(i as int));
            assert(old_items.take(i + 1).last() == items@[0]);
            let item = items.remove(0);
            if !str_eq(item.0.as_str(), key.as_str()) {
                kept.push(item);
            }
            i = i + 1;
            assert(items@ =~= old_items.skip(i as int));
        }
        assert(i == old_items.len());
        proof {
            assert(old_items.take(old_items.len() as int) =~= old_items);
            lemma_items_without(old_items, key@);
        }
        let ghost kv = key@;
        let ghost ev = entries_view(entries@);
        let ghost kept0 = kept@;
        let pair = (key, entries);
        proof {
            lemma_items_push(kept0, pair);
        }
        kept.push(pair);
        self.items = kept;
        assert(items_map(self.items@) =~= items_map(old_items).insert(kv, ev));
    }

    /// Forgets every listing.
    pub fn clear(&mut self)
        ensures
            final(self)@ == Map::<Seq<char>, Seq<EntryV>>::empty(),
    {
        self.items = Vec::new();
    }
}

} // verus!
