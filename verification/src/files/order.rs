//! The order of listings: folders first, then names compared in lower case.

use vstd::prelude::*;
use crate::files::entry::{entries_view, EntryV, FileEntry};
use crate::text::{chars_of, lowercase, to_lowercase};

verus! {

/// Strict lexicographic order of character sequences by code point (the
/// order of `str` comparison).
pub open spec fn seq_lt(a: Seq<char>, b: Seq<char>) -> bool
    decreases a.len(),
{
    if b.len() == 0 {
        false
    } else if a.len() == 0 {
        true
    } else if a[0] != b[0] {
        a[0] < b[0]
    } else {
        seq_lt(a.drop_first(), b.drop_first())
    }
}

/// Whether `a` belongs after `b`: a file after a folder, else by the
/// lower-case names.
pub open spec fn entry_after(a: EntryV, b: EntryV) -> bool {
    (!a.is_dir && b.is_dir) || (a.is_dir == b.is_dir && seq_lt(lowercase(b.name), lowercase(a.name)))
}

/// `x` placed into `t` after every element it does not belong before.
pub open spec fn insert_sorted(t: Seq<EntryV>, x: EntryV) -> Seq<EntryV>
    decreases t.len(),
{
    if t.len() == 0 {
        seq![x]
    } else if entry_after(t.last(), x) {
        insert_sorted(t.drop_last(), x).push(t.last())
    } else {
        t.push(x)
    }
}

/// `s` in listing order; entries that compare equal keep their order
/// (a stable sort).
pub open spec fn sorted_entries(s: Seq<EntryV>) -> Seq<EntryV>
    decreases s.len(),
{
    if s.len() == 0 {
        Seq::empty()
    } else {
        insert_sorted(sorted_entries(s.drop_last()), s.last())
    }
}

fn lt_chars(a: &[char], b: &[char]) -> (r: bool)
    ensures
        r == seq_lt(a@, b@),
{
    let mut i: usize = 0;
    assert(a@.skip(0) =~= a@);
    assert(b@.skip(0) =~= b@);
    while i < a.len() && i < b.len() && a[i] == b[i]
        invariant
            i <= a@.len(),
            i <= b@.len(),
            seq_lt(a@, b@) == seq_lt(a@.skip(i as int), b@.skip(i as int)),
        decreases a@.len() - i,
    {
        assert(a@.skip(i as int).drop_first() =~= a@.skip(i + 1));
        assert(b@.skip(i as int).drop_first() =~= b@.skip(i + 1));
        i = i + 1;
    }
    if i == b.len() {
        false
    } else if i == a.len() {
        true
    } else {
        a[i] < b[i]
    }
}

/// Whether `a` belongs after `b` in a listing.
pub fn goes_after(a: &FileEntry, b: &FileEntry) -> (r: bool)
    ensures
        r == entry_after(a@, b@),
{
    if !a.is_dir && b.is_dir {
        return true;
    }
    if a.is_dir != b.is_dir {
        return false;
    }
    let la = to_lowercase(a.name.as_str());
    let lb = to_lowercase(b.name.as_str());
    let va = chars_of(la.as_str());
    let vb = chars_of(lb.as_str());
    lt_chars(vb.as_slice(), va.as_slice())
}

proof fn lemma_insert_at(t: Seq<EntryV>, x: EntryV, pos: int)
    requires
        0 <= pos <= t.len(),
        forall|j: int| pos <= j < t.len() ==> entry_after(#[trigger] t[j], x),
        pos > 0 ==> !entry_after(t[pos - 1], x),
    ensures
        insert_sorted(t, x) == t.take(pos).push(x) + t.skip(pos),
    decreases t.len(),
{
    if t.len() == pos {
        assert(t.take(pos).push(x) + t.skip(pos) =~= t.push(x));
    } else {
        lemma_insert_at(t.drop_last(), x, pos);
        assert(t.take(pos).push(x) + t.skip(pos) =~= (t.drop_last().take(pos).push(x)
            + t.drop_last().skip(pos)).push(t.last()));
    }
}

/// Sorts a listing: folders first, then by lower-case name; entries that
/// compare equal keep their order.
pub fn sort_entries(entries: &mut Vec<FileEntry>)
    ensures
        entries_view(final(entries)@) == sorted_entries(entries_view(old(entries)@)),
{
    let ghost input = entries_view(entries@);
    let mut items: Vec<FileEntry> = Vec::new();
    std::mem::swap(&mut items, entries);
    let mut out: Vec<FileEntry> = Vec::new();
    let mut i: usize = 0;
    while i < items.len()
        invariant
            i <= items@.len(),
            input == entries_view(items@),
            entries_view(out@) == sorted_entries(input.take(i as int)),
        decreases items@.len() - i,
    {
        let x = items[i].clone();
        let mut pos: usize = out.len();
        while pos > 0 && goes_after(&out[pos - 1], &x)
            invariant
                pos <= out@.len(),
                forall|j: int| pos <= j < out@.len() ==> entry_after(#[trigger] out@[j]@, x@),
            decreases pos,
        {
            pos = pos - 1;
        }
        let ghost t = entries_view(out@);
        proof {
            assert forall|j: int| pos <= j < t.len() implies entry_after(#[trigger] t[j], x@) by {
                assert(t[j] == out@[j]@);
            }
            if pos > 0 {
                assert(t[pos - 1] == out@[pos - 1]@);
            }
            lemma_insert_at(t, x@, pos as int);
            assert(input.take(i + 1).drop_last() =~= input.take(i as int));
            assert(input[i as int] == x@);
        }
        out.insert(pos, x);
        assert(entries_view(out@) =~= t.take(pos as int).push(x@) + t.skip(pos as int));
        i = i + 1;
    }
    assert(input.take(items@.len() as int) =~= input);
    *entries = out;
}


// ───────────────────────────── laws ─────────────────────────────

proof fn lemma_lt_irreflexive(a: Seq<char>)
    ensures
        !seq_lt(a, a),
    decreases a.len(),
{
    if a.len() > 0 {
        lemma_lt_irreflexive(a.drop_first());
    }
}

proof fn lemma_lt_transitive(a: Seq<char>, b: Seq<char>, c: Seq<char>)
    requires
        seq_lt(a, b),
        seq_lt(b, c),
    ensures
        seq_lt(a, c),
    decreases a.len(),
{
    if a.len() > 0 && b.len() > 0 && c.len() > 0 && a[0] == b[0] && b[0] == c[0] {
        lemma_lt_transitive(a.drop_first(), b.drop_first(), c.drop_first());
    }
}

proof fn lemma_lt_total(a: Seq<char>, b: Seq<char>)
    ensures
        a == b || seq_lt(a, b) || seq_lt(b, a),
    decreases a.len(),
{
    if a.len() > 0 && b.len() > 0 {
        if a[0] == b[0] {
            lemma_lt_total(a.drop_first(), b.drop_first());
            if a.drop_first() == b.drop_first() {
                assert(a =~= seq![a[0]] + a.drop_first());
                assert(b =~= seq![b[0]] + b.drop_first());
            }
        } else {
        }
    } else if a.len() == 0 && b.len() == 0 {
        assert(a =~= b);
    }
}

proof fn lemma_lt_asymmetric(a: Seq<char>, b: Seq<char>)
    requires
        seq_lt(a, b),
    ensures
        !seq_lt(b, a),
{
    if seq_lt(b, a) {
        lemma_lt_transitive(a, b, a);
        lemma_lt_irreflexive(a);
    }
}

/// Whether `a` may stand before `b` in a listing.
pub open spec fn entry_le(a: EntryV, b: EntryV) -> bool {
    !entry_after(a, b)
}

proof fn lemma_after_asymmetric(a: EntryV, b: EntryV)
    requires
        entry_after(a, b),
    ensures
        entry_le(b, a),
{
    if a.is_dir == b.is_dir {
        lemma_lt_asymmetric(lowercase(b.name), lowercase(a.name));
    }
}

proof fn lemma_le_transitive(a: EntryV, b: EntryV, c: EntryV)
    requires
        entry_le(a, b),
        entry_le(b, c),
    ensures
        entry_le(a, c),
{
    let (la, lb, lc) = (lowercase(a.name), lowercase(b.name), lowercase(c.name));
    if a.is_dir == c.is_dir && a.is_dir == b.is_dir && seq_lt(lc, la) {
        lemma_lt_total(lb, la);
        lemma_lt_total(lc, lb);
        if seq_lt(la, lb) {
            lemma_lt_transitive(lc, la, lb);
        }
        if lb == la {
            assert(seq_lt(lc, lb));
        }
    }
}

/// Whether `s` is in listing order.
pub open spec fn in_listing_order(s: Seq<EntryV>) -> bool {
    forall|i: int, j: int| 0 <= i < j < s.len() ==> entry_le(#[trigger] s[i], #[trigger] s[j])
}

proof fn lemma_insert_sorted(t: Seq<EntryV>, x: EntryV)
    requires
        in_listing_order(t),
    ensures
        in_listing_order(insert_sorted(t, x)),
        insert_sorted(t, x).to_multiset() == t.to_multiset().insert(x),
    decreases t.len(),
{
    broadcast use vstd::seq_lib::group_to_multiset_ensures;

    if t.len() == 0 {
        assert(seq![x] =~= Seq::<EntryV>::empty().push(x));
    } else if entry_after(t.last(), x) {
        let u = t.drop_last();
        assert forall|i: int, j: int| 0 <= i < j < u.len() implies entry_le(
            #[trigger] u[i],
            #[trigger] u[j],
        ) by {
            assert(u[i] == t[i]);
            assert(u[j] == t[j]);
        }
        lemma_insert_sorted(u, x);
        let w = insert_sorted(u, x);
        let r = insert_sorted(t, x);
        assert(r == w.push(t.last()));
        assert(t == u.push(t.last()));
        assert forall|i: int, j: int| 0 <= i < j < r.len() implies entry_le(
            #[trigger] r[i],
            #[trigger] r[j],
        ) by {
            if j < w.len() {
                assert(r[i] == w[i]);
                assert(r[j] == w[j]);
            } else {
                assert(r[j] == t.last());
                assert(r[i] == w[i]);
                assert(w.to_multiset().count(w[i]) > 0);
                if w[i] == x {
                    lemma_after_asymmetric(t.last(), x);
                } else {
                    assert(u.to_multiset().count(w[i]) > 0);
                    assert(u.contains(w[i]));
                    let k = choose|k: int| 0 <= k < u.len() && u[k] == w[i];
                    assert(t[k] == u[k]);
                    assert(entry_le(t[k], t[t.len() - 1]));
                }
            }
        }
    } else {
        let r = t.push(x);
        assert forall|i: int, j: int| 0 <= i < j < r.len() implies entry_le(
            #[trigger] r[i],
            #[trigger] r[j],
        ) by {
            if j < t.len() {
                assert(r[i] == t[i]);
                assert(r[j] == t[j]);
            } else {
                assert(r[i] == t[i]);
                if i < t.len() - 1 {
                    lemma_le_transitive(t[i], t[t.len() - 1], x);
                }
            }
        }
    }
}

/// Sorting a listing puts it in listing order (folders first, names in
/// lower case ascending) and keeps every entry, each as often as before.
pub proof fn law_sorted_entries(s: Seq<EntryV>)
    ensures
        in_listing_order(sorted_entries(s)),
        sorted_entries(s).to_multiset() == s.to_multiset(),
    decreases s.len(),
{
    broadcast use vstd::seq_lib::group_to_multiset_ensures;

    if s.len() == 0 {
        assert(sorted_entries(s).to_multiset() =~= s.to_multiset());
    } else {
        law_sorted_entries(s.drop_last());
        lemma_insert_sorted(sorted_entries(s.drop_last()), s.last());
        assert(s == s.drop_last().push(s.last()));
    }
}

} // verus!
