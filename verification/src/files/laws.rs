//! What holds of the file manager across its operations.

use vstd::prelude::*;
use crate::files::entry::EntryV;
use crate::files::kinds::{other_side, Category, Scope, Side};
use crate::files::manager::{
    applied, dialog_staged, filters_on, key_of, picked_staged, reloaded, shown, shows, staged_all, staged_path,
    staged_with, tray_origin_of, tray_sent, unstaged, FileManagerV, PickedV,
};
use crate::files::tray::{EventV, StagedV, TransferStateV};

verus! {

/// Every file of the tray comes from the same side.
pub open spec fn one_direction(s: Seq<StagedV>) -> bool {
    forall|i: int| 0 <= i < s.len() ==> (#[trigger] s[i]).origin == s[0].origin
}

/// No path is in the tray twice.
pub open spec fn distinct_paths(s: Seq<StagedV>) -> bool {
    forall|i: int, j: int| 0 <= i < j < s.len() ==> (#[trigger] s[i]).path != (#[trigger] s[j]).path
}

/// Picking a listed entry keeps the tray one-directional and free of
/// duplicates; a folder is never picked; a file that joins comes from the
/// browsed side.
pub proof fn law_stage_keeps_tray(v: FileManagerV, e: EntryV)
    requires
        one_direction(v.staged),
        distinct_paths(v.staged),
    ensures
        one_direction(staged_with(v, e).staged),
        distinct_paths(staged_with(v, e).staged),
        e.is_dir ==> staged_with(v, e) == v,
        staged_with(v, e).staged.len() > v.staged.len() ==> staged_path(staged_with(v, e).staged, e.path)
            && staged_with(v, e).staged.last().origin == v.side,
{
    let w = staged_with(v, e);
    if w.staged.len() > v.staged.len() {
        let n = v.staged.len();
        assert(w.staged[n as int].path == e.path);
        assert forall|i: int, j: int| 0 <= i < j < w.staged.len() implies (#[trigger] w.staged[i]).path
            != (#[trigger] w.staged[j]).path by {
            if j == n {
                assert(w.staged[i] == v.staged[i]);
                if v.staged[i].path == e.path {
                    assert(staged_path(v.staged, e.path));
                }
            } else {
                assert(w.staged[i] == v.staged[i]);
                assert(w.staged[j] == v.staged[j]);
            }
        }
        if n > 0 {
            assert(w.staged[0] == v.staged[0]);
            assert(tray_origin_of(v) == Some(v.staged[0].origin));
        }
        assert forall|i: int| 0 <= i < w.staged.len() implies (#[trigger] w.staged[i]).origin
            == w.staged[0].origin by {
            if i < n {
                assert(w.staged[i] == v.staged[i]);
            }
        }
    }
}

/// Picking every shown entry keeps the tray one-directional and free of
/// duplicates.
pub proof fn law_stage_all_keeps_tray(v: FileManagerV, es: Seq<EntryV>)
    requires
        one_direction(v.staged),
        distinct_paths(v.staged),
    ensures
        one_direction(staged_all(v, es).staged),
        distinct_paths(staged_all(v, es).staged),
    decreases es.len(),
{
    if es.len() > 0 {
        law_stage_all_keeps_tray(v, es.drop_last());
        law_stage_keeps_tray(staged_all(v, es.drop_last()), es.last());
    }
}

/// Files chosen in the dialog join a tray of computer files (or an empty
/// one) without breaking its direction or repeating a path.
pub proof fn law_dialog_keeps_tray(s: Seq<StagedV>, files: Seq<PickedV>)
    requires
        one_direction(s),
        distinct_paths(s),
        s.len() == 0 || s[0].origin == Side::Pc,
    ensures
        one_direction(picked_staged(s, files)),
        distinct_paths(picked_staged(s, files)),
        picked_staged(s, files).len() == 0 || picked_staged(s, files)[0].origin == Side::Pc,
    decreases files.len(),
{
    if files.len() > 0 {
        law_dialog_keeps_tray(s, files.drop_last());
        let t = picked_staged(s, files.drop_last());
        let f = files.last();
        let w = picked_staged(s, files);
        if !staged_path(t, f.path) {
            let n = t.len();
            assert(w[n as int].path == f.path);
            assert forall|i: int, j: int| 0 <= i < j < w.len() implies (#[trigger] w[i]).path
                != (#[trigger] w[j]).path by {
                assert(w[i] == t[i]);
                if j < n {
                    assert(w[j] == t[j]);
                } else if t[i].path == f.path {
                    assert(staged_path(t, f.path));
                }
            }
            assert forall|i: int| 0 <= i < w.len() implies (#[trigger] w[i]).origin == w[0].origin by {
                if i < n {
                    assert(w[i] == t[i]);
                }
                if n > 0 {
                    assert(w[0] == t[0]);
                }
            }
        }
    }
}

/// Offering the dialog's files keeps the tray one-directional and free of
/// duplicates, whatever it held.
pub proof fn law_dialog_keeps_direction(v: FileManagerV, files: Seq<PickedV>)
    requires
        one_direction(v.staged),
        distinct_paths(v.staged),
    ensures
        one_direction(dialog_staged(v, files).staged),
        distinct_paths(dialog_staged(v, files).staged),
{
    if tray_origin_of(v) != Some(Side::Android) {
        law_dialog_keeps_tray(v.staged, files);
    }
}

/// Taking files out keeps the tray one-directional and free of duplicates,
/// and the path taken out is no longer there.
pub proof fn law_unstage(s: Seq<StagedV>, path: Seq<char>)
    requires
        one_direction(s),
        distinct_paths(s),
    ensures
        one_direction(unstaged(s, path)),
        distinct_paths(unstaged(s, path)),
        !staged_path(unstaged(s, path), path),
        forall|i: int| 0 <= i < unstaged(s, path).len() ==> s.contains(#[trigger] unstaged(s, path)[i]),
    decreases s.len(),
{
    if s.len() > 0 {
        let t = s.drop_last();
        assert forall|i: int| 0 <= i < t.len() implies (#[trigger] t[i]).origin == t[0].origin by {
            assert(t[i] == s[i]);
        }
        assert forall|i: int, j: int| 0 <= i < j < t.len() implies (#[trigger] t[i]).path
            != (#[trigger] t[j]).path by {
            assert(t[i] == s[i]);
            assert(t[j] == s[j]);
        }
        law_unstage(t, path);
        let u = unstaged(t, path);
        let w = unstaged(s, path);
        assert forall|i: int| 0 <= i < u.len() implies s.contains(#[trigger] u[i]) by {
            assert(t.contains(u[i]));
            let k = choose|k: int| 0 <= k < t.len() && t[k] == u[i];
            assert(s[k] == u[i]);
        }
        if s.last().path != path {
            let n = u.len();
            assert(w == u.push(s.last()));
            assert forall|i: int, j: int| 0 <= i < j < w.len() implies (#[trigger] w[i]).path
                != (#[trigger] w[j]).path by {
                if j == n {
                    assert(w[i] == u[i]);
                    assert(s.contains(u[i]));
                    let k = choose|k: int| 0 <= k < s.len() && s[k] == u[i];
                    assert(k < s.len() - 1 || s[k] == s.last());
                    if k < s.len() - 1 {
                        assert(s[k].path != s[s.len() - 1].path);
                    } else {
                        assert(u[i] == s.last());
                        assert(t.contains(u[i]));
                        let m = choose|m: int| 0 <= m < t.len() && t[m] == u[i];
                        assert(t[m] == s[m]);
                        assert(s[m].path != s[s.len() - 1].path);
                    }
                } else {
                    assert(w[i] == u[i]);
                    assert(w[j] == u[j]);
                }
            }
            assert forall|i: int| 0 <= i < w.len() implies (#[trigger] w[i]).origin == w[0].origin by {
                if i < n {
                    assert(w[i] == u[i]);
                }
                if n > 0 {
                    assert(w[0] == u[0]);
                    assert(s.contains(u[0]));
                    let k = choose|k: int| 0 <= k < s.len() && s[k] == u[0];
                    assert(s[k].origin == s[0].origin);
                }
                assert(s[s.len() - 1].origin == s[0].origin);
            }
            assert forall|i: int| 0 <= i < w.len() implies s.contains(#[trigger] w[i]) by {
                if i < n {
                    assert(w[i] == u[i]);
                } else {
                    assert(s[s.len() - 1] == w[i]);
                }
            }
            if staged_path(w, path) {
                let i = choose|i: int| 0 <= i < w.len() && (#[trigger] w[i]).path == path;
                if i < n {
                    assert(w[i] == u[i]);
                    assert(staged_path(u, path));
                }
            }
        }
    }
}

/// Sending the tray empties it; each of its files becomes a pending
/// transfer towards the other side, so a one-directional tray sends every
/// file the same way.
pub proof fn law_send_tray(v: FileManagerV, serial: Seq<char>)
    requires
        one_direction(v.staged),
    ensures
        tray_sent(v, serial).staged.len() == 0,
        tray_sent(v, serial).transfers.len() == v.transfers.len() + v.staged.len(),
        forall|i: int| v.transfers.len() <= i < tray_sent(v, serial).transfers.len() ==> {
            &&& (#[trigger] tray_sent(v, serial).transfers[i]).direction == other_side(v.staged[0].origin)
            &&& tray_sent(v, serial).transfers[i].state is Pendiente
        },
{
    let w = tray_sent(v, serial);
    assert forall|i: int| v.transfers.len() <= i < w.transfers.len() implies {
        &&& (#[trigger] w.transfers[i]).direction == other_side(v.staged[0].origin)
        &&& w.transfers[i].state is Pendiente
    } by {
        let k = i - v.transfers.len();
        assert(v.staged[k].origin == v.staged[0].origin);
    }
}

/// An answer to an older request than the latest is dropped: it changes
/// nothing.
pub proof fn law_stale_answer_dropped(v: FileManagerV, done: bool, current: u64, ev: EventV)
    requires
        match ev {
            EventV::Result { token, .. } => token < current,
            EventV::Failed { token, .. } => token < current,
            _ => false,
        },
    ensures
        applied(v, done, current, ev) == (v, done),
{
}

/// A listing answered for the latest request is kept under its folder key:
/// opening that folder again shows it at once, not marked loading.
pub proof fn law_cached_listing_shows_at_once(
    v: FileManagerV,
    done: bool,
    current: u64,
    token: u64,
    k: Seq<char>,
    entries: Seq<EntryV>,
    w: FileManagerV,
    serial: Option<Seq<char>>,
)
    requires
        token >= current,
        w.cache == applied(v, done, current, EventV::Result { token: token, key: Some(k), entries: entries }).0.cache,
        key_of(w) == k,
    ensures
        reloaded(w, serial).entries == entries,
        !reloaded(w, serial).loading,
{
    assert(w.cache.contains_key(k));
}

/// The listing shows only entries of the listing, and never more entries
/// than it holds.
pub proof fn law_shown_from_listing(v: FileManagerV, s: Seq<EntryV>)
    ensures
        shown(v, s).len() <= s.len(),
        forall|i: int| 0 <= i < shown(v, s).len() ==> s.contains(#[trigger] shown(v, s)[i]),
    decreases s.len(),
{
    if s.len() > 0 {
        law_shown_from_listing(v, s.drop_last());
        let u = shown(v, s.drop_last());
        assert forall|i: int| 0 <= i < shown(v, s).len() implies s.contains(#[trigger] shown(v, s)[i]) by {
            if i < u.len() {
                assert(shown(v, s)[i] == u[i]);
                let k = choose|k: int| 0 <= k < s.drop_last().len() && s.drop_last()[k] == u[i];
                assert(s[k] == u[i]);
            } else {
                assert(shown(v, s)[i] == s.last());
                assert(s[s.len() - 1] == s.last());
            }
        }
    }
}

/// With the category filter off and no search text filtering (none typed,
/// or a device-wide search, whose text does not filter the listing), every
/// entry shows.
pub proof fn law_no_filter_shows_all(v: FileManagerV, s: Seq<EntryV>)
    requires
        v.category == Category::Todos,
        v.scope == Scope::Dispositivo || v.search.len() == 0,
    ensures
        shown(v, s) == s,
    decreases s.len(),
{
    if s.len() > 0 {
        law_no_filter_shows_all(v, s.drop_last());
        assert(s.drop_last().push(s.last()) =~= s);
    }
}

/// Clearing the filters turns them off.
pub proof fn law_clear_filters_off(v: FileManagerV)
    ensures
        !filters_on(FileManagerV { category: Category::Todos, search: Seq::empty(), ..v }),
{
    let w = FileManagerV { category: Category::Todos, search: Seq::empty(), ..v };
    assert(crate::text::trim(w.search) =~= Seq::<char>::empty());
}

/// The type filter works independently of the search: an entry shows
/// exactly when it passes the search with the type filter off and passes
/// the type filter with no search.
pub proof fn law_filters_independent(v: FileManagerV, e: EntryV)
    ensures
        shows(v, e) == (shows(FileManagerV { category: Category::Todos, ..v }, e) && shows(
            FileManagerV { search: Seq::empty(), ..v },
            e,
        )),
{
}

/// Taking out a file just picked gives the tray back as it was.
pub proof fn law_stage_then_unstage(v: FileManagerV, e: EntryV)
    requires
        !staged_path(v.staged, e.path),
    ensures
        unstaged(staged_with(v, e).staged, e.path) == v.staged,
{
    lemma_unstaged_absent(v.staged, e.path);
    let w = staged_with(v, e).staged;
    if w.len() > v.staged.len() {
        assert(w.drop_last() =~= v.staged);
        assert(w.last().path == e.path);
    }
}

proof fn lemma_unstaged_absent(s: Seq<StagedV>, path: Seq<char>)
    requires
        !staged_path(s, path),
    ensures
        unstaged(s, path) == s,
    decreases s.len(),
{
    if s.len() > 0 {
        let t = s.drop_last();
        assert(!staged_path(t, path)) by {
            if staged_path(t, path) {
                let i = choose|i: int| 0 <= i < t.len() && (#[trigger] t[i]).path == path;
                assert(s[i] == t[i]);
            }
        }
        lemma_unstaged_absent(t, path);
        assert(s[s.len() - 1] == s.last());
        assert(t.push(s.last()) =~= s);
    }
}

} // verus!
