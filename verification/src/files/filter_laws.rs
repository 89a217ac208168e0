//! What the listings, searches and transfers keep and leave out, stated over
//! the entries' names and the choices made, for all inputs.

use vstd::prelude::*;
use crate::files::entry::EntryV;
use crate::files::kinds::{android_dest_path, AndroidDest, Category, Scope, Side};
use crate::files::listing::{named_containing, trim_end_char};
use crate::files::manager::{shown, shows, tray_sent, visible_entries, FileManagerV};
use crate::files::order::{law_sorted_entries, sorted_entries};
use crate::files::pc::{pc_rows, visited, ItemV, PcSearchV, RawV};
use crate::text::starts_with;
use crate::files::tray::JobV;
use crate::text::{contains, lemma_contains_concat, lemma_contains_occurs, lowercase};

verus! {

/// `pat` occurs somewhere in `s`.
pub open spec fn occurs_in(s: Seq<char>, pat: Seq<char>) -> bool {
    exists|i: int| 0 <= i && i + pat.len() <= s.len() && #[trigger] s.subrange(i, i + pat.len()) == pat
}

/// A folder entry whose metadata could be read and says it is a folder.
pub open spec fn readable_folder(e: ItemV) -> bool {
    match e.meta {
        Some((is_dir, _)) => is_dir,
        None => false,
    }
}

/// A name that does not start with a dot.
pub open spec fn not_hidden(name: Seq<char>) -> bool {
    name.len() == 0 || name[0] != '.'
}

// ───────────────────────────── the shown listing ─────────────────────────────

proof fn lemma_shown_has(v: FileManagerV, s: Seq<EntryV>, e: EntryV)
    ensures
        shown(v, s).contains(e) <==> (s.contains(e) && shows(v, e)),
    decreases s.len(),
{
    if s.len() > 0 {
        let t = s.drop_last();
        lemma_shown_has(v, t, e);
        let u = shown(v, t);
        if s.contains(e) && shows(v, e) {
            if e == s.last() {
                assert(shown(v, s)[shown(v, s).len() - 1] == e);
            } else {
                let k = choose|k: int| 0 <= k < s.len() && s[k] == e;
                assert(t[k] == e);
                let j = choose|j: int| 0 <= j < u.len() && u[j] == e;
                assert(shown(v, s)[j] == e);
            }
        }
        if shown(v, s).contains(e) {
            let j = choose|j: int| 0 <= j < shown(v, s).len() && shown(v, s)[j] == e;
            if j < u.len() {
                assert(u[j] == e);
                let k = choose|k: int| 0 <= k < t.len() && t[k] == e;
                assert(s[k] == e);
            } else {
                assert(s[s.len() - 1] == e);
            }
        }
    }
}

/// Searching a folder by name keeps every entry whose lower-case name holds
/// the lower-case search text anywhere, not only at its start.
pub proof fn law_search_shows_containing(v: FileManagerV, e: EntryV, x: Seq<char>, y: Seq<char>)
    requires
        v.scope == Scope::Carpeta,
        v.category == Category::Todos,
        v.search.len() > 0,
        v.entries.contains(e),
        lowercase(e.name) == x + lowercase(v.search) + y,
    ensures
        visible_entries(v).contains(e),
{
    lemma_contains_concat(x, lowercase(v.search), y);
    lemma_shown_has(v, v.entries, e);
}

/// Searching a folder by name shows only listed entries whose lower-case
/// name holds the lower-case search text.
pub proof fn law_search_shows_only_containing(v: FileManagerV, e: EntryV)
    requires
        v.scope == Scope::Carpeta,
        v.search.len() > 0,
        visible_entries(v).contains(e),
    ensures
        v.entries.contains(e),
        occurs_in(lowercase(e.name), lowercase(v.search)),
{
    lemma_shown_has(v, v.entries, e);
    lemma_contains_occurs(lowercase(e.name), lowercase(v.search));
}

/// Under a type filter the listing shows only listed files of that type,
/// never folders.
pub proof fn law_type_filter_shows_only_category(v: FileManagerV, e: EntryV)
    requires
        v.category != Category::Todos,
        visible_entries(v).contains(e),
    ensures
        v.entries.contains(e),
        !e.is_dir,
        e.category == v.category,
{
    lemma_shown_has(v, v.entries, e);
}

/// Under a type filter, with no search text filtering, every listed file of
/// that type shows.
pub proof fn law_type_filter_keeps_category(v: FileManagerV, e: EntryV)
    requires
        v.entries.contains(e),
        !e.is_dir,
        e.category == v.category,
        v.scope == Scope::Dispositivo || v.search.len() == 0,
    ensures
        visible_entries(v).contains(e),
{
    lemma_shown_has(v, v.entries, e);
}

// ───────────────────────────── media search ─────────────────────────────

proof fn lemma_named_has(s: Seq<EntryV>, needle: Seq<char>, e: EntryV)
    ensures
        named_containing(s, needle).contains(e) <==> (s.contains(e) && contains(lowercase(e.name), needle)),
    decreases s.len(),
{
    if s.len() > 0 {
        let t = s.drop_last();
        lemma_named_has(t, needle, e);
        let u = named_containing(t, needle);
        let w = named_containing(s, needle);
        if s.contains(e) && contains(lowercase(e.name), needle) {
            if e == s.last() {
                assert(w[w.len() - 1] == e);
            } else {
                let k = choose|k: int| 0 <= k < s.len() && s[k] == e;
                assert(t[k] == e);
                let j = choose|j: int| 0 <= j < u.len() && u[j] == e;
                assert(w[j] == e);
            }
        }
        if w.contains(e) {
            let j = choose|j: int| 0 <= j < w.len() && w[j] == e;
            if j < u.len() {
                assert(u[j] == e);
                let k = choose|k: int| 0 <= k < t.len() && t[k] == e;
                assert(s[k] == e);
            } else {
                assert(s[s.len() - 1] == e);
            }
        }
    }
}

/// A media search keeps every found entry whose lower-case name holds the
/// lower-case query anywhere.
pub proof fn law_media_search_keeps_containing(s: Seq<EntryV>, needle: Seq<char>, e: EntryV, x: Seq<char>, y: Seq<char>)
    requires
        s.contains(e),
        lowercase(e.name) == x + needle + y,
    ensures
        named_containing(s, needle).contains(e),
{
    lemma_contains_concat(x, needle, y);
    lemma_named_has(s, needle, e);
}

/// A media search keeps only found entries whose lower-case name holds the
/// lower-case query.
pub proof fn law_media_search_only_containing(s: Seq<EntryV>, needle: Seq<char>, e: EntryV)
    requires
        named_containing(s, needle).contains(e),
    ensures
        s.contains(e),
        occurs_in(lowercase(e.name), needle),
{
    lemma_named_has(s, needle, e);
    lemma_contains_occurs(lowercase(e.name), needle);
}

// ───────────────────────────── computer listing ─────────────────────────────

/// A computer listing holds no name that starts with a dot, files and
/// folders alike, and holds every entry whose name does not, with its path.
pub proof fn law_pc_listing_hides_dot_names(raws: Seq<RawV>)
    ensures
        forall|i: int| 0 <= i < pc_rows(raws).len() ==> not_hidden(#[trigger] pc_rows(raws)[i].name),
        forall|j: int| 0 <= j < raws.len() && not_hidden(#[trigger] raws[j].name) ==> exists|i: int|
            0 <= i < pc_rows(raws).len() && (#[trigger] pc_rows(raws)[i]).path == raws[j].path
                && pc_rows(raws)[i].name == raws[j].name,
    decreases raws.len(),
{
    reveal_strlit(".");
    if raws.len() > 0 {
        let t = raws.drop_last();
        law_pc_listing_hides_dot_names(t);
        let u = pc_rows(t);
        let w = pc_rows(raws);
        assert forall|i: int| 0 <= i < w.len() implies not_hidden(#[trigger] w[i].name) by {
            if i < u.len() {
                assert(w[i] == u[i]);
            } else {
                let r = raws.last();
                assert(!crate::text::starts_with(r.name, "."@));
                if r.name.len() > 0 {
                    assert(r.name.take(1) =~= seq![r.name[0]]);
                    assert("."@ =~= seq!['.']);
                }
            }
        }
        assert forall|j: int| 0 <= j < raws.len() && not_hidden(#[trigger] raws[j].name) implies exists|i: int|
            0 <= i < w.len() && (#[trigger] w[i]).path == raws[j].path && w[i].name == raws[j].name by {
            if j < t.len() {
                assert(t[j] == raws[j]);
                let i = choose|i: int| 0 <= i < u.len() && (#[trigger] u[i]).path == t[j].path && u[i].name == t[j].name;
                assert(w[i] == u[i]);
            } else {
                let r = raws.last();
                assert(raws[j] == r);
                if crate::text::starts_with(r.name, "."@) {
                    assert(r.name[0] == r.name.take(1)[0]);
                }
                assert(w[w.len() - 1].path == r.path);
            }
        }
    }
}

/// The sorted computer listing holds no name that starts with a dot.
pub proof fn law_sorted_pc_listing_hides_dot_names(raws: Seq<RawV>)
    ensures
        forall|i: int| 0 <= i < sorted_entries(pc_rows(raws)).len() ==> not_hidden(
            #[trigger] sorted_entries(pc_rows(raws))[i].name,
        ),
{
    broadcast use vstd::seq_lib::group_to_multiset_ensures;

    let rows = pc_rows(raws);
    let s = sorted_entries(rows);
    law_pc_listing_hides_dot_names(raws);
    law_sorted_entries(rows);
    assert forall|i: int| 0 <= i < s.len() implies not_hidden(#[trigger] s[i].name) by {
        assert(s.contains(s[i]));
        assert(rows.to_multiset().count(s[i]) > 0);
        assert(rows.contains(s[i]));
        let k = choose|k: int| 0 <= k < rows.len() && rows[k] == s[i];
        assert(not_hidden(rows[k].name));
    }
}

// ───────────────────────────── computer search ─────────────────────────────

/// A file that a computer search for `needle` in `category` may return: a
/// file, not hidden, of the category unless it is `Todos`, whose lower-case
/// name holds the needle.
pub open spec fn search_hit(needle: Seq<char>, category: Category, f: EntryV) -> bool {
    &&& !f.is_dir
    &&& category != Category::Todos ==> f.category == category
    &&& needle.len() > 0 ==> occurs_in(lowercase(f.name), needle)
    &&& not_hidden(f.name)
}

pub open spec fn all_hits(v: PcSearchV) -> bool {
    forall|i: int| 0 <= i < v.out.len() ==> search_hit(v.needle, v.category, #[trigger] v.out[i])
}

/// Walking folders keeps the query and category, and every file found is a
/// match for them: of the chosen category (unless `Todos`) whatever the
/// query, with the query in its lower-case name, and not hidden.
pub proof fn law_search_finds_matches(v: PcSearchV, es: Seq<ItemV>)
    requires
        all_hits(v),
    ensures
        visited(v, es).needle == v.needle,
        visited(v, es).category == v.category,
        all_hits(visited(v, es)),
    decreases es.len(),
{
    reveal_strlit(".");
    if es.len() > 0 {
        law_search_finds_matches(v, es.drop_last());
        let w = visited(v, es.drop_last());
        if w.out.len() < 600 {
            let e = es.last();
            let r = visited(v, es);
            if r.out.len() > w.out.len() {
                let f = r.out[r.out.len() - 1];
                assert(f.name == e.name);
                lemma_contains_occurs(lowercase(e.name), w.needle);
                assert(!crate::text::starts_with(e.name, "."@));
                if e.name.len() > 0 {
                    assert(e.name.take(1) =~= seq![e.name[0]]);
                    assert("."@ =~= seq!['.']);
                }
                assert forall|i: int| 0 <= i < r.out.len() implies search_hit(r.needle, r.category, #[trigger] r.out[i]) by {
                    if i < w.out.len() {
                        assert(r.out[i] == w.out[i]);
                    }
                }
            }
        }
    }
}

/// What a computer search returns, in listing order, holds only matches.
pub proof fn law_search_results_match(v: PcSearchV, es: Seq<ItemV>)
    requires
        all_hits(v),
    ensures
        forall|i: int| 0 <= i < sorted_entries(visited(v, es).out).len() ==> search_hit(
            v.needle,
            v.category,
            #[trigger] sorted_entries(visited(v, es).out)[i],
        ),
{
    broadcast use vstd::seq_lib::group_to_multiset_ensures;

    law_search_finds_matches(v, es);
    let out = visited(v, es).out;
    let s = sorted_entries(out);
    law_sorted_entries(out);
    assert forall|i: int| 0 <= i < s.len() implies search_hit(v.needle, v.category, #[trigger] s[i]) by {
        assert(s.contains(s[i]));
        assert(out.to_multiset().count(s[i]) > 0);
        let k = choose|k: int| 0 <= k < out.len() && out[k] == s[i];
        assert(search_hit(v.needle, v.category, out[k]));
    }
}

/// Walking a folder queues only readable folders among its entries, with
/// names that are neither hidden nor `node_modules` nor `AppData`, after
/// the folders already queued.
pub proof fn law_search_descends_only_folders(v: PcSearchV, es: Seq<ItemV>)
    ensures
        visited(v, es).stack.len() >= v.stack.len(),
        forall|i: int| 0 <= i < v.stack.len() ==> visited(v, es).stack[i] == v.stack[i],
        forall|i: int| v.stack.len() <= i < visited(v, es).stack.len() ==> exists|j: int|
            0 <= j < es.len() && (#[trigger] es[j]).path == #[trigger] visited(v, es).stack[i]
                && readable_folder(es[j]) && not_hidden(es[j].name) && es[j].name
                != "node_modules"@ && es[j].name != "AppData"@,
    decreases es.len(),
{
    reveal_strlit(".");
    if es.len() > 0 {
        let t = es.drop_last();
        law_search_descends_only_folders(v, t);
        let w = visited(v, t);
        let r = visited(v, es);
        assert forall|i: int| v.stack.len() <= i < r.stack.len() implies exists|j: int|
            0 <= j < es.len() && (#[trigger] es[j]).path == #[trigger] r.stack[i]
                && readable_folder(es[j]) && not_hidden(es[j].name) && es[j].name
                != "node_modules"@ && es[j].name != "AppData"@ by {
            if i < w.stack.len() {
                assert(r.stack[i] == w.stack[i]);
                let j = choose|j: int|
                    0 <= j < t.len() && (#[trigger] t[j]).path == #[trigger] w.stack[i]
                        && readable_folder(t[j]) && not_hidden(t[j].name) && t[j].name
                        != "node_modules"@ && t[j].name != "AppData"@;
                assert(es[j] == t[j]);
            } else {
                let e = es.last();
                assert(es[es.len() - 1] == e);
                assert(!starts_with(e.name, "."@));
                if e.name.len() > 0 {
                    assert(e.name.take(1) =~= seq![e.name[0]]);
                    assert("."@ =~= seq!['.']);
                }
            }
        }
    }
}

// ───────────────────────────── transfers ─────────────────────────────

/// Sending the tray asks for one copy per file, in order: a computer file
/// is pushed to the chosen phone destination's path (the browsed phone
/// folder, without a trailing `/`, only when that is the choice); a phone
/// file is pulled to the computer destination.
pub proof fn law_send_destinations(v: FileManagerV, serial: Seq<char>)
    ensures
        tray_sent(v, serial).jobs.len() == v.jobs.len() + v.staged.len(),
        forall|i: int| 0 <= i < v.staged.len() ==> {
            let d = #[trigger] tray_sent(v, serial).jobs[v.jobs.len() + i];
            &&& d.token == 0
            &&& v.staged[i].origin == Side::Pc ==> d.job == JobV::Push {
                index: (v.transfers.len() + i) as usize,
                serial: serial,
                src: v.staged[i].path,
                dst: if v.android_dest == AndroidDest::Actual {
                    trim_end_char(v.android_path, '/')
                } else {
                    android_dest_path(v.android_dest)
                },
            }
            &&& v.staged[i].origin == Side::Android ==> d.job == JobV::Pull {
                index: (v.transfers.len() + i) as usize,
                serial: serial,
                src: v.staged[i].path,
                dst: v.pc_dest,
            }
        },
{
}

} // verus!
