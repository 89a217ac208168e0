//! Text shown by the interface.

use vstd::prelude::*;
use crate::files::kinds::{human_size, human_size_text};
use crate::text::{
    append_chars, chars_of, dec, find_char, index_of, lemma_index_of, owned, push_dec, split_char,
    split_on, string_of, utf8_len_at_most,
};

verus! {

/// A long path shortened to its first and last parts: paths of at most 52
/// bytes, or with fewer than four parts, stay as they are. The separator is
/// `\` when the path has one, else `/`.
pub open spec fn short_path_text(path: Seq<char>) -> Seq<char> {
    if vstd::utf8::encode_utf8(path).len() <= 52 {
        path
    } else {
        let sep = if index_of(path, '\\') is Some {
            '\\'
        } else {
            '/'
        };
        let parts = split_on(path, sep);
        if parts.len() < 4 {
            path
        } else {
            parts[0] + seq![sep] + "..."@ + seq![sep] + parts.last()
        }
    }
}

/// Shortens a long path: `C:\Users\juan\...\Camera`.
pub fn short_path(path: &str) -> (r: String)
    ensures
        r@ == short_path_text(path@),
{
    let v = chars_of(path);
    if utf8_len_at_most(v.as_slice(), 52) {
        return owned(path);
    }
    proof {
        lemma_index_of(v@, '\\');
    }
    let sep = if find_char(v.as_slice(), '\\').is_some() {
        '\\'
    } else {
        '/'
    };
    let parts = split_char(v.as_slice(), sep);
    let ghost pv = parts@.map_values(|x: Vec<char>| x@);
    if parts.len() < 4 {
        return owned(path);
    }
    let n = parts.len();
    assert(pv[0] == parts@[0]@);
    assert(pv.last() == parts@[n - 1]@);
    let mut out: Vec<char> = Vec::new();
    append_chars(&mut out, parts[0].as_slice());
    out.push(sep);
    let dots = chars_of("...");
    append_chars(&mut out, dots.as_slice());
    out.push(sep);
    append_chars(&mut out, parts[n - 1].as_slice());
    assert(out@ =~= short_path_text(path@));
    string_of(out.as_slice())
}

/// The line under the filters: how many entries show out of how many when
/// a filter is on, else how many there are, then the shortened place.
pub open spec fn listing_summary_text(shown: nat, total: nat, filtered: bool, path: Seq<char>) -> Seq<char> {
    if filtered {
        dec(shown) + " de "@ + dec(total) + " · "@ + short_path_text(path)
    } else {
        dec(total) + " elementos · "@ + short_path_text(path)
    }
}

/// The line under the filters.
pub fn listing_summary(shown: usize, total: usize, filtered: bool, path: &str) -> (r: String)
    ensures
        r@ == listing_summary_text(shown as nat, total as nat, filtered, path@),
{
    let mut r = String::new();
    if filtered {
        push_dec(&mut r, shown as u64);
        r.append(" de ");
    }
    push_dec(&mut r, total as u64);
    if filtered {
        r.append(" · ");
    } else {
        r.append(" elementos · ");
    }
    let p = short_path(path);
    r.append(p.as_str());
    r
}

/// The tray's count line: the number of files, and their total size when
/// it is known (not zero).
pub open spec fn tray_summary_text(count: nat, total: nat) -> Seq<char> {
    if total > 0 {
        dec(count) + " archivo(s) · "@ + human_size_text(total)
    } else {
        dec(count) + " archivo(s)"@
    }
}

/// The tray's count line.
pub fn tray_summary(count: usize, total: u64) -> (r: String)
    ensures
        r@ == tray_summary_text(count as nat, total as nat),
{
    let mut r = String::new();
    push_dec(&mut r, count as u64);
    if total > 0 {
        r.append(" archivo(s) · ");
        let h = human_size(total);
        r.append(h.as_str());
    } else {
        r.append(" archivo(s)");
    }
    r
}

} // verus!
