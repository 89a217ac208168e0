//! Reading listings from the phone's shell: `ls -la` rows, path lists from
//! `find` and from the media index, and the shell commands that produce
//! them.

use vstd::prelude::*;
use crate::files::entry::{entries_view, EntryV, FileEntry};
use crate::files::kinds::{category_of, name_category, Category};
use crate::text::{
    lowercase, to_lowercase,
    chars_eq, chars_of, contains, find, find_str, index_of, last_index_of, lemma_find_from,
    lemma_index_of, lemma_last_index_of, lines, owned, parse_bounded, parse_u64, rfind_char,
    slice_chars, split_lines, split_whitespace, string_of, trim, trim_bounds, words, find_char,
};

verus! {

/// Most results a search or media listing returns.
pub const MAX_RESULTS: usize = 600;

// ───────────────────────────── text pieces ─────────────────────────────

/// `ws` joined with `sep` between consecutive pieces (`[T]::join`).
pub open spec fn join_with(ws: Seq<Seq<char>>, sep: Seq<char>) -> Seq<char>
    decreases ws.len(),
{
    if ws.len() == 0 {
        Seq::empty()
    } else if ws.len() == 1 {
        ws[0]
    } else {
        join_with(ws.drop_last(), sep) + sep + ws.last()
    }
}

/// The text after the last `c` of `s`, or all of `s` (`rsplit(c).next()`).
pub open spec fn last_segment(s: Seq<char>, c: char) -> Seq<char> {
    match last_index_of(s, c) {
        Some(i) => s.skip(i + 1),
        None => s,
    }
}

/// The text before the first occurrence of `pat`, or all of `s`
/// (`split(pat).next()`).
pub open spec fn before(s: Seq<char>, pat: Seq<char>) -> Seq<char> {
    match find(s, pat) {
        Some(i) => s.take(i),
        None => s,
    }
}

/// `s` without any trailing `c` (`trim_end_matches(c)`).
pub open spec fn trim_end_char(s: Seq<char>, c: char) -> Seq<char>
    decreases s.len(),
{
    if s.len() > 0 && s.last() == c {
        trim_end_char(s.drop_last(), c)
    } else {
        s
    }
}

pub fn join_pieces(ws: &[Vec<char>], from: usize, sep: &[char]) -> (r: Vec<char>)
    requires
        from <= ws@.len(),
    ensures
        r@ == join_with(ws@.skip(from as int).map_values(|w: Vec<char>| w@), sep@),
{
    let mut r: Vec<char> = Vec::new();
    let mut i: usize = from;
    while i < ws.len()
        invariant
            from <= i <= ws@.len(),
            r@ == join_with(ws@.subrange(from as int, i as int).map_values(|w: Vec<char>| w@), sep@),
        decreases ws@.len() - i,
    {
        let ghost prev = ws@.subrange(from as int, i as int).map_values(|w: Vec<char>| w@);
        let ghost next = ws@.subrange(from as int, i + 1).map_values(|w: Vec<char>| w@);
        assert(next.drop_last() =~= prev);
        if i > from {
            let mut k: usize = 0;
            let ghost r0 = r@;
            while k < sep.len()
                invariant
                    k <= sep@.len(),
                    r@ == r0 + sep@.take(k as int),
                decreases sep@.len() - k,
            {
                r.push(sep[k]);
                k = k + 1;
                assert(r0 + sep@.take(k as int) =~= (r0 + sep@.take(k - 1)).push(sep@[k - 1]));
            }
            assert(sep@.take(sep@.len() as int) =~= sep@);
        }
        let w = &ws[i];
        let mut k: usize = 0;
        let ghost r1 = r@;
        while k < w.len()
            invariant
                k <= w@.len(),
                r@ == r1 + w@.take(k as int),
            decreases w@.len() - k,
        {
            r.push(w[k]);
            k = k + 1;
            assert(r1 + w@.take(k as int) =~= (r1 + w@.take(k - 1)).push(w@[k - 1]));
        }
        assert(w@.take(w@.len() as int) =~= w@);
        if i == from {
            assert(r@ =~= next[0]);
        }
        i = i + 1;
    }
    assert(ws@.subrange(from as int, ws@.len() as int) =~= ws@.skip(from as int));
    r
}

pub fn last_segment_of(s: &[char], c: char) -> (r: Vec<char>)
    ensures
        r@ == last_segment(s@, c),
{
    let n = s.len();
    proof {
        lemma_last_index_of(s@, c);
    }
    match rfind_char(s, c) {
        Some(i) => {
            let r = slice_chars(s, i + 1, n);
            assert(r@ =~= s@.skip(i + 1));
            r
        },
        None => slice_all(s),
    }
}

fn slice_all(s: &[char]) -> (r: Vec<char>)
    ensures
        r@ == s@,
{
    let r = slice_chars(s, 0, s.len());
    assert(r@ =~= s@);
    r
}

pub fn before_pattern(s: &[char], pat: &[char]) -> (r: Vec<char>)
    ensures
        r@ == before(s@, pat@),
{
    proof {
        lemma_find_from(s@, pat@, 0);
    }
    match find_str(s, pat) {
        Some(i) => slice_chars(s, 0, i),
        None => slice_all(s),
    }
}

pub fn trim_end_matching(s: &[char], c: char) -> (r: Vec<char>)
    ensures
        r@ == trim_end_char(s@, c),
{
    let mut k: usize = s.len();
    assert(s@.take(k as int) =~= s@);
    while k > 0 && s[k - 1] == c
        invariant
            k <= s@.len(),
            trim_end_char(s@, c) == trim_end_char(s@.take(k as int), c),
        decreases k,
    {
        assert(s@.take(k as int).drop_last() =~= s@.take(k - 1));
        k = k - 1;
    }
    slice_chars(s, 0, k)
}

fn push_all(out: &mut Vec<char>, s: &[char])
    ensures
        final(out)@ == old(out)@ + s@,
{
    let mut k: usize = 0;
    while k < s.len()
        invariant
            k <= s@.len(),
            out@ == old(out)@ + s@.take(k as int),
        decreases s@.len() - k,
    {
        out.push(s[k]);
        k = k + 1;
        assert(old(out)@ + s@.take(k as int) =~= (old(out)@ + s@.take(k - 1)).push(s@[k - 1]));
    }
    assert(s@.take(s@.len() as int) =~= s@);
}

fn push_str(out: &mut Vec<char>, s: &str)
    ensures
        final(out)@ == old(out)@ + s@,
{
    let v = chars_of(s);
    push_all(out, v.as_slice());
}

// ───────────────────────────── `ls -la` ─────────────────────────────

/// Path of the child `name` of the folder `base`.
pub open spec fn child_path(base: Seq<char>, name: Seq<char>) -> Seq<char> {
    if base == "/"@ {
        "/"@ + name
    } else {
        trim_end_char(base, '/') + "/"@ + name
    }
}

/// The entry that one row of `ls -la` run in `base` describes: rows with
/// fewer than eight columns or another file type than `-`, `d` or `l` give
/// none, and so do hidden names (those starting with a dot, `.` and `..`
/// among them). The name is what follows the last `/` of the text before
/// ` -> `; a link whose name has no dot is taken for a folder; an unreadable
/// size is 0.
pub open spec fn ls_entry(line: Seq<char>, base: Seq<char>) -> Option<EntryV> {
    let parts = words(line);
    if parts.len() < 8 || parts[0].len() == 0 {
        None
    } else {
        let t = parts[0][0];
        if !(t == '-' || t == 'd' || t == 'l') {
            None
        } else {
            let size: u64 = match parse_bounded(parts[4], u64::MAX as nat) {
                Some(v) => v as u64,
                None => 0,
            };
            let raw = join_with(parts.skip(7), " "@);
            let name = last_segment(before(raw, " -> "@), '/');
            if name.len() == 0 || name[0] == '.' {
                None
            } else {
                let is_dir = t == 'd' || (t == 'l' && index_of(name, '.') is None);
                Some(
                    EntryV {
                        category: if is_dir {
                            Category::Otros
                        } else {
                            name_category(name)
                        },
                        name: name,
                        path: child_path(base, name),
                        is_dir: is_dir,
                        size: size,
                    },
                )
            }
        }
    }
}

/// The entry that one row of `ls -la`, run in the folder `base`, describes.
pub fn parse_ls_line(line: &str, base: &str) -> (r: Option<FileEntry>)
    ensures
        match r {
            Some(e) => ls_entry(line@, base@) == Some(e@),
            None => ls_entry(line@, base@) is None,
        },
{
    let lv = chars_of(line);
    let parts = split_whitespace(lv.as_slice());
    let ghost pv = parts@.map_values(|w: Vec<char>| w@);
    assert(pv == words(line@));
    if parts.len() < 8 {
        return None;
    }
    assert(pv[0] == parts@[0]@);
    if parts[0].len() == 0 {
        return None;
    }
    assert(pv[4] == parts@[4]@);
    let t = parts[0][0];
    if !(t == '-' || t == 'd' || t == 'l') {
        return None;
    }
    let size: u64 = match parse_u64(parts[4].as_slice()) {
        Some(v) => v,
        None => 0,
    };
    let raw = join_pieces(parts.as_slice(), 7, chars_of(" ").as_slice());
    assert(parts@.skip(7).map_values(|w: Vec<char>| w@) =~= pv.skip(7));
    let arrow = chars_of(" -> ");
    let head = before_pattern(raw.as_slice(), arrow.as_slice());
    let name = last_segment_of(head.as_slice(), '/');
    if name.len() == 0 || name[0] == '.' {
        return None;
    }
    proof {
        lemma_index_of(name@, '.');
    }
    let is_dir = t == 'd' || (t == 'l' && find_char(name.as_slice(), '.').is_none());
    let bv = chars_of(base);
    let slash = chars_of("/");
    let mut path: Vec<char> = Vec::new();
    if chars_eq(bv.as_slice(), slash.as_slice()) {
        push_all(&mut path, slash.as_slice());
        push_all(&mut path, name.as_slice());
    } else {
        let b = trim_end_matching(bv.as_slice(), '/');
        push_all(&mut path, b.as_slice());
        push_all(&mut path, slash.as_slice());
        push_all(&mut path, name.as_slice());
    }
    assert(path@ =~= child_path(base@, name@));
    let name_s = string_of(name.as_slice());
    let category = if is_dir {
        Category::Otros
    } else {
        category_of(name_s.as_str())
    };
    Some(
        FileEntry {
            name: name_s,
            path: string_of(path.as_slice()),
            is_dir: is_dir,
            size: size,
            category: category,
        },
    )
}


/// Entries of the rows of an `ls -la` listing of `base`, in row order; the
/// `total` line and rows that describe no entry are left out.
pub open spec fn ls_entries(rows: Seq<Seq<char>>, base: Seq<char>) -> Seq<EntryV>
    decreases rows.len(),
{
    if rows.len() == 0 {
        Seq::empty()
    } else {
        let rest = ls_entries(rows.drop_last(), base);
        let row = rows.last();
        if crate::text::starts_with(row, "total "@) {
            rest
        } else {
            match ls_entry(row, base) {
                Some(e) => rest.push(e),
                None => rest,
            }
        }
    }
}

/// The entries of an `ls -la` listing of `base`, unsorted.
pub fn parse_ls_output(out: &str, base: &str) -> (r: Vec<FileEntry>)
    ensures
        entries_view(r@) == ls_entries(lines(out@), base@),
{
    let ov = chars_of(out);
    let rows = split_lines(ov.as_slice());
    let ghost rv = rows@.map_values(|w: Vec<char>| w@);
    let total = chars_of("total ");
    let mut r: Vec<FileEntry> = Vec::new();
    let mut i: usize = 0;
    while i < rows.len()
        invariant
            i <= rows@.len(),
            rv == rows@.map_values(|w: Vec<char>| w@),
            total@ == "total "@,
            entries_view(r@) == ls_entries(rv.take(i as int), base@),
        decreases rows@.len() - i,
    {
        assert(rv.take(i + 1).drop_last() =~= rv.take(i as int));
        assert(rv.take(i + 1).last() == rows@[i as int]@);
        let row = &rows[i];
        if !crate::text::has_prefix(row.as_slice(), total.as_slice()) {
            let line = string_of(row.as_slice());
            match parse_ls_line(line.as_str(), base) {
                Some(e) => {
                    proof {
                        crate::files::entry::lemma_entries_view_push(r@, e);
                    }
                    r.push(e);
                },
                None => {},
            }
        }
        i = i + 1;
    }
    assert(rv.take(rows@.len() as int) =~= rv);
    r
}

// ───────────────────────────── shell safety ─────────────────────────────

/// Characters that are dropped from text before it goes into a shell
/// command: quotes, `$`, `\`, `;`, `&`, `|` and the line feed.
pub open spec fn unsafe_char(c: char) -> bool {
    c == '"' || c == '\'' || c == '`' || c == '$' || c == '\\' || c == ';' || c == '&' || c == '|'
        || c == '\n'
}

/// `s` with every unsafe character removed, the others kept in order.
pub open spec fn sanitized(s: Seq<char>) -> Seq<char>
    decreases s.len(),
{
    if s.len() == 0 {
        Seq::empty()
    } else {
        let r = sanitized(s.drop_last());
        if unsafe_char(s.last()) {
            r
        } else {
            r.push(s.last())
        }
    }
}

fn sanitize_chars(s: &[char]) -> (r: Vec<char>)
    ensures
        r@ == sanitized(s@),
{
    let mut r: Vec<char> = Vec::new();
    let mut i: usize = 0;
    while i < s.len()
        invariant
            i <= s@.len(),
            r@ == sanitized(s@.take(i as int)),
        decreases s@.len() - i,
    {
        assert(s@.take(i + 1).drop_last() =~= s@.take(i as int));
        let c = s[i];
        if !(c == '"' || c == '\'' || c == '`' || c == '$' || c == '\\' || c == ';' || c == '&'
            || c == '|' || c == '\n') {
            r.push(c);
        }
        i = i + 1;
    }
    assert(s@.take(s@.len() as int) =~= s@);
    r
}

/// Text made safe to place between double quotes in a shell command.
pub fn sanitize(text: &str) -> (r: String)
    ensures
        r@ == sanitized(text@),
{
    let v = chars_of(text);
    let r = sanitize_chars(v.as_slice());
    string_of(r.as_slice())
}

/// `ls -la "<path>/"`: the trailing slash makes `ls` follow a link such as
/// `/sdcard`.
pub open spec fn list_command_text(path: Seq<char>) -> Seq<char> {
    "ls -la \""@ + sanitized(trim_end_char(path, '/')) + "/\""@
}

/// The shell command that lists the phone folder `path`.
pub fn list_android_command(path: &str) -> (r: String)
    ensures
        r@ == list_command_text(path@),
{
    let pv = chars_of(path);
    let base = trim_end_matching(pv.as_slice(), '/');
    let safe = sanitize_chars(base.as_slice());
    let mut out: Vec<char> = Vec::new();
    push_str(&mut out, "ls -la \"");
    push_all(&mut out, safe.as_slice());
    push_str(&mut out, "/\"");
    string_of(out.as_slice())
}

/// The outcome of listing the phone folder `path`, from the shell's output:
/// no output is an error, else the entries sorted folders first.
pub fn list_android(out: Option<&str>, path: &str) -> (r: Result<Vec<FileEntry>, String>)
    ensures
        match out {
            None => r matches Err(m) && m@ == "No se pudo listar el dispositivo"@,
            Some(o) => r matches Ok(v) && entries_view(v@) == crate::files::order::sorted_entries(
                ls_entries(lines(o@), path@),
            ),
        },
{
    match out {
        None => Err(owned("No se pudo listar el dispositivo")),
        Some(o) => {
            let mut entries = parse_ls_output(o, path);
            crate::files::order::sort_entries(&mut entries);
            Ok(entries)
        },
    }
}

// ───────────────────────────── path lists ─────────────────────────────

/// The file entry for a full path on the phone; sizes are not asked for.
pub open spec fn path_entry(p: Seq<char>) -> EntryV {
    let name = last_segment(p, '/');
    EntryV { category: name_category(name), name: name, path: p, is_dir: false, size: 0 }
}

/// One file entry per path of `ps` that is not blank once trimmed.
pub open spec fn path_entries(ps: Seq<Seq<char>>) -> Seq<EntryV>
    decreases ps.len(),
{
    if ps.len() == 0 {
        Seq::empty()
    } else {
        let rest = path_entries(ps.drop_last());
        let p = trim(ps.last());
        if p.len() == 0 {
            rest
        } else {
            rest.push(path_entry(p))
        }
    }
}

/// File entries for a list of full paths.
pub fn paths_to_entries(paths: &[Vec<char>]) -> (r: Vec<FileEntry>)
    ensures
        entries_view(r@) == path_entries(paths@.map_values(|w: Vec<char>| w@)),
{
    let ghost pv = paths@.map_values(|w: Vec<char>| w@);
    let mut r: Vec<FileEntry> = Vec::new();
    let mut i: usize = 0;
    while i < paths.len()
        invariant
            i <= paths@.len(),
            pv == paths@.map_values(|w: Vec<char>| w@),
            entries_view(r@) == path_entries(pv.take(i as int)),
        decreases paths@.len() - i,
    {
        assert(pv.take(i + 1).drop_last() =~= pv.take(i as int));
        assert(pv.take(i + 1).last() == paths@[i as int]@);
        let p = &paths[i];
        let (a, b) = trim_bounds(p.as_slice());
        if a < b {
            let t = slice_chars(p.as_slice(), a, b);
            let name = last_segment_of(t.as_slice(), '/');
            let name_s = string_of(name.as_slice());
            let category = category_of(name_s.as_str());
            let e = FileEntry {
                name: name_s,
                path: string_of(t.as_slice()),
                is_dir: false,
                size: 0,
                category: category,
            };
            assert(e@ =~= path_entry(t@));
            proof {
                crate::files::entry::lemma_entries_view_push(r@, e);
            }
            r.push(e);
        }
        i = i + 1;
    }
    assert(pv.take(paths@.len() as int) =~= pv);
    r
}


// ───────────────────────────── media index ─────────────────────────────

/// A collection of the phone's media index.
#[derive(Clone, Copy, PartialEq, Eq, Structural, Debug)]
pub enum MediaKind {
    Images,
    Video,
    Audio,
}

pub open spec fn media_uri(k: MediaKind) -> Seq<char> {
    match k {
        MediaKind::Images => "content://media/external/images/media"@,
        MediaKind::Video => "content://media/external/video/media"@,
        MediaKind::Audio => "content://media/external/audio/media"@,
    }
}

impl MediaKind {
    pub fn uri(self) -> (r: &'static str)
        ensures
            r@ == media_uri(self),
    {
        match self {
            MediaKind::Images => "content://media/external/images/media",
            MediaKind::Video => "content://media/external/video/media",
            MediaKind::Audio => "content://media/external/audio/media",
        }
    }
}

pub open spec fn media_command_text(k: MediaKind) -> Seq<char> {
    "content query --uri "@ + media_uri(k) + " --projection _data --sort \"date_modified DESC\" 2>/dev/null"@
}

/// The shell command that reads the paths of a media collection, newest
/// first.
pub fn media_query_command(kind: MediaKind) -> (r: String)
    ensures
        r@ == media_command_text(kind),
{
    let mut out: Vec<char> = Vec::new();
    push_str(&mut out, "content query --uri ");
    push_str(&mut out, kind.uri());
    push_str(&mut out, " --projection _data --sort \"date_modified DESC\" 2>/dev/null");
    string_of(out.as_slice())
}

/// The path in a row of `content query` (`Row: 0 _data=/storage/...`): the
/// text after the first `_data=` up to the next one, trimmed.
pub open spec fn data_field(line: Seq<char>) -> Option<Seq<char>> {
    match find(line, "_data="@) {
        Some(i) => Some(trim(before(line.skip(i + 6), "_data="@))),
        None => None,
    }
}

/// The paths that the rows of a `content query` output hold, in order.
pub open spec fn media_paths(rows: Seq<Seq<char>>) -> Seq<Seq<char>>
    decreases rows.len(),
{
    if rows.len() == 0 {
        Seq::empty()
    } else {
        let rest = media_paths(rows.drop_last());
        match data_field(rows.last()) {
            Some(p) => rest.push(p),
            None => rest,
        }
    }
}

/// At most `n` first elements of `s`.
pub open spec fn at_most<A>(s: Seq<A>, n: nat) -> Seq<A> {
    if s.len() <= n {
        s
    } else {
        s.take(n as int)
    }
}

fn data_field_of(line: &[char]) -> (r: Option<Vec<char>>)
    ensures
        match r {
            Some(p) => data_field(line@) == Some(p@),
            None => data_field(line@) is None,
        },
{
    let n = line.len();
    let key = chars_of("_data=");
    proof {
        lemma_find_from(line@, key@, 0);
        reveal_strlit("_data=");
    }
    match find_str(line, key.as_slice()) {
        Some(i) => {
            let rest = slice_chars(line, i + 6, n);
            assert(rest@ =~= line@.skip(i + 6));
            let head = before_pattern(rest.as_slice(), key.as_slice());
            let (a, b) = trim_bounds(head.as_slice());
            Some(slice_chars(head.as_slice(), a, b))
        },
        None => None,
    }
}

/// The outcome of reading a media collection, from the shell's output: no
/// output is an error, else one entry per listed path, newest first, at
/// most [`MAX_RESULTS`].
pub fn media_query(out: Option<&str>) -> (r: Result<Vec<FileEntry>, String>)
    ensures
        match out {
            None => r matches Err(m) && m@ == "No se pudo leer el indice multimedia"@,
            Some(o) => r matches Ok(v) && entries_view(v@) == at_most(
                path_entries(media_paths(lines(o@))),
                600,
            ),
        },
{
    let o = match out {
        None => return Err(owned("No se pudo leer el indice multimedia")),
        Some(o) => o,
    };
    let ov = chars_of(o);
    let rows = split_lines(ov.as_slice());
    let ghost rv = rows@.map_values(|w: Vec<char>| w@);
    let mut paths: Vec<Vec<char>> = Vec::new();
    let mut i: usize = 0;
    while i < rows.len()
        invariant
            i <= rows@.len(),
            rv == rows@.map_values(|w: Vec<char>| w@),
            paths@.map_values(|w: Vec<char>| w@) == media_paths(rv.take(i as int)),
        decreases rows@.len() - i,
    {
        assert(rv.take(i + 1).drop_last() =~= rv.take(i as int));
        assert(rv.take(i + 1).last() == rows@[i as int]@);
        match data_field_of(rows[i].as_slice()) {
            Some(p) => {
                let ghost before_push = paths@.map_values(|w: Vec<char>| w@);
                paths.push(p);
                assert(paths@.map_values(|w: Vec<char>| w@) =~= before_push.push(p@));
            },
            None => {},
        }
        i = i + 1;
    }
    assert(rv.take(rows@.len() as int) =~= rv);
    let mut entries = paths_to_entries(paths.as_slice());
    let ghost full = entries@;
    entries.truncate(MAX_RESULTS);
    assert(entries_view(entries@) =~= at_most(entries_view(full), 600));
    Ok(entries)
}

// ───────────────────────────── device-wide search ─────────────────────────────

/// How a device-wide search runs: through the media index for photos,
/// video and audio, else through `find` under `/sdcard`.
pub enum AndroidSearch {
    Media(MediaKind),
    Find(String),
}

/// The `-iname` tests that restrict `find` to a category's extensions.
pub open spec fn ext_tests(exts: Seq<Seq<char>>) -> Seq<Seq<char>> {
    exts.map_values(|e: Seq<char>| "-iname \"*."@ + e + "\""@)
}

pub open spec fn ext_expr(c: Category) -> Seq<char> {
    let exts = crate::files::kinds::category_extensions(c);
    if exts.len() == 0 {
        Seq::empty()
    } else {
        " \\( "@ + join_with(ext_tests(exts), " -o "@) + " \\)"@
    }
}

/// The `find` command of a device-wide search for `query` in category `c`.
pub open spec fn find_command_text(query: Seq<char>, c: Category) -> Seq<char> {
    "find /sdcard -type f"@ + ext_expr(c) + " -iname \"*"@ + sanitized(query) + "*\" 2>/dev/null | head -n "@
        + crate::text::dec(600)
}

pub open spec fn media_kind_of(c: Category) -> Option<MediaKind> {
    match c {
        Category::Fotos => Some(MediaKind::Images),
        Category::Video => Some(MediaKind::Video),
        Category::Audio => Some(MediaKind::Audio),
        _ => None,
    }
}

/// How to search the whole phone for `query` in `category`.
pub fn search_android_plan(query: &str, category: Category) -> (r: AndroidSearch)
    ensures
        match media_kind_of(category) {
            Some(k) => r == AndroidSearch::Media(k),
            None => r matches AndroidSearch::Find(cmd) && cmd@ == find_command_text(query@, category),
        },
{
    match category {
        Category::Fotos => return AndroidSearch::Media(MediaKind::Images),
        Category::Video => return AndroidSearch::Media(MediaKind::Video),
        Category::Audio => return AndroidSearch::Media(MediaKind::Audio),
        _ => {},
    }
    let qv = chars_of(query);
    let q = sanitize_chars(qv.as_slice());
    let exts = category.extensions();
    let ghost ev = exts@.map_values(|e: &str| e@);
    let mut out: Vec<char> = Vec::new();
    push_str(&mut out, "find /sdcard -type f");
    if exts.len() > 0 {
        push_str(&mut out, " \\( ");
        let mut i: usize = 0;
        let ghost start = out@;
        while i < exts.len()
            invariant
                i <= exts@.len(),
                ev == exts@.map_values(|e: &str| e@),
                out@ == start + join_with(ext_tests(ev.take(i as int)), " -o "@),
            decreases exts@.len() - i,
        {
            let ghost prev = join_with(ext_tests(ev.take(i as int)), " -o "@);
            assert(ext_tests(ev.take(i + 1)).drop_last() =~= ext_tests(ev.take(i as int)));
            if i > 0 {
                push_str(&mut out, " -o ");
            }
            push_str(&mut out, "-iname \"*.");
            push_str(&mut out, exts[i]);
            push_str(&mut out, "\"");
            assert(ext_tests(ev.take(i + 1)).last() == "-iname \"*."@ + ev[i as int] + "\""@);
            if i == 0 {
                assert(ext_tests(ev.take(1)).len() == 1);
                assert(out@ =~= start + join_with(ext_tests(ev.take(1)), " -o "@));
            } else {
                assert(out@ =~= start + join_with(ext_tests(ev.take(i + 1)), " -o "@));
            }
            i = i + 1;
        }
        assert(ev.take(exts@.len() as int) =~= ev);
        push_str(&mut out, " \\)");
    }
    push_str(&mut out, " -iname \"*");
    push_all(&mut out, q.as_slice());
    push_str(&mut out, "*\" 2>/dev/null | head -n ");
    let mut tail = String::new();
    crate::text::push_dec(&mut tail, 600);
    let tv = chars_of(tail.as_str());
    push_all(&mut out, tv.as_slice());
    assert(out@ =~= find_command_text(query@, category));
    AndroidSearch::Find(string_of(out.as_slice()))
}

/// The outcome of a `find` search, from the shell's output.
pub fn search_android_find(out: Option<&str>) -> (r: Result<Vec<FileEntry>, String>)
    ensures
        match out {
            None => r matches Err(m) && m@ == "La busqueda falló"@,
            Some(o) => r matches Ok(v) && entries_view(v@) == path_entries(lines(o@)),
        },
{
    match out {
        None => Err(owned("La busqueda falló")),
        Some(o) => {
            let ov = chars_of(o);
            let rows = split_lines(ov.as_slice());
            Ok(paths_to_entries(rows.as_slice()))
        },
    }
}

/// The entries of `s` whose lower-case name contains `needle`, in order.
pub open spec fn named_containing(s: Seq<EntryV>, needle: Seq<char>) -> Seq<EntryV>
    decreases s.len(),
{
    if s.len() == 0 {
        Seq::empty()
    } else {
        let rest = named_containing(s.drop_last(), needle);
        if contains(lowercase(s.last().name), needle) {
            rest.push(s.last())
        } else {
            rest
        }
    }
}

/// Keeps the entries whose lower-case name contains `needle`.
pub fn retain_named(entries: Vec<FileEntry>, needle: &[char]) -> (r: Vec<FileEntry>)
    ensures
        entries_view(r@) == named_containing(entries_view(entries@), needle@),
{
    let ghost ev = entries_view(entries@);
    let mut r: Vec<FileEntry> = Vec::new();
    let mut i: usize = 0;
    while i < entries.len()
        invariant
            i <= entries@.len(),
            ev == entries_view(entries@),
            entries_view(r@) == named_containing(ev.take(i as int), needle@),
        decreases entries@.len() - i,
    {
        assert(ev.take(i + 1).drop_last() =~= ev.take(i as int));
        assert(ev.take(i + 1).last() == entries@[i as int]@);
        let low = to_lowercase(entries[i].name.as_str());
        let lv = chars_of(low.as_str());
        if crate::text::contains_str(lv.as_slice(), needle) {
            let e = entries[i].clone();
            proof {
                crate::files::entry::lemma_entries_view_push(r@, e);
            }
            r.push(e);
        }
        i = i + 1;
    }
    assert(ev.take(entries@.len() as int) =~= ev);
    r
}

/// The outcome of a media-index search for `query`: a failed read stays an
/// error; else the entries whose lower-case name contains the lower-case
/// query (all of them for an empty query), at most [`MAX_RESULTS`].
pub fn search_android_media(found: Result<Vec<FileEntry>, String>, query: &str) -> (r: Result<
    Vec<FileEntry>,
    String,
>)
    ensures
        match found {
            Err(m) => r matches Err(m2) && m2@ == m@,
            Ok(v) => r matches Ok(w) && entries_view(w@) == at_most(
                if query@.len() == 0 {
                    entries_view(v@)
                } else {
                    named_containing(entries_view(v@), lowercase(query@))
                },
                600,
            ),
        },
{
    let needle = to_lowercase(query);
    let nv = chars_of(needle.as_str());
    match found {
        Err(m) => Err(m),
        Ok(all) => {
            let mut kept = if nv.len() == 0 {
                all
            } else {
                retain_named(all, nv.as_slice())
            };
            let ghost full = kept@;
            kept.truncate(MAX_RESULTS);
            assert(entries_view(kept@) =~= at_most(entries_view(full), 600));
            Ok(kept)
        },
    }
}

} // verus!
