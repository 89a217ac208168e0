//! Listing and searching the computer's folders. Reading a folder is left to
//! the caller; what is kept, how it is classified, and when a search stops
//! is decided here.

use vstd::prelude::*;
use crate::files::entry::{entries_view, EntryV, FileEntry};
use crate::files::kinds::{category_of, name_category, Category};
use crate::files::listing::MAX_RESULTS;
use crate::files::order::{sort_entries, sorted_entries};
use crate::text::{
    chars_of, contains, contains_str, has_prefix, lowercase, owned, starts_with, str_eq,
    to_lowercase,
};

verus! {

/// A folder entry as read from the disk.
pub struct RawEntry {
    pub name: String,
    pub path: String,
    pub is_dir: bool,
    pub size: u64,
}

pub struct RawV {
    pub name: Seq<char>,
    pub path: Seq<char>,
    pub is_dir: bool,
    pub size: u64,
}

impl View for RawEntry {
    type V = RawV;

    open spec fn view(&self) -> RawV {
        RawV { name: self.name@, path: self.path@, is_dir: self.is_dir, size: self.size }
    }
}

pub open spec fn raws_view(s: Seq<RawEntry>) -> Seq<RawV> {
    s.map_values(|r: RawEntry| r@)
}

/// The listing rows of a folder's entries: hidden names (starting with a
/// dot) are left out; folders have no category.
pub open spec fn pc_rows(raws: Seq<RawV>) -> Seq<EntryV>
    decreases raws.len(),
{
    if raws.len() == 0 {
        Seq::empty()
    } else {
        let rest = pc_rows(raws.drop_last());
        let r = raws.last();
        if starts_with(r.name, "."@) {
            rest
        } else {
            rest.push(
                EntryV {
                    category: if r.is_dir {
                        Category::Otros
                    } else {
                        name_category(r.name)
                    },
                    size: r.size,
                    path: r.path,
                    name: r.name,
                    is_dir: r.is_dir,
                },
            )
        }
    }
}

/// The listing of a computer folder from the outcome of reading it: a
/// failed read gives its message, else the visible entries in listing order.
pub fn list_pc(read: Result<Vec<RawEntry>, String>) -> (r: Result<Vec<FileEntry>, String>)
    ensures
        match read {
            Err(e) => r matches Err(m) && m@ == "No se pudo leer: "@ + e@,
            Ok(raws) => r matches Ok(v) && entries_view(v@) == sorted_entries(pc_rows(raws_view(raws@))),
        },
{
    let raws = match read {
        Err(e) => {
            let mut m = owned("No se pudo leer: ");
            m.append(e.as_str());
            return Err(m);
        },
        Ok(raws) => raws,
    };
    let ghost rv = raws_view(raws@);
    let dot = chars_of(".");
    let mut out: Vec<FileEntry> = Vec::new();
    let mut i: usize = 0;
    while i < raws.len()
        invariant
            i <= raws@.len(),
            rv == raws_view(raws@),
            dot@ == "."@,
            entries_view(out@) == pc_rows(rv.take(i as int)),
        decreases raws@.len() - i,
    {
        assert(rv.take(i + 1).drop_last() =~= rv.take(i as int));
        assert(rv.take(i + 1).last() == raws@[i as int]@);
        let r = &raws[i];
        let nv = chars_of(r.name.as_str());
        if !has_prefix(nv.as_slice(), dot.as_slice()) {
            let e = FileEntry {
                category: if r.is_dir {
                    Category::Otros
                } else {
                    category_of(r.name.as_str())
                },
                size: r.size,
                path: r.path.clone(),
                name: r.name.clone(),
                is_dir: r.is_dir,
            };
            proof {
                crate::files::entry::lemma_entries_view_push(out@, e);
            }
            out.push(e);
        }
        i = i + 1;
    }
    assert(rv.take(raws@.len() as int) =~= rv);
    sort_entries(&mut out);
    Ok(out)
}

/// A folder entry met during a search, with its metadata when it could be
/// read (whether it is a folder, and its size).
pub struct SearchItem {
    pub name: String,
    pub path: String,
    pub meta: Option<(bool, u64)>,
}

pub struct ItemV {
    pub name: Seq<char>,
    pub path: Seq<char>,
    pub meta: Option<(bool, u64)>,
}

impl View for SearchItem {
    type V = ItemV;

    open spec fn view(&self) -> ItemV {
        ItemV { name: self.name@, path: self.path@, meta: self.meta }
    }
}

pub open spec fn items_view(s: Seq<SearchItem>) -> Seq<ItemV> {
    s.map_values(|r: SearchItem| r@)
}

/// A search through the computer's folders, depth first from the root:
/// `stack` holds the folders still to read, `out` the matches so far.
pub struct PcSearch {
    pub needle: String,
    pub category: Category,
    pub stack: Vec<String>,
    pub out: Vec<FileEntry>,
    pub done: bool,
}

#[verifier::ext_equal]
pub struct PcSearchV {
    pub needle: Seq<char>,
    pub category: Category,
    pub stack: Seq<Seq<char>>,
    pub out: Seq<EntryV>,
    pub done: bool,
}

pub open spec fn texts_view(s: Seq<String>) -> Seq<Seq<char>> {
    s.map_values(|t: String| t@)
}

impl View for PcSearch {
    type V = PcSearchV;

    open spec fn view(&self) -> PcSearchV {
        PcSearchV {
            needle: self.needle@,
            category: self.category,
            stack: texts_view(self.stack@),
            out: entries_view(self.out@),
            done: self.done,
        }
    }
}

/// Names a search does not look into: hidden ones, `node_modules` and
/// `AppData`.
pub open spec fn skipped_name(name: Seq<char>) -> bool {
    starts_with(name, "."@) || name == "node_modules"@ || name == "AppData"@
}

/// One folder entry met by a search: folders are queued, files that match
/// the needle (in lower case) and the category are kept; skipped names and
/// unreadable metadata are passed over.
pub open spec fn visited_one(v: PcSearchV, e: ItemV) -> PcSearchV {
    if skipped_name(e.name) {
        v
    } else {
        match e.meta {
            None => v,
            Some((is_dir, size)) => if is_dir {
                PcSearchV { stack: v.stack.push(e.path), ..v }
            } else if v.needle.len() > 0 && !contains(lowercase(e.name), v.needle) {
                v
            } else {
                let cat = name_category(e.name);
                if v.category != Category::Todos && cat != v.category {
                    v
                } else {
                    PcSearchV {
                        out: v.out.push(
                            EntryV { path: e.path, name: e.name, is_dir: false, size: size, category: cat },
                        ),
                        ..v
                    }
                }
            },
        }
    }
}

/// A folder's entries met in order; once [`MAX_RESULTS`] matches are found
/// the rest is not looked at.
pub open spec fn visited(v: PcSearchV, es: Seq<ItemV>) -> PcSearchV
    decreases es.len(),
{
    if es.len() == 0 {
        v
    } else {
        let w = visited(v, es.drop_last());
        if w.out.len() >= 600 {
            w
        } else {
            visited_one(w, es.last())
        }
    }
}

proof fn lemma_visited_grows(v: PcSearchV, es: Seq<ItemV>)
    ensures
        visited(v, es).out.len() >= v.out.len(),
        v.out.len() >= 600 ==> visited(v, es) == v,
    decreases es.len(),
{
    if es.len() > 0 {
        lemma_visited_grows(v, es.drop_last());
    }
}

impl PcSearch {
    /// A search from `root` for names containing `query` (in lower case)
    /// in `category`.
    pub fn new(root: String, query: &str, category: Category) -> (r: PcSearch)
        ensures
            r@ == (PcSearchV {
                needle: lowercase(query@),
                category: category,
                stack: seq![root@],
                out: Seq::empty(),
                done: false,
            }),
    {
        let r = PcSearch {
            needle: to_lowercase(query),
            category: category,
            stack: vec![root],
            out: Vec::new(),
            done: false,
        };
        assert(texts_view(r.stack@) =~= seq![r.stack@[0]@]);
        assert(entries_view(r.out@) =~= Seq::empty());
        r
    }

    /// The next folder to read, the most recently queued first; none once
    /// the queue is empty or enough matches are found.
    pub fn next_dir(&mut self) -> (r: Option<String>)
        ensures
            ({
                let v = old(self)@;
                if v.done || v.stack.len() == 0 {
                    r is None && final(self)@ == v
                } else if v.out.len() >= 600 {
                    r is None && final(self)@ == (PcSearchV {
                        stack: v.stack.drop_last(),
                        done: true,
                        ..v
                    })
                } else {
                    r matches Some(d) && d@ == v.stack.last() && final(self)@ == (PcSearchV {
                        stack: v.stack.drop_last(),
                        ..v
                    })
                }
            }),
    {
        if self.done {
            return None;
        }
        let ghost before = texts_view(self.stack@);
        let dir = match self.stack.pop() {
            Some(d) => d,
            None => return None,
        };
        assert(texts_view(self.stack@) =~= before.drop_last());
        if self.out.len() >= MAX_RESULTS {
            self.done = true;
            return None;
        }
        Some(dir)
    }

    fn visit_one(&mut self, e: &SearchItem)
        requires
            old(self)@.out.len() < 600,
        ensures
            final(self)@ == visited_one(old(self)@, e@),
    {
        let nv = chars_of(e.name.as_str());
        if has_prefix(nv.as_slice(), chars_of(".").as_slice()) || str_eq(e.name.as_str(), "node_modules")
            || str_eq(e.name.as_str(), "AppData") {
            return ;
        }
        let (is_dir, size) = match e.meta {
            None => return ,
            Some(m) => m,
        };
        if is_dir {
            let ghost before = texts_view(self.stack@);
            self.stack.push(e.path.clone());
            assert(texts_view(self.stack@) =~= before.push(e.path@));
            return ;
        }
        let needle = chars_of(self.needle.as_str());
        if needle.len() > 0 {
            let low = to_lowercase(e.name.as_str());
            if !contains_str(chars_of(low.as_str()).as_slice(), needle.as_slice()) {
                return ;
            }
        }
        let cat = category_of(e.name.as_str());
        if self.category != Category::Todos && cat != self.category {
            return ;
        }
        let f = FileEntry {
            path: e.path.clone(),
            name: e.name.clone(),
            is_dir: false,
            size: size,
            category: cat,
        };
        proof {
            crate::files::entry::lemma_entries_view_push(self.out@, f);
        }
        self.out.push(f);
    }

    /// Looks at the entries of a folder that was read.
    pub fn visit(&mut self, entries: Vec<SearchItem>)
        ensures
            final(self)@ == visited(old(self)@, items_view(entries@)),
    {
        let ghost ev = items_view(entries@);
        let ghost v0 = self@;
        let mut i: usize = 0;
        while i < entries.len()
            invariant
                i <= entries@.len(),
                ev == items_view(entries@),
                self@ == visited(v0, ev.take(i as int)),
                v0 == old(self)@,
            decreases entries@.len() - i,
        {
            assert(ev.take(i + 1).drop_last() =~= ev.take(i as int));
            assert(ev.take(i + 1).last() == entries@[i as int]@);
            if self.out.len() >= MAX_RESULTS {
                proof {
                    let k = entries@.len() as int;
                    lemma_stays_full(v0, ev, i as int, k);
                    assert(ev.take(k) =~= ev);
                    assert(visited(v0, ev) == self@);
                }
                return ;
            }
            self.visit_one(&entries[i]);
            i = i + 1;
        }
        assert(ev.take(entries@.len() as int) =~= ev);
    }

    /// The matches, in listing order.
    pub fn finish(self) -> (r: Vec<FileEntry>)
        ensures
            entries_view(r@) == sorted_entries(self@.out),
    {
        let mut out = self.out;
        sort_entries(&mut out);
        out
    }
}

proof fn lemma_stays_full(v: PcSearchV, es: Seq<ItemV>, i: int, j: int)
    requires
        0 <= i < j <= es.len(),
        visited(v, es.take(i)).out.len() >= 600,
    ensures
        visited(v, es.take(j)) == visited(v, es.take(i)),
    decreases j - i,
{
    assert(es.take(j).drop_last() =~= es.take(j - 1));
    if j - 1 > i {
        lemma_stays_full(v, es, i, j - 1);
    } else {
        assert(es.take(j - 1) =~= es.take(i));
    }
}

} // verus!
