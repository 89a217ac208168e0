//! A row of a file listing.

use vstd::prelude::*;
use crate::files::kinds::{category_icon, human_size, human_size_text, Category};

verus! {

/// A file or folder as a listing shows it.
pub struct FileEntry {
    pub name: String,
    pub path: String,
    pub is_dir: bool,
    pub size: u64,
    pub category: Category,
}

/// The value of a [`FileEntry`]: its fields, with text as characters.
#[verifier::ext_equal]
pub struct EntryV {
    pub name: Seq<char>,
    pub path: Seq<char>,
    pub is_dir: bool,
    pub size: u64,
    pub category: Category,
}

impl View for FileEntry {
    type V = EntryV;

    open spec fn view(&self) -> EntryV {
        EntryV {
            name: self.name@,
            path: self.path@,
            is_dir: self.is_dir,
            size: self.size,
            category: self.category,
        }
    }
}

/// The values of a sequence of entries.
pub open spec fn entries_view(s: Seq<FileEntry>) -> Seq<EntryV> {
    s.map_values(|e: FileEntry| e@)
}

impl Clone for FileEntry {
    fn clone(&self) -> (r: Self)
        ensures
            r@ == self@,
    {
        FileEntry {
            name: self.name.clone(),
            path: self.path.clone(),
            is_dir: self.is_dir,
            size: self.size,
            category: self.category,
        }
    }
}

pub proof fn lemma_entries_view_push(s: Seq<FileEntry>, x: FileEntry)
    ensures
        entries_view(s.push(x)) == entries_view(s).push(x@),
{
    assert(entries_view(s.push(x)) =~= entries_view(s).push(x@));
}

pub proof fn lemma_entries_view_take(s: Seq<FileEntry>, i: int)
    requires
        0 <= i < s.len(),
    ensures
        entries_view(s.take(i + 1)) == entries_view(s.take(i)).push(s[i]@),
{
    assert(s.take(i + 1) =~= s.take(i).push(s[i]));
    lemma_entries_view_push(s.take(i), s[i]);
}

/// A copy of every entry of `v`.
pub fn clone_entries(v: &Vec<FileEntry>) -> (r: Vec<FileEntry>)
    ensures
        entries_view(r@) == entries_view(v@),
{
    let mut r: Vec<FileEntry> = Vec::new();
    let mut i: usize = 0;
    while i < v.len()
        invariant
            i <= v@.len(),
            entries_view(r@) == entries_view(v@.take(i as int)),
        decreases v@.len() - i,
    {
        let e = v[i].clone();
        proof {
            lemma_entries_view_push(r@, e);
            lemma_entries_view_take(v@, i as int);
        }
        r.push(e);
        i = i + 1;
    }
    assert(v@.take(v@.len() as int) =~= v@);
    r
}

pub open spec fn entry_icon(e: EntryV) -> Seq<char> {
    if e.is_dir {
        "📁"@
    } else {
        category_icon(e.category)
    }
}

pub open spec fn entry_size_label(e: EntryV) -> Seq<char> {
    if e.is_dir || e.size == 0 {
        "—"@
    } else {
        human_size_text(e.size as nat)
    }
}

impl FileEntry {
    pub fn icon(&self) -> (r: &'static str)
        ensures
            r@ == entry_icon(self@),
    {
        if self.is_dir {
            "📁"
        } else {
            self.category.icon()
        }
    }

    /// The size column: a dash for folders and unknown sizes.
    pub fn size_label(&self) -> (r: String)
        ensures
            r@ == entry_size_label(self@),
    {
        if self.is_dir || self.size == 0 {
            "—".to_owned()
        } else {
            human_size(self.size)
        }
    }
}

} // verus!
