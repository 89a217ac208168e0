//! The file manager's state: what side and folder are browsed, the filters,
//! the listing shown, the tray and the transfers. Work that reads the disk
//! or the phone is handed out as jobs and its answers come back as events;
//! each method here decides what changes and what is asked for.

use vstd::prelude::*;
use crate::files::cache::ListingCache;
use crate::files::entry::{clone_entries, entries_view, EntryV, FileEntry};
use crate::files::kinds::{
    android_dest_path, category_of, name_category, AndroidDest, Category, Scope, Side,
};
use crate::files::listing::{media_uri, trim_end_char, trim_end_matching, MediaKind};
use crate::files::tray::{
    dispatches_view, opt_text, staged_view, transfers_view, Dispatch, DispatchV, Event, EventV,
    Job, JobV, StagedFile, StagedV, Transfer, TransferState, TransferStateV, TransferV,
};
use crate::paths::{joined_path, parent_path, path_join, path_parent};
use crate::files::order::seq_lt;
use crate::text::{
    chars_of, contains, lowercase, last_index_of, lemma_last_index_of, owned, push_dec, rfind_char,
    slice_chars, str_eq, string_of, to_lowercase, trim, trim_str,
};

verus! {

/// The value of a [`FileManager`], with text as characters.
#[verifier::ext_equal]
pub struct FileManagerV {
    pub side: Side,
    pub category: Category,
    pub scope: Scope,
    pub search: Seq<char>,
    pub pc_path: Seq<char>,
    pub android_path: Seq<char>,
    pub pc_dest: Seq<char>,
    pub android_dest: AndroidDest,
    pub notice: Option<Seq<char>>,
    pub entries: Seq<EntryV>,
    pub loading: bool,
    pub result_label: Option<Seq<char>>,
    pub error: Option<Seq<char>>,
    pub staged: Seq<StagedV>,
    pub transfers: Seq<TransferV>,
    pub cache: Map<Seq<char>, Seq<EntryV>>,
    pub token: u64,
    pub last_key: Option<Seq<char>>,
    pub pending_search: Option<u64>,
    pub last_query: Seq<char>,
    pub home: Seq<char>,
    pub jobs: Seq<DispatchV>,
}

/// The file manager. `token` numbers the listing requests: an answer that
/// carries an older number than the latest request is dropped. `jobs` holds
/// the work handed out and not yet taken by [`FileManager::take_jobs`].
pub struct FileManager {
    pub side: Side,
    pub category: Category,
    pub scope: Scope,
    pub search: String,
    pub pc_path: String,
    pub android_path: String,
    pub pc_dest: String,
    pub android_dest: AndroidDest,
    pub notice: Option<String>,
    pub entries: Vec<FileEntry>,
    pub loading: bool,
    pub result_label: Option<String>,
    pub error: Option<String>,
    pub staged: Vec<StagedFile>,
    pub transfers: Vec<Transfer>,
    pub cache: ListingCache,
    pub token: u64,
    pub last_key: Option<String>,
    pub pending_search: Option<u64>,
    pub last_query: String,
    pub home: String,
    pub jobs: Vec<Dispatch>,
}

impl View for FileManager {
    type V = FileManagerV;

    open spec fn view(&self) -> FileManagerV {
        FileManagerV {
            side: self.side,
            category: self.category,
            scope: self.scope,
            search: self.search@,
            pc_path: self.pc_path@,
            android_path: self.android_path@,
            pc_dest: self.pc_dest@,
            android_dest: self.android_dest,
            notice: opt_text(self.notice),
            entries: entries_view(self.entries@),
            loading: self.loading,
            result_label: opt_text(self.result_label),
            error: opt_text(self.error),
            staged: staged_view(self.staged@),
            transfers: transfers_view(self.transfers@),
            cache: self.cache@,
            token: self.token,
            last_key: opt_text(self.last_key),
            pending_search: self.pending_search,
            last_query: self.last_query@,
            home: self.home@,
            jobs: dispatches_view(self.jobs@),
        }
    }
}

/// The request number after `t`.
pub open spec fn next_token(t: u64) -> u64 {
    if t == u64::MAX {
        0
    } else {
        (t + 1) as u64
    }
}

/// The cache key of the folder browsed on `side`.
pub open spec fn folder_key(side: Side, pc_path: Seq<char>, android_path: Seq<char>) -> Seq<char> {
    match side {
        Side::Pc => "pc:"@ + pc_path,
        Side::Android => "an:"@ + android_path,
    }
}

pub open spec fn key_of(v: FileManagerV) -> Seq<char> {
    folder_key(v.side, v.pc_path, v.android_path)
}

/// The state after reloading the browsed folder: a new request number; the
/// cached listing of the folder shown at once if there is one, else an empty
/// listing marked loading; the folder's listing asked for. On the phone side
/// without a device nothing is asked for and the error says so.
pub open spec fn reloaded(v: FileManagerV, serial: Option<Seq<char>>) -> FileManagerV {
    let key = key_of(v);
    let token = next_token(v.token);
    let cached = v.cache.contains_key(key);
    let base = FileManagerV {
        token: token,
        result_label: None,
        last_key: Some(key),
        entries: if cached {
            v.cache[key]
        } else {
            Seq::empty()
        },
        loading: !cached,
        error: None,
        ..v
    };
    match v.side {
        Side::Pc => FileManagerV {
            jobs: v.jobs.push(DispatchV { job: JobV::ListPc(v.pc_path), token: token, key: Some(key) }),
            ..base
        },
        Side::Android => match serial {
            None => FileManagerV { loading: false, error: Some("Sin dispositivo"@), ..base },
            Some(s) => FileManagerV {
                jobs: v.jobs.push(
                    DispatchV {
                        job: JobV::ListAndroid { serial: s, path: v.android_path },
                        token: token,
                        key: Some(key),
                    },
                ),
                ..base
            },
        },
    }
}

pub open spec fn opt_str(o: Option<&str>) -> Option<Seq<char>> {
    match o {
        Some(s) => Some(s@),
        None => None,
    }
}

/// The folder above `p` on the phone: the text before its last `/`, `/`
/// when that is empty or there is no `/`; `/` stays `/`.
pub open spec fn android_parent(p: Seq<char>) -> Seq<char> {
    if p == "/"@ {
        p
    } else {
        match last_index_of(p, '/') {
            Some(i) => if i == 0 {
                "/"@
            } else {
                p.take(i)
            },
            None => "/"@,
        }
    }
}

/// The default folder on the computer for files brought from the phone.
pub open spec fn default_pc_dest_path(home: Seq<char>) -> Seq<char> {
    joined_path(joined_path(home, "Downloads"@), "TransFEL"@)
}

/// `Downloads/TransFEL` under the home folder `home`.
pub fn default_pc_dest(home: &str) -> (r: String)
    ensures
        r@ == default_pc_dest_path(home@),
{
    let d = path_join(home, "Downloads");
    path_join(d.as_str(), "TransFEL")
}

/// The file manager at start, before any answer: the computer side at
/// `home`, with that folder's listing asked for.
pub open spec fn initial_files(home: Seq<char>) -> FileManagerV {
    reloaded(
        FileManagerV {
            side: Side::Pc,
            category: Category::Todos,
            scope: Scope::Carpeta,
            search: Seq::empty(),
            pc_path: home,
            android_path: "/sdcard"@,
            pc_dest: default_pc_dest_path(home),
            android_dest: AndroidDest::Descargas,
            notice: None,
            entries: Seq::empty(),
            loading: false,
            result_label: None,
            error: None,
            staged: Seq::empty(),
            transfers: Seq::empty(),
            cache: Map::empty(),
            token: 0,
            last_key: None,
            pending_search: None,
            last_query: Seq::empty(),
            home: home,
            jobs: Seq::empty(),
        },
        None,
    )
}

impl FileManager {
    /// A file manager on the computer side at the home folder `home`, with
    /// that folder's listing asked for.
    pub fn new(home: String) -> (r: FileManager)
        ensures
            r@ == initial_files(home@),
    {
        let mut fm = FileManager {
            side: Side::Pc,
            category: Category::Todos,
            scope: Scope::Carpeta,
            search: String::new(),
            pc_path: home.clone(),
            android_path: owned("/sdcard"),
            pc_dest: default_pc_dest(home.as_str()),
            android_dest: AndroidDest::Descargas,
            notice: None,
            entries: Vec::new(),
            loading: false,
            result_label: None,
            error: None,
            staged: Vec::new(),
            transfers: Vec::new(),
            cache: ListingCache::new(),
            token: 0,
            last_key: None,
            pending_search: None,
            last_query: String::new(),
            home: home,
            jobs: Vec::new(),
        };
        proof {
            assert(entries_view(fm.entries@) =~= Seq::empty());
            assert(staged_view(fm.staged@) =~= Seq::empty());
            assert(transfers_view(fm.transfers@) =~= Seq::empty());
            assert(dispatches_view(fm.jobs@) =~= Seq::empty());
        }
        fm.reload(None);
        fm
    }

    fn bump(&mut self) -> (t: u64)
        ensures
            t == next_token(old(self).token),
            final(self)@ == (FileManagerV { token: t, ..old(self)@ }),
    {
        self.token = if self.token == u64::MAX {
            0
        } else {
            self.token + 1
        };
        self.token
    }

    fn dispatch(&mut self, job: Job, token: u64, key: Option<String>)
        ensures
            final(self)@ == (FileManagerV {
                jobs: old(self)@.jobs.push(DispatchV { job: job@, token: token, key: opt_text(key) }),
                ..old(self)@
            }),
    {
        let d = Dispatch { job, token, key };
        let ghost before = self.jobs@;
        self.jobs.push(d);
        assert(dispatches_view(self.jobs@) =~= dispatches_view(before).push(d@));
    }

    /// The work handed out since the last call, in order.
    pub fn take_jobs(&mut self) -> (r: Vec<Dispatch>)
        ensures
            dispatches_view(r@) == old(self)@.jobs,
            final(self)@ == (FileManagerV { jobs: Seq::empty(), ..old(self)@ }),
    {
        let mut r: Vec<Dispatch> = Vec::new();
        std::mem::swap(&mut r, &mut self.jobs);
        assert(dispatches_view(self.jobs@) =~= Seq::empty());
        r
    }

    /// The cache key of the browsed folder.
    pub fn key(&self) -> (r: String)
        ensures
            r@ == key_of(self@),
    {
        let mut r = match self.side {
            Side::Pc => owned("pc:"),
            Side::Android => owned("an:"),
        };
        match self.side {
            Side::Pc => r.append(self.pc_path.as_str()),
            Side::Android => r.append(self.android_path.as_str()),
        }
        r
    }

    /// Reloads the browsed folder: a cached listing shows at once while the
    /// folder is read anew.
    pub fn reload(&mut self, serial: Option<&str>)
        ensures
            final(self)@ == reloaded(old(self)@, opt_str(serial)),
    {
        let key = self.key();
        let token = self.bump();
        self.result_label = None;
        self.last_key = Some(key.clone());
        match self.cache.get(key.as_str()) {
            Some(cached) => {
                self.entries = cached;
                self.loading = false;
            },
            None => {
                self.entries = Vec::new();
                self.loading = true;
                assert(entries_view(self.entries@) =~= Seq::empty());
            },
        }
        self.error = None;
        let job = match self.side {
            Side::Pc => Job::ListPc(self.pc_path.clone()),
            Side::Android => {
                match serial {
                    None => {
                        self.loading = false;
                        self.error = Some(owned("Sin dispositivo"));
                        assert(self@ =~= reloaded(old(self)@, opt_str(serial)));
                        return ;
                    },
                    Some(s) => Job::ListAndroid { serial: owned(s), path: self.android_path.clone() },
                }
            },
        };
        self.dispatch(job, token, Some(key));
        assert(self@ =~= reloaded(old(self)@, opt_str(serial)));
    }

    /// Opens the folder `entry`.
    pub fn enter(&mut self, entry: &FileEntry, serial: Option<&str>)
        ensures
            final(self)@ == reloaded(
                FileManagerV {
                    pc_path: if old(self).side == Side::Pc {
                        entry.path@
                    } else {
                        old(self)@.pc_path
                    },
                    android_path: if old(self).side == Side::Android {
                        entry.path@
                    } else {
                        old(self)@.android_path
                    },
                    scope: Scope::Carpeta,
                    search: Seq::empty(),
                    ..old(self)@
                },
                opt_str(serial),
            ),
    {
        match self.side {
            Side::Pc => self.pc_path = entry.path.clone(),
            Side::Android => self.android_path = entry.path.clone(),
        }
        self.scope = Scope::Carpeta;
        self.search = String::new();
        self.reload(serial);
    }

    /// Goes to the folder above the browsed one.
    pub fn go_up(&mut self, serial: Option<&str>)
        ensures
            final(self)@ == reloaded(
                match old(self).side {
                    Side::Pc => FileManagerV {
                        pc_path: match parent_path(old(self)@.pc_path) {
                            Some(p) => p,
                            None => old(self)@.pc_path,
                        },
                        ..old(self)@
                    },
                    Side::Android => FileManagerV {
                        android_path: android_parent(old(self)@.android_path),
                        ..old(self)@
                    },
                },
                opt_str(serial),
            ),
    {
        match self.side {
            Side::Pc => {
                match path_parent(self.pc_path.as_str()) {
                    Some(p) => self.pc_path = p,
                    None => {},
                }
            },
            Side::Android => {
                let pv = chars_of(self.android_path.as_str());
                let root = chars_of("/");
                if !crate::text::chars_eq(pv.as_slice(), root.as_slice()) {
                    proof {
                        lemma_last_index_of(pv@, '/');
                    }
                    let parent = match rfind_char(pv.as_slice(), '/') {
                        Some(i) => {
                            if i == 0 {
                                owned("/")
                            } else {
                                string_of(slice_chars(pv.as_slice(), 0, i).as_slice())
                            }
                        },
                        None => owned("/"),
                    };
                    self.android_path = parent;
                }
            },
        }
        self.reload(serial);
    }

    /// Goes to the home folder: the user's folder on the computer,
    /// `/sdcard` on the phone.
    pub fn go_home(&mut self, serial: Option<&str>)
        ensures
            final(self)@ == reloaded(
                match old(self).side {
                    Side::Pc => FileManagerV { pc_path: old(self)@.home, ..old(self)@ },
                    Side::Android => FileManagerV { android_path: "/sdcard"@, ..old(self)@ },
                },
                opt_str(serial),
            ),
    {
        match self.side {
            Side::Pc => self.pc_path = self.home.clone(),
            Side::Android => self.android_path = owned("/sdcard"),
        }
        self.reload(serial);
    }

    /// The text that says what the listing shows: the label of a search or
    /// media view, else the browsed folder.
    pub fn current_path_label(&self) -> (r: String)
        ensures
            r@ == match self@.result_label {
                Some(l) => l,
                None => match self.side {
                    Side::Pc => self@.pc_path,
                    Side::Android => self@.android_path,
                },
            },
    {
        match &self.result_label {
            Some(l) => l.clone(),
            None => match self.side {
                Side::Pc => self.pc_path.clone(),
                Side::Android => self.android_path.clone(),
            },
        }
    }

    /// Browses the other machine: clears the search and reloads; nothing
    /// happens for the side already browsed.
    pub fn switch_side(&mut self, side: Side, serial: Option<&str>)
        ensures
            final(self)@ == if old(self).side == side {
                old(self)@
            } else {
                reloaded(
                    FileManagerV {
                        side: side,
                        search: Seq::empty(),
                        scope: Scope::Carpeta,
                        ..old(self)@
                    },
                    opt_str(serial),
                )
            },
    {
        if self.side == side {
            return ;
        }
        self.side = side;
        self.search = String::new();
        self.scope = Scope::Carpeta;
        self.reload(serial);
    }

    /// Forgets every cached listing.
    pub fn invalidate(&mut self)
        ensures
            final(self)@ == (FileManagerV { cache: Map::empty(), ..old(self)@ }),
    {
        self.cache.clear();
    }
}


// ───────────────────────────── shortcuts ─────────────────────────────

/// What a shortcut opens: a folder, or a collection of the phone's media
/// index.
#[derive(Clone, Copy)]
pub enum Target {
    Dir(&'static str),
    Media(MediaKind),
}

/// A quick-access button.
#[derive(Clone, Copy)]
pub struct Shortcut {
    pub icon: &'static str,
    pub label: &'static str,
    pub target: Target,
}

pub enum TargetV {
    Dir(Seq<char>),
    Media(MediaKind),
}

pub struct ShortcutV {
    pub icon: Seq<char>,
    pub label: Seq<char>,
    pub target: TargetV,
}

impl View for Shortcut {
    type V = ShortcutV;

    open spec fn view(&self) -> ShortcutV {
        ShortcutV {
            icon: self.icon@,
            label: self.label@,
            target: match self.target {
                Target::Dir(d) => TargetV::Dir(d@),
                Target::Media(k) => TargetV::Media(k),
            },
        }
    }
}

pub open spec fn android_shortcut_list() -> Seq<ShortcutV> {
    seq![
        ShortcutV { icon: "📷"@, label: "Camara"@, target: TargetV::Dir("/sdcard/DCIM/Camera"@) },
        ShortcutV { icon: "🖼"@, label: "Galeria"@, target: TargetV::Media(MediaKind::Images) },
        ShortcutV { icon: "⬇"@, label: "Descargas"@, target: TargetV::Dir("/sdcard/Download"@) },
        ShortcutV { icon: "🎬"@, label: "Videos"@, target: TargetV::Media(MediaKind::Video) },
        ShortcutV { icon: "🎵"@, label: "Musica"@, target: TargetV::Media(MediaKind::Audio) },
        ShortcutV {
            icon: "💬"@,
            label: "WhatsApp"@,
            target: TargetV::Dir("/sdcard/Android/media/com.whatsapp/WhatsApp/Media"@),
        },
    ]
}

pub open spec fn pc_shortcut_list() -> Seq<ShortcutV> {
    seq![
        ShortcutV { icon: "⬇"@, label: "Descargas"@, target: TargetV::Dir("Downloads"@) },
        ShortcutV { icon: "🖥"@, label: "Escritorio"@, target: TargetV::Dir("Desktop"@) },
        ShortcutV { icon: "📄"@, label: "Documentos"@, target: TargetV::Dir("Documents"@) },
        ShortcutV { icon: "🖼"@, label: "Imagenes"@, target: TargetV::Dir("Pictures"@) },
    ]
}

/// The phone's quick-access buttons.
pub fn android_shortcuts() -> (r: Vec<Shortcut>)
    ensures
        r@.map_values(|s: Shortcut| s@) == android_shortcut_list(),
{
    let r = vec![
        Shortcut { icon: "📷", label: "Camara", target: Target::Dir("/sdcard/DCIM/Camera") },
        Shortcut { icon: "🖼", label: "Galeria", target: Target::Media(MediaKind::Images) },
        Shortcut { icon: "⬇", label: "Descargas", target: Target::Dir("/sdcard/Download") },
        Shortcut { icon: "🎬", label: "Videos", target: Target::Media(MediaKind::Video) },
        Shortcut { icon: "🎵", label: "Musica", target: Target::Media(MediaKind::Audio) },
        Shortcut {
            icon: "💬",
            label: "WhatsApp",
            target: Target::Dir("/sdcard/Android/media/com.whatsapp/WhatsApp/Media"),
        },
    ];
    assert(r@.map_values(|s: Shortcut| s@) =~= android_shortcut_list());
    r
}

/// The computer's quick-access buttons, folders under the home folder.
pub fn pc_shortcuts() -> (r: Vec<Shortcut>)
    ensures
        r@.map_values(|s: Shortcut| s@) == pc_shortcut_list(),
{
    let r = vec![
        Shortcut { icon: "⬇", label: "Descargas", target: Target::Dir("Downloads") },
        Shortcut { icon: "🖥", label: "Escritorio", target: Target::Dir("Desktop") },
        Shortcut { icon: "📄", label: "Documentos", target: Target::Dir("Documents") },
        Shortcut { icon: "🖼", label: "Imagenes", target: Target::Dir("Pictures") },
    ];
    assert(r@.map_values(|s: Shortcut| s@) =~= pc_shortcut_list());
    r
}

/// The state after pressing a shortcut: the search is cleared; a folder is
/// opened (a computer folder under the home folder); a media collection is
/// asked for on the phone, not cached, when a device is there.
pub open spec fn shortcut_opened(v: FileManagerV, sc: ShortcutV, serial: Option<Seq<char>>) -> FileManagerV {
    let v0 = FileManagerV { search: Seq::empty(), scope: Scope::Carpeta, ..v };
    match sc.target {
        TargetV::Dir(d) => reloaded(
            match v.side {
                Side::Pc => FileManagerV { pc_path: joined_path(v.home, d), ..v0 },
                Side::Android => FileManagerV { android_path: d, ..v0 },
            },
            serial,
        ),
        TargetV::Media(k) => match serial {
            None => v0,
            Some(s) => {
                let t = next_token(v0.token);
                FileManagerV {
                    token: t,
                    entries: Seq::empty(),
                    loading: true,
                    error: None,
                    result_label: Some(sc.label + " (indice del sistema)"@),
                    jobs: v0.jobs.push(
                        DispatchV { job: JobV::MediaAndroid { serial: s, kind: k }, token: t, key: None },
                    ),
                    ..v0
                }
            },
        },
    }
}

// ───────────────────────────── search ─────────────────────────────

/// Milliseconds a device-wide search waits after the last keystroke.
pub const DEBOUNCE_MS: u64 = 350;

/// The state after starting a device-wide search for the trimmed search
/// text. A text shorter than two bytes searches nothing unless a category
/// is chosen.
pub open spec fn searched(v: FileManagerV, serial: Option<Seq<char>>) -> FileManagerV {
    let q = trim(v.search);
    if vstd::utf8::encode_utf8(q).len() < 2 && v.category == Category::Todos {
        v
    } else {
        let t = next_token(v.token);
        let base = FileManagerV {
            token: t,
            entries: Seq::empty(),
            loading: true,
            error: None,
            result_label: Some("Busqueda global: \""@ + q + "\""@),
            last_query: q,
            ..v
        };
        match v.side {
            Side::Pc => FileManagerV {
                jobs: v.jobs.push(
                    DispatchV {
                        job: JobV::SearchPc { root: v.home, query: q, category: v.category },
                        token: t,
                        key: None,
                    },
                ),
                ..base
            },
            Side::Android => match serial {
                None => FileManagerV { loading: false, ..base },
                Some(s) => FileManagerV {
                    jobs: v.jobs.push(
                        DispatchV {
                            job: JobV::SearchAndroid { serial: s, query: q, category: v.category },
                            token: t,
                            key: None,
                        },
                    ),
                    ..base
                },
            },
        }
    }
}

/// Whether the listing shows `e` under the filters of `v`: in folder scope
/// a non-empty search keeps names that contain it (both in lower case);
/// folders show only under `Todos`, files of any category under `Todos`,
/// else only of the chosen one.
pub open spec fn shows(v: FileManagerV, e: EntryV) -> bool {
    let needle = lowercase(v.search);
    let filter_name = v.scope == Scope::Carpeta && v.search.len() > 0;
    &&& !filter_name || contains(lowercase(e.name), needle)
    &&& if e.is_dir {
        v.category == Category::Todos
    } else {
        v.category == Category::Todos || e.category == v.category
    }
}

/// The entries of `s` that show under the filters of `v`, in order.
pub open spec fn shown(v: FileManagerV, s: Seq<EntryV>) -> Seq<EntryV>
    decreases s.len(),
{
    if s.len() == 0 {
        Seq::empty()
    } else {
        let rest = shown(v, s.drop_last());
        if shows(v, s.last()) {
            rest.push(s.last())
        } else {
            rest
        }
    }
}

pub open spec fn visible_entries(v: FileManagerV) -> Seq<EntryV> {
    shown(v, v.entries)
}

/// Whether a search or category filter is on.
pub open spec fn filters_on(v: FileManagerV) -> bool {
    v.category != Category::Todos || trim(v.search).len() > 0
}

// ───────────────────────────── tray ─────────────────────────────

/// The side the tray's files come from: that of its first file.
pub open spec fn tray_origin_of(v: FileManagerV) -> Option<Side> {
    if v.staged.len() > 0 {
        Some(v.staged[0].origin)
    } else {
        None
    }
}

pub open spec fn staged_path(staged: Seq<StagedV>, path: Seq<char>) -> bool {
    exists|i: int| 0 <= i < staged.len() && (#[trigger] staged[i]).path == path
}

pub open spec fn other_device_notice() -> Seq<char> {
    "La bandeja ya tiene archivos del otro dispositivo. Transfierelos o vaciala primero."@
}

pub open spec fn phone_tray_notice() -> Seq<char> {
    "La bandeja tiene archivos del celular. Vacíala para cargar desde el PC."@
}

/// The state after picking the listed entry `e` for the tray: folders and
/// files already in the tray are ignored; a file from the other side than
/// the tray's is refused with a notice; else it joins the tray.
pub open spec fn staged_with(v: FileManagerV, e: EntryV) -> FileManagerV {
    if e.is_dir || staged_path(v.staged, e.path) {
        v
    } else if tray_origin_of(v) is Some && tray_origin_of(v)->0 != v.side {
        FileManagerV { notice: Some(other_device_notice()), ..v }
    } else {
        FileManagerV {
            notice: None,
            staged: v.staged.push(
                StagedV {
                    name: e.name,
                    path: e.path,
                    origin: v.side,
                    size: e.size,
                    category: e.category,
                },
            ),
            ..v
        }
    }
}

/// [`staged_with`] for each of `es` in turn.
pub open spec fn staged_all(v: FileManagerV, es: Seq<EntryV>) -> FileManagerV
    decreases es.len(),
{
    if es.len() == 0 {
        v
    } else {
        staged_with(staged_all(v, es.drop_last()), es.last())
    }
}

/// The tray without the files at `path`.
pub open spec fn unstaged(staged: Seq<StagedV>, path: Seq<char>) -> Seq<StagedV>
    decreases staged.len(),
{
    if staged.len() == 0 {
        Seq::empty()
    } else {
        let rest = unstaged(staged.drop_last(), path);
        if staged.last().path == path {
            rest
        } else {
            rest.push(staged.last())
        }
    }
}

/// A file chosen in the computer's file dialog.
pub struct PickedFile {
    pub name: String,
    pub path: String,
    pub size: u64,
}

pub struct PickedV {
    pub name: Seq<char>,
    pub path: Seq<char>,
    pub size: u64,
}

impl View for PickedFile {
    type V = PickedV;

    open spec fn view(&self) -> PickedV {
        PickedV { name: self.name@, path: self.path@, size: self.size }
    }
}

/// The tray after adding the files chosen in the dialog that it does not
/// hold yet.
pub open spec fn picked_staged(staged: Seq<StagedV>, files: Seq<PickedV>) -> Seq<StagedV>
    decreases files.len(),
{
    if files.len() == 0 {
        staged
    } else {
        let t = picked_staged(staged, files.drop_last());
        let f = files.last();
        if staged_path(t, f.path) {
            t
        } else {
            t.push(
                StagedV {
                    name: f.name,
                    path: f.path,
                    origin: Side::Pc,
                    size: f.size,
                    category: name_category(f.name),
                },
            )
        }
    }
}

/// The state after the dialog's files are offered to the tray: refused with
/// a notice while the tray holds files of the phone, else the files it does
/// not hold yet join it.
pub open spec fn dialog_staged(v: FileManagerV, files: Seq<PickedV>) -> FileManagerV {
    if tray_origin_of(v) == Some(Side::Android) {
        FileManagerV { notice: Some(phone_tray_notice()), ..v }
    } else {
        FileManagerV { notice: None, staged: picked_staged(v.staged, files), ..v }
    }
}

/// The text of the transfer button.
pub open spec fn transfer_label_text(v: FileManagerV) -> Seq<char> {
    match tray_origin_of(v) {
        Some(Side::Android) => "⬅   Traer "@ + crate::text::dec(v.staged.len()) + " al PC"@,
        Some(Side::Pc) => "➡   Enviar "@ + crate::text::dec(v.staged.len()) + " al celular"@,
        None => "Selecciona archivos"@,
    }
}

// ───────────────────────────── transfers ─────────────────────────────

/// The phone folder that files sent from the tray go to.
pub open spec fn android_target(v: FileManagerV) -> Seq<char> {
    match v.android_dest {
        AndroidDest::Actual => trim_end_char(v.android_path, '/'),
        d => android_dest_path(d),
    }
}

/// The copy job for the tray's file `f`, the `index`-th transfer: files of
/// the computer are pushed to the phone, files of the phone pulled to the
/// computer's destination folder.
pub open spec fn copy_job(f: StagedV, index: int, serial: Seq<char>, v: FileManagerV) -> DispatchV {
    DispatchV {
        job: match f.origin {
            Side::Pc => JobV::Push {
                index: index as usize,
                serial: serial,
                src: f.path,
                dst: android_target(v),
            },
            Side::Android => JobV::Pull {
                index: index as usize,
                serial: serial,
                src: f.path,
                dst: v.pc_dest,
            },
        },
        token: 0,
        key: None,
    }
}

/// The state after sending the tray: it is emptied and each of its files
/// becomes a pending transfer towards the other side, with its copy job.
pub open spec fn tray_sent(v: FileManagerV, serial: Seq<char>) -> FileManagerV {
    let n = v.staged.len();
    let start = v.transfers.len();
    FileManagerV {
        staged: Seq::empty(),
        notice: None,
        transfers: v.transfers + Seq::new(
            n,
            |i: int|
                TransferV {
                    name: v.staged[i].name,
                    direction: crate::files::kinds::other_side(v.staged[i].origin),
                    state: TransferStateV::Pendiente,
                },
        ),
        jobs: v.jobs + Seq::new(n, |i: int| copy_job(v.staged[i], start + i, serial, v)),
        ..v
    }
}

pub open spec fn is_active(t: TransferV) -> bool {
    t.state is Pendiente || t.state is EnCurso
}

/// How many transfers are pending or running.
pub open spec fn active_count(ts: Seq<TransferV>) -> nat
    decreases ts.len(),
{
    if ts.len() == 0 {
        0
    } else {
        active_count(ts.drop_last()) + if is_active(ts.last()) {
            1nat
        } else {
            0nat
        }
    }
}

// ───────────────────────────── events ─────────────────────────────

/// One worker report applied: a listing or failure answering an older
/// request than `current` is dropped; a listing with a key is cached; a
/// transfer report updates its transfer if it exists. The flag records that
/// a transfer finished.
pub open spec fn applied(v: FileManagerV, done: bool, current: u64, ev: EventV) -> (FileManagerV, bool) {
    match ev {
        EventV::Result { token, key, entries } => if token < current {
            (v, done)
        } else {
            (
                FileManagerV {
                    cache: match key {
                        Some(k) => v.cache.insert(k, entries),
                        None => v.cache,
                    },
                    entries: entries,
                    loading: false,
                    error: None,
                    ..v
                },
                done,
            )
        },
        EventV::Failed { token, message } => if token < current {
            (v, done)
        } else {
            (FileManagerV { loading: false, error: Some(message), ..v }, done)
        },
        EventV::TransferStarted(i) => if i < v.transfers.len() {
            (
                FileManagerV {
                    transfers: v.transfers.update(
                        i as int,
                        TransferV { state: TransferStateV::EnCurso, ..v.transfers[i as int] },
                    ),
                    ..v
                },
                done,
            )
        } else {
            (v, done)
        },
        EventV::TransferDone(i, res) => if i < v.transfers.len() {
            (
                FileManagerV {
                    transfers: v.transfers.update(
                        i as int,
                        TransferV {
                            state: match res {
                                Ok(()) => TransferStateV::Listo,
                                Err(m) => TransferStateV::Error(m),
                            },
                            ..v.transfers[i as int]
                        },
                    ),
                    ..v
                },
                true,
            )
        } else {
            (v, true)
        },
    }
}

/// The reports `evs` applied in order.
pub open spec fn applied_all(v: FileManagerV, done: bool, current: u64, evs: Seq<EventV>) -> (
    FileManagerV,
    bool,
)
    decreases evs.len(),
{
    if evs.len() == 0 {
        (v, done)
    } else {
        let (w, d) = applied_all(v, done, current, evs.drop_last());
        applied(w, d, current, evs.last())
    }
}

/// Whether a search typed at `pending` is due at time `now` (milliseconds).
pub open spec fn search_due(pending: Option<u64>, now: u64) -> bool {
    match pending {
        Some(at) => now >= at && now - at >= DEBOUNCE_MS,
        None => false,
    }
}

/// The state after one frame's poll at time `now`: a due device-wide search
/// starts; the reports are applied; once a transfer finished and none is
/// active any more, the cache is dropped and the folder reloaded.
pub open spec fn polled(v: FileManagerV, now: u64, serial: Option<Seq<char>>, evs: Seq<EventV>) -> FileManagerV {
    let v1 = if search_due(v.pending_search, now) {
        searched(FileManagerV { pending_search: None, ..v }, serial)
    } else {
        v
    };
    let (v2, done) = applied_all(v1, false, v1.token, evs);
    if done && active_count(v2.transfers) == 0 {
        reloaded(FileManagerV { cache: Map::empty(), ..v2 }, serial)
    } else {
        v2
    }
}


/// A text is shorter than two bytes in UTF-8 exactly when it is empty or a
/// single ASCII character.
pub proof fn lemma_short_utf8(q: Seq<char>)
    ensures
        (vstd::utf8::encode_utf8(q).len() < 2) == (q.len() == 0 || (q.len() == 1 && (q[0] as u32)
            < 0x80)),
{
    if q.len() >= 1 {
        let e0 = vstd::utf8::encode_scalar(q[0] as u32);
        assert(e0.len() >= 1);
        assert(e0.len() == 1 <==> (q[0] as u32) < 0x80);
        assert(vstd::utf8::encode_utf8(q) == e0 + vstd::utf8::encode_utf8(q.drop_first()));
        if q.len() >= 2 {
            let q1 = q.drop_first();
            assert(vstd::utf8::encode_scalar(q1[0] as u32).len() >= 1);
            assert(vstd::utf8::encode_utf8(q1) == vstd::utf8::encode_scalar(q1[0] as u32)
                + vstd::utf8::encode_utf8(q1.drop_first()));
            assert(vstd::utf8::encode_utf8(q1).len() >= 1);
        } else {
            assert(q.drop_first() =~= Seq::<char>::empty());
            assert(vstd::utf8::encode_utf8(q.drop_first()) =~= Seq::<u8>::empty());
        }
    }
}

impl FileManager {
    /// Presses the shortcut `sc`.
    pub fn open_shortcut(&mut self, sc: &Shortcut, serial: Option<&str>)
        ensures
            final(self)@ == shortcut_opened(old(self)@, sc@, opt_str(serial)),
    {
        self.search = String::new();
        self.scope = Scope::Carpeta;
        match sc.target {
            Target::Dir(dir) => {
                match self.side {
                    Side::Pc => self.pc_path = path_join(self.home.as_str(), dir),
                    Side::Android => self.android_path = owned(dir),
                }
                self.reload(serial);
            },
            Target::Media(kind) => {
                let s = match serial {
                    Some(s) => s,
                    None => return ,
                };
                let token = self.bump();
                self.entries = Vec::new();
                self.loading = true;
                self.error = None;
                let mut label = owned(sc.label);
                label.append(" (indice del sistema)");
                self.result_label = Some(label);
                assert(entries_view(self.entries@) =~= Seq::empty());
                self.dispatch(Job::MediaAndroid { serial: owned(s), kind: kind }, token, None);
            },
        }
    }

    /// To be called when the search text changes: in device scope, the
    /// search is due [`DEBOUNCE_MS`] after `now`.
    pub fn on_search_changed(&mut self, now: u64)
        ensures
            final(self)@ == if old(self).scope == Scope::Dispositivo {
                FileManagerV { pending_search: Some(now), ..old(self)@ }
            } else {
                old(self)@
            },
    {
        if self.scope == Scope::Dispositivo {
            self.pending_search = Some(now);
        }
    }

    /// Chooses where searches look; back in folder scope the folder is
    /// reloaded.
    pub fn set_scope(&mut self, scope: Scope, serial: Option<&str>, now: u64)
        ensures
            final(self)@ == if old(self).scope == scope {
                old(self)@
            } else {
                match scope {
                    Scope::Carpeta => reloaded(FileManagerV { scope: scope, ..old(self)@ }, opt_str(serial)),
                    Scope::Dispositivo => FileManagerV {
                        scope: scope,
                        pending_search: Some(now),
                        ..old(self)@
                    },
                }
            },
    {
        if self.scope == scope {
            return ;
        }
        self.scope = scope;
        match scope {
            Scope::Carpeta => self.reload(serial),
            Scope::Dispositivo => self.pending_search = Some(now),
        }
    }

    fn launch_search(&mut self, serial: Option<&str>)
        ensures
            final(self)@ == searched(old(self)@, opt_str(serial)),
    {
        let query = trim_str(self.search.as_str());
        let qv = chars_of(query.as_str());
        proof {
            lemma_short_utf8(qv@);
        }
        let short = qv.len() == 0 || (qv.len() == 1 && (qv[0] as u32) < 0x80);
        if short && self.category == Category::Todos {
            return ;
        }
        let token = self.bump();
        self.entries = Vec::new();
        self.loading = true;
        self.error = None;
        let mut label = owned("Busqueda global: \"");
        label.append(query.as_str());
        label.append("\"");
        self.result_label = Some(label);
        self.last_query = query.clone();
        assert(entries_view(self.entries@) =~= Seq::empty());
        let job = match self.side {
            Side::Pc => Job::SearchPc {
                root: self.home.clone(),
                query: query,
                category: self.category,
            },
            Side::Android => {
                match serial {
                    None => {
                        self.loading = false;
                        return ;
                    },
                    Some(s) => Job::SearchAndroid {
                        serial: owned(s),
                        query: query,
                        category: self.category,
                    },
                }
            },
        };
        self.dispatch(job, token, None);
    }

    /// The entries of the listing that the filters let through, in order.
    pub fn visible(&self) -> (r: Vec<&FileEntry>)
        ensures
            r@.map_values(|e: &FileEntry| e@) == visible_entries(self@),
    {
        let needle = to_lowercase(self.search.as_str());
        let nv = chars_of(needle.as_str());
        let filter_name = self.scope == Scope::Carpeta && nv.len() > 0;
        let ghost es = entries_view(self.entries@);
        let mut r: Vec<&FileEntry> = Vec::new();
        let mut i: usize = 0;
        while i < self.entries.len()
            invariant
                i <= self.entries@.len(),
                es == entries_view(self.entries@),
                nv@ == lowercase(self.search@),
                (nv@.len() == 0) == (self.search@.len() == 0),
                filter_name == (self.scope == Scope::Carpeta && nv@.len() > 0),
                r@.map_values(|e: &FileEntry| e@) == shown(self@, es.take(i as int)),
            decreases self.entries@.len() - i,
        {
            assert(es.take(i + 1).drop_last() =~= es.take(i as int));
            let e = &self.entries[i];
            assert(es.take(i + 1).last() == e@);
            let name_ok = if filter_name {
                let low = to_lowercase(e.name.as_str());
                let lv = chars_of(low.as_str());
                crate::text::contains_str(lv.as_slice(), nv.as_slice())
            } else {
                true
            };
            let cat_ok = if e.is_dir {
                self.category == Category::Todos
            } else {
                self.category == Category::Todos || e.category == self.category
            };
            let ghost before = r@.map_values(|e: &FileEntry| e@);
            if name_ok && cat_ok {
                r.push(e);
                assert(r@.map_values(|e: &FileEntry| e@) =~= before.push(e@));
            }
            i = i + 1;
        }
        assert(es.take(self.entries@.len() as int) =~= es);
        r
    }

    /// How many entries show, and how many the listing holds.
    pub fn filter_summary(&self) -> (r: (usize, usize))
        ensures
            r.0 == visible_entries(self@).len(),
            r.1 == self@.entries.len(),
    {
        let v = self.visible();
        assert(v@.map_values(|e: &FileEntry| e@).len() == v@.len());
        (v.len(), self.entries.len())
    }

    /// Whether a search or category filter is on.
    pub fn filters_active(&self) -> (r: bool)
        ensures
            r == filters_on(self@),
    {
        let t = trim_str(self.search.as_str());
        self.category != Category::Todos || !t.as_str().is_empty()
    }

    /// Turns the filters off; a device-wide search goes back to the folder.
    pub fn clear_filters(&mut self, serial: Option<&str>)
        ensures
            final(self)@ == ({
                let v = FileManagerV {
                    category: Category::Todos,
                    search: Seq::empty(),
                    ..old(self)@
                };
                if v.scope == Scope::Dispositivo {
                    reloaded(FileManagerV { scope: Scope::Carpeta, ..v }, opt_str(serial))
                } else {
                    v
                }
            }),
    {
        self.category = Category::Todos;
        self.search = String::new();
        if self.scope == Scope::Dispositivo {
            self.set_scope(Scope::Carpeta, serial, 0);
        }
    }

    // ── tray ──

    /// The side the tray's files come from.
    pub fn tray_origin(&self) -> (r: Option<Side>)
        ensures
            r == tray_origin_of(self@),
    {
        if self.staged.len() > 0 {
            Some(self.staged[0].origin)
        } else {
            None
        }
    }

    /// Whether files of the browsed side cannot join the tray, because it
    /// holds files of the other side.
    pub fn tray_blocked(&self) -> (r: bool)
        ensures
            r == (tray_origin_of(self@) is Some && tray_origin_of(self@)->0 != self@.side),
    {
        match self.tray_origin() {
            Some(o) => o != self.side,
            None => false,
        }
    }

    /// Empties the tray.
    pub fn clear_tray(&mut self)
        ensures
            final(self)@ == (FileManagerV { staged: Seq::empty(), notice: None, ..old(self)@ }),
    {
        self.staged = Vec::new();
        self.notice = None;
        assert(staged_view(self.staged@) =~= Seq::empty());
    }

    /// The side the tray's files will go to: the other one.
    pub fn tray_destination(&self) -> (r: Option<Side>)
        ensures
            r == match tray_origin_of(self@) {
                Some(o) => Some(crate::files::kinds::other_side(o)),
                None => None,
            },
    {
        match self.tray_origin() {
            Some(Side::Pc) => Some(Side::Android),
            Some(Side::Android) => Some(Side::Pc),
            None => None,
        }
    }

    /// The state after the dialog's files are offered to the tray: refused with
/// a notice while the tray holds files of the phone, else the files it does
/// not hold yet join it.
pub open spec fn dialog_staged(v: FileManagerV, files: Seq<PickedV>) -> FileManagerV {
    if tray_origin_of(v) == Some(Side::Android) {
        FileManagerV { notice: Some(phone_tray_notice()), ..v }
    } else {
        FileManagerV { notice: None, staged: picked_staged(v.staged, files), ..v }
    }
}

/// The text of the transfer button.
    pub fn transfer_label(&self) -> (r: String)
        ensures
            r@ == transfer_label_text(self@),
    {
        let n = self.staged.len();
        match self.tray_origin() {
            Some(Side::Android) => {
                let mut r = owned("⬅   Traer ");
                push_dec(&mut r, n as u64);
                r.append(" al PC");
                r
            },
            Some(Side::Pc) => {
                let mut r = owned("➡   Enviar ");
                push_dec(&mut r, n as u64);
                r.append(" al celular");
                r
            },
            None => owned("Selecciona archivos"),
        }
    }

    /// Whether a file at `path` is in the tray.
    pub fn is_staged(&self, path: &str) -> (r: bool)
        ensures
            r == staged_path(self@.staged, path@),
    {
        let ghost sv = staged_view(self.staged@);
        let mut i: usize = 0;
        while i < self.staged.len()
            invariant
                i <= self.staged@.len(),
                sv == staged_view(self.staged@),
                forall|j: int| 0 <= j < i ==> sv[j].path != path@,
            decreases self.staged@.len() - i,
        {
            if str_eq(self.staged[i].path.as_str(), path) {
                assert(sv[i as int].path == path@);
                return true;
            }
            i = i + 1;
        }
        false
    }

    /// Picks the listed entry `entry` for the tray.
    pub fn stage(&mut self, entry: &FileEntry)
        ensures
            final(self)@ == staged_with(old(self)@, entry@),
    {
        if entry.is_dir || self.is_staged(entry.path.as_str()) {
            return ;
        }
        match self.tray_origin() {
            Some(origin) => {
                if origin != self.side {
                    self.notice = Some(
                        owned(
                            "La bandeja ya tiene archivos del otro dispositivo. Transfierelos o vaciala primero.",
                        ),
                    );
                    return ;
                }
            },
            None => {},
        }
        self.notice = None;
        let f = StagedFile {
            name: entry.name.clone(),
            path: entry.path.clone(),
            origin: self.side,
            size: entry.size,
            category: entry.category,
        };
        let ghost before = staged_view(self.staged@);
        self.staged.push(f);
        assert(staged_view(self.staged@) =~= before.push(f@));
    }

    /// Takes the files at `path` out of the tray.
    pub fn unstage(&mut self, path: &str)
        ensures
            final(self)@ == (FileManagerV { staged: unstaged(old(self)@.staged, path@), ..old(self)@ }),
    {
        let ghost sv = staged_view(self.staged@);
        let mut items: Vec<StagedFile> = Vec::new();
        std::mem::swap(&mut items, &mut self.staged);
        let ghost old_items = items@;
        let n = items.len();
        let mut kept: Vec<StagedFile> = Vec::new();
        let mut i: usize = 0;
        while items.len() > 0
            invariant
                i <= n,
                n == old_items.len(),
                sv == staged_view(old_items),
                items@ == old_items.skip(i as int),
                staged_view(kept@) == unstaged(sv.take(i as int), path@),
            decreases items@.len(),
        {
            assert(sv.take(i + 1).drop_last() =~= sv.take(i as int));
            assert(sv.take(i + 1).last() == items@[0]@);
            let f = items.remove(0);
            if !str_eq(f.path.as_str(), path) {
                let ghost before = staged_view(kept@);
                kept.push(f);
                assert(staged_view(kept@) =~= before.push(f@));
            }
            i = i + 1;
            assert(items@ =~= old_items.skip(i as int));
        }
        assert(sv.take(n as int) =~= sv);
        self.staged = kept;
    }

    /// Picks every file that the listing shows.
    pub fn stage_all_visible(&mut self)
        ensures
            final(self)@ == staged_all(old(self)@, visible_entries(old(self)@)),
    {
        let visible = self.visible();
        let mut items: Vec<FileEntry> = Vec::new();
        let mut k: usize = 0;
        while k < visible.len()
            invariant
                k <= visible@.len(),
                entries_view(items@) == visible@.take(k as int).map_values(|e: &FileEntry| e@),
            decreases visible@.len() - k,
        {
            let e = visible[k].clone();
            proof {
                crate::files::entry::lemma_entries_view_push(items@, e);
            }
            items.push(e);
            k = k + 1;
            assert(entries_view(items@) =~= visible@.take(k as int).map_values(|e: &FileEntry| e@));
        }
        assert(visible@.take(visible@.len() as int) =~= visible@);
        let ghost es = entries_view(items@);
        let ghost v0 = self@;
        assert(es == visible_entries(v0));
        let mut i: usize = 0;
        while i < items.len()
            invariant
                i <= items@.len(),
                es == entries_view(items@),
                self@ == staged_all(v0, es.take(i as int)),
            decreases items@.len() - i,
        {
            assert(es.take(i + 1).drop_last() =~= es.take(i as int));
            assert(es.take(i + 1).last() == items@[i as int]@);
            self.stage(&items[i]);
            i = i + 1;
        }
        assert(es.take(items@.len() as int) =~= es);
    }

    /// Whether the computer's file dialog may open: not while the tray holds
    /// files of the phone, which a notice then says.
    pub fn dialog_allowed(&mut self) -> (r: bool)
        ensures
            r == (tray_origin_of(old(self)@) != Some(Side::Android)),
            final(self)@ == if r {
                old(self)@
            } else {
                FileManagerV { notice: Some(phone_tray_notice()), ..old(self)@ }
            },
    {
        if self.tray_origin() == Some(Side::Android) {
            self.notice = Some(owned("La bandeja tiene archivos del celular. Vacíala para cargar desde el PC."));
            return false;
        }
        true
    }

    /// Adds the files chosen in the computer's file dialog to the tray,
    /// except those it already holds; refused, with a notice, while the tray
    /// holds files of the phone.
    pub fn stage_from_dialog(&mut self, picked: Vec<PickedFile>)
        ensures
            final(self)@ == dialog_staged(old(self)@, picked@.map_values(|f: PickedFile| f@)),
    {
        if self.tray_origin() == Some(Side::Android) {
            self.notice = Some(owned("La bandeja tiene archivos del celular. Vacíala para cargar desde el PC."));
            return;
        }
        self.notice = None;
        let ghost pv = picked@.map_values(|f: PickedFile| f@);
        let ghost s0 = self@.staged;
        let mut i: usize = 0;
        while i < picked.len()
            invariant
                i <= picked@.len(),
                pv == picked@.map_values(|f: PickedFile| f@),
                self@ == (FileManagerV {
                    notice: None,
                    staged: picked_staged(s0, pv.take(i as int)),
                    ..old(self)@
                }),
            decreases picked@.len() - i,
        {
            assert(pv.take(i + 1).drop_last() =~= pv.take(i as int));
            assert(pv.take(i + 1).last() == picked@[i as int]@);
            let f = &picked[i];
            if !self.is_staged(f.path.as_str()) {
                let sf = StagedFile {
                    category: category_of(f.name.as_str()),
                    name: f.name.clone(),
                    path: f.path.clone(),
                    origin: Side::Pc,
                    size: f.size,
                };
                let ghost before = staged_view(self.staged@);
                self.staged.push(sf);
                assert(staged_view(self.staged@) =~= before.push(sf@));
            }
            i = i + 1;
        }
        assert(pv.take(picked@.len() as int) =~= pv);
    }

    // ── transfers ──

    /// Sends every file of the tray to the other side through the device
    /// `serial`; the tray is emptied.
    pub fn transfer_staged(&mut self, serial: &str)
        ensures
            final(self)@ == tray_sent(old(self)@, serial@),
    {
        let ghost v0 = self@;
        let mut staged: Vec<StagedFile> = Vec::new();
        std::mem::swap(&mut staged, &mut self.staged);
        self.notice = None;
        let android_dest = match self.android_dest {
            AndroidDest::Actual => {
                let pv = chars_of(self.android_path.as_str());
                string_of(trim_end_matching(pv.as_slice(), '/').as_slice())
            },
            other => owned(other.path()),
        };
        assert(android_dest@ == android_target(v0));
        let pc_dest = self.pc_dest.clone();
        let ghost sv = staged_view(staged@);
        let ghost t0 = v0.transfers;
        let ghost j0 = v0.jobs;
        let mut i: usize = 0;
        while i < staged.len()
            invariant
                i <= staged@.len(),
                sv == staged_view(staged@),
                sv == v0.staged,
                android_dest@ == android_target(v0),
                pc_dest@ == v0.pc_dest,
                self@ == (FileManagerV {
                    staged: Seq::empty(),
                    notice: None,
                    transfers: t0 + Seq::new(
                        i as nat,
                        |k: int|
                            TransferV {
                                name: sv[k].name,
                                direction: crate::files::kinds::other_side(sv[k].origin),
                                state: TransferStateV::Pendiente,
                            },
                    ),
                    jobs: j0 + Seq::new(i as nat, |k: int| copy_job(sv[k], t0.len() + k, serial@, v0)),
                    ..v0
                }),
            decreases staged@.len() - i,
        {
            let file = &staged[i];
            let index = self.transfers.len();
            let destino = match file.origin {
                Side::Pc => Side::Android,
                Side::Android => Side::Pc,
            };
            let t = Transfer {
                name: file.name.clone(),
                direction: destino,
                state: TransferState::Pendiente,
            };
            let ghost tb = transfers_view(self.transfers@);
            self.transfers.push(t);
            assert(transfers_view(self.transfers@) =~= tb.push(t@));
            let job = match destino {
                Side::Android => Job::Push {
                    index: index,
                    serial: owned(serial),
                    src: file.path.clone(),
                    dst: android_dest.clone(),
                },
                Side::Pc => Job::Pull {
                    index: index,
                    serial: owned(serial),
                    src: file.path.clone(),
                    dst: pc_dest.clone(),
                },
            };
            assert(sv[i as int] == file@);
            self.dispatch(job, 0, None);
            i = i + 1;
            assert(self@ =~= (FileManagerV {
                staged: Seq::empty(),
                notice: None,
                transfers: t0 + Seq::new(
                    i as nat,
                    |k: int|
                        TransferV {
                            name: sv[k].name,
                            direction: crate::files::kinds::other_side(sv[k].origin),
                            state: TransferStateV::Pendiente,
                        },
                ),
                jobs: j0 + Seq::new(i as nat, |k: int| copy_job(sv[k], t0.len() + k, serial@, v0)),
                ..v0
            }));
        }
    }

    fn set_transfer_state(&mut self, i: usize, state: TransferState)
        requires
            i < old(self).transfers@.len(),
        ensures
            final(self)@ == (FileManagerV {
                transfers: old(self)@.transfers.update(
                    i as int,
                    TransferV { state: state@, ..old(self)@.transfers[i as int] },
                ),
                ..old(self)@
            }),
    {
        let t = Transfer {
            name: self.transfers[i].name.clone(),
            direction: self.transfers[i].direction,
            state: state,
        };
        let ghost tb = transfers_view(self.transfers@);
        self.transfers.set(i, t);
        assert(transfers_view(self.transfers@) =~= tb.update(i as int, t@));
    }

    /// One frame's bookkeeping at time `now` (milliseconds): starts a
    /// device-wide search that is due, applies the workers' `events` in
    /// order, and once a transfer has finished and none is active any more,
    /// drops the cache and reloads the folder.
    pub fn poll(&mut self, now: u64, serial: Option<&str>, events: Vec<Event>)
        ensures
            final(self)@ == polled(old(self)@, now, opt_str(serial), crate::files::tray::events_view(events@)),
    {
        let due = match self.pending_search {
            Some(at) => now >= at && now - at >= DEBOUNCE_MS,
            None => false,
        };
        if due {
            self.pending_search = None;
            self.launch_search(serial);
        }
        let current = self.token;
        let ghost v1 = self@;
        let ghost evs = crate::files::tray::events_view(events@);
        let ghost old_events = events@;
        let n = events.len();
        let mut events = events;
        let mut done = false;
        let mut i: usize = 0;
        assert(evs.take(0) =~= Seq::<EventV>::empty());
        while events.len() > 0
            invariant
                i <= n,
                n == old_events.len(),
                evs == crate::files::tray::events_view(old_events),
                events@ == old_events.skip(i as int),
                current == v1.token,
                (self@, done) == applied_all(v1, false, current, evs.take(i as int)),
            decreases events@.len(),
        {
            assert(evs.take(i + 1).drop_last() =~= evs.take(i as int));
            assert(evs.take(i + 1).last() == events@[0]@);
            let ev = events.remove(0);
            match ev {
                Event::Result { token, key, entries } => {
                    if token >= current {
                        match key {
                            Some(k) => {
                                let copy = clone_entries(&entries);
                                self.cache.insert(k, copy);
                            },
                            None => {},
                        }
                        self.entries = entries;
                        self.loading = false;
                        self.error = None;
                    }
                },
                Event::Failed { token, message } => {
                    if token >= current {
                        self.loading = false;
                        self.error = Some(message);
                    }
                },
                Event::TransferStarted(k) => {
                    if k < self.transfers.len() {
                        self.set_transfer_state(k, TransferState::EnCurso);
                    }
                },
                Event::TransferDone(k, res) => {
                    if k < self.transfers.len() {
                        let state = match res {
                            Ok(()) => TransferState::Listo,
                            Err(e) => TransferState::Error(e),
                        };
                        self.set_transfer_state(k, state);
                    }
                    done = true;
                },
            }
            i = i + 1;
            assert(events@ =~= old_events.skip(i as int));
        }
        assert(evs.take(n as int) =~= evs);
        if done && self.active_transfers() == 0 {
            self.cache.clear();
            self.reload(serial);
        }
    }

    /// How many transfers are pending or running.
    pub fn active_transfers(&self) -> (r: usize)
        ensures
            r == active_count(self@.transfers),
    {
        let ghost tv = transfers_view(self.transfers@);
        let mut n: usize = 0;
        let mut i: usize = 0;
        while i < self.transfers.len()
            invariant
                i <= self.transfers@.len(),
                tv == transfers_view(self.transfers@),
                n == active_count(tv.take(i as int)),
                n <= i,
            decreases self.transfers@.len() - i,
        {
            assert(tv.take(i + 1).drop_last() =~= tv.take(i as int));
            assert(tv.take(i + 1).last() == self.transfers@[i as int]@);
            match self.transfers[i].state {
                TransferState::Pendiente | TransferState::EnCurso => n = n + 1,
                _ => {},
            }
            i = i + 1;
        }
        assert(tv.take(self.transfers@.len() as int) =~= tv);
        n
    }
}

} // verus!
