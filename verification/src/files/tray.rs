//! The tray of files picked for transfer, the transfers it starts, and the
//! work that the file manager hands out and hears back from.

use vstd::prelude::*;
use crate::files::entry::{entries_view, EntryV, FileEntry};
use crate::files::kinds::{Category, Side};
use crate::files::listing::MediaKind;

verus! {

/// A file waiting in the tray.
pub struct StagedFile {
    pub name: String,
    pub path: String,
    pub origin: Side,
    pub size: u64,
    pub category: Category,
}

#[verifier::ext_equal]
pub struct StagedV {
    pub name: Seq<char>,
    pub path: Seq<char>,
    pub origin: Side,
    pub size: u64,
    pub category: Category,
}

impl View for StagedFile {
    type V = StagedV;

    open spec fn view(&self) -> StagedV {
        StagedV {
            name: self.name@,
            path: self.path@,
            origin: self.origin,
            size: self.size,
            category: self.category,
        }
    }
}

pub open spec fn staged_view(s: Seq<StagedFile>) -> Seq<StagedV> {
    s.map_values(|f: StagedFile| f@)
}

/// Progress of one transfer.
#[derive(PartialEq, Eq, Debug)]
pub enum TransferState {
    Pendiente,
    EnCurso,
    Listo,
    Error(String),
}

pub enum TransferStateV {
    Pendiente,
    EnCurso,
    Listo,
    Error(Seq<char>),
}

impl View for TransferState {
    type V = TransferStateV;

    open spec fn view(&self) -> TransferStateV {
        match self {
            TransferState::Pendiente => TransferStateV::Pendiente,
            TransferState::EnCurso => TransferStateV::EnCurso,
            TransferState::Listo => TransferStateV::Listo,
            TransferState::Error(m) => TransferStateV::Error(m@),
        }
    }
}

/// One file sent or brought, and how far it got.
pub struct Transfer {
    pub name: String,
    pub direction: Side,
    pub state: TransferState,
}

#[verifier::ext_equal]
pub struct TransferV {
    pub name: Seq<char>,
    pub direction: Side,
    pub state: TransferStateV,
}

impl View for Transfer {
    type V = TransferV;

    open spec fn view(&self) -> TransferV {
        TransferV { name: self.name@, direction: self.direction, state: self.state@ }
    }
}

pub open spec fn transfers_view(s: Seq<Transfer>) -> Seq<TransferV> {
    s.map_values(|t: Transfer| t@)
}

/// Work for a background worker: read a folder, search, read the media
/// index, or copy one file.
pub enum Job {
    ListPc(String),
    ListAndroid { serial: String, path: String },
    SearchPc { root: String, query: String, category: Category },
    SearchAndroid { serial: String, query: String, category: Category },
    MediaAndroid { serial: String, kind: MediaKind },
    Push { index: usize, serial: String, src: String, dst: String },
    Pull { index: usize, serial: String, src: String, dst: String },
}

pub enum JobV {
    ListPc(Seq<char>),
    ListAndroid { serial: Seq<char>, path: Seq<char> },
    SearchPc { root: Seq<char>, query: Seq<char>, category: Category },
    SearchAndroid { serial: Seq<char>, query: Seq<char>, category: Category },
    MediaAndroid { serial: Seq<char>, kind: MediaKind },
    Push { index: usize, serial: Seq<char>, src: Seq<char>, dst: Seq<char> },
    Pull { index: usize, serial: Seq<char>, src: Seq<char>, dst: Seq<char> },
}

impl View for Job {
    type V = JobV;

    open spec fn view(&self) -> JobV {
        match self {
            Job::ListPc(p) => JobV::ListPc(p@),
            Job::ListAndroid { serial, path } => JobV::ListAndroid { serial: serial@, path: path@ },
            Job::SearchPc { root, query, category } => JobV::SearchPc {
                root: root@,
                query: query@,
                category: *category,
            },
            Job::SearchAndroid { serial, query, category } => JobV::SearchAndroid {
                serial: serial@,
                query: query@,
                category: *category,
            },
            Job::MediaAndroid { serial, kind } => JobV::MediaAndroid { serial: serial@, kind: *kind },
            Job::Push { index, serial, src, dst } => JobV::Push {
                index: *index,
                serial: serial@,
                src: src@,
                dst: dst@,
            },
            Job::Pull { index, serial, src, dst } => JobV::Pull {
                index: *index,
                serial: serial@,
                src: src@,
                dst: dst@,
            },
        }
    }
}

pub open spec fn opt_text(o: Option<String>) -> Option<Seq<char>> {
    match o {
        Some(s) => Some(s@),
        None => None,
    }
}

/// A job handed out, with the request number its answer carries and the
/// folder key its listing is stored under, if any.
pub struct Dispatch {
    pub job: Job,
    pub token: u64,
    pub key: Option<String>,
}

pub struct DispatchV {
    pub job: JobV,
    pub token: u64,
    pub key: Option<Seq<char>>,
}

impl View for Dispatch {
    type V = DispatchV;

    open spec fn view(&self) -> DispatchV {
        DispatchV { job: self.job@, token: self.token, key: opt_text(self.key) }
    }
}

pub open spec fn dispatches_view(s: Seq<Dispatch>) -> Seq<DispatchV> {
    s.map_values(|d: Dispatch| d@)
}

/// What a worker reports back.
pub enum Event {
    Result { token: u64, key: Option<String>, entries: Vec<FileEntry> },
    Failed { token: u64, message: String },
    TransferStarted(usize),
    TransferDone(usize, Result<(), String>),
}

pub enum EventV {
    Result { token: u64, key: Option<Seq<char>>, entries: Seq<EntryV> },
    Failed { token: u64, message: Seq<char> },
    TransferStarted(usize),
    TransferDone(usize, Result<(), Seq<char>>),
}

impl View for Event {
    type V = EventV;

    open spec fn view(&self) -> EventV {
        match self {
            Event::Result { token, key, entries } => EventV::Result {
                token: *token,
                key: opt_text(*key),
                entries: entries_view(entries@),
            },
            Event::Failed { token, message } => EventV::Failed { token: *token, message: message@ },
            Event::TransferStarted(i) => EventV::TransferStarted(*i),
            Event::TransferDone(i, r) => EventV::TransferDone(
                *i,
                match r {
                    Ok(()) => Ok(()),
                    Err(m) => Err(m@),
                },
            ),
        }
    }
}

pub open spec fn events_view(s: Seq<Event>) -> Seq<EventV> {
    s.map_values(|e: Event| e@)
}

} // verus!
